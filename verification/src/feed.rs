//! The feed multiplexer's verified surface: framing the one subscription
//! request and classifying inbound messages by their type discriminator.
//!
//! The transport itself (the socket, JSON decoding, the event loop) lives
//! outside the library; it hands decoded events to
//! [`crate::replay::LiveSession::handle_event`].

use vstd::prelude::*;
use vstd::string::StringExecFns;

verus! {

/// The four multiplexed channel types of the feed.
#[derive(Clone, Copy, Debug, PartialEq, Eq, Structural)]
pub enum StreamKind {
    /// Executed trades.
    TradeStream,
    /// Order-book snapshots.
    OrderbookStream,
    /// Ticker observations.
    TickerStream,
    /// One-minute candle ticks.
    CandleStream,
}

/// Which channel a message's type discriminator names.
pub open spec fn classify_spec(ty: Seq<char>) -> Option<StreamKind> {
    if ty == "trade"@ {
        Some(StreamKind::TradeStream)
    } else if ty == "orderbook"@ {
        Some(StreamKind::OrderbookStream)
    } else if ty == "ticker"@ {
        Some(StreamKind::TickerStream)
    } else if ty == "candle.1m"@ {
        Some(StreamKind::CandleStream)
    } else {
        None
    }
}

/// Routes a message's type discriminator to its channel; unknown
/// discriminators rate no channel and are dropped by the caller.
pub fn classify_message(ty: &String) -> (r: Option<StreamKind>)
    ensures
        r == classify_spec(ty@),
{
    if ty.eq(&String::from_str("trade")) {
        Some(StreamKind::TradeStream)
    } else if ty.eq(&String::from_str("orderbook")) {
        Some(StreamKind::OrderbookStream)
    } else if ty.eq(&String::from_str("ticker")) {
        Some(StreamKind::TickerStream)
    } else if ty.eq(&String::from_str("candle.1m")) {
        Some(StreamKind::CandleStream)
    } else {
        None
    }
}

/// The quoted, comma-separated rendering of the instrument codes, used
/// verbatim inside the subscription request's code lists.
pub open spec fn quoted_codes(codes: Seq<Seq<char>>) -> Seq<char>
    decreases codes.len(),
{
    if codes.len() == 0 {
        Seq::empty()
    } else if codes.len() == 1 {
        "\""@ + codes.first() + "\""@
    } else {
        "\""@ + codes.first() + "\","@ + quoted_codes(codes.drop_first())
    }
}

/// One channel filter object of the subscription request, with its sorted
/// JSON keys.
pub open spec fn channel_section(ty: Seq<char>, codes: Seq<Seq<char>>) -> Seq<char> {
    "{\"codes\":["@ + quoted_codes(codes) + "],\"is_only_realtime\":true,\"type\":\""@ + ty
        + "\"}"@
}

/// The one subscription request of a run: a JSON array with a ticket, one
/// filter object per channel type listing every instrument code, and the
/// compact-format directive.
pub open spec fn subscription_spec(codes: Seq<Seq<char>>) -> Seq<char> {
    "[{\"ticket\":\"unique_ticket\"},"@ + channel_section("trade"@, codes) + ","@
        + channel_section("orderbook"@, codes) + ","@ + channel_section("ticker"@, codes) + ","@
        + channel_section("candle.1m"@, codes) + ",{\"format\":\"SIMPLE\"}]"@
}

/// Renders the instrument codes as a quoted, comma-separated list.
fn render_codes(codes: &Vec<String>) -> (r: String)
    ensures
        r@ == quoted_codes(codes@.map_values(|s: String| s@)),
{
    let ghost model = codes@.map_values(|s: String| s@);
    let mut r = String::new();
    let n = codes.len();
    let mut i: usize = 0;
    proof {
        assert(r@ =~= Seq::<char>::empty());
    }
    while i < n
        invariant
            i <= n,
            n == codes@.len(),
            model == codes@.map_values(|s: String| s@),
            i < n ==> r@ == quoted_prefix(model, i as int),
            i == n && n > 0 ==> r@ == quoted_codes(model),
            i == 0 ==> r@ =~= Seq::<char>::empty(),
        decreases n - i,
    {
        proof {
            lemma_quoted_step(model, i as int);
        }
        r.append("\"");
        r.append(codes[i].as_str());
        if i + 1 < n {
            r.append("\",");
        } else {
            r.append("\"");
        }
        i = i + 1;
    }
    proof {
        if n == 0 {
            assert(quoted_codes(model) =~= Seq::<char>::empty());
        }
    }
    r
}

/// The rendering of the first `i` codes, every one of them followed by a
/// comma.
pub open spec fn quoted_prefix(codes: Seq<Seq<char>>, i: int) -> Seq<char>
    decreases i,
{
    if i <= 0 {
        Seq::empty()
    } else {
        quoted_prefix(codes, i - 1) + "\""@ + codes[i - 1] + "\","@
    }
}

proof fn lemma_quoted_step(codes: Seq<Seq<char>>, i: int)
    requires
        0 <= i < codes.len(),
    ensures
        i + 1 < codes.len() ==> quoted_prefix(codes, i + 1) =~= quoted_prefix(codes, i) + "\""@
            + codes[i] + "\","@,
        i + 1 == codes.len() ==> quoted_codes(codes) =~= quoted_prefix(codes, i) + "\""@ + codes[i]
            + "\""@,
    decreases codes.len() - i,
{
    lemma_quoted_split(codes, i);
}

/// The whole rendering is any comma-terminated prefix followed by the
/// rendering of the remaining codes.
proof fn lemma_quoted_split(codes: Seq<Seq<char>>, i: int)
    requires
        0 <= i < codes.len(),
    ensures
        quoted_codes(codes) =~= quoted_prefix(codes, i) + quoted_codes(codes.subrange(
            i,
            codes.len() as int,
        )),
    decreases i,
{
    if i == 0 {
        assert(codes.subrange(0, codes.len() as int) =~= codes);
        assert(quoted_prefix(codes, 0) =~= Seq::<char>::empty());
    } else {
        lemma_quoted_split(codes, i - 1);
        let tail_prev = codes.subrange(i - 1, codes.len() as int);
        let tail = codes.subrange(i, codes.len() as int);
        assert(tail_prev.len() >= 2 ==> tail_prev.drop_first() =~= tail);
        assert(tail_prev.first() == codes[i - 1]);
        if tail_prev.len() >= 2 {
            assert(quoted_codes(tail_prev) =~= "\""@ + codes[i - 1] + "\","@ + quoted_codes(tail));
        }
    }
}

/// Builds the subscription request text for the given instrument codes,
/// exactly as [`subscription_spec`] lays it out. Codes are inserted
/// verbatim.
pub fn subscription_request(codes: &Vec<String>) -> (r: String)
    ensures
        r@ == subscription_spec(codes@.map_values(|s: String| s@)),
{
    let list = render_codes(codes);
    let mut r = String::from_str("[{\"ticket\":\"unique_ticket\"},");
    append_section(&mut r, "trade", &list);
    r.append(",");
    append_section(&mut r, "orderbook", &list);
    r.append(",");
    append_section(&mut r, "ticker", &list);
    r.append(",");
    append_section(&mut r, "candle.1m", &list);
    r.append(",{\"format\":\"SIMPLE\"}]");
    proof {
        assert(r@ =~= subscription_spec(codes@.map_values(|s: String| s@)));
    }
    r
}

/// Appends one channel filter object to the request being built.
fn append_section(r: &mut String, ty: &str, list: &String)
    ensures
        final(r)@ == old(r)@ + "{\"codes\":["@ + list@ + "],\"is_only_realtime\":true,\"type\":\""@
            + ty@ + "\"}"@,
{
    r.append("{\"codes\":[");
    r.append(list.as_str());
    r.append("],\"is_only_realtime\":true,\"type\":\"");
    r.append(ty);
    r.append("\"}");
    proof {
        assert(r@ =~= old(r)@ + "{\"codes\":["@ + list@
            + "],\"is_only_realtime\":true,\"type\":\""@ + ty@ + "\"}"@);
    }
}

} // verus!
