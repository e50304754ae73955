//! Price-level volume footprints.
//!
//! A footprint maps each exact trade price of one finalized minute to the
//! volume that traded there, split by aggressor side. Levels are kept sorted
//! by ascending price and each price appears at most once.
//!
//! The builder's contract carries the conservation law: the ask-side and
//! bid-side totals of the footprint add up to exactly the total volume of the
//! trades folded in — every trade counted once, none dropped.

use vstd::prelude::*;
use crate::trade::AskBid;

verus! {

/// Largest total volume a footprint accepts, so that every per-level sum
/// fits in 64 bits.
pub const FOOTPRINT_VOLUME_LIMIT: u64 = 1_000_000_000_000_000_000;

/// A trade reduced to what the footprint needs: side, price and volume.
#[derive(Clone, Copy, Debug, PartialEq, Eq, Structural)]
pub struct FootprintTrade {
    /// Aggressor side of the trade.
    pub ask_bid: AskBid,
    /// Execution price, in fixed-point price units.
    pub price: u64,
    /// Executed volume, in fixed-point volume units.
    pub volume: u64,
}

/// Volume traded at one price level, split by aggressor side.
#[derive(Clone, Copy, Debug, PartialEq, Eq, Structural)]
pub struct FootprintValue {
    /// Volume of seller-initiated trades at this price.
    pub ask_volume: u64,
    /// Volume of buyer-initiated (or unknown-side) trades at this price.
    pub bid_volume: u64,
}

/// One price level of a footprint.
#[derive(Clone, Copy, Debug, PartialEq, Eq, Structural)]
pub struct FootprintLevel {
    /// The exact trade price of the level.
    pub price: u64,
    /// The volume that traded at this price.
    pub value: FootprintValue,
}

/// A finalized minute's footprint: its price levels in ascending order.
#[derive(Clone, Debug)]
pub struct Footprint {
    /// The price levels, sorted by strictly ascending price.
    pub levels: Vec<FootprintLevel>,
}

/// Ask-side volume of `ts` at price `p`.
pub open spec fn ask_at(ts: Seq<FootprintTrade>, p: u64) -> int
    decreases ts.len(),
{
    if ts.len() == 0 {
        0
    } else {
        (if ts.first().price == p && ts.first().ask_bid == AskBid::Ask {
            ts.first().volume as int
        } else {
            0
        }) + ask_at(ts.drop_first(), p)
    }
}

/// Bid-side (buyer-initiated or unknown) volume of `ts` at price `p`.
pub open spec fn bid_at(ts: Seq<FootprintTrade>, p: u64) -> int
    decreases ts.len(),
{
    if ts.len() == 0 {
        0
    } else {
        (if ts.first().price == p && ts.first().ask_bid != AskBid::Ask {
            ts.first().volume as int
        } else {
            0
        }) + bid_at(ts.drop_first(), p)
    }
}

/// Total volume of all trades in `ts`.
pub open spec fn total_vol(ts: Seq<FootprintTrade>) -> int
    decreases ts.len(),
{
    if ts.len() == 0 {
        0
    } else {
        ts.first().volume + total_vol(ts.drop_first())
    }
}

/// Whether some trade in `ts` was executed at price `p`.
pub open spec fn has_price(ts: Seq<FootprintTrade>, p: u64) -> bool {
    exists|k: int| 0 <= k < ts.len() && ts[k].price == p
}

/// Ask-side volume recorded by the levels `ls` at price `p`.
pub open spec fn fp_ask(ls: Seq<FootprintLevel>, p: u64) -> int
    decreases ls.len(),
{
    if ls.len() == 0 {
        0
    } else {
        (if ls.first().price == p {
            ls.first().value.ask_volume as int
        } else {
            0
        }) + fp_ask(ls.drop_first(), p)
    }
}

/// Bid-side volume recorded by the levels `ls` at price `p`.
pub open spec fn fp_bid(ls: Seq<FootprintLevel>, p: u64) -> int
    decreases ls.len(),
{
    if ls.len() == 0 {
        0
    } else {
        (if ls.first().price == p {
            ls.first().value.bid_volume as int
        } else {
            0
        }) + fp_bid(ls.drop_first(), p)
    }
}

/// Sum over all levels of ask-side plus bid-side volume.
pub open spec fn fp_total(ls: Seq<FootprintLevel>) -> int
    decreases ls.len(),
{
    if ls.len() == 0 {
        0
    } else {
        ls.first().value.ask_volume + ls.first().value.bid_volume + fp_total(ls.drop_first())
    }
}

/// Levels sorted by strictly ascending price (so each price appears once).
pub open spec fn levels_sorted(ls: Seq<FootprintLevel>) -> bool {
    forall|i: int, j: int| 0 <= i < j < ls.len() ==> ls[i].price < ls[j].price
}

impl Footprint {
    /// A well-formed footprint keeps its levels strictly sorted and its
    /// total volume within the accepted bound.
    pub open spec fn wf(self) -> bool {
        levels_sorted(self.levels@) && fp_total(self.levels@) <= FOOTPRINT_VOLUME_LIMIT
    }

    /// An empty footprint.
    pub fn new() -> (r: Footprint)
        ensures
            r.wf(),
            r.levels@.len() == 0,
    {
        Footprint { levels: Vec::new() }
    }
}

/// A fresh level holding one trade's volume on its side.
pub open spec fn level_of_trade(t: FootprintTrade) -> FootprintLevel {
    FootprintLevel {
        price: t.price,
        value: if t.ask_bid == AskBid::Ask {
            FootprintValue { ask_volume: t.volume, bid_volume: 0 }
        } else {
            FootprintValue { ask_volume: 0, bid_volume: t.volume }
        },
    }
}

/// A level with one more trade's volume folded onto its side. Volume sums
/// saturate only in the sense that the caller keeps them below the limit.
pub open spec fn bump_level(l: FootprintLevel, t: FootprintTrade) -> FootprintLevel {
    FootprintLevel {
        price: l.price,
        value: if t.ask_bid == AskBid::Ask {
            FootprintValue {
                ask_volume: (l.value.ask_volume + t.volume) as u64,
                bid_volume: l.value.bid_volume,
            }
        } else {
            FootprintValue {
                ask_volume: l.value.ask_volume,
                bid_volume: (l.value.bid_volume + t.volume) as u64,
            }
        },
    }
}

/// One trade folded into a sorted level sequence: bump the level with the
/// trade's price, or create it at its sorted position.
pub open spec fn fp_insert_one(ls: Seq<FootprintLevel>, t: FootprintTrade) -> Seq<FootprintLevel>
    decreases ls.len(),
{
    if ls.len() == 0 {
        seq![level_of_trade(t)]
    } else if t.price < ls.first().price {
        seq![level_of_trade(t)] + ls
    } else if t.price == ls.first().price {
        seq![bump_level(ls.first(), t)] + ls.drop_first()
    } else {
        seq![ls.first()] + fp_insert_one(ls.drop_first(), t)
    }
}

/// The footprint levels that folding the trades in order produces.
pub open spec fn fp_build(ts: Seq<FootprintTrade>) -> Seq<FootprintLevel>
    decreases ts.len(),
{
    if ts.len() == 0 {
        Seq::empty()
    } else {
        fp_insert_one(fp_build(ts.drop_last()), ts.last())
    }
}

proof fn lemma_trade_sums_push(ts: Seq<FootprintTrade>, t: FootprintTrade)
    ensures
        forall|p: u64|
            ask_at(#[trigger] ts.push(t), p) == ask_at(ts, p) + (if t.price == p && t.ask_bid
                == AskBid::Ask {
                t.volume as int
            } else {
                0
            }),
        forall|p: u64|
            bid_at(#[trigger] ts.push(t), p) == bid_at(ts, p) + (if t.price == p && t.ask_bid
                != AskBid::Ask {
                t.volume as int
            } else {
                0
            }),
        total_vol(ts.push(t)) == total_vol(ts) + t.volume,
    decreases ts.len(),
{
    if ts.len() == 0 {
        assert(ts.push(t).drop_first() =~= Seq::<FootprintTrade>::empty());
        assert(ts.push(t).first() == t);
        assert forall|p: u64|
            ask_at(#[trigger] ts.push(t), p) == ask_at(ts, p) + (if t.price == p && t.ask_bid
                == AskBid::Ask {
                t.volume as int
            } else {
                0
            }) by {
            assert(ask_at(ts.push(t).drop_first(), p) == 0);
            assert(ask_at(ts, p) == 0);
        }
        assert forall|p: u64|
            bid_at(#[trigger] ts.push(t), p) == bid_at(ts, p) + (if t.price == p && t.ask_bid
                != AskBid::Ask {
                t.volume as int
            } else {
                0
            }) by {
            assert(bid_at(ts.push(t).drop_first(), p) == 0);
            assert(bid_at(ts, p) == 0);
        }
        assert(total_vol(ts.push(t).drop_first()) == 0);
        assert(total_vol(ts) == 0);
    } else {
        assert(ts.push(t).drop_first() =~= ts.drop_first().push(t));
        assert(ts.push(t).first() == ts.first());
        lemma_trade_sums_push(ts.drop_first(), t);
        assert forall|p: u64|
            ask_at(#[trigger] ts.push(t), p) == ask_at(ts, p) + (if t.price == p && t.ask_bid
                == AskBid::Ask {
                t.volume as int
            } else {
                0
            }) by {
            assert(ask_at(ts.push(t), p) == (if ts.first().price == p && ts.first().ask_bid
                == AskBid::Ask {
                ts.first().volume as int
            } else {
                0
            }) + ask_at(ts.drop_first().push(t), p));
            assert(ask_at(ts, p) == (if ts.first().price == p && ts.first().ask_bid == AskBid::Ask {
                ts.first().volume as int
            } else {
                0
            }) + ask_at(ts.drop_first(), p));
        }
        assert forall|p: u64|
            bid_at(#[trigger] ts.push(t), p) == bid_at(ts, p) + (if t.price == p && t.ask_bid
                != AskBid::Ask {
                t.volume as int
            } else {
                0
            }) by {
            assert(bid_at(ts.push(t), p) == (if ts.first().price == p && ts.first().ask_bid
                != AskBid::Ask {
                ts.first().volume as int
            } else {
                0
            }) + bid_at(ts.drop_first().push(t), p));
            assert(bid_at(ts, p) == (if ts.first().price == p && ts.first().ask_bid != AskBid::Ask {
                ts.first().volume as int
            } else {
                0
            }) + bid_at(ts.drop_first(), p));
        }
        assert(total_vol(ts.push(t)) == ts.first().volume + total_vol(ts.drop_first().push(t)));
        assert(total_vol(ts) == ts.first().volume + total_vol(ts.drop_first()));
    }
}

proof fn lemma_trade_sums_nonneg(ts: Seq<FootprintTrade>)
    ensures
        forall|p: u64| 0 <= #[trigger] ask_at(ts, p),
        forall|p: u64| 0 <= #[trigger] bid_at(ts, p),
        0 <= total_vol(ts),
        forall|p: u64| #[trigger] ask_at(ts, p) + bid_at(ts, p) <= total_vol(ts),
    decreases ts.len(),
{
    if ts.len() == 0 {
        assert forall|p: u64| 0 <= #[trigger] ask_at(ts, p) by {
            assert(ask_at(ts, p) == 0);
        }
        assert forall|p: u64| 0 <= #[trigger] bid_at(ts, p) by {
            assert(bid_at(ts, p) == 0);
        }
        assert forall|p: u64| #[trigger] ask_at(ts, p) + bid_at(ts, p) <= total_vol(ts) by {
            assert(ask_at(ts, p) == 0);
            assert(bid_at(ts, p) == 0);
            assert(total_vol(ts) == 0);
        }
    } else {
        lemma_trade_sums_nonneg(ts.drop_first());
        assert forall|p: u64| 0 <= #[trigger] ask_at(ts, p) by {
            assert(ask_at(ts, p) == (if ts.first().price == p && ts.first().ask_bid == AskBid::Ask {
                ts.first().volume as int
            } else {
                0
            }) + ask_at(ts.drop_first(), p));
        }
        assert forall|p: u64| 0 <= #[trigger] bid_at(ts, p) by {
            assert(bid_at(ts, p) == (if ts.first().price == p && ts.first().ask_bid != AskBid::Ask {
                ts.first().volume as int
            } else {
                0
            }) + bid_at(ts.drop_first(), p));
        }
        assert forall|p: u64| #[trigger] ask_at(ts, p) + bid_at(ts, p) <= total_vol(ts) by {
            assert(ask_at(ts, p) == (if ts.first().price == p && ts.first().ask_bid == AskBid::Ask {
                ts.first().volume as int
            } else {
                0
            }) + ask_at(ts.drop_first(), p));
            assert(bid_at(ts, p) == (if ts.first().price == p && ts.first().ask_bid != AskBid::Ask {
                ts.first().volume as int
            } else {
                0
            }) + bid_at(ts.drop_first(), p));
            assert(total_vol(ts) == ts.first().volume + total_vol(ts.drop_first()));
        }
        assert(total_vol(ts) == ts.first().volume + total_vol(ts.drop_first()));
    }
}

/// The total volume of a prefix never exceeds the total volume of the whole.
proof fn lemma_total_vol_prefix(ts: Seq<FootprintTrade>, i: int)
    requires
        0 <= i <= ts.len(),
    ensures
        total_vol(ts.subrange(0, i)) <= total_vol(ts),
    decreases ts.len() - i,
{
    if i == ts.len() {
        assert(ts.subrange(0, i) =~= ts);
    } else {
        lemma_total_vol_prefix(ts, i + 1);
        assert(ts.subrange(0, i + 1) =~= ts.subrange(0, i).push(ts[i]));
        lemma_trade_sums_push(ts.subrange(0, i), ts[i]);
    }
}

proof fn lemma_fp_absent(ls: Seq<FootprintLevel>, p: u64)
    requires
        forall|k: int| 0 <= k < ls.len() ==> ls[k].price != p,
    ensures
        fp_ask(ls, p) == 0,
        fp_bid(ls, p) == 0,
    decreases ls.len(),
{
    if ls.len() > 0 {
        assert(ls.first() == ls[0]);
        lemma_fp_absent(ls.drop_first(), p);
    }
}

proof fn lemma_fp_nonneg(ls: Seq<FootprintLevel>)
    ensures
        forall|p: u64| 0 <= #[trigger] fp_ask(ls, p),
        forall|p: u64| 0 <= #[trigger] fp_bid(ls, p),
        0 <= fp_total(ls),
    decreases ls.len(),
{
    if ls.len() == 0 {
        assert forall|p: u64| 0 <= #[trigger] fp_ask(ls, p) by {
            assert(fp_ask(ls, p) == 0);
        }
        assert forall|p: u64| 0 <= #[trigger] fp_bid(ls, p) by {
            assert(fp_bid(ls, p) == 0);
        }
        assert(fp_total(ls) == 0);
    } else {
        lemma_fp_nonneg(ls.drop_first());
        assert forall|p: u64| 0 <= #[trigger] fp_ask(ls, p) by {
            assert(fp_ask(ls, p) == (if ls.first().price == p {
                ls.first().value.ask_volume as int
            } else {
                0
            }) + fp_ask(ls.drop_first(), p));
        }
        assert forall|p: u64| 0 <= #[trigger] fp_bid(ls, p) by {
            assert(fp_bid(ls, p) == (if ls.first().price == p {
                ls.first().value.bid_volume as int
            } else {
                0
            }) + fp_bid(ls.drop_first(), p));
        }
        assert(fp_total(ls) == ls.first().value.ask_volume + ls.first().value.bid_volume
            + fp_total(ls.drop_first()));
    }
}

/// In a strictly sorted footprint, the recorded volume at a level's price is
/// exactly that level's value: each level owns its price alone.
pub proof fn lemma_fp_value_at(ls: Seq<FootprintLevel>, k: int)
    requires
        levels_sorted(ls),
        0 <= k < ls.len(),
    ensures
        fp_ask(ls, ls[k].price) == ls[k].value.ask_volume,
        fp_bid(ls, ls[k].price) == ls[k].value.bid_volume,
    decreases k,
{
    if k == 0 {
        assert(ls.first() == ls[0]);
        assert(forall|j: int|
            0 <= j < ls.drop_first().len() ==> #[trigger] ls.drop_first()[j] == ls[j + 1]);
        lemma_fp_absent(ls.drop_first(), ls[0].price);
    } else {
        assert(ls.first() == ls[0]);
        assert(forall|j: int|
            0 <= j < ls.drop_first().len() ==> #[trigger] ls.drop_first()[j] == ls[j + 1]);
        lemma_fp_value_at(ls.drop_first(), k - 1);
    }
}

/// Replacing one level with another of the same price changes the recorded
/// sums only at that price, by the difference of the two values.
proof fn lemma_fp_update(ls: Seq<FootprintLevel>, k: int, nl: FootprintLevel)
    requires
        0 <= k < ls.len(),
        nl.price == ls[k].price,
    ensures
        forall|p: u64| p != nl.price ==> #[trigger] fp_ask(ls.update(k, nl), p) == fp_ask(ls, p),
        forall|p: u64| p != nl.price ==> #[trigger] fp_bid(ls.update(k, nl), p) == fp_bid(ls, p),
        fp_ask(ls.update(k, nl), nl.price) == fp_ask(ls, nl.price) - ls[k].value.ask_volume
            + nl.value.ask_volume,
        fp_bid(ls.update(k, nl), nl.price) == fp_bid(ls, nl.price) - ls[k].value.bid_volume
            + nl.value.bid_volume,
        fp_total(ls.update(k, nl)) == fp_total(ls) - ls[k].value.ask_volume
            - ls[k].value.bid_volume + nl.value.ask_volume + nl.value.bid_volume,
    decreases k,
{
    let u = ls.update(k, nl);
    if k == 0 {
        assert(u.drop_first() =~= ls.drop_first());
        assert(u.first() == nl);
        assert(ls.first() == ls[0]);
        assert forall|p: u64|
            fp_ask(u, p) == fp_ask(ls, p) - (if p == nl.price {
                ls[0].value.ask_volume as int
            } else {
                0
            }) + (if p == nl.price {
                nl.value.ask_volume as int
            } else {
                0
            }) && fp_bid(u, p) == fp_bid(ls, p) - (if p == nl.price {
                ls[0].value.bid_volume as int
            } else {
                0
            }) + (if p == nl.price {
                nl.value.bid_volume as int
            } else {
                0
            }) by {
            assert(fp_ask(u, p) == (if u.first().price == p {
                u.first().value.ask_volume as int
            } else {
                0
            }) + fp_ask(u.drop_first(), p));
            assert(fp_ask(ls, p) == (if ls.first().price == p {
                ls.first().value.ask_volume as int
            } else {
                0
            }) + fp_ask(ls.drop_first(), p));
            assert(fp_bid(u, p) == (if u.first().price == p {
                u.first().value.bid_volume as int
            } else {
                0
            }) + fp_bid(u.drop_first(), p));
            assert(fp_bid(ls, p) == (if ls.first().price == p {
                ls.first().value.bid_volume as int
            } else {
                0
            }) + fp_bid(ls.drop_first(), p));
        }
        assert(fp_total(u) == u.first().value.ask_volume + u.first().value.bid_volume + fp_total(
            u.drop_first(),
        ));
        assert(fp_total(ls) == ls.first().value.ask_volume + ls.first().value.bid_volume
            + fp_total(ls.drop_first()));
    } else {
        assert(u.drop_first() =~= ls.drop_first().update(k - 1, nl));
        assert(u.first() == ls.first());
        assert(ls.drop_first()[k - 1] == ls[k]);
        lemma_fp_update(ls.drop_first(), k - 1, nl);
        assert forall|p: u64|
            fp_ask(u, p) == fp_ask(ls, p) - (if p == nl.price {
                ls[k].value.ask_volume as int
            } else {
                0
            }) + (if p == nl.price {
                nl.value.ask_volume as int
            } else {
                0
            }) && fp_bid(u, p) == fp_bid(ls, p) - (if p == nl.price {
                ls[k].value.bid_volume as int
            } else {
                0
            }) + (if p == nl.price {
                nl.value.bid_volume as int
            } else {
                0
            }) by {
            assert(fp_ask(u, p) == (if u.first().price == p {
                u.first().value.ask_volume as int
            } else {
                0
            }) + fp_ask(u.drop_first(), p));
            assert(fp_ask(ls, p) == (if ls.first().price == p {
                ls.first().value.ask_volume as int
            } else {
                0
            }) + fp_ask(ls.drop_first(), p));
            assert(fp_bid(u, p) == (if u.first().price == p {
                u.first().value.bid_volume as int
            } else {
                0
            }) + fp_bid(u.drop_first(), p));
            assert(fp_bid(ls, p) == (if ls.first().price == p {
                ls.first().value.bid_volume as int
            } else {
                0
            }) + fp_bid(ls.drop_first(), p));
        }
        assert(fp_total(u) == u.first().value.ask_volume + u.first().value.bid_volume + fp_total(
            u.drop_first(),
        ));
        assert(fp_total(ls) == ls.first().value.ask_volume + ls.first().value.bid_volume
            + fp_total(ls.drop_first()));
    }
}

/// Inserting a level adds its value to the recorded sums at its price and
/// leaves every other price unchanged.
proof fn lemma_fp_insert(ls: Seq<FootprintLevel>, pos: int, nl: FootprintLevel)
    requires
        0 <= pos <= ls.len(),
    ensures
        forall|p: u64|
            #[trigger] fp_ask(ls.insert(pos, nl), p) == fp_ask(ls, p) + (if nl.price == p {
                nl.value.ask_volume as int
            } else {
                0
            }),
        forall|p: u64|
            #[trigger] fp_bid(ls.insert(pos, nl), p) == fp_bid(ls, p) + (if nl.price == p {
                nl.value.bid_volume as int
            } else {
                0
            }),
        fp_total(ls.insert(pos, nl)) == fp_total(ls) + nl.value.ask_volume + nl.value.bid_volume,
    decreases pos,
{
    let u = ls.insert(pos, nl);
    if pos == 0 {
        assert(u.drop_first() =~= ls);
        assert(u.first() == nl);
        assert forall|p: u64|
            fp_ask(u, p) == fp_ask(ls, p) + (if nl.price == p {
                nl.value.ask_volume as int
            } else {
                0
            }) && fp_bid(u, p) == fp_bid(ls, p) + (if nl.price == p {
                nl.value.bid_volume as int
            } else {
                0
            }) by {
            assert(fp_ask(u, p) == (if u.first().price == p {
                u.first().value.ask_volume as int
            } else {
                0
            }) + fp_ask(u.drop_first(), p));
            assert(fp_bid(u, p) == (if u.first().price == p {
                u.first().value.bid_volume as int
            } else {
                0
            }) + fp_bid(u.drop_first(), p));
        }
        assert(fp_total(u) == u.first().value.ask_volume + u.first().value.bid_volume + fp_total(
            u.drop_first(),
        ));
    } else {
        assert(u.drop_first() =~= ls.drop_first().insert(pos - 1, nl));
        assert(u.first() == ls.first());
        lemma_fp_insert(ls.drop_first(), pos - 1, nl);
        assert forall|p: u64|
            fp_ask(u, p) == fp_ask(ls, p) + (if nl.price == p {
                nl.value.ask_volume as int
            } else {
                0
            }) && fp_bid(u, p) == fp_bid(ls, p) + (if nl.price == p {
                nl.value.bid_volume as int
            } else {
                0
            }) by {
            assert(fp_ask(u, p) == (if u.first().price == p {
                u.first().value.ask_volume as int
            } else {
                0
            }) + fp_ask(u.drop_first(), p));
            assert(fp_ask(ls, p) == (if ls.first().price == p {
                ls.first().value.ask_volume as int
            } else {
                0
            }) + fp_ask(ls.drop_first(), p));
            assert(fp_bid(u, p) == (if u.first().price == p {
                u.first().value.bid_volume as int
            } else {
                0
            }) + fp_bid(u.drop_first(), p));
            assert(fp_bid(ls, p) == (if ls.first().price == p {
                ls.first().value.bid_volume as int
            } else {
                0
            }) + fp_bid(ls.drop_first(), p));
        }
        assert(fp_total(u) == u.first().value.ask_volume + u.first().value.bid_volume + fp_total(
            u.drop_first(),
        ));
        assert(fp_total(ls) == ls.first().value.ask_volume + ls.first().value.bid_volume
            + fp_total(ls.drop_first()));
    }
}

/// Folding one trade into a level sequence adds exactly its volume to the
/// recorded total, as long as the sums stay inside 64 bits.
proof fn lemma_fp_insert_one_total(ls: Seq<FootprintLevel>, t: FootprintTrade)
    requires
        fp_total(ls) + t.volume <= u64::MAX,
    ensures
        fp_total(fp_insert_one(ls, t)) == fp_total(ls) + t.volume,
    decreases ls.len(),
{
    lemma_fp_nonneg(ls);
    if ls.len() > 0 {
        lemma_fp_nonneg(ls.drop_first());
        assert(fp_total(ls) == ls.first().value.ask_volume + ls.first().value.bid_volume
            + fp_total(ls.drop_first()));
    }
    let u = fp_insert_one(ls, t);
    if ls.len() == 0 {
        assert(u =~= seq![level_of_trade(t)]);
        assert(u.drop_first() =~= Seq::<FootprintLevel>::empty());
        assert(u.first() == level_of_trade(t));
        assert(fp_total(u.drop_first()) == 0);
        assert(fp_total(u) == u.first().value.ask_volume + u.first().value.bid_volume + fp_total(
            u.drop_first(),
        ));
        assert(fp_total(ls) == 0);
    } else if t.price < ls.first().price {
        assert(u.drop_first() =~= ls);
        assert(u.first() == level_of_trade(t));
        assert(fp_total(u) == u.first().value.ask_volume + u.first().value.bid_volume + fp_total(
            u.drop_first(),
        ));
    } else if t.price == ls.first().price {
        assert(u.drop_first() =~= ls.drop_first());
        assert(u.first() == bump_level(ls.first(), t));
        assert(fp_total(u) == u.first().value.ask_volume + u.first().value.bid_volume + fp_total(
            u.drop_first(),
        ));
        assert(fp_total(ls) == ls.first().value.ask_volume + ls.first().value.bid_volume
            + fp_total(ls.drop_first()));
    } else {
        assert(u.drop_first() =~= fp_insert_one(ls.drop_first(), t));
        assert(u.first() == ls.first());
        lemma_fp_insert_one_total(ls.drop_first(), t);
        assert(fp_total(u) == u.first().value.ask_volume + u.first().value.bid_volume + fp_total(
            u.drop_first(),
        ));
        assert(fp_total(ls) == ls.first().value.ask_volume + ls.first().value.bid_volume
            + fp_total(ls.drop_first()));
    }
}

/// Footprint conservation: however a trade sequence is folded into levels,
/// the ask-side total plus the bid-side total of the resulting footprint
/// equals the total volume of the trades — every trade counted exactly
/// once, none dropped.
pub proof fn lemma_footprint_conservation(ts: Seq<FootprintTrade>)
    requires
        total_vol(ts) <= FOOTPRINT_VOLUME_LIMIT,
    ensures
        fp_total(fp_build(ts)) == total_vol(ts),
    decreases ts.len(),
{
    if ts.len() == 0 {
        assert(fp_build(ts) =~= Seq::<FootprintLevel>::empty());
        assert(fp_total(fp_build(ts)) == 0);
        assert(total_vol(ts) == 0);
    } else {
        assert(ts.drop_last().push(ts.last()) =~= ts);
        lemma_trade_sums_push(ts.drop_last(), ts.last());
        lemma_trade_sums_nonneg(ts.drop_last());
        lemma_footprint_conservation(ts.drop_last());
        lemma_fp_insert_one_total(fp_build(ts.drop_last()), ts.last());
    }
}

/// Folding one trade into a sorted level sequence is one bump or one
/// insertion at the trade's sorted position.
proof fn lemma_fp_insert_one_split(ls: Seq<FootprintLevel>, t: FootprintTrade, pos: int)
    requires
        0 <= pos <= ls.len(),
        forall|j: int| 0 <= j < pos ==> ls[j].price < t.price,
        pos == ls.len() || ls[pos].price >= t.price,
    ensures
        fp_insert_one(ls, t) == (if pos < ls.len() && ls[pos].price == t.price {
            ls.update(pos, bump_level(ls[pos], t))
        } else {
            ls.insert(pos, level_of_trade(t))
        }),
    decreases pos,
{
    if pos == 0 {
        if ls.len() == 0 {
            assert(fp_insert_one(ls, t) =~= ls.insert(0, level_of_trade(t)));
        } else if t.price < ls.first().price {
            assert(fp_insert_one(ls, t) =~= ls.insert(0, level_of_trade(t)));
        } else if t.price == ls.first().price {
            assert(ls.first() == ls[0]);
            assert(fp_insert_one(ls, t) =~= ls.update(0, bump_level(ls[0], t)));
        }
    } else {
        assert(ls.first() == ls[0]);
        assert(ls[0].price < t.price);
        assert(forall|j: int|
            0 <= j < pos - 1 ==> #[trigger] ls.drop_first()[j].price == ls[j + 1].price);
        lemma_fp_insert_one_split(ls.drop_first(), t, pos - 1);
        if pos < ls.len() && ls[pos].price == t.price {
            assert(ls.drop_first()[pos - 1] == ls[pos]);
            assert(seq![ls.first()] + ls.drop_first().update(pos - 1, bump_level(ls[pos], t))
                =~= ls.update(pos, bump_level(ls[pos], t)));
        } else {
            assert(seq![ls.first()] + ls.drop_first().insert(pos - 1, level_of_trade(t))
                =~= ls.insert(pos, level_of_trade(t)));
        }
    }
}

/// Folds the given trades into a footprint, one level per distinct price.
///
/// The contract pins the exact result ([`fp_build`]), records which volume
/// lands where, and carries the conservation law: the footprint's ask total
/// plus bid total equals the total volume of the trades, every trade counted
/// exactly once.
pub fn footprint(footprint_trades: &Vec<FootprintTrade>) -> (r: Footprint)
    requires
        total_vol(footprint_trades@) <= FOOTPRINT_VOLUME_LIMIT,
    ensures
        r.wf(),
        r.levels@ == fp_build(footprint_trades@),
        forall|p: u64| #[trigger] fp_ask(r.levels@, p) == ask_at(footprint_trades@, p),
        forall|p: u64| #[trigger] fp_bid(r.levels@, p) == bid_at(footprint_trades@, p),
        fp_total(r.levels@) == total_vol(footprint_trades@),
        forall|k: int|
            0 <= k < r.levels@.len() ==> has_price(footprint_trades@, #[trigger] r.levels@[k].price),
{
    let ghost all = footprint_trades@;
    let mut levels: Vec<FootprintLevel> = Vec::new();
    let n = footprint_trades.len();
    let mut i: usize = 0;
    proof {
        assert(all.subrange(0, 0) =~= Seq::<FootprintTrade>::empty());
    }
    while i < n
        invariant
            i <= n,
            n == all.len(),
            all == footprint_trades@,
            total_vol(all) <= FOOTPRINT_VOLUME_LIMIT,
            levels_sorted(levels@),
            levels@ == fp_build(all.subrange(0, i as int)),
            forall|p: u64| #[trigger] fp_ask(levels@, p) == ask_at(all.subrange(0, i as int), p),
            forall|p: u64| #[trigger] fp_bid(levels@, p) == bid_at(all.subrange(0, i as int), p),
            fp_total(levels@) == total_vol(all.subrange(0, i as int)),
            forall|k: int|
                0 <= k < levels@.len() ==> has_price(
                    all.subrange(0, i as int),
                    #[trigger] levels@[k].price,
                ),
        decreases n - i,
    {
        let ghost pre = all.subrange(0, i as int);
        let ghost post = all.subrange(0, i as int + 1);
        let t = footprint_trades[i];
        proof {
            assert(post =~= pre.push(all[i as int]));
            lemma_trade_sums_push(pre, all[i as int]);
            lemma_trade_sums_nonneg(post);
            lemma_trade_sums_nonneg(pre);
            lemma_total_vol_prefix(all, i as int + 1);
            assert(has_price(post, t.price)) by {
                assert(post[i as int].price == t.price);
            }
            assert(forall|p: u64| has_price(pre, p) ==> has_price(post, p)) by {
                assert(forall|k: int| 0 <= k < pre.len() ==> post[k] == #[trigger] pre[k]);
            }
        }
        // find the first level whose price is not below the trade's price
        let mut pos: usize = 0;
        let m = levels.len();
        while pos < m && levels[pos].price < t.price
            invariant
                pos <= m,
                m == levels@.len(),
                forall|j: int| 0 <= j < pos ==> levels@[j].price < t.price,
            decreases m - pos,
        {
            pos = pos + 1;
        }
        proof {
            assert(post.drop_last() =~= pre);
            assert(post.last() == all[i as int]);
            lemma_fp_insert_one_split(levels@, t, pos as int);
        }
        if pos < m && levels[pos].price == t.price {
            let old_level = levels[pos];
            proof {
                lemma_fp_value_at(levels@, pos as int);
            }
            let new_value = if t.ask_bid == AskBid::Ask {
                FootprintValue {
                    ask_volume: old_level.value.ask_volume + t.volume,
                    bid_volume: old_level.value.bid_volume,
                }
            } else {
                FootprintValue {
                    ask_volume: old_level.value.ask_volume,
                    bid_volume: old_level.value.bid_volume + t.volume,
                }
            };
            let new_level = FootprintLevel { price: t.price, value: new_value };
            proof {
                lemma_fp_update(levels@, pos as int, new_level);
            }
            levels.set(pos, new_level);
        } else {
            let new_level = FootprintLevel {
                price: t.price,
                value: if t.ask_bid == AskBid::Ask {
                    FootprintValue { ask_volume: t.volume, bid_volume: 0 }
                } else {
                    FootprintValue { ask_volume: 0, bid_volume: t.volume }
                },
            };
            proof {
                lemma_fp_absent(levels@, t.price);
                lemma_fp_insert(levels@, pos as int, new_level);
                assert(forall|j: int|
                    0 <= j < levels@.len() + 1 ==> #[trigger] levels@.insert(
                        pos as int,
                        new_level,
                    )[j] == (if j < pos {
                        levels@[j]
                    } else if j == pos {
                        new_level
                    } else {
                        levels@[j - 1]
                    }));
            }
            levels.insert(pos, new_level);
        }
        i = i + 1;
    }
    proof {
        assert(all.subrange(0, n as int) =~= all);
    }
    Footprint { levels }
}

} // verus!
