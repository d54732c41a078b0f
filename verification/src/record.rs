//! Candle records collected from the exchanges.
//!
//! Prices and volumes are fixed-point integers: `PRICE_SCALE` units make one
//! whole dollar (prices) or one whole coin (volumes).

use vstd::prelude::*;

verus! {

/// Fixed-point units per whole dollar or coin.
pub const PRICE_SCALE: u64 = 100000000u64;

/// The exchange a record came from.
#[derive(Clone, Copy, Debug, PartialEq, Eq, Structural)]
pub enum Exchange {
    Binance,
    Coinbase,
    Kraken,
    Kucoin,
}

impl Exchange {
    /// The lower-case name under which prices and fees are kept.
    pub open spec fn spec_name(self) -> Seq<char> {
        match self {
            Exchange::Binance => "binance"@,
            Exchange::Coinbase => "coinbase"@,
            Exchange::Kraken => "kraken"@,
            Exchange::Kucoin => "kucoin"@,
        }
    }

    /// The lower-case name under which prices and fees are kept.
    pub fn name(&self) -> (s: String)
        ensures
            s@ == self.spec_name(),
    {
        match self {
            Exchange::Binance => "binance".to_owned(),
            Exchange::Coinbase => "coinbase".to_owned(),
            Exchange::Kraken => "kraken".to_owned(),
            Exchange::Kucoin => "kucoin".to_owned(),
        }
    }
}

/// One candle: opening time and the open, close, high, low prices and volume.
#[derive(Clone, Copy, Debug, PartialEq, Eq, Structural)]
pub struct Record {
    pub exchange: Exchange,
    pub date: u64,
    pub open: u64,
    pub close: u64,
    pub high: u64,
    pub low: u64,
    pub volume: u64,
}

/// Dates rise strictly from one record to the next.
pub open spec fn strictly_increasing_dates(s: Seq<Record>) -> bool {
    forall|i: int, j: int| 0 <= i < j < s.len() ==> s[i].date < s[j].date
}

/// Dates fall strictly from one record to the next.
pub open spec fn strictly_decreasing_dates(s: Seq<Record>) -> bool {
    forall|i: int, j: int| 0 <= i < j < s.len() ==> s[i].date > s[j].date
}

/// Whether every record is dated after the one before it, the first after 0.
pub fn dates_strictly_increasing(records: &Vec<Record>) -> (r: bool)
    ensures
        r == (strictly_increasing_dates(records@) && (records@.len() > 0 ==> records@[0].date
            > 0)),
{
    let mut previous: u64 = 0;
    let mut i: usize = 0;
    while i < records.len()
        invariant
            i <= records@.len(),
            forall|a: int, b: int|
                0 <= a < b < i ==> #[trigger] records@[a].date < #[trigger] records@[b].date,
            i > 0 ==> records@[0].date > 0,
            i > 0 ==> previous == records@[i - 1].date,
            i == 0 ==> previous == 0,
        decreases records@.len() - i,
    {
        if records[i].date <= previous {
            proof {
                if i > 0 {
                    assert(records@[i as int - 1].date >= records@[i as int].date);
                }
            }
            return false;
        }
        previous = records[i].date;
        proof {
            assert forall|a: int, b: int| 0 <= a < b < i + 1 implies #[trigger] records@[a].date
                < #[trigger] records@[b].date by {
                if b == i && a < i - 1 {
                    assert(records@[a].date < records@[i - 1].date);
                }
            }
        }
        i = i + 1;
    }
    true
}

/// Appends a chunk that arrived newest first, so that it reads oldest first.
pub fn append_reversed(records: &mut Vec<Record>, chunk: Vec<Record>)
    ensures
        final(records)@ == old(records)@ + chunk@.reverse(),
{
    let mut i: usize = chunk.len();
    let ghost start = records@;
    while i > 0
        invariant
            i <= chunk@.len(),
            records@ == start + chunk@.subrange(i as int, chunk@.len() as int).reverse(),
        decreases i,
    {
        i = i - 1;
        records.push(chunk[i]);
        proof {
            assert(chunk@.subrange(i as int, chunk@.len() as int).reverse() =~= chunk@.subrange(
                i + 1,
                chunk@.len() as int,
            ).reverse().push(chunk@[i as int]));
        }
    }
    assert(chunk@.subrange(0, chunk@.len() as int) =~= chunk@);
}

/// Appending a newest-first chunk, all of it later than what is already
/// held, to chronologically ordered records keeps them chronological.
pub proof fn lemma_append_reversed_chronological(held: Seq<Record>, chunk: Seq<Record>)
    requires
        strictly_increasing_dates(held),
        strictly_decreasing_dates(chunk),
        forall|i: int, j: int|
            0 <= i < held.len() && 0 <= j < chunk.len() ==> held[i].date < chunk[j].date,
    ensures
        strictly_increasing_dates(held + chunk.reverse()),
{
    let r = held + chunk.reverse();
    assert forall|a: int, b: int| 0 <= a < b < r.len() implies r[a].date < r[b].date by {
        let n = held.len() as int;
        let m = chunk.len() as int;
        if b < n {
        } else if a < n {
            assert(r[b] == chunk[m - 1 - (b - n)]);
        } else {
            assert(r[a] == chunk[m - 1 - (a - n)]);
            assert(r[b] == chunk[m - 1 - (b - n)]);
        }
    }
}

} // verus!
