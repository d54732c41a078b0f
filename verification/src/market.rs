//! Market actions and the position discipline every trader follows.
//!
//! Indicator readings are fixed-point integers: `READING_SCALE` units make
//! one whole indicator point.

use vstd::prelude::*;

verus! {

/// Fixed-point units per indicator point.
pub const READING_SCALE: i64 = 1000000i64;

/// What a trader asks the market to do.
#[derive(Clone, Copy, Debug, PartialEq, Eq, Structural)]
pub enum MarketAction {
    Buy,
    Sell,
}

/// A trader's position before and after emitting `action`: a buy opens a
/// closed position, a sell closes an open one, and no action leaves it be.
pub open spec fn position_step(before: bool, action: Option<MarketAction>, after: bool) -> bool {
    match action {
        Some(MarketAction::Buy) => !before && after,
        Some(MarketAction::Sell) => before && !after,
        None => after == before,
    }
}

/// The decision of an overbought/oversold trader once it is warmed up: buy
/// below `oversold` when out of the market, sell above `overbought` when in.
pub open spec fn oscillator_decision(
    in_position: bool,
    reading: int,
    oversold: int,
    overbought: int,
) -> Option<MarketAction> {
    if reading < oversold * READING_SCALE && !in_position {
        Some(MarketAction::Buy)
    } else if reading > overbought * READING_SCALE && in_position {
        Some(MarketAction::Sell)
    } else {
        None
    }
}

/// An overbought/oversold trader, once warmed up, buys exactly when it is
/// out of the market and the reading lies below the oversold level, sells
/// exactly when it is in the market and the reading lies above the
/// overbought level, and otherwise does nothing; with the levels 30 and 70
/// of the RSI trader (20 and 80 of the stochastic ones) in whole indicator
/// points of `READING_SCALE` units.
pub proof fn lemma_oscillator_decision(in_position: bool, reading: int, oversold: int, overbought: int)
    ensures
        (oscillator_decision(in_position, reading, oversold, overbought) == Some(MarketAction::Buy))
            <==> (!in_position && reading < oversold * READING_SCALE),
        (oscillator_decision(in_position, reading, oversold, overbought) == Some(MarketAction::Sell))
            <==> (in_position && reading > overbought * READING_SCALE),
        oscillator_decision(in_position, reading, oversold, overbought) is None <==> (if in_position {
            reading <= overbought * READING_SCALE
        } else {
            reading >= oversold * READING_SCALE
        }),
        oscillator_decision(false, reading, 30, 70) == (if reading < 30000000 {
            Some(MarketAction::Buy)
        } else {
            None
        }),
        oscillator_decision(true, reading, 30, 70) == (if reading > 70000000 {
            Some(MarketAction::Sell)
        } else {
            None
        }),
        oscillator_decision(false, reading, 20, 80) == (if reading < 20000000 {
            Some(MarketAction::Buy)
        } else {
            None
        }),
        oscillator_decision(true, reading, 20, 80) == (if reading > 80000000 {
            Some(MarketAction::Sell)
        } else {
            None
        }),
{
}

/// Position after an action.
pub open spec fn position_after(before: bool, action: Option<MarketAction>) -> bool {
    match action {
        Some(MarketAction::Buy) => true,
        Some(MarketAction::Sell) => false,
        None => before,
    }
}

/// The actions actually emitted, in order.
pub open spec fn emitted(actions: Seq<Option<MarketAction>>) -> Seq<MarketAction>
    decreases actions.len(),
{
    if actions.len() == 0 {
        Seq::empty()
    } else {
        let rest = emitted(actions.drop_last());
        match actions.last() {
            Some(a) => rest.push(a),
            None => rest,
        }
    }
}

/// Actions alternate, starting with a buy from a closed position and with a
/// sell from an open one.
pub open spec fn alternates_from(in_position: bool, acts: Seq<MarketAction>) -> bool {
    forall|i: int|
        0 <= i < acts.len() ==> (#[trigger] acts[i] == MarketAction::Buy) == ((i % 2 == 0)
            != in_position)
}

/// Over any run of trades, a trader that follows the position discipline
/// emits buys and sells in strict alternation, opening with a buy when it
/// starts out of the market, and ends in the market exactly when its last
/// action was a buy.
pub proof fn lemma_actions_alternate(positions: Seq<bool>, actions: Seq<Option<MarketAction>>)
    requires
        positions.len() == actions.len() + 1,
        forall|i: int|
            0 <= i < actions.len() ==> position_step(
                positions[i],
                #[trigger] actions[i],
                positions[i + 1],
            ),
    ensures
        alternates_from(positions[0], emitted(actions)),
        positions.last() == (if emitted(actions).len() == 0 {
            positions[0]
        } else {
            emitted(actions).last() == MarketAction::Buy
        }),
    decreases actions.len(),
{
    if actions.len() > 0 {
        let n = actions.len() - 1;
        let ps = positions.drop_last();
        let acs = actions.drop_last();
        assert forall|i: int| 0 <= i < acs.len() implies position_step(
            ps[i],
            #[trigger] acs[i],
            ps[i + 1],
        ) by {
            assert(acs[i] == actions[i]);
            assert(ps[i] == positions[i] && ps[i + 1] == positions[i + 1]);
        }
        lemma_actions_alternate(ps, acs);
        assert(ps[0] == positions[0]);
        assert(ps.last() == positions[n]);
        assert(position_step(positions[n], actions[n], positions[n + 1]));
        let prev = emitted(acs);
        let k = prev.len() as int;
        match actions[n] {
            Some(a) => {
                assert(emitted(actions) == prev.push(a));
                assert forall|i: int| 0 <= i < prev.len() + 1 implies (#[trigger] prev.push(a)[i]
                    == MarketAction::Buy) == ((i % 2 == 0) != positions[0]) by {
                    if i < k {
                        assert(prev.push(a)[i] == prev[i]);
                    } else {
                        if k > 0 {
                            assert(prev[k - 1] == MarketAction::Buy <==> ((k - 1) % 2 == 0)
                                != positions[0]);
                        }
                    }
                }
            },
            None => {
                assert(emitted(actions) == prev);
            },
        }
    }
}

} // verus!
