//! Taking in a price from the exchange-rate oracle.

use vstd::prelude::*;
use crate::decimal::DecimalValue;
use crate::decimal::decimal_quotient;
use crate::decimal::spec_from_u64;
use crate::event::Event;
use crate::numeric::UsdIcp;
use crate::numeric::lift_amount;
use crate::numeric::UsdIcpTag;
use crate::state::Mode;
use crate::state::State;
use crate::state::Touched;
use crate::state::logged;
use crate::state::nothing;
use crate::state::spec_price_floor;
use crate::SweepStep;

verus! {

/// How often the price is fetched, in seconds.
pub const FETCHING_ICP_RATE_INTERVAL_SECS: u64 = 60;

/// How far back, in seconds, the price is asked for.
pub const XRC_MARGIN_SEC: u64 = 60;

/// What the oracle returns: the price is `rate / 10^decimals`.
#[derive(Clone, Copy, Debug, PartialEq, Eq, Structural)]
pub struct ExchangeRate {
    pub rate: u64,
    pub decimals: u32,
    /// Seconds since the epoch.
    pub timestamp: u64,
}

/// `10^n` for a small `n`.
pub open spec fn spec_ten_pow(n: nat) -> int
    decreases n,
{
    if n == 0 {
        1
    } else {
        10 * spec_ten_pow((n - 1) as nat)
    }
}

/// `10^decimals`, where it fits in a `u64`.
pub fn ten_pow(decimals: u32) -> (r: Option<u64>)
    ensures
        r is Some <==> spec_ten_pow(decimals as nat) <= u64::MAX,
        r is Some ==> r->0 == spec_ten_pow(decimals as nat),
{
    let mut power: u64 = 1;
    let mut done: u32 = 0;
    while done < decimals
        invariant
            done <= decimals,
            power == spec_ten_pow(done as nat),
            power >= 1,
        decreases decimals - done,
    {
        if power > u64::MAX / 10 {
            proof {
                lemma_ten_pow_grows((done + 1) as nat, decimals as nat);
            }
            return None;
        }
        power = power * 10;
        done = done + 1;
    }
    Some(power)
}

pub proof fn lemma_ten_pow_grows(a: nat, b: nat)
    requires
        a <= b,
    ensures
        spec_ten_pow(a) <= spec_ten_pow(b),
        spec_ten_pow(a) >= 1,
    decreases b,
{
    if a == 0 {
        if b > 0 {
            lemma_ten_pow_grows(0, (b - 1) as nat);
        }
    } else {
        lemma_ten_pow_grows((a - 1) as nat, (b - 1) as nat);
    }
}

/// The price that the oracle's answer stands for.
pub open spec fn spec_price(answer: ExchangeRate) -> Option<UsdIcp> {
    if spec_ten_pow(answer.decimals as nat) <= u64::MAX {
        lift_amount::<UsdIcpTag>(
            decimal_quotient(
                spec_from_u64(answer.rate),
                spec_from_u64(spec_ten_pow(answer.decimals as nat) as u64),
            ),
        )
    } else {
        None
    }
}

/// The price that the oracle's answer stands for: `rate / 10^decimals`.
pub fn price_of(answer: ExchangeRate) -> (r: Option<UsdIcp>)
    ensures
        r == spec_price(answer),
        r is Some ==> r->0.valid(),
{
    let scale = match ten_pow(answer.decimals) {
        Some(scale) => scale,
        None => {
            return None;
        },
    };
    match DecimalValue::from_u64(answer.rate).checked_div(DecimalValue::from_u64(scale)) {
        Some(price) => Some(UsdIcp::new(price)),
        None => None,
    }
}

/// The answer is newer than the price that is held.
pub open spec fn is_newer(state: &State, answer: ExchangeRate) -> bool {
    match state.last_icp_timestamp {
        Some(held) => held < answer.timestamp * crate::SEC_NANOS,
        None => true,
    }
}

/// Takes in an answer of the oracle.  A price under the floor of 0.01 makes
/// the protocol read-only, which is logged; a price that is newer than the
/// one held takes its place.  Returns the price, or `None`, with nothing
/// changed, where the answer stands for no price.
///
/// The time of the answer fits in a `u64` of nanoseconds.
pub fn apply_exchange_rate(state: &mut State, answer: ExchangeRate) -> (price: Option<UsdIcp>)
    requires
        old(state).wf(),
        answer.timestamp * crate::SEC_NANOS <= u64::MAX,
    ensures
        final(state).wf(),
        price == spec_price(answer),
        price is None ==> final(state).differs_only_in(old(state), nothing()),
        price is Some ==> {
            &&& final(state).mode == if price->0.value().value_lt(spec_price_floor().0) {
                Mode::ReadOnly
            } else {
                old(state).mode
            }
            &&& final(state).total_collateral_ratio == old(state).total_collateral_ratio
            &&& final(state).events@ == logged(
                old(state).events@,
                old(state).mode,
                final(state).mode,
            )
            &&& final(state).last_icp_rate == if is_newer(old(state), answer) {
                price
            } else {
                old(state).last_icp_rate
            }
            &&& final(state).last_icp_timestamp == if is_newer(old(state), answer) {
                Some((answer.timestamp * crate::SEC_NANOS) as u64)
            } else {
                old(state).last_icp_timestamp
            }
            &&& final(state).current_base_rate == old(state).current_base_rate
            &&& final(state).last_redemption_time == old(state).last_redemption_time
            &&& final(state).differs_only_in(
                old(state),
                (Touched { mode: true, rates: true, events: true, ..nothing() }),
            )
        },
{
    let rate = match price_of(answer) {
        Some(rate) => rate,
        None => {
            return None;
        },
    };
    if rate.lt(UsdIcp::new(DecimalValue { mantissa: 1, scale: 2 })) {
        let before = state.mode;
        state.mode = Mode::ReadOnly;
        if before != Mode::ReadOnly {
            state.events.push(Event::ModeChange { from: before, to: Mode::ReadOnly });
        }
    }
    let at = answer.timestamp * crate::SEC_NANOS;
    let newer = match state.last_icp_timestamp {
        Some(held) => held < at,
        None => true,
    };
    if newer {
        state.last_icp_rate = Some(rate);
        state.last_icp_timestamp = Some(at);
    }
    Some(rate)
}

/// The book after the mode is brought up to date with the vaults at the
/// last price.
pub open spec fn refreshed_book(state: &State) -> crate::event::Book {
    let mode = crate::state::mode_after(state.vaults(), state.last_icp_rate, state.mode);
    crate::event::Book {
        vaults: state.vaults(),
        pending: state.pending_margin_transfers@,
        mode,
        ratio: crate::state::ratio_after(
            state.vaults(),
            state.last_icp_rate,
            state.total_collateral_ratio,
        ),
        events: logged(state.events@, state.mode, mode),
    }
}

/// What follows every fetch of the price, whether it brought one or not:
/// the mode is brought up to date with the price that is held, and unless
/// the protocol is read-only then, the vaults are swept: see
/// [`crate::spec_sweep`].
pub fn after_fetch(state: &mut State) -> (steps: Vec<SweepStep>)
    requires
        old(state).wf(),
    ensures
        final(state).wf(),
        final(state).differs_only_in(old(state), crate::swept()),
        final(state).pending_redemption_transfer.entries@ == old(state).pending_redemption_transfer.entries@,
        ({
            let book = refreshed_book(old(state));
            let rate = crate::spec_sweep_rate(old(state));
            if book.mode == Mode::ReadOnly || !crate::liquidation::all_ratios_known(
                old(state).vaults(),
                rate,
            ) {
                steps@.len() == 0 && crate::event::book_of(final(state)) == book
            } else {
                crate::spec_sweep(
                    book,
                    Seq::empty(),
                    crate::liquidation::spec_unhealthy(old(state).vaults(), book.mode, rate),
                    old(state).last_icp_rate,
                    rate,
                ) == (crate::Swept { book: crate::event::book_of(final(state)), steps: steps@ })
            }
        }),
        crate::vault::total_debt(final(state).vaults()) <= crate::vault::total_debt(
            old(state).vaults(),
        ),
        crate::vault::total_margin(final(state).vaults()) <= crate::vault::total_margin(
            old(state).vaults(),
        ),
        crate::extends(final(state).events@, old(state).events@),
{
    let ghost start = state.events@;
    state.refresh_mode();
    proof {
        crate::event::lemma_push_extends(
            start,
            Event::ModeChange { from: old(state).mode, to: state.mode },
        );
        assert(start.take(start.len() as int) =~= start);
    }
    let ghost mid = state.events@;
    let read_only = match state.mode {
        Mode::ReadOnly => true,
        _ => false,
    };
    if read_only {
        Vec::new()
    } else {
        let steps = crate::check_vaults(state);
        proof {
            crate::lemma_extends_further(start, mid, state.events@);
        }
        steps
    }
}

} // verus!
