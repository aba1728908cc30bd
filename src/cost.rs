//! The cost model: a month of trips paid one by one, with every second trip at
//! half price, against a monthly pass.
use vstd::prelude::*;

verus! {

/// Weeks counted in a month.
pub const WEEKS_PER_MONTH: u64 = 4;

/// How paying per trip compares with the monthly pass.
#[derive(PartialEq, Eq, Structural, Debug, Clone, Copy)]
pub enum Verdict {
    /// Paying per trip costs less than the pass.
    Less,
    /// Paying per trip costs more than the pass.
    Greater,
    /// Both cost the same.
    Equal,
}

/// The outcome of one comparison.
#[derive(PartialEq, Eq, Structural, Debug, Clone, Copy)]
pub struct CostResult {
    pub total_trips: u64,
    pub full_price_count: u64,
    pub discounted_count: u64,
    pub individual_cost: u128,
    pub monthly_cost: u32,
    pub ticket_price: u32,
    /// Monthly cost minus individual cost.
    pub savings: i128,
    pub verdict: Verdict,
}

pub open spec fn total_trips_spec(t: int) -> int {
    4 * t
}

pub open spec fn full_price_count_spec(t: int) -> int {
    (total_trips_spec(t) + 1) / 2
}

pub open spec fn discounted_count_spec(t: int) -> int {
    total_trips_spec(t) / 2
}

/// Full price for the first trip of each pair, half price rounded down for the second.
pub open spec fn individual_cost_spec(t: int, p: int) -> int {
    full_price_count_spec(t) * p + discounted_count_spec(t) * (p / 2)
}

pub open spec fn verdict_spec(individual: int, monthly: int) -> Verdict {
    if individual < monthly {
        Verdict::Less
    } else if individual > monthly {
        Verdict::Greater
    } else {
        Verdict::Equal
    }
}

/// How paying per trip compares with the pass, and by how much the pass is
/// dearer (negative where it is cheaper).
pub fn compare_costs(individual: u128, monthly: u32) -> (r: (Verdict, i128))
    requires
        individual <= u128::MAX / 2,
    ensures
        r.0 == verdict_spec(individual as int, monthly as int),
        r.1 == monthly - individual,
{
    let savings = monthly as i128 - individual as i128;
    let verdict = if individual < monthly as u128 {
        Verdict::Less
    } else if individual > monthly as u128 {
        Verdict::Greater
    } else {
        Verdict::Equal
    };
    (verdict, savings)
}

/// Compares a month of `trips_per_week` trips a week at `ticket_price` each,
/// with the discount, against a pass at `monthly_cost`.
pub fn compute(trips_per_week: u32, monthly_cost: u32, ticket_price: u32) -> (r: CostResult)
    ensures
        r.total_trips == total_trips_spec(trips_per_week as int),
        r.full_price_count == full_price_count_spec(trips_per_week as int),
        r.discounted_count == discounted_count_spec(trips_per_week as int),
        r.individual_cost == individual_cost_spec(trips_per_week as int, ticket_price as int),
        r.monthly_cost == monthly_cost,
        r.ticket_price == ticket_price,
        r.savings == monthly_cost - r.individual_cost,
        r.verdict == verdict_spec(r.individual_cost as int, monthly_cost as int),
{
    let total_trips: u64 = WEEKS_PER_MONTH * trips_per_week as u64;
    let full_price_count: u64 = total_trips / 2 + total_trips % 2;
    let discounted_count: u64 = total_trips / 2;
    let full = full_price_count as u128;
    let half = discounted_count as u128;
    let price = ticket_price as u128;
    proof {
        assert(full <= 0x2_0000_0000);
        assert(price <= 0xffff_ffff);
        assert(full * price <= 0x2_0000_0000 * 0xffff_ffff) by (nonlinear_arith)
            requires
                full <= 0x2_0000_0000,
                price <= 0xffff_ffff,
        ;
        assert(half * (price / 2) <= 0x2_0000_0000 * 0xffff_ffff) by (nonlinear_arith)
            requires
                half <= 0x2_0000_0000,
                price / 2 <= 0xffff_ffff,
        ;
    }
    let individual_cost = full * price + half * (price / 2);
    let (verdict, savings) = compare_costs(individual_cost, monthly_cost);
    CostResult {
        total_trips,
        full_price_count,
        discounted_count,
        individual_cost,
        monthly_cost,
        ticket_price,
        savings,
        verdict,
    }
}

/// With no trips, paying per trip costs nothing at any ticket price; it is then
/// the cheaper choice, unless the pass is free too.
pub proof fn lemma_no_trips(m: u32, p: u32)
    ensures
        individual_cost_spec(0, p as int) == 0,
        verdict_spec(individual_cost_spec(0, p as int), m as int) == if m == 0 {
            Verdict::Equal
        } else {
            Verdict::Less
        },
{
}

} // verus!
