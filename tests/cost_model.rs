use rustroika::cost::{compare_costs, compute, Verdict};

#[test]
fn total_trips_is_four_weeks() {
    for t in [0u32, 1, 7, 8, 1000, u32::MAX] {
        let r = compute(t, 100, 10);
        assert_eq!(r.total_trips, 4 * t as u64);
    }
}

#[test]
fn compute_reference_month() {
    let r = compute(8, 3070, 63);
    assert_eq!(r.total_trips, 32);
    assert_eq!(r.full_price_count, 16);
    assert_eq!(r.discounted_count, 16);
    assert_eq!(r.individual_cost, 1504);
    assert_eq!(r.monthly_cost, 3070);
    assert_eq!(r.ticket_price, 63);
    assert_eq!(r.savings, 1566);
    assert_eq!(r.verdict, Verdict::Less);
}

#[test]
fn discount_rounds_down() {
    let r = compute(1, 0, 63);
    assert_eq!(r.full_price_count, 2);
    assert_eq!(r.discounted_count, 2);
    assert_eq!(r.individual_cost, 2 * 63 + 2 * 31);
    assert_ne!(r.individual_cost, 2 * 63 + 2 * 32);
}

#[test]
fn no_trips_cost_nothing() {
    for p in [0u32, 1, 63, u32::MAX] {
        let r = compute(0, 3070, p);
        assert_eq!(r.individual_cost, 0);
        assert_eq!(r.verdict, Verdict::Less);
        assert_eq!(r.savings, 3070);
    }
    let free = compute(0, 0, 63);
    assert_eq!(free.verdict, Verdict::Equal);
    assert_eq!(free.savings, 0);
}

#[test]
fn pass_cheaper_when_trips_cost_more() {
    let r = compute(10, 1000, 63);
    assert_eq!(r.individual_cost, 20 * 63 + 20 * 31);
    assert_eq!(r.verdict, Verdict::Greater);
    assert_eq!(r.savings, 1000 - 1880);
}

#[test]
fn largest_inputs_do_not_overflow() {
    let m = u32::MAX;
    let r = compute(m, m, m);
    let full = 2 * m as u128;
    assert_eq!(r.individual_cost, full * m as u128 + full * (m as u128 / 2));
    assert_eq!(r.verdict, Verdict::Greater);
}

#[test]
fn compare_costs_equal() {
    assert_eq!(compare_costs(500, 500), (Verdict::Equal, 0));
    assert_eq!(compare_costs(499, 500), (Verdict::Less, 1));
    assert_eq!(compare_costs(501, 500), (Verdict::Greater, -1));
}
