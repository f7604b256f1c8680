use rust_finprim::amort_dep_tax::{
    amort_schedule, amort_schedule_into, db, macrs, macrs_into, progressive_tax, sln, syd,
    AmortizationPeriod, DepreciationPeriod,
};
use rust_finprim::tvm::pmt;
use rust_finprim::{RoundingMode, Scalar};

fn sa(m: i64, scale: u32) -> Scalar {
    Scalar::from_parts(m, scale)
}

#[test]
fn test_amort_schedule_into() {
    let rate = sa(5, 2).div(sa(12, 0));
    let nper: u32 = 30 * 12;
    let principal = sa(250_000, 0);
    let pmt_amount = pmt(rate, sa(nper as i64, 0), principal, None, None);

    let mut schedule: Vec<AmortizationPeriod> = Vec::new();
    for _ in 0..nper {
        schedule.push(AmortizationPeriod::default());
    }
    amort_schedule_into(&mut schedule, rate, principal, pmt_amount, None);
    // The final balance is close to zero.
    assert!(schedule.last().unwrap().remaining_balance.abs().lt(&sa(1, 8)));

    let mut schedule_round: Vec<AmortizationPeriod> = Vec::new();
    for _ in 0..nper {
        schedule_round.push(AmortizationPeriod::default());
    }
    amort_schedule_into(
        &mut schedule_round,
        rate,
        principal,
        pmt_amount,
        Some((2, RoundingMode::HalfToEven, sa(1, 8))),
    );
    // The final balance is exactly zero, absorbed by the last payment.
    let sec_last_elem = schedule_round.get(358).unwrap();
    let last_elem = schedule_round.last().unwrap();
    assert_eq!(
        sec_last_elem.remaining_balance.sub(last_elem.principal_payment),
        Scalar::zero()
    );
    assert_eq!(last_elem.remaining_balance, Scalar::zero());
}

#[test]
fn test_amort_schedule() {
    let rate = sa(5, 2).div(sa(12, 0));
    let nper: u32 = 30 * 12;
    let principal = sa(250_000, 0);
    let pmt_amount = pmt(rate, sa(nper as i64, 0), principal, None, None);

    let schedule = amort_schedule(rate, nper, principal, pmt_amount, None);
    assert_eq!(schedule.len(), nper as usize);
    assert!(schedule.last().unwrap().remaining_balance.abs().lt(&sa(1, 8)));

    let schedule_round = amort_schedule(
        rate,
        nper,
        principal,
        pmt_amount,
        Some((2, RoundingMode::HalfToEven, sa(1, 8))),
    );
    let sec_last_elem = schedule_round.get(358).unwrap();
    let last_elem = schedule_round.last().unwrap();
    assert_eq!(
        sec_last_elem.remaining_balance.sub(last_elem.principal_payment),
        Scalar::zero()
    );
    assert_eq!(last_elem.remaining_balance, Scalar::zero());
}

#[test]
fn test_macrs() {
    let cost = sa(10_000, 0);
    let rates = vec![sa(20, 2), sa(32, 2), sa(1920, 4), sa(1152, 4), sa(1152, 4), sa(576, 4)];
    let mut schedule: Vec<DepreciationPeriod> = Vec::new();
    for _ in 0..rates.len() {
        schedule.push(DepreciationPeriod::default());
    }
    macrs_into(&mut schedule, cost, &rates);
    assert_eq!(schedule.len(), rates.len());
    assert_eq!(schedule[0].depreciation_expense, sa(2000, 0));
    assert_eq!(schedule[0].remaining_book_value, sa(8000, 0));
    assert_eq!(schedule[5].depreciation_expense, sa(576, 0));
    assert_eq!(schedule[5].remaining_book_value, sa(0, 0));

    let allocated = macrs(cost, &rates);
    assert_eq!(allocated.len(), rates.len());
    assert_eq!(allocated[0].depreciation_expense, sa(2000, 0));
}

#[test]
fn test_syd() {
    let cases: [(Scalar, Scalar, u32, Option<(u32, RoundingMode, Scalar)>, Scalar); 3] = [
        (sa(10_000, 0), sa(1000, 0), 5, None, sa(600, 0)),
        (
            sa(9000, 0),
            sa(1000, 0),
            5,
            Some((2, RoundingMode::HalfToEven, sa(1, 5))),
            sa(53333, 2),
        ),
        (
            sa(9000, 0),
            sa(1500, 0),
            10,
            Some((2, RoundingMode::HalfToEven, sa(1, 5))),
            sa(13636, 2),
        ),
    ];
    for (cost, salvage, life, round, expected) in cases {
        let schedule = syd(cost, salvage, life, round);
        assert_eq!(schedule.len(), life as usize);
        assert!(
            schedule.last().unwrap().depreciation_expense.sub(expected).abs().lt(&sa(1, 5)),
            "syd case failed: {:?}",
            schedule.last().unwrap()
        );
    }
}

#[test]
fn test_db() {
    let cases: [(Scalar, Scalar, u32, Option<(u32, RoundingMode, Scalar)>, Scalar); 4] = [
        (sa(4000, 0), sa(1000, 0), 5, None, sa(0, 0)),
        (sa(10_000, 0), sa(1000, 0), 5, None, sa(296, 0)),
        (sa(10_000, 0), sa(1000, 0), 10, None, sa(268435456, 6)),
        (
            sa(10_000, 0),
            sa(1000, 0),
            10,
            Some((2, RoundingMode::HalfToEven, sa(1, 5))),
            sa(34218, 2),
        ),
    ];
    for (cost, salvage, life, round, expected) in cases {
        let schedule = db(cost, salvage, life, None, round);
        assert_eq!(schedule.len(), life as usize);
        assert_eq!(schedule.last().unwrap().depreciation_expense, expected);
    }
}

#[test]
fn test_sln() {
    let cost = sa(10_000, 0);
    let salvage = sa(1000, 0);
    let life = 5;
    let schedule = sln(cost, salvage, life);
    assert_eq!(schedule.len(), 5);
    assert_eq!(schedule[0].depreciation_expense, sa(1800, 0));
    assert_eq!(schedule[0].remaining_book_value, sa(8200, 0));
}

#[test]
fn tax_test_progressive_tax() {
    let agi = sa(6_048_925, 2);
    // Standard single filer deduction for 2024.
    let deductions = sa(14_600, 0);
    // 2024 Federal Income Tax Brackets.
    let rate_table: Vec<(Scalar, Scalar)> = vec![
        (sa(11_600, 0), sa(10, 2)),
        (sa(47_150, 0), sa(12, 2)),
        (sa(100_525, 0), sa(22, 2)),
        (sa(191_950, 0), sa(24, 2)),
        (sa(243_725, 0), sa(32, 2)),
        (sa(609_350, 0), sa(35, 2)),
        (Scalar::max_value(), sa(37, 2)),
    ];

    let tax = progressive_tax(agi, deductions, &rate_table).unwrap();
    assert_eq!(tax, sa(5_274_71, 2));

    // Failing rate table (out of order brackets).
    let rate_table_bad: Vec<(Scalar, Scalar)> = vec![
        (sa(47_150, 0), sa(12, 2)),
        (sa(11_600, 0), sa(10, 2)),
        (sa(100_525, 0), sa(22, 2)),
        (sa(191_950, 0), sa(24, 2)),
        (sa(243_725, 0), sa(32, 2)),
        (sa(609_350, 0), sa(35, 2)),
        (Scalar::max_value(), sa(37, 2)),
    ];
    assert_eq!(progressive_tax(agi, deductions, &rate_table_bad), None);

    // AGI less than deductions.
    assert_eq!(progressive_tax(sa(10_000, 0), deductions, &rate_table), Some(sa(0, 0)));
}

#[test]
fn amort_tax_test_progressive_tax() {
    let agi = sa(6_048_925, 2);
    let deductions = sa(14_600, 0);
    let rate_table: Vec<(Scalar, Scalar)> = vec![
        (sa(11_600, 0), sa(10, 2)),
        (sa(47_150, 0), sa(12, 2)),
        (sa(100_525, 0), sa(22, 2)),
        (sa(191_950, 0), sa(24, 2)),
        (sa(243_725, 0), sa(32, 2)),
        (sa(609_350, 0), sa(35, 2)),
        (Scalar::max_value(), sa(37, 2)),
    ];
    let tax = progressive_tax(agi, deductions, &rate_table).unwrap();
    assert_eq!(tax, sa(5_274_71, 2));

    let rate_table_bad: Vec<(Scalar, Scalar)> = vec![
        (sa(47_150, 0), sa(12, 2)),
        (sa(11_600, 0), sa(10, 2)),
        (Scalar::max_value(), sa(37, 2)),
    ];
    assert_eq!(progressive_tax(agi, deductions, &rate_table_bad), None);
    assert_eq!(progressive_tax(sa(10_000, 0), deductions, &rate_table), Some(sa(0, 0)));
}
