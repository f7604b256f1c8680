use rust_finprim::derivatives::{
    npv_prime2_r, npv_prime_r, pv_prime2_r, pv_prime_r, wacc_prime_de,
};
use rust_finprim::Scalar;

fn sd(m: i64, scale: u32) -> Scalar {
    Scalar::from_parts(m, scale)
}

fn close_d(a: Scalar, b: Scalar) -> bool {
    a.sub(b).abs().lt(&sd(1, 5))
}

#[test]
fn test_pv_prime() {
    let result = pv_prime_r(sd(5, 2), sd(5, 0), sd(1000, 0));
    let expected = sd(-373107698, 5);
    assert!(close_d(result, expected), "pv_prime_r failed: {:?}", result);
}

#[test]
fn pv_test_pv_prime() {
    let result = pv_prime_r(sd(5, 2), sd(5, 0), sd(1000, 0));
    let expected = sd(-373107698, 5);
    assert!(close_d(result, expected), "pv_prime_r failed: {:?}", result);
}

#[test]
fn test_pv_double_prime() {
    let result = pv_prime2_r(sd(5, 2), sd(5, 0), sd(1000, 0));
    let expected = sd(2132043990, 5);
    assert!(close_d(result, expected), "pv_prime2_r failed: {:?}", result);
}

#[test]
fn pv_test_pv_double_prime() {
    let result = pv_prime2_r(sd(5, 2), sd(5, 0), sd(1000, 0));
    let expected = sd(2132043990, 5);
    assert!(close_d(result, expected), "pv_prime2_r failed: {:?}", result);
}

#[test]
fn test_npv_prime() {
    let rate = sd(5, 2);
    let cash_flows = vec![sd(1000, 0), sd(2000, 0), sd(3000, 0)];
    let mut expected = Scalar::zero();
    for (t, &cf) in cash_flows.iter().enumerate() {
        expected = expected.add(pv_prime_r(rate, Scalar::from_usize(t), cf));
    }
    let result = npv_prime_r(rate, &cash_flows);
    assert!(close_d(result, expected), "npv_prime_r failed: {:?}", result);
}

#[test]
fn test_npv_double_prime() {
    let rate = sd(5, 2);
    let cash_flows = vec![sd(1000, 0), sd(2000, 0), sd(3000, 0)];
    let mut expected = Scalar::zero();
    for (t, &cf) in cash_flows.iter().enumerate() {
        expected = expected.add(pv_prime2_r(rate, Scalar::from_usize(t), cf));
    }
    let result = npv_prime2_r(rate, &cash_flows);
    assert!(close_d(result, expected), "npv_prime2_r failed: {:?}", result);
}

#[test]
fn test_wacc_prime() {
    let result = wacc_prime_de(sd(5, 2), sd(7, 2), sd(7, 1), sd(25, 2));
    let expected = sd(86, 5);
    assert!(close_d(result, expected), "wacc_prime_de failed: {:?}", result);
}

#[test]
fn wacc_test_wacc_prime() {
    let result = wacc_prime_de(sd(5, 2), sd(7, 2), sd(7, 1), sd(25, 2));
    let expected = sd(86, 5);
    assert!(close_d(result, expected), "wacc_prime_de failed: {:?}", result);
}
