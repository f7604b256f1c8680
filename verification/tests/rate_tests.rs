use rust_finprim::rate::{apply_pct_change, apr, cagr, ear, mirr, pct_change, twr, xmirr};
use rust_finprim::{FinPrimError, Scalar};

fn sq(m: i64, scale: u32) -> Scalar {
    Scalar::from_parts(m, scale)
}

fn close_r(a: Scalar, b: Scalar) -> bool {
    a.sub(b).abs().lt(&sq(1, 5))
}

#[test]
fn test_apr() {
    let cases = [
        (sq(12, 0), sq(5, 2), sq(4889, 5)),
        (sq(12, 0), sq(0, 0), sq(0, 0)),
        (sq(12, 0), sq(2, 1), sq(18371, 5)),
    ];
    for (n, earv, expected) in cases {
        let calculated = apr(earv, n);
        assert!(close_r(calculated, expected), "apr case failed: {:?}", calculated);
    }
}

#[test]
fn test_ear() {
    let cases = [
        (sq(12, 0), sq(5, 2), sq(5116, 5)),
        (sq(12, 0), sq(0, 0), sq(0, 0)),
        (sq(12, 0), sq(2, 1), sq(21939, 5)),
    ];
    for (n, aprv, expected) in cases {
        let calculated = ear(aprv, n);
        assert!(close_r(calculated, expected), "ear case failed: {:?}", calculated);
    }
}

#[test]
fn test_cagr() {
    let result = cagr(sq(1000, 0), sq(500, 0), sq(5, 0));
    let expected = sq(-12945, 5);
    assert!(close_r(result, expected), "cagr failed: {:?}", result);
}

#[test]
fn test_pct_change_and_apply_pct_change() {
    let cases = [
        (sq(1000, 0), sq(1500, 0), sq(5, 1)),
        (sq(1000, 0), sq(500, 0), sq(-5, 1)),
        (sq(1000, 0), sq(1000, 0), sq(0, 0)),
        (sq(1000, 0), sq(-1500, 0), sq(-25, 1)),
        (sq(-1000, 0), sq(1500, 0), sq(25, 1)),
    ];
    for (beginning, ending, pct) in cases {
        let pct_change_result = pct_change(beginning, ending);
        assert_eq!(pct_change_result, Ok(pct));

        let apply_pct_change_result = apply_pct_change(beginning, pct);
        assert_eq!(apply_pct_change_result, ending);
    }

    let result_zero = pct_change(sq(0, 0), sq(1000, 0));
    assert_eq!(result_zero, Err(FinPrimError::DivideByZero));
    assert_eq!(result_zero.unwrap_or(sq(0, 0)), sq(0, 0));
}

#[test]
fn test_twr() {
    let values: Vec<(Scalar, Scalar)> = vec![
        (sq(1000, 0), sq(0, 0)),
        (sq(1600, 0), sq(400, 0)),
        (sq(1450, 0), sq(-200, 0)),
        (sq(1700, 0), sq(200, 0)),
        (sq(2200, 0), sq(300, 0)),
    ];
    let twr_qtr = twr(&values, None).unwrap();
    assert!(close_r(twr_qtr, sq(43078093, 8)));
    let twr_yr = twr(&values, Some(sq(4, 0))).unwrap();
    assert!(close_r(twr_yr, sq(93688, 6)));

    let values_bankruptcy: Vec<(Scalar, Scalar)> = vec![
        (sq(1000, 0), sq(0, 0)),
        (sq(1600, 0), sq(400, 0)),
        (sq(1450, 0), sq(-200, 0)),
        (sq(1700, 0), sq(200, 0)),
        (sq(2200, 0), sq(300, 0)),
        (sq(2500, 0), sq(0, 0)),
        (sq(3000, 0), sq(-300, 0)),
        (sq(1700, 0), sq(-1500, 0)),
        (sq(0, 0), sq(0, 0)),
    ];
    let twr_bankruptcy = twr(&values_bankruptcy, Some(sq(2, 0))).unwrap();
    assert_eq!(twr_bankruptcy, sq(-1, 0));

    let values_6qtr: Vec<(Scalar, Scalar)> = vec![
        (sq(1000, 0), sq(0, 0)),
        (sq(1600, 0), sq(400, 0)),
        (sq(1450, 0), sq(-200, 0)),
        (sq(1700, 0), sq(200, 0)),
        (sq(2200, 0), sq(300, 0)),
        (sq(2500, 0), sq(0, 0)),
        (sq(3000, 0), sq(-300, 0)),
    ];
    let twr_6qtr = twr(&values_6qtr, Some(sq(15, 1))).unwrap();
    assert!(close_r(twr_6qtr, sq(663832, 6)));

    let values_2: Vec<(Scalar, Scalar)> = vec![(sq(1000, 0), sq(0, 0)), (sq(1600, 0), sq(400, 0))];
    let twr_2 = twr(&values_2, None).unwrap();
    assert!(twr_2.sub(sq(2, 1)).lt(&sq(1, 5)));
}

#[test]
fn test_mirr() {
    let cash_flows = vec![sq(-100, 0), sq(-20, 0), sq(20, 0), sq(20, 0), sq(20, 0)];
    let result = mirr(&cash_flows, sq(1, 1), sq(5, 2));
    let expected = sq(-14536, 5);
    assert!(close_r(result, expected), "mirr failed: {:?}", result);
}

#[test]
fn test_xmirr() {
    let finance_rate = sq(1, 1);
    let reinvest_rate = sq(5, 2);

    let flow_table: Vec<(Scalar, i32)> = vec![
        (sq(-100, 0), 0),
        (sq(-20, 0), 365),
        (sq(20, 0), 730),
        (sq(20, 0), 1095),
        (sq(20, 0), 1460),
    ];
    let result = xmirr(&flow_table, finance_rate, reinvest_rate);
    assert!(close_r(result, sq(-14536, 5)), "xmirr simple failed: {:?}", result);

    let flow_table: Vec<(Scalar, i32)> = vec![
        (sq(-100, 0), 0),
        (sq(-20, 0), 359),
        (sq(20, 0), 400),
        (sq(20, 0), 1000),
        (sq(20, 0), 2000),
    ];
    let result = xmirr(&flow_table, finance_rate, reinvest_rate);
    assert!(close_r(result, sq(-9689, 5)), "xmirr complex failed: {:?}", result);
}
