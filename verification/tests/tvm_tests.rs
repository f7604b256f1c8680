use rust_finprim::tvm::{fv, npv, npv_differing_rates, pmt, pv, xnpv};
use rust_finprim::Scalar;

fn st(m: i64, scale: u32) -> Scalar {
    Scalar::from_parts(m, scale)
}

fn close_tvm(a: Scalar, b: Scalar) -> bool {
    a.sub(b).abs().lt(&st(1, 5))
}

#[test]
fn test_fv() {
    let cases: [(Scalar, Scalar, Scalar, Option<Scalar>, Option<bool>, Scalar); 4] = [
        (st(5, 2), st(10, 0), st(-100, 0), None, None, st(125778925, 5)),
        (st(5, 2), st(10, 0), st(-100, 0), None, Some(true), st(132067872, 5)),
        (st(0, 0), st(10, 0), st(-100, 0), None, None, st(-1000, 0)),
        (st(5, 2), st(10, 0), st(-100, 0), Some(st(1000, 0)), None, st(288668388, 5)),
    ];
    for (rate, nper, pm, pvv, due, expected) in cases {
        let calculated = fv(rate, nper, pm, pvv, due);
        assert!(close_tvm(calculated, expected), "fv case failed: {:?}", calculated);
    }
}

#[test]
fn test_pmt() {
    let cases: [(Scalar, Scalar, Scalar, Option<Scalar>, Option<bool>, Scalar); 6] = [
        (st(5, 2), st(10, 0), st(-1000, 0), Some(st(1000, 0)), None, st(50, 0)),
        (st(5, 2), st(10, 0), st(1000, 0), None, None, st(-12950457, 5)),
        (st(0, 0), st(10, 0), st(1000, 0), Some(st(100, 0)), None, st(-110, 0)),
        (st(5, 2), st(10, 0), st(1000, 0), Some(st(100, 0)), Some(true), st(-13090955, 5)),
        (st(5, 2), st(10, 0), st(0, 0), Some(st(1000, 0)), None, st(-7950457, 5)),
        (st(5, 2), st(10, 0), st(-1100, 0), Some(st(1000, 0)), None, st(6295046, 5)),
    ];
    for (rate, nper, pvv, fvv, due, expected) in cases {
        let calculated = pmt(rate, nper, pvv, fvv, due);
        assert!(close_tvm(calculated, expected), "pmt case failed: {:?}", calculated);
    }
}

#[test]
fn test_pv() {
    let cases: [(Scalar, Scalar, Scalar, Option<Scalar>, Option<bool>, Scalar); 5] = [
        (st(5, 2), st(10, 0), st(100, 0), None, None, st(-77217349, 5)),
        (st(5, 2), st(10, 0), st(100, 0), None, Some(true), st(-81078217, 5)),
        (st(0, 0), st(10, 0), st(-100, 0), None, None, st(1000, 0)),
        (st(5, 2), st(10, 0), st(100, 0), Some(st(1000, 0)), None, st(-138608675, 5)),
        (st(5, 2), st(10, 0), st(0, 0), Some(st(2000, 0)), None, st(-122782651, 5)),
    ];
    for (rate, nper, pm, fvv, due, expected) in cases {
        let calculated = pv(rate, nper, pm, fvv, due);
        assert!(close_tvm(calculated, expected), "pv case failed: {:?}", calculated);
    }
}

#[test]
fn test_npv() {
    let cases: [(Scalar, Vec<Scalar>, Scalar); 3] = [
        (
            st(5, 2),
            vec![st(-100, 0), st(50, 0), st(40, 0), st(30, 0), st(20, 0)],
            st(2626940, 5),
        ),
        (
            st(5, 2),
            vec![st(100, 0), st(50, 0), st(40, 0), st(30, 0), st(20, 0)],
            st(22626940, 5),
        ),
        (
            st(5, 2),
            vec![st(-100, 0), st(50, 0), st(40, 0), st(30, 0), st(20, 0), st(1000, 0)],
            st(80979557, 5),
        ),
    ];
    for (rate, flows, expected) in cases {
        let calculated = npv(rate, &flows);
        assert!(close_tvm(calculated, expected), "npv case failed: {:?}", calculated);
    }
}

#[test]
fn test_npv_differing_rates() {
    let rates = [st(5, 2), st(6, 2), st(7, 2), st(8, 2), st(9, 2), st(10, 2)];
    let cases: [(Vec<Scalar>, Scalar); 3] = [
        (vec![st(-100, 0), st(50, 0), st(40, 0), st(30, 0), st(20, 0)], st(2009083, 5)),
        (vec![st(100, 0), st(50, 0), st(40, 0), st(30, 0), st(20, 0)], st(22009083, 5)),
        (
            vec![st(-100, 0), st(50, 0), st(40, 0), st(30, 0), st(20, 0), st(1000, 0)],
            st(64101215, 5),
        ),
    ];
    for (flows, expected) in cases {
        let table: Vec<(Scalar, Scalar)> =
            flows.iter().zip(rates.iter()).map(|(&cf, &r)| (cf, r)).collect();
        let calculated = npv_differing_rates(&table);
        assert!(close_tvm(calculated, expected), "case failed: {:?}", calculated);
    }
}

#[test]
fn test_xnpv() {
    let rate = st(5, 2);
    let flows_table: Vec<(Scalar, i32)> = vec![
        (st(-100, 0), 0),
        (st(50, 0), 365),
        (st(40, 0), 730),
        (st(30, 0), 1095),
        (st(20, 0), 1460),
    ];
    let result = xnpv(rate, &flows_table);
    let expected = st(2626940, 5);
    assert!(close_tvm(result, expected), "xnpv failed: {:?}", result);
}
