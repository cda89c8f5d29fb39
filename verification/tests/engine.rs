use casecsv::errors::{CaseError, RecordKind};
use casecsv::rawnet::{
    RawBus, RawCaseId, RawFixedShunt, RawGenerator, RawLoad, RawNetwork, RawSwitchedShunt,
    RawTransformer, RawTwoTerminalDC,
};
use casecsv::convert::{dc_power, delta_to_star, hvdc_q_lims, pow10_above, raw_to_case};
use casecsv::{Rat, PQ, REF};

fn n(v: i64, d: i64) -> Rat {
    Rat::new(v, d).unwrap()
}

fn f(r: &Rat) -> f64 {
    r.numer() as f64 / r.denom() as f64
}

fn raw_bus(i: usize, ide: usize, kv: Rat) -> RawBus {
    RawBus {
        i,
        ide,
        basekv: kv,
        area: 1,
        zone: 1,
        vm: Rat::one(),
        va: Rat::zero(),
        nvhi: n(11, 10),
        nvlo: n(9, 10),
    }
}

fn empty_network(sbase: Rat) -> RawNetwork {
    RawNetwork {
        caseid: RawCaseId { sbase, basfrq: None },
        buses: vec![],
        loads: vec![],
        fixed_shunts: vec![],
        switched_shunts: vec![],
        generators: vec![],
        branches: vec![],
        transformers: vec![],
        two_terminal_dc: vec![],
    }
}

fn two_winding(i: usize, j: usize, cw: i64, cz: i64) -> RawTransformer {
    RawTransformer {
        i,
        j,
        k: 0,
        ckt: 1,
        cw,
        cz,
        stat: 1,
        r1_2: Rat::zero(),
        x1_2: n(1, 10),
        sbase1_2: n(100, 1),
        windv1: Rat::one(),
        nomv1: Rat::zero(),
        ang1: Rat::zero(),
        rata1: Rat::zero(),
        ratb1: Rat::zero(),
        ratc1: Rat::zero(),
        windv2: Rat::one(),
        nomv2: Rat::zero(),
        r2_3: None,
        x2_3: None,
        sbase2_3: None,
        r3_1: None,
        x3_1: None,
        sbase3_1: None,
        vmstar: None,
        anstar: None,
        windv3: None,
        nomv3: None,
        ang2: None,
        rata2: None,
        ratb2: None,
        ratc2: None,
        ang3: None,
        rata3: None,
        ratb3: None,
        ratc3: None,
    }
}

#[test]
fn delta_to_star_concrete_split() {
    // Loop reactances 0.10, 0.08, 0.06 split into legs 0.04, 0.06, 0.02.
    let (x1, x2, x3) = delta_to_star(n(10, 100), n(8, 100), n(6, 100)).unwrap();
    assert!(x1.eq_val(&n(4, 100)));
    assert!(x2.eq_val(&n(6, 100)));
    assert!(x3.eq_val(&n(2, 100)));
}

#[test]
fn delta_to_star_recovers_loops_exactly() {
    let x12 = n(10, 100);
    let x23 = n(8, 100);
    let x31 = n(6, 100);
    let (l1, l2, l3) = delta_to_star(x12, x23, x31).unwrap();
    assert!(l1.add(l2).unwrap().eq_val(&x12));
    assert!(l2.add(l3).unwrap().eq_val(&x23));
    assert!(l3.add(l1).unwrap().eq_val(&x31));
}

#[test]
fn two_winding_fixture_with_magnitude_impedance() {
    // One 100 MVA system base, a 419/380 kV transformer on a 500 MVA winding
    // base, 16% impedance magnitude and 0.15% resistance: the branch tap is
    // 419/380 and the impedance is scaled by (419/380)^2 * (100/500).
    let mut net = empty_network(n(100, 1));
    net.buses.push(raw_bus(1, REF, n(380, 1)));
    net.buses.push(raw_bus(2, PQ, n(380, 1)));
    let mut t = two_winding(1, 2, 2, 3);
    t.windv1 = n(419, 1);
    t.windv2 = n(380, 1);
    t.nomv1 = n(419, 1);
    t.nomv2 = n(419, 1);
    t.r1_2 = n(750000, 1);
    t.x1_2 = n(16, 100);
    t.sbase1_2 = n(500, 1);
    net.transformers.push(t);
    let (_case, buses, _gens, branches, _dc) = raw_to_case(&net).unwrap();
    assert_eq!(buses.len(), 2);
    assert_eq!(branches.len(), 1);
    let br = &branches[0];
    assert_eq!(br.f_bus, 1);
    assert_eq!(br.t_bus, 2);
    assert!(br.tap.eq_val(&n(419, 380)));
    // The resistance path is exact rational arithmetic throughout:
    // 0.0015 * (419/380)^2 * (100/500).
    let r_exact = n(15, 10000)
        .mul(n(419 * 419, 380 * 380))
        .unwrap()
        .mul(n(100, 500))
        .unwrap();
    assert!(br.br_r.eq_val(&r_exact));
    let scale = (419.0f64 / 380.0).powi(2) * (100.0 / 500.0);
    let r_w = 1e-6 * 750000.0 / 500.0;
    let x_w = (0.16f64 * 0.16 - r_w * r_w).sqrt();
    let x_expect = x_w * scale;
    // The root is rounded down at the ninth decimal place before scaling.
    assert!((f(&br.br_x) - x_expect).abs() < 1e-9);
    assert!(f(&br.br_x) <= x_expect);
}

#[test]
fn unsupported_winding_code_fails_whole_conversion() {
    let mut net = empty_network(n(100, 1));
    net.buses.push(raw_bus(1, REF, n(380, 1)));
    net.buses.push(raw_bus(2, PQ, n(380, 1)));
    net.transformers.push(two_winding(1, 2, 3, 1));
    match raw_to_case(&net) {
        Err(CaseError::UnsupportedWindingCode { code, bus1, bus2, .. }) => {
            assert_eq!(code, 3);
            assert_eq!(bus1, 1);
            assert_eq!(bus2, 2);
        },
        other => panic!("expected the unsupported-code failure, got {:?}", other.is_ok()),
    }
}

#[test]
fn unsupported_impedance_code_fails_whole_conversion() {
    let mut net = empty_network(n(100, 1));
    net.buses.push(raw_bus(1, REF, n(380, 1)));
    net.buses.push(raw_bus(2, PQ, n(380, 1)));
    net.transformers.push(two_winding(1, 2, 1, 4));
    match raw_to_case(&net) {
        Err(CaseError::UnsupportedImpedanceCode { code, .. }) => assert_eq!(code, 4),
        _ => panic!("expected the unsupported-code failure"),
    }
}

#[test]
fn magnitude_below_resistance_is_a_numeric_domain_error() {
    let mut net = empty_network(n(100, 1));
    net.buses.push(raw_bus(1, REF, n(380, 1)));
    net.buses.push(raw_bus(2, PQ, n(380, 1)));
    let mut t = two_winding(1, 2, 1, 3);
    t.nomv1 = n(380, 1);
    // 2% resistance as load loss but only 1% impedance magnitude.
    t.r1_2 = n(10_000_000, 1);
    t.x1_2 = n(1, 100);
    t.sbase1_2 = n(500, 1);
    net.transformers.push(t);
    match raw_to_case(&net) {
        Err(CaseError::NumericDomain { bus1, bus2, .. }) => {
            assert_eq!(bus1, 1);
            assert_eq!(bus2, 2);
        },
        _ => panic!("expected the numeric-domain failure"),
    }
}

#[test]
fn dangling_load_reference_fails() {
    let mut net = empty_network(n(100, 1));
    net.buses.push(raw_bus(1, REF, n(380, 1)));
    net.loads.push(RawLoad {
        i: 9,
        id: 1,
        status: 1,
        area: 1,
        zone: 1,
        pl: n(5, 1),
        ql: Rat::zero(),
        ip: Rat::zero(),
        iq: Rat::zero(),
        yp: Rat::zero(),
        yq: Rat::zero(),
    });
    match raw_to_case(&net) {
        Err(CaseError::DanglingReference { kind, bus }) => {
            assert_eq!(kind, RecordKind::Load);
            assert_eq!(bus, 9);
        },
        _ => panic!("expected the dangling-reference failure"),
    }
}

#[test]
fn out_of_service_records_contribute_nothing() {
    let mut net = empty_network(n(100, 1));
    net.buses.push(raw_bus(1, REF, n(380, 1)));
    net.loads.push(RawLoad {
        i: 1,
        id: 1,
        status: 0,
        area: 1,
        zone: 1,
        pl: n(5, 1),
        ql: n(2, 1),
        ip: Rat::zero(),
        iq: Rat::zero(),
        yp: Rat::zero(),
        yq: Rat::zero(),
    });
    net.fixed_shunts.push(RawFixedShunt {
        i: 1,
        id: 1,
        status: 0,
        gl: n(3, 1),
        bl: n(4, 1),
    });
    net.switched_shunts.push(RawSwitchedShunt { i: 1, stat: 0, binit: n(7, 1) });
    let (_case, buses, ..) = raw_to_case(&net).unwrap();
    assert!(buses[0].pd.is_zero());
    assert!(buses[0].qd.is_zero());
    assert!(buses[0].gs.is_zero());
    assert!(buses[0].bs.is_zero());
}

#[test]
fn load_terms_scale_with_voltage_magnitude() {
    let mut net = empty_network(n(100, 1));
    let mut b = raw_bus(1, PQ, n(380, 1));
    b.vm = n(1, 2);
    net.buses.push(b);
    net.loads.push(RawLoad {
        i: 1,
        id: 1,
        status: 1,
        area: 1,
        zone: 1,
        pl: n(8, 1),
        ql: n(6, 1),
        ip: n(4, 1),
        iq: n(4, 1),
        yp: n(12, 1),
        yq: n(12, 1),
    });
    let (_case, buses, ..) = raw_to_case(&net).unwrap();
    // pd = 8 + 4 * 0.5 + 12 * 0.25 = 13; qd = 6 + 4 * 0.5 - 12 * 0.25 = 5.
    assert!(buses[0].pd.eq_val(&n(13, 1)));
    assert!(buses[0].qd.eq_val(&n(5, 1)));
}

#[test]
fn branch_end_shunts_scale_with_system_base() {
    let mut net = empty_network(n(100, 1));
    net.buses.push(raw_bus(1, REF, n(380, 1)));
    net.buses.push(raw_bus(2, PQ, n(380, 1)));
    net.branches.push(casecsv::rawnet::RawBranch {
        i: 1,
        j: 2,
        ckt: 1,
        r: n(1, 100),
        x: n(1, 10),
        b: n(2, 100),
        rate_a: n(250, 1),
        rate_b: Rat::zero(),
        rate_c: Rat::zero(),
        gi: n(1, 100),
        bi: n(2, 100),
        gj: n(3, 100),
        bj: n(4, 100),
        st: 1,
    });
    let (_case, buses, _gens, branches, _dc) = raw_to_case(&net).unwrap();
    assert!(buses[0].gs.eq_val(&n(1, 1)));
    assert!(buses[0].bs.eq_val(&n(2, 1)));
    assert!(buses[1].gs.eq_val(&n(3, 1)));
    assert!(buses[1].bs.eq_val(&n(4, 1)));
    let br = &branches[0];
    assert!(br.br_r.eq_val(&n(1, 100)));
    assert!(br.br_x.eq_val(&n(1, 10)));
    assert!(br.br_b.eq_val(&n(2, 100)));
    assert!(br.tap.is_zero());
    assert_eq!(br.br_status, 1);
}

#[test]
fn three_winding_split_makes_star_bus_and_legs() {
    let mut net = empty_network(n(100, 1));
    net.buses.push(raw_bus(1, REF, n(380, 1)));
    net.buses.push(raw_bus(2, PQ, n(110, 1)));
    net.buses.push(raw_bus(3, PQ, n(20, 1)));
    let mut t = two_winding(1, 2, 1, 1);
    t.k = 3;
    // Composite status 2: only the second winding's leg is out of service.
    t.stat = 2;
    t.x1_2 = n(10, 100);
    t.r1_2 = Rat::zero();
    t.x2_3 = Some(n(8, 100));
    t.r2_3 = Some(Rat::zero());
    t.sbase2_3 = Some(n(100, 1));
    t.x3_1 = Some(n(6, 100));
    t.r3_1 = Some(Rat::zero());
    t.sbase3_1 = Some(n(100, 1));
    t.windv3 = Some(n(1, 1));
    t.nomv3 = Some(n(20, 1));
    t.ang2 = Some(Rat::zero());
    t.ang3 = Some(Rat::zero());
    t.rata2 = Some(Rat::zero());
    t.ratb2 = Some(Rat::zero());
    t.ratc2 = Some(Rat::zero());
    t.rata3 = Some(Rat::zero());
    t.ratb3 = Some(Rat::zero());
    t.ratc3 = Some(Rat::zero());
    t.vmstar = Some(n(99, 100));
    t.anstar = None;
    net.transformers.push(t);
    let (_case, buses, _gens, branches, _dc) = raw_to_case(&net).unwrap();
    assert_eq!(buses.len(), 4);
    let star = &buses[3];
    // The smallest power of ten above the largest bus number 3 is 10.
    assert_eq!(star.bus_i, 10);
    assert_eq!(star.bus_type, PQ);
    assert!(star.vm.eq_val(&n(99, 100)));
    assert!(star.va.is_zero());
    assert!(star.base_kv.eq_val(&n(380, 1)));
    assert_eq!(branches.len(), 3);
    assert_eq!(branches[0].f_bus, 1);
    assert_eq!(branches[0].t_bus, 10);
    assert_eq!(branches[1].f_bus, 2);
    assert_eq!(branches[2].f_bus, 3);
    // Legs of loops 0.10, 0.08, 0.06 are 0.04, 0.06, 0.02.
    assert!(branches[0].br_x.eq_val(&n(4, 100)));
    assert!(branches[1].br_x.eq_val(&n(6, 100)));
    assert!(branches[2].br_x.eq_val(&n(2, 100)));
    assert_eq!(branches[0].br_status, 1);
    assert_eq!(branches[1].br_status, 0);
    assert_eq!(branches[2].br_status, 1);
}

#[test]
fn missing_three_winding_field_is_reported() {
    let mut net = empty_network(n(100, 1));
    net.buses.push(raw_bus(1, REF, n(380, 1)));
    net.buses.push(raw_bus(2, PQ, n(110, 1)));
    net.buses.push(raw_bus(3, PQ, n(20, 1)));
    let mut t = two_winding(1, 2, 1, 1);
    t.k = 3;
    net.transformers.push(t);
    match raw_to_case(&net) {
        Err(CaseError::MissingField { .. }) => {},
        _ => panic!("expected the missing-field failure"),
    }
}

#[test]
fn dc_power_modes() {
    assert!(dc_power(1, Rat::new(-250, 1).unwrap(), Rat::zero()).unwrap().eq_val(&n(250, 1)));
    assert!(dc_power(2, n(2, 1), n(500, 1)).unwrap().eq_val(&n(1, 1)));
    assert!(dc_power(7, n(123, 1), n(500, 1)).unwrap().is_zero());
}

#[test]
fn hvdc_limits_are_nonnegative_and_ordered() {
    // tan factors for a small minimum angle and a larger power-factor angle.
    let tan_min = n(1, 4);
    let tan_phi = n(3, 4);
    let p = n(200, 1);
    let (qmin, qmax) = hvdc_q_lims(tan_phi, tan_min, p).unwrap();
    assert!(qmin.eq_val(&n(50, 1)));
    assert!(qmax.eq_val(&n(150, 1)));
    assert!(!qmin.is_neg());
    assert!(!qmax.is_neg());
    assert!(qmin.le(&qmax));
    // A negative setpoint still yields non-negative magnitudes.
    let (qmin2, qmax2) = hvdc_q_lims(tan_phi, tan_min, Rat::new(-200, 1).unwrap()).unwrap();
    assert!(qmin2.eq_val(&n(50, 1)));
    assert!(qmax2.eq_val(&n(150, 1)));
}

#[test]
fn dc_line_conversion_sets_limits() {
    let mut net = empty_network(n(100, 1));
    net.buses.push(raw_bus(1, REF, n(380, 1)));
    net.buses.push(raw_bus(2, PQ, n(380, 1)));
    net.two_terminal_dc.push(RawTwoTerminalDC {
        mdc: 1,
        setvl: n(200, 1),
        vschd: n(500, 1),
        ipr: 1,
        ipi: 2,
        tan_alpha_min: n(1, 4),
        tan_phi_rec: n(3, 4),
        tan_gamma_min: n(1, 5),
        tan_phi_inv: n(4, 5),
    });
    let (_case, _buses, _gens, _branches, dc) = raw_to_case(&net).unwrap();
    assert_eq!(dc.len(), 1);
    let l = &dc[0];
    assert_eq!(l.f_bus, 1);
    assert_eq!(l.t_bus, 2);
    assert_eq!(l.br_status, 1);
    assert!(l.pf.eq_val(&n(200, 1)));
    assert!(l.pmin.as_ref().unwrap().eq_val(&n(170, 1)));
    assert!(l.pmax.as_ref().unwrap().eq_val(&n(230, 1)));
    assert!(l.qminf.as_ref().unwrap().eq_val(&n(50, 1)));
    assert!(l.qmaxf.as_ref().unwrap().eq_val(&n(150, 1)));
    assert!(l.qmint.as_ref().unwrap().eq_val(&n(40, 1)));
    assert!(l.qmaxt.as_ref().unwrap().eq_val(&n(160, 1)));
}

#[test]
fn generators_carry_over() {
    let mut net = empty_network(n(100, 1));
    net.buses.push(raw_bus(1, REF, n(380, 1)));
    net.generators.push(RawGenerator {
        i: 1,
        id: 1,
        pg: n(100, 1),
        qg: n(20, 1),
        qt: n(80, 1),
        qb: Rat::new(-80, 1).unwrap(),
        vs: n(105, 100),
        mbase: n(500, 1),
        stat: 2,
        pt: n(400, 1),
        pb: Rat::zero(),
    });
    let (_case, _buses, gens, ..) = raw_to_case(&net).unwrap();
    assert_eq!(gens.len(), 1);
    assert_eq!(gens[0].gen_bus, 1);
    assert_eq!(gens[0].gen_status, 1);
    assert!(gens[0].pg.eq_val(&n(100, 1)));
    assert!(gens[0].qmax.as_ref().unwrap().eq_val(&n(80, 1)));
    assert!(gens[0].is_on());
    assert!(!gens[0].is_load());
}

#[test]
fn pow10_above_picks_the_next_power() {
    assert_eq!(pow10_above(0), Some(1));
    assert_eq!(pow10_above(1), Some(10));
    assert_eq!(pow10_above(9), Some(10));
    assert_eq!(pow10_above(10), Some(100));
    assert_eq!(pow10_above(999), Some(1000));
}

#[test]
fn zero_winding_divisor_is_a_division_error() {
    let mut net = empty_network(n(100, 1));
    net.buses.push(raw_bus(1, REF, n(380, 1)));
    net.buses.push(raw_bus(2, PQ, n(380, 1)));
    let mut t = two_winding(1, 2, 1, 1);
    t.windv2 = Rat::zero();
    net.transformers.push(t);
    match raw_to_case(&net) {
        Err(CaseError::DivisionByZero { bus1, bus2, .. }) => {
            assert_eq!(bus1, 1);
            assert_eq!(bus2, 2);
        },
        _ => panic!("expected the division-by-zero failure"),
    }
}

#[test]
fn dangling_branch_and_generator_references_fail() {
    let mut net = empty_network(n(100, 1));
    net.buses.push(raw_bus(1, REF, n(380, 1)));
    net.generators.push(RawGenerator {
        i: 4,
        id: 1,
        pg: Rat::zero(),
        qg: Rat::zero(),
        qt: Rat::zero(),
        qb: Rat::zero(),
        vs: Rat::one(),
        mbase: Rat::zero(),
        stat: 1,
        pt: Rat::zero(),
        pb: Rat::zero(),
    });
    match raw_to_case(&net) {
        Err(CaseError::DanglingReference { kind, bus }) => {
            assert_eq!(kind, RecordKind::Generator);
            assert_eq!(bus, 4);
        },
        _ => panic!("expected the dangling-reference failure"),
    }
    net.generators.clear();
    net.branches.push(casecsv::rawnet::RawBranch {
        i: 1,
        j: 6,
        ckt: 1,
        r: Rat::zero(),
        x: n(1, 10),
        b: Rat::zero(),
        rate_a: Rat::zero(),
        rate_b: Rat::zero(),
        rate_c: Rat::zero(),
        gi: Rat::zero(),
        bi: Rat::zero(),
        gj: Rat::zero(),
        bj: Rat::zero(),
        st: 1,
    });
    match raw_to_case(&net) {
        Err(CaseError::DanglingReference { kind, bus }) => {
            assert_eq!(kind, RecordKind::Branch);
            assert_eq!(bus, 6);
        },
        _ => panic!("expected the dangling-reference failure"),
    }
}

#[test]
fn dangling_dc_reference_fails() {
    let mut net = empty_network(n(100, 1));
    net.buses.push(raw_bus(1, REF, n(380, 1)));
    net.two_terminal_dc.push(RawTwoTerminalDC {
        mdc: 1,
        setvl: n(100, 1),
        vschd: n(500, 1),
        ipr: 1,
        ipi: 8,
        tan_alpha_min: Rat::zero(),
        tan_phi_rec: Rat::zero(),
        tan_gamma_min: Rat::zero(),
        tan_phi_inv: Rat::zero(),
    });
    match raw_to_case(&net) {
        Err(CaseError::DanglingReference { kind, bus }) => {
            assert_eq!(kind, RecordKind::DCLine);
            assert_eq!(bus, 8);
        },
        _ => panic!("expected the dangling-reference failure"),
    }
}

#[test]
fn demand_out_of_range_is_an_overflow() {
    let mut net = empty_network(n(100, 1));
    net.buses.push(raw_bus(1, REF, n(380, 1)));
    let huge = RawLoad {
        i: 1,
        id: 1,
        status: 1,
        area: 1,
        zone: 1,
        pl: n(i64::MAX - 1, 1),
        ql: Rat::zero(),
        ip: Rat::zero(),
        iq: Rat::zero(),
        yp: Rat::zero(),
        yq: Rat::zero(),
    };
    net.loads.push(huge.clone());
    net.loads.push(huge);
    assert_eq!(raw_to_case(&net).err(), Some(CaseError::Overflow));
}

#[test]
fn switched_shunts_add_only_susceptance() {
    let mut net = empty_network(n(100, 1));
    net.buses.push(raw_bus(1, REF, n(380, 1)));
    net.switched_shunts.push(RawSwitchedShunt { i: 1, stat: 1, binit: n(25, 1) });
    let (_case, buses, ..) = raw_to_case(&net).unwrap();
    assert!(buses[0].gs.is_zero());
    assert!(buses[0].bs.eq_val(&n(25, 1)));
}

#[test]
fn hvdc_limits_ordered_for_angle_limits() {
    // Angle limits in degrees, run through the boundary's tangent
    // derivation: for ordered limits within the usual control range, the
    // upper reactive bound dominates the lower for any non-negative
    // setpoint.
    let scale = 1_000_000_000i64;
    let to_rat = |v: f64| Rat::new((v * scale as f64).round() as i64, scale).unwrap();
    for (amin, amax) in [(0.0f64, 0.0f64), (5.0, 15.0), (10.0, 30.0), (20.0, 60.0)] {
        let tan_min = amin.to_radians().tan();
        let phi = (0.5 * (amax.to_radians().cos() + 60f64.to_radians().cos())).acos();
        let tan_phi = phi.tan();
        for p in [0.0f64, 1.0, 250.0, 4000.0] {
            let (qmin, qmax) =
                hvdc_q_lims(to_rat(tan_phi), to_rat(tan_min), to_rat(p)).unwrap();
            assert!(qmin.le(&qmax));
            assert!(!qmin.is_neg());
            assert!(!qmax.is_neg());
        }
    }
}
