use casecsv::builder::{BusBuilder, DCLineBuilder};
use casecsv::convert::{case_to_raw, raw_to_case};
use casecsv::validate::{validate_branch, validate_bus_numbers, validate_gen, ValidateError};
use casecsv::rawnet::{RawBus, RawCaseId, RawNetwork};
use casecsv::{Branch, Bus, Case, Gen, Rat, PQ, REF};

fn v(n: i64, d: i64) -> Rat {
    Rat::new(n, d).unwrap()
}

fn case_bus(i: usize, t: usize, kv: Rat) -> Bus {
    Bus::new(i)
        .bus_type(t)
        .base_kv(kv)
        .vmax(v(11, 10))
        .vmin(v(9, 10))
        .build()
        .unwrap()
}

#[test]
fn line_and_transformer_round_trip() {
    // A case with only simple lines and two-winding transformers comes back
    // unchanged through the raw form: demands, shunts, impedances, taps.
    let case = Case::new(String::new()).base_mva(v(100, 1)).build().unwrap();
    let mut b1 = case_bus(1, REF, v(380, 1));
    b1.pd = v(475, 1);
    b1.qd = v(76, 1);
    b1.gs = v(3, 2);
    b1.bs = v(-5, 2);
    let b2 = case_bus(2, PQ, v(380, 1));
    let gen = Gen::new(1)
        .pg(v(100, 1))
        .qg(v(20, 1))
        .qmax(v(80, 1))
        .qmin(v(-80, 1))
        .mbase(v(500, 1))
        .pmax(v(400, 1))
        .pmin(v(0, 1))
        .build()
        .unwrap();
    let line = Branch::new(1, 2).br_r(v(1, 100)).br_x(v(1, 10)).br_b(v(2, 100)).build().unwrap();
    let tfmr = Branch::new(1, 2)
        .br_r(v(3, 2000))
        .br_x(v(4, 100))
        .tap(v(419, 380))
        .build()
        .unwrap();
    let buses = vec![b1, b2];
    let gens = vec![gen];
    let branches = vec![line, tfmr];
    let raw = case_to_raw(&case, &buses, &gens, &branches, &vec![]);
    assert_eq!(raw.buses.len(), 2);
    assert_eq!(raw.loads.len(), 1);
    assert_eq!(raw.fixed_shunts.len(), 1);
    assert_eq!(raw.generators.len(), 1);
    assert_eq!(raw.branches.len(), 1);
    assert_eq!(raw.transformers.len(), 1);
    assert_eq!(raw.branches[0].ckt, 1);
    assert_eq!(raw.transformers[0].ckt, 1);

    let (case2, buses2, gens2, branches2, dc2) = raw_to_case(&raw).unwrap();
    assert!(case2.base_mva.eq_val(&v(100, 1)));
    assert_eq!(buses2.len(), 2);
    assert!(buses2[0].pd.eq_val(&v(475, 1)));
    assert!(buses2[0].qd.eq_val(&v(76, 1)));
    assert!(buses2[0].gs.eq_val(&v(3, 2)));
    assert!(buses2[0].bs.eq_val(&v(-5, 2)));
    assert!(buses2[1].pd.is_zero());
    assert_eq!(gens2.len(), 1);
    assert!(gens2[0].pg.eq_val(&v(100, 1)));
    assert_eq!(branches2.len(), 2);
    assert!(branches2[0].br_r.eq_val(&v(1, 100)));
    assert!(branches2[0].br_x.eq_val(&v(1, 10)));
    assert!(branches2[0].br_b.eq_val(&v(2, 100)));
    assert!(branches2[0].tap.is_zero());
    assert!(branches2[1].br_r.eq_val(&v(3, 2000)));
    assert!(branches2[1].br_x.eq_val(&v(4, 100)));
    assert!(branches2[1].tap.eq_val(&v(419, 380)));
    assert_eq!(dc2.len(), 0);
}

#[test]
fn parallel_branches_get_sequential_circuit_tags() {
    let case = Case::new(String::new()).base_mva(v(100, 1)).build().unwrap();
    let buses = vec![case_bus(1, REF, v(380, 1)), case_bus(2, PQ, v(380, 1))];
    let l1 = Branch::new(1, 2).br_x(v(1, 10)).build().unwrap();
    let l2 = Branch::new(1, 2).br_x(v(2, 10)).build().unwrap();
    let l3 = Branch::new(2, 1).br_x(v(3, 10)).build().unwrap();
    let t1 = Branch::new(1, 2).br_x(v(4, 10)).tap(v(1, 1)).build().unwrap();
    let raw = case_to_raw(&case, &buses, &vec![], &vec![l1, l2, l3, t1], &vec![]);
    assert_eq!(raw.branches.len(), 3);
    assert_eq!(raw.branches[0].ckt, 1);
    assert_eq!(raw.branches[1].ckt, 2);
    assert_eq!(raw.branches[2].ckt, 1);
    assert_eq!(raw.transformers.len(), 1);
    // The transformer class counts its pairs on its own: tags restart at 1.
    assert_eq!(raw.transformers[0].ckt, 1);
}

#[test]
fn dispatchable_loads_write_back_as_loads() {
    let case = Case::new(String::new()).base_mva(v(100, 1)).build().unwrap();
    let mut b1 = case_bus(1, REF, v(380, 1));
    b1.pd = v(10, 1);
    let buses = vec![b1];
    let dl = Gen::new(1)
        .pmin(v(-50, 1))
        .pmax(v(0, 1))
        .qmin(v(-20, 1))
        .qmax(v(0, 1))
        .build()
        .unwrap();
    assert!(dl.is_load());
    let raw = case_to_raw(&case, &buses, &vec![dl], &vec![], &vec![]);
    // One load for the bus demand, one for the dispatchable load.
    assert_eq!(raw.loads.len(), 2);
    assert_eq!(raw.loads[0].id, 1);
    assert_eq!(raw.loads[1].id, 2);
    assert!(raw.loads[1].pl.eq_val(&v(50, 1)));
    assert!(raw.loads[1].ql.eq_val(&v(20, 1)));
    assert_eq!(raw.generators.len(), 0);
}

#[test]
fn validate_accepts_consistent_case() {
    let buses = vec![case_bus(1, REF, v(380, 1)), case_bus(2, PQ, v(380, 1))];
    let gens = vec![Gen::new(2).build().unwrap()];
    let branches = vec![Branch::new(1, 2).build().unwrap()];
    assert!(validate_bus_numbers(&buses, Some(&gens), Some(&branches), None).is_ok());
}

#[test]
fn validate_rejects_duplicate_bus_numbers() {
    let buses = vec![case_bus(1, REF, v(380, 1)), case_bus(1, PQ, v(380, 1))];
    assert_eq!(
        validate_bus_numbers(&buses, None, None, None),
        Err(ValidateError::DuplicateBusNumber { bus: 1 })
    );
}

#[test]
fn validate_rejects_dangling_references() {
    let buses = vec![case_bus(1, REF, v(380, 1))];
    let gens = vec![Gen::new(7).build().unwrap()];
    assert_eq!(
        validate_bus_numbers(&buses, Some(&gens), None, None),
        Err(ValidateError::GenBusMissing { bus: 7 })
    );
    let branches = vec![Branch::new(1, 9).build().unwrap()];
    assert_eq!(
        validate_bus_numbers(&buses, None, Some(&branches), None),
        Err(ValidateError::BranchToBusMissing { bus: 9 })
    );
}

#[test]
fn converted_output_passes_validation() {
    let net = RawNetwork {
        caseid: RawCaseId { sbase: v(100, 1), basfrq: Some(v(50, 1)) },
        buses: vec![
            RawBus {
                i: 1,
                ide: REF,
                basekv: v(380, 1),
                area: 1,
                zone: 1,
                vm: Rat::one(),
                va: Rat::zero(),
                nvhi: v(11, 10),
                nvlo: v(9, 10),
            },
            RawBus {
                i: 2,
                ide: PQ,
                basekv: v(380, 1),
                area: 1,
                zone: 1,
                vm: Rat::one(),
                va: Rat::zero(),
                nvhi: v(11, 10),
                nvlo: v(9, 10),
            },
        ],
        loads: vec![],
        fixed_shunts: vec![],
        switched_shunts: vec![],
        generators: vec![],
        branches: vec![],
        transformers: vec![],
        two_terminal_dc: vec![],
    };
    let (case, buses, gens, branches, dclines) = raw_to_case(&net).unwrap();
    assert_eq!(case.version, "2");
    assert!(case.f.as_ref().unwrap().eq_val(&v(50, 1)));
    assert!(validate_bus_numbers(&buses, Some(&gens), Some(&branches), Some(&dclines)).is_ok());
}

#[test]
fn builder_defaults_and_statuses() {
    let b = Bus::new(5).base_kv(v(380, 1)).build().unwrap();
    assert_eq!(b.bus_i, 5);
    assert_eq!(b.bus_type, PQ);
    assert!(b.is_pq());
    assert!(!b.is_ref());
    assert!(b.vm.eq_val(&Rat::one()));
    assert!(b.vmax.is_none());
    let missing = BusBuilder::pq(Bus::new(5)).build();
    assert!(missing.is_err());
    let d = DCLineBuilder::out_of_service(casecsv::DCLine::new(1, 2)).build().unwrap();
    assert!(d.is_off());
    let d2 = casecsv::DCLine::new(1, 2).in_service().build().unwrap();
    assert!(d2.is_on());
    let br = Branch::new(1, 2).out_of_service().build().unwrap();
    assert!(br.is_off());
    assert!(!br.is_transformer());
    let tr = Branch::new(1, 2).tap(v(1, 1)).in_service().build().unwrap();
    assert!(tr.is_transformer());
    assert!(tr.is_on());
}

#[test]
fn gen_field_consistency() {
    let good = Gen::new(1).qmax(v(80, 1)).qmin(v(-80, 1)).build().unwrap();
    assert!(validate_gen(&good).is_ok());
    let inverted = Gen::new(1).qmax(v(-80, 1)).qmin(v(80, 1)).build().unwrap();
    assert_eq!(
        validate_gen(&inverted),
        Err(ValidateError::GenReactiveLimitsInverted { bus: 1 })
    );
    let mut partial = Gen::new(1).build().unwrap();
    partial.pc1 = Some(v(1, 1));
    assert_eq!(
        validate_gen(&partial),
        Err(ValidateError::GenCurveFieldsIncomplete { bus: 1 })
    );
}

#[test]
fn branch_field_consistency() {
    let good = Branch::new(1, 2).angmin(v(-30, 1)).angmax(v(30, 1)).build().unwrap();
    assert!(validate_branch(&good).is_ok());
    let self_loop = Branch::new(3, 3).build().unwrap();
    assert_eq!(validate_branch(&self_loop), Err(ValidateError::BranchSelfLoop { bus: 3 }));
    let half_limits = Branch::new(1, 2).angmin(v(-30, 1)).build().unwrap();
    assert_eq!(
        validate_branch(&half_limits),
        Err(ValidateError::BranchAngleLimitsIncomplete { f_bus: 1, t_bus: 2 })
    );
    let mut half_flows = Branch::new(1, 2).angmin(v(-30, 1)).angmax(v(30, 1)).build().unwrap();
    half_flows.pf = Some(v(10, 1));
    assert_eq!(
        validate_branch(&half_flows),
        Err(ValidateError::BranchFlowsIncomplete { f_bus: 1, t_bus: 2 })
    );
}
