use multicell::config::{PortNo, MAX_PORTS};
use multicell::utility::{
    base_tenant_mask, default_user_mask, Mask, Path, PortNumber, TraceHeader, TraceHeaderParams, TraceType,
    UtilityError, S,
};

fn pn(n: u8) -> PortNumber {
    PortNumber::new(PortNo(n), PortNo(MAX_PORTS)).unwrap()
}

#[test]
fn mask_of_one_port_selects_that_port() {
    assert_eq!(Mask::new(pn(3)).get_port_nos(), vec![PortNo(3)]);
    assert_eq!(Mask::port0().get_port_nos(), vec![PortNo(0)]);
    assert!(Mask::empty().get_port_nos().is_empty());
}

#[test]
fn mask_all_but_zero_selects_ports_one_to_n_minus_one() {
    let m = Mask::all_but_zero(PortNo(4));
    assert_eq!(m.get_port_nos(), vec![PortNo(1), PortNo(2), PortNo(3)]);
}

#[test]
fn mask_union_intersection_complement() {
    let a = Mask::make(&vec![pn(1), pn(2)]);
    let b = Mask::make(&vec![pn(2), pn(5)]);
    assert_eq!(a.or(b).get_port_nos(), vec![PortNo(1), PortNo(2), PortNo(5)]);
    assert_eq!(a.and(b).get_port_nos(), vec![PortNo(2)]);
    let not_a = a.not().get_port_nos();
    assert_eq!(not_a, vec![PortNo(0), PortNo(3), PortNo(4), PortNo(5), PortNo(6), PortNo(7)]);
    assert!(a.or(b).equal(b.or(a)));
    assert!(!a.equal(b));
}

#[test]
fn mask_all_but_port_drops_only_that_port() {
    let m = base_tenant_mask().all_but_port(pn(4));
    assert_eq!(m.get_port_nos(), vec![PortNo(0), PortNo(1), PortNo(2), PortNo(3), PortNo(5), PortNo(6), PortNo(7)]);
    let d = default_user_mask();
    assert_eq!(d.get_port_nos(), vec![PortNo(1), PortNo(2), PortNo(3), PortNo(4), PortNo(5), PortNo(6), PortNo(7)]);
    assert!(d.all_but_port(pn(0)).equal(d));
}

#[test]
fn mask_make_of_duplicates_and_empty() {
    assert!(Mask::make(&vec![]).equal(Mask::empty()));
    assert!(Mask::make(&vec![pn(6), pn(6)]).equal(Mask::new(pn(6))));
}

#[test]
fn port_number_checks_range() {
    assert_eq!(PortNumber::new(PortNo(8), PortNo(8)).unwrap().get_port_no(), PortNo(8));
    match PortNumber::new(PortNo(9), PortNo(8)) {
        Err(UtilityError::PortNumber { port_no, func_name, max }) => {
            assert_eq!(port_no, PortNo(9));
            assert_eq!(func_name, "PortNumber::new");
            assert_eq!(max, PortNo(8));
        },
        other => panic!("unexpected {:?}", other),
    }
    assert_eq!(PortNumber::new0().get_port_no(), PortNo(0));
    assert_eq!(PortNo(3).make_port_number(PortNo(4)).unwrap().get_port_no(), PortNo(3));
    assert!(PortNo(5).make_port_number(PortNo(4)).is_err());
}

#[test]
fn path_checks_range() {
    let p = Path::new(PortNo(2), PortNo(8)).unwrap();
    assert_eq!(p.get_port_no(), PortNo(2));
    assert_eq!(p.get_port_number(), pn(2));
    match Path::new(PortNo(9), PortNo(8)) {
        Err(UtilityError::Chain { func_name, .. }) => assert_eq!(func_name, "Path::new"),
        other => panic!("unexpected {:?}", other),
    }
    assert_eq!(Path::new0().get_port_no(), PortNo(0));
}

#[test]
fn trace_header_next_and_fork() {
    let mut t = TraceHeader::new(7, 100);
    assert_eq!(t.get_event_id(), vec![0]);
    t.next(TraceType::Debug);
    assert_eq!(t.get_event_id(), vec![1]);
    assert_eq!(t.get_trace_type(), TraceType::Debug);
    let child = t.fork_trace(9, 200);
    assert_eq!(t.get_event_id(), vec![2]);
    assert_eq!(child.get_event_id(), vec![2, 0]);
    assert_eq!(child.get_thread_id(), 9);
    assert_eq!(child.get_epoch(), 200);
    assert_eq!(t.get_thread_id(), 7);
}

#[test]
fn trace_header_update_records_location() {
    let mut t = TraceHeader::new(1, 5);
    let params = TraceHeaderParams { module: "m.rs", line_no: 12, function: "f", format: "fmt" };
    t.update(&params, 42);
    assert_eq!(t.get_epoch(), 42);
    assert_eq!(t.get_event_id(), vec![0]);
    assert_eq!(params.get_module(), "m.rs");
    assert_eq!(params.get_line_no(), 12);
    assert_eq!(params.get_function(), "f");
    assert_eq!(params.get_format(), "fmt");
}

#[test]
fn s_copies_a_string() {
    assert_eq!(S("abc"), String::from("abc"));
}
