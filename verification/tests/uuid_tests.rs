use multicell::config::PortNo;
use multicell::utility::PortNumber;
use multicell::uuid_ec::{AitState, TimeDirection, Uuid, UuidError, AIT, NORMAL, REVERSE, TICK, TOCK};

#[test]
fn ait_transfer_steps_forward_through_teck_tack_tock_tick() {
    let mut u = Uuid::from_parts(AIT, 0, 5);
    assert!(u.is_ait());
    assert_eq!(u.next().unwrap(), AitState::Teck);
    assert_eq!(u.get_ait_state(), AitState::Teck);
    assert_eq!(u.next().unwrap(), AitState::Tack);
    assert_eq!(u.next().unwrap(), AitState::Tock);
    assert_eq!(u.next().unwrap(), AitState::Tick);
    assert_eq!(u.next().unwrap(), AitState::Tock);
    assert!(u.is_forward());
}

#[test]
fn reversed_transfer_steps_backward() {
    let mut u = Uuid::from_parts(TOCK, 0, 1);
    u.time_reverse();
    assert!(u.is_reverse());
    assert_eq!(u.get_direction(), TimeDirection::Reverse);
    assert_eq!(u.next().unwrap(), AitState::Tack);
    assert_eq!(u.next().unwrap(), AitState::Teck);
    assert_eq!(u.next().unwrap(), AitState::Teck);
    assert!(u.is_reverse());
    assert_eq!(u.to_u128() >> 120, (AIT | REVERSE) as u128);
}

#[test]
fn backward_undoes_forward_on_concrete_codes() {
    for code in [AIT, 3u8, 2u8, TOCK] {
        let mut u = Uuid::from_parts(code, 0, 9);
        u.next().unwrap();
        u.time_reverse();
        u.next().unwrap();
        assert_eq!((u.to_u128() >> 120) as u8 & 0x7f, code);
    }
}

#[test]
fn normal_uuid_is_a_fixed_point() {
    let mut u = Uuid::from_parts(NORMAL, 3, 77);
    assert_eq!(u.next().unwrap(), AitState::Normal);
    assert_eq!(u.to_u128(), Uuid::from_parts(NORMAL, 3, 77).to_u128());
}

#[test]
fn unknown_code_is_an_error() {
    let mut u = Uuid::from_parts(0x10, 0, 0);
    match u.next() {
        Err(UuidError::AitState { func_name, ait_state }) => {
            assert_eq!(func_name, "next_state");
            assert_eq!(ait_state, AitState::Normal);
        },
        other => panic!("unexpected {:?}", other),
    }
    let mut r = Uuid::from_parts(0x10 | REVERSE, 0, 0);
    match r.next() {
        Err(UuidError::AitState { func_name, .. }) => assert_eq!(func_name, "previous_stat"),
        other => panic!("unexpected {:?}", other),
    }
}

#[test]
fn u128_round_trip() {
    let v: u128 = 0x4105_1122_3344_5566_7788_99aa_bbcc_ddee;
    let u = Uuid::from_u128(v);
    assert_eq!(u.to_u128(), v);
    assert_eq!(u.get_port_byte(), 0x05);
}

#[test]
fn port_number_is_kept_in_second_byte() {
    let mut u = Uuid::from_parts(NORMAL, 0, 12);
    u.add_port_no(&PortNumber::new(PortNo(6), PortNo(8)).unwrap());
    assert_eq!(u.get_port_byte(), 6);
    u.remove_port_no();
    assert_eq!(u.get_port_byte(), 0);
    assert_eq!(u.to_u128(), Uuid::from_parts(NORMAL, 0, 12).to_u128());
}

#[test]
fn random_uuids_are_normal_or_ait() {
    let a = Uuid::new();
    let b = Uuid::new();
    assert_eq!(a.get_ait_state(), AitState::Normal);
    assert!(a.is_forward());
    assert_eq!(a.get_port_byte(), 0);
    assert_ne!(a.to_u128(), b.to_u128());
    let c = Uuid::new_ait();
    assert_eq!(((c.to_u128() >> 120) as u8) & 0x7f, AIT);
    let mut d = Uuid::from_parts(TICK, 1, 1);
    assert_eq!(d.make_normal(), AitState::Normal);
    assert_eq!(d.get_port_byte(), 0);
    assert_eq!(d.make_ait(), AitState::Ait);
    assert!(d.is_ait());
}
