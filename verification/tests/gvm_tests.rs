use multicell::gvm_equation::{GvmEqn, GvmEquation, GvmEquationError, GvmVariable, GvmVariableType};

fn hops(value: &str) -> GvmVariable {
    let mut v = GvmVariable::new(GvmVariableType::PathLength, "hops");
    v.set_value(value.to_string());
    v
}

#[test]
fn missing_equations_are_false() {
    let eqn = GvmEquation::new(&vec![GvmEqn::Recv("true")], vec![]);
    assert_eq!(eqn.eval_recv(&[]).unwrap(), true);
    assert_eq!(eqn.eval_send(&[]).unwrap(), false);
    assert_eq!(eqn.eval_xtnd(&[]).unwrap(), false);
    assert_eq!(eqn.eval_save(&[]).unwrap(), false);
}

#[test]
fn the_last_equation_of_a_kind_wins() {
    let eqn = GvmEquation::new(&vec![GvmEqn::Send("false"), GvmEqn::Send("true"), GvmEqn::Save("true")], vec![]);
    assert_eq!(eqn.eval_send(&[]).unwrap(), true);
    assert_eq!(eqn.eval_save(&[]).unwrap(), true);
}

#[test]
fn equations_read_variables() {
    let eqn = GvmEquation::new(&vec![GvmEqn::Recv("hops == 1"), GvmEqn::Xtnd("hops < 3")], vec![hops("")]);
    assert_eq!(eqn.get_variables().len(), 1);
    assert_eq!(eqn.get_variables()[0].get_var_name(), "hops");
    assert_eq!(eqn.eval_recv(&[hops("1")]).unwrap(), true);
    assert_eq!(eqn.eval_recv(&[hops("2")]).unwrap(), false);
    assert_eq!(eqn.eval_xtnd(&[hops("2")]).unwrap(), true);
    assert_eq!(eqn.eval_xtnd(&[hops("7")]).unwrap(), false);
}

#[test]
fn unparsable_value_is_a_deserialize_error() {
    let eqn = GvmEquation::new(&vec![GvmEqn::Recv("hops == 1")], vec![]);
    match eqn.eval_recv(&[hops("one")]) {
        Err(GvmEquationError::Deserialize { func_name, var_type, expr }) => {
            assert_eq!(func_name, "evaluate");
            assert_eq!(var_type, GvmVariableType::PathLength);
            assert_eq!(expr, "one");
        },
        other => panic!("unexpected {:?}", other),
    }
}

#[test]
fn malformed_equation_is_an_eval_error() {
    let eqn = GvmEquation::new(&vec![GvmEqn::Recv("(hops == 1")], vec![]);
    match eqn.eval_recv(&[hops("1")]) {
        Err(GvmEquationError::Eval { func_name, .. }) => assert_eq!(func_name, "evaluate"),
        other => panic!("unexpected {:?}", other),
    }
}

#[test]
fn variable_accessors() {
    let mut v = GvmVariable::new(GvmVariableType::CellNo, "n");
    assert_eq!(v.get_value(), "");
    assert_eq!(*v.get_var_type(), GvmVariableType::CellNo);
    v.set_value("4".to_string());
    assert_eq!(v.get_value(), "4");
}

#[test]
fn arithmetic_equation_is_an_eval_error() {
    let eqn = GvmEquation::new(&vec![GvmEqn::Recv("1 % 0 == 0"), GvmEqn::Send("hops - 1 > 0")], vec![]);
    match eqn.eval_recv(&[]) {
        Err(GvmEquationError::Eval { func_name, .. }) => assert_eq!(func_name, "evaluate"),
        other => panic!("unexpected {:?}", other),
    }
    assert!(eqn.eval_send(&[hops("18446744073709551615")]).is_err());
}

#[test]
fn a_value_that_is_not_boolean_is_false() {
    let eqn = GvmEquation::new(&vec![GvmEqn::Recv("hops")], vec![]);
    assert_eq!(eqn.eval_recv(&[hops("3")]).unwrap(), false);
}

#[test]
fn small_arithmetic_is_evaluated() {
    let eqn = GvmEquation::new(&vec![GvmEqn::Recv("hops + 1 < 7"), GvmEqn::Send("hops * 2 - 1 == 5")], vec![hops("")]);
    assert_eq!(eqn.eval_recv(&[hops("3")]).unwrap(), true);
    assert_eq!(eqn.eval_recv(&[hops("6")]).unwrap(), false);
    assert_eq!(eqn.eval_send(&[hops("3")]).unwrap(), true);
    assert!(eqn.eval_recv(&[hops("1000")]).is_err());
}

#[test]
fn expressions_the_evaluator_cannot_take_are_eval_errors() {
    for text in ["]", "\u{e9}<1", "!", "(hops == 1)", "hops * 1000 < 1", "1+1+1+1+1+1+1 == 7"] {
        let eqn = GvmEquation::new(&vec![GvmEqn::Recv(text)], vec![]);
        match eqn.eval_recv(&[hops("1")]) {
            Err(GvmEquationError::Eval { func_name, .. }) => assert_eq!(func_name, "evaluate"),
            other => panic!("unexpected {:?} for {}", other, text),
        }
    }
    let eqn = GvmEquation::new(&vec![GvmEqn::Recv("hops != 2")], vec![]);
    assert_eq!(eqn.eval_recv(&[hops("1")]).unwrap(), true);
}

#[test]
fn a_very_long_equation_is_an_eval_error() {
    let text = "a == a && ".repeat(100) + "true";
    let eqn = GvmEquation::new(&vec![GvmEqn::Recv(&text)], vec![]);
    assert!(eqn.eval_recv(&[]).is_err());
}
