use workflow::models::{Action, Command, Conditional, Conditions, Step, StepNumber};

#[test]
fn test_step_number_new_valid() {
    let step_num = StepNumber::new(5).unwrap();
    assert_eq!(step_num.get(), 5);
}

#[test]
fn test_step_number_new_zero_returns_none() {
    let step_num = StepNumber::new(0);
    assert!(step_num.is_none());
}

#[test]
fn test_step_number_ordering() {
    let step1 = StepNumber::new(1).unwrap();
    let step5 = StepNumber::new(5).unwrap();
    assert!(step1 < step5);
}

#[test]
fn test_step_number_equality() {
    let step1a = StepNumber::new(1).unwrap();
    let step1b = StepNumber::new(1).unwrap();
    assert_eq!(step1a, step1b);
}

#[test]
fn test_step_uses_step_number_type() {
    let step = Step {
        number: StepNumber::new(1).unwrap(),
        description: "Test step".to_string(),
        command: None,
        prompts: vec![],
        conditions: None,
    };
    assert_eq!(step.number.get(), 1);
}

#[test]
#[should_panic]
fn test_step_number_prevents_zero_indexed() {
    let _step_num = StepNumber::new(0).unwrap();
}

#[test]
fn test_action_continue_is_unit_variant() {
    let action = Action::Continue;
    assert!(matches!(action, Action::Continue));
}

#[test]
fn test_action_stop_tuple_variant_with_none() {
    let action = Action::Stop(None);
    assert!(matches!(action, Action::Stop(None)));
}

#[test]
fn test_action_stop_tuple_variant_with_some() {
    let action = Action::Stop(Some("test reason".to_string()));
    match action {
        Action::Stop(Some(msg)) => assert_eq!(msg, "test reason"),
        _ => panic!("Expected Stop with Some message"),
    }
}

#[test]
fn test_action_goto_tuple_variant() {
    let action = Action::Goto(StepNumber::new(5).unwrap());
    match action {
        Action::Goto(step_num) => assert_eq!(step_num.get(), 5),
        _ => panic!("Expected Goto action"),
    }
}

#[test]
fn test_new_conditional_syntax() {
    let pass_cond = Conditional::Pass {
        action: Action::Continue,
    };
    let fail_cond = Conditional::Fail {
        action: Action::Stop(None),
    };
    assert!(matches!(pass_cond, Conditional::Pass { .. }));
    assert!(matches!(fail_cond, Conditional::Fail { .. }));
}

#[test]
fn test_conditions_atomic_has_both_branches() {
    let conditions = Conditions {
        pass: Action::Continue,
        fail: Action::Stop(Some("fix first".to_string())),
    };
    assert_eq!(conditions.pass, Action::Continue);
    match &conditions.fail {
        Action::Stop(Some(msg)) => assert_eq!(msg, "fix first"),
        _ => panic!("Expected Stop with message"),
    }
}

#[test]
fn test_conditions_equality() {
    let cond1 = Conditions {
        pass: Action::Continue,
        fail: Action::Stop(None),
    };
    let cond2 = Conditions {
        pass: Action::Continue,
        fail: Action::Stop(None),
    };
    assert_eq!(cond1, cond2);
}

#[test]
fn test_conditions_with_goto() {
    let conditions = Conditions {
        pass: Action::Goto(StepNumber::new(5).unwrap()),
        fail: Action::Stop(Some("failed".to_string())),
    };
    match conditions.pass {
        Action::Goto(num) => assert_eq!(num.get(), 5),
        _ => panic!("Expected Goto action"),
    }
}

#[test]
fn test_step_with_no_conditions_uses_none() {
    let step = Step {
        number: StepNumber::new(1).unwrap(),
        description: "Test step".to_string(),
        command: Some(Command {
            code: "echo test".to_string(),
            quiet: false,
        }),
        prompts: vec![],
        conditions: None,
    };
    assert!(step.conditions.is_none());
}

#[test]
fn test_step_with_explicit_conditions_uses_some() {
    let step = Step {
        number: StepNumber::new(1).unwrap(),
        description: "Test step".to_string(),
        command: Some(Command {
            code: "echo test".to_string(),
            quiet: false,
        }),
        prompts: vec![],
        conditions: Some(Conditions {
            pass: Action::Continue,
            fail: Action::Stop(Some("failed".to_string())),
        }),
    };
    assert!(step.conditions.is_some());
    let conds = step.conditions.unwrap();
    assert_eq!(conds.pass, Action::Continue);
}

#[test]
fn step_number_duplicate_of_action_keeps_value() {
    let action = Action::Stop(Some("halt".to_string()));
    assert_eq!(action.duplicate(), action);
    let jump = Action::Goto(StepNumber::new(7).unwrap());
    assert_eq!(jump.duplicate(), jump);
}
