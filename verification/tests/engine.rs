use statecharts::error::StateChartError;
use statecharts::ids::NodeId;
use statecharts::node::Node;
use statecharts::state_charts::ActionCall;
use statecharts::state_charts::Guard;
use statecharts::state_charts::Parameter;
use statecharts::state_charts::PredicateCall;
use statecharts::state_charts::Transition;
use statecharts::state_charts::VariableDeclaration;
use statecharts::state_charts::VariableValue;
use statecharts::state_machine::StateMachine;
use statecharts::state_machine_log::LogEntryType;
use statecharts::values::ValidatedValue;
use statecharts::warehouse::Warehouse;

fn leaf(id: &str) -> Node {
    Node {
        id: NodeId::from(id),
        description: None,
        on_entry: None,
        on_exit: None,
        start_node: None,
        out_transitions: vec![],
        attributes: vec![],
        nodes: vec![],
    }
}

fn action(name: &str) -> ActionCall {
    ActionCall {
        name: name.to_string(),
        parameters: vec![],
    }
}

/// The chart of the minimal instantiation scenario: a root whose default
/// child is `Root/A`.
fn two_node_chart() -> Node {
    let mut root = leaf("scn:///Root");
    root.start_node = Some(NodeId::from("scn:///Root/A"));
    root.nodes = vec![leaf("scn:///Root/A")];
    root
}

#[test]
fn instantiation_enters_the_default_chain() {
    let machine = StateMachine::new(two_node_chart()).unwrap();
    assert!(machine.current_state().0.starts_with("sms:///"));
    assert!(machine.current_state().0.ends_with("/Root/A"));
    // the machine id addresses the root, sharing the instance segment
    assert!(machine.id().0.ends_with("/Root"));
    assert_eq!(
        machine.id().id().unwrap(),
        machine.current_state().id().unwrap()
    );
}

#[test]
fn instantiation_without_start_node_fails_with_no_root() {
    let mut root = leaf("scn:///Root");
    root.nodes = vec![leaf("scn:///Root/A")];
    let err = StateMachine::new(root).unwrap_err();
    assert!(matches!(err, StateChartError::NoRoot));
    assert_eq!(5, err.error_id());
}

#[test]
fn a_leaf_root_instantiates_to_itself() {
    let machine = StateMachine::new(leaf("scn:///Solo")).unwrap();
    assert!(machine.current_state().0.ends_with("/Solo"));
    assert_eq!(machine.id().0, machine.current_state().0);
}

#[test]
fn instantiation_runs_entry_actions_ancestor_first() {
    let mut root = leaf("scn:///Root");
    root.on_entry = Some(action("enterRoot"));
    root.start_node = Some(NodeId::from("scn:///Root/A"));
    let mut a = leaf("scn:///Root/A");
    a.on_entry = Some(action("enterA"));
    root.nodes = vec![a];
    let machine = StateMachine::new(root).unwrap();
    let actions = machine.instantiation_entry_actions().unwrap();
    let names: Vec<&str> = actions.iter().map(|a| a.name.as_str()).collect();
    assert_eq!(vec!["enterRoot", "enterA"], names);
}

/// The dispatch scenario: the first transition's guard is a predicate, which
/// an event never matches, so the event selects the second transition.
fn dispatch_chart() -> Node {
    let mut root = leaf("scn:///Root");
    root.start_node = Some(NodeId::from("scn:///Root/A"));
    let mut a = leaf("scn:///Root/A");
    a.out_transitions = vec![
        Transition {
            guard: Guard::Predicate(PredicateCall {
                name: "alwaysFalse".to_string(),
                parameters: vec![],
            }),
            to: NodeId::from("scn:///Root/B"),
            action: None,
        },
        Transition {
            guard: Guard::Event("go".to_string()),
            to: NodeId::from("scn:///Root/B"),
            action: None,
        },
    ];
    root.nodes = vec![a, leaf("scn:///Root/B")];
    root
}

#[test]
fn event_dispatch_skips_predicate_guards_and_commits() {
    let mut machine = StateMachine::new(dispatch_chart()).unwrap();
    assert_eq!(Some(1), machine.find_event_transition("go"));
    let actions = machine.send("go").unwrap();
    assert_eq!(0, actions.len());
    assert!(machine.current_state().0.ends_with("/Root/B"));
    // the log saw the event and the transition
    let entries = &machine.log().entries;
    assert_eq!(2, entries.len());
    assert!(matches!(&entries[0], LogEntryType::Event(e) if e == "go"));
    assert!(
        matches!(&entries[1], LogEntryType::Transition(f, t)
            if f.0 == "scn:///Root/A" && t.0 == "scn:///Root/B")
    );
}

#[test]
fn unmatched_event_is_a_logged_no_op() {
    let mut machine = StateMachine::new(dispatch_chart()).unwrap();
    let before = machine.current_state().0.clone();
    let actions = machine.send("nothing").unwrap();
    assert_eq!(0, actions.len());
    assert_eq!(before, machine.current_state().0);
    // exactly one event entry was appended
    let entries = &machine.log().entries;
    assert_eq!(1, entries.len());
    assert!(matches!(&entries[0], LogEntryType::Event(e) if e == "nothing"));
}

#[test]
fn unresolvable_target_aborts_without_state_change() {
    let mut root = leaf("scn:///Root");
    root.start_node = Some(NodeId::from("scn:///Root/A"));
    let mut a = leaf("scn:///Root/A");
    a.out_transitions = vec![Transition {
        guard: Guard::Event("go".to_string()),
        to: NodeId::from("scn:///Nowhere"),
        action: None,
    }];
    root.nodes = vec![a];
    let mut machine = StateMachine::new(root).unwrap();
    let before = machine.current_state().0.clone();
    let err = machine.send("go").unwrap_err();
    assert!(matches!(&err, StateChartError::UnresolvedTarget(t) if t.0 == "scn:///Nowhere"));
    assert_eq!(7, err.error_id());
    assert_eq!(before, machine.current_state().0);
    assert_eq!(0, machine.log().entries.len());
}

#[test]
fn commit_sequences_exits_action_entries_and_default_chain() {
    // Root { A, B { C } }: firing A --go/doIt--> B must exit A, run doIt,
    // enter B, then continue the default chain into C.
    let mut root = leaf("scn:///Root");
    root.on_entry = Some(action("enterRoot"));
    root.on_exit = Some(action("exitRoot"));
    root.start_node = Some(NodeId::from("scn:///Root/A"));
    let mut a = leaf("scn:///Root/A");
    a.on_entry = Some(action("enterA"));
    a.on_exit = Some(action("exitA"));
    a.out_transitions = vec![Transition {
        guard: Guard::Event("go".to_string()),
        to: NodeId::from("scn:///Root/B"),
        action: Some(action("doIt")),
    }];
    let mut b = leaf("scn:///Root/B");
    b.on_entry = Some(action("enterB"));
    b.start_node = Some(NodeId::from("scn:///Root/B/C"));
    let mut c = leaf("scn:///Root/B/C");
    c.on_entry = Some(action("enterC"));
    b.nodes = vec![c];
    root.nodes = vec![a, b];

    let mut machine = StateMachine::new(root).unwrap();
    let actions = machine.send("go").unwrap();
    let names: Vec<&str> = actions.iter().map(|a| a.name.as_str()).collect();
    assert_eq!(vec!["exitA", "doIt", "enterB", "enterC"], names);
    assert!(machine.current_state().0.ends_with("/Root/B/C"));
}

#[test]
fn fire_transition_rejects_an_unknown_index() {
    let mut machine = StateMachine::new(dispatch_chart()).unwrap();
    let err = machine.fire_transition(17).unwrap_err();
    assert!(matches!(err, StateChartError::NoSuchTransition));
    assert_eq!(8, err.error_id());
}

/// The variable scenario: the active node declares `x`; a predicate guard
/// references it by parameter name.
fn variable_chart() -> Node {
    let mut root = leaf("scn:///Root");
    root.start_node = Some(NodeId::from("scn:///Root/A"));
    let mut a = leaf("scn:///Root/A");
    a.attributes = vec![VariableDeclaration {
        name: "x".to_string(),
        var_type: "integer".to_string(),
        value: VariableValue::Integer(0),
    }];
    a.out_transitions = vec![Transition {
        guard: Guard::Predicate(PredicateCall {
            name: "isBig".to_string(),
            parameters: vec![Parameter {
                name: "x".to_string(),
                value: VariableValue::Null,
            }],
        }),
        to: NodeId::from("scn:///Root/B"),
        action: None,
    }];
    root.nodes = vec![a, leaf("scn:///Root/B")];
    root
}

#[test]
fn set_variable_binds_logs_and_resolves_predicates() {
    let mut machine = StateMachine::new(variable_chart()).unwrap();
    // before any setting, the declared initial value is current
    assert_eq!(
        Some(VariableValue::Integer(0)),
        machine.variable_value("x")
    );
    let candidates = machine.set_variable("x", VariableValue::Integer(5)).unwrap();
    assert_eq!(Some(VariableValue::Integer(5)), machine.variable_value("x"));
    // the predicate candidate comes back with the reference resolved
    assert_eq!(1, candidates.len());
    let (index, call) = &candidates[0];
    assert_eq!(0, *index);
    assert_eq!("isBig", call.name);
    assert_eq!(VariableValue::Integer(5), call.parameters[0].value);
    // the setting was logged textually
    let entries = &machine.log().entries;
    assert_eq!(1, entries.len());
    assert!(
        matches!(&entries[0], LogEntryType::VariableSetting(n, t) if n == "x" && t == "5")
    );
    // the caller found the predicate true and fires the transition
    let actions = machine.fire_transition(*index).unwrap();
    assert_eq!(0, actions.len());
    assert!(machine.current_state().0.ends_with("/Root/B"));
}

#[test]
fn set_variable_on_an_undeclared_name_changes_nothing() {
    let mut machine = StateMachine::new(variable_chart()).unwrap();
    let before = machine.current_state().0.clone();
    let err = machine.set_variable("missing", VariableValue::Integer(1)).unwrap_err();
    assert!(matches!(&err, StateChartError::UndeclaredVariable(n) if n == "missing"));
    assert_eq!(6, err.error_id());
    assert_eq!(before, machine.current_state().0);
    assert_eq!(0, machine.log().entries.len());
    assert_eq!(None, machine.variable_value("missing"));
    assert_eq!(Some(VariableValue::Integer(0)), machine.variable_value("x"));
}

#[test]
fn set_variable_reaches_outer_scopes() {
    let mut chart = variable_chart();
    chart.attributes = vec![VariableDeclaration {
        name: "outer".to_string(),
        var_type: "string".to_string(),
        value: VariableValue::String("initial".to_string()),
    }];
    let mut machine = StateMachine::new(chart).unwrap();
    assert_eq!(
        Some(VariableValue::String("initial".to_string())),
        machine.variable_value("outer")
    );
    machine
        .set_variable("outer", VariableValue::String("changed".to_string()))
        .unwrap();
    assert_eq!(
        Some(VariableValue::String("changed".to_string())),
        machine.variable_value("outer")
    );
}

#[test]
fn warehouse_stores_charts_and_machines_by_their_ids() {
    let mut warehouse = Warehouse::new();
    assert_eq!(0, warehouse.get_all_state_charts().len());

    let chart = two_node_chart();
    warehouse.save_state_chart(chart).unwrap();
    assert_eq!(1, warehouse.get_all_state_charts().len());
    let looked_up = warehouse.get_state_chart(&NodeId::from("scn:///Root")).unwrap();
    assert_eq!(looked_up.id(), &NodeId::from("scn:///Root"));
    assert!(warehouse.get_state_chart(&NodeId::from("scn:///Other")).is_none());

    // saving under the same id replaces the entry
    let mut replacement = two_node_chart();
    replacement.description = Some("second edition".to_string());
    warehouse.save_state_chart(replacement).unwrap();
    assert_eq!(1, warehouse.get_all_state_charts().len());
    assert_eq!(
        Some("second edition"),
        warehouse
            .get_state_chart(&NodeId::from("scn:///Root"))
            .unwrap()
            .description
            .as_deref()
    );

    let machine = StateMachine::new(two_node_chart()).unwrap();
    let machine_id = machine.id().clone();
    warehouse.save_state_machine(machine).unwrap();
    let stored = warehouse.get_state_machine(&machine_id).unwrap();
    assert!(stored.current_state().0.ends_with("/Root/A"));
}

#[test]
fn a_machine_built_from_validated_input_runs_end_to_end() {
    let chart_value = ValidatedValue::Object(vec![
        (
            "id".to_string(),
            ValidatedValue::String("scn:///Task".into()),
        ),
        (
            "start-node".to_string(),
            ValidatedValue::String("scn:///Task/New".into()),
        ),
        (
            "nodes".to_string(),
            ValidatedValue::Array(vec![
                ValidatedValue::Object(vec![
                    (
                        "id".to_string(),
                        ValidatedValue::String("scn:///Task/New".into()),
                    ),
                    (
                        "out-transitions".to_string(),
                        ValidatedValue::Array(vec![ValidatedValue::Object(vec![
                            (
                                "guard".to_string(),
                                ValidatedValue::String("start".into()),
                            ),
                            (
                                "to".to_string(),
                                ValidatedValue::String("scn:///Task/Running".into()),
                            ),
                        ])]),
                    ),
                ]),
                ValidatedValue::Object(vec![(
                    "id".to_string(),
                    ValidatedValue::String("scn:///Task/Running".into()),
                )]),
            ]),
        ),
    ]);
    let chart = Node::try_from(&chart_value).unwrap();
    let mut machine = StateMachine::new(chart).unwrap();
    assert!(machine.current_state().0.ends_with("/Task/New"));
    machine.send("start").unwrap();
    assert!(machine.current_state().0.ends_with("/Task/Running"));
}
