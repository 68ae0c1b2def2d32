use statecharts::error::StateChartError;
use statecharts::ids::NodeId;
use statecharts::ids::StateId;

#[test]
fn test_node_id() {
    let node_id: NodeId = "scn:///Simple-Task".into();
    assert_eq!("Simple-Task", node_id.path().unwrap());
    let node_id = NodeId::new("Complex-Task");
    assert_eq!("Complex-Task", node_id.path().unwrap());
}

#[test]
fn test_state_id() {
    let node_id = NodeId::new("Complex-Task");
    let state_id = StateId::new(&node_id).unwrap();
    let _uuid = state_id.id().unwrap();
}

#[test]
fn node_id_round_trips_nested_paths() {
    let node_id = NodeId::new("Root/Sub.1/Leaf-2");
    assert_eq!("Root/Sub.1/Leaf-2", node_id.path().unwrap());
}

#[test]
fn node_id_rejects_digit_initial_path() {
    let node_id = NodeId::new("9ball");
    assert!(matches!(
        node_id.path(),
        Err(StateChartError::InvalidNodeId(_))
    ));
}

#[test]
fn node_id_rejects_empty_and_foreign_schemes() {
    let bad: NodeId = "".into();
    assert!(matches!(bad.path(), Err(StateChartError::InvalidNodeId(_))));
    let bad: NodeId = "sms:///Task".into();
    assert!(matches!(bad.path(), Err(StateChartError::InvalidNodeId(_))));
    let bad: NodeId = "scn://Task".into();
    assert!(matches!(bad.path(), Err(StateChartError::InvalidNodeId(_))));
}

#[test]
fn node_id_rejects_malformed_segments() {
    for path in ["Task/", "Task//Sub", "Task/.sub", "/Task", "Task/-x"] {
        let node_id = NodeId::new(path);
        assert!(
            matches!(node_id.path(), Err(StateChartError::InvalidNodeId(_))),
            "path {:?} should be rejected",
            path
        );
    }
}

#[test]
fn state_id_is_well_formed_and_fresh() {
    let node_id = NodeId::new("Complex-Task");
    let a = StateId::new(&node_id).unwrap();
    let b = StateId::new(&node_id).unwrap();
    // both are syntactically well-formed instance addresses
    assert!(a.0.starts_with("sms:///"));
    assert!(a.0.ends_with("/Complex-Task"));
    assert_eq!(36, a.id().unwrap().chars().count());
    // two instantiations of the same chart get different addresses
    assert_ne!(a.0, b.0);
    assert_ne!(a.id().unwrap(), b.id().unwrap());
}

#[test]
fn state_id_nested_keeps_the_instance_segment() {
    let root = NodeId::new("Root");
    let child = NodeId::new("Root/A");
    let machine = StateId::new(&root).unwrap();
    let nested = StateId::new_with_node(&machine, &child).unwrap();
    assert_eq!(machine.id().unwrap(), nested.id().unwrap());
    assert!(nested.0.ends_with("/Root/A"));
}

#[test]
fn state_id_rejects_bad_seed_and_bad_parent() {
    let bad_seed = NodeId::new("0rphan");
    assert!(matches!(
        StateId::new(&bad_seed),
        Err(StateChartError::InvalidNodeId(_))
    ));
    let bad_parent = StateId::default();
    // the default placeholder has no path after the instance segment, which
    // is still a valid instance address, so derivation succeeds
    let node = NodeId::new("Root");
    let derived = StateId::new_with_node(&bad_parent, &node).unwrap();
    assert_eq!("de4ult", derived.id().unwrap());
    let truly_bad: StateId = StateId(String::from("sms:///"));
    assert!(matches!(
        StateId::new_with_node(&truly_bad, &node),
        Err(StateChartError::InvalidStateId(_))
    ));
}

#[test]
fn default_ids_hold_the_placeholder_text() {
    assert_eq!("scn:///de4ult", NodeId::default().0);
    assert_eq!("sms:///de4ult", StateId::default().0);
}
