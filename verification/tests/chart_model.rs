use statecharts::error::StateChartError;
use statecharts::ids::NodeId;
use statecharts::ids::StateId;
use statecharts::node::Node;
use statecharts::state_charts::get_mandatory;
use statecharts::state_charts::parameters_from_validated_values;
use statecharts::state_charts::attributes_from_validated_value;
use statecharts::state_charts::Guard;
use statecharts::state_charts::Parameter;
use statecharts::state_charts::Transition;
use statecharts::state_charts::VariableDeclaration;
use statecharts::state_charts::VariableValue;
use statecharts::values::ValidatedValue;

fn obj(pairs: Vec<(&str, ValidatedValue)>) -> ValidatedValue {
    ValidatedValue::Object(
        pairs
            .into_iter()
            .map(|(k, v)| (k.to_string(), v))
            .collect(),
    )
}

#[test]
fn test_get_mandatory() {
    let mut attributes: Vec<(String, ValidatedValue)> = Vec::new();
    get_mandatory(&attributes, "name").unwrap_err();
    attributes.push(("name".into(), ValidatedValue::String("Lucky".into())));
    get_mandatory(&attributes, "name").unwrap();
}

#[test]
fn test_parameter_try_into() {
    let parameter_a = obj(vec![
        ("name", ValidatedValue::String("A".into())),
        ("value", ValidatedValue::Bool(true)),
    ]);
    let _parameter: Parameter = Parameter::try_from(&parameter_a).unwrap();
}

#[test]
fn test_guard_try_into() {
    let event_id = ValidatedValue::String("sme:///open".into());
    let _guard: Guard = Guard::try_from(&event_id).unwrap();

    let pc = obj(vec![
        ("name", ValidatedValue::String("A".into())),
        ("parameters", ValidatedValue::Array(Vec::new())),
    ]);
    let _guard: Guard = Guard::try_from(&pc).unwrap();
}

#[test]
fn test_parameters_from_vv() {
    let parameter_a = obj(vec![
        ("name", ValidatedValue::String("A".into())),
        ("value", ValidatedValue::Bool(true)),
    ]);
    let parameter_b = obj(vec![
        ("name", ValidatedValue::String("B".into())),
        ("value", ValidatedValue::Bool(false)),
    ]);
    let v_parameters = vec![parameter_a, parameter_b];

    // Check, if the parameters can be extracted as expected.
    let parameters =
        parameters_from_validated_values(&ValidatedValue::Array(v_parameters)).unwrap();
    assert_eq!(2, parameters.len());
}

#[test]
fn test_variable_declaration_try_into() {
    let vd1 = obj(vec![
        ("name", ValidatedValue::String("var1".into())),
        ("type", ValidatedValue::String("integer".into())),
        ("value", ValidatedValue::Integer(1)),
    ]);
    let _vd: VariableDeclaration = VariableDeclaration::try_from(&vd1).unwrap();
}

#[test]
fn test_attributes_from_vv() {
    // Create a list of validated values with objects with the attributes of
    // the variable declaration.
    let vd1 = obj(vec![
        ("name", ValidatedValue::String("var1".into())),
        ("type", ValidatedValue::String("integer".into())),
        ("value", ValidatedValue::Integer(1)),
    ]);
    let vd2 = obj(vec![
        ("name", ValidatedValue::String("var2".into())),
        ("type", ValidatedValue::String("boolean".into())),
        ("value", ValidatedValue::Bool(true)),
    ]);

    let v = vec![vd1, vd2];
    let attributes = attributes_from_validated_value(Some(&ValidatedValue::Array(v))).unwrap();
    assert_eq!(attributes.len(), 2);
    assert_eq!(attributes[0].name(), "var1");
    assert_eq!(attributes[0].value(), &VariableValue::Integer(1));
}

#[test]
fn minimal_object_builds_a_node_with_defaults() {
    let node = Node::try_from(&obj(vec![("id", ValidatedValue::String("X".into()))])).unwrap();
    assert_eq!(node.id(), &NodeId::from("X"));
    assert_eq!(node.description, None);
    assert!(node.on_entry.is_none());
    assert!(node.on_exit.is_none());
    assert!(node.start_node().is_none());
    assert_eq!(0, node.out_transitions.len());
    assert_eq!(0, node.attributes.len());
    assert_eq!(0, node.nodes.len());
}

#[test]
fn omitting_id_fails_with_mandatory_attribute_missing() {
    let err = Node::try_from(&obj(vec![(
        "description",
        ValidatedValue::String("no id anywhere".into()),
    )]))
    .unwrap_err();
    assert!(matches!(&err, StateChartError::MandatoryAttributeMissing(f) if f == "id"));
    assert_eq!(0, err.error_id());
}

#[test]
fn node_build_is_recursive_and_ordered() {
    let chart = obj(vec![
        ("id", ValidatedValue::String("scn:///Root".into())),
        ("description", ValidatedValue::String("a small chart".into())),
        ("start-node", ValidatedValue::String("scn:///Root/A".into())),
        (
            "nodes",
            ValidatedValue::Array(vec![
                obj(vec![("id", ValidatedValue::String("scn:///Root/A".into()))]),
                obj(vec![("id", ValidatedValue::String("scn:///Root/B".into()))]),
            ]),
        ),
    ]);
    let node = Node::try_from(&chart).unwrap();
    assert_eq!(node.description.as_deref(), Some("a small chart"));
    assert_eq!(node.start_node().unwrap(), &NodeId::from("scn:///Root/A"));
    assert_eq!(2, node.nodes.len());
    assert_eq!(node.nodes[0].id(), &NodeId::from("scn:///Root/A"));
    assert_eq!(node.nodes[1].id(), &NodeId::from("scn:///Root/B"));
}

#[test]
fn first_broken_element_aborts_the_whole_list() {
    let bad = ValidatedValue::Array(vec![
        obj(vec![
            ("name", ValidatedValue::String("ok".into())),
            ("value", ValidatedValue::Integer(1)),
        ]),
        obj(vec![("value", ValidatedValue::Integer(2))]),
    ]);
    let err = parameters_from_validated_values(&bad).unwrap_err();
    assert!(matches!(&err, StateChartError::MandatoryAttributeMissing(f) if f == "name"));
}

#[test]
fn transition_try_from_takes_guard_target_and_action() {
    let t = obj(vec![
        ("guard", ValidatedValue::String("sme:///go".into())),
        ("to", ValidatedValue::String("scn:///Root/B".into())),
        (
            "action",
            obj(vec![
                ("name", ValidatedValue::String("notify".into())),
                ("parameters", ValidatedValue::Array(Vec::new())),
            ]),
        ),
    ]);
    let transition = Transition::try_from(&t).unwrap();
    assert!(matches!(&transition.guard, Guard::Event(e) if e == "sme:///go"));
    assert_eq!(transition.to, NodeId::from("scn:///Root/B"));
    assert_eq!(transition.action.as_ref().unwrap().name, "notify");
}

#[test]
fn guard_rejects_other_value_kinds() {
    let err = Guard::try_from(&ValidatedValue::Integer(2)).unwrap_err();
    assert!(matches!(err, StateChartError::UnexpectedType));
    assert_eq!(1, Guard::try_from(&ValidatedValue::Bool(true)).unwrap_err().error_id());
}

#[test]
fn variable_value_try_from_covers_every_scalar() {
    let v = VariableValue::try_from(&ValidatedValue::String("hi".into())).unwrap();
    assert_eq!(v, VariableValue::String("hi".into()));
    let v = VariableValue::try_from(&ValidatedValue::Integer(-3)).unwrap();
    assert_eq!(v, VariableValue::Integer(-3));
    let bits = (2.5f64).to_bits();
    let v = VariableValue::try_from(&ValidatedValue::Number(bits)).unwrap();
    assert_eq!(v, VariableValue::Number(bits));
    let v = VariableValue::try_from(&ValidatedValue::Bool(false)).unwrap();
    assert_eq!(v, VariableValue::Boolean(false));
    let v = VariableValue::try_from(&ValidatedValue::Null).unwrap();
    assert_eq!(v, VariableValue::Null);
    let err = VariableValue::try_from(&ValidatedValue::Array(Vec::new())).unwrap_err();
    assert!(matches!(err, StateChartError::UnexpectedType));
}

#[test]
fn variable_value_renders_text_and_tags() {
    assert_eq!("hello", VariableValue::String("hello".into()).to_text());
    assert_eq!("-42", VariableValue::Integer(-42).to_text());
    assert_eq!("0", VariableValue::Integer(0).to_text());
    assert_eq!(
        i64::MIN.to_string(),
        VariableValue::Integer(i64::MIN).to_text()
    );
    assert_eq!("1", VariableValue::Boolean(true).to_text());
    assert_eq!("0", VariableValue::Boolean(false).to_text());
    assert_eq!("", VariableValue::Null.to_text());
    let bits = (1.5f64).to_bits();
    assert_eq!(format!("{}", bits), VariableValue::Number(bits).to_text());

    assert_eq!("string", VariableValue::String("x".into()).get_type());
    assert_eq!("integer", VariableValue::Integer(1).get_type());
    assert_eq!("number", VariableValue::Number(0).get_type());
    assert_eq!("boolean", VariableValue::Boolean(true).get_type());
    assert_eq!("string", VariableValue::Null.get_type());

    assert_eq!("string_value", VariableValue::String("x".into()).get_column_name());
    assert_eq!("integer_value", VariableValue::Integer(1).get_column_name());
    assert_eq!("number_value", VariableValue::Number(0).get_column_name());
    assert_eq!("boolean_value", VariableValue::Boolean(true).get_column_name());
    assert_eq!("string_value", VariableValue::Null.get_column_name());

    assert_eq!(VariableValue::default(), VariableValue::Null);
}

#[test]
fn error_ids_and_messages_are_stable() {
    let e = StateChartError::MandatoryAttributeMissing("id".into());
    assert_eq!(0, e.error_id());
    assert_eq!("Missing mandatory attribute 'id'.", e.message());
    assert_eq!(1, StateChartError::UnexpectedType.error_id());
    assert_eq!("Unexpected type provided!", StateChartError::UnexpectedType.message());
    let e = StateChartError::ValidationError("schema says no".into());
    assert_eq!(2, e.error_id());
    assert_eq!("schema says no", e.message());
    let e = StateChartError::InvalidNodeId(NodeId::from("x"));
    assert_eq!(3, e.error_id());
    assert_eq!("NodeId isn't valid.", e.message());
    let e = StateChartError::InvalidStateId(StateId::default());
    assert_eq!(4, e.error_id());
    assert_eq!("StateId isn't valid.", e.message());
    assert_eq!(5, StateChartError::NoRoot.error_id());
    assert_eq!("State chart is no root.", StateChartError::NoRoot.message());
    let e = StateChartError::UndeclaredVariable("x".into());
    assert_eq!(6, e.error_id());
    assert_eq!("Variable 'x' isn't declared.", e.message());
    let e = StateChartError::UnresolvedTarget(NodeId::from("scn:///gone"));
    assert_eq!(7, e.error_id());
    assert_eq!(
        "Transition target isn't part of the chart.",
        e.message()
    );
    assert_eq!(8, StateChartError::NoSuchTransition.error_id());
    assert_eq!("No such transition.", StateChartError::NoSuchTransition.message());
}
