//! The building blocks of a chart definition: action and predicate calls,
//! parameters, guards, transitions and variable declarations, each built from
//! a schema-validated generic value, together with the tagged value type that
//! variables and parameters carry.
//!
//! Construction is eager and fails fast: the first problem of an element
//! aborts the whole build, and no partial element is ever returned.

use vstd::prelude::*;
use vstd::string::StringExecFns;

use crate::error::result_view;
use crate::error::StateChartError;
use crate::error::StateChartErrorV;
use crate::ids::NodeId;
use crate::text::dec_i64;
use crate::text::dec_rep;
use crate::text::dec_rep_int;
use crate::text::dec_u64;
use crate::text::str_eq;
use crate::values::get;
use crate::values::pairs_view;
use crate::values::spec_lookup;
use crate::values::spec_mandatory;
use crate::values::spec_raw_node_id;
use crate::values::spec_string;
use crate::values::vv_views;
use crate::values::ValidatedValue;
use crate::values::ValidatedValueV;

verus! {

/// A system wide unique id of an action.
pub type ActionId = String;

/// A system wide unique id of a variable.
pub type VariableId = String;

/// A system wide unique id of an event.
pub type EventId = String;

/// A system wide unique id of a predicate.
pub type PredicateId = String;

// ---------------------------------------------------------------------------
// VariableValue
// ---------------------------------------------------------------------------
/// The value of a variable, an attribute or a parameter.
///
/// A `Number` is a 64-bit IEEE-754 value held by its bit pattern, so that the
/// model stays free of floating-point arithmetic; converting the bits to and
/// from `f64` is the caller's concern. `Null` is the absent value and the
/// default.
#[derive(Debug)]
pub enum VariableValue {
    String(String),
    Integer(i64),
    Number(u64),
    Boolean(bool),
    Null,
}

/// The mathematical view of a value.
pub enum VariableValueV {
    String(Seq<char>),
    Integer(int),
    Number(u64),
    Boolean(bool),
    Null,
}

impl View for VariableValue {
    type V = VariableValueV;

    open spec fn view(&self) -> VariableValueV {
        match self {
            VariableValue::String(s) => VariableValueV::String(s@),
            VariableValue::Integer(i) => VariableValueV::Integer(*i as int),
            VariableValue::Number(b) => VariableValueV::Number(*b),
            VariableValue::Boolean(b) => VariableValueV::Boolean(*b),
            VariableValue::Null => VariableValueV::Null,
        }
    }
}

impl Clone for VariableValue {
    fn clone(&self) -> (r: Self)
        ensures
            r == *self,
    {
        match self {
            VariableValue::String(s) => VariableValue::String(s.clone()),
            VariableValue::Integer(i) => VariableValue::Integer(*i),
            VariableValue::Number(b) => VariableValue::Number(*b),
            VariableValue::Boolean(b) => VariableValue::Boolean(*b),
            VariableValue::Null => VariableValue::Null,
        }
    }
}

impl PartialEq for VariableValue {
    fn eq(&self, other: &VariableValue) -> (r: bool) {
        match (self, other) {
            (VariableValue::String(a), VariableValue::String(b)) => str_eq(a.as_str(), b.as_str()),
            (VariableValue::Integer(a), VariableValue::Integer(b)) => a == b,
            (VariableValue::Number(a), VariableValue::Number(b)) => a == b,
            (VariableValue::Boolean(a), VariableValue::Boolean(b)) => a == b,
            (VariableValue::Null, VariableValue::Null) => true,
            _ => false,
        }
    }
}

impl vstd::std_specs::cmp::PartialEqSpecImpl for VariableValue {
    open spec fn obeys_eq_spec() -> bool {
        true
    }

    open spec fn eq_spec(&self, other: &VariableValue) -> bool {
        self@ == other@
    }
}

/// Coerces a generic value to a variable value; arrays and objects are
/// rejected.
pub open spec fn spec_variable_value_of(v: ValidatedValueV) -> Result<
    VariableValueV,
    StateChartErrorV,
> {
    match v {
        ValidatedValueV::String(s) => Ok(VariableValueV::String(s)),
        ValidatedValueV::Integer(i) => Ok(VariableValueV::Integer(i)),
        ValidatedValueV::Number(b) => Ok(VariableValueV::Number(b)),
        ValidatedValueV::Bool(b) => Ok(VariableValueV::Boolean(b)),
        ValidatedValueV::Null => Ok(VariableValueV::Null),
        _ => Err(StateChartErrorV::UnexpectedType),
    }
}

impl VariableValue {
    /// Builds a variable value from a generic value.
    pub fn try_from(value: &ValidatedValue) -> (r: Result<VariableValue, StateChartError>)
        ensures
            result_view(r) == spec_variable_value_of(value@),
    {
        match value {
            ValidatedValue::String(s) => Ok(VariableValue::String(s.clone())),
            ValidatedValue::Integer(i) => Ok(VariableValue::Integer(*i)),
            ValidatedValue::Number(b) => Ok(VariableValue::Number(*b)),
            ValidatedValue::Bool(b) => Ok(VariableValue::Boolean(*b)),
            ValidatedValue::Null => Ok(VariableValue::Null),
            _ => Err(StateChartError::UnexpectedType),
        }
    }

    /// The column a value of this kind is stored under in a relational
    /// mapping. A `Null` value is filed as a string.
    pub fn get_column_name(&self) -> (r: &'static str)
        ensures
            r@ == match self {
                VariableValue::String(_) => "string_value"@,
                VariableValue::Integer(_) => "integer_value"@,
                VariableValue::Number(_) => "number_value"@,
                VariableValue::Boolean(_) => "boolean_value"@,
                VariableValue::Null => "string_value"@,
            },
    {
        match self {
            VariableValue::String(_) => "string_value",
            VariableValue::Integer(_) => "integer_value",
            VariableValue::Number(_) => "number_value",
            VariableValue::Boolean(_) => "boolean_value",
            VariableValue::Null => "string_value",
        }
    }

    /// The type tag of this value. A `Null` value counts as a string.
    pub fn get_type(&self) -> (r: &'static str)
        ensures
            r@ == match self {
                VariableValue::String(_) => "string"@,
                VariableValue::Integer(_) => "integer"@,
                VariableValue::Number(_) => "number"@,
                VariableValue::Boolean(_) => "boolean"@,
                VariableValue::Null => "string"@,
            },
    {
        match self {
            VariableValue::String(_) => "string",
            VariableValue::Integer(_) => "integer",
            VariableValue::Number(_) => "number",
            VariableValue::Boolean(_) => "boolean",
            VariableValue::Null => "string",
        }
    }

    /// The text of this value.
    pub open spec fn spec_text(self) -> Seq<char> {
        match self {
            VariableValue::String(s) => s@,
            VariableValue::Integer(i) => dec_rep_int(i as int),
            VariableValue::Number(b) => dec_rep(b as nat),
            VariableValue::Boolean(b) => if b {
                "1"@
            } else {
                "0"@
            },
            VariableValue::Null => Seq::empty(),
        }
    }

    /// Renders this value as text: strings as they are, integers in decimal,
    /// booleans as `1` or `0`, the absent value as nothing. A number is
    /// rendered as the decimal of its bit pattern, since the library holds
    /// 64-bit floats by their bits; a caller that wants the usual decimal
    /// float form renders the bits itself.
    pub fn to_text(&self) -> (r: String)
        ensures
            r@ == self.spec_text(),
    {
        match self {
            VariableValue::String(s) => s.clone(),
            VariableValue::Integer(i) => dec_i64(*i),
            VariableValue::Number(b) => dec_u64(*b),
            VariableValue::Boolean(b) => if *b {
                String::from_str("1")
            } else {
                String::from_str("0")
            },
            VariableValue::Null => String::new(),
        }
    }
}

impl Default for VariableValue {
    fn default() -> (r: Self)
        ensures
            r is Null,
    {
        VariableValue::Null
    }
}

// ---------------------------------------------------------------------------
// Parameter
// ---------------------------------------------------------------------------
/// A named argument of an action or predicate call. Identity is structural:
/// the same name and value are interchangeable wherever they occur.
#[derive(Debug)]
pub struct Parameter {
    pub name: VariableId,
    pub value: VariableValue,
}

/// The mathematical view of a parameter.
pub struct ParameterV {
    pub name: Seq<char>,
    pub value: VariableValueV,
}

impl View for Parameter {
    type V = ParameterV;

    open spec fn view(&self) -> ParameterV {
        ParameterV { name: self.name@, value: self.value@ }
    }
}

impl DeepView for Parameter {
    type V = ParameterV;

    open spec fn deep_view(&self) -> ParameterV {
        self.view()
    }
}

impl Clone for Parameter {
    fn clone(&self) -> (r: Self)
        ensures
            r == *self,
    {
        Parameter { name: self.name.clone(), value: self.value.clone() }
    }
}

/// Builds a parameter: a mandatory `name` and a mandatory `value`.
pub open spec fn spec_parameter(v: ValidatedValueV) -> Result<ParameterV, StateChartErrorV> {
    match v {
        ValidatedValueV::Object(o) => match spec_mandatory(o, "name"@) {
            Err(e) => Err(e),
            Ok(nv) => match spec_string(nv) {
                Err(e) => Err(e),
                Ok(name) => match spec_mandatory(o, "value"@) {
                    Err(e) => Err(e),
                    Ok(vv) => match spec_variable_value_of(vv) {
                        Err(e) => Err(e),
                        Ok(value) => Ok(ParameterV { name, value }),
                    },
                },
            },
        },
        _ => Err(StateChartErrorV::UnexpectedType),
    }
}

impl Parameter {
    /// Builds a parameter from a generic value.
    pub fn try_from(value: &ValidatedValue) -> (r: Result<Parameter, StateChartError>)
        ensures
            result_view(r) == spec_parameter(value@),
    {
        match value {
            ValidatedValue::Object(attributes) => {
                let nv = match get_mandatory(attributes, "name") {
                    Ok(v) => v,
                    Err(e) => {
                        return Err(e);
                    },
                };
                let name = match crate::values::string_of(nv) {
                    Ok(s) => s,
                    Err(e) => {
                        return Err(e);
                    },
                };
                let vv = match get_mandatory(attributes, "value") {
                    Ok(v) => v,
                    Err(e) => {
                        return Err(e);
                    },
                };
                let val = match VariableValue::try_from(vv) {
                    Ok(v) => v,
                    Err(e) => {
                        return Err(e);
                    },
                };
                Ok(Parameter { name, value: val })
            },
            _ => Err(StateChartError::UnexpectedType),
        }
    }
}

/// Parses the elements of `s` in order as parameters; the first failure
/// aborts the whole list.
pub open spec fn spec_parameter_list(s: Seq<ValidatedValueV>) -> Result<
    Seq<ParameterV>,
    StateChartErrorV,
>
    decreases s.len(),
{
    if s.len() == 0 {
        Ok(Seq::empty())
    } else {
        match spec_parameter(s[0]) {
            Err(e) => Err(e),
            Ok(p) => match spec_parameter_list(s.skip(1)) {
                Err(e) => Err(e),
                Ok(r) => Ok(seq![p] + r),
            },
        }
    }
}

/// Builds the parameter list of a call: the generic value must be an array.
pub open spec fn spec_parameters(v: ValidatedValueV) -> Result<Seq<ParameterV>, StateChartErrorV> {
    match v {
        ValidatedValueV::Array(a) => spec_parameter_list(a),
        _ => Err(StateChartErrorV::UnexpectedType),
    }
}

/// Derives a vector of parameters from an array of validated values.
pub fn parameters_from_validated_values(values: &ValidatedValue) -> (r: Result<
    Vec<Parameter>,
    StateChartError,
>)
    ensures
        match spec_parameters(values@) {
            Ok(ps) => r matches Ok(v) && v.deep_view() == ps,
            Err(e) => r matches Err(x) && x@ == e,
        },
{
    match values {
        ValidatedValue::Array(elems) => {
            let ghost av = vv_views(elems@);
            proof {
                crate::values::lemma_vv_views_len(elems@);
                assert(values@ == ValidatedValueV::Array(av));
                assert(av.skip(0) =~= av);
            }
            let n = elems.len();
            let mut result: Vec<Parameter> = Vec::new();
            let mut i: usize = 0;
            while i < n
                invariant
                    0 <= i <= n,
                    n == elems@.len(),
                    av == vv_views(elems@),
                    av.len() == n,
                    values@ == ValidatedValueV::Array(av),
                    result.deep_view().len() == i,
                    spec_parameter_list(av) == match spec_parameter_list(av.skip(i as int)) {
                        Ok(rest) => Ok::<_, StateChartErrorV>(result.deep_view() + rest),
                        Err(e) => Err(e),
                    },
                decreases n - i,
            {
                proof {
                    crate::values::lemma_vv_views_index(elems@, i as int);
                    assert(av.skip(i as int)[0] == av[i as int]);
                    assert(av.skip(i as int).skip(1) =~= av.skip(i as int + 1));
                }
                let p = match Parameter::try_from(&elems[i]) {
                    Ok(p) => p,
                    Err(e) => {
                        return Err(e);
                    },
                };
                let ghost prev = result.deep_view();
                result.push(p);
                proof {
                    assert(result.deep_view() =~= prev + seq![p@]);
                    match spec_parameter_list(av.skip(i as int + 1)) {
                            Ok(rest) => {
                                assert(prev + (seq![p@] + rest) =~= result.deep_view() + rest);
                            },
                            Err(_) => {},
                    }
                }
                i += 1;
            }
            proof {
                assert(av.skip(n as int).len() == 0);
                assert(result.deep_view() + Seq::<ParameterV>::empty() =~= result.deep_view());
            }
            Ok(result)
        },
        _ => Err(StateChartError::UnexpectedType),
    }
}

// ---------------------------------------------------------------------------
// ActionCall
// ---------------------------------------------------------------------------
/// The call of an action: a name resolved by the external executor and its
/// ordered parameters. Identity is structural.
#[derive(Debug)]
pub struct ActionCall {
    pub name: ActionId,
    pub parameters: Vec<Parameter>,
}

/// The mathematical view of an action call.
pub struct ActionCallV {
    pub name: Seq<char>,
    pub parameters: Seq<ParameterV>,
}

impl View for ActionCall {
    type V = ActionCallV;

    open spec fn view(&self) -> ActionCallV {
        ActionCallV { name: self.name@, parameters: self.parameters.deep_view() }
    }
}

impl DeepView for ActionCall {
    type V = ActionCallV;

    open spec fn deep_view(&self) -> ActionCallV {
        self.view()
    }
}

impl Clone for ActionCall {
    fn clone(&self) -> (r: Self)
        ensures
            r@ == self@,
    {
        let parameters = self.parameters.clone();
        proof {
            assert forall|i: int| 0 <= i < parameters@.len() implies parameters@[i]
                == self.parameters@[i] by {
                assert(vstd::pervasive::cloned::<Parameter>(
                    self.parameters[i],
                    parameters[i],
                ));
            }
            assert(parameters.deep_view() =~= self.parameters.deep_view());
        }
        ActionCall { name: self.name.clone(), parameters }
    }
}

/// Builds an action call: a mandatory `name` and a mandatory `parameters`
/// array.
pub open spec fn spec_action_call(v: ValidatedValueV) -> Result<ActionCallV, StateChartErrorV> {
    match v {
        ValidatedValueV::Object(o) => match spec_mandatory(o, "name"@) {
            Err(e) => Err(e),
            Ok(nv) => match spec_string(nv) {
                Err(e) => Err(e),
                Ok(name) => match spec_mandatory(o, "parameters"@) {
                    Err(e) => Err(e),
                    Ok(pv) => match spec_parameters(pv) {
                        Err(e) => Err(e),
                        Ok(parameters) => Ok(ActionCallV { name, parameters }),
                    },
                },
            },
        },
        _ => Err(StateChartErrorV::UnexpectedType),
    }
}

impl ActionCall {
    /// Builds an action call from a generic value.
    pub fn try_from(value: &ValidatedValue) -> (r: Result<ActionCall, StateChartError>)
        ensures
            result_view(r) == spec_action_call(value@),
    {
        match value {
            ValidatedValue::Object(attributes) => {
                let nv = match get_mandatory(attributes, "name") {
                    Ok(v) => v,
                    Err(e) => {
                        return Err(e);
                    },
                };
                let name = match crate::values::string_of(nv) {
                    Ok(s) => s,
                    Err(e) => {
                        return Err(e);
                    },
                };
                let pv = match get_mandatory(attributes, "parameters") {
                    Ok(v) => v,
                    Err(e) => {
                        return Err(e);
                    },
                };
                let parameters = match parameters_from_validated_values(pv) {
                    Ok(p) => p,
                    Err(e) => {
                        return Err(e);
                    },
                };
                Ok(ActionCall { name, parameters })
            },
            _ => Err(StateChartError::UnexpectedType),
        }
    }
}

// ---------------------------------------------------------------------------
// PredicateCall
// ---------------------------------------------------------------------------
/// The call of a predicate: evaluated by the external executor whenever a
/// variable of the active node's scope chain changes. Identity is structural.
#[derive(Debug)]
pub struct PredicateCall {
    pub name: PredicateId,
    pub parameters: Vec<Parameter>,
}

/// The mathematical view of a predicate call.
pub struct PredicateCallV {
    pub name: Seq<char>,
    pub parameters: Seq<ParameterV>,
}

impl View for PredicateCall {
    type V = PredicateCallV;

    open spec fn view(&self) -> PredicateCallV {
        PredicateCallV { name: self.name@, parameters: self.parameters.deep_view() }
    }
}

impl DeepView for PredicateCall {
    type V = PredicateCallV;

    open spec fn deep_view(&self) -> PredicateCallV {
        self.view()
    }
}

impl Clone for PredicateCall {
    fn clone(&self) -> (r: Self)
        ensures
            r@ == self@,
    {
        let parameters = self.parameters.clone();
        proof {
            assert forall|i: int| 0 <= i < parameters@.len() implies parameters@[i]
                == self.parameters@[i] by {
                assert(vstd::pervasive::cloned::<Parameter>(
                    self.parameters[i],
                    parameters[i],
                ));
            }
            assert(parameters.deep_view() =~= self.parameters.deep_view());
        }
        PredicateCall { name: self.name.clone(), parameters }
    }
}

/// Builds a predicate call: a mandatory `name` and a mandatory `parameters`
/// array.
pub open spec fn spec_predicate_call(v: ValidatedValueV) -> Result<
    PredicateCallV,
    StateChartErrorV,
> {
    match v {
        ValidatedValueV::Object(o) => match spec_mandatory(o, "name"@) {
            Err(e) => Err(e),
            Ok(nv) => match spec_string(nv) {
                Err(e) => Err(e),
                Ok(name) => match spec_mandatory(o, "parameters"@) {
                    Err(e) => Err(e),
                    Ok(pv) => match spec_parameters(pv) {
                        Err(e) => Err(e),
                        Ok(parameters) => Ok(PredicateCallV { name, parameters }),
                    },
                },
            },
        },
        _ => Err(StateChartErrorV::UnexpectedType),
    }
}

impl PredicateCall {
    /// Builds a predicate call from a generic value.
    pub fn try_from(value: &ValidatedValue) -> (r: Result<PredicateCall, StateChartError>)
        ensures
            result_view(r) == spec_predicate_call(value@),
    {
        match value {
            ValidatedValue::Object(attributes) => {
                let nv = match get_mandatory(attributes, "name") {
                    Ok(v) => v,
                    Err(e) => {
                        return Err(e);
                    },
                };
                let name = match crate::values::string_of(nv) {
                    Ok(s) => s,
                    Err(e) => {
                        return Err(e);
                    },
                };
                let pv = match get_mandatory(attributes, "parameters") {
                    Ok(v) => v,
                    Err(e) => {
                        return Err(e);
                    },
                };
                let parameters = match parameters_from_validated_values(pv) {
                    Ok(p) => p,
                    Err(e) => {
                        return Err(e);
                    },
                };
                Ok(PredicateCall { name, parameters })
            },
            _ => Err(StateChartError::UnexpectedType),
        }
    }
}

// ---------------------------------------------------------------------------
// Guard
// ---------------------------------------------------------------------------
/// The condition under which a transition is activated: an exact external
/// event, or a predicate re-evaluated after every variable mutation.
#[derive(Debug)]
pub enum Guard {
    Event(EventId),
    Predicate(PredicateCall),
}

/// The mathematical view of a guard.
pub enum GuardV {
    Event(Seq<char>),
    Predicate(PredicateCallV),
}

impl View for Guard {
    type V = GuardV;

    open spec fn view(&self) -> GuardV {
        match self {
            Guard::Event(e) => GuardV::Event(e@),
            Guard::Predicate(p) => GuardV::Predicate(p@),
        }
    }
}

impl Clone for Guard {
    fn clone(&self) -> (r: Self)
        ensures
            r@ == self@,
    {
        match self {
            Guard::Event(e) => Guard::Event(e.clone()),
            Guard::Predicate(p) => Guard::Predicate(p.clone()),
        }
    }
}

/// Builds a guard: a bare string is an event guard, an object is a predicate
/// call.
pub open spec fn spec_guard(v: ValidatedValueV) -> Result<GuardV, StateChartErrorV> {
    match v {
        ValidatedValueV::String(e) => Ok(GuardV::Event(e)),
        ValidatedValueV::Object(_) => match spec_predicate_call(v) {
            Err(e) => Err(e),
            Ok(p) => Ok(GuardV::Predicate(p)),
        },
        _ => Err(StateChartErrorV::UnexpectedType),
    }
}

impl Guard {
    /// Builds a guard from a generic value.
    pub fn try_from(value: &ValidatedValue) -> (r: Result<Guard, StateChartError>)
        ensures
            result_view(r) == spec_guard(value@),
    {
        match value {
            ValidatedValue::String(event_id) => Ok(Guard::Event(event_id.clone())),
            ValidatedValue::Object(_) => {
                let pc = match PredicateCall::try_from(value) {
                    Ok(p) => p,
                    Err(e) => {
                        return Err(e);
                    },
                };
                Ok(Guard::Predicate(pc))
            },
            _ => Err(StateChartError::UnexpectedType),
        }
    }
}

// ---------------------------------------------------------------------------
// Transition
// ---------------------------------------------------------------------------
/// The transition from one node to another: a guard, an absolute target
/// address, and an optional action fired between the exit actions of the
/// vacated path and the entry actions of the entered path.
#[derive(Debug)]
pub struct Transition {
    /// The check which tests whether the transition is activated.
    pub guard: Guard,
    /// The node reached after the transition is activated.
    pub to: NodeId,
    /// The action called when the transition is activated.
    pub action: Option<ActionCall>,
}

/// The mathematical view of a transition.
pub struct TransitionV {
    pub guard: GuardV,
    pub to: Seq<char>,
    pub action: Option<ActionCallV>,
}

impl View for Transition {
    type V = TransitionV;

    open spec fn view(&self) -> TransitionV {
        TransitionV {
            guard: self.guard@,
            to: self.to@,
            action: match self.action {
                Some(a) => Some(a@),
                None => None,
            },
        }
    }
}

impl DeepView for Transition {
    type V = TransitionV;

    open spec fn deep_view(&self) -> TransitionV {
        self.view()
    }
}

impl Clone for Transition {
    fn clone(&self) -> (r: Self)
        ensures
            r@ == self@,
    {
        let action = self.action.clone();
        proof {
            if self.action is Some {
                assert(vstd::pervasive::cloned::<ActionCall>(
                    self.action.unwrap(),
                    action.unwrap(),
                ));
            }
        }
        Transition { guard: self.guard.clone(), to: self.to.clone(), action }
    }
}

/// Builds a transition: a mandatory `guard`, a mandatory `to` address and an
/// optional `action`.
pub open spec fn spec_transition(v: ValidatedValueV) -> Result<TransitionV, StateChartErrorV> {
    match v {
        ValidatedValueV::Object(o) => match spec_mandatory(o, "guard"@) {
            Err(e) => Err(e),
            Ok(gv) => match spec_guard(gv) {
                Err(e) => Err(e),
                Ok(guard) => match spec_mandatory(o, "to"@) {
                    Err(e) => Err(e),
                    Ok(tv) => match spec_raw_node_id(tv) {
                        Err(e) => Err(e),
                        Ok(to) => match spec_lookup(o, "action"@) {
                            None => Ok(TransitionV { guard, to, action: None }),
                            Some(av) => match spec_action_call(av) {
                                Err(e) => Err(e),
                                Ok(a) => Ok(TransitionV { guard, to, action: Some(a) }),
                            },
                        },
                    },
                },
            },
        },
        _ => Err(StateChartErrorV::UnexpectedType),
    }
}

impl Transition {
    /// Builds a transition from a generic value.
    pub fn try_from(value: &ValidatedValue) -> (r: Result<Transition, StateChartError>)
        ensures
            result_view(r) == spec_transition(value@),
    {
        match value {
            ValidatedValue::Object(attributes) => {
                let gv = match get_mandatory(attributes, "guard") {
                    Ok(v) => v,
                    Err(e) => {
                        return Err(e);
                    },
                };
                let guard = match Guard::try_from(gv) {
                    Ok(g) => g,
                    Err(e) => {
                        return Err(e);
                    },
                };
                let tv = match get_mandatory(attributes, "to") {
                    Ok(v) => v,
                    Err(e) => {
                        return Err(e);
                    },
                };
                let to = match NodeId::try_from(tv) {
                    Ok(t) => t,
                    Err(e) => {
                        return Err(e);
                    },
                };
                let action = match get(attributes, "action") {
                    None => None,
                    Some(av) => {
                        let a = match ActionCall::try_from(av) {
                            Ok(a) => a,
                            Err(e) => {
                                return Err(e);
                            },
                        };
                        Some(a)
                    },
                };
                Ok(Transition { guard, to, action })
            },
            _ => Err(StateChartError::UnexpectedType),
        }
    }
}

/// Parses the elements of `s` in order as transitions; the first failure
/// aborts the whole list.
pub open spec fn spec_transition_list(s: Seq<ValidatedValueV>) -> Result<
    Seq<TransitionV>,
    StateChartErrorV,
>
    decreases s.len(),
{
    if s.len() == 0 {
        Ok(Seq::empty())
    } else {
        match spec_transition(s[0]) {
            Err(e) => Err(e),
            Ok(t) => match spec_transition_list(s.skip(1)) {
                Err(e) => Err(e),
                Ok(r) => Ok(seq![t] + r),
            },
        }
    }
}

/// Builds the transition list of a node: the generic value must be an array.
pub open spec fn spec_transitions(v: ValidatedValueV) -> Result<Seq<TransitionV>, StateChartErrorV> {
    match v {
        ValidatedValueV::Array(a) => spec_transition_list(a),
        _ => Err(StateChartErrorV::UnexpectedType),
    }
}

/// Retrieves the transitions of a node from the validated value.
pub fn transitions_from_validated_value(value: &ValidatedValue) -> (r: Result<
    Vec<Transition>,
    StateChartError,
>)
    ensures
        match spec_transitions(value@) {
            Ok(ts) => r matches Ok(v) && v.deep_view() == ts,
            Err(e) => r matches Err(x) && x@ == e,
        },
{
    match value {
        ValidatedValue::Array(elems) => {
            let ghost av = vv_views(elems@);
            proof {
                crate::values::lemma_vv_views_len(elems@);
                assert(value@ == ValidatedValueV::Array(av));
                assert(av.skip(0) =~= av);
            }
            let n = elems.len();
            let mut result: Vec<Transition> = Vec::new();
            let mut i: usize = 0;
            while i < n
                invariant
                    0 <= i <= n,
                    n == elems@.len(),
                    av == vv_views(elems@),
                    av.len() == n,
                    value@ == ValidatedValueV::Array(av),
                    result.deep_view().len() == i,
                    spec_transition_list(av) == match spec_transition_list(av.skip(i as int)) {
                        Ok(rest) => Ok::<_, StateChartErrorV>(result.deep_view() + rest),
                        Err(e) => Err(e),
                    },
                decreases n - i,
            {
                proof {
                    crate::values::lemma_vv_views_index(elems@, i as int);
                    assert(av.skip(i as int)[0] == av[i as int]);
                    assert(av.skip(i as int).skip(1) =~= av.skip(i as int + 1));
                }
                let t = match Transition::try_from(&elems[i]) {
                    Ok(t) => t,
                    Err(e) => {
                        return Err(e);
                    },
                };
                let ghost prev = result.deep_view();
                result.push(t);
                proof {
                    assert(result.deep_view() =~= prev + seq![t@]);
                    match spec_transition_list(av.skip(i as int + 1)) {
                            Ok(rest) => {
                                assert(prev + (seq![t@] + rest) =~= result.deep_view() + rest);
                            },
                            Err(_) => {},
                    }
                }
                i += 1;
            }
            proof {
                assert(av.skip(n as int).len() == 0);
                assert(result.deep_view() + Seq::<TransitionV>::empty() =~= result.deep_view());
            }
            Ok(result)
        },
        _ => Err(StateChartError::UnexpectedType),
    }
}

// ---------------------------------------------------------------------------
// VariableDeclaration
// ---------------------------------------------------------------------------
/// Declares a variable inside a chart node: its name, its declared type tag
/// and its initial value. The node owning the declaration is the variable's
/// scope.
#[derive(Debug)]
pub struct VariableDeclaration {
    pub name: String,
    pub var_type: String,
    pub value: VariableValue,
}

/// The mathematical view of a variable declaration.
pub struct VariableDeclarationV {
    pub name: Seq<char>,
    pub var_type: Seq<char>,
    pub value: VariableValueV,
}

impl View for VariableDeclaration {
    type V = VariableDeclarationV;

    open spec fn view(&self) -> VariableDeclarationV {
        VariableDeclarationV { name: self.name@, var_type: self.var_type@, value: self.value@ }
    }
}

impl DeepView for VariableDeclaration {
    type V = VariableDeclarationV;

    open spec fn deep_view(&self) -> VariableDeclarationV {
        self.view()
    }
}

impl Clone for VariableDeclaration {
    fn clone(&self) -> (r: Self)
        ensures
            r == *self,
    {
        VariableDeclaration {
            name: self.name.clone(),
            var_type: self.var_type.clone(),
            value: self.value.clone(),
        }
    }
}

impl VariableDeclaration {
    /// The name of the declared variable.
    pub fn name(&self) -> (r: &str)
        ensures
            r@ == self.name@,
    {
        self.name.as_str()
    }

    /// The initial value of the declared variable.
    pub fn value(&self) -> (r: &VariableValue)
        ensures
            r == self.value,
    {
        &self.value
    }

    /// Builds a variable declaration from a generic value.
    pub fn try_from(value: &ValidatedValue) -> (r: Result<VariableDeclaration, StateChartError>)
        ensures
            result_view(r) == spec_variable_declaration(value@),
    {
        match value {
            ValidatedValue::Object(attributes) => {
                let nv = match get_mandatory(attributes, "name") {
                    Ok(v) => v,
                    Err(e) => {
                        return Err(e);
                    },
                };
                let name = match crate::values::string_of(nv) {
                    Ok(s) => s,
                    Err(e) => {
                        return Err(e);
                    },
                };
                let tv = match get_mandatory(attributes, "type") {
                    Ok(v) => v,
                    Err(e) => {
                        return Err(e);
                    },
                };
                let var_type = match crate::values::string_of(tv) {
                    Ok(s) => s,
                    Err(e) => {
                        return Err(e);
                    },
                };
                let vv = match get_mandatory(attributes, "value") {
                    Ok(v) => v,
                    Err(e) => {
                        return Err(e);
                    },
                };
                let val = match VariableValue::try_from(vv) {
                    Ok(v) => v,
                    Err(e) => {
                        return Err(e);
                    },
                };
                Ok(VariableDeclaration { name, var_type, value: val })
            },
            _ => Err(StateChartError::UnexpectedType),
        }
    }
}

/// Builds a variable declaration: a mandatory `name`, `type` and `value`.
pub open spec fn spec_variable_declaration(v: ValidatedValueV) -> Result<
    VariableDeclarationV,
    StateChartErrorV,
> {
    match v {
        ValidatedValueV::Object(o) => match spec_mandatory(o, "name"@) {
            Err(e) => Err(e),
            Ok(nv) => match spec_string(nv) {
                Err(e) => Err(e),
                Ok(name) => match spec_mandatory(o, "type"@) {
                    Err(e) => Err(e),
                    Ok(tv) => match spec_string(tv) {
                        Err(e) => Err(e),
                        Ok(var_type) => match spec_mandatory(o, "value"@) {
                            Err(e) => Err(e),
                            Ok(vv) => match spec_variable_value_of(vv) {
                                Err(e) => Err(e),
                                Ok(value) => Ok(
                                    VariableDeclarationV { name, var_type, value },
                                ),
                            },
                        },
                    },
                },
            },
        },
        _ => Err(StateChartErrorV::UnexpectedType),
    }
}

/// Parses the elements of `s` in order as variable declarations; the first
/// failure aborts the whole list.
pub open spec fn spec_declaration_list(s: Seq<ValidatedValueV>) -> Result<
    Seq<VariableDeclarationV>,
    StateChartErrorV,
>
    decreases s.len(),
{
    if s.len() == 0 {
        Ok(Seq::empty())
    } else {
        match spec_variable_declaration(s[0]) {
            Err(e) => Err(e),
            Ok(d) => match spec_declaration_list(s.skip(1)) {
                Err(e) => Err(e),
                Ok(r) => Ok(seq![d] + r),
            },
        }
    }
}

/// Builds the declaration list of a node: absent means empty; anything but
/// an array is rejected.
pub open spec fn spec_declarations(v: Option<ValidatedValueV>) -> Result<
    Seq<VariableDeclarationV>,
    StateChartErrorV,
> {
    match v {
        None => Ok(Seq::empty()),
        Some(ValidatedValueV::Array(a)) => spec_declaration_list(a),
        Some(_) => Err(StateChartErrorV::UnexpectedType),
    }
}

/// Retrieves the attributes/variables of a node from the optional array.
pub fn attributes_from_validated_value(value: Option<&ValidatedValue>) -> (r: Result<
    Vec<VariableDeclaration>,
    StateChartError,
>)
    ensures
        match spec_declarations(match value {
            Some(v) => Some(v@),
            None => None,
        }) {
            Ok(ds) => r matches Ok(v) && v.deep_view() == ds,
            Err(e) => r matches Err(x) && x@ == e,
        },
{
    let array_value = match value {
        Some(v) => v,
        None => {
            return Ok(Vec::new());
        },
    };
    match array_value {
        ValidatedValue::Array(elems) => {
            let ghost av = vv_views(elems@);
            proof {
                crate::values::lemma_vv_views_len(elems@);
                assert(value matches Some(v) && v@ == ValidatedValueV::Array(av));
                assert(av.skip(0) =~= av);
            }
            let n = elems.len();
            let mut result: Vec<VariableDeclaration> = Vec::new();
            let mut i: usize = 0;
            while i < n
                invariant
                    0 <= i <= n,
                    n == elems@.len(),
                    av == vv_views(elems@),
                    av.len() == n,
                    value matches Some(v) && v@ == ValidatedValueV::Array(av),
                    result.deep_view().len() == i,
                    spec_declaration_list(av) == match spec_declaration_list(av.skip(i as int)) {
                        Ok(rest) => Ok::<_, StateChartErrorV>(result.deep_view() + rest),
                        Err(e) => Err(e),
                    },
                decreases n - i,
            {
                proof {
                    crate::values::lemma_vv_views_index(elems@, i as int);
                    assert(av.skip(i as int)[0] == av[i as int]);
                    assert(av.skip(i as int).skip(1) =~= av.skip(i as int + 1));
                }
                let d = match VariableDeclaration::try_from(&elems[i]) {
                    Ok(d) => d,
                    Err(e) => {
                        return Err(e);
                    },
                };
                let ghost prev = result.deep_view();
                result.push(d);
                proof {
                    assert(result.deep_view() =~= prev + seq![d@]);
                    match spec_declaration_list(av.skip(i as int + 1)) {
                            Ok(rest) => {
                                assert(prev + (seq![d@] + rest) =~= result.deep_view() + rest);
                            },
                            Err(_) => {},
                    }
                }
                i += 1;
            }
            proof {
                assert(av.skip(n as int).len() == 0);
                assert(result.deep_view() + Seq::<VariableDeclarationV>::empty()
                    =~= result.deep_view());
            }
            Ok(result)
        },
        _ => Err(StateChartError::UnexpectedType),
    }
}

// ---------------------------------------------------------------------------
// get_mandatory
// ---------------------------------------------------------------------------
/// Retrieves a mandatory attribute from an object's ordered pair list, or
/// fails naming the missing attribute.
pub fn get_mandatory<'a>(attributes: &'a Vec<(String, ValidatedValue)>, name: &str) -> (r: Result<
    &'a ValidatedValue,
    StateChartError,
>)
    ensures
        match spec_mandatory(pairs_view(attributes@), name@) {
            Ok(v) => r matches Ok(x) && x@ == v,
            Err(e) => r matches Err(x) && x@ == e,
        },
{
    match get(attributes, name) {
        Some(attribute) => Ok(attribute),
        None => Err(StateChartError::MandatoryAttributeMissing(name.to_owned())),
    }
}

} // verus!
