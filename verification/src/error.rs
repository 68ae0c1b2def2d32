//! The closed set of things that can go wrong while building a chart,
//! deriving an identifier or driving a machine.

use vstd::prelude::*;
use vstd::string::StringExecFns;

use crate::ids::{NodeId, StateId};

verus! {

/// Every failure carries enough context to name what was rejected. Build and
/// identifier failures are terminal for their operation; runtime failures
/// leave the machine untouched.
#[derive(Debug)]
pub enum StateChartError {
    /// A required field was absent while building a chart element.
    MandatoryAttributeMissing(String),
    /// A value had the wrong variant during build or coercion.
    UnexpectedType,
    /// Passed through unchanged from the upstream input validator.
    ValidationError(String),
    /// A definition address failed its structural pattern.
    InvalidNodeId(NodeId),
    /// An instance address failed its structural pattern.
    InvalidStateId(StateId),
    /// The chart lacks a resolvable default-entry chain.
    NoRoot,
    /// No scope between the active node and the root declares the variable.
    UndeclaredVariable(String),
    /// A transition names a target that is not part of the chart.
    UnresolvedTarget(NodeId),
    /// A transition index does not name a transition of the active node.
    NoSuchTransition,
}

/// The mathematical view of an error: identifier payloads by their text.
pub enum StateChartErrorV {
    MandatoryAttributeMissing(Seq<char>),
    UnexpectedType,
    ValidationError(Seq<char>),
    InvalidNodeId(Seq<char>),
    InvalidStateId(Seq<char>),
    NoRoot,
    UndeclaredVariable(Seq<char>),
    UnresolvedTarget(Seq<char>),
    NoSuchTransition,
}

impl View for StateChartError {
    type V = StateChartErrorV;

    open spec fn view(&self) -> StateChartErrorV {
        match self {
            StateChartError::MandatoryAttributeMissing(name) => (
            StateChartErrorV::MandatoryAttributeMissing(name@)),
            StateChartError::UnexpectedType => StateChartErrorV::UnexpectedType,
            StateChartError::ValidationError(message) => (StateChartErrorV::ValidationError(
                message@,
            )),
            StateChartError::InvalidNodeId(n) => StateChartErrorV::InvalidNodeId(n.0@),
            StateChartError::InvalidStateId(s) => StateChartErrorV::InvalidStateId(s.0@),
            StateChartError::NoRoot => StateChartErrorV::NoRoot,
            StateChartError::UndeclaredVariable(name) => (StateChartErrorV::UndeclaredVariable(
                name@,
            )),
            StateChartError::UnresolvedTarget(n) => StateChartErrorV::UnresolvedTarget(n.0@),
            StateChartError::NoSuchTransition => StateChartErrorV::NoSuchTransition,
        }
    }
}

/// The view of a result, both sides element by element.
pub open spec fn result_view<T: View, E: View>(r: Result<T, E>) -> Result<T::V, E::V> {
    match r {
        Ok(t) => Ok(t.view()),
        Err(e) => Err(e.view()),
    }
}

impl StateChartError {
    /// The stable number of each error kind.
    pub open spec fn spec_error_id(self) -> int {
        match self {
            StateChartError::MandatoryAttributeMissing(_) => 0,
            StateChartError::UnexpectedType => 1,
            StateChartError::ValidationError(_) => 2,
            StateChartError::InvalidNodeId(_) => 3,
            StateChartError::InvalidStateId(_) => 4,
            StateChartError::NoRoot => 5,
            StateChartError::UndeclaredVariable(_) => 6,
            StateChartError::UnresolvedTarget(_) => 7,
            StateChartError::NoSuchTransition => 8,
        }
    }

    /// Assigns a stable number to every known error, for diagnosis across
    /// service and support boundaries.
    pub fn error_id(&self) -> (r: i64)
        ensures
            r == self.spec_error_id(),
    {
        match self {
            StateChartError::MandatoryAttributeMissing(_) => 0,
            StateChartError::UnexpectedType => 1,
            StateChartError::ValidationError(_) => 2,
            StateChartError::InvalidNodeId(_) => 3,
            StateChartError::InvalidStateId(_) => 4,
            StateChartError::NoRoot => 5,
            StateChartError::UndeclaredVariable(_) => 6,
            StateChartError::UnresolvedTarget(_) => 7,
            StateChartError::NoSuchTransition => 8,
        }
    }

    /// The text of each error kind.
    pub open spec fn spec_message(self) -> Seq<char> {
        match self {
            StateChartError::MandatoryAttributeMissing(name) => "Missing mandatory attribute '"@
                + name@ + "'."@,
            StateChartError::UnexpectedType => "Unexpected type provided!"@,
            StateChartError::ValidationError(message) => message@,
            StateChartError::InvalidNodeId(_) => "NodeId isn't valid."@,
            StateChartError::InvalidStateId(_) => "StateId isn't valid."@,
            StateChartError::NoRoot => "State chart is no root."@,
            StateChartError::UndeclaredVariable(name) => "Variable '"@ + name@
                + "' isn't declared."@,
            StateChartError::UnresolvedTarget(_) => "Transition target isn't part of the chart."@,
            StateChartError::NoSuchTransition => "No such transition."@,
        }
    }

    /// A short human-readable message; together with the numeric id it is
    /// what crosses the service boundary.
    pub fn message(&self) -> (r: String)
        ensures
            r@ == self.spec_message(),
    {
        match self {
            StateChartError::MandatoryAttributeMissing(name) => {
                let mut s = String::from_str("Missing mandatory attribute '");
                s.append(name.as_str());
                s.append("'.");
                proof {
                    assert(s@ =~= self.spec_message());
                }
                s
            },
            StateChartError::UnexpectedType => String::from_str("Unexpected type provided!"),
            StateChartError::ValidationError(message) => message.clone(),
            StateChartError::InvalidNodeId(_) => String::from_str("NodeId isn't valid."),
            StateChartError::InvalidStateId(_) => String::from_str("StateId isn't valid."),
            StateChartError::NoRoot => String::from_str("State chart is no root."),
            StateChartError::UndeclaredVariable(name) => {
                let mut s = String::from_str("Variable '");
                s.append(name.as_str());
                s.append("' isn't declared.");
                proof {
                    assert(s@ =~= self.spec_message());
                }
                s
            },
            StateChartError::UnresolvedTarget(_) => String::from_str(
                "Transition target isn't part of the chart.",
            ),
            StateChartError::NoSuchTransition => String::from_str("No such transition."),
        }
    }
}

} // verus!
