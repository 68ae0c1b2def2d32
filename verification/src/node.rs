//! The node: one state, or a composite grouping of sub-states, within a chart
//! definition. A node tree is built once from a schema-validated generic
//! value and never mutated afterwards; each running machine owns an
//! independent copy.

use vstd::prelude::*;

use crate::error::result_view;
use crate::error::StateChartError;
use crate::error::StateChartErrorV;
use crate::ids::NodeId;
use crate::state_charts::spec_action_call;
use crate::state_charts::spec_declarations;
use crate::state_charts::spec_transitions;
use crate::state_charts::ActionCall;
use crate::state_charts::ActionCallV;
use crate::state_charts::Transition;
use crate::state_charts::TransitionV;
use crate::state_charts::VariableDeclaration;
use crate::state_charts::VariableDeclarationV;
use crate::state_charts::attributes_from_validated_value;
use crate::state_charts::get_mandatory;
use crate::state_charts::transitions_from_validated_value;
use crate::values::get;
use crate::values::spec_lookup;
use crate::values::spec_mandatory;
use crate::values::spec_raw_node_id;
use crate::values::spec_string;
use crate::values::pairs_view;
use crate::values::ValidatedValue;
use crate::values::ValidatedValueV;

verus! {

/// The heart of the chart definition. A node is a single state or a chart of
/// its own: children make it a composite, `start_node` names the default
/// child entered when the composite activates, and `out_transitions` are
/// scanned in declared order, first match first.
#[derive(Debug)]
pub struct Node {
    pub id: NodeId,
    pub description: Option<String>,
    pub on_entry: Option<ActionCall>,
    pub on_exit: Option<ActionCall>,
    pub start_node: Option<NodeId>,
    pub out_transitions: Vec<Transition>,
    pub attributes: Vec<VariableDeclaration>,
    pub nodes: Vec<Node>,
}

/// The mathematical view of a node.
pub struct NodeV {
    pub id: Seq<char>,
    pub description: Option<Seq<char>>,
    pub on_entry: Option<ActionCallV>,
    pub on_exit: Option<ActionCallV>,
    pub start_node: Option<Seq<char>>,
    pub out_transitions: Seq<TransitionV>,
    pub attributes: Seq<VariableDeclarationV>,
    pub nodes: Seq<NodeV>,
}

/// The view of a node, field by field.
pub open spec fn node_view(n: Node) -> NodeV
    decreases n,
{
    NodeV {
        id: n.id@,
        description: match n.description {
            Some(d) => Some(d@),
            None => None,
        },
        on_entry: match n.on_entry {
            Some(a) => Some(a@),
            None => None,
        },
        on_exit: match n.on_exit {
            Some(a) => Some(a@),
            None => None,
        },
        start_node: match n.start_node {
            Some(s) => Some(s@),
            None => None,
        },
        out_transitions: n.out_transitions.deep_view(),
        attributes: n.attributes.deep_view(),
        nodes: nodes_view(n.nodes@),
    }
}

/// The views of a list of child nodes.
pub open spec fn nodes_view(s: Seq<Node>) -> Seq<NodeV>
    decreases s,
{
    if s.len() == 0 {
        Seq::empty()
    } else {
        seq![node_view(s[0])] + nodes_view(s.skip(1))
    }
}

pub broadcast proof fn lemma_nodes_view_len(s: Seq<Node>)
    ensures
        (#[trigger] nodes_view(s)).len() == s.len(),
    decreases s.len(),
{
    if s.len() > 0 {
        lemma_nodes_view_len(s.skip(1));
    }
}

pub broadcast proof fn lemma_nodes_view_index(s: Seq<Node>, i: int)
    requires
        0 <= i < s.len(),
    ensures
        #[trigger] nodes_view(s)[i] == node_view(s[i]),
    decreases s.len(),
{
    lemma_nodes_view_len(s);
    if i > 0 {
        lemma_nodes_view_index(s.skip(1), i - 1);
    }
}

/// The broadcast group of the node view lemmas.
pub broadcast group group_node_views {
    lemma_nodes_view_len,
    lemma_nodes_view_index,
}

impl View for Node {
    type V = NodeV;

    open spec fn view(&self) -> NodeV {
        node_view(*self)
    }
}

/// A value found by a key lookup sits below the object that holds it.
proof fn lemma_lookup_smaller(o: Seq<(Seq<char>, ValidatedValueV)>, k: Seq<char>)
    requires
        spec_lookup(o, k) is Some,
    ensures
        decreases_to!(o => spec_lookup(o, k).unwrap()),
    decreases o.len(),
{
    if o[0].0 == k {
        assert(decreases_to!(o => o[0]));
    } else {
        lemma_lookup_smaller(o.skip(1), k);
        assert(decreases_to!(o => o.skip(1)));
    }
}

/// Builds a node: the optional fields in their fixed order, the mandatory
/// `id`, then the declared variables and the children; absent collections
/// default to empty.
pub open spec fn spec_node(v: ValidatedValueV) -> Result<NodeV, StateChartErrorV>
    decreases v,
    via spec_node_decreases
{
    match v {
        ValidatedValueV::Object(o) => match spec_opt_action(spec_lookup(o, "on-entry"@)) {
            Err(e) => Err(e),
            Ok(on_entry) => match spec_opt_action(spec_lookup(o, "on-exit"@)) {
                Err(e) => Err(e),
                Ok(on_exit) => match spec_opt_string(spec_lookup(o, "description"@)) {
                    Err(e) => Err(e),
                    Ok(description) => match spec_opt_string(spec_lookup(o, "start-node"@)) {
                        Err(e) => Err(e),
                        Ok(start_node) => match (match spec_lookup(o, "out-transitions"@) {
                            None => Ok(Seq::empty()),
                            Some(tv) => spec_transitions(tv),
                        }) {
                            Err(e) => Err(e),
                            Ok(out_transitions) => match (match spec_mandatory(o, "id"@) {
                                Err(e) => Err(e),
                                Ok(iv) => spec_raw_node_id(iv),
                            }) {
                                Err(e) => Err(e),
                                Ok(id) => match spec_declarations(spec_lookup(o, "attributes"@)) {
                                    Err(e) => Err(e),
                                    Ok(attributes) => match spec_lookup(o, "nodes"@) {
                                        None => Ok(NodeV {
                                            id,
                                            description,
                                            on_entry,
                                            on_exit,
                                            start_node,
                                            out_transitions,
                                            attributes,
                                            nodes: Seq::empty(),
                                        }),
                                        Some(nv) => match nv {
                                            ValidatedValueV::Array(a) => match spec_node_list(a) {
                                                Err(e) => Err(e),
                                                Ok(nodes) => Ok(NodeV {
                                                    id,
                                                    description,
                                                    on_entry,
                                                    on_exit,
                                                    start_node,
                                                    out_transitions,
                                                    attributes,
                                                    nodes,
                                                }),
                                            },
                                            _ => Err(StateChartErrorV::UnexpectedType),
                                        },
                                    },
                                },
                            },
                        },
                    },
                },
            },
        },
        _ => Err(StateChartErrorV::UnexpectedType),
    }
}

/// Parses the elements of `s` in order as nodes; the first failure aborts
/// the whole list.
pub open spec fn spec_node_list(s: Seq<ValidatedValueV>) -> Result<Seq<NodeV>, StateChartErrorV>
    decreases s,
{
    if s.len() == 0 {
        Ok(Seq::empty())
    } else {
        match spec_node(s[0]) {
            Err(e) => Err(e),
            Ok(n) => match spec_node_list(s.skip(1)) {
                Err(e) => Err(e),
                Ok(r) => Ok(seq![n] + r),
            },
        }
    }
}

#[via_fn]
proof fn spec_node_decreases(v: ValidatedValueV) {
    if let ValidatedValueV::Object(o) = v {
        if spec_lookup(o, "nodes"@) is Some {
            lemma_lookup_smaller(o, "nodes"@);
            assert(decreases_to!(v => o));
        }
    }
}

/// An absent optional action parses to nothing; a present one must be an
/// action call.
pub open spec fn spec_opt_action(v: Option<ValidatedValueV>) -> Result<
    Option<ActionCallV>,
    StateChartErrorV,
> {
    match v {
        None => Ok(None),
        Some(av) => match spec_action_call(av) {
            Err(e) => Err(e),
            Ok(a) => Ok(Some(a)),
        },
    }
}

/// An absent optional text parses to nothing; a present one must be a
/// string.
pub open spec fn spec_opt_string(v: Option<ValidatedValueV>) -> Result<
    Option<Seq<char>>,
    StateChartErrorV,
> {
    match v {
        None => Ok(None),
        Some(sv) => match spec_string(sv) {
            Err(e) => Err(e),
            Ok(s) => Ok(Some(s)),
        },
    }
}

/// Absent children parse to the empty list; present ones must be an array of
/// nodes.
pub open spec fn spec_nodes_opt(v: Option<ValidatedValueV>) -> Result<Seq<NodeV>, StateChartErrorV> {
    match v {
        None => Ok(Seq::empty()),
        Some(ValidatedValueV::Array(a)) => spec_node_list(a),
        Some(_) => Err(StateChartErrorV::UnexpectedType),
    }
}

impl Node {
    /// The id of this node.
    pub fn id(&self) -> (r: &NodeId)
        ensures
            r == self.id,
    {
        &self.id
    }

    /// Provides access to the optional start node of the state chart.
    pub fn start_node(&self) -> (r: Option<&NodeId>)
        ensures
            match r {
                Some(s) => self.start_node matches Some(n) && n == s,
                None => self.start_node is None,
            },
    {
        self.start_node.as_ref()
    }

    /// Builds a node tree from a schema-validated generic value, eagerly and
    /// recursively; the first problem aborts the whole construction.
    pub fn try_from(value: &ValidatedValue) -> (r: Result<Node, StateChartError>)
        ensures
            result_view(r) == spec_node(value@),
        decreases value,
    {
        match value {
            ValidatedValue::Object(attributes) => {
                let on_entry = match get(attributes, "on-entry") {
                    Some(vac) => match ActionCall::try_from(vac) {
                        Ok(ac) => Some(ac),
                        Err(e) => {
                            return Err(e);
                        },
                    },
                    None => None,
                };
                let on_exit = match get(attributes, "on-exit") {
                    Some(vac) => match ActionCall::try_from(vac) {
                        Ok(ac) => Some(ac),
                        Err(e) => {
                            return Err(e);
                        },
                    },
                    None => None,
                };
                let description = match get(attributes, "description") {
                    Some(vd) => match crate::values::string_of(vd) {
                        Ok(d) => Some(d),
                        Err(e) => {
                            return Err(e);
                        },
                    },
                    None => None,
                };
                let start_node = match get(attributes, "start-node") {
                    Some(sn) => match NodeId::try_from(sn) {
                        Ok(s) => Some(s),
                        Err(e) => {
                            return Err(e);
                        },
                    },
                    None => None,
                };
                let out_transitions = match get(attributes, "out-transitions") {
                    Some(ot) => match transitions_from_validated_value(ot) {
                        Ok(ts) => ts,
                        Err(e) => {
                            return Err(e);
                        },
                    },
                    None => {
                        let ts: Vec<Transition> = Vec::new();
                        proof {
                            assert(ts.deep_view() =~= Seq::<TransitionV>::empty());
                        }
                        ts
                    },
                };
                let iv = match get_mandatory(attributes, "id") {
                    Ok(v) => v,
                    Err(e) => {
                        return Err(e);
                    },
                };
                let id = match NodeId::try_from(iv) {
                    Ok(i) => i,
                    Err(e) => {
                        return Err(e);
                    },
                };
                let attrs = match attributes_from_validated_value(get(attributes, "attributes")) {
                    Ok(a) => a,
                    Err(e) => {
                        return Err(e);
                    },
                };
                let nodes = match get(attributes, "nodes") {
                    None => {
                        let ns: Vec<Node> = Vec::new();
                        proof {
                            assert(nodes_view(ns@) =~= Seq::<NodeV>::empty());
                        }
                        ns
                    },
                    Some(nv) => {
                        proof {
                            let i = choose|i: int|
                                0 <= i < attributes@.len() && *nv == attributes@[i].1;
                            assert(decreases_to!(*value => attributes@[i].1));
                        }
                        match nv {
                            ValidatedValue::Array(elems) => match nodes_of_array(elems) {
                                Ok(ns) => ns,
                                Err(e) => {
                                    return Err(e);
                                },
                            },
                            _ => {
                                return Err(StateChartError::UnexpectedType);
                            },
                        }
                    },
                };
                let node = Node {
                    id,
                    description,
                    on_entry,
                    on_exit,
                    start_node,
                    out_transitions,
                    attributes: attrs,
                    nodes,
                };
                proof {
                    assert(node@.nodes == nodes_view(nodes@));
                    assert(node@.out_transitions == out_transitions.deep_view());
                    assert(node@.attributes == attrs.deep_view());
                }
                Ok(node)
            },
            _ => Err(StateChartError::UnexpectedType),
        }
    }
}

/// Parses an array of generic values as child nodes, in order.
fn nodes_of_array(elems: &Vec<ValidatedValue>) -> (r: Result<Vec<Node>, StateChartError>)
    ensures
        match spec_node_list(crate::values::vv_views(elems@)) {
            Ok(ns) => r matches Ok(v) && nodes_view(v@) == ns,
            Err(e) => r matches Err(x) && x@ == e,
        },
    decreases elems,
{
    let ghost av = crate::values::vv_views(elems@);
    proof {
        crate::values::lemma_vv_views_len(elems@);
        assert(av.skip(0) =~= av);
    }
    let n = elems.len();
    let mut result: Vec<Node> = Vec::new();
    let mut i: usize = 0;
    while i < n
        invariant
            0 <= i <= n,
            n == elems@.len(),
            av == crate::values::vv_views(elems@),
            av.len() == n,
            nodes_view(result@).len() == i,
            spec_node_list(av) == match spec_node_list(av.skip(i as int)) {
                Ok(rest) => Ok::<_, StateChartErrorV>(nodes_view(result@) + rest),
                Err(e) => Err(e),
            },
        decreases n - i,
    {
        proof {
            crate::values::lemma_vv_views_index(elems@, i as int);
            assert(av.skip(i as int)[0] == av[i as int]);
            assert(av.skip(i as int).skip(1) =~= av.skip(i as int + 1));
            assert(decreases_to!(elems@ => elems@[i as int]));
        }
        let node = match Node::try_from(&elems[i]) {
            Ok(node) => node,
            Err(e) => {
                return Err(e);
            },
        };
        let ghost prev_vec = result@;
        let ghost prev = nodes_view(result@);
        result.push(node);
        proof {
            lemma_nodes_view_push(prev_vec, node);
            assert(result@ == prev_vec.push(node));
            match spec_node_list(av.skip(i as int + 1)) {
                Ok(rest) => {
                    assert(prev + (seq![node@] + rest) =~= nodes_view(result@) + rest);
                },
                Err(_) => {},
            }
        }
        i += 1;
    }
    proof {
        assert(av.skip(n as int).len() == 0);
        assert(nodes_view(result@) + Seq::<NodeV>::empty() =~= nodes_view(result@));
    }
    Ok(result)
}

/// Appending one node extends the list of views by that node's view.
proof fn lemma_nodes_view_push(prefix: Seq<Node>, node: Node)
    ensures
        nodes_view(prefix.push(node)) == nodes_view(prefix) + seq![node_view(node)],
{
    let s = prefix.push(node);
    lemma_nodes_view_len(s);
    lemma_nodes_view_len(prefix);
    assert forall|j: int| 0 <= j < s.len() implies nodes_view(s)[j] == (nodes_view(prefix) + seq![
        node_view(node),
    ])[j] by {
        lemma_nodes_view_index(s, j);
        if j < prefix.len() {
            lemma_nodes_view_index(prefix, j);
            assert(s[j] == prefix[j]);
        } else {
            assert(s[j] == node);
        }
    }
    assert(nodes_view(s) =~= nodes_view(prefix) + seq![node_view(node)]);
}

/// Retrieves the child nodes from the optional validated value; absent means
/// none.
pub fn nodes_from_validated_value(value: Option<&ValidatedValue>) -> (r: Result<
    Vec<Node>,
    StateChartError,
>)
    ensures
        match spec_nodes_opt(match value {
            Some(v) => Some(v@),
            None => None,
        }) {
            Ok(ns) => r matches Ok(v) && nodes_view(v@) == ns,
            Err(e) => r matches Err(x) && x@ == e,
        },
{
    match value {
        None => Ok(Vec::new()),
        Some(v) => match v {
            ValidatedValue::Array(elems) => nodes_of_array(elems),
            _ => Err(StateChartError::UnexpectedType),
        },
    }
}

impl Clone for Node {
    /// A deep copy: every machine owns an independent tree, so in-flight
    /// instances are unaffected by catalog changes.
    fn clone(&self) -> (r: Self)
        ensures
            r@ == self@,
        decreases self,
    {
        let mut nodes: Vec<Node> = Vec::new();
        let n = self.nodes.len();
        let mut i: usize = 0;
        while i < n
            invariant
                0 <= i <= n,
                n == self.nodes@.len(),
                nodes@.len() == i,
                forall|j: int| 0 <= j < i ==> node_view(#[trigger] nodes@[j]) == node_view(
                    self.nodes@[j],
                ),
            decreases n - i,
        {
            proof {
                assert(decreases_to!(self.nodes@ => self.nodes@[i as int]));
            }
            let child = self.nodes[i].clone();
            nodes.push(child);
            i += 1;
        }
        proof {
            broadcast use group_node_views;

            assert forall|j: int| 0 <= j < n implies nodes_view(nodes@)[j] == nodes_view(
                self.nodes@,
            )[j] by {
                lemma_nodes_view_index(nodes@, j);
                lemma_nodes_view_index(self.nodes@, j);
            }
            assert(nodes_view(nodes@) =~= nodes_view(self.nodes@));
        }
        let on_entry = self.on_entry.clone();
        let on_exit = self.on_exit.clone();
        let description = self.description.clone();
        let start_node = self.start_node.clone();
        let out_transitions = self.out_transitions.clone();
        let attributes = self.attributes.clone();
        proof {
            if self.on_entry is Some {
                assert(vstd::pervasive::cloned::<ActionCall>(
                    self.on_entry.unwrap(),
                    on_entry.unwrap(),
                ));
            }
            if self.on_exit is Some {
                assert(vstd::pervasive::cloned::<ActionCall>(
                    self.on_exit.unwrap(),
                    on_exit.unwrap(),
                ));
            }
            if self.description is Some {
                assert(vstd::pervasive::cloned::<String>(
                    self.description.unwrap(),
                    description.unwrap(),
                ));
            }
            if self.start_node is Some {
                assert(vstd::pervasive::cloned::<NodeId>(
                    self.start_node.unwrap(),
                    start_node.unwrap(),
                ));
            }
            assert forall|j: int| 0 <= j < out_transitions@.len() implies (
            #[trigger] out_transitions@[j])@ == self.out_transitions@[j]@ by {
                assert(vstd::pervasive::cloned::<Transition>(
                    self.out_transitions[j],
                    out_transitions[j],
                ));
            }
            assert(out_transitions.deep_view() =~= self.out_transitions.deep_view());
            assert forall|j: int| 0 <= j < attributes@.len() implies #[trigger] attributes@[j]
                == self.attributes@[j] by {
                assert(vstd::pervasive::cloned::<VariableDeclaration>(
                    self.attributes[j],
                    attributes[j],
                ));
            }
            assert(attributes.deep_view() =~= self.attributes.deep_view());
        }
        Node {
            id: self.id.clone(),
            description,
            on_entry,
            on_exit,
            start_node,
            out_transitions,
            attributes,
            nodes,
        }
    }
}

} // verus!
