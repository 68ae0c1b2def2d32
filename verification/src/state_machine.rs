//! The runtime engine: a state machine is a running state chart. It owns an
//! independent copy of the chart, tracks the active node, evaluates event
//! guards, sequences entry and exit actions, and applies variable mutations.
//! Action and predicate execution is delegated to an external executor; the
//! engine only decides and sequences the calls.

use vstd::prelude::*;
use vstd::pervasive::VecAdditionalExecFns;

use crate::error::StateChartError;
use crate::ids::instance_of;
use crate::ids::node_text_wf;
use crate::ids::sms_prefix;
use crate::ids::state_text_wf;
use crate::ids::NodeId;
use crate::ids::StateId;
use crate::node::Node;
use crate::state_charts::ActionCall;
use crate::state_charts::ActionCallV;
use crate::state_charts::Guard;
use crate::state_charts::Parameter;
use crate::state_charts::ParameterV;
use crate::state_charts::PredicateCall;
use crate::state_charts::PredicateCallV;
use crate::state_charts::Transition;
use crate::state_charts::VariableDeclaration;
use crate::state_charts::VariableValue;
use crate::state_machine_log::LogEntryType;
use crate::state_machine_log::StateMachineLog;
use crate::text::str_eq;

verus! {

// ---------------------------------------------------------------------------
// Paths into the chart tree
// ---------------------------------------------------------------------------
/// Whether `p` names a chain of child indices that exists below `n`.
pub open spec fn path_valid(n: Node, p: Seq<usize>) -> bool
    decreases p.len(),
{
    p.len() == 0 || (p[0] < n.nodes@.len() && path_valid(n.nodes@[p[0] as int], p.skip(1)))
}

/// The node reached from `n` along the child indices `p`.
pub open spec fn node_at(n: Node, p: Seq<usize>) -> Node
    decreases p.len(),
{
    if p.len() == 0 {
        n
    } else {
        node_at(n.nodes@[p[0] as int], p.skip(1))
    }
}

/// Every prefix of a valid path is valid.
pub proof fn lemma_path_valid_prefix(n: Node, p: Seq<usize>, k: int)
    requires
        path_valid(n, p),
        0 <= k <= p.len(),
    ensures
        path_valid(n, p.take(k)),
    decreases k,
{
    if k > 0 {
        assert(p.take(k)[0] == p[0]);
        assert(p.take(k).skip(1) =~= p.skip(1).take(k - 1));
        lemma_path_valid_prefix(n.nodes@[p[0] as int], p.skip(1), k - 1);
    }
}

/// Extending a path by one child index descends into that child.
pub proof fn lemma_node_at_snoc(n: Node, p: Seq<usize>, i: usize)
    requires
        path_valid(n, p),
    ensures
        node_at(n, p.push(i)) == node_at(node_at(n, p), seq![i]),
    decreases p.len(),
{
    if p.len() == 0 {
        assert(p.push(i) =~= seq![i]);
    } else {
        assert(p.push(i)[0] == p[0]);
        assert(p.push(i).skip(1) =~= p.skip(1).push(i));
        lemma_node_at_snoc(n.nodes@[p[0] as int], p.skip(1), i);
    }
}

/// Walks the tree along the first `upto` indices of `path`.
fn node_at_prefix<'a>(root: &'a Node, path: &Vec<usize>, upto: usize) -> (r: &'a Node)
    requires
        upto <= path@.len(),
        path_valid(*root, path@.take(upto as int)),
    ensures
        r == node_at(*root, path@.take(upto as int)),
{
    let mut cur: &Node = root;
    let mut k: usize = 0;
    while k < upto
        invariant
            0 <= k <= upto,
            upto <= path@.len(),
            path_valid(*root, path@.take(upto as int)),
            path_valid(*root, path@.take(k as int)),
            cur == node_at(*root, path@.take(k as int)),
        decreases upto - k,
    {
        proof {
            lemma_path_valid_prefix(*root, path@.take(upto as int), k + 1);
            assert(path@.take(upto as int).take(k + 1) =~= path@.take(k as int + 1));
            lemma_valid_step(*root, path@.take(k as int + 1));
            assert(path@.take(k as int + 1).take(k as int) =~= path@.take(k as int));
            assert(path@.take(k as int + 1)[k as int] == path@[k as int]);
        }
        cur = &cur.nodes[path[k]];
        k += 1;
        proof {
            assert(path@.take(k as int) =~= path@.take(k - 1).push(path@[k - 1]));
            lemma_node_at_snoc(*root, path@.take(k - 1), path@[k - 1] as usize);
        }
    }
    proof {
        assert(path@.take(k as int) =~= path@.take(upto as int));
    }
    cur
}

/// A valid nonempty path steps through a child index in range.
pub proof fn lemma_valid_step(n: Node, p: Seq<usize>)
    requires
        path_valid(n, p),
        p.len() > 0,
    ensures
        p[p.len() - 1] < node_at(n, p.take(p.len() - 1)).nodes@.len(),
        node_at(n, p) == node_at(n, p.take(p.len() - 1)).nodes@[p[p.len() - 1] as int],
        path_valid(n, p.take(p.len() - 1)),
    decreases p.len(),
{
    lemma_path_valid_prefix(n, p, p.len() - 1);
    if p.len() == 1 {
        assert(p.take(0) =~= Seq::<usize>::empty());
    } else {
        assert(p.take(p.len() - 1)[0] == p[0]);
        assert(p.take(p.len() - 1).skip(1) =~= p.skip(1).take(p.skip(1).len() - 1));
        lemma_valid_step(n.nodes@[p[0] as int], p.skip(1));
    }
}

// ---------------------------------------------------------------------------
// Locating nodes and resolving the default-entry chain
// ---------------------------------------------------------------------------
/// The first child index at or after `j` whose node carries the id text.
pub open spec fn child_index(s: Seq<Node>, id: Seq<char>, j: int) -> Option<int>
    decreases s.len() - j,
{
    if j < 0 || j >= s.len() {
        None
    } else if s[j].id@ == id {
        Some(j)
    } else {
        child_index(s, id, j + 1)
    }
}

pub proof fn lemma_child_index_bounds(s: Seq<Node>, id: Seq<char>, j: int)
    requires
        child_index(s, id, j) is Some,
    ensures
        j <= child_index(s, id, j).unwrap() < s.len(),
        s[child_index(s, id, j).unwrap()].id@ == id,
    decreases s.len() - j,
{
    if j < 0 || j >= s.len() {
    } else if s[j].id@ == id {
    } else {
        lemma_child_index_bounds(s, id, j + 1);
    }
}

/// The default-entry chain below `n`: while the node is composite, descend
/// into the child its `start_node` names; a composite without a resolvable
/// default child has no chain.
pub open spec fn default_chain(n: Node) -> Option<Seq<usize>>
    decreases n,
    via default_chain_decreases
{
    if n.nodes@.len() == 0 {
        Some(Seq::empty())
    } else {
        match n.start_node {
            None => None,
            Some(sid) => match child_index(n.nodes@, sid@, 0) {
                None => None,
                Some(i) => match default_chain(n.nodes@[i]) {
                    None => None,
                    Some(rest) => Some(seq![i as usize] + rest),
                },
            },
        }
    }
}

#[via_fn]
proof fn default_chain_decreases(n: Node) {
    if n.nodes@.len() > 0 {
        if let Some(sid) = n.start_node {
            if child_index(n.nodes@, sid@, 0) is Some {
                lemma_child_index_bounds(n.nodes@, sid@, 0);
            }
        }
    }
}

/// A default-entry chain is a valid path, and it ends at a leaf.
pub proof fn lemma_default_chain_valid(n: Node)
    requires
        default_chain(n) is Some,
    ensures
        path_valid(n, default_chain(n).unwrap()),
        node_at(n, default_chain(n).unwrap()).nodes@.len() == 0,
    decreases n,
{
    let c = default_chain(n).unwrap();
    if n.nodes@.len() == 0 {
    } else {
        let sid = n.start_node.unwrap();
        let i = child_index(n.nodes@, sid@, 0).unwrap();
        lemma_child_index_bounds(n.nodes@, sid@, 0);
        assert(n.nodes.len() == n.nodes@.len());
        assert(i as usize == i);
        lemma_default_chain_valid(n.nodes@[i]);
        let rest = default_chain(n.nodes@[i]).unwrap();
        assert(c == seq![i as usize] + rest);
        assert(c[0] == i as usize);
        assert(c.skip(1) =~= rest);
    }
}

/// Finds the first child carrying the id, scanning in order.
fn find_child(nodes: &Vec<Node>, id: &NodeId) -> (r: Option<usize>)
    ensures
        match r {
            Some(i) => child_index(nodes@, id@, 0) == Some(i as int),
            None => child_index(nodes@, id@, 0) is None,
        },
{
    let n = nodes.len();
    let mut j: usize = 0;
    while j < n
        invariant
            0 <= j <= n,
            n == nodes@.len(),
            child_index(nodes@, id@, 0) == child_index(nodes@, id@, j as int),
        decreases n - j,
    {
        if str_eq(nodes[j].id.0.as_str(), id.0.as_str()) {
            return Some(j);
        }
        j += 1;
    }
    None
}

/// Resolves the default-entry chain below `n`, or reports that none exists.
fn resolve_chain(n: &Node) -> (r: Option<Vec<usize>>)
    ensures
        match r {
            Some(v) => default_chain(*n) == Some(v@),
            None => default_chain(*n) is None,
        },
    decreases n,
{
    if n.nodes.len() == 0 {
        let v: Vec<usize> = Vec::new();
        proof {
            assert(v@ =~= Seq::<usize>::empty());
        }
        return Some(v);
    }
    let sid = match &n.start_node {
        None => {
            return None;
        },
        Some(sid) => sid,
    };
    let i = match find_child(&n.nodes, sid) {
        None => {
            return None;
        },
        Some(i) => i,
    };
    proof {
        lemma_child_index_bounds(n.nodes@, sid@, 0);
        assert(decreases_to!(n.nodes@ => n.nodes@[i as int]));
    }
    let rest = match resolve_chain(&n.nodes[i]) {
        None => {
            return None;
        },
        Some(rest) => rest,
    };
    let mut v: Vec<usize> = Vec::new();
    v.push(i);
    let m = rest.len();
    let mut k: usize = 0;
    proof {
        assert(v@ =~= seq![i] + rest@.take(0));
    }
    while k < m
        invariant
            0 <= k <= m,
            m == rest@.len(),
            v@ == seq![i] + rest@.take(k as int),
        decreases m - k,
    {
        v.push(rest[k]);
        k += 1;
        proof {
            assert((seq![i] + rest@.take(k - 1)).push(rest@[k - 1]) =~= seq![i] + rest@.take(
                k as int,
            ));
        }
    }
    proof {
        assert(rest@.take(m as int) =~= rest@);
    }
    Some(v)
}

// ---------------------------------------------------------------------------
// Locating a node by its id (preorder, first match)
// ---------------------------------------------------------------------------
/// The path to the first node carrying the id text, this node first, then the
/// children in order, depth first.
pub open spec fn locate(n: Node, id: Seq<char>) -> Option<Seq<usize>>
    decreases n, 0int,
{
    if n.id@ == id {
        Some(Seq::empty())
    } else {
        locate_in(n.nodes@, id, 0)
    }
}

/// The relative path to the first match within the children at or after `j`.
pub open spec fn locate_in(s: Seq<Node>, id: Seq<char>, j: int) -> Option<Seq<usize>>
    decreases s, s.len() - j,
{
    if j < 0 || j >= s.len() {
        None
    } else {
        match locate(s[j], id) {
            Some(p) => Some(seq![j as usize] + p),
            None => locate_in(s, id, j + 1),
        }
    }
}

/// A located path is valid and leads to a node with the looked-up id.
pub proof fn lemma_locate_valid(n: Node, id: Seq<char>)
    requires
        locate(n, id) is Some,
    ensures
        path_valid(n, locate(n, id).unwrap()),
        node_at(n, locate(n, id).unwrap()).id@ == id,
    decreases n, 0int,
{
    if n.id@ == id {
    } else {
        lemma_locate_in_valid(n, n.nodes@, id, 0);
    }
}

proof fn lemma_locate_in_valid(n: Node, s: Seq<Node>, id: Seq<char>, j: int)
    requires
        s == n.nodes@,
        locate_in(s, id, j) is Some,
    ensures
        path_valid(n, locate_in(s, id, j).unwrap()),
        node_at(n, locate_in(s, id, j).unwrap()).id@ == id,
    decreases s, s.len() - j,
{
    if j < 0 || j >= s.len() {
    } else {
        match locate(s[j], id) {
            Some(p) => {
                lemma_locate_valid(s[j], id);
                let q = seq![j as usize] + p;
                assert(s.len() == n.nodes.len());
                assert(q[0] == j as usize);
                assert(q.skip(1) =~= p);
            },
            None => {
                lemma_locate_in_valid(n, s, id, j + 1);
            },
        }
    }
}

/// Searches the subtree below `n` for the first node carrying the id,
/// appending the found path to `acc`.
fn locate_search(n: &Node, id: &NodeId, acc: &mut Vec<usize>) -> (r: bool)
    ensures
        match locate(*n, id@) {
            Some(p) => r == true && final(acc)@ == old(acc)@ + p,
            None => r == false && final(acc)@ == old(acc)@,
        },
    decreases n,
{
    if str_eq(n.id.0.as_str(), id.0.as_str()) {
        proof {
            assert(acc@ + Seq::<usize>::empty() =~= acc@);
        }
        return true;
    }
    let m = n.nodes.len();
    let mut j: usize = 0;
    while j < m
        invariant
            0 <= j <= m,
            m == n.nodes@.len(),
            n.id@ != id@,
            acc@ == old(acc)@,
            locate(*n, id@) == locate_in(n.nodes@, id@, j as int),
        decreases m - j,
    {
        acc.push(j);
        proof {
            assert(decreases_to!(n.nodes@ => n.nodes@[j as int]));
        }
        if locate_search(&n.nodes[j], id, acc) {
            proof {
                let p = locate(n.nodes@[j as int], id@).unwrap();
                assert((old(acc)@.push(j)) + p =~= old(acc)@ + (seq![j] + p));
            }
            return true;
        }
        let popped = acc.pop();
        proof {
            assert(acc@ =~= old(acc)@);
        }
        j += 1;
    }
    false
}

/// Locates the first node carrying the id within the tree below `root`.
fn locate_node(root: &Node, id: &NodeId) -> (r: Option<Vec<usize>>)
    ensures
        match r {
            Some(v) => locate(*root, id@) == Some(v@),
            None => locate(*root, id@) is None,
        },
{
    let mut acc: Vec<usize> = Vec::new();
    if locate_search(root, id, &mut acc) {
        proof {
            assert(Seq::<usize>::empty() + locate(*root, id@).unwrap() =~= locate(
                *root,
                id@,
            ).unwrap());
        }
        Some(acc)
    } else {
        None
    }
}

// ---------------------------------------------------------------------------
// Action sequences and common prefixes
// ---------------------------------------------------------------------------
/// The view of an optional action as a sequence of zero or one calls.
pub open spec fn opt_action_view(a: Option<ActionCall>) -> Seq<ActionCallV> {
    match a {
        Some(a) => seq![a@],
        None => Seq::empty(),
    }
}

/// The entry actions of the nodes at prefix lengths `k + 1` up to the whole
/// of `p`, outermost first.
pub open spec fn entry_actions(chart: Node, p: Seq<usize>, k: int) -> Seq<ActionCallV>
    decreases p.len() - k,
{
    if k >= p.len() {
        Seq::empty()
    } else {
        opt_action_view(node_at(chart, p.take(k + 1)).on_entry) + entry_actions(chart, p, k + 1)
    }
}

/// The exit actions of the nodes at prefix lengths `p.len()` down to
/// `k + 1`, innermost first.
pub open spec fn exit_actions(chart: Node, p: Seq<usize>, k: int) -> Seq<ActionCallV>
    decreases p.len() - k,
    via exit_actions_decreases
{
    if p.len() <= k || p.len() == 0 {
        Seq::empty()
    } else {
        opt_action_view(node_at(chart, p).on_exit) + exit_actions(chart, p.take(p.len() - 1), k)
    }
}

#[via_fn]
proof fn exit_actions_decreases(chart: Node, p: Seq<usize>, k: int) {
    if !(p.len() <= k || p.len() == 0) {
        assert(p.take(p.len() - 1).len() == p.len() - 1);
    }
}

/// The length of the longest common prefix of `a` and `b` at or after `j`.
pub open spec fn lcp_from(a: Seq<usize>, b: Seq<usize>, j: int) -> int
    decreases a.len() - j,
{
    if j < 0 || j >= a.len() || j >= b.len() || a[j] != b[j] {
        j
    } else {
        lcp_from(a, b, j + 1)
    }
}

pub proof fn lemma_lcp_bounds(a: Seq<usize>, b: Seq<usize>, j: int)
    requires
        0 <= j <= a.len(),
        j <= b.len(),
    ensures
        j <= lcp_from(a, b, j) <= a.len(),
        lcp_from(a, b, j) <= b.len(),
    decreases a.len() - j,
{
    if !(j >= a.len() || j >= b.len() || a[j] != b[j]) {
        lemma_lcp_bounds(a, b, j + 1);
    }
}

// ---------------------------------------------------------------------------
// The machine
// ---------------------------------------------------------------------------
/// A runtime binding: the current value of a variable, owned by the scope
/// node whose declaration it overrides.
#[derive(Debug)]
pub struct Binding {
    pub node: NodeId,
    pub name: String,
    pub value: VariableValue,
}

/// A state machine is a running state chart: the instance address minted at
/// instantiation, an owned copy of the chart, the address of the active node
/// and the chain of child indices leading to it, the variable bindings
/// applied so far, and the operational log.
#[derive(Debug)]
pub struct StateMachine {
    id: StateId,
    state_chart: Node,
    current_state: StateId,
    active: Vec<usize>,
    bindings: Vec<Binding>,
    log: StateMachineLog,
}

impl StateMachine {
    /// The chain of child indices to the active node always exists in the
    /// chart.
    #[verifier::type_invariant]
    spec fn wf(self) -> bool {
        path_valid(self.state_chart, self.active@)
    }

    /// The machine's own instance address.
    pub closed spec fn spec_id(self) -> StateId {
        self.id
    }

    /// The machine's copy of the chart.
    pub closed spec fn chart(self) -> Node {
        self.state_chart
    }

    /// The address of the active node.
    pub closed spec fn spec_current_state(self) -> StateId {
        self.current_state
    }

    /// The chain of child indices from the chart root to the active node.
    pub closed spec fn active_path(self) -> Seq<usize> {
        self.active@
    }

    /// The runtime variable bindings, in the order they were first set.
    pub closed spec fn spec_bindings(self) -> Seq<Binding> {
        self.bindings@
    }

    /// The operational log entries, oldest first.
    pub closed spec fn spec_log(self) -> Seq<LogEntryType> {
        self.log.entries@
    }

    /// The active node itself.
    pub open spec fn active_node(self) -> Node {
        node_at(self.chart(), self.active_path())
    }

    /// Creates a new state machine based on the provided state chart: mints
    /// a fresh instance address from the chart's id and enters the default
    /// chain, so that the current state addresses the chain's final node.
    /// Fails with `NoRoot` when a composite on the chain names no resolvable
    /// default child.
    pub fn new(state_chart: Node) -> (r: Result<StateMachine, StateChartError>)
        ensures
            !node_text_wf(state_chart.id@) ==> (r matches Err(e) && e matches
                StateChartError::InvalidNodeId(x) && x == state_chart.id),
            node_text_wf(state_chart.id@) ==> match default_chain(state_chart) {
                None => r matches Err(e) && e is NoRoot,
                Some(c) => if !node_text_wf(node_at(state_chart, c).id@) {
                    r matches Err(e) && e matches StateChartError::InvalidNodeId(x) && x == node_at(
                        state_chart,
                        c,
                    ).id
                } else {
                    r matches Ok(m) && {
                        &&& m.chart() == state_chart
                        &&& m.active_path() == c
                        &&& m.spec_bindings().len() == 0
                        &&& m.spec_log().len() == 0
                        &&& state_text_wf(m.spec_id().0@)
                        &&& m.spec_id().0@ == sms_prefix() + instance_of(m.spec_id().0@)
                            + seq!['/'] + state_chart.id.0@.skip(7)
                        &&& m.spec_current_state().0@ == sms_prefix() + instance_of(
                            m.spec_id().0@,
                        ) + seq!['/'] + node_at(state_chart, c).id.0@.skip(7)
                        &&& state_text_wf(m.spec_current_state().0@)
                    }
                },
            },
    {
        let id = match StateId::new(state_chart.id()) {
            Ok(i) => i,
            Err(e) => {
                return Err(e);
            },
        };
        let chain = match resolve_chain(&state_chart) {
            Some(c) => c,
            None => {
                return Err(StateChartError::NoRoot);
            },
        };
        proof {
            lemma_default_chain_valid(state_chart);
            assert(chain@.take(chain@.len() as int) =~= chain@);
        }
        let target = node_at_prefix(&state_chart, &chain, chain.len());
        let current = match StateId::new_with_node(&id, &target.id) {
            Ok(c) => c,
            Err(e) => {
                return Err(e);
            },
        };
        Ok(
            StateMachine {
                id,
                state_chart,
                current_state: current,
                active: chain,
                bindings: Vec::new(),
                log: StateMachineLog::init(),
            },
        )
    }

    /// The machine's instance address.
    pub fn id(&self) -> (r: &StateId)
        ensures
            r == self.spec_id(),
    {
        &self.id
    }

    /// The address of the active node.
    pub fn current_state(&self) -> (r: &StateId)
        ensures
            r == self.spec_current_state(),
    {
        &self.current_state
    }

    /// The machine's operational log.
    pub fn log(&self) -> (r: &StateMachineLog)
        ensures
            r.entries@ == self.spec_log(),
    {
        &self.log
    }

    /// The entry actions of instantiation: the `on_entry` of every node on
    /// the default chain from the chart root down to its final node,
    /// ancestor before descendant. The external executor runs them right
    /// after `new`.
    pub fn instantiation_entry_actions(&self) -> (r: Result<Vec<ActionCall>, StateChartError>)
        ensures
            match default_chain(self.chart()) {
                Some(c) => r matches Ok(v) && v.deep_view() == entry_actions(self.chart(), c, -1),
                None => r matches Err(e) && e is NoRoot,
            },
    {
        let chain = match resolve_chain(&self.state_chart) {
            Some(c) => c,
            None => {
                return Err(StateChartError::NoRoot);
            },
        };
        proof {
            lemma_default_chain_valid(self.state_chart);
        }
        let n = chain.len();
        let mut acc: Vec<ActionCall> = Vec::new();
        proof {
            assert(chain@.take(0) =~= Seq::<usize>::empty());
        }
        match &self.state_chart.on_entry {
            Some(a) => {
                let c = a.clone();
                acc.push(c);
                proof {
                    assert(acc.deep_view() =~= opt_action_view(self.state_chart.on_entry));
                }
            },
            None => {
                proof {
                    assert(acc.deep_view() =~= opt_action_view(self.state_chart.on_entry));
                }
            },
        }
        let ghost chart = self.state_chart;
        let mut j: usize = 0;
        while j < n
            invariant
                0 <= j <= n,
                n == chain@.len(),
                chart == self.state_chart,
                path_valid(chart, chain@),
                entry_actions(chart, chain@, -1) == acc.deep_view() + entry_actions(
                    chart,
                    chain@,
                    j as int,
                ),
            decreases n - j,
        {
            proof {
                lemma_path_valid_prefix(chart, chain@, j + 1);
            }
            let node = node_at_prefix(&self.state_chart, &chain, j + 1);
            let ghost prev = acc.deep_view();
            match &node.on_entry {
                Some(a) => {
                    let c = a.clone();
                    acc.push(c);
                    proof {
                        assert(acc.deep_view() =~= prev + opt_action_view(node.on_entry));
                    }
                },
                None => {
                    proof {
                        assert(acc.deep_view() =~= prev + opt_action_view(node.on_entry));
                    }
                },
            }
            j += 1;
            proof {
                assert(prev + (opt_action_view(node.on_entry) + entry_actions(
                    chart,
                    chain@,
                    j as int,
                )) =~= acc.deep_view() + entry_actions(chart, chain@, j as int));
            }
        }
        proof {
            assert(entry_actions(chart, chain@, n as int) =~= Seq::<ActionCallV>::empty());
            assert(acc.deep_view() + Seq::<ActionCallV>::empty() =~= acc.deep_view());
        }
        Ok(acc)
    }

    /// The index of the first transition of the active node whose guard is
    /// the given event, scanning in declared order; predicate guards are
    /// never matched by an event.
    pub fn find_event_transition(&self, event_id: &str) -> (r: Option<usize>)
        ensures
            match r {
                Some(i) => first_event_match(
                    self.active_node().out_transitions@,
                    event_id@,
                    0,
                ) == Some(i as int),
                None => first_event_match(self.active_node().out_transitions@, event_id@, 0)
                    is None,
            },
    {
        proof {
            use_type_invariant(&*self);
            assert(self.active@.take(self.active@.len() as int) =~= self.active@);
        }
        let node = node_at_prefix(&self.state_chart, &self.active, self.active.len());
        let n = node.out_transitions.len();
        let mut j: usize = 0;
        while j < n
            invariant
                0 <= j <= n,
                n == node.out_transitions@.len(),
                node == self.active_node(),
                first_event_match(node.out_transitions@, event_id@, 0) == first_event_match(
                    node.out_transitions@,
                    event_id@,
                    j as int,
                ),
            decreases n - j,
        {
            match &node.out_transitions[j].guard {
                Guard::Event(e) => {
                    if str_eq(e.as_str(), event_id) {
                        return Some(j);
                    }
                },
                Guard::Predicate(_) => {},
            }
            j += 1;
        }
        None
    }
}

/// The index of the first transition at or after `j` guarded by exactly this
/// event.
pub open spec fn first_event_match(ts: Seq<Transition>, ev: Seq<char>, j: int) -> Option<int>
    decreases ts.len() - j,
{
    if j < 0 || j >= ts.len() {
        None
    } else if ts[j].guard matches Guard::Event(e) && e@ == ev {
        Some(j)
    } else {
        first_event_match(ts, ev, j + 1)
    }
}

/// A valid path extended by a path valid below its end is valid, and leads
/// where the two walks lead in turn.
pub proof fn lemma_path_concat(n: Node, a: Seq<usize>, b: Seq<usize>)
    requires
        path_valid(n, a),
        path_valid(node_at(n, a), b),
    ensures
        path_valid(n, a + b),
        node_at(n, a + b) == node_at(node_at(n, a), b),
    decreases a.len(),
{
    if a.len() == 0 {
        assert(a + b =~= b);
    } else {
        assert((a + b)[0] == a[0]);
        assert((a + b).skip(1) =~= a.skip(1) + b);
        lemma_path_concat(n.nodes@[a[0] as int], a.skip(1), b);
    }
}

/// A first event match is a transition index in range whose guard is that
/// event.
pub proof fn lemma_first_event_bounds(ts: Seq<Transition>, ev: Seq<char>, j: int)
    requires
        first_event_match(ts, ev, j) is Some,
    ensures
        j <= first_event_match(ts, ev, j).unwrap() < ts.len(),
        ts[first_event_match(ts, ev, j).unwrap()].guard matches Guard::Event(e) && e@ == ev,
    decreases ts.len() - j,
{
    if j < 0 || j >= ts.len() {
    } else if ts[j].guard matches Guard::Event(e) && e@ == ev {
    } else {
        lemma_first_event_bounds(ts, ev, j + 1);
    }
}

/// Concatenates two index paths.
fn path_concat(a: &Vec<usize>, b: &Vec<usize>) -> (r: Vec<usize>)
    ensures
        r@ == a@ + b@,
{
    let mut v: Vec<usize> = Vec::new();
    let n = a.len();
    let mut k: usize = 0;
    proof {
        assert(v@ =~= a@.take(0));
    }
    while k < n
        invariant
            0 <= k <= n,
            n == a@.len(),
            v@ == a@.take(k as int),
        decreases n - k,
    {
        v.push(a[k]);
        k += 1;
        proof {
            assert(a@.take(k - 1).push(a@[k - 1]) =~= a@.take(k as int));
        }
    }
    proof {
        assert(a@.take(n as int) =~= a@);
    }
    let m = b.len();
    let mut j: usize = 0;
    proof {
        assert(v@ =~= a@ + b@.take(0));
    }
    while j < m
        invariant
            0 <= j <= m,
            m == b@.len(),
            v@ == a@ + b@.take(j as int),
        decreases m - j,
    {
        v.push(b[j]);
        j += 1;
        proof {
            assert((a@ + b@.take(j - 1)).push(b@[j - 1]) =~= a@ + b@.take(j as int));
        }
    }
    proof {
        assert(b@.take(m as int) =~= b@);
    }
    v
}

/// What one transition firing will do: the ordered action calls for the
/// executor, the new active path, the text of the new current state, and the
/// vacated and entered nodes for the log.
pub struct FirePlan {
    pub actions: Seq<ActionCallV>,
    pub path: Seq<usize>,
    pub state_text: Seq<char>,
    pub from: NodeId,
    pub to: NodeId,
}

/// The outcome of firing the active node's transition at `i`: the target is
/// located in the chart, its default chain is resolved, the machine's and the
/// final node's addresses are validated, and the exit, transition and entry
/// actions are sequenced around the nearest common ancestor.
pub open spec fn fire_plan(m: StateMachine, i: int) -> Result<FirePlan, StateChartError> {
    let t = m.active_node().out_transitions@[i];
    match locate(m.chart(), t.to@) {
        None => Err(StateChartError::UnresolvedTarget(t.to)),
        Some(tp) => match default_chain(node_at(m.chart(), tp)) {
            None => Err(StateChartError::NoRoot),
            Some(chain) => {
                let full = tp + chain;
                let fin = node_at(m.chart(), full);
                if !state_text_wf(m.spec_id().0@) {
                    Err(StateChartError::InvalidStateId(m.spec_id()))
                } else if !node_text_wf(fin.id.0@) {
                    Err(StateChartError::InvalidNodeId(fin.id))
                } else {
                    let lca = lcp_from(m.active_path(), tp, 0);
                    Ok(
                        FirePlan {
                            actions: exit_actions(m.chart(), m.active_path(), lca)
                                + opt_action_view(t.action) + entry_actions(m.chart(), full, lca),
                            path: full,
                            state_text: sms_prefix() + instance_of(m.spec_id().0@) + seq!['/']
                                + fin.id.0@.skip(7),
                            from: m.active_node().id,
                            to: fin.id,
                        },
                    )
                }
            },
        },
    }
}

impl StateMachine {
    /// Computes everything a firing will do, without touching the machine.
    fn compute_fire(&self, index: usize) -> (r: Result<
        (Vec<ActionCall>, Vec<usize>, StateId, NodeId, NodeId),
        StateChartError,
    >)
        requires
            index < self.active_node().out_transitions@.len(),
        ensures
            match fire_plan(*self, index as int) {
                Err(e) => r matches Err(x) && x == e,
                Ok(plan) => r matches Ok(x) && x.0.deep_view() == plan.actions && x.1@ == plan.path
                    && x.2.0@ == plan.state_text && x.3 == plan.from && x.4 == plan.to
                    && path_valid(self.chart(), plan.path),
            },
    {
        proof {
            use_type_invariant(&*self);
            assert(self.active@.take(self.active@.len() as int) =~= self.active@);
        }
        let ghost chart = self.state_chart;
        let active_node = node_at_prefix(&self.state_chart, &self.active, self.active.len());
        let t = &active_node.out_transitions[index];
        let tp = match locate_node(&self.state_chart, &t.to) {
            None => {
                return Err(StateChartError::UnresolvedTarget(t.to.clone()));
            },
            Some(tp) => tp,
        };
        proof {
            lemma_locate_valid(chart, t.to@);
            assert(tp@.take(tp@.len() as int) =~= tp@);
        }
        let target = node_at_prefix(&self.state_chart, &tp, tp.len());
        let chain = match resolve_chain(target) {
            None => {
                return Err(StateChartError::NoRoot);
            },
            Some(c) => c,
        };
        let full = path_concat(&tp, &chain);
        proof {
            lemma_default_chain_valid(*target);
            lemma_path_concat(chart, tp@, chain@);
            assert(full@.take(full@.len() as int) =~= full@);
        }
        let fin = node_at_prefix(&self.state_chart, &full, full.len());
        let current = match StateId::new_with_node(&self.id, &fin.id) {
            Ok(c) => c,
            Err(e) => {
                return Err(e);
            },
        };
        let lca = lcp_exec(&self.active, &tp);
        proof {
            lemma_lcp_bounds(self.active@, tp@, 0);
        }
        // exit actions, innermost first, down to but excluding the common
        // ancestor
        let mut acts: Vec<ActionCall> = Vec::new();
        let mut k: usize = self.active.len();
        proof {
            assert(acts.deep_view() =~= Seq::<ActionCallV>::empty());
            assert(Seq::<ActionCallV>::empty() + exit_actions(chart, self.active@, lca as int)
                =~= exit_actions(chart, self.active@, lca as int));
        }
        while k > lca
            invariant
                lca <= k <= self.active@.len(),
                path_valid(chart, self.active@),
                chart == self.state_chart,
                exit_actions(chart, self.active@, lca as int) == acts.deep_view() + exit_actions(
                    chart,
                    self.active@.take(k as int),
                    lca as int,
                ),
            decreases k,
        {
            proof {
                lemma_path_valid_prefix(chart, self.active@, k as int);
            }
            let node = node_at_prefix(&self.state_chart, &self.active, k);
            let ghost prev = acts.deep_view();
            match &node.on_exit {
                Some(a) => {
                    let c = a.clone();
                    acts.push(c);
                    proof {
                        assert(acts.deep_view() =~= prev + opt_action_view(node.on_exit));
                    }
                },
                None => {
                    proof {
                        assert(acts.deep_view() =~= prev + opt_action_view(node.on_exit));
                    }
                },
            }
            k -= 1;
            proof {
                assert(self.active@.take(k + 1).take(k as int) =~= self.active@.take(k as int));
                assert(prev + (opt_action_view(node_at(chart, self.active@.take(k + 1)).on_exit)
                    + exit_actions(chart, self.active@.take(k as int), lca as int))
                    =~= acts.deep_view() + exit_actions(
                    chart,
                    self.active@.take(k as int),
                    lca as int,
                ));
            }
        }
        proof {
            assert(exit_actions(chart, self.active@.take(lca as int), lca as int)
                =~= Seq::<ActionCallV>::empty());
            assert(acts.deep_view() + Seq::<ActionCallV>::empty() =~= acts.deep_view());
        }
        // the transition's own action
        let ghost exits = acts.deep_view();
        {
            let ghost prev = acts.deep_view();
            match &t.action {
                Some(a) => {
                    let c = a.clone();
                    acts.push(c);
                    proof {
                        assert(acts.deep_view() =~= prev + opt_action_view(t.action));
                    }
                },
                None => {
                    proof {
                        assert(acts.deep_view() =~= prev + opt_action_view(t.action));
                    }
                },
            }
        }
        // entry actions from below the common ancestor down to the chain's
        // final node, outermost first
        let ghost base = acts.deep_view();
        let mut k2: usize = lca;
        let n2 = full.len();
        proof {
            assert(base + entry_actions(chart, full@, lca as int) =~= acts.deep_view()
                + entry_actions(chart, full@, k2 as int));
        }
        while k2 < n2
            invariant
                lca <= k2 <= n2,
                n2 == full@.len(),
                chart == self.state_chart,
                path_valid(chart, full@),
                base + entry_actions(chart, full@, lca as int) == acts.deep_view()
                    + entry_actions(chart, full@, k2 as int),
            decreases n2 - k2,
    {
        proof {
            lemma_path_valid_prefix(chart, full@, k2 + 1);
        }
        let node = node_at_prefix(&self.state_chart, &full, k2 + 1);
        let ghost prev = acts.deep_view();
        match &node.on_entry {
            Some(a) => {
                let c = a.clone();
                acts.push(c);
                proof {
                    assert(acts.deep_view() =~= prev + opt_action_view(node.on_entry));
                }
            },
            None => {
                proof {
                    assert(acts.deep_view() =~= prev + opt_action_view(node.on_entry));
                }
            },
        }
        k2 += 1;
        proof {
            assert(prev + (opt_action_view(node_at(chart, full@.take(k2 as int)).on_entry)
                + entry_actions(chart, full@, k2 as int)) =~= acts.deep_view() + entry_actions(
                chart,
                full@,
                k2 as int,
            ));
        }
    }
        proof {
            assert(entry_actions(chart, full@, n2 as int) =~= Seq::<ActionCallV>::empty());
            assert(acts.deep_view() + Seq::<ActionCallV>::empty() =~= acts.deep_view());
            assert(acts.deep_view() =~= exits + opt_action_view(t.action) + entry_actions(
                chart,
                full@,
                lca as int,
            ));
        }
        let from = active_node.id.clone();
        let to = fin.id.clone();
        Ok((acts, full, current, from, to))
    }

    /// Fires the transition at `index` of the active node's list, whatever
    /// its guard: runs the commit and returns the ordered action calls for
    /// the executor. A failure leaves the machine untouched.
    pub fn fire_transition(&mut self, index: usize) -> (r: Result<Vec<ActionCall>, StateChartError>)
        ensures
            index >= old(self).active_node().out_transitions@.len() ==> (r matches Err(e)
                && e is NoSuchTransition && *final(self) == *old(self)),
            index < old(self).active_node().out_transitions@.len() ==> match fire_plan(
                *old(self),
                index as int,
            ) {
                Err(e) => r matches Err(x) && x == e && *final(self) == *old(self),
                Ok(plan) => r matches Ok(v) && {
                    let m0 = *old(self);
                    let m1 = *final(self);
                    &&& v.deep_view() == plan.actions
                    &&& m1.chart() == m0.chart()
                    &&& m1.spec_id() == m0.spec_id()
                    &&& m1.spec_bindings() == m0.spec_bindings()
                    &&& m1.active_path() == plan.path
                    &&& m1.spec_current_state().0@ == plan.state_text
                    &&& m1.spec_log() == m0.spec_log().push(
                        LogEntryType::Transition(plan.from, plan.to),
                    )
                },
            },
    {
        proof {
            use_type_invariant(&*self);
            assert(self.active@.take(self.active@.len() as int) =~= self.active@);
        }
        let active_node = node_at_prefix(&self.state_chart, &self.active, self.active.len());
        if index >= active_node.out_transitions.len() {
            return Err(StateChartError::NoSuchTransition);
        }
        let (acts, path, current, from, to) = match self.compute_fire(index) {
            Ok(x) => x,
            Err(e) => {
                return Err(e);
            },
        };
        let mut lg = StateMachineLog::init();
        core::mem::swap(&mut lg, &mut self.log);
        lg.log(LogEntryType::Transition(from, to));
        core::mem::swap(&mut lg, &mut self.log);
        self.current_state = current;
        self.active = path;
        Ok(acts)
    }

    /// Dispatches an external event: scans the active node's transitions in
    /// declared order, fires the first whose guard is exactly this event,
    /// and returns the ordered action calls for the executor. The event is
    /// logged whether or not it matches; a no-match is a no-op. A failing
    /// commit leaves the machine untouched, the log included.
    pub fn send(&mut self, event_id: &str) -> (r: Result<Vec<ActionCall>, StateChartError>)
        ensures
            match first_event_match(old(self).active_node().out_transitions@, event_id@, 0) {
                None => r matches Ok(v) && {
                    let m0 = *old(self);
                    let m1 = *final(self);
                    &&& v@.len() == 0
                    &&& m1.chart() == m0.chart()
                    &&& m1.spec_id() == m0.spec_id()
                    &&& m1.spec_current_state() == m0.spec_current_state()
                    &&& m1.active_path() == m0.active_path()
                    &&& m1.spec_bindings() == m0.spec_bindings()
                    &&& m1.spec_log().len() == m0.spec_log().len() + 1
                    &&& m1.spec_log().take(m0.spec_log().len() as int) == m0.spec_log()
                    &&& (m1.spec_log().last() matches LogEntryType::Event(e) && e@ == event_id@)
                },
                Some(i) => match fire_plan(*old(self), i) {
                    Err(e) => r matches Err(x) && x == e && *final(self) == *old(self),
                    Ok(plan) => r matches Ok(v) && {
                        let m0 = *old(self);
                        let m1 = *final(self);
                        &&& v.deep_view() == plan.actions
                        &&& m1.chart() == m0.chart()
                        &&& m1.spec_id() == m0.spec_id()
                        &&& m1.spec_bindings() == m0.spec_bindings()
                        &&& m1.active_path() == plan.path
                        &&& m1.spec_current_state().0@ == plan.state_text
                        &&& m1.spec_log().len() == m0.spec_log().len() + 2
                        &&& m1.spec_log().take(m0.spec_log().len() as int) == m0.spec_log()
                        &&& (m1.spec_log()[m0.spec_log().len() as int] matches LogEntryType::Event(
                            e,
                        ) && e@ == event_id@)
                        &&& m1.spec_log().last() == LogEntryType::Transition(plan.from, plan.to)
                    },
                },
            },
    {
        proof {
            use_type_invariant(&*self);
        }
        let found = self.find_event_transition(event_id);
        let i = match found {
            None => {
                let mut lg = StateMachineLog::init();
                core::mem::swap(&mut lg, &mut self.log);
                lg.log(LogEntryType::Event(event_id.to_owned()));
                core::mem::swap(&mut lg, &mut self.log);
                proof {
                    assert(self.log.entries@.take(self.log.entries@.len() - 1)
                        =~= old(self).spec_log());
                }
                return Ok(Vec::new());
            },
            Some(i) => i,
        };
        proof {
            lemma_first_event_bounds(self.active_node().out_transitions@, event_id@, 0);
        }
        let (acts, path, current, from, to) = match self.compute_fire(i) {
            Ok(x) => x,
            Err(e) => {
                return Err(e);
            },
        };
        let mut lg = StateMachineLog::init();
        core::mem::swap(&mut lg, &mut self.log);
        lg.log(LogEntryType::Event(event_id.to_owned()));
        lg.log(LogEntryType::Transition(from, to));
        core::mem::swap(&mut lg, &mut self.log);
        self.current_state = current;
        self.active = path;
        Ok(acts)
    }
}

/// Walks two paths as long as they agree.
fn lcp_exec(a: &Vec<usize>, b: &Vec<usize>) -> (r: usize)
    ensures
        r as int == lcp_from(a@, b@, 0),
        r <= a@.len(),
        r <= b@.len(),
{
    let an = a.len();
    let bn = b.len();
    let mut j: usize = 0;
    while j < an && j < bn && a[j] == b[j]
        invariant
            0 <= j,
            j <= an,
            j <= bn,
            an == a@.len(),
            bn == b@.len(),
            lcp_from(a@, b@, 0) == lcp_from(a@, b@, j as int),
        decreases an - j,
    {
        j += 1;
    }
    j
}

// ---------------------------------------------------------------------------
// Variables: scopes, bindings and resolution
// ---------------------------------------------------------------------------
/// The first declaration at or after `j` of the named variable.
pub open spec fn decl_index(ds: Seq<VariableDeclaration>, name: Seq<char>, j: int) -> Option<int>
    decreases ds.len() - j,
{
    if j < 0 || j >= ds.len() {
        None
    } else if ds[j].name@ == name {
        Some(j)
    } else {
        decl_index(ds, name, j + 1)
    }
}

pub proof fn lemma_decl_index_bounds(ds: Seq<VariableDeclaration>, name: Seq<char>, j: int)
    requires
        decl_index(ds, name, j) is Some,
    ensures
        j <= decl_index(ds, name, j).unwrap() < ds.len(),
        ds[decl_index(ds, name, j).unwrap()].name@ == name,
    decreases ds.len() - j,
{
    if j < 0 || j >= ds.len() {
    } else if ds[j].name@ == name {
    } else {
        lemma_decl_index_bounds(ds, name, j + 1);
    }
}

/// The first binding at or after `j` owned by the scope node and naming the
/// variable.
pub open spec fn binding_index(bs: Seq<Binding>, node: Seq<char>, name: Seq<char>, j: int) -> Option<
    int,
>
    decreases bs.len() - j,
{
    if j < 0 || j >= bs.len() {
        None
    } else if bs[j].node.0@ == node && bs[j].name@ == name {
        Some(j)
    } else {
        binding_index(bs, node, name, j + 1)
    }
}

pub proof fn lemma_binding_index_bounds(bs: Seq<Binding>, node: Seq<char>, name: Seq<char>, j: int)
    requires
        binding_index(bs, node, name, j) is Some,
    ensures
        j <= binding_index(bs, node, name, j).unwrap() < bs.len(),
        bs[binding_index(bs, node, name, j).unwrap()].node.0@ == node,
        bs[binding_index(bs, node, name, j).unwrap()].name@ == name,
    decreases bs.len() - j,
{
    if j < 0 || j >= bs.len() {
    } else if bs[j].node.0@ == node && bs[j].name@ == name {
    } else {
        lemma_binding_index_bounds(bs, node, name, j + 1);
    }
}

/// The deepest prefix length at most `k` whose node declares the variable:
/// the nearest enclosing scope, searching the active node then outward.
pub open spec fn scope_at_or_below(m: StateMachine, name: Seq<char>, k: int) -> Option<int>
    decreases k + 1,
{
    if k < 0 {
        None
    } else if decl_index(node_at(m.chart(), m.active_path().take(k)).attributes@, name, 0)
        is Some {
        Some(k)
    } else {
        scope_at_or_below(m, name, k - 1)
    }
}

/// The nearest enclosing scope of the variable, from the active node to the
/// root.
pub open spec fn scope_of(m: StateMachine, name: Seq<char>) -> Option<int> {
    scope_at_or_below(m, name, m.active_path().len() as int)
}

pub proof fn lemma_scope_props(m: StateMachine, name: Seq<char>, k: int)
    requires
        0 <= k,
        scope_at_or_below(m, name, k) is Some,
    ensures
        0 <= scope_at_or_below(m, name, k).unwrap() <= k,
        decl_index(
            node_at(m.chart(), m.active_path().take(scope_at_or_below(m, name, k).unwrap())).attributes@,
            name,
            0,
        ) is Some,
    decreases k + 1,
{
    if decl_index(node_at(m.chart(), m.active_path().take(k)).attributes@, name, 0) is Some {
    } else {
        lemma_scope_props(m, name, k - 1);
    }
}

/// The current value of the variable: the binding of its nearest enclosing
/// scope if one was set, else that scope's declared initial value.
pub open spec fn current_value(m: StateMachine, name: Seq<char>) -> Option<VariableValue> {
    match scope_of(m, name) {
        None => None,
        Some(k) => {
            let scope = node_at(m.chart(), m.active_path().take(k));
            match binding_index(m.spec_bindings(), scope.id.0@, name, 0) {
                Some(b) => Some(m.spec_bindings()[b].value),
                None => {
                    let d = decl_index(scope.attributes@, name, 0).unwrap();
                    Some(scope.attributes@[d].value)
                },
            }
        },
    }
}

/// A parameter with a declared-variable reference resolved to its current
/// bound value; a name no scope declares stays as written.
pub open spec fn resolved_param_v(m: StateMachine, p: Parameter) -> ParameterV {
    ParameterV {
        name: p.name@,
        value: match current_value(m, p.name@) {
            Some(v) => v@,
            None => p.value@,
        },
    }
}

/// A predicate call with every parameter resolved.
pub open spec fn resolved_call_v(m: StateMachine, pc: PredicateCall) -> PredicateCallV {
    PredicateCallV {
        name: pc.name@,
        parameters: Seq::new(pc.parameters@.len(), |i: int| resolved_param_v(m, pc.parameters@[i])),
    }
}

/// The predicate-guarded transitions of the active node at or after `j`, in
/// declared order, each with its resolved call.
pub open spec fn pred_candidates(m: StateMachine, j: int) -> Seq<(int, PredicateCallV)>
    decreases m.active_node().out_transitions@.len() - j,
{
    let ts = m.active_node().out_transitions@;
    if j < 0 || j >= ts.len() {
        Seq::empty()
    } else {
        match ts[j].guard {
            Guard::Predicate(pc) => seq![(j, resolved_call_v(m, pc))] + pred_candidates(m, j + 1),
            Guard::Event(_) => pred_candidates(m, j + 1),
        }
    }
}

/// The views of a collected candidate list.
pub open spec fn cand_views(cs: Seq<(usize, PredicateCall)>) -> Seq<(int, PredicateCallV)> {
    Seq::new(cs.len(), |q: int| (cs[q].0 as int, cs[q].1@))
}

/// Finds the first declaration of the named variable.
fn find_decl(ds: &Vec<VariableDeclaration>, name: &str) -> (r: Option<usize>)
    ensures
        match r {
            Some(i) => decl_index(ds@, name@, 0) == Some(i as int),
            None => decl_index(ds@, name@, 0) is None,
        },
{
    let n = ds.len();
    let mut j: usize = 0;
    while j < n
        invariant
            0 <= j <= n,
            n == ds@.len(),
            decl_index(ds@, name@, 0) == decl_index(ds@, name@, j as int),
        decreases n - j,
    {
        if str_eq(ds[j].name.as_str(), name) {
            return Some(j);
        }
        j += 1;
    }
    None
}

/// Finds the first binding owned by the scope node and naming the variable.
fn find_binding(bs: &Vec<Binding>, node_id: &NodeId, name: &str) -> (r: Option<usize>)
    ensures
        match r {
            Some(i) => binding_index(bs@, node_id.0@, name@, 0) == Some(i as int),
            None => binding_index(bs@, node_id.0@, name@, 0) is None,
        },
{
    let n = bs.len();
    let mut j: usize = 0;
    while j < n
        invariant
            0 <= j <= n,
            n == bs@.len(),
            binding_index(bs@, node_id.0@, name@, 0) == binding_index(bs@, node_id.0@, name@, j as int),
        decreases n - j,
    {
        if str_eq(bs[j].node.0.as_str(), node_id.0.as_str()) && str_eq(bs[j].name.as_str(), name) {
            return Some(j);
        }
        j += 1;
    }
    None
}

impl StateMachine {
    /// The prefix length of the nearest enclosing scope declaring the
    /// variable, searching the active node then outward through its
    /// ancestors.
    fn find_scope(&self, name: &str) -> (r: Option<usize>)
        ensures
            match scope_of(*self, name@) {
                Some(k) => r matches Some(u) && u as int == k,
                None => r is None,
            },
    {
        proof {
            use_type_invariant(&*self);
        }
        let mut k: usize = self.active.len();
        loop
            invariant
                k <= self.active@.len(),
                path_valid(self.state_chart, self.active@),
                scope_of(*self, name@) == scope_at_or_below(*self, name@, k as int),
            decreases k,
        {
            proof {
                lemma_path_valid_prefix(self.state_chart, self.active@, k as int);
            }
            let node = node_at_prefix(&self.state_chart, &self.active, k);
            let found = find_decl(&node.attributes, name);
            proof {
                assert(node == node_at(self.chart(), self.active_path().take(k as int)));
            }
            if found.is_some() {
                return Some(k);
            }
            proof {
                assert(decl_index(node.attributes@, name@, 0) is None);
                assert(scope_at_or_below(*self, name@, k as int) == scope_at_or_below(
                    *self,
                    name@,
                    k as int - 1,
                ));
            }
            if k == 0 {
                return None;
            }
            k -= 1;
        }
    }

    /// The current value of the variable on the active-node-to-root path, if
    /// any scope on it declares the name.
    pub fn variable_value(&self, name: &str) -> (r: Option<VariableValue>)
        ensures
            match current_value(*self, name@) {
                Some(v) => r matches Some(x) && x == v,
                None => r is None,
            },
    {
        proof {
            use_type_invariant(&*self);
        }
        let k = match self.find_scope(name) {
            None => {
                return None;
            },
            Some(k) => k,
        };
        proof {
            lemma_scope_props(*self, name@, self.active@.len() as int);
            lemma_path_valid_prefix(self.state_chart, self.active@, k as int);
        }
        let scope_node = node_at_prefix(&self.state_chart, &self.active, k);
        match find_binding(&self.bindings, &scope_node.id, name) {
            Some(b) => {
                proof {
                    lemma_binding_index_bounds(self.bindings@, scope_node.id.0@, name@, 0);
                }
                Some(self.bindings[b].value.clone())
            },
            None => {
                let d = match find_decl(&scope_node.attributes, name) {
                    Some(d) => d,
                    None => {
                        proof {
                            assert(false);
                        }
                        return None;
                    },
                };
                proof {
                    lemma_decl_index_bounds(scope_node.attributes@, name@, 0);
                }
                Some(scope_node.attributes[d].value.clone())
            },
        }
    }

    /// The predicate call with its declared-variable references resolved to
    /// their current bound values.
    fn resolve_call(&self, pc: &PredicateCall) -> (r: PredicateCall)
        ensures
            r@ == resolved_call_v(*self, *pc),
    {
        let n = pc.parameters.len();
        let mut ps: Vec<Parameter> = Vec::new();
        let mut i: usize = 0;
        while i < n
            invariant
                0 <= i <= n,
                n == pc.parameters@.len(),
                ps@.len() == i,
                forall|q: int| 0 <= q < i ==> (#[trigger] ps@[q])@ == resolved_param_v(
                    *self,
                    pc.parameters@[q],
                ),
            decreases n - i,
        {
            let p = &pc.parameters[i];
            let val = match self.variable_value(p.name.as_str()) {
                Some(v) => v,
                None => p.value.clone(),
            };
            let np = Parameter { name: p.name.clone(), value: val };
            let ghost gnp = np;
            let ghost prevv = ps@;
            ps.push(np);
            proof {
                assert(ps@ == prevv.push(gnp));
                assert(gnp@ == resolved_param_v(*self, pc.parameters@[i as int]));
                assert(forall|q: int| 0 <= q < i ==> ps@[q] == prevv[q]);
            }
            i += 1;
        }
        proof {
            assert forall|q: int| 0 <= q < pc.parameters@.len() implies ps.deep_view()[q]
                == resolved_param_v(*self, pc.parameters@[q]) by {
                assert(ps.deep_view()[q] == ps@[q]@);
            }
            assert(ps.deep_view() =~= Seq::new(
                pc.parameters@.len(),
                |q: int| resolved_param_v(*self, pc.parameters@[q]),
            ));
        }
        PredicateCall { name: pc.name.clone(), parameters: ps }
    }

    /// Sets the variable in its nearest enclosing scope, logs the setting,
    /// and returns the predicate-guarded transitions of the active node in
    /// declared order, each with its call resolved against the new bindings:
    /// the caller evaluates them in order and fires the first that holds.
    /// A name undeclared on the whole active-node-to-root path fails and
    /// leaves the machine untouched.
    pub fn set_variable(&mut self, name: &str, value: VariableValue) -> (r: Result<
        Vec<(usize, PredicateCall)>,
        StateChartError,
    >)
        ensures
            scope_of(*old(self), name@) is None ==> (r matches Err(e) && (e matches
            StateChartError::UndeclaredVariable(n) && n@ == name@) && *final(self) == *old(self)),
            scope_of(*old(self), name@) matches Some(k) ==> (r matches Ok(v) && {
                let m0 = *old(self);
                let m1 = *final(self);
                let scope = node_at(m0.chart(), m0.active_path().take(k));
                &&& m1.chart() == m0.chart()
                &&& m1.spec_id() == m0.spec_id()
                &&& m1.spec_current_state() == m0.spec_current_state()
                &&& m1.active_path() == m0.active_path()
                &&& match binding_index(m0.spec_bindings(), scope.id.0@, name@, 0) {
                    Some(b) => m1.spec_bindings() == m0.spec_bindings().update(
                        b,
                        Binding {
                            node: m0.spec_bindings()[b].node,
                            name: m0.spec_bindings()[b].name,
                            value,
                        },
                    ),
                    None => {
                        &&& m1.spec_bindings().len() == m0.spec_bindings().len() + 1
                        &&& m1.spec_bindings().take(m0.spec_bindings().len() as int)
                            == m0.spec_bindings()
                        &&& m1.spec_bindings().last().node.0@ == scope.id.0@
                        &&& m1.spec_bindings().last().name@ == name@
                        &&& m1.spec_bindings().last().value == value
                    },
                }
                &&& m1.spec_log().len() == m0.spec_log().len() + 1
                &&& m1.spec_log().take(m0.spec_log().len() as int) == m0.spec_log()
                &&& (m1.spec_log().last() matches LogEntryType::VariableSetting(n, t) && n@
                    == name@ && t@ == value.spec_text())
                &&& v@.len() == pred_candidates(m1, 0).len()
                &&& forall|q: int|
                    0 <= q < v@.len() ==> (#[trigger] v@[q]).0 as int == pred_candidates(m1, 0)[q].0
                        && v@[q].1@ == pred_candidates(m1, 0)[q].1
            }),
    {
        proof {
            use_type_invariant(&*self);
        }
        let k = match self.find_scope(name) {
            None => {
                return Err(StateChartError::UndeclaredVariable(name.to_owned()));
            },
            Some(k) => k,
        };
        proof {
            lemma_scope_props(*self, name@, self.active@.len() as int);
            lemma_path_valid_prefix(self.state_chart, self.active@, k as int);
        }
        let text = value.to_text();
        let scope_id = {
            let scope_node = node_at_prefix(&self.state_chart, &self.active, k);
            scope_node.id.clone()
        };
        let bidx = find_binding(&self.bindings, &scope_id, name);
        let mut bs: Vec<Binding> = Vec::new();
        core::mem::swap(&mut bs, &mut self.bindings);
        match bidx {
            Some(b) => {
                proof {
                    lemma_binding_index_bounds(bs@, scope_id.0@, name@, 0);
                }
                let nb = Binding { node: bs[b].node.clone(), name: bs[b].name.clone(), value };
                bs.set(b, nb);
            },
            None => {
                bs.push(Binding { node: scope_id, name: name.to_owned(), value });
            },
        }
        core::mem::swap(&mut bs, &mut self.bindings);
        let mut lg = StateMachineLog::init();
        core::mem::swap(&mut lg, &mut self.log);
        lg.log(LogEntryType::VariableSetting(name.to_owned(), text));
        core::mem::swap(&mut lg, &mut self.log);
        proof {
            assert(self.log.entries@.take(self.log.entries@.len() - 1) =~= old(self).spec_log());
        }
        // re-scan the active node's predicate-guarded transitions against
        // the new bindings
        proof {
            assert(self.active@.take(self.active@.len() as int) =~= self.active@);
        }
        let node = node_at_prefix(&self.state_chart, &self.active, self.active.len());
        let n = node.out_transitions.len();
        let mut cands: Vec<(usize, PredicateCall)> = Vec::new();
        let mut j: usize = 0;
        proof {
            assert(cand_views(cands@) =~= Seq::<(int, PredicateCallV)>::empty());
            assert(Seq::<(int, PredicateCallV)>::empty() + pred_candidates(*self, 0)
                =~= pred_candidates(*self, 0));
        }
        while j < n
            invariant
                0 <= j <= n,
                n == node.out_transitions@.len(),
                node == (*self).active_node(),
                pred_candidates(*self, 0) == cand_views(cands@) + pred_candidates(*self, j as int),
            decreases n - j,
        {
            let ghost prev = cand_views(cands@);
            match &node.out_transitions[j].guard {
                Guard::Predicate(pc) => {
                    let resolved = self.resolve_call(pc);
                    cands.push((j, resolved));
                    proof {
                        assert(cand_views(cands@) =~= prev.push(
                            (j as int, resolved_call_v(*self, *pc)),
                        ));
                        match node.out_transitions@[j as int].guard {
                            Guard::Predicate(spc) => {
                                assert(prev + (seq![(j as int, resolved_call_v(*self, spc))]
                                    + pred_candidates(*self, j + 1)) =~= cand_views(cands@)
                                    + pred_candidates(*self, j + 1));
                            },
                            Guard::Event(_) => {},
                        }
                    }
                },
                Guard::Event(_) => {},
            }
            j += 1;
        }
        proof {
            assert(pred_candidates(*self, n as int) =~= Seq::<(int, PredicateCallV)>::empty());
            assert(cand_views(cands@) + Seq::<(int, PredicateCallV)>::empty() =~= cand_views(
                cands@,
            ));
        }
        Ok(cands)
    }
}

} // verus!
