//! The warehouse is the in-memory directory of chart definitions and live
//! machine instances, keyed by their own identifiers: the catalog maps a
//! definition address to its chart, the registry maps an instance address to
//! its running machine. The core stays fully operable from this state alone;
//! durable storage belongs to the persistence collaborator.

use vstd::prelude::*;
use vstd::pervasive::VecAdditionalExecFns;

use crate::ids::NodeId;
use crate::ids::StateId;
use crate::node::Node;
use crate::state_machine::StateMachine;
use crate::text::str_eq;

verus! {

/// What can go wrong when the warehouse stores something.
#[derive(Debug)]
pub enum WarehouseError {
    CannotSaveStateChart,
}

/// The first catalog entry at or after `j` stored under the id text.
pub open spec fn chart_index(s: Seq<(NodeId, Node)>, id: Seq<char>, j: int) -> Option<int>
    decreases s.len() - j,
{
    if j < 0 || j >= s.len() {
        None
    } else if s[j].0.0@ == id {
        Some(j)
    } else {
        chart_index(s, id, j + 1)
    }
}

/// The first registry entry at or after `j` stored under the id text.
pub open spec fn machine_index(s: Seq<(StateId, StateMachine)>, id: Seq<char>, j: int) -> Option<
    int,
>
    decreases s.len() - j,
{
    if j < 0 || j >= s.len() {
        None
    } else if s[j].0.0@ == id {
        Some(j)
    } else {
        machine_index(s, id, j + 1)
    }
}

pub proof fn lemma_chart_index_bounds(s: Seq<(NodeId, Node)>, id: Seq<char>, j: int)
    requires
        chart_index(s, id, j) is Some,
    ensures
        j <= chart_index(s, id, j).unwrap() < s.len(),
        s[chart_index(s, id, j).unwrap()].0.0@ == id,
    decreases s.len() - j,
{
    if j < 0 || j >= s.len() {
    } else if s[j].0.0@ == id {
    } else {
        lemma_chart_index_bounds(s, id, j + 1);
    }
}

pub proof fn lemma_machine_index_bounds(s: Seq<(StateId, StateMachine)>, id: Seq<char>, j: int)
    requires
        machine_index(s, id, j) is Some,
    ensures
        j <= machine_index(s, id, j).unwrap() < s.len(),
        s[machine_index(s, id, j).unwrap()].0.0@ == id,
    decreases s.len() - j,
{
    if j < 0 || j >= s.len() {
    } else if s[j].0.0@ == id {
    } else {
        lemma_machine_index_bounds(s, id, j + 1);
    }
}

/// The abstraction of the persistence level: the chart catalog and the
/// instance registry, as ordered association lists looked up by first match.
pub struct Warehouse {
    state_charts: Vec<(NodeId, Node)>,
    state_machines: Vec<(StateId, StateMachine)>,
}

impl Warehouse {
    /// The catalog entries, oldest first.
    pub closed spec fn charts(self) -> Seq<(NodeId, Node)> {
        self.state_charts@
    }

    /// The registry entries, oldest first.
    pub closed spec fn machines(self) -> Seq<(StateId, StateMachine)> {
        self.state_machines@
    }

    /// An empty warehouse.
    pub fn new() -> (r: Warehouse)
        ensures
            r.charts().len() == 0,
            r.machines().len() == 0,
    {
        Warehouse { state_charts: Vec::new(), state_machines: Vec::new() }
    }

    /// Copies of all catalogued charts, in storage order.
    pub fn get_all_state_charts(&self) -> (r: Vec<Node>)
        ensures
            r@.len() == self.charts().len(),
            forall|j: int| 0 <= j < r@.len() ==> (#[trigger] r@[j])@ == self.charts()[j].1@,
    {
        let n = self.state_charts.len();
        let mut r: Vec<Node> = Vec::new();
        let mut j: usize = 0;
        while j < n
            invariant
                0 <= j <= n,
                n == self.state_charts@.len(),
                r@.len() == j,
                forall|q: int| 0 <= q < j ==> (#[trigger] r@[q])@ == self.state_charts@[q].1@,
            decreases n - j,
        {
            let c = self.state_charts[j].1.clone();
            r.push(c);
            j += 1;
        }
        r
    }

    /// The catalogued chart stored under the id, if any.
    pub fn get_state_chart(&self, node_id: &NodeId) -> (r: Option<&Node>)
        ensures
            match chart_index(self.charts(), node_id.0@, 0) {
                Some(i) => r matches Some(n) && n == self.charts()[i].1,
                None => r is None,
            },
    {
        let n = self.state_charts.len();
        let mut j: usize = 0;
        while j < n
            invariant
                0 <= j <= n,
                n == self.state_charts@.len(),
                chart_index(self.state_charts@, node_id.0@, 0) == chart_index(
                    self.state_charts@,
                    node_id.0@,
                    j as int,
                ),
            decreases n - j,
        {
            let p = &self.state_charts[j];
            if str_eq(p.0.0.as_str(), node_id.0.as_str()) {
                return Some(&p.1);
            }
            j += 1;
        }
        None
    }

    /// Stores a chart under its own id, replacing any entry already stored
    /// under that id.
    pub fn save_state_chart(&mut self, node: Node) -> (r: Result<(), WarehouseError>)
        ensures
            r is Ok,
            final(self).machines() == old(self).machines(),
            match chart_index(old(self).charts(), node.id.0@, 0) {
                Some(i) => final(self).charts() == old(self).charts().update(i, (node.id, node)),
                None => final(self).charts() == old(self).charts().push((node.id, node)),
            },
    {
        let n = self.state_charts.len();
        let mut j: usize = 0;
        while j < n
            invariant
                0 <= j <= n,
                n == self.state_charts@.len(),
                self.state_charts@ == old(self).state_charts@,
                self.state_machines@ == old(self).state_machines@,
                chart_index(self.state_charts@, node.id.0@, 0) == chart_index(
                    self.state_charts@,
                    node.id.0@,
                    j as int,
                ),
            decreases n - j,
        {
            let found = str_eq(self.state_charts[j].0.0.as_str(), node.id.0.as_str());
            if found {
                let key = node.id.clone();
                self.state_charts.set(j, (key, node));
                return Ok(());
            }
            j += 1;
        }
        let key = node.id.clone();
        self.state_charts.push((key, node));
        Ok(())
    }

    /// The live machine stored under the instance address, if any.
    pub fn get_state_machine(&self, sm_id: &StateId) -> (r: Option<&StateMachine>)
        ensures
            match machine_index(self.machines(), sm_id.0@, 0) {
                Some(i) => r matches Some(m) && m == self.machines()[i].1,
                None => r is None,
            },
    {
        let n = self.state_machines.len();
        let mut j: usize = 0;
        while j < n
            invariant
                0 <= j <= n,
                n == self.state_machines@.len(),
                machine_index(self.state_machines@, sm_id.0@, 0) == machine_index(
                    self.state_machines@,
                    sm_id.0@,
                    j as int,
                ),
            decreases n - j,
        {
            let p = &self.state_machines[j];
            if str_eq(p.0.0.as_str(), sm_id.0.as_str()) {
                return Some(&p.1);
            }
            j += 1;
        }
        None
    }

    /// Stores a machine under its own instance address, replacing any entry
    /// already stored under that address.
    pub fn save_state_machine(&mut self, machine: StateMachine) -> (r: Result<(), WarehouseError>)
        ensures
            r is Ok,
            final(self).charts() == old(self).charts(),
            match machine_index(old(self).machines(), machine.spec_id().0@, 0) {
                Some(i) => final(self).machines() == old(self).machines().update(
                    i,
                    (machine.spec_id(), machine),
                ),
                None => final(self).machines() == old(self).machines().push(
                    (machine.spec_id(), machine),
                ),
            },
    {
        let key = machine.id().clone();
        let n = self.state_machines.len();
        let mut j: usize = 0;
        while j < n
            invariant
                0 <= j <= n,
                n == self.state_machines@.len(),
                self.state_charts@ == old(self).state_charts@,
                self.state_machines@ == old(self).state_machines@,
                key == machine.spec_id(),
                machine_index(self.state_machines@, machine.spec_id().0@, 0) == machine_index(
                    self.state_machines@,
                    machine.spec_id().0@,
                    j as int,
                ),
            decreases n - j,
        {
            let found = str_eq(self.state_machines[j].0.0.as_str(), key.0.as_str());
            if found {
                self.state_machines.set(j, (key, machine));
                return Ok(());
            }
            j += 1;
        }
        self.state_machines.push((key, machine));
        Ok(())
    }
}

} // verus!
