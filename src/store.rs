use vstd::prelude::*;

use std::collections::HashMap;

use crate::decision::IssueDecisionState;

verus! {

broadcast use vstd::std_specs::hash::group_hash_axioms;

/// Why the state store refused a write.
#[derive(Debug, Clone, Copy, PartialEq, Eq, Structural)]
pub enum StoreError {
    /// The issue has a live decision already.
    Conflict,
    /// The issue has no live decision to replace.
    NotFound,
}

/// The live decisions, at most one per issue.
pub struct DecisionStore {
    states: HashMap<u64, IssueDecisionState>,
}

impl View for DecisionStore {
    type V = Map<u64, IssueDecisionState>;

    closed spec fn view(&self) -> Map<u64, IssueDecisionState> {
        self.states@
    }
}

/// The store after inserting `state`: the write and the map it leaves.
pub open spec fn insert_outcome(m: Map<u64, IssueDecisionState>, state: IssueDecisionState) -> (
    Result<(), StoreError>,
    Map<u64, IssueDecisionState>,
) {
    if m.contains_key(state.issue_id) {
        (Err(StoreError::Conflict), m)
    } else {
        (Ok(()), m.insert(state.issue_id, state))
    }
}

impl DecisionStore {
    /// Each decision is filed under its own issue and is well formed.
    pub open spec fn wf_map(m: Map<u64, IssueDecisionState>) -> bool {
        forall|id: u64| #[trigger] m.contains_key(id) ==> m[id].issue_id == id && m[id].wf()
    }

    pub open spec fn wf(&self) -> bool {
        Self::wf_map(self@)
    }

    pub fn new() -> (r: DecisionStore)
        ensures
            r.wf(),
            r@ == Map::<u64, IssueDecisionState>::empty(),
    {
        DecisionStore { states: HashMap::new() }
    }

    /// The live decision on issue `issue_id`, if any.
    pub fn get(&self, issue_id: u64) -> (r: Option<&IssueDecisionState>)
        ensures
            r matches Some(st) ==> self@.contains_key(issue_id) && *st == self@[issue_id],
            r is None ==> !self@.contains_key(issue_id),
    {
        self.states.get(&issue_id)
    }

    /// Files a new decision; refused with `Conflict`, the store unchanged, when its
    /// issue has one already.
    pub fn insert(&mut self, state: IssueDecisionState) -> (r: Result<(), StoreError>)
        requires
            old(self).wf(),
            state.wf(),
        ensures
            final(self).wf(),
            (r, final(self)@) == insert_outcome(old(self)@, state),
    {
        if self.states.contains_key(&state.issue_id) {
            Err(StoreError::Conflict)
        } else {
            let id = state.issue_id;
            self.states.insert(id, state);
            Ok(())
        }
    }

    /// Replaces the live decision of `state`'s issue; refused with `NotFound`, the
    /// store unchanged, when that issue has none.
    pub fn replace(&mut self, state: IssueDecisionState) -> (r: Result<(), StoreError>)
        requires
            old(self).wf(),
            state.wf(),
        ensures
            final(self).wf(),
            old(self)@.contains_key(state.issue_id) ==> r is Ok && final(self)@ == old(
                self,
            )@.insert(state.issue_id, state),
            !old(self)@.contains_key(state.issue_id) ==> r == Err::<(), StoreError>(
                StoreError::NotFound,
            ) && final(self)@ == old(self)@,
    {
        if self.states.contains_key(&state.issue_id) {
            let id = state.issue_id;
            self.states.insert(id, state);
            Ok(())
        } else {
            Err(StoreError::NotFound)
        }
    }
}

/// Once a decision has been filed for an issue, every further insert for that issue is
/// refused as a conflict and leaves the store as it was, whatever else it holds.
pub proof fn lemma_one_live_decision_per_issue(
    m: Map<u64, IssueDecisionState>,
    first: IssueDecisionState,
    second: IssueDecisionState,
)
    requires
        first.issue_id == second.issue_id,
        insert_outcome(m, first).0 is Ok,
    ensures
        insert_outcome(insert_outcome(m, first).1, second) == (
            Err::<(), StoreError>(StoreError::Conflict),
            insert_outcome(m, first).1,
        ),
{
    assert(insert_outcome(m, first).1.contains_key(second.issue_id));
}

} // verus!
