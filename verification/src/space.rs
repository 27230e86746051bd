//! The set of parameters of a run, kept in the order of their names.
//!
//! That order is the order of the flags on the objective's command line and of
//! the parameter columns in the result log.

use crate::binary64::Binary64;
use crate::param::{Observation, Param, ParamState, ParamStateView, Proposal, RangeError};
use crate::text::{ascending, compare, copy_list, lemma_precedes_total, lemma_precedes_transitive, precedes, texts, Order};
use vstd::prelude::*;
use vstd::string::*;

verus! {

/// Where a parameter stands after it was put into a set.
#[derive(Clone, Copy, Debug, PartialEq, Eq, Structural)]
pub struct Placement {
    /// Its position in the order of names.
    pub index: usize,
    /// Whether it took the place of a parameter of the same name.
    pub replaced: bool,
}

/// Why a round of proposals was not taken in.
#[derive(Clone, Copy, Debug, PartialEq, Eq, Structural)]
pub enum AskError {
    /// There is not one proposal for each parameter.
    WrongCount,
    /// The proposal at this position is outside its parameter's search space.
    OutOfRange(usize),
}

/// `p` is where `name` belongs among `names`: every name before `p` precedes
/// it, and the name at `p`, if there is one, does not.
pub open spec fn slot_of(names: Seq<Seq<char>>, name: Seq<char>, p: int) -> bool {
    &&& 0 <= p <= names.len()
    &&& forall|j: int| 0 <= j < p ==> precedes(names[j], name)
    &&& (p < names.len() ==> !precedes(names[p], name))
}

/// The texts of a list of states, as the objective sees them.
pub open spec fn shown_values(states: Seq<ParamStateView>) -> Seq<Seq<char>> {
    Seq::new(states.len(), |i: int| states[i].text())
}

/// Whether each proposal lies in the search space of the parameter at its
/// position.
pub open spec fn all_admitted(states: Seq<ParamStateView>, proposals: Seq<Proposal>) -> bool {
    &&& proposals.len() == states.len()
    &&& forall|i: int| 0 <= i < states.len() ==> states[i].param.admits(proposals[i].value)
}

/// The states once each has taken in the proposal at its position.
pub open spec fn with_proposals(states: Seq<ParamStateView>, proposals: Seq<Proposal>) -> Seq<
    ParamStateView,
> {
    Seq::new(states.len(), |i: int| states[i].with(proposals[i].value, proposals[i].text@))
}

/// What the optimizers are told for a score, one observation per state.
pub open spec fn observations(states: Seq<ParamStateView>, score: Binary64) -> Seq<Observation> {
    Seq::new(states.len(), |i: int| (Observation { value: states[i].value, score }))
}

/// The parameters of a run with their states, in the order of their names.
#[derive(Debug)]
pub struct ParamSet {
    names: Vec<String>,
    states: Vec<ParamState>,
}

impl ParamSet {
    /// The names, in order.
    pub closed spec fn names(&self) -> Seq<Seq<char>> {
        texts(self.names@)
    }

    /// The states, each at the position of its name.
    pub closed spec fn states(&self) -> Seq<ParamStateView> {
        Seq::new(self.states@.len(), |i: int| self.states@[i]@)
    }

    /// Every name has a state, the names ascend strictly (so none occurs
    /// twice), and every state is sound.
    pub open spec fn wf(&self) -> bool {
        &&& self.names().len() == self.states().len()
        &&& ascending(self.names())
        &&& forall|i: int| 0 <= i < self.states().len() ==> (#[trigger] self.states()[i]).wf()
    }

    /// A set without parameters.
    pub fn new() -> (r: ParamSet)
        ensures
            r.wf(),
            r.names() == Seq::<Seq<char>>::empty(),
            r.states() == Seq::<ParamStateView>::empty(),
    {
        let r = ParamSet { names: Vec::new(), states: Vec::new() };
        r
    }

    /// The number of parameters.
    pub fn len(&self) -> (r: usize)
        requires
            self.wf(),
        ensures
            r == self.names().len(),
            r == self.states().len(),
    {
        self.names.len()
    }

    /// The name at a position.
    pub fn name(&self, i: usize) -> (r: &String)
        requires
            self.wf(),
            i < self.names().len(),
        ensures
            r@ == self.names()[i as int],
    {
        &self.names[i]
    }

    /// The state at a position.
    pub fn state(&self, i: usize) -> (r: &ParamState)
        requires
            self.wf(),
            i < self.states().len(),
        ensures
            r@ == self.states()[i as int],
    {
        &self.states[i]
    }

    /// Finds where a name belongs, and whether it is already there.
    fn locate(&self, name: &str) -> (r: Placement)
        requires
            self.wf(),
        ensures
            slot_of(self.names(), name@, r.index as int),
            r.replaced == (r.index < self.names().len() && self.names()[r.index as int] == name@),
    {
        let mut i: usize = 0;
        while i < self.names.len()
            invariant
                i <= self.names@.len(),
                forall|j: int| 0 <= j < i ==> precedes(self.names()[j], name@),
            decreases self.names@.len() - i,
        {
            let o = compare(self.names[i].as_str(), name);
            proof {
                lemma_precedes_total(self.names()[i as int], name@);
            }
            match o {
                Order::Before => {
                    i = i + 1;
                },
                Order::Same => {
                    return Placement { index: i, replaced: true };
                },
                Order::After => {
                    return Placement { index: i, replaced: false };
                },
            }
        }
        Placement { index: i, replaced: false }
    }

    /// Puts a parameter under a name, with a fresh state, if the parameter
    /// describes a search space. It goes where its name belongs in the order of
    /// names; a parameter that had the same name gives way to it.
    pub fn insert(&mut self, name: String, param: Param) -> (r: Result<Placement, RangeError>)
        requires
            old(self).wf(),
        ensures
            final(self).wf(),
            match r {
                Ok(at) => {
                    &&& param.fault() is None
                    &&& slot_of(old(self).names(), name@, at.index as int)
                    &&& at.replaced == (at.index < old(self).names().len() && old(
                        self,
                    ).names()[at.index as int] == name@)
                    &&& at.replaced ==> {
                        &&& final(self).names() == old(self).names()
                        &&& final(self).states() == old(self).states().update(
                            at.index as int,
                            ParamStateView::fresh(param),
                        )
                    }
                    &&& !at.replaced ==> {
                        &&& final(self).names() == old(self).names().insert(at.index as int, name@)
                        &&& final(self).states() == old(self).states().insert(
                            at.index as int,
                            ParamStateView::fresh(param),
                        )
                    }
                },
                Err(e) => {
                    &&& param.fault() == Some(e)
                    &&& final(self).names() == old(self).names()
                    &&& final(self).states() == old(self).states()
                },
            },
    {
        let state = match ParamState::try_from(param) {
            Ok(state) => state,
            Err(e) => {
                return Err(e);
            },
        };
        let at = self.locate(name.as_str());
        let ghost before = *self;
        let ghost p = at.index as int;
        if at.replaced {
            self.states.set(at.index, state);
            assert(self.states() =~= before.states().update(p, ParamStateView::fresh(param)));
        } else {
            self.names.insert(at.index, name);
            self.states.insert(at.index, state);
            assert(self.states() =~= before.states().insert(p, ParamStateView::fresh(param)));
            assert forall|i: int, j: int| 0 <= i < j < self.names().len() implies precedes(
                self.names()[i],
                self.names()[j],
            ) by {
                if j < p {
                    assert(self.names()[i] == before.names()[i]);
                    assert(self.names()[j] == before.names()[j]);
                } else if j == p {
                    assert(self.names()[i] == before.names()[i]);
                } else if i < p {
                    assert(self.names()[i] == before.names()[i]);
                    assert(self.names()[j] == before.names()[j - 1]);
                } else if i == p {
                    lemma_precedes_total(before.names()[p], name@);
                    if p < j - 1 {
                        lemma_precedes_transitive(name@, before.names()[p], before.names()[j - 1]);
                    }
                } else {
                    assert(self.names()[i] == before.names()[i - 1]);
                    assert(self.names()[j] == before.names()[j - 1]);
                }
            }
        }
        Ok(at)
    }

    /// The names, in order.
    pub fn names_list(&self) -> (r: Vec<String>)
        requires
            self.wf(),
        ensures
            texts(r@) == self.names(),
    {
        copy_list(&self.names)
    }

    /// The current values as the objective sees them, in the order of the
    /// names.
    pub fn values(&self) -> (r: Vec<String>)
        requires
            self.wf(),
        ensures
            texts(r@) == shown_values(self.states()),
    {
        let mut r: Vec<String> = Vec::new();
        let mut i: usize = 0;
        while i < self.states.len()
            invariant
                i <= self.states@.len(),
                r@.len() == i,
                forall|j: int| 0 <= j < i ==> r@[j]@ == self.states@[j]@.text(),
            decreases self.states@.len() - i,
        {
            r.push(self.states[i].get_value());
            i = i + 1;
        }
        r
    }

    /// Takes in one proposal for each parameter, in the order of the names.
    /// Either all are taken in, or, where the count is wrong or a proposal lies
    /// outside its parameter's search space, none is; the error names the first
    /// such proposal.
    pub fn ask(&mut self, proposals: &Vec<Proposal>) -> (r: Result<(), AskError>)
        requires
            old(self).wf(),
        ensures
            final(self).wf(),
            final(self).names() == old(self).names(),
            match r {
                Ok(()) => {
                    &&& all_admitted(old(self).states(), proposals@)
                    &&& final(self).states() == with_proposals(old(self).states(), proposals@)
                },
                Err(AskError::WrongCount) => {
                    &&& proposals@.len() != old(self).states().len()
                    &&& final(self).states() == old(self).states()
                },
                Err(AskError::OutOfRange(k)) => {
                    &&& proposals@.len() == old(self).states().len()
                    &&& k < proposals@.len()
                    &&& !old(self).states()[k as int].param.admits(proposals@[k as int].value)
                    &&& forall|j: int|
                        0 <= j < k ==> old(self).states()[j].param.admits(proposals@[j].value)
                    &&& final(self).states() == old(self).states()
                },
            },
    {
        let n: usize = self.states.len();
        if proposals.len() != n {
            return Err(AskError::WrongCount);
        }
        let ghost before = *self;
        let mut k: usize = 0;
        while k < n
            invariant
                k <= n,
                n == self.states@.len(),
                n == proposals@.len(),
                *self == before,
                before.wf(),
                forall|j: int| 0 <= j < k ==> self.states()[j].param.admits(proposals@[j].value),
            decreases n - k,
        {
            if !self.states[k].param().contains(proposals[k].value) {
                return Err(AskError::OutOfRange(k));
            }
            k = k + 1;
        }
        let mut i: usize = 0;
        while i < n
            invariant
                i <= n,
                n == self.states@.len(),
                n == proposals@.len(),
                self.names == before.names,
                before.wf(),
                before.states().len() == n,
                all_admitted(before.states(), proposals@),
                forall|j: int|
                    0 <= j < i ==> self.states()[j] == before.states()[j].with(
                        proposals@[j].value,
                        proposals@[j].text@,
                    ),
                forall|j: int| i <= j < n ==> self.states()[j] == before.states()[j],
            decreases n - i,
        {
            let ghost earlier = self.states();
            let taken = self.states[i].ask(&proposals[i]);
            assert forall|j: int| 0 <= j < n implies self.states()[j] == (if j == i {
                before.states()[j].with(proposals@[j].value, proposals@[j].text@)
            } else {
                earlier[j]
            }) by {}
            i = i + 1;
        }
        Ok(())
    }

    /// What the optimizers are to be told for a score: one observation per
    /// parameter, in the order of the names.
    pub fn tell(&self, score: Binary64) -> (r: Vec<Observation>)
        requires
            self.wf(),
        ensures
            r@ == observations(self.states(), score),
    {
        let mut r: Vec<Observation> = Vec::new();
        let mut i: usize = 0;
        while i < self.states.len()
            invariant
                i <= self.states@.len(),
                r@.len() == i,
                forall|j: int|
                    0 <= j < i ==> r@[j] == (Observation { value: self.states@[j]@.value, score }),
            decreases self.states@.len() - i,
        {
            r.push(self.states[i].tell(score));
            i = i + 1;
        }
        r
    }
}

} // verus!
