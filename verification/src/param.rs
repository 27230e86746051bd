//! Parameters: what may be tuned, and the value each one currently has.

use crate::binary64::Binary64;
use crate::decimal::{decimal, lemma_decimal_reads_back, numeral_value, render};
use vstd::prelude::*;
use vstd::string::*;

verus! {

/// A hyperparameter to be optimized.
#[derive(Clone, Copy, Debug, PartialEq, Eq, Structural)]
pub enum Param {
    /// A discrete variable with this many levels, numbered from zero.
    Categorical(usize),
    /// A continuous variable between a lower bound (included) and an upper
    /// bound (excluded).
    Numeric(Binary64, Binary64),
}

/// Why a parameter describes no search space.
#[derive(Clone, Copy, Debug, PartialEq, Eq, Structural)]
pub enum RangeError {
    /// A categorical parameter has no level.
    NoLevel,
    /// The lower bound of a numeric parameter is not below its upper bound
    /// (which is also so where a bound is a NaN).
    EmptyRange,
}

impl Param {
    /// What is wrong with the parameter; `None` if it describes a search space.
    pub open spec fn fault(self) -> Option<RangeError> {
        match self {
            Param::Categorical(levels) => if levels == 0 {
                Some(RangeError::NoLevel)
            } else {
                None
            },
            Param::Numeric(lower, upper) => if !lower.less(upper) {
                Some(RangeError::EmptyRange)
            } else {
                None
            },
        }
    }

    /// Whether a value lies in the parameter's search space: for a categorical
    /// parameter from zero up to, not including, the number of levels; for a
    /// numeric one from the lower bound up to, not including, the upper one.
    pub open spec fn admits(self, value: Binary64) -> bool {
        match self {
            Param::Categorical(levels) => !value.is_nan() && value.rank() >= 0 && value.whole()
                < levels,
            Param::Numeric(lower, upper) => lower.at_most(value) && value.less(upper),
        }
    }

    /// Whether the parameter is categorical.
    pub open spec fn is_categorical(self) -> bool {
        self is Categorical
    }

    /// Says whether the parameter describes a search space: a categorical one
    /// with at least one level, a numeric one with its lower bound below its
    /// upper bound.
    pub fn validate(&self) -> (r: Result<(), RangeError>)
        ensures
            match r {
                Ok(()) => self.fault() is None,
                Err(e) => self.fault() == Some(e),
            },
    {
        match self {
            Param::Categorical(levels) => {
                if *levels == 0 {
                    Err(RangeError::NoLevel)
                } else {
                    Ok(())
                }
            },
            Param::Numeric(lower, upper) => {
                if !lower.lt(*upper) {
                    Err(RangeError::EmptyRange)
                } else {
                    Ok(())
                }
            },
        }
    }

    /// Whether a value lies in the parameter's search space.
    pub fn contains(&self, value: Binary64) -> (r: bool)
        ensures
            r == self.admits(value),
    {
        match self {
            Param::Categorical(levels) => {
                if value.nan() {
                    false
                } else if value.lt(Binary64::zero()) {
                    false
                } else {
                    value.to_level() < *levels
                }
            },
            Param::Numeric(lower, upper) => lower.le(value) && value.lt(*upper),
        }
    }
}

/// What an optimizer proposes for one parameter.
#[derive(Debug)]
pub struct Proposal {
    /// The proposed value.
    pub value: Binary64,
    /// The value written out in full precision, as the objective is to see it
    /// where the parameter is numeric.
    pub text: String,
}

/// What an optimizer is told about one parameter after a trial.
#[derive(Clone, Copy, Debug, PartialEq, Eq, Structural)]
pub struct Observation {
    /// The value that the parameter had in the trial.
    pub value: Binary64,
    /// The score that the trial was given.
    pub score: Binary64,
}

/// Hyperparameter data: the parameter and the value it currently has.
#[derive(Debug)]
pub struct ParamState {
    param: Param,
    value: Binary64,
    shown: String,
}

/// What a [`ParamState`] holds.
pub struct ParamStateView {
    /// The parameter.
    pub param: Param,
    /// Its current value.
    pub value: Binary64,
    /// The current value written out in full precision.
    pub shown: Seq<char>,
}

impl ParamStateView {
    /// The current value as the objective sees it: for a categorical parameter
    /// the decimal numeral of its level, for a numeric one the value in full
    /// precision.
    pub open spec fn text(self) -> Seq<char> {
        if self.param.is_categorical() {
            decimal(self.value.level() as nat)
        } else {
            self.shown
        }
    }

    /// The parameter describes a search space, and a categorical parameter has
    /// a value in it. (A numeric parameter may stand outside its bounds until
    /// its first proposal: it starts at zero.)
    pub open spec fn wf(self) -> bool {
        &&& self.param.fault() is None
        &&& (self.param.is_categorical() ==> self.param.admits(self.value))
    }

    /// A state before any value was proposed: the value is zero.
    pub open spec fn fresh(param: Param) -> ParamStateView {
        ParamStateView { param, value: Binary64 { bits: 0 }, shown: seq!['0'] }
    }

    /// The state once a proposal has been taken in.
    pub open spec fn with(self, value: Binary64, shown: Seq<char>) -> ParamStateView {
        ParamStateView { param: self.param, value, shown }
    }
}

/// A categorical parameter is written as the numeral of a level below its
/// number of levels: at its start and after every proposal that it took in.
pub proof fn lemma_categorical_text_is_a_level(state: ParamStateView, levels: usize)
    requires
        state.wf(),
        state.param == Param::Categorical(levels),
    ensures
        numeral_value(state.text()) == Some(state.value.level() as nat),
        state.value.level() < levels,
{
    lemma_decimal_reads_back(state.value.level() as nat);
}

impl View for ParamState {
    type V = ParamStateView;

    closed spec fn view(&self) -> ParamStateView {
        ParamStateView { param: self.param, value: self.value, shown: self.shown@ }
    }
}

impl ParamState {
    /// What the state holds is sound.
    pub open spec fn wf(&self) -> bool {
        self@.wf()
    }

    /// Makes the state of a parameter, if the parameter describes a search
    /// space. The value starts at zero.
    pub fn try_from(param: Param) -> (r: Result<ParamState, RangeError>)
        ensures
            match r {
                Ok(state) => {
                    &&& param.fault() is None
                    &&& state@ == ParamStateView::fresh(param)
                    &&& state.wf()
                },
                Err(e) => param.fault() == Some(e),
            },
    {
        match param.validate() {
            Ok(()) => {
                proof {
                    reveal_strlit("0");
                }
                let shown = String::from_str("0");
                assert(shown@ =~= seq!['0']);
                Ok(ParamState { param, value: Binary64::zero(), shown })
            },
            Err(e) => Err(e),
        }
    }

    /// The parameter.
    pub fn param(&self) -> (r: Param)
        ensures
            r == self@.param,
    {
        self.param
    }

    /// The current value.
    pub fn value(&self) -> (r: Binary64)
        ensures
            r == self@.value,
    {
        self.value
    }

    /// Takes in the next value to try, as the optimizer proposed it. A value
    /// outside the parameter's search space is refused and changes nothing.
    ///
    /// The text of a categorical parameter that has taken a proposal in is the
    /// numeral of a level below the number of levels.
    pub fn ask(&mut self, proposal: &Proposal) -> (r: bool)
        requires
            old(self).wf(),
        ensures
            final(self).wf(),
            r == old(self)@.param.admits(proposal.value),
            r ==> final(self)@ == old(self)@.with(proposal.value, proposal.text@),
            !r ==> final(self)@ == old(self)@,
            r ==> (final(self)@.param matches Param::Categorical(levels) ==> {
                &&& numeral_value(final(self)@.text()) == Some(final(self)@.value.level() as nat)
                &&& final(self)@.value.level() < levels
            }),
    {
        if self.param.contains(proposal.value) {
            self.value = proposal.value;
            self.shown = proposal.text.clone();
            proof {
                if let Param::Categorical(levels) = self.param {
                    lemma_categorical_text_is_a_level(self@, levels);
                }
            }
            true
        } else {
            false
        }
    }

    /// What the optimizer is to be told of this parameter for a score.
    pub fn tell(&self, score: Binary64) -> (r: Observation)
        ensures
            r == (Observation { value: self@.value, score }),
    {
        Observation { value: self.value, score }
    }

    /// Get the current hyperparam as the objective is to see it.
    pub fn get_value(&self) -> (r: String)
        ensures
            r@ == self@.text(),
    {
        match self.param {
            Param::Categorical(_) => render(self.value.to_level() as u64),
            Param::Numeric(_, _) => self.shown.clone(),
        }
    }
}

} // verus!
