//! The command line of the objective: the fixed arguments, then for every
//! parameter, in the order of the names, a flag and the parameter's value.

use crate::space::{shown_values, ParamSet};
use crate::text::texts;
use vstd::prelude::*;
use vstd::string::*;

verus! {

/// The flag of a parameter: one dash before a name of a single character, two
/// dashes before any other name.
pub open spec fn flag(name: Seq<char>) -> Seq<char> {
    if name.len() == 1 {
        seq!['-'] + name
    } else {
        seq!['-', '-'] + name
    }
}

/// The arguments of one invocation: the fixed ones, then flag and value of
/// each parameter in turn.
pub open spec fn arguments(
    fixed: Seq<Seq<char>>,
    names: Seq<Seq<char>>,
    values: Seq<Seq<char>>,
) -> Seq<Seq<char>> {
    fixed + Seq::new(
        2 * names.len(),
        |i: int|
            if i % 2 == 0 {
                flag(names[i / 2])
            } else {
                values[i / 2]
            },
    )
}

/// The flag of a parameter.
pub fn flag_for(name: &str) -> (r: String)
    ensures
        r@ == flag(name@),
{
    proof {
        reveal_strlit("-");
        reveal_strlit("--");
    }
    let dashes = if name.unicode_len() == 1 {
        "-"
    } else {
        "--"
    };
    let r = String::from_str(dashes).concat(name);
    r
}

/// The arguments with which the objective is invoked for the parameters'
/// current values.
pub fn build_arguments(fixed: &Vec<String>, params: &ParamSet) -> (r: Vec<String>)
    requires
        params.wf(),
    ensures
        texts(r@) == arguments(texts(fixed@), params.names(), shown_values(params.states())),
{
    let mut r: Vec<String> = Vec::new();
    let mut i: usize = 0;
    while i < fixed.len()
        invariant
            i <= fixed@.len(),
            r@.len() == i,
            forall|j: int| 0 <= j < i ==> r@[j]@ == fixed@[j]@,
        decreases fixed@.len() - i,
    {
        r.push(fixed[i].clone());
        i = i + 1;
    }
    let n: usize = params.len();
    let ghost names = params.names();
    let ghost values = shown_values(params.states());
    let mut k: usize = 0;
    while k < n
        invariant
            k <= n,
            params.wf(),
            n == params.names().len(),
            names == params.names(),
            values == shown_values(params.states()),
            r@.len() == fixed@.len() + 2 * k,
            forall|j: int| 0 <= j < fixed@.len() ==> r@[j]@ == fixed@[j]@,
            forall|j: int|
                fixed@.len() <= j < r@.len() ==> r@[j]@ == (if (j - fixed@.len()) % 2 == 0 {
                    flag(names[(j - fixed@.len()) / 2])
                } else {
                    values[(j - fixed@.len()) / 2]
                }),
        decreases n - k,
    {
        r.push(flag_for(params.name(k).as_str()));
        r.push(params.state(k).get_value());
        k = k + 1;
    }
    r
}

} // verus!
