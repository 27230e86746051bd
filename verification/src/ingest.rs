//! What is taken from the objective's table: the column of the score, the one
//! score that stands for a trial, and the rows of the result log.

use crate::binary64::{Binary64, INFINITY_BITS};
use crate::decimal::{decimal, render};
use crate::text::{compare, texts, Order};
use vstd::prelude::*;
use vstd::string::*;

verus! {

/// Whether a header field names the score.
pub open spec fn is_score(field: Seq<char>) -> bool {
    field == seq!['s', 'c', 'o', 'r', 'e']
}

/// `i` is the first column whose header field names the score.
pub open spec fn leads(header: Seq<Seq<char>>, i: int) -> bool {
    &&& 0 <= i < header.len()
    &&& is_score(header[i])
    &&& forall|j: int| 0 <= j < i ==> !is_score(header[j])
}

/// The first column whose header field names the score, if there is one.
pub open spec fn score_column(header: Seq<Seq<char>>) -> Option<int> {
    if exists|i: int| leads(header, i) {
        Some(choose|i: int| leads(header, i))
    } else {
        None
    }
}

/// The score column is the first field that names the score, and there is
/// none exactly if no field does.
pub proof fn lemma_score_column(header: Seq<Seq<char>>)
    ensures
        match score_column(header) {
            Some(i) => leads(header, i),
            None => forall|j: int| 0 <= j < header.len() ==> !is_score(header[j]),
        },
        forall|i: int| leads(header, i) ==> score_column(header) == Some(i),
{
    assert forall|i: int| leads(header, i) implies score_column(header) == Some(i) by {
        let c = choose|c: int| leads(header, c);
        assert(c == i);
    }
    if score_column(header) is None {
        lemma_no_leader(header, header.len() as int);
    }
}

/// Where no column leads, none of the first `n` fields names the score.
proof fn lemma_no_leader(header: Seq<Seq<char>>, n: int)
    requires
        0 <= n <= header.len(),
        forall|i: int| !leads(header, i),
    ensures
        forall|j: int| 0 <= j < n ==> !is_score(header[j]),
    decreases n,
{
    if n > 0 {
        lemma_no_leader(header, n - 1);
        assert(!leads(header, n - 1));
    }
}

/// Finds the column of the score in a header.
pub fn locate_score(header: &Vec<String>) -> (r: Option<usize>)
    ensures
        match r {
            Some(i) => score_column(texts(header@)) == Some(i as int),
            None => score_column(texts(header@)) is None,
        },
{
    proof {
        reveal_strlit("score");
        lemma_score_column(texts(header@));
    }
    let mut i: usize = 0;
    while i < header.len()
        invariant
            i <= header@.len(),
            "score"@ =~= seq!['s', 'c', 'o', 'r', 'e'],
            forall|j: int| 0 <= j < i ==> !is_score(texts(header@)[j]),
        decreases header@.len() - i,
    {
        if compare(header[i].as_str(), "score") == Order::Same {
            proof {
                assert(leads(texts(header@), i as int));
                lemma_score_column(texts(header@));
            }
            return Some(i);
        }
        i = i + 1;
    }
    None
}

/// The score as the optimizers are to see it: they minimize, so where the run
/// maximizes, the sign is flipped.
pub open spec fn adjusted(score: Binary64, maximize: bool) -> Binary64 {
    if maximize {
        score.negated()
    } else {
        score
    }
}

/// The score that stands for a trial: the least of the adjusted scores of its
/// rows, starting from positive infinity. A NaN never stands for a trial.
pub open spec fn selected(scores: Seq<Binary64>, maximize: bool) -> Binary64
    decreases scores.len(),
{
    if scores.len() == 0 {
        Binary64 { bits: INFINITY_BITS }
    } else {
        selected(scores.drop_last(), maximize).lesser(adjusted(scores.last(), maximize))
    }
}

/// The selected score is never a NaN and is at most the adjusted score of
/// every row whose score is a number. Where at least one row has a number for
/// its score, the selected score is the adjusted score of such a row; where
/// none has, it is positive infinity.
pub proof fn lemma_selected_is_least(scores: Seq<Binary64>, maximize: bool)
    ensures
        !selected(scores, maximize).is_nan(),
        forall|i: int|
            0 <= i < scores.len() && !scores[i].is_nan() ==> selected(scores, maximize).at_most(
                adjusted(#[trigger] scores[i], maximize),
            ),
        (exists|i: int| 0 <= i < scores.len() && !(#[trigger] scores[i]).is_nan()) ==> (exists|
            i: int,
        |
            0 <= i < scores.len() && !scores[i].is_nan() && selected(scores, maximize) == adjusted(
                #[trigger] scores[i],
                maximize,
            )),
        (forall|i: int| 0 <= i < scores.len() ==> (#[trigger] scores[i]).is_nan()) ==> selected(
            scores,
            maximize,
        ).bits == INFINITY_BITS,
    decreases scores.len(),
{
    if scores.len() > 0 {
        let front = scores.drop_last();
        let last = scores.last();
        let n: int = scores.len() - 1;
        lemma_selected_is_least(front, maximize);
        let best = selected(front, maximize);
        let total = selected(scores, maximize);
        assert forall|i: int| 0 <= i < scores.len() && !scores[i].is_nan() implies total.at_most(
            adjusted(#[trigger] scores[i], maximize),
        ) by {
            if i < n {
                assert(front[i] == scores[i]);
            }
        }
        if forall|i: int| 0 <= i < scores.len() ==> (#[trigger] scores[i]).is_nan() {
            assert forall|i: int| 0 <= i < front.len() implies (#[trigger] front[i]).is_nan() by {
                assert(front[i] == scores[i]);
            }
        }
        if exists|i: int| 0 <= i < scores.len() && !(#[trigger] scores[i]).is_nan() {
            if !last.is_nan() && total == adjusted(last, maximize) {
                assert(0 <= n < scores.len() && !scores[n].is_nan() && total == adjusted(
                    scores[n],
                    maximize,
                ));
            } else {
                // The last score did not win, so a number in front of it did.
                assert(exists|i: int| 0 <= i < front.len() && !(#[trigger] front[i]).is_nan()) by {
                    let w = choose|i: int| 0 <= i < scores.len() && !(#[trigger] scores[i]).is_nan();
                    if w < n {
                        assert(front[w] == scores[w]);
                    }
                }
                let w = choose|i: int|
                    0 <= i < front.len() && !front[i].is_nan() && best == adjusted(
                        #[trigger] front[i],
                        maximize,
                    );
                assert(0 <= w < scores.len() && !scores[w].is_nan() && total == adjusted(
                    scores[w],
                    maximize,
                ));
            }
        }
    }
}

/// Where the run maximizes, the selected score is the negative of the greatest
/// score: flipped back, it is at least the score of every row whose score is a
/// number.
pub proof fn lemma_maximize_selects_greatest(scores: Seq<Binary64>)
    ensures
        forall|i: int|
            0 <= i < scores.len() && !scores[i].is_nan() ==> (#[trigger] scores[i]).at_most(
                selected(scores, true).negated(),
            ),
{
    lemma_selected_is_least(scores, true);
}

/// The scores with their signs flipped.
pub open spec fn all_negated(scores: Seq<Binary64>) -> Seq<Binary64> {
    Seq::new(scores.len(), |i: int| scores[i].negated())
}

/// Maximizing is minimizing with the signs flipped, and nothing else: the
/// score selected where the run maximizes is the score selected for the
/// negated scores where it minimizes.
pub proof fn lemma_maximize_is_a_sign_flip(scores: Seq<Binary64>)
    ensures
        selected(scores, true) == selected(all_negated(scores), false),
    decreases scores.len(),
{
    if scores.len() > 0 {
        lemma_maximize_is_a_sign_flip(scores.drop_last());
        assert(all_negated(scores).drop_last() =~= all_negated(scores.drop_last()));
    }
}

/// Selects the score that stands for a trial from the scores of its rows.
pub fn select_best(scores: &Vec<Binary64>, maximize: bool) -> (best: Binary64)
    ensures
        best == selected(scores@, maximize),
{
    let mut best = Binary64::infinity();
    let mut i: usize = 0;
    while i < scores.len()
        invariant
            i <= scores@.len(),
            best == selected(scores@.take(i as int), maximize),
        decreases scores@.len() - i,
    {
        let score = if maximize {
            scores[i].neg()
        } else {
            scores[i]
        };
        proof {
            assert(scores@.take(i + 1).drop_last() =~= scores@.take(i as int));
        }
        best = best.min(score);
        i = i + 1;
    }
    assert(scores@.take(i as int) =~= scores@);
    best
}

/// The header of the result log: `ts`, `iter`, the parameters' names, then the
/// objective's own header fields.
pub open spec fn header_row(names: Seq<Seq<char>>, fields: Seq<Seq<char>>) -> Seq<Seq<char>> {
    seq![seq!['t', 's'], seq!['i', 't', 'e', 'r']] + names + fields
}

/// A row of the result log: the time stamp, the iteration, the parameters'
/// values, then the fields of one row of the objective.
pub open spec fn data_row(
    stamp: Seq<char>,
    iteration: nat,
    values: Seq<Seq<char>>,
    fields: Seq<Seq<char>>,
) -> Seq<Seq<char>> {
    seq![stamp, decimal(iteration)] + values + fields
}

/// Appends copies of the strings of one list to another.
fn extend(r: &mut Vec<String>, more: &Vec<String>)
    ensures
        texts(final(r)@) == texts(old(r)@) + texts(more@),
{
    let ghost before = r@;
    let mut i: usize = 0;
    while i < more.len()
        invariant
            i <= more@.len(),
            r@.len() == before.len() + i,
            forall|j: int| 0 <= j < before.len() ==> r@[j] == before[j],
            forall|j: int| 0 <= j < i ==> r@[before.len() + j]@ == more@[j]@,
        decreases more@.len() - i,
    {
        r.push(more[i].clone());
        i = i + 1;
    }
}

/// Makes the header of the result log.
pub fn make_header_row(names: &Vec<String>, fields: &Vec<String>) -> (r: Vec<String>)
    ensures
        texts(r@) == header_row(texts(names@), texts(fields@)),
{
    proof {
        reveal_strlit("ts");
        reveal_strlit("iter");
    }
    let mut r: Vec<String> = Vec::new();
    r.push(String::from_str("ts"));
    r.push(String::from_str("iter"));
    assert(r@[0]@ =~= seq!['t', 's']);
    assert(r@[1]@ =~= seq!['i', 't', 'e', 'r']);
    extend(&mut r, names);
    extend(&mut r, fields);
    r
}

/// Makes a row of the result log.
pub fn make_data_row(stamp: &str, iteration: u32, values: &Vec<String>, fields: &Vec<String>) -> (r:
    Vec<String>)
    ensures
        texts(r@) == data_row(stamp@, iteration as nat, texts(values@), texts(fields@)),
{
    let mut r: Vec<String> = Vec::new();
    r.push(String::from_str(stamp));
    r.push(render(iteration as u64));
    extend(&mut r, values);
    extend(&mut r, fields);
    r
}

} // verus!
