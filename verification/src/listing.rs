//! From the listing of merged branches to the branches that may be removed.
//!
//! The version-control system prints one branch per line, indented, and marks the branch
//! that is checked out with an asterisk. A candidate is a line of that listing, trimmed, that
//! neither carries the mark nor names the target branch.
use crate::text::{chars_of, lines_of, split_lines, string_of, trim_bounds, trimmed};
use vstd::prelude::*;

verus! {

/// Whether the trimmed line `line` is the one of the branch that is checked out.
pub open spec fn marks_current(line: Seq<char>) -> bool {
    line.len() > 0 && line.first() == '*'
}

/// Whether the trimmed line `line` names a branch that may be removed.
pub open spec fn is_candidate(line: Seq<char>, target: Seq<char>) -> bool {
    !marks_current(line) && line != target
}

/// The candidates among `lines`: each line trimmed, those that may be removed kept, in the
/// order of the listing.
pub open spec fn candidates_of(lines: Seq<Seq<char>>, target: Seq<char>) -> Seq<Seq<char>> {
    lines.map_values(|line: Seq<char>| trimmed(line)).filter(
        |line: Seq<char>| is_candidate(line, target),
    )
}

/// One more line at the end of the listing adds at most one candidate, at the end.
pub proof fn lemma_candidates_push(lines: Seq<Seq<char>>, line: Seq<char>, target: Seq<char>)
    ensures
        candidates_of(lines.push(line), target) == if is_candidate(trimmed(line), target) {
            candidates_of(lines, target).push(trimmed(line))
        } else {
            candidates_of(lines, target)
        },
{
    let trim = |line: Seq<char>| trimmed(line);
    let keep = |line: Seq<char>| is_candidate(line, target);
    assert(lines.push(line).map_values(trim) =~= lines.map_values(trim).push(trimmed(line)));
    lines.map_values(trim).lemma_filter_push(trimmed(line), keep);
}

/// No candidate carries the mark of the branch that is checked out, and none is the target.
pub proof fn lemma_candidates_exclude(lines: Seq<Seq<char>>, target: Seq<char>)
    ensures
        forall|i: int|
            0 <= i < candidates_of(lines, target).len() ==> {
                &&& !marks_current(#[trigger] candidates_of(lines, target)[i])
                &&& candidates_of(lines, target)[i] != target
            },
{
    let trim = |line: Seq<char>| trimmed(line);
    let keep = |line: Seq<char>| is_candidate(line, target);
    assert forall|i: int| 0 <= i < candidates_of(lines, target).len() implies {
        &&& !marks_current(#[trigger] candidates_of(lines, target)[i])
        &&& candidates_of(lines, target)[i] != target
    } by {
        lines.map_values(trim).lemma_filter_pred(keep, i);
    }
}

/// The candidates stand in the order of the listing. The result gives, for each candidate,
/// the line it came from: these lines go strictly upwards, each of them trims to its
/// candidate, and every line that may be removed is among them.
pub proof fn lemma_candidates_keep_order(lines: Seq<Seq<char>>, target: Seq<char>) -> (at: Seq<int>)
    ensures
        at.len() == candidates_of(lines, target).len(),
        forall|i: int|
            0 <= i < at.len() ==> 0 <= #[trigger] at[i] < lines.len() && candidates_of(
                lines,
                target,
            )[i] == trimmed(lines[at[i]]),
        forall|i: int, j: int| 0 <= i < j < at.len() ==> #[trigger] at[i] < #[trigger] at[j],
        forall|k: int|
            0 <= k < lines.len() && is_candidate(trimmed(#[trigger] lines[k]), target)
                ==> at.contains(k),
    decreases lines.len(),
{
    if lines.len() == 0 {
        lines.map_values(|line: Seq<char>| trimmed(line)).lemma_filter_len(
            |line: Seq<char>| is_candidate(line, target),
        );
        Seq::empty()
    } else {
        let front = lines.drop_last();
        let last = lines.last();
        let before = lemma_candidates_keep_order(front, target);
        assert(front.push(last) =~= lines);
        lemma_candidates_push(front, last, target);
        let at = if is_candidate(trimmed(last), target) {
            before.push(lines.len() - 1)
        } else {
            before
        };
        assert forall|k: int|
            0 <= k < lines.len() && is_candidate(trimmed(#[trigger] lines[k]), target) implies at.contains(
            k,
        ) by {
            if k < lines.len() - 1 {
                assert(front[k] == lines[k]);
                let i = choose|i: int| 0 <= i < before.len() && before[i] == k;
                assert(at[i] == k);
            } else {
                assert(at[at.len() - 1] == k);
            }
        }
        at
    }
}

/// Whether the characters `chars[from..to]` are those of `other`.
fn same_text(chars: &Vec<char>, from: usize, to: usize, other: &Vec<char>) -> (same: bool)
    requires
        from <= to <= chars.len(),
    ensures
        same == (chars@.subrange(from as int, to as int) == other@),
{
    if to - from != other.len() {
        return false;
    }
    let ghost piece = chars@.subrange(from as int, to as int);
    let mut i: usize = 0;
    while i < other.len()
        invariant
            from <= to <= chars.len(),
            to - from == other.len(),
            i <= other.len(),
            piece == chars@.subrange(from as int, to as int),
            forall|k: int| 0 <= k < i ==> piece[k] == other@[k],
        decreases other.len() - i,
    {
        if chars[from + i] != other[i] {
            assert(piece[i as int] != other@[i as int]);
            return false;
        }
        i += 1;
    }
    assert(piece =~= other@);
    true
}

/// The candidates among the lines of a listing of the branches merged into `target`.
pub fn filter_candidates(lines: &Vec<String>, target: &str) -> (out: Vec<String>)
    ensures
        out.deep_view() == candidates_of(lines.deep_view(), target@),
        forall|i: int|
            0 <= i < out.len() ==> !marks_current(#[trigger] out[i]@) && out[i]@ != target@,
{
    let wanted = chars_of(target);
    let mut out: Vec<String> = Vec::new();
    let mut i: usize = 0;
    proof {
        assert(lines.deep_view().take(0) =~= Seq::<Seq<char>>::empty());
        lemma_candidates_keep_order(lines.deep_view().take(0), target@);
        assert(out.deep_view() =~= candidates_of(lines.deep_view().take(0), target@));
    }
    while i < lines.len()
        invariant
            i <= lines.len(),
            wanted@ == target@,
            out.deep_view() == candidates_of(lines.deep_view().take(i as int), target@),
        decreases lines.len() - i,
    {
        let ghost before = out.deep_view();
        let chars = chars_of(lines[i].as_str());
        let (from, to) = trim_bounds(&chars);
        let marked = from < to && chars[from] == '*';
        proof {
            let seen = lines.deep_view().take(i as int);
            assert(lines.deep_view().take(i + 1) =~= seen.push(lines[i as int]@));
            lemma_candidates_push(seen, lines[i as int]@, target@);
        }
        if !marked && !same_text(&chars, from, to, &wanted) {
            let name = string_of(&chars, from, to);
            out.push(name);
            assert(out.deep_view() =~= before.push(name@));
        }
        i += 1;
    }
    proof {
        assert(lines.deep_view().take(lines.len() as int) =~= lines.deep_view());
        lemma_candidates_exclude(lines.deep_view(), target@);
        assert forall|i: int| 0 <= i < out.len() implies !marks_current(#[trigger] out[i]@)
            && out[i]@ != target@ by {
            assert(out.deep_view()[i] == out[i]@);
        }
    }
    out
}

/// The candidates in `output`, the text that the listing of the branches merged into
/// `target` printed.
pub fn parse_listing(output: &str, target: &str) -> (out: Vec<String>)
    ensures
        out.deep_view() == candidates_of(lines_of(output@), target@),
        forall|i: int|
            0 <= i < out.len() ==> !marks_current(#[trigger] out[i]@) && out[i]@ != target@,
{
    let lines = split_lines(output);
    filter_candidates(&lines, target)
}

} // verus!
