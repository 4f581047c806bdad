use vstd::prelude::*;

use crate::pattern::{ElemModel, Regex, RegexClass, RegexElement};

verus! {

/// What it means for one character to satisfy a character class.
pub open spec fn class_matches(k: RegexClass, c: char) -> bool {
    match k {
        RegexClass::Digit => '0' <= c && c <= '9',
        RegexClass::Alphanumeric => ('0' <= c && c <= '9') || ('a' <= c && c <= 'z') || (
        'A' <= c && c <= 'Z') || c == '_',
    }
}

/// The span an atomic (non-quantifier) element matches at `off`: `Some`
/// with the number of characters consumed, `None` when it does not match
/// there. Anchors consume zero characters; every other atom consumes one.
/// A `Quantifier` is not atomic and never matches as an atom.
pub open spec fn atom_match_len(e: ElemModel, input: Seq<char>, off: int) -> Option<nat> {
    match e {
        ElemModel::StartAnchor => if off == 0 {
            Some(0 as nat)
        } else {
            None
        },
        ElemModel::EndAnchor => if off == input.len() {
            Some(0 as nat)
        } else {
            None
        },
        ElemModel::Wildcard => if 0 <= off < input.len() {
            Some(1 as nat)
        } else {
            None
        },
        ElemModel::Literal(c) => if 0 <= off < input.len() && input[off] == c {
            Some(1 as nat)
        } else {
            None
        },
        ElemModel::Class(k) => if 0 <= off < input.len() && class_matches(k, input[off]) {
            Some(1 as nat)
        } else {
            None
        },
        ElemModel::CharGroup { is_positive, options } => if 0 <= off < input.len()
            && options.contains(input[off]) == is_positive {
            Some(1 as nat)
        } else {
            None
        },
        ElemModel::Quantifier { .. } => None,
    }
}

/// The repetition budget a quantifier starts with: its `max`, or no bound.
pub open spec fn quant_budget(max: Option<usize>) -> Option<nat> {
    match max {
        None => None,
        Some(m) => Some(m as nat),
    }
}

/// One repetition spent from a budget.
pub open spec fn spend_budget(b: Option<nat>) -> Option<nat> {
    match b {
        None => None,
        Some(n) => if n == 0 {
            Some(0 as nat)
        } else {
            Some((n - 1) as nat)
        },
    }
}

/// Greedy repetition of `content` starting at `off`: the number of
/// repetitions taken and the total number of characters they consume.
/// Repetition stops when `content` fails to match, when the budget runs
/// out, or after one zero-width match (a further zero-width repetition
/// would consume nothing and change nothing).
pub open spec fn quant_run(content: ElemModel, input: Seq<char>, off: int, budget: Option<
    nat,
>) -> (nat, nat)
    decreases input.len() - off,
{
    if budget == Some(0 as nat) {
        (0 as nat, 0 as nat)
    } else {
        match atom_match_len(content, input, off) {
            None => (0 as nat, 0 as nat),
            Some(l) => if l == 0 {
                (1 as nat, 0 as nat)
            } else {
                let rest = quant_run(content, input, off + l, spend_budget(budget));
                ((1 + rest.0) as nat, (l + rest.1) as nat)
            },
        }
    }
}

/// The span one element matches at `off`: atoms match as `atom_match_len`
/// says; a quantifier matches the total span of its greedy run provided
/// the run took at least `min` repetitions.
pub open spec fn elem_match_len(e: ElemModel, input: Seq<char>, off: int) -> Option<nat> {
    match e {
        ElemModel::Quantifier { min, max, content } => {
            let run = quant_run(*content, input, off, quant_budget(max));
            if run.0 >= min {
                Some(run.1)
            } else {
                None
            }
        },
        _ => atom_match_len(e, input, off),
    }
}

/// Whether the whole element sequence matches starting exactly at `off`:
/// each element in order consumes the span it matches, and a single
/// failure fails the whole attempt (no backtracking across elements).
pub open spec fn seq_match_from(elems: Seq<ElemModel>, input: Seq<char>, off: int) -> bool
    decreases elems.len(),
{
    if elems.len() == 0 {
        true
    } else {
        match elem_match_len(elems[0], input, off) {
            None => false,
            Some(l) => seq_match_from(elems.drop_first(), input, off + l),
        }
    }
}

/// Whether the pattern occurs anywhere in the input: some start offset
/// between 0 and the input's length (inclusive) begins a full match.
pub open spec fn spec_matches(elems: Seq<ElemModel>, input: Seq<char>) -> bool {
    exists|start: int| 0 <= start <= input.len() && seq_match_from(elems, input, start)
}

/// A greedy run never consumes past the end of the input.
pub proof fn lemma_quant_run_bound(content: ElemModel, input: Seq<char>, off: int, budget: Option<
    nat,
>)
    ensures
        quant_run(content, input, off, budget).1 == 0 || off + quant_run(
            content,
            input,
            off,
            budget,
        ).1 <= input.len(),
    decreases input.len() - off,
{
    if budget != Some(0 as nat) {
        match atom_match_len(content, input, off) {
            Some(l) => {
                if l != 0 {
                    lemma_quant_run_bound(content, input, off + l, spend_budget(budget));
                }
            },
            None => {},
        }
    }
}

/// An element's span never runs past the end of the input: a match is
/// either zero-width or lies inside the input.
pub proof fn lemma_elem_len_bound(e: ElemModel, input: Seq<char>, off: int)
    ensures
        elem_match_len(e, input, off) matches Some(l) ==> l == 0 || off + l <= input.len(),
{
    if let ElemModel::Quantifier { min, max, content } = e {
        lemma_quant_run_bound(*content, input, off, quant_budget(max));
    }
}

/// Whether `options` holds the character `c`.
fn contains_char(options: &Vec<char>, c: char) -> (r: bool)
    ensures
        r == options@.contains(c),
{
    let mut i: usize = 0;
    while i < options.len()
        invariant
            i <= options.len(),
            forall|k: int| 0 <= k < i ==> options@[k] != c,
        decreases options.len() - i,
    {
        if options[i] == c {
            return true;
        }
        i = i + 1;
    }
    false
}

/// Whether `c` satisfies the class `k`.
fn class_match(k: RegexClass, c: char) -> (r: bool)
    ensures
        r == class_matches(k, c),
{
    match k {
        RegexClass::Digit => '0' <= c && c <= '9',
        RegexClass::Alphanumeric => ('0' <= c && c <= '9') || ('a' <= c && c <= 'z') || ('A' <= c
            && c <= 'Z') || c == '_',
    }
}

impl RegexElement {
    /// Attempts to match `self` as an atom at `off`.
    fn atom_match(&self, input: &Vec<char>, off: usize) -> (r: Option<usize>)
        ensures
            (match r {
                Some(l) => atom_match_len(self@, input@, off as int) == Some(l as nat),
                None => atom_match_len(self@, input@, off as int) is None,
            }),
    {
        match self {
            RegexElement::StartAnchor => if off == 0 {
                Some(0)
            } else {
                None
            },
            RegexElement::EndAnchor => if off == input.len() {
                Some(0)
            } else {
                None
            },
            RegexElement::Wildcard => if off < input.len() {
                Some(1)
            } else {
                None
            },
            RegexElement::Literal(c) => if off < input.len() && input[off] == *c {
                Some(1)
            } else {
                None
            },
            RegexElement::Class(k) => if off < input.len() && class_match(*k, input[off]) {
                Some(1)
            } else {
                None
            },
            RegexElement::CharGroup { is_positive, options } => {
                if off < input.len() && contains_char(options, input[off]) == *is_positive {
                    Some(1)
                } else {
                    None
                }
            },
            RegexElement::Quantifier { .. } => None,
        }
    }

    /// Attempts to consume a match of `self` at exactly `start_index`,
    /// returning the number of characters consumed, or `None` when the
    /// element does not match there. `start_index` may equal (or exceed)
    /// the input's length; the function never panics.
    pub fn matches(&self, input: &Vec<char>, start_index: usize) -> (r: Option<usize>)
        ensures
            (match r {
                Some(l) => elem_match_len(self@, input@, start_index as int) == Some(l as nat),
                None => elem_match_len(self@, input@, start_index as int) is None,
            }),
    {
        match self {
            RegexElement::Quantifier { min, max, content } => {
                let ghost full = quant_run(
                    content@,
                    input@,
                    start_index as int,
                    quant_budget(*max),
                );
                let mut count: usize = 0;
                let mut pos: usize = start_index;
                let mut zero_width = false;
                loop
                    invariant_except_break
                        !zero_width,
                        full == quant_add(
                            count as nat,
                            (pos - start_index) as nat,
                            quant_run(
                                content@,
                                input@,
                                pos as int,
                                budget_left(*max, count as nat),
                            ),
                        ),
                    invariant
                        start_index <= pos,
                        count <= pos - start_index,
                        pos <= input.len() || pos == start_index,
                        (match *max {
                            Some(m) => count <= m,
                            None => true,
                        }),
                        zero_width ==> full == (((count + 1) as nat, (pos - start_index) as nat)),
                    ensures
                        (if zero_width {
                            full == (((count + 1) as nat, (pos - start_index) as nat))
                        } else {
                            full == ((count as nat, (pos - start_index) as nat))
                        }),
                    decreases input.len() + 1 - pos,
                {
                    if let Some(m) = max {
                        if count == *m {
                            break ;
                        }
                    }
                    let ghost budget = budget_left(*max, count as nat);
                    assert(budget != Some(0 as nat));
                    match content.atom_match(input, pos) {
                        None => {
                            assert(quant_run(content@, input@, pos as int, budget) == ((
                            0 as nat,
                            0 as nat,
                            )));
                            break ;
                        },
                        Some(l) => {
                            if l == 0 {
                                assert(quant_run(content@, input@, pos as int, budget) == ((
                                1 as nat,
                                0 as nat,
                                )));
                                zero_width = true;
                                break ;
                            } else {
                                proof {
                                    assert(l == 1 && pos < input.len());
                                    let rest = quant_run(
                                        content@,
                                        input@,
                                        pos + l,
                                        spend_budget(budget),
                                    );
                                    assert(quant_run(content@, input@, pos as int, budget) == ((
                                    (1 + rest.0) as nat,
                                    (l + rest.1) as nat,
                                    )));
                                    assert(spend_budget(budget) == budget_left(
                                        *max,
                                        (count + 1) as nat,
                                    ));
                                }
                                count = count + 1;
                                pos = pos + l;
                            }
                        },
                    }
                }
                let reps_ok = if zero_width {
                    *min == 0 || count >= *min - 1
                } else {
                    count >= *min
                };
                if reps_ok {
                    Some(pos - start_index)
                } else {
                    None
                }
            },
            _ => self.atom_match(input, start_index),
        }
    }
}

/// The totals of a greedy run split into a finished prefix and the run
/// that remains: counts and consumed lengths add.
pub open spec fn quant_add(count: nat, consumed: nat, rest: (nat, nat)) -> (nat, nat) {
    ((count + rest.0) as nat, (consumed + rest.1) as nat)
}

/// The budget a greedy run has left after `count` repetitions.
pub open spec fn budget_left(max: Option<usize>, count: nat) -> Option<nat> {
    match max {
        None => None,
        Some(m) => if count <= m {
            Some((m - count) as nat)
        } else {
            Some(0 as nat)
        },
    }
}

impl Regex {
    /// Walks the elements in order from `start_offset`, each consuming the
    /// span it matches; true when every element matches. No element is
    /// retried: a single failure fails the whole attempt.
    pub fn try_match_from(&self, input: &Vec<char>, start_offset: usize) -> (r: bool)
        ensures
            r == seq_match_from(self@, input@, start_offset as int),
    {
        let mut i: usize = 0;
        let mut pos: usize = start_offset;
        assert(self@.skip(0) =~= self@);
        loop
            invariant
                i <= self.0.len(),
                start_offset <= pos,
                pos <= input.len() || pos == start_offset,
                seq_match_from(self@, input@, start_offset as int) == seq_match_from(
                    self@.skip(i as int),
                    input@,
                    pos as int,
                ),
            ensures
                (i == self.0.len() && seq_match_from(self@, input@, start_offset as int)) || (i
                    < self.0.len() && !seq_match_from(self@, input@, start_offset as int)),
            decreases self.0.len() - i,
        {
            if i == self.0.len() {
                assert(self@.skip(i as int) =~= Seq::<ElemModel>::empty());
                break ;
            }
            let ghost rest = self@.skip(i as int);
            assert(rest[0] == self@[i as int]);
            match self.0[i].matches(input, pos) {
                None => {
                    assert(!seq_match_from(rest, input@, pos as int));
                    break ;
                },
                Some(l) => {
                    proof {
                        assert(self@[i as int] == self.0@.map_values(
                            |e: RegexElement| e@,
                        )[i as int]);
                        assert(self@[i as int] == self.0@[i as int]@);
                        lemma_elem_len_bound(self@[i as int], input@, pos as int);
                        assert(elem_match_len(self@[i as int], input@, pos as int) == Some(
                            l as nat,
                        ));
                        assert(l == 0 || pos + l <= input@.len());
                        assert(rest.drop_first() =~= self@.skip(i + 1));
                    }
                    i = i + 1;
                    pos = pos + l;
                },
            }
        }
        i == self.0.len()
    }

    /// Tests whether the pattern occurs in `input`: tries every start
    /// offset from 0 through the input's length in increasing order and
    /// accepts at the first full match (leftmost-match search). True
    /// exactly when some start offset begins a full match.
    pub fn matches(&self, s: &str) -> (r: bool)
        ensures
            r == spec_matches(self@, s@),
    {
        let input = chars_of(s);
        let n = input.len();
        let mut start: usize = 0;
        let mut found = false;
        loop
            invariant_except_break
                !found,
            invariant
                start <= n,
                n == input.len(),
                input@ == s@,
                forall|k: int| 0 <= k < start ==> !seq_match_from(self@, input@, k),
            ensures
                found == spec_matches(self@, s@),
            decreases n - start,
        {
            if self.try_match_from(&input, start) {
                found = true;
                assert(spec_matches(self@, s@));
                break ;
            }
            if start == n {
                proof {
                    assert forall|k: int| 0 <= k <= input@.len() implies !seq_match_from(
                        self@,
                        input@,
                        k,
                    ) by {
                        if k == start as int {
                            assert(!seq_match_from(self@, input@, start as int));
                        }
                    }
                    assert(!spec_matches(self@, input@));
                    assert(input@ == s@);
                }
                break ;
            }
            start = start + 1;
        }
        found
    }
}

/// The characters of a string, in order, as a vector.
pub fn chars_of(s: &str) -> (v: Vec<char>)
    ensures
        v@ == s@,
{
    let mut v: Vec<char> = Vec::new();
    for c in it: s.chars()
        invariant
            it.seq() == s@,
            v@ == it.seq().subrange(0, it.index() as int),
    {
        v.push(c);
    }
    assert(v@ =~= s@);
    v
}

} // verus!
