use vstd::prelude::*;

use crate::compile::spec_compile;
use crate::matcher::{
    atom_match_len, elem_match_len, quant_budget, quant_run, seq_match_from, spec_matches,
    spend_budget,
};
use crate::pattern::{CompileError, ElemModel};

verus! {

/// Idempotence of compilation: compiling the same pattern text twice
/// yields the same element sequence, so the two results behave identically
/// under the element matcher for every input, offset and element.
pub proof fn lemma_compile_idempotent(
    s: Seq<char>,
    r1: Seq<ElemModel>,
    r2: Seq<ElemModel>,
    input: Seq<char>,
    off: int,
    k: int,
)
    requires
        spec_compile(s) == Ok::<Seq<ElemModel>, CompileError>(r1),
        spec_compile(s) == Ok::<Seq<ElemModel>, CompileError>(r2),
        0 <= k < r1.len(),
    ensures
        r1 == r2,
        elem_match_len(r1[k], input, off) == elem_match_len(r2[k], input, off),
{
}

/// Anchor exclusivity: when a pattern's first element is the start anchor,
/// the pattern occurs in the input exactly when the whole sequence matches
/// at offset 0; no other start offset can succeed.
pub proof fn lemma_anchor_exclusivity(elems: Seq<ElemModel>, input: Seq<char>)
    requires
        elems.len() > 0,
        elems[0] == ElemModel::StartAnchor,
    ensures
        spec_matches(elems, input) == seq_match_from(elems, input, 0),
        forall|start: int| 0 < start ==> !seq_match_from(elems, input, start),
{
    assert forall|start: int| 0 < start implies !seq_match_from(elems, input, start) by {
        assert(elem_match_len(elems[0], input, start) is None);
    }
    if seq_match_from(elems, input, 0) {
        assert(spec_matches(elems, input));
    }
    if spec_matches(elems, input) {
        let start = choose|start: int|
            0 <= start <= input.len() && seq_match_from(elems, input, start);
        assert(start == 0);
    }
}

/// A greedy run on a bounded budget takes at most that many repetitions.
proof fn lemma_quant_run_count_bound(content: ElemModel, input: Seq<char>, off: int, b: nat)
    ensures
        quant_run(content, input, off, Some(b)).0 <= b,
    decreases input.len() - off,
{
    if b != 0 {
        match atom_match_len(content, input, off) {
            Some(l) => {
                if l != 0 {
                    assert(spend_budget(Some(b)) == Some((b - 1) as nat));
                    lemma_quant_run_count_bound(content, input, off + l, (b - 1) as nat);
                }
            },
            None => {},
        }
    }
}

/// Quantifier bounds: a quantifier never reports success with fewer than
/// `min` repetitions of its content, nor with more than `max` repetitions
/// when a maximum is present.
pub proof fn lemma_quantifier_bounds(
    min: usize,
    max: Option<usize>,
    content: Box<ElemModel>,
    input: Seq<char>,
    off: int,
)
    requires
        elem_match_len(ElemModel::Quantifier { min, max, content }, input, off) is Some,
    ensures
        quant_run(*content, input, off, quant_budget(max)).0 >= min,
        (max matches Some(m) ==> quant_run(*content, input, off, quant_budget(max)).0 <= m),
{
    if let Some(m) = max {
        lemma_quant_run_count_bound(*content, input, off, m as nat);
    }
}

} // verus!
