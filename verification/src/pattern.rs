use vstd::prelude::*;

verus! {

/// The built-in character classes: `\d` (ASCII digit) and `\w` (ASCII
/// alphanumeric or underscore).
#[derive(Clone, Copy, PartialEq, Eq, Structural, Debug)]
pub enum RegexClass {
    Digit,
    Alphanumeric,
}

/// One compiled pattern element: an atomic matchable unit, or a single
/// atomic unit wrapped in a greedy repetition.
///
/// A `Quantifier` never wraps another `Quantifier`: the compiler only ever
/// wraps the single atomic element that immediately precedes a `+`, `*` or
/// `?` in the pattern text.
#[derive(Debug)]
pub enum RegexElement {
    /// `.`: any one character.
    Wildcard,
    /// One exact character.
    Literal(char),
    /// `\d` or `\w`.
    Class(RegexClass),
    /// `[...]` or, with `is_positive == false`, `[^...]`.
    CharGroup { is_positive: bool, options: Vec<char> },
    /// `^`: zero-width, holds only at offset 0.
    StartAnchor,
    /// `$`: zero-width, holds only at the end of the input.
    EndAnchor,
    /// `+` (min 1, no max), `*` (min 0, no max) or `?` (min 0, max 1)
    /// applied to the preceding element.
    Quantifier { min: usize, max: Option<usize>, content: Box<RegexElement> },
}

/// The mathematical model of a pattern element: identical in shape to
/// `RegexElement`, with the character-group options as a sequence.
/// All contracts and matching semantics are stated over this type.
pub enum ElemModel {
    Wildcard,
    Literal(char),
    Class(RegexClass),
    CharGroup { is_positive: bool, options: Seq<char> },
    StartAnchor,
    EndAnchor,
    Quantifier { min: usize, max: Option<usize>, content: Box<ElemModel> },
}

/// The model of one pattern element.
pub open spec fn elem_model(e: &RegexElement) -> ElemModel
    decreases e,
{
    match e {
        RegexElement::Wildcard => ElemModel::Wildcard,
        RegexElement::Literal(c) => ElemModel::Literal(*c),
        RegexElement::Class(k) => ElemModel::Class(*k),
        RegexElement::CharGroup { is_positive, options } => ElemModel::CharGroup {
            is_positive: *is_positive,
            options: options@,
        },
        RegexElement::StartAnchor => ElemModel::StartAnchor,
        RegexElement::EndAnchor => ElemModel::EndAnchor,
        RegexElement::Quantifier { min, max, content } => ElemModel::Quantifier {
            min: *min,
            max: *max,
            content: Box::new(elem_model(&**content)),
        },
    }
}

impl View for RegexElement {
    type V = ElemModel;

    open spec fn view(&self) -> ElemModel {
        elem_model(self)
    }
}

/// The models of a sequence of pattern elements, in order.
pub open spec fn models_of(v: Seq<RegexElement>) -> Seq<ElemModel> {
    v.map_values(|e: RegexElement| e@)
}

/// A compiled pattern: an ordered sequence of elements. The compiler only
/// ever produces a non-empty sequence.
#[derive(Debug)]
pub struct Regex(pub Vec<RegexElement>);

impl View for Regex {
    type V = Seq<ElemModel>;

    open spec fn view(&self) -> Seq<ElemModel> {
        models_of(self.0@)
    }
}

/// The ways pattern compilation can fail. Matching itself is total and
/// never fails.
#[derive(Clone, Copy, PartialEq, Eq, Structural, Debug)]
pub enum CompileError {
    /// The pattern string produced zero elements.
    EmptyPattern,
    /// `\` followed by a character other than `d` or `w`.
    UnknownEscape(char),
    /// `\` as the last character of the pattern.
    DanglingEscape,
}

} // verus!

