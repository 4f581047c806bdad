use vstd::prelude::*;

use crate::matcher::chars_of;
use crate::pattern::{models_of, CompileError, ElemModel, Regex, RegexClass, RegexElement};

verus! {

/// The number of characters from `i` up to, but not including, the first
/// `]` at or after `i`; when no `]` follows, the count runs to the end of
/// the text.
pub open spec fn group_scan(s: Seq<char>, i: int) -> nat
    decreases s.len() - i,
{
    if i < 0 || i >= s.len() {
        0
    } else if s[i] == ']' {
        0
    } else {
        (1 + group_scan(s, i + 1)) as nat
    }
}

/// A group scan stays inside the text.
pub proof fn lemma_group_scan_bound(s: Seq<char>, i: int)
    ensures
        group_scan(s, i) == 0 || i + group_scan(s, i) <= s.len(),
    decreases s.len() - i,
{
    if 0 <= i < s.len() && s[i] != ']' {
        lemma_group_scan_bound(s, i + 1);
    }
}

/// One step of compilation: the element read at position `i` of the
/// pattern text together with the position just past it (past its
/// quantifier suffix, when one follows), `Ok(None)` when the text is
/// exhausted, or the error that aborts compilation.
///
/// A `[` group runs to the first following `]`, which is consumed. A group
/// with no closing `]` is not an error: it silently takes the rest of the
/// text as its options, a deliberate leniency of this engine's grammar.
pub open spec fn spec_read(s: Seq<char>, i: int) -> Result<
    Option<(ElemModel, int)>,
    CompileError,
> {
    if !(0 <= i < s.len()) {
        Ok(None)
    } else {
        match spec_read_atom(s, i) {
            Err(e) => Err(e),
            Ok((el, j)) => if 0 <= j < s.len() && s[j] == '+' {
                Ok(
                    Some(
                        (
                            ElemModel::Quantifier { min: 1, max: None, content: Box::new(el) },
                            j + 1,
                        ),
                    ),
                )
            } else if 0 <= j < s.len() && s[j] == '*' {
                Ok(
                    Some(
                        (
                            ElemModel::Quantifier { min: 0, max: None, content: Box::new(el) },
                            j + 1,
                        ),
                    ),
                )
            } else if 0 <= j < s.len() && s[j] == '?' {
                Ok(
                    Some(
                        (
                            ElemModel::Quantifier {
                                min: 0,
                                max: Some(1usize),
                                content: Box::new(el),
                            },
                            j + 1,
                        ),
                    ),
                )
            } else {
                Ok(Some((el, j)))
            },
        }
    }
}

/// The atomic element read at position `i` (which must hold a character),
/// before any quantifier suffix is considered, with the position just past
/// it.
pub open spec fn spec_read_atom(s: Seq<char>, i: int) -> Result<(ElemModel, int), CompileError> {
    {
        let c = s[i];
        if c == '.' {
            Ok((ElemModel::Wildcard, i + 1))
        } else if c == '\\' {
            if i + 1 >= s.len() {
                Err(CompileError::DanglingEscape)
            } else if s[i + 1] == 'd' {
                Ok((ElemModel::Class(RegexClass::Digit), i + 2))
            } else if s[i + 1] == 'w' {
                Ok((ElemModel::Class(RegexClass::Alphanumeric), i + 2))
            } else {
                Err(CompileError::UnknownEscape(s[i + 1]))
            }
        } else if c == '[' {
            let is_positive = !(i + 1 < s.len() && s[i + 1] == '^');
            let start = if is_positive {
                i + 1
            } else {
                i + 2
            };
            let n = group_scan(s, start) as int;
            let after = if start + n < s.len() {
                start + n + 1
            } else {
                start + n
            };
            Ok((ElemModel::CharGroup { is_positive, options: s.subrange(start, start + n) }, after))
        } else if c == '^' {
            Ok((ElemModel::StartAnchor, i + 1))
        } else if c == '$' {
            Ok((ElemModel::EndAnchor, i + 1))
        } else {
            Ok((ElemModel::Literal(c), i + 1))
        }
    }
}

/// Reading one element consumes at least one character and never runs
/// past the end of the text.
pub proof fn lemma_spec_read_advances(s: Seq<char>, i: int)
    requires
        0 <= i,
    ensures
        spec_read(s, i) matches Ok(Some((el, j))) ==> i + 1 <= j <= s.len(),
{
    if 0 <= i < s.len() {
        lemma_group_scan_bound(s, i + 1);
        lemma_group_scan_bound(s, i + 2);
    }
}

/// The elements read from position `i` to the end of the pattern text, or
/// the first error met on the way.
pub open spec fn spec_compile_from(s: Seq<char>, i: int) -> Result<Seq<ElemModel>, CompileError>
    decreases s.len() - i,
    via spec_compile_from_decreases
{
    match spec_read(s, i) {
        Err(e) => Err(e),
        Ok(None) => Ok(Seq::empty()),
        Ok(Some((el, j))) => match spec_compile_from(s, j) {
            Err(e) => Err(e),
            Ok(rest) => Ok(seq![el] + rest),
        },
    }
}

#[via_fn]
proof fn spec_compile_from_decreases(s: Seq<char>, i: int) {
    if 0 <= i {
        lemma_spec_read_advances(s, i);
    }
}

/// What compiling a whole pattern text yields: its element sequence in
/// order, or the error that aborted compilation. A text that yields no
/// elements at all is rejected as empty.
pub open spec fn spec_compile(s: Seq<char>) -> Result<Seq<ElemModel>, CompileError> {
    match spec_compile_from(s, 0) {
        Err(e) => Err(e),
        Ok(elems) => if elems.len() == 0 {
            Err(CompileError::EmptyPattern)
        } else {
            Ok(elems)
        },
    }
}

/// A position-tracking view over the pattern's characters: peek the next
/// character or consume it, with no external state threading.
pub struct Cursor {
    chars: Vec<char>,
    pos: usize,
}

impl Cursor {
    /// The full pattern text under the cursor.
    pub closed spec fn text(&self) -> Seq<char> {
        self.chars@
    }

    /// The position of the next character to read.
    pub closed spec fn position(&self) -> int {
        self.pos as int
    }

    /// The cursor never points past the end of the text.
    pub open spec fn wf(&self) -> bool {
        self.position() <= self.text().len()
    }

    /// A cursor at the start of `pattern`.
    pub fn new(pattern: &str) -> (c: Cursor)
        ensures
            c.text() == pattern@,
            c.position() == 0,
            c.wf(),
    {
        Cursor { chars: chars_of(pattern), pos: 0 }
    }

    /// Whether the text is exhausted.
    pub fn at_end(&self) -> (r: bool)
        requires
            self.wf(),
        ensures
            r == (self.position() == self.text().len()),
    {
        self.pos == self.chars.len()
    }

    /// Whether the next character exists and equals `c`, without consuming
    /// anything.
    pub fn peek_is(&self, c: char) -> (r: bool)
        ensures
            r == (0 <= self.position() < self.text().len() && self.text()[self.position()] == c),
    {
        if self.pos < self.chars.len() {
            self.chars[self.pos] == c
        } else {
            false
        }
    }

    /// Consumes and returns the next character.
    pub fn advance(&mut self) -> (c: char)
        requires
            old(self).wf(),
            old(self).position() < old(self).text().len(),
        ensures
            final(self).wf(),
            final(self).text() == old(self).text(),
            c == old(self).text()[old(self).position()],
            final(self).position() == old(self).position() + 1,
    {
        let c = self.chars[self.pos];
        let n = self.chars.len();
        assert(self.pos < n);
        self.pos = self.pos + 1;
        c
    }
}

impl RegexElement {
    /// Reads one element from the cursor: the atom at the cursor's
    /// position, wrapped in a `Quantifier` when a `+`, `*` or `?`
    /// immediately follows. `Ok(None)` means the text is exhausted.
    pub fn read(cursor: &mut Cursor) -> (r: Result<Option<RegexElement>, CompileError>)
        requires
            old(cursor).wf(),
        ensures
            final(cursor).wf(),
            final(cursor).text() == old(cursor).text(),
            (match spec_read(old(cursor).text(), old(cursor).position()) {
                Err(e) => r == Err::<Option<RegexElement>, CompileError>(e),
                Ok(None) => r == Ok::<Option<RegexElement>, CompileError>(None)
                    && final(cursor).position() == old(cursor).position(),
                Ok(Some((el, j))) => final(cursor).position() == j && (r matches Ok(Some(re))
                    && re@ == el),
            }),
    {
        let ghost s = cursor.text();
        let ghost i = cursor.position();
        if cursor.at_end() {
            return Ok(None);
        }
        let c = cursor.advance();
        let atom: RegexElement;
        if c == '.' {
            atom = RegexElement::Wildcard;
        } else if c == '\\' {
            if cursor.at_end() {
                return Err(CompileError::DanglingEscape);
            }
            let e = cursor.advance();
            if e == 'd' {
                atom = RegexElement::Class(RegexClass::Digit);
            } else if e == 'w' {
                atom = RegexElement::Class(RegexClass::Alphanumeric);
            } else {
                return Err(CompileError::UnknownEscape(e));
            }
        } else if c == '[' {
            let mut is_positive = true;
            if cursor.peek_is('^') {
                is_positive = false;
                let _ = cursor.advance();
            }
            let ghost start = cursor.position();
            let mut options: Vec<char> = Vec::new();
            assert(s.subrange(start, start) =~= options@);
            loop
                invariant_except_break
                    options@ == s.subrange(start, cursor.position()),
                    group_scan(s, start) == (cursor.position() - start) + group_scan(
                        s,
                        cursor.position(),
                    ),
                invariant
                    cursor.wf(),
                    cursor.text() == s,
                    start <= cursor.position() <= s.len(),
                ensures
                    cursor.wf(),
                    cursor.text() == s,
                    options@ == s.subrange(start, start + group_scan(s, start)),
                    cursor.position() == start + group_scan(s, start) + (if start + group_scan(
                        s,
                        start,
                    ) < s.len() {
                        1int
                    } else {
                        0int
                    }),
                decreases s.len() - cursor.position(),
            {
                let ghost before = cursor.position();
                if cursor.at_end() {
                    assert(group_scan(s, before) == 0);
                    assert(group_scan(s, start) == before - start);
                    break ;
                }
                let ch = cursor.advance();
                if ch == ']' {
                    assert(group_scan(s, before) == 0);
                    assert(group_scan(s, start) == before - start);
                    assert(start + group_scan(s, start) < s.len());
                    break ;
                }
                options.push(ch);
                assert(s.subrange(start, before + 1) =~= s.subrange(start, before).push(ch));
            }
            proof {
                assert(is_positive == !(i + 1 < s.len() && s[i + 1] == '^'));
                assert(start == (if is_positive {
                    i + 1
                } else {
                    i + 2
                }));
            }
            atom = RegexElement::CharGroup { is_positive, options };
        } else if c == '^' {
            atom = RegexElement::StartAnchor;
        } else if c == '$' {
            atom = RegexElement::EndAnchor;
        } else {
            atom = RegexElement::Literal(c);
        }
        let ghost j0 = cursor.position();
        assert(spec_read_atom(s, i) == Ok::<(ElemModel, int), CompileError>((atom@, j0)));
        let result: RegexElement;
        if cursor.peek_is('+') {
            let _ = cursor.advance();
            result = RegexElement::Quantifier { min: 1, max: None, content: Box::new(atom) };
        } else if cursor.peek_is('*') {
            let _ = cursor.advance();
            result = RegexElement::Quantifier { min: 0, max: None, content: Box::new(atom) };
        } else if cursor.peek_is('?') {
            let _ = cursor.advance();
            result = RegexElement::Quantifier { min: 0, max: Some(1), content: Box::new(atom) };
        } else {
            result = atom;
        }
        proof {
            assert(spec_read(s, i) == Ok::<Option<(ElemModel, int)>, CompileError>(
                Some((result@, cursor.position())),
            ));
        }
        Ok(Some(result))
    }
}

impl Regex {
    /// Compiles a pattern string into its element sequence. Returns
    /// exactly what the compilation model says: the elements in order, or
    /// the first error met, and `EmptyPattern` for a text that yields no
    /// elements.
    pub fn compile(pattern: &str) -> (r: Result<Regex, CompileError>)
        ensures
            (match spec_compile(pattern@) {
                Ok(elems) => (r matches Ok(re) && re@ == elems),
                Err(e) => r == Err::<Regex, CompileError>(e),
            }),
    {
        let ghost s = pattern@;
        let mut cursor = Cursor::new(pattern);
        let mut elements: Vec<RegexElement> = Vec::new();
        assert(models_of(elements@) + spec_compile_from(s, 0)->Ok_0 =~= spec_compile_from(
            s,
            0,
        )->Ok_0);
        loop
            invariant
                s == pattern@,
                cursor.wf(),
                cursor.text() == s,
                (match spec_compile_from(s, cursor.position()) {
                    Ok(rest) => spec_compile_from(s, 0) == Ok::<Seq<ElemModel>, CompileError>(
                        models_of(elements@) + rest,
                    ),
                    Err(e) => spec_compile_from(s, 0) == Err::<Seq<ElemModel>, CompileError>(e),
                }),
            ensures
                cursor.wf(),
                cursor.text() == s,
                spec_compile_from(s, 0) == Ok::<Seq<ElemModel>, CompileError>(
                    models_of(elements@),
                ),
            decreases s.len() - cursor.position(),
        {
            let ghost i = cursor.position();
            proof {
                lemma_spec_read_advances(s, i);
            }
            match RegexElement::read(&mut cursor) {
                Err(e) => {
                    assert(spec_compile_from(s, i) == Err::<Seq<ElemModel>, CompileError>(e));
                    assert(spec_compile(s) == Err::<Seq<ElemModel>, CompileError>(e));
                    return Err(e);
                },
                Ok(None) => {
                    assert(models_of(elements@) + Seq::<ElemModel>::empty() =~= models_of(
                        elements@,
                    ));
                    break ;
                },
                Ok(Some(el)) => {
                    proof {
                        let j = cursor.position();
                        let stepped = spec_read(s, i)->Ok_0->Some_0;
                        assert(stepped == (el@, j));
                        if spec_compile_from(s, j) is Ok {
                            let rest = spec_compile_from(s, j)->Ok_0;
                            assert(spec_compile_from(s, i) == Ok::<Seq<ElemModel>, CompileError>(
                                seq![el@] + rest,
                            ));
                            assert(models_of(elements@.push(el)) =~= models_of(elements@) + seq![
                                el@,
                            ]);
                            assert(models_of(elements@) + (seq![el@] + rest) =~= (models_of(
                                elements@,
                            ) + seq![el@]) + rest);
                        }
                    }
                    elements.push(el);
                },
            }
        }
        if elements.len() == 0 {
            return Err(CompileError::EmptyPattern);
        }
        Ok(Regex(elements))
    }
}

impl core::str::FromStr for Regex {
    type Err = CompileError;

    fn from_str(s: &str) -> Result<Regex, CompileError> {
        Regex::compile(s)
    }
}

} // verus!

