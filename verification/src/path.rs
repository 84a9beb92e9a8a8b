//! Derivation paths: their text form, read and written.
//!
//! A path is written as `m`, then for each step a `/`, the index in decimal
//! and, for a hardened step, an apostrophe: `m/84'/0'/0'/0/7`. The leading
//! `m` may be left out when reading.

use crate::error::WalletError;
use crate::text::{
    all_digits, chars_of, decimal_text, decimal_value, digit_of, fields, lemma_decimal_prefix,
    lemma_decimal_text, lemma_split_append, push_decimal, split, split_chars,
};
use vstd::prelude::*;

verus! {

/// The first child number of the hardened range, 2^31.
pub const HARDENED_OFFSET: u32 = 0x8000_0000;

/// One step of a path: an index below 2^31 and whether the step is hardened.
#[derive(Clone, Copy, Debug, PartialEq, Eq, Structural)]
pub struct PathStep {
    pub index: u32,
    pub hardened: bool,
}

/// An ordered list of steps from the master key.
#[derive(Debug, PartialEq, Eq)]
pub struct DerivationPath {
    pub steps: Vec<PathStep>,
}

impl View for DerivationPath {
    type V = Seq<PathStep>;

    open spec fn view(&self) -> Seq<PathStep> {
        self.steps@
    }
}

impl PathStep {
    /// The index is in the range that a step can have.
    pub open spec fn wf(self) -> bool {
        self.index < HARDENED_OFFSET
    }

    /// The child number of the step: the index, plus 2^31 if hardened.
    pub open spec fn child_number(self) -> int {
        if self.hardened {
            self.index + HARDENED_OFFSET
        } else {
            self.index as int
        }
    }

    /// A step, or `IndexOutOfRange` for an index of 2^31 or more.
    pub fn new(index: u32, hardened: bool) -> (r: Result<PathStep, WalletError>)
        ensures
            index < HARDENED_OFFSET ==> r == Ok::<PathStep, WalletError>(
                PathStep { index, hardened },
            ),
            index >= HARDENED_OFFSET ==> r == Err::<PathStep, WalletError>(
                WalletError::IndexOutOfRange,
            ),
    {
        if index < HARDENED_OFFSET {
            Ok(PathStep { index, hardened })
        } else {
            Err(WalletError::IndexOutOfRange)
        }
    }

    /// The child number of the step, or `None` if the index is out of range.
    pub fn number(&self) -> (r: Option<u32>)
        ensures
            self.wf() ==> r == Some(self.child_number() as u32) && r.unwrap()
                == self.child_number(),
            !self.wf() ==> r is None,
    {
        if self.index >= HARDENED_OFFSET {
            None
        } else if self.hardened {
            Some(self.index + HARDENED_OFFSET)
        } else {
            Some(self.index)
        }
    }
}

/// Every step has an index below 2^31.
pub open spec fn steps_wf(steps: Seq<PathStep>) -> bool {
    forall|i: int| 0 <= i < steps.len() ==> (#[trigger] steps[i]).wf()
}

/// The step that a field between slashes denotes, if it denotes one: one or
/// more digits that stand for a number below 2^31, then an optional apostrophe.
pub open spec fn parse_step_spec(field: Seq<char>) -> Option<PathStep> {
    let hardened = field.len() > 0 && field.last() == '\'';
    let digits = if hardened {
        field.drop_last()
    } else {
        field
    };
    if digits.len() > 0 && all_digits(digits) && decimal_value(digits) < HARDENED_OFFSET {
        Some(PathStep { index: decimal_value(digits) as u32, hardened })
    } else {
        None
    }
}

/// The steps that a list of fields denotes, if every field denotes one.
pub open spec fn parse_steps_spec(fields: Seq<Seq<char>>) -> Option<Seq<PathStep>>
    decreases fields.len(),
{
    if fields.len() == 0 {
        Some(Seq::<PathStep>::empty())
    } else {
        match (parse_steps_spec(fields.drop_last()), parse_step_spec(fields.last())) {
            (Some(steps), Some(step)) => Some(steps.push(step)),
            _ => None,
        }
    }
}

/// The path that a text denotes, if it denotes one. The text is divided at
/// the slashes; a first field `m` is passed over; every other field must be
/// a step. So `m` alone is the empty path, and an empty field is an error.
pub open spec fn parse_path_spec(text: Seq<char>) -> Option<Seq<PathStep>> {
    let all = split(text, '/');
    if all[0] == seq!['m'] {
        parse_steps_spec(all.skip(1))
    } else {
        parse_steps_spec(all)
    }
}

/// The text of one step.
pub open spec fn render_step_spec(step: PathStep) -> Seq<char> {
    if step.hardened {
        decimal_text(step.index as nat).push('\'')
    } else {
        decimal_text(step.index as nat)
    }
}

/// The text of a path, with the leading `m`.
pub open spec fn render_path_spec(steps: Seq<PathStep>) -> Seq<char>
    decreases steps.len(),
{
    if steps.len() == 0 {
        seq!['m']
    } else {
        render_path_spec(steps.drop_last()) + seq!['/'] + render_step_spec(steps.last())
    }
}

/// Reading the text of a step gives the step back.
pub proof fn lemma_parse_render_step(step: PathStep)
    requires
        step.wf(),
    ensures
        parse_step_spec(render_step_spec(step)) == Some(step),
        forall|i: int|
            0 <= i < render_step_spec(step).len() ==> render_step_spec(step)[i] != '/',
{
    let digits = decimal_text(step.index as nat);
    lemma_decimal_text(step.index as nat);
    let text = render_step_spec(step);
    assert forall|i: int| 0 <= i < digits.len() implies digits[i] != '/' && digits[i]
        != '\'' by {}
    if step.hardened {
        assert(text.drop_last() =~= digits);
    }
}

/// What the fields of a written path are: `m`, then the text of each step.
pub proof fn lemma_split_rendered(steps: Seq<PathStep>)
    requires
        steps_wf(steps),
    ensures
        split(render_path_spec(steps), '/') == seq![seq!['m']] + Seq::new(
            steps.len(),
            |i: int| render_step_spec(steps[i]),
        ),
    decreases steps.len(),
{
    if steps.len() == 0 {
        assert(split(seq!['m'].drop_last(), '/') =~= seq![Seq::<char>::empty()]);
    } else {
        let front = steps.drop_last();
        lemma_split_rendered(front);
        lemma_parse_render_step(steps.last());
        lemma_split_append(render_path_spec(front), '/', render_step_spec(steps.last()));
    }
}

/// Reading the texts of steps gives the steps back.
pub proof fn lemma_parse_rendered_steps(steps: Seq<PathStep>)
    requires
        steps_wf(steps),
    ensures
        parse_steps_spec(Seq::new(steps.len(), |i: int| render_step_spec(steps[i]))) == Some(
            steps,
        ),
    decreases steps.len(),
{
    if steps.len() > 0 {
        let rendered = Seq::new(steps.len(), |i: int| render_step_spec(steps[i]));
        let front = steps.drop_last();
        lemma_parse_rendered_steps(front);
        lemma_parse_render_step(steps.last());
        assert(rendered.drop_last() =~= Seq::new(
            front.len(),
            |i: int| render_step_spec(front[i]),
        ));
    }
}

/// A path that is written and read back is the same path.
pub proof fn lemma_parse_render(steps: Seq<PathStep>)
    requires
        steps_wf(steps),
    ensures
        parse_path_spec(render_path_spec(steps)) == Some(steps),
{
    lemma_split_rendered(steps);
    lemma_parse_rendered_steps(steps);
    let rendered = Seq::new(steps.len(), |i: int| render_step_spec(steps[i]));
    let all = split(render_path_spec(steps), '/');
    assert(all.skip(1) =~= rendered);
}

/// Every step that is read from text has its index in range.
pub proof fn lemma_parsed_steps_wf(fields: Seq<Seq<char>>)
    ensures
        parse_steps_spec(fields) matches Some(steps) ==> steps_wf(steps) && steps.len()
            == fields.len(),
    decreases fields.len(),
{
    if fields.len() > 0 {
        lemma_parsed_steps_wf(fields.drop_last());
    }
}

/// Reads one field between slashes.
#[verifier::loop_isolation(false)]
pub fn parse_step(field: &Vec<char>) -> (r: Option<PathStep>)
    ensures
        r == parse_step_spec(field@),
{
    let n = field.len();
    if n == 0 {
        return None;
    }
    let hardened = field[n - 1] == '\'';
    let end = if hardened {
        n - 1
    } else {
        n
    };
    let ghost digits = if hardened {
        field@.drop_last()
    } else {
        field@
    };
    if end == 0 {
        return None;
    }
    let mut value: u32 = 0;
    let mut i: usize = 0;
    while i < end
        invariant
            i <= end <= field.len(),
            digits == field@.take(end as int),
            all_digits(digits.take(i as int)),
            value == decimal_value(digits.take(i as int)),
            value < HARDENED_OFFSET,
        decreases end - i,
    {
        proof {
            assert(digits.take(i + 1).drop_last() =~= digits.take(i as int));
            lemma_decimal_prefix(digits, i + 1);
        }
        match digit_of(field[i]) {
            None => {
                return None;
            },
            Some(d) => {
                let next: u64 = value as u64 * 10 + d as u64;
                if next >= HARDENED_OFFSET as u64 {
                    return None;
                }
                value = next as u32;
            },
        }
        i += 1;
    }
    assert(digits.take(end as int) =~= digits);
    Some(PathStep { index: value, hardened })
}

impl DerivationPath {
    /// The path without steps, which names the master key.
    pub fn master() -> (r: DerivationPath)
        ensures
            r@ == Seq::<PathStep>::empty(),
    {
        DerivationPath { steps: Vec::new() }
    }

    /// The number of steps.
    pub fn len(&self) -> (r: usize)
        ensures
            r == self@.len(),
    {
        self.steps.len()
    }

    /// The same path, as a value of its own.
    pub fn duplicate(&self) -> (r: DerivationPath)
        ensures
            r@ == self@,
    {
        let mut steps: Vec<PathStep> = Vec::new();
        let mut i: usize = 0;
        while i < self.steps.len()
            invariant
                i <= self.steps.len(),
                steps@ == self.steps@.take(i as int),
            decreases self.steps.len() - i,
        {
            steps.push(self.steps[i]);
            i += 1;
        }
        DerivationPath { steps }
    }

    /// This path with one more step at its end.
    pub fn child(&self, step: PathStep) -> (r: DerivationPath)
        ensures
            r@ == self@.push(step),
    {
        let mut path = self.duplicate();
        path.steps.push(step);
        path
    }

    /// Whether every step has its index below 2^31.
    pub fn is_wf(&self) -> (r: bool)
        ensures
            r == steps_wf(self@),
    {
        let mut i: usize = 0;
        while i < self.steps.len()
            invariant
                i <= self.steps.len(),
                steps_wf(self.steps@.take(i as int)),
            decreases self.steps.len() - i,
        {
            if self.steps[i].index >= HARDENED_OFFSET {
                return false;
            }
            proof {
                assert forall|k: int| 0 <= k < i + 1 implies (#[trigger] self.steps@.take(
                    i + 1,
                )[k]).wf() by {}
            }
            i += 1;
        }
        proof {
            assert(self.steps@.take(i as int) =~= self.steps@);
        }
        true
    }

    /// Writes the path as text, with the leading `m`.
    pub fn render(&self) -> (r: String)
        ensures
            r@ == render_path_spec(self@),
    {
        let mut out = String::from_str("m");
        proof {
            reveal_strlit("m");
            reveal_strlit("/");
            reveal_strlit("'");
        }
        let mut i: usize = 0;
        while i < self.steps.len()
            invariant
                i <= self.steps.len(),
                out@ == render_path_spec(self@.take(i as int)),
                "/"@ == seq!['/'],
                "'"@ == seq!['\''],
            decreases self.steps.len() - i,
        {
            let step = self.steps[i];
            out.append("/");
            push_decimal(&mut out, step.index);
            if step.hardened {
                out.append("'");
            }
            proof {
                assert(self@.take(i + 1).drop_last() =~= self@.take(i as int));
            }
            i += 1;
        }
        proof {
            assert(self@.take(i as int) =~= self@);
        }
        out
    }
}

/// Reads a path from its text. Fails with `MalformedPath` on an empty
/// field, a field that is not a number with an optional apostrophe, or an
/// index of 2^31 or more.
#[verifier::loop_isolation(false)]
pub fn parse(text: &str) -> (r: Result<DerivationPath, WalletError>)
    ensures
        match r {
            Ok(path) => parse_path_spec(text@) == Some(path@) && steps_wf(path@),
            Err(e) => parse_path_spec(text@) is None && e == WalletError::MalformedPath,
        },
{
    let chars = chars_of(text);
    let all = split_chars(&chars, '/');
    let ghost all_fields = fields(all@);
    let first = &all[0];
    let start: usize = if first.len() == 1 && first[0] == 'm' {
        1
    } else {
        0
    };
    proof {
        if start == 1 {
            assert(first@ =~= seq!['m']);
        } else {
            assert(first@ != seq!['m']);
        }
    }
    let mut steps: Vec<PathStep> = Vec::new();
    let mut k: usize = start;
    while k < all.len()
        invariant
            start <= k <= all.len(),
            all_fields == fields(all@),
            parse_steps_spec(all_fields.subrange(start as int, k as int)) == Some(steps@),
        decreases all.len() - k,
    {
        let ghost upto = all_fields.subrange(start as int, k + 1);
        proof {
            assert(upto.drop_last() =~= all_fields.subrange(start as int, k as int));
        }
        match parse_step(&all[k]) {
            None => {
                proof {
                    lemma_parse_fails_later(all_fields, start as int, k + 1);
                    assert(all_fields.skip(0) =~= all_fields);
                }
                return Err(WalletError::MalformedPath);
            },
            Some(step) => {
                steps.push(step);
            },
        }
        k += 1;
    }
    proof {
        assert(all_fields.skip(0) =~= all_fields);
        lemma_parsed_steps_wf(all_fields.skip(start as int));
    }
    Ok(DerivationPath { steps })
}

/// Once a field fails to parse, no longer list of fields parses.
pub proof fn lemma_parse_fails_later(all: Seq<Seq<char>>, start: int, bad: int)
    requires
        0 <= start < bad <= all.len(),
        parse_steps_spec(all.subrange(start, bad)) is None,
    ensures
        parse_steps_spec(all.skip(start)) is None,
    decreases all.len() - bad,
{
    if bad < all.len() {
        assert(all.subrange(start, bad + 1).drop_last() =~= all.subrange(start, bad));
        lemma_parse_fails_later(all, start, bad + 1);
    }
}

} // verus!
