//! Errors as text, and byte positions as lines and columns.
use crate::check::{InvocationError, Mismatch};
use crate::parser::{ParseError, SyntaxError};
use crate::pipeline::{Error, Failure};
use crate::text::{count_byte, decimal, lit, push_bytes, push_decimal, push_text};
use crate::types::host_name;
use crate::validate::{NameKind, ValidationError, Violation, MAX_ARITY};
use vstd::prelude::*;

verus! {

/// The number of line feeds before `pos`: the line of `pos`, counted from
/// zero.
pub open spec fn line_index(s: Seq<u8>, pos: int) -> nat {
    count_byte(s.take(pos), 10)
}

/// Where the line of `pos` starts: after the last line feed before `pos`,
/// or at the start of the text.
pub open spec fn line_start(s: Seq<u8>, pos: int) -> int
    decreases pos,
{
    if pos <= 0 {
        0
    } else if s[pos - 1] == 10 {
        pos
    } else {
        line_start(s, pos - 1)
    }
}

/// The number of bytes between the start of the line of `pos` and `pos`:
/// the column of `pos`, counted from zero.
pub open spec fn column_index(s: Seq<u8>, pos: int) -> int {
    pos - line_start(s, pos)
}

/// The line and the column of the byte position `pos` of `src`, both
/// counted from zero. A position beyond the text counts as its end.
pub fn locate(src: &[u8], pos: usize) -> (r: (usize, usize))
    ensures
        pos <= src.len() ==> r.0 == line_index(src@, pos as int) && r.1 == column_index(
            src@,
            pos as int,
        ),
        pos > src.len() ==> r.0 == line_index(src@, src.len() as int) && r.1 == column_index(
            src@,
            src.len() as int,
        ),
{
    let end: usize = if pos <= src.len() {
        pos
    } else {
        src.len()
    };
    let mut line: usize = 0;
    let mut start: usize = 0;
    let mut k: usize = 0;
    while k < end
        invariant
            k <= end <= src.len(),
            line <= k,
            start <= k,
            line == line_index(src@, k as int),
            start == line_start(src@, k as int),
        decreases end - k,
    {
        assert(src@.take(k + 1).drop_last() =~= src@.take(k as int));
        if src[k] == 10 {
            line += 1;
            start = k + 1;
        }
        k += 1;
    }
    (line, end - start)
}

/// The word for a kind of name.
pub open spec fn kind_label(kind: NameKind) -> Seq<u8> {
    match kind {
        NameKind::Provider => lit("provider"@),
        NameKind::Probe => lit("probe"@),
        NameKind::Symbol => lit("symbol"@),
    }
}

/// A parse error in words.
pub open spec fn syntax_message(e: SyntaxError) -> Seq<u8> {
    match e {
        SyntaxError::UnexpectedToken { pos } => lit("unexpected token at byte "@) + decimal(
            pos as nat,
        ),
        SyntaxError::UnterminatedBlock { pos } => lit("unterminated block opened at byte "@)
            + decimal(pos as nat),
        SyntaxError::UnknownType { name, pos } => lit("unknown type `"@) + name + lit(
            "` at byte "@,
        ) + decimal(pos as nat),
    }
}

/// A violation in words.
pub open spec fn violation_message(v: Violation) -> Seq<u8> {
    match v {
        Violation::DuplicateName { kind, name } => lit("duplicate "@) + kind_label(kind) + lit(
            " name `"@,
        ) + name + lit("`"@),
        Violation::InvalidIdentifier { name } => lit("invalid identifier `"@) + name + lit("`"@),
        Violation::ArityTooLarge { probe, count } => lit("probe `"@) + probe + lit("` takes "@)
            + decimal(count as nat) + lit(" arguments, more than "@) + decimal(MAX_ARITY as nat),
    }
}

/// A mismatch of a firing site in words.
pub open spec fn mismatch_message(m: Mismatch) -> Seq<u8> {
    match m {
        Mismatch::Arity { probe, expected, actual } => lit("probe `"@) + probe + lit(
            "` takes "@,
        ) + decimal(expected as nat) + lit(" arguments, found "@) + decimal(actual as nat),
        Mismatch::Type { probe, position, expected, actual } => lit("probe `"@) + probe + lit(
            "` takes `"@,
        ) + host_name(expected) + lit("` at position "@) + decimal(position as nat) + lit(
            ", found `"@,
        ) + host_name(actual) + lit("`"@),
    }
}

/// The messages of the first `n` of `violations`, each on a line of its
/// own.
pub open spec fn violation_lines(violations: Seq<Violation>, n: int) -> Seq<u8>
    decreases n,
{
    if n <= 0 {
        Seq::empty()
    } else {
        violation_lines(violations, n - 1) + violation_message(violations[n - 1]) + lit("\n"@)
    }
}

/// A failure in words: a syntax error on one line, violations on a line
/// each.
pub open spec fn failure_message(f: Failure) -> Seq<u8> {
    match f {
        Failure::Syntax(e) => syntax_message(e) + lit("\n"@),
        Failure::Invalid(violations) => violation_lines(violations, violations.len() as int),
    }
}

impl NameKind {
    /// The word for this kind of name: `provider`, `probe` or `symbol`.
    pub fn label(self) -> (r: Vec<u8>)
        ensures
            r@ == kind_label(self),
    {
        let mut out: Vec<u8> = Vec::new();
        match self {
            NameKind::Provider => push_text(&mut out, "provider"),
            NameKind::Probe => push_text(&mut out, "probe"),
            NameKind::Symbol => push_text(&mut out, "symbol"),
        }
        assert(out@ =~= kind_label(self));
        out
    }
}

impl ParseError {
    /// This error in words.
    pub fn describe(&self) -> (r: Vec<u8>)
        ensures
            r@ == syntax_message(self@),
    {
        let mut out: Vec<u8> = Vec::new();
        match self {
            ParseError::UnexpectedToken { pos } => {
                push_text(&mut out, "unexpected token at byte ");
                push_decimal(&mut out, *pos);
            },
            ParseError::UnterminatedBlock { pos } => {
                push_text(&mut out, "unterminated block opened at byte ");
                push_decimal(&mut out, *pos);
            },
            ParseError::UnknownType { name, pos } => {
                push_text(&mut out, "unknown type `");
                push_bytes(&mut out, name.as_slice());
                push_text(&mut out, "` at byte ");
                push_decimal(&mut out, *pos);
            },
        }
        assert(out@ =~= syntax_message(self@));
        out
    }
}

impl ValidationError {
    /// This violation in words.
    pub fn describe(&self) -> (r: Vec<u8>)
        ensures
            r@ == violation_message(self@),
    {
        let mut out: Vec<u8> = Vec::new();
        match self {
            ValidationError::DuplicateName { kind, name } => {
                push_text(&mut out, "duplicate ");
                let word = kind.label();
                push_bytes(&mut out, word.as_slice());
                push_text(&mut out, " name `");
                push_bytes(&mut out, name.as_slice());
                push_text(&mut out, "`");
            },
            ValidationError::InvalidIdentifier { name } => {
                push_text(&mut out, "invalid identifier `");
                push_bytes(&mut out, name.as_slice());
                push_text(&mut out, "`");
            },
            ValidationError::ArityTooLarge { probe, count } => {
                push_text(&mut out, "probe `");
                push_bytes(&mut out, probe.as_slice());
                push_text(&mut out, "` takes ");
                push_decimal(&mut out, *count);
                push_text(&mut out, " arguments, more than ");
                push_decimal(&mut out, MAX_ARITY);
            },
        }
        assert(out@ =~= violation_message(self@));
        out
    }
}

impl InvocationError {
    /// This mismatch in words.
    pub fn describe(&self) -> (r: Vec<u8>)
        ensures
            r@ == mismatch_message(self@),
    {
        let mut out: Vec<u8> = Vec::new();
        match self {
            InvocationError::ArityMismatch { probe, expected, actual } => {
                push_text(&mut out, "probe `");
                push_bytes(&mut out, probe.as_slice());
                push_text(&mut out, "` takes ");
                push_decimal(&mut out, *expected);
                push_text(&mut out, " arguments, found ");
                push_decimal(&mut out, *actual);
            },
            InvocationError::TypeMismatch { probe, position, expected, actual } => {
                push_text(&mut out, "probe `");
                push_bytes(&mut out, probe.as_slice());
                push_text(&mut out, "` takes `");
                expected.push_name(&mut out);
                push_text(&mut out, "` at position ");
                push_decimal(&mut out, *position);
                push_text(&mut out, ", found `");
                actual.push_name(&mut out);
                push_text(&mut out, "`");
            },
        }
        assert(out@ =~= mismatch_message(self@));
        out
    }
}

impl Error {
    /// This error in words, each message on a line of its own.
    pub fn describe(&self) -> (r: Vec<u8>)
        ensures
            r@ == failure_message(self@),
    {
        let mut out: Vec<u8> = Vec::new();
        match self {
            Error::Syntax(e) => {
                let message = e.describe();
                push_bytes(&mut out, message.as_slice());
                push_text(&mut out, "\n");
                assert(out@ =~= failure_message(self@));
            },
            Error::Invalid(errors) => {
                let mut i: usize = 0;
                while i < errors.len()
                    invariant
                        i <= errors.len(),
                        self@ == Failure::Invalid(crate::validate::violations_view(errors@)),
                        out@ == violation_lines(
                            crate::validate::violations_view(errors@),
                            i as int,
                        ),
                    decreases errors.len() - i,
                {
                    let message = errors[i].describe();
                    push_bytes(&mut out, message.as_slice());
                    push_text(&mut out, "\n");
                    assert(out@ =~= violation_lines(
                        crate::validate::violations_view(errors@),
                        i + 1,
                    ));
                    i += 1;
                }
            },
        }
        out
    }
}

} // verus!
