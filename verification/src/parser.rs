//! The parser of definition files.
//!
//! The grammar, over ASCII bytes:
//!
//! ```text
//! file     := gap (provider gap)*
//! provider := "provider" gap name gap "{" gap (probe gap)* "}" [gap ";"]
//! probe    := "probe" gap name gap "(" gap [types] ")" gap ";"
//! types    := type gap ("," gap type gap)* ["," gap]
//! type     := word [gap "*"]
//! name     := letter (letter | digit | "_")*
//! word     := (letter | digit | "_")+
//! gap      := (space | tab | CR | LF | "/*" ... "*/" | "//" ... LF)*
//! ```
//!
//! A word ends at the first byte that cannot stand in a word, so `probe` and
//! the name after it need a gap between them. A block comment ends at the
//! first `*/` after its `/*`; a line comment ends at the end of its line or of
//! the file. A type is known by its word, with `*` added when one follows.
//! Parsing stops at the first error.
use crate::model::{providers_view, probes_view, File, Probe, ProbeSpec, Provider, ProviderSpec};
use crate::text::{is_identifier, is_letter, is_word_byte, letter, lit, spells, word_byte};
use crate::validate::{probes_well_named, well_named};
use crate::types::{type_named, DataType};
use vstd::prelude::*;

verus! {

/// Why a file was not parsed, and where: `pos` counts bytes from the start
/// of the file.
#[derive(Clone, Debug, PartialEq, Eq)]
pub enum ParseError {
    /// The byte at `pos` cannot stand there; `pos` is the length of the file
    /// when the file ends too early.
    UnexpectedToken { pos: usize },
    /// The block comment that opens at `pos` is not closed, or the file ends
    /// inside the provider whose `{` stands at `pos`, where a probe or `}`
    /// was due.
    UnterminatedBlock { pos: usize },
    /// The type spelled `name` at `pos` is not in the table.
    UnknownType { name: Vec<u8>, pos: usize },
}

/// What a parse error is, as mathematics.
pub enum SyntaxError {
    UnexpectedToken { pos: int },
    UnterminatedBlock { pos: int },
    UnknownType { name: Seq<u8>, pos: int },
}

impl View for ParseError {
    type V = SyntaxError;

    open spec fn view(&self) -> SyntaxError {
        match self {
            ParseError::UnexpectedToken { pos } => SyntaxError::UnexpectedToken { pos: *pos as int },
            ParseError::UnterminatedBlock { pos } => SyntaxError::UnterminatedBlock {
                pos: *pos as int,
            },
            ParseError::UnknownType { name, pos } => SyntaxError::UnknownType {
                name: name@,
                pos: *pos as int,
            },
        }
    }
}

/// Where the scan of a gap stands: between comments, inside the block
/// comment that opened at the given position, or inside a line comment.
pub enum Scan {
    Code,
    Block(int),
    Line,
}

/// A byte of white space: a space, a tab, a line feed or a carriage return.
pub open spec fn is_space(b: u8) -> bool {
    b == 32 || b == 9 || b == 10 || b == 13
}

/// Whether the byte at `pos` is `b`.
pub open spec fn byte_at(s: Seq<u8>, pos: int, b: u8) -> bool {
    0 <= pos < s.len() && s[pos] == b
}

/// The end of the gap that is being scanned at `pos` in state `mode`.
pub open spec fn gap_scan(s: Seq<u8>, pos: int, mode: Scan) -> Result<int, SyntaxError>
    decreases s.len() - pos,
{
    match mode {
        Scan::Code => if pos < 0 || pos >= s.len() {
            Ok(pos)
        } else if is_space(s[pos]) {
            gap_scan(s, pos + 1, Scan::Code)
        } else if s[pos] == 47 && byte_at(s, pos + 1, 42) {
            gap_scan(s, pos + 2, Scan::Block(pos))
        } else if s[pos] == 47 && byte_at(s, pos + 1, 47) {
            gap_scan(s, pos + 2, Scan::Line)
        } else {
            Ok(pos)
        },
        Scan::Block(start) => if pos < 0 || pos + 1 >= s.len() {
            Err(SyntaxError::UnterminatedBlock { pos: start })
        } else if s[pos] == 42 && s[pos + 1] == 47 {
            gap_scan(s, pos + 2, Scan::Code)
        } else {
            gap_scan(s, pos + 1, Scan::Block(start))
        },
        Scan::Line => if pos < 0 || pos >= s.len() {
            Ok(pos)
        } else if s[pos] == 10 {
            gap_scan(s, pos + 1, Scan::Code)
        } else {
            gap_scan(s, pos + 1, Scan::Line)
        },
    }
}

/// The end of the gap that starts at `pos`: the position of the first byte
/// at or after `pos` that is neither white space nor inside a comment.
pub open spec fn gap_end(s: Seq<u8>, pos: int) -> Result<int, SyntaxError> {
    gap_scan(s, pos, Scan::Code)
}

/// The end of the word that starts at `pos`; `pos` itself when no word
/// starts there.
pub open spec fn word_end(s: Seq<u8>, pos: int) -> int
    decreases s.len() - pos,
{
    if 0 <= pos < s.len() && is_word_byte(s[pos]) {
        word_end(s, pos + 1)
    } else {
        pos
    }
}

/// Whether the word at `pos` is `word`.
pub open spec fn word_at(s: Seq<u8>, pos: int, word: Seq<u8>) -> bool {
    s.subrange(pos, word_end(s, pos)) == word
}

/// A gap that starts in the text ends in the text, at or after its start.
pub proof fn lemma_gap_bounds(s: Seq<u8>, pos: int, mode: Scan)
    requires
        0 <= pos <= s.len(),
    ensures
        gap_scan(s, pos, mode) matches Ok(end) ==> pos <= end <= s.len(),
    decreases s.len() - pos,
{
    match mode {
        Scan::Code => {
            if pos < s.len() {
                if is_space(s[pos]) {
                    lemma_gap_bounds(s, pos + 1, Scan::Code);
                } else if s[pos] == 47 && byte_at(s, pos + 1, 42) {
                    lemma_gap_bounds(s, pos + 2, Scan::Block(pos));
                } else if s[pos] == 47 && byte_at(s, pos + 1, 47) {
                    lemma_gap_bounds(s, pos + 2, Scan::Line);
                }
            }
        },
        Scan::Block(start) => {
            if pos + 1 < s.len() {
                if s[pos] == 42 && s[pos + 1] == 47 {
                    lemma_gap_bounds(s, pos + 2, Scan::Code);
                } else {
                    lemma_gap_bounds(s, pos + 1, Scan::Block(start));
                }
            }
        },
        Scan::Line => {
            if pos < s.len() {
                if s[pos] == 10 {
                    lemma_gap_bounds(s, pos + 1, Scan::Code);
                } else {
                    lemma_gap_bounds(s, pos + 1, Scan::Line);
                }
            }
        },
    }
}

/// A word that starts in the text ends in the text; it holds bytes of
/// words only, and the byte after it is none.
pub proof fn lemma_word_bounds(s: Seq<u8>, pos: int)
    requires
        0 <= pos <= s.len(),
    ensures
        pos <= word_end(s, pos) <= s.len(),
        forall|i: int| pos <= i < word_end(s, pos) ==> is_word_byte(#[trigger] s[i]),
        word_end(s, pos) < s.len() ==> !is_word_byte(s[word_end(s, pos)]),
    decreases s.len() - pos,
{
    if pos < s.len() && is_word_byte(s[pos]) {
        lemma_word_bounds(s, pos + 1);
    }
}

/// The name that starts at `pos`, and where it ends.
pub open spec fn name_at(s: Seq<u8>, pos: int) -> Result<(Seq<u8>, int), SyntaxError> {
    let end = word_end(s, pos);
    if end > pos && is_letter(s[pos]) {
        Ok((s.subrange(pos, end), end))
    } else {
        Err(SyntaxError::UnexpectedToken { pos })
    }
}

/// The type that starts at `pos`, and where it ends.
pub open spec fn type_at(s: Seq<u8>, pos: int) -> Result<(DataType, int), SyntaxError> {
    let end = word_end(s, pos);
    if end <= pos {
        Err(SyntaxError::UnexpectedToken { pos })
    } else {
        match gap_end(s, end) {
            Err(e) => Err(e),
            Ok(star) => {
                let pointer = byte_at(s, star, 42);
                let word = s.subrange(pos, end);
                let name = if pointer {
                    word.push(42)
                } else {
                    word
                };
                match type_named(name) {
                    Some(d) => Ok(
                        (
                            d,
                            if pointer {
                                star + 1
                            } else {
                                end
                            },
                        ),
                    ),
                    None => Err(SyntaxError::UnknownType { name, pos }),
                }
            },
        }
    }
}

/// A type takes at least one byte and ends in the text.
pub proof fn lemma_type_bounds(s: Seq<u8>, pos: int)
    ensures
        type_at(s, pos) matches Ok((_, next)) ==> 0 <= pos < next <= s.len(),
{
    if word_end(s, pos) > pos {
        lemma_word_bounds(s, pos);
        lemma_gap_bounds(s, word_end(s, pos), Scan::Code);
    }
}

/// The rest of a list of types, from `pos` to its `)`: `pos` stands after a
/// gap, where a type or `)` is due, and `acc` holds the types read so far.
pub open spec fn args_from(s: Seq<u8>, pos: int, acc: Seq<DataType>) -> Result<
    (Seq<DataType>, int),
    SyntaxError,
>
    decreases s.len() - pos,
{
    if byte_at(s, pos, 41) {
        Ok((acc, pos + 1))
    } else {
        match type_at(s, pos) {
            Err(e) => Err(e),
            Ok((d, c1)) => match gap_end(s, c1) {
                Err(e) => Err(e),
                Ok(c2) => if byte_at(s, c2, 44) {
                    match gap_end(s, c2 + 1) {
                        Err(e) => Err(e),
                        Ok(c3) => {
                            proof {
                                lemma_type_bounds(s, pos);
                                lemma_gap_bounds(s, c1, Scan::Code);
                                lemma_gap_bounds(s, c2 + 1, Scan::Code);
                            }
                            args_from(s, c3, acc.push(d))
                        },
                    }
                } else if byte_at(s, c2, 41) {
                    Ok((acc.push(d), c2 + 1))
                } else {
                    Err(SyntaxError::UnexpectedToken { pos: c2 })
                },
            },
        }
    }
}

/// A list of types takes at least one byte and ends in the text.
pub proof fn lemma_args_bounds(s: Seq<u8>, pos: int, acc: Seq<DataType>)
    requires
        0 <= pos <= s.len(),
    ensures
        args_from(s, pos, acc) matches Ok((_, next)) ==> pos < next <= s.len(),
    decreases s.len() - pos,
{
    if !byte_at(s, pos, 41) {
        lemma_type_bounds(s, pos);
        if let Ok((d, c1)) = type_at(s, pos) {
            lemma_gap_bounds(s, c1, Scan::Code);
            if let Ok(c2) = gap_end(s, c1) {
                if byte_at(s, c2, 44) {
                    lemma_gap_bounds(s, c2 + 1, Scan::Code);
                    if let Ok(c3) = gap_end(s, c2 + 1) {
                        lemma_args_bounds(s, c3, acc.push(d));
                    }
                }
            }
        }
    }
}

/// The probe whose keyword starts at `pos`, and where it ends.
pub open spec fn probe_at(s: Seq<u8>, pos: int) -> Result<(ProbeSpec, int), SyntaxError> {
    if !word_at(s, pos, lit("probe"@)) {
        Err(SyntaxError::UnexpectedToken { pos })
    } else {
        match gap_end(s, word_end(s, pos)) {
            Err(e) => Err(e),
            Ok(c1) => match name_at(s, c1) {
                Err(e) => Err(e),
                Ok((name, c2)) => match gap_end(s, c2) {
                    Err(e) => Err(e),
                    Ok(c3) => if !byte_at(s, c3, 40) {
                        Err(SyntaxError::UnexpectedToken { pos: c3 })
                    } else {
                        match gap_end(s, c3 + 1) {
                            Err(e) => Err(e),
                            Ok(c4) => match args_from(s, c4, Seq::empty()) {
                                Err(e) => Err(e),
                                Ok((args, c5)) => match gap_end(s, c5) {
                                    Err(e) => Err(e),
                                    Ok(c6) => if !byte_at(s, c6, 59) {
                                        Err(SyntaxError::UnexpectedToken { pos: c6 })
                                    } else {
                                        Ok((ProbeSpec { name, args }, c6 + 1))
                                    },
                                },
                            },
                        }
                    },
                },
            },
        }
    }
}

/// A probe takes at least one byte and ends in the text.
pub proof fn lemma_probe_bounds(s: Seq<u8>, pos: int)
    requires
        0 <= pos <= s.len(),
    ensures
        probe_at(s, pos) matches Ok((_, next)) ==> pos < next <= s.len(),
{
    lemma_word_bounds(s, pos);
    lemma_gap_bounds(s, word_end(s, pos), Scan::Code);
    if let Ok(c1) = gap_end(s, word_end(s, pos)) {
        lemma_word_bounds(s, c1);
        if let Ok((name, c2)) = name_at(s, c1) {
            lemma_gap_bounds(s, c2, Scan::Code);
            if let Ok(c3) = gap_end(s, c2) {
                if byte_at(s, c3, 40) {
                    lemma_gap_bounds(s, c3 + 1, Scan::Code);
                    if let Ok(c4) = gap_end(s, c3 + 1) {
                        lemma_args_bounds(s, c4, Seq::empty());
                        if let Ok((args, c5)) = args_from(s, c4, Seq::empty()) {
                            lemma_gap_bounds(s, c5, Scan::Code);
                        }
                    }
                }
            }
        }
    }
}

/// The rest of the body of a provider, from `pos` to its `}`: `pos` stands
/// after a gap, where a probe or `}` is due, `acc` holds the probes read so
/// far, and `brace` is where the body opened.
pub open spec fn probes_from(s: Seq<u8>, pos: int, acc: Seq<ProbeSpec>, brace: int) -> Result<
    (Seq<ProbeSpec>, int),
    SyntaxError,
>
    decreases s.len() - pos,
{
    if pos < 0 || pos >= s.len() {
        Err(SyntaxError::UnterminatedBlock { pos: brace })
    } else if s[pos] == 125 {
        Ok((acc, pos + 1))
    } else {
        match probe_at(s, pos) {
            Err(e) => Err(e),
            Ok((probe, c1)) => match gap_end(s, c1) {
                Err(e) => Err(e),
                Ok(c2) => {
                    proof {
                        lemma_probe_bounds(s, pos);
                        lemma_gap_bounds(s, c1, Scan::Code);
                    }
                    probes_from(s, c2, acc.push(probe), brace)
                },
            },
        }
    }
}

/// The body of a provider takes at least one byte and ends in the text.
pub proof fn lemma_probes_bounds(s: Seq<u8>, pos: int, acc: Seq<ProbeSpec>, brace: int)
    requires
        0 <= pos <= s.len(),
    ensures
        probes_from(s, pos, acc, brace) matches Ok((_, next)) ==> pos < next <= s.len(),
    decreases s.len() - pos,
{
    if pos < s.len() && s[pos] != 125 {
        lemma_probe_bounds(s, pos);
        if let Ok((probe, c1)) = probe_at(s, pos) {
            lemma_gap_bounds(s, c1, Scan::Code);
            if let Ok(c2) = gap_end(s, c1) {
                lemma_probes_bounds(s, c2, acc.push(probe), brace);
            }
        }
    }
}

/// The provider whose keyword starts at `pos`, and where it ends: after its
/// `}`, or after the `;` that follows the `}` and a gap.
pub open spec fn provider_at(s: Seq<u8>, pos: int) -> Result<(ProviderSpec, int), SyntaxError> {
    if !word_at(s, pos, lit("provider"@)) {
        Err(SyntaxError::UnexpectedToken { pos })
    } else {
        match gap_end(s, word_end(s, pos)) {
            Err(e) => Err(e),
            Ok(c1) => match name_at(s, c1) {
                Err(e) => Err(e),
                Ok((name, c2)) => match gap_end(s, c2) {
                    Err(e) => Err(e),
                    Ok(c3) => if !byte_at(s, c3, 123) {
                        Err(SyntaxError::UnexpectedToken { pos: c3 })
                    } else {
                        match gap_end(s, c3 + 1) {
                            Err(e) => Err(e),
                            Ok(c4) => match probes_from(s, c4, Seq::empty(), c3) {
                                Err(e) => Err(e),
                                Ok((probes, c5)) => match gap_end(s, c5) {
                                    Err(e) => Err(e),
                                    Ok(c6) => Ok(
                                        (
                                            ProviderSpec { name, probes },
                                            if byte_at(s, c6, 59) {
                                                c6 + 1
                                            } else {
                                                c5
                                            },
                                        ),
                                    ),
                                },
                            },
                        }
                    },
                },
            },
        }
    }
}

/// A provider takes at least one byte and ends in the text.
pub proof fn lemma_provider_bounds(s: Seq<u8>, pos: int)
    requires
        0 <= pos <= s.len(),
    ensures
        provider_at(s, pos) matches Ok((_, next)) ==> pos < next <= s.len(),
{
    lemma_word_bounds(s, pos);
    lemma_gap_bounds(s, word_end(s, pos), Scan::Code);
    if let Ok(c1) = gap_end(s, word_end(s, pos)) {
        lemma_word_bounds(s, c1);
        if let Ok((name, c2)) = name_at(s, c1) {
            lemma_gap_bounds(s, c2, Scan::Code);
            if let Ok(c3) = gap_end(s, c2) {
                if byte_at(s, c3, 123) {
                    lemma_gap_bounds(s, c3 + 1, Scan::Code);
                    if let Ok(c4) = gap_end(s, c3 + 1) {
                        lemma_probes_bounds(s, c4, Seq::empty(), c3);
                        if let Ok((probes, c5)) = probes_from(s, c4, Seq::empty(), c3) {
                            lemma_gap_bounds(s, c5, Scan::Code);
                        }
                    }
                }
            }
        }
    }
}

/// The rest of a file from `pos`, which stands after a gap, where a
/// provider or the end of the file is due; `acc` holds the providers read so
/// far.
pub open spec fn providers_from(s: Seq<u8>, pos: int, acc: Seq<ProviderSpec>) -> Result<
    Seq<ProviderSpec>,
    SyntaxError,
>
    decreases s.len() - pos,
{
    if pos < 0 || pos >= s.len() {
        Ok(acc)
    } else {
        match provider_at(s, pos) {
            Err(e) => Err(e),
            Ok((provider, c1)) => match gap_end(s, c1) {
                Err(e) => Err(e),
                Ok(c2) => {
                    proof {
                        lemma_provider_bounds(s, pos);
                        lemma_gap_bounds(s, c1, Scan::Code);
                    }
                    providers_from(s, c2, acc.push(provider))
                },
            },
        }
    }
}

/// What the text `s` declares: its providers in order, or the first error.
pub open spec fn parsed(s: Seq<u8>) -> Result<Seq<ProviderSpec>, SyntaxError> {
    match gap_end(s, 0) {
        Err(e) => Err(e),
        Ok(start) => providers_from(s, start, Seq::empty()),
    }
}

impl SyntaxError {
    /// Where the error points.
    pub open spec fn pos(self) -> int {
        match self {
            SyntaxError::UnexpectedToken { pos } => pos,
            SyntaxError::UnterminatedBlock { pos } => pos,
            SyntaxError::UnknownType { pos, .. } => pos,
        }
    }

    /// Whether the error points into the text `s` or at its end, and, if it
    /// names a type, names one that the table does not hold.
    pub open spec fn fits(self, s: Seq<u8>) -> bool {
        &&& 0 <= self.pos() <= s.len()
        &&& self matches SyntaxError::UnknownType { name, .. } ==> type_named(name) is None
    }
}

proof fn lemma_gap_error(s: Seq<u8>, pos: int, mode: Scan)
    requires
        0 <= pos <= s.len(),
        mode matches Scan::Block(start) ==> 0 <= start <= s.len(),
    ensures
        gap_scan(s, pos, mode) matches Err(e) ==> e.fits(s),
    decreases s.len() - pos,
{
    match mode {
        Scan::Code => {
            if pos < s.len() {
                if is_space(s[pos]) {
                    lemma_gap_error(s, pos + 1, Scan::Code);
                } else if s[pos] == 47 && byte_at(s, pos + 1, 42) {
                    lemma_gap_error(s, pos + 2, Scan::Block(pos));
                } else if s[pos] == 47 && byte_at(s, pos + 1, 47) {
                    lemma_gap_error(s, pos + 2, Scan::Line);
                }
            }
        },
        Scan::Block(start) => {
            if pos + 1 < s.len() {
                if s[pos] == 42 && s[pos + 1] == 47 {
                    lemma_gap_error(s, pos + 2, Scan::Code);
                } else {
                    lemma_gap_error(s, pos + 1, Scan::Block(start));
                }
            }
        },
        Scan::Line => {
            if pos < s.len() {
                if s[pos] == 10 {
                    lemma_gap_error(s, pos + 1, Scan::Code);
                } else {
                    lemma_gap_error(s, pos + 1, Scan::Line);
                }
            }
        },
    }
}

/// What `gap_end` gives at a position of the text: an end within the text,
/// or an error that fits the text.
proof fn lemma_gap(s: Seq<u8>, pos: int)
    requires
        0 <= pos <= s.len(),
    ensures
        match gap_end(s, pos) {
            Ok(end) => pos <= end <= s.len(),
            Err(e) => e.fits(s),
        },
{
    lemma_gap_bounds(s, pos, Scan::Code);
    lemma_gap_error(s, pos, Scan::Code);
}

proof fn lemma_type_error(s: Seq<u8>, pos: int)
    requires
        0 <= pos <= s.len(),
    ensures
        type_at(s, pos) matches Err(e) ==> e.fits(s),
{
    lemma_word_bounds(s, pos);
    lemma_gap(s, word_end(s, pos));
}

proof fn lemma_args_error(s: Seq<u8>, pos: int, acc: Seq<DataType>)
    requires
        0 <= pos <= s.len(),
    ensures
        args_from(s, pos, acc) matches Err(e) ==> e.fits(s),
    decreases s.len() - pos,
{
    if !byte_at(s, pos, 41) {
        lemma_type_bounds(s, pos);
        lemma_type_error(s, pos);
        if let Ok((d, c1)) = type_at(s, pos) {
            lemma_gap(s, c1);
            if let Ok(c2) = gap_end(s, c1) {
                if byte_at(s, c2, 44) {
                    lemma_gap(s, c2 + 1);
                    if let Ok(c3) = gap_end(s, c2 + 1) {
                        lemma_args_error(s, c3, acc.push(d));
                    }
                }
            }
        }
    }
}

proof fn lemma_probe_error(s: Seq<u8>, pos: int)
    requires
        0 <= pos <= s.len(),
    ensures
        probe_at(s, pos) matches Err(e) ==> e.fits(s),
{
    lemma_word_bounds(s, pos);
    lemma_gap(s, word_end(s, pos));
    if let Ok(c1) = gap_end(s, word_end(s, pos)) {
        lemma_word_bounds(s, c1);
        if let Ok((name, c2)) = name_at(s, c1) {
            lemma_gap(s, c2);
            if let Ok(c3) = gap_end(s, c2) {
                if byte_at(s, c3, 40) {
                    lemma_gap(s, c3 + 1);
                    if let Ok(c4) = gap_end(s, c3 + 1) {
                        lemma_args_bounds(s, c4, Seq::empty());
                        lemma_args_error(s, c4, Seq::empty());
                        if let Ok((args, c5)) = args_from(s, c4, Seq::empty()) {
                            lemma_gap(s, c5);
                        }
                    }
                }
            }
        }
    }
}

proof fn lemma_probes_error(s: Seq<u8>, pos: int, acc: Seq<ProbeSpec>, brace: int)
    requires
        0 <= pos <= s.len(),
        0 <= brace <= s.len(),
    ensures
        probes_from(s, pos, acc, brace) matches Err(e) ==> e.fits(s),
    decreases s.len() - pos,
{
    if pos < s.len() && s[pos] != 125 {
        lemma_probe_bounds(s, pos);
        lemma_probe_error(s, pos);
        if let Ok((probe, c1)) = probe_at(s, pos) {
            lemma_gap(s, c1);
            if let Ok(c2) = gap_end(s, c1) {
                lemma_probes_error(s, c2, acc.push(probe), brace);
            }
        }
    }
}

proof fn lemma_provider_error(s: Seq<u8>, pos: int)
    requires
        0 <= pos <= s.len(),
    ensures
        provider_at(s, pos) matches Err(e) ==> e.fits(s),
{
    lemma_word_bounds(s, pos);
    lemma_gap(s, word_end(s, pos));
    if let Ok(c1) = gap_end(s, word_end(s, pos)) {
        lemma_word_bounds(s, c1);
        if let Ok((name, c2)) = name_at(s, c1) {
            lemma_gap(s, c2);
            if let Ok(c3) = gap_end(s, c2) {
                if byte_at(s, c3, 123) {
                    lemma_gap(s, c3 + 1);
                    if let Ok(c4) = gap_end(s, c3 + 1) {
                        lemma_probes_bounds(s, c4, Seq::empty(), c3);
                        lemma_probes_error(s, c4, Seq::empty(), c3);
                        if let Ok((probes, c5)) = probes_from(s, c4, Seq::empty(), c3) {
                            lemma_gap(s, c5);
                        }
                    }
                }
            }
        }
    }
}

proof fn lemma_providers_error(s: Seq<u8>, pos: int, acc: Seq<ProviderSpec>)
    requires
        0 <= pos <= s.len(),
    ensures
        providers_from(s, pos, acc) matches Err(e) ==> e.fits(s),
    decreases s.len() - pos,
{
    if pos < s.len() {
        lemma_provider_bounds(s, pos);
        lemma_provider_error(s, pos);
        if let Ok((provider, c1)) = provider_at(s, pos) {
            lemma_gap(s, c1);
            if let Ok(c2) = gap_end(s, c1) {
                lemma_providers_error(s, c2, acc.push(provider));
            }
        }
    }
}

/// Every error of the parser points into the text or at its end, and a
/// type that it reports as unknown is one that the table does not hold.
pub proof fn lemma_error_fits(s: Seq<u8>)
    ensures
        parsed(s) matches Err(e) ==> e.fits(s),
{
    lemma_gap(s, 0);
    if let Ok(start) = gap_end(s, 0) {
        lemma_providers_error(s, start, Seq::empty());
    }
}

/// The state of a scan that is inside a block comment opened at `opened`
/// if `in_block`, else inside a line comment if `in_line`.
pub open spec fn scan_state(in_block: bool, in_line: bool, opened: int) -> Scan {
    if in_block {
        Scan::Block(opened)
    } else if in_line {
        Scan::Line
    } else {
        Scan::Code
    }
}

/// Skips the gap that starts at `pos`.
fn skip_gap(src: &[u8], pos: usize) -> (r: Result<usize, ParseError>)
    requires
        pos <= src.len(),
    ensures
        match gap_end(src@, pos as int) {
            Ok(end) => r == Ok::<usize, ParseError>(end as usize) && pos <= end <= src.len(),
            Err(e) => r is Err && r->Err_0@ == e,
        },
{
    let mut p: usize = pos;
    let mut in_block: bool = false;
    let mut in_line: bool = false;
    let mut opened: usize = 0;
    loop
        invariant
            pos <= p <= src.len(),
            gap_end(src@, pos as int) == gap_scan(
                src@,
                p as int,
                scan_state(in_block, in_line, opened as int),
            ),
        decreases src.len() - p,
    {
        proof {
            lemma_gap_bounds(src@, p as int, scan_state(in_block, in_line, opened as int));
        }
        if in_block {
            if src.len() - p <= 1 {
                return Err(ParseError::UnterminatedBlock { pos: opened });
            }
            if src[p] == 42 && src[p + 1] == 47 {
                p += 2;
                in_block = false;
                in_line = false;
            } else {
                p += 1;
            }
        } else if in_line {
            if p >= src.len() {
                return Ok(p);
            }
            if src[p] == 10 {
                in_line = false;
            }
            p += 1;
        } else {
            if p >= src.len() {
                return Ok(p);
            }
            let b: u8 = src[p];
            if b == 32 || b == 9 || b == 10 || b == 13 {
                p += 1;
            } else if b == 47 && p + 1 < src.len() && src[p + 1] == 42 {
                opened = p;
                in_block = true;
                p += 2;
            } else if b == 47 && p + 1 < src.len() && src[p + 1] == 47 {
                in_line = true;
                p += 2;
            } else {
                return Ok(p);
            }
        }
    }
}

/// Finds the end of the word that starts at `pos`.
fn scan_word(src: &[u8], pos: usize) -> (end: usize)
    requires
        pos <= src.len(),
    ensures
        end == word_end(src@, pos as int),
        pos <= end <= src.len(),
{
    let mut p: usize = pos;
    while p < src.len() && word_byte(src[p])
        invariant
            pos <= p <= src.len(),
            word_end(src@, pos as int) == word_end(src@, p as int),
        decreases src.len() - p,
    {
        p += 1;
    }
    p
}

/// Copies the bytes from `from` up to `to`.
fn copy_range(src: &[u8], from: usize, to: usize) -> (r: Vec<u8>)
    requires
        from <= to <= src.len(),
    ensures
        r@ == src@.subrange(from as int, to as int),
{
    let mut out: Vec<u8> = Vec::new();
    let mut i: usize = from;
    while i < to
        invariant
            from <= i <= to <= src.len(),
            out@ == src@.subrange(from as int, i as int),
        decreases to - i,
    {
        out.push(src[i]);
        assert(out@ =~= src@.subrange(from as int, i + 1));
        i += 1;
    }
    out
}

/// Whether the word at `pos` is the keyword `word`.
fn keyword(src: &[u8], pos: usize, word: &str) -> (r: bool)
    requires
        pos <= src.len(),
    ensures
        r == word_at(src@, pos as int, lit(word@)),
{
    let end = scan_word(src, pos);
    let found = copy_range(src, pos, end);
    spells(found.as_slice(), word)
}

/// Reads the name that starts at `pos`.
fn parse_name(src: &[u8], pos: usize) -> (r: Result<(Vec<u8>, usize), ParseError>)
    requires
        pos <= src.len(),
    ensures
        match name_at(src@, pos as int) {
            Ok((name, end)) => r is Ok && r->Ok_0.0@ == name && r->Ok_0.1 == end && pos < end
                <= src.len(),
            Err(e) => r is Err && r->Err_0@ == e,
        },
{
    let end = scan_word(src, pos);
    if end > pos && letter(src[pos]) {
        Ok((copy_range(src, pos, end), end))
    } else {
        Err(ParseError::UnexpectedToken { pos })
    }
}

/// Reads the type that starts at `pos`.
fn parse_type(src: &[u8], pos: usize) -> (r: Result<(DataType, usize), ParseError>)
    requires
        pos <= src.len(),
    ensures
        match type_at(src@, pos as int) {
            Ok((d, end)) => r is Ok && r->Ok_0.0 == d && r->Ok_0.1 == end && pos < end
                <= src.len(),
            Err(e) => r is Err && r->Err_0@ == e,
        },
{
    let end = scan_word(src, pos);
    if end <= pos {
        return Err(ParseError::UnexpectedToken { pos });
    }
    let star = match skip_gap(src, end) {
        Ok(p) => p,
        Err(e) => {
            return Err(e);
        },
    };
    let mut name = copy_range(src, pos, end);
    let mut next: usize = end;
    if star < src.len() && src[star] == 42 {
        name.push(42);
        next = star + 1;
    }
    match DataType::from_name(name.as_slice()) {
        Some(d) => Ok((d, next)),
        None => Err(ParseError::UnknownType { name, pos }),
    }
}

/// Reads a list of types from `pos`, which stands after the `(` and a gap,
/// through the `)`.
fn parse_args(src: &[u8], pos: usize) -> (r: Result<(Vec<DataType>, usize), ParseError>)
    requires
        pos <= src.len(),
    ensures
        match args_from(src@, pos as int, Seq::empty()) {
            Ok((args, end)) => r is Ok && r->Ok_0.0@ == args && r->Ok_0.1 == end && pos < end
                <= src.len(),
            Err(e) => r is Err && r->Err_0@ == e,
        },
{
    let mut args: Vec<DataType> = Vec::new();
    let mut p: usize = pos;
    loop
        invariant
            pos <= p <= src.len(),
            args_from(src@, pos as int, Seq::empty()) == args_from(src@, p as int, args@),
        decreases src.len() - p,
    {
        if p < src.len() && src[p] == 41 {
            return Ok((args, p + 1));
        }
        let (d, c1) = match parse_type(src, p) {
            Ok(found) => found,
            Err(e) => {
                return Err(e);
            },
        };
        let c2 = match skip_gap(src, c1) {
            Ok(q) => q,
            Err(e) => {
                return Err(e);
            },
        };
        if c2 < src.len() && src[c2] == 44 {
            let c3 = match skip_gap(src, c2 + 1) {
                Ok(q) => q,
                Err(e) => {
                    return Err(e);
                },
            };
            args.push(d);
            p = c3;
        } else if c2 < src.len() && src[c2] == 41 {
            args.push(d);
            return Ok((args, c2 + 1));
        } else {
            return Err(ParseError::UnexpectedToken { pos: c2 });
        }
    }
}

/// Reads the probe whose keyword starts at `pos`.
fn parse_probe(src: &[u8], pos: usize) -> (r: Result<(Probe, usize), ParseError>)
    requires
        pos <= src.len(),
    ensures
        match probe_at(src@, pos as int) {
            Ok((probe, end)) => r is Ok && r->Ok_0.0@ == probe && r->Ok_0.1 == end && pos < end
                <= src.len(),
            Err(e) => r is Err && r->Err_0@ == e,
        },
{
    if !keyword(src, pos, "probe") {
        return Err(ParseError::UnexpectedToken { pos });
    }
    let c0 = scan_word(src, pos);
    let c1 = match skip_gap(src, c0) {
        Ok(q) => q,
        Err(e) => {
            return Err(e);
        },
    };
    let (name, c2) = match parse_name(src, c1) {
        Ok(found) => found,
        Err(e) => {
            return Err(e);
        },
    };
    let c3 = match skip_gap(src, c2) {
        Ok(q) => q,
        Err(e) => {
            return Err(e);
        },
    };
    if !(c3 < src.len() && src[c3] == 40) {
        return Err(ParseError::UnexpectedToken { pos: c3 });
    }
    let c4 = match skip_gap(src, c3 + 1) {
        Ok(q) => q,
        Err(e) => {
            return Err(e);
        },
    };
    let (args, c5) = match parse_args(src, c4) {
        Ok(found) => found,
        Err(e) => {
            return Err(e);
        },
    };
    let c6 = match skip_gap(src, c5) {
        Ok(q) => q,
        Err(e) => {
            return Err(e);
        },
    };
    if !(c6 < src.len() && src[c6] == 59) {
        return Err(ParseError::UnexpectedToken { pos: c6 });
    }
    Ok((Probe { name, args }, c6 + 1))
}

/// Reads the body of a provider from `pos`, which stands after the `{` at
/// `brace` and a gap, through the `}`.
fn parse_probes(src: &[u8], pos: usize, brace: usize) -> (r: Result<
    (Vec<Probe>, usize),
    ParseError,
>)
    requires
        pos <= src.len(),
    ensures
        match probes_from(src@, pos as int, Seq::empty(), brace as int) {
            Ok((probes, end)) => r is Ok && probes_view(r->Ok_0.0@) == probes && r->Ok_0.1 == end
                && pos < end <= src.len(),
            Err(e) => r is Err && r->Err_0@ == e,
        },
{
    let mut probes: Vec<Probe> = Vec::new();
    let mut p: usize = pos;
    assert(probes_view(probes@) =~= Seq::empty());
    loop
        invariant
            pos <= p <= src.len(),
            probes_from(src@, pos as int, Seq::empty(), brace as int) == probes_from(
                src@,
                p as int,
                probes_view(probes@),
                brace as int,
            ),
        decreases src.len() - p,
    {
        if p >= src.len() {
            return Err(ParseError::UnterminatedBlock { pos: brace });
        }
        if src[p] == 125 {
            return Ok((probes, p + 1));
        }
        let (probe, c1) = match parse_probe(src, p) {
            Ok(found) => found,
            Err(e) => {
                return Err(e);
            },
        };
        let c2 = match skip_gap(src, c1) {
            Ok(q) => q,
            Err(e) => {
                return Err(e);
            },
        };
        let ghost before = probes_view(probes@);
        let ghost added = probe@;
        probes.push(probe);
        assert(probes_view(probes@) =~= before.push(added));
        p = c2;
    }
}

/// Reads the provider whose keyword starts at `pos`.
fn parse_provider(src: &[u8], pos: usize) -> (r: Result<(Provider, usize), ParseError>)
    requires
        pos <= src.len(),
    ensures
        match provider_at(src@, pos as int) {
            Ok((provider, end)) => r is Ok && r->Ok_0.0@ == provider && r->Ok_0.1 == end && pos
                < end <= src.len(),
            Err(e) => r is Err && r->Err_0@ == e,
        },
{
    if !keyword(src, pos, "provider") {
        return Err(ParseError::UnexpectedToken { pos });
    }
    let c0 = scan_word(src, pos);
    let c1 = match skip_gap(src, c0) {
        Ok(q) => q,
        Err(e) => {
            return Err(e);
        },
    };
    let (name, c2) = match parse_name(src, c1) {
        Ok(found) => found,
        Err(e) => {
            return Err(e);
        },
    };
    let c3 = match skip_gap(src, c2) {
        Ok(q) => q,
        Err(e) => {
            return Err(e);
        },
    };
    if !(c3 < src.len() && src[c3] == 123) {
        return Err(ParseError::UnexpectedToken { pos: c3 });
    }
    let c4 = match skip_gap(src, c3 + 1) {
        Ok(q) => q,
        Err(e) => {
            return Err(e);
        },
    };
    let (probes, c5) = match parse_probes(src, c4, c3) {
        Ok(found) => found,
        Err(e) => {
            return Err(e);
        },
    };
    let c6 = match skip_gap(src, c5) {
        Ok(q) => q,
        Err(e) => {
            return Err(e);
        },
    };
    let end: usize = if c6 < src.len() && src[c6] == 59 {
        c6 + 1
    } else {
        c5
    };
    Ok((Provider { name, probes }, end))
}

/// Parses a definition file: `Ok` with its providers, in order, when the
/// whole of `src` follows the grammar, else the first error.
pub fn parse(src: &[u8]) -> (r: Result<File, ParseError>)
    ensures
        match parsed(src@) {
            Ok(providers) => r is Ok && r->Ok_0@ == providers,
            Err(e) => r is Err && r->Err_0@ == e,
        },
{
    let start = match skip_gap(src, 0) {
        Ok(q) => q,
        Err(e) => {
            return Err(e);
        },
    };
    let mut providers: Vec<Provider> = Vec::new();
    let mut p: usize = start;
    assert(providers_view(providers@) =~= Seq::empty());
    while p < src.len()
        invariant
            p <= src.len(),
            parsed(src@) == providers_from(src@, p as int, providers_view(providers@)),
        decreases src.len() - p,
    {
        let (provider, c1) = match parse_provider(src, p) {
            Ok(found) => found,
            Err(e) => {
                return Err(e);
            },
        };
        let c2 = match skip_gap(src, c1) {
            Ok(q) => q,
            Err(e) => {
                return Err(e);
            },
        };
        let ghost before = providers_view(providers@);
        let ghost added = provider@;
        providers.push(provider);
        assert(providers_view(providers@) =~= before.push(added));
        p = c2;
    }
    Ok(File { providers })
}

proof fn lemma_parsed_name(s: Seq<u8>, pos: int)
    requires
        0 <= pos <= s.len(),
    ensures
        name_at(s, pos) matches Ok((name, _)) ==> is_identifier(name),
{
    lemma_word_bounds(s, pos);
    if let Ok((name, end)) = name_at(s, pos) {
        assert forall|k: int| 0 <= k < name.len() implies is_word_byte(#[trigger] name[k]) by {
            assert(name[k] == s[pos + k]);
        }
    }
}

proof fn lemma_parsed_probe(s: Seq<u8>, pos: int)
    requires
        0 <= pos <= s.len(),
    ensures
        probe_at(s, pos) matches Ok((probe, _)) ==> is_identifier(probe.name),
{
    lemma_word_bounds(s, pos);
    lemma_gap_bounds(s, word_end(s, pos), Scan::Code);
    if let Ok(c1) = gap_end(s, word_end(s, pos)) {
        lemma_parsed_name(s, c1);
    }
}

proof fn lemma_parsed_probes(s: Seq<u8>, pos: int, acc: Seq<ProbeSpec>, brace: int)
    requires
        0 <= pos <= s.len(),
        probes_well_named(acc),
    ensures
        probes_from(s, pos, acc, brace) matches Ok((probes, _)) ==> probes_well_named(probes),
    decreases s.len() - pos,
{
    if pos < s.len() && s[pos] != 125 {
        lemma_probe_bounds(s, pos);
        lemma_parsed_probe(s, pos);
        if let Ok((probe, c1)) = probe_at(s, pos) {
            lemma_gap_bounds(s, c1, Scan::Code);
            if let Ok(c2) = gap_end(s, c1) {
                assert forall|j: int| 0 <= j < acc.push(probe).len() implies is_identifier(
                    #[trigger] acc.push(probe)[j].name,
                ) by {
                    if j < acc.len() {
                        assert(acc.push(probe)[j] == acc[j]);
                    }
                }
                lemma_parsed_probes(s, c2, acc.push(probe), brace);
            }
        }
    }
}

proof fn lemma_parsed_provider(s: Seq<u8>, pos: int)
    requires
        0 <= pos <= s.len(),
    ensures
        provider_at(s, pos) matches Ok((provider, _)) ==> is_identifier(provider.name)
            && probes_well_named(provider.probes),
{
    lemma_word_bounds(s, pos);
    lemma_gap_bounds(s, word_end(s, pos), Scan::Code);
    if let Ok(c1) = gap_end(s, word_end(s, pos)) {
        lemma_word_bounds(s, c1);
        lemma_parsed_name(s, c1);
        if let Ok((name, c2)) = name_at(s, c1) {
            lemma_gap_bounds(s, c2, Scan::Code);
            if let Ok(c3) = gap_end(s, c2) {
                if byte_at(s, c3, 123) {
                    lemma_gap_bounds(s, c3 + 1, Scan::Code);
                    if let Ok(c4) = gap_end(s, c3 + 1) {
                        lemma_parsed_probes(s, c4, Seq::empty(), c3);
                    }
                }
            }
        }
    }
}

proof fn lemma_parsed_providers(s: Seq<u8>, pos: int, acc: Seq<ProviderSpec>)
    requires
        0 <= pos <= s.len(),
        well_named(acc),
    ensures
        providers_from(s, pos, acc) matches Ok(file) ==> well_named(file),
    decreases s.len() - pos,
{
    if pos < s.len() {
        lemma_provider_bounds(s, pos);
        lemma_parsed_provider(s, pos);
        if let Ok((provider, c1)) = provider_at(s, pos) {
            lemma_gap_bounds(s, c1, Scan::Code);
            if let Ok(c2) = gap_end(s, c1) {
                let more = acc.push(provider);
                assert forall|i: int| 0 <= i < more.len() implies is_identifier(
                    #[trigger] more[i].name,
                ) && probes_well_named(more[i].probes) by {
                    if i < acc.len() {
                        assert(more[i] == acc[i]);
                        assert(is_identifier(acc[i].name));
                    }
                }
                lemma_parsed_providers(s, c2, more);
            }
        }
    }
}

/// Every file that the parser gives is well named: a name that does not
/// follow the rule for identifiers is a syntax error already.
pub proof fn lemma_parsed_is_well_named(s: Seq<u8>)
    ensures
        parsed(s) matches Ok(file) ==> well_named(file),
{
    lemma_gap_bounds(s, 0, Scan::Code);
    if let Ok(start) = gap_end(s, 0) {
        lemma_parsed_providers(s, start, Seq::empty());
    }
}

} // verus!
