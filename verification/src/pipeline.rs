//! From the text of a definition file to its artifacts.
//!
//! The text is parsed, the parsed file is validated, and only a valid file is
//! rendered. A text that fails gives no artifact at all, so that no artifact
//! can be newer than another.
use crate::generate::{artifact_text, render, Artifact};
use crate::model::{File, ProviderSpec};
use crate::parser::{parse, parsed, ParseError, SyntaxError};
use crate::printer::{lemma_valid_is_well_named, source_text};
use crate::validate::{
    valid, validate, violations, violations_view, ValidationError, Violation,
};
use vstd::prelude::*;

verus! {

/// Why a text gave no artifacts.
#[derive(Clone, Debug, PartialEq, Eq)]
pub enum Error {
    /// The text does not follow the grammar.
    Syntax(ParseError),
    /// The text follows the grammar and breaks these rules.
    Invalid(Vec<ValidationError>),
}

/// What an error is, as mathematics.
pub enum Failure {
    Syntax(SyntaxError),
    Invalid(Seq<Violation>),
}

impl View for Error {
    type V = Failure;

    open spec fn view(&self) -> Failure {
        match self {
            Error::Syntax(e) => Failure::Syntax(e@),
            Error::Invalid(errors) => Failure::Invalid(violations_view(errors@)),
        }
    }
}

/// The three artifacts of one definition file.
#[derive(Clone, Debug, PartialEq, Eq)]
pub struct Artifacts {
    pub declarations: Vec<u8>,
    pub definitions: Vec<u8>,
    pub bindings: Vec<u8>,
}

/// What the artifacts are, as mathematics.
pub struct ArtifactTexts {
    pub declarations: Seq<u8>,
    pub definitions: Seq<u8>,
    pub bindings: Seq<u8>,
}

impl View for Artifacts {
    type V = ArtifactTexts;

    open spec fn view(&self) -> ArtifactTexts {
        ArtifactTexts {
            declarations: self.declarations@,
            definitions: self.definitions@,
            bindings: self.bindings@,
        }
    }
}

/// The valid file that the text `src` declares, or why there is none: the
/// first syntax error, or else all violations of the rules.
pub open spec fn loaded(src: Seq<u8>) -> Result<Seq<ProviderSpec>, Failure> {
    match parsed(src) {
        Err(e) => Err(Failure::Syntax(e)),
        Ok(file) => if valid(file) {
            Ok(file)
        } else {
            Err(Failure::Invalid(violations(file)))
        },
    }
}

/// The artifact `kind` of the text `src`.
pub open spec fn emitted(src: Seq<u8>, kind: Artifact) -> Result<Seq<u8>, Failure> {
    match loaded(src) {
        Err(e) => Err(e),
        Ok(file) => Ok(artifact_text(kind, file)),
    }
}

/// The three artifacts of the text `src`.
pub open spec fn generated(src: Seq<u8>) -> Result<ArtifactTexts, Failure> {
    match loaded(src) {
        Err(e) => Err(e),
        Ok(file) => Ok(
            ArtifactTexts {
                declarations: artifact_text(Artifact::Declaration, file),
                definitions: artifact_text(Artifact::Definition, file),
                bindings: artifact_text(Artifact::Binding, file),
            },
        ),
    }
}

/// Whether `r` is what `generate` returns for the text `src`.
pub open spec fn is_outcome(src: Seq<u8>, r: Result<Artifacts, Error>) -> bool {
    match generated(src) {
        Ok(texts) => r is Ok && r->Ok_0@ == texts,
        Err(e) => r is Err && r->Err_0@ == e,
    }
}

/// What a result of `generate` is, as mathematics.
pub open spec fn outcome_view(r: Result<Artifacts, Error>) -> Result<ArtifactTexts, Failure> {
    match r {
        Ok(artifacts) => Ok(artifacts@),
        Err(e) => Err(e@),
    }
}

/// Parses and validates a definition file.
pub fn load(src: &[u8]) -> (r: Result<File, Error>)
    ensures
        match loaded(src@) {
            Ok(file) => r is Ok && r->Ok_0@ == file,
            Err(e) => r is Err && r->Err_0@ == e,
        },
{
    let file = match parse(src) {
        Ok(file) => file,
        Err(e) => {
            return Err(Error::Syntax(e));
        },
    };
    match validate(&file) {
        Ok(_) => Ok(file),
        Err(errors) => Err(Error::Invalid(errors)),
    }
}

/// Renders one artifact of a definition file, or fails as `load` does.
pub fn emit(src: &[u8], kind: Artifact) -> (r: Result<Vec<u8>, Error>)
    ensures
        match emitted(src@, kind) {
            Ok(text) => r is Ok && r->Ok_0@ == text,
            Err(e) => r is Err && r->Err_0@ == e,
        },
{
    match load(src) {
        Ok(file) => Ok(render(&file, kind)),
        Err(e) => Err(e),
    }
}

/// Renders the three artifacts of a definition file, or none of them: fails
/// as `load` does.
pub fn generate(src: &[u8]) -> (r: Result<Artifacts, Error>)
    ensures
        is_outcome(src@, r),
{
    match load(src) {
        Ok(file) => Ok(
            Artifacts {
                declarations: render(&file, Artifact::Declaration),
                definitions: render(&file, Artifact::Definition),
                bindings: render(&file, Artifact::Binding),
            },
        ),
        Err(e) => Err(e),
    }
}

/// Generation is deterministic: whatever `generate` returns for one text,
/// it returns the same bytes and the same errors every time.
pub proof fn lemma_generation_deterministic(
    src1: Seq<u8>,
    src2: Seq<u8>,
    r1: Result<Artifacts, Error>,
    r2: Result<Artifacts, Error>,
)
    requires
        src1 == src2,
        is_outcome(src1, r1),
        is_outcome(src2, r2),
    ensures
        outcome_view(r1) == outcome_view(r2),
        outcome_view(r1) == generated(src1),
{
}

/// Artifacts come all or none, and only from a valid file.
pub proof fn lemma_all_or_nothing(src: Seq<u8>)
    ensures
        generated(src) is Ok <==> parsed(src) is Ok && valid(parsed(src)->Ok_0),
        forall|kind: Artifact| #[trigger] emitted(src, kind) is Ok <==> generated(src) is Ok,
        generated(src) matches Ok(texts) ==> emitted(src, Artifact::Declaration) == Ok::<
            Seq<u8>,
            Failure,
        >(texts.declarations) && emitted(src, Artifact::Definition) == Ok::<Seq<u8>, Failure>(
            texts.definitions,
        ) && emitted(src, Artifact::Binding) == Ok::<Seq<u8>, Failure>(texts.bindings),
{
}

/// The canonical text of a valid file loads as that file, and so gives the
/// artifacts of that file.
pub proof fn lemma_canonical_text_loads(file: Seq<ProviderSpec>, kind: Artifact)
    requires
        valid(file),
    ensures
        loaded(source_text(file)) == Ok::<Seq<ProviderSpec>, Failure>(file),
        emitted(source_text(file), kind) == Ok::<Seq<u8>, Failure>(artifact_text(kind, file)),
{
    lemma_valid_is_well_named(file);
}

} // verus!
