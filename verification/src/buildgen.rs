//! What a build script needs to know of a definition file: the names of the
//! files that the build makes, and the C source that it compiles.
use crate::generate::Artifact;
use crate::text::{copy_bytes, lit, push_bytes, push_text, spells};
use vstd::prelude::*;

verus! {

/// The names of the files of one build, all derived from the stem of the
/// definition file's name.
#[derive(Clone, Debug, PartialEq, Eq)]
pub struct BuildNames {
    /// The header that the tracing compiler writes.
    pub header: Vec<u8>,
    /// The C source with the definitions.
    pub source: Vec<u8>,
    /// The object that the tracing compiler makes.
    pub d_object: Vec<u8>,
    /// The object that the C compiler makes.
    pub c_object: Vec<u8>,
    /// The library that holds both.
    pub library: Vec<u8>,
}

/// Where a build script is written.
#[derive(Clone, Copy, Debug, PartialEq, Eq, Structural, Hash)]
pub enum Emit {
    File,
    Stdout,
}

/// The artifact that `name` asks for: `rust` for the bindings, `decl` for
/// the declarations, `defn` for the definitions.
pub open spec fn artifact_named(name: Seq<u8>) -> Option<Artifact> {
    if name == lit("rust"@) {
        Some(Artifact::Binding)
    } else if name == lit("decl"@) {
        Some(Artifact::Declaration)
    } else if name == lit("defn"@) {
        Some(Artifact::Definition)
    } else {
        None
    }
}

/// The place that `name` asks for: `file` or `stdout`.
pub open spec fn emit_named(name: Seq<u8>) -> Option<Emit> {
    if name == lit("file"@) {
        Some(Emit::File)
    } else if name == lit("stdout"@) {
        Some(Emit::Stdout)
    } else {
        None
    }
}

/// The C source of a build: a comment that names the definition file, the
/// two headers, and the definitions.
pub open spec fn wrapper_text(path: Seq<u8>, header: Seq<u8>, definitions: Seq<u8>) -> Seq<u8> {
    lit("// Autogenerated C wrappers to DTrace probes in \""@) + path + lit(
        "\"\n\n#include <stdint.h>\n#include \""@,
    ) + header + lit("\"\n\n"@) + definitions
}

impl Artifact {
    /// The artifact that `name` asks for. `None` for any other name.
    pub fn from_name(name: &[u8]) -> (r: Option<Artifact>)
        ensures
            r == artifact_named(name@),
    {
        if spells(name, "rust") {
            Some(Artifact::Binding)
        } else if spells(name, "decl") {
            Some(Artifact::Declaration)
        } else if spells(name, "defn") {
            Some(Artifact::Definition)
        } else {
            None
        }
    }
}

impl Emit {
    /// The place that `name` asks for. `None` for any other name.
    pub fn from_name(name: &[u8]) -> (r: Option<Emit>)
        ensures
            r == emit_named(name@),
    {
        if spells(name, "file") {
            Some(Emit::File)
        } else if spells(name, "stdout") {
            Some(Emit::Stdout)
        } else {
            None
        }
    }
}

/// The text `stem` followed by the literal `suffix`.
fn with_suffix(stem: &[u8], suffix: &str) -> (r: Vec<u8>)
    ensures
        r@ == stem@ + lit(suffix@),
{
    let mut out: Vec<u8> = Vec::new();
    push_bytes(&mut out, stem);
    push_text(&mut out, suffix);
    assert(out@ =~= stem@ + lit(suffix@));
    out
}

/// The names of the files of the build of the definition file whose name,
/// without directory and extension, is `stem`.
pub fn build_names(stem: &[u8]) -> (r: BuildNames)
    ensures
        r.header@ == stem@ + lit(".h"@),
        r.source@ == stem@ + lit("-wrapper.c"@),
        r.d_object@ == stem@ + lit(".o"@),
        r.c_object@ == stem@ + lit("-wrapper.o"@),
        r.library@ == stem@,
{
    BuildNames {
        header: with_suffix(stem, ".h"),
        source: with_suffix(stem, "-wrapper.c"),
        d_object: with_suffix(stem, ".o"),
        c_object: with_suffix(stem, "-wrapper.o"),
        library: copy_bytes(stem),
    }
}

/// The C source of the build of the definition file at `path`, which
/// includes `header` and holds `definitions`.
pub fn wrapper_source(path: &[u8], header: &[u8], definitions: &[u8]) -> (r: Vec<u8>)
    ensures
        r@ == wrapper_text(path@, header@, definitions@),
{
    let mut out: Vec<u8> = Vec::new();
    push_text(&mut out, "// Autogenerated C wrappers to DTrace probes in \"");
    push_bytes(&mut out, path);
    push_text(&mut out, "\"\n\n#include <stdint.h>\n#include \"");
    push_bytes(&mut out, header);
    push_text(&mut out, "\"\n\n");
    push_bytes(&mut out, definitions);
    assert(out@ =~= wrapper_text(path@, header@, definitions@));
    out
}

} // verus!
