//! The three artifacts of a definition file.
//!
//! Each artifact has one entry for each probe, in the order of the file:
//!
//! - the declarations: the C prototype of the probe's function;
//! - the definitions: the C function itself, whose body does nothing but
//!   invoke the hook that the tracing tools define under the upper-case form
//!   of the function's name, so that they find the call and may patch it;
//! - the bindings: the Rust side. For each provider a module of its name;
//!   in it, for each probe, a module of the probe's name that holds the
//!   foreign declaration of its function, a flag that tells whether the
//!   probe is enabled, the function `enabled` that reads the flag, and the
//!   function `fire`. The latter takes a closure that makes the tuple of the
//!   arguments, and calls it only when the flag is set. Each probe has a
//!   module of its own, so that no name of one probe can meet a name of
//!   another.
//!
//! All three are pure functions of the parsed file.
use crate::check::declared_types;
use crate::model::{arguments_of, File, Probe, ProbeSpec, Provider, ProviderSpec};
use crate::symbol::{lemma_symbol_is_identifier, symbol_name, symbol_of};
use crate::text::{
    count_byte, decimal, is_identifier, is_word_byte, lemma_count_concat, lemma_count_none, lit,
    push_bytes, push_decimal, push_text, push_upper, upper,
};
use crate::validate::{probe_ok, provider_ok, symbol_at, valid};
use crate::types::{c_name, ffi_name, host_name, host_of, AbiType, Argument, HostType};
use vstd::prelude::*;

verus! {

/// One of the three artifacts.
#[derive(Clone, Copy, Debug, PartialEq, Eq, Structural, Hash)]
pub enum Artifact {
    Declaration,
    Definition,
    Binding,
}

/// One of the lists that an entry holds, each with an item for each
/// argument of the probe.
#[derive(Clone, Copy, Debug, PartialEq, Eq, Structural, Hash)]
pub enum Listing {
    /// The parameter types of a C prototype.
    CTypes,
    /// The parameters of a C definition, with their names.
    CParams,
    /// The arguments that a C definition hands to the hook.
    HookArgs,
    /// The parameters of the foreign declaration in Rust.
    FfiParams,
    /// The types of the tuple that the closure of a firing site returns.
    ThunkTypes,
    /// The statements that take the tuple apart.
    Lets,
    /// The arguments that the fire function hands to the foreign function.
    CallArgs,
}

/// All that the generators know of a probe.
pub struct Signature {
    pub provider: Seq<u8>,
    pub probe: Seq<u8>,
    pub symbol: Seq<u8>,
    pub args: Seq<Argument>,
}

/// The signature of the probe `probe` of the provider named `provider`.
pub open spec fn signature_of(provider: Seq<u8>, probe: ProbeSpec) -> Signature {
    Signature {
        provider,
        probe: probe.name,
        symbol: symbol_of(provider, probe.name),
        args: arguments_of(probe.args),
    }
}

/// The spelling of a Rust type in the type of the closure of a firing site,
/// where a string borrows for the lifetime `'a` of the fire function.
pub open spec fn thunk_name(h: HostType) -> Seq<u8> {
    if h is Str {
        lit("&'a str"@)
    } else {
        host_name(h)
    }
}

/// The item of a list for the argument `arg` at index `i`.
pub open spec fn item_text(style: Listing, i: int, arg: Argument) -> Seq<u8> {
    let number = decimal(i as nat);
    match style {
        Listing::CTypes => c_name(arg.abi),
        Listing::CParams => c_name(arg.abi) + lit(" arg"@) + number,
        Listing::HookArgs => lit("arg"@) + number,
        Listing::FfiParams => lit("arg"@) + number + lit(": "@) + ffi_name(arg.abi),
        Listing::ThunkTypes => thunk_name(arg.host) + lit(", "@),
        Listing::Lets => if arg.host is Str {
            lit("                let arg"@) + number + lit(
                " = ::std::ffi::CString::new(args."@,
            ) + number + lit(").unwrap_or_default();\n"@)
        } else {
            lit("                let arg"@) + number + lit(" = args."@) + number + lit(";\n"@)
        },
        Listing::CallArgs => if arg.host is Str {
            lit("arg"@) + number + lit(".as_ptr()"@)
        } else {
            lit("arg"@) + number
        },
    }
}

/// What stands between two items of a list.
pub open spec fn separator(style: Listing) -> Seq<u8> {
    match style {
        Listing::ThunkTypes | Listing::Lets => Seq::empty(),
        _ => lit(", "@),
    }
}

/// The items of a list, one for each argument.
pub open spec fn items(style: Listing, args: Seq<Argument>) -> Seq<Seq<u8>> {
    Seq::new(args.len(), |i: int| item_text(style, i, args[i]))
}

/// The first `n` of `items`, with `sep` between each two.
pub open spec fn joined(items: Seq<Seq<u8>>, sep: Seq<u8>, n: int) -> Seq<u8>
    decreases n,
{
    if n <= 0 {
        Seq::empty()
    } else if n == 1 {
        items[0]
    } else {
        joined(items, sep, n - 1) + sep + items[n - 1]
    }
}

/// The text of a list.
pub open spec fn listing(style: Listing, args: Seq<Argument>) -> Seq<u8> {
    joined(items(style, args), separator(style), args.len() as int)
}

/// The text of a C parameter list: `void` when there is no parameter.
pub open spec fn c_parameters(style: Listing, args: Seq<Argument>) -> Seq<u8> {
    if args.len() == 0 {
        lit("void"@)
    } else {
        listing(style, args)
    }
}

/// The entry of a probe in the declarations.
pub open spec fn declaration_text(sig: Signature) -> Seq<u8> {
    lit("void "@) + sig.symbol + lit("("@) + c_parameters(Listing::CTypes, sig.args) + lit(
        ");\n"@,
    )
}

/// The entry of a probe in the definitions.
pub open spec fn definition_text(sig: Signature) -> Seq<u8> {
    lit("void "@) + sig.symbol + lit("("@) + c_parameters(Listing::CParams, sig.args) + lit(
        ") { "@,
    ) + upper(sig.symbol) + lit("("@) + listing(Listing::HookArgs, sig.args) + lit("); }\n"@)
}

/// The line that opens the module of a probe.
pub open spec fn module_text(sig: Signature) -> Seq<u8> {
    lit("    pub mod "@) + sig.probe + lit(" {\n"@)
}

/// The foreign declaration of a probe's function.
pub open spec fn foreign_text(sig: Signature) -> Seq<u8> {
    lit("        extern \"C\" {\n            fn "@) + sig.symbol + lit("("@) + listing(
        Listing::FfiParams,
        sig.args,
    ) + lit(");\n        }\n\n"@)
}

/// The flag of a probe and the function that reads it.
pub open spec fn flag_text() -> Seq<u8> {
    lit(
        "        pub static ENABLED: ::std::sync::atomic::AtomicBool =\n            ::std::sync::atomic::AtomicBool::new(false);\n\n        pub fn enabled() -> bool {\n            ENABLED.load(::std::sync::atomic::Ordering::Relaxed)\n        }\n\n"@,
    )
}

/// The head of the function that fires a probe: its generic parameters
/// and the test of the flag.
pub open spec fn fire_head_text(sig: Signature) -> Seq<u8> {
    lit("        pub fn fire<'a, F: FnOnce() -> ("@) + listing(Listing::ThunkTypes, sig.args) + lit(
        ")>(args: F) {\n            if enabled() {\n                let args = args();\n"@,
    )
}

/// The rest of the function that fires a probe, and the end of the module
/// of the probe: the call of the closure and of the foreign function.
pub open spec fn fire_call_text(sig: Signature) -> Seq<u8> {
    listing(Listing::Lets, sig.args) + lit("                unsafe {\n                    "@)
        + sig.symbol + lit("("@) + listing(Listing::CallArgs, sig.args) + lit(
        ");\n                }\n            }\n        }\n    }\n\n"@,
    )
}

/// The entry of a probe in the bindings.
pub open spec fn binding_text(sig: Signature) -> Seq<u8> {
    module_text(sig) + foreign_text(sig) + flag_text() + fire_head_text(sig) + fire_call_text(sig)
}

/// The entry of a probe in an artifact.
pub open spec fn entry_text(kind: Artifact, sig: Signature) -> Seq<u8> {
    match kind {
        Artifact::Declaration => declaration_text(sig),
        Artifact::Definition => definition_text(sig),
        Artifact::Binding => binding_text(sig),
    }
}

/// What an artifact holds for a provider before the entries of its probes:
/// in the bindings the line that opens the module of the provider, else
/// nothing.
pub open spec fn head_text(kind: Artifact, provider: Seq<u8>) -> Seq<u8> {
    match kind {
        Artifact::Binding => lit("#[allow(non_snake_case)]\npub mod "@) + provider + lit(" {\n"@),
        _ => Seq::empty(),
    }
}

/// What an artifact holds for a provider after the entries of its probes:
/// in the bindings the line that closes the module of the provider, else
/// nothing.
pub open spec fn tail_text(kind: Artifact) -> Seq<u8> {
    match kind {
        Artifact::Binding => lit("}\n\n"@),
        _ => Seq::empty(),
    }
}

/// The entries of the first `n` probes of a provider.
pub open spec fn entries_text(kind: Artifact, provider: ProviderSpec, n: int) -> Seq<u8>
    decreases n,
{
    if n <= 0 {
        Seq::empty()
    } else {
        entries_text(kind, provider, n - 1) + entry_text(
            kind,
            signature_of(provider.name, provider.probes[n - 1]),
        )
    }
}

/// What an artifact holds for a provider.
pub open spec fn provider_text(kind: Artifact, provider: ProviderSpec) -> Seq<u8> {
    head_text(kind, provider.name) + entries_text(kind, provider, provider.probes.len() as int)
        + tail_text(kind)
}

/// What an artifact holds for the first `n` providers of a file.
pub open spec fn providers_text(kind: Artifact, file: Seq<ProviderSpec>, n: int) -> Seq<u8>
    decreases n,
{
    if n <= 0 {
        Seq::empty()
    } else {
        providers_text(kind, file, n - 1) + provider_text(kind, file[n - 1])
    }
}

/// The text of an artifact of a file.
pub open spec fn artifact_text(kind: Artifact, file: Seq<ProviderSpec>) -> Seq<u8> {
    providers_text(kind, file, file.len() as int)
}

/// Appends the item of a list for the argument `arg` at index `i`.
pub fn push_item(out: &mut Vec<u8>, style: Listing, i: usize, arg: &Argument)
    ensures
        final(out)@ == old(out)@ + item_text(style, i as int, *arg),
{
    match style {
        Listing::CTypes => {
            arg.abi.push_c_name(out);
        },
        Listing::CParams => {
            arg.abi.push_c_name(out);
            push_text(out, " arg");
            push_decimal(out, i);
        },
        Listing::HookArgs => {
            push_text(out, "arg");
            push_decimal(out, i);
        },
        Listing::FfiParams => {
            push_text(out, "arg");
            push_decimal(out, i);
            push_text(out, ": ");
            arg.abi.push_ffi_name(out);
        },
        Listing::ThunkTypes => {
            match arg.host {
                HostType::Str => {
                    push_text(out, "&'a str");
                },
                _ => {
                    arg.host.push_name(out);
                },
            }
            push_text(out, ", ");
        },
        Listing::Lets => {
            push_text(out, "                let arg");
            push_decimal(out, i);
            match arg.host {
                HostType::Str => {
                    push_text(out, " = ::std::ffi::CString::new(args.");
                    push_decimal(out, i);
                    push_text(out, ").unwrap_or_default();\n");
                },
                _ => {
                    push_text(out, " = args.");
                    push_decimal(out, i);
                    push_text(out, ";\n");
                },
            }
        },
        Listing::CallArgs => {
            push_text(out, "arg");
            push_decimal(out, i);
            match arg.host {
                HostType::Str => {
                    push_text(out, ".as_ptr()");
                },
                _ => {},
            }
        },
    }
    assert(out@ =~= old(out)@ + item_text(style, i as int, *arg));
}

/// Appends a list.
pub fn push_listing(out: &mut Vec<u8>, style: Listing, args: &Vec<Argument>)
    ensures
        final(out)@ == old(out)@ + listing(style, args@),
{
    let mut i: usize = 0;
    assert(out@ =~= old(out)@ + joined(items(style, args@), separator(style), 0));
    while i < args.len()
        invariant
            i <= args.len(),
            out@ == old(out)@ + joined(items(style, args@), separator(style), i as int),
        decreases args.len() - i,
    {
        if i > 0 {
            match style {
                Listing::ThunkTypes | Listing::Lets => {},
                _ => {
                    push_text(out, ", ");
                },
            }
        }
        push_item(out, style, i, &args[i]);
        assert(out@ =~= old(out)@ + joined(items(style, args@), separator(style), i + 1));
        i += 1;
    }
}

/// Appends a C parameter list.
pub fn push_c_parameters(out: &mut Vec<u8>, style: Listing, args: &Vec<Argument>)
    ensures
        final(out)@ == old(out)@ + c_parameters(style, args@),
{
    if args.len() == 0 {
        push_text(out, "void");
    } else {
        push_listing(out, style, args);
    }
}

/// Appends the entry of a probe in the declarations.
pub fn push_declaration(out: &mut Vec<u8>, provider: &[u8], probe: &Probe)
    ensures
        final(out)@ == old(out)@ + declaration_text(signature_of(provider@, probe@)),
{
    let symbol = symbol_name(provider, probe.name.as_slice());
    let args = probe.arguments();
    push_text(out, "void ");
    push_bytes(out, symbol.as_slice());
    push_text(out, "(");
    push_c_parameters(out, Listing::CTypes, &args);
    push_text(out, ");\n");
    assert(out@ =~= old(out)@ + declaration_text(signature_of(provider@, probe@)));
}

/// Appends the entry of a probe in the definitions.
pub fn push_definition(out: &mut Vec<u8>, provider: &[u8], probe: &Probe)
    ensures
        final(out)@ == old(out)@ + definition_text(signature_of(provider@, probe@)),
{
    let symbol = symbol_name(provider, probe.name.as_slice());
    let args = probe.arguments();
    push_text(out, "void ");
    push_bytes(out, symbol.as_slice());
    push_text(out, "(");
    push_c_parameters(out, Listing::CParams, &args);
    push_text(out, ") { ");
    push_upper(out, symbol.as_slice());
    push_text(out, "(");
    push_listing(out, Listing::HookArgs, &args);
    push_text(out, "); }\n");
    assert(out@ =~= old(out)@ + definition_text(signature_of(provider@, probe@)));
}

/// Appends the line that opens the module of a probe.
fn push_module(out: &mut Vec<u8>, provider: &[u8], probe: &Probe)
    ensures
        final(out)@ == old(out)@ + module_text(signature_of(provider@, probe@)),
{
    push_text(out, "    pub mod ");
    push_bytes(out, probe.name.as_slice());
    push_text(out, " {\n");
    assert(out@ =~= old(out)@ + module_text(signature_of(provider@, probe@)));
}

/// Appends the foreign declaration of a probe's function.
fn push_foreign(
    out: &mut Vec<u8>,
    provider: &[u8],
    probe: &Probe,
    symbol: &Vec<u8>,
    args: &Vec<Argument>,
)
    requires
        symbol@ == symbol_of(provider@, probe@.name),
        args@ == arguments_of(probe@.args),
    ensures
        final(out)@ == old(out)@ + foreign_text(signature_of(provider@, probe@)),
{
    push_text(out, "        extern \"C\" {\n            fn ");
    push_bytes(out, symbol.as_slice());
    push_text(out, "(");
    push_listing(out, Listing::FfiParams, args);
    push_text(out, ");\n        }\n\n");
    assert(out@ =~= old(out)@ + foreign_text(signature_of(provider@, probe@)));
}

/// Appends the flag of a probe and the function that reads it.
fn push_flag(out: &mut Vec<u8>)
    ensures
        final(out)@ == old(out)@ + flag_text(),
{
    push_text(
        out,
        "        pub static ENABLED: ::std::sync::atomic::AtomicBool =\n            ::std::sync::atomic::AtomicBool::new(false);\n\n        pub fn enabled() -> bool {\n            ENABLED.load(::std::sync::atomic::Ordering::Relaxed)\n        }\n\n",
    );
}

/// Appends the head of the function that fires a probe.
fn push_fire_head(out: &mut Vec<u8>, provider: &[u8], probe: &Probe, args: &Vec<Argument>)
    requires
        args@ == arguments_of(probe@.args),
    ensures
        final(out)@ == old(out)@ + fire_head_text(signature_of(provider@, probe@)),
{
    push_text(out, "        pub fn fire<'a, F: FnOnce() -> (");
    push_listing(out, Listing::ThunkTypes, args);
    push_text(
        out,
        ")>(args: F) {\n            if enabled() {\n                let args = args();\n",
    );
    assert(out@ =~= old(out)@ + fire_head_text(signature_of(provider@, probe@)));
}

/// Appends the rest of the function that fires a probe, and the end of the
/// module of the probe.
fn push_fire_call(
    out: &mut Vec<u8>,
    provider: &[u8],
    probe: &Probe,
    symbol: &Vec<u8>,
    args: &Vec<Argument>,
)
    requires
        symbol@ == symbol_of(provider@, probe@.name),
        args@ == arguments_of(probe@.args),
    ensures
        final(out)@ == old(out)@ + fire_call_text(signature_of(provider@, probe@)),
{
    push_listing(out, Listing::Lets, args);
    push_text(out, "                unsafe {\n                    ");
    push_bytes(out, symbol.as_slice());
    push_text(out, "(");
    push_listing(out, Listing::CallArgs, args);
    push_text(out, ");\n                }\n            }\n        }\n    }\n\n");
    assert(out@ =~= old(out)@ + fire_call_text(signature_of(provider@, probe@)));
}

/// Appends the entry of a probe in the bindings.
pub fn push_binding(out: &mut Vec<u8>, provider: &[u8], probe: &Probe)
    ensures
        final(out)@ == old(out)@ + binding_text(signature_of(provider@, probe@)),
{
    let symbol = symbol_name(provider, probe.name.as_slice());
    let args = probe.arguments();
    let ghost sig = signature_of(provider@, probe@);
    push_module(out, provider, probe);
    push_foreign(out, provider, probe, &symbol, &args);
    push_flag(out);
    push_fire_head(out, provider, probe, &args);
    push_fire_call(out, provider, probe, &symbol, &args);
    assert(old(out)@ + module_text(sig) + foreign_text(sig) + flag_text() + fire_head_text(sig)
        + fire_call_text(sig) =~= old(out)@ + (module_text(sig) + foreign_text(sig) + flag_text()
        + fire_head_text(sig) + fire_call_text(sig)));
}

/// Appends the entry of a probe in an artifact.
pub fn push_entry(out: &mut Vec<u8>, kind: Artifact, provider: &[u8], probe: &Probe)
    ensures
        final(out)@ == old(out)@ + entry_text(kind, signature_of(provider@, probe@)),
{
    match kind {
        Artifact::Declaration => push_declaration(out, provider, probe),
        Artifact::Definition => push_definition(out, provider, probe),
        Artifact::Binding => push_binding(out, provider, probe),
    }
}

/// Appends what an artifact holds for a provider.
pub fn push_provider(out: &mut Vec<u8>, kind: Artifact, provider: &Provider)
    ensures
        final(out)@ == old(out)@ + provider_text(kind, provider@),
{
    match kind {
        Artifact::Binding => {
            push_text(out, "#[allow(non_snake_case)]\npub mod ");
            push_bytes(out, provider.name.as_slice());
            push_text(out, " {\n");
        },
        _ => {},
    }
    assert(out@ =~= old(out)@ + head_text(kind, provider@.name) + entries_text(
        kind,
        provider@,
        0,
    ));
    let mut j: usize = 0;
    while j < provider.probes.len()
        invariant
            j <= provider.probes.len(),
            out@ == old(out)@ + head_text(kind, provider@.name) + entries_text(
                kind,
                provider@,
                j as int,
            ),
        decreases provider.probes.len() - j,
    {
        assert(provider@.probes[j as int] == provider.probes[j as int]@);
        push_entry(out, kind, provider.name.as_slice(), &provider.probes[j]);
        assert(out@ =~= old(out)@ + head_text(kind, provider@.name) + entries_text(
            kind,
            provider@,
            j + 1,
        ));
        j += 1;
    }
    match kind {
        Artifact::Binding => {
            push_text(out, "}\n\n");
        },
        _ => {},
    }
    assert(out@ =~= old(out)@ + provider_text(kind, provider@));
}

/// Renders one artifact of a file.
pub fn render(file: &File, kind: Artifact) -> (out: Vec<u8>)
    ensures
        out@ == artifact_text(kind, file@),
{
    let mut out: Vec<u8> = Vec::new();
    let mut i: usize = 0;
    while i < file.providers.len()
        invariant
            i <= file.providers.len(),
            out@ == providers_text(kind, file@, i as int),
        decreases file.providers.len() - i,
    {
        assert(file@[i as int] == file.providers[i as int]@);
        push_provider(&mut out, kind, &file.providers[i]);
        i += 1;
    }
    out
}

/// The C prototypes of the probe functions of a file.
pub fn declarations(file: &File) -> (out: Vec<u8>)
    ensures
        out@ == artifact_text(Artifact::Declaration, file@),
{
    render(file, Artifact::Declaration)
}

/// The C definitions of the probe functions of a file.
pub fn definitions(file: &File) -> (out: Vec<u8>)
    ensures
        out@ == artifact_text(Artifact::Definition, file@),
{
    render(file, Artifact::Definition)
}

/// The Rust bindings of the probes of a file.
pub fn bindings(file: &File) -> (out: Vec<u8>)
    ensures
        out@ == artifact_text(Artifact::Binding, file@),
{
    render(file, Artifact::Binding)
}

/// The number of parameters that the text of a C parameter list declares:
/// none when it is `void`, else one more than it has commas.
pub open spec fn c_parameter_count(text: Seq<u8>) -> nat {
    if text == lit("void"@) {
        0
    } else {
        count_byte(text, 44) + 1
    }
}

/// The number of members of a tuple type in which a comma follows each
/// member.
pub open spec fn tuple_arity(text: Seq<u8>) -> nat {
    count_byte(text, 44)
}

proof fn lemma_decimal_digits(n: nat)
    ensures
        decimal(n).len() > 0,
        forall|i: int| 0 <= i < decimal(n).len() ==> 48 <= #[trigger] decimal(n)[i] <= 57,
    decreases n,
{
    if n >= 10 {
        lemma_decimal_digits(n / 10);
    }
}

proof fn lemma_type_names_plain(arg: Argument)
    ensures
        count_byte(c_name(arg.abi), 44) == 0,
        count_byte(thunk_name(arg.host), 44) == 0,
        c_name(arg.abi).len() > 0,
        c_name(arg.abi)[0] != 118,
{
    reveal_strlit("uint8_t");
    reveal_strlit("uint16_t");
    reveal_strlit("uint32_t");
    reveal_strlit("uint64_t");
    reveal_strlit("int8_t");
    reveal_strlit("int16_t");
    reveal_strlit("int32_t");
    reveal_strlit("int64_t");
    reveal_strlit("const char*");
    reveal_strlit("u8");
    reveal_strlit("u16");
    reveal_strlit("u32");
    reveal_strlit("u64");
    reveal_strlit("i8");
    reveal_strlit("i16");
    reveal_strlit("i32");
    reveal_strlit("i64");
    reveal_strlit("&'a str");
    lemma_count_none(c_name(arg.abi), 44);
    lemma_count_none(thunk_name(arg.host), 44);
}

proof fn lemma_separator_comma()
    ensures
        count_byte(lit(", "@), 44) == 1,
{
    reveal_strlit(", ");
    let comma = lit(", "@);
    let one = comma.drop_last();
    assert(comma.len() == 2 && comma[0] == 44 && comma[1] == 32);
    assert(one.len() == 1 && one.last() == 44);
    assert(one.drop_last().len() == 0);
    assert(count_byte(one.drop_last(), 44) == 0);
    assert(count_byte(one, 44) == 1);
}

/// The commas of the items of the three parameter lists: a C type and a C
/// parameter hold none, a member of the tuple holds the one that follows it.
proof fn lemma_item_commas(i: int, arg: Argument)
    requires
        0 <= i,
    ensures
        count_byte(item_text(Listing::CTypes, i, arg), 44) == 0,
        count_byte(item_text(Listing::CParams, i, arg), 44) == 0,
        count_byte(item_text(Listing::ThunkTypes, i, arg), 44) == 1,
        item_text(Listing::CTypes, i, arg).len() > 0,
        item_text(Listing::CTypes, i, arg)[0] != 118,
        item_text(Listing::CParams, i, arg).len() > 0,
        item_text(Listing::CParams, i, arg)[0] != 118,
{
    lemma_type_names_plain(arg);
    lemma_decimal_digits(i as nat);
    lemma_count_none(decimal(i as nat), 44);
    reveal_strlit(" arg");
    lemma_count_none(lit(" arg"@), 44);
    lemma_count_concat(c_name(arg.abi), lit(" arg"@), 44);
    lemma_count_concat(c_name(arg.abi) + lit(" arg"@), decimal(i as nat), 44);
    lemma_separator_comma();
    lemma_count_concat(thunk_name(arg.host), lit(", "@), 44);
}

proof fn lemma_joined_first(items: Seq<Seq<u8>>, sep: Seq<u8>, n: int)
    requires
        1 <= n <= items.len(),
        items[0].len() > 0,
    ensures
        joined(items, sep, n).len() > 0,
        joined(items, sep, n)[0] == items[0][0],
    decreases n,
{
    if n > 1 {
        lemma_joined_first(items, sep, n - 1);
    }
}

/// The commas of a list whose items hold `each` commas apiece and whose
/// separator holds `between`.
proof fn lemma_joined_commas(items: Seq<Seq<u8>>, sep: Seq<u8>, n: int, each: nat, between: nat)
    requires
        1 <= n <= items.len(),
        forall|i: int| 0 <= i < n ==> count_byte(#[trigger] items[i], 44) == each,
        count_byte(sep, 44) == between,
    ensures
        count_byte(joined(items, sep, n), 44) == n * each + (n - 1) * between,
    decreases n,
{
    if n > 1 {
        lemma_joined_commas(items, sep, n - 1, each, between);
        lemma_count_concat(joined(items, sep, n - 1), sep, 44);
        lemma_count_concat(joined(items, sep, n - 1) + sep, items[n - 1], 44);
        assert(n * each + (n - 1) * between == (n - 1) * each + (n - 2) * between + between
            + each) by (nonlinear_arith);
    } else {
        assert(n * each + (n - 1) * between == each) by (nonlinear_arith)
            requires
                n == 1,
        ;
    }
}

/// The three artifacts agree on the number of arguments of a probe: the
/// prototype declares one parameter for each declared argument, so does the
/// definition, and the tuple that the closure of a firing site returns has
/// one member for each.
pub proof fn lemma_arity_agrees(provider: Seq<u8>, probe: ProbeSpec)
    ensures
        c_parameter_count(c_parameters(Listing::CTypes, signature_of(provider, probe).args))
            == probe.args.len(),
        c_parameter_count(c_parameters(Listing::CParams, signature_of(provider, probe).args))
            == probe.args.len(),
        tuple_arity(listing(Listing::ThunkTypes, signature_of(provider, probe).args))
            == probe.args.len(),
        forall|style: Listing| #[trigger]
            items(style, signature_of(provider, probe).args).len() == probe.args.len(),
        declared_types(probe).len() == probe.args.len(),
{
    let args = signature_of(provider, probe).args;
    let n = args.len() as int;
    if n > 0 {
        reveal_strlit("void");
        let comma = lit(", "@);
        lemma_separator_comma();
        assert(count_byte(Seq::<u8>::empty(), 44) == 0);
        assert forall|i: int| 0 <= i < n implies count_byte(
            #[trigger] items(Listing::CTypes, args)[i],
            44,
        ) == 0 by {
            lemma_item_commas(i, args[i]);
        }
        assert forall|i: int| 0 <= i < n implies count_byte(
            #[trigger] items(Listing::CParams, args)[i],
            44,
        ) == 0 by {
            lemma_item_commas(i, args[i]);
        }
        assert forall|i: int| 0 <= i < n implies count_byte(
            #[trigger] items(Listing::ThunkTypes, args)[i],
            44,
        ) == 1 by {
            lemma_item_commas(i, args[i]);
        }
        lemma_item_commas(0, args[0]);
        lemma_joined_commas(items(Listing::CTypes, args), comma, n, 0, 1);
        lemma_joined_commas(items(Listing::CParams, args), comma, n, 0, 1);
        lemma_joined_commas(items(Listing::ThunkTypes, args), Seq::empty(), n, 1, 0);
        lemma_joined_first(items(Listing::CTypes, args), comma, n);
        lemma_joined_first(items(Listing::CParams, args), comma, n);
        assert(lit("void"@)[0] == 118);
        assert(n * 0 + (n - 1) * 1 == n - 1) by (nonlinear_arith);
        assert(n * 1 + (n - 1) * 0 == n) by (nonlinear_arith);
    } else {
        assert(count_byte(listing(Listing::ThunkTypes, args), 44) == 0);
    }
}

/// The fire function of a probe takes the declared types, in the declared
/// order: the members of the tuple that its closure returns spell the types
/// against which a firing site is checked.
pub proof fn lemma_fire_types_are_declared(provider: Seq<u8>, probe: ProbeSpec, i: int)
    requires
        0 <= i < probe.args.len(),
        i <= usize::MAX,
    ensures
        items(Listing::ThunkTypes, signature_of(provider, probe).args)[i] == thunk_name(
            declared_types(probe)[i],
        ) + lit(", "@),
        declared_types(probe)[i] == host_of(probe.args[i]),
        signature_of(provider, probe).args[i].position == i,
        signature_of(provider, probe).args[i].dsl == probe.args[i],
{
}

/// The position of the first `(` at or after `from`.
pub open spec fn paren_after(s: Seq<u8>, from: int) -> int
    decreases s.len() - from,
{
    if from < 0 || from >= s.len() || s[from] == 40 {
        from
    } else {
        paren_after(s, from + 1)
    }
}

/// The position after the last space before `to`, or the start of the
/// text.
pub open spec fn word_start(s: Seq<u8>, to: int) -> int
    decreases to,
{
    if to <= 0 {
        0
    } else if s[to - 1] == 32 {
        to
    } else {
        word_start(s, to - 1)
    }
}

/// The symbol that an entry of an artifact spells: the word before the
/// first `(` of the entry.
pub open spec fn named_symbol(entry: Seq<u8>) -> Seq<u8> {
    entry.subrange(word_start(entry, paren_after(entry, 0)), paren_after(entry, 0))
}

/// The entry of the probe at index `j` of the provider at index `i`.
pub open spec fn entry_at(kind: Artifact, file: Seq<ProviderSpec>, i: int, j: int) -> Seq<u8> {
    entry_text(kind, signature_of(file[i].name, file[i].probes[j]))
}

/// The symbols that the entries of an artifact spell.
pub open spec fn symbols_in(kind: Artifact, file: Seq<ProviderSpec>) -> Set<Seq<u8>> {
    Set::new(
        |s: Seq<u8>|
            exists|i: int, j: int|
                0 <= i < file.len() && 0 <= j < file[i].probes.len() && s == named_symbol(
                    #[trigger] entry_at(kind, file, i, j),
                ),
    )
}

/// The symbols of the probes that a file declares.
pub open spec fn declared_symbols(file: Seq<ProviderSpec>) -> Set<Seq<u8>> {
    Set::new(
        |s: Seq<u8>|
            exists|i: int, j: int|
                0 <= i < file.len() && 0 <= j < file[i].probes.len() && s == #[trigger] symbol_at(
                    file,
                    i,
                    j,
                ),
    )
}

proof fn lemma_paren_after(s: Seq<u8>, from: int, to: int)
    requires
        0 <= from <= to < s.len(),
        forall|k: int| from <= k < to ==> s[k] != 40,
        s[to] == 40,
    ensures
        paren_after(s, from) == to,
    decreases to - from,
{
    if from < to {
        lemma_paren_after(s, from + 1, to);
    }
}

proof fn lemma_word_start(s: Seq<u8>, from: int, to: int)
    requires
        0 < from <= to <= s.len(),
        s[from - 1] == 32,
        forall|k: int| from <= k < to ==> s[k] != 32,
    ensures
        word_start(s, to) == from,
    decreases to - from,
{
    if from < to {
        lemma_word_start(s, from, to - 1);
    }
}

/// The word before the first `(` of a text is `symbol`, where the text is
/// `prefix`, `symbol`, `(` and more, `prefix` holds no `(` and ends in a
/// space, and `symbol` is an identifier.
proof fn lemma_named_between(prefix: Seq<u8>, symbol: Seq<u8>, rest: Seq<u8>)
    requires
        is_identifier(symbol),
        prefix.len() > 0,
        prefix.last() == 32,
        no_paren(prefix),
    ensures
        named_symbol(prefix + symbol + lit("("@) + rest) == symbol,
{
    reveal_strlit("(");
    let s = prefix + symbol + lit("("@) + rest;
    let from = prefix.len() as int;
    let to = from + symbol.len();
    assert(s[to] == 40);
    assert(s[from - 1] == prefix[from - 1]);
    assert forall|k: int| 0 <= k < to implies s[k] != 40 by {
        if k < from {
            assert(s[k] == prefix[k]);
        } else {
            assert(s[k] == symbol[k - from]);
            assert(is_word_byte(symbol[k - from]));
        }
    }
    assert forall|k: int| from <= k < to implies s[k] != 32 by {
        assert(s[k] == symbol[k - from]);
        assert(is_word_byte(symbol[k - from]));
    }
    lemma_paren_after(s, 0, to);
    lemma_word_start(s, from, to);
    assert(s.subrange(from, to) =~= symbol);
}

/// Whether a text holds no `(`.
pub open spec fn no_paren(s: Seq<u8>) -> bool {
    forall|k: int| 0 <= k < s.len() ==> s[k] != 40
}

proof fn lemma_no_paren_joined(a: Seq<u8>, b: Seq<u8>)
    requires
        no_paren(a),
        no_paren(b),
    ensures
        no_paren(a + b),
{
    assert forall|k: int| 0 <= k < (a + b).len() implies (a + b)[k] != 40 by {
        if k < a.len() {
            assert((a + b)[k] == a[k]);
        } else {
            assert((a + b)[k] == b[k - a.len()]);
        }
    }
}

/// What stands before the symbol in the entry of a probe in the bindings.
pub open spec fn binding_prefix(probe: Seq<u8>) -> Seq<u8> {
    lit("    pub mod "@) + probe + lit(" {\n"@) + lit("        extern \"C\" {\n            fn "@)
}

proof fn lemma_binding_prefix(probe: Seq<u8>)
    requires
        is_identifier(probe),
    ensures
        no_paren(binding_prefix(probe)),
        binding_prefix(probe).len() > 0,
        binding_prefix(probe).last() == 32,
{
    reveal_strlit("    pub mod ");
    reveal_strlit(" {\n");
    reveal_strlit("        extern \"C\" {\n            fn ");
    let opening = lit("    pub mod "@);
    let brace = lit(" {\n"@);
    let foreign = lit("        extern \"C\" {\n            fn "@);
    assert(no_paren(opening));
    assert(no_paren(brace));
    assert(no_paren(foreign));
    assert(no_paren(probe)) by {
        assert forall|k: int| 0 <= k < probe.len() implies probe[k] != 40 by {
            assert(is_word_byte(probe[k]));
        }
    }
    lemma_no_paren_joined(opening, probe);
    lemma_no_paren_joined(opening + probe, brace);
    lemma_no_paren_joined(opening + probe + brace, foreign);
    assert(binding_prefix(probe).last() == foreign[foreign.len() - 1]);
}

proof fn lemma_c_entry_names_symbol(sig: Signature, rest: Seq<u8>)
    requires
        is_identifier(sig.symbol),
    ensures
        named_symbol(lit("void "@) + sig.symbol + lit("("@) + rest) == sig.symbol,
{
    reveal_strlit("void ");
    let prefix = lit("void "@);
    assert(no_paren(prefix));
    assert(prefix.last() == 32);
    lemma_named_between(prefix, sig.symbol, rest);
}

proof fn lemma_regroup(
    module: Seq<u8>,
    foreign: Seq<u8>,
    symbol: Seq<u8>,
    paren: Seq<u8>,
    params: Seq<u8>,
    close: Seq<u8>,
    more: Seq<u8>,
)
    ensures
        module + (foreign + symbol + paren + params + close) + more == module + foreign + symbol
            + paren + (params + close + more),
{
    assert(module + (foreign + symbol + paren + params + close) + more =~= module + foreign
        + symbol + paren + (params + close + more));
}

proof fn lemma_binding_names_symbol(sig: Signature)
    requires
        is_identifier(sig.probe),
        is_identifier(sig.symbol),
    ensures
        named_symbol(binding_text(sig)) == sig.symbol,
{
    let module = module_text(sig);
    let foreign = lit("        extern \"C\" {\n            fn "@);
    let params = listing(Listing::FfiParams, sig.args);
    let close = lit(");\n        }\n\n"@);
    let flag = flag_text();
    let head = fire_head_text(sig);
    let call = fire_call_text(sig);
    let more = flag + head + call;
    let rest = params + close + more;
    lemma_binding_prefix(sig.probe);
    lemma_named_between(binding_prefix(sig.probe), sig.symbol, rest);
    lemma_regroup(module, foreign, sig.symbol, lit("("@), params, close, more);
    assert(module + foreign_text(sig) + flag + head + call == module + foreign_text(sig) + more)
        by {
        assert(module + foreign_text(sig) + flag + head + call =~= module + foreign_text(sig) + (
        flag + head + call));
    }
}

/// Every entry of every artifact spells the symbol of its probe, where the
/// names of the provider and of the probe are identifiers.
pub proof fn lemma_entry_names_symbol(kind: Artifact, provider: Seq<u8>, probe: ProbeSpec)
    requires
        is_identifier(provider),
        is_identifier(probe.name),
    ensures
        named_symbol(entry_text(kind, signature_of(provider, probe))) == symbol_of(
            provider,
            probe.name,
        ),
{
    let sig = signature_of(provider, probe);
    lemma_symbol_is_identifier(provider, probe.name);
    match kind {
        Artifact::Declaration => {
            let rest = c_parameters(Listing::CTypes, sig.args) + lit(");\n"@);
            lemma_c_entry_names_symbol(sig, rest);
            assert(entry_text(kind, sig) =~= lit("void "@) + sig.symbol + lit("("@) + rest);
        },
        Artifact::Definition => {
            let rest = c_parameters(Listing::CParams, sig.args) + lit(") { "@) + upper(sig.symbol)
                + lit("("@) + listing(Listing::HookArgs, sig.args) + lit("); }\n"@);
            lemma_c_entry_names_symbol(sig, rest);
            assert(entry_text(kind, sig) =~= lit("void "@) + sig.symbol + lit("("@) + rest);
        },
        Artifact::Binding => {
            lemma_binding_names_symbol(sig);
        },
    }
}

/// The three artifacts of a valid file name the same probes: the symbols
/// that the entries of each artifact spell are the symbols of the probes
/// that the file declares, no more and no fewer.
pub proof fn lemma_artifacts_name_same_probes(file: Seq<ProviderSpec>)
    requires
        valid(file),
    ensures
        symbols_in(Artifact::Declaration, file) == declared_symbols(file),
        symbols_in(Artifact::Definition, file) == declared_symbols(file),
        symbols_in(Artifact::Binding, file) == declared_symbols(file),
{
    lemma_symbols_in(Artifact::Declaration, file);
    lemma_symbols_in(Artifact::Definition, file);
    lemma_symbols_in(Artifact::Binding, file);
}

proof fn lemma_symbols_in(kind: Artifact, file: Seq<ProviderSpec>)
    requires
        valid(file),
    ensures
        symbols_in(kind, file) == declared_symbols(file),
{
    assert forall|i: int, j: int|
        0 <= i < file.len() && 0 <= j < file[i].probes.len() implies named_symbol(
        #[trigger] entry_at(kind, file, i, j),
    ) == symbol_at(file, i, j) by {
        assert(provider_ok(file, i));
        assert(probe_ok(file, i, j));
        lemma_entry_names_symbol(kind, file[i].name, file[i].probes[j]);
    }
    assert forall|s: Seq<u8>| symbols_in(kind, file).contains(s) implies declared_symbols(
        file,
    ).contains(s) by {
        let (i, j) = choose|i: int, j: int|
            0 <= i < file.len() && 0 <= j < file[i].probes.len() && s == named_symbol(
                #[trigger] entry_at(kind, file, i, j),
            );
        assert(s == symbol_at(file, i, j));
    }
    assert forall|s: Seq<u8>| declared_symbols(file).contains(s) implies symbols_in(
        kind,
        file,
    ).contains(s) by {
        let (i, j) = choose|i: int, j: int|
            0 <= i < file.len() && 0 <= j < file[i].probes.len() && s == #[trigger] symbol_at(
                file,
                i,
                j,
            );
        assert(s == named_symbol(entry_at(kind, file, i, j)));
    }
    assert(symbols_in(kind, file) =~= declared_symbols(file));
}

} // verus!
