//! The canonical text of a parsed file.
//!
//! Each provider stands on lines of its own, each probe on one line, with
//! four spaces before it; a comma and a space part the types of a probe.
//! Parsing the text of a file whose names are identifiers gives the file
//! back.
use crate::model::{File, Probe, ProbeSpec, Provider, ProviderSpec};
use crate::parser::{
    args_from, gap_end, is_space, name_at, parsed, probe_at, probes_from, provider_at,
    providers_from, type_at, word_end, SyntaxError,
};
use crate::validate::{probe_ok, probes_well_named, provider_ok, valid, well_named};
use crate::text::{is_identifier, is_letter, is_word_byte, lit, push_bytes, push_text};
use crate::types::{dsl_name, type_named, DataType};
use vstd::prelude::*;

verus! {

/// The types of a probe from index `i` on, parted by a comma and a space.
pub open spec fn types_source(args: Seq<DataType>, i: int) -> Seq<u8>
    decreases args.len() - i,
{
    if i < 0 || i >= args.len() {
        Seq::empty()
    } else if i + 1 == args.len() {
        dsl_name(args[i])
    } else {
        dsl_name(args[i]) + lit(", "@) + types_source(args, i + 1)
    }
}

/// The declaration of a probe.
pub open spec fn probe_source(probe: ProbeSpec) -> Seq<u8> {
    lit("probe "@) + probe.name + lit("("@) + types_source(probe.args, 0) + lit(");"@)
}

/// The lines of the probes of a provider from index `j` on.
pub open spec fn probes_source(probes: Seq<ProbeSpec>, j: int) -> Seq<u8>
    decreases probes.len() - j,
{
    if j < 0 || j >= probes.len() {
        Seq::empty()
    } else {
        lit("    "@) + probe_source(probes[j]) + lit("\n"@) + probes_source(probes, j + 1)
    }
}

/// The declaration of a provider.
pub open spec fn provider_source(provider: ProviderSpec) -> Seq<u8> {
    lit("provider "@) + provider.name + lit(" {\n"@) + probes_source(provider.probes, 0) + lit(
        "};\n"@,
    )
}

/// The declarations of the providers of a file from index `i` on.
pub open spec fn providers_source(file: Seq<ProviderSpec>, i: int) -> Seq<u8>
    decreases file.len() - i,
{
    if i < 0 || i >= file.len() {
        Seq::empty()
    } else {
        provider_source(file[i]) + providers_source(file, i + 1)
    }
}

/// The canonical text of a file.
pub open spec fn source_text(file: Seq<ProviderSpec>) -> Seq<u8> {
    providers_source(file, 0)
}

/// Appends the declaration of a probe.
pub fn push_probe(out: &mut Vec<u8>, probe: &Probe)
    ensures
        final(out)@ == old(out)@ + probe_source(probe@),
{
    push_text(out, "probe ");
    push_bytes(out, probe.name.as_slice());
    push_text(out, "(");
    let ghost head = out@;
    let mut i: usize = 0;
    while i < probe.args.len()
        invariant
            i <= probe.args.len(),
            out@ + types_source(probe@.args, i as int) == head + types_source(probe@.args, 0),
        decreases probe.args.len() - i,
    {
        let ghost before = out@;
        probe.args[i].push_name(out);
        if i + 1 < probe.args.len() {
            push_text(out, ", ");
        }
        assert(out@ + types_source(probe@.args, i + 1) =~= before + types_source(
            probe@.args,
            i as int,
        ));
        i += 1;
    }
    assert(out@ =~= head + types_source(probe@.args, 0)) by {
        assert(out@ + types_source(probe@.args, i as int) =~= out@);
    }
    push_text(out, ");");
    assert(out@ =~= old(out)@ + probe_source(probe@));
}

/// Appends the declaration of a provider.
pub fn push_provider(out: &mut Vec<u8>, provider: &Provider)
    ensures
        final(out)@ == old(out)@ + provider_source(provider@),
{
    push_text(out, "provider ");
    push_bytes(out, provider.name.as_slice());
    push_text(out, " {\n");
    let ghost head = out@;
    let mut j: usize = 0;
    while j < provider.probes.len()
        invariant
            j <= provider.probes.len(),
            out@ + probes_source(provider@.probes, j as int) == head + probes_source(
                provider@.probes,
                0,
            ),
        decreases provider.probes.len() - j,
    {
        let ghost before = out@;
        assert(provider@.probes[j as int] == provider.probes[j as int]@);
        push_text(out, "    ");
        push_probe(out, &provider.probes[j]);
        push_text(out, "\n");
        assert(out@ + probes_source(provider@.probes, j + 1) =~= before + probes_source(
            provider@.probes,
            j as int,
        ));
        j += 1;
    }
    assert(out@ =~= head + probes_source(provider@.probes, 0)) by {
        assert(out@ + probes_source(provider@.probes, j as int) =~= out@);
    }
    push_text(out, "};\n");
    assert(out@ =~= old(out)@ + provider_source(provider@));
}

/// The canonical text of a file.
pub fn to_source(file: &File) -> (out: Vec<u8>)
    ensures
        out@ == source_text(file@),
{
    let mut out: Vec<u8> = Vec::new();
    let mut i: usize = 0;
    assert(out@ + providers_source(file@, 0) =~= providers_source(file@, 0));
    while i < file.providers.len()
        invariant
            i <= file.providers.len(),
            out@ + providers_source(file@, i as int) == source_text(file@),
        decreases file.providers.len() - i,
    {
        let ghost before = out@;
        assert(file@[i as int] == file.providers[i as int]@);
        push_provider(&mut out, &file.providers[i]);
        assert(out@ + providers_source(file@, i + 1) =~= before + providers_source(
            file@,
            i as int,
        ));
        i += 1;
    }
    assert(out@ + providers_source(file@, i as int) =~= out@);
    out
}

/// Whether the text `t` stands in `s` at `pos`.
pub open spec fn holds(s: Seq<u8>, pos: int, t: Seq<u8>) -> bool {
    &&& 0 <= pos
    &&& pos + t.len() <= s.len()
    &&& forall|k: int| 0 <= k < t.len() ==> s[pos + k] == #[trigger] t[k]
}

proof fn lemma_holds_split(s: Seq<u8>, pos: int, a: Seq<u8>, b: Seq<u8>)
    requires
        holds(s, pos, a + b),
    ensures
        holds(s, pos, a),
        holds(s, pos + a.len(), b),
{
    let t = a + b;
    assert forall|k: int| 0 <= k < a.len() implies s[pos + k] == #[trigger] a[k] by {
        assert(t[k] == a[k]);
    }
    assert forall|k: int| 0 <= k < b.len() implies s[pos + a.len() + k] == #[trigger] b[k] by {
        assert(t[a.len() + k] == b[k]);
    }
}

proof fn lemma_literals()
    ensures
        lit("probe "@) == seq![112u8, 114, 111, 98, 101, 32],
        lit("probe"@) == seq![112u8, 114, 111, 98, 101],
        lit("provider "@) == seq![112u8, 114, 111, 118, 105, 100, 101, 114, 32],
        lit("provider"@) == seq![112u8, 114, 111, 118, 105, 100, 101, 114],
        lit("("@) == seq![40u8],
        lit(");"@) == seq![41u8, 59],
        lit(", "@) == seq![44u8, 32],
        lit("    "@) == seq![32u8, 32, 32, 32],
        lit("\n"@) == seq![10u8],
        lit(" {\n"@) == seq![32u8, 123, 10],
        lit("};\n"@) == seq![125u8, 59, 10],
{
    reveal_strlit("probe ");
    reveal_strlit("probe");
    reveal_strlit("provider ");
    reveal_strlit("provider");
    reveal_strlit("(");
    reveal_strlit(");");
    reveal_strlit(", ");
    reveal_strlit("    ");
    reveal_strlit("\n");
    reveal_strlit(" {\n");
    reveal_strlit("};\n");
}

proof fn lemma_type_names()
    ensures
        dsl_name(DataType::U8) == seq![117u8, 105, 110, 116, 56, 95, 116],
        dsl_name(DataType::U16) == seq![117u8, 105, 110, 116, 49, 54, 95, 116],
        dsl_name(DataType::U32) == seq![117u8, 105, 110, 116, 51, 50, 95, 116],
        dsl_name(DataType::U64) == seq![117u8, 105, 110, 116, 54, 52, 95, 116],
        dsl_name(DataType::I8) == seq![105u8, 110, 116, 56, 95, 116],
        dsl_name(DataType::I16) == seq![105u8, 110, 116, 49, 54, 95, 116],
        dsl_name(DataType::I32) == seq![105u8, 110, 116, 51, 50, 95, 116],
        dsl_name(DataType::I64) == seq![105u8, 110, 116, 54, 52, 95, 116],
        dsl_name(DataType::Str) == seq![99u8, 104, 97, 114, 42],
{
    reveal_strlit("uint8_t");
    reveal_strlit("uint16_t");
    reveal_strlit("uint32_t");
    reveal_strlit("uint64_t");
    reveal_strlit("int8_t");
    reveal_strlit("int16_t");
    reveal_strlit("int32_t");
    reveal_strlit("int64_t");
    reveal_strlit("char*");
}

/// The table knows each type by the name under which it prints it.
pub proof fn lemma_type_named(d: DataType)
    ensures
        type_named(dsl_name(d)) == Some(d),
{
    lemma_type_names();
    let u8_ = dsl_name(DataType::U8);
    let u16_ = dsl_name(DataType::U16);
    let u32_ = dsl_name(DataType::U32);
    let u64_ = dsl_name(DataType::U64);
    let i8_ = dsl_name(DataType::I8);
    let i16_ = dsl_name(DataType::I16);
    let i32_ = dsl_name(DataType::I32);
    let i64_ = dsl_name(DataType::I64);
    let str_ = dsl_name(DataType::Str);
    assert(u8_.len() == 7 && u8_[0] == 117);
    assert(u16_.len() == 8 && u16_[4] == 49);
    assert(u32_.len() == 8 && u32_[4] == 51);
    assert(u64_.len() == 8 && u64_[4] == 54);
    assert(i8_.len() == 6);
    assert(i16_.len() == 7 && i16_[0] == 105 && i16_[3] == 49);
    assert(i32_.len() == 7 && i32_[0] == 105 && i32_[3] == 51);
    assert(i64_.len() == 7 && i64_[0] == 105 && i64_[3] == 54);
    assert(str_.len() == 5);
}

proof fn lemma_word_run(s: Seq<u8>, pos: int, n: int)
    requires
        0 <= pos,
        0 <= n,
        pos + n <= s.len(),
        forall|k: int| pos <= k < pos + n ==> is_word_byte(#[trigger] s[k]),
        pos + n == s.len() || !is_word_byte(s[pos + n]),
    ensures
        word_end(s, pos) == pos + n,
    decreases n,
{
    if n > 0 {
        assert(is_word_byte(s[pos]));
        lemma_word_run(s, pos + 1, n - 1);
    }
}

proof fn lemma_space_gap(s: Seq<u8>, pos: int, n: int)
    requires
        0 <= pos,
        0 <= n,
        pos + n <= s.len(),
        forall|k: int| pos <= k < pos + n ==> is_space(#[trigger] s[k]),
        pos + n == s.len() || (!is_space(s[pos + n]) && s[pos + n] != 47),
    ensures
        gap_end(s, pos) == Ok::<int, SyntaxError>(pos + n),
    decreases n,
{
    if n > 0 {
        assert(is_space(s[pos]));
        lemma_space_gap(s, pos + 1, n - 1);
    }
}

/// A printed type parses as itself, where a comma or `)` follows it.
proof fn lemma_type_printed(s: Seq<u8>, pos: int, d: DataType)
    requires
        holds(s, pos, dsl_name(d)),
        pos + dsl_name(d).len() < s.len(),
        s[pos + dsl_name(d).len()] == 44 || s[pos + dsl_name(d).len()] == 41,
    ensures
        type_at(s, pos) == Ok::<(DataType, int), SyntaxError>((d, pos + dsl_name(d).len())),
        dsl_name(d).len() > 0,
        is_letter(s[pos]),
{
    lemma_type_names();
    lemma_type_named(d);
    let name = dsl_name(d);
    let end = pos + name.len();
    assert(s[pos] == name[0]);
    if d is Str {
        assert(s[pos] == name[0] && s[pos + 1] == name[1] && s[pos + 2] == name[2] && s[pos + 3]
            == name[3] && s[pos + 4] == name[4]);
        lemma_word_run(s, pos, 4);
        lemma_space_gap(s, pos + 4, 0);
        assert(s.subrange(pos, pos + 4).push(42) =~= name);
    } else {
        assert forall|k: int| pos <= k < end implies is_word_byte(#[trigger] s[k]) by {
            assert(s[k] == name[k - pos]);
        }
        lemma_word_run(s, pos, name.len() as int);
        lemma_space_gap(s, end, 0);
        assert(s.subrange(pos, end) =~= name) by {
            assert forall|k: int| 0 <= k < name.len() implies s.subrange(pos, end)[k]
                == name[k] by {
                assert(s[pos + k] == name[k]);
            }
        }
    }
}

/// A printed list of types parses as itself, where `)` follows it.
proof fn lemma_args_printed(s: Seq<u8>, pos: int, args: Seq<DataType>, i: int, acc: Seq<DataType>)
    requires
        0 <= i <= args.len(),
        holds(s, pos, types_source(args, i)),
        pos + types_source(args, i).len() < s.len(),
        s[pos + types_source(args, i).len()] == 41,
    ensures
        args_from(s, pos, acc) == Ok::<(Seq<DataType>, int), SyntaxError>(
            (acc + args.skip(i), pos + types_source(args, i).len() + 1),
        ),
    decreases args.len() - i,
{
    lemma_literals();
    if i == args.len() {
        assert(acc + args.skip(i) =~= acc);
    } else {
        let d = args[i];
        let name = dsl_name(d);
        let c1 = pos + name.len();
        if i + 1 == args.len() {
            lemma_type_printed(s, pos, d);
            lemma_space_gap(s, c1, 0);
            assert(acc + args.skip(i) =~= acc.push(d));
        } else {
            let rest = types_source(args, i + 1);
            lemma_holds_split(s, pos, name + lit(", "@), rest);
            lemma_holds_split(s, pos, name, lit(", "@));
            assert(s[c1] == lit(", "@)[0]);
            assert(s[c1 + 1] == lit(", "@)[1]);
            lemma_type_printed(s, pos, d);
            lemma_space_gap(s, c1, 0);
            let next = args[i + 1];
            lemma_type_names();
            assert(dsl_name(next).len() > 0 && is_letter(dsl_name(next)[0]));
            assert(rest[0] == dsl_name(next)[0]);
            assert(s[c1 + 2] == rest[0]);
            lemma_space_gap(s, c1 + 1, 1);
            lemma_args_printed(s, c1 + 2, args, i + 1, acc.push(d));
            assert(acc.push(d) + args.skip(i + 1) =~= acc + args.skip(i));
        }
    }
}

/// A printed name parses as itself, where a byte that cannot stand in a
/// word follows it.
proof fn lemma_name_printed(s: Seq<u8>, pos: int, name: Seq<u8>)
    requires
        is_identifier(name),
        holds(s, pos, name),
        pos + name.len() < s.len(),
        !is_word_byte(s[pos + name.len()]),
    ensures
        name_at(s, pos) == Ok::<(Seq<u8>, int), SyntaxError>((name, pos + name.len())),
        is_letter(s[pos]),
{
    let end = pos + name.len();
    assert(s[pos] == name[0]);
    assert forall|k: int| pos <= k < end implies is_word_byte(#[trigger] s[k]) by {
        assert(s[k] == name[k - pos]);
    }
    lemma_word_run(s, pos, name.len() as int);
    assert(s.subrange(pos, end) =~= name) by {
        assert forall|k: int| 0 <= k < name.len() implies s.subrange(pos, end)[k] == name[k] by {
            assert(s[pos + k] == name[k]);
        }
    }
}

/// The first byte of a printed list of types, or of the `)` after it, opens
/// no gap.
proof fn lemma_types_first(args: Seq<DataType>)
    ensures
        args.len() > 0 ==> types_source(args, 0).len() > 0 && is_letter(types_source(args, 0)[0]),
        args.len() == 0 ==> types_source(args, 0).len() == 0,
{
    lemma_type_names();
    if args.len() > 0 {
        let name = dsl_name(args[0]);
        assert(name.len() > 0 && is_letter(name[0]));
        if args.len() > 1 {
            assert(types_source(args, 0)[0] == name[0]);
        }
    }
}

/// A printed probe parses as itself.
proof fn lemma_probe_printed(s: Seq<u8>, pos: int, probe: ProbeSpec)
    requires
        is_identifier(probe.name),
        holds(s, pos, probe_source(probe)),
    ensures
        probe_at(s, pos) == Ok::<(ProbeSpec, int), SyntaxError>(
            (probe, pos + probe_source(probe).len()),
        ),
        probe_source(probe).len() > 0,
        s[pos] == 112,
{
    lemma_literals();
    let keyword = lit("probe "@);
    let name = probe.name;
    let open = lit("("@);
    let types = types_source(probe.args, 0);
    let close = lit(");"@);
    lemma_holds_split(s, pos, keyword + name + open + types, close);
    lemma_holds_split(s, pos, keyword + name + open, types);
    lemma_holds_split(s, pos, keyword + name, open);
    lemma_holds_split(s, pos, keyword, name);
    let c1 = pos + 6;
    let c2 = c1 + name.len();
    let c3 = c2 + 1;
    let c4 = c3 + types.len();
    assert(s[pos] == keyword[0] && s[pos + 1] == keyword[1] && s[pos + 2] == keyword[2] && s[pos
        + 3] == keyword[3] && s[pos + 4] == keyword[4] && s[pos + 5] == keyword[5]);
    assert(s[c2] == open[0]);
    assert(s[c4] == close[0]);
    assert(s[c4 + 1] == close[1]);
    lemma_word_run(s, pos, 5);
    assert(s.subrange(pos, pos + 5) =~= lit("probe"@));
    assert(s[c1] == name[0]);
    lemma_space_gap(s, pos + 5, 1);
    lemma_name_printed(s, c1, name);
    lemma_space_gap(s, c2, 0);
    lemma_types_first(probe.args);
    if types.len() > 0 {
        assert(s[c3] == types[0]);
    }
    lemma_space_gap(s, c3, 0);
    lemma_args_printed(s, c3, probe.args, 0, Seq::empty());
    assert(Seq::<DataType>::empty() + probe.args.skip(0) =~= probe.args);
    lemma_space_gap(s, c4 + 1, 0);
}

/// The printed probes of a provider parse as themselves, where `}` follows
/// them: `line` is where the line of the probe at index `j` starts.
proof fn lemma_probes_printed(
    s: Seq<u8>,
    line: int,
    probes: Seq<ProbeSpec>,
    j: int,
    acc: Seq<ProbeSpec>,
    brace: int,
)
    requires
        0 <= j <= probes.len(),
        probes_well_named(probes),
        holds(s, line, probes_source(probes, j)),
        line + probes_source(probes, j).len() < s.len(),
        s[line + probes_source(probes, j).len()] == 125,
    ensures
        probes_from(
            s,
            if j < probes.len() {
                line + 4
            } else {
                line
            },
            acc,
            brace,
        ) == Ok::<(Seq<ProbeSpec>, int), SyntaxError>(
            (acc + probes.skip(j), line + probes_source(probes, j).len() + 1),
        ),
        j < probes.len() ==> probes_source(probes, j).len() > 4 && s[line] == 32 && s[line + 1]
            == 32 && s[line + 2] == 32 && s[line + 3] == 32 && s[line + 4] == 112,
    decreases probes.len() - j,
{
    lemma_literals();
    if j == probes.len() {
        assert(acc + probes.skip(j) =~= acc);
    } else {
        let probe = probes[j];
        let indent = lit("    "@);
        let text = probe_source(probe);
        let feed = lit("\n"@);
        let rest = probes_source(probes, j + 1);
        lemma_holds_split(s, line, indent + text + feed, rest);
        lemma_holds_split(s, line, indent + text, feed);
        lemma_holds_split(s, line, indent, text);
        let pos = line + 4;
        let c1 = pos + text.len();
        let next = c1 + 1;
        assert(s[line] == indent[0] && s[line + 1] == indent[1] && s[line + 2] == indent[2]
            && s[line + 3] == indent[3]);
        assert(s[c1] == feed[0]);
        assert(is_identifier(probe.name));
        lemma_probe_printed(s, pos, probe);
        lemma_probes_printed(s, next, probes, j + 1, acc.push(probe), brace);
        if j + 1 < probes.len() {
            lemma_space_gap(s, c1, 5);
        } else {
            lemma_space_gap(s, c1, 1);
        }
        assert(acc.push(probe) + probes.skip(j + 1) =~= acc + probes.skip(j));
    }
}

/// A printed provider parses as itself, up to the line feed that ends it.
proof fn lemma_provider_printed(s: Seq<u8>, pos: int, provider: ProviderSpec)
    requires
        is_identifier(provider.name),
        probes_well_named(provider.probes),
        holds(s, pos, provider_source(provider)),
    ensures
        provider_at(s, pos) == Ok::<(ProviderSpec, int), SyntaxError>(
            (provider, pos + provider_source(provider).len() - 1),
        ),
        provider_source(provider).len() > 1,
        s[pos] == 112,
        s[pos + provider_source(provider).len() - 1] == 10,
{
    lemma_literals();
    let keyword = lit("provider "@);
    let name = provider.name;
    let open = lit(" {\n"@);
    let body = probes_source(provider.probes, 0);
    let close = lit("};\n"@);
    lemma_holds_split(s, pos, keyword + name + open + body, close);
    lemma_holds_split(s, pos, keyword + name + open, body);
    lemma_holds_split(s, pos, keyword + name, open);
    lemma_holds_split(s, pos, keyword, name);
    let c1 = pos + 9;
    let c2 = c1 + name.len();
    let line = c2 + 3;
    let c5 = line + body.len();
    assert(s[pos] == keyword[0] && s[pos + 1] == keyword[1] && s[pos + 2] == keyword[2] && s[pos
        + 3] == keyword[3] && s[pos + 4] == keyword[4] && s[pos + 5] == keyword[5] && s[pos + 6]
        == keyword[6] && s[pos + 7] == keyword[7] && s[pos + 8] == keyword[8]);
    assert(s[c2] == open[0] && s[c2 + 1] == open[1] && s[c2 + 2] == open[2]);
    assert(s[c5] == close[0] && s[c5 + 1] == close[1] && s[c5 + 2] == close[2]);
    lemma_word_run(s, pos, 8);
    assert(s.subrange(pos, pos + 8) =~= lit("provider"@));
    assert(s[c1] == name[0]);
    lemma_space_gap(s, pos + 8, 1);
    lemma_name_printed(s, c1, name);
    lemma_space_gap(s, c2, 1);
    lemma_probes_printed(s, line, provider.probes, 0, Seq::empty(), c2 + 1);
    if provider.probes.len() > 0 {
        lemma_space_gap(s, c2 + 2, 5);
    } else {
        lemma_space_gap(s, c2 + 2, 1);
    }
    assert(Seq::<ProbeSpec>::empty() + provider.probes.skip(0) =~= provider.probes);
    lemma_space_gap(s, c5 + 1, 0);
}

/// The printed providers of a file parse as themselves, where the text
/// ends after them.
proof fn lemma_providers_printed(
    s: Seq<u8>,
    pos: int,
    file: Seq<ProviderSpec>,
    i: int,
    acc: Seq<ProviderSpec>,
)
    requires
        0 <= i <= file.len(),
        well_named(file),
        holds(s, pos, providers_source(file, i)),
        pos + providers_source(file, i).len() == s.len(),
    ensures
        providers_from(s, pos, acc) == Ok::<Seq<ProviderSpec>, SyntaxError>(acc + file.skip(i)),
        i < file.len() ==> pos < s.len() && s[pos] == 112,
    decreases file.len() - i,
{
    if i == file.len() {
        assert(acc + file.skip(i) =~= acc);
    } else {
        let provider = file[i];
        let text = provider_source(provider);
        let rest = providers_source(file, i + 1);
        lemma_holds_split(s, pos, text, rest);
        assert(is_identifier(file[i].name) && probes_well_named(file[i].probes));
        lemma_provider_printed(s, pos, provider);
        let c1 = pos + text.len() - 1;
        lemma_providers_printed(s, c1 + 1, file, i + 1, acc.push(provider));
        lemma_space_gap(s, c1, 1);
        assert(acc.push(provider) + file.skip(i + 1) =~= acc + file.skip(i));
    }
}

/// Parsing the canonical text of a file gives the file back, where the
/// names of the file are identifiers.
pub proof fn lemma_parse_inverts_print(file: Seq<ProviderSpec>)
    requires
        well_named(file),
    ensures
        parsed(source_text(file)) == Ok::<Seq<ProviderSpec>, SyntaxError>(file),
{
    let s = source_text(file);
    assert(holds(s, 0, providers_source(file, 0)));
    lemma_providers_printed(s, 0, file, 0, Seq::empty());
    lemma_space_gap(s, 0, 0);
    assert(Seq::<ProviderSpec>::empty() + file.skip(0) =~= file);
}

/// A valid file is well named, so parsing its canonical text gives it back
/// and generates what the file itself generates.
pub proof fn lemma_valid_is_well_named(file: Seq<ProviderSpec>)
    requires
        valid(file),
    ensures
        well_named(file),
        parsed(source_text(file)) == Ok::<Seq<ProviderSpec>, SyntaxError>(file),
{
    assert forall|i: int| 0 <= i < file.len() implies is_identifier(#[trigger] file[i].name)
        && probes_well_named(file[i].probes) by {
        assert(provider_ok(file, i));
        assert forall|j: int| 0 <= j < file[i].probes.len() implies is_identifier(
            #[trigger] file[i].probes[j].name,
        ) by {
            assert(probe_ok(file, i, j));
        }
    }
    lemma_parse_inverts_print(file);
}

} // verus!
