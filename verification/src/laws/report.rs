//! What the report on static fields says.
use crate::config::Config;
use crate::error::ErrorModel;
use crate::executor::Il2CppExecutor;
use crate::il2cpp::base::Il2Cpp;
use crate::il2cpp::field_layout;
use crate::il2cpp::field_layout::{FieldLayoutModel, StaticFieldKind};
use crate::il2cpp::metadata;
use crate::il2cpp::metadata::Metadata;
use crate::laws::layout::{has_data, is_literal, is_static};
use crate::laws::texts::flat;
use crate::numeral;
use crate::output::bytes;
use crate::output::static_field_exporter;
use crate::output::static_field_exporter::{Progress, StaticFieldEntryModel};
use crate::text;
use vstd::prelude::*;
use vstd::string::*;

verus! {

// Which fields are reported.

/// The field is looked at: it belongs to its type, is a constant, or has data of its own.
pub open spec fn is_looked_at(attrs: u32) -> bool {
    is_static(attrs) || is_literal(attrs) || has_data(attrs)
}

proof fn lemma_looked_at(attrs: u32)
    ensures
        static_field_exporter::is_listed(attrs) == is_looked_at(attrs),
{
    assert((attrs & 0x10 != 0) == ((attrs / 0x10) % 2 == 1)) by (bit_vector);
    assert((attrs & 0x40 != 0) == ((attrs / 0x40) % 2 == 1)) by (bit_vector);
    assert((attrs & 0x100 != 0) == ((attrs / 0x100) % 2 == 1)) by (bit_vector);
}

/// The fields of the type definitions that images list are gone through in order: those of one type
/// definition from its first on, as many as it has.
pub proof fn law_all_fields(m: Metadata, n: nat)
    requires
        n > 0,
    ensures
        static_field_exporter::fields_upto(m, 0).len() == 0,
        ({
            let before = static_field_exporter::fields_upto(m, (n - 1) as nat);
            let all = static_field_exporter::fields_upto(m, n);
            let td = metadata::type_jobs(m)[n - 1].0;
            &&& all.len() == before.len() + m.type_defs@[td].field_count
            &&& forall|i: int| 0 <= i < before.len() ==> #[trigger] all[i] == before[i]
            &&& forall|i: int|
                before.len() <= i < all.len() ==> #[trigger] all[i] == (
                    td,
                    m.type_defs@[td].field_start + (i - before.len()),
                )
        }),
{
}

/// The layout of the `i`-th field.
pub open spec fn layout_at(m: Metadata, il2cpp: Il2Cpp, c: Config, i: int) -> FieldLayoutModel {
    let (td, field) = static_field_exporter::all_fields(m)[i];
    field_layout::layout_of(
        m,
        il2cpp,
        td,
        field - m.type_defs@[td].field_start,
        field as usize,
        il2cpp.types@[m.field_defs@[field].type_index as int],
        c.max_field_rva_dump_bytes,
    )
}

/// The `i`-th field is looked at.
pub open spec fn looked_at(m: Metadata, il2cpp: Il2Cpp, i: int) -> bool {
    let field = static_field_exporter::all_fields(m)[i].1;
    is_looked_at(il2cpp.types@[m.field_defs@[field].type_index as int].attrs)
}

/// The token of the `i`-th field.
pub open spec fn token_at(m: Metadata, i: int) -> u32 {
    m.field_defs@[static_field_exporter::all_fields(m)[i].1].token
}

/// The `i`-th field is looked at and stored in a way.
pub open spec fn is_stored(
    m: Metadata,
    il2cpp: Il2Cpp,
    c: Config,
    i: int,
    kind: StaticFieldKind,
) -> bool {
    looked_at(m, il2cpp, i) && layout_at(m, il2cpp, c, i).kind == kind
}

/// The `i`-th field is stored once for each thread or at an address of its own.
pub open spec fn is_special(m: Metadata, il2cpp: Il2Cpp, c: Config, i: int) -> bool {
    is_stored(m, il2cpp, c, i, StaticFieldKind::ThreadStatic) || is_stored(
        m,
        il2cpp,
        c,
        i,
        StaticFieldKind::FieldRva,
    )
}

/// One of the first `i` fields that are stored in such a way has the token.
pub open spec fn token_before(m: Metadata, il2cpp: Il2Cpp, c: Config, i: int, token: u32) -> bool {
    exists|j: int| 0 <= j < i && #[trigger] is_special(m, il2cpp, c, j) && token_at(m, j) == token
}

/// The `i`-th field has an entry: it is stored in such a way, and no field before it with the same
/// token is.
pub open spec fn has_entry(m: Metadata, il2cpp: Il2Cpp, c: Config, i: int) -> bool {
    is_special(m, il2cpp, c, i) && !token_before(m, il2cpp, c, i, token_at(m, i))
}

/// The first `n` numbers.
pub open spec fn first(n: nat) -> Seq<int> {
    Seq::new(n, |i: int| i)
}

/// The name of a way of storing.
pub open spec fn name_of(kind: StaticFieldKind) -> Seq<char> {
    if kind is Instance {
        "Instance"@
    } else if kind is NormalStatic {
        "NormalStatic"@
    } else if kind is ThreadStatic {
        "ThreadStatic"@
    } else if kind is FieldRva {
        "FieldRva"@
    } else {
        "Literal"@
    }
}

/// The data of a field: that of the image, or else that of the metadata.
pub open spec fn data_of(l: FieldLayoutModel) -> Option<Seq<u8>> {
    if l.binary_bytes is Some {
        l.binary_bytes
    } else {
        l.metadata_bytes
    }
}

/// The entry tells the place and the storage of the `i`-th field, and where it is asked for the
/// data of a field with an address of its own, as digits, in base 64 and as characters.
pub open spec fn is_entry(
    x: Il2CppExecutor,
    m: Metadata,
    il2cpp: Il2Cpp,
    c: Config,
    i: int,
    e: StaticFieldEntryModel,
) -> bool {
    let (td, field) = static_field_exporter::all_fields(m)[i];
    let l = layout_at(m, il2cpp, c, i);
    let name = m.field_defs@[field].name->Ok_0@;
    let owner = x.type_def_names@[td]@;
    let data = data_of(l);
    let shown = c.dump_field_rva_data && l.kind is FieldRva && data is Some;
    &&& e.declaring_type == owner
    &&& e.field_name == name
    &&& e.field_path == owner + "."@ + name
    &&& e.kind == name_of(l.kind)
    &&& e.token == token_at(m, i)
    &&& e.raw_offset == l.raw_offset
    &&& e.effective_offset == l.effective_offset
    &&& e.is_thread_static == l.is_thread_static
    &&& e.has_field_rva == l.has_field_rva
    &&& e.thread_static_block_size == l.thread_static_fields_size
    &&& e.static_block_size == l.static_fields_size
    &&& e.metadata_offset == l.default_value_metadata_offset
    &&& l.default_value_metadata_offset is None ==> e.metadata_rva is None
    &&& l.default_value_metadata_offset matches Some(at) ==> e.metadata_rva == Some(
        if at < m.default_value_data_offset {
            0u64
        } else {
            (at - m.default_value_data_offset) as u64
        },
    )
    &&& e.binary_va == l.binary_va
    &&& e.binary_rva == l.binary_rva
    &&& e.data_size == l.rva_data_size
    &&& e.hex_dump is None
    &&& shown ==> e.hex == bytes::hex_preview(data->0, 128) && e.base64 == Some(
        bytes::base64_text(data->0),
    ) && e.ascii_preview == Some(bytes::ascii_text(data->0, 64))
    &&& !shown ==> e.hex.len() == 0 && e.base64 is None && e.ascii_preview is None
}

/// The name of the `i`-th field could be read, or is not needed.
pub open spec fn name_ready(m: Metadata, il2cpp: Il2Cpp, i: int) -> bool {
    looked_at(m, il2cpp, i) ==> m.field_defs@[static_field_exporter::all_fields(
        m,
    )[i].1].name is Ok
}

/// The report can be made if and only if the names of all fields that are looked at could be read.
/// It has one entry for each field that is stored once for each thread or at an address of its own,
/// in order, but not two with the same token. It counts the fields by the ways in which they are
/// stored.
pub proof fn law_report(x: Il2CppExecutor, m: Metadata, il2cpp: Il2Cpp, c: Config, n: nat)
    requires
        n <= static_field_exporter::all_fields(m).len(),
    ensures
        ({
            let r = static_field_exporter::progress(x, m, il2cpp, c, n);
            &&& r is Ok <==> forall|i: int| 0 <= i < n ==> #[trigger] name_ready(m, il2cpp, i)
            &&& r matches Ok(p) ==> {
                let places = first(n).filter(|i: int| has_entry(m, il2cpp, c, i));
                &&& p.entries.len() == places.len()
                &&& forall|k: int|
                    0 <= k < places.len() ==> is_entry(
                        x,
                        m,
                        il2cpp,
                        c,
                        places[k],
                        #[trigger] p.entries[k],
                    )
                &&& p.thread_statics == first(n).filter(
                    |i: int| is_stored(m, il2cpp, c, i, StaticFieldKind::ThreadStatic),
                ).len()
                &&& p.field_rvas == first(n).filter(
                    |i: int| is_stored(m, il2cpp, c, i, StaticFieldKind::FieldRva),
                ).len()
                &&& p.normal_statics == first(n).filter(
                    |i: int| is_stored(m, il2cpp, c, i, StaticFieldKind::NormalStatic),
                ).len()
            }
        }),
{
    lemma_report(x, m, il2cpp, c, n);
}

proof fn lemma_report(x: Il2CppExecutor, m: Metadata, il2cpp: Il2Cpp, c: Config, n: nat)
    requires
        n <= static_field_exporter::all_fields(m).len(),
    ensures
        ({
            let r = static_field_exporter::progress(x, m, il2cpp, c, n);
            &&& r is Ok <==> forall|i: int| 0 <= i < n ==> #[trigger] name_ready(m, il2cpp, i)
            &&& r matches Ok(p) ==> {
                let places = first(n).filter(|i: int| has_entry(m, il2cpp, c, i));
                &&& p.entries.len() == places.len()
                &&& forall|k: int|
                    0 <= k < places.len() ==> is_entry(
                        x,
                        m,
                        il2cpp,
                        c,
                        places[k],
                        #[trigger] p.entries[k],
                    )
                &&& p.thread_statics == first(n).filter(
                    |i: int| is_stored(m, il2cpp, c, i, StaticFieldKind::ThreadStatic),
                ).len()
                &&& p.field_rvas == first(n).filter(
                    |i: int| is_stored(m, il2cpp, c, i, StaticFieldKind::FieldRva),
                ).len()
                &&& p.normal_statics == first(n).filter(
                    |i: int| is_stored(m, il2cpp, c, i, StaticFieldKind::NormalStatic),
                ).len()
                &&& forall|t: u32| #[trigger]
                    p.tokens.contains(t) <==> token_before(m, il2cpp, c, n as int, t)
            }
        }),
    decreases n,
{
    reveal(Seq::filter);
    if n > 0 {
        let h = (n - 1) as nat;
        lemma_report(x, m, il2cpp, c, h);
        let all = first(n);
        assert(all.drop_last() =~= first(h));
        assert(all.last() == h);
        let (td, field) = static_field_exporter::all_fields(m)[h as int];
        let attrs = il2cpp.types@[m.field_defs@[field].type_index as int].attrs;
        lemma_looked_at(attrs);
        let l = layout_at(m, il2cpp, c, h as int);
        assert(static_field_exporter::layout_for(m, il2cpp, c, td, field) == l);
        let def = m.field_defs@[field];
        let before = static_field_exporter::progress(x, m, il2cpp, c, h);
        let r = static_field_exporter::progress(x, m, il2cpp, c, n);
        assert(name_ready(m, il2cpp, h as int) <==> !is_looked_at(attrs) || def.name is Ok);
        assert(r is Ok <==> before is Ok && name_ready(m, il2cpp, h as int));
        if let Ok(p) = before {
            if let Ok(q) = r {
                let t = token_at(m, h as int);
                assert forall|u: u32| #[trigger] q.tokens.contains(u) <==> token_before(
                    m,
                    il2cpp,
                    c,
                    n as int,
                    u,
                ) by {
                    assert(p.tokens.contains(u) <==> token_before(m, il2cpp, c, h as int, u));
                    if token_before(m, il2cpp, c, h as int, u) {
                        let j = choose|j: int|
                            0 <= j < h && #[trigger] is_special(m, il2cpp, c, j) && token_at(m, j)
                                == u;
                        assert(is_special(m, il2cpp, c, j));
                    }
                    if is_special(m, il2cpp, c, h as int) && t == u {
                        assert(token_before(m, il2cpp, c, n as int, u));
                    }
                    if token_before(m, il2cpp, c, n as int, u) {
                        let j = choose|j: int|
                            0 <= j < n && #[trigger] is_special(m, il2cpp, c, j) && token_at(m, j)
                                == u;
                        assert(j < h ==> token_before(m, il2cpp, c, h as int, u));
                    }
                }
                let places = all.filter(|i: int| has_entry(m, il2cpp, c, i));
                let earlier = first(h).filter(|i: int| has_entry(m, il2cpp, c, i));
                if has_entry(m, il2cpp, c, h as int) {
                    assert(places == earlier.push(h as int));
                    let e = q.entries.last();
                    assert(static_field_exporter::kind_name(l.kind) == name_of(l.kind));
                    assert(static_field_exporter::data_of(l) == data_of(l));
                    assert(is_entry(x, m, il2cpp, c, h as int, e));
                    assert forall|k: int| 0 <= k < places.len() implies is_entry(
                        x,
                        m,
                        il2cpp,
                        c,
                        places[k],
                        #[trigger] q.entries[k],
                    ) by {
                        if k < earlier.len() {
                            assert(q.entries[k] == p.entries[k]);
                            assert(places[k] == earlier[k]);
                        }
                    }
                } else {
                    assert(places == earlier);
                    assert(q.entries == p.entries);
                }
            }
        }
    }
}

/// The types with a part for threads are counted among those that images list.
pub proof fn law_thread_blocks(m: Metadata, il2cpp: Il2Cpp, n: nat)
    ensures
        static_field_exporter::thread_blocks(m, il2cpp, n) == first(n).filter(
            |i: int|
                {
                    let td = metadata::type_jobs(m)[i].0;
                    0 <= td < il2cpp.type_definition_sizes@.len()
                        && il2cpp.type_definition_sizes@[td].thread_static_fields_size > 0
                },
        ).len(),
    decreases n,
{
    reveal(Seq::filter);
    if n > 0 {
        law_thread_blocks(m, il2cpp, (n - 1) as nat);
        assert(first(n).drop_last() =~= first((n - 1) as nat));
        assert(first(n).last() == n - 1);
    }
}

/// The types that hold the data of others are those with the words in their names among those that
/// images list.
pub proof fn law_detail_types(x: Il2CppExecutor, m: Metadata)
    ensures
        forall|i: int|
            0 <= i < metadata::type_jobs(m).len() && text::contains(
                x.type_def_names@[(#[trigger] metadata::type_jobs(m)[i]).0]@,
                "PrivateImplementationDetails"@,
            ) ==> static_field_exporter::detail_types(x, m).contains(
                x.type_def_names@[metadata::type_jobs(m)[i].0]@,
            ),
        forall|name: Seq<char>| #[trigger]
            static_field_exporter::detail_types(x, m).contains(name) ==> text::contains(
                name,
                "PrivateImplementationDetails"@,
            ) && exists|i: int|
                0 <= i < metadata::type_jobs(m).len() && name
                    == x.type_def_names@[(#[trigger] metadata::type_jobs(m)[i]).0]@,
{
}

// The report in the script.

/// Where an entry stands: at the place of its data in the image, or else of that in the metadata,
/// or else at 0.
pub open spec fn place_of(e: StaticFieldEntryModel) -> u64 {
    if e.binary_rva is Some {
        e.binary_rva->0
    } else if e.metadata_rva is Some {
        e.metadata_rva->0
    } else {
        0
    }
}

/// The number that a signed word holds when its sign is not looked at.
pub open spec fn word_digits(v: i32) -> Seq<char> {
    numeral::numeral((v as int % 0x1_0000_0000) as nat, 16, true)
}

/// The script tells the place of an entry that is stored once for each thread or at an address of
/// its own, unless it has neither a place nor an offset, with its data or else its offset. It tells
/// the offset of an entry that is stored once for each thread.
pub proof fn law_script_infos(e: StaticFieldEntryModel)
    ensures
        ({
            let r = static_field_exporter::rva_info(e);
            let known = e.kind == "ThreadStatic"@ || e.kind == "FieldRva"@;
            &&& r is Some <==> known && !(place_of(e) == 0 && e.effective_offset < 0)
            &&& r matches Some(i) ==> {
                &&& i.address == place_of(e)
                &&& i.name == e.field_path
                &&& e.hex.len() > 0 ==> i.value == e.field_path + " kind="@ + e.kind + " hex="@
                    + e.hex
                &&& e.hex.len() == 0 ==> i.value == e.field_path + " offset=0x"@ + word_digits(
                    e.effective_offset,
                ) + " kind="@ + e.kind
            }
        }),
        ({
            let r = static_field_exporter::thread_info(e);
            &&& r is Some <==> e.is_thread_static
            &&& r matches Some(i) ==> {
                &&& i.address == e.effective_offset as int % 0x1_0000_0000_0000_0000
                &&& i.name == Seq::new(
                    e.field_path.len(),
                    |k: int|
                        if e.field_path[k] == '.' {
                            '_'
                        } else {
                            e.field_path[k]
                        },
                ) + "_ThreadStatic"@
                &&& i.value == "ThreadStatic offset=0x"@ + word_digits(e.effective_offset)
                    + " raw=0x"@ + numeral::numeral(
                    (e.raw_offset as int % 0x8000_0000) as nat,
                    16,
                    true,
                )
            }
        }),
{
    let v = e.effective_offset as int;
    if v < 0 {
        assert(v % 0x1_0000_0000 == v + 0x1_0000_0000);
        assert(v % 0x1_0000_0000_0000_0000 == v + 0x1_0000_0000_0000_0000);
    }
    let raw = e.raw_offset as int;
    assert(raw % 0x8000_0000 == if raw < 0 {
        raw + 0x8000_0000
    } else {
        raw
    });
    assert(text::with_char_replaced(e.field_path, '.', '_') =~= Seq::new(
        e.field_path.len(),
        |k: int|
            if e.field_path[k] == '.' {
                '_'
            } else {
                e.field_path[k]
            },
    ));
}

// Remarks.

/// A remark: a line behind the indent, a tab and two slashes.
pub open spec fn line(indent: Seq<char>, s: Seq<char>) -> Seq<char> {
    indent + "\t// "@ + s + "\n"@
}

/// A line where there is something to say.
pub open spec fn line_if(wanted: bool, indent: Seq<char>, s: Seq<char>) -> Seq<char> {
    if wanted {
        line(indent, s)
    } else {
        Seq::empty()
    }
}

/// The hexadecimal digits of a number behind `0x`.
pub open spec fn hex_number(n: nat) -> Seq<char> {
    "0x"@ + numeral::numeral(n, 16, true)
}

/// The remarks on the data of a field: its size, its first bytes as digits, all of it as characters
/// where it is short, and at most eight lines of sixteen bytes.
pub open spec fn data_lines(indent: Seq<char>, b: Seq<u8>) -> Seq<char> {
    let dump = text::lines(bytes::hex_dump(b, 16));
    line(indent, "  Size: "@ + numeral::dec(b.len()) + " bytes"@) + line(
        indent,
        "  Hex: "@ + bytes::hex_preview(b, 128),
    ) + line_if(b.len() <= 64, indent, "  ASCII: "@ + bytes::ascii_text(b, 64)) + flat(
        if dump.len() < 8 {
            dump.len() as int
        } else {
            8
        },
        |i: int| line(indent, "  "@ + dump[i]),
    )
}

proof fn lemma_dump(indent: Seq<char>, lines: Seq<Seq<char>>, n: nat)
    ensures
        static_field_exporter::dump_remarks(indent, lines, n) == flat(
            n as int,
            |i: int| line(indent, "  "@ + lines[i]),
        ),
    decreases n,
{
    if n > 0 {
        lemma_dump(indent, lines, (n - 1) as nat);
    }
}

/// The remarks on a field with an address of its own: its path, where its data stands in the
/// metadata and in the image, and its data where that is asked for.
pub open spec fn rva_lines(
    indent: Seq<char>,
    path: Seq<char>,
    l: FieldLayoutModel,
    dump_data: bool,
) -> Seq<char> {
    let rva = if l.binary_rva is Some {
        l.binary_rva->0 as nat
    } else {
        0
    };
    line(indent, "FieldRVA: "@ + path) + line_if(
        l.default_value_metadata_offset is Some,
        indent,
        "  Metadata offset: "@ + hex_number(l.default_value_metadata_offset->0 as nat),
    ) + line_if(
        l.binary_va is Some,
        indent,
        "  Binary VA: "@ + hex_number(l.binary_va->0 as nat) + " (RVA "@ + hex_number(rva) + ")"@,
    ) + if dump_data && data_of(l) is Some {
        data_lines(indent, data_of(l)->0)
    } else {
        Seq::empty()
    }
}

/// A field with data of its own is remarked on with its data, and one that is stored once for each
/// thread with its offsets and the sizes of its type.
pub proof fn law_rva_remarks(
    indent: Seq<char>,
    path: Seq<char>,
    l: FieldLayoutModel,
    dump_data: bool,
)
    ensures
        static_field_exporter::rva_remarks(indent, path, l, dump_data) == rva_lines(
            indent,
            path,
            l,
            dump_data,
        ),
        ({
            let a = if l.has_field_rva || l.kind is FieldRva {
                rva_lines(indent, path, l, dump_data)
            } else {
                Seq::empty()
            };
            let b = if l.is_thread_static {
                static_field_exporter::thread_remarks(indent, path, l)
            } else {
                Seq::empty()
            };
            static_field_exporter::field_remarks(indent, path, l, dump_data) == a + b
        }),
{
    if let Some(b) = data_of(l) {
        let dump = text::lines(bytes::hex_dump(b, 16));
        lemma_dump(
            indent,
            dump,
            if dump.len() <= 8 {
                dump.len()
            } else {
                8
            },
        );
    }
    lemma_prefixes();
    if let Some(offset) = l.default_value_metadata_offset {
        let digits = numeral::hex(offset as nat);
        assert("  Metadata offset: 0x"@ + digits =~= "  Metadata offset: "@ + hex_number(
            offset as nat,
        ));
    }
    if let Some(va) = l.binary_va {
        let rva = match l.binary_rva {
            Some(rva) => rva as nat,
            None => 0,
        };
        assert("  Binary VA: 0x"@ + numeral::hex(va as nat) + " (RVA 0x"@ + numeral::hex(rva)
            + ")"@ =~= "  Binary VA: "@ + hex_number(va as nat) + " (RVA "@ + hex_number(rva)
            + ")"@);
    }
}

proof fn lemma_prefixes()
    ensures
        "  Metadata offset: 0x"@ == "  Metadata offset: "@ + "0x"@,
        "  Binary VA: 0x"@ == "  Binary VA: "@ + "0x"@,
        " (RVA 0x"@ == " (RVA "@ + "0x"@,
{
    reveal_strlit("0x");
    reveal_strlit("  Metadata offset: 0x");
    reveal_strlit("  Metadata offset: ");
    reveal_strlit("  Binary VA: 0x");
    reveal_strlit("  Binary VA: ");
    reveal_strlit(" (RVA 0x");
    reveal_strlit(" (RVA ");
    assert("  Metadata offset: 0x"@ =~= "  Metadata offset: "@ + "0x"@);
    assert("  Binary VA: 0x"@ =~= "  Binary VA: "@ + "0x"@);
    assert(" (RVA 0x"@ =~= " (RVA "@ + "0x"@);
}

/// The attributes of a field: where it is stored once for each thread, that and its offset; where
/// it has data of its own, where that stands in the metadata, its first bytes where they are asked
/// for, and where it stands in the image.
pub proof fn law_layout_attrs(l: FieldLayoutModel, dump_data: bool)
    ensures
        ({
            let r = static_field_exporter::layout_attrs(l, dump_data);
            let t = if l.is_thread_static {
                2int
            } else {
                0
            };
            let o = if l.has_field_rva && l.default_value_metadata_offset is Some {
                1int
            } else {
                0
            };
            let d = if l.has_field_rva && dump_data && data_of(l) is Some {
                1int
            } else {
                0
            };
            let a = if l.has_field_rva && l.binary_va is Some {
                1int
            } else {
                0
            };
            &&& r.len() == t + o + d + a
            &&& t == 2 ==> r[0] == ("ThreadStatic"@, "true"@) && r[1] == (
                "Offset"@,
                "0x"@ + word_digits(l.effective_offset),
            )
            &&& o == 1 ==> r[t] == (
                "MetadataOffset"@,
                hex_number(l.default_value_metadata_offset->0 as nat),
            )
            &&& d == 1 ==> r[t + o] == ("FieldRvaHex"@, bytes::hex_preview(data_of(l)->0, 64))
            &&& a == 1 ==> r[t + o + d] == ("FieldRvaAddress"@, hex_number(l.binary_va->0 as nat))
        }),
{
    let v = l.effective_offset as int;
    if v < 0 {
        assert(v % 0x1_0000_0000 == v + 0x1_0000_0000);
    }
}

// Bytes.

/// Bytes are written as two upper-case hexadecimal digits each, the higher one first.
pub proof fn law_hex_text(b: Seq<u8>)
    ensures
        bytes::hex_text(b).len() == 2 * b.len(),
        forall|i: int|
            #![trigger b[i]]
            0 <= i < b.len() ==> {
                let high = bytes::hex_text(b)[2 * i];
                let low = bytes::hex_text(b)[2 * i + 1];
                &&& numeral::is_digit(high, 16, true)
                &&& numeral::is_digit(low, 16, true)
                &&& 16 * numeral::digit_value(high) + numeral::digit_value(low) == b[i]
            },
{
    assert forall|i: int|
        #![trigger b[i]]
        0 <= i < b.len() implies {
        let high = bytes::hex_text(b)[2 * i];
        let low = bytes::hex_text(b)[2 * i + 1];
        &&& numeral::is_digit(high, 16, true)
        &&& numeral::is_digit(low, 16, true)
        &&& 16 * numeral::digit_value(high) + numeral::digit_value(low) == b[i]
    } by {
        assert((2 * i) % 2 == 0 && (2 * i) / 2 == i);
        assert((2 * i + 1) % 2 == 1 && (2 * i + 1) / 2 == i);
    }
}

/// A preview shows all bytes where they are few enough, and else the first ones and three dots.
/// Characters outside the printable ones of ASCII are shown as dots.
pub proof fn law_previews(b: Seq<u8>, max: nat)
    ensures
        b.len() <= max ==> bytes::hex_preview(b, max) == bytes::hex_text(b),
        b.len() > max ==> bytes::hex_preview(b, max) == bytes::hex_text(b.take(max as int))
            + "..."@,
        bytes::ascii_text(b, max).len() == if b.len() < max {
            b.len()
        } else {
            max
        },
        forall|i: int|
            0 <= i < bytes::ascii_text(b, max).len() ==> #[trigger] bytes::ascii_text(b, max)[i]
                == if b[i] < 32 || b[i] > 126 {
                '.'
            } else {
                b[i] as char
            },
{
}

/// The characters of base 64 in the order of their values.
pub proof fn law_base64_alphabet()
    ensures
        forall|v: int|
            0 <= v < 64 ==> #[trigger] bytes::base64_char(v)
                == "ABCDEFGHIJKLMNOPQRSTUVWXYZabcdefghijklmnopqrstuvwxyz0123456789+/"@[v],
{
    reveal_strlit("ABCDEFGHIJKLMNOPQRSTUVWXYZabcdefghijklmnopqrstuvwxyz0123456789+/");
}

proof fn lemma_sixes(b0: int, b1: int, b2: int)
    requires
        0 <= b0 < 256,
        0 <= b1 < 256,
        0 <= b2 < 256,
    ensures
        ({
            let bits = 0x1_0000 * b0 + 0x100 * b1 + b2;
            &&& bits / 0x4_0000 == b0 / 4
            &&& (bits / 0x1000) % 64 == (b0 % 4) * 16 + b1 / 16
            &&& (bits / 64) % 64 == (b1 % 16) * 4 + b2 / 64
            &&& bits % 64 == b2 % 64
        }),
{
    let q0 = b0 / 4;
    let r0 = b0 % 4;
    let q1 = b1 / 16;
    let r1 = b1 % 16;
    let q2 = b2 / 64;
    let r2 = b2 % 64;
    let bits = 0x1_0000 * b0 + 0x100 * b1 + b2;
    assert(bits == 0x4_0000 * q0 + 0x1_0000 * r0 + 0x1000 * q1 + 0x100 * r1 + 0x40 * q2 + r2);
    let x = r0 * 16 + q1;
    let y = r1 * 4 + q2;
    assert(0 <= x < 64 && 0 <= y < 64);
    assert(bits == 0x4_0000 * q0 + 0x1000 * x + 0x40 * y + r2);
    assert(bits / 0x1000 == 64 * q0 + x);
    assert(bits / 64 == 0x1000 * q0 + 64 * x + y);
}

/// Three bytes make four characters of base 64: their 24 bits in order, six for each. Of one or two
/// bytes the bits that are missing are 0, and what has no bits is an equals sign.
pub proof fn law_base64_group(g: Seq<u8>)
    requires
        1 <= g.len() <= 3,
    ensures
        ({
            let r = bytes::base64_group(g);
            let bits = 0x1_0000 * g[0] + (if g.len() > 1 {
                0x100 * g[1]
            } else {
                0
            }) + (if g.len() > 2 {
                g[2] as int
            } else {
                0
            });
            &&& r.len() == 4
            &&& r[0] == bytes::base64_char(bits / 0x4_0000)
            &&& r[1] == bytes::base64_char((bits / 0x1000) % 64)
            &&& r[2] == if g.len() > 1 {
                bytes::base64_char((bits / 64) % 64)
            } else {
                '='
            }
            &&& r[3] == if g.len() > 2 {
                bytes::base64_char(bits % 64)
            } else {
                '='
            }
        }),
{
    let b0 = g[0] as int;
    let b1 = if g.len() > 1 {
        g[1] as int
    } else {
        0
    };
    let b2 = if g.len() > 2 {
        g[2] as int
    } else {
        0
    };
    lemma_sixes(b0, b1, b2);
}

/// A dump has one line for each run of bytes: the number of its first byte with at least four
/// digits, and the bytes as pairs of digits with spaces between them.
pub proof fn law_hex_dump(b: Seq<u8>, per_line: nat, start: nat)
    requires
        per_line > 0,
        start < b.len(),
    ensures
        ({
            let end = if start + per_line < b.len() {
                start + per_line
            } else {
                b.len()
            };
            let run = b.subrange(start as int, end as int);
            bytes::dump_from(b, per_line, start) == numeral::hex_padded(start, 4) + ": "@
                + text::joined(
                Seq::new(run.len(), |i: int| numeral::hex_padded(run[i] as nat, 2)),
                " "@,
            ) + "\n"@ + bytes::dump_from(b, per_line, end)
        }),
        bytes::dump_from(b, per_line, b.len()).len() == 0,
        bytes::hex_dump(b, per_line) == bytes::dump_from(b, per_line, 0),
{
    let end = bytes::line_end(b.len(), per_line, start);
    let run = b.subrange(start as int, end as int);
    assert(bytes::hex_pairs(run) =~= Seq::new(
        run.len(),
        |i: int| numeral::hex_padded(run[i] as nat, 2),
    ));
}

/// The remarks on a field that is stored once for each thread: its path, its offset and its offset
/// word, that it has no address, and the sizes of the parts of its type as far as they are known,
/// of that for threads only if it is not 0.
pub proof fn law_thread_remarks(indent: Seq<char>, path: Seq<char>, l: FieldLayoutModel)
    ensures
        static_field_exporter::thread_remarks(indent, path, l) == line(
            indent,
            "ThreadStatic field: "@ + path,
        ) + line(
            indent,
            "  TLS offset in type block: 0x"@ + word_digits(l.effective_offset)
                + " (raw IL2CPP offset 0x"@ + word_digits(l.raw_offset) + ")"@,
        ) + line(
            indent,
            "  Not a binary RVA — per-thread storage; xref the field name in dump.cs / disasm"@,
        ) + line_if(
            l.thread_static_fields_size is Some && l.thread_static_fields_size->0 > 0,
            indent,
            "  ThreadStatic block size: 0x"@ + numeral::numeral(
                l.thread_static_fields_size->0 as nat,
                16,
                true,
            ),
        ) + line_if(
            l.static_fields_size is Some,
            indent,
            "  Normal static block size: 0x"@ + numeral::numeral(
                l.static_fields_size->0 as nat,
                16,
                true,
            ),
        ),
{
    lemma_word_digits(l.effective_offset);
    lemma_word_digits(l.raw_offset);
}

proof fn lemma_word_digits(v: i32)
    ensures
        word_digits(v) == numeral::hex(static_field_exporter::unsigned_word(v)),
{
    let n = v as int;
    if n < 0 {
        assert(n % 0x1_0000_0000 == n + 0x1_0000_0000);
    }
}

/// A field is remarked on where remarks are wanted and it is looked at; then its name is needed,
/// and the error of one that could not be read is passed on.
pub proof fn law_annotation(
    x: Il2CppExecutor,
    m: Metadata,
    il2cpp: Il2Cpp,
    c: Config,
    td: int,
    field: usize,
    k: int,
    def: crate::il2cpp::structures::Il2CppFieldDefinition,
    t: crate::il2cpp::structures::Il2CppType,
    indent: Seq<char>,
)
    ensures
        ({
            let r = static_field_exporter::annotation(
                x,
                m,
                il2cpp,
                c,
                td,
                field,
                k,
                def,
                t,
                indent,
            );
            let wanted = c.dump_static_field_metadata && is_looked_at(t.attrs);
            let l = field_layout::layout_of(
                m,
                il2cpp,
                td,
                k,
                field,
                t,
                c.max_field_rva_dump_bytes,
            );
            &&& !wanted ==> r == Ok::<Seq<char>, ErrorModel>(Seq::empty())
            &&& wanted ==> match def.name {
                Ok(name) => r == Ok::<Seq<char>, ErrorModel>(
                    static_field_exporter::field_remarks(
                        indent,
                        x.type_def_names@[td]@ + "."@ + name@,
                        l,
                        c.dump_field_rva_data,
                    ),
                ),
                Err(e) => r == Err::<Seq<char>, ErrorModel>(e@),
            }
        }),
{
    lemma_looked_at(t.attrs);
}

/// A report holds the entries and the counts of the fields, the number of all fields, the number of
/// types with a part for threads, and the names of the types that hold the data of others in order.
pub proof fn law_is_report(
    cat: static_field_exporter::StaticFieldCatalog,
    p: Progress,
    x: Il2CppExecutor,
    m: Metadata,
    il2cpp: Il2Cpp,
)
    requires
        static_field_exporter::is_report(cat, p, x, m, il2cpp),
    ensures
        cat.entries@.len() == p.entries.len(),
        forall|i: int|
            0 <= i < p.entries.len() ==> (#[trigger] cat.entries@[i])@ == p.entries[i],
        cat.summary.total_fields_scanned == m.field_defs@.len(),
        cat.summary.thread_static_count == p.thread_statics,
        cat.summary.field_rva_count == p.field_rvas,
        cat.summary.normal_static_count == p.normal_statics,
        cat.summary.types_with_thread_static_block == static_field_exporter::thread_blocks(
            m,
            il2cpp,
            metadata::type_jobs(m).len(),
        ),
        text::increasing(text::texts(cat.summary.private_implementation_details_types@)),
        text::texts(cat.summary.private_implementation_details_types@).to_set()
            == static_field_exporter::detail_types(x, m),
{
    assert forall|i: int| 0 <= i < p.entries.len() implies (#[trigger] cat.entries@[i])@
        == p.entries[i] by {
        assert(crate::output::script_json::views(cat.entries@)[i] == cat.entries@[i]@);
    }
}

} // verus!
