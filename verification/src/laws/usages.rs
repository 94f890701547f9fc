//! What a script says of the places that refer to types, methods, fields and strings.
use crate::il2cpp::base;
use crate::il2cpp::field_layout;
use crate::il2cpp::structures;
use crate::laws::words;
use crate::names::NameStyle;
use crate::output::bytes;
use crate::output::script;
use crate::output::script_json;
use crate::output::script_json::{
    ScriptFieldInfoModel, ScriptJsonModel, ScriptMetadataMethodModel, ScriptMetadataModel,
    ScriptStringModel, ScriptTypeInfoModel,
};
use crate::output::static_field_exporter;
use crate::output::static_field_exporter::{StaticFieldCatalog, StaticFieldEntryModel};
use crate::output::usages;
use crate::output::usages::Labels;
use crate::text;
use vstd::prelude::*;
use vstd::string::*;

verus! {

/// A place that refers to something: of what kind, under which number, and where the place is.
pub struct Usage {
    pub kind: int,
    pub index: int,
    pub address: u64,
}

// Where usages are found.

/// The distance of an address from the image base, going around where it is before the base.
pub open spec fn distance(c: Labels, va: u64) -> u64 {
    ((va - c.il2cpp.image_base) % 0x1_0000_0000_0000_0000) as u64
}

/// The usage that the word at an offset of the file stands for, if it is mapped and stands for one:
/// its lowest bit is set, its upper three bits of 32 give the kind, those between the number.
pub open spec fn usage_at(c: Labels, at: int) -> Option<Usage> {
    let word = words::pointer_word(c.il2cpp.stream.bytes@, c.il2cpp.is_32bit, at);
    let va = base::address_of(c.il2cpp.va_segments@, at as u64);
    if word < 0xFFFF_FFFF && word % 2 == 1 && word >= 0x2000_0000 && va != 0 {
        Some(
            Usage {
                kind: word / 0x2000_0000,
                index: (word % 0x2000_0000) / 2,
                address: distance(c, va),
            },
        )
    } else {
        None
    }
}

/// The offset of the `k`-th word of the `n`-th data section.
pub open spec fn word_place(c: Labels, n: int, k: int) -> int {
    c.il2cpp.data_sections@[n].offset + k * words::pointer_bytes(c.il2cpp.is_32bit)
}

/// The data section has a `k`-th word, and its last word stands behind it.
pub open spec fn has_word(c: Labels, n: int, k: int) -> bool {
    &&& 0 <= n < c.il2cpp.data_sections@.len()
    &&& 0 <= k
    &&& word_place(c, n, k) + words::pointer_bytes(c.il2cpp.is_32bit)
        < c.il2cpp.data_sections@[n].offset_end
    &&& word_place(c, n, k) + words::pointer_bytes(c.il2cpp.is_32bit)
        < c.il2cpp.stream.bytes@.len()
}

/// The usage that stands in place `k` of the `n`-th list of the metadata, if its place exists.
pub open spec fn usage_in_list(c: Labels, n: int, k: int) -> Option<Usage> {
    let e = c.m.metadata_usages@[n].1@[k];
    let places = c.il2cpp.metadata_usages@;
    if e.0 < places.len() && places[e.0 as int] != 0 {
        Some(
            Usage {
                kind: c.m.metadata_usages@[n].0 as int,
                index: e.1 as int,
                address: distance(c, places[e.0 as int]),
            },
        )
    } else {
        None
    }
}

/// Usages stand in the data of the image, not in lists of the metadata: since version 27.
pub open spec fn scanned(c: Labels) -> bool {
    c.il2cpp.version >= words::version_number(27, 0)
}

/// The usage is one of the image. Since version 27 it is a word of a data section; between versions
/// 16 and 27 the metadata lists it; up to version 16 there is none.
pub open spec fn is_usage(c: Labels, u: Usage) -> bool {
    if scanned(c) {
        exists|n: int, k: int| #[trigger]
            has_word(c, n, k) && usage_at(c, word_place(c, n, k)) == Some(u)
    } else if c.il2cpp.version > words::version_number(16, 0) {
        exists|n: int, k: int|
            0 <= n < c.m.metadata_usages@.len() && 0 <= k < c.m.metadata_usages@[n].1@.len()
                && #[trigger] usage_in_list(c, n, k) == Some(u)
    } else {
        false
    }
}

// What the script says of a usage.

/// The text of a name that could be read.
pub open spec fn name_text(name: structures::NameResult, other: Seq<char>) -> Seq<char> {
    match name {
        Ok(s) => s@,
        Err(_) => other,
    }
}

/// The class of a type: that of its structure, where it is a class or a value type with one. Words
/// of the data do not refer to the classes of arrays by name.
pub open spec fn class_of(c: Labels, i: int) -> Seq<char> {
    let t = c.il2cpp.types@[i];
    if (t.type_enum == 0x11 || t.type_enum == 0x12) && c.names.contains_key(t.klass_index) && !(
    scanned(c) && text::ends_with(c.names[t.klass_index], "_array"@)) {
        (c.spelling)(c.names[t.klass_index], NameStyle::Cpp) + "_c*"@
    } else {
        "Il2CppClass*"@
    }
}

/// The field that a reference leads to, if it exists: the number of its definition.
pub open spec fn field_of(c: Labels, i: int) -> Option<int> {
    let r = c.m.field_refs@[i];
    if 0 <= i < c.m.field_refs@.len() && r.type_index < c.il2cpp.types@.len() {
        let td = c.il2cpp.types@[r.type_index as int].klass_index as int;
        let k = c.m.type_defs@[td].field_start + r.field_index;
        if td < c.m.type_defs@.len() && k < c.m.field_defs@.len() {
            Some(k)
        } else {
            None
        }
    } else {
        None
    }
}

/// The path of the field that a reference leads to: its type and its name.
pub open spec fn path_of(c: Labels, i: int) -> Seq<char> {
    c.x.type_names@[c.m.field_refs@[i].type_index as int]@ + "."@ + name_text(
        c.m.field_defs@[field_of(c, i)->0].name,
        ""@,
    )
}

/// The string that a usage refers to, under the place of the usage, with an identifier made of its
/// first 32 characters.
pub open spec fn string_of(c: Labels, u: Usage) -> Option<ScriptStringModel> {
    if u.kind == 5 && 0 <= u.index < c.m.string_literals@.len()
        && c.m.string_literals@[u.index] is Ok {
        let value = c.m.string_literals@[u.index]->Ok_0@;
        Some(
            ScriptStringModel {
                address: u.address,
                value,
                name: Some("StringLiteral_"@ + identifier_of(value)),
            },
        )
    } else {
        None
    }
}

/// The first 32 characters of a text, with an underscore for each that an identifier cannot hold.
pub open spec fn identifier_of(s: Seq<char>) -> Seq<char> {
    Seq::new(
        if s.len() < 32 {
            s.len()
        } else {
            32
        },
        |i: int|
            if 'a' <= s[i] <= 'z' || 'A' <= s[i] <= 'Z' || '0' <= s[i] <= '9' {
                s[i]
            } else {
                '_'
            },
    )
}

/// What the script says of the type or the field that a usage refers to.
pub open spec fn metadata_of(c: Labels, u: Usage) -> Option<ScriptMetadataModel> {
    let has_type = 0 <= u.index < c.il2cpp.types@.len();
    if u.kind == 1 && has_type {
        Some(
            ScriptMetadataModel {
                address: u.address,
                name: c.x.type_names@[u.index]@ + "_TypeInfo"@,
                signature: Some(class_of(c, u.index)),
            },
        )
    } else if u.kind == 2 && has_type {
        Some(
            ScriptMetadataModel {
                address: u.address,
                name: c.x.type_names@[u.index]@ + "_var"@,
                signature: Some("Il2CppType*"@),
            },
        )
    } else if u.kind == 4 && field_of(c, u.index) is Some {
        Some(
            ScriptMetadataModel {
                address: u.address,
                name: "Field$"@ + path_of(c, u.index),
                signature: None,
            },
        )
    } else if u.kind == 7 && scanned(c) && field_of(c, u.index) is Some {
        Some(
            ScriptMetadataModel {
                address: u.address,
                name: "FieldRva$"@ + path_of(c, u.index),
                signature: None,
            },
        )
    } else {
        None
    }
}

/// The distance of code from the image base; 0 where there is no code.
pub open spec fn code_distance(c: Labels, pointer: u64) -> u64 {
    if pointer == 0 {
        0
    } else {
        distance(c, pointer)
    }
}

/// What the script says of the method that a usage refers to: its names, and where its code is.
pub open spec fn method_of(c: Labels, u: Usage) -> Option<ScriptMetadataMethodModel> {
    let md = c.m.method_defs@[u.index];
    if u.kind == 3 && 0 <= u.index < c.m.method_defs@.len() && md.declaring_type
        < c.m.type_defs@.len() {
        let image = if c.images.contains_key(md.declaring_type) {
            c.images[md.declaring_type]
        } else {
            ""@
        };
        Some(
            ScriptMetadataMethodModel {
                address: u.address,
                name: "Method$"@ + c.x.type_def_names@[md.declaring_type as int]@ + "."@
                    + name_text(md.name, "?"@) + "()"@,
                method_address: code_distance(c, c.il2cpp.method_pointer(image, md)),
            },
        )
    } else if u.kind == 6 && 0 <= u.index < c.il2cpp.method_specs@.len() {
        let pointers = c.il2cpp.method_spec_generic_method_pointers@;
        let names = c.x.method_spec_names@[u.index];
        Some(
            ScriptMetadataMethodModel {
                address: u.address,
                name: "Method$"@ + names.0@ + "."@ + names.1@ + "()"@,
                method_address: if pointers.contains_key(u.index as usize) {
                    code_distance(c, pointers[u.index as usize])
                } else {
                    0
                },
            },
        )
    } else {
        None
    }
}

/// What the extended script says of the type information that a usage refers to.
pub open spec fn type_info_of(c: Labels, u: Usage) -> Option<ScriptTypeInfoModel> {
    if c.config.enhanced_ida_metadata && u.kind == 1 && 0 <= u.index < c.il2cpp.types@.len() {
        let name = c.x.type_names@[u.index]@;
        Some(
            ScriptTypeInfoModel {
                address: u.address,
                name: (c.spelling)(name, NameStyle::Cpp) + "_TypeInfo"@,
                type_str: class_of(c, u.index),
                dotnet_type: Some(name),
            },
        )
    } else {
        None
    }
}

/// What the extended script says of the type that a usage refers to.
pub open spec fn type_ref_of(c: Labels, u: Usage) -> Option<ScriptTypeInfoModel> {
    if c.config.enhanced_ida_metadata && u.kind == 2 && 0 <= u.index < c.il2cpp.types@.len() {
        let name = c.x.type_names@[u.index]@;
        Some(
            ScriptTypeInfoModel {
                address: u.address,
                name: (c.spelling)(name, NameStyle::Cpp) + "_TypeRef"@,
                type_str: "Il2CppType*"@,
                dotnet_type: Some(name),
            },
        )
    } else {
        None
    }
}

/// What the extended script says of the field that a usage refers to.
pub open spec fn field_info_of(c: Labels, u: Usage) -> Option<ScriptFieldInfoModel> {
    if c.config.enhanced_ida_metadata && u.kind == 4 && field_of(c, u.index) is Some {
        Some(
            ScriptFieldInfoModel {
                address: u.address,
                name: (c.spelling)(path_of(c, u.index) + "_Field"@, NameStyle::Cpp),
                value: path_of(c, u.index),
            },
        )
    } else {
        None
    }
}

/// What the script says of the field whose initial data a usage refers to: its path, with the data
/// where it is asked for and can be read, at most 256 bytes of it.
pub open spec fn field_data_of(c: Labels, u: Usage) -> Option<ScriptFieldInfoModel> {
    if u.kind == 7 && scanned(c) && field_of(c, u.index) is Some {
        let path = path_of(c, u.index);
        let offset = field_layout::default_offset(c.m, field_of(c, u.index)->0 as usize);
        let most = c.config.max_field_rva_dump_bytes;
        let data = field_layout::metadata_bytes_at(
            c.m,
            offset->0 as int,
            if most < 256 {
                most as int
            } else {
                256
            },
        );
        Some(
            ScriptFieldInfoModel {
                address: u.address,
                name: Seq::new(
                    path.len(),
                    |i: int|
                        if path[i] == '.' {
                            '_'
                        } else {
                            path[i]
                        },
                ) + "_FieldRva"@,
                value: if c.config.dump_field_rva_data && offset is Some && data is Some {
                    path + " hex="@ + bytes::hex_preview(data->0, 128)
                } else {
                    path
                },
            },
        )
    } else {
        None
    }
}

// The script of an image.

/// The list holds what `f` makes of the usages of the image, and no more.
pub open spec fn lists_all<T>(c: Labels, list: Seq<T>, f: spec_fn(Usage) -> Option<T>) -> bool {
    forall|x: T| #[trigger]
        list.contains(x) <==> exists|u: Usage| #[trigger] is_usage(c, u) && f(u) == Some(x)
}

/// The list holds what `f` makes of the usages of the image and what `g` makes of the entries of a
/// report, and no more.
pub open spec fn lists_both<T>(
    c: Labels,
    entries: Seq<StaticFieldEntryModel>,
    list: Seq<T>,
    f: spec_fn(Usage) -> Option<T>,
    g: spec_fn(StaticFieldEntryModel) -> Option<T>,
) -> bool {
    forall|x: T| #[trigger]
        list.contains(x) <==> (exists|u: Usage| #[trigger] is_usage(c, u) && f(u) == Some(x))
            || exists|i: int| 0 <= i < entries.len() && g(#[trigger] entries[i]) == Some(x)
}

/// The entries of a report that may be missing.
pub open spec fn report_entries(catalog: Option<&StaticFieldCatalog>) -> Seq<StaticFieldEntryModel> {
    match catalog {
        Some(catalog) => script_json::views(catalog.entries@),
        None => Seq::empty(),
    }
}

/// The script lists the strings, types, methods and fields that the usages of the image refer to,
/// each under the place of the usage, and nothing else but the fields of the report.
pub open spec fn lists_usages(
    c: Labels,
    entries: Seq<StaticFieldEntryModel>,
    s: ScriptJsonModel,
) -> bool {
    &&& lists_all(c, s.script_strings, |u: Usage| string_of(c, u))
    &&& lists_all(c, s.script_metadata, |u: Usage| metadata_of(c, u))
    &&& lists_all(c, s.script_metadata_methods, |u: Usage| method_of(c, u))
    &&& lists_all(c, s.type_info_pointers, |u: Usage| type_info_of(c, u))
    &&& lists_all(c, s.type_ref_pointers, |u: Usage| type_ref_of(c, u))
    &&& lists_both(
        c,
        entries,
        s.field_infos,
        |u: Usage| field_info_of(c, u),
        |e: StaticFieldEntryModel| static_field_exporter::thread_info(e),
    )
    &&& lists_both(
        c,
        entries,
        s.field_rvas,
        |u: Usage| field_data_of(c, u),
        |e: StaticFieldEntryModel| static_field_exporter::rva_info(e),
    )
}

// The proof: a script is what the usages add to it, one after the other.

/// What `f` makes of some usages, in order.
spec fn picked<T>(us: Seq<Usage>, f: spec_fn(Usage) -> Option<T>) -> Seq<T>
    decreases us.len(),
{
    if us.len() == 0 {
        Seq::empty()
    } else {
        match f(us.last()) {
            Some(x) => picked(us.drop_last(), f).push(x),
            None => picked(us.drop_last(), f),
        }
    }
}

proof fn lemma_picked_sum<T>(a: Seq<Usage>, b: Seq<Usage>, f: spec_fn(Usage) -> Option<T>)
    ensures
        picked(a + b, f) == picked(a, f) + picked(b, f),
    decreases b.len(),
{
    if b.len() == 0 {
        assert(a + b =~= a);
        assert(picked(a, f) + Seq::<T>::empty() =~= picked(a, f));
    } else {
        lemma_picked_sum(a, b.drop_last(), f);
        assert((a + b).drop_last() =~= a + b.drop_last());
        assert((a + b).last() == b.last());
        assert(picked(a + b, f) =~= picked(a, f) + picked(b, f));
    }
}

proof fn lemma_picked_one<T>(u: Usage, f: spec_fn(Usage) -> Option<T>)
    ensures
        picked(seq![u], f) == match f(u) {
            Some(x) => seq![x],
            None => Seq::empty(),
        },
{
    assert(seq![u].last() == u);
    assert(seq![u].drop_last() =~= Seq::<Usage>::empty());
    assert(picked(Seq::<Usage>::empty(), f) =~= Seq::<T>::empty());
    if let Some(x) = f(u) {
        assert(Seq::<T>::empty().push(x) =~= seq![x]);
    }
}

proof fn lemma_picked_contains<T>(us: Seq<Usage>, f: spec_fn(Usage) -> Option<T>, x: T)
    ensures
        picked(us, f).contains(x) <==> exists|i: int|
            0 <= i < us.len() && f(#[trigger] us[i]) == Some(x),
    decreases us.len(),
{
    if us.len() > 0 {
        let rest = us.drop_last();
        lemma_picked_contains(rest, f, x);
        let p = picked(rest, f);
        let q = picked(us, f);
        if q.contains(x) {
            let j = choose|j: int| 0 <= j < q.len() && q[j] == x;
            if j < p.len() {
                assert(p[j] == x);
                assert(p.contains(x));
                let i = choose|i: int| 0 <= i < rest.len() && f(#[trigger] rest[i]) == Some(x);
                assert(f(us[i]) == Some(x));
            } else {
                assert(f(us[us.len() - 1]) == Some(x));
            }
        }
        if exists|i: int| 0 <= i < us.len() && f(#[trigger] us[i]) == Some(x) {
            let i = choose|i: int| 0 <= i < us.len() && f(#[trigger] us[i]) == Some(x);
            if i < rest.len() {
                assert(f(rest[i]) == Some(x));
                let j = choose|j: int| 0 <= j < p.len() && p[j] == x;
                assert(q[j] == x);
            } else {
                assert(q.last() == x);
                assert(q[q.len() - 1] == x);
            }
        }
    }
}

/// The script with what some usages add to it.
spec fn extended(s: ScriptJsonModel, c: Labels, us: Seq<Usage>) -> ScriptJsonModel {
    ScriptJsonModel {
        script_strings: s.script_strings + picked(us, |u: Usage| string_of(c, u)),
        script_metadata: s.script_metadata + picked(us, |u: Usage| metadata_of(c, u)),
        script_metadata_methods: s.script_metadata_methods + picked(us, |u: Usage| method_of(c, u)),
        type_info_pointers: s.type_info_pointers + picked(us, |u: Usage| type_info_of(c, u)),
        type_ref_pointers: s.type_ref_pointers + picked(us, |u: Usage| type_ref_of(c, u)),
        field_infos: s.field_infos + picked(us, |u: Usage| field_info_of(c, u)),
        field_rvas: s.field_rvas + picked(us, |u: Usage| field_data_of(c, u)),
        ..s
    }
}

proof fn lemma_extended_sum(s: ScriptJsonModel, c: Labels, a: Seq<Usage>, b: Seq<Usage>)
    ensures
        extended(extended(s, c, a), c, b) == extended(s, c, a + b),
{
    lemma_picked_sum(a, b, |u: Usage| string_of(c, u));
    lemma_picked_sum(a, b, |u: Usage| metadata_of(c, u));
    lemma_picked_sum(a, b, |u: Usage| method_of(c, u));
    lemma_picked_sum(a, b, |u: Usage| type_info_of(c, u));
    lemma_picked_sum(a, b, |u: Usage| type_ref_of(c, u));
    lemma_picked_sum(a, b, |u: Usage| field_info_of(c, u));
    lemma_picked_sum(a, b, |u: Usage| field_data_of(c, u));
    let x = extended(extended(s, c, a), c, b);
    let y = extended(s, c, a + b);
    assert(x.script_strings =~= y.script_strings);
    assert(x.script_metadata =~= y.script_metadata);
    assert(x.script_metadata_methods =~= y.script_metadata_methods);
    assert(x.type_info_pointers =~= y.type_info_pointers);
    assert(x.type_ref_pointers =~= y.type_ref_pointers);
    assert(x.field_infos =~= y.field_infos);
    assert(x.field_rvas =~= y.field_rvas);
}

proof fn lemma_extended_none(s: ScriptJsonModel, c: Labels)
    ensures
        extended(s, c, Seq::empty()) == s,
{
    let x = extended(s, c, Seq::empty());
    assert(x.script_strings =~= s.script_strings);
    assert(x.script_metadata =~= s.script_metadata);
    assert(x.script_metadata_methods =~= s.script_metadata_methods);
    assert(x.type_info_pointers =~= s.type_info_pointers);
    assert(x.type_ref_pointers =~= s.type_ref_pointers);
    assert(x.field_infos =~= s.field_infos);
    assert(x.field_rvas =~= s.field_rvas);
}

proof fn lemma_distance(c: Labels, va: u64)
    ensures
        c.il2cpp.rva(va) == distance(c, va),
{
    let base = c.il2cpp.image_base;
    if base <= va {
        assert((va - base) % 0x1_0000_0000_0000_0000 == va - base);
    } else {
        assert((va - base) % 0x1_0000_0000_0000_0000 == va - base + 0x1_0000_0000_0000_0000);
    }
}

proof fn lemma_path(c: Labels, i: int)
    requires
        i >= 0,
    ensures
        usages::field_path(c, i) == match field_of(c, i) {
            Some(k) => Some((path_of(c, i), k as usize)),
            None => None,
        },
{
}

proof fn lemma_usage(s: ScriptJsonModel, c: Labels, u: Usage)
    requires
        u.index >= 0,
    ensures
        usages::with_usage(s, c, u.kind, u.index, u.address, scanned(c)) == extended(
            s,
            c,
            seq![u],
        ),
{
    lemma_picked_one(u, |u: Usage| string_of(c, u));
    lemma_picked_one(u, |u: Usage| metadata_of(c, u));
    lemma_picked_one(u, |u: Usage| method_of(c, u));
    lemma_picked_one(u, |u: Usage| type_info_of(c, u));
    lemma_picked_one(u, |u: Usage| type_ref_of(c, u));
    lemma_picked_one(u, |u: Usage| field_info_of(c, u));
    lemma_picked_one(u, |u: Usage| field_data_of(c, u));
    lemma_path(c, u.index);
    assert forall|p: u64| #[trigger] c.il2cpp.rva(p) == distance(c, p) by {
        lemma_distance(c, p);
    }
    let x = usages::with_usage(s, c, u.kind, u.index, u.address, scanned(c));
    let y = extended(s, c, seq![u]);
    if u.kind == 5 && u.index < c.m.string_literals@.len() && c.m.string_literals@[u.index] is Ok {
        let value = c.m.string_literals@[u.index]->Ok_0@;
        assert(usages::safe_id(value) =~= identifier_of(value));
    }
    if u.kind == 7 {
        let path = path_of(c, u.index);
        assert(text::with_char_replaced(path, '.', '_') =~= Seq::new(
            path.len(),
            |i: int|
                if path[i] == '.' {
                    '_'
                } else {
                    path[i]
                },
        ));
    }
    assert(x.script_strings =~= y.script_strings);
    assert(x.script_metadata =~= y.script_metadata);
    assert(x.script_metadata_methods =~= y.script_metadata_methods);
    assert(x.type_info_pointers =~= y.type_info_pointers);
    assert(x.type_ref_pointers =~= y.type_ref_pointers);
    assert(x.field_infos =~= y.field_infos);
    assert(x.field_rvas =~= y.field_rvas);
}

/// One usage, or none.
spec fn optional(u: Option<Usage>) -> Seq<Usage> {
    match u {
        Some(u) => seq![u],
        None => Seq::empty(),
    }
}

/// The usages that the words from one offset up to another stand for.
spec fn word_usages(c: Labels, at: int, end: int) -> Seq<Usage>
    decreases end + 8 - at,
{
    if at >= end {
        Seq::empty()
    } else {
        optional(usage_at(c, at)) + word_usages(
            c,
            at + words::pointer_bytes(c.il2cpp.is_32bit),
            end,
        )
    }
}

proof fn lemma_word(s: ScriptJsonModel, c: Labels, at: int)
    requires
        scanned(c),
        0 <= at <= u64::MAX,
        at + words::pointer_bytes(c.il2cpp.is_32bit) <= c.il2cpp.stream.bytes@.len(),
    ensures
        usages::with_word(s, c, at as u64) == extended(s, c, optional(usage_at(c, at))),
{
    words::law_words(c.il2cpp.stream.bytes@, at as u64);
    lemma_extended_none(s, c);
    let va = base::address_of(c.il2cpp.va_segments@, at as u64);
    lemma_distance(c, va);
    if let Some(u) = usage_at(c, at) {
        lemma_usage(s, c, u);
    }
}

proof fn lemma_words(s: ScriptJsonModel, c: Labels, at: int, end: int)
    requires
        scanned(c),
        0 <= at,
        end <= u64::MAX,
        end + words::pointer_bytes(c.il2cpp.is_32bit) <= c.il2cpp.stream.bytes@.len(),
    ensures
        usages::with_words(s, c, at, end) == extended(s, c, word_usages(c, at, end)),
    decreases end + 8 - at,
{
    if at >= end {
        lemma_extended_none(s, c);
    } else {
        lemma_word(s, c, at);
        let next = at + words::pointer_bytes(c.il2cpp.is_32bit);
        let one = optional(usage_at(c, at));
        lemma_words(extended(s, c, one), c, next, end);
        lemma_extended_sum(s, c, one, word_usages(c, next, end));
    }
}

proof fn lemma_word_usages(c: Labels, at: int, end: int, u: Usage)
    ensures
        word_usages(c, at, end).contains(u) <==> exists|k: int|
            0 <= k && at + k * words::pointer_bytes(c.il2cpp.is_32bit) < end && #[trigger] usage_at(
                c,
                at + k * words::pointer_bytes(c.il2cpp.is_32bit),
            ) == Some(u),
    decreases end + 8 - at,
{
    let size = words::pointer_bytes(c.il2cpp.is_32bit);
    if at >= end {
        assert forall|k: int|
            #![trigger usage_at(c, at + k * size)]
            0 <= k implies at + k * size >= end by {
            assert(k * size >= 0) by (nonlinear_arith)
                requires
                    k >= 0,
                    size >= 0,
            ;
        }
    } else {
        lemma_word_usages(c, at + size, end, u);
        let one = optional(usage_at(c, at));
        let rest = word_usages(c, at + size, end);
        let all = word_usages(c, at, end);
        assert(all == one + rest);
        if all.contains(u) {
            let i = choose|i: int| 0 <= i < all.len() && all[i] == u;
            if i < one.len() {
                assert(at + 0 * size == at);
                assert(usage_at(c, at + 0 * size) == Some(u));
            } else {
                assert(rest[i - one.len()] == u);
                assert(rest.contains(u));
                let k = choose|k: int|
                    0 <= k && at + size + k * size < end && #[trigger] usage_at(
                        c,
                        at + size + k * size,
                    ) == Some(u);
                assert(at + (k + 1) * size == at + size + k * size) by (nonlinear_arith);
                assert(usage_at(c, at + (k + 1) * size) == Some(u));
            }
        }
        if exists|k: int|
            0 <= k && at + k * size < end && #[trigger] usage_at(c, at + k * size) == Some(u) {
            let k = choose|k: int|
                0 <= k && at + k * size < end && #[trigger] usage_at(c, at + k * size) == Some(u);
            if k == 0 {
                assert(one[0] == u);
                assert(all[0] == u);
            } else {
                assert(at + size + (k - 1) * size == at + k * size) by (nonlinear_arith);
                assert(usage_at(c, at + size + (k - 1) * size) == Some(u));
                let i = choose|i: int| 0 <= i < rest.len() && rest[i] == u;
                assert(all[one.len() + i] == u);
            }
        }
    }
}

/// The usages that the words of the first `n` data sections stand for.
spec fn section_usages(c: Labels, n: nat) -> Seq<Usage>
    decreases n,
{
    if n == 0 {
        Seq::empty()
    } else {
        let sec = c.il2cpp.data_sections@[n - 1];
        section_usages(c, (n - 1) as nat) + word_usages(
            c,
            sec.offset as int,
            usages::section_end(c.il2cpp, sec),
        )
    }
}

proof fn lemma_sections(s: ScriptJsonModel, c: Labels, n: nat)
    requires
        scanned(c),
        n <= c.il2cpp.data_sections@.len(),
    ensures
        usages::with_sections(s, c, n) == extended(s, c, section_usages(c, n)),
        forall|u: Usage| #[trigger]
            section_usages(c, n).contains(u) <==> exists|i: int, k: int|
                i < n && #[trigger] has_word(c, i, k) && usage_at(c, word_place(c, i, k)) == Some(
                    u,
                ),
    decreases n,
{
    if n == 0 {
        lemma_extended_none(s, c);
    } else {
        let before = (n - 1) as nat;
        lemma_sections(s, c, before);
        let sec = c.il2cpp.data_sections@[n - 1];
        let size = words::pointer_bytes(c.il2cpp.is_32bit);
        let end = usages::section_end(c.il2cpp, sec);
        let here = word_usages(c, sec.offset as int, end);
        let earlier = section_usages(c, before);
        lemma_words(extended(s, c, earlier), c, sec.offset as int, end);
        lemma_extended_sum(s, c, earlier, here);
        assert forall|u: Usage| #[trigger] section_usages(c, n).contains(u) <==> exists|
            i: int,
            k: int,
        |
            i < n && #[trigger] has_word(c, i, k) && usage_at(c, word_place(c, i, k)) == Some(
                u,
            ) by {
            lemma_word_usages(c, sec.offset as int, end, u);
            let all = section_usages(c, n);
            assert(all == earlier + here);
            if all.contains(u) {
                let j = choose|j: int| 0 <= j < all.len() && all[j] == u;
                if j < earlier.len() {
                    assert(earlier[j] == u);
                    assert(earlier.contains(u));
                } else {
                    assert(here[j - earlier.len()] == u);
                    assert(here.contains(u));
                    let k = choose|k: int|
                        0 <= k && sec.offset + k * size < end && #[trigger] usage_at(
                            c,
                            sec.offset + k * size,
                        ) == Some(u);
                    assert(word_place(c, n - 1, k) == sec.offset + k * size);
                    assert(has_word(c, n - 1, k));
                }
            }
            if exists|i: int, k: int|
                i < n && #[trigger] has_word(c, i, k) && usage_at(c, word_place(c, i, k)) == Some(
                    u,
                ) {
                let (i, k) = choose|i: int, k: int|
                    i < n && #[trigger] has_word(c, i, k) && usage_at(c, word_place(c, i, k))
                        == Some(u);
                if i < before {
                    assert(earlier.contains(u));
                    let j = choose|j: int| 0 <= j < earlier.len() && earlier[j] == u;
                    assert(all[j] == u);
                } else {
                    assert(usage_at(c, sec.offset + k * size) == Some(u));
                    assert(here.contains(u));
                    let j = choose|j: int| 0 <= j < here.len() && here[j] == u;
                    assert(all[earlier.len() + j] == u);
                }
            }
        }
    }
}

/// The usages of the first `k` places of the `n`-th list of the metadata.
spec fn listed_usages(c: Labels, n: int, k: nat) -> Seq<Usage>
    decreases k,
{
    if k == 0 {
        Seq::empty()
    } else {
        listed_usages(c, n, (k - 1) as nat) + optional(usage_in_list(c, n, k - 1))
    }
}

proof fn lemma_list(s: ScriptJsonModel, c: Labels, n: int, k: nat)
    requires
        !scanned(c),
        0 <= n < c.m.metadata_usages@.len(),
        k <= c.m.metadata_usages@[n].1@.len(),
    ensures
        usages::with_list(s, c, c.m.metadata_usages@[n].0, c.m.metadata_usages@[n].1@, k)
            == extended(s, c, listed_usages(c, n, k)),
        forall|u: Usage| #[trigger]
            listed_usages(c, n, k).contains(u) <==> exists|j: int|
                0 <= j < k && #[trigger] usage_in_list(c, n, j) == Some(u),
    decreases k,
{
    if k == 0 {
        lemma_extended_none(s, c);
    } else {
        let before = (k - 1) as nat;
        lemma_list(s, c, n, before);
        let earlier = listed_usages(c, n, before);
        let one = optional(usage_in_list(c, n, k - 1));
        let p = extended(s, c, earlier);
        lemma_extended_none(p, c);
        let e = c.m.metadata_usages@[n].1@[k - 1];
        if e.0 < c.il2cpp.metadata_usages@.len() {
            lemma_distance(c, c.il2cpp.metadata_usages@[e.0 as int]);
        }
        if let Some(u) = usage_in_list(c, n, k - 1) {
            lemma_usage(p, c, u);
        }
        lemma_extended_sum(s, c, earlier, one);
        assert forall|u: Usage| #[trigger] listed_usages(c, n, k).contains(u) <==> exists|j: int|
            0 <= j < k && #[trigger] usage_in_list(c, n, j) == Some(u) by {
            let all = listed_usages(c, n, k);
            assert(all == earlier + one);
            if all.contains(u) {
                let i = choose|i: int| 0 <= i < all.len() && all[i] == u;
                if i < earlier.len() {
                    assert(earlier[i] == u);
                    assert(earlier.contains(u));
                } else {
                    assert(usage_in_list(c, n, k - 1) == Some(u));
                }
            }
            if exists|j: int| 0 <= j < k && #[trigger] usage_in_list(c, n, j) == Some(u) {
                let j = choose|j: int| 0 <= j < k && #[trigger] usage_in_list(c, n, j) == Some(u);
                if j < before {
                    assert(earlier.contains(u));
                    let i = choose|i: int| 0 <= i < earlier.len() && earlier[i] == u;
                    assert(all[i] == u);
                } else {
                    assert(one[0] == u);
                    assert(all[earlier.len() as int] == u);
                }
            }
        }
    }
}

/// The usages of the first `n` lists of the metadata.
spec fn lists_usages_upto(c: Labels, n: nat) -> Seq<Usage>
    decreases n,
{
    if n == 0 {
        Seq::empty()
    } else {
        lists_usages_upto(c, (n - 1) as nat) + listed_usages(
            c,
            n - 1,
            c.m.metadata_usages@[n - 1].1@.len(),
        )
    }
}

proof fn lemma_lists(s: ScriptJsonModel, c: Labels, n: nat)
    requires
        !scanned(c),
        n <= c.m.metadata_usages@.len(),
    ensures
        usages::with_lists(s, c, n) == extended(s, c, lists_usages_upto(c, n)),
        forall|u: Usage| #[trigger]
            lists_usages_upto(c, n).contains(u) <==> exists|i: int, j: int|
                0 <= i < n && 0 <= j < c.m.metadata_usages@[i].1@.len() && #[trigger] usage_in_list(
                    c,
                    i,
                    j,
                ) == Some(u),
    decreases n,
{
    if n == 0 {
        lemma_extended_none(s, c);
    } else {
        let before = (n - 1) as nat;
        lemma_lists(s, c, before);
        let earlier = lists_usages_upto(c, before);
        let m = c.m.metadata_usages@[n - 1].1@.len();
        let here = listed_usages(c, n - 1, m);
        lemma_list(extended(s, c, earlier), c, n - 1, m);
        lemma_extended_sum(s, c, earlier, here);
        assert forall|u: Usage| #[trigger] lists_usages_upto(c, n).contains(u) <==> exists|
            i: int,
            j: int,
        |
            0 <= i < n && 0 <= j < c.m.metadata_usages@[i].1@.len() && #[trigger] usage_in_list(
                c,
                i,
                j,
            ) == Some(u) by {
            let all = lists_usages_upto(c, n);
            assert(all == earlier + here);
            if all.contains(u) {
                let k = choose|k: int| 0 <= k < all.len() && all[k] == u;
                if k < earlier.len() {
                    assert(earlier[k] == u);
                    assert(earlier.contains(u));
                } else {
                    assert(here[k - earlier.len()] == u);
                    assert(here.contains(u));
                }
            }
            if exists|i: int, j: int|
                0 <= i < n && 0 <= j < c.m.metadata_usages@[i].1@.len() && #[trigger] usage_in_list(
                    c,
                    i,
                    j,
                ) == Some(u) {
                let (i, j) = choose|i: int, j: int|
                    0 <= i < n && 0 <= j < c.m.metadata_usages@[i].1@.len()
                        && #[trigger] usage_in_list(c, i, j) == Some(u);
                if i < before {
                    assert(earlier.contains(u));
                    let k = choose|k: int| 0 <= k < earlier.len() && earlier[k] == u;
                    assert(all[k] == u);
                } else {
                    assert(here.contains(u));
                    let k = choose|k: int| 0 <= k < here.len() && here[k] == u;
                    assert(all[earlier.len() + k] == u);
                }
            }
        }
    }
}

proof fn lemma_usage_script(c: Labels) -> (us: Seq<Usage>)
    ensures
        script::usage_script(c) == extended(
            ScriptJsonModel {
                script_methods: script::script_methods(c),
                ..script_json::empty_script()
            },
            c,
            us,
        ),
        forall|u: Usage| #[trigger] us.contains(u) <==> is_usage(c, u),
{
    let start = ScriptJsonModel {
        script_methods: script::script_methods(c),
        ..script_json::empty_script()
    };
    if scanned(c) {
        let n = c.il2cpp.data_sections@.len();
        lemma_sections(start, c, n);
        let us = section_usages(c, n);
        assert forall|u: Usage| #[trigger] us.contains(u) <==> is_usage(c, u) by {}
        us
    } else if c.il2cpp.version > words::version_number(16, 0) {
        let n = c.m.metadata_usages@.len();
        lemma_lists(start, c, n);
        lists_usages_upto(c, n)
    } else {
        lemma_extended_none(start, c);
        Seq::empty()
    }
}

proof fn lemma_lists_all<T>(c: Labels, us: Seq<Usage>, f: spec_fn(Usage) -> Option<T>)
    requires
        forall|u: Usage| #[trigger] us.contains(u) <==> is_usage(c, u),
    ensures
        lists_all(c, Seq::<T>::empty() + picked(us, f), f),
{
    let list = picked(us, f);
    assert(Seq::<T>::empty() + list =~= list);
    assert forall|x: T| #[trigger] list.contains(x) <==> exists|u: Usage| #[trigger]
        is_usage(c, u) && f(u) == Some(x) by {
        lemma_picked_contains(us, f, x);
        if list.contains(x) {
            let i = choose|i: int| 0 <= i < us.len() && f(#[trigger] us[i]) == Some(x);
            assert(us.contains(us[i]));
            assert(is_usage(c, us[i]));
        }
        if exists|u: Usage| #[trigger] is_usage(c, u) && f(u) == Some(x) {
            let u = choose|u: Usage| #[trigger] is_usage(c, u) && f(u) == Some(x);
            assert(us.contains(u));
            let i = choose|i: int| 0 <= i < us.len() && us[i] == u;
            assert(f(us[i]) == Some(x));
        }
    }
}

/// What `g` makes of the entries of a report, in order.
spec fn reported<T>(
    entries: Seq<StaticFieldEntryModel>,
    g: spec_fn(StaticFieldEntryModel) -> Option<T>,
) -> Seq<T>
    decreases entries.len(),
{
    if entries.len() == 0 {
        Seq::empty()
    } else {
        static_field_exporter::with_optional(reported(entries.drop_last(), g), g(entries.last()))
    }
}

proof fn lemma_reported<T>(
    entries: Seq<StaticFieldEntryModel>,
    g: spec_fn(StaticFieldEntryModel) -> Option<T>,
    x: T,
)
    ensures
        reported(entries, g).contains(x) <==> exists|i: int|
            0 <= i < entries.len() && g(#[trigger] entries[i]) == Some(x),
    decreases entries.len(),
{
    if entries.len() > 0 {
        let rest = entries.drop_last();
        lemma_reported(rest, g, x);
        let p = reported(rest, g);
        let q = reported(entries, g);
        if q.contains(x) {
            let j = choose|j: int| 0 <= j < q.len() && q[j] == x;
            if j < p.len() {
                assert(p[j] == x);
                assert(p.contains(x));
                let i = choose|i: int| 0 <= i < rest.len() && g(#[trigger] rest[i]) == Some(x);
                assert(g(entries[i]) == Some(x));
            } else {
                assert(g(entries[entries.len() - 1]) == Some(x));
            }
        }
        if exists|i: int| 0 <= i < entries.len() && g(#[trigger] entries[i]) == Some(x) {
            let i = choose|i: int| 0 <= i < entries.len() && g(#[trigger] entries[i]) == Some(x);
            if i < rest.len() {
                assert(g(rest[i]) == Some(x));
                let j = choose|j: int| 0 <= j < p.len() && p[j] == x;
                assert(q[j] == x);
            } else {
                assert(q[q.len() - 1] == x);
            }
        }
    }
}

proof fn lemma_infos(entries: Seq<StaticFieldEntryModel>)
    ensures
        static_field_exporter::rva_infos(entries) == reported(
            entries,
            |e: StaticFieldEntryModel| static_field_exporter::rva_info(e),
        ),
        static_field_exporter::thread_infos(entries) == reported(
            entries,
            |e: StaticFieldEntryModel| static_field_exporter::thread_info(e),
        ),
    decreases entries.len(),
{
    if entries.len() > 0 {
        lemma_infos(entries.drop_last());
    }
}

proof fn lemma_lists_both<T>(
    c: Labels,
    us: Seq<Usage>,
    entries: Seq<StaticFieldEntryModel>,
    f: spec_fn(Usage) -> Option<T>,
    g: spec_fn(StaticFieldEntryModel) -> Option<T>,
)
    requires
        forall|u: Usage| #[trigger] us.contains(u) <==> is_usage(c, u),
    ensures
        lists_both(c, entries, Seq::<T>::empty() + picked(us, f) + reported(entries, g), f, g),
{
    lemma_lists_all(c, us, f);
    let a = Seq::<T>::empty() + picked(us, f);
    let b = reported(entries, g);
    let list = a + b;
    assert forall|x: T| #[trigger] list.contains(x) <==> (exists|u: Usage| #[trigger]
        is_usage(c, u) && f(u) == Some(x)) || exists|i: int|
        0 <= i < entries.len() && g(#[trigger] entries[i]) == Some(x) by {
        lemma_reported(entries, g, x);
        assert(a.contains(x) <==> exists|u: Usage| #[trigger] is_usage(c, u) && f(u) == Some(x));
        if list.contains(x) {
            let i = choose|i: int| 0 <= i < list.len() && list[i] == x;
            if i < a.len() {
                assert(a[i] == x);
            } else {
                assert(b[i - a.len()] == x);
            }
        }
        if a.contains(x) {
            let i = choose|i: int| 0 <= i < a.len() && a[i] == x;
            assert(list[i] == x);
        }
        if b.contains(x) {
            let i = choose|i: int| 0 <= i < b.len() && b[i] == x;
            assert(list[a.len() + i] == x);
        }
    }
}

/// The script of an image lists what its usages refer to: since version 27 those of each word of a
/// data section, before its last one, that is mapped and stands for a usage; between versions 16
/// and 27 those that the metadata lists. Neither they nor a report change its methods.
pub proof fn law_script_usages(c: Labels, catalog: Option<&StaticFieldCatalog>)
    ensures
        lists_usages(c, report_entries(catalog), script::full_script(c, catalog)),
        script::full_script(c, catalog).script_methods == script::script_methods(c),
{
    let us = lemma_usage_script(c);
    let entries = report_entries(catalog);
    lemma_lists_all(c, us, |u: Usage| string_of(c, u));
    lemma_lists_all(c, us, |u: Usage| metadata_of(c, u));
    lemma_lists_all(c, us, |u: Usage| method_of(c, u));
    lemma_lists_all(c, us, |u: Usage| type_info_of(c, u));
    lemma_lists_all(c, us, |u: Usage| type_ref_of(c, u));
    lemma_lists_both(
        c,
        us,
        entries,
        |u: Usage| field_info_of(c, u),
        |e: StaticFieldEntryModel| static_field_exporter::thread_info(e),
    );
    lemma_lists_both(
        c,
        us,
        entries,
        |u: Usage| field_data_of(c, u),
        |e: StaticFieldEntryModel| static_field_exporter::rva_info(e),
    );
    lemma_infos(entries);
    let s = script::full_script(c, catalog);
    if catalog is None {
        let a = Seq::<ScriptFieldInfoModel>::empty() + picked(us, |u: Usage| field_info_of(c, u));
        let b = Seq::<ScriptFieldInfoModel>::empty() + picked(us, |u: Usage| field_data_of(c, u));
        assert(a + reported(
            entries,
            |e: StaticFieldEntryModel| static_field_exporter::thread_info(e),
        ) =~= s.field_infos);
        assert(b + reported(
            entries,
            |e: StaticFieldEntryModel| static_field_exporter::rva_info(e),
        ) =~= s.field_rvas);
    }
}

} // verus!
