//! The declarations of structures, each after those that it needs.
use crate::names::{NameMap, NameSet};
use crate::numeral;
use crate::output::script_json;
use crate::output::struct_info;
use crate::output::struct_info::{
    StructFieldInfo, StructFieldInfoModel, StructInfo, StructInfoModel, StructRGCTXInfo,
    StructRGCTXInfoModel,
};
use crate::text;
use std::collections::HashSet;
use vstd::prelude::*;
use vstd::string::*;

verus! {

// Fields.

/// The type, without the stars of pointers, is none of the types of the language itself.
pub open spec fn needs_prefix(t: Seq<char>) -> bool {
    let base = text::trimmed_end_of(t, "*"@);
    !(base == "void"@ || base == "bool"@ || base == "char"@ || base == "int8_t"@ || base
        == "uint8_t"@ || base == "int16_t"@ || base == "uint16_t"@ || base == "int32_t"@ || base
        == "uint32_t"@ || base == "int64_t"@ || base == "uint64_t"@ || base == "float"@ || base
        == "double"@ || base == "intptr_t"@ || base == "uintptr_t"@ || base == "Il2CppChar"@)
}

/// Whether the type, without the stars of pointers, is none of the types of the language itself.
pub fn needs_struct_prefix(name: &str) -> (r: bool)
    ensures
        r == needs_prefix(name@),
{
    proof {
        reveal_strlit("*");
    }
    let base = text::trim_end_of(name, "*");
    let b = base.as_str();
    !(text::same_text(b, "void") || text::same_text(b, "bool") || text::same_text(b, "char")
        || text::same_text(b, "int8_t") || text::same_text(b, "uint8_t") || text::same_text(
        b,
        "int16_t",
    ) || text::same_text(b, "uint16_t") || text::same_text(b, "int32_t") || text::same_text(
        b,
        "uint32_t",
    ) || text::same_text(b, "int64_t") || text::same_text(b, "uint64_t") || text::same_text(
        b,
        "float",
    ) || text::same_text(b, "double") || text::same_text(b, "intptr_t") || text::same_text(
        b,
        "uintptr_t",
    ) || text::same_text(b, "Il2CppChar"))
}

/// The line that declares a field.
pub open spec fn field_line(f: StructFieldInfoModel) -> Seq<char> {
    if f.is_custom_type && needs_prefix(f.field_type_name) {
        "\tstruct "@ + f.field_type_name + " "@ + f.field_name + ";\n"@
    } else {
        "\t"@ + f.field_type_name + " "@ + f.field_name + ";\n"@
    }
}

/// The lines that declare fields.
pub open spec fn field_lines(fields: Seq<StructFieldInfoModel>) -> Seq<char>
    decreases fields.len(),
{
    if fields.len() == 0 {
        Seq::empty()
    } else {
        field_lines(fields.drop_last()) + field_line(fields.last())
    }
}

fn write_field_line(f: &StructFieldInfo) -> (r: String)
    ensures
        r@ == field_line(f@),
{
    let prefix = if f.is_custom_type && needs_struct_prefix(f.field_type_name.as_str()) {
        "\tstruct "
    } else {
        "\t"
    };
    prefix.to_owned().concat(f.field_type_name.as_str()).concat(" ").concat(
        f.field_name.as_str(),
    ).concat(";\n")
}

fn write_field_lines(fields: &Vec<StructFieldInfo>) -> (r: String)
    ensures
        r@ == field_lines(script_json::views(fields@)),
{
    let mut out = String::new();
    let mut i: usize = 0;
    let ghost all = script_json::views(fields@);
    assert(all.take(0) =~= Seq::<StructFieldInfoModel>::empty());
    while i < fields.len()
        invariant
            all == script_json::views(fields@),
            i <= fields@.len(),
            out@ == field_lines(all.take(i as int)),
        decreases fields@.len() - i,
    {
        assert(all.take(i + 1).drop_last() =~= all.take(i as int));
        assert(all.take(i + 1).last() == fields@[i as int]@);
        out.append(write_field_line(&fields[i]).as_str());
        i = i + 1;
    }
    assert(all.take(i as int) =~= all);
    out
}

// Generic contexts.

/// A label, or what stands for one that is missing.
pub open spec fn label_or_unknown(label: Option<Seq<char>>) -> Seq<char> {
    match label {
        Some(s) => s,
        None => "unknown"@,
    }
}

/// The line that declares the entry in place `i` of a generic context.
pub open spec fn context_line(i: nat, e: StructRGCTXInfoModel) -> Seq<char> {
    let kind = struct_info::entry_kind(e.rgctx_type);
    if kind == 1 {
        "\tIl2CppType* _"@ + numeral::dec(i) + "_"@ + label_or_unknown(e.type_label) + ";\n"@
    } else if kind == 2 {
        "\tIl2CppClass* _"@ + numeral::dec(i) + "_"@ + label_or_unknown(e.class_label) + ";\n"@
    } else if kind == 3 {
        "\tMethodInfo* _"@ + numeral::dec(i) + "_"@ + label_or_unknown(e.method_label) + ";\n"@
    } else {
        Seq::empty()
    }
}

/// The lines that declare the entries of a generic context.
pub open spec fn context_lines(entries: Seq<StructRGCTXInfoModel>) -> Seq<char>
    decreases entries.len(),
{
    if entries.len() == 0 {
        Seq::empty()
    } else {
        context_lines(entries.drop_last()) + context_line(
            (entries.len() - 1) as nat,
            entries.last(),
        )
    }
}

/// The structure of a generic context; none where the context has no entries.
pub open spec fn context_struct(name: Seq<char>, entries: Seq<StructRGCTXInfoModel>) -> Seq<char> {
    if entries.len() == 0 {
        Seq::empty()
    } else {
        "struct "@ + name + "_RGCTXs {\n"@ + context_lines(entries) + "};\n"@
    }
}

fn label_text(label: &Option<String>) -> (r: String)
    ensures
        r@ == label_or_unknown(text::optional(*label)),
{
    match label {
        Some(s) => s.clone(),
        None => String::from_str("unknown"),
    }
}

fn write_context_line(i: usize, e: &StructRGCTXInfo) -> (r: String)
    ensures
        r@ == context_line(i as nat, e@),
{
    let kind: u64 = struct_info::read_entry_kind(e.rgctx_type);
    let number = numeral::dec_string(i as u64);
    if kind == 1 {
        String::from_str("\tIl2CppType* _").concat(number.as_str()).concat("_").concat(
            label_text(&e.type_label).as_str(),
        ).concat(";\n")
    } else if kind == 2 {
        String::from_str("\tIl2CppClass* _").concat(number.as_str()).concat("_").concat(
            label_text(&e.class_label).as_str(),
        ).concat(";\n")
    } else if kind == 3 {
        String::from_str("\tMethodInfo* _").concat(number.as_str()).concat("_").concat(
            label_text(&e.method_label).as_str(),
        ).concat(";\n")
    } else {
        let none = String::new();
        assert(none@ =~= Seq::<char>::empty());
        none
    }
}

/// Writes the structure of a generic context.
pub fn write_context_struct(name: &str, entries: &Vec<StructRGCTXInfo>) -> (r: String)
    ensures
        r@ == context_struct(name@, script_json::views(entries@)),
{
    if entries.len() == 0 {
        let none = String::new();
        assert(none@ =~= Seq::<char>::empty());
        return none;
    }
    let mut lines = String::new();
    let mut i: usize = 0;
    let ghost all = script_json::views(entries@);
    assert(all.take(0) =~= Seq::<StructRGCTXInfoModel>::empty());
    while i < entries.len()
        invariant
            all == script_json::views(entries@),
            i <= entries@.len(),
            lines@ == context_lines(all.take(i as int)),
        decreases entries@.len() - i,
    {
        assert(all.take(i + 1).drop_last() =~= all.take(i as int));
        assert(all.take(i + 1).last() == entries@[i as int]@);
        lines.append(write_context_line(i, &entries[i]).as_str());
        i = i + 1;
    }
    assert(all.take(i as int) =~= all);
    String::from_str("struct ").concat(name).concat("_RGCTXs {\n").concat(lines.as_str()).concat(
        "};\n",
    )
}

// Virtual methods.

/// The line that declares the slot `i`.
pub open spec fn slot_line(i: nat, slot: Option<Seq<char>>) -> Seq<char> {
    "\tVirtualInvokeData _"@ + numeral::dec(i) + "_"@ + label_or_unknown(slot) + ";\n"@
}

/// The lines that declare slots.
pub open spec fn slot_lines(slots: Seq<Option<Seq<char>>>) -> Seq<char>
    decreases slots.len(),
{
    if slots.len() == 0 {
        Seq::empty()
    } else {
        slot_lines(slots.drop_last()) + slot_line((slots.len() - 1) as nat, slots.last())
    }
}

/// The structure of the virtual methods; none where there are none.
pub open spec fn vtable_struct(name: Seq<char>, slots: Seq<Option<Seq<char>>>) -> Seq<char> {
    if slots.len() == 0 {
        Seq::empty()
    } else {
        "struct "@ + name + "_VTable {\n"@ + slot_lines(slots) + "};\n"@
    }
}

fn write_vtable_struct(name: &str, slots: &Vec<Option<String>>) -> (r: String)
    ensures
        r@ == vtable_struct(name@, struct_info::slots(slots@)),
{
    if slots.len() == 0 {
        let none = String::new();
        assert(none@ =~= Seq::<char>::empty());
        return none;
    }
    let mut lines = String::new();
    let mut i: usize = 0;
    let ghost all = struct_info::slots(slots@);
    assert(all.take(0) =~= Seq::<Option<Seq<char>>>::empty());
    while i < slots.len()
        invariant
            all == struct_info::slots(slots@),
            i <= slots@.len(),
            lines@ == slot_lines(all.take(i as int)),
        decreases slots@.len() - i,
    {
        assert(all.take(i + 1).drop_last() =~= all.take(i as int));
        assert(all.take(i + 1).last() == text::optional(slots@[i as int]));
        lines.append(
            String::from_str("\tVirtualInvokeData _").concat(
                numeral::dec_string(i as u64).as_str(),
            ).concat("_").concat(label_text(&slots[i]).as_str()).concat(";\n").as_str(),
        );
        i = i + 1;
    }
    assert(all.take(i as int) =~= all);
    String::from_str("struct ").concat(name).concat("_VTable {\n").concat(lines.as_str()).concat(
        "};\n",
    )
}

// Classes, objects and static fields.

/// The structure of the class.
pub open spec fn class_struct(info: StructInfoModel) -> Seq<char> {
    "struct "@ + info.name + "_c {\n\tIl2CppClass_1 _1;\n"@ + (if info.static_fields.len() > 0 {
        "\tstruct "@ + info.name + "_StaticFields* static_fields;\n"@
    } else {
        "\tvoid* static_fields;\n"@
    }) + (if info.rgctxs.len() > 0 {
        "\t"@ + info.name + "_RGCTXs* rgctx_data;\n"@
    } else {
        "\tIl2CppRGCTXData* rgctx_data;\n"@
    }) + "\tIl2CppClass_2 _2;\n"@ + (if info.vtable_methods.len() > 0 {
        "\t"@ + info.name + "_VTable vtable;\n"@
    } else {
        "\tVirtualInvokeData vtable[32];\n"@
    }) + "};\n"@
}

/// The structure of the objects.
pub open spec fn object_struct(info: StructInfoModel) -> Seq<char> {
    "struct "@ + info.name + "_o {\n"@ + (if info.is_value_type {
        Seq::empty()
    } else {
        "\t"@ + info.name + "_c *klass;\n\tvoid *monitor;\n"@
    }) + "\t"@ + info.name + "_Fields fields;\n};\n"@
}

/// The structure of the static fields; none where there are none.
pub open spec fn static_struct(info: StructInfoModel) -> Seq<char> {
    if info.static_fields.len() == 0 {
        Seq::empty()
    } else {
        "struct "@ + info.name + "_StaticFields {\n"@ + field_lines(info.static_fields) + "};\n"@
    }
}

fn write_class_struct(info: &StructInfo) -> (r: String)
    ensures
        r@ == class_struct(info@),
{
    let name = info.name.as_str();
    let statics = if info.static_fields.len() > 0 {
        String::from_str("\tstruct ").concat(name).concat("_StaticFields* static_fields;\n")
    } else {
        String::from_str("\tvoid* static_fields;\n")
    };
    let contexts = if info.rgctxs.len() > 0 {
        String::from_str("\t").concat(name).concat("_RGCTXs* rgctx_data;\n")
    } else {
        String::from_str("\tIl2CppRGCTXData* rgctx_data;\n")
    };
    let methods = if info.vtable_methods.len() > 0 {
        String::from_str("\t").concat(name).concat("_VTable vtable;\n")
    } else {
        String::from_str("\tVirtualInvokeData vtable[32];\n")
    };
    String::from_str("struct ").concat(name).concat("_c {\n\tIl2CppClass_1 _1;\n").concat(
        statics.as_str(),
    ).concat(contexts.as_str()).concat("\tIl2CppClass_2 _2;\n").concat(methods.as_str()).concat(
        "};\n",
    )
}

fn write_object_struct(info: &StructInfo) -> (r: String)
    ensures
        r@ == object_struct(info@),
{
    let name = info.name.as_str();
    let head = if info.is_value_type {
        let none = String::new();
        assert(none@ =~= Seq::<char>::empty());
        none
    } else {
        String::from_str("\t").concat(name).concat("_c *klass;\n\tvoid *monitor;\n")
    };
    String::from_str("struct ").concat(name).concat("_o {\n").concat(head.as_str()).concat(
        "\t",
    ).concat(name).concat("_Fields fields;\n};\n")
}

fn write_static_struct(info: &StructInfo) -> (r: String)
    ensures
        r@ == static_struct(info@),
{
    if info.static_fields.len() == 0 {
        let none = String::new();
        assert(none@ =~= Seq::<char>::empty());
        return none;
    }
    String::from_str("struct ").concat(info.name.as_str()).concat("_StaticFields {\n").concat(
        write_field_lines(&info.static_fields).as_str(),
    ).concat("};\n")
}

// The fields of a structure with those of its parents.

/// The compiler that the declarations are for.
#[derive(Clone, Copy, PartialEq, Eq, Structural)]
pub struct Target {
    /// Parents are not inherited from; their fields are repeated.
    pub gcc: bool,
    pub is_32bit: bool,
    pub is_pe: bool,
}

/// The structures that are declared, and where each stands by the name of its objects.
pub struct StructSet {
    pub list: Seq<StructInfoModel>,
    pub index: Map<Seq<char>, usize>,
}

/// The places of the first `n` structures by the names of their objects; of two that share a
/// name, the later one counts.
pub open spec fn index_upto(list: Seq<StructInfoModel>, n: nat) -> Map<Seq<char>, usize>
    decreases n,
{
    if n == 0 {
        Map::empty()
    } else {
        index_upto(list, (n - 1) as nat).insert(list[n - 1].name + "_o"@, (n - 1) as usize)
    }
}

/// The structures with their places.
pub open spec fn struct_set(list: Seq<StructInfoModel>) -> StructSet {
    StructSet { list, index: index_upto(list, list.len()) }
}

/// The places that names lead to exist.
pub open spec fn set_fits(d: StructSet) -> bool {
    forall|k: Seq<char>| #[trigger] d.index.contains_key(k) ==> d.index[k] < d.list.len()
}

proof fn lemma_index_fits(list: Seq<StructInfoModel>, n: nat)
    requires
        n <= list.len(),
        list.len() <= usize::MAX,
    ensures
        forall|k: Seq<char>| #[trigger]
            index_upto(list, n).contains_key(k) ==> index_upto(list, n)[k] < n,
    decreases n,
{
    if n > 0 {
        lemma_index_fits(list, (n - 1) as nat);
        let before = index_upto(list, (n - 1) as nat);
        assert forall|k: Seq<char>| #[trigger]
            index_upto(list, n).contains_key(k) implies index_upto(list, n)[k] < n by {
            if k != list[n - 1].name + "_o"@ {
                assert(before.contains_key(k));
            }
        }
    }
}

/// The place of the parent of a structure.
pub open spec fn parent_of(d: StructSet, i: int) -> Option<int> {
    match d.list[i].parent {
        Some(parent) => if d.index.contains_key(parent + "_o"@) {
            Some(d.index[parent + "_o"@] as int)
        } else {
            None
        },
        None => None,
    }
}

/// After at most `n` steps there is no further parent.
pub open spec fn parents_end(d: StructSet, i: int, n: nat) -> bool
    decreases n,
{
    match parent_of(d, i) {
        Some(j) => n > 0 && parents_end(d, j, (n - 1) as nat),
        None => true,
    }
}

/// The lines that declare the fields of at most `n` parents, the farthest first.
pub open spec fn inherited_within(d: StructSet, i: int, n: nat) -> Seq<char>
    decreases n,
{
    match parent_of(d, i) {
        Some(j) => if n > 0 {
            inherited_within(d, j, (n - 1) as nat) + field_lines(d.list[j].fields)
        } else {
            Seq::empty()
        },
        None => Seq::empty(),
    }
}

/// The parents of the structure end somewhere.
pub open spec fn has_root(d: StructSet, i: int) -> bool {
    exists|n: nat| parents_end(d, i, n)
}

/// The lines that declare the fields of all parents.
pub open spec fn inherited(d: StructSet, i: int) -> Seq<char> {
    inherited_within(d, i, choose|n: nat| parents_end(d, i, n))
}

/// The first line of the structure of the fields, without a parent.
pub open spec fn plain_head(info: StructInfoModel, target: Target) -> Seq<char> {
    if target.is_pe && !info.is_value_type {
        if target.is_32bit {
            "struct __declspec(align(4)) "@ + info.name + "_Fields {\n"@
        } else {
            "struct __declspec(align(8)) "@ + info.name + "_Fields {\n"@
        }
    } else {
        "struct "@ + info.name + "_Fields {\n"@
    }
}

/// The structure of the fields.
pub open spec fn fields_struct(d: StructSet, target: Target, i: int) -> Seq<char> {
    let info = d.list[i];
    (if target.gcc {
        plain_head(info, target) + inherited(d, i)
    } else {
        match info.parent {
            Some(parent) => "struct "@ + info.name + "_Fields : "@ + parent + "_Fields {\n"@,
            None => plain_head(info, target),
        }
    }) + field_lines(info.fields) + "};\n"@
}

/// All that is declared for a type.
pub open spec fn own_text(d: StructSet, target: Target, i: int) -> Seq<char> {
    let info = d.list[i];
    fields_struct(d, target, i) + context_struct(info.name, info.rgctxs) + vtable_struct(
        info.name,
        info.vtable_methods,
    ) + class_struct(info) + object_struct(info) + static_struct(info)
}

/// The list and the map are those of the set.
pub open spec fn is_set(d: StructSet, list: Seq<StructInfo>, map: Map<Seq<char>, usize>) -> bool {
    d.list == script_json::views(list) && d.index == map
}

fn find_parent_place(list: &Vec<StructInfo>, map: &NameMap<usize>, i: usize, Ghost(d): Ghost<StructSet>) -> (r:
    Option<usize>)
    requires
        is_set(d, list@, map@),
        set_fits(d),
        i < list@.len(),
    ensures
        match r {
            Some(j) => parent_of(d, i as int) == Some(j as int) && j < list@.len(),
            None => parent_of(d, i as int) is None,
        },
{
    assert(d.list[i as int] == list@[i as int]@);
    match &list[i].parent {
        Some(parent) => {
            let key = parent.clone().concat("_o");
            match map.get(key.as_str()) {
                Some(j) => Some(*j),
                None => None,
            }
        },
        None => None,
    }
}

/// Writes the lines that declare the fields of all parents.
fn write_gcc_parent_fields(
    list: &Vec<StructInfo>,
    map: &NameMap<usize>,
    i: usize,
    Ghost(d): Ghost<StructSet>,
    Ghost(n): Ghost<nat>,
) -> (r: String)
    requires
        is_set(d, list@, map@),
        set_fits(d),
        i < list@.len(),
        parents_end(d, i as int, n),
    ensures
        r@ == inherited_within(d, i as int, n),
    decreases n,
{
    match find_parent_place(list, map, i, Ghost(d)) {
        Some(j) => {
            assert(d.list[j as int] == list@[j as int]@);
            write_gcc_parent_fields(list, map, j, Ghost(d), Ghost((n - 1) as nat)).concat(
                write_field_lines(&list[j].fields).as_str(),
            )
        },
        None => {
            let none = String::new();
            assert(none@ =~= Seq::<char>::empty());
            none
        },
    }
}

fn write_plain_head(info: &StructInfo, target: Target) -> (r: String)
    ensures
        r@ == plain_head(info@, target),
{
    let start = if target.is_pe && !info.is_value_type {
        if target.is_32bit {
            "struct __declspec(align(4)) "
        } else {
            "struct __declspec(align(8)) "
        }
    } else {
        "struct "
    };
    start.to_owned().concat(info.name.as_str()).concat("_Fields {\n")
}

fn write_own_text(
    list: &Vec<StructInfo>,
    map: &NameMap<usize>,
    i: usize,
    target: Target,
    Ghost(d): Ghost<StructSet>,
) -> (r: String)
    requires
        is_set(d, list@, map@),
        set_fits(d),
        i < list@.len(),
        target.gcc ==> has_root(d, i as int),
    ensures
        r@ == own_text(d, target, i as int),
{
    assert(d.list[i as int] == list@[i as int]@);
    let info = &list[i];
    let name = info.name.as_str();
    let head = if target.gcc {
        let ghost n = choose|n: nat| parents_end(d, i as int, n);
        write_plain_head(info, target).concat(
            write_gcc_parent_fields(list, map, i, Ghost(d), Ghost(n)).as_str(),
        )
    } else {
        match &info.parent {
            Some(parent) => String::from_str("struct ").concat(name).concat(
                "_Fields : ",
            ).concat(parent.as_str()).concat("_Fields {\n"),
            None => write_plain_head(info, target),
        }
    };
    head.concat(write_field_lines(&info.fields).as_str()).concat("};\n").concat(
        write_context_struct(name, &info.rgctxs).as_str(),
    ).concat(write_vtable_struct(name, &info.vtable_methods).as_str()).concat(
        write_class_struct(info).as_str(),
    ).concat(write_object_struct(info).as_str()).concat(write_static_struct(info).as_str())
}

// The order of declarations.

/// A declaration: that of the structure in a place of the list, or a stub for one that is not in
/// the list.
pub enum Declaration {
    Of(usize),
    Stub(Seq<char>),
}

/// How far the declarations have come.
#[verifier::ext_equal]
pub struct Declared {
    /// The places of the structures that are declared or being declared.
    pub places: Set<usize>,
    /// The declarations in order.
    pub order: Seq<Declaration>,
}

/// The declarations once the structure in place `i` is among them: its parent and the structures
/// of its fields by value come before it. No more than `n` structures are open at a time.
pub open spec fn declared(d: StructSet, p: Declared, i: usize, n: nat) -> Declared
    decreases n, 0nat,
{
    if p.places.contains(i) || n == 0 {
        p
    } else {
        let m = (n - 1) as nat;
        let a = Declared { places: p.places.insert(i), ..p };
        let b = match parent_of(d, i as int) {
            Some(j) => declared(d, a, j as usize, m),
            None => a,
        };
        let info = d.list[i as int];
        let c = with_values(d, b, info.fields, info.fields.len(), m);
        let e = with_values(d, c, info.static_fields, info.static_fields.len(), m);
        Declared { order: e.order.push(Declaration::Of(i)), ..e }
    }
}

/// The declarations once those that the first `k` fields by value need are among them.
pub open spec fn with_values(
    d: StructSet,
    p: Declared,
    fields: Seq<StructFieldInfoModel>,
    k: nat,
    n: nat,
) -> Declared
    decreases n, k,
{
    if k == 0 {
        p
    } else {
        let q = with_values(d, p, fields, (k - 1) as nat, n);
        let f = fields[k - 1];
        let stub = Declaration::Stub(f.field_type_name);
        if !f.is_value_type {
            q
        } else if d.index.contains_key(f.field_type_name) {
            declared(d, q, d.index[f.field_type_name], n)
        } else if q.order.contains(stub) {
            q
        } else {
            Declared { order: q.order.push(stub), ..q }
        }
    }
}

/// The declarations of the first `k` structures and of all that they need.
pub open spec fn declared_upto(d: StructSet, k: nat) -> Declared
    decreases k,
{
    if k == 0 {
        Declared { places: Set::empty(), order: Seq::empty() }
    } else {
        declared(d, declared_upto(d, (k - 1) as nat), (k - 1) as usize, d.list.len())
    }
}

/// The declarations of all structures in order.
pub open spec fn declaration_order(list: Seq<StructInfoModel>) -> Seq<Declaration> {
    declared_upto(struct_set(list), list.len()).order
}

/// The text of a declaration.
pub open spec fn declaration_text(d: StructSet, target: Target, x: Declaration) -> Seq<char> {
    match x {
        Declaration::Of(i) => own_text(d, target, i as int),
        Declaration::Stub(name) => "struct "@ + name + " {\n\tuint8_t _stub;\n};\n"@,
    }
}

/// The text of declarations one after the other.
pub open spec fn order_text(d: StructSet, target: Target, order: Seq<Declaration>) -> Seq<char>
    decreases order.len(),
{
    if order.len() == 0 {
        Seq::empty()
    } else {
        order_text(d, target, order.drop_last()) + declaration_text(d, target, order.last())
    }
}

/// The declarations of all structures.
pub open spec fn declarations(list: Seq<StructInfoModel>, target: Target) -> Seq<char> {
    order_text(struct_set(list), target, declaration_order(list))
}

/// The fields by value need the structure in place `j`.
pub open spec fn values_need(d: StructSet, fields: Seq<StructFieldInfoModel>, j: usize) -> bool {
    exists|k: int|
        0 <= k < fields.len() && (#[trigger] fields[k]).is_value_type && d.index.contains_key(
            fields[k].field_type_name,
        ) && d.index[fields[k].field_type_name] == j
}

/// The structure in place `i` needs that in place `j`: as its parent, or for a field by value.
pub open spec fn needs(d: StructSet, i: usize, j: usize) -> bool {
    ||| parent_of(d, i as int) == Some(j as int)
    ||| values_need(d, d.list[i as int].fields, j)
    ||| values_need(d, d.list[i as int].static_fields, j)
}

/// The fields by value need a structure that is not in the list.
pub open spec fn values_need_stub(d: StructSet, fields: Seq<StructFieldInfoModel>, name: Seq<char>) -> bool {
    !d.index.contains_key(name) && exists|k: int|
        0 <= k < fields.len() && (#[trigger] fields[k]).is_value_type && fields[k].field_type_name
            == name
}

/// The structure in place `i` needs one that is not in the list.
pub open spec fn needs_stub(d: StructSet, i: usize, name: Seq<char>) -> bool {
    values_need_stub(d, d.list[i as int].fields, name) || values_need_stub(
        d,
        d.list[i as int].static_fields,
        name,
    )
}

/// What a structure needs, what that needs in turn and so on lead from place `i` to place `j`
/// within `n` steps.
pub open spec fn leads_within(d: StructSet, i: usize, j: usize, n: nat) -> bool
    decreases n,
{
    i == j || (n > 0 && exists|k: usize| #[trigger]
        needs(d, i, k) && leads_within(d, k, j, (n - 1) as nat))
}

/// What a structure needs, what that needs in turn and so on lead from place `i` to place `j`.
pub open spec fn leads(d: StructSet, i: usize, j: usize) -> bool {
    exists|n: nat| #[trigger] leads_within(d, i, j, n)
}

proof fn lemma_leads_on(d: StructSet, i: usize, j: usize, k: usize, n: nat)
    requires
        leads_within(d, i, j, n),
        needs(d, j, k),
    ensures
        leads_within(d, i, k, n + 1),
    decreases n,
{
    if i == j {
        assert(leads_within(d, k, k, n));
    } else {
        let h = choose|h: usize| #[trigger] needs(d, i, h) && leads_within(d, h, j, (n - 1) as nat);
        lemma_leads_on(d, h, j, k, (n - 1) as nat);
    }
}

/// The declaration `x` stands before place `a` of the order.
pub open spec fn stands_before(order: Seq<Declaration>, x: Declaration, a: int) -> bool {
    exists|b: int| 0 <= b < a && #[trigger] order[b] == x
}

/// The declaration in place `a` of the order comes after all that it needs, but for structures
/// that need it in turn.
pub open spec fn comes_late(d: StructSet, order: Seq<Declaration>, a: int) -> bool {
    order[a] matches Declaration::Of(i) ==> {
        &&& i < d.list.len()
        &&& forall|j: usize| #[trigger]
            needs(d, i, j) ==> stands_before(order, Declaration::Of(j), a) || leads(d, j, i)
        &&& forall|name: Seq<char>| #[trigger]
            needs_stub(d, i, name) ==> stands_before(order, Declaration::Stub(name), a)
    }
}

/// No declaration occurs twice, and each comes late enough.
pub open spec fn in_order(d: StructSet, order: Seq<Declaration>) -> bool {
    &&& order.no_duplicates()
    &&& forall|a: int| 0 <= a < order.len() ==> #[trigger] comes_late(d, order, a)
}

/// The structure in place `i` is being declared.
spec fn is_open(p: Declared, i: usize) -> bool {
    p.places.contains(i) && !p.order.contains(Declaration::Of(i))
}

/// What is declared is in order, and is known to be declared.
spec fn is_sound(d: StructSet, p: Declared) -> bool {
    &&& in_order(d, p.order)
    &&& forall|i: usize| #[trigger] p.order.contains(Declaration::Of(i)) ==> p.places.contains(i)
}

/// All structures that are being declared lead to that in place `i`.
spec fn all_lead(d: StructSet, p: Declared, i: usize) -> bool {
    forall|j: usize| #[trigger] is_open(p, j) ==> leads(d, j, i)
}

/// What `p` declares, `q` declares too, and the same structures are being declared.
spec fn goes_on(p: Declared, q: Declared) -> bool {
    &&& p.places.subset_of(q.places)
    &&& forall|x: Declaration| #[trigger] p.order.contains(x) ==> q.order.contains(x)
    &&& forall|i: usize| #[trigger] is_open(q, i) <==> is_open(p, i)
}

proof fn lemma_goes_on_transitive(p: Declared, q: Declared, r: Declared)
    requires
        goes_on(p, q),
        goes_on(q, r),
    ensures
        goes_on(p, r),
{
    assert forall|i: usize| #[trigger] is_open(r, i) <==> is_open(p, i) by {
        assert(is_open(r, i) <==> is_open(q, i));
    }
}

proof fn lemma_contains_push(order: Seq<Declaration>, x: Declaration)
    ensures
        forall|y: Declaration| #[trigger]
            order.push(x).contains(y) <==> order.contains(y) || y == x,
{
    let now = order.push(x);
    assert forall|y: Declaration| #[trigger] now.contains(y) <==> order.contains(y) || y == x by {
        if order.contains(y) {
            let k = choose|k: int| 0 <= k < order.len() && order[k] == y;
            assert(now[k] == y);
        }
        assert(now[order.len() as int] == x);
        if now.contains(y) {
            let k = choose|k: int| 0 <= k < now.len() && now[k] == y;
            if k < order.len() {
                assert(order[k] == y);
            }
        }
    }
}

proof fn lemma_in_order_push(d: StructSet, order: Seq<Declaration>, x: Declaration)
    requires
        in_order(d, order),
        !order.contains(x),
        x matches Declaration::Of(i) ==> {
            &&& i < d.list.len()
            &&& forall|j: usize| #[trigger]
                needs(d, i, j) ==> order.contains(Declaration::Of(j)) || leads(d, j, i)
            &&& forall|name: Seq<char>| #[trigger]
                needs_stub(d, i, name) ==> order.contains(Declaration::Stub(name))
        },
    ensures
        in_order(d, order.push(x)),
{
    let now = order.push(x);
    assert forall|y: Declaration, a: int|
        0 <= a <= order.len() && #[trigger] stands_before(order, y, a) implies stands_before(
        now,
        y,
        a,
    ) by {
        let b = choose|b: int| 0 <= b < a && #[trigger] order[b] == y;
        assert(now[b] == y);
    }
    assert forall|a: int| 0 <= a < now.len() implies #[trigger] comes_late(d, now, a) by {
        if a < order.len() {
            assert(comes_late(d, order, a));
            assert(now[a] == order[a]);
        } else {
            assert forall|y: Declaration| #[trigger] order.contains(y) implies stands_before(
                now,
                y,
                a,
            ) by {
                let b = choose|b: int| 0 <= b < order.len() && order[b] == y;
                assert(now[b] == y);
            }
        }
    }
    assert forall|a: int, b: int| 0 <= a < now.len() && 0 <= b < now.len() && a != b implies now[a]
        != now[b] by {
        if a == order.len() {
            assert(order.contains(order[b]));
        }
        if b == order.len() {
            assert(order.contains(order[a]));
        }
    }
}

proof fn lemma_declared(d: StructSet, p: Declared, i: usize, n: nat)
    requires
        set_fits(d),
        i < d.list.len(),
        d.list.len() <= usize::MAX,
        missing(p.places, d.list.len()) <= n,
        is_sound(d, p),
        all_lead(d, p, i),
    ensures
        is_sound(d, declared(d, p, i, n)),
        goes_on(p, declared(d, p, i, n)),
        declared(d, p, i, n).places.contains(i),
    decreases n, 0nat,
{
    let len = d.list.len();
    if !p.places.contains(i) {
        lemma_missing_insert(p.places, i, len);
        let m = (n - 1) as nat;
        let a = Declared { places: p.places.insert(i), ..p };
        assert forall|j: usize| #[trigger] is_open(a, j) <==> is_open(p, j) || j == i by {
            if j == i {
                assert(!p.order.contains(Declaration::Of(i)));
            }
        }
        assert(leads_within(d, i, i, 0));
        assert(all_lead(d, a, i)) by {
            assert forall|j: usize| #[trigger] is_open(a, j) implies leads(d, j, i) by {
                assert(is_open(p, j) || j == i);
            }
        }
        let b = match parent_of(d, i as int) {
            Some(j) => declared(d, a, j as usize, m),
            None => a,
        };
        if let Some(j) = parent_of(d, i as int) {
            lemma_all_lead_on(d, a, i, j as usize);
            lemma_declared(d, a, j as usize, m);
        }
        lemma_missing_subset(a.places, b.places, len);
        lemma_all_lead_same(d, a, b, i);
        let info = d.list[i as int];
        let c = with_values(d, b, info.fields, info.fields.len(), m);
        lemma_with_values(d, b, info.fields, info.fields.len(), m, i);
        lemma_missing_subset(b.places, c.places, len);
        lemma_all_lead_same(d, b, c, i);
        let e = with_values(d, c, info.static_fields, info.static_fields.len(), m);
        lemma_with_values(d, c, info.static_fields, info.static_fields.len(), m, i);
        lemma_goes_on_transitive(a, b, c);
        lemma_goes_on_transitive(a, c, e);
        assert(info.fields.take(info.fields.len() as int) =~= info.fields);
        assert(info.static_fields.take(info.static_fields.len() as int) =~= info.static_fields);
        let q = declared(d, p, i, n);
        let own = Declaration::Of(i);
        assert(q == (Declared { order: e.order.push(own), ..e }));
        assert(is_open(e, i)) by {
            assert(is_open(a, i));
        }
        assert forall|j: usize| #[trigger] needs(d, i, j) implies e.order.contains(
            Declaration::Of(j),
        ) || leads(d, j, i) by {
            assert(e.places.contains(j));
            if !e.order.contains(Declaration::Of(j)) {
                assert(is_open(e, j));
                assert(is_open(a, j));
            }
        }
        lemma_in_order_push(d, e.order, own);
        lemma_contains_push(e.order, own);
        assert forall|j: usize| #[trigger] is_open(q, j) <==> is_open(p, j) by {
            assert(is_open(e, j) <==> is_open(a, j));
            assert(is_open(a, j) <==> is_open(p, j) || j == i);
            assert(q.order.contains(Declaration::Of(j)) <==> e.order.contains(Declaration::Of(j))
                || Declaration::Of(j) == own);
        }
    }
}

proof fn lemma_all_lead_on(d: StructSet, p: Declared, i: usize, j: usize)
    requires
        all_lead(d, p, i),
        needs(d, i, j),
    ensures
        all_lead(d, p, j),
{
    assert forall|h: usize| #[trigger] is_open(p, h) implies leads(d, h, j) by {
        let n = choose|n: nat| #[trigger] leads_within(d, h, i, n);
        lemma_leads_on(d, h, i, j, n);
    }
}

proof fn lemma_all_lead_same(d: StructSet, p: Declared, q: Declared, i: usize)
    requires
        all_lead(d, p, i),
        goes_on(p, q),
    ensures
        all_lead(d, q, i),
{
    assert forall|h: usize| #[trigger] is_open(q, h) implies leads(d, h, i) by {
        assert(is_open(p, h));
    }
}

proof fn lemma_with_values(
    d: StructSet,
    p: Declared,
    fields: Seq<StructFieldInfoModel>,
    k: nat,
    n: nat,
    i: usize,
)
    requires
        set_fits(d),
        d.list.len() <= usize::MAX,
        missing(p.places, d.list.len()) <= n,
        is_sound(d, p),
        all_lead(d, p, i),
        k <= fields.len(),
        forall|j: usize| #[trigger] values_need(d, fields, j) ==> needs(d, i, j),
    ensures
        is_sound(d, with_values(d, p, fields, k, n)),
        goes_on(p, with_values(d, p, fields, k, n)),
        forall|j: usize| #[trigger]
            values_need(d, fields.take(k as int), j) ==> with_values(
                d,
                p,
                fields,
                k,
                n,
            ).places.contains(j),
        forall|name: Seq<char>| #[trigger]
            values_need_stub(d, fields.take(k as int), name) ==> with_values(
                d,
                p,
                fields,
                k,
                n,
            ).order.contains(Declaration::Stub(name)),
    decreases n, k + 1,
{
    if k > 0 {
        lemma_with_values(d, p, fields, (k - 1) as nat, n, i);
        let q = with_values(d, p, fields, (k - 1) as nat, n);
        let r = with_values(d, p, fields, k, n);
        let f = fields[k - 1];
        let stub = Declaration::Stub(f.field_type_name);
        let past = fields.take(k - 1);
        let now = fields.take(k as int);
        lemma_missing_subset(p.places, q.places, d.list.len());
        lemma_all_lead_same(d, p, q, i);
        if f.is_value_type && d.index.contains_key(f.field_type_name) {
            let j = d.index[f.field_type_name];
            assert(values_need(d, fields, j));
            lemma_all_lead_on(d, q, i, j);
            lemma_declared(d, q, j, n);
        } else if f.is_value_type && !q.order.contains(stub) {
            lemma_in_order_push(d, q.order, stub);
            lemma_contains_push(q.order, stub);
            assert forall|j: usize| #[trigger] is_open(r, j) <==> is_open(q, j) by {
                assert(r.order.contains(Declaration::Of(j)) <==> q.order.contains(
                    Declaration::Of(j),
                ));
            }
        }
        assert(goes_on(q, r));
        lemma_goes_on_transitive(p, q, r);
        assert forall|j: usize| #[trigger] values_need(d, now, j) implies r.places.contains(j) by {
            let h = choose|h: int|
                0 <= h < now.len() && (#[trigger] now[h]).is_value_type && d.index.contains_key(
                    now[h].field_type_name,
                ) && d.index[now[h].field_type_name] == j;
            if h < k - 1 {
                assert(past[h] == now[h]);
                assert(values_need(d, past, j));
            }
        }
        assert forall|name: Seq<char>| #[trigger] values_need_stub(d, now, name) implies r.order.contains(
        Declaration::Stub(name)) by {
            let h = choose|h: int|
                0 <= h < now.len() && (#[trigger] now[h]).is_value_type && now[h].field_type_name
                    == name;
            if h < k - 1 {
                assert(past[h] == now[h]);
                assert(values_need_stub(d, past, name));
                assert(q.order.contains(Declaration::Stub(name)));
            }
        }
    }
}

proof fn lemma_declared_upto(d: StructSet, k: nat)
    requires
        set_fits(d),
        d.list.len() <= usize::MAX,
        k <= d.list.len(),
    ensures
        is_sound(d, declared_upto(d, k)),
        forall|i: usize| !#[trigger] is_open(declared_upto(d, k), i),
        forall|i: usize| i < k ==> #[trigger] declared_upto(d, k).places.contains(i),
    decreases k,
{
    if k > 0 {
        lemma_declared_upto(d, (k - 1) as nat);
        let p = declared_upto(d, (k - 1) as nat);
        let i = (k - 1) as usize;
        lemma_missing_at_most(p.places, d.list.len());
        lemma_declared(d, p, i, d.list.len());
        assert forall|j: usize| !#[trigger] is_open(declared_upto(d, k), j) by {
            assert(!is_open(p, j));
        }
    }
}

/// Every structure is declared, none is declared twice, and each is declared after its parent,
/// after the structures of its fields by value and after the stubs for those that are not known.
/// The one exception is a structure that needs, directly or not, the one that needs it.
pub proof fn law_declaration_order(list: Seq<StructInfoModel>)
    requires
        list.len() <= usize::MAX,
    ensures
        in_order(struct_set(list), declaration_order(list)),
        forall|i: usize|
            i < list.len() ==> #[trigger] declaration_order(list).contains(Declaration::Of(i)),
{
    let d = struct_set(list);
    lemma_index_fits(list, list.len());
    lemma_declared_upto(d, list.len());
    assert forall|i: usize| i < list.len() implies #[trigger] declaration_order(list).contains(
        Declaration::Of(i),
    ) by {
        assert(d.list == list);
        assert(!is_open(declared_upto(d, list.len()), i));
    }
}

/// The text of declarations is that of the first ones and that of the others.
pub proof fn law_order_text(
    d: StructSet,
    target: Target,
    a: Seq<Declaration>,
    b: Seq<Declaration>,
)
    ensures
        order_text(d, target, a + b) == order_text(d, target, a) + order_text(d, target, b),
    decreases b.len(),
{
    if b.len() == 0 {
        assert(a + b =~= a);
        assert(order_text(d, target, a) + order_text(d, target, b) =~= order_text(d, target, a));
    } else {
        law_order_text(d, target, a, b.drop_last());
        assert((a + b).drop_last() =~= a + b.drop_last());
        assert(order_text(d, target, a + b) =~= order_text(d, target, a) + order_text(
            d,
            target,
            b,
        ));
    }
}

/// The declaration `x` comes in between `p` and `q`.
spec fn comes_in(p: Declared, q: Declared, x: Declaration) -> bool {
    exists|a: int| p.order.len() <= a < q.order.len() && #[trigger] q.order[a] == x
}

/// What `q` declares beyond `p` follows what `p` declares, each declaration once: those of the
/// structures that become known, and stubs that were not there.
spec fn adds(p: Declared, q: Declared) -> bool {
    &&& p.order.len() <= q.order.len()
    &&& forall|a: int| 0 <= a < p.order.len() ==> #[trigger] q.order[a] == p.order[a]
    &&& p.places.subset_of(q.places)
    &&& forall|k: usize| #[trigger]
        comes_in(p, q, Declaration::Of(k)) <==> q.places.contains(k) && !p.places.contains(k)
    &&& forall|name: Seq<char>| #[trigger]
        comes_in(p, q, Declaration::Stub(name)) ==> !p.order.contains(Declaration::Stub(name))
    &&& forall|a: int, b: int|
        p.order.len() <= a < b < q.order.len() ==> #[trigger] q.order[a] != #[trigger] q.order[b]
}

proof fn lemma_comes_in_later(p: Declared, q: Declared, r: Declared)
    requires
        p.order.len() <= q.order.len() <= r.order.len(),
        forall|a: int| 0 <= a < q.order.len() ==> #[trigger] r.order[a] == q.order[a],
    ensures
        forall|x: Declaration| #[trigger]
            comes_in(p, r, x) <==> comes_in(p, q, x) || comes_in(q, r, x),
{
    assert forall|x: Declaration| #[trigger] comes_in(p, r, x) <==> comes_in(p, q, x) || comes_in(
        q,
        r,
        x,
    ) by {
        if comes_in(p, r, x) {
            let a = choose|a: int| p.order.len() <= a < r.order.len() && #[trigger] r.order[a] == x;
            if a < q.order.len() {
                assert(q.order[a] == x);
            }
        }
        if comes_in(p, q, x) {
            let a = choose|a: int| p.order.len() <= a < q.order.len() && #[trigger] q.order[a] == x;
            assert(r.order[a] == x);
        }
        if comes_in(q, r, x) {
            let a = choose|a: int| q.order.len() <= a < r.order.len() && #[trigger] r.order[a] == x;
            assert(r.order[a] == x);
        }
    }
}

proof fn lemma_adds_transitive(p: Declared, q: Declared, r: Declared)
    requires
        adds(p, q),
        adds(q, r),
    ensures
        adds(p, r),
{
    lemma_comes_in_later(p, q, r);
    assert forall|a: int| 0 <= a < p.order.len() implies #[trigger] r.order[a] == p.order[a] by {
        assert(q.order[a] == p.order[a]);
    }
    assert forall|k: usize| #[trigger] comes_in(p, r, Declaration::Of(k)) <==> r.places.contains(k)
        && !p.places.contains(k) by {
        assert(comes_in(p, q, Declaration::Of(k)) <==> q.places.contains(k) && !p.places.contains(
            k,
        ));
        assert(comes_in(q, r, Declaration::Of(k)) <==> r.places.contains(k) && !q.places.contains(
            k,
        ));
    }
    assert forall|name: Seq<char>| #[trigger]
        comes_in(p, r, Declaration::Stub(name)) implies !p.order.contains(
        Declaration::Stub(name),
    ) by {
        let x = Declaration::Stub(name);
        if comes_in(q, r, x) && p.order.contains(x) {
            let a = choose|a: int| 0 <= a < p.order.len() && p.order[a] == x;
            assert(q.order[a] == x);
            assert(q.order.contains(x));
        }
    }
    assert forall|a: int, b: int| p.order.len() <= a < b < r.order.len() implies #[trigger] r.order[a]
        != #[trigger] r.order[b] by {
        if b < q.order.len() {
            assert(r.order[a] == q.order[a] && r.order[b] == q.order[b]);
        } else if a < q.order.len() {
            assert(r.order[a] == q.order[a]);
            let x = q.order[a];
            assert(comes_in(p, q, x));
            if r.order[b] == x {
                assert(comes_in(q, r, x));
                match x {
                    Declaration::Of(k) => {
                        assert(comes_in(p, q, Declaration::Of(k)));
                        assert(comes_in(q, r, Declaration::Of(k)));
                    },
                    Declaration::Stub(name) => {
                        assert(comes_in(q, r, Declaration::Stub(name)));
                        assert(q.order.contains(x));
                    },
                }
            }
        }
    }
}

proof fn lemma_adds_nothing(p: Declared)
    ensures
        adds(p, p),
{
}

proof fn lemma_declared_adds(d: StructSet, p: Declared, i: usize, n: nat)
    requires
        set_fits(d),
        i < d.list.len(),
        d.list.len() <= usize::MAX,
        missing(p.places, d.list.len()) <= n,
    ensures
        adds(p, declared(d, p, i, n)),
        declared(d, p, i, n).places.contains(i),
        !p.places.contains(i) ==> declared(d, p, i, n).order.len() > p.order.len() && declared(
            d,
            p,
            i,
            n,
        ).order.last() == Declaration::Of(i),
    decreases n, 0nat,
{
    let len = d.list.len();
    if p.places.contains(i) {
        lemma_adds_nothing(p);
    } else {
        lemma_missing_insert(p.places, i, len);
        let m = (n - 1) as nat;
        let a = Declared { places: p.places.insert(i), ..p };
        let b = match parent_of(d, i as int) {
            Some(j) => declared(d, a, j as usize, m),
            None => a,
        };
        lemma_adds_nothing(a);
        if let Some(j) = parent_of(d, i as int) {
            lemma_declared_adds(d, a, j as usize, m);
        }
        lemma_missing_subset(a.places, b.places, len);
        let info = d.list[i as int];
        let c = with_values(d, b, info.fields, info.fields.len(), m);
        lemma_values_add(d, b, info.fields, info.fields.len(), m);
        lemma_missing_subset(b.places, c.places, len);
        let e = with_values(d, c, info.static_fields, info.static_fields.len(), m);
        lemma_values_add(d, c, info.static_fields, info.static_fields.len(), m);
        lemma_adds_transitive(a, b, c);
        lemma_adds_transitive(a, c, e);
        let q = declared(d, p, i, n);
        let own = Declaration::Of(i);
        assert(q == (Declared { order: e.order.push(own), ..e }));
        lemma_comes_in_later(p, e, q);
        assert forall|x: Declaration| #[trigger] comes_in(p, q, x) <==> comes_in(a, e, x) || x
            == own by {
            assert(comes_in(p, e, x) <==> comes_in(a, e, x));
            assert(q.order[e.order.len() as int] == own);
            assert(comes_in(e, q, own));
        }
        assert(!comes_in(a, e, own));
        assert forall|g: int, h: int| p.order.len() <= g < h < q.order.len() implies #[trigger] q.order[g]
            != #[trigger] q.order[h] by {
            assert(q.order[g] == e.order[g]);
            if h < e.order.len() {
                assert(q.order[h] == e.order[h]);
            } else {
                assert(comes_in(a, e, e.order[g]));
            }
        }
        assert forall|k: usize| #[trigger] comes_in(p, q, Declaration::Of(k)) <==> q.places.contains(
        k) && !p.places.contains(k) by {
            assert(comes_in(a, e, Declaration::Of(k)) <==> e.places.contains(k)
                && !a.places.contains(k));
        }
    }
}

proof fn lemma_values_add(
    d: StructSet,
    p: Declared,
    fields: Seq<StructFieldInfoModel>,
    k: nat,
    n: nat,
)
    requires
        set_fits(d),
        d.list.len() <= usize::MAX,
        missing(p.places, d.list.len()) <= n,
    ensures
        adds(p, with_values(d, p, fields, k, n)),
    decreases n, k + 1,
{
    if k == 0 {
        lemma_adds_nothing(p);
    } else {
        lemma_values_add(d, p, fields, (k - 1) as nat, n);
        let q = with_values(d, p, fields, (k - 1) as nat, n);
        let r = with_values(d, p, fields, k, n);
        let f = fields[k - 1];
        let stub = Declaration::Stub(f.field_type_name);
        lemma_adds_nothing(q);
        if f.is_value_type && d.index.contains_key(f.field_type_name) {
            lemma_missing_subset(p.places, q.places, d.list.len());
            lemma_declared_adds(d, q, d.index[f.field_type_name], n);
        } else if f.is_value_type && !q.order.contains(stub) {
            assert(r == (Declared { order: q.order.push(stub), ..q }));
            assert forall|x: Declaration| #[trigger] comes_in(q, r, x) <==> x == stub by {
                assert(r.order[q.order.len() as int] == stub);
            }
        }
        assert(adds(q, r));
        lemma_adds_transitive(p, q, r);
    }
}

proof fn lemma_own_text_nonempty(d: StructSet, target: Target, i: int)
    ensures
        own_text(d, target, i).len() > 0,
{
    reveal_strlit("};\n");
    assert(fields_struct(d, target, i).len() >= "};\n"@.len());
}

/// Declaring a structure that is declared changes nothing. Declaring another one appends text: the
/// structure itself comes last, and each structure that becomes known on the way is declared in
/// what is appended exactly once, and no other one is.
pub proof fn law_declared_adds(d: StructSet, target: Target, p: Declared, i: usize, n: nat)
    requires
        set_fits(d),
        i < d.list.len(),
        d.list.len() <= usize::MAX,
        missing(p.places, d.list.len()) <= n,
    ensures
        p.places.contains(i) ==> declared(d, p, i, n) == p,
        !p.places.contains(i) ==> {
            let q = declared(d, p, i, n);
            let added = q.order.skip(p.order.len() as int);
            &&& q.order == p.order + added
            &&& order_text(d, target, q.order) == order_text(d, target, p.order) + order_text(
                d,
                target,
                added,
            )
            &&& order_text(d, target, q.order).len() > order_text(d, target, p.order).len()
            &&& p.places.insert(i).subset_of(q.places)
            &&& added.no_duplicates()
            &&& forall|k: usize| #[trigger]
                added.contains(Declaration::Of(k)) <==> q.places.contains(k)
                    && !p.places.contains(k)
            &&& added.len() > 0 && added.last() == Declaration::Of(i)
        },
{
    if !p.places.contains(i) {
        let q = declared(d, p, i, n);
        let from = p.order.len() as int;
        let added = q.order.skip(from);
        lemma_declared_adds(d, p, i, n);
        assert(q.order =~= p.order + added);
        law_order_text(d, target, p.order, added);
        lemma_own_text_nonempty(d, target, i as int);
        assert forall|k: usize| #[trigger] added.contains(Declaration::Of(k)) <==> q.places.contains(
        k) && !p.places.contains(k) by {
            let x = Declaration::Of(k);
            if added.contains(x) {
                let a = choose|a: int| 0 <= a < added.len() && added[a] == x;
                assert(q.order[from + a] == x);
            }
            if comes_in(p, q, x) {
                let a = choose|a: int| from <= a < q.order.len() && #[trigger] q.order[a] == x;
                assert(added[a - from] == x);
            }
        }
        assert forall|a: int, b: int|
            0 <= a < added.len() && 0 <= b < added.len() && a != b implies added[a] != added[b] by {
            assert(added[a] == q.order[from + a] && added[b] == q.order[from + b]);
            if a < b {
                assert(q.order[from + a] != q.order[from + b]);
            } else {
                assert(q.order[from + b] != q.order[from + a]);
            }
        }
    }
}

/// The text of all declarations holds that of each structure, and holds it once.
pub proof fn law_each_text_once(list: Seq<StructInfoModel>, target: Target, i: usize)
    requires
        i < list.len() <= usize::MAX,
    ensures
        ({
            let d = struct_set(list);
            let order = declaration_order(list);
            exists|a: int|
                0 <= a < order.len() && #[trigger] order[a] == Declaration::Of(i) && declarations(
                    list,
                    target,
                ) == order_text(d, target, order.take(a)) + own_text(d, target, i as int)
                    + order_text(d, target, order.skip(a + 1)) && !order.take(a).contains(
                    Declaration::Of(i),
                ) && !order.skip(a + 1).contains(Declaration::Of(i))
        }),
{
    law_declaration_order(list);
    let d = struct_set(list);
    let order = declaration_order(list);
    let x = Declaration::Of(i);
    assert(order.contains(Declaration::Of(i)));
    let a = choose|a: int| 0 <= a < order.len() && order[a] == x;
    let before = order.take(a);
    let after = order.skip(a + 1);
    assert(order.take(a + 1).drop_last() =~= before);
    assert(order =~= order.take(a + 1) + after);
    law_order_text(d, target, order.take(a + 1), after);
    if before.contains(x) {
        let b = choose|b: int| 0 <= b < before.len() && before[b] == x;
        assert(order[b] == x);
    }
    if after.contains(x) {
        let b = choose|b: int| 0 <= b < after.len() && after[b] == x;
        assert(order[a + 1 + b] == x);
    }
    assert(order[a] == x);
}

/// Declaring a structure a second time changes nothing.
pub proof fn law_declared_once(d: StructSet, p: Declared, i: usize, n: nat, m: nat)
    requires
        n > 0,
    ensures
        declared(d, declared(d, p, i, n), i, m) == declared(d, p, i, n),
{
    lemma_declared_grows(d, p, i, n);
}

proof fn lemma_declared_grows(d: StructSet, p: Declared, i: usize, n: nat)
    ensures
        p.places.subset_of(declared(d, p, i, n).places),
        n > 0 ==> declared(d, p, i, n).places.contains(i),
    decreases n, 0nat,
{
    if !p.places.contains(i) && n > 0 {
        let m = (n - 1) as nat;
        let a = Declared { places: p.places.insert(i), ..p };
        let b = match parent_of(d, i as int) {
            Some(j) => declared(d, a, j as usize, m),
            None => a,
        };
        if let Some(j) = parent_of(d, i as int) {
            lemma_declared_grows(d, a, j as usize, m);
        }
        let info = d.list[i as int];
        let c = with_values(d, b, info.fields, info.fields.len(), m);
        lemma_values_grow(d, b, info.fields, info.fields.len(), m);
        lemma_values_grow(d, c, info.static_fields, info.static_fields.len(), m);
    }
}

proof fn lemma_values_grow(
    d: StructSet,
    p: Declared,
    fields: Seq<StructFieldInfoModel>,
    k: nat,
    n: nat,
)
    ensures
        p.places.subset_of(with_values(d, p, fields, k, n).places),
    decreases n, k + 1,
{
    if k > 0 {
        lemma_values_grow(d, p, fields, (k - 1) as nat, n);
        let q = with_values(d, p, fields, (k - 1) as nat, n);
        let f = fields[k - 1];
        if f.is_value_type && d.index.contains_key(f.field_type_name) {
            lemma_declared_grows(d, q, d.index[f.field_type_name], n);
        }
    }
}

/// How many of the first `n` places are missing.
pub open spec fn missing(places: Set<usize>, n: nat) -> nat
    decreases n,
{
    if n == 0 {
        0
    } else {
        missing(places, (n - 1) as nat) + if places.contains((n - 1) as usize) {
            0nat
        } else {
            1
        }
    }
}

proof fn lemma_missing_subset(a: Set<usize>, b: Set<usize>, n: nat)
    requires
        a.subset_of(b),
    ensures
        missing(b, n) <= missing(a, n),
    decreases n,
{
    if n > 0 {
        lemma_missing_subset(a, b, (n - 1) as nat);
    }
}

proof fn lemma_missing_insert(a: Set<usize>, i: usize, n: nat)
    requires
        !a.contains(i),
        n <= usize::MAX,
    ensures
        i < n ==> missing(a.insert(i), n) + 1 == missing(a, n),
        i >= n ==> missing(a.insert(i), n) == missing(a, n),
    decreases n,
{
    if n > 0 {
        lemma_missing_insert(a, i, (n - 1) as nat);
    }
}

proof fn lemma_missing_at_most(places: Set<usize>, n: nat)
    ensures
        missing(places, n) <= n,
    decreases n,
{
    if n > 0 {
        lemma_missing_at_most(places, (n - 1) as nat);
    }
}

// Writing the declarations.

/// What has been written is what `p` says.
spec fn is_written(
    d: StructSet,
    target: Target,
    p: Declared,
    cache: Set<usize>,
    stubs: Set<Seq<char>>,
    buf: Seq<char>,
) -> bool {
    &&& cache == p.places
    &&& forall|name: Seq<char>| #[trigger]
        stubs.contains(name) <==> p.order.contains(Declaration::Stub(name))
    &&& buf == order_text(d, target, p.order)
}

/// Declares the structure in place `i` after those that it needs.
fn recursion_struct_info(
    i: usize,
    list: &Vec<StructInfo>,
    map: &NameMap<usize>,
    cache: &mut HashSet<usize>,
    stubs: &mut NameSet,
    buf: &mut String,
    target: Target,
    Ghost(d): Ghost<StructSet>,
    Ghost(p): Ghost<Declared>,
    Ghost(n): Ghost<nat>,
)
    requires
        is_set(d, list@, map@),
        set_fits(d),
        i < list@.len(),
        target.gcc ==> forall|k: int| 0 <= k < list@.len() ==> has_root(d, k),
        n >= missing(old(cache)@, list@.len()),
        is_written(d, target, p, old(cache)@, old(stubs)@, old(buf)@),
    ensures
        is_written(d, target, declared(d, p, i, n), final(cache)@, final(stubs)@, final(buf)@),
    decreases n, 0nat,
{
    let len: usize = list.len();
    if cache.contains(&i) {
        return;
    }
    proof {
        lemma_missing_insert(cache@, i, len as nat);
    }
    cache.insert(i);
    let ghost m = (n - 1) as nat;
    let ghost a = Declared { places: p.places.insert(i), ..p };
    let ghost b = match parent_of(d, i as int) {
        Some(j) => declared(d, a, j as usize, m),
        None => a,
    };
    match find_parent_place(list, map, i, Ghost(d)) {
        Some(j) => {
            recursion_struct_info(
                j,
                list,
                map,
                cache,
                stubs,
                buf,
                target,
                Ghost(d),
                Ghost(a),
                Ghost(m),
            );
            proof {
                lemma_declared_grows(d, a, j, m);
            }
        },
        None => {},
    }
    proof {
        lemma_missing_subset(a.places, b.places, len as nat);
        assert(d.list[i as int] == list@[i as int]@);
    }
    let info = &list[i];
    ensure_values_defined(
        &info.fields,
        list,
        map,
        cache,
        stubs,
        buf,
        target,
        Ghost(d),
        Ghost(b),
        Ghost(m),
    );
    let ghost fields = d.list[i as int].fields;
    let ghost c = with_values(d, b, fields, fields.len(), m);
    proof {
        lemma_values_grow(d, b, fields, fields.len(), m);
        lemma_missing_subset(b.places, c.places, len as nat);
    }
    ensure_values_defined(
        &info.static_fields,
        list,
        map,
        cache,
        stubs,
        buf,
        target,
        Ghost(d),
        Ghost(c),
        Ghost(m),
    );
    let ghost others = d.list[i as int].static_fields;
    let ghost e = with_values(d, c, others, others.len(), m);
    let own = write_own_text(list, map, i, target, Ghost(d));
    buf.append(own.as_str());
    proof {
        lemma_contains_push(e.order, Declaration::Of(i));
        assert(e.order.push(Declaration::Of(i)).drop_last() =~= e.order);
    }
}

/// Declares the structures that fields by value need.
fn ensure_values_defined(
    fields: &Vec<StructFieldInfo>,
    list: &Vec<StructInfo>,
    map: &NameMap<usize>,
    cache: &mut HashSet<usize>,
    stubs: &mut NameSet,
    buf: &mut String,
    target: Target,
    Ghost(d): Ghost<StructSet>,
    Ghost(p): Ghost<Declared>,
    Ghost(n): Ghost<nat>,
)
    requires
        is_set(d, list@, map@),
        set_fits(d),
        target.gcc ==> forall|k: int| 0 <= k < list@.len() ==> has_root(d, k),
        n >= missing(old(cache)@, list@.len()),
        is_written(d, target, p, old(cache)@, old(stubs)@, old(buf)@),
    ensures
        is_written(
            d,
            target,
            with_values(d, p, script_json::views(fields@), fields@.len(), n),
            final(cache)@,
            final(stubs)@,
            final(buf)@,
        ),
    decreases n, 1nat,
{
    let ghost all = script_json::views(fields@);
    let mut k: usize = 0;
    while k < fields.len()
        invariant
            is_set(d, list@, map@),
            set_fits(d),
            target.gcc ==> forall|k: int| 0 <= k < list@.len() ==> has_root(d, k),
            n >= missing(p.places, list@.len()),
            all == script_json::views(fields@),
            k <= fields@.len(),
            is_written(d, target, with_values(d, p, all, k as nat, n), cache@, stubs@, buf@),
        decreases fields@.len() - k,
    {
        let f = &fields[k];
        let ghost q = with_values(d, p, all, k as nat, n);
        assert(all[k as int] == f@);
        proof {
            lemma_values_grow(d, p, all, k as nat, n);
            lemma_missing_subset(p.places, cache@, list@.len());
        }
        k = k + 1;
        if f.is_value_type {
            match map.get(f.field_type_name.as_str()) {
                Some(j) => {
                    recursion_struct_info(
                        *j,
                        list,
                        map,
                        cache,
                        stubs,
                        buf,
                        target,
                        Ghost(d),
                        Ghost(q),
                        Ghost(n),
                    );
                },
                None => {
                    if !stubs.contains(f.field_type_name.as_str()) {
                        stubs.insert(f.field_type_name.clone());
                        buf.append(
                            String::from_str("struct ").concat(
                                f.field_type_name.as_str(),
                            ).concat(" {\n\tuint8_t _stub;\n};\n").as_str(),
                        );
                        proof {
                            let stub = Declaration::Stub(f.field_type_name@);
                            lemma_contains_push(q.order, stub);
                            assert(q.order.push(stub).drop_last() =~= q.order);
                        }
                    }
                },
            }
        }
    }
}

/// The places of structures by the names of their objects.
fn index_by_name(list: &Vec<StructInfo>) -> (r: NameMap<usize>)
    ensures
        r@ == index_upto(script_json::views(list@), list@.len()),
{
    let mut map: NameMap<usize> = NameMap::new();
    let ghost all = script_json::views(list@);
    let mut i: usize = 0;
    while i < list.len()
        invariant
            all == script_json::views(list@),
            i <= list@.len(),
            map@ == index_upto(all, i as nat),
        decreases list@.len() - i,
    {
        assert(all[i as int] == list@[i as int]@);
        map.insert(list[i].name.clone().concat("_o"), i);
        i = i + 1;
    }
    map
}

/// Writes the declarations of all structures, each after those that it needs.
pub fn emit_structs(list: &Vec<StructInfo>, target: Target) -> (r: String)
    requires
        target.gcc ==> forall|k: int|
            0 <= k < list@.len() ==> #[trigger] has_root(
                struct_set(script_json::views(list@)),
                k,
            ),
    ensures
        r@ == declarations(script_json::views(list@), target),
{
    let map = index_by_name(list);
    let ghost d = struct_set(script_json::views(list@));
    let len: usize = list.len();
    proof {
        lemma_index_fits(d.list, len as nat);
    }
    let mut cache: HashSet<usize> = HashSet::new();
    let mut stubs = NameSet::new();
    let mut buf = String::new();
    let mut i: usize = 0;
    assert(buf@ =~= Seq::<char>::empty());
    while i < len
        invariant
            len == list@.len(),
            d == struct_set(script_json::views(list@)),
            is_set(d, list@, map@),
            set_fits(d),
            target.gcc ==> forall|k: int| 0 <= k < list@.len() ==> #[trigger] has_root(d, k),
            i <= len,
            is_written(d, target, declared_upto(d, i as nat), cache@, stubs@, buf@),
        decreases len - i,
    {
        proof {
            lemma_missing_at_most(cache@, len as nat);
        }
        recursion_struct_info(
            i,
            list,
            &map,
            &mut cache,
            &mut stubs,
            &mut buf,
            target,
            Ghost(d),
            Ghost(declared_upto(d, i as nat)),
            Ghost(len as nat),
        );
        i = i + 1;
    }
    buf
}

} // verus!
