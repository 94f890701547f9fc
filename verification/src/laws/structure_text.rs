//! What the text of a structure declares.
use crate::laws::texts;
use crate::laws::texts::flat;
use crate::numeral;
use crate::output::struct_info::{StructFieldInfoModel, StructInfoModel, StructRGCTXInfoModel};
use crate::output::struct_text;
use crate::output::struct_text::{Declaration, StructSet, Target};
use crate::text;
use vstd::prelude::*;
use vstd::string::*;

verus! {

/// The C type is one that needs no `struct` in front: one of the language or of `stdint.h`, or a
/// character of the runtime, or a pointer to one of these.
pub open spec fn is_scalar(t: Seq<char>) -> bool {
    let base = text::trimmed_end_of(t, "*"@);
    let scalars = seq![
        "void"@,
        "bool"@,
        "char"@,
        "int8_t"@,
        "uint8_t"@,
        "int16_t"@,
        "uint16_t"@,
        "int32_t"@,
        "uint32_t"@,
        "int64_t"@,
        "uint64_t"@,
        "float"@,
        "double"@,
        "intptr_t"@,
        "uintptr_t"@,
        "Il2CppChar"@,
    ];
    exists|i: int| 0 <= i < 16 && #[trigger] scalars[i] == base
}

proof fn lemma_scalar(t: Seq<char>)
    ensures
        struct_text::needs_prefix(t) == !is_scalar(t),
{
    let base = text::trimmed_end_of(t, "*"@);
    let scalars = seq![
        "void"@,
        "bool"@,
        "char"@,
        "int8_t"@,
        "uint8_t"@,
        "int16_t"@,
        "uint16_t"@,
        "int32_t"@,
        "uint32_t"@,
        "int64_t"@,
        "uint64_t"@,
        "float"@,
        "double"@,
        "intptr_t"@,
        "uintptr_t"@,
        "Il2CppChar"@,
    ];
    assert(scalars[0] == "void"@);
    assert(scalars[1] == "bool"@);
    assert(scalars[2] == "char"@);
    assert(scalars[3] == "int8_t"@);
    assert(scalars[4] == "uint8_t"@);
    assert(scalars[5] == "int16_t"@);
    assert(scalars[6] == "uint16_t"@);
    assert(scalars[7] == "int32_t"@);
    assert(scalars[8] == "uint32_t"@);
    assert(scalars[9] == "int64_t"@);
    assert(scalars[10] == "uint64_t"@);
    assert(scalars[11] == "float"@);
    assert(scalars[12] == "double"@);
    assert(scalars[13] == "intptr_t"@);
    assert(scalars[14] == "uintptr_t"@);
    assert(scalars[15] == "Il2CppChar"@);
}

/// The declaration of a field: its type, behind `struct` where it is a structure, and its name.
pub open spec fn member(f: StructFieldInfoModel) -> Seq<char> {
    "\t"@ + (if f.is_custom_type && !is_scalar(f.field_type_name) {
        "struct "@
    } else {
        Seq::empty()
    }) + f.field_type_name + " "@ + f.field_name + ";\n"@
}

/// The declarations of some fields, one after the other.
pub open spec fn members(fields: Seq<StructFieldInfoModel>) -> Seq<char> {
    flat(fields.len() as int, |i: int| member(fields[i]))
}

/// The fields of a structure are declared in order, each on a line of its own.
pub proof fn law_members(fields: Seq<StructFieldInfoModel>)
    ensures
        struct_text::field_lines(fields) == members(fields),
    decreases fields.len(),
{
    if fields.len() > 0 {
        let rest = fields.drop_last();
        law_members(rest);
        texts::lemma_flat_same(
            rest.len() as int,
            |i: int| member(rest[i]),
            |i: int| member(fields[i]),
        );
        let f = fields.last();
        lemma_scalar(f.field_type_name);
        reveal_strlit("\t");
        reveal_strlit("struct ");
        reveal_strlit("\tstruct ");
        assert(struct_text::field_line(f) =~= member(f));
    }
}

/// The name of an entry, or a stand-in.
pub open spec fn known(label: Option<Seq<char>>) -> Seq<char> {
    match label {
        Some(s) => s,
        None => "unknown"@,
    }
}

/// The declaration of the entry in place `i` of a runtime generic context: a type, a class or a
/// method, by the lower 32 bits of its kind. Other kinds have none.
pub open spec fn context_member(i: int, e: StructRGCTXInfoModel) -> Seq<char> {
    let kind = e.rgctx_type as int % 0x1_0000_0000;
    let place = numeral::dec(i as nat);
    if kind == 1 {
        "\tIl2CppType* _"@ + place + "_"@ + known(e.type_label) + ";\n"@
    } else if kind == 2 {
        "\tIl2CppClass* _"@ + place + "_"@ + known(e.class_label) + ";\n"@
    } else if kind == 3 {
        "\tMethodInfo* _"@ + place + "_"@ + known(e.method_label) + ";\n"@
    } else {
        Seq::empty()
    }
}

/// A runtime generic context is declared as a structure of its entries in order, if it has any.
pub proof fn law_context(name: Seq<char>, entries: Seq<StructRGCTXInfoModel>)
    ensures
        struct_text::context_lines(entries) == flat(
            entries.len() as int,
            |i: int| context_member(i, entries[i]),
        ),
        entries.len() == 0 ==> struct_text::context_struct(name, entries).len() == 0,
        entries.len() > 0 ==> struct_text::context_struct(name, entries) == "struct "@ + name
            + "_RGCTXs {\n"@ + flat(
            entries.len() as int,
            |i: int| context_member(i, entries[i]),
        ) + "};\n"@,
    decreases entries.len(),
{
    if entries.len() > 0 {
        let rest = entries.drop_last();
        law_context(name, rest);
        texts::lemma_flat_same(
            rest.len() as int,
            |i: int| context_member(i, rest[i]),
            |i: int| context_member(i, entries[i]),
        );
        let e = entries.last();
        assert(struct_text::context_line((entries.len() - 1) as nat, e) =~= context_member(
            entries.len() - 1,
            e,
        ));
    }
}

/// The table of virtual methods is declared as a structure of its slots in order, each with its
/// number and the name of its method, if it has any.
pub proof fn law_slots(name: Seq<char>, slots: Seq<Option<Seq<char>>>)
    ensures
        struct_text::slot_lines(slots) == flat(
            slots.len() as int,
            |i: int|
                "\tVirtualInvokeData _"@ + numeral::dec(i as nat) + "_"@ + known(slots[i])
                    + ";\n"@,
        ),
        slots.len() == 0 ==> struct_text::vtable_struct(name, slots).len() == 0,
        slots.len() > 0 ==> struct_text::vtable_struct(name, slots) == "struct "@ + name
            + "_VTable {\n"@ + flat(
            slots.len() as int,
            |i: int|
                "\tVirtualInvokeData _"@ + numeral::dec(i as nat) + "_"@ + known(slots[i])
                    + ";\n"@,
        ) + "};\n"@,
    decreases slots.len(),
{
    if slots.len() > 0 {
        let rest = slots.drop_last();
        law_slots(name, rest);
        let line = |i: int|
            "\tVirtualInvokeData _"@ + numeral::dec(i as nat) + "_"@ + known(slots[i]) + ";\n"@;
        texts::lemma_flat_same(
            rest.len() as int,
            |i: int|
                "\tVirtualInvokeData _"@ + numeral::dec(i as nat) + "_"@ + known(rest[i])
                    + ";\n"@,
            line,
        );
        assert(struct_text::slot_line((slots.len() - 1) as nat, slots.last()) =~= line(
            slots.len() - 1,
        ));
    }
}

/// A class is declared as the two parts of all classes, with its static fields and its context
/// between them and its table of virtual methods behind them. What it does not have is declared as
/// all classes have it.
pub open spec fn class_text(info: StructInfoModel) -> Seq<char> {
    let name = info.name;
    "struct "@ + name + "_c {\n"@ + "\tIl2CppClass_1 _1;\n"@ + (if info.static_fields.len() == 0 {
        "\tvoid* static_fields;\n"@
    } else {
        "\tstruct "@ + name + "_StaticFields* static_fields;\n"@
    }) + (if info.rgctxs.len() == 0 {
        "\tIl2CppRGCTXData* rgctx_data;\n"@
    } else {
        "\t"@ + name + "_RGCTXs* rgctx_data;\n"@
    }) + "\tIl2CppClass_2 _2;\n"@ + (if info.vtable_methods.len() == 0 {
        "\tVirtualInvokeData vtable[32];\n"@
    } else {
        "\t"@ + name + "_VTable vtable;\n"@
    }) + "};\n"@
}

/// An object is declared as its fields, behind the pointers to its class and its monitor; a value
/// has its fields alone.
pub open spec fn object_text(info: StructInfoModel) -> Seq<char> {
    let name = info.name;
    "struct "@ + name + "_o {\n"@ + (if info.is_value_type {
        Seq::empty()
    } else {
        "\t"@ + name + "_c *klass;\n"@ + "\tvoid *monitor;\n"@
    }) + "\t"@ + name + "_Fields fields;\n"@ + "};\n"@
}

/// The alignment of the fields of objects in images for Windows: that of a pointer.
pub open spec fn alignment(info: StructInfoModel, target: Target) -> Seq<char> {
    if !target.is_pe || info.is_value_type {
        Seq::empty()
    } else if target.is_32bit {
        "__declspec(align(4)) "@
    } else {
        "__declspec(align(8)) "@
    }
}

/// The fields of a structure are declared behind those of its parent: by inheritance, or where the
/// compiler has none by repeating them.
pub open spec fn fields_text(d: StructSet, target: Target, i: int) -> Seq<char> {
    let info = d.list[i];
    let name = info.name;
    (if !target.gcc && info.parent is Some {
        "struct "@ + name + "_Fields : "@ + info.parent->0 + "_Fields {\n"@
    } else {
        "struct "@ + alignment(info, target) + name + "_Fields {\n"@
    }) + (if target.gcc {
        struct_text::inherited(d, i)
    } else {
        Seq::empty()
    }) + members(info.fields) + "};\n"@
}

/// The static fields of a structure, if it has any, are declared as a structure of their own.
pub open spec fn static_text(info: StructInfoModel) -> Seq<char> {
    if info.static_fields.len() == 0 {
        Seq::empty()
    } else {
        "struct "@ + info.name + "_StaticFields {\n"@ + members(info.static_fields) + "};\n"@
    }
}

/// A structure is declared in this order: its fields, its context, its table of virtual methods,
/// its class, its object, and its static fields.
pub proof fn law_own_text(d: StructSet, target: Target, i: int)
    ensures
        ({
            let info = d.list[i];
            struct_text::own_text(d, target, i) == fields_text(d, target, i)
                + struct_text::context_struct(info.name, info.rgctxs) + struct_text::vtable_struct(
                info.name,
                info.vtable_methods,
            ) + class_text(info) + object_text(info) + static_text(info)
        }),
{
    let info = d.list[i];
    law_members(info.fields);
    law_members(info.static_fields);
    lemma_class(info);
    lemma_object(info);
    lemma_fields(d, target, i);
}

proof fn lemma_class(info: StructInfoModel)
    ensures
        struct_text::class_struct(info) == class_text(info),
{
    reveal_strlit("_c {\n\tIl2CppClass_1 _1;\n");
    reveal_strlit("_c {\n");
    reveal_strlit("\tIl2CppClass_1 _1;\n");
    assert("_c {\n\tIl2CppClass_1 _1;\n"@ =~= "_c {\n"@ + "\tIl2CppClass_1 _1;\n"@);
    assert(struct_text::class_struct(info) =~= class_text(info));
}

proof fn lemma_object(info: StructInfoModel)
    ensures
        struct_text::object_struct(info) == object_text(info),
{
    reveal_strlit("_c *klass;\n\tvoid *monitor;\n");
    reveal_strlit("_c *klass;\n");
    reveal_strlit("\tvoid *monitor;\n");
    reveal_strlit("_Fields fields;\n};\n");
    reveal_strlit("_Fields fields;\n");
    reveal_strlit("};\n");
    assert("_c *klass;\n\tvoid *monitor;\n"@ =~= "_c *klass;\n"@ + "\tvoid *monitor;\n"@);
    assert("_Fields fields;\n};\n"@ =~= "_Fields fields;\n"@ + "};\n"@);
    assert(struct_text::object_struct(info) =~= object_text(info));
}

proof fn lemma_fields(d: StructSet, target: Target, i: int)
    ensures
        struct_text::fields_struct(d, target, i) == fields_text(d, target, i),
{
    let info = d.list[i];
    law_members(info.fields);
    reveal_strlit("struct ");
    reveal_strlit("__declspec(align(4)) ");
    reveal_strlit("__declspec(align(8)) ");
    reveal_strlit("struct __declspec(align(4)) ");
    reveal_strlit("struct __declspec(align(8)) ");
    assert("struct __declspec(align(4)) "@ =~= "struct "@ + "__declspec(align(4)) "@);
    assert("struct __declspec(align(8)) "@ =~= "struct "@ + "__declspec(align(8)) "@);
    assert("struct "@ + Seq::<char>::empty() =~= "struct "@);
    assert(struct_text::fields_struct(d, target, i) =~= fields_text(d, target, i));
}

/// The parent of a structure is the one that has its name.
pub open spec fn is_parent(d: StructSet, i: int, j: int) -> bool {
    d.list[i].parent matches Some(name) && d.index.contains_key(name + "_o"@) && d.index[name
        + "_o"@] == j
}

/// Where parents are repeated, the fields of the parent of a structure come last, behind those that
/// the parent repeats; a structure without a parent repeats nothing.
pub proof fn law_inherited(d: StructSet, i: int, j: int)
    requires
        struct_text::has_root(d, i),
    ensures
        is_parent(d, i, j) ==> struct_text::inherited(d, i) == struct_text::inherited(d, j)
            + members(d.list[j].fields),
        !(exists|k: int| is_parent(d, i, k)) ==> struct_text::inherited(d, i).len() == 0,
{
    let n = choose|n: nat| struct_text::parents_end(d, i, n);
    if is_parent(d, i, j) {
        assert(struct_text::parent_of(d, i) == Some(j));
        assert(struct_text::parents_end(d, j, (n - 1) as nat));
        let m = choose|m: nat| struct_text::parents_end(d, j, m);
        lemma_inherited(d, j, (n - 1) as nat, m);
        law_members(d.list[j].fields);
    } else if !(exists|k: int| is_parent(d, i, k)) {
        if let Some(k) = struct_text::parent_of(d, i) {
            assert(is_parent(d, i, k));
        }
    }
}

proof fn lemma_inherited(d: StructSet, i: int, a: nat, b: nat)
    requires
        struct_text::parents_end(d, i, a),
        struct_text::parents_end(d, i, b),
    ensures
        struct_text::inherited_within(d, i, a) == struct_text::inherited_within(d, i, b),
    decreases a,
{
    if let Some(j) = struct_text::parent_of(d, i) {
        lemma_inherited(d, j, (a - 1) as nat, (b - 1) as nat);
    }
}

/// Structures are found by their object names; where two have the same name, the last one.
pub proof fn law_index(list: Seq<StructInfoModel>, n: nat)
    requires
        n <= list.len() <= usize::MAX,
    ensures
        forall|i: int|
            0 <= i < n ==> struct_text::index_upto(list, n).contains_key(
                (#[trigger] list[i]).name + "_o"@,
            ) && struct_text::index_upto(list, n)[list[i].name + "_o"@] >= i,
        forall|k: Seq<char>| #[trigger]
            struct_text::index_upto(list, n).contains_key(k) ==> struct_text::index_upto(list, n)[k]
                < n && list[struct_text::index_upto(list, n)[k] as int].name + "_o"@ == k,
    decreases n,
{
    if n > 0 {
        law_index(list, (n - 1) as nat);
    }
}

/// A value type that no structure describes is declared as a structure of one byte.
pub proof fn law_stub(d: StructSet, target: Target, name: Seq<char>)
    ensures
        struct_text::declaration_text(d, target, Declaration::Stub(name)) == "struct "@ + name
            + " {\n"@ + "\tuint8_t _stub;\n"@ + "};\n"@,
{
    reveal_strlit(" {\n\tuint8_t _stub;\n};\n");
    reveal_strlit(" {\n");
    reveal_strlit("\tuint8_t _stub;\n");
    reveal_strlit("};\n");
    assert(" {\n\tuint8_t _stub;\n};\n"@ =~= " {\n"@ + "\tuint8_t _stub;\n"@ + "};\n"@);
    assert(struct_text::declaration_text(d, target, Declaration::Stub(name)) =~= "struct "@ + name
        + " {\n"@ + "\tuint8_t _stub;\n"@ + "};\n"@);
}

/// Structures are declared as a set that finds each by its object name.
pub proof fn law_struct_set(list: Seq<StructInfoModel>, target: Target)
    ensures
        struct_text::struct_set(list).list == list,
        struct_text::struct_set(list).index == struct_text::index_upto(list, list.len()),
        struct_text::declarations(list, target) == struct_text::order_text(
            struct_text::struct_set(list),
            target,
            struct_text::declaration_order(list),
        ),
{
}

/// One of the fields is stored as the structure of a type.
pub open spec fn stores(fields: Seq<StructFieldInfoModel>, name: Seq<char>) -> bool {
    exists|k: int|
        0 <= k < fields.len() && (#[trigger] fields[k]).is_value_type && fields[k].field_type_name
            == name
}

/// One of the fields or of the static fields of a structure is stored as the structure of a type.
pub open spec fn keeps(info: StructInfoModel, name: Seq<char>) -> bool {
    stores(info.fields, name) || stores(info.static_fields, name)
}

/// A structure needs its parent, and the structures that its fields and its static fields are
/// stored as; of those that are not known it needs a stand-in.
pub proof fn law_needs(d: StructSet, i: usize, j: usize, name: Seq<char>)
    ensures
        struct_text::needs(d, i, j) <==> is_parent(d, i as int, j as int) || exists|n: Seq<char>|
            #[trigger]
            keeps(d.list[i as int], n) && d.index.contains_key(n) && d.index[n] == j,
        struct_text::needs_stub(d, i, name) <==> !d.index.contains_key(name) && keeps(
            d.list[i as int],
            name,
        ),
{
    let info = d.list[i as int];
    lemma_values_need(d, info.fields, j);
    lemma_values_need(d, info.static_fields, j);
    if struct_text::values_need(d, info.fields, j) {
        let n = choose|n: Seq<char>| #[trigger]
            stores(info.fields, n) && d.index.contains_key(n) && d.index[n] == j;
        assert(keeps(info, n));
    }
    if struct_text::values_need(d, info.static_fields, j) {
        let n = choose|n: Seq<char>| #[trigger]
            stores(info.static_fields, n) && d.index.contains_key(n) && d.index[n] == j;
        assert(keeps(info, n));
    }
}

proof fn lemma_values_need(d: StructSet, fields: Seq<StructFieldInfoModel>, j: usize)
    ensures
        struct_text::values_need(d, fields, j) <==> exists|n: Seq<char>| #[trigger]
            stores(fields, n) && d.index.contains_key(n) && d.index[n] == j,
{
    if struct_text::values_need(d, fields, j) {
        let k = choose|k: int|
            0 <= k < fields.len() && (#[trigger] fields[k]).is_value_type && d.index.contains_key(
                fields[k].field_type_name,
            ) && d.index[fields[k].field_type_name] == j;
        assert(stores(fields, fields[k].field_type_name));
    }
    if exists|n: Seq<char>| #[trigger]
        stores(fields, n) && d.index.contains_key(n) && d.index[n] == j {
        let n = choose|n: Seq<char>| #[trigger]
            stores(fields, n) && d.index.contains_key(n) && d.index[n] == j;
        let k = choose|k: int|
            0 <= k < fields.len() && (#[trigger] fields[k]).is_value_type
                && fields[k].field_type_name == n;
        assert(fields[k].is_value_type);
    }
}

/// Structures are declared in the order of their list, each behind what it needs: first its parent,
/// then what its fields are stored as in the order of the fields, then what its static fields are
/// stored as. A structure that is declared or being declared is not declared again.
pub proof fn law_declared(
    d: StructSet,
    list: Seq<StructInfoModel>,
    p: struct_text::Declared,
    i: usize,
    n: nat,
    k: nat,
)
    requires
        n > 0,
    ensures
        struct_text::declaration_order(list) == struct_text::declared_upto(
            struct_text::struct_set(list),
            list.len(),
        ).order,
        struct_text::declared_upto(d, 0).order.len() == 0,
        struct_text::declared_upto(d, k + 1) == struct_text::declared(
            d,
            struct_text::declared_upto(d, k),
            k as usize,
            d.list.len(),
        ),
        ({
            let info = d.list[i as int];
            let m = (n - 1) as nat;
            let begun = struct_text::Declared { places: p.places.insert(i), order: p.order };
            let parent = choose|j: usize| is_parent(d, i as int, j as int);
            let a = if exists|j: usize| is_parent(d, i as int, j as int) {
                struct_text::declared(d, begun, parent, m)
            } else {
                begun
            };
            let b = struct_text::with_values(d, a, info.fields, info.fields.len(), m);
            let c = struct_text::with_values(
                d,
                b,
                info.static_fields,
                info.static_fields.len(),
                m,
            );
            &&& p.places.contains(i) ==> struct_text::declared(d, p, i, n) == p
            &&& !p.places.contains(i) ==> struct_text::declared(d, p, i, n) == (
            struct_text::Declared {
                places: c.places,
                order: c.order.push(Declaration::Of(i)),
            })
        }),
{
    if let Some(j) = struct_text::parent_of(d, i as int) {
        assert(is_parent(d, i as int, (j as usize) as int));
    }
    if exists|j: usize| is_parent(d, i as int, j as int) {
        let parent = choose|j: usize| is_parent(d, i as int, j as int);
        assert(struct_text::parent_of(d, i as int) == Some(parent as int));
    }
}

/// Of the fields in order, one that is stored as a structure has that declared, or a stand-in where
/// it is not known and has none yet; others need nothing.
pub proof fn law_with_values(
    d: StructSet,
    p: struct_text::Declared,
    fields: Seq<StructFieldInfoModel>,
    k: nat,
    n: nat,
)
    requires
        k < fields.len(),
    ensures
        struct_text::with_values(d, p, fields, 0, n) == p,
        ({
            let q = struct_text::with_values(d, p, fields, k, n);
            let r = struct_text::with_values(d, p, fields, k + 1, n);
            let f = fields[k as int];
            let known = d.index.contains_key(f.field_type_name);
            let stub = Declaration::Stub(f.field_type_name);
            &&& !f.is_value_type ==> r == q
            &&& f.is_value_type && known ==> r == struct_text::declared(
                d,
                q,
                d.index[f.field_type_name],
                n,
            )
            &&& f.is_value_type && !known && q.order.contains(stub) ==> r == q
            &&& f.is_value_type && !known && !q.order.contains(stub) ==> r == (
            struct_text::Declared { places: q.places, order: q.order.push(stub) })
        }),
{
}

} // verus!
