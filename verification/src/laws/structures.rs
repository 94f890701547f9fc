//! What the structures of an image hold.
use crate::executor::Il2CppExecutor;
use crate::il2cpp::base;
use crate::il2cpp::base::Il2Cpp;
use crate::il2cpp::field_layout;
use crate::il2cpp::metadata::Metadata;
use crate::il2cpp::structures::{
    Il2CppGenericContext, Il2CppRGCTXDefinition, Il2CppType, Il2CppTypeDefinition,
};
use crate::laws::layout::{is_literal, is_static};
use crate::laws::texts::{flat_list, list_of};
use crate::laws::words;
use crate::names::{NameStyle, Spelling};
use crate::numeral;
use crate::output::c_types;
use crate::output::c_types::{CStyle, Node, Scene};
use crate::output::struct_info;
use crate::output::struct_info::{Fragments, StructFieldInfoModel};
use crate::output::struct_names;
use crate::output::type_checks;
use vstd::prelude::*;
use vstd::string::*;

verus! {

// Fields.

/// The type of a field.
pub open spec fn field_type(s: Scene, field: int) -> Il2CppType {
    s.il2cpp.types@[s.m.field_defs@[field].type_index as int]
}

/// The field is stored in objects.
pub open spec fn in_objects(s: Scene, field: int) -> bool {
    !is_literal(field_type(s, field).attrs) && !is_static(field_type(s, field).attrs)
}

/// The field is stored with the type.
pub open spec fn in_type(s: Scene, field: int) -> bool {
    !is_literal(field_type(s, field).attrs) && is_static(field_type(s, field).attrs)
}

/// The first `n` fields of a type definition.
pub open spec fn first_fields(def: Il2CppTypeDefinition, n: nat) -> Seq<int> {
    Seq::new(n, |i: int| def.field_start + i)
}

/// The spelled name of a field.
pub open spec fn spelled_name(s: Scene, spelling: Spelling, field: int) -> Seq<char> {
    spelling(
        match s.m.field_defs@[field].name {
            Ok(name) => name@,
            Err(_) => "field"@,
        },
        NameStyle::Cpp,
    )
}

/// The name is the given one, or the given one with a number behind it.
pub open spec fn is_numbered(x: Seq<char>, name: Seq<char>) -> bool {
    x == name || exists|k: nat| x == name + "_"@ + #[trigger] numeral::dec(k)
}

/// What a structure says of a field: its C type, its name, whether it is stored as a structure, and
/// whether its type is one.
pub open spec fn describes(
    s: Scene,
    spelling: Spelling,
    ctx: Option<Il2CppGenericContext>,
    special: bool,
    field: int,
    info: StructFieldInfoModel,
) -> bool {
    let t = field_type(s, field);
    &&& info.field_type_name == c_types::c_type(s, CStyle::Header, Node { t, ctx, special })
    &&& info.is_value_type == type_checks::is_by_value(s, t, ctx)
    &&& info.is_custom_type == type_checks::is_custom(s, t, ctx)
    &&& is_numbered(info.field_name, spelled_name(s, spelling, field))
}

/// The list describes the fields in order. A name that no field before has stays as it is.
pub open spec fn are_described(
    s: Scene,
    spelling: Spelling,
    ctx: Option<Il2CppGenericContext>,
    special: bool,
    fields: Seq<int>,
    list: Seq<StructFieldInfoModel>,
) -> bool {
    &&& list.len() == fields.len()
    &&& forall|k: int|
        0 <= k < list.len() ==> describes(
            s,
            spelling,
            ctx,
            special,
            fields[k],
            #[trigger] list[k],
        )
    &&& forall|k: int|
        0 <= k < list.len() && !name_taken(list, k, spelled_name(s, spelling, fields[k])) ==> (
        #[trigger] list[k]).field_name == spelled_name(s, spelling, fields[k])
}

/// One of the first `k` fields has the name.
pub open spec fn name_taken(list: Seq<StructFieldInfoModel>, k: int, name: Seq<char>) -> bool {
    exists|j: int| 0 <= j < k && (#[trigger] list[j]).field_name == name
}

proof fn lemma_described_push(
    s: Scene,
    spelling: Spelling,
    ctx: Option<Il2CppGenericContext>,
    special: bool,
    fields: Seq<int>,
    list: Seq<StructFieldInfoModel>,
    field: int,
    info: StructFieldInfoModel,
)
    requires
        are_described(s, spelling, ctx, special, fields, list),
        describes(s, spelling, ctx, special, field, info),
        !name_taken(list, list.len() as int, spelled_name(s, spelling, field))
            ==> info.field_name == spelled_name(s, spelling, field),
    ensures
        are_described(s, spelling, ctx, special, fields.push(field), list.push(info)),
{
    let f = fields.push(field);
    let l = list.push(info);
    assert forall|k: int| 0 <= k < l.len() implies describes(
        s,
        spelling,
        ctx,
        special,
        f[k],
        #[trigger] l[k],
    ) by {
        if k < list.len() {
            assert(l[k] == list[k]);
        }
    }
    assert forall|k: int|
        0 <= k < l.len() && !name_taken(l, k, spelled_name(s, spelling, f[k])) implies (
    #[trigger] l[k]).field_name == spelled_name(s, spelling, f[k]) by {
        let name = spelled_name(s, spelling, f[k]);
        if name_taken(list, k, name) {
            let j = choose|j: int| 0 <= j < k && (#[trigger] list[j]).field_name == name;
            assert(l[j].field_name == name);
        }
        if k < list.len() {
            assert(l[k] == list[k]);
        }
    }
}

spec fn names_known(list: Seq<StructFieldInfoModel>, names: Set<Seq<char>>) -> bool {
    forall|x: Seq<char>| #[trigger] names.contains(x) <==> name_taken(list, list.len() as int, x)
}

proof fn lemma_names_push(
    list: Seq<StructFieldInfoModel>,
    names: Set<Seq<char>>,
    info: StructFieldInfoModel,
)
    requires
        names_known(list, names),
    ensures
        names_known(list.push(info), names.insert(info.field_name)),
{
    let l = list.push(info);
    assert forall|x: Seq<char>| #[trigger] names.insert(info.field_name).contains(x)
        <==> name_taken(l, l.len() as int, x) by {
        if names.contains(x) {
            let j = choose|j: int|
                0 <= j < list.len() && (#[trigger] list[j]).field_name == x;
            assert(l[j].field_name == x);
        }
        if x == info.field_name {
            assert(l[list.len() as int].field_name == x);
        }
        if name_taken(l, l.len() as int, x) {
            let j = choose|j: int| 0 <= j < l.len() && (#[trigger] l[j]).field_name == x;
            if j < list.len() {
                assert(list[j].field_name == x);
            }
        }
    }
}

proof fn lemma_field_attrs(attrs: u32)
    ensures
        field_layout::has_attr(attrs, crate::il2cpp::enums::FIELD_STATIC) == is_static(attrs),
        field_layout::has_attr(attrs, crate::il2cpp::enums::FIELD_LITERAL) == is_literal(attrs),
{
    assert((attrs & 0x10 != 0) == ((attrs / 0x10) % 2 == 1)) by (bit_vector);
    assert((attrs & 0x40 != 0) == ((attrs / 0x40) % 2 == 1)) by (bit_vector);
}

/// The fields of a structure are those of its type definition that are stored in objects, and its
/// static fields those that are stored with the type, in order. Constants are in neither list.
pub proof fn law_fields(
    s: Scene,
    spelling: Spelling,
    def: Il2CppTypeDefinition,
    ctx: Option<Il2CppGenericContext>,
    special: bool,
    arrays: Fragments,
    n: nat,
)
    ensures
        ({
            let lists = struct_info::field_lists(s, spelling, def, ctx, special, arrays, n);
            &&& are_described(
                s,
                spelling,
                ctx,
                special,
                first_fields(def, n).filter(|i: int| in_objects(s, i)),
                lists.fields,
            )
            &&& are_described(
                s,
                spelling,
                ctx,
                special,
                first_fields(def, n).filter(|i: int| in_type(s, i)),
                lists.static_fields,
            )
        }),
{
    lemma_fields(s, spelling, def, ctx, special, arrays, n);
}

proof fn lemma_fields(
    s: Scene,
    spelling: Spelling,
    def: Il2CppTypeDefinition,
    ctx: Option<Il2CppGenericContext>,
    special: bool,
    arrays: Fragments,
    n: nat,
)
    ensures
        ({
            let lists = struct_info::field_lists(s, spelling, def, ctx, special, arrays, n);
            &&& are_described(
                s,
                spelling,
                ctx,
                special,
                first_fields(def, n).filter(|i: int| in_objects(s, i)),
                lists.fields,
            )
            &&& are_described(
                s,
                spelling,
                ctx,
                special,
                first_fields(def, n).filter(|i: int| in_type(s, i)),
                lists.static_fields,
            )
            &&& names_known(lists.fields, lists.field_names)
            &&& names_known(lists.static_fields, lists.static_names)
        }),
    decreases n,
{
    reveal(Seq::filter);
    let lists = struct_info::field_lists(s, spelling, def, ctx, special, arrays, n);
    let all = first_fields(def, n);
    if n > 0 {
        let p = struct_info::field_lists(s, spelling, def, ctx, special, arrays, (n - 1) as nat);
        lemma_fields(s, spelling, def, ctx, special, arrays, (n - 1) as nat);
        let field = def.field_start + n - 1;
        assert(all.drop_last() =~= first_fields(def, (n - 1) as nat));
        assert(all.last() == field);
        let t = field_type(s, field);
        lemma_field_attrs(t.attrs);
        if !is_literal(t.attrs) {
            let used = if is_static(t.attrs) {
                p.static_names
            } else {
                p.field_names
            };
            let name = spelled_name(s, spelling, field);
            let info = StructFieldInfoModel {
                field_type_name: c_types::c_type(s, CStyle::Header, Node { t, ctx, special }),
                field_name: struct_names::unique_name(name, used),
                is_value_type: type_checks::is_by_value(s, t, ctx),
                is_custom_type: type_checks::is_custom(s, t, ctx),
            };
            assert(describes(s, spelling, ctx, special, field, info)) by {
                if used.contains(name) {
                    let k = choose|k: nat| struct_names::is_first_free(name, used, k);
                    assert(info.field_name == name + "_"@ + numeral::dec(k));
                }
            }
            if is_static(t.attrs) {
                lemma_described_push(
                    s,
                    spelling,
                    ctx,
                    special,
                    all.drop_last().filter(|i: int| in_type(s, i)),
                    p.static_fields,
                    field,
                    info,
                );
                lemma_names_push(p.static_fields, p.static_names, info);
            } else {
                lemma_described_push(
                    s,
                    spelling,
                    ctx,
                    special,
                    all.drop_last().filter(|i: int| in_objects(s, i)),
                    p.fields,
                    field,
                    info,
                );
                lemma_names_push(p.fields, p.field_names, info);
            }
        }
    }
}

// Arrays.

/// The structure of an array: the object that it is, its bounds, its length, and its elements.
pub open spec fn array_text(s: Scene, element: Il2CppType, ctx: Option<Il2CppGenericContext>) -> Seq<
    char,
> {
    "struct "@ + c_types::struct_name(s.il2cpp, s.names, element, ctx) + "_array {\n"@
        + "\tIl2CppObject obj;\n"@ + "\tIl2CppArrayBounds *bounds;\n"@
        + "\til2cpp_array_size_t max_length;\n"@ + "\t"@ + c_types::c_type(
        s,
        CStyle::Header,
        Node { t: element, ctx, special: false },
    ) + " m_Items[65535];\n"@ + "};\n"@
}

/// The field is stored and is an array of the type `element`.
pub open spec fn is_array_field(s: Scene, field: int, element: Il2CppType) -> bool {
    let t = field_type(s, field);
    &&& !is_literal(t.attrs)
    &&& t.type_enum == 0x14 || t.type_enum == 0x1d
    &&& 0 < t.datapoint < s.il2cpp.types@.len()
    &&& element == s.il2cpp.types@[t.datapoint as int]
}

/// The name of the structure of an array.
pub open spec fn array_name(s: Scene, element: Il2CppType, ctx: Option<Il2CppGenericContext>) -> Seq<
    char,
> {
    c_types::struct_name(s.il2cpp, s.names, element, ctx) + "_array"@
}

/// One of the first `n` fields of a type definition is an array under the name with the text.
pub open spec fn array_found(
    s: Scene,
    def: Il2CppTypeDefinition,
    ctx: Option<Il2CppGenericContext>,
    n: nat,
    name: Seq<char>,
    text: Seq<char>,
) -> bool {
    exists|i: int, element: Il2CppType|
        0 <= i < n && #[trigger] is_array_field(s, def.field_start + i, element) && name
            == array_name(s, element, ctx) && text == array_text(s, element, ctx)
}

/// Each array among the fields of a type definition has a structure. Structures that are there
/// already stay as they are, and no others are added.
pub proof fn law_arrays(
    s: Scene,
    spelling: Spelling,
    def: Il2CppTypeDefinition,
    ctx: Option<Il2CppGenericContext>,
    special: bool,
    arrays: Fragments,
    n: nat,
)
    ensures
        ({
            let r = struct_info::field_lists(s, spelling, def, ctx, special, arrays, n).arrays;
            &&& forall|i: int, element: Il2CppType|
                0 <= i < n && #[trigger] is_array_field(s, def.field_start + i, element)
                    ==> r.map.contains_key(array_name(s, element, ctx))
            &&& forall|k: Seq<char>| #[trigger]
                arrays.map.contains_key(k) ==> r.map.contains_key(k) && r.map[k] == arrays.map[k]
            &&& forall|k: Seq<char>| #[trigger]
                r.map.contains_key(k) && !arrays.map.contains_key(k) ==> array_found(
                    s,
                    def,
                    ctx,
                    n,
                    k,
                    r.map[k],
                )
        }),
    decreases n,
{
    if n > 0 {
        let m = (n - 1) as nat;
        law_arrays(s, spelling, def, ctx, special, arrays, m);
        let p = struct_info::field_lists(s, spelling, def, ctx, special, arrays, m).arrays;
        let r = struct_info::field_lists(s, spelling, def, ctx, special, arrays, n).arrays;
        let field = def.field_start + m;
        let t = field_type(s, field);
        lemma_field_attrs(t.attrs);
        if let Some(element) = c_types::inner_type(s.il2cpp, t) {
            lemma_array_text(s, element, ctx);
        }
        assert forall|k: Seq<char>| #[trigger]
            r.map.contains_key(k) && !arrays.map.contains_key(k) implies array_found(
            s,
            def,
            ctx,
            n,
            k,
            r.map[k],
        ) by {
            if p.map.contains_key(k) {
                let (i, element) = choose|i: int, element: Il2CppType|
                    0 <= i < m && #[trigger] is_array_field(s, def.field_start + i, element) && k
                        == array_name(s, element, ctx) && p.map[k] == array_text(s, element, ctx);
                assert(is_array_field(s, def.field_start + i, element));
            } else {
                let element = s.il2cpp.types@[t.datapoint as int];
                assert(is_array_field(s, def.field_start + m, element));
            }
        }
    }
}

proof fn lemma_array_text(s: Scene, element: Il2CppType, ctx: Option<Il2CppGenericContext>)
    ensures
        struct_info::array_class(s, element, ctx) == array_text(s, element, ctx),
{
    reveal_strlit("_array {\n");
    reveal_strlit("\tIl2CppObject obj;\n");
    reveal_strlit("\tIl2CppArrayBounds *bounds;\n");
    reveal_strlit("\til2cpp_array_size_t max_length;\n");
    reveal_strlit("\t");
    reveal_strlit(
        "_array {\n\tIl2CppObject obj;\n\tIl2CppArrayBounds *bounds;\n\til2cpp_array_size_t max_length;\n\t",
    );
    reveal_strlit(" m_Items[65535];\n};\n");
    reveal_strlit(" m_Items[65535];\n");
    reveal_strlit("};\n");
    assert("_array {\n\tIl2CppObject obj;\n\tIl2CppArrayBounds *bounds;\n\til2cpp_array_size_t max_length;\n\t"@
        =~= "_array {\n"@ + "\tIl2CppObject obj;\n"@ + "\tIl2CppArrayBounds *bounds;\n"@
        + "\til2cpp_array_size_t max_length;\n"@ + "\t"@);
    assert(" m_Items[65535];\n};\n"@ =~= " m_Items[65535];\n"@ + "};\n"@);
    assert(struct_info::array_class(s, element, ctx) =~= array_text(s, element, ctx));
}

// Parents and virtual methods.

/// The parent of a structure is that of the type that its type definition names, where that has a
/// structure and is not the base of all objects. Values and enumerations have none.
pub proof fn law_parent(il2cpp: Il2Cpp, def: Il2CppTypeDefinition, names: Map<usize, Seq<char>>)
    ensures
        ({
            let r = struct_info::parent_name(il2cpp, def, names);
            let t = il2cpp.types@[def.parent_index as int];
            &&& r is Some <==> !def.is_value_type && !def.is_enum && 0 <= def.parent_index
                < il2cpp.types@.len() && t.type_enum != 0x1c && names.contains_key(t.klass_index)
            &&& r matches Some(name) ==> name == names[t.klass_index]
        }),
{
}

/// An entry of a table of virtual methods gives the kind in its upper three bits and the number in
/// the others, since version 27 without the lowest one. The kind 6 stands for a method of an
/// instance, which stands for its definition; all others stand for a method definition.
pub proof fn law_vtable_method(m: Metadata, il2cpp: Il2Cpp, kind: int, number: int, low: int)
    requires
        0 <= kind < 8,
        0 <= low < 2,
        0 <= number < 0x1000_0000,
        m.version < words::version_number(27, 0) ==> low == 0,
    ensures
        ({
            let encoded = (kind * 0x2000_0000 + if m.version >= words::version_number(27, 0) {
                2 * number + low
            } else {
                number
            }) as u32;
            let r = struct_info::vtable_method(m, il2cpp, encoded);
            let specs = il2cpp.method_specs@;
            &&& kind != 6 && number < m.method_defs@.len() ==> r == Some(m.method_defs@[number])
            &&& kind != 6 && number >= m.method_defs@.len() ==> r is None
            &&& kind == 6 && number < specs.len() && specs[number].method_definition_index
                < m.method_defs@.len() ==> r == Some(
                m.method_defs@[specs[number].method_definition_index as int],
            )
            &&& kind == 6 && !(number < specs.len() && specs[number].method_definition_index
                < m.method_defs@.len()) ==> r is None
        }),
{
}

/// The entry puts a method into a slot: it stands for a method that has the slot, and the slot is
/// not the one that stands for none.
pub proof fn law_slot_entry(m: Metadata, il2cpp: Il2Cpp, i: int, k: nat)
    requires
        0 <= i,
    ensures
        ({
            let r = struct_info::slot_entry(m, il2cpp, i, k);
            let found = struct_info::vtable_method(m, il2cpp, m.vtable_methods@[i]);
            &&& r is Some <==> i < m.vtable_methods@.len() && k != 65535 && found is Some
                && found->0.slot == k
            &&& r is Some ==> r == found
        }),
{
}

/// The table of virtual methods of a type definition is made of all its entries in order, from its
/// first on. An entry puts the spelled name of its method into the slot of the method; the slots
/// before it that are not filled are empty, and the others stay.
pub proof fn law_vtable(
    m: Metadata,
    il2cpp: Il2Cpp,
    spelling: Spelling,
    def: Il2CppTypeDefinition,
    n: nat,
)
    ensures
        struct_info::vtable(m, il2cpp, spelling, def) == struct_info::vtable_upto(
            m,
            il2cpp,
            spelling,
            def,
            def.vtable_count as nat,
        ),
        struct_info::vtable_upto(m, il2cpp, spelling, def, 0).len() == 0,
        ({
            let before = struct_info::vtable_upto(m, il2cpp, spelling, def, n);
            let after = struct_info::vtable_upto(m, il2cpp, spelling, def, n + 1);
            let i = def.vtable_start + n;
            let found = struct_info::vtable_method(m, il2cpp, m.vtable_methods@[i]);
            let md = found->0;
            let fills = i < m.vtable_methods@.len() && found is Some && md.slot != 65535;
            &&& !fills ==> after == before
            &&& fills ==> {
                &&& after.len() == if md.slot < before.len() {
                    before.len()
                } else {
                    (md.slot + 1) as nat
                }
                &&& after[md.slot as int] == Some(
                    spelling(
                        match md.name {
                            Ok(name) => name@,
                            Err(_) => "unknown"@,
                        },
                        NameStyle::Cpp,
                    ),
                )
                &&& forall|k: int|
                    0 <= k < after.len() && k != md.slot ==> #[trigger] after[k] == if k
                        < before.len() {
                        before[k]
                    } else {
                        None
                    }
            }
        }),
{
    assert(def.vtable_start + (n + 1) - 1 == def.vtable_start + n);
}

// Runtime generic contexts.

/// The index that an entry of the context of a type refers to: that of its data record, or that of
/// its constraint, or the signed word at its address, whichever is there first.
pub open spec fn entry_index(il2cpp: Il2Cpp, def: Il2CppRGCTXDefinition) -> Option<int> {
    let at = base::offset_of(il2cpp.va_segments@, def.data_va);
    match (def.def_data, def.constrained_data) {
        (Some(i), _) => Some(i as int),
        (None, Some(i)) => Some(i as int),
        (None, None) => if def.data_va != 0 && at is Ok && at->Ok_0 + 4
            <= il2cpp.stream.bytes@.len() {
            Some(crate::laws::addresses::signed_word(il2cpp.stream.bytes@, at->Ok_0 as int))
        } else {
            None
        },
    }
}

/// The label of a type, if it exists.
pub open spec fn label_of_type(
    x: Il2CppExecutor,
    il2cpp: Il2Cpp,
    spelling: Spelling,
    i: Option<int>,
) -> Option<Seq<char>> {
    if i is Some && 0 <= i->0 < il2cpp.types@.len() {
        Some(spelling(x.type_names@[i->0]@, NameStyle::Cpp))
    } else {
        None
    }
}

/// The label of a method of an instance, if it exists.
pub open spec fn label_of_method(
    x: Il2CppExecutor,
    il2cpp: Il2Cpp,
    spelling: Spelling,
    i: Option<int>,
) -> Option<Seq<char>> {
    if i is Some && 0 <= i->0 < il2cpp.method_specs@.len() {
        Some(
            spelling(
                x.method_spec_names@[i->0].0@ + "."@ + x.method_spec_names@[i->0].1@,
                NameStyle::Cpp,
            ),
        )
    } else {
        None
    }
}

/// The entry of a context says what an index stands for: a type, a class or a method, by the lower
/// 32 bits of its kind.
pub open spec fn is_labelled(
    x: Il2CppExecutor,
    il2cpp: Il2Cpp,
    spelling: Spelling,
    kind: i64,
    index: Option<int>,
    e: struct_info::StructRGCTXInfoModel,
) -> bool {
    let k = kind as int % 0x1_0000_0000;
    &&& e.rgctx_type == kind
    &&& e.type_label == if k == 1 {
        label_of_type(x, il2cpp, spelling, index)
    } else {
        None
    }
    &&& e.class_label == if k == 2 {
        label_of_type(x, il2cpp, spelling, index)
    } else {
        None
    }
    &&& e.method_label == if k == 3 {
        label_of_method(x, il2cpp, spelling, index)
    } else {
        None
    }
}

/// The context of a type has one entry for each of its definitions, in order; a type without
/// definitions has none. That of a method refers to the indices of its definitions, of which -1
/// stands for none.
pub proof fn law_contexts(
    x: Il2CppExecutor,
    il2cpp: Il2Cpp,
    spelling: Spelling,
    td: usize,
    method: usize,
)
    ensures
        ({
            let r = struct_info::type_context(x, il2cpp, spelling, td);
            let defs = x.type_rgctxs@[td]@;
            &&& !x.type_rgctxs@.contains_key(td) ==> r.len() == 0
            &&& x.type_rgctxs@.contains_key(td) ==> r.len() == defs.len() && forall|i: int|
                0 <= i < defs.len() ==> is_labelled(
                    x,
                    il2cpp,
                    spelling,
                    defs[i].rgctx_type,
                    entry_index(il2cpp, defs[i]),
                    #[trigger] r[i],
                )
        }),
        ({
            let r = struct_info::method_context(x, il2cpp, spelling, method);
            let defs = x.method_rgctxs@[method]@;
            &&& !x.method_rgctxs@.contains_key(method) ==> r.len() == 0
            &&& x.method_rgctxs@.contains_key(method) ==> r.len() == defs.len() && forall|i: int|
                0 <= i < defs.len() ==> is_labelled(
                    x,
                    il2cpp,
                    spelling,
                    defs[i].rgctx_type,
                    if defs[i].type_index == -1 {
                        None
                    } else {
                        Some(defs[i].type_index as int)
                    },
                    #[trigger] r[i],
                )
        }),
{
    let r = struct_info::type_context(x, il2cpp, spelling, td);
    if x.type_rgctxs@.contains_key(td) {
        let defs = x.type_rgctxs@[td]@;
        assert forall|i: int| 0 <= i < defs.len() implies is_labelled(
            x,
            il2cpp,
            spelling,
            defs[i].rgctx_type,
            entry_index(il2cpp, defs[i]),
            #[trigger] r[i],
        ) by {
            if let Ok(at) = base::offset_of(il2cpp.va_segments@, defs[i].data_va) {
                words::law_words(il2cpp.stream.bytes@, at);
                words::law_signed(words::word32(il2cpp.stream.bytes@, at as int) as nat);
            }
        }
    }
}

// Names.

/// The name of the structure of a type definition is its spelled name, or that with a number behind
/// it.
pub proof fn law_structure_names(
    x: Il2CppExecutor,
    m: Metadata,
    spelling: Spelling,
    n: nat,
    td: usize,
)
    ensures
        struct_names::names_upto(x, m, spelling, n).0.contains_key(td) ==> exists|i: int|
            0 <= i < n && #[trigger] crate::il2cpp::metadata::type_jobs(m)[i].0 as usize == td
                && is_numbered(
                struct_names::names_upto(x, m, spelling, n).0[td],
                spelling(
                    x.type_def_names@[crate::il2cpp::metadata::type_jobs(m)[i].0]@,
                    NameStyle::Cpp,
                ),
            ),
    decreases n,
{
    if n > 0 {
        law_structure_names(x, m, spelling, (n - 1) as nat, td);
        let p = struct_names::names_upto(x, m, spelling, (n - 1) as nat);
        let k = crate::il2cpp::metadata::type_jobs(m)[n - 1].0;
        let name = spelling(x.type_def_names@[k]@, NameStyle::Cpp);
        if k as usize == td {
            let r = struct_names::unique_name(name, p.1);
            assert(is_numbered(r, name)) by {
                if p.1.contains(name) {
                    let j = choose|j: nat| struct_names::is_first_free(name, p.1, j);
                    assert(r == name + "_"@ + numeral::dec(j));
                }
            }
            assert(crate::il2cpp::metadata::type_jobs(m)[n - 1].0 as usize == td);
        }
    }
}

/// A name that is free stays as it is. One that is used gets an underscore and the smallest number
/// from 1 on that makes it free.
pub proof fn law_unique_name(name: Seq<char>, used: Set<Seq<char>>, k: nat)
    requires
        k >= 1,
        !used.contains(name + "_"@ + numeral::dec(k)),
        forall|j: nat| 1 <= j < k ==> used.contains(name + "_"@ + #[trigger] numeral::dec(j)),
    ensures
        !used.contains(name) ==> struct_names::unique_name(name, used) == name,
        used.contains(name) ==> struct_names::unique_name(name, used) == name + "_"@
            + numeral::dec(k),
{
    assert(struct_names::is_first_free(name, used, k)) by {
        assert forall|j: nat| 1 <= j < k implies used.contains(
            #[trigger] struct_names::numbered(name, j),
        ) by {
            assert(used.contains(name + "_"@ + numeral::dec(j)));
        }
    }
    let h = choose|h: nat| struct_names::is_first_free(name, used, h);
    assert(struct_names::is_first_free(name, used, h));
    if h < k {
        assert(used.contains(name + "_"@ + numeral::dec(h)));
    }
    if k < h {
        assert(used.contains(struct_names::numbered(name, k)));
    }
}

/// The generic classes that the stored fields of a type definition lead to are listed in the order of
/// the fields, where they are looked for.
pub proof fn law_reached(
    s: Scene,
    spelling: Spelling,
    def: Il2CppTypeDefinition,
    ctx: Option<Il2CppGenericContext>,
    special: bool,
    arrays: Fragments,
    n: nat,
)
    ensures
        struct_info::field_lists(s, spelling, def, ctx, special, arrays, n).reached == flat_list(
            n as int,
            |i: int|
                {
                    let t = field_type(s, def.field_start + i);
                    if special && !is_literal(t.attrs) {
                        list_of(c_types::class_reached(s, Node { t, ctx, special }))
                    } else {
                        Seq::empty()
                    }
                },
        ),
    decreases n,
{
    if n > 0 {
        law_reached(s, spelling, def, ctx, special, arrays, (n - 1) as nat);
        let p = struct_info::field_lists(s, spelling, def, ctx, special, arrays, (n - 1) as nat);
        let t = field_type(s, def.field_start + n - 1);
        assert(def.field_start + n - 1 == def.field_start + (n - 1));
        lemma_field_attrs(t.attrs);
        assert(p.reached + Seq::<u64>::empty() =~= p.reached);
        if let Some(class) = c_types::class_reached(s, Node { t, ctx, special }) {
            assert(p.reached.push(class) =~= p.reached + seq![class]);
        }
    }
}

/// One of the first `n` type definitions that images list was given the name.
pub open spec fn name_given(
    x: Il2CppExecutor,
    m: Metadata,
    spelling: Spelling,
    n: nat,
    name: Seq<char>,
) -> bool {
    exists|j: nat|
        j < n && #[trigger] struct_names::names_upto(x, m, spelling, j + 1).0[(
        crate::il2cpp::metadata::type_jobs(m)[j as int].0) as usize] == name
}

/// The type definitions are named in the order in which images list them. One whose spelled name was
/// not given before has that name, and others keep theirs.
pub proof fn law_structure_named(
    x: Il2CppExecutor,
    m: Metadata,
    spelling: Spelling,
    n: nat,
)
    ensures
        ({
            let before = struct_names::names_upto(x, m, spelling, n).0;
            let after = struct_names::names_upto(x, m, spelling, n + 1).0;
            let k = crate::il2cpp::metadata::type_jobs(m)[n as int].0;
            let name = spelling(x.type_def_names@[k]@, NameStyle::Cpp);
            &&& after.contains_key(k as usize)
            &&& !name_given(x, m, spelling, n, name) ==> after[k as usize] == name
            &&& name_given(x, m, spelling, n, name) ==> after[k as usize] != name
            &&& forall|td: usize|
                td != k as usize ==> (#[trigger] after.contains_key(td) <==> before.contains_key(
                    td,
                ))
            &&& forall|td: usize|
                td != k as usize && #[trigger] before.contains_key(td) ==> after[td] == before[td]
        }),
        forall|td: usize| !struct_names::names_upto(x, m, spelling, 0).0.contains_key(td),
{
    let p = struct_names::names_upto(x, m, spelling, n);
    let k = crate::il2cpp::metadata::type_jobs(m)[n as int].0;
    let name = spelling(x.type_def_names@[k]@, NameStyle::Cpp);
    lemma_names_given(x, m, spelling, n, name);
    if p.1.contains(name) {
        reveal_strlit("_");
        let j = choose|j: nat| struct_names::is_first_free(name, p.1, j);
        let r = struct_names::numbered(name, j);
        assert(r.len() > name.len());
    }
}

proof fn lemma_names_given(
    x: Il2CppExecutor,
    m: Metadata,
    spelling: Spelling,
    n: nat,
    name: Seq<char>,
)
    ensures
        struct_names::names_upto(x, m, spelling, n).1.contains(name) <==> name_given(
            x,
            m,
            spelling,
            n,
            name,
        ),
    decreases n,
{
    if n > 0 {
        let h = (n - 1) as nat;
        lemma_names_given(x, m, spelling, h, name);
        let k = crate::il2cpp::metadata::type_jobs(m)[h as int].0;
        let given = struct_names::names_upto(x, m, spelling, n).0[k as usize];
        assert(struct_names::names_upto(x, m, spelling, h + 1).0[k as usize] == given);
        if name_given(x, m, spelling, n, name) {
            let j = choose|j: nat|
                j < n && #[trigger] struct_names::names_upto(x, m, spelling, j + 1).0[(
                crate::il2cpp::metadata::type_jobs(m)[j as int].0) as usize] == name;
            assert(j < h || j == h);
        }
    }
}

} // verus!
