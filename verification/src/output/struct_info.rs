//! What the structures of types are made of: their fields, virtual methods and generic contexts.
use crate::executor::Il2CppExecutor;
use crate::il2cpp::base;
use crate::il2cpp::base::Il2Cpp;
use crate::il2cpp::enums::{Il2CppTypeEnum, FIELD_LITERAL, FIELD_STATIC, V27};
use crate::il2cpp::field_layout;
use crate::il2cpp::metadata;
use crate::il2cpp::metadata::Metadata;
use crate::il2cpp::structures;
use crate::il2cpp::structures::{
    Il2CppGenericContext, Il2CppMethodDefinition, Il2CppRGCTXDefinition, Il2CppType,
    Il2CppTypeDefinition,
};
use crate::io;
use crate::names::{NameMap, NameSet, NameStyle, Sanitizer, Spelling};
use crate::output::c_types;
use crate::output::c_types::{CStyle, Node, Scene};
use crate::output::script_json;
use crate::output::struct_names;
use crate::output::type_checks;
use crate::text;
use std::collections::HashMap;
use vstd::prelude::*;
use vstd::string::*;

verus! {

/// A field of a structure.
#[derive(Debug)]
pub struct StructFieldInfo {
    pub field_type_name: String,
    pub field_name: String,
    pub is_value_type: bool,
    pub is_custom_type: bool,
}

/// A field of a structure, as texts.
pub struct StructFieldInfoModel {
    pub field_type_name: Seq<char>,
    pub field_name: Seq<char>,
    pub is_value_type: bool,
    pub is_custom_type: bool,
}

impl View for StructFieldInfo {
    type V = StructFieldInfoModel;

    open spec fn view(&self) -> StructFieldInfoModel {
        StructFieldInfoModel {
            field_type_name: self.field_type_name@,
            field_name: self.field_name@,
            is_value_type: self.is_value_type,
            is_custom_type: self.is_custom_type,
        }
    }
}

/// An entry of the runtime generic context of a type or a method.
#[derive(Debug)]
pub struct StructRGCTXInfo {
    pub rgctx_type: i64,
    pub type_label: Option<String>,
    pub class_label: Option<String>,
    pub method_label: Option<String>,
}

/// An entry of a runtime generic context, as texts.
pub struct StructRGCTXInfoModel {
    pub rgctx_type: i64,
    pub type_label: Option<Seq<char>>,
    pub class_label: Option<Seq<char>>,
    pub method_label: Option<Seq<char>>,
}

impl View for StructRGCTXInfo {
    type V = StructRGCTXInfoModel;

    open spec fn view(&self) -> StructRGCTXInfoModel {
        StructRGCTXInfoModel {
            rgctx_type: self.rgctx_type,
            type_label: text::optional(self.type_label),
            class_label: text::optional(self.class_label),
            method_label: text::optional(self.method_label),
        }
    }
}

/// What the structure of a type is made of.
#[derive(Debug)]
pub struct StructInfo {
    pub name: String,
    pub is_value_type: bool,
    pub parent: Option<String>,
    pub fields: Vec<StructFieldInfo>,
    pub static_fields: Vec<StructFieldInfo>,
    /// The virtual methods by their slots; a slot may be empty.
    pub vtable_methods: Vec<Option<String>>,
    pub rgctxs: Vec<StructRGCTXInfo>,
}

/// What the structure of a type is made of, as texts.
pub struct StructInfoModel {
    pub name: Seq<char>,
    pub is_value_type: bool,
    pub parent: Option<Seq<char>>,
    pub fields: Seq<StructFieldInfoModel>,
    pub static_fields: Seq<StructFieldInfoModel>,
    pub vtable_methods: Seq<Option<Seq<char>>>,
    pub rgctxs: Seq<StructRGCTXInfoModel>,
}

/// Slots as texts.
pub open spec fn slots(v: Seq<Option<String>>) -> Seq<Option<Seq<char>>> {
    v.map_values(|s: Option<String>| text::optional(s))
}

impl View for StructInfo {
    type V = StructInfoModel;

    open spec fn view(&self) -> StructInfoModel {
        StructInfoModel {
            name: self.name@,
            is_value_type: self.is_value_type,
            parent: text::optional(self.parent),
            fields: script_json::views(self.fields@),
            static_fields: script_json::views(self.static_fields@),
            vtable_methods: slots(self.vtable_methods@),
            rgctxs: script_json::views(self.rgctxs@),
        }
    }
}

// Parents.

/// The structure of the parent of a type: none for value types, and none where the parent is the
/// root of all types.
pub open spec fn parent_name(
    il2cpp: Il2Cpp,
    def: Il2CppTypeDefinition,
    names: Map<usize, Seq<char>>,
) -> Option<Seq<char>> {
    if def.is_value_type || def.is_enum || def.parent_index < 0 {
        None
    } else {
        match c_types::type_by_index(il2cpp, def.parent_index as int) {
            Some(parent) => if parent.element() != Some(Il2CppTypeEnum::Object)
                && names.contains_key(parent.klass_index) {
                Some(names[parent.klass_index])
            } else {
                None
            },
            None => None,
        }
    }
}

/// The structure of the parent of a type.
pub fn find_parent(il2cpp: &Il2Cpp, def: &Il2CppTypeDefinition, names: &HashMap<usize, String>) -> (r:
    Option<String>)
    ensures
        text::optional(r) == parent_name(*il2cpp, *def, c_types::name_texts(names@)),
{
    if def.is_value_type || def.is_enum || def.parent_index < 0 {
        return None;
    }
    if let Some(parent) = il2cpp.type_by_index(def.parent_index as usize) {
        match parent.element_type() {
            Some(Il2CppTypeEnum::Object) => None,
            _ => match names.get(&parent.klass_index) {
                Some(name) => Some(name.clone()),
                None => None,
            },
        }
    } else {
        None
    }
}

// Fields.

/// Texts by name, in the order in which the names came.
pub struct Fragments {
    pub keys: Seq<Seq<char>>,
    pub map: Map<Seq<char>, Seq<char>>,
}

/// A map of strings as texts.
pub open spec fn fragments(m: NameMap<String>) -> Fragments {
    Fragments { keys: m.keys(), map: c_types::name_texts(m@) }
}

/// The texts with one more, unless there is one of that name already.
pub open spec fn with_fragment(f: Fragments, key: Seq<char>, text: Seq<char>) -> Fragments {
    if f.map.contains_key(key) {
        f
    } else {
        Fragments { keys: f.keys.push(key), map: f.map.insert(key, text) }
    }
}

/// The type is an array.
pub open spec fn is_array(t: Il2CppType) -> bool {
    t.element() == Some(Il2CppTypeEnum::SzArray) || t.element() == Some(Il2CppTypeEnum::Array)
}

/// The declaration of the array structure of an element type.
pub open spec fn array_class(s: Scene, element: Il2CppType, ctx: Option<Il2CppGenericContext>) -> Seq<
    char,
> {
    "struct "@ + c_types::struct_name(s.il2cpp, s.names, element, ctx)
        + "_array {\n\tIl2CppObject obj;\n\tIl2CppArrayBounds *bounds;\n\til2cpp_array_size_t max_length;\n\t"@
        + c_types::c_type(s, CStyle::Header, Node { t: element, ctx, special: false })
        + " m_Items[65535];\n};\n"@
}

/// The scene has names that the structures of a header go by.
pub open spec fn scene_of(
    s: Scene,
    executor: Il2CppExecutor,
    metadata: Metadata,
    il2cpp: Il2Cpp,
    names: Map<usize, String>,
) -> bool {
    &&& c_types::scene_fits(s)
    &&& s.m == metadata
    &&& s.il2cpp == il2cpp
    &&& s.x == executor
    &&& s.names == c_types::name_texts(names)
}

proof fn lemma_plain_type(s: Scene, t: Il2CppType, ctx: Option<Il2CppGenericContext>, n: nat)
    ensures
        ({
            let plain = Scene { special: Map::empty(), ..s };
            let node = Node { t, ctx, special: false };
            &&& c_types::settles(plain, CStyle::Header, node, n) == c_types::settles(
                s,
                CStyle::Header,
                node,
                n,
            )
            &&& c_types::type_within(plain, CStyle::Header, node, n) == c_types::type_within(
                s,
                CStyle::Header,
                node,
                n,
            )
        }),
    decreases n,
{
    let plain = Scene { special: Map::empty(), ..s };
    let node = Node { t, ctx, special: false };
    assert(c_types::next_node(plain, node) == c_types::next_node(s, node));
    if let Some(next) = c_types::next_node(s, node) {
        if n > 0 {
            lemma_plain_type(s, next.t, next.ctx, (n - 1) as nat);
        }
    }
}

/// The names of generic classes make no difference to a type that is written without them.
pub proof fn law_plain_type(s: Scene, t: Il2CppType, ctx: Option<Il2CppGenericContext>)
    ensures
        ({
            let plain = Scene { special: Map::empty(), ..s };
            let node = Node { t, ctx, special: false };
            &&& c_types::has_c_type(plain, CStyle::Header, node) == c_types::has_c_type(
                s,
                CStyle::Header,
                node,
            )
            &&& c_types::has_c_type(s, CStyle::Header, node) ==> c_types::c_type(
                plain,
                CStyle::Header,
                node,
            ) == c_types::c_type(s, CStyle::Header, node)
        }),
{
    let plain = Scene { special: Map::empty(), ..s };
    let node = Node { t, ctx, special: false };
    assert forall|n: nat|
        c_types::settles(plain, CStyle::Header, node, n) == c_types::settles(
            s,
            CStyle::Header,
            node,
            n,
        ) by {
        lemma_plain_type(s, t, ctx, n);
    }
    if c_types::has_c_type(s, CStyle::Header, node) {
        let n = choose|n: nat| c_types::settles(s, CStyle::Header, node, n);
        assert(c_types::settles(plain, CStyle::Header, node, n));
        lemma_plain_type(s, t, ctx, n);
        c_types::law_c_type(s, CStyle::Header, node, n);
        c_types::law_c_type(plain, CStyle::Header, node, n);
    } else {
        if c_types::has_c_type(plain, CStyle::Header, node) {
            let n = choose|n: nat| c_types::settles(plain, CStyle::Header, node, n);
            assert(c_types::settles(s, CStyle::Header, node, n));
        }
    }
}

/// Writes the declaration of the array structure of an element type.
fn parse_array_class_struct(
    element: &Il2CppType,
    names: &HashMap<usize, String>,
    executor: &Il2CppExecutor,
    metadata: &Metadata,
    il2cpp: &Il2Cpp,
    ctx: Option<Il2CppGenericContext>,
    Ghost(s): Ghost<Scene>,
) -> (r: String)
    requires
        scene_of(s, *executor, *metadata, *il2cpp, names@),
        c_types::has_name(*il2cpp, *element, ctx),
        c_types::has_c_type(s, CStyle::Header, (Node { t: *element, ctx, special: false })),
    ensures
        r@ == array_class(s, *element, ctx),
{
    proof {
        law_plain_type(s, *element, ctx);
        assert(Scene { special: Map::empty(), ..s } == c_types::scene(
            *executor,
            *metadata,
            *il2cpp,
            names@,
        ));
    }
    let name = c_types::get_il2cpp_struct_name(element, names, il2cpp, ctx);
    let c_type = c_types::parse_type(element, names, executor, metadata, il2cpp, ctx);
    String::from_str("struct ").concat(name.as_str()).concat(
        "_array {\n\tIl2CppObject obj;\n\tIl2CppArrayBounds *bounds;\n\til2cpp_array_size_t max_length;\n\t",
    ).concat(c_type.as_str()).concat(" m_Items[65535];\n};\n")
}

/// The fields of a structure as far as they are known.
pub struct FieldLists {
    pub fields: Seq<StructFieldInfoModel>,
    pub static_fields: Seq<StructFieldInfoModel>,
    pub field_names: Set<Seq<char>>,
    pub static_names: Set<Seq<char>>,
    pub arrays: Fragments,
    /// The generic classes with structures of their own that the fields lead to.
    pub reached: Seq<u64>,
}

/// The type of a field can be written.
pub open spec fn field_ready(
    s: Scene,
    field: int,
    ctx: Option<Il2CppGenericContext>,
    special: bool,
) -> bool {
    let i = s.m.field_defs@[field].type_index;
    let t = s.il2cpp.types@[i as int];
    &&& i < s.il2cpp.types@.len()
    &&& !field_layout::has_attr(t.attrs, FIELD_LITERAL) ==> {
        &&& is_array(t) ==> (c_types::inner_type(s.il2cpp, t) matches Some(element)
            ==> c_types::has_name(s.il2cpp, element, ctx) && c_types::has_c_type(
            s,
            CStyle::Header,
            (Node { t: element, ctx, special: false }),
        ))
        &&& c_types::has_c_type(s, CStyle::Header, (Node { t, ctx, special }))
        &&& type_checks::is_decided(s, t, ctx)
    }
}

/// The fields of a type can be written.
pub open spec fn fields_ready(
    s: Scene,
    def: Il2CppTypeDefinition,
    ctx: Option<Il2CppGenericContext>,
    special: bool,
) -> bool {
    &&& metadata::range_fits(
        def.field_start as int,
        def.field_count as int,
        s.m.field_defs@.len(),
    )
    &&& forall|i: int|
        def.field_start <= i < def.field_start + def.field_count ==> #[trigger] field_ready(
            s,
            i,
            ctx,
            special,
        )
}

/// The arrays that are declared once a field is there.
pub open spec fn with_array_of(
    arrays: Fragments,
    s: Scene,
    t: Il2CppType,
    ctx: Option<Il2CppGenericContext>,
) -> Fragments {
    match c_types::inner_type(s.il2cpp, t) {
        Some(element) => if is_array(t) {
            with_fragment(
                arrays,
                c_types::struct_name(s.il2cpp, s.names, element, ctx) + "_array"@,
                array_class(s, element, ctx),
            )
        } else {
            arrays
        },
        None => arrays,
    }
}

/// The lists with one more field. Literals have no place in a structure. Names are made unique
/// among the static fields and among the others.
pub open spec fn with_field(
    p: FieldLists,
    s: Scene,
    spelling: Spelling,
    field: int,
    ctx: Option<Il2CppGenericContext>,
    special: bool,
) -> FieldLists {
    let def = s.m.field_defs@[field];
    let t = s.il2cpp.types@[def.type_index as int];
    let node = Node { t, ctx, special };
    let is_static = field_layout::has_attr(t.attrs, FIELD_STATIC);
    let name = struct_names::unique_name(
        spelling(structures::name_or(def.name, "field"@), NameStyle::Cpp),
        if is_static {
            p.static_names
        } else {
            p.field_names
        },
    );
    let info = StructFieldInfoModel {
        field_type_name: c_types::c_type(s, CStyle::Header, node),
        field_name: name,
        is_value_type: type_checks::is_by_value(s, t, ctx),
        is_custom_type: type_checks::is_custom(s, t, ctx),
    };
    if field_layout::has_attr(t.attrs, FIELD_LITERAL) {
        p
    } else {
        FieldLists {
            fields: if is_static {
                p.fields
            } else {
                p.fields.push(info)
            },
            static_fields: if is_static {
                p.static_fields.push(info)
            } else {
                p.static_fields
            },
            field_names: if is_static {
                p.field_names
            } else {
                p.field_names.insert(name)
            },
            static_names: if is_static {
                p.static_names.insert(name)
            } else {
                p.static_names
            },
            arrays: with_array_of(p.arrays, s, t, ctx),
            reached: if special {
                match c_types::class_reached(s, node) {
                    Some(class) => p.reached.push(class),
                    None => p.reached,
                }
            } else {
                p.reached
            },
        }
    }
}

/// The lists without fields.
pub open spec fn no_fields(arrays: Fragments) -> FieldLists {
    FieldLists {
        fields: Seq::empty(),
        static_fields: Seq::empty(),
        field_names: Set::empty(),
        static_names: Set::empty(),
        arrays,
        reached: Seq::empty(),
    }
}

/// The lists with the first `n` fields of a type.
pub open spec fn field_lists(
    s: Scene,
    spelling: Spelling,
    def: Il2CppTypeDefinition,
    ctx: Option<Il2CppGenericContext>,
    special: bool,
    arrays: Fragments,
    n: nat,
) -> FieldLists
    decreases n,
{
    if n == 0 {
        no_fields(arrays)
    } else {
        with_field(
            field_lists(s, spelling, def, ctx, special, arrays, (n - 1) as nat),
            s,
            spelling,
            def.field_start + n - 1,
            ctx,
            special,
        )
    }
}

/// Names that are no two alike.
pub open spec fn names_distinct(fields: Seq<StructFieldInfoModel>) -> bool {
    forall|i: int, j: int|
        0 <= i < j < fields.len() ==> (#[trigger] fields[i]).field_name != (
        #[trigger] fields[j]).field_name
}

/// No two instance fields of a structure have the same name, and no two static ones do.
pub proof fn law_field_names_distinct(
    s: Scene,
    spelling: Spelling,
    def: Il2CppTypeDefinition,
    ctx: Option<Il2CppGenericContext>,
    special: bool,
    arrays: Fragments,
    n: nat,
)
    ensures
        names_distinct(field_lists(s, spelling, def, ctx, special, arrays, n).fields),
        names_distinct(field_lists(s, spelling, def, ctx, special, arrays, n).static_fields),
{
    lemma_field_names(s, spelling, def, ctx, special, arrays, n);
}

proof fn lemma_field_names(
    s: Scene,
    spelling: Spelling,
    def: Il2CppTypeDefinition,
    ctx: Option<Il2CppGenericContext>,
    special: bool,
    arrays: Fragments,
    n: nat,
)
    ensures
        ({
            let p = field_lists(s, spelling, def, ctx, special, arrays, n);
            &&& names_distinct(p.fields)
            &&& names_distinct(p.static_fields)
            &&& p.field_names.finite()
            &&& p.static_names.finite()
            &&& forall|i: int|
                0 <= i < p.fields.len() ==> p.field_names.contains(
                    (#[trigger] p.fields[i]).field_name,
                )
            &&& forall|i: int|
                0 <= i < p.static_fields.len() ==> p.static_names.contains(
                    (#[trigger] p.static_fields[i]).field_name,
                )
        }),
    decreases n,
{
    if n > 0 {
        lemma_field_names(s, spelling, def, ctx, special, arrays, (n - 1) as nat);
        let p = field_lists(s, spelling, def, ctx, special, arrays, (n - 1) as nat);
        let field = s.m.field_defs@[def.field_start + n - 1];
        let wanted = spelling(structures::name_or(field.name, "field"@), NameStyle::Cpp);
        struct_names::law_unique_name_is_new(wanted, p.field_names);
        struct_names::law_unique_name_is_new(wanted, p.static_names);
    }
}

/// Adds the declaration of the array structure that a field needs.
fn add_array_of(
    t: &Il2CppType,
    names: &HashMap<usize, String>,
    executor: &Il2CppExecutor,
    metadata: &Metadata,
    il2cpp: &Il2Cpp,
    ctx: Option<Il2CppGenericContext>,
    arrays: &mut NameMap<String>,
    Ghost(s): Ghost<Scene>,
)
    requires
        scene_of(s, *executor, *metadata, *il2cpp, names@),
        is_array(*t) ==> (c_types::inner_type(*il2cpp, *t) matches Some(element)
            ==> c_types::has_name(*il2cpp, element, ctx) && c_types::has_c_type(
            s,
            CStyle::Header,
            (Node { t: element, ctx, special: false }),
        )),
    ensures
        fragments(*final(arrays)) == with_array_of(fragments(*old(arrays)), s, *t, ctx),
{
    let is_array = match t.element_type() {
        Some(Il2CppTypeEnum::SzArray) | Some(Il2CppTypeEnum::Array) => true,
        _ => false,
    };
    if !is_array {
        return;
    }
    if let Some(element) = il2cpp.inner_type(t) {
        let key = c_types::get_il2cpp_struct_name(&element, names, il2cpp, ctx).concat("_array");
        if !arrays.contains_key(key.as_str()) {
            let text = parse_array_class_struct(
                &element,
                names,
                executor,
                metadata,
                il2cpp,
                ctx,
                Ghost(s),
            );
            let ghost was = arrays@;
            arrays.insert(key, text);
            assert(c_types::name_texts(arrays@) =~= c_types::name_texts(was).insert(key@, text@));
        }
    }
}

/// Adds the fields of a type to its structure and says which generic classes with structures of
/// their own they lead to.
pub(crate) fn add_fields<F: Fn(&str, NameStyle) -> String>(
    executor: &Il2CppExecutor,
    metadata: &Metadata,
    il2cpp: &Il2Cpp,
    def: &Il2CppTypeDefinition,
    names: &HashMap<usize, String>,
    sanitizer: &Sanitizer<F>,
    info: &mut StructInfo,
    arrays: &mut NameMap<String>,
    ctx: Option<Il2CppGenericContext>,
    special: Option<&HashMap<u64, String>>,
    Ghost(s): Ghost<Scene>,
) -> (r: Vec<u64>)
    requires
        scene_of(s, *executor, *metadata, *il2cpp, names@),
        special matches Some(m) ==> s.special == c_types::name_texts(m@),
        fields_ready(s, *def, ctx, special is Some),
        old(info).fields@.len() == 0,
        old(info).static_fields@.len() == 0,
    ensures
        ({
            let p = field_lists(
                s,
                sanitizer.spelling(),
                *def,
                ctx,
                special is Some,
                fragments(*old(arrays)),
                def.field_count as nat,
            );
            &&& final(info)@ == (StructInfoModel {
                fields: p.fields,
                static_fields: p.static_fields,
                ..old(info)@
            })
            &&& fragments(*final(arrays)) == p.arrays
            &&& r@ == p.reached
        }),
{
    let mut fields: Vec<StructFieldInfo> = Vec::new();
    let mut static_fields: Vec<StructFieldInfo> = Vec::new();
    let mut field_names = NameSet::new();
    let mut static_names = NameSet::new();
    let mut reached: Vec<u64> = Vec::new();
    let ghost arrays0 = fragments(*arrays);
    let ghost spelling = sanitizer.spelling();
    let fields_len: usize = metadata.field_defs.len();
    let mut k: usize = 0;
    proof {
        assert(script_json::views(fields@) =~= Seq::<StructFieldInfoModel>::empty());
        assert(script_json::views(static_fields@) =~= Seq::<StructFieldInfoModel>::empty());
    }
    while k < def.field_count
        invariant
            scene_of(s, *executor, *metadata, *il2cpp, names@),
            special matches Some(m) ==> s.special == c_types::name_texts(m@),
            fields_ready(s, *def, ctx, special is Some),
            fields_len == metadata.field_defs@.len(),
            spelling == sanitizer.spelling(),
            k <= def.field_count,
            field_lists(s, spelling, *def, ctx, special is Some, arrays0, k as nat) == (
            FieldLists {
                fields: script_json::views(fields@),
                static_fields: script_json::views(static_fields@),
                field_names: field_names@,
                static_names: static_names@,
                arrays: fragments(*arrays),
                reached: reached@,
            }),
        decreases def.field_count - k,
    {
        broadcast use script_json::lemma_views_push;

        let field: usize = def.field_start + k;
        assert(field_ready(s, field as int, ctx, special is Some));
        let field_def = &metadata.field_defs[field];
        let field_type = il2cpp.types[field_def.type_index];
        k = k + 1;
        if (field_type.attrs & FIELD_LITERAL) != 0 {
            continue;
        }
        add_array_of(
            &field_type,
            names,
            executor,
            metadata,
            il2cpp,
            ctx,
            arrays,
            Ghost(s),
        );
        let field_type_name = match special {
            Some(m) => {
                let (text, class) = c_types::parse_type_special(
                    &field_type,
                    names,
                    executor,
                    metadata,
                    il2cpp,
                    ctx,
                    m,
                    Ghost(s),
                );
                if let Some(class) = class {
                    reached.push(class);
                }
                text
            },
            None => {
                proof {
                    law_plain_type(s, field_type, ctx);
                    assert(Scene { special: Map::empty(), ..s } == c_types::scene(
                        *executor,
                        *metadata,
                        *il2cpp,
                        names@,
                    ));
                }
                c_types::parse_type(&field_type, names, executor, metadata, il2cpp, ctx)
            },
        };
        let wanted = sanitizer.fix_name(
            structures::name_text(&field_def.name, "field").as_str(),
        );
        let is_value_type = type_checks::is_value_type_check(
            &field_type,
            metadata,
            il2cpp,
            executor,
            ctx,
            Ghost(s),
        );
        let is_custom_type = type_checks::is_custom_type_check(
            &field_type,
            metadata,
            il2cpp,
            executor,
            ctx,
            Ghost(s),
        );
        if (field_type.attrs & FIELD_STATIC) != 0 {
            let field_name = struct_names::get_unique_name(wanted.as_str(), &mut static_names);
            static_fields.push(
                StructFieldInfo { field_type_name, field_name, is_value_type, is_custom_type },
            );
        } else {
            let field_name = struct_names::get_unique_name(wanted.as_str(), &mut field_names);
            fields.push(
                StructFieldInfo { field_type_name, field_name, is_value_type, is_custom_type },
            );
        }
    }
    info.fields = fields;
    info.static_fields = static_fields;
    reached
}

// Virtual methods.

/// The slots with a name in slot `k`; new slots before it are empty.
pub open spec fn with_slot(v: Seq<Option<Seq<char>>>, k: nat, name: Seq<char>) -> Seq<
    Option<Seq<char>>,
> {
    Seq::new(
        if k < v.len() {
            v.len()
        } else {
            k + 1
        },
        |i: int|
            if i == k {
                Some(name)
            } else if i < v.len() {
                v[i]
            } else {
                None
            },
    )
}

/// The method definition that an entry of a table of virtual methods stands for: its upper three
/// bits tell whether the index is that of a method of an instance.
pub open spec fn vtable_method(m: Metadata, il2cpp: Il2Cpp, encoded: u32) -> Option<
    Il2CppMethodDefinition,
> {
    let low = encoded as int % 0x2000_0000;
    let index = if m.version >= V27 {
        low / 2
    } else {
        low
    };
    let method = if encoded as int / 0x2000_0000 == 6 {
        if index < il2cpp.method_specs@.len() {
            il2cpp.method_specs@[index].method_definition_index as int
        } else {
            -1int
        }
    } else {
        index
    };
    if 0 <= method < m.method_defs@.len() {
        Some(m.method_defs@[method])
    } else {
        None
    }
}

/// The slots after the entry in place `i` of a table of virtual methods.
pub open spec fn with_vtable_entry(
    v: Seq<Option<Seq<char>>>,
    m: Metadata,
    il2cpp: Il2Cpp,
    spelling: Spelling,
    i: int,
) -> Seq<Option<Seq<char>>> {
    if i >= m.vtable_methods@.len() {
        v
    } else {
        match vtable_method(m, il2cpp, m.vtable_methods@[i]) {
            Some(def) => if def.slot != 0xFFFF {
                with_slot(
                    v,
                    def.slot as nat,
                    spelling(structures::name_or(def.name, "unknown"@), NameStyle::Cpp),
                )
            } else {
                v
            },
            None => v,
        }
    }
}

/// The slots of the first `n` virtual methods of a type.
pub open spec fn vtable_upto(
    m: Metadata,
    il2cpp: Il2Cpp,
    spelling: Spelling,
    def: Il2CppTypeDefinition,
    n: nat,
) -> Seq<Option<Seq<char>>>
    decreases n,
{
    if n == 0 {
        Seq::empty()
    } else {
        with_vtable_entry(
            vtable_upto(m, il2cpp, spelling, def, (n - 1) as nat),
            m,
            il2cpp,
            spelling,
            def.vtable_start + n - 1,
        )
    }
}

/// The virtual methods of a type by their slots.
pub open spec fn vtable(
    m: Metadata,
    il2cpp: Il2Cpp,
    spelling: Spelling,
    def: Il2CppTypeDefinition,
) -> Seq<Option<Seq<char>>> {
    vtable_upto(m, il2cpp, spelling, def, def.vtable_count as nat)
}

/// The method that the entry in place `i` of a table of virtual methods puts into slot `k`.
pub open spec fn slot_entry(m: Metadata, il2cpp: Il2Cpp, i: int, k: nat) -> Option<
    Il2CppMethodDefinition,
> {
    if i >= m.vtable_methods@.len() {
        None
    } else {
        match vtable_method(m, il2cpp, m.vtable_methods@[i]) {
            Some(def) => if def.slot != 0xFFFF && def.slot == k {
                Some(def)
            } else {
                None
            },
            None => None,
        }
    }
}

/// A slot of the table of virtual methods is filled just where an entry puts a method into it; the
/// last such entry gives it its name.
pub proof fn law_vtable_slots(
    m: Metadata,
    il2cpp: Il2Cpp,
    spelling: Spelling,
    def: Il2CppTypeDefinition,
    n: nat,
)
    ensures
        forall|k: nat|
            k < vtable_upto(m, il2cpp, spelling, def, n).len() && #[trigger] vtable_upto(
                m,
                il2cpp,
                spelling,
                def,
                n,
            )[k as int] is Some <==> exists|j: int|
                0 <= j < n && #[trigger] slot_entry(m, il2cpp, def.vtable_start + j, k) is Some,
        forall|k: nat, j: int|
            0 <= j < n && #[trigger] slot_entry(m, il2cpp, def.vtable_start + j, k) is Some && (
            forall|h: int|
                j < h < n ==> #[trigger] slot_entry(m, il2cpp, def.vtable_start + h, k) is None)
                ==> vtable_upto(m, il2cpp, spelling, def, n)[k as int] == Some(
                spelling(
                    structures::name_or(
                        slot_entry(m, il2cpp, def.vtable_start + j, k)->0.name,
                        "unknown"@,
                    ),
                    NameStyle::Cpp,
                ),
            ),
    decreases n,
{
    if n > 0 {
        law_vtable_slots(m, il2cpp, spelling, def, (n - 1) as nat);
        let past = vtable_upto(m, il2cpp, spelling, def, (n - 1) as nat);
        let now = vtable_upto(m, il2cpp, spelling, def, n);
        let last = def.vtable_start + n - 1;
        assert forall|k: nat| k < now.len() && #[trigger] now[k as int] is Some <==> exists|j: int|
            0 <= j < n && #[trigger] slot_entry(m, il2cpp, def.vtable_start + j, k) is Some by {
            let filled = k < past.len() && past[k as int] is Some;
            assert(k < now.len() && now[k as int] is Some <==> filled || slot_entry(
                m,
                il2cpp,
                last,
                k,
            ) is Some);
            assert(last == def.vtable_start + (n - 1));
            if filled {
                let j = choose|j: int|
                    0 <= j < n - 1 && #[trigger] slot_entry(m, il2cpp, def.vtable_start + j, k)
                        is Some;
                assert(slot_entry(m, il2cpp, def.vtable_start + j, k) is Some);
            }
            if exists|j: int|
                0 <= j < n && #[trigger] slot_entry(m, il2cpp, def.vtable_start + j, k) is Some {
                let j = choose|j: int|
                    0 <= j < n && #[trigger] slot_entry(m, il2cpp, def.vtable_start + j, k) is Some;
                if j < n - 1 {
                    assert(filled);
                }
            }
        }
        assert forall|k: nat, j: int|
            0 <= j < n && #[trigger] slot_entry(m, il2cpp, def.vtable_start + j, k) is Some && (
            forall|h: int|
                j < h < n ==> #[trigger] slot_entry(m, il2cpp, def.vtable_start + h, k) is None)
            implies now[k as int] == Some(
            spelling(
                structures::name_or(
                    slot_entry(m, il2cpp, def.vtable_start + j, k)->0.name,
                    "unknown"@,
                ),
                NameStyle::Cpp,
            ),
        ) by {
            if j < n - 1 {
                assert(slot_entry(m, il2cpp, def.vtable_start + (n - 1), k) is None);
                assert(past.len() > k && past[k as int] is Some);
                assert(now[k as int] == past[k as int]);
            }
        }
    }
}

/// The table of virtual methods ends in a slot that is not empty.
pub proof fn law_last_slot_named(
    m: Metadata,
    il2cpp: Il2Cpp,
    spelling: Spelling,
    def: Il2CppTypeDefinition,
    n: nat,
)
    ensures
        ({
            let v = vtable_upto(m, il2cpp, spelling, def, n);
            v.len() > 0 ==> v.last() is Some
        }),
    decreases n,
{
    if n > 0 {
        law_last_slot_named(m, il2cpp, spelling, def, (n - 1) as nat);
    }
}

fn find_vtable_method<'a>(metadata: &'a Metadata, il2cpp: &Il2Cpp, encoded: u32) -> (r: Option<
    &'a Il2CppMethodDefinition,
>)
    ensures
        match r {
            Some(def) => vtable_method(*metadata, *il2cpp, encoded) == Some(*def),
            None => vtable_method(*metadata, *il2cpp, encoded) is None,
        },
{
    let low: u32 = encoded % 0x2000_0000;
    let index: usize = if metadata.version >= V27 {
        (low / 2) as usize
    } else {
        low as usize
    };
    let method: usize = if encoded / 0x2000_0000 == 6 {
        if index < il2cpp.method_specs.len() {
            il2cpp.method_specs[index].method_definition_index
        } else {
            return None;
        }
    } else {
        index
    };
    if method < metadata.method_defs.len() {
        Some(&metadata.method_defs[method])
    } else {
        None
    }
}

fn put_slot(v: &mut Vec<Option<String>>, k: usize, name: String)
    requires
        k < usize::MAX,
    ensures
        slots(final(v)@) == with_slot(slots(old(v)@), k as nat, name@),
{
    let ghost was = v@;
    while v.len() <= k
        invariant
            v@.len() >= was.len(),
            v@.len() <= k + 1 || v@.len() == was.len(),
            forall|i: int| 0 <= i < was.len() ==> v@[i] == was[i],
            forall|i: int| was.len() <= i < v@.len() ==> v@[i] is None,
        decreases k + 1 - v@.len(),
    {
        v.push(None);
    }
    let ghost text = name@;
    v.set(k, Some(name));
    assert(slots(v@) =~= with_slot(slots(was), k as nat, text));
}

/// Gives a structure the virtual methods of its type; where there are none, it stays as it is.
pub fn add_vtable_methods<F: Fn(&str, NameStyle) -> String>(
    metadata: &Metadata,
    il2cpp: &Il2Cpp,
    def: &Il2CppTypeDefinition,
    sanitizer: &Sanitizer<F>,
    info: &mut StructInfo,
)
    ensures
        ({
            let found = vtable(*metadata, *il2cpp, sanitizer.spelling(), *def);
            final(info)@ == (StructInfoModel {
                vtable_methods: if found.len() > 0 {
                    found
                } else {
                    old(info)@.vtable_methods
                },
                ..old(info)@
            })
        }),
{
    let mut v: Vec<Option<String>> = Vec::new();
    let ghost spelling = sanitizer.spelling();
    let len: usize = metadata.vtable_methods.len();
    let mut k: usize = 0;
    assert(slots(v@) =~= Seq::<Option<Seq<char>>>::empty());
    while k < def.vtable_count
        invariant
            spelling == sanitizer.spelling(),
            len == metadata.vtable_methods@.len(),
            k <= def.vtable_count,
            slots(v@) == vtable_upto(*metadata, *il2cpp, spelling, *def, k as nat),
        decreases def.vtable_count - k,
    {
        if def.vtable_start < len && k < len - def.vtable_start {
            let encoded: u32 = metadata.vtable_methods[def.vtable_start + k];
            if let Some(method) = find_vtable_method(metadata, il2cpp, encoded) {
                if method.slot != 0xFFFF {
                    let name = sanitizer.fix_name(
                        structures::name_text(&method.name, "unknown").as_str(),
                    );
                    put_slot(&mut v, method.slot as usize, name);
                }
            }
        }
        k = k + 1;
    }
    assert(slots(v@).len() == v@.len());
    if v.len() > 0 {
        info.vtable_methods = v;
    }
}

// Generic contexts.

/// The lower half of a number, which tells the kind of an entry.
pub open spec fn entry_kind(v: i64) -> int {
    v as int % 0x1_0000_0000
}

/// The lower half of a number.
pub fn read_entry_kind(v: i64) -> (r: u64)
    ensures
        r == entry_kind(v),
{
    if v >= 0 {
        (v as u64) % 0x1_0000_0000
    } else {
        let low: u64 = ((-(v + 1)) as u64) % 0x1_0000_0000;
        0xFFFF_FFFF - low
    }
}

/// The tables of names go with the tables of the image.
pub open spec fn labels_fit(x: Il2CppExecutor, il2cpp: Il2Cpp) -> bool {
    &&& x.type_names@.len() == il2cpp.types@.len()
    &&& x.method_spec_names@.len() == il2cpp.method_specs@.len()
}

/// The label of a type, if there is a type with that index.
pub open spec fn type_label(
    x: Il2CppExecutor,
    il2cpp: Il2Cpp,
    spelling: Spelling,
    index: Option<i32>,
) -> Option<Seq<char>> {
    match index {
        Some(i) => if 0 <= i < il2cpp.types@.len() {
            Some(spelling(x.type_names@[i as int]@, NameStyle::Cpp))
        } else {
            None
        },
        None => None,
    }
}

/// The label of a method of an instance, if there is one with that index.
pub open spec fn method_label(
    x: Il2CppExecutor,
    il2cpp: Il2Cpp,
    spelling: Spelling,
    index: Option<i32>,
) -> Option<Seq<char>> {
    match index {
        Some(i) => if 0 <= i < il2cpp.method_specs@.len() {
            let names = x.method_spec_names@[i as int];
            Some(spelling(names.0@ + "."@ + names.1@, NameStyle::Cpp))
        } else {
            None
        },
        None => None,
    }
}

/// An entry of a generic context with its label.
pub open spec fn labelled(
    x: Il2CppExecutor,
    il2cpp: Il2Cpp,
    spelling: Spelling,
    rgctx_type: i64,
    index: Option<i32>,
) -> StructRGCTXInfoModel {
    let kind = entry_kind(rgctx_type);
    StructRGCTXInfoModel {
        rgctx_type,
        type_label: if kind == 1 {
            type_label(x, il2cpp, spelling, index)
        } else {
            None
        },
        class_label: if kind == 2 {
            type_label(x, il2cpp, spelling, index)
        } else {
            None
        },
        method_label: if kind == 3 {
            method_label(x, il2cpp, spelling, index)
        } else {
            None
        },
    }
}

/// The index that an entry of the generic context of a type holds: in its data record, as a
/// constrained type, or at an address.
pub open spec fn type_entry_index(il2cpp: Il2Cpp, def: Il2CppRGCTXDefinition) -> Option<i32> {
    if def.def_data is Some {
        def.def_data
    } else if def.constrained_data is Some {
        def.constrained_data
    } else if def.data_va != 0 {
        match base::offset_of(il2cpp.va_segments@, def.data_va) {
            Ok(at) => match io::word_at(il2cpp.stream.bytes@, at, 4) {
                Ok(v) => Some(io::signed(v) as i32),
                Err(_) => None,
            },
            Err(_) => None,
        }
    } else {
        None
    }
}

/// The index that an entry of the generic context of a method holds.
pub open spec fn method_entry_index(def: Il2CppRGCTXDefinition) -> Option<i32> {
    if def.type_index == -1 {
        None
    } else {
        Some(def.type_index)
    }
}

/// The generic context of a type, entry by entry.
pub open spec fn type_context(
    x: Il2CppExecutor,
    il2cpp: Il2Cpp,
    spelling: Spelling,
    td: usize,
) -> Seq<StructRGCTXInfoModel> {
    if x.type_rgctxs@.contains_key(td) {
        x.type_rgctxs@[td]@.map_values(
            |def: Il2CppRGCTXDefinition|
                labelled(x, il2cpp, spelling, def.rgctx_type, type_entry_index(il2cpp, def)),
        )
    } else {
        Seq::empty()
    }
}

/// The generic context of a method, entry by entry.
pub open spec fn method_context(
    x: Il2CppExecutor,
    il2cpp: Il2Cpp,
    spelling: Spelling,
    method: usize,
) -> Seq<StructRGCTXInfoModel> {
    if x.method_rgctxs@.contains_key(method) {
        x.method_rgctxs@[method]@.map_values(
            |def: Il2CppRGCTXDefinition|
                labelled(x, il2cpp, spelling, def.rgctx_type, method_entry_index(def)),
        )
    } else {
        Seq::empty()
    }
}

fn make_labelled<F: Fn(&str, NameStyle) -> String>(
    executor: &Il2CppExecutor,
    il2cpp: &Il2Cpp,
    sanitizer: &Sanitizer<F>,
    rgctx_type: i64,
    index: Option<i32>,
) -> (r: StructRGCTXInfo)
    requires
        labels_fit(*executor, *il2cpp),
    ensures
        r@ == labelled(*executor, *il2cpp, sanitizer.spelling(), rgctx_type, index),
{
    let mut info = StructRGCTXInfo {
        rgctx_type,
        type_label: None,
        class_label: None,
        method_label: None,
    };
    let kind: u64 = read_entry_kind(rgctx_type);
    if let Some(i) = index {
        if i >= 0 {
            let i: usize = i as usize;
            if kind == 1 {
                if i < il2cpp.types.len() {
                    info.type_label = Some(
                        sanitizer.fix_name(executor.type_names[i].as_str()),
                    );
                }
            } else if kind == 2 {
                if i < il2cpp.types.len() {
                    info.class_label = Some(
                        sanitizer.fix_name(executor.type_names[i].as_str()),
                    );
                }
            } else if kind == 3 {
                if i < il2cpp.method_specs.len() {
                    let names = &executor.method_spec_names[i];
                    info.method_label = Some(
                        sanitizer.fix_name(
                            names.0.clone().concat(".").concat(names.1.as_str()).as_str(),
                        ),
                    );
                }
            }
        }
    }
    info
}

fn read_type_entry_index(il2cpp: &Il2Cpp, def: &Il2CppRGCTXDefinition) -> (r: Option<i32>)
    requires
        il2cpp.wf(),
    ensures
        r == type_entry_index(*il2cpp, *def),
{
    if def.def_data.is_some() {
        def.def_data
    } else if def.constrained_data.is_some() {
        def.constrained_data
    } else if def.data_va != 0 {
        match il2cpp.map_vatr(def.data_va) {
            Ok(at) => match il2cpp.stream.peek_i32_at(at) {
                Ok(v) => Some(v),
                Err(_) => None,
            },
            Err(_) => None,
        }
    } else {
        None
    }
}

/// Adds the generic context of a type to its structure.
pub fn add_rgctx<F: Fn(&str, NameStyle) -> String>(
    executor: &Il2CppExecutor,
    il2cpp: &Il2Cpp,
    type_index: usize,
    sanitizer: &Sanitizer<F>,
    info: &mut StructInfo,
)
    requires
        il2cpp.wf(),
        labels_fit(*executor, *il2cpp),
    ensures
        final(info)@ == (StructInfoModel {
            rgctxs: old(info)@.rgctxs + type_context(
                *executor,
                *il2cpp,
                sanitizer.spelling(),
                type_index,
            ),
            ..old(info)@
        }),
{
    let mut out: Vec<StructRGCTXInfo> = Vec::new();
    let ghost spelling = sanitizer.spelling();
    if let Some(definitions) = executor.type_rgctxs.get(&type_index) {
        let mut i: usize = 0;
        while i < definitions.len()
            invariant
                il2cpp.wf(),
                labels_fit(*executor, *il2cpp),
                spelling == sanitizer.spelling(),
                i <= definitions@.len(),
                out@.len() == i,
                forall|k: int|
                    0 <= k < i ==> (#[trigger] out@[k])@ == labelled(
                        *executor,
                        *il2cpp,
                        spelling,
                        definitions@[k].rgctx_type,
                        type_entry_index(*il2cpp, definitions@[k]),
                    ),
            decreases definitions@.len() - i,
        {
            let index = read_type_entry_index(il2cpp, &definitions[i]);
            out.push(
                make_labelled(
                    executor,
                    il2cpp,
                    sanitizer,
                    definitions[i].rgctx_type,
                    index,
                ),
            );
            i = i + 1;
        }
    }
    assert(script_json::views(out@) =~= type_context(*executor, *il2cpp, spelling, type_index));
    let ghost was = info.rgctxs@;
    info.rgctxs.append(&mut out);
    assert(script_json::views(info.rgctxs@) =~= script_json::views(was) + type_context(
        *executor,
        *il2cpp,
        spelling,
        type_index,
    ));
}

/// The generic context of a method.
pub fn collect_rgctx_info_for_method<F: Fn(&str, NameStyle) -> String>(
    executor: &Il2CppExecutor,
    il2cpp: &Il2Cpp,
    method_index: usize,
    sanitizer: &Sanitizer<F>,
) -> (r: Vec<StructRGCTXInfo>)
    requires
        labels_fit(*executor, *il2cpp),
    ensures
        script_json::views(r@) == method_context(
            *executor,
            *il2cpp,
            sanitizer.spelling(),
            method_index,
        ),
{
    let mut out: Vec<StructRGCTXInfo> = Vec::new();
    let ghost spelling = sanitizer.spelling();
    if let Some(definitions) = executor.method_rgctxs.get(&method_index) {
        let mut i: usize = 0;
        while i < definitions.len()
            invariant
                labels_fit(*executor, *il2cpp),
                spelling == sanitizer.spelling(),
                i <= definitions@.len(),
                out@.len() == i,
                forall|k: int|
                    0 <= k < i ==> (#[trigger] out@[k])@ == labelled(
                        *executor,
                        *il2cpp,
                        spelling,
                        definitions@[k].rgctx_type,
                        method_entry_index(definitions@[k]),
                    ),
            decreases definitions@.len() - i,
        {
            let index: Option<i32> = if definitions[i].type_index == -1 {
                None
            } else {
                Some(definitions[i].type_index)
            };
            out.push(
                make_labelled(
                    executor,
                    il2cpp,
                    sanitizer,
                    definitions[i].rgctx_type,
                    index,
                ),
            );
            i = i + 1;
        }
    }
    assert(script_json::views(out@) =~= method_context(
        *executor,
        *il2cpp,
        spelling,
        method_index,
    ));
    out
}

} // verus!
