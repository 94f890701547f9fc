//! The C types that types of an image are written as.
use crate::executor::Il2CppExecutor;
use crate::il2cpp::base::Il2Cpp;
use crate::il2cpp::enums::Il2CppTypeEnum;
use crate::il2cpp::metadata::Metadata;
use crate::il2cpp::structures::{Il2CppGenericContext, Il2CppType};
use std::collections::HashMap;
use vstd::prelude::*;
use vstd::string::*;

verus! {

// What types are written with.

/// What types are written with: the image, its metadata, and the names of its structures.
pub struct Scene {
    pub m: Metadata,
    pub il2cpp: Il2Cpp,
    pub x: Il2CppExecutor,
    /// The structure of each type definition that has one.
    pub names: Map<usize, Seq<char>>,
    /// The structure of each generic class that has one of its own, by the address of the class.
    pub special: Map<u64, Seq<char>>,
}

/// Names by number, as texts.
pub open spec fn name_texts<K>(m: Map<K, String>) -> Map<K, Seq<char>> {
    m.map_values(|s: String| s@)
}

/// The type definitions that generic classes stand for exist.
pub open spec fn classes_fit(x: Il2CppExecutor, m: Metadata) -> bool {
    forall|k: u64| #[trigger]
        x.generic_class_defs@.contains_key(k) ==> x.generic_class_defs@[k] < m.type_defs@.len()
}

/// The image can be read, and the type definitions that it refers to exist.
pub open spec fn scene_fits(s: Scene) -> bool {
    s.il2cpp.wf() && classes_fit(s.x, s.m)
}

/// The scene of a set of names, without names for generic classes.
pub open spec fn scene(
    x: Il2CppExecutor,
    m: Metadata,
    il2cpp: Il2Cpp,
    names: Map<usize, String>,
) -> Scene {
    Scene { m, il2cpp, x, names: name_texts(names), special: Map::empty() }
}

/// The type at an index.
pub open spec fn type_by_index(il2cpp: Il2Cpp, i: int) -> Option<Il2CppType> {
    if 0 <= i < il2cpp.types@.len() {
        Some(il2cpp.types@[i])
    } else {
        None
    }
}

/// The type that the data word of a type refers to; a data word of 0 refers to none.
pub open spec fn inner_type(il2cpp: Il2Cpp, t: Il2CppType) -> Option<Il2CppType> {
    if t.datapoint != 0 {
        type_by_index(il2cpp, t.datapoint as int)
    } else {
        None
    }
}

/// The argument in place `num` of the generic instance at an address.
pub open spec fn argument(il2cpp: Il2Cpp, inst_addr: u64, num: u32) -> Option<Il2CppType> {
    if inst_addr == 0 {
        None
    } else {
        match il2cpp.generic_inst_at(inst_addr) {
            Err(_) => None,
            Ok(inst) => match il2cpp.pointers_at(inst.type_argv, inst.type_argc) {
                Err(_) => None,
                Ok(ptrs) => if num < ptrs.len() {
                    il2cpp.type_at(ptrs[num as int])
                } else {
                    None
                },
            },
        }
    }
}

/// The type that a generic parameter stands for in a context. Where a method has no instance of
/// its own, its parameters are those of the class.
pub open spec fn parameter_type(
    il2cpp: Il2Cpp,
    t: Il2CppType,
    ctx: Option<Il2CppGenericContext>,
) -> Option<Il2CppType> {
    match (ctx, t.generic_param_num) {
        (Some(c), Some(num)) => match t.element() {
            Some(Il2CppTypeEnum::Var) => argument(il2cpp, c.class_inst, num),
            Some(Il2CppTypeEnum::MVar) => if c.method_inst == 0 && c.class_inst != 0 {
                argument(il2cpp, c.class_inst, num)
            } else {
                argument(il2cpp, c.method_inst, num)
            },
            _ => None,
        },
        _ => None,
    }
}

/// The type definition of a generic class.
pub open spec fn class_def(s: Scene, class: u64) -> Option<int> {
    if class != 0 && s.il2cpp.generic_class_at(class) is Ok
        && s.x.generic_class_defs@.contains_key(class) {
        Some(s.x.generic_class_defs@[class] as int)
    } else {
        None
    }
}

/// The type that stands behind an enumeration.
pub open spec fn enum_type(s: Scene, td: int) -> Option<Il2CppType> {
    if 0 <= td < s.m.type_defs@.len() && s.m.type_defs@[td].is_enum {
        type_by_index(s.il2cpp, s.m.type_defs@[td].element_type_index as int)
    } else {
        None
    }
}

impl Il2Cpp {
    /// The type at an index.
    pub fn type_by_index(&self, i: usize) -> (r: Option<Il2CppType>)
        ensures
            r == type_by_index(*self, i as int),
    {
        if i < self.types.len() {
            Some(self.types[i])
        } else {
            None
        }
    }

    /// The type that the data word of a type refers to.
    pub fn inner_type(&self, t: &Il2CppType) -> (r: Option<Il2CppType>)
        ensures
            r == inner_type(*self, *t),
    {
        if t.datapoint != 0 && t.datapoint < self.types.len() as u64 {
            Some(self.types[t.datapoint as usize])
        } else {
            None
        }
    }
}

/// The argument in place `param_num` of the generic instance at an address.
pub fn resolve_generic_type_var(il2cpp: &Il2Cpp, inst_addr: u64, param_num: u32) -> (r: Option<
    Il2CppType,
>)
    requires
        il2cpp.wf(),
    ensures
        r == argument(*il2cpp, inst_addr, param_num),
{
    if inst_addr == 0 {
        return None;
    }
    let inst = match il2cpp.read_generic_inst(inst_addr) {
        Ok(inst) => inst,
        Err(_) => {
            return None;
        },
    };
    let pointers = match il2cpp.read_ptr_array(inst.type_argv, inst.type_argc) {
        Ok(v) => v,
        Err(_) => {
            return None;
        },
    };
    if (param_num as usize) < pointers.len() {
        match il2cpp.get_il2cpp_type(pointers[param_num as usize]) {
            Some(t) => Some(*t),
            None => None,
        }
    } else {
        None
    }
}

/// The type that a generic parameter stands for in a context.
pub fn resolve_parameter(il2cpp: &Il2Cpp, t: &Il2CppType, ctx: Option<Il2CppGenericContext>) -> (r:
    Option<Il2CppType>)
    requires
        il2cpp.wf(),
    ensures
        r == parameter_type(*il2cpp, *t, ctx),
{
    match (ctx, t.generic_param_num) {
        (Some(c), Some(num)) => match t.element_type() {
            Some(Il2CppTypeEnum::Var) => resolve_generic_type_var(il2cpp, c.class_inst, num),
            Some(Il2CppTypeEnum::MVar) => if c.method_inst == 0 && c.class_inst != 0 {
                resolve_generic_type_var(il2cpp, c.class_inst, num)
            } else {
                resolve_generic_type_var(il2cpp, c.method_inst, num)
            },
            _ => None,
        },
        _ => None,
    }
}

/// The type definition of a generic class.
pub(crate) fn find_class_def(
    executor: &Il2CppExecutor,
    il2cpp: &Il2Cpp,
    class: u64,
    Ghost(s): Ghost<Scene>,
) -> (r: Option<usize>)
    requires
        scene_fits(s),
        s.il2cpp == *il2cpp,
        s.x == *executor,
    ensures
        match r {
            Some(td) => class_def(s, class) == Some(td as int) && td < s.m.type_defs@.len(),
            None => class_def(s, class) is None,
        },
{
    if class == 0 {
        return None;
    }
    match il2cpp.read_generic_class(class) {
        Ok(_) => match executor.generic_class_defs.get(&class) {
            Some(td) => Some(*td),
            None => None,
        },
        Err(_) => None,
    }
}

/// The type that stands behind an enumeration.
pub(crate) fn find_enum_type(metadata: &Metadata, il2cpp: &Il2Cpp, td: usize, Ghost(s): Ghost<Scene>) -> (r:
    Option<Il2CppType>)
    requires
        s.il2cpp == *il2cpp,
        s.m == *metadata,
    ensures
        r == enum_type(s, td as int),
{
    if td < metadata.type_defs.len() && metadata.type_defs[td].is_enum {
        il2cpp.type_by_index(metadata.type_defs[td].element_type_index)
    } else {
        None
    }
}

// The names of structures.

/// The type that gives a type its structure name: what a pointer points to, what an array holds,
/// what a generic parameter stands for.
pub open spec fn name_source(il2cpp: Il2Cpp, t: Il2CppType, ctx: Option<Il2CppGenericContext>) -> Option<
    (Il2CppType, Option<Il2CppGenericContext>),
> {
    match t.element() {
        Some(Il2CppTypeEnum::Ptr) | Some(Il2CppTypeEnum::SzArray) | Some(
            Il2CppTypeEnum::Array,
        ) => match inner_type(il2cpp, t) {
            Some(inner) => Some((inner, ctx)),
            None => None,
        },
        Some(Il2CppTypeEnum::Var) => match ctx {
            Some(c) => match argument(
                il2cpp,
                c.class_inst,
                (t.datapoint % 0x1_0000_0000) as u32,
            ) {
                Some(inner) => Some((inner, None)),
                None => None,
            },
            None => None,
        },
        Some(Il2CppTypeEnum::MVar) => match ctx {
            Some(c) => match argument(
                il2cpp,
                c.method_inst,
                (t.datapoint % 0x1_0000_0000) as u32,
            ) {
                Some(inner) => Some((inner, None)),
                None => None,
            },
            None => None,
        },
        _ => None,
    }
}

/// A type with a structure of its own or one of the runtime.
pub open spec fn has_own_structure(e: Option<Il2CppTypeEnum>) -> bool {
    match e {
        Some(Il2CppTypeEnum::Void) | Some(Il2CppTypeEnum::Boolean) | Some(
            Il2CppTypeEnum::Char,
        ) | Some(Il2CppTypeEnum::I1) | Some(Il2CppTypeEnum::U1) | Some(Il2CppTypeEnum::I2) | Some(
            Il2CppTypeEnum::U2,
        ) | Some(Il2CppTypeEnum::I4) | Some(Il2CppTypeEnum::U4) | Some(Il2CppTypeEnum::I8) | Some(
            Il2CppTypeEnum::U8,
        ) | Some(Il2CppTypeEnum::R4) | Some(Il2CppTypeEnum::R8) | Some(
            Il2CppTypeEnum::String,
        ) | Some(Il2CppTypeEnum::TypedByRef) | Some(Il2CppTypeEnum::I) | Some(
            Il2CppTypeEnum::U,
        ) | Some(Il2CppTypeEnum::Object) | Some(Il2CppTypeEnum::ValueType) | Some(
            Il2CppTypeEnum::Class,
        ) | Some(Il2CppTypeEnum::GenericInst) => true,
        _ => false,
    }
}

/// After at most `n` steps no further type gives the name.
pub open spec fn name_settles(
    il2cpp: Il2Cpp,
    t: Il2CppType,
    ctx: Option<Il2CppGenericContext>,
    n: nat,
) -> bool
    decreases n,
{
    match name_source(il2cpp, t, ctx) {
        Some((inner, c)) => n > 0 && name_settles(il2cpp, inner, c, (n - 1) as nat),
        None => true,
    }
}

/// The structure name of a type, followed for at most `n` steps. Arrays add a suffix.
pub open spec fn name_within(
    il2cpp: Il2Cpp,
    names: Map<usize, Seq<char>>,
    t: Il2CppType,
    ctx: Option<Il2CppGenericContext>,
    n: nat,
) -> Seq<char>
    decreases n,
{
    match name_source(il2cpp, t, ctx) {
        Some((inner, c)) => {
            let name = if n > 0 {
                name_within(il2cpp, names, inner, c, (n - 1) as nat)
            } else {
                Seq::empty()
            };
            if t.element() == Some(Il2CppTypeEnum::SzArray) || t.element() == Some(
                Il2CppTypeEnum::Array,
            ) {
                name + "_array"@
            } else {
                name
            }
        },
        None => if has_own_structure(t.element()) && names.contains_key(t.klass_index) {
            names[t.klass_index]
        } else {
            "System_Object"@
        },
    }
}

/// The structure name of the type can be found: the types that give the name end somewhere.
pub open spec fn has_name(il2cpp: Il2Cpp, t: Il2CppType, ctx: Option<Il2CppGenericContext>) -> bool {
    exists|n: nat| name_settles(il2cpp, t, ctx, n)
}

/// The structure name of a type.
pub open spec fn struct_name(
    il2cpp: Il2Cpp,
    names: Map<usize, Seq<char>>,
    t: Il2CppType,
    ctx: Option<Il2CppGenericContext>,
) -> Seq<char> {
    name_within(il2cpp, names, t, ctx, choose|n: nat| name_settles(il2cpp, t, ctx, n))
}

proof fn lemma_name_within(
    il2cpp: Il2Cpp,
    names: Map<usize, Seq<char>>,
    t: Il2CppType,
    ctx: Option<Il2CppGenericContext>,
    a: nat,
    b: nat,
)
    requires
        name_settles(il2cpp, t, ctx, a),
        name_settles(il2cpp, t, ctx, b),
    ensures
        name_within(il2cpp, names, t, ctx, a) == name_within(il2cpp, names, t, ctx, b),
    decreases a,
{
    if let Some((inner, c)) = name_source(il2cpp, t, ctx) {
        lemma_name_within(il2cpp, names, inner, c, (a - 1) as nat, (b - 1) as nat);
    }
}

/// The structure name of a type is what following the types that give it leads to, no matter how
/// many steps are allowed, as long as they are enough.
pub proof fn law_struct_name(
    il2cpp: Il2Cpp,
    names: Map<usize, Seq<char>>,
    t: Il2CppType,
    ctx: Option<Il2CppGenericContext>,
    n: nat,
)
    requires
        name_settles(il2cpp, t, ctx, n),
    ensures
        struct_name(il2cpp, names, t, ctx) == name_within(il2cpp, names, t, ctx, n),
{
    let m = choose|m: nat| name_settles(il2cpp, t, ctx, m);
    lemma_name_within(il2cpp, names, t, ctx, m, n);
}

/// The name that a lookup leads to, or a fallback.
fn name_at(names: &HashMap<usize, String>, k: usize, fallback: &str) -> (r: String)
    ensures
        r@ == if name_texts(names@).contains_key(k) {
            name_texts(names@)[k]
        } else {
            fallback@
        },
{
    match names.get(&k) {
        Some(name) => name.clone(),
        None => fallback.to_owned(),
    }
}

fn find_name_source(il2cpp: &Il2Cpp, t: &Il2CppType, ctx: Option<Il2CppGenericContext>) -> (r: Option<
    (Il2CppType, Option<Il2CppGenericContext>),
>)
    requires
        il2cpp.wf(),
    ensures
        r == name_source(*il2cpp, *t, ctx),
{
    match t.element_type() {
        Some(Il2CppTypeEnum::Ptr) | Some(Il2CppTypeEnum::SzArray) | Some(
            Il2CppTypeEnum::Array,
        ) => match il2cpp.inner_type(t) {
            Some(inner) => Some((inner, ctx)),
            None => None,
        },
        Some(Il2CppTypeEnum::Var) => match ctx {
            Some(c) => match resolve_generic_type_var(
                il2cpp,
                c.class_inst,
                (t.datapoint % 0x1_0000_0000) as u32,
            ) {
                Some(inner) => Some((inner, None)),
                None => None,
            },
            None => None,
        },
        Some(Il2CppTypeEnum::MVar) => match ctx {
            Some(c) => match resolve_generic_type_var(
                il2cpp,
                c.method_inst,
                (t.datapoint % 0x1_0000_0000) as u32,
            ) {
                Some(inner) => Some((inner, None)),
                None => None,
            },
            None => None,
        },
        _ => None,
    }
}

fn owns_structure(e: Option<Il2CppTypeEnum>) -> (r: bool)
    ensures
        r == has_own_structure(e),
{
    match e {
        Some(Il2CppTypeEnum::Void) | Some(Il2CppTypeEnum::Boolean) | Some(
            Il2CppTypeEnum::Char,
        ) | Some(Il2CppTypeEnum::I1) | Some(Il2CppTypeEnum::U1) | Some(Il2CppTypeEnum::I2) | Some(
            Il2CppTypeEnum::U2,
        ) | Some(Il2CppTypeEnum::I4) | Some(Il2CppTypeEnum::U4) | Some(Il2CppTypeEnum::I8) | Some(
            Il2CppTypeEnum::U8,
        ) | Some(Il2CppTypeEnum::R4) | Some(Il2CppTypeEnum::R8) | Some(
            Il2CppTypeEnum::String,
        ) | Some(Il2CppTypeEnum::TypedByRef) | Some(Il2CppTypeEnum::I) | Some(
            Il2CppTypeEnum::U,
        ) | Some(Il2CppTypeEnum::Object) | Some(Il2CppTypeEnum::ValueType) | Some(
            Il2CppTypeEnum::Class,
        ) | Some(Il2CppTypeEnum::GenericInst) => true,
        _ => false,
    }
}

fn struct_name_within(
    il2cpp: &Il2Cpp,
    names: &HashMap<usize, String>,
    t: &Il2CppType,
    ctx: Option<Il2CppGenericContext>,
    Ghost(n): Ghost<nat>,
) -> (r: String)
    requires
        il2cpp.wf(),
        name_settles(*il2cpp, *t, ctx, n),
    ensures
        r@ == name_within(*il2cpp, name_texts(names@), *t, ctx, n),
    decreases n,
{
    match find_name_source(il2cpp, t, ctx) {
        Some((inner, c)) => {
            let name = struct_name_within(il2cpp, names, &inner, c, Ghost((n - 1) as nat));
            match t.element_type() {
                Some(Il2CppTypeEnum::SzArray) | Some(Il2CppTypeEnum::Array) => name.concat(
                    "_array",
                ),
                _ => name,
            }
        },
        None => if owns_structure(t.element_type()) {
            name_at(names, t.klass_index, "System_Object")
        } else {
            String::from_str("System_Object")
        },
    }
}

/// The structure name of a type.
pub fn get_il2cpp_struct_name(
    t: &Il2CppType,
    names: &HashMap<usize, String>,
    il2cpp: &Il2Cpp,
    ctx: Option<Il2CppGenericContext>,
) -> (r: String)
    requires
        il2cpp.wf(),
        has_name(*il2cpp, *t, ctx),
    ensures
        r@ == struct_name(*il2cpp, name_texts(names@), *t, ctx),
{
    let ghost n = choose|n: nat| name_settles(*il2cpp, *t, ctx, n);
    struct_name_within(il2cpp, names, t, ctx, Ghost(n))
}

// C types.

/// A type on the way to its C type: with the context of its generic parameters, and with or
/// without names for generic classes.
pub struct Node {
    pub t: Il2CppType,
    pub ctx: Option<Il2CppGenericContext>,
    pub special: bool,
}

/// The structure of a generic class: its own, or that of its type definition.
pub open spec fn class_name(s: Scene, class: u64, td: int, special: bool) -> Option<Seq<char>> {
    if special && s.special.contains_key(class) {
        Some(s.special[class])
    } else if s.names.contains_key(td as usize) {
        Some(s.names[td as usize])
    } else {
        None
    }
}

/// The type that a type is written as: an enumeration as the type behind it, a generic parameter
/// as what it stands for. A pointer is written as what it points to, with a star.
pub open spec fn next_node(s: Scene, node: Node) -> Option<Node> {
    let t = node.t;
    match t.element() {
        Some(Il2CppTypeEnum::Ptr) => match inner_type(s.il2cpp, t) {
            Some(inner) => Some(Node { t: inner, ..node }),
            None => None,
        },
        Some(Il2CppTypeEnum::ValueType) => match enum_type(s, t.klass_index as int) {
            Some(inner) => Some(Node { t: inner, ..node }),
            None => None,
        },
        Some(Il2CppTypeEnum::GenericInst) => match class_def(s, t.generic_class) {
            Some(td) => if class_name(s, t.generic_class, td, node.special) is Some
                && s.m.type_defs@[td].is_value_type {
                match enum_type(s, td) {
                    Some(inner) => Some(Node { t: inner, ctx: node.ctx, special: false }),
                    None => None,
                }
            } else {
                None
            },
            None => None,
        },
        Some(Il2CppTypeEnum::Var) | Some(Il2CppTypeEnum::MVar) => match parameter_type(
            s.il2cpp,
            t,
            node.ctx,
        ) {
            Some(inner) => Some(Node { t: inner, ctx: None, special: false }),
            None => None,
        },
        _ => None,
    }
}

/// The C type of a type of the language itself.
pub open spec fn plain_type(e: Option<Il2CppTypeEnum>) -> Option<Seq<char>> {
    match e {
        Some(Il2CppTypeEnum::Void) => Some("void"@),
        Some(Il2CppTypeEnum::Boolean) => Some("bool"@),
        Some(Il2CppTypeEnum::Char) => Some("uint16_t"@),
        Some(Il2CppTypeEnum::I1) => Some("int8_t"@),
        Some(Il2CppTypeEnum::U1) => Some("uint8_t"@),
        Some(Il2CppTypeEnum::I2) => Some("int16_t"@),
        Some(Il2CppTypeEnum::U2) => Some("uint16_t"@),
        Some(Il2CppTypeEnum::I4) => Some("int32_t"@),
        Some(Il2CppTypeEnum::U4) => Some("uint32_t"@),
        Some(Il2CppTypeEnum::I8) => Some("int64_t"@),
        Some(Il2CppTypeEnum::U8) => Some("uint64_t"@),
        Some(Il2CppTypeEnum::R4) => Some("float"@),
        Some(Il2CppTypeEnum::R8) => Some("double"@),
        Some(Il2CppTypeEnum::String) => Some("System_String_o*"@),
        Some(Il2CppTypeEnum::I) => Some("intptr_t"@),
        Some(Il2CppTypeEnum::U) => Some("uintptr_t"@),
        Some(Il2CppTypeEnum::Object) | Some(Il2CppTypeEnum::TypedByRef) => Some(
            "Il2CppObject*"@,
        ),
        _ => None,
    }
}

fn write_plain_type(e: Option<Il2CppTypeEnum>) -> (r: Option<&'static str>)
    ensures
        match r {
            Some(text) => plain_type(e) == Some(text@),
            None => plain_type(e) is None,
        },
{
    match e {
        Some(Il2CppTypeEnum::Void) => Some("void"),
        Some(Il2CppTypeEnum::Boolean) => Some("bool"),
        Some(Il2CppTypeEnum::Char) => Some("uint16_t"),
        Some(Il2CppTypeEnum::I1) => Some("int8_t"),
        Some(Il2CppTypeEnum::U1) => Some("uint8_t"),
        Some(Il2CppTypeEnum::I2) => Some("int16_t"),
        Some(Il2CppTypeEnum::U2) => Some("uint16_t"),
        Some(Il2CppTypeEnum::I4) => Some("int32_t"),
        Some(Il2CppTypeEnum::U4) => Some("uint32_t"),
        Some(Il2CppTypeEnum::I8) => Some("int64_t"),
        Some(Il2CppTypeEnum::U8) => Some("uint64_t"),
        Some(Il2CppTypeEnum::R4) => Some("float"),
        Some(Il2CppTypeEnum::R8) => Some("double"),
        Some(Il2CppTypeEnum::String) => Some("System_String_o*"),
        Some(Il2CppTypeEnum::I) => Some("intptr_t"),
        Some(Il2CppTypeEnum::U) => Some("uintptr_t"),
        Some(Il2CppTypeEnum::Object) | Some(Il2CppTypeEnum::TypedByRef) => Some("Il2CppObject*"),
        _ => None,
    }
}

/// How structures are written: as fields of structures, or as parameters of functions. The latter
/// spell value types without a suffix and do not tell what arrays hold.
#[derive(Clone, Copy, PartialEq, Eq, Structural)]
pub enum CStyle {
    Header,
    Scaffold,
}

/// The structure of a value type.
pub open spec fn by_value(style: CStyle, name: Seq<char>) -> Seq<char> {
    match style {
        CStyle::Header => name + "_o"@,
        CStyle::Scaffold => name,
    }
}

/// The C type of a type that is not written as another one.
pub open spec fn end_type(s: Scene, style: CStyle, node: Node) -> Seq<char> {
    let t = node.t;
    match plain_type(t.element()) {
        Some(text) => text,
        None => match t.element() {
            Some(Il2CppTypeEnum::ValueType) => if t.klass_index < s.m.type_defs@.len()
                && s.names.contains_key(t.klass_index) {
                by_value(style, s.names[t.klass_index])
            } else {
                "Il2CppObject*"@
            },
            Some(Il2CppTypeEnum::Class) => if s.names.contains_key(t.klass_index) {
                s.names[t.klass_index] + "_o*"@
            } else {
                "Il2CppObject*"@
            },
            Some(Il2CppTypeEnum::SzArray) | Some(Il2CppTypeEnum::Array) => match inner_type(
                s.il2cpp,
                t,
            ) {
                Some(inner) => if style == CStyle::Header {
                    struct_name(s.il2cpp, s.names, inner, node.ctx) + "_array*"@
                } else {
                    "Il2CppArray*"@
                },
                None => "Il2CppArray*"@,
            },
            Some(Il2CppTypeEnum::GenericInst) => match class_def(s, t.generic_class) {
                Some(td) => match class_name(s, t.generic_class, td, node.special) {
                    Some(name) => if s.m.type_defs@[td].is_value_type {
                        by_value(style, name)
                    } else {
                        name + "_o*"@
                    },
                    None => "Il2CppObject*"@,
                },
                None => "Il2CppObject*"@,
            },
            Some(Il2CppTypeEnum::Ptr) => "void*"@,
            _ => "Il2CppObject*"@,
        },
    }
}

/// What an array holds has a structure name.
pub open spec fn end_has_name(s: Scene, style: CStyle, node: Node) -> bool {
    (style == CStyle::Header && (node.t.element() == Some(Il2CppTypeEnum::SzArray)
        || node.t.element() == Some(Il2CppTypeEnum::Array))) ==> (inner_type(
        s.il2cpp,
        node.t,
    ) matches Some(inner) ==> has_name(s.il2cpp, inner, node.ctx))
}

/// After at most `n` steps a type is not written as another one any more.
pub open spec fn settles(s: Scene, style: CStyle, node: Node, n: nat) -> bool
    decreases n,
{
    match next_node(s, node) {
        Some(next) => n > 0 && settles(s, style, next, (n - 1) as nat),
        None => end_has_name(s, style, node),
    }
}

/// The C type of a type, followed for at most `n` steps.
pub open spec fn type_within(s: Scene, style: CStyle, node: Node, n: nat) -> Seq<char>
    decreases n,
{
    match next_node(s, node) {
        Some(next) => {
            let text = if n > 0 {
                type_within(s, style, next, (n - 1) as nat)
            } else {
                Seq::empty()
            };
            if node.t.element() == Some(Il2CppTypeEnum::Ptr) {
                text + "*"@
            } else {
                text
            }
        },
        None => end_type(s, style, node),
    }
}

/// The type has a C type: the types that it is written as end somewhere.
pub open spec fn has_c_type(s: Scene, style: CStyle, node: Node) -> bool {
    exists|n: nat| settles(s, style, node, n)
}

/// The C type of a type.
pub open spec fn c_type(s: Scene, style: CStyle, node: Node) -> Seq<char> {
    type_within(s, style, node, choose|n: nat| settles(s, style, node, n))
}

proof fn lemma_type_within(s: Scene, style: CStyle, node: Node, a: nat, b: nat)
    requires
        settles(s, style, node, a),
        settles(s, style, node, b),
    ensures
        type_within(s, style, node, a) == type_within(s, style, node, b),
    decreases a,
{
    if let Some(next) = next_node(s, node) {
        lemma_type_within(s, style, next, (a - 1) as nat, (b - 1) as nat);
    }
}

/// The C type of a type is what following it leads to, no matter how many steps are allowed, as
/// long as they are enough.
pub proof fn law_c_type(s: Scene, style: CStyle, node: Node, n: nat)
    requires
        settles(s, style, node, n),
    ensures
        c_type(s, style, node) == type_within(s, style, node, n),
{
    let m = choose|m: nat| settles(s, style, node, m);
    lemma_type_within(s, style, node, m, n);
}

/// A pointer that is not 0 is written as what it points to, with a star.
pub proof fn law_pointer_type(s: Scene, style: CStyle, node: Node)
    requires
        node.t.element() == Some(Il2CppTypeEnum::Ptr),
        inner_type(s.il2cpp, node.t) is Some,
        has_c_type(s, style, node),
    ensures
        c_type(s, style, node) == c_type(
            s,
            style,
            Node { t: inner_type(s.il2cpp, node.t)->0, ..node },
        ) + "*"@,
{
    let n = choose|n: nat| settles(s, style, node, n);
    let next = next_node(s, node)->0;
    law_c_type(s, style, node, n);
    law_c_type(s, style, next, (n - 1) as nat);
}

/// In a class with arguments, a parameter of a method without arguments is written as the parameter
/// of the class with the same number.
pub proof fn law_method_parameter(s: Scene, style: CStyle, node: Node)
    requires
        node.t.element() == Some(Il2CppTypeEnum::MVar),
        node.ctx matches Some(c) && c.method_inst == 0 && c.class_inst != 0,
        has_c_type(s, style, node),
    ensures
        c_type(s, style, node) == c_type(
            s,
            style,
            Node { t: Il2CppType { type_enum: 0x13, ..node.t }, ..node },
        ),
{
    let other = Node { t: Il2CppType { type_enum: 0x13, ..node.t }, ..node };
    let n = choose|n: nat| settles(s, style, node, n);
    assert(next_node(s, other) == next_node(s, node));
    law_c_type(s, style, node, n);
    law_c_type(s, style, other, n);
}

/// The generic class with a structure of its own that a type leads to, followed for at most `n`
/// steps.
pub open spec fn class_within(s: Scene, node: Node, n: nat) -> Option<u64>
    decreases n,
{
    if !node.special {
        None
    } else if node.t.element() == Some(Il2CppTypeEnum::GenericInst) {
        if class_def(s, node.t.generic_class) is Some && s.special.contains_key(
            node.t.generic_class,
        ) {
            Some(node.t.generic_class)
        } else {
            None
        }
    } else {
        match next_node(s, node) {
            Some(next) => if n > 0 {
                class_within(s, next, (n - 1) as nat)
            } else {
                None
            },
            None => None,
        }
    }
}

/// The generic class with a structure of its own that a type leads to.
pub open spec fn class_reached(s: Scene, node: Node) -> Option<u64> {
    class_within(s, node, choose|n: nat| settles(s, CStyle::Header, node, n))
}

proof fn lemma_class_within(s: Scene, style: CStyle, node: Node, a: nat, b: nat)
    requires
        settles(s, style, node, a),
        settles(s, style, node, b),
    ensures
        class_within(s, node, a) == class_within(s, node, b),
    decreases a,
{
    if let Some(next) = next_node(s, node) {
        lemma_class_within(s, style, next, (a - 1) as nat, (b - 1) as nat);
    }
}

/// The generic class that a type leads to is the same, no matter how many steps are allowed, as
/// long as they are enough, and it has a structure of its own.
pub proof fn law_class_reached(s: Scene, node: Node, n: nat)
    requires
        settles(s, CStyle::Header, node, n),
    ensures
        class_reached(s, node) == class_within(s, node, n),
        class_reached(s, node) matches Some(class) ==> s.special.contains_key(class),
{
    let m = choose|m: nat| settles(s, CStyle::Header, node, m);
    lemma_class_within(s, CStyle::Header, node, m, n);
    lemma_class_named(s, node, n);
}

proof fn lemma_class_named(s: Scene, node: Node, n: nat)
    ensures
        class_within(s, node, n) matches Some(class) ==> s.special.contains_key(class),
    decreases n,
{
    if n > 0 {
        if let Some(next) = next_node(s, node) {
            lemma_class_named(s, next, (n - 1) as nat);
        }
    }
}

fn find_class_name(
    names: &HashMap<usize, String>,
    special: Option<&HashMap<u64, String>>,
    class: u64,
    td: usize,
    Ghost(s): Ghost<Scene>,
) -> (r: Option<String>)
    requires
        s.names == name_texts(names@),
        special matches Some(m) ==> s.special == name_texts(m@),
    ensures
        match r {
            Some(name) => class_name(s, class, td as int, special is Some) == Some(name@),
            None => class_name(s, class, td as int, special is Some) is None,
        },
{
    if let Some(m) = special {
        if let Some(name) = m.get(&class) {
            return Some(name.clone());
        }
    }
    match names.get(&td) {
        Some(name) => Some(name.clone()),
        None => None,
    }
}

/// The type that a type is written as.
fn find_next<'a>(
    t: &Il2CppType,
    names: &HashMap<usize, String>,
    executor: &Il2CppExecutor,
    metadata: &Metadata,
    il2cpp: &Il2Cpp,
    ctx: Option<Il2CppGenericContext>,
    special: Option<&'a HashMap<u64, String>>,
    Ghost(s): Ghost<Scene>,
) -> (r: Option<(Il2CppType, Option<Il2CppGenericContext>, Option<&'a HashMap<u64, String>>)>)
    requires
        scene_fits(s),
        s.m == *metadata,
        s.il2cpp == *il2cpp,
        s.x == *executor,
        s.names == name_texts(names@),
        special matches Some(m) ==> s.special == name_texts(m@),
    ensures
        ({
            let next = next_node(s, Node { t: *t, ctx, special: special is Some });
            match r {
                Some((inner, c, m)) => {
                    &&& next == Some(Node { t: inner, ctx: c, special: m is Some })
                    &&& m is Some ==> m == special
                },
                None => next is None,
            }
        }),
{
    match t.element_type() {
        Some(Il2CppTypeEnum::Ptr) => match il2cpp.inner_type(t) {
            Some(inner) => Some((inner, ctx, special)),
            None => None,
        },
        Some(Il2CppTypeEnum::ValueType) => match find_enum_type(
            metadata,
            il2cpp,
            t.klass_index,
            Ghost(s),
        ) {
            Some(inner) => Some((inner, ctx, special)),
            None => None,
        },
        Some(Il2CppTypeEnum::GenericInst) => match find_class_def(
            executor,
            il2cpp,
            t.generic_class,
            Ghost(s),
        ) {
            Some(td) => if metadata.type_defs[td].is_value_type {
                match find_class_name(names, special, t.generic_class, td, Ghost(s)) {
                    Some(_) => match find_enum_type(metadata, il2cpp, td, Ghost(s)) {
                        Some(inner) => Some((inner, ctx, None)),
                        None => None,
                    },
                    None => None,
                }
            } else {
                None
            },
            None => None,
        },
        Some(Il2CppTypeEnum::Var) | Some(Il2CppTypeEnum::MVar) => match resolve_parameter(
            il2cpp,
            t,
            ctx,
        ) {
            Some(inner) => Some((inner, None, None)),
            None => None,
        },
        _ => None,
    }
}

fn spell_by_value(style: CStyle, name: String) -> (r: String)
    ensures
        r@ == by_value(style, name@),
{
    match style {
        CStyle::Header => name.concat("_o"),
        CStyle::Scaffold => name,
    }
}

/// The C type of a type that is not written as another one.
fn write_end_type(
    style: CStyle,
    t: &Il2CppType,
    names: &HashMap<usize, String>,
    executor: &Il2CppExecutor,
    metadata: &Metadata,
    il2cpp: &Il2Cpp,
    ctx: Option<Il2CppGenericContext>,
    special: Option<&HashMap<u64, String>>,
    Ghost(s): Ghost<Scene>,
) -> (r: String)
    requires
        scene_fits(s),
        s.m == *metadata,
        s.il2cpp == *il2cpp,
        s.x == *executor,
        s.names == name_texts(names@),
        special matches Some(m) ==> s.special == name_texts(m@),
        end_has_name(s, style, (Node { t: *t, ctx, special: special is Some })),
    ensures
        r@ == end_type(s, style, Node { t: *t, ctx, special: special is Some }),
{
    if let Some(text) = write_plain_type(t.element_type()) {
        return text.to_owned();
    }
    match t.element_type() {
        Some(Il2CppTypeEnum::ValueType) => {
            if t.klass_index < metadata.type_defs.len() {
                if let Some(name) = names.get(&t.klass_index) {
                    return spell_by_value(style, name.clone());
                }
            }
            String::from_str("Il2CppObject*")
        },
        Some(Il2CppTypeEnum::Class) => {
            if let Some(name) = names.get(&t.klass_index) {
                return name.clone().concat("_o*");
            }
            String::from_str("Il2CppObject*")
        },
        Some(Il2CppTypeEnum::SzArray) | Some(Il2CppTypeEnum::Array) => {
            if style == CStyle::Header {
                if let Some(inner) = il2cpp.inner_type(t) {
                    return get_il2cpp_struct_name(&inner, names, il2cpp, ctx).concat("_array*");
                }
            }
            String::from_str("Il2CppArray*")
        },
        Some(Il2CppTypeEnum::GenericInst) => {
            if let Some(td) = find_class_def(executor, il2cpp, t.generic_class, Ghost(s)) {
                if let Some(name) = find_class_name(
                    names,
                    special,
                    t.generic_class,
                    td,
                    Ghost(s),
                ) {
                    return if metadata.type_defs[td].is_value_type {
                        spell_by_value(style, name)
                    } else {
                        name.concat("_o*")
                    };
                }
            }
            String::from_str("Il2CppObject*")
        },
        Some(Il2CppTypeEnum::Ptr) => String::from_str("void*"),
        _ => String::from_str("Il2CppObject*"),
    }
}

fn write_type_within(
    style: CStyle,
    t: &Il2CppType,
    names: &HashMap<usize, String>,
    executor: &Il2CppExecutor,
    metadata: &Metadata,
    il2cpp: &Il2Cpp,
    ctx: Option<Il2CppGenericContext>,
    special: Option<&HashMap<u64, String>>,
    Ghost(s): Ghost<Scene>,
    Ghost(n): Ghost<nat>,
) -> (r: (String, Option<u64>))
    requires
        scene_fits(s),
        s.m == *metadata,
        s.il2cpp == *il2cpp,
        s.x == *executor,
        s.names == name_texts(names@),
        special matches Some(m) ==> s.special == name_texts(m@),
        settles(s, style, (Node { t: *t, ctx, special: special is Some }), n),
    ensures
        r.0@ == type_within(s, style, Node { t: *t, ctx, special: special is Some }, n),
        r.1 == class_within(s, Node { t: *t, ctx, special: special is Some }, n),
    decreases n,
{
    let mut reached: Option<u64> = None;
    let is_instance = match t.element_type() {
        Some(Il2CppTypeEnum::GenericInst) => true,
        _ => false,
    };
    if is_instance {
        if let Some(m) = special {
            if let Some(_) = find_class_def(executor, il2cpp, t.generic_class, Ghost(s)) {
                if m.contains_key(&t.generic_class) {
                    reached = Some(t.generic_class);
                }
            }
        }
    }
    match find_next(t, names, executor, metadata, il2cpp, ctx, special, Ghost(s)) {
        Some((inner, c, m)) => {
            let (text, class) = write_type_within(
                style,
                &inner,
                names,
                executor,
                metadata,
                il2cpp,
                c,
                m,
                Ghost(s),
                Ghost((n - 1) as nat),
            );
            if !is_instance && special.is_some() {
                reached = class;
            }
            match t.element_type() {
                Some(Il2CppTypeEnum::Ptr) => (text.concat("*"), reached),
                _ => (text, reached),
            }
        },
        None => (
            write_end_type(
                style,
                t,
                names,
                executor,
                metadata,
                il2cpp,
                ctx,
                special,
                Ghost(s),
            ),
            reached,
        ),
    }
}

/// The C type of a type, as a field of a structure.
pub fn parse_type(
    t: &Il2CppType,
    names: &HashMap<usize, String>,
    executor: &Il2CppExecutor,
    metadata: &Metadata,
    il2cpp: &Il2Cpp,
    ctx: Option<Il2CppGenericContext>,
) -> (r: String)
    requires
        scene_fits(scene(*executor, *metadata, *il2cpp, names@)),
        has_c_type(
            scene(*executor, *metadata, *il2cpp, names@),
            CStyle::Header,
            (Node { t: *t, ctx, special: false }),
        ),
    ensures
        r@ == c_type(
            scene(*executor, *metadata, *il2cpp, names@),
            CStyle::Header,
            Node { t: *t, ctx, special: false },
        ),
{
    let ghost s = scene(*executor, *metadata, *il2cpp, names@);
    let ghost node = Node { t: *t, ctx, special: false };
    let ghost n = choose|n: nat| settles(s, CStyle::Header, node, n);
    write_type_within(
        CStyle::Header,
        t,
        names,
        executor,
        metadata,
        il2cpp,
        ctx,
        None,
        Ghost(s),
        Ghost(n),
    ).0
}

/// The C type of a type, as a field of a structure, with the names of generic classes, and the
/// generic class with a structure of its own that it leads to.
pub(crate) fn parse_type_special(
    t: &Il2CppType,
    names: &HashMap<usize, String>,
    executor: &Il2CppExecutor,
    metadata: &Metadata,
    il2cpp: &Il2Cpp,
    ctx: Option<Il2CppGenericContext>,
    special: &HashMap<u64, String>,
    Ghost(s): Ghost<Scene>,
) -> (r: (String, Option<u64>))
    requires
        scene_fits(s),
        s.m == *metadata,
        s.il2cpp == *il2cpp,
        s.x == *executor,
        s.names == name_texts(names@),
        s.special == name_texts(special@),
        has_c_type(s, CStyle::Header, (Node { t: *t, ctx, special: true })),
    ensures
        r.0@ == c_type(s, CStyle::Header, Node { t: *t, ctx, special: true }),
        r.1 == class_reached(s, Node { t: *t, ctx, special: true }),
{
    let ghost node = Node { t: *t, ctx, special: true };
    let ghost n = choose|n: nat| settles(s, CStyle::Header, node, n);
    write_type_within(
        CStyle::Header,
        t,
        names,
        executor,
        metadata,
        il2cpp,
        ctx,
        Some(special),
        Ghost(s),
        Ghost(n),
    )
}

/// The C type of a type, as a parameter of a function.
pub fn parse_scaffolding_type(
    t: &Il2CppType,
    names: &HashMap<usize, String>,
    executor: &Il2CppExecutor,
    metadata: &Metadata,
    il2cpp: &Il2Cpp,
    ctx: Option<Il2CppGenericContext>,
) -> (r: String)
    requires
        scene_fits(scene(*executor, *metadata, *il2cpp, names@)),
        has_c_type(
            scene(*executor, *metadata, *il2cpp, names@),
            CStyle::Scaffold,
            (Node { t: *t, ctx, special: false }),
        ),
    ensures
        r@ == c_type(
            scene(*executor, *metadata, *il2cpp, names@),
            CStyle::Scaffold,
            Node { t: *t, ctx, special: false },
        ),
{
    let ghost s = scene(*executor, *metadata, *il2cpp, names@);
    let ghost node = Node { t: *t, ctx, special: false };
    let ghost n = choose|n: nat| settles(s, CStyle::Scaffold, node, n);
    write_type_within(
        CStyle::Scaffold,
        t,
        names,
        executor,
        metadata,
        il2cpp,
        ctx,
        None,
        Ghost(s),
        Ghost(n),
    ).0
}

} // verus!
