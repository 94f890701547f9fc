//! What kinds of C types types are written as, and which structures they name.
use crate::executor::Il2CppExecutor;
use crate::il2cpp::base::Il2Cpp;
use crate::il2cpp::enums::Il2CppTypeEnum;
use crate::il2cpp::metadata::Metadata;
use crate::il2cpp::structures::{Il2CppGenericContext, Il2CppType};
use crate::output::c_types;
use crate::output::c_types::Scene;
use std::collections::HashMap;
use vstd::prelude::*;
use vstd::string::*;

verus! {

// Value types.

/// The type is written as a structure by value, whatever generic parameters stand for.
pub open spec fn plainly_by_value(s: Scene, t: Il2CppType) -> bool {
    match t.element() {
        Some(Il2CppTypeEnum::ValueType) => t.klass_index < s.m.type_defs@.len()
            && !s.m.type_defs@[t.klass_index as int].is_enum,
        Some(Il2CppTypeEnum::GenericInst) => match c_types::class_def(s, t.generic_class) {
            Some(td) => s.m.type_defs@[td].is_value_type && !s.m.type_defs@[td].is_enum,
            None => false,
        },
        _ => false,
    }
}

/// The type is written as a structure by value.
pub open spec fn is_by_value(s: Scene, t: Il2CppType, ctx: Option<Il2CppGenericContext>) -> bool {
    match c_types::parameter_type(s.il2cpp, t, ctx) {
        Some(inner) => plainly_by_value(s, inner),
        None => plainly_by_value(s, t),
    }
}

fn check_plainly_by_value(
    t: &Il2CppType,
    metadata: &Metadata,
    il2cpp: &Il2Cpp,
    executor: &Il2CppExecutor,
    Ghost(s): Ghost<Scene>,
) -> (r: bool)
    requires
        c_types::scene_fits(s),
        s.m == *metadata,
        s.il2cpp == *il2cpp,
        s.x == *executor,
    ensures
        r == plainly_by_value(s, *t),
{
    match t.element_type() {
        Some(Il2CppTypeEnum::ValueType) => t.klass_index < metadata.type_defs.len()
            && !metadata.type_defs[t.klass_index].is_enum,
        Some(Il2CppTypeEnum::GenericInst) => match c_types::find_class_def(
            executor,
            il2cpp,
            t.generic_class,
            Ghost(s),
        ) {
            Some(td) => metadata.type_defs[td].is_value_type && !metadata.type_defs[td].is_enum,
            None => false,
        },
        _ => false,
    }
}

/// Whether the type is written as a structure by value.
pub(crate) fn is_value_type_check(
    t: &Il2CppType,
    metadata: &Metadata,
    il2cpp: &Il2Cpp,
    executor: &Il2CppExecutor,
    ctx: Option<Il2CppGenericContext>,
    Ghost(s): Ghost<Scene>,
) -> (r: bool)
    requires
        c_types::scene_fits(s),
        s.m == *metadata,
        s.il2cpp == *il2cpp,
        s.x == *executor,
    ensures
        r == is_by_value(s, *t, ctx),
{
    match c_types::resolve_parameter(il2cpp, t, ctx) {
        Some(inner) => check_plainly_by_value(&inner, metadata, il2cpp, executor, Ghost(s)),
        None => check_plainly_by_value(t, metadata, il2cpp, executor, Ghost(s)),
    }
}

// Custom types.

/// The type that decides for a type: what a pointer points to, the type behind an enumeration,
/// what a generic parameter stands for.
pub open spec fn decider(s: Scene, t: Il2CppType, ctx: Option<Il2CppGenericContext>) -> Option<
    (Il2CppType, Option<Il2CppGenericContext>),
> {
    match t.element() {
        Some(Il2CppTypeEnum::Ptr) => match c_types::inner_type(s.il2cpp, t) {
            Some(inner) => Some((inner, ctx)),
            None => None,
        },
        Some(Il2CppTypeEnum::ValueType) => match c_types::enum_type(s, t.klass_index as int) {
            Some(inner) => Some((inner, ctx)),
            None => None,
        },
        Some(Il2CppTypeEnum::GenericInst) => match c_types::class_def(s, t.generic_class) {
            Some(td) => match c_types::enum_type(s, td) {
                Some(inner) => Some((inner, ctx)),
                None => None,
            },
            None => None,
        },
        Some(Il2CppTypeEnum::Var) | Some(Il2CppTypeEnum::MVar) => match c_types::parameter_type(
            s.il2cpp,
            t,
            ctx,
        ) {
            Some(inner) => Some((inner, None)),
            None => None,
        },
        _ => None,
    }
}

/// A type for which no other type decides is a custom type.
pub open spec fn plainly_custom(s: Scene, t: Il2CppType) -> bool {
    match t.element() {
        Some(Il2CppTypeEnum::String) | Some(Il2CppTypeEnum::Class) | Some(
            Il2CppTypeEnum::Array,
        ) | Some(Il2CppTypeEnum::SzArray) | Some(Il2CppTypeEnum::GenericInst) => true,
        Some(Il2CppTypeEnum::ValueType) => t.klass_index < s.m.type_defs@.len(),
        _ => false,
    }
}

/// After at most `n` steps no other type decides.
pub open spec fn custom_settles(
    s: Scene,
    t: Il2CppType,
    ctx: Option<Il2CppGenericContext>,
    n: nat,
) -> bool
    decreases n,
{
    match decider(s, t, ctx) {
        Some((inner, c)) => n > 0 && custom_settles(s, inner, c, (n - 1) as nat),
        None => true,
    }
}

/// The type is a custom type, followed for at most `n` steps.
pub open spec fn custom_within(
    s: Scene,
    t: Il2CppType,
    ctx: Option<Il2CppGenericContext>,
    n: nat,
) -> bool
    decreases n,
{
    match decider(s, t, ctx) {
        Some((inner, c)) => n > 0 && custom_within(s, inner, c, (n - 1) as nat),
        None => plainly_custom(s, t),
    }
}

/// It can be decided whether the type is a custom type.
pub open spec fn is_decided(s: Scene, t: Il2CppType, ctx: Option<Il2CppGenericContext>) -> bool {
    exists|n: nat| custom_settles(s, t, ctx, n)
}

/// The type is a custom type: one that is declared as a structure.
pub open spec fn is_custom(s: Scene, t: Il2CppType, ctx: Option<Il2CppGenericContext>) -> bool {
    custom_within(s, t, ctx, choose|n: nat| custom_settles(s, t, ctx, n))
}

proof fn lemma_custom_within(
    s: Scene,
    t: Il2CppType,
    ctx: Option<Il2CppGenericContext>,
    a: nat,
    b: nat,
)
    requires
        custom_settles(s, t, ctx, a),
        custom_settles(s, t, ctx, b),
    ensures
        custom_within(s, t, ctx, a) == custom_within(s, t, ctx, b),
    decreases a,
{
    if let Some((inner, c)) = decider(s, t, ctx) {
        lemma_custom_within(s, inner, c, (a - 1) as nat, (b - 1) as nat);
    }
}

/// Whether a type is a custom type does not depend on how many steps are allowed, as long as they
/// are enough.
pub proof fn law_is_custom(s: Scene, t: Il2CppType, ctx: Option<Il2CppGenericContext>, n: nat)
    requires
        custom_settles(s, t, ctx, n),
    ensures
        is_custom(s, t, ctx) == custom_within(s, t, ctx, n),
{
    let m = choose|m: nat| custom_settles(s, t, ctx, m);
    lemma_custom_within(s, t, ctx, m, n);
}

fn find_decider(
    t: &Il2CppType,
    metadata: &Metadata,
    il2cpp: &Il2Cpp,
    executor: &Il2CppExecutor,
    ctx: Option<Il2CppGenericContext>,
    Ghost(s): Ghost<Scene>,
) -> (r: Option<(Il2CppType, Option<Il2CppGenericContext>)>)
    requires
        c_types::scene_fits(s),
        s.m == *metadata,
        s.il2cpp == *il2cpp,
        s.x == *executor,
    ensures
        r == decider(s, *t, ctx),
{
    let inner = match t.element_type() {
        Some(Il2CppTypeEnum::Ptr) => il2cpp.inner_type(t),
        Some(Il2CppTypeEnum::ValueType) => c_types::find_enum_type(
            metadata,
            il2cpp,
            t.klass_index,
            Ghost(s),
        ),
        Some(Il2CppTypeEnum::GenericInst) => match c_types::find_class_def(
            executor,
            il2cpp,
            t.generic_class,
            Ghost(s),
        ) {
            Some(td) => c_types::find_enum_type(metadata, il2cpp, td, Ghost(s)),
            None => None,
        },
        Some(Il2CppTypeEnum::Var) | Some(Il2CppTypeEnum::MVar) => {
            return match c_types::resolve_parameter(il2cpp, t, ctx) {
                Some(inner) => Some((inner, None)),
                None => None,
            };
        },
        _ => None,
    };
    match inner {
        Some(inner) => Some((inner, ctx)),
        None => None,
    }
}

fn check_custom_within(
    t: &Il2CppType,
    metadata: &Metadata,
    il2cpp: &Il2Cpp,
    executor: &Il2CppExecutor,
    ctx: Option<Il2CppGenericContext>,
    Ghost(s): Ghost<Scene>,
    Ghost(n): Ghost<nat>,
) -> (r: bool)
    requires
        c_types::scene_fits(s),
        s.m == *metadata,
        s.il2cpp == *il2cpp,
        s.x == *executor,
        custom_settles(s, *t, ctx, n),
    ensures
        r == custom_within(s, *t, ctx, n),
    decreases n,
{
    match find_decider(t, metadata, il2cpp, executor, ctx, Ghost(s)) {
        Some((inner, c)) => check_custom_within(
            &inner,
            metadata,
            il2cpp,
            executor,
            c,
            Ghost(s),
            Ghost((n - 1) as nat),
        ),
        None => match t.element_type() {
            Some(Il2CppTypeEnum::String) | Some(Il2CppTypeEnum::Class) | Some(
                Il2CppTypeEnum::Array,
            ) | Some(Il2CppTypeEnum::SzArray) | Some(Il2CppTypeEnum::GenericInst) => true,
            Some(Il2CppTypeEnum::ValueType) => t.klass_index < metadata.type_defs.len(),
            _ => false,
        },
    }
}

/// Whether the type is a custom type.
pub(crate) fn is_custom_type_check(
    t: &Il2CppType,
    metadata: &Metadata,
    il2cpp: &Il2Cpp,
    executor: &Il2CppExecutor,
    ctx: Option<Il2CppGenericContext>,
    Ghost(s): Ghost<Scene>,
) -> (r: bool)
    requires
        c_types::scene_fits(s),
        s.m == *metadata,
        s.il2cpp == *il2cpp,
        s.x == *executor,
        is_decided(s, *t, ctx),
    ensures
        r == is_custom(s, *t, ctx),
{
    let ghost n = choose|n: nat| custom_settles(s, *t, ctx, n);
    check_custom_within(t, metadata, il2cpp, executor, ctx, Ghost(s), Ghost(n))
}

// Which structure a type names.

/// The structure that a class or a value type names.
pub open spec fn named_struct(names: Map<usize, Seq<char>>, t: Il2CppType) -> Option<Seq<char>> {
    match t.element() {
        Some(Il2CppTypeEnum::Class) | Some(Il2CppTypeEnum::ValueType) => if names.contains_key(
            t.klass_index,
        ) {
            Some(names[t.klass_index])
        } else {
            None
        },
        _ => None,
    }
}

/// The structure that a class or a value type names.
pub fn get_struct_name_for_type<'a>(t: &Il2CppType, names: &'a HashMap<usize, String>) -> (r: Option<
    &'a String,
>)
    ensures
        match r {
            Some(name) => named_struct(c_types::name_texts(names@), *t) == Some(name@),
            None => named_struct(c_types::name_texts(names@), *t) is None,
        },
{
    match t.element_type() {
        Some(Il2CppTypeEnum::Class) | Some(Il2CppTypeEnum::ValueType) => names.get(&t.klass_index),
        _ => None,
    }
}

/// The type behind pointers and arrays.
pub open spec fn element_behind(il2cpp: Il2Cpp, t: Il2CppType) -> Option<Il2CppType> {
    match t.element() {
        Some(Il2CppTypeEnum::Ptr) | Some(Il2CppTypeEnum::SzArray) | Some(
            Il2CppTypeEnum::Array,
        ) => c_types::inner_type(il2cpp, t),
        _ => None,
    }
}

/// After at most `n` steps no pointer or array is left.
pub open spec fn element_settles(il2cpp: Il2Cpp, t: Il2CppType, n: nat) -> bool
    decreases n,
{
    match element_behind(il2cpp, t) {
        Some(inner) => n > 0 && element_settles(il2cpp, inner, (n - 1) as nat),
        None => true,
    }
}

/// The structure that a type names, behind at most `n` pointers and arrays.
pub open spec fn resolved_within(
    il2cpp: Il2Cpp,
    names: Map<usize, Seq<char>>,
    special: Map<u64, Seq<char>>,
    t: Il2CppType,
    n: nat,
) -> Option<Seq<char>>
    decreases n,
{
    match element_behind(il2cpp, t) {
        Some(inner) => if n > 0 {
            resolved_within(il2cpp, names, special, inner, (n - 1) as nat)
        } else {
            None
        },
        None => match t.element() {
            Some(Il2CppTypeEnum::GenericInst) => if t.generic_class != 0 && special.contains_key(
                t.generic_class,
            ) {
                Some(special[t.generic_class])
            } else if names.contains_key(t.klass_index) {
                Some(names[t.klass_index])
            } else {
                None
            },
            _ => named_struct(names, t),
        },
    }
}

/// The pointers and arrays of the type end somewhere.
pub open spec fn has_element(il2cpp: Il2Cpp, t: Il2CppType) -> bool {
    exists|n: nat| element_settles(il2cpp, t, n)
}

/// The structure that a type names, behind its pointers and arrays.
pub open spec fn resolved_struct(
    il2cpp: Il2Cpp,
    names: Map<usize, Seq<char>>,
    special: Map<u64, Seq<char>>,
    t: Il2CppType,
) -> Option<Seq<char>> {
    resolved_within(il2cpp, names, special, t, choose|n: nat| element_settles(il2cpp, t, n))
}

fn resolve_within(
    t: &Il2CppType,
    il2cpp: &Il2Cpp,
    names: &HashMap<usize, String>,
    special: &HashMap<u64, String>,
    Ghost(n): Ghost<nat>,
) -> (r: Option<String>)
    requires
        element_settles(*il2cpp, *t, n),
    ensures
        match r {
            Some(name) => resolved_within(
                *il2cpp,
                c_types::name_texts(names@),
                c_types::name_texts(special@),
                *t,
                n,
            ) == Some(name@),
            None => resolved_within(
                *il2cpp,
                c_types::name_texts(names@),
                c_types::name_texts(special@),
                *t,
                n,
            ) is None,
        },
    decreases n,
{
    let inner = match t.element_type() {
        Some(Il2CppTypeEnum::Ptr) | Some(Il2CppTypeEnum::SzArray) | Some(
            Il2CppTypeEnum::Array,
        ) => il2cpp.inner_type(t),
        _ => None,
    };
    if let Some(inner) = inner {
        return resolve_within(&inner, il2cpp, names, special, Ghost((n - 1) as nat));
    }
    match t.element_type() {
        Some(Il2CppTypeEnum::GenericInst) => {
            if t.generic_class != 0 {
                if let Some(name) = special.get(&t.generic_class) {
                    return Some(name.clone());
                }
            }
            match names.get(&t.klass_index) {
                Some(name) => Some(name.clone()),
                None => None,
            }
        },
        _ => match get_struct_name_for_type(t, names) {
            Some(name) => Some(name.clone()),
            None => None,
        },
    }
}

/// The structure that a type names, behind its pointers and arrays.
pub fn resolve_il2cpp_type_name(
    t: &Il2CppType,
    il2cpp: &Il2Cpp,
    names: &HashMap<usize, String>,
    special: &HashMap<u64, String>,
) -> (r: Option<String>)
    requires
        has_element(*il2cpp, *t),
    ensures
        match r {
            Some(name) => resolved_struct(
                *il2cpp,
                c_types::name_texts(names@),
                c_types::name_texts(special@),
                *t,
            ) == Some(name@),
            None => resolved_struct(
                *il2cpp,
                c_types::name_texts(names@),
                c_types::name_texts(special@),
                *t,
            ) is None,
        },
{
    let ghost n = choose|n: nat| element_settles(*il2cpp, *t, n);
    resolve_within(t, il2cpp, names, special, Ghost(n))
}

} // verus!
