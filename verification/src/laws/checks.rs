//! What is decided about types, versions and errors.
use crate::error;
use crate::error::ErrorModel;
use crate::il2cpp::base::Il2CppModel;
use crate::il2cpp::init;
use crate::il2cpp::metadata::Metadata;
use crate::il2cpp::records::{Decoding, Mapping, RecordKind};
use crate::il2cpp::structures::{
    Il2CppCodeRegistration, Il2CppGenericContext, Il2CppMethodDefinition, Il2CppType,
};
use crate::laws::values;
use crate::laws::words;
use crate::numeral;
use crate::output::c_types::Scene;
use crate::output::type_checks;
use crate::output::type_groups;
use crate::output::type_groups::{CppTypeGroup, Resolver};
use crate::text;
use vstd::prelude::*;
use vstd::string::*;

verus! {

// Types.

/// The type definition of the generic class that a type refers to, if it is known.
pub open spec fn class_of(s: Scene, t: Il2CppType) -> Option<int> {
    let class = t.generic_class;
    if class != 0 && s.il2cpp.generic_class_at(class) is Ok && s.x.generic_class_defs@.contains_key(
        class,
    ) {
        Some(s.x.generic_class_defs@[class] as int)
    } else {
        None
    }
}

/// A value is stored as a structure where its type, or the argument that its generic parameter
/// stands for, is a value type or an instance of one, and not an enumeration.
pub proof fn law_by_value(s: Scene, t: Il2CppType, ctx: Option<Il2CppGenericContext>)
    ensures
        ({
            let u = if (t.type_enum == 0x13 || t.type_enum == 0x1e) && values::stands_for(
                s,
                t,
                ctx,
            ) is Some {
                values::stands_for(s, t, ctx)->0
            } else {
                t
            };
            let defs = s.m.type_defs@;
            let k = u.klass_index as int;
            type_checks::is_by_value(s, t, ctx) <==> {
                ||| u.type_enum == 0x11 && k < defs.len() && !defs[k].is_enum
                ||| u.type_enum == 0x15 && class_of(s, u) is Some
                    && defs[class_of(s, u)->0].is_value_type && !defs[class_of(s, u)->0].is_enum
            }
        }),
{
}

/// A type is a structure where it is a string, a class, an array, a generic class, or a value type
/// that exists. An enumeration is one where the type behind it is, a pointer where what it points
/// to is, and a generic parameter where its argument is. The values of the language are none.
pub proof fn law_custom(s: Scene, t: Il2CppType, ctx: Option<Il2CppGenericContext>)
    requires
        type_checks::is_decided(s, t, ctx),
    ensures
        ({
            let r = type_checks::is_custom(s, t, ctx);
            let e = t.type_enum;
            let types = s.il2cpp.types@;
            let defs = s.m.type_defs@;
            let k = t.klass_index as int;
            let enum_of = |td: int|
                0 <= td < defs.len() && defs[td].is_enum && defs[td].element_type_index
                    < types.len();
            &&& values::shape_of(e) is Some || e == 0x01 || e == 0x16 || e == 0x1c ==> !r
            &&& e == 0x0e || e == 0x12 || e == 0x14 || e == 0x1d ==> r
            &&& e == 0x11 && !enum_of(k) ==> r == (k < defs.len())
            &&& e == 0x11 && enum_of(k) ==> r == type_checks::is_custom(
                s,
                types[defs[k].element_type_index as int],
                ctx,
            )
            &&& e == 0x15 && (class_of(s, t) is None || !enum_of(class_of(s, t)->0)) ==> r
            &&& e == 0x15 && class_of(s, t) is Some && enum_of(class_of(s, t)->0) ==> r
                == type_checks::is_custom(
                s,
                types[defs[class_of(s, t)->0].element_type_index as int],
                ctx,
            )
            &&& e == 0x0f && 0 < t.datapoint < types.len() ==> r == type_checks::is_custom(
                s,
                types[t.datapoint as int],
                ctx,
            )
            &&& e == 0x0f && !(0 < t.datapoint < types.len()) ==> !r
            &&& e == 0x13 || e == 0x1e ==> match values::stands_for(s, t, ctx) {
                Some(u) => r == type_checks::is_custom(s, u, None),
                None => !r,
            }
        }),
{
    let n = choose|n: nat| type_checks::custom_settles(s, t, ctx, n);
    type_checks::law_is_custom(s, t, ctx, n);
    if let Some((inner, c)) = type_checks::decider(s, t, ctx) {
        type_checks::law_is_custom(s, inner, c, (n - 1) as nat);
    }
}

/// The structure of a type is that of what it points to or holds; of a generic class its own, or
/// else that of its type definition; of a class or a value type that of its type definition.
pub proof fn law_resolved(c: Resolver, t: Il2CppType)
    requires
        type_checks::has_element(c.il2cpp, t),
    ensures
        ({
            let r = type_checks::resolved_struct(c.il2cpp, c.names, c.special, t);
            let e = t.type_enum;
            let inner = c.il2cpp.types@[t.datapoint as int];
            let found = 0 < t.datapoint < c.il2cpp.types@.len();
            let own = t.generic_class != 0 && c.special.contains_key(t.generic_class);
            let named = c.names.contains_key(t.klass_index);
            &&& (e == 0x0f || e == 0x14 || e == 0x1d) && found ==> r
                == type_checks::resolved_struct(c.il2cpp, c.names, c.special, inner)
            &&& (e == 0x0f || e == 0x14 || e == 0x1d) && !found ==> r is None
            &&& e == 0x15 && own ==> r == Some(c.special[t.generic_class])
            &&& (e == 0x11 || e == 0x12 || (e == 0x15 && !own)) && named ==> r == Some(
                c.names[t.klass_index],
            )
            &&& (e == 0x11 || e == 0x12 || (e == 0x15 && !own)) && !named ==> r is None
            &&& values::shape_of(e) is Some || e == 0x01 || e == 0x0e || e == 0x13 || e == 0x16 || e
                == 0x1c || e == 0x1e ==> r is None
        }),
{
    let n = choose|n: nat| type_checks::element_settles(c.il2cpp, t, n);
    lemma_resolved(c, t, n);
    if let Some(inner) = type_checks::element_behind(c.il2cpp, t) {
        lemma_resolved(c, inner, (n - 1) as nat);
    }
}

proof fn lemma_resolved(c: Resolver, t: Il2CppType, n: nat)
    requires
        type_checks::element_settles(c.il2cpp, t, n),
    ensures
        type_checks::resolved_struct(c.il2cpp, c.names, c.special, t)
            == type_checks::resolved_within(c.il2cpp, c.names, c.special, t, n),
{
    let m = choose|m: nat| type_checks::element_settles(c.il2cpp, t, m);
    lemma_resolved_same(c, t, m, n);
}

proof fn lemma_resolved_same(c: Resolver, t: Il2CppType, a: nat, b: nat)
    requires
        type_checks::element_settles(c.il2cpp, t, a),
        type_checks::element_settles(c.il2cpp, t, b),
    ensures
        type_checks::resolved_within(c.il2cpp, c.names, c.special, t, a)
            == type_checks::resolved_within(c.il2cpp, c.names, c.special, t, b),
    decreases a,
{
    if let Some(inner) = type_checks::element_behind(c.il2cpp, t) {
        lemma_resolved_same(c, inner, (a - 1) as nat, (b - 1) as nat);
    }
}

// Groups.

/// The structure of the type at an index, if it has one.
pub open spec fn structure_at(c: Resolver, i: int) -> Option<Seq<char>> {
    if 0 <= i < c.il2cpp.types@.len() {
        type_checks::resolved_struct(c.il2cpp, c.names, c.special, c.il2cpp.types@[i])
    } else {
        None
    }
}

/// The method returns or takes the structure.
pub open spec fn mentions(c: Resolver, m: Metadata, i: int, name: Seq<char>) -> bool {
    structure_at(c, m.method_defs@[i].return_type as int) == Some(name) || exists|j: int|
        #[trigger] takes(c, m, m.method_defs@[i], j, name)
}

/// The `j`-th parameter of a method exists and is of the structure.
pub open spec fn takes(c: Resolver, m: Metadata, md: Il2CppMethodDefinition, j: int, name: Seq<char>) -> bool {
    &&& 0 <= j < md.parameter_count
    &&& md.parameter_start + j < m.parameter_defs@.len()
    &&& structure_at(c, m.parameter_defs@[md.parameter_start + j].type_index as int) == Some(name)
}

/// The method is generic: it has parameters for types, or instances.
pub open spec fn is_generic(c: Resolver, m: Metadata, i: int) -> bool {
    m.method_defs@[i].generic_container_index >= 0
        || c.il2cpp.method_definition_method_specs@.contains_key(i as usize)
}

/// The group of what a method mentions.
pub open spec fn group_of(c: Resolver, m: Metadata, i: int) -> CppTypeGroup {
    if is_generic(c, m, i) {
        CppTypeGroup::TypesFromGenericMethods
    } else {
        CppTypeGroup::TypesFromMethods
    }
}

proof fn lemma_parameters(
    g: Map<Seq<char>, CppTypeGroup>,
    c: Resolver,
    m: Metadata,
    md: Il2CppMethodDefinition,
    group: CppTypeGroup,
    k: nat,
    name: Seq<char>,
)
    requires
        k <= md.parameter_count,
    ensures
        ({
            let r = type_groups::with_parameters(g, c, m, md, group, k);
            let taken = exists|j: int| j < k && #[trigger] takes(c, m, md, j, name);
            &&& r.contains_key(name) <==> g.contains_key(name) || taken
            &&& r.contains_key(name) ==> (taken && r[name] == group) || (g.contains_key(name)
                && r[name] == g[name])
        }),
    decreases k,
{
    if k > 0 {
        lemma_parameters(g, c, m, md, group, (k - 1) as nat, name);
        let p = type_groups::with_parameters(g, c, m, md, group, (k - 1) as nat);
        let last = takes(c, m, md, k - 1, name);
        if exists|j: int| j < k && #[trigger] takes(c, m, md, j, name) {
            let j = choose|j: int| j < k && #[trigger] takes(c, m, md, j, name);
            assert(j < k - 1 || last);
        }
        if exists|j: int| j < k - 1 && #[trigger] takes(c, m, md, j, name) {
            let j = choose|j: int| j < k - 1 && #[trigger] takes(c, m, md, j, name);
            assert(j < k && takes(c, m, md, j, name));
        }
    }
}

proof fn lemma_methods(c: Resolver, m: Metadata, n: nat, name: Seq<char>)
    requires
        n <= m.method_defs@.len(),
    ensures
        ({
            let r = type_groups::groups_of_methods(c, m, n);
            &&& r.contains_key(name) <==> exists|i: int|
                0 <= i < n && #[trigger] mentions(c, m, i, name)
            &&& r.contains_key(name) ==> exists|i: int|
                0 <= i < n && #[trigger] mentions(c, m, i, name) && r[name] == group_of(c, m, i)
        }),
    decreases n,
{
    if n > 0 {
        let h = (n - 1) as nat;
        lemma_methods(c, m, h, name);
        let p = type_groups::groups_of_methods(c, m, h);
        let r = type_groups::groups_of_methods(c, m, n);
        let md = m.method_defs@[h as int];
        let group = type_groups::method_group(m, c.il2cpp, h as int);
        assert(group == group_of(c, m, h as int));
        let q = match type_groups::name_of_type(c, md.return_type as int) {
            Some(x) => p.insert(x, group),
            None => p,
        };
        lemma_parameters(q, c, m, md, group, md.parameter_count as nat, name);
        let taken = exists|j: int|
            j < md.parameter_count && #[trigger] takes(c, m, md, j, name);
        if taken {
            let j = choose|j: int| j < md.parameter_count && #[trigger] takes(c, m, md, j, name);
            assert(takes(c, m, m.method_defs@[h as int], j, name));
            assert(mentions(c, m, h as int, name));
        }
        if mentions(c, m, h as int, name) && structure_at(c, md.return_type as int) != Some(name) {
            let j = choose|j: int| #[trigger] takes(c, m, m.method_defs@[h as int], j, name);
            assert(j < md.parameter_count && takes(c, m, md, j, name));
        }
        assert(r.contains_key(name) <==> p.contains_key(name) || mentions(c, m, h as int, name));
        if exists|i: int| 0 <= i < n && #[trigger] mentions(c, m, i, name) {
            let i = choose|i: int| 0 <= i < n && #[trigger] mentions(c, m, i, name);
            assert(i < h || i == h);
        }
        if r.contains_key(name) {
            if mentions(c, m, h as int, name) && r[name] == group {
                assert(mentions(c, m, h as int, name));
            } else {
                assert(p.contains_key(name) && r[name] == p[name]);
                let i = choose|i: int|
                    0 <= i < h && #[trigger] mentions(c, m, i, name) && p[name] == group_of(
                        c,
                        m,
                        i,
                    );
                assert(mentions(c, m, i, name));
            }
        }
    }
}

/// The usage refers to the structure: the remainder of its number is 1 for a type definition and 2
/// for a type, and the quotient gives which one.
pub open spec fn usage_mentions(c: Resolver, encoded: u32, per_index: u32, name: Seq<char>) -> bool {
    let kind = encoded as int % per_index as int;
    let index = encoded as int / per_index as int;
    ||| kind == 1 && c.names.contains_key(index as usize) && c.names[index as usize] == name
    ||| kind == 2 && structure_at(c, index) == Some(name)
}

/// The `k`-th usage of the `n`-th list exists and refers to the structure.
pub open spec fn list_mentions(
    c: Resolver,
    m: Metadata,
    per_index: u32,
    n: int,
    k: int,
    name: Seq<char>,
) -> bool {
    &&& 0 <= n < m.metadata_usages@.len()
    &&& 0 <= k < m.metadata_usages@[n].1@.len()
    &&& usage_mentions(c, m.metadata_usages@[n].1@[k].1, per_index, name)
}

proof fn lemma_usages(
    g: Map<Seq<char>, CppTypeGroup>,
    c: Resolver,
    m: Metadata,
    per_index: u32,
    n: int,
    k: nat,
    name: Seq<char>,
)
    requires
        0 <= n < m.metadata_usages@.len(),
        k <= m.metadata_usages@[n].1@.len(),
        per_index > 0,
    ensures
        ({
            let r = type_groups::with_usages(g, c, m.metadata_usages@[n].1@, per_index, k);
            &&& r.contains_key(name) <==> g.contains_key(name) || exists|j: int|
                j < k && #[trigger] list_mentions(c, m, per_index, n, j, name)
            &&& g.contains_key(name) ==> r[name] == g[name]
            &&& r.contains_key(name) && !g.contains_key(name) ==> r[name]
                == CppTypeGroup::TypesFromUsages
        }),
    decreases k,
{
    if k > 0 {
        lemma_usages(g, c, m, per_index, n, (k - 1) as nat, name);
        let encoded = m.metadata_usages@[n].1@[k - 1].1;
        let last = list_mentions(c, m, per_index, n, k - 1, name);
        assert(last <==> type_groups::usage_name(c, encoded, per_index) == Some(name));
        if exists|j: int| j < k && #[trigger] list_mentions(c, m, per_index, n, j, name) {
            let j = choose|j: int|
                j < k && #[trigger] list_mentions(c, m, per_index, n, j, name);
            assert(j < k - 1 || last);
        }
        if exists|j: int| j < k - 1 && #[trigger] list_mentions(c, m, per_index, n, j, name) {
            let j = choose|j: int|
                j < k - 1 && #[trigger] list_mentions(c, m, per_index, n, j, name);
            assert(j < k && list_mentions(c, m, per_index, n, j, name));
        }
    }
}

proof fn lemma_usage_lists(
    g: Map<Seq<char>, CppTypeGroup>,
    c: Resolver,
    m: Metadata,
    per_index: u32,
    n: nat,
    name: Seq<char>,
)
    requires
        n <= m.metadata_usages@.len(),
        per_index > 0,
    ensures
        ({
            let r = type_groups::with_usage_lists(g, c, m, per_index, n);
            &&& r.contains_key(name) <==> g.contains_key(name) || exists|a: int, j: int|
                a < n && #[trigger] list_mentions(c, m, per_index, a, j, name)
            &&& g.contains_key(name) ==> r[name] == g[name]
            &&& r.contains_key(name) && !g.contains_key(name) ==> r[name]
                == CppTypeGroup::TypesFromUsages
        }),
    decreases n,
{
    if n > 0 {
        lemma_usage_lists(g, c, m, per_index, (n - 1) as nat, name);
        let p = type_groups::with_usage_lists(g, c, m, per_index, (n - 1) as nat);
        let list = m.metadata_usages@[n - 1].1@;
        lemma_usages(p, c, m, per_index, n - 1, list.len(), name);
        if exists|j: int|
            j < list.len() && #[trigger] list_mentions(c, m, per_index, n - 1, j, name) {
            let j = choose|j: int|
                j < list.len() && #[trigger] list_mentions(c, m, per_index, n - 1, j, name);
            assert(list_mentions(c, m, per_index, n - 1, j, name));
        }
        if exists|a: int, j: int|
            a < n && #[trigger] list_mentions(c, m, per_index, a, j, name) {
            let (a, j) = choose|a: int, j: int|
                a < n && #[trigger] list_mentions(c, m, per_index, a, j, name);
            assert(a < n - 1 || (a == n - 1 && j < list.len()));
        }
        if exists|a: int, j: int|
            a < n - 1 && #[trigger] list_mentions(c, m, per_index, a, j, name) {
            let (a, j) = choose|a: int, j: int|
                a < n - 1 && #[trigger] list_mentions(c, m, per_index, a, j, name);
            assert(a < n && list_mentions(c, m, per_index, a, j, name));
        }
    }
}

/// A structure that a method returns or takes is in the group of such a method: that of generic
/// methods or that of others; in the one if all methods that mention it are of that sort. A
/// structure that no method mentions but a usage does is in the group of usages. All others that
/// have a name are in the group of those that nothing uses.
pub proof fn law_groups(c: Resolver, m: Metadata, per_index: u32, name: Seq<char>)
    requires
        per_index > 0,
    ensures
        ({
            let r = type_groups::type_groups(c, m, per_index);
            let by_method = exists|i: int|
                0 <= i < m.method_defs@.len() && #[trigger] mentions(c, m, i, name);
            let by_usage = exists|n: int, k: int| #[trigger]
                list_mentions(c, m, per_index, n, k, name);
            let has_name = c.names.values().contains(name) || c.special.values().contains(name);
            &&& r.contains_key(name) <==> by_method || by_usage || has_name
            &&& by_method ==> exists|i: int|
                0 <= i < m.method_defs@.len() && #[trigger] mentions(c, m, i, name) && r[name]
                    == group_of(c, m, i)
            &&& !by_method && by_usage ==> r[name] == CppTypeGroup::TypesFromUsages
            &&& !by_method && !by_usage && has_name ==> r[name]
                == CppTypeGroup::UnusedConcreteTypes
        }),
{
    let g = type_groups::groups_of_methods(c, m, m.method_defs@.len());
    lemma_methods(c, m, m.method_defs@.len(), name);
    lemma_usage_lists(g, c, m, per_index, m.metadata_usages@.len(), name);
    let u = type_groups::with_usage_lists(g, c, m, per_index, m.metadata_usages@.len());
    if exists|n: int, k: int| #[trigger] list_mentions(c, m, per_index, n, k, name) {
        let (n, k) = choose|n: int, k: int| #[trigger]
            list_mentions(c, m, per_index, n, k, name);
        assert(n < m.metadata_usages@.len() && list_mentions(c, m, per_index, n, k, name));
    }
}

/// What a method that is not generic returns or takes stays in the group of such methods, unless a
/// later method returns it.
pub proof fn law_group_stays(c: Resolver, m: Metadata, per_index: u32, name: Seq<char>, i: int)
    requires
        per_index > 0,
        0 <= i < m.method_defs@.len(),
        mentions(c, m, i, name),
        !is_generic(c, m, i),
        forall|j: int|
            i < j < m.method_defs@.len() ==> structure_at(
                c,
                (#[trigger] m.method_defs@[j]).return_type as int,
            ) != Some(name),
    ensures
        type_groups::type_groups(c, m, per_index).contains_key(name),
        type_groups::type_groups(c, m, per_index)[name] == CppTypeGroup::TypesFromMethods,
{
    let n = m.method_defs@.len();
    lemma_group_stays(c, m, name, i, n);
    lemma_usage_lists(
        type_groups::groups_of_methods(c, m, n),
        c,
        m,
        per_index,
        m.metadata_usages@.len(),
        name,
    );
}

proof fn lemma_group_stays(c: Resolver, m: Metadata, name: Seq<char>, i: int, n: nat)
    requires
        0 <= i < n <= m.method_defs@.len(),
        mentions(c, m, i, name),
        !is_generic(c, m, i),
        forall|j: int|
            i < j < m.method_defs@.len() ==> structure_at(
                c,
                (#[trigger] m.method_defs@[j]).return_type as int,
            ) != Some(name),
    ensures
        type_groups::groups_of_methods(c, m, n).contains_key(name),
        type_groups::groups_of_methods(c, m, n)[name] == CppTypeGroup::TypesFromMethods,
    decreases n,
{
    let h = (n - 1) as nat;
    let p = type_groups::groups_of_methods(c, m, h);
    let md = m.method_defs@[h as int];
    let group = type_groups::method_group(m, c.il2cpp, h as int);
    let q = match type_groups::name_of_type(c, md.return_type as int) {
        Some(x) => p.insert(x, group),
        None => p,
    };
    if i < h {
        lemma_group_stays(c, m, name, i, h);
        assert(structure_at(c, m.method_defs@[h as int].return_type as int) != Some(name));
        assert(q.contains_key(name) && q[name] == CppTypeGroup::TypesFromMethods);
    } else {
        assert(group == CppTypeGroup::TypesFromMethods);
        if structure_at(c, md.return_type as int) != Some(name) {
            let j = choose|j: int| #[trigger] takes(c, m, m.method_defs@[i], j, name);
            assert(takes(c, m, md, j, name));
        }
    }
    lemma_kept_group(q, c, m, md, group, md.parameter_count as nat, name);
}

proof fn lemma_kept_group(
    g: Map<Seq<char>, CppTypeGroup>,
    c: Resolver,
    m: Metadata,
    md: Il2CppMethodDefinition,
    group: CppTypeGroup,
    k: nat,
    name: Seq<char>,
)
    requires
        k <= md.parameter_count,
    ensures
        ({
            let r = type_groups::with_parameters(g, c, m, md, group, k);
            let taken = exists|j: int| j < k && #[trigger] takes(c, m, md, j, name);
            &&& g.contains_key(name) && g[name] == CppTypeGroup::TypesFromMethods
                ==> r.contains_key(name) && r[name] == CppTypeGroup::TypesFromMethods
            &&& taken && group == CppTypeGroup::TypesFromMethods ==> r.contains_key(name)
                && r[name] == CppTypeGroup::TypesFromMethods
        }),
    decreases k,
{
    if k > 0 {
        lemma_kept_group(g, c, m, md, group, (k - 1) as nat, name);
        let last = takes(c, m, md, k - 1, name);
        if exists|j: int| j < k && #[trigger] takes(c, m, md, j, name) {
            let j = choose|j: int| j < k && #[trigger] takes(c, m, md, j, name);
            assert(j < k - 1 || last);
        }
    }
}

// Versions.

/// A place that is moved back by a number of pointers, but not before the beginning.
pub open spec fn back(at: u64, pointers: int, pointer_len: int) -> int {
    if at >= pointers * pointer_len {
        at - pointers * pointer_len
    } else {
        0
    }
}

/// A count of a code registration that is above the limit is a pointer: the record begins earlier
/// than it seemed, by as many pointers as the layouts differ by, and is of the later version. A
/// record of version 31 whose counts make sense is of version 29. One of version 24.4 always begins
/// two pointers earlier, and three if it is of version 24.5. One of version 24.2 that has no
/// interop data is of version 24.3 and begins two pointers earlier.
pub proof fn law_adjusted(
    version: u32,
    at: u64,
    cr: Il2CppCodeRegistration,
    limit: u64,
    pointer_len: nat,
)
    requires
        at != 0,
        pointer_len == 4 || pointer_len == 8,
    ensures
        ({
            let r = init::adjusted(version, at, cr, limit, pointer_len);
            let generics = cr.generic_method_pointers_count > limit;
            let wrappers = cr.reverse_pinvoke_wrapper_count > limit;
            let p = pointer_len as int;
            &&& version == words::version_number(31, 0) ==> if generics {
                r.0 == words::version_number(31, 0) && r.1 == back(at, 2, p)
            } else {
                r.0 == words::version_number(29, 0) && r.1 == at
            }
            &&& version == words::version_number(29, 0) ==> if generics {
                r.0 == words::version_number(29, 1) && r.1 == back(at, 2, p)
            } else {
                r.0 == version && r.1 == at
            }
            &&& version == words::version_number(27, 0) ==> if wrappers {
                r.0 == words::version_number(27, 1) && r.1 == back(at, 1, p)
            } else {
                r.0 == version && r.1 == at
            }
            &&& version == words::version_number(24, 4) ==> if wrappers {
                r.0 == words::version_number(24, 5) && r.1 == back(at, 3, p)
            } else {
                r.0 == version && r.1 == back(at, 2, p)
            }
            &&& version == words::version_number(24, 2) ==> if cr.interop_data_count == 0 {
                r.0 == words::version_number(24, 3) && r.1 == back(at, 2, p)
            } else {
                r.0 == version && r.1 == at
            }
            &&& version != words::version_number(31, 0) && version != words::version_number(29, 0)
                && version != words::version_number(27, 0) && version != words::version_number(
                24,
                4,
            ) && version != words::version_number(24, 2) ==> r == (version, at)
        }),
{
}

/// Reading an image whose code registration may be misplaced first reads the record there. Where it
/// cannot be read, or the version is before 24.2, the place and the version stay. An image that was
/// taken for version 31 and cannot be read is read once more as version 29, unless it was taken for
/// that already.
pub proof fn law_auto_plus(
    m: Il2CppModel,
    at: u64,
    metadata_registration: u64,
    map: Mapping,
    decoding: Decoding,
    is_wasm: bool,
)
    ensures
        ({
            let r = init::initialised_with_auto_plus(
                m,
                at,
                metadata_registration,
                map,
                decoding,
                is_wasm,
            );
            let read = decoding(
                m.bytes,
                m.stream_is_32bit,
                RecordKind::CodeRegistration,
                map(at)->Ok_0,
                m.stream_version,
            );
            let known = at != 0 && m.stream_version >= words::version_number(24, 2) && map(
                at,
            ) is Ok && read is Ok;
            let limit = if is_wasm {
                0x35000u64
            } else {
                0x50000u64
            };
            let (version, place) = if known {
                init::adjusted(
                    m.stream_version,
                    at,
                    read->Ok_0.0->CodeRegistration_0,
                    limit,
                    words::pointer_bytes(m.stream_is_32bit) as nat,
                )
            } else {
                (m.stream_version, at)
            };
            let first = init::initialised(
                Il2CppModel { stream_version: version, version, ..m },
                place,
                metadata_registration,
                map,
                decoding,
            );
            let again = m.stream_version == words::version_number(31, 0) && first.1 is Err
                && version != words::version_number(29, 0);
            &&& !again ==> r == first
            &&& again ==> r == init::initialised(
                Il2CppModel { stream_version: 2900u32, version: 2900u32, ..first.0 },
                place,
                metadata_registration,
                map,
                decoding,
            )
        }),
{
    let a = init::refined(
        m.bytes,
        m.stream_is_32bit,
        m.stream_version,
        at,
        map,
        decoding,
        if is_wasm {
            0x35000
        } else {
            0x50000
        },
    );
    let place = match a.1 {
        Ok(cr) => cr,
        Err(_) => at,
    };
    init::law_init_keeps(
        Il2CppModel { stream_version: a.0, version: a.0, ..m },
        place,
        metadata_registration,
        map,
        decoding,
    );
}

// Errors.

/// The text of an error says of what sort it is, and gives its message, place or number.
pub proof fn law_error_text(e: ErrorModel)
    ensures
        e matches ErrorModel::InvalidMetadata(s) ==> error::error_text(e)
            == "Invalid metadata file: "@ + s,
        e matches ErrorModel::UnsupportedVersion(v) ==> error::error_text(e)
            == "Unsupported metadata version: "@ + numeral::dec_int(v),
        e matches ErrorModel::AddressNotMapped(a) ==> error::error_text(e) == "Address 0x"@
            + numeral::numeral(a, 16, false) + " not in any segment"@,
        e matches ErrorModel::InvalidFormat(s) ==> error::error_text(e)
            == "Invalid binary format: "@ + s,
        e matches ErrorModel::OutOfBounds { offset, size } ==> text::starts_with(
            error::error_text(e),
            "Read out of bounds: offset 0x"@ + numeral::numeral(offset, 16, false) + ", size "@
                + numeral::dec(size),
        ),
        e matches ErrorModel::InvalidArraySize { count, elem_size, context } ==> error::error_text(
            e,
        ) == "Invalid array size: count="@ + numeral::dec(count) + ", element_size="@
            + numeral::dec(elem_size) + " ("@ + context + ")"@,
        e matches ErrorModel::Io { unexpected_eof, message } ==> error::error_text(e)
            == "IO error: "@ + message,
        e matches ErrorModel::CyclicDependency(s) ==> error::error_text(e)
            == "Cyclic value-type dependency: "@ + s,
        e matches ErrorModel::Other(s) ==> error::error_text(e) == s,
{
    if let ErrorModel::OutOfBounds { offset, size } = e {
        let head = "Read out of bounds: offset 0x"@ + numeral::numeral(offset, 16, false)
            + ", size "@ + numeral::dec(size);
        assert(error::error_text(e).subrange(0, head.len() as int) =~= head);
    }
}

/// A read past the end, an early end and an implausible table are told as errors of the metadata
/// with their places and sizes and the size of the file.
pub proof fn law_in_metadata(e: ErrorModel, file_len: nat)
    ensures
        e matches ErrorModel::OutOfBounds { offset, size } ==> (error::in_metadata(
            e,
            file_len,
        ) matches ErrorModel::InvalidMetadata(s) && text::starts_with(
            s,
            "Read past end of metadata while parsing tables (offset 0x"@ + numeral::numeral(
                offset,
                16,
                true,
            ) + ", need "@ + numeral::dec(size) + " bytes, file size "@ + numeral::dec(file_len),
        )),
        e matches ErrorModel::Io { unexpected_eof, message } && (unexpected_eof || text::contains(
            message,
            "fill whole buffer"@,
        )) ==> (error::in_metadata(e, file_len) matches ErrorModel::InvalidMetadata(s)
            && text::starts_with(
            s,
            "Unexpected end of metadata file while parsing tables (file size "@ + numeral::dec(
                file_len,
            ),
        )),
        e matches ErrorModel::InvalidArraySize { count, elem_size, context } ==> (
        error::in_metadata(e, file_len) matches ErrorModel::InvalidMetadata(s)
            && text::starts_with(
            s,
            "Implausible metadata table size in '"@ + context + "' (count="@ + numeral::dec(count)
                + ", element_size="@ + numeral::dec(elem_size) + ", file size "@ + numeral::dec(
                file_len,
            ),
        )),
{
    if let ErrorModel::OutOfBounds { offset, size } = e {
        let head = "Read past end of metadata while parsing tables (offset 0x"@ + numeral::numeral(
            offset,
            16,
            true,
        ) + ", need "@ + numeral::dec(size) + " bytes, file size "@ + numeral::dec(file_len);
        let s = error::in_metadata(e, file_len)->InvalidMetadata_0;
        assert(s.subrange(0, head.len() as int) =~= head);
    }
    if let ErrorModel::Io { unexpected_eof, message } = e {
        if unexpected_eof || text::contains(message, "fill whole buffer"@) {
            let head = "Unexpected end of metadata file while parsing tables (file size "@
                + numeral::dec(file_len);
            let s = error::in_metadata(e, file_len)->InvalidMetadata_0;
            assert(s.subrange(0, head.len() as int) =~= head);
        }
    }
    if let ErrorModel::InvalidArraySize { count, elem_size, context } = e {
        let head = "Implausible metadata table size in '"@ + context + "' (count="@ + numeral::dec(
            count,
        ) + ", element_size="@ + numeral::dec(elem_size) + ", file size "@ + numeral::dec(
            file_len,
        );
        let s = error::in_metadata(e, file_len)->InvalidMetadata_0;
        assert(s.subrange(0, head.len() as int) =~= head);
    }
}

/// The text of an error for a user says that the metadata is at fault where a read, a table or the
/// version is, with the place, the table or the version, and is the text of the error elsewhere.
pub proof fn law_user_texts(e: ErrorModel)
    ensures
        e matches ErrorModel::InvalidMetadata(s) ==> error::user_text(e) == "Metadata error: "@ + s,
        e matches ErrorModel::UnsupportedVersion(v) ==> text::starts_with(
            error::user_text(e),
            "Metadata error: unsupported metadata version "@ + numeral::dec_int(v),
        ),
        e matches ErrorModel::OutOfBounds { offset, size } ==> text::starts_with(
            error::user_text(e),
            "Metadata error: read past end of file (offset 0x"@ + numeral::numeral(offset, 16, true)
                + ", size "@ + numeral::dec(size),
        ),
        e matches ErrorModel::InvalidArraySize { count, elem_size, context } ==> text::starts_with(
            error::user_text(e),
            "Metadata error: invalid table size ("@ + context,
        ),
        e matches ErrorModel::Io { unexpected_eof, message } && !(unexpected_eof || text::contains(
            message,
            "fill whole buffer"@,
        )) ==> error::user_text(e) == error::error_text(e),
        e is AddressNotMapped || e is InvalidFormat || e is CyclicDependency || e is Other
            ==> error::user_text(e) == error::error_text(e),
{
    if let ErrorModel::UnsupportedVersion(v) = e {
        let head = "Metadata error: unsupported metadata version "@ + numeral::dec_int(v);
        assert(error::user_text(e).subrange(0, head.len() as int) =~= head);
    }
    if let ErrorModel::OutOfBounds { offset, size } = e {
        let head = "Metadata error: read past end of file (offset 0x"@ + numeral::numeral(
            offset,
            16,
            true,
        ) + ", size "@ + numeral::dec(size);
        assert(error::user_text(e).subrange(0, head.len() as int) =~= head);
    }
    if let ErrorModel::InvalidArraySize { count, elem_size, context } = e {
        let head = "Metadata error: invalid table size ("@ + context;
        assert(error::user_text(e).subrange(0, head.len() as int) =~= head);
    }
}

} // verus!
