//! The groups that the structures of a header belong to, by what they are used for.
use crate::il2cpp::base::Il2Cpp;
use crate::il2cpp::metadata::Metadata;
use crate::il2cpp::structures::Il2CppMethodDefinition;
use crate::names::NameMap;
use crate::output::c_types;
use crate::output::type_checks;
use std::collections::HashMap;
use vstd::prelude::*;
use vstd::std_specs::iter::IteratorSpec;
use vstd::string::*;

verus! {

/// What a structure is used for.
#[derive(Debug, Clone, Copy, PartialEq, Eq, Structural)]
pub enum CppTypeGroup {
    TypesFromMethods,
    TypesFromGenericMethods,
    TypesFromUsages,
    UnusedConcreteTypes,
}

/// The groups of structures by name.
pub type Groups = Map<Seq<char>, CppTypeGroup>;

/// The structures that types are resolved to.
pub struct Resolver {
    pub il2cpp: Il2Cpp,
    pub names: Map<usize, Seq<char>>,
    pub special: Map<u64, Seq<char>>,
}

/// The structure that the type at an index names.
pub open spec fn name_of_type(c: Resolver, i: int) -> Option<Seq<char>> {
    match c_types::type_by_index(c.il2cpp, i) {
        Some(t) => type_checks::resolved_struct(c.il2cpp, c.names, c.special, t),
        None => None,
    }
}

/// The pointers and arrays of the type at an index, if there is one, end somewhere.
pub open spec fn type_ends(il2cpp: Il2Cpp, i: int) -> bool {
    c_types::type_by_index(il2cpp, i) matches Some(t) ==> type_checks::has_element(il2cpp, t)
}

/// The type of the `j`-th parameter of a method, if there is such a parameter.
pub open spec fn parameter_index(m: Metadata, def: Il2CppMethodDefinition, j: int) -> Option<int> {
    if 0 <= def.parameter_start + j < m.parameter_defs@.len() {
        Some(m.parameter_defs@[def.parameter_start + j].type_index as int)
    } else {
        None
    }
}

/// The types of a method end somewhere.
pub open spec fn method_ends(m: Metadata, il2cpp: Il2Cpp, def: Il2CppMethodDefinition) -> bool {
    &&& type_ends(il2cpp, def.return_type as int)
    &&& forall|j: int|
        0 <= j < def.parameter_count ==> (#[trigger] parameter_index(m, def, j) matches Some(i)
            ==> type_ends(il2cpp, i))
}

/// The group of the types of a method.
pub open spec fn method_group(m: Metadata, il2cpp: Il2Cpp, i: int) -> CppTypeGroup {
    if m.method_defs@[i].generic_container_index >= 0
        || il2cpp.method_definition_method_specs@.contains_key(i as usize) {
        CppTypeGroup::TypesFromGenericMethods
    } else {
        CppTypeGroup::TypesFromMethods
    }
}

/// The groups after the first `k` parameters of a method: what a plain method uses stays with the
/// plain methods.
pub open spec fn with_parameters(
    g: Groups,
    c: Resolver,
    m: Metadata,
    def: Il2CppMethodDefinition,
    group: CppTypeGroup,
    k: nat,
) -> Groups
    decreases k,
{
    if k == 0 {
        g
    } else {
        let p = with_parameters(g, c, m, def, group, (k - 1) as nat);
        match parameter_index(m, def, k - 1) {
            Some(i) => match name_of_type(c, i) {
                Some(name) => if p.contains_key(name) && p[name]
                    == CppTypeGroup::TypesFromMethods {
                    p
                } else {
                    p.insert(name, group)
                },
                None => p,
            },
            None => p,
        }
    }
}

/// The groups after the first `n` methods.
pub open spec fn groups_of_methods(c: Resolver, m: Metadata, n: nat) -> Groups
    decreases n,
{
    if n == 0 {
        Map::empty()
    } else {
        let p = groups_of_methods(c, m, (n - 1) as nat);
        let def = m.method_defs@[n - 1];
        let group = method_group(m, c.il2cpp, n - 1);
        let q = match name_of_type(c, def.return_type as int) {
            Some(name) => p.insert(name, group),
            None => p,
        };
        with_parameters(q, c, m, def, group, def.parameter_count as nat)
    }
}

/// The groups with a structure that is used for nothing else so far.
pub open spec fn with_unseen(g: Groups, name: Option<Seq<char>>, group: CppTypeGroup) -> Groups {
    match name {
        Some(name) => if g.contains_key(name) {
            g
        } else {
            g.insert(name, group)
        },
        None => g,
    }
}

/// The structure that an encoded usage names: its remainder tells the kind, its quotient the index.
pub open spec fn usage_name(c: Resolver, encoded: u32, per_index: u32) -> Option<Seq<char>> {
    let kind = encoded as int % per_index as int;
    let index = encoded as int / per_index as int;
    if kind == 1 {
        if c.names.contains_key(index as usize) {
            Some(c.names[index as usize])
        } else {
            None
        }
    } else if kind == 2 {
        name_of_type(c, index)
    } else {
        None
    }
}

/// The groups after the first `k` usages of a list.
pub open spec fn with_usages(g: Groups, c: Resolver, list: Seq<(u32, u32)>, per_index: u32, k: nat) -> Groups
    decreases k,
{
    if k == 0 {
        g
    } else {
        with_unseen(
            with_usages(g, c, list, per_index, (k - 1) as nat),
            usage_name(c, list[k - 1].1, per_index),
            CppTypeGroup::TypesFromUsages,
        )
    }
}

/// The groups after the first `n` lists of usages.
pub open spec fn with_usage_lists(g: Groups, c: Resolver, m: Metadata, per_index: u32, n: nat) -> Groups
    decreases n,
{
    if n == 0 {
        g
    } else {
        let list = m.metadata_usages@[n - 1].1@;
        with_usages(
            with_usage_lists(g, c, m, per_index, (n - 1) as nat),
            c,
            list,
            per_index,
            list.len(),
        )
    }
}

/// The groups with all structures that are not used.
pub open spec fn with_rest(g: Groups, c: Resolver) -> Groups {
    Map::new(
        |name: Seq<char>|
            g.contains_key(name) || c.names.values().contains(name) || c.special.values().contains(
                name,
            ),
        |name: Seq<char>|
            if g.contains_key(name) {
                g[name]
            } else {
                CppTypeGroup::UnusedConcreteTypes
            },
    )
}

/// The groups of all structures.
pub open spec fn type_groups(c: Resolver, m: Metadata, per_index: u32) -> Groups {
    with_rest(
        with_usage_lists(
            groups_of_methods(c, m, m.method_defs@.len()),
            c,
            m,
            per_index,
            m.metadata_usages@.len(),
        ),
        c,
    )
}

/// Every structure has a group.
pub proof fn law_every_struct_grouped(c: Resolver, m: Metadata, per_index: u32)
    ensures
        forall|k: usize| #[trigger]
            c.names.contains_key(k) ==> type_groups(c, m, per_index).contains_key(c.names[k]),
        forall|k: u64| #[trigger]
            c.special.contains_key(k) ==> type_groups(c, m, per_index).contains_key(c.special[k]),
{
    assert forall|k: usize| #[trigger] c.names.contains_key(k) implies type_groups(
        c,
        m,
        per_index,
    ).contains_key(c.names[k]) by {
        assert(c.names.values().contains(c.names[k]));
    }
    assert forall|k: u64| #[trigger] c.special.contains_key(k) implies type_groups(
        c,
        m,
        per_index,
    ).contains_key(c.special[k]) by {
        assert(c.special.values().contains(c.special[k]));
    }
}

/// All that the groups look at ends somewhere.
pub open spec fn groups_ready(m: Metadata, il2cpp: Il2Cpp, per_index: u32) -> bool {
    &&& per_index > 0
    &&& forall|i: int|
        0 <= i < m.method_defs@.len() ==> method_ends(m, il2cpp, #[trigger] m.method_defs@[i])
    &&& forall|i: int, j: int|
        0 <= i < m.metadata_usages@.len() && 0 <= j < m.metadata_usages@[i].1@.len()
            ==> usage_ends(il2cpp, (#[trigger] m.metadata_usages@[i].1@[j]).1, per_index)
}

/// The type that an encoded usage names, if it names one, ends somewhere.
pub open spec fn usage_ends(il2cpp: Il2Cpp, encoded: u32, per_index: u32) -> bool {
    encoded as int % per_index as int == 2 ==> type_ends(
        il2cpp,
        encoded as int / per_index as int,
    )
}

/// The resolver is that of the names.
pub open spec fn resolves(
    c: Resolver,
    il2cpp: Il2Cpp,
    names: Map<usize, String>,
    special: Map<u64, String>,
) -> bool {
    &&& c.il2cpp == il2cpp
    &&& c.names == c_types::name_texts(names)
    &&& c.special == c_types::name_texts(special)
}

fn find_name_of_type(
    il2cpp: &Il2Cpp,
    names: &HashMap<usize, String>,
    special: &HashMap<u64, String>,
    i: usize,
    Ghost(c): Ghost<Resolver>,
) -> (r: Option<String>)
    requires
        resolves(c, *il2cpp, names@, special@),
        type_ends(*il2cpp, i as int),
    ensures
        match r {
            Some(name) => name_of_type(c, i as int) == Some(name@),
            None => name_of_type(c, i as int) is None,
        },
{
    match il2cpp.type_by_index(i) {
        Some(t) => type_checks::resolve_il2cpp_type_name(&t, il2cpp, names, special),
        None => None,
    }
}

fn add_method(
    metadata: &Metadata,
    il2cpp: &Il2Cpp,
    names: &HashMap<usize, String>,
    special: &HashMap<u64, String>,
    i: usize,
    groups: &mut NameMap<CppTypeGroup>,
    Ghost(c): Ghost<Resolver>,
)
    requires
        resolves(c, *il2cpp, names@, special@),
        i < metadata.method_defs@.len(),
        method_ends(*metadata, *il2cpp, metadata.method_defs@[i as int]),
        old(groups)@ == groups_of_methods(c, *metadata, i as nat),
    ensures
        final(groups)@ == groups_of_methods(c, *metadata, (i + 1) as nat),
{
    let def = &metadata.method_defs[i];
    let is_generic = def.generic_container_index >= 0
        || il2cpp.method_definition_method_specs.contains_key(&i);
    let group = if is_generic {
        CppTypeGroup::TypesFromGenericMethods
    } else {
        CppTypeGroup::TypesFromMethods
    };
    if let Some(name) = find_name_of_type(il2cpp, names, special, def.return_type, Ghost(c)) {
        groups.insert(name, group);
    }
    let ghost q = groups@;
    let parameters: usize = metadata.parameter_defs.len();
    let mut j: usize = 0;
    while j < def.parameter_count
        invariant
            resolves(c, *il2cpp, names@, special@),
            method_ends(*metadata, *il2cpp, *def),
            parameters == metadata.parameter_defs@.len(),
            j <= def.parameter_count,
            groups@ == with_parameters(q, c, *metadata, *def, group, j as nat),
        decreases def.parameter_count - j,
    {
        if def.parameter_start < parameters && j < parameters - def.parameter_start {
            let index: usize = metadata.parameter_defs[def.parameter_start + j].type_index;
            assert(parameter_index(*metadata, *def, j as int) == Some(index as int));
            if let Some(name) = find_name_of_type(il2cpp, names, special, index, Ghost(c)) {
                let stays = match groups.get(name.as_str()) {
                    Some(CppTypeGroup::TypesFromMethods) => true,
                    _ => false,
                };
                if !stays {
                    groups.insert(name, group);
                }
            }
        } else {
            assert(parameter_index(*metadata, *def, j as int) is None);
        }
        j = j + 1;
    }
}

fn find_usage_name(
    il2cpp: &Il2Cpp,
    names: &HashMap<usize, String>,
    special: &HashMap<u64, String>,
    encoded: u32,
    per_index: u32,
    Ghost(c): Ghost<Resolver>,
) -> (r: Option<String>)
    requires
        resolves(c, *il2cpp, names@, special@),
        per_index > 0,
        usage_ends(*il2cpp, encoded, per_index),
    ensures
        match r {
            Some(name) => usage_name(c, encoded, per_index) == Some(name@),
            None => usage_name(c, encoded, per_index) is None,
        },
{
    let kind: u32 = encoded % per_index;
    let index: usize = (encoded / per_index) as usize;
    if kind == 1 {
        match names.get(&index) {
            Some(name) => Some(name.clone()),
            None => None,
        }
    } else if kind == 2 {
        find_name_of_type(il2cpp, names, special, index, Ghost(c))
    } else {
        None
    }
}

fn add_rest<K>(names: Vec<&String>, groups: &mut NameMap<CppTypeGroup>, Ghost(m): Ghost<Map<K, String>>)
    requires
        forall|t: Seq<char>| #[trigger]
            c_types::name_texts(m).values().contains(t) <==> exists|k: int|
                0 <= k < names@.len() && t == (#[trigger] names@[k])@,
    ensures
        forall|t: Seq<char>| #[trigger]
            final(groups)@.contains_key(t) <==> old(groups)@.contains_key(t) || c_types::name_texts(
                m,
            ).values().contains(t),
        forall|t: Seq<char>| #[trigger]
            final(groups)@.contains_key(t) ==> final(groups)@[t] == if old(groups)@.contains_key(
                t,
            ) {
                old(groups)@[t]
            } else {
                CppTypeGroup::UnusedConcreteTypes
            },
{
    let ghost was = groups@;
    let mut i: usize = 0;
    while i < names.len()
        invariant
            i <= names@.len(),
            forall|t: Seq<char>| #[trigger]
                groups@.contains_key(t) <==> was.contains_key(t) || exists|k: int|
                    0 <= k < i && t == (#[trigger] names@[k])@,
            forall|t: Seq<char>| #[trigger]
                groups@.contains_key(t) ==> groups@[t] == if was.contains_key(t) {
                    was[t]
                } else {
                    CppTypeGroup::UnusedConcreteTypes
                },
        decreases names@.len() - i,
    {
        let name = names[i];
        let ghost before = groups@;
        if !groups.contains_key(name.as_str()) {
            groups.insert(name.clone(), CppTypeGroup::UnusedConcreteTypes);
        }
        proof {
            assert forall|t: Seq<char>| #[trigger] groups@.contains_key(t) <==> was.contains_key(t)
                || exists|k: int| 0 <= k < i + 1 && t == (#[trigger] names@[k])@ by {
                assert(before.contains_key(t) <==> was.contains_key(t) || exists|k: int|
                    0 <= k < i && t == (#[trigger] names@[k])@);
                if t == name@ {
                    assert(t == names@[i as int]@);
                }
            }
        }
        i = i + 1;
    }
}

fn list_names<K: Copy>(m: &HashMap<K, String>) -> (r: Vec<&String>)
    requires
        vstd::std_specs::hash::obeys_key_model::<K>(),
    ensures
        forall|t: Seq<char>| #[trigger]
            c_types::name_texts(m@).values().contains(t) <==> exists|k: int|
                0 <= k < r@.len() && t == (#[trigger] r@[k])@,
{
    let mut out: Vec<&String> = Vec::new();
    let ghost all = m.values().remaining();
    for name in iter: m.values()
        invariant
            iter.seq() == all,
            out@.len() == iter.index(),
            forall|k: int| 0 <= k < iter.index() ==> out@[k] == all[k],
    {
        out.push(name);
    }
    proof {
        let texts = c_types::name_texts(m@);
        assert(all.unref().to_set() == m@.values());
        assert forall|t: Seq<char>| #[trigger] texts.values().contains(t) <==> exists|k: int|
            0 <= k < out@.len() && t == (#[trigger] out@[k])@ by {
            if exists|k: int| 0 <= k < out@.len() && t == (#[trigger] out@[k])@ {
                let k = choose|k: int| 0 <= k < out@.len() && t == (#[trigger] out@[k])@;
                assert(all.unref()[k] == *all[k]);
                assert(all.unref().to_set().contains(*all[k]));
                let key = choose|key: K| #[trigger] m@.contains_key(key) && m@[key] == *all[k];
                assert(texts.contains_key(key) && texts[key] == t);
            }
            if texts.values().contains(t) {
                let key = choose|key: K| #[trigger] texts.contains_key(key) && texts[key] == t;
                assert(m@.contains_key(key));
                assert(m@.values().contains(m@[key]));
                assert(all.unref().to_set().contains(m@[key]));
                let k = choose|k: int| 0 <= k < all.unref().len() && all.unref()[k] == m@[key];
                assert(t == out@[k]@);
            }
        }
    }
    out
}

/// The groups of all structures.
pub fn classify_types_for_header(
    metadata: &Metadata,
    il2cpp: &Il2Cpp,
    names: &HashMap<usize, String>,
    special: &HashMap<u64, String>,
    per_index: u32,
) -> (r: NameMap<CppTypeGroup>)
    requires
        groups_ready(*metadata, *il2cpp, per_index),
    ensures
        r@ == type_groups(
            (Resolver {
                il2cpp: *il2cpp,
                names: c_types::name_texts(names@),
                special: c_types::name_texts(special@),
            }),
            *metadata,
            per_index,
        ),
{
    let ghost c = Resolver {
        il2cpp: *il2cpp,
        names: c_types::name_texts(names@),
        special: c_types::name_texts(special@),
    };
    let mut groups: NameMap<CppTypeGroup> = NameMap::new();
    let mut i: usize = 0;
    while i < metadata.method_defs.len()
        invariant
            groups_ready(*metadata, *il2cpp, per_index),
            resolves(c, *il2cpp, names@, special@),
            i <= metadata.method_defs@.len(),
            groups@ == groups_of_methods(c, *metadata, i as nat),
        decreases metadata.method_defs@.len() - i,
    {
        add_method(metadata, il2cpp, names, special, i, &mut groups, Ghost(c));
        i = i + 1;
    }
    let ghost g = groups@;
    let mut a: usize = 0;
    while a < metadata.metadata_usages.len()
        invariant
            groups_ready(*metadata, *il2cpp, per_index),
            resolves(c, *il2cpp, names@, special@),
            a <= metadata.metadata_usages@.len(),
            groups@ == with_usage_lists(g, c, *metadata, per_index, a as nat),
        decreases metadata.metadata_usages@.len() - a,
    {
        let list = &metadata.metadata_usages[a].1;
        let ghost p = groups@;
        let mut b: usize = 0;
        while b < list.len()
            invariant
                groups_ready(*metadata, *il2cpp, per_index),
                resolves(c, *il2cpp, names@, special@),
                a < metadata.metadata_usages@.len(),
                list@ == metadata.metadata_usages@[a as int].1@,
                b <= list@.len(),
                groups@ == with_usages(p, c, list@, per_index, b as nat),
            decreases list@.len() - b,
        {
            assert(usage_ends(
                *il2cpp,
                metadata.metadata_usages@[a as int].1@[b as int].1,
                per_index,
            ));
            if let Some(name) = find_usage_name(
                il2cpp,
                names,
                special,
                list[b].1,
                per_index,
                Ghost(c),
            ) {
                if !groups.contains_key(name.as_str()) {
                    groups.insert(name, CppTypeGroup::TypesFromUsages);
                }
            }
            b = b + 1;
        }
        a = a + 1;
    }
    let ghost h = groups@;
    add_rest::<usize>(list_names(names), &mut groups, Ghost(names@));
    add_rest::<u64>(list_names(special), &mut groups, Ghost(special@));
    assert(groups@ =~= with_rest(h, c));
    groups
}

} // verus!
