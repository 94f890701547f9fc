//! The structures of a header: those of the type definitions, and those of the generic classes
//! that come up on the way.
use crate::executor::Il2CppExecutor;
use crate::il2cpp::base::Il2Cpp;
use crate::il2cpp::enums::Il2CppTypeEnum;
use crate::il2cpp::metadata::Metadata;
use crate::il2cpp::structures::{Il2CppGenericContext, Il2CppTypeDefinition};
use crate::names::{NameMap, NameSet, NameStyle, Sanitizer, Spelling};
use crate::output::c_types;
use crate::output::c_types::Scene;
use crate::output::script_json;
use crate::output::struct_info;
use crate::output::struct_info::{Fragments, StructInfo, StructInfoModel};
use crate::text;
use std::collections::HashMap;
use vstd::prelude::*;
use vstd::std_specs::iter::IteratorSpec;
use vstd::string::*;

verus! {

// The names of generic classes.

/// The structure of the generic class that the type in place `i` refers to: that of its type
/// definition, with the name of the type put in for that of the definition.
pub open spec fn own_class_name(s: Scene, spelling: Spelling, i: int) -> Option<Seq<char>> {
    let t = s.il2cpp.types@[i];
    if t.element() != Some(Il2CppTypeEnum::GenericInst) {
        None
    } else {
        match c_types::class_def(s, t.generic_class) {
            Some(td) => if s.names.contains_key(td as usize) {
                Some(
                    text::replaced(
                        s.names[td as usize],
                        spelling(s.x.type_def_names@[td]@, NameStyle::Cpp),
                        spelling(s.x.type_names@[i]@, NameStyle::Cpp),
                    ),
                )
            } else {
                None
            },
            None => None,
        }
    }
}

/// The structures of the generic classes that the first `n` types refer to.
pub open spec fn class_names_upto(s: Scene, spelling: Spelling, n: nat) -> Map<u64, Seq<char>>
    decreases n,
{
    if n == 0 {
        Map::empty()
    } else {
        let p = class_names_upto(s, spelling, (n - 1) as nat);
        match own_class_name(s, spelling, n - 1) {
            Some(name) => p.insert(s.il2cpp.types@[n - 1].generic_class, name),
            None => p,
        }
    }
}

/// The structures of the generic classes of an image.
pub open spec fn class_names(s: Scene, spelling: Spelling) -> Map<u64, Seq<char>> {
    class_names_upto(s, spelling, s.il2cpp.types@.len())
}

/// All names that the header needs exist.
pub open spec fn names_fit(s: Scene) -> bool {
    &&& c_types::scene_fits(s)
    &&& s.x.type_def_names@.len() == s.m.type_defs@.len()
    &&& struct_info::labels_fit(s.x, s.il2cpp)
}

proof fn lemma_class_names_found(s: Scene, spelling: Spelling, n: nat, class: u64)
    requires
        class_names_upto(s, spelling, n).contains_key(class),
        n <= s.il2cpp.types@.len(),
    ensures
        exists|i: int| 0 <= i < n && (#[trigger] s.il2cpp.types@[i]).generic_class == class,
    decreases n,
{
    if n > 0 {
        if s.il2cpp.types@[n - 1].generic_class != class {
            lemma_class_names_found(s, spelling, (n - 1) as nat, class);
            let i = choose|i: int|
                0 <= i < n - 1 && (#[trigger] s.il2cpp.types@[i]).generic_class == class;
            assert(s.il2cpp.types@[i].generic_class == class);
        }
    }
}

/// The structures of generic classes depend on nothing that they are given to.
pub proof fn lemma_class_names_same(a: Scene, b: Scene, spelling: Spelling, n: nat)
    requires
        a.m == b.m,
        a.il2cpp == b.il2cpp,
        a.x == b.x,
        a.names == b.names,
    ensures
        class_names_upto(a, spelling, n) == class_names_upto(b, spelling, n),
    decreases n,
{
    if n > 0 {
        lemma_class_names_same(a, b, spelling, (n - 1) as nat);
    }
}

/// The structures of the generic classes of an image.
pub(crate) fn build_class_names<F: Fn(&str, NameStyle) -> String>(
    executor: &Il2CppExecutor,
    metadata: &Metadata,
    il2cpp: &Il2Cpp,
    names: &HashMap<usize, String>,
    sanitizer: &Sanitizer<F>,
    Ghost(s): Ghost<Scene>,
) -> (r: HashMap<u64, String>)
    requires
        struct_info::scene_of(s, *executor, *metadata, *il2cpp, names@),
        names_fit(s),
    ensures
        c_types::name_texts(r@) == class_names(s, sanitizer.spelling()),
{
    let mut out: HashMap<u64, String> = HashMap::new();
    let ghost spelling = sanitizer.spelling();
    let mut i: usize = 0;
    assert(c_types::name_texts(out@) =~= Map::<u64, Seq<char>>::empty());
    while i < il2cpp.types.len()
        invariant
            struct_info::scene_of(s, *executor, *metadata, *il2cpp, names@),
            names_fit(s),
            spelling == sanitizer.spelling(),
            i <= il2cpp.types@.len(),
            c_types::name_texts(out@) == class_names_upto(s, spelling, i as nat),
        decreases il2cpp.types@.len() - i,
    {
        let t = il2cpp.types[i];
        let is_instance = match t.element_type() {
            Some(Il2CppTypeEnum::GenericInst) => true,
            _ => false,
        };
        if is_instance {
            if let Some(td) = c_types::find_class_def(
                executor,
                il2cpp,
                t.generic_class,
                Ghost(s),
            ) {
                if let Some(name) = names.get(&td) {
                    let old_part = sanitizer.fix_name(executor.type_def_names[td].as_str());
                    let new_part = sanitizer.fix_name(executor.type_names[i].as_str());
                    let own = text::replace_text(
                        name.as_str(),
                        old_part.as_str(),
                        new_part.as_str(),
                    );
                    let ghost was = out@;
                    out.insert(t.generic_class, own);
                    assert(c_types::name_texts(out@) =~= c_types::name_texts(was).insert(
                        t.generic_class,
                        own@,
                    ));
                }
            }
        }
        i = i + 1;
    }
    out
}

// The structures of type definitions.

/// The structure of a type definition under a name, in a context, and the arrays that are declared
/// once it is there.
pub open spec fn info_for(
    s: Scene,
    spelling: Spelling,
    name: Seq<char>,
    def: Il2CppTypeDefinition,
    ctx: Option<Il2CppGenericContext>,
    special: bool,
    arrays: Fragments,
) -> StructInfoModel {
    let lists = struct_info::field_lists(
        s,
        spelling,
        def,
        ctx,
        special,
        arrays,
        def.field_count as nat,
    );
    StructInfoModel {
        name,
        is_value_type: def.is_value_type,
        parent: struct_info::parent_name(s.il2cpp, def, s.names),
        fields: lists.fields,
        static_fields: lists.static_fields,
        vtable_methods: struct_info::vtable(s.m, s.il2cpp, spelling, def),
        rgctxs: Seq::empty(),
    }
}

/// The structures of the first `n` type definitions that have one, and the arrays that are
/// declared with them.
pub open spec fn bases_upto(s: Scene, spelling: Spelling, n: nat) -> (
    Seq<StructInfoModel>,
    Fragments,
)
    decreases n,
{
    if n == 0 {
        (Seq::empty(), Fragments { keys: Seq::empty(), map: Map::empty() })
    } else {
        let p = bases_upto(s, spelling, (n - 1) as nat);
        let td = (n - 1) as usize;
        let def = s.m.type_defs@[n - 1];
        if s.names.contains_key(td) {
            let info = StructInfoModel {
                rgctxs: struct_info::type_context(s.x, s.il2cpp, spelling, td),
                ..info_for(s, spelling, s.names[td], def, None, false, p.1)
            };
            (
                p.0.push(info),
                struct_info::field_lists(
                    s,
                    spelling,
                    def,
                    None,
                    false,
                    p.1,
                    def.field_count as nat,
                ).arrays,
            )
        } else {
            p
        }
    }
}

/// The fields of all type definitions that have structures can be written.
pub open spec fn bases_ready(s: Scene) -> bool {
    forall|td: int|
        0 <= td < s.m.type_defs@.len() && s.names.contains_key(td as usize)
            ==> struct_info::fields_ready(s, #[trigger] s.m.type_defs@[td], None, false)
}

/// The structure of a type definition under a name, without its generic context.
pub(crate) fn make_info<F: Fn(&str, NameStyle) -> String>(
    executor: &Il2CppExecutor,
    metadata: &Metadata,
    il2cpp: &Il2Cpp,
    name: String,
    def: &Il2CppTypeDefinition,
    names: &HashMap<usize, String>,
    sanitizer: &Sanitizer<F>,
    ctx: Option<Il2CppGenericContext>,
    special: Option<&HashMap<u64, String>>,
    arrays: &mut NameMap<String>,
    Ghost(s): Ghost<Scene>,
) -> (r: (StructInfo, Vec<u64>))
    requires
        struct_info::scene_of(s, *executor, *metadata, *il2cpp, names@),
        special matches Some(m) ==> s.special == c_types::name_texts(m@),
        struct_info::fields_ready(s, *def, ctx, special is Some),
    ensures
        ({
            let lists = struct_info::field_lists(
                s,
                sanitizer.spelling(),
                *def,
                ctx,
                special is Some,
                struct_info::fragments(*old(arrays)),
                def.field_count as nat,
            );
            &&& r.0@ == info_for(
                s,
                sanitizer.spelling(),
                name@,
                *def,
                ctx,
                special is Some,
                struct_info::fragments(*old(arrays)),
            )
            &&& r.1@ == lists.reached
            &&& struct_info::fragments(*final(arrays)) == lists.arrays
        }),
{
    let mut info = StructInfo {
        name,
        is_value_type: def.is_value_type,
        parent: struct_info::find_parent(il2cpp, def, names),
        fields: Vec::new(),
        static_fields: Vec::new(),
        vtable_methods: Vec::new(),
        rgctxs: Vec::new(),
    };
    assert(info@.vtable_methods =~= Seq::empty());
    let reached = struct_info::add_fields(
        executor,
        metadata,
        il2cpp,
        def,
        names,
        sanitizer,
        &mut info,
        arrays,
        ctx,
        special,
        Ghost(s),
    );
    struct_info::add_vtable_methods(metadata, il2cpp, def, sanitizer, &mut info);
    assert(info@.vtable_methods =~= struct_info::vtable(
        *metadata,
        *il2cpp,
        sanitizer.spelling(),
        *def,
    ));
    assert(info@.rgctxs =~= Seq::empty());
    (info, reached)
}

/// The structures of the type definitions that have one.
pub(crate) fn build_bases<F: Fn(&str, NameStyle) -> String>(
    executor: &Il2CppExecutor,
    metadata: &Metadata,
    il2cpp: &Il2Cpp,
    names: &HashMap<usize, String>,
    sanitizer: &Sanitizer<F>,
    arrays: &mut NameMap<String>,
    Ghost(s): Ghost<Scene>,
) -> (r: Vec<StructInfo>)
    requires
        struct_info::scene_of(s, *executor, *metadata, *il2cpp, names@),
        names_fit(s),
        bases_ready(s),
        struct_info::fragments(*old(arrays)) == (Fragments {
            keys: Seq::empty(),
            map: Map::empty(),
        }),
    ensures
        (script_json::views(r@), struct_info::fragments(*final(arrays))) == bases_upto(
            s,
            sanitizer.spelling(),
            s.m.type_defs@.len(),
        ),
{
    let mut out: Vec<StructInfo> = Vec::new();
    let ghost spelling = sanitizer.spelling();
    let mut td: usize = 0;
    assert(script_json::views(out@) =~= Seq::<StructInfoModel>::empty());
    while td < metadata.type_defs.len()
        invariant
            struct_info::scene_of(s, *executor, *metadata, *il2cpp, names@),
            names_fit(s),
            bases_ready(s),
            spelling == sanitizer.spelling(),
            td <= metadata.type_defs@.len(),
            (script_json::views(out@), struct_info::fragments(*arrays)) == bases_upto(
                s,
                spelling,
                td as nat,
            ),
        decreases metadata.type_defs@.len() - td,
    {
        broadcast use script_json::lemma_views_push;

        if let Some(name) = names.get(&td) {
            let def = &metadata.type_defs[td];
            assert(s.m.type_defs@[td as int] == *def);
            let (info, _) = make_info(
                executor,
                metadata,
                il2cpp,
                name.clone(),
                def,
                names,
                sanitizer,
                None,
                None,
                arrays,
                Ghost(s),
            );
            let mut info = info;
            struct_info::add_rgctx(executor, il2cpp, td, sanitizer, &mut info);
            out.push(info);
        }
        td = td + 1;
    }
    out
}

// The structures of generic classes.

/// The generic classes whose structures are to be made, in order, and what has been made.
pub struct Queue {
    pub list: Seq<u64>,
    pub used: Set<Seq<char>>,
    pub infos: Seq<StructInfoModel>,
    pub arrays: Fragments,
}

/// The queue with one more class, unless there is a structure of that name already.
pub open spec fn noted(q: Queue, s: Scene, class: u64) -> Queue {
    if !s.special.contains_key(class) || q.used.contains(s.special[class]) {
        q
    } else {
        Queue { list: q.list.push(class), used: q.used.insert(s.special[class]), ..q }
    }
}

/// The queue with the first `k` of some classes.
pub open spec fn all_noted(q: Queue, s: Scene, classes: Seq<u64>, k: nat) -> Queue
    decreases k,
{
    if k == 0 {
        q
    } else {
        noted(all_noted(q, s, classes, (k - 1) as nat), s, classes[k - 1])
    }
}

/// The queue with the generic classes that the first `n` types refer to.
pub open spec fn queue_upto(q: Queue, s: Scene, n: nat) -> Queue
    decreases n,
{
    if n == 0 {
        q
    } else {
        let p = queue_upto(q, s, (n - 1) as nat);
        let t = s.il2cpp.types@[n - 1];
        if t.element() == Some(Il2CppTypeEnum::GenericInst) && t.generic_class != 0 {
            noted(p, s, t.generic_class)
        } else {
            p
        }
    }
}

/// The queue at the start: with the structures of the type definitions, and with the generic
/// classes that types refer to.
pub open spec fn first_queue(s: Scene, spelling: Spelling) -> Queue {
    let bases = bases_upto(s, spelling, s.m.type_defs@.len());
    queue_upto(
        Queue { list: Seq::empty(), used: s.names.values(), infos: bases.0, arrays: bases.1 },
        s,
        s.il2cpp.types@.len(),
    )
}

/// The queue after the class in place `i`: with its structure, and with the classes that its
/// fields lead to.
pub open spec fn after_class(q: Queue, s: Scene, spelling: Spelling, i: int) -> Queue {
    let class = q.list[i];
    match c_types::class_def(s, class) {
        Some(td) => if s.special.contains_key(class) {
            let def = s.m.type_defs@[td];
            let ctx = Some(s.il2cpp.generic_class_at(class)->Ok_0.context);
            let lists = struct_info::field_lists(
                s,
                spelling,
                def,
                ctx,
                true,
                q.arrays,
                def.field_count as nat,
            );
            let info = info_for(s, spelling, s.special[class], def, ctx, true, q.arrays);
            all_noted(
                Queue { infos: q.infos.push(info), arrays: lists.arrays, ..q },
                s,
                lists.reached,
                lists.reached.len(),
            )
        } else {
            q
        },
        None => q,
    }
}

/// The queue after its first `n` classes.
pub open spec fn queue_after(s: Scene, spelling: Spelling, n: nat) -> Queue
    decreases n,
{
    if n == 0 {
        first_queue(s, spelling)
    } else {
        let p = queue_after(s, spelling, (n - 1) as nat);
        if n - 1 < p.list.len() {
            after_class(p, s, spelling, n - 1)
        } else {
            p
        }
    }
}

/// After `n` classes there are no more.
pub open spec fn queue_done(s: Scene, spelling: Spelling, n: nat) -> bool {
    queue_after(s, spelling, n).list.len() <= n
}

/// The queue after all classes.
pub open spec fn last_queue(s: Scene, spelling: Spelling) -> Queue {
    queue_after(s, spelling, choose|n: nat| queue_done(s, spelling, n))
}

/// The structures of a header in the order in which they are found: those of the type definitions
/// first.
pub open spec fn header_structs(s: Scene, spelling: Spelling) -> Seq<StructInfoModel> {
    last_queue(s, spelling).infos
}

/// The fields of a generic class can be written.
pub open spec fn class_ready(s: Scene, class: u64) -> bool {
    match c_types::class_def(s, class) {
        Some(td) => struct_info::fields_ready(
            s,
            s.m.type_defs@[td],
            Some(s.il2cpp.generic_class_at(class)->Ok_0.context),
            true,
        ),
        None => true,
    }
}

/// The fields of each generic class that comes up can be written.
pub open spec fn classes_ready(s: Scene, spelling: Spelling) -> bool {
    forall|n: nat, i: int|
        0 <= i < queue_after(s, spelling, n).list.len() ==> class_ready(
            s,
            #[trigger] queue_after(s, spelling, n).list[i],
        )
}

proof fn lemma_queue_stays(s: Scene, spelling: Spelling, a: nat, b: nat)
    requires
        queue_done(s, spelling, a),
        a <= b,
    ensures
        queue_after(s, spelling, b) == queue_after(s, spelling, a),
    decreases b,
{
    if a < b {
        lemma_queue_stays(s, spelling, a, (b - 1) as nat);
    }
}

/// However the end of the queue is found, the queue is the same.
pub proof fn law_last_queue(s: Scene, spelling: Spelling, n: nat)
    requires
        queue_done(s, spelling, n),
    ensures
        last_queue(s, spelling) == queue_after(s, spelling, n),
{
    let m = choose|m: nat| queue_done(s, spelling, m);
    if m <= n {
        lemma_queue_stays(s, spelling, m, n);
    } else {
        lemma_queue_stays(s, spelling, n, m);
    }
}

/// No two structures have the same name.
pub open spec fn names_apart(list: Seq<StructInfoModel>) -> bool {
    forall|i: int, j: int|
        0 <= i < j < list.len() ==> (#[trigger] list[i]).name != (#[trigger] list[j]).name
}

/// The type definitions have structures of different names.
pub open spec fn bases_apart(names: Map<usize, Seq<char>>) -> bool {
    forall|a: usize, b: usize| #[trigger]
        names.contains_key(a) && #[trigger] names.contains_key(b) && a != b ==> names[a]
            != names[b]
}

/// The classes in the queue have new names, which are known to be used.
spec fn list_apart(s: Scene, q: Queue) -> bool {
    &&& forall|name: Seq<char>| #[trigger]
        s.names.values().contains(name) ==> q.used.contains(name)
    &&& forall|k: int|
        0 <= k < q.list.len() ==> {
            let class = #[trigger] q.list[k];
            s.special.contains_key(class) && q.used.contains(s.special[class])
                && !s.names.values().contains(s.special[class])
        }
    &&& forall|j: int, k: int|
        0 <= j < k < q.list.len() ==> s.special[#[trigger] q.list[j]]
            != s.special[#[trigger] q.list[k]]
}

/// The name is that of a type definition or of one of the first `n` classes in the queue.
spec fn is_taken(s: Scene, q: Queue, name: Seq<char>, n: nat) -> bool {
    s.names.values().contains(name) || exists|k: int|
        0 <= k < n && k < q.list.len() && s.special[#[trigger] q.list[k]] == name
}

/// The structures have different names, which belong to type definitions and to the first `n`
/// classes in the queue.
spec fn infos_apart(s: Scene, q: Queue, n: nat) -> bool {
    &&& names_apart(q.infos)
    &&& forall|i: int| 0 <= i < q.infos.len() ==> is_taken(s, q, (#[trigger] q.infos[i]).name, n)
}

proof fn lemma_noted_apart(q: Queue, s: Scene, class: u64, n: nat)
    requires
        list_apart(s, q),
        infos_apart(s, q, n),
    ensures
        list_apart(s, noted(q, s, class)),
        infos_apart(s, noted(q, s, class), n),
{
    let r = noted(q, s, class);
    assert forall|i: int| 0 <= i < r.infos.len() implies is_taken(
        s,
        r,
        (#[trigger] r.infos[i]).name,
        n,
    ) by {
        let name = q.infos[i].name;
        assert(is_taken(s, q, name, n));
        if !s.names.values().contains(name) {
            let k = choose|k: int|
                0 <= k < n && k < q.list.len() && s.special[#[trigger] q.list[k]] == name;
            assert(r.list[k] == q.list[k]);
        }
    }
}

proof fn lemma_all_noted_apart(q: Queue, s: Scene, classes: Seq<u64>, k: nat, n: nat)
    requires
        list_apart(s, q),
        infos_apart(s, q, n),
    ensures
        list_apart(s, all_noted(q, s, classes, k)),
        infos_apart(s, all_noted(q, s, classes, k), n),
    decreases k,
{
    if k > 0 {
        lemma_all_noted_apart(q, s, classes, (k - 1) as nat, n);
        lemma_noted_apart(all_noted(q, s, classes, (k - 1) as nat), s, classes[k - 1], n);
    }
}

proof fn lemma_queue_upto_apart(q: Queue, s: Scene, k: nat)
    requires
        list_apart(s, q),
        infos_apart(s, q, 0),
    ensures
        list_apart(s, queue_upto(q, s, k)),
        infos_apart(s, queue_upto(q, s, k), 0),
    decreases k,
{
    if k > 0 {
        lemma_queue_upto_apart(q, s, (k - 1) as nat);
        let p = queue_upto(q, s, (k - 1) as nat);
        lemma_noted_apart(p, s, s.il2cpp.types@[k - 1].generic_class, 0);
    }
}

proof fn lemma_bases_apart(s: Scene, spelling: Spelling, n: nat)
    requires
        bases_apart(s.names),
        n <= s.m.type_defs@.len() <= usize::MAX,
    ensures
        names_apart(bases_upto(s, spelling, n).0),
        forall|i: int|
            0 <= i < bases_upto(s, spelling, n).0.len() ==> exists|td: usize|
                td < n && #[trigger] s.names.contains_key(td) && s.names[td] == (
                #[trigger] bases_upto(s, spelling, n).0[i]).name,
    decreases n,
{
    if n > 0 {
        lemma_bases_apart(s, spelling, (n - 1) as nat);
        let before = bases_upto(s, spelling, (n - 1) as nat).0;
        let now = bases_upto(s, spelling, n).0;
        let last = (n - 1) as usize;
        assert forall|i: int| 0 <= i < now.len() implies exists|td: usize|
            td < n && #[trigger] s.names.contains_key(td) && s.names[td] == (
            #[trigger] now[i]).name by {
            if i < before.len() {
                assert(now[i] == before[i]);
                let td = choose|td: usize|
                    td < n - 1 && #[trigger] s.names.contains_key(td) && s.names[td]
                        == before[i].name;
                assert(s.names.contains_key(td));
            } else {
                assert(s.names.contains_key(last));
            }
        }
        assert forall|i: int, j: int| 0 <= i < j < now.len() implies (#[trigger] now[i]).name != (
        #[trigger] now[j]).name by {
            assert(now[i] == before[i]);
            if j < before.len() {
                assert(now[j] == before[j]);
            } else {
                let td = choose|td: usize|
                    td < n - 1 && #[trigger] s.names.contains_key(td) && s.names[td]
                        == before[i].name;
                assert(s.names.contains_key(td) && s.names.contains_key(last));
            }
        }
    }
}

proof fn lemma_queue_apart(s: Scene, spelling: Spelling, n: nat)
    requires
        bases_apart(s.names),
        s.m.type_defs@.len() <= usize::MAX,
    ensures
        list_apart(s, queue_after(s, spelling, n)),
        infos_apart(s, queue_after(s, spelling, n), n),
    decreases n,
{
    if n == 0 {
        let bases = bases_upto(s, spelling, s.m.type_defs@.len());
        let q = Queue {
            list: Seq::empty(),
            used: s.names.values(),
            infos: bases.0,
            arrays: bases.1,
        };
        lemma_bases_apart(s, spelling, s.m.type_defs@.len());
        assert forall|i: int| 0 <= i < q.infos.len() implies is_taken(
            s,
            q,
            (#[trigger] q.infos[i]).name,
            0,
        ) by {
            let td = choose|td: usize|
                td < s.m.type_defs@.len() && #[trigger] s.names.contains_key(td) && s.names[td]
                    == bases.0[i].name;
            assert(s.names.contains_value(s.names[td]));
        }
        lemma_queue_upto_apart(q, s, s.il2cpp.types@.len());
    } else {
        lemma_queue_apart(s, spelling, (n - 1) as nat);
        let p = queue_after(s, spelling, (n - 1) as nat);
        assert forall|name: Seq<char>| is_taken(s, p, name, (n - 1) as nat) implies is_taken(
            s,
            p,
            name,
            n,
        ) by {
            if !s.names.values().contains(name) {
                let k = choose|k: int|
                    0 <= k < n - 1 && k < p.list.len() && s.special[#[trigger] p.list[k]] == name;
                assert(s.special[p.list[k]] == name);
            }
        }
        if n - 1 < p.list.len() {
            let class = p.list[n - 1];
            if let Some(td) = c_types::class_def(s, class) {
                let def = s.m.type_defs@[td];
                let ctx = Some(s.il2cpp.generic_class_at(class)->Ok_0.context);
                let lists = struct_info::field_lists(
                    s,
                    spelling,
                    def,
                    ctx,
                    true,
                    p.arrays,
                    def.field_count as nat,
                );
                let info = info_for(s, spelling, s.special[class], def, ctx, true, p.arrays);
                let q = Queue { infos: p.infos.push(info), arrays: lists.arrays, ..p };
                assert forall|i: int| 0 <= i < p.infos.len() implies (
                #[trigger] p.infos[i]).name != s.special[class] by {
                    let name = p.infos[i].name;
                    assert(is_taken(s, p, name, (n - 1) as nat));
                    if !s.names.values().contains(name) {
                        let k = choose|k: int|
                            0 <= k < n - 1 && k < p.list.len() && s.special[#[trigger] p.list[k]]
                                == name;
                        assert(s.special[p.list[k]] != s.special[p.list[n - 1]]);
                    }
                }
                assert forall|i: int| 0 <= i < q.infos.len() implies is_taken(
                    s,
                    q,
                    (#[trigger] q.infos[i]).name,
                    n,
                ) by {
                    if i < p.infos.len() {
                        assert(q.infos[i] == p.infos[i]);
                        assert(is_taken(s, p, p.infos[i].name, (n - 1) as nat));
                        assert(is_taken(s, p, p.infos[i].name, n));
                    } else {
                        assert(q.list[n - 1] == class);
                    }
                }
                assert(names_apart(q.infos)) by {
                    assert forall|i: int, j: int| 0 <= i < j < q.infos.len() implies (
                    #[trigger] q.infos[i]).name != (#[trigger] q.infos[j]).name by {
                        assert(q.infos[i] == p.infos[i]);
                        if j < p.infos.len() {
                            assert(q.infos[j] == p.infos[j]);
                        }
                    }
                }
                lemma_all_noted_apart(q, s, lists.reached, lists.reached.len(), n);
            }
        }
    }
}

/// Where the type definitions have structures of different names, no two structures of the header
/// have the same name, those of generic classes included.
pub proof fn law_header_names_apart(s: Scene, spelling: Spelling)
    requires
        bases_apart(s.names),
        s.m.type_defs@.len() <= usize::MAX,
    ensures
        names_apart(header_structs(s, spelling)),
{
    lemma_queue_apart(s, spelling, choose|n: nat| queue_done(s, spelling, n));
}

/// How many of the first `n` types refer to a generic class whose structure has a new name.
spec fn unused(s: Scene, used: Set<Seq<char>>, n: nat) -> nat
    decreases n,
{
    if n == 0 {
        0
    } else {
        let class = s.il2cpp.types@[n - 1].generic_class;
        unused(s, used, (n - 1) as nat) + if s.special.contains_key(class) && !used.contains(
            s.special[class],
        ) {
            1nat
        } else {
            0
        }
    }
}

proof fn lemma_unused_insert(s: Scene, used: Set<Seq<char>>, name: Seq<char>, i: int, n: nat)
    requires
        0 <= i < n,
        s.special.contains_key(s.il2cpp.types@[i].generic_class),
        s.special[s.il2cpp.types@[i].generic_class] == name,
        !used.contains(name),
    ensures
        unused(s, used.insert(name), n) < unused(s, used, n),
    decreases n,
{
    if i < n - 1 {
        lemma_unused_insert(s, used, name, i, (n - 1) as nat);
    } else {
        lemma_unused_shrinks(s, used, name, (n - 1) as nat);
    }
}

proof fn lemma_unused_shrinks(s: Scene, used: Set<Seq<char>>, name: Seq<char>, n: nat)
    ensures
        unused(s, used.insert(name), n) <= unused(s, used, n),
    decreases n,
{
    if n > 0 {
        lemma_unused_shrinks(s, used, name, (n - 1) as nat);
    }
}

/// What is left to do: the classes that wait, and those that may still come.
spec fn work(s: Scene, q: Queue, i: int) -> int {
    unused(s, q.used, s.il2cpp.types@.len()) + q.list.len() - i
}

/// Each generic class that has a structure of its own is one that a type refers to.
pub open spec fn classes_found(s: Scene) -> bool {
    forall|class: u64| #[trigger]
        s.special.contains_key(class) ==> exists|i: int|
            0 <= i < s.il2cpp.types@.len() && (#[trigger] s.il2cpp.types@[i]).generic_class
                == class
}

proof fn lemma_noted_work(q: Queue, s: Scene, class: u64, i: int)
    requires
        classes_found(s),
    ensures
        work(s, noted(q, s, class), i) <= work(s, q, i),
        noted(q, s, class).list.len() >= q.list.len(),
{
    if s.special.contains_key(class) && !q.used.contains(s.special[class]) {
        let k = choose|k: int|
            0 <= k < s.il2cpp.types@.len() && (#[trigger] s.il2cpp.types@[k]).generic_class
                == class;
        lemma_unused_insert(s, q.used, s.special[class], k, s.il2cpp.types@.len());
    }
}

proof fn lemma_all_noted_work(q: Queue, s: Scene, classes: Seq<u64>, k: nat, i: int)
    requires
        classes_found(s),
    ensures
        work(s, all_noted(q, s, classes, k), i) <= work(s, q, i),
        all_noted(q, s, classes, k).list.len() >= q.list.len(),
    decreases k,
{
    if k > 0 {
        lemma_all_noted_work(q, s, classes, (k - 1) as nat, i);
        lemma_noted_work(
            all_noted(q, s, classes, (k - 1) as nat),
            s,
            classes[k - 1],
            i,
        );
    }
}

fn note_class(
    class: u64,
    special: &HashMap<u64, String>,
    list: &mut Vec<u64>,
    used: &mut NameSet,
    Ghost(s): Ghost<Scene>,
    Ghost(q): Ghost<Queue>,
)
    requires
        s.special == c_types::name_texts(special@),
        q.list == old(list)@,
        q.used == old(used)@,
    ensures
        noted(q, s, class) == (Queue { list: final(list)@, used: final(used)@, ..q }),
{
    if let Some(name) = special.get(&class) {
        if !used.contains(name.as_str()) {
            used.insert(name.clone());
            list.push(class);
        }
    }
}

fn collect_used(names: &HashMap<usize, String>) -> (r: NameSet)
    ensures
        r@ == c_types::name_texts(names@).values(),
{
    let mut used = NameSet::new();
    let ghost all = names.values().remaining();
    for name in iter: names.values()
        invariant
            iter.seq() == all,
            forall|t: Seq<char>| #[trigger]
                used@.contains(t) <==> exists|k: int|
                    0 <= k < iter.index() && t == (#[trigger] all[k])@,
    {
        let ghost was = used@;
        used.insert(name.clone());
        proof {
            let i = iter.index();
            assert forall|t: Seq<char>| #[trigger] used@.contains(t) <==> exists|k: int|
                0 <= k < i + 1 && t == (#[trigger] all[k])@ by {
                assert(was.contains(t) <==> exists|k: int|
                    0 <= k < i && t == (#[trigger] all[k])@);
                if t == name@ {
                    assert(t == all[i]@);
                }
            }
        }
    }
    proof {
        let texts = c_types::name_texts(names@);
        assert(all.unref().to_set() == names@.values());
        assert forall|t: Seq<char>| used@.contains(t) <==> texts.values().contains(t) by {
            if used@.contains(t) {
                let k = choose|k: int| 0 <= k < all.len() && t == (#[trigger] all[k])@;
                assert(all.unref()[k] == *all[k]);
                assert(all.unref().to_set().contains(*all[k]));
                let key = choose|key: usize| #[trigger]
                    names@.contains_key(key) && names@[key] == *all[k];
                assert(texts.contains_key(key) && texts[key] == t);
            }
            if texts.values().contains(t) {
                let key = choose|key: usize| #[trigger] texts.contains_key(key) && texts[key] == t;
                assert(names@.contains_key(key));
                assert(names@.values().contains(names@[key]));
                assert(all.unref().to_set().contains(names@[key]));
                let k = choose|k: int| 0 <= k < all.unref().len() && all.unref()[k] == names@[key];
                assert(t == all[k]@);
            }
        }
        assert(used@ =~= texts.values());
    }
    used
}

/// The structures of a header and the arrays that are declared with them.
pub(crate) fn build_infos<F: Fn(&str, NameStyle) -> String>(
    executor: &Il2CppExecutor,
    metadata: &Metadata,
    il2cpp: &Il2Cpp,
    names: &HashMap<usize, String>,
    special: &HashMap<u64, String>,
    sanitizer: &Sanitizer<F>,
    Ghost(s): Ghost<Scene>,
) -> (r: (Vec<StructInfo>, NameMap<String>))
    requires
        struct_info::scene_of(s, *executor, *metadata, *il2cpp, names@),
        s.special == c_types::name_texts(special@),
        s.special == class_names(s, sanitizer.spelling()),
        names_fit(s),
        bases_ready(s),
        classes_ready(s, sanitizer.spelling()),
    ensures
        script_json::views(r.0@) == last_queue(s, sanitizer.spelling()).infos,
        struct_info::fragments(r.1) == last_queue(s, sanitizer.spelling()).arrays,
{
    let ghost spelling = sanitizer.spelling();
    let mut arrays: NameMap<String> = NameMap::new();
    assert(c_types::name_texts(arrays@) =~= Map::<Seq<char>, Seq<char>>::empty());
    let mut infos = build_bases(
        executor,
        metadata,
        il2cpp,
        names,
        sanitizer,
        &mut arrays,
        Ghost(s),
    );
    let mut used = collect_used(names);
    let mut list: Vec<u64> = Vec::new();
    let ghost start = Queue {
        list: Seq::empty(),
        used: used@,
        infos: script_json::views(infos@),
        arrays: struct_info::fragments(arrays),
    };
    let mut k: usize = 0;
    assert(list@ =~= Seq::<u64>::empty());
    while k < il2cpp.types.len()
        invariant
            s.il2cpp == *il2cpp,
            s.special == c_types::name_texts(special@),
            k <= il2cpp.types@.len(),
            start.infos == script_json::views(infos@),
            start.arrays == struct_info::fragments(arrays),
            queue_upto(start, s, k as nat) == (Queue { list: list@, used: used@, ..start }),
        decreases il2cpp.types@.len() - k,
    {
        let t = il2cpp.types[k];
        let is_instance = match t.element_type() {
            Some(Il2CppTypeEnum::GenericInst) => true,
            _ => false,
        };
        if is_instance && t.generic_class != 0 {
            let ghost q = Queue { list: list@, used: used@, ..start };
            note_class(t.generic_class, special, &mut list, &mut used, Ghost(s), Ghost(q));
        }
        k = k + 1;
    }
    proof {
        assert forall|class: u64| #[trigger] s.special.contains_key(class) implies exists|i: int|
            0 <= i < s.il2cpp.types@.len() && (#[trigger] s.il2cpp.types@[i]).generic_class
                == class by {
            lemma_class_names_found(s, spelling, s.il2cpp.types@.len(), class);
        }
    }
    let mut i: usize = 0;
    while i < list.len()
        invariant
            struct_info::scene_of(s, *executor, *metadata, *il2cpp, names@),
            s.special == c_types::name_texts(special@),
            classes_found(s),
            classes_ready(s, spelling),
            spelling == sanitizer.spelling(),
            i <= list@.len(),
            queue_after(s, spelling, i as nat) == (Queue {
                list: list@,
                used: used@,
                infos: script_json::views(infos@),
                arrays: struct_info::fragments(arrays),
            }),
        decreases
                work(
                    s,
                    Queue {
                        list: list@,
                        used: used@,
                        infos: script_json::views(infos@),
                        arrays: struct_info::fragments(arrays),
                    },
                    i as int,
                ),
    {
        broadcast use script_json::lemma_views_push;

        let class: u64 = list[i];
        let ghost q0 = queue_after(s, spelling, i as nat);
        assert(class_ready(s, queue_after(s, spelling, i as nat).list[i as int]));
        i = i + 1;
        if let Some(td) = c_types::find_class_def(executor, il2cpp, class, Ghost(s)) {
            if let Some(name) = special.get(&class) {
                if let Ok(generic_class) = il2cpp.read_generic_class(class) {
                    let def = &metadata.type_defs[td];
                    let (info, reached) = make_info(
                        executor,
                        metadata,
                        il2cpp,
                        name.clone(),
                        def,
                        names,
                        sanitizer,
                        Some(generic_class.context),
                        Some(special),
                        &mut arrays,
                        Ghost(s),
                    );
                    infos.push(info);
                    let ghost q1 = Queue {
                        list: list@,
                        used: used@,
                        infos: script_json::views(infos@),
                        arrays: struct_info::fragments(arrays),
                    };
                    let mut j: usize = 0;
                    while j < reached.len()
                        invariant
                            s.special == c_types::name_texts(special@),
                            j <= reached@.len(),
                            q1.infos == script_json::views(infos@),
                            q1.arrays == struct_info::fragments(arrays),
                            all_noted(q1, s, reached@, j as nat) == (Queue {
                                list: list@,
                                used: used@,
                                ..q1
                            }),
                        decreases reached@.len() - j,
                    {
                        let ghost q = Queue { list: list@, used: used@, ..q1 };
                        note_class(
                            reached[j],
                            special,
                            &mut list,
                            &mut used,
                            Ghost(s),
                            Ghost(q),
                        );
                        j = j + 1;
                    }
                    proof {
                        lemma_all_noted_work(q1, s, reached@, reached@.len(), i as int);
                    }
                }
            }
        }
    }
    proof {
        assert(queue_done(s, spelling, i as nat));
        law_last_queue(s, spelling, i as nat);
    }
    (infos, arrays)
}

} // verus!
