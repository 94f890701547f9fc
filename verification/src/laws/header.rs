//! What the header of an image declares.
use crate::config::Config;
use crate::executor::Il2CppExecutor;
use crate::il2cpp::base::Il2Cpp;
use crate::il2cpp::metadata::Metadata;
use crate::laws::words;
use crate::names::{NameStyle, Spelling};
use crate::numeral;
use crate::output::c_types;
use crate::output::c_types::Scene;
use crate::output::header;
use crate::output::header::Queue;
use crate::output::method_info;
use crate::output::struct_generator;
use crate::output::struct_info;
use crate::output::struct_info::{Fragments, StructInfoModel, StructRGCTXInfoModel};
use crate::output::struct_names;
use crate::output::struct_text;
use crate::text;
use vstd::prelude::*;
use vstd::string::*;

verus! {

// The structures of type definitions.

/// The structure describes the type definition `td`: under its name, as a value or not, with its
/// parent, its fields, its virtual methods and its context.
pub open spec fn is_base(s: Scene, spelling: Spelling, td: int, info: StructInfoModel) -> bool {
    let def = s.m.type_defs@[td];
    &&& info.name == s.names[td as usize]
    &&& info.is_value_type == def.is_value_type
    &&& info.parent == struct_info::parent_name(s.il2cpp, def, s.names)
    &&& info.vtable_methods == struct_info::vtable(s.m, s.il2cpp, spelling, def)
    &&& info.rgctxs == struct_info::type_context(s.x, s.il2cpp, spelling, td as usize)
    &&& exists|arrays: Fragments|
        {
            let lists = #[trigger] struct_info::field_lists(
                s,
                spelling,
                def,
                None,
                false,
                arrays,
                def.field_count as nat,
            );
            info.fields == lists.fields && info.static_fields == lists.static_fields
        }
}

/// The structure describes the generic class: under its own name, with the fields of its type
/// definition in the context of the class, and without a context of its own.
pub open spec fn is_instance(s: Scene, spelling: Spelling, class: u64, info: StructInfoModel) -> bool {
    let def = s.m.type_defs@[s.x.generic_class_defs@[class] as int];
    let ctx = Some(s.il2cpp.generic_class_at(class)->Ok_0.context);
    &&& info.name == s.special[class]
    &&& info.is_value_type == def.is_value_type
    &&& info.parent == struct_info::parent_name(s.il2cpp, def, s.names)
    &&& info.vtable_methods == struct_info::vtable(s.m, s.il2cpp, spelling, def)
    &&& info.rgctxs.len() == 0
    &&& exists|arrays: Fragments|
        {
            let lists = #[trigger] struct_info::field_lists(
                s,
                spelling,
                def,
                ctx,
                true,
                arrays,
                def.field_count as nat,
            );
            info.fields == lists.fields && info.static_fields == lists.static_fields
        }
}

/// The type definitions below `n` that have a name.
pub open spec fn named_defs(s: Scene, n: nat) -> Seq<int> {
    Seq::new(n, |i: int| i).filter(|i: int| s.names.contains_key(i as usize))
}

proof fn lemma_bases(s: Scene, spelling: Spelling, n: nat)
    requires
        n <= s.m.type_defs@.len(),
        n <= usize::MAX,
    ensures
        ({
            let infos = header::bases_upto(s, spelling, n).0;
            let defs = named_defs(s, n);
            &&& infos.len() == defs.len()
            &&& forall|i: int|
                0 <= i < infos.len() ==> is_base(s, spelling, defs[i], #[trigger] infos[i])
            &&& forall|td: int|
                0 <= td < n && #[trigger] s.names.contains_key(td as usize) ==> defs.contains(td)
        }),
    decreases n,
{
    reveal(Seq::filter);
    if n > 0 {
        let m = (n - 1) as nat;
        lemma_bases(s, spelling, m);
        let all = Seq::new(n, |i: int| i);
        assert(all.drop_last() =~= Seq::new(m, |i: int| i));
        assert(all.last() == m);
        let p = header::bases_upto(s, spelling, m);
        let r = header::bases_upto(s, spelling, n).0;
        let before = named_defs(s, m);
        let defs = named_defs(s, n);
        let td = m as usize;
        if s.names.contains_key(td) {
            assert(defs == before.push(m as int));
            let def = s.m.type_defs@[m as int];
            let lists = struct_info::field_lists(
                s,
                spelling,
                def,
                None,
                false,
                p.1,
                def.field_count as nat,
            );
            assert(is_base(s, spelling, m as int, r.last()));
            assert forall|i: int| 0 <= i < r.len() implies is_base(
                s,
                spelling,
                defs[i],
                #[trigger] r[i],
            ) by {
                if i < p.0.len() {
                    assert(r[i] == p.0[i]);
                    assert(defs[i] == before[i]);
                }
            }
            assert forall|t: int|
                0 <= t < n && #[trigger] s.names.contains_key(t as usize) implies defs.contains(
                t,
            ) by {
                if t < m {
                    assert(before.contains(t));
                    let i = choose|i: int| 0 <= i < before.len() && before[i] == t;
                    assert(defs[i] == t);
                } else {
                    assert(defs[before.len() as int] == t);
                }
            }
        } else {
            assert(defs == before);
        }
    }
}

/// The structures of the queue begin with those of the type definitions.
spec fn begins_with(q: Queue, infos: Seq<StructInfoModel>) -> bool {
    &&& infos.len() <= q.infos.len()
    &&& forall|i: int| 0 <= i < infos.len() ==> #[trigger] q.infos[i] == infos[i]
}

proof fn lemma_noted(q: Queue, s: Scene, classes: Seq<u64>, k: nat)
    ensures
        ({
            let r = header::all_noted(q, s, classes, k);
            &&& r.infos == q.infos
            &&& r.arrays == q.arrays
            &&& q.list.len() <= r.list.len()
            &&& forall|i: int| 0 <= i < q.list.len() ==> #[trigger] r.list[i] == q.list[i]
            &&& q.used.subset_of(r.used)
            &&& forall|name: Seq<char>| #[trigger]
                r.used.contains(name) && !q.used.contains(name) ==> exists|i: int|
                    q.list.len() <= i < r.list.len() && s.special[#[trigger] r.list[i]] == name
            &&& forall|i: int|
                q.list.len() <= i < r.list.len() ==> s.special.contains_key(#[trigger] r.list[i])
        }),
    decreases k,
{
    if k > 0 {
        lemma_noted(q, s, classes, (k - 1) as nat);
        let p = header::all_noted(q, s, classes, (k - 1) as nat);
        let r = header::all_noted(q, s, classes, k);
        assert forall|name: Seq<char>| #[trigger]
            r.used.contains(name) && !q.used.contains(name) implies exists|i: int|
            q.list.len() <= i < r.list.len() && s.special[#[trigger] r.list[i]] == name by {
            if p.used.contains(name) {
                let i = choose|i: int|
                    q.list.len() <= i < p.list.len() && s.special[#[trigger] p.list[i]] == name;
                assert(r.list[i] == p.list[i]);
            } else {
                assert(r.list[p.list.len() as int] == classes[k - 1]);
            }
        }
    }
}

proof fn lemma_queue(q: Queue, s: Scene, n: nat)
    requires
        n <= s.il2cpp.types@.len(),
        q.list.len() == 0,
    ensures
        ({
            let r = header::queue_upto(q, s, n);
            &&& r.infos == q.infos
            &&& r.arrays == q.arrays
            &&& forall|name: Seq<char>| #[trigger]
                r.used.contains(name) <==> q.used.contains(name) || in_list(s, r.list, name)
            &&& forall|i: int|
                0 <= i < r.list.len() ==> s.special.contains_key(#[trigger] r.list[i])
            &&& forall|i: int|
                0 <= i < n && is_class_type(s, i) && s.special.contains_key(
                    (#[trigger] s.il2cpp.types@[i]).generic_class,
                ) ==> r.used.contains(s.special[s.il2cpp.types@[i].generic_class])
        }),
    decreases n,
{
    if n > 0 {
        lemma_queue(q, s, (n - 1) as nat);
        let p = header::queue_upto(q, s, (n - 1) as nat);
        let r = header::queue_upto(q, s, n);
        assert forall|name: Seq<char>| #[trigger]
            r.used.contains(name) <==> q.used.contains(name) || in_list(s, r.list, name) by {
            lemma_in_list(s, p.list, s.il2cpp.types@[n - 1].generic_class, name);
        }
    }
}

/// One of the classes has the name.
spec fn in_list(s: Scene, list: Seq<u64>, name: Seq<char>) -> bool {
    exists|i: int| 0 <= i < list.len() && s.special[#[trigger] list[i]] == name
}

proof fn lemma_in_list(s: Scene, list: Seq<u64>, class: u64, name: Seq<char>)
    ensures
        in_list(s, list.push(class), name) <==> in_list(s, list, name) || s.special[class] == name,
{
    let l = list.push(class);
    if in_list(s, list, name) {
        let i = choose|i: int| 0 <= i < list.len() && s.special[#[trigger] list[i]] == name;
        assert(l[i] == list[i]);
    }
    if s.special[class] == name {
        assert(l[list.len() as int] == class);
    }
    if in_list(s, l, name) {
        let i = choose|i: int| 0 <= i < l.len() && s.special[#[trigger] l[i]] == name;
        if i < list.len() {
            assert(list[i] == l[i]);
        }
    }
}

/// The type refers to a generic class.
pub open spec fn is_class_type(s: Scene, i: int) -> bool {
    s.il2cpp.types@[i].type_enum == 0x15 && s.il2cpp.types@[i].generic_class != 0
}

/// The structure describes a generic class that has a name and a type definition.
pub open spec fn is_some_instance(s: Scene, spelling: Spelling, info: StructInfoModel) -> bool {
    exists|class: u64| #[trigger]
        is_instance(s, spelling, class, info) && s.special.contains_key(class)
            && s.x.generic_class_defs@.contains_key(class)
}

/// The queue after `n` classes: the type definitions come first, and each of the classes that were
/// taken up is described behind them.
spec fn is_worked_off(s: Scene, spelling: Spelling, q: Queue, n: nat) -> bool {
    &&& begins_with(q, header::bases_upto(s, spelling, s.m.type_defs@.len()).0)
    &&& forall|name: Seq<char>| #[trigger]
        q.used.contains(name) <==> s.names.values().contains(name) || in_list(s, q.list, name)
    &&& forall|i: int| 0 <= i < q.list.len() ==> s.special.contains_key(#[trigger] q.list[i])
    &&& forall|i: int|
        0 <= i < n && i < q.list.len() && c_types::class_def(s, #[trigger] q.list[i]) is Some
            ==> exists|k: int|
            0 <= k < q.infos.len() && is_instance(s, spelling, q.list[i], #[trigger] q.infos[k])
    &&& forall|k: int|
        header::bases_upto(s, spelling, s.m.type_defs@.len()).0.len() <= k < q.infos.len()
            ==> is_some_instance(s, spelling, #[trigger] q.infos[k])
    &&& forall|i: int|
        0 <= i < s.il2cpp.types@.len() && is_class_type(s, i) && s.special.contains_key(
            (#[trigger] s.il2cpp.types@[i]).generic_class,
        ) ==> q.used.contains(s.special[s.il2cpp.types@[i].generic_class])
}

proof fn lemma_first_queue(s: Scene, spelling: Spelling)
    ensures
        is_worked_off(s, spelling, header::first_queue(s, spelling), 0),
{
    let bases = header::bases_upto(s, spelling, s.m.type_defs@.len());
    let q = Queue { list: Seq::empty(), used: s.names.values(), infos: bases.0, arrays: bases.1 };
    lemma_queue(q, s, s.il2cpp.types@.len());
}

proof fn lemma_after_class(s: Scene, spelling: Spelling, q: Queue, i: nat)
    requires
        i < q.list.len(),
        is_worked_off(s, spelling, q, i),
    ensures
        is_worked_off(s, spelling, header::after_class(q, s, spelling, i as int), i + 1),
{
    let class = q.list[i as int];
    let r = header::after_class(q, s, spelling, i as int);
    match c_types::class_def(s, class) {
        Some(td) => {
            let def = s.m.type_defs@[td];
            let ctx = Some(s.il2cpp.generic_class_at(class)->Ok_0.context);
            let lists = struct_info::field_lists(
                s,
                spelling,
                def,
                ctx,
                true,
                q.arrays,
                def.field_count as nat,
            );
            let info = header::info_for(s, spelling, s.special[class], def, ctx, true, q.arrays);
            assert(s.special.contains_key(class));
            let mid = Queue { infos: q.infos.push(info), arrays: lists.arrays, ..q };
            lemma_noted(mid, s, lists.reached, lists.reached.len());
            assert(is_instance(s, spelling, class, info));
            assert forall|k: int|
                0 <= k < i + 1 && k < r.list.len() && c_types::class_def(
                    s,
                    #[trigger] r.list[k],
                ) is Some implies exists|h: int|
                0 <= h < r.infos.len() && is_instance(
                    s,
                    spelling,
                    r.list[k],
                    #[trigger] r.infos[h],
                ) by {
                assert(r.list[k] == q.list[k]);
                if k < i {
                    let h = choose|h: int|
                        0 <= h < q.infos.len() && is_instance(
                            s,
                            spelling,
                            q.list[k],
                            #[trigger] q.infos[h],
                        );
                    assert(r.infos[h] == q.infos[h]);
                } else {
                    assert(r.infos[q.infos.len() as int] == info);
                }
            }
            let bases = header::bases_upto(s, spelling, s.m.type_defs@.len()).0.len();
            assert forall|k: int| bases <= k < r.infos.len() implies is_some_instance(
                s,
                spelling,
                #[trigger] r.infos[k],
            ) by {
                if k < q.infos.len() {
                    assert(r.infos[k] == q.infos[k]);
                } else {
                    assert(is_instance(s, spelling, class, r.infos[k]));
                }
            }
            assert forall|name: Seq<char>| #[trigger] r.used.contains(name)
                <==> s.names.values().contains(name) || in_list(s, r.list, name) by {
                if q.used.contains(name) && !s.names.values().contains(name) {
                    let k = choose|k: int|
                        0 <= k < q.list.len() && s.special[#[trigger] q.list[k]] == name;
                    assert(r.list[k] == q.list[k]);
                }
                if r.used.contains(name) && !q.used.contains(name) {
                    let k = choose|k: int|
                        q.list.len() <= k < r.list.len() && s.special[#[trigger] r.list[k]]
                            == name;
                    assert(in_list(s, r.list, name));
                }
                if in_list(s, r.list, name) {
                    lemma_noted_used(mid, s, lists.reached, lists.reached.len(), name);
                }
            }
            assert forall|k: int| 0 <= k < r.list.len() implies s.special.contains_key(
                #[trigger] r.list[k],
            ) by {
                if k < q.list.len() {
                    assert(r.list[k] == q.list[k]);
                }
            }
        },
        None => {},
    }
}

proof fn lemma_noted_used(q: Queue, s: Scene, classes: Seq<u64>, k: nat, name: Seq<char>)
    requires
        in_list(s, q.list, name) ==> q.used.contains(name),
    ensures
        in_list(s, header::all_noted(q, s, classes, k).list, name) ==> header::all_noted(
            q,
            s,
            classes,
            k,
        ).used.contains(name),
    decreases k,
{
    if k > 0 {
        lemma_noted_used(q, s, classes, (k - 1) as nat, name);
        let p = header::all_noted(q, s, classes, (k - 1) as nat);
        lemma_in_list(s, p.list, classes[k - 1], name);
    }
}

proof fn lemma_queue_after(s: Scene, spelling: Spelling, n: nat)
    ensures
        is_worked_off(s, spelling, header::queue_after(s, spelling, n), n),
    decreases n,
{
    if n == 0 {
        lemma_first_queue(s, spelling);
    } else {
        lemma_queue_after(s, spelling, (n - 1) as nat);
        let p = header::queue_after(s, spelling, (n - 1) as nat);
        if n - 1 < p.list.len() {
            lemma_after_class(s, spelling, p, (n - 1) as nat);
        }
    }
}

/// The structures of a header begin with one for each type definition that has a name, in order.
/// Behind them each generic class that a type refers to, and that has a name and a type definition
/// of its own, is described, unless another structure has its name; there are no others.
pub proof fn law_header_structs(s: Scene, spelling: Spelling, n: nat)
    requires
        header::queue_done(s, spelling, n),
        s.m.type_defs@.len() <= usize::MAX,
    ensures
        ({
            let infos = header::header_structs(s, spelling);
            let defs = named_defs(s, s.m.type_defs@.len());
            &&& defs.len() <= infos.len()
            &&& forall|i: int|
                0 <= i < defs.len() ==> is_base(s, spelling, defs[i], #[trigger] infos[i])
            &&& forall|td: int|
                0 <= td < s.m.type_defs@.len() && #[trigger] s.names.contains_key(td as usize)
                    ==> defs.contains(td)
            &&& forall|i: int|
                defs.len() <= i < infos.len() ==> is_some_instance(s, spelling, #[trigger] infos[i])
            &&& forall|i: int|
                0 <= i < s.il2cpp.types@.len() && is_class_type(s, i) && s.special.contains_key(
                    (#[trigger] s.il2cpp.types@[i]).generic_class,
                ) ==> is_described(s, spelling, infos, s.il2cpp.types@[i].generic_class)
        }),
{
    header::law_last_queue(s, spelling, n);
    lemma_queue_after(s, spelling, n);
    lemma_bases(s, spelling, s.m.type_defs@.len());
    let q = header::queue_after(s, spelling, n);
    assert forall|i: int|
        0 <= i < s.il2cpp.types@.len() && is_class_type(s, i) && s.special.contains_key(
            (#[trigger] s.il2cpp.types@[i]).generic_class,
        ) implies is_described(s, spelling, q.infos, s.il2cpp.types@[i].generic_class) by {
        let name = s.special[s.il2cpp.types@[i].generic_class];
        assert(q.used.contains(name));
        if !s.names.values().contains(name) {
            let k = choose|k: int|
                0 <= k < q.list.len() && s.special[#[trigger] q.list[k]] == name;
            assert(s.special.contains_key(q.list[k]));
            assert(k < n);
            if c_types::class_def(s, q.list[k]) is Some {
                assert(exists|h: int|
                    0 <= h < q.infos.len() && is_instance(
                        s,
                        spelling,
                        q.list[k],
                        #[trigger] q.infos[h],
                    ));
            }
            assert(takes_name(s, q.list[k], name));
        }
    }
}

/// The generic class has the name of a structure.
pub open spec fn takes_name(s: Scene, class: u64, name: Seq<char>) -> bool {
    s.special.contains_key(class) && s.special[class] == name
}

/// The name of a generic class is that of a type definition, or that of a generic class which is
/// described if it has a type definition.
pub open spec fn is_described(
    s: Scene,
    spelling: Spelling,
    infos: Seq<StructInfoModel>,
    class: u64,
) -> bool {
    s.names.values().contains(s.special[class]) || exists|other: u64| #[trigger]
        takes_name(s, other, s.special[class]) && (c_types::class_def(s, other) is Some ==> exists|
            k: int,
        |
            0 <= k < infos.len() && is_instance(s, spelling, other, #[trigger] infos[k]))
}

// The names of generic classes.

/// The name of a generic class is that of its type definition, with the spelled name of the
/// definition turned into that of the type that refers to the class; where several do, of the last
/// one. A class that no type refers to has no name.
pub proof fn law_class_names(s: Scene, spelling: Spelling, n: nat)
    requires
        n <= s.il2cpp.types@.len(),
    ensures
        forall|i: int|
            0 <= i < n && #[trigger] names_class(s, i) ==> header::class_names_upto(
                s,
                spelling,
                n,
            ).contains_key(s.il2cpp.types@[i].generic_class),
        forall|class: u64| #[trigger]
            header::class_names_upto(s, spelling, n).contains_key(class) ==> exists|i: int|
                0 <= i < n && #[trigger] names_class(s, i) && s.il2cpp.types@[i].generic_class
                    == class && header::class_names_upto(s, spelling, n)[class] == class_name(
                    s,
                    spelling,
                    i,
                ) && forall|j: int|
                    i < j < n && #[trigger] names_class(s, j) ==> s.il2cpp.types@[j].generic_class
                        != class,
    decreases n,
{
    if n > 0 {
        law_class_names(s, spelling, (n - 1) as nat);
        let p = header::class_names_upto(s, spelling, (n - 1) as nat);
        let r = header::class_names_upto(s, spelling, n);
        assert(header::own_class_name(s, spelling, n - 1) == if names_class(s, n - 1) {
            Some(class_name(s, spelling, n - 1))
        } else {
            None
        });
        assert forall|class: u64| #[trigger] r.contains_key(class) implies exists|i: int|
            0 <= i < n && #[trigger] names_class(s, i) && s.il2cpp.types@[i].generic_class == class
                && r[class] == class_name(s, spelling, i) && forall|j: int|
                i < j < n && #[trigger] names_class(s, j) ==> s.il2cpp.types@[j].generic_class
                    != class by {
            if names_class(s, n - 1) && s.il2cpp.types@[n - 1].generic_class == class {
                assert(names_class(s, n - 1));
            } else {
                assert(p.contains_key(class));
                let i = choose|i: int|
                    0 <= i < n - 1 && #[trigger] names_class(s, i)
                        && s.il2cpp.types@[i].generic_class == class && p[class] == class_name(
                        s,
                        spelling,
                        i,
                    ) && forall|j: int|
                        i < j < n - 1 && #[trigger] names_class(s, j)
                            ==> s.il2cpp.types@[j].generic_class != class;
                assert(names_class(s, i));
            }
        }
    }
}

/// The type refers to a generic class whose record can be read and whose type definition has a
/// structure.
pub open spec fn names_class(s: Scene, i: int) -> bool {
    let class = s.il2cpp.types@[i].generic_class;
    &&& is_class_type(s, i)
    &&& s.il2cpp.generic_class_at(class) is Ok
    &&& s.x.generic_class_defs@.contains_key(class)
    &&& s.names.contains_key(s.x.generic_class_defs@[class])
}

/// The name of the generic class that a type refers to.
pub open spec fn class_name(s: Scene, spelling: Spelling, i: int) -> Seq<char> {
    let td = s.x.generic_class_defs@[s.il2cpp.types@[i].generic_class];
    text::replaced(
        s.names[td],
        spelling(s.x.type_def_names@[td as int]@, NameStyle::Cpp),
        spelling(s.x.type_names@[i]@, NameStyle::Cpp),
    )
}

// The descriptions of methods.

/// A text with what describes a method behind it, as the runtime of the version lays it out: its
/// code, the call that invokes it, its name, its class, its result, its parameters, its context,
/// its generic form, and its numbers.
pub open spec fn with_method_info(
    before: Seq<char>,
    name: Seq<char>,
    class: Seq<char>,
    context: Seq<StructRGCTXInfoModel>,
    version: u32,
) -> Seq<char> {
    let since_29 = version >= words::version_number(29, 0);
    let since_27 = version >= words::version_number(27, 0);
    let upto_24 = version <= words::version_number(24, 0);
    before + "struct "@ + name + (" {\n"@ + "\tIl2CppMethodPointer methodPointer;\n"@) + (
    if since_29 {
        "\tIl2CppMethodPointer virtualMethodPointer;\n"@ + "\tInvokerMethod invoker_method;\n"@
    } else {
        "\tvoid* invoker_method;\n"@
    }) + ("\tconst char* name;\n"@ + "\t"@) + class + (if upto_24 {
        "_c *declaring_type;\n"@
    } else {
        "_c *klass;\n"@
    }) + "\tconst Il2CppType *return_type;\n"@ + (if since_29 {
        "\tconst Il2CppType** parameters;\n"@
    } else {
        "\tconst void* parameters;\n"@
    }) + (if context.len() == 0 {
        "\tconst Il2CppRGCTXData* rgctx_data;\n"@
    } else {
        "\tconst "@ + name + "_RGCTXs* rgctx_data;\n"@
    }) + ("\tunion\n"@ + "\t{\n"@ + "\t\tconst void* genericMethod;\n"@) + (if since_27 {
        "\t\tconst void* genericContainerHandle;\n"@
    } else {
        "\t\tconst void* genericContainer;\n"@
    }) + "\t};\n"@ + (if upto_24 {
        "\tint32_t customAttributeIndex;\n"@
    } else {
        Seq::empty()
    }) + ("\tuint32_t token;\n"@ + "\tuint16_t flags;\n"@ + "\tuint16_t iflags;\n"@
        + "\tuint16_t slot;\n"@ + "\tuint8_t parameters_count;\n"@ + "\tuint8_t bitflags;\n"@
        + "};\n"@)
}

/// A method is described behind its context, if it has one.
pub proof fn law_method_info(
    name: Seq<char>,
    class: Seq<char>,
    context: Seq<StructRGCTXInfoModel>,
    version: u32,
)
    ensures
        method_info::method_info(name, class, context, version) == with_method_info(
            struct_text::context_struct(name, context),
            name,
            class,
            context,
            version,
        ),
{
    lemma_method_info_lines();
    lemma_method_info_numbers();
    reveal_strlit("");
    assert(""@ =~= Seq::<char>::empty());
}

proof fn lemma_method_info_lines()
    ensures
        " {\n\tIl2CppMethodPointer methodPointer;\n"@ == " {\n"@
            + "\tIl2CppMethodPointer methodPointer;\n"@,
        "\tIl2CppMethodPointer virtualMethodPointer;\n\tInvokerMethod invoker_method;\n"@
            == "\tIl2CppMethodPointer virtualMethodPointer;\n"@
            + "\tInvokerMethod invoker_method;\n"@,
        "\tconst char* name;\n\t"@ == "\tconst char* name;\n"@ + "\t"@,
        "\tunion\n\t{\n\t\tconst void* genericMethod;\n"@ == "\tunion\n"@ + "\t{\n"@
            + "\t\tconst void* genericMethod;\n"@,
{
    reveal_strlit(" {\n\tIl2CppMethodPointer methodPointer;\n");
    reveal_strlit(" {\n");
    reveal_strlit("\tIl2CppMethodPointer methodPointer;\n");
    assert(" {\n\tIl2CppMethodPointer methodPointer;\n"@ =~= " {\n"@
        + "\tIl2CppMethodPointer methodPointer;\n"@);
    reveal_strlit(
        "\tIl2CppMethodPointer virtualMethodPointer;\n\tInvokerMethod invoker_method;\n",
    );
    reveal_strlit("\tIl2CppMethodPointer virtualMethodPointer;\n");
    reveal_strlit("\tInvokerMethod invoker_method;\n");
    assert("\tIl2CppMethodPointer virtualMethodPointer;\n\tInvokerMethod invoker_method;\n"@
        =~= "\tIl2CppMethodPointer virtualMethodPointer;\n"@
        + "\tInvokerMethod invoker_method;\n"@);
    reveal_strlit("\tconst char* name;\n\t");
    reveal_strlit("\tconst char* name;\n");
    reveal_strlit("\t");
    assert("\tconst char* name;\n\t"@ =~= "\tconst char* name;\n"@ + "\t"@);
    reveal_strlit("\tunion\n\t{\n\t\tconst void* genericMethod;\n");
    reveal_strlit("\tunion\n");
    reveal_strlit("\t{\n");
    reveal_strlit("\t\tconst void* genericMethod;\n");
    assert("\tunion\n\t{\n\t\tconst void* genericMethod;\n"@ =~= "\tunion\n"@ + "\t{\n"@
        + "\t\tconst void* genericMethod;\n"@);
}

proof fn lemma_method_info_numbers()
    ensures
        "\tuint32_t token;\n\tuint16_t flags;\n\tuint16_t iflags;\n\tuint16_t slot;\n\tuint8_t parameters_count;\n\tuint8_t bitflags;\n};\n"@
            == "\tuint32_t token;\n"@ + "\tuint16_t flags;\n"@ + "\tuint16_t iflags;\n"@
            + "\tuint16_t slot;\n"@ + "\tuint8_t parameters_count;\n"@
            + "\tuint8_t bitflags;\n"@ + "};\n"@,
{
    reveal_strlit(
        "\tuint32_t token;\n\tuint16_t flags;\n\tuint16_t iflags;\n\tuint16_t slot;\n\tuint8_t parameters_count;\n\tuint8_t bitflags;\n};\n",
    );
    reveal_strlit("\tuint32_t token;\n");
    reveal_strlit("\tuint16_t flags;\n");
    reveal_strlit("\tuint16_t iflags;\n");
    reveal_strlit("\tuint16_t slot;\n");
    reveal_strlit("\tuint8_t parameters_count;\n");
    reveal_strlit("\tuint8_t bitflags;\n");
    reveal_strlit("};\n");
    assert("\tuint32_t token;\n\tuint16_t flags;\n\tuint16_t iflags;\n\tuint16_t slot;\n\tuint8_t parameters_count;\n\tuint8_t bitflags;\n};\n"@
        =~= "\tuint32_t token;\n"@ + "\tuint16_t flags;\n"@ + "\tuint16_t iflags;\n"@
        + "\tuint16_t slot;\n"@ + "\tuint8_t parameters_count;\n"@ + "\tuint8_t bitflags;\n"@
        + "};\n"@);
}

/// A method of an instance is described under the place of its code, if it has code and no other
/// one with the same code was described before.
pub proof fn law_instance_described(
    p: method_info::MethodInfos,
    x: Il2CppExecutor,
    il2cpp: Il2Cpp,
    spelling: Spelling,
    class: Seq<char>,
    method: usize,
    spec: usize,
)
    ensures
        ({
            let r = method_info::with_spec(p, x, il2cpp, spelling, class, method, spec);
            let pointers = il2cpp.method_spec_generic_method_pointers@;
            let pointer = pointers[spec];
            let described = spec < il2cpp.method_specs@.len() && pointers.contains_key(spec)
                && pointer != 0 && !p.pointers.contains(pointer);
            let name = "MethodInfo_"@ + numeral::numeral(
                il2cpp.rva(pointer) as nat,
                16,
                true,
            );
            let context = struct_info::method_context(x, il2cpp, spelling, method);
            &&& described ==> r.pointers == p.pointers.insert(pointer) && r.text == p.text
                + with_method_info(
                struct_text::context_struct(name, context),
                name,
                class,
                context,
                il2cpp.version,
            )
            &&& !described ==> r == p
        }),
{
    let pointer = method_info::spec_pointer(il2cpp, spec);
    let name = "MethodInfo_"@ + numeral::numeral(il2cpp.rva(pointer) as nat, 16, true);
    let context = struct_info::method_context(x, il2cpp, spelling, method);
    law_method_info(name, class, context, il2cpp.version);
}

// The header and the files.

/// The header is made of the standard headers that it needs, the header of all versions, that of
/// the version, the structures, the arrays in the order in which they were found, and what
/// describes methods.
pub proof fn law_header_text(
    s: Scene,
    spelling: Spelling,
    config: Config,
    generic_header: Seq<char>,
    version_header: Seq<char>,
    ordered: Option<Seq<char>>,
)
    ensures
        ({
            let arrays = header::last_queue(s, spelling).arrays;
            let r = struct_generator::header_text(
                s,
                spelling,
                config,
                generic_header,
                version_header,
                ordered,
            );
            let structs = struct_text::declarations(
                header::header_structs(s, spelling),
                struct_text::Target {
                    gcc: config.compiler_layout@ == "GCC"@,
                    is_32bit: s.il2cpp.is_32bit,
                    is_pe: s.il2cpp.is_pe,
                },
            );
            r == "#include <stdint.h>\n"@ + "#include <stdbool.h>\n"@ + "\n"@ + generic_header
                + version_header + (if config.use_topological_sort && ordered is Some {
                ordered->0
            } else {
                structs
            }) + crate::laws::texts::flat(
                arrays.keys.len() as int,
                |i: int| arrays.map[arrays.keys[i]],
            ) + method_info::method_infos(s.x, s.m, s.il2cpp, spelling, s.names)
        }),
{
    reveal_strlit("#include <stdint.h>\n#include <stdbool.h>\n\n");
    reveal_strlit("#include <stdint.h>\n");
    reveal_strlit("#include <stdbool.h>\n");
    reveal_strlit("\n");
    assert("#include <stdint.h>\n#include <stdbool.h>\n\n"@ =~= "#include <stdint.h>\n"@
        + "#include <stdbool.h>\n"@ + "\n"@);
    let arrays = header::last_queue(s, spelling).arrays;
    lemma_fragments(arrays, arrays.keys.len());
}

proof fn lemma_fragments(f: Fragments, n: nat)
    ensures
        struct_generator::fragment_text(f, n) == crate::laws::texts::flat(
            n as int,
            |i: int| f.map[f.keys[i]],
        ),
    decreases n,
{
    if n > 0 {
        lemma_fragments(f, (n - 1) as nat);
    }
}

/// The files are the script, the literals and the header in any case, then the functions where they
/// are wanted, and the types and the interface of the engine where they are wanted and known.
pub proof fn law_outputs(
    config: Config,
    script: Seq<char>,
    literals: Seq<char>,
    header: Seq<char>,
    functions: Seq<char>,
    unity_types: Seq<char>,
    unity_api: Seq<char>,
)
    ensures
        ({
            let r = struct_generator::outputs(
                config,
                script,
                literals,
                header,
                functions,
                unity_types,
                unity_api,
            );
            let f = if config.generate_cpp_scaffold {
                1int
            } else {
                0
            };
            let t = if config.generate_unity_headers && unity_types.len() > 0 {
                1int
            } else {
                0
            };
            let a = if config.generate_unity_headers && unity_api.len() > 0 {
                1int
            } else {
                0
            };
            &&& r.len() == 3 + f + t + a
            &&& r[0].name == "script.json"@ && r[0].text == script
            &&& r[1].name == "stringliteral.json"@ && r[1].text == literals
            &&& r[2].name == "il2cpp.h"@ && r[2].text == header
            &&& f == 1 ==> r[3].name == "il2cpp-functions.h"@ && r[3].text == functions
            &&& t == 1 ==> r[3 + f].name == "il2cpp-types.h"@ && r[3 + f].text == unity_types
            &&& a == 1 ==> r[3 + f + t].name == "il2cpp-api.h"@ && r[3 + f + t].text == unity_api
        }),
{
}

/// The methods of instances are described type definition by type definition, in the order in which
/// images list them, under the structure of the type definition; one without a structure is left
/// out. In each the methods are gone through from the first on, and their instances in order.
pub proof fn law_method_infos(
    x: Il2CppExecutor,
    m: Metadata,
    il2cpp: Il2Cpp,
    spelling: Spelling,
    names: Map<usize, Seq<char>>,
    n: nat,
    h: nat,
    k: nat,
)
    requires
        n > 0,
        k > 0,
    ensures
        method_info::method_infos_upto(x, m, il2cpp, spelling, names, 0).text.len() == 0,
        ({
            let before = method_info::method_infos_upto(
                x,
                m,
                il2cpp,
                spelling,
                names,
                (n - 1) as nat,
            );
            let all = method_info::method_infos_upto(x, m, il2cpp, spelling, names, n);
            let td = crate::il2cpp::metadata::type_jobs(m)[n - 1].0;
            let class = names[td as usize];
            let first = m.type_defs@[td].method_start as int;
            &&& !names.contains_key(td as usize) ==> all == before
            &&& names.contains_key(td as usize) ==> all == method_info::with_methods(
                before,
                x,
                il2cpp,
                spelling,
                class,
                first,
                m.type_defs@[td].method_count as nat,
            )
            &&& method_info::with_methods(before, x, il2cpp, spelling, class, first, 0) == before
            &&& method_info::with_methods(before, x, il2cpp, spelling, class, first, h + 1)
                == method_info::with_specs(
                method_info::with_methods(before, x, il2cpp, spelling, class, first, h),
                x,
                il2cpp,
                spelling,
                class,
                (first + h) as usize,
                method_info::specs_for(il2cpp, (first + h) as usize).len(),
            )
            &&& method_info::with_specs(before, x, il2cpp, spelling, class, h as usize, 0)
                == before
            &&& method_info::with_specs(before, x, il2cpp, spelling, class, h as usize, k)
                == method_info::with_spec(
                method_info::with_specs(
                    before,
                    x,
                    il2cpp,
                    spelling,
                    class,
                    h as usize,
                    (k - 1) as nat,
                ),
                x,
                il2cpp,
                spelling,
                class,
                h as usize,
                method_info::specs_for(il2cpp, h as usize)[k - 1],
            )
        }),
{
}

/// A symbol belongs to the interface of a runtime if its name begins with that of one of the two
/// runtimes and an underscore.
pub proof fn law_api_symbol(rest: Seq<char>)
    ensures
        struct_generator::is_api_symbol("il2cpp"@ + "_"@ + rest),
        struct_generator::is_api_symbol("mono"@ + "_"@ + rest),
        struct_generator::is_api_symbol(rest) ==> rest.len() >= 5 && (rest.take(5) == "mono"@
            + "_"@ || (rest.len() >= 7 && rest.take(7) == "il2cpp"@ + "_"@)),
{
    reveal_strlit("il2cpp_");
    reveal_strlit("il2cpp");
    reveal_strlit("mono_");
    reveal_strlit("mono");
    reveal_strlit("_");
    assert("il2cpp_"@ =~= "il2cpp"@ + "_"@);
    assert("mono_"@ =~= "mono"@ + "_"@);
    let a = "il2cpp"@ + "_"@ + rest;
    assert(a.subrange(0, 7) =~= "il2cpp_"@);
    assert(text::occurs_at(a, "il2cpp_"@, 0));
    let b = "mono"@ + "_"@ + rest;
    assert(b.subrange(0, 5) =~= "mono_"@);
    assert(text::occurs_at(b, "mono_"@, 0));
    if text::starts_with(rest, "mono_"@) {
        assert(rest.take(5) =~= rest.subrange(0, 5));
    }
    if text::starts_with(rest, "il2cpp_"@) {
        assert(rest.take(7) =~= rest.subrange(0, 7));
    }
}

/// The header of an image is made with its metadata, its tables, the names of its structures and
/// those of its generic classes.
pub proof fn law_header_scene(x: Il2CppExecutor, m: Metadata, il2cpp: Il2Cpp, spelling: Spelling)
    ensures
        ({
            let s = struct_generator::header_scene(x, m, il2cpp, spelling);
            let plain = Scene { special: Map::empty(), ..s };
            &&& s.m == m && s.il2cpp == il2cpp && s.x == x
            &&& s.names == struct_names::struct_names(x, m, spelling)
            &&& s.special == header::class_names_upto(plain, spelling, il2cpp.types@.len())
        }),
{
}

/// The parts of a header are its structures, its arrays with their names in the order in which they
/// were found, the groups of its structures, and what describes its methods.
pub proof fn law_parts(
    p: struct_generator::HeaderParts,
    s: Scene,
    spelling: Spelling,
    per_index: u32,
)
    requires
        struct_generator::are_parts(p, s, spelling, per_index),
    ensures
        p.structs@.len() == header::header_structs(s, spelling).len(),
        forall|i: int|
            0 <= i < p.structs@.len() ==> (#[trigger] p.structs@[i])@ == header::header_structs(
                s,
                spelling,
            )[i],
        p.arrays.keys() == header::last_queue(s, spelling).arrays.keys,
        forall|k: Seq<char>| #[trigger]
            header::last_queue(s, spelling).arrays.map.contains_key(k)
                <==> p.arrays@.contains_key(k),
        forall|k: Seq<char>| #[trigger]
            header::last_queue(s, spelling).arrays.map.contains_key(k) ==> p.arrays@[k]@
                == header::last_queue(s, spelling).arrays.map[k],
        p.groups@ == crate::output::type_groups::type_groups(
            (crate::output::type_groups::Resolver {
                il2cpp: s.il2cpp,
                names: s.names,
                special: s.special,
            }),
            s.m,
            per_index,
        ),
        p.method_infos@ == method_info::method_infos_upto(
            s.x,
            s.m,
            s.il2cpp,
            spelling,
            s.names,
            crate::il2cpp::metadata::type_jobs(s.m).len(),
        ).text,
{
    let all = header::header_structs(s, spelling);
    assert(crate::output::script_json::views(p.structs@) == all);
    assert forall|i: int| 0 <= i < p.structs@.len() implies (#[trigger] p.structs@[i])@
        == all[i] by {
        assert(crate::output::script_json::views(p.structs@)[i] == p.structs@[i]@);
    }
}

} // verus!
