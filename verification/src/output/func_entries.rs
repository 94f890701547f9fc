//! The functions behind the methods of an image.
use crate::executor::Il2CppExecutor;
use crate::il2cpp::base;
use crate::il2cpp::base::Il2Cpp;
use crate::il2cpp::enums::{V16, V27};
use crate::il2cpp::metadata;
use crate::il2cpp::metadata::Metadata;
use crate::il2cpp::structures;
use crate::il2cpp::structures::Il2CppGenericContext;
use crate::io;
use crate::names::{NameStyle, Sanitizer, Spelling};
use crate::numeral;
use crate::output::c_types;
use crate::output::c_types::{CStyle, Scene};
use crate::output::method_info;
use crate::output::script_json;
use crate::output::signature;
use crate::output::struct_info;
use crate::output::usages;
use std::collections::{HashMap, HashSet};
use vstd::prelude::*;
use vstd::string::*;

verus! {

/// The function behind a method.
#[derive(Debug)]
pub struct FuncEntry {
    /// The address of the code; 0 where there is none.
    pub rva: u64,
    pub return_type: String,
    pub func_name: String,
    pub params: String,
    /// The address of what describes the method.
    pub method_info_rva: Option<u64>,
}

/// The function behind a method, as texts.
pub struct FuncEntryModel {
    pub rva: u64,
    pub return_type: Seq<char>,
    pub func_name: Seq<char>,
    pub params: Seq<char>,
    pub method_info_rva: Option<u64>,
}

impl View for FuncEntry {
    type V = FuncEntryModel;

    open spec fn view(&self) -> FuncEntryModel {
        FuncEntryModel {
            rva: self.rva,
            return_type: self.return_type@,
            func_name: self.func_name@,
            params: self.params@,
            method_info_rva: self.method_info_rva,
        }
    }
}

// The addresses of what describes methods.

/// The addresses with that of a method, if there is such a method.
pub open spec fn with_info(p: Map<usize, u64>, m: Metadata, method: int, rva: u64) -> Map<usize, u64> {
    if method < m.method_defs@.len() {
        p.insert(method as usize, rva)
    } else {
        p
    }
}

/// The addresses with those of the first `k` usages of a list.
pub open spec fn with_list(
    p: Map<usize, u64>,
    m: Metadata,
    il2cpp: Il2Cpp,
    list: Seq<(u32, u32)>,
    k: nat,
) -> Map<usize, u64>
    decreases k,
{
    if k == 0 {
        p
    } else {
        let q = with_list(p, m, il2cpp, list, (k - 1) as nat);
        let places = il2cpp.metadata_usages@;
        let (dest, src) = list[k - 1];
        if dest < places.len() && places[dest as int] != 0 {
            with_info(q, m, src as int, il2cpp.rva(places[dest as int]))
        } else {
            q
        }
    }
}

/// The addresses that the first `n` lists of usages give.
pub open spec fn with_lists(m: Metadata, il2cpp: Il2Cpp, n: nat) -> Map<usize, u64>
    decreases n,
{
    if n == 0 {
        Map::empty()
    } else {
        let p = with_lists(m, il2cpp, (n - 1) as nat);
        let list = m.metadata_usages@[n - 1];
        if list.0 == 3 {
            with_list(p, m, il2cpp, list.1@, list.1@.len())
        } else {
            p
        }
    }
}

/// The addresses with that which a word of the data gives.
pub open spec fn with_word(p: Map<usize, u64>, m: Metadata, il2cpp: Il2Cpp, at: u64) -> Map<usize, u64> {
    match usages::token(usages::word_or_zero(il2cpp, at)) {
        Some((kind, i)) => if kind == 3 {
            with_info(
                p,
                m,
                i as int,
                il2cpp.rva(base::address_of(il2cpp.va_segments@, at)),
            )
        } else {
            p
        },
        None => p,
    }
}

/// The addresses with those that the words from one offset up to another give.
pub open spec fn with_words(
    p: Map<usize, u64>,
    m: Metadata,
    il2cpp: Il2Cpp,
    at: int,
    end: int,
) -> Map<usize, u64>
    decreases end + 8 - at,
{
    if at >= end {
        p
    } else {
        with_words(
            with_word(p, m, il2cpp, at as u64),
            m,
            il2cpp,
            at + io::pointer_len(il2cpp.is_32bit),
            end,
        )
    }
}

/// The addresses that the first `n` data sections give.
pub open spec fn with_sections(m: Metadata, il2cpp: Il2Cpp, n: nat) -> Map<usize, u64>
    decreases n,
{
    if n == 0 {
        Map::empty()
    } else {
        let sec = il2cpp.data_sections@[n - 1];
        with_words(
            with_sections(m, il2cpp, (n - 1) as nat),
            m,
            il2cpp,
            sec.offset as int,
            usages::section_end(il2cpp, sec),
        )
    }
}

/// The addresses of what describes methods, by method.
pub open spec fn info_addresses(m: Metadata, il2cpp: Il2Cpp) -> Map<usize, u64> {
    if il2cpp.version >= V27 {
        with_sections(m, il2cpp, il2cpp.data_sections@.len())
    } else if il2cpp.version > V16 {
        with_lists(m, il2cpp, m.metadata_usages@.len())
    } else {
        Map::empty()
    }
}

fn add_info(map: &mut HashMap<usize, u64>, metadata: &Metadata, method: usize, rva: u64)
    ensures
        final(map)@ == with_info(old(map)@, *metadata, method as int, rva),
{
    if method < metadata.method_defs.len() {
        map.insert(method, rva);
    }
}

fn collect_method_info_pre_v27(metadata: &Metadata, il2cpp: &Il2Cpp) -> (r: HashMap<usize, u64>)
    ensures
        r@ == with_lists(*metadata, *il2cpp, metadata.metadata_usages@.len()),
{
    let mut map: HashMap<usize, u64> = HashMap::new();
    let mut a: usize = 0;
    assert(map@ =~= Map::<usize, u64>::empty());
    while a < metadata.metadata_usages.len()
        invariant
            a <= metadata.metadata_usages@.len(),
            map@ == with_lists(*metadata, *il2cpp, a as nat),
        decreases metadata.metadata_usages@.len() - a,
    {
        if metadata.metadata_usages[a].0 == 3 {
            let list = &metadata.metadata_usages[a].1;
            let ghost p = map@;
            let mut b: usize = 0;
            while b < list.len()
                invariant
                    b <= list@.len(),
                    map@ == with_list(p, *metadata, *il2cpp, list@, b as nat),
                decreases list@.len() - b,
            {
                let dest: usize = list[b].0 as usize;
                if dest < il2cpp.metadata_usages.len() {
                    let address: u64 = il2cpp.metadata_usages[dest];
                    if address != 0 {
                        add_info(
                            &mut map,
                            metadata,
                            list[b].1 as usize,
                            il2cpp.get_rva(address),
                        );
                    }
                }
                b = b + 1;
            }
        }
        a = a + 1;
    }
    map
}

fn collect_method_info_v27(metadata: &Metadata, il2cpp: &Il2Cpp) -> (r: HashMap<usize, u64>)
    requires
        il2cpp.wf(),
    ensures
        r@ == with_sections(*metadata, *il2cpp, il2cpp.data_sections@.len()),
{
    let mut map: HashMap<usize, u64> = HashMap::new();
    let size: u64 = if il2cpp.is_32bit {
        4
    } else {
        8
    };
    let mut n: usize = 0;
    assert(map@ =~= Map::<usize, u64>::empty());
    while n < il2cpp.data_sections.len()
        invariant
            il2cpp.wf(),
            size == io::pointer_len(il2cpp.is_32bit),
            n <= il2cpp.data_sections@.len(),
            map@ == with_sections(*metadata, *il2cpp, n as nat),
        decreases il2cpp.data_sections@.len() - n,
    {
        let sec = &il2cpp.data_sections[n];
        let end: u64 = usages::find_section_end(il2cpp, sec);
        let len: u64 = il2cpp.stream.len();
        let ghost limit = usages::section_end(*il2cpp, *sec);
        let ghost all = with_words(map@, *metadata, *il2cpp, sec.offset as int, limit);
        let mut pos: u64 = sec.offset;
        while pos < end
            invariant
                il2cpp.wf(),
                size == io::pointer_len(il2cpp.is_32bit),
                len == il2cpp.stream.bytes@.len(),
                limit <= len - size,
                end == if limit >= 0 {
                    limit
                } else {
                    0
                },
                with_words(map@, *metadata, *il2cpp, pos as int, limit) == all,
            decreases end + 8 - pos,
        {
            let word: u64 = usages::read_word(il2cpp, pos);
            if let Some((kind, index)) = usages::decode_token(word) {
                if kind == 3 {
                    let va: u64 = il2cpp.map_rtva(pos);
                    add_info(&mut map, metadata, index as usize, il2cpp.get_rva(va));
                }
            }
            pos = pos + size;
        }
        n = n + 1;
    }
    map
}

/// The addresses of what describes methods, by method.
pub fn collect_method_info_addresses(metadata: &Metadata, il2cpp: &Il2Cpp) -> (r: HashMap<
    usize,
    u64,
>)
    requires
        il2cpp.wf(),
    ensures
        r@ == info_addresses(*metadata, *il2cpp),
{
    if il2cpp.version >= V27 {
        collect_method_info_v27(metadata, il2cpp)
    } else if il2cpp.version > V16 {
        collect_method_info_pre_v27(metadata, il2cpp)
    } else {
        let map: HashMap<usize, u64> = HashMap::new();
        assert(map@ =~= Map::<usize, u64>::empty());
        map
    }
}

// The functions.

/// What functions are written from.
pub struct Functions {
    pub s: Scene,
    pub spelling: Spelling,
    /// The addresses of what describes methods, by method.
    pub infos: Map<usize, u64>,
}

/// The address of what describes a method of a type.
pub open spec fn info_of(c: Functions, td: int, i: int) -> Option<u64> {
    if c.infos.contains_key(i as usize) && c.s.m.method_defs@[i].declaring_type == td {
        Some(c.infos[i as usize])
    } else {
        None
    }
}

/// The function behind a method of a type under its names, in a context.
pub open spec fn func_entry(
    c: Functions,
    td: int,
    i: int,
    owner: Seq<char>,
    method: Seq<char>,
    ctx: Option<Il2CppGenericContext>,
    rva: u64,
    info: Option<u64>,
) -> FuncEntryModel {
    let def = c.s.m.type_defs@[td];
    let md = c.s.m.method_defs@[i];
    FuncEntryModel {
        rva,
        return_type: signature::value_type(
            c.s,
            CStyle::Scaffold,
            signature::result_type(c.s, md),
            ctx,
        ),
        func_name: (c.spelling)(owner, NameStyle::CppDollar) + "$$"@ + (c.spelling)(
            method,
            NameStyle::CppDollar,
        ),
        params: signature::parameters(
            c.s,
            CStyle::Scaffold,
            c.spelling,
            md,
            def,
            td as usize,
            ctx,
        ),
        method_info_rva: info,
    }
}

/// The functions with that behind a method: one that has code, or one that is described.
pub open spec fn with_own(p: Seq<FuncEntryModel>, c: Functions, td: int, i: int, image: Seq<char>) -> Seq<
    FuncEntryModel,
> {
    let md = c.s.m.method_defs@[i];
    let pointer = c.s.il2cpp.method_pointer(image, md);
    let info = info_of(c, td, i);
    if pointer > 0 || info is Some {
        p.push(
            func_entry(
                c,
                td,
                i,
                c.s.x.type_def_names@[td]@,
                structures::name_or(md.name, ""@),
                None,
                if pointer > 0 {
                    c.s.il2cpp.rva(pointer)
                } else {
                    0
                },
                info,
            ),
        )
    } else {
        p
    }
}

/// The functions with those behind the first `k` methods of instances of a method that have code.
pub open spec fn with_specs(p: Seq<FuncEntryModel>, c: Functions, td: int, i: int, k: nat) -> Seq<
    FuncEntryModel,
>
    decreases k,
{
    if k == 0 {
        p
    } else {
        let q = with_specs(p, c, td, i, (k - 1) as nat);
        let spec = method_info::specs_for(c.s.il2cpp, i as usize)[k - 1];
        let pointer = method_info::spec_pointer(c.s.il2cpp, spec);
        if pointer == 0 {
            q
        } else {
            q.push(
                func_entry(
                    c,
                    td,
                    i,
                    c.s.x.method_spec_names@[spec as int].0@,
                    c.s.x.method_spec_names@[spec as int].1@,
                    Some(c.s.x.method_spec_contexts@[spec as int]),
                    c.s.il2cpp.rva(pointer),
                    None,
                ),
            )
        }
    }
}

/// The functions with those behind the first `k` methods of a type definition.
pub open spec fn with_methods(p: Seq<FuncEntryModel>, c: Functions, td: int, image: Seq<char>, k: nat) -> Seq<
    FuncEntryModel,
>
    decreases k,
{
    if k == 0 {
        p
    } else {
        let i = c.s.m.type_defs@[td].method_start + k - 1;
        with_specs(
            with_own(with_methods(p, c, td, image, (k - 1) as nat), c, td, i, image),
            c,
            td,
            i,
            method_info::specs_for(c.s.il2cpp, i as usize).len(),
        )
    }
}

/// The functions behind the methods of the first `n` listed type definitions.
pub open spec fn functions_upto(c: Functions, n: nat) -> Seq<FuncEntryModel>
    decreases n,
{
    if n == 0 {
        Seq::empty()
    } else {
        let job = metadata::type_jobs(c.s.m)[n - 1];
        with_methods(
            functions_upto(c, (n - 1) as nat),
            c,
            job.0,
            job.1,
            c.s.m.type_defs@[job.0].method_count as nat,
        )
    }
}

/// The functions behind all methods.
pub open spec fn all_functions(c: Functions) -> Seq<FuncEntryModel> {
    functions_upto(c, metadata::type_jobs(c.s.m).len())
}

/// Of the first `n` functions those that are kept: of several at one address the first. And the
/// addresses that occur.
pub open spec fn kept(all: Seq<FuncEntryModel>, n: nat) -> (Seq<FuncEntryModel>, Set<u64>)
    decreases n,
{
    if n == 0 {
        (Seq::empty(), Set::empty())
    } else {
        let (p, seen) = kept(all, (n - 1) as nat);
        let entry = all[n - 1];
        if entry.rva > 0 && seen.contains(entry.rva) {
            (p, seen)
        } else if entry.rva > 0 {
            (p.push(entry), seen.insert(entry.rva))
        } else {
            (p.push(entry), seen)
        }
    }
}

/// The functions of an image.
pub open spec fn functions(c: Functions) -> Seq<FuncEntryModel> {
    kept(all_functions(c), all_functions(c).len()).0
}

proof fn lemma_kept(all: Seq<FuncEntryModel>, n: nat)
    requires
        n <= all.len(),
    ensures
        forall|i: int|
            0 <= i < kept(all, n).0.len() && (#[trigger] kept(all, n).0[i]).rva > 0 ==> kept(
                all,
                n,
            ).1.contains(kept(all, n).0[i].rva),
        forall|i: int, j: int|
            0 <= i < j < kept(all, n).0.len() && (#[trigger] kept(all, n).0[i]).rva > 0 ==> kept(
                all,
                n,
            ).0[i].rva != (#[trigger] kept(all, n).0[j]).rva,
        forall|i: int|
            0 <= i < n && (#[trigger] all[i]).rva > 0 ==> kept(all, n).1.contains(all[i].rva),
        forall|a: u64| #[trigger]
            kept(all, n).1.contains(a) ==> exists|i: int|
                0 <= i < kept(all, n).0.len() && (#[trigger] kept(all, n).0[i]).rva == a,
    decreases n,
{
    if n > 0 {
        lemma_kept(all, (n - 1) as nat);
        let (p, seen) = kept(all, (n - 1) as nat);
        let (q, more) = kept(all, n);
        assert forall|a: u64| #[trigger] more.contains(a) implies exists|i: int|
            0 <= i < q.len() && (#[trigger] q[i]).rva == a by {
            if seen.contains(a) {
                let i = choose|i: int| 0 <= i < p.len() && (#[trigger] p[i]).rva == a;
                assert(q[i].rva == a);
            } else {
                assert(q[q.len() - 1].rva == a);
            }
        }
    }
}

/// No two functions of an image are at the same address, and each address at which there is a
/// function has one that is kept.
pub proof fn law_functions_distinct(c: Functions)
    ensures
        forall|i: int, j: int|
            0 <= i < j < functions(c).len() && (#[trigger] functions(c)[i]).rva > 0 ==> functions(
                c,
            )[i].rva != (#[trigger] functions(c)[j]).rva,
        forall|i: int|
            0 <= i < all_functions(c).len() && (#[trigger] all_functions(c)[i]).rva > 0
                ==> exists|j: int|
                0 <= j < functions(c).len() && (#[trigger] functions(c)[j]).rva == all_functions(
                    c,
                )[i].rva,
{
    lemma_kept(all_functions(c), all_functions(c).len());
}

/// The function behind a method can be written in a context.
pub open spec fn entry_ready(c: Functions, td: int, i: int, ctx: Option<Il2CppGenericContext>) -> bool {
    signature::signature_ready(
        c.s,
        CStyle::Scaffold,
        c.s.m.method_defs@[i],
        c.s.m.type_defs@[td],
        ctx,
    )
}

/// The function behind a method of an instance can be written.
pub open spec fn spec_ready(c: Functions, td: int, i: int, spec: usize) -> bool {
    method_info::spec_pointer(c.s.il2cpp, spec) != 0 ==> {
        &&& spec < c.s.il2cpp.method_specs@.len()
        &&& entry_ready(c, td, i, Some(c.s.x.method_spec_contexts@[spec as int]))
    }
}

/// The functions behind a method and its methods of instances can be written.
pub open spec fn method_ready(c: Functions, td: int, i: int, image: Seq<char>) -> bool {
    &&& c.s.il2cpp.method_pointer(image, c.s.m.method_defs@[i]) > 0 || info_of(
        c,
        td,
        i,
    ) is Some ==> entry_ready(c, td, i, None)
    &&& forall|k: int|
        0 <= k < method_info::specs_for(c.s.il2cpp, i as usize).len() ==> spec_ready(
            c,
            td,
            i,
            #[trigger] method_info::specs_for(c.s.il2cpp, i as usize)[k],
        )
}

/// The functions behind all methods of a type definition can be written.
pub open spec fn type_ready(c: Functions, td: int, image: Seq<char>) -> bool {
    forall|i: int|
        c.s.m.type_defs@[td].method_start <= i < c.s.m.type_defs@[td].method_start
            + c.s.m.type_defs@[td].method_count ==> #[trigger] method_ready(c, td, i, image)
}

/// The functions behind all methods of the listed type definitions can be written.
pub open spec fn functions_ready(c: Functions) -> bool {
    &&& c.s.m.images_fit()
    &&& method_info::methods_fit(c.s.m)
    &&& c_types::scene_fits(c.s)
    &&& struct_info::labels_fit(c.s.x, c.s.il2cpp)
    &&& c.s.x.type_def_names@.len() == c.s.m.type_defs@.len()
    &&& c.s.x.method_spec_contexts@.len() == c.s.il2cpp.method_specs@.len()
    &&& forall|n: int|
        0 <= n < metadata::type_jobs(c.s.m).len() ==> type_ready(
            c,
            (#[trigger] metadata::type_jobs(c.s.m)[n]).0,
            metadata::type_jobs(c.s.m)[n].1,
        )
}

spec fn of_parts<F: Fn(&str, NameStyle) -> String>(
    c: Functions,
    executor: Il2CppExecutor,
    metadata: Metadata,
    il2cpp: Il2Cpp,
    names: Map<usize, String>,
    infos: Map<usize, u64>,
    sanitizer: Sanitizer<F>,
) -> bool {
    &&& c.s == c_types::scene(executor, metadata, il2cpp, names)
    &&& c.infos == infos
    &&& c.spelling == sanitizer.spelling()
    &&& functions_ready(c)
}

fn make_entry<F: Fn(&str, NameStyle) -> String>(
    executor: &Il2CppExecutor,
    metadata: &Metadata,
    il2cpp: &Il2Cpp,
    names: &HashMap<usize, String>,
    sanitizer: &Sanitizer<F>,
    td: usize,
    i: usize,
    owner: &str,
    method: &str,
    ctx: Option<Il2CppGenericContext>,
    rva: u64,
    info: Option<u64>,
    Ghost(c): Ghost<Functions>,
) -> (r: FuncEntry)
    requires
        of_parts(c, *executor, *metadata, *il2cpp, names@, c.infos, *sanitizer),
        td < metadata.type_defs@.len(),
        i < metadata.method_defs@.len(),
        entry_ready(c, td as int, i as int, ctx),
    ensures
        r@ == func_entry(c, td as int, i as int, owner@, method@, ctx, rva, info),
{
    let (return_type, params) = signature::build_func_signature(
        executor,
        metadata,
        il2cpp,
        &metadata.method_defs[i],
        &metadata.type_defs[td],
        td,
        names,
        ctx,
        sanitizer,
    );
    let func_name = sanitizer.fix_name_scaffold(owner).concat("$$").concat(
        sanitizer.fix_name_scaffold(method).as_str(),
    );
    FuncEntry { rva, return_type, func_name, params, method_info_rva: info }
}

fn add_own<F: Fn(&str, NameStyle) -> String>(
    out: &mut Vec<FuncEntry>,
    executor: &Il2CppExecutor,
    metadata: &Metadata,
    il2cpp: &Il2Cpp,
    names: &HashMap<usize, String>,
    infos: &HashMap<usize, u64>,
    sanitizer: &Sanitizer<F>,
    td: usize,
    i: usize,
    image: &str,
    Ghost(c): Ghost<Functions>,
)
    requires
        of_parts(c, *executor, *metadata, *il2cpp, names@, infos@, *sanitizer),
        td < metadata.type_defs@.len(),
        i < metadata.method_defs@.len(),
        method_ready(c, td as int, i as int, image@),
    ensures
        script_json::views(final(out)@) == with_own(
            script_json::views(old(out)@),
            c,
            td as int,
            i as int,
            image@,
        ),
{
    broadcast use script_json::lemma_views_push;

    let md = &metadata.method_defs[i];
    let pointer: u64 = il2cpp.get_method_pointer(image, md);
    let info: Option<u64> = match infos.get(&i) {
        Some(rva) => if md.declaring_type == td {
            Some(*rva)
        } else {
            None
        },
        None => None,
    };
    if pointer > 0 || info.is_some() {
        let rva: u64 = if pointer > 0 {
            il2cpp.get_rva(pointer)
        } else {
            0
        };
        let method = structures::name_text(&md.name, "");
        let entry = make_entry(
            executor,
            metadata,
            il2cpp,
            names,
            sanitizer,
            td,
            i,
            executor.type_def_names[td].as_str(),
            method.as_str(),
            None,
            rva,
            info,
            Ghost(c),
        );
        out.push(entry);
    }
}

fn add_specs<F: Fn(&str, NameStyle) -> String>(
    out: &mut Vec<FuncEntry>,
    executor: &Il2CppExecutor,
    metadata: &Metadata,
    il2cpp: &Il2Cpp,
    names: &HashMap<usize, String>,
    sanitizer: &Sanitizer<F>,
    td: usize,
    i: usize,
    Ghost(c): Ghost<Functions>,
    Ghost(image): Ghost<Seq<char>>,
)
    requires
        of_parts(c, *executor, *metadata, *il2cpp, names@, c.infos, *sanitizer),
        td < metadata.type_defs@.len(),
        i < metadata.method_defs@.len(),
        method_ready(c, td as int, i as int, image),
    ensures
        script_json::views(final(out)@) == with_specs(
            script_json::views(old(out)@),
            c,
            td as int,
            i as int,
            method_info::specs_for(*il2cpp, i).len(),
        ),
{
    let specs = match il2cpp.method_definition_method_specs.get(&i) {
        Some(specs) => specs,
        None => {
            return;
        },
    };
    let ghost p = script_json::views(out@);
    let mut k: usize = 0;
    while k < specs.len()
        invariant
            of_parts(c, *executor, *metadata, *il2cpp, names@, c.infos, *sanitizer),
            td < metadata.type_defs@.len(),
            i < metadata.method_defs@.len(),
            method_ready(c, td as int, i as int, image),
            specs@ == method_info::specs_for(*il2cpp, i),
            k <= specs@.len(),
            script_json::views(out@) == with_specs(p, c, td as int, i as int, k as nat),
        decreases specs@.len() - k,
    {
        broadcast use script_json::lemma_views_push;

        let spec: usize = specs[k];
        assert(spec_ready(
            c,
            td as int,
            i as int,
            method_info::specs_for(c.s.il2cpp, i)[k as int],
        ));
        let pointer: u64 = method_info::find_spec_pointer(il2cpp, spec);
        if pointer != 0 {
            let labels = &executor.method_spec_names[spec];
            let entry = make_entry(
                executor,
                metadata,
                il2cpp,
                names,
                sanitizer,
                td,
                i,
                labels.0.as_str(),
                labels.1.as_str(),
                Some(executor.method_spec_contexts[spec]),
                il2cpp.get_rva(pointer),
                None,
                Ghost(c),
            );
            out.push(entry);
        }
        k = k + 1;
    }
}

fn add_methods<F: Fn(&str, NameStyle) -> String>(
    out: &mut Vec<FuncEntry>,
    executor: &Il2CppExecutor,
    metadata: &Metadata,
    il2cpp: &Il2Cpp,
    names: &HashMap<usize, String>,
    infos: &HashMap<usize, u64>,
    sanitizer: &Sanitizer<F>,
    td: usize,
    image: &str,
    Ghost(c): Ghost<Functions>,
)
    requires
        of_parts(c, *executor, *metadata, *il2cpp, names@, infos@, *sanitizer),
        td < metadata.type_defs@.len(),
        method_info::methods_exist(*metadata, td as int),
        type_ready(c, td as int, image@),
    ensures
        script_json::views(final(out)@) == with_methods(
            script_json::views(old(out)@),
            c,
            td as int,
            image@,
            metadata.type_defs@[td as int].method_count as nat,
        ),
{
    let def = &metadata.type_defs[td];
    let methods: usize = metadata.method_defs.len();
    let ghost p = script_json::views(out@);
    let mut k: usize = 0;
    while k < def.method_count
        invariant
            of_parts(c, *executor, *metadata, *il2cpp, names@, infos@, *sanitizer),
            td < metadata.type_defs@.len(),
            *def == metadata.type_defs@[td as int],
            methods == metadata.method_defs@.len(),
            method_info::methods_exist(*metadata, td as int),
            type_ready(c, td as int, image@),
            k <= def.method_count,
            script_json::views(out@) == with_methods(p, c, td as int, image@, k as nat),
        decreases def.method_count - k,
    {
        let i: usize = def.method_start + k;
        assert(method_ready(c, td as int, i as int, image@));
        add_own(
            out,
            executor,
            metadata,
            il2cpp,
            names,
            infos,
            sanitizer,
            td,
            i,
            image,
            Ghost(c),
        );
        add_specs(
            out,
            executor,
            metadata,
            il2cpp,
            names,
            sanitizer,
            td,
            i,
            Ghost(c),
            Ghost(image@),
        );
        k = k + 1;
        assert(c.s.m.type_defs@[td as int].method_start + k - 1 == i);
    }
}

fn list_functions<F: Fn(&str, NameStyle) -> String>(
    executor: &Il2CppExecutor,
    metadata: &Metadata,
    il2cpp: &Il2Cpp,
    names: &HashMap<usize, String>,
    infos: &HashMap<usize, u64>,
    sanitizer: &Sanitizer<F>,
    Ghost(c): Ghost<Functions>,
) -> (r: Vec<FuncEntry>)
    requires
        of_parts(c, *executor, *metadata, *il2cpp, names@, infos@, *sanitizer),
    ensures
        script_json::views(r@) == all_functions(c),
{
    proof {
        metadata::lemma_images_end(*metadata);
    }
    let jobs = metadata.type_jobs();
    let ghost all = metadata::type_jobs(*metadata);
    let mut out: Vec<FuncEntry> = Vec::new();
    let mut n: usize = 0;
    proof {
        metadata::lemma_type_jobs_fit(*metadata);
        assert(jobs@.len() == metadata::job_models(jobs@).len());
        assert(script_json::views(out@) =~= Seq::<FuncEntryModel>::empty());
    }
    while n < jobs.len()
        invariant
            of_parts(c, *executor, *metadata, *il2cpp, names@, infos@, *sanitizer),
            all == metadata::type_jobs(*metadata),
            metadata::job_models(jobs@) == all,
            jobs@.len() == all.len(),
            forall|k: int|
                0 <= k < all.len() ==> 0 <= (#[trigger] all[k]).0 < metadata.type_defs@.len(),
            n <= jobs@.len(),
            script_json::views(out@) == functions_upto(c, n as nat),
        decreases jobs@.len() - n,
    {
        let td: usize = jobs[n].0;
        assert(metadata::job_models(jobs@)[n as int] == (td as int, jobs@[n as int].1@));
        assert(all[n as int] == (td as int, jobs@[n as int].1@));
        assert(method_info::methods_exist(*metadata, td as int));
        assert(type_ready(c, td as int, jobs@[n as int].1@));
        add_methods(
            &mut out,
            executor,
            metadata,
            il2cpp,
            names,
            infos,
            sanitizer,
            td,
            jobs[n].1.as_str(),
            Ghost(c),
        );
        n = n + 1;
    }
    out
}

fn clone_entry(e: &FuncEntry) -> (r: FuncEntry)
    ensures
        r@ == e@,
{
    FuncEntry {
        rva: e.rva,
        return_type: e.return_type.clone(),
        func_name: e.func_name.clone(),
        params: e.params.clone(),
        method_info_rva: e.method_info_rva,
    }
}

fn keep_first(all: &Vec<FuncEntry>) -> (r: Vec<FuncEntry>)
    ensures
        script_json::views(r@) == kept(script_json::views(all@), all@.len()).0,
{
    let ghost models = script_json::views(all@);
    let mut out: Vec<FuncEntry> = Vec::new();
    let mut seen: HashSet<u64> = HashSet::new();
    let mut i: usize = 0;
    assert(script_json::views(out@) =~= Seq::<FuncEntryModel>::empty());
    assert(seen@ =~= Set::<u64>::empty());
    while i < all.len()
        invariant
            models == script_json::views(all@),
            i <= all@.len(),
            (script_json::views(out@), seen@) == kept(models, i as nat),
        decreases all@.len() - i,
    {
        broadcast use script_json::lemma_views_push;

        let entry = &all[i];
        assert(models[i as int] == entry@);
        if entry.rva > 0 {
            if !seen.contains(&entry.rva) {
                seen.insert(entry.rva);
                out.push(clone_entry(entry));
            }
        } else {
            out.push(clone_entry(entry));
        }
        i = i + 1;
    }
    out
}

/// The functions of an image.
pub(crate) fn collect_functions<F: Fn(&str, NameStyle) -> String>(
    executor: &Il2CppExecutor,
    metadata: &Metadata,
    il2cpp: &Il2Cpp,
    names: &HashMap<usize, String>,
    sanitizer: &Sanitizer<F>,
    Ghost(c): Ghost<Functions>,
) -> (r: Vec<FuncEntry>)
    requires
        c.s == c_types::scene(*executor, *metadata, *il2cpp, names@),
        c.spelling == sanitizer.spelling(),
        c.infos == info_addresses(*metadata, *il2cpp),
        functions_ready(c),
    ensures
        script_json::views(r@) == functions(c),
{
    let infos = collect_method_info_addresses(metadata, il2cpp);
    let all = list_functions(executor, metadata, il2cpp, names, &infos, sanitizer, Ghost(c));
    assert(all@.len() == script_json::views(all@).len());
    keep_first(&all)
}

// Their declarations.

/// The declarations of a function and of what describes it.
pub open spec fn entry_text(e: FuncEntryModel) -> Seq<char> {
    (if e.rva > 0 {
        "DO_APP_FUNC(0x"@ + numeral::hex(e.rva as nat) + ", "@ + e.return_type + ", "@
            + e.func_name + ", ("@ + e.params + "));\n"@
    } else {
        Seq::empty()
    }) + match e.method_info_rva {
        Some(rva) => "DO_APP_FUNC_METHODINFO(0x"@ + numeral::hex(rva as nat) + ", "@ + e.func_name
            + "__MethodInfo);\n"@,
        None => Seq::empty(),
    }
}

/// The declarations of the first `n` functions.
pub open spec fn entry_texts(entries: Seq<FuncEntryModel>, n: nat) -> Seq<char>
    decreases n,
{
    if n == 0 {
        Seq::empty()
    } else {
        entry_texts(entries, (n - 1) as nat) + entry_text(entries[n - 1])
    }
}

/// Writes the declarations of functions.
pub fn write_entries(entries: &Vec<FuncEntry>) -> (r: String)
    ensures
        r@ == entry_texts(script_json::views(entries@), entries@.len()),
{
    let ghost models = script_json::views(entries@);
    let mut out = String::new();
    let mut i: usize = 0;
    assert(out@ =~= Seq::<char>::empty());
    while i < entries.len()
        invariant
            models == script_json::views(entries@),
            i <= entries@.len(),
            out@ == entry_texts(models, i as nat),
        decreases entries@.len() - i,
    {
        let e = &entries[i];
        assert(models[i as int] == e@);
        let ghost before = out@;
        if e.rva > 0 {
            let line = String::from_str("DO_APP_FUNC(0x").concat(
                numeral::hex_string(e.rva).as_str(),
            ).concat(", ").concat(e.return_type.as_str()).concat(", ").concat(
                e.func_name.as_str(),
            ).concat(", (").concat(e.params.as_str()).concat("));\n");
            out.append(line.as_str());
        }
        if let Some(rva) = e.method_info_rva {
            let line = String::from_str("DO_APP_FUNC_METHODINFO(0x").concat(
                numeral::hex_string(rva).as_str(),
            ).concat(", ").concat(e.func_name.as_str()).concat("__MethodInfo);\n");
            out.append(line.as_str());
        }
        assert(out@ =~= before + entry_text(e@));
        i = i + 1;
    }
    out
}

} // verus!
