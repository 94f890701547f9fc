//! The script of an image: its methods, its metadata usages and its code addresses.
use crate::config::Config;
use crate::executor::Il2CppExecutor;
use crate::il2cpp::base::Il2Cpp;
use crate::il2cpp::code;
use crate::il2cpp::enums::{V16, V22, V24_2, V27, V29};
use crate::il2cpp::metadata;
use crate::il2cpp::metadata::Metadata;
use crate::il2cpp::structures;
use crate::il2cpp::structures::Il2CppGenericContext;
use crate::laws;
use crate::laws::script::lists_methods;
use crate::laws::usages::lists_usages;
use crate::names::{NameStyle, Sanitizer, Spelling};
use crate::output::c_types;
use crate::output::c_types::{CStyle, Scene};
use crate::output::method_info;
use crate::output::name_mangler;
use crate::output::name_mangler::{MangledNameBuilder, Source};
use crate::output::script_json;
use crate::output::script_json::{
    ScriptJson, ScriptJsonModel, ScriptMethod, ScriptMethodModel, StringLiteralEntry,
    StringLiteralEntryModel,
};
use crate::output::signature;
use crate::output::static_field_exporter;
use crate::output::static_field_exporter::StaticFieldCatalog;
use crate::output::struct_names;
use crate::output::usages;
use crate::output::usages::Labels;
use crate::sorted;
use crate::text;
use std::collections::{BTreeSet, HashMap};
use vstd::prelude::*;
use vstd::string::*;

verus! {

// The methods of the script.

/// The scene in which the types of methods are written.
pub open spec fn scene_from(c: Labels) -> Scene {
    Scene { m: c.m, il2cpp: c.il2cpp, x: c.x, names: c.names, special: Map::empty() }
}

/// What names of methods are mangled from.
pub open spec fn source_from(c: Labels) -> Source {
    Source { m: c.m, il2cpp: c.il2cpp, x: c.x, spelling: c.spelling }
}

/// The entry of a method of a type under its names, in a context.
pub open spec fn method_entry(
    c: Labels,
    td: int,
    i: int,
    image: Seq<char>,
    owner: Seq<char>,
    method: Seq<char>,
    ctx: Option<Il2CppGenericContext>,
    pointer: u64,
) -> ScriptMethodModel {
    let def = c.m.type_defs@[td];
    let md = c.m.method_defs@[i];
    let full_name = owner + "$$"@ + method;
    ScriptMethodModel {
        address: c.il2cpp.rva(pointer),
        name: if c.config.mangle_names {
            name_mangler::mangled_method(source_from(c), def, td as nat, md, ctx, false)
        } else {
            full_name
        },
        signature: signature::declaration(
            scene_from(c),
            c.spelling,
            md,
            def,
            full_name,
            ctx,
        ),
        type_signature: signature::kind_letters(signature::kinds(scene_from(c), md, def)),
        dotnet_signature: if c.config.enhanced_ida_metadata {
            Some(owner + "::"@ + method + "()"@)
        } else {
            None
        },
        group: if c.config.enhanced_ida_metadata {
            Some(
                text::trimmed_end_of(image, ".dll"@) + "/"@ + text::with_char_replaced(
                    owner,
                    '.',
                    '/',
                ),
            )
        } else {
            None
        },
    }
}

/// The entries with that of a method that has code of its own.
pub open spec fn with_own(
    p: Seq<ScriptMethodModel>,
    c: Labels,
    td: int,
    i: int,
    image: Seq<char>,
) -> Seq<ScriptMethodModel> {
    let md = c.m.method_defs@[i];
    let pointer = c.il2cpp.method_pointer(image, md);
    if pointer > 0 {
        p.push(
            method_entry(
                c,
                td,
                i,
                image,
                c.x.type_def_names@[td]@,
                structures::name_or(md.name, ""@),
                None,
                pointer,
            ),
        )
    } else {
        p
    }
}

/// The entries with those of the first `k` methods of instances of a method that have code.
pub open spec fn with_specs(
    p: Seq<ScriptMethodModel>,
    c: Labels,
    td: int,
    i: int,
    image: Seq<char>,
    k: nat,
) -> Seq<ScriptMethodModel>
    decreases k,
{
    if k == 0 {
        p
    } else {
        let q = with_specs(p, c, td, i, image, (k - 1) as nat);
        let spec = method_info::specs_for(c.il2cpp, i as usize)[k - 1];
        let pointer = method_info::spec_pointer(c.il2cpp, spec);
        if pointer == 0 {
            q
        } else {
            q.push(
                method_entry(
                    c,
                    td,
                    i,
                    image,
                    c.x.method_spec_names@[spec as int].0@,
                    c.x.method_spec_names@[spec as int].1@,
                    Some(c.x.method_spec_contexts@[spec as int]),
                    pointer,
                ),
            )
        }
    }
}

/// The entries with those of the first `k` methods of a type definition.
pub open spec fn with_methods(
    p: Seq<ScriptMethodModel>,
    c: Labels,
    td: int,
    image: Seq<char>,
    k: nat,
) -> Seq<ScriptMethodModel>
    decreases k,
{
    if k == 0 {
        p
    } else {
        let i = c.m.type_defs@[td].method_start + k - 1;
        with_specs(
            with_own(with_methods(p, c, td, image, (k - 1) as nat), c, td, i, image),
            c,
            td,
            i,
            image,
            method_info::specs_for(c.il2cpp, i as usize).len(),
        )
    }
}

/// The entries of the methods of the first `n` listed type definitions.
pub open spec fn methods_upto(c: Labels, n: nat) -> Seq<ScriptMethodModel>
    decreases n,
{
    if n == 0 {
        Seq::empty()
    } else {
        let job = metadata::type_jobs(c.m)[n - 1];
        with_methods(
            methods_upto(c, (n - 1) as nat),
            c,
            job.0,
            job.1,
            c.m.type_defs@[job.0].method_count as nat,
        )
    }
}

/// The entries of all methods.
pub open spec fn script_methods(c: Labels) -> Seq<ScriptMethodModel> {
    methods_upto(c, metadata::type_jobs(c.m).len())
}

/// A method can be written in a context.
pub open spec fn entry_ready(c: Labels, td: int, i: int, ctx: Option<Il2CppGenericContext>) -> bool {
    &&& signature::signature_ready(
        scene_from(c),
        CStyle::Header,
        c.m.method_defs@[i],
        c.m.type_defs@[td],
        ctx,
    )
    &&& c.config.mangle_names ==> name_mangler::signature_fits(
        source_from(c),
        c.m.method_defs@[i],
        ctx,
    )
}

/// A method of an instance can be written.
pub open spec fn spec_ready(c: Labels, td: int, i: int, spec: usize) -> bool {
    method_info::spec_pointer(c.il2cpp, spec) != 0 ==> {
        &&& spec < c.il2cpp.method_specs@.len()
        &&& entry_ready(c, td, i, Some(c.x.method_spec_contexts@[spec as int]))
    }
}

/// A method and its methods of instances can be written.
pub open spec fn method_ready(c: Labels, td: int, i: int, image: Seq<char>) -> bool {
    &&& c.il2cpp.method_pointer(image, c.m.method_defs@[i]) > 0 ==> entry_ready(c, td, i, None)
    &&& forall|k: int|
        0 <= k < method_info::specs_for(c.il2cpp, i as usize).len() ==> spec_ready(
            c,
            td,
            i,
            #[trigger] method_info::specs_for(c.il2cpp, i as usize)[k],
        )
}

/// All methods of a type definition can be written.
pub open spec fn type_ready(c: Labels, td: int, image: Seq<char>) -> bool {
    forall|i: int|
        c.m.type_defs@[td].method_start <= i < c.m.type_defs@[td].method_start
            + c.m.type_defs@[td].method_count ==> #[trigger] method_ready(c, td, i, image)
}

/// All methods of the listed type definitions can be written.
pub open spec fn methods_ready(c: Labels) -> bool {
    &&& c.m.images_fit()
    &&& method_info::methods_fit(c.m)
    &&& usages::labels_ready(c)
    &&& c.x.method_spec_contexts@.len() == c.il2cpp.method_specs@.len()
    &&& c_types::scene_fits(scene_from(c))
    &&& c.config.mangle_names ==> name_mangler::source_fits(source_from(c))
    &&& forall|n: int|
        0 <= n < metadata::type_jobs(c.m).len() ==> type_ready(
            c,
            (#[trigger] metadata::type_jobs(c.m)[n]).0,
            metadata::type_jobs(c.m)[n].1,
        )
}

spec fn of_parts<F: Fn(&str, NameStyle) -> String>(
    c: Labels,
    executor: Il2CppExecutor,
    metadata: Metadata,
    il2cpp: Il2Cpp,
    names: Map<usize, String>,
    config: Config,
    sanitizer: Sanitizer<F>,
) -> bool {
    &&& c.m == metadata
    &&& c.il2cpp == il2cpp
    &&& c.x == executor
    &&& c.names == c_types::name_texts(names)
    &&& c.config == config
    &&& c.spelling == sanitizer.spelling()
    &&& methods_ready(c)
}

fn make_entry<F: Fn(&str, NameStyle) -> String>(
    executor: &Il2CppExecutor,
    metadata: &Metadata,
    il2cpp: &Il2Cpp,
    names: &HashMap<usize, String>,
    config: &Config,
    sanitizer: &Sanitizer<F>,
    td: usize,
    i: usize,
    image: &str,
    owner: &str,
    method: &str,
    ctx: Option<Il2CppGenericContext>,
    pointer: u64,
    Ghost(c): Ghost<Labels>,
) -> (r: ScriptMethod)
    requires
        of_parts(c, *executor, *metadata, *il2cpp, names@, *config, *sanitizer),
        td < metadata.type_defs@.len(),
        i < metadata.method_defs@.len(),
        entry_ready(c, td as int, i as int, ctx),
    ensures
        r@ == method_entry(c, td as int, i as int, image@, owner@, method@, ctx, pointer),
{
    let def = &metadata.type_defs[td];
    let md = &metadata.method_defs[i];
    let full_name = String::from_str(owner).concat("$$").concat(method);
    let name = if config.mangle_names {
        match ctx {
            Some(context) => MangledNameBuilder::mangle_method_spec(
                executor,
                metadata,
                il2cpp,
                def,
                td,
                md,
                &context,
                sanitizer,
            ),
            None => MangledNameBuilder::mangle_method(
                executor,
                metadata,
                il2cpp,
                def,
                td,
                md,
                sanitizer,
            ),
        }
    } else {
        full_name.clone()
    };
    let (signature, type_signature) = signature::build_method_signature(
        executor,
        metadata,
        il2cpp,
        md,
        def,
        full_name.as_str(),
        names,
        ctx,
        sanitizer,
    );
    let (dotnet_signature, group) = if config.enhanced_ida_metadata {
        proof {
            reveal_strlit(".dll");
        }
        (
            Some(String::from_str(owner).concat("::").concat(method).concat("()")),
            Some(
                text::trim_end_of(image, ".dll").concat("/").concat(
                    text::replace_char(owner, '.', '/').as_str(),
                ),
            ),
        )
    } else {
        (None, None)
    };
    ScriptMethod {
        address: il2cpp.get_rva(pointer),
        name,
        signature,
        type_signature,
        dotnet_signature,
        group,
    }
}

fn add_own<F: Fn(&str, NameStyle) -> String>(
    out: &mut Vec<ScriptMethod>,
    executor: &Il2CppExecutor,
    metadata: &Metadata,
    il2cpp: &Il2Cpp,
    names: &HashMap<usize, String>,
    config: &Config,
    sanitizer: &Sanitizer<F>,
    td: usize,
    i: usize,
    image: &str,
    Ghost(c): Ghost<Labels>,
)
    requires
        of_parts(c, *executor, *metadata, *il2cpp, names@, *config, *sanitizer),
        td < metadata.type_defs@.len(),
        i < metadata.method_defs@.len(),
        method_ready(c, td as int, i as int, image@),
    ensures
        script_json::views(final(out)@) == with_own(
            script_json::views(old(out)@),
            c,
            td as int,
            i as int,
            image@,
        ),
{
    broadcast use script_json::lemma_views_push;

    let md = &metadata.method_defs[i];
    let pointer: u64 = il2cpp.get_method_pointer(image, md);
    if pointer > 0 {
        let method = structures::name_text(&md.name, "");
        let entry = make_entry(
            executor,
            metadata,
            il2cpp,
            names,
            config,
            sanitizer,
            td,
            i,
            image,
            executor.type_def_names[td].as_str(),
            method.as_str(),
            None,
            pointer,
            Ghost(c),
        );
        out.push(entry);
    }
}

fn add_specs<F: Fn(&str, NameStyle) -> String>(
    out: &mut Vec<ScriptMethod>,
    executor: &Il2CppExecutor,
    metadata: &Metadata,
    il2cpp: &Il2Cpp,
    names: &HashMap<usize, String>,
    config: &Config,
    sanitizer: &Sanitizer<F>,
    td: usize,
    i: usize,
    image: &str,
    Ghost(c): Ghost<Labels>,
)
    requires
        of_parts(c, *executor, *metadata, *il2cpp, names@, *config, *sanitizer),
        td < metadata.type_defs@.len(),
        i < metadata.method_defs@.len(),
        method_ready(c, td as int, i as int, image@),
    ensures
        script_json::views(final(out)@) == with_specs(
            script_json::views(old(out)@),
            c,
            td as int,
            i as int,
            image@,
            method_info::specs_for(*il2cpp, i).len(),
        ),
{
    let specs = match il2cpp.method_definition_method_specs.get(&i) {
        Some(specs) => specs,
        None => {
            return;
        },
    };
    let ghost p = script_json::views(out@);
    let mut k: usize = 0;
    while k < specs.len()
        invariant
            of_parts(c, *executor, *metadata, *il2cpp, names@, *config, *sanitizer),
            td < metadata.type_defs@.len(),
            i < metadata.method_defs@.len(),
            method_ready(c, td as int, i as int, image@),
            specs@ == method_info::specs_for(*il2cpp, i),
            k <= specs@.len(),
            script_json::views(out@) == with_specs(
                p,
                c,
                td as int,
                i as int,
                image@,
                k as nat,
            ),
        decreases specs@.len() - k,
    {
        broadcast use script_json::lemma_views_push;

        let spec: usize = specs[k];
        assert(spec_ready(
            c,
            td as int,
            i as int,
            method_info::specs_for(c.il2cpp, i)[k as int],
        ));
        let pointer: u64 = method_info::find_spec_pointer(il2cpp, spec);
        if pointer != 0 {
            let labels = &executor.method_spec_names[spec];
            let entry = make_entry(
                executor,
                metadata,
                il2cpp,
                names,
                config,
                sanitizer,
                td,
                i,
                image,
                labels.0.as_str(),
                labels.1.as_str(),
                Some(executor.method_spec_contexts[spec]),
                pointer,
                Ghost(c),
            );
            out.push(entry);
        }
        k = k + 1;
    }
}

fn add_methods<F: Fn(&str, NameStyle) -> String>(
    out: &mut Vec<ScriptMethod>,
    executor: &Il2CppExecutor,
    metadata: &Metadata,
    il2cpp: &Il2Cpp,
    names: &HashMap<usize, String>,
    config: &Config,
    sanitizer: &Sanitizer<F>,
    td: usize,
    image: &str,
    Ghost(c): Ghost<Labels>,
)
    requires
        of_parts(c, *executor, *metadata, *il2cpp, names@, *config, *sanitizer),
        td < metadata.type_defs@.len(),
        method_info::methods_exist(*metadata, td as int),
        type_ready(c, td as int, image@),
    ensures
        script_json::views(final(out)@) == with_methods(
            script_json::views(old(out)@),
            c,
            td as int,
            image@,
            metadata.type_defs@[td as int].method_count as nat,
        ),
{
    let def = &metadata.type_defs[td];
    let methods: usize = metadata.method_defs.len();
    let ghost p = script_json::views(out@);
    let mut k: usize = 0;
    while k < def.method_count
        invariant
            of_parts(c, *executor, *metadata, *il2cpp, names@, *config, *sanitizer),
            td < metadata.type_defs@.len(),
            *def == metadata.type_defs@[td as int],
            methods == metadata.method_defs@.len(),
            method_info::methods_exist(*metadata, td as int),
            type_ready(c, td as int, image@),
            k <= def.method_count,
            script_json::views(out@) == with_methods(p, c, td as int, image@, k as nat),
        decreases def.method_count - k,
    {
        let i: usize = def.method_start + k;
        assert(method_ready(c, td as int, i as int, image@));
        add_own(
            out,
            executor,
            metadata,
            il2cpp,
            names,
            config,
            sanitizer,
            td,
            i,
            image,
            Ghost(c),
        );
        add_specs(
            out,
            executor,
            metadata,
            il2cpp,
            names,
            config,
            sanitizer,
            td,
            i,
            image,
            Ghost(c),
        );
        k = k + 1;
        assert(c.m.type_defs@[td as int].method_start + k - 1 == i);
    }
}

fn list_methods<F: Fn(&str, NameStyle) -> String>(
    executor: &Il2CppExecutor,
    metadata: &Metadata,
    il2cpp: &Il2Cpp,
    names: &HashMap<usize, String>,
    config: &Config,
    sanitizer: &Sanitizer<F>,
    Ghost(c): Ghost<Labels>,
) -> (r: Vec<ScriptMethod>)
    requires
        of_parts(c, *executor, *metadata, *il2cpp, names@, *config, *sanitizer),
    ensures
        script_json::views(r@) == script_methods(c),
{
    proof {
        metadata::lemma_images_end(*metadata);
    }
    let jobs = metadata.type_jobs();
    let ghost all = metadata::type_jobs(*metadata);
    let mut out: Vec<ScriptMethod> = Vec::new();
    let mut n: usize = 0;
    proof {
        metadata::lemma_type_jobs_fit(*metadata);
        assert(jobs@.len() == metadata::job_models(jobs@).len());
        assert(script_json::views(out@) =~= Seq::<ScriptMethodModel>::empty());
    }
    while n < jobs.len()
        invariant
            of_parts(c, *executor, *metadata, *il2cpp, names@, *config, *sanitizer),
            all == metadata::type_jobs(*metadata),
            metadata::job_models(jobs@) == all,
            jobs@.len() == all.len(),
            forall|k: int|
                0 <= k < all.len() ==> 0 <= (#[trigger] all[k]).0 < metadata.type_defs@.len(),
            n <= jobs@.len(),
            script_json::views(out@) == methods_upto(c, n as nat),
        decreases jobs@.len() - n,
    {
        let td: usize = jobs[n].0;
        assert(metadata::job_models(jobs@)[n as int] == (td as int, jobs@[n as int].1@));
        assert(all[n as int] == (td as int, jobs@[n as int].1@));
        assert(method_info::methods_exist(*metadata, td as int));
        assert(type_ready(c, td as int, jobs@[n as int].1@));
        add_methods(
            &mut out,
            executor,
            metadata,
            il2cpp,
            names,
            config,
            sanitizer,
            td,
            jobs[n].1.as_str(),
            Ghost(c),
        );
        n = n + 1;
    }
    out
}

// The addresses of the script.

/// The address is that of code that a table of the image points to.
pub open spec fn table_address(il2cpp: Il2Cpp, x: Il2CppExecutor, a: u64) -> bool {
    ||| if il2cpp.version >= V24_2 {
        exists|name: Seq<char>| #[trigger]
            il2cpp.code_gen_module_method_pointers@.contains_key(name) && code::points_to(
                il2cpp,
                il2cpp.code_gen_module_method_pointers@[name]@,
                a,
            )
    } else {
        code::points_to(il2cpp, il2cpp.method_pointers@, a)
    }
    ||| code::points_to(il2cpp, il2cpp.generic_method_pointers@, a)
    ||| code::points_to(il2cpp, il2cpp.invoker_pointers@, a)
    ||| il2cpp.version < V29 && code::points_to(il2cpp, x.custom_attribute_generators@, a)
    ||| il2cpp.version >= V22 && code::points_to(il2cpp, il2cpp.reverse_pinvoke_wrappers@, a)
    ||| il2cpp.version >= V22 && code::points_to(
        il2cpp,
        il2cpp.unresolved_virtual_call_pointers@,
        a,
    )
}

/// One of the entries has the address.
pub open spec fn entry_address(entries: Seq<ScriptMethodModel>, a: u64) -> bool {
    exists|k: int| 0 <= k < entries.len() && (#[trigger] entries[k]).address == a
}

fn add_module_rvas(il2cpp: &Il2Cpp, set: &mut BTreeSet<u64>)
    ensures
        forall|a: u64| #[trigger]
            final(set)@.contains(a) <==> old(set)@.contains(a) || exists|name: Seq<char>| #[trigger]
                il2cpp.code_gen_module_method_pointers@.contains_key(name) && code::points_to(
                    *il2cpp,
                    il2cpp.code_gen_module_method_pointers@[name]@,
                    a,
                ),
{
    let modules = &il2cpp.code_gen_module_method_pointers;
    let n: usize = modules.len();
    let ghost names = modules.keys();
    let ghost was = set@;
    let mut i: usize = 0;
    while i < n
        invariant
            modules == &il2cpp.code_gen_module_method_pointers,
            names == modules.keys(),
            n == names.len(),
            i <= n,
            forall|a: u64| #[trigger]
                set@.contains(a) <==> was.contains(a) || exists|k: int|
                    0 <= k < i && code::points_to(*il2cpp, modules@[#[trigger] names[k]]@, a),
        decreases n - i,
    {
        let ghost before = set@;
        il2cpp.add_rvas(modules.value_at(i), set);
        proof {
            assert forall|a: u64| #[trigger] set@.contains(a) <==> was.contains(a) || exists|k: int|
                0 <= k < i + 1 && code::points_to(
                    *il2cpp,
                    modules@[#[trigger] names[k]]@,
                    a,
                ) by {
                assert(before.contains(a) <==> was.contains(a) || exists|k: int|
                    0 <= k < i && code::points_to(*il2cpp, modules@[#[trigger] names[k]]@, a));
                if code::points_to(*il2cpp, modules@[names[i as int]]@, a) {
                    assert(set@.contains(a));
                }
            }
        }
        i = i + 1;
    }
    proof {
        assert forall|a: u64| #[trigger] set@.contains(a) <==> was.contains(a) || exists|
            name: Seq<char>,
        | #[trigger]
            modules@.contains_key(name) && code::points_to(*il2cpp, modules@[name]@, a) by {
            if exists|name: Seq<char>| #[trigger]
                modules@.contains_key(name) && code::points_to(*il2cpp, modules@[name]@, a) {
                let name = choose|name: Seq<char>| #[trigger]
                    modules@.contains_key(name) && code::points_to(*il2cpp, modules@[name]@, a);
                assert(names.contains(name));
                let k = choose|k: int| 0 <= k < names.len() && names[k] == name;
                assert(code::points_to(*il2cpp, modules@[names[k]]@, a));
            }
            if exists|k: int|
                0 <= k < n && code::points_to(*il2cpp, modules@[#[trigger] names[k]]@, a) {
                let k = choose|k: int|
                    0 <= k < n && code::points_to(*il2cpp, modules@[#[trigger] names[k]]@, a);
                assert(names.contains(names[k]));
                assert(modules@.contains_key(names[k]));
            }
        }
    }
}

/// Puts the addresses of the code that the tables of the image point to into the set.
pub fn collect_all_addresses(
    addresses_set: &mut BTreeSet<u64>,
    executor: &Il2CppExecutor,
    il2cpp: &Il2Cpp,
)
    ensures
        forall|a: u64| #[trigger]
            final(addresses_set)@.contains(a) <==> old(addresses_set)@.contains(a)
                || table_address(*il2cpp, *executor, a),
{
    if il2cpp.version >= V24_2 {
        add_module_rvas(il2cpp, addresses_set);
    } else {
        il2cpp.add_rvas(&il2cpp.method_pointers, addresses_set);
    }
    il2cpp.add_rvas(&il2cpp.generic_method_pointers, addresses_set);
    il2cpp.add_rvas(&il2cpp.invoker_pointers, addresses_set);
    if il2cpp.version < V29 {
        il2cpp.add_rvas(&executor.custom_attribute_generators, addresses_set);
    }
    if il2cpp.version >= V22 {
        il2cpp.add_rvas(&il2cpp.reverse_pinvoke_wrappers, addresses_set);
        il2cpp.add_rvas(&il2cpp.unresolved_virtual_call_pointers, addresses_set);
    }
}

fn add_entry_addresses(entries: &Vec<ScriptMethod>, set: &mut BTreeSet<u64>)
    ensures
        forall|a: u64| #[trigger]
            final(set)@.contains(a) <==> old(set)@.contains(a) || entry_address(
                script_json::views(entries@),
                a,
            ),
{
    let ghost all = script_json::views(entries@);
    let ghost was = set@;
    let mut i: usize = 0;
    while i < entries.len()
        invariant
            all == script_json::views(entries@),
            i <= entries@.len(),
            forall|a: u64| #[trigger]
                set@.contains(a) <==> was.contains(a) || exists|k: int|
                    0 <= k < i && (#[trigger] all[k]).address == a,
        decreases entries@.len() - i,
    {
        broadcast use vstd::std_specs::btree::group_btree_axioms;

        let ghost before = set@;
        set.insert(entries[i].address);
        proof {
            assert(all[i as int].address == entries@[i as int].address);
            assert forall|a: u64| #[trigger] set@.contains(a) <==> was.contains(a) || exists|k: int|
                0 <= k < i + 1 && (#[trigger] all[k]).address == a by {
                assert(before.contains(a) <==> was.contains(a) || exists|k: int|
                    0 <= k < i && (#[trigger] all[k]).address == a);
                if a == all[i as int].address {
                    assert(set@.contains(a));
                }
            }
        }
        i = i + 1;
    }
}

fn positive(v: &Vec<u64>) -> (r: Vec<u64>)
    requires
        sorted::increasing(v@),
    ensures
        sorted::increasing(r@),
        forall|a: u64| #[trigger] r@.contains(a) <==> a > 0 && v@.contains(a),
{
    let mut out: Vec<u64> = Vec::new();
    if v.len() == 0 || v[0] > 0 {
        let mut i: usize = 0;
        assert(v@.take(0) =~= out@);
        while i < v.len()
            invariant
                i <= v@.len(),
                out@ == v@.take(i as int),
            decreases v@.len() - i,
        {
            out.push(v[i]);
            i = i + 1;
            assert(v@.take(i as int) =~= out@);
        }
        assert(out@ =~= v@);
    } else {
        let mut i: usize = 1;
        assert(v@.subrange(1, 1) =~= out@);
        while i < v.len()
            invariant
                1 <= i <= v@.len(),
                out@ == v@.subrange(1, i as int),
            decreases v@.len() - i,
        {
            out.push(v[i]);
            i = i + 1;
            assert(v@.subrange(1, i as int) =~= out@);
        }
        proof {
            assert(forall|k: int| 0 <= k < out@.len() ==> out@[k] == v@[k + 1]);
            assert forall|a: u64| #[trigger] out@.contains(a) <==> a > 0 && v@.contains(a) by {
                if out@.contains(a) {
                    let k = choose|k: int| 0 <= k < out@.len() && out@[k] == a;
                    assert(v@[k + 1] == a);
                    assert(v@[0] < v@[k + 1]);
                }
                if a > 0 && v@.contains(a) {
                    let k = choose|k: int| 0 <= k < v@.len() && v@[k] == a;
                    assert(out@[k - 1] == a);
                }
            }
        }
    }
    out
}

// The script.

/// The script with its methods and usages, before the static fields and the addresses.
pub open spec fn usage_script(c: Labels) -> ScriptJsonModel {
    let start = ScriptJsonModel {
        script_methods: script_methods(c),
        ..script_json::empty_script()
    };
    if c.il2cpp.version >= V27 {
        usages::with_sections(start, c, c.il2cpp.data_sections@.len())
    } else if c.il2cpp.version > V16 {
        usages::with_lists(start, c, c.m.metadata_usages@.len())
    } else {
        start
    }
}

/// The script with the static fields, before the addresses.
pub open spec fn full_script(c: Labels, catalog: Option<&StaticFieldCatalog>) -> ScriptJsonModel {
    match catalog {
        Some(catalog) => static_field_exporter::enriched(
            usage_script(c),
            script_json::views(catalog.entries@),
        ),
        None => usage_script(c),
    }
}

/// The labels that an image is named with.
pub open spec fn image_labels(
    executor: Il2CppExecutor,
    metadata: Metadata,
    il2cpp: Il2Cpp,
    config: Config,
    spelling: Spelling,
) -> Labels {
    Labels {
        m: metadata,
        il2cpp,
        x: executor,
        names: struct_names::struct_names(executor, metadata, spelling),
        images: struct_names::image_names(metadata),
        spelling,
        config,
    }
}

/// The script can be written.
pub open spec fn script_ready(c: Labels) -> bool {
    &&& methods_ready(c)
    &&& V16 < c.il2cpp.version < V27 ==> usages::lists_fit(c)
}

/// The addresses are those of the code of methods and of what tables point to: all of them, in
/// increasing order, but for 0.
pub open spec fn are_addresses(c: Labels, addresses: Seq<u64>) -> bool {
    &&& sorted::increasing(addresses)
    &&& forall|a: u64| #[trigger]
        addresses.contains(a) <==> a > 0 && (entry_address(script_methods(c), a)
            || table_address(c.il2cpp, c.x, a))
}

/// Writes the script of an image.
pub fn build_script<F: Fn(&str, NameStyle) -> String>(
    executor: &Il2CppExecutor,
    metadata: &Metadata,
    il2cpp: &Il2Cpp,
    config: &Config,
    static_catalog: Option<&StaticFieldCatalog>,
    sanitizer: &Sanitizer<F>,
) -> (r: ScriptJson)
    requires
        script_ready(
            image_labels(*executor, *metadata, *il2cpp, *config, sanitizer.spelling()),
        ),
    ensures
        r@ == (ScriptJsonModel {
            addresses: r@.addresses,
            ..full_script(
                image_labels(*executor, *metadata, *il2cpp, *config, sanitizer.spelling()),
                static_catalog,
            )
        }),
        are_addresses(
            image_labels(*executor, *metadata, *il2cpp, *config, sanitizer.spelling()),
            r@.addresses,
        ),
        lists_usages(
            image_labels(*executor, *metadata, *il2cpp, *config, sanitizer.spelling()),
            laws::usages::report_entries(static_catalog),
            r@,
        ),
        lists_methods(
            image_labels(*executor, *metadata, *il2cpp, *config, sanitizer.spelling()),
            r@.script_methods,
        ),
{
    let ghost c = image_labels(*executor, *metadata, *il2cpp, *config, sanitizer.spelling());
    let names = struct_names::build_struct_name_dic(executor, metadata, sanitizer);
    proof {
        metadata::lemma_images_end(*metadata);
    }
    let images = struct_names::build_type_def_image_names(metadata);
    assert(c == usages::labels(
        *executor,
        *metadata,
        *il2cpp,
        names@,
        images@,
        *config,
        sanitizer.spelling(),
    ));
    let mut script = ScriptJson::new();
    script.script_methods = list_methods(
        executor,
        metadata,
        il2cpp,
        &names,
        config,
        sanitizer,
        Ghost(c),
    );
    let mut set: BTreeSet<u64> = BTreeSet::new();
    assert(set@ =~= Set::<u64>::empty());
    add_entry_addresses(&script.script_methods, &mut set);
    collect_all_addresses(&mut set, executor, il2cpp);
    assert(script@ == (ScriptJsonModel {
        script_methods: script_methods(c),
        ..script_json::empty_script()
    }));
    if il2cpp.version >= V27 {
        usages::scan_v27_metadata_usages(
            &mut script,
            executor,
            metadata,
            il2cpp,
            &names,
            &images,
            config,
            sanitizer,
        );
    } else if il2cpp.version > V16 {
        usages::add_metadata_usages(
            &mut script,
            executor,
            metadata,
            il2cpp,
            &names,
            &images,
            config,
            sanitizer,
        );
    }
    assert(script@ == usage_script(c));
    if let Some(catalog) = static_catalog {
        catalog.enrich_script_json(&mut script, il2cpp);
    }
    assert(script@ == full_script(c, static_catalog));
    let all = sorted::in_order(&set);
    let addresses = positive(&all);
    proof {
        assert forall|a: u64| #[trigger] addresses@.contains(a) <==> a > 0 && (entry_address(
            script_methods(c),
            a,
        ) || table_address(c.il2cpp, c.x, a)) by {
            assert(all@.to_set().contains(a) <==> all@.contains(a));
            assert(set@.contains(a) <==> all@.contains(a));
        }
    }
    script.addresses = addresses;
    proof {
        laws::usages::law_script_usages(c, static_catalog);
        laws::script::law_script_methods(c);
    }
    script
}

/// The addresses of a script are positive, and none occurs twice.
pub proof fn law_addresses(c: Labels, addresses: Seq<u64>)
    requires
        are_addresses(c, addresses),
    ensures
        forall|i: int| 0 <= i < addresses.len() ==> #[trigger] addresses[i] > 0,
        addresses.no_duplicates(),
{
    assert forall|i: int| 0 <= i < addresses.len() implies #[trigger] addresses[i] > 0 by {
        assert(addresses.contains(addresses[i]));
    }
}

/// The addresses of a script hold those of all its methods.
pub proof fn law_method_addresses(c: Labels, addresses: Seq<u64>, i: int)
    requires
        are_addresses(c, addresses),
        0 <= i < script_methods(c).len(),
        script_methods(c)[i].address > 0,
    ensures
        addresses.contains(script_methods(c)[i].address),
{
}

/// Two lists of addresses of the same image are the same.
pub proof fn law_addresses_unique(c: Labels, a: Seq<u64>, b: Seq<u64>)
    requires
        are_addresses(c, a),
        are_addresses(c, b),
    ensures
        a == b,
{
    lemma_increasing_unique(a, b);
}

proof fn lemma_increasing_unique(a: Seq<u64>, b: Seq<u64>)
    requires
        sorted::increasing(a),
        sorted::increasing(b),
        forall|v: u64| a.contains(v) <==> b.contains(v),
    ensures
        a == b,
    decreases a.len(),
{
    if a.len() == 0 {
        if b.len() > 0 {
            assert(b.contains(b[0]));
        }
        assert(a =~= b);
    } else {
        assert(a.contains(a.last()));
        let j = choose|j: int| 0 <= j < b.len() && b[j] == a.last();
        assert(b.contains(b.last()));
        let i = choose|i: int| 0 <= i < a.len() && a[i] == b.last();
        assert(a.last() == b.last());
        let x = a.drop_last();
        let y = b.drop_last();
        assert forall|v: u64| x.contains(v) <==> y.contains(v) by {
            if x.contains(v) {
                let k = choose|k: int| 0 <= k < x.len() && x[k] == v;
                assert(a[k] == v);
                assert(a.contains(v));
                let l = choose|l: int| 0 <= l < b.len() && b[l] == v;
                assert(l != b.len() - 1);
                assert(y[l] == v);
            }
            if y.contains(v) {
                let k = choose|k: int| 0 <= k < y.len() && y[k] == v;
                assert(b[k] == v);
                assert(b.contains(v));
                let l = choose|l: int| 0 <= l < a.len() && a[l] == v;
                assert(l != a.len() - 1);
                assert(x[l] == v);
            }
        }
        lemma_increasing_unique(x, y);
        assert(a =~= x.push(a.last()));
        assert(b =~= y.push(b.last()));
    }
}

// The string literals.

/// The entries of the first `n` string literals that could be read.
pub open spec fn literals_upto(m: Metadata, n: nat) -> Seq<StringLiteralEntryModel>
    decreases n,
{
    if n == 0 {
        Seq::empty()
    } else {
        let p = literals_upto(m, (n - 1) as nat);
        match m.string_literals@[n - 1] {
            Ok(value) => p.push(
                StringLiteralEntryModel { index: (n - 1) as usize, value: value@ },
            ),
            Err(_) => p,
        }
    }
}

/// Lists the string literals that could be read.
pub fn list_string_literals(metadata: &Metadata) -> (r: Vec<StringLiteralEntry>)
    ensures
        script_json::views(r@) == literals_upto(*metadata, metadata.string_literals@.len()),
{
    let mut out: Vec<StringLiteralEntry> = Vec::new();
    let mut i: usize = 0;
    assert(script_json::views(out@) =~= Seq::<StringLiteralEntryModel>::empty());
    while i < metadata.string_literals.len()
        invariant
            i <= metadata.string_literals@.len(),
            script_json::views(out@) == literals_upto(*metadata, i as nat),
        decreases metadata.string_literals@.len() - i,
    {
        broadcast use script_json::lemma_views_push;

        if let Ok(value) = &metadata.string_literals[i] {
            out.push(StringLiteralEntry { index: i, value: value.clone() });
        }
        i = i + 1;
    }
    out
}

} // verus!
