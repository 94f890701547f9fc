//! The structures that describe methods of generic instances.
use crate::executor::Il2CppExecutor;
use crate::il2cpp::base::Il2Cpp;
use crate::il2cpp::enums::{V24, V27, V29};
use crate::il2cpp::metadata;
use crate::il2cpp::metadata::Metadata;
use crate::names::{NameStyle, Sanitizer, Spelling};
use crate::numeral;
use crate::output::c_types;
use crate::output::script_json;
use crate::output::struct_info;
use crate::output::struct_info::{StructRGCTXInfo, StructRGCTXInfoModel};
use crate::output::struct_text;
use std::collections::{HashMap, HashSet};
use vstd::prelude::*;
use vstd::string::*;

verus! {

/// The structure that describes a method, with its generic context if it has one.
pub open spec fn method_info(
    name: Seq<char>,
    class: Seq<char>,
    context: Seq<StructRGCTXInfoModel>,
    version: u32,
) -> Seq<char> {
    struct_text::context_struct(name, context) + "struct "@ + name
        + " {\n\tIl2CppMethodPointer methodPointer;\n"@ + (if version >= V29 {
        "\tIl2CppMethodPointer virtualMethodPointer;\n\tInvokerMethod invoker_method;\n"@
    } else {
        "\tvoid* invoker_method;\n"@
    }) + "\tconst char* name;\n\t"@ + class + (if version <= V24 {
        "_c *declaring_type;\n"@
    } else {
        "_c *klass;\n"@
    }) + "\tconst Il2CppType *return_type;\n"@ + (if version >= V29 {
        "\tconst Il2CppType** parameters;\n"@
    } else {
        "\tconst void* parameters;\n"@
    }) + (if context.len() > 0 {
        "\tconst "@ + name + "_RGCTXs* rgctx_data;\n"@
    } else {
        "\tconst Il2CppRGCTXData* rgctx_data;\n"@
    }) + "\tunion\n\t{\n\t\tconst void* genericMethod;\n"@ + (if version >= V27 {
        "\t\tconst void* genericContainerHandle;\n"@
    } else {
        "\t\tconst void* genericContainer;\n"@
    }) + "\t};\n"@ + (if version <= V24 {
        "\tint32_t customAttributeIndex;\n"@
    } else {
        ""@
    })
        + "\tuint32_t token;\n\tuint16_t flags;\n\tuint16_t iflags;\n\tuint16_t slot;\n\tuint8_t parameters_count;\n\tuint8_t bitflags;\n};\n"@
}

/// Writes the structure that describes a method.
pub fn generate_method_info(
    name: &str,
    class: &str,
    context: &Vec<StructRGCTXInfo>,
    version: u32,
) -> (r: String)
    ensures
        r@ == method_info(name@, class@, script_json::views(context@), version),
{
    let data = if context.len() > 0 {
        String::from_str("\tconst ").concat(name).concat("_RGCTXs* rgctx_data;\n")
    } else {
        String::from_str("\tconst Il2CppRGCTXData* rgctx_data;\n")
    };
    struct_text::write_context_struct(name, context).concat("struct ").concat(name).concat(
        " {\n\tIl2CppMethodPointer methodPointer;\n",
    ).concat(
        if version >= V29 {
            "\tIl2CppMethodPointer virtualMethodPointer;\n\tInvokerMethod invoker_method;\n"
        } else {
            "\tvoid* invoker_method;\n"
        },
    ).concat("\tconst char* name;\n\t").concat(class).concat(
        if version <= V24 {
            "_c *declaring_type;\n"
        } else {
            "_c *klass;\n"
        },
    ).concat("\tconst Il2CppType *return_type;\n").concat(
        if version >= V29 {
            "\tconst Il2CppType** parameters;\n"
        } else {
            "\tconst void* parameters;\n"
        },
    ).concat(data.as_str()).concat("\tunion\n\t{\n\t\tconst void* genericMethod;\n").concat(
        if version >= V27 {
            "\t\tconst void* genericContainerHandle;\n"
        } else {
            "\t\tconst void* genericContainer;\n"
        },
    ).concat("\t};\n").concat(
        if version <= V24 {
            "\tint32_t customAttributeIndex;\n"
        } else {
            ""
        },
    ).concat(
        "\tuint32_t token;\n\tuint16_t flags;\n\tuint16_t iflags;\n\tuint16_t slot;\n\tuint8_t parameters_count;\n\tuint8_t bitflags;\n};\n",
    )
}

// The methods of generic instances of an image.

/// The methods of instances of a method definition.
pub open spec fn specs_for(il2cpp: Il2Cpp, method: usize) -> Seq<usize> {
    if il2cpp.method_definition_method_specs@.contains_key(method) {
        il2cpp.method_definition_method_specs@[method]@
    } else {
        Seq::empty()
    }
}

/// The pointer of a method of an instance; 0 where it has none.
pub open spec fn spec_pointer(il2cpp: Il2Cpp, spec: usize) -> u64 {
    if il2cpp.method_spec_generic_method_pointers@.contains_key(spec) {
        il2cpp.method_spec_generic_method_pointers@[spec]
    } else {
        0
    }
}

/// The pointer of a method of an instance; 0 where it has none.
pub fn find_spec_pointer(il2cpp: &Il2Cpp, spec: usize) -> (r: u64)
    ensures
        r == spec_pointer(*il2cpp, spec),
{
    match il2cpp.method_spec_generic_method_pointers.get(&spec) {
        Some(p) => *p,
        None => 0,
    }
}

/// The structures that describe methods, and the pointers of the methods.
pub struct MethodInfos {
    pub pointers: Set<u64>,
    pub text: Seq<char>,
}

/// The structures with that of one more method of an instance: only methods with code are
/// described, and of those that share their code only the first.
pub open spec fn with_spec(
    p: MethodInfos,
    x: Il2CppExecutor,
    il2cpp: Il2Cpp,
    spelling: Spelling,
    class: Seq<char>,
    method: usize,
    spec: usize,
) -> MethodInfos {
    let pointer = spec_pointer(il2cpp, spec);
    if spec >= il2cpp.method_specs@.len() || pointer == 0 || p.pointers.contains(pointer) {
        p
    } else {
        MethodInfos {
            pointers: p.pointers.insert(pointer),
            text: p.text + method_info(
                "MethodInfo_"@ + numeral::hex(il2cpp.rva(pointer) as nat),
                class,
                struct_info::method_context(x, il2cpp, spelling, method),
                il2cpp.version,
            ),
        }
    }
}

/// The structures with those of the first `k` methods of instances of a method definition.
pub open spec fn with_specs(
    p: MethodInfos,
    x: Il2CppExecutor,
    il2cpp: Il2Cpp,
    spelling: Spelling,
    class: Seq<char>,
    method: usize,
    k: nat,
) -> MethodInfos
    decreases k,
{
    if k == 0 {
        p
    } else {
        with_spec(
            with_specs(p, x, il2cpp, spelling, class, method, (k - 1) as nat),
            x,
            il2cpp,
            spelling,
            class,
            method,
            specs_for(il2cpp, method)[k - 1],
        )
    }
}

/// The structures with those of the first `k` methods of a type definition.
pub open spec fn with_methods(
    p: MethodInfos,
    x: Il2CppExecutor,
    il2cpp: Il2Cpp,
    spelling: Spelling,
    class: Seq<char>,
    start: int,
    k: nat,
) -> MethodInfos
    decreases k,
{
    if k == 0 {
        p
    } else {
        let method = (start + k - 1) as usize;
        with_specs(
            with_methods(p, x, il2cpp, spelling, class, start, (k - 1) as nat),
            x,
            il2cpp,
            spelling,
            class,
            method,
            specs_for(il2cpp, method).len(),
        )
    }
}

/// The structures with those of the methods of the first `n` listed type definitions.
pub open spec fn method_infos_upto(
    x: Il2CppExecutor,
    m: Metadata,
    il2cpp: Il2Cpp,
    spelling: Spelling,
    names: Map<usize, Seq<char>>,
    n: nat,
) -> MethodInfos
    decreases n,
{
    if n == 0 {
        MethodInfos { pointers: Set::empty(), text: Seq::empty() }
    } else {
        let p = method_infos_upto(x, m, il2cpp, spelling, names, (n - 1) as nat);
        let td = metadata::type_jobs(m)[n - 1].0;
        if names.contains_key(td as usize) {
            with_methods(
                p,
                x,
                il2cpp,
                spelling,
                names[td as usize],
                m.type_defs@[td].method_start as int,
                m.type_defs@[td].method_count as nat,
            )
        } else {
            p
        }
    }
}

/// The structures that describe the methods of generic instances of an image.
pub open spec fn method_infos(
    x: Il2CppExecutor,
    m: Metadata,
    il2cpp: Il2Cpp,
    spelling: Spelling,
    names: Map<usize, Seq<char>>,
) -> Seq<char> {
    method_infos_upto(x, m, il2cpp, spelling, names, metadata::type_jobs(m).len()).text
}

proof fn lemma_specs_stay(
    p: MethodInfos,
    x: Il2CppExecutor,
    il2cpp: Il2Cpp,
    spelling: Spelling,
    class: Seq<char>,
    method: usize,
    k: nat,
)
    ensures
        p.pointers.subset_of(with_specs(p, x, il2cpp, spelling, class, method, k).pointers),
        forall|j: int|
            0 <= j < k ==> {
                let spec = #[trigger] specs_for(il2cpp, method)[j];
                spec < il2cpp.method_specs@.len() && spec_pointer(il2cpp, spec) != 0
                    ==> with_specs(p, x, il2cpp, spelling, class, method, k).pointers.contains(
                    spec_pointer(il2cpp, spec),
                )
            },
    decreases k,
{
    if k > 0 {
        lemma_specs_stay(p, x, il2cpp, spelling, class, method, (k - 1) as nat);
    }
}

proof fn lemma_methods_stay(
    p: MethodInfos,
    x: Il2CppExecutor,
    il2cpp: Il2Cpp,
    spelling: Spelling,
    class: Seq<char>,
    start: int,
    k: nat,
    h: int,
    j: int,
)
    ensures
        p.pointers.subset_of(with_methods(p, x, il2cpp, spelling, class, start, k).pointers),
        0 <= h < k && 0 <= j < specs_for(il2cpp, (start + h) as usize).len() ==> {
            let spec = specs_for(il2cpp, (start + h) as usize)[j];
            spec < il2cpp.method_specs@.len() && spec_pointer(il2cpp, spec) != 0 ==> with_methods(
                p,
                x,
                il2cpp,
                spelling,
                class,
                start,
                k,
            ).pointers.contains(spec_pointer(il2cpp, spec))
        },
    decreases k,
{
    if k > 0 {
        lemma_methods_stay(p, x, il2cpp, spelling, class, start, (k - 1) as nat, h, j);
        let method = (start + k - 1) as usize;
        lemma_specs_stay(
            with_methods(p, x, il2cpp, spelling, class, start, (k - 1) as nat),
            x,
            il2cpp,
            spelling,
            class,
            method,
            specs_for(il2cpp, method).len(),
        );
    }
}

/// Every method of a generic instance that has code is described, whether its own arguments or
/// those of its class make the instance.
pub proof fn law_all_described(
    x: Il2CppExecutor,
    m: Metadata,
    il2cpp: Il2Cpp,
    spelling: Spelling,
    names: Map<usize, Seq<char>>,
    n: nat,
    i: int,
    h: int,
    j: int,
)
    requires
        0 <= i < n <= metadata::type_jobs(m).len(),
        names.contains_key(metadata::type_jobs(m)[i].0 as usize),
        0 <= h < m.type_defs@[metadata::type_jobs(m)[i].0].method_count,
    ensures
        ({
            let method = (m.type_defs@[metadata::type_jobs(m)[i].0].method_start + h) as usize;
            let spec = specs_for(il2cpp, method)[j];
            0 <= j < specs_for(il2cpp, method).len() && spec < il2cpp.method_specs@.len()
                && spec_pointer(il2cpp, spec) != 0 ==> method_infos_upto(
                x,
                m,
                il2cpp,
                spelling,
                names,
                n,
            ).pointers.contains(spec_pointer(il2cpp, spec))
        }),
    decreases n,
{
    let td = metadata::type_jobs(m)[n - 1].0;
    if i < n - 1 {
        law_all_described(x, m, il2cpp, spelling, names, (n - 1) as nat, i, h, j);
    }
    if names.contains_key(td as usize) {
        lemma_methods_stay(
            method_infos_upto(x, m, il2cpp, spelling, names, (n - 1) as nat),
            x,
            il2cpp,
            spelling,
            names[td as usize],
            m.type_defs@[td].method_start as int,
            m.type_defs@[td].method_count as nat,
            h,
            j,
        );
    }
}

/// The methods of a type definition exist.
pub open spec fn methods_exist(m: Metadata, td: int) -> bool {
    metadata::range_fits(
        m.type_defs@[td].method_start as int,
        m.type_defs@[td].method_count as int,
        m.method_defs@.len(),
    )
}

/// The methods of each listed type definition exist.
pub open spec fn methods_fit(m: Metadata) -> bool {
    forall|i: int|
        0 <= i < metadata::type_jobs(m).len() ==> methods_exist(
            m,
            (#[trigger] metadata::type_jobs(m)[i]).0,
        )
}

fn add_specs<F: Fn(&str, NameStyle) -> String>(
    executor: &Il2CppExecutor,
    il2cpp: &Il2Cpp,
    sanitizer: &Sanitizer<F>,
    class: &str,
    method: usize,
    pointers: &mut HashSet<u64>,
    text: &mut String,
)
    requires
        struct_info::labels_fit(*executor, *il2cpp),
    ensures
        (MethodInfos { pointers: final(pointers)@, text: final(text)@ }) == with_specs(
            MethodInfos { pointers: old(pointers)@, text: old(text)@ },
            *executor,
            *il2cpp,
            sanitizer.spelling(),
            class@,
            method,
            specs_for(*il2cpp, method).len(),
        ),
{
    let ghost p = MethodInfos { pointers: pointers@, text: text@ };
    let ghost spelling = sanitizer.spelling();
    let specs = match il2cpp.method_definition_method_specs.get(&method) {
        Some(specs) => specs,
        None => {
            return;
        },
    };
    let mut k: usize = 0;
    while k < specs.len()
        invariant
            struct_info::labels_fit(*executor, *il2cpp),
            spelling == sanitizer.spelling(),
            specs@ == specs_for(*il2cpp, method),
            k <= specs@.len(),
            (MethodInfos { pointers: pointers@, text: text@ }) == with_specs(
                p,
                *executor,
                *il2cpp,
                spelling,
                class@,
                method,
                k as nat,
            ),
        decreases specs@.len() - k,
    {
        let spec: usize = specs[k];
        k = k + 1;
        if spec >= il2cpp.method_specs.len() {
            continue;
        }
        let pointer: u64 = find_spec_pointer(il2cpp, spec);
        if pointer == 0 {
            continue;
        }
        if !pointers.contains(&pointer) {
            pointers.insert(pointer);
            let name = String::from_str("MethodInfo_").concat(
                numeral::hex_string(il2cpp.get_rva(pointer)).as_str(),
            );
            let context = struct_info::collect_rgctx_info_for_method(
                executor,
                il2cpp,
                method,
                sanitizer,
            );
            text.append(
                generate_method_info(name.as_str(), class, &context, il2cpp.version).as_str(),
            );
        }
    }
}

/// Writes the structures that describe the methods of generic instances of an image.
pub fn build_method_infos<F: Fn(&str, NameStyle) -> String>(
    executor: &Il2CppExecutor,
    metadata: &Metadata,
    il2cpp: &Il2Cpp,
    names: &HashMap<usize, String>,
    sanitizer: &Sanitizer<F>,
) -> (r: String)
    requires
        metadata.images_fit(),
        methods_fit(*metadata),
        struct_info::labels_fit(*executor, *il2cpp),
    ensures
        r@ == method_infos(
            *executor,
            *metadata,
            *il2cpp,
            sanitizer.spelling(),
            c_types::name_texts(names@),
        ),
{
    proof {
        metadata::lemma_images_end(*metadata);
    }
    let jobs = metadata.type_jobs();
    let mut pointers: HashSet<u64> = HashSet::new();
    let mut text = String::new();
    let ghost all = metadata::type_jobs(*metadata);
    let ghost texts = c_types::name_texts(names@);
    let ghost spelling = sanitizer.spelling();
    let methods: usize = metadata.method_defs.len();
    let mut i: usize = 0;
    proof {
        metadata::lemma_type_jobs_fit(*metadata);
        assert(jobs@.len() == metadata::job_models(jobs@).len());
        assert(text@ =~= Seq::<char>::empty());
    }
    while i < jobs.len()
        invariant
            methods_fit(*metadata),
            methods == metadata.method_defs@.len(),
            struct_info::labels_fit(*executor, *il2cpp),
            all == metadata::type_jobs(*metadata),
            texts == c_types::name_texts(names@),
            spelling == sanitizer.spelling(),
            metadata::job_models(jobs@) == all,
            jobs@.len() == all.len(),
            i <= jobs@.len(),
            forall|k: int|
                0 <= k < all.len() ==> 0 <= (#[trigger] all[k]).0 < metadata.type_defs@.len(),
            (MethodInfos { pointers: pointers@, text: text@ }) == method_infos_upto(
                *executor,
                *metadata,
                *il2cpp,
                spelling,
                texts,
                i as nat,
            ),
        decreases jobs@.len() - i,
    {
        let td: usize = jobs[i].0;
        assert(metadata::job_models(jobs@)[i as int].0 == td);
        assert(all[i as int].0 == td);
        if let Some(class) = names.get(&td) {
            let def = &metadata.type_defs[td];
            assert(methods_exist(*metadata, td as int));
            let ghost p = MethodInfos { pointers: pointers@, text: text@ };
            let mut k: usize = 0;
            while k < def.method_count
                invariant
                    struct_info::labels_fit(*executor, *il2cpp),
                    spelling == sanitizer.spelling(),
                    metadata::range_fits(
                        def.method_start as int,
                        def.method_count as int,
                        methods as nat,
                    ),
                    k <= def.method_count,
                    (MethodInfos { pointers: pointers@, text: text@ }) == with_methods(
                        p,
                        *executor,
                        *il2cpp,
                        spelling,
                        class@,
                        def.method_start as int,
                        k as nat,
                    ),
                decreases def.method_count - k,
            {
                add_specs(
                    executor,
                    il2cpp,
                    sanitizer,
                    class.as_str(),
                    def.method_start + k,
                    &mut pointers,
                    &mut text,
                );
                k = k + 1;
            }
        }
        i = i + 1;
    }
    text
}

} // verus!
