//! The header with the structures of an image, and the script that names its parts.
use crate::config::Config;
use crate::executor::Il2CppExecutor;
use crate::il2cpp::base::Il2Cpp;
use crate::il2cpp::metadata::Metadata;
use crate::il2cpp::structures::Il2CppType;
use crate::laws;
use crate::names::{NameMap, NameSet, NameStyle, Sanitizer, Spelling};
use crate::output::c_types;
use crate::output::c_types::Scene;
use crate::output::header;
use crate::output::method_info;
use crate::output::script;
use crate::output::script_json;
use crate::output::script_json::{ScriptJson, ScriptJsonModel, StringLiteralEntry};
use crate::output::static_field_exporter::StaticFieldCatalog;
use crate::output::struct_info;
use crate::output::struct_info::{Fragments, StructInfo};
use crate::output::struct_names;
use crate::output::struct_text;
use crate::output::struct_text::Target;
use crate::output::type_groups;
use crate::output::type_groups::{CppTypeGroup, Resolver};
use crate::text;
use std::collections::HashMap;
use vstd::prelude::*;
use vstd::string::*;

verus! {

/// What a header is made of.
pub struct HeaderParts {
    /// The structures in the order in which they are found.
    pub structs: Vec<StructInfo>,
    /// The structures of arrays by name.
    pub arrays: NameMap<String>,
    /// What each structure is used for.
    pub groups: NameMap<CppTypeGroup>,
    /// The structures that describe methods.
    pub method_infos: String,
}

/// The scene of a header: with the names of structures and of generic classes.
pub open spec fn header_scene(
    x: Il2CppExecutor,
    m: Metadata,
    il2cpp: Il2Cpp,
    spelling: Spelling,
) -> Scene {
    let s = Scene {
        m,
        il2cpp,
        x,
        names: struct_names::struct_names(x, m, spelling),
        special: Map::empty(),
    };
    Scene { special: header::class_names(s, spelling), ..s }
}

/// All parts of a header can be written.
pub open spec fn header_ready(s: Scene, spelling: Spelling, per_index: u32) -> bool {
    &&& s.m.images_fit()
    &&& method_info::methods_fit(s.m)
    &&& header::names_fit(s)
    &&& header::bases_ready(s)
    &&& header::classes_ready(s, spelling)
    &&& type_groups::groups_ready(s.m, s.il2cpp, per_index)
}

/// These are the parts of the header.
pub open spec fn are_parts(p: HeaderParts, s: Scene, spelling: Spelling, per_index: u32) -> bool {
    &&& script_json::views(p.structs@) == header::header_structs(s, spelling)
    &&& struct_info::fragments(p.arrays) == header::last_queue(s, spelling).arrays
    &&& p.groups@ == type_groups::type_groups(
        (Resolver { il2cpp: s.il2cpp, names: s.names, special: s.special }),
        s.m,
        per_index,
    )
    &&& p.method_infos@ == method_info::method_infos(s.x, s.m, s.il2cpp, spelling, s.names)
}

/// The first `n` texts, one after the other.
pub open spec fn fragment_text(f: Fragments, n: nat) -> Seq<char>
    decreases n,
{
    if n == 0 {
        Seq::empty()
    } else {
        fragment_text(f, (n - 1) as nat) + f.map[f.keys[n - 1]]
    }
}

/// The compiler that a header is for.
pub open spec fn target_of(config: Config, il2cpp: Il2Cpp) -> Target {
    Target {
        gcc: config.compiler_layout@ == "GCC"@,
        is_32bit: il2cpp.is_32bit,
        is_pe: il2cpp.is_pe,
    }
}

/// The declarations of the structures: those in the order of their dependencies where they are
/// asked for and there are such, or each after those that it needs.
pub open spec fn struct_declarations(
    s: Scene,
    spelling: Spelling,
    config: Config,
    ordered: Option<Seq<char>>,
) -> Seq<char> {
    if config.use_topological_sort && ordered is Some {
        ordered->0
    } else {
        struct_text::declarations(
            header::header_structs(s, spelling),
            target_of(config, s.il2cpp),
        )
    }
}

/// The header of an image.
pub open spec fn header_text(
    s: Scene,
    spelling: Spelling,
    config: Config,
    generic_header: Seq<char>,
    version_header: Seq<char>,
    ordered: Option<Seq<char>>,
) -> Seq<char> {
    let arrays = header::last_queue(s, spelling).arrays;
    "#include <stdint.h>\n#include <stdbool.h>\n\n"@ + generic_header + version_header
        + struct_declarations(s, spelling, config, ordered) + fragment_text(
        arrays,
        arrays.keys.len(),
    ) + method_info::method_infos(s.x, s.m, s.il2cpp, spelling, s.names)
}

/// Where parents are repeated, the parents of each structure end somewhere.
pub open spec fn parents_ready(s: Scene, spelling: Spelling, config: Config) -> bool {
    target_of(config, s.il2cpp).gcc ==> forall|k: int|
        0 <= k < header::header_structs(s, spelling).len() ==> #[trigger] struct_text::has_root(
            struct_text::struct_set(header::header_structs(s, spelling)),
            k,
        )
}

/// The text that may be missing, as a sequence.
pub open spec fn optional_str(s: Option<&str>) -> Option<Seq<char>> {
    match s {
        Some(s) => Some(s@),
        None => None,
    }
}

// The files.

/// A file that is written.
#[derive(Debug)]
pub struct OutputFile {
    pub name: String,
    pub text: String,
}

/// A file that is written, as texts.
pub struct OutputFileModel {
    pub name: Seq<char>,
    pub text: Seq<char>,
}

impl View for OutputFile {
    type V = OutputFileModel;

    open spec fn view(&self) -> OutputFileModel {
        OutputFileModel { name: self.name@, text: self.text@ }
    }
}

/// A file, if it is wanted.
pub open spec fn file_if(wanted: bool, name: Seq<char>, text: Seq<char>) -> Seq<OutputFileModel> {
    if wanted {
        seq![OutputFileModel { name, text }]
    } else {
        Seq::empty()
    }
}

/// The files that are written: the script, the string literals and the header, and what else is
/// asked for and there.
pub open spec fn outputs(
    config: Config,
    script: Seq<char>,
    literals: Seq<char>,
    header: Seq<char>,
    functions: Seq<char>,
    unity_types: Seq<char>,
    unity_api: Seq<char>,
) -> Seq<OutputFileModel> {
    file_if(true, "script.json"@, script) + file_if(true, "stringliteral.json"@, literals)
        + file_if(true, "il2cpp.h"@, header) + file_if(
        config.generate_cpp_scaffold,
        "il2cpp-functions.h"@,
        functions,
    ) + file_if(
        config.generate_unity_headers && unity_types.len() > 0,
        "il2cpp-types.h"@,
        unity_types,
    ) + file_if(
        config.generate_unity_headers && unity_api.len() > 0,
        "il2cpp-api.h"@,
        unity_api,
    )
}

/// The symbol belongs to the interface of a runtime.
pub open spec fn is_api_symbol(name: Seq<char>) -> bool {
    text::starts_with(name, "il2cpp_"@) || text::starts_with(name, "mono_"@)
}

fn write_fragments(arrays: &NameMap<String>) -> (r: String)
    ensures
        r@ == fragment_text(
            struct_info::fragments(*arrays),
            struct_info::fragments(*arrays).keys.len(),
        ),
{
    let ghost f = struct_info::fragments(*arrays);
    let n: usize = arrays.len();
    let mut out = String::new();
    let mut i: usize = 0;
    assert(out@ =~= Seq::<char>::empty());
    while i < n
        invariant
            f == struct_info::fragments(*arrays),
            n == f.keys.len(),
            i <= n,
            out@ == fragment_text(f, i as nat),
        decreases n - i,
    {
        let fragment = arrays.value_at(i);
        assert(f.map[f.keys[i as int]] == fragment@);
        out.append(fragment.as_str());
        i = i + 1;
    }
    out
}

/// No two structures of the header of an image have the same name.
pub proof fn law_structures_apart(
    x: Il2CppExecutor,
    m: Metadata,
    il2cpp: Il2Cpp,
    spelling: Spelling,
)
    requires
        m.type_defs@.len() <= usize::MAX,
    ensures
        header::names_apart(
            header::header_structs(header_scene(x, m, il2cpp, spelling), spelling),
        ),
{
    let s = header_scene(x, m, il2cpp, spelling);
    assert forall|a: usize, b: usize| #[trigger]
        s.names.contains_key(a) && #[trigger] s.names.contains_key(b) && a != b implies s.names[a]
        != s.names[b] by {
        struct_names::law_struct_names_distinct(x, m, spelling, a, b);
    }
    header::law_header_names_apart(s, spelling);
}

/// Writes the header and the script of an image.
pub struct StructGenerator;

impl StructGenerator {
    /// The argument in place `param_num` of the generic instance at an address.
    pub fn resolve_generic_type_var_pub(il2cpp: &Il2Cpp, inst_addr: u64, param_num: u32) -> (r:
        Option<Il2CppType>)
        requires
            il2cpp.wf(),
        ensures
            r == c_types::argument(*il2cpp, inst_addr, param_num),
    {
        c_types::resolve_generic_type_var(il2cpp, inst_addr, param_num)
    }

    /// The structure of each listed type definition.
    pub fn build_struct_name_dic_pub<F: Fn(&str, NameStyle) -> String>(
        executor: &Il2CppExecutor,
        metadata: &Metadata,
        sanitizer: &Sanitizer<F>,
    ) -> (r: HashMap<usize, String>)
        requires
            metadata.images_fit(),
            executor.type_def_names@.len() == metadata.type_defs@.len(),
        ensures
            c_types::name_texts(r@) == struct_names::struct_names(
                *executor,
                *metadata,
                sanitizer.spelling(),
            ),
    {
        struct_names::build_struct_name_dic(executor, metadata, sanitizer)
    }

    /// The image name of each listed type definition.
    pub fn build_type_def_image_names_pub(metadata: &Metadata) -> (r: HashMap<usize, String>)
        requires
            metadata.images_end(),
        ensures
            c_types::name_texts(r@) == struct_names::image_names(*metadata),
    {
        struct_names::build_type_def_image_names(metadata)
    }

    /// Writes the script of an image.
    pub fn build_script_json<F: Fn(&str, NameStyle) -> String>(
        executor: &Il2CppExecutor,
        metadata: &Metadata,
        il2cpp: &Il2Cpp,
        config: &Config,
        static_catalog: Option<&StaticFieldCatalog>,
        sanitizer: &Sanitizer<F>,
    ) -> (r: ScriptJson)
        requires
            script::script_ready(
                script::image_labels(
                    *executor,
                    *metadata,
                    *il2cpp,
                    *config,
                    sanitizer.spelling(),
                ),
            ),
        ensures
            r@ == (ScriptJsonModel {
                addresses: r@.addresses,
                ..script::full_script(
                    script::image_labels(
                        *executor,
                        *metadata,
                        *il2cpp,
                        *config,
                        sanitizer.spelling(),
                    ),
                    static_catalog,
                )
            }),
            script::are_addresses(
                script::image_labels(
                    *executor,
                    *metadata,
                    *il2cpp,
                    *config,
                    sanitizer.spelling(),
                ),
                r@.addresses,
            ),
            laws::usages::lists_usages(
                script::image_labels(
                    *executor,
                    *metadata,
                    *il2cpp,
                    *config,
                    sanitizer.spelling(),
                ),
                laws::usages::report_entries(static_catalog),
                r@,
            ),
            laws::script::lists_methods(
                script::image_labels(
                    *executor,
                    *metadata,
                    *il2cpp,
                    *config,
                    sanitizer.spelling(),
                ),
                r@.script_methods,
            ),
    {
        script::build_script(executor, metadata, il2cpp, config, static_catalog, sanitizer)
    }

    /// Lists the string literals that could be read.
    pub fn build_string_literal_json(metadata: &Metadata) -> (r: Vec<StringLiteralEntry>)
        ensures
            script_json::views(r@) == script::literals_upto(
                *metadata,
                metadata.string_literals@.len(),
            ),
    {
        script::list_string_literals(metadata)
    }

    /// Finds the parts of the header of an image.
    pub fn collect_header<F: Fn(&str, NameStyle) -> String>(
        executor: &Il2CppExecutor,
        metadata: &Metadata,
        il2cpp: &Il2Cpp,
        sanitizer: &Sanitizer<F>,
        per_index: u32,
    ) -> (r: HeaderParts)
        requires
            header_ready(
                header_scene(*executor, *metadata, *il2cpp, sanitizer.spelling()),
                sanitizer.spelling(),
                per_index,
            ),
        ensures
            are_parts(
                r,
                header_scene(*executor, *metadata, *il2cpp, sanitizer.spelling()),
                sanitizer.spelling(),
                per_index,
            ),
    {
        let ghost spelling = sanitizer.spelling();
        let ghost s = header_scene(*executor, *metadata, *il2cpp, spelling);
        let ghost plain = Scene { special: Map::empty(), ..s };
        let names = struct_names::build_struct_name_dic(executor, metadata, sanitizer);
        let special = header::build_class_names(
            executor,
            metadata,
            il2cpp,
            &names,
            sanitizer,
            Ghost(plain),
        );
        proof {
            header::lemma_class_names_same(plain, s, spelling, il2cpp.types@.len());
        }
        let (structs, arrays) = header::build_infos(
            executor,
            metadata,
            il2cpp,
            &names,
            &special,
            sanitizer,
            Ghost(s),
        );
        let groups = type_groups::classify_types_for_header(
            metadata,
            il2cpp,
            &names,
            &special,
            per_index,
        );
        let method_infos = method_info::build_method_infos(
            executor,
            metadata,
            il2cpp,
            &names,
            sanitizer,
        );
        HeaderParts { structs, arrays, groups, method_infos }
    }

    /// Writes the header of an image. Without a header for the version of the image there is none.
    pub fn build_header<F: Fn(&str, NameStyle) -> String>(
        executor: &Il2CppExecutor,
        metadata: &Metadata,
        il2cpp: &Il2Cpp,
        config: &Config,
        sanitizer: &Sanitizer<F>,
        per_index: u32,
        generic_header: &str,
        version_header: Option<&str>,
        ordered: Option<&str>,
    ) -> (r: String)
        requires
            version_header is Some ==> header_ready(
                header_scene(*executor, *metadata, *il2cpp, sanitizer.spelling()),
                sanitizer.spelling(),
                per_index,
            ),
            version_header is Some && !(config.use_topological_sort && ordered is Some)
                ==> parents_ready(
                header_scene(*executor, *metadata, *il2cpp, sanitizer.spelling()),
                sanitizer.spelling(),
                *config,
            ),
        ensures
            r@ == match version_header {
                Some(v) => header_text(
                    header_scene(*executor, *metadata, *il2cpp, sanitizer.spelling()),
                    sanitizer.spelling(),
                    *config,
                    generic_header@,
                    v@,
                    optional_str(ordered),
                ),
                None => Seq::empty(),
            },
    {
        let version_text = match version_header {
            Some(v) => v,
            None => {
                let none = String::new();
                assert(none@ =~= Seq::<char>::empty());
                return none;
            },
        };
        let parts = Self::collect_header(executor, metadata, il2cpp, sanitizer, per_index);
        let target = Target {
            gcc: text::same_text(config.compiler_layout.as_str(), "GCC"),
            is_32bit: il2cpp.is_32bit,
            is_pe: il2cpp.is_pe,
        };
        let structs = match ordered {
            Some(out) => if config.use_topological_sort {
                String::from_str(out)
            } else {
                struct_text::emit_structs(&parts.structs, target)
            },
            None => struct_text::emit_structs(&parts.structs, target),
        };
        String::from_str("#include <stdint.h>\n#include <stdbool.h>\n\n").concat(
            generic_header,
        ).concat(version_text).concat(structs.as_str()).concat(
            write_fragments(&parts.arrays).as_str(),
        ).concat(parts.method_infos.as_str())
    }

    /// The exported symbols that belong to the interface of a runtime.
    pub fn api_exports(il2cpp: &Il2Cpp) -> (r: NameSet)
        ensures
            forall|name: Seq<char>| #[trigger]
                r@.contains(name) <==> text::texts(il2cpp.exported_symbols@).contains(name)
                    && is_api_symbol(name),
    {
        let mut out = NameSet::new();
        let ghost all = text::texts(il2cpp.exported_symbols@);
        let mut i: usize = 0;
        assert(all.take(0) =~= Seq::<Seq<char>>::empty());
        while i < il2cpp.exported_symbols.len()
            invariant
                all == text::texts(il2cpp.exported_symbols@),
                i <= il2cpp.exported_symbols@.len(),
                forall|name: Seq<char>| #[trigger]
                    out@.contains(name) <==> all.take(i as int).contains(name) && is_api_symbol(
                        name,
                    ),
            decreases il2cpp.exported_symbols@.len() - i,
        {
            let symbol = &il2cpp.exported_symbols[i];
            let ghost before = out@;
            if text::starts_with_text(symbol.as_str(), "il2cpp_") || text::starts_with_text(
                symbol.as_str(),
                "mono_",
            ) {
                out.insert(symbol.clone());
            }
            proof {
                let past = all.take(i as int);
                let now = all.take(i + 1);
                assert(now =~= past.push(symbol@));
                assert forall|name: Seq<char>| #[trigger] out@.contains(name) <==> now.contains(
                    name,
                ) && is_api_symbol(name) by {
                    assert(before.contains(name) <==> past.contains(name) && is_api_symbol(name));
                    if now.contains(name) {
                        let k = choose|k: int| 0 <= k < now.len() && now[k] == name;
                        if k < past.len() {
                            assert(past[k] == name);
                        }
                    }
                    if past.contains(name) {
                        let k = choose|k: int| 0 <= k < past.len() && past[k] == name;
                        assert(now[k] == name);
                    }
                    assert(now[i as int] == symbol@);
                }
            }
            i = i + 1;
        }
        assert(all.take(all.len() as int) =~= all);
        assert(il2cpp.exported_symbols@.len() == all.len());
        out
    }

    /// The files that are written.
    pub fn output_files(
        config: &Config,
        script: String,
        literals: String,
        header: String,
        functions: String,
        unity_types: &str,
        unity_api: &str,
    ) -> (r: Vec<OutputFile>)
        ensures
            script_json::views(r@) == outputs(
                *config,
                script@,
                literals@,
                header@,
                functions@,
                unity_types@,
                unity_api@,
            ),
    {
        broadcast use script_json::lemma_views_push;

        let ghost all = outputs(
            *config,
            script@,
            literals@,
            header@,
            functions@,
            unity_types@,
            unity_api@,
        );
        let mut out: Vec<OutputFile> = Vec::new();
        assert(script_json::views(out@) =~= Seq::<OutputFileModel>::empty());
        out.push(OutputFile { name: String::from_str("script.json"), text: script });
        out.push(OutputFile { name: String::from_str("stringliteral.json"), text: literals });
        out.push(OutputFile { name: String::from_str("il2cpp.h"), text: header });
        if config.generate_cpp_scaffold {
            out.push(OutputFile { name: String::from_str("il2cpp-functions.h"), text: functions });
        }
        if config.generate_unity_headers {
            if unity_types.unicode_len() > 0 {
                out.push(
                    OutputFile {
                        name: String::from_str("il2cpp-types.h"),
                        text: String::from_str(unity_types),
                    },
                );
            }
            if unity_api.unicode_len() > 0 {
                out.push(
                    OutputFile {
                        name: String::from_str("il2cpp-api.h"),
                        text: String::from_str(unity_api),
                    },
                );
            }
        }
        assert(script_json::views(out@) =~= all);
        out
    }

    /// Whether a C++ project is written.
    pub fn wants_project(config: &Config, unity_types: &str) -> (r: bool)
        ensures
            r == (config.generate_cpp_scaffold && config.generate_unity_headers
                && unity_types@.len() > 0),
    {
        config.generate_cpp_scaffold && config.generate_unity_headers && unity_types.unicode_len()
            > 0
    }
}

} // verus!
