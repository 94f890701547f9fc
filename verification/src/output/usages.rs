//! The metadata usages of an image: the places that refer to types, methods, fields and strings.
use crate::config::Config;
use crate::executor::Il2CppExecutor;
use crate::il2cpp::base;
use crate::il2cpp::base::{Il2Cpp, SearchSection};
use crate::il2cpp::field_layout;
use crate::il2cpp::metadata::Metadata;
use crate::il2cpp::structures;
use crate::il2cpp::structures::Il2CppType;
use crate::io;
use crate::names::{NameStyle, Sanitizer, Spelling};
use crate::output::bytes;
use crate::output::c_types;
use crate::output::method_info;
use crate::output::script_json;
use crate::output::script_json::{
    ScriptFieldInfo, ScriptFieldInfoModel, ScriptJson, ScriptJsonModel, ScriptMetadata,
    ScriptMetadataMethod, ScriptMetadataMethodModel, ScriptMetadataModel, ScriptString,
    ScriptStringModel, ScriptTypeInfo, ScriptTypeInfoModel,
};
use crate::output::struct_info;
use crate::output::type_checks;
use crate::text;
use std::collections::HashMap;
use vstd::prelude::*;
use vstd::string::*;

verus! {

/// What usages are named with.
pub struct Labels {
    pub m: Metadata,
    pub il2cpp: Il2Cpp,
    pub x: Il2CppExecutor,
    /// The structure of each type definition that has one.
    pub names: Map<usize, Seq<char>>,
    /// The image of each type definition.
    pub images: Map<usize, Seq<char>>,
    pub spelling: Spelling,
    pub config: Config,
}

// What a usage adds to the script.

/// The class that a reference to a type is declared as.
pub open spec fn class_type(c: Labels, t: Il2CppType, scanned: bool) -> Seq<char> {
    match type_checks::named_struct(c.names, t) {
        Some(name) => if scanned && text::ends_with(name, "_array"@) {
            "Il2CppClass*"@
        } else {
            (c.spelling)(name, NameStyle::Cpp) + "_c*"@
        },
        None => "Il2CppClass*"@,
    }
}

/// The script with the information on a type.
pub open spec fn with_type_info(
    script: ScriptJsonModel,
    c: Labels,
    i: int,
    rva: u64,
    scanned: bool,
) -> ScriptJsonModel {
    if i < c.il2cpp.types@.len() {
        let name = c.x.type_names@[i]@;
        let sig = class_type(c, c.il2cpp.types@[i], scanned);
        ScriptJsonModel {
            script_metadata: script.script_metadata.push(
                ScriptMetadataModel {
                    address: rva,
                    name: name + "_TypeInfo"@,
                    signature: Some(sig),
                },
            ),
            type_info_pointers: if c.config.enhanced_ida_metadata {
                script.type_info_pointers.push(
                    ScriptTypeInfoModel {
                        address: rva,
                        name: (c.spelling)(name, NameStyle::Cpp) + "_TypeInfo"@,
                        type_str: sig,
                        dotnet_type: Some(name),
                    },
                )
            } else {
                script.type_info_pointers
            },
            ..script
        }
    } else {
        script
    }
}

/// The script with a reference to a type.
pub open spec fn with_type_ref(script: ScriptJsonModel, c: Labels, i: int, rva: u64) -> ScriptJsonModel {
    if i < c.il2cpp.types@.len() {
        let name = c.x.type_names@[i]@;
        ScriptJsonModel {
            script_metadata: script.script_metadata.push(
                ScriptMetadataModel {
                    address: rva,
                    name: name + "_var"@,
                    signature: Some("Il2CppType*"@),
                },
            ),
            type_ref_pointers: if c.config.enhanced_ida_metadata {
                script.type_ref_pointers.push(
                    ScriptTypeInfoModel {
                        address: rva,
                        name: (c.spelling)(name, NameStyle::Cpp) + "_TypeRef"@,
                        type_str: "Il2CppType*"@,
                        dotnet_type: Some(name),
                    },
                )
            } else {
                script.type_ref_pointers
            },
            ..script
        }
    } else {
        script
    }
}

/// The address of a pointer; 0 where there is none.
pub open spec fn rva_or_zero(il2cpp: Il2Cpp, pointer: u64) -> u64 {
    if pointer > 0 {
        il2cpp.rva(pointer)
    } else {
        0
    }
}

/// The name of a reference to a method.
pub open spec fn method_label(owner: Seq<char>, method: Seq<char>) -> Seq<char> {
    "Method$"@ + owner + "."@ + method + "()"@
}

/// The image of a type definition.
pub open spec fn image_of(images: Map<usize, Seq<char>>, td: usize) -> Seq<char> {
    if images.contains_key(td) {
        images[td]
    } else {
        ""@
    }
}

/// The script with a reference to a method.
pub open spec fn with_method(script: ScriptJsonModel, c: Labels, i: int, rva: u64) -> ScriptJsonModel {
    if i < c.m.method_defs@.len() && c.m.method_defs@[i].declaring_type < c.m.type_defs@.len() {
        let md = c.m.method_defs@[i];
        let td = md.declaring_type;
        ScriptJsonModel {
            script_metadata_methods: script.script_metadata_methods.push(
                ScriptMetadataMethodModel {
                    address: rva,
                    name: method_label(
                        c.x.type_def_names@[td as int]@,
                        structures::name_or(md.name, "?"@),
                    ),
                    method_address: rva_or_zero(
                        c.il2cpp,
                        c.il2cpp.method_pointer(image_of(c.images, td), md),
                    ),
                },
            ),
            ..script
        }
    } else {
        script
    }
}

/// A field that a reference leads to: its path and its index.
pub open spec fn field_path(c: Labels, i: int) -> Option<(Seq<char>, usize)> {
    if i < c.m.field_refs@.len() && c.m.field_refs@[i].type_index < c.il2cpp.types@.len() {
        let field_ref = c.m.field_refs@[i];
        let td = c.il2cpp.types@[field_ref.type_index as int].klass_index as int;
        if td < c.m.type_defs@.len() && c.m.type_defs@[td].field_start + field_ref.field_index
            < c.m.field_defs@.len() {
            let k = c.m.type_defs@[td].field_start + field_ref.field_index;
            Some(
                (
                    c.x.type_names@[field_ref.type_index as int]@ + "."@ + structures::name_or(
                        c.m.field_defs@[k].name,
                        ""@,
                    ),
                    k as usize,
                ),
            )
        } else {
            None
        }
    } else {
        None
    }
}

/// The script with a reference to a field.
pub open spec fn with_field(script: ScriptJsonModel, c: Labels, i: int, rva: u64) -> ScriptJsonModel {
    match field_path(c, i) {
        Some((path, _)) => ScriptJsonModel {
            script_metadata: script.script_metadata.push(
                ScriptMetadataModel { address: rva, name: "Field$"@ + path, signature: None },
            ),
            field_infos: if c.config.enhanced_ida_metadata {
                script.field_infos.push(
                    ScriptFieldInfoModel {
                        address: rva,
                        name: (c.spelling)(path + "_Field"@, NameStyle::Cpp),
                        value: path,
                    },
                )
            } else {
                script.field_infos
            },
            ..script
        },
        None => script,
    }
}

/// A character of an identifier, or an underscore in its place.
pub open spec fn safe_char(ch: char) -> char {
    if ('a' <= ch && ch <= 'z') || ('A' <= ch && ch <= 'Z') || ('0' <= ch && ch <= '9') || ch
        == '_' {
        ch
    } else {
        '_'
    }
}

/// The identifier of a string: its beginning, with underscores for what an identifier cannot hold.
pub open spec fn safe_id(s: Seq<char>) -> Seq<char> {
    let n = if s.len() < 32 {
        s.len()
    } else {
        32
    };
    Seq::new(n, |i: int| safe_char(s[i]))
}

/// The script with a string literal.
pub open spec fn with_string(script: ScriptJsonModel, c: Labels, i: int, rva: u64) -> ScriptJsonModel {
    if i < c.m.string_literals@.len() {
        match c.m.string_literals@[i] {
            Ok(value) => ScriptJsonModel {
                script_strings: script.script_strings.push(
                    ScriptStringModel {
                        address: rva,
                        value: value@,
                        name: Some("StringLiteral_"@ + safe_id(value@)),
                    },
                ),
                ..script
            },
            Err(_) => script,
        }
    } else {
        script
    }
}

/// The script with a reference to a method of a generic instance.
pub open spec fn with_method_spec(script: ScriptJsonModel, c: Labels, i: int, rva: u64) -> ScriptJsonModel {
    if i < c.il2cpp.method_specs@.len() {
        let names = c.x.method_spec_names@[i];
        ScriptJsonModel {
            script_metadata_methods: script.script_metadata_methods.push(
                ScriptMetadataMethodModel {
                    address: rva,
                    name: method_label(names.0@, names.1@),
                    method_address: rva_or_zero(
                        c.il2cpp,
                        method_info::spec_pointer(c.il2cpp, i as usize),
                    ),
                },
            ),
            ..script
        }
    } else {
        script
    }
}

/// How many bytes of the initial data of a field are read.
pub open spec fn data_len(config: Config) -> int {
    if config.max_field_rva_dump_bytes < 256 {
        config.max_field_rva_dump_bytes as int
    } else {
        256
    }
}

/// The remark on the initial data of a field.
pub open spec fn data_remark(c: Labels, path: Seq<char>, field: usize) -> Seq<char> {
    if c.config.dump_field_rva_data {
        match field_layout::default_offset(c.m, field) {
            Some(offset) => match field_layout::metadata_bytes_at(
                c.m,
                offset as int,
                data_len(c.config),
            ) {
                Some(data) => path + " hex="@ + bytes::hex_preview(data, 128),
                None => path,
            },
            None => path,
        }
    } else {
        path
    }
}

/// The script with a reference to the initial data of a field.
pub open spec fn with_field_data(script: ScriptJsonModel, c: Labels, i: int, rva: u64) -> ScriptJsonModel {
    match field_path(c, i) {
        Some((path, field)) => ScriptJsonModel {
            script_metadata: script.script_metadata.push(
                ScriptMetadataModel { address: rva, name: "FieldRva$"@ + path, signature: None },
            ),
            field_rvas: script.field_rvas.push(
                ScriptFieldInfoModel {
                    address: rva,
                    name: text::with_char_replaced(path, '.', '_') + "_FieldRva"@,
                    value: data_remark(c, path, field),
                },
            ),
            ..script
        },
        None => script,
    }
}

/// The script with a usage of a kind. Only places that are found in the data of the image refer to
/// the initial data of fields.
pub open spec fn with_usage(
    script: ScriptJsonModel,
    c: Labels,
    kind: int,
    i: int,
    rva: u64,
    scanned: bool,
) -> ScriptJsonModel {
    if kind == 1 {
        with_type_info(script, c, i, rva, scanned)
    } else if kind == 2 {
        with_type_ref(script, c, i, rva)
    } else if kind == 3 {
        with_method(script, c, i, rva)
    } else if kind == 4 {
        with_field(script, c, i, rva)
    } else if kind == 5 {
        with_string(script, c, i, rva)
    } else if kind == 6 {
        with_method_spec(script, c, i, rva)
    } else if kind == 7 && scanned {
        with_field_data(script, c, i, rva)
    } else {
        script
    }
}

// The usages that the metadata lists.

/// The script with the usage that stands in one place.
pub open spec fn with_listed(script: ScriptJsonModel, c: Labels, kind: u32, entry: (u32, u32)) -> ScriptJsonModel {
    let places = c.il2cpp.metadata_usages@;
    if entry.0 < places.len() && places[entry.0 as int] != 0 {
        with_usage(
            script,
            c,
            kind as int,
            entry.1 as int,
            c.il2cpp.rva(places[entry.0 as int]),
            false,
        )
    } else {
        script
    }
}

/// The script with the first `k` usages of a list.
pub open spec fn with_list(
    script: ScriptJsonModel,
    c: Labels,
    kind: u32,
    list: Seq<(u32, u32)>,
    k: nat,
) -> ScriptJsonModel
    decreases k,
{
    if k == 0 {
        script
    } else {
        with_listed(with_list(script, c, kind, list, (k - 1) as nat), c, kind, list[k - 1])
    }
}

/// The script with the first `n` lists of usages.
pub open spec fn with_lists(script: ScriptJsonModel, c: Labels, n: nat) -> ScriptJsonModel
    decreases n,
{
    if n == 0 {
        script
    } else {
        let list = c.m.metadata_usages@[n - 1];
        with_list(
            with_lists(script, c, (n - 1) as nat),
            c,
            list.0,
            list.1@,
            list.1@.len(),
        )
    }
}

// The usages that stand in the data of the image.

/// The kind and the index that a word stands for: an odd word whose upper three bits give the kind.
pub open spec fn token(word: nat) -> Option<(nat, nat)> {
    if word < 0xFFFF_FFFF && word % 2 == 1 && word / 0x2000_0000 > 0 {
        Some((word / 0x2000_0000, (word % 0x2000_0000) / 2))
    } else {
        None
    }
}

/// The word that stands for a kind and an index.
pub open spec fn token_word(kind: nat, index: nat) -> nat {
    kind * 0x2000_0000 + 2 * index + 1
}

/// The word that stands for a kind and an index is read as these. The word with all bits set
/// stands for nothing.
pub proof fn law_token_of_word(kind: nat, index: nat)
    requires
        1 <= kind <= 7,
        index < 0x1000_0000,
        token_word(kind, index) != 0xFFFF_FFFF,
    ensures
        token(token_word(kind, index)) == Some((kind, index)),
{
}

/// A word that stands for a kind and an index is the one that they make.
pub proof fn law_word_of_token(word: nat)
    requires
        token(word) is Some,
    ensures
        ({
            let (kind, index) = token(word)->0;
            1 <= kind <= 7 && index < 0x1000_0000 && token_word(kind, index) == word
        }),
{
}

/// The word at an offset; 0 where it cannot be read.
pub open spec fn word_or_zero(il2cpp: Il2Cpp, at: u64) -> nat {
    match io::word_at(il2cpp.stream.bytes@, at, io::pointer_len(il2cpp.is_32bit)) {
        Ok(v) => v,
        Err(_) => 0,
    }
}

/// Where the words of a section end.
pub open spec fn section_end(il2cpp: Il2Cpp, sec: SearchSection) -> int {
    let len = il2cpp.stream.bytes@.len();
    let end = if sec.offset_end < len {
        sec.offset_end as int
    } else {
        len as int
    };
    end - io::pointer_len(il2cpp.is_32bit)
}

/// The script with the usage that a word of the data stands for.
pub open spec fn with_word(script: ScriptJsonModel, c: Labels, at: u64) -> ScriptJsonModel {
    let va = base::address_of(c.il2cpp.va_segments@, at);
    match token(word_or_zero(c.il2cpp, at)) {
        Some((kind, i)) => if va == 0 {
            script
        } else {
            with_usage(script, c, kind as int, i as int, c.il2cpp.rva(va), true)
        },
        None => script,
    }
}

/// The script with the usages from one offset up to another.
pub open spec fn with_words(script: ScriptJsonModel, c: Labels, at: int, end: int) -> ScriptJsonModel
    decreases end + 8 - at,
{
    if at >= end {
        script
    } else {
        with_words(
            with_word(script, c, at as u64),
            c,
            at + io::pointer_len(c.il2cpp.is_32bit),
            end,
        )
    }
}

/// The script with the usages in the first `n` data sections.
pub open spec fn with_sections(script: ScriptJsonModel, c: Labels, n: nat) -> ScriptJsonModel
    decreases n,
{
    if n == 0 {
        script
    } else {
        let sec = c.il2cpp.data_sections@[n - 1];
        with_words(
            with_sections(script, c, (n - 1) as nat),
            c,
            sec.offset as int,
            section_end(c.il2cpp, sec),
        )
    }
}

// Adding them.

/// All names that usages need exist.
pub open spec fn labels_ready(c: Labels) -> bool {
    &&& struct_info::labels_fit(c.x, c.il2cpp)
    &&& c.x.type_def_names@.len() == c.m.type_defs@.len()
}

/// The labels are made of these parts.
spec fn labels_of<F: Fn(&str, NameStyle) -> String>(
    c: Labels,
    executor: Il2CppExecutor,
    metadata: Metadata,
    il2cpp: Il2Cpp,
    names: Map<usize, String>,
    images: Map<usize, String>,
    config: Config,
    sanitizer: Sanitizer<F>,
) -> bool {
    &&& labels_ready(c)
    &&& c == labels(executor, metadata, il2cpp, names, images, config, sanitizer.spelling())
}

/// The labels that are made of these parts.
pub open spec fn labels(
    executor: Il2CppExecutor,
    metadata: Metadata,
    il2cpp: Il2Cpp,
    names: Map<usize, String>,
    images: Map<usize, String>,
    config: Config,
    spelling: Spelling,
) -> Labels {
    Labels {
        m: metadata,
        il2cpp,
        x: executor,
        names: c_types::name_texts(names),
        images: c_types::name_texts(images),
        spelling,
        config,
    }
}

fn add_type_info<F: Fn(&str, NameStyle) -> String>(
    script: &mut ScriptJson,
    executor: &Il2CppExecutor,
    il2cpp: &Il2Cpp,
    names: &HashMap<usize, String>,
    config: &Config,
    sanitizer: &Sanitizer<F>,
    i: usize,
    rva: u64,
    scanned: bool,
    Ghost(c): Ghost<Labels>,
)
    requires
        labels_ready(c),
        c.il2cpp == *il2cpp,
        c.x == *executor,
        c.names == c_types::name_texts(names@),
        c.spelling == sanitizer.spelling(),
        c.config == *config,
    ensures
        final(script)@ == with_type_info(old(script)@, c, i as int, rva, scanned),
{
    broadcast use script_json::lemma_views_push;

    if i >= il2cpp.types.len() {
        return;
    }
    let name = &executor.type_names[i];
    let sig = match type_checks::get_struct_name_for_type(&il2cpp.types[i], names) {
        Some(sn) => if scanned && text::ends_with_text(sn.as_str(), "_array") {
            String::from_str("Il2CppClass*")
        } else {
            sanitizer.fix_name(sn.as_str()).concat("_c*")
        },
        None => String::from_str("Il2CppClass*"),
    };
    script.script_metadata.push(
        ScriptMetadata {
            address: rva,
            name: name.clone().concat("_TypeInfo"),
            signature: Some(sig.clone()),
        },
    );
    if config.enhanced_ida_metadata {
        script.type_info_pointers.push(
            ScriptTypeInfo {
                address: rva,
                name: sanitizer.fix_name(name.as_str()).concat("_TypeInfo"),
                type_str: sig,
                dotnet_type: Some(name.clone()),
            },
        );
    }
}

fn add_type_ref<F: Fn(&str, NameStyle) -> String>(
    script: &mut ScriptJson,
    executor: &Il2CppExecutor,
    il2cpp: &Il2Cpp,
    config: &Config,
    sanitizer: &Sanitizer<F>,
    i: usize,
    rva: u64,
    Ghost(c): Ghost<Labels>,
)
    requires
        labels_ready(c),
        c.il2cpp == *il2cpp,
        c.x == *executor,
        c.spelling == sanitizer.spelling(),
        c.config == *config,
    ensures
        final(script)@ == with_type_ref(old(script)@, c, i as int, rva),
{
    broadcast use script_json::lemma_views_push;

    if i >= il2cpp.types.len() {
        return;
    }
    let name = &executor.type_names[i];
    script.script_metadata.push(
        ScriptMetadata {
            address: rva,
            name: name.clone().concat("_var"),
            signature: Some(String::from_str("Il2CppType*")),
        },
    );
    if config.enhanced_ida_metadata {
        script.type_ref_pointers.push(
            ScriptTypeInfo {
                address: rva,
                name: sanitizer.fix_name(name.as_str()).concat("_TypeRef"),
                type_str: String::from_str("Il2CppType*"),
                dotnet_type: Some(name.clone()),
            },
        );
    }
}

fn get_rva_or_zero(il2cpp: &Il2Cpp, pointer: u64) -> (r: u64)
    ensures
        r == rva_or_zero(*il2cpp, pointer),
{
    if pointer > 0 {
        il2cpp.get_rva(pointer)
    } else {
        0
    }
}

fn write_method_label(owner: &str, method: &str) -> (r: String)
    ensures
        r@ == method_label(owner@, method@),
{
    String::from_str("Method$").concat(owner).concat(".").concat(method).concat("()")
}

fn add_method(
    script: &mut ScriptJson,
    executor: &Il2CppExecutor,
    metadata: &Metadata,
    il2cpp: &Il2Cpp,
    images: &HashMap<usize, String>,
    i: usize,
    rva: u64,
    Ghost(c): Ghost<Labels>,
)
    requires
        labels_ready(c),
        c.m == *metadata,
        c.il2cpp == *il2cpp,
        c.x == *executor,
        c.images == c_types::name_texts(images@),
    ensures
        final(script)@ == with_method(old(script)@, c, i as int, rva),
{
    broadcast use script_json::lemma_views_push;

    if i >= metadata.method_defs.len() {
        return;
    }
    let md = &metadata.method_defs[i];
    if md.declaring_type >= metadata.type_defs.len() {
        return;
    }
    let method = structures::name_text(&md.name, "?");
    let image = match images.get(&md.declaring_type) {
        Some(image) => image.clone(),
        None => String::from_str(""),
    };
    let pointer: u64 = il2cpp.get_method_pointer(image.as_str(), md);
    script.script_metadata_methods.push(
        ScriptMetadataMethod {
            address: rva,
            name: write_method_label(
                executor.type_def_names[md.declaring_type].as_str(),
                method.as_str(),
            ),
            method_address: get_rva_or_zero(il2cpp, pointer),
        },
    );
}

fn find_field_path(
    executor: &Il2CppExecutor,
    metadata: &Metadata,
    il2cpp: &Il2Cpp,
    i: usize,
    Ghost(c): Ghost<Labels>,
) -> (r: Option<(String, usize)>)
    requires
        labels_ready(c),
        c.m == *metadata,
        c.il2cpp == *il2cpp,
        c.x == *executor,
    ensures
        match r {
            Some((path, field)) => field_path(c, i as int) == Some((path@, field)),
            None => field_path(c, i as int) is None,
        },
{
    if i >= metadata.field_refs.len() {
        return None;
    }
    let field_ref = metadata.field_refs[i];
    if field_ref.type_index >= il2cpp.types.len() {
        return None;
    }
    let td: usize = il2cpp.types[field_ref.type_index].klass_index;
    if td >= metadata.type_defs.len() {
        return None;
    }
    let start: usize = metadata.type_defs[td].field_start;
    let fields: usize = metadata.field_defs.len();
    if start >= fields || field_ref.field_index >= fields - start {
        return None;
    }
    let k: usize = start + field_ref.field_index;
    let name = structures::name_text(&metadata.field_defs[k].name, "");
    let path = executor.type_names[field_ref.type_index].clone().concat(".").concat(name.as_str());
    Some((path, k))
}

fn add_field<F: Fn(&str, NameStyle) -> String>(
    script: &mut ScriptJson,
    executor: &Il2CppExecutor,
    metadata: &Metadata,
    il2cpp: &Il2Cpp,
    config: &Config,
    sanitizer: &Sanitizer<F>,
    i: usize,
    rva: u64,
    Ghost(c): Ghost<Labels>,
)
    requires
        labels_ready(c),
        c.m == *metadata,
        c.il2cpp == *il2cpp,
        c.x == *executor,
        c.spelling == sanitizer.spelling(),
        c.config == *config,
    ensures
        final(script)@ == with_field(old(script)@, c, i as int, rva),
{
    broadcast use script_json::lemma_views_push;

    if let Some((path, _)) = find_field_path(executor, metadata, il2cpp, i, Ghost(c)) {
        script.script_metadata.push(
            ScriptMetadata {
                address: rva,
                name: String::from_str("Field$").concat(path.as_str()),
                signature: None,
            },
        );
        if config.enhanced_ida_metadata {
            script.field_infos.push(
                ScriptFieldInfo {
                    address: rva,
                    name: sanitizer.fix_name(path.clone().concat("_Field").as_str()),
                    value: path,
                },
            );
        }
    }
}

/// Writes the identifier of a string.
fn write_safe_id(s: &str) -> (r: String)
    ensures
        r@ == safe_id(s@),
{
    let v = text::to_chars(s);
    let n: usize = if v.len() < 32 {
        v.len()
    } else {
        32
    };
    let mut out = String::new();
    let mut i: usize = 0;
    assert(out@ =~= safe_id(s@).take(0));
    while i < n
        invariant
            v@ == s@,
            i <= n <= v@.len(),
            n == safe_id(s@).len(),
            out@ == safe_id(s@).take(i as int),
        decreases n - i,
    {
        let ch = v[i];
        let kept = ('a' <= ch && ch <= 'z') || ('A' <= ch && ch <= 'Z') || ('0' <= ch && ch
            <= '9') || ch == '_';
        out.push(
            if kept {
                ch
            } else {
                '_'
            },
        );
        i = i + 1;
        assert(out@ =~= safe_id(s@).take(i as int));
    }
    assert(safe_id(s@).take(n as int) =~= safe_id(s@));
    out
}

fn add_string(
    script: &mut ScriptJson,
    metadata: &Metadata,
    i: usize,
    rva: u64,
    Ghost(c): Ghost<Labels>,
)
    requires
        c.m == *metadata,
    ensures
        final(script)@ == with_string(old(script)@, c, i as int, rva),
{
    broadcast use script_json::lemma_views_push;

    if i >= metadata.string_literals.len() {
        return;
    }
    if let Ok(value) = &metadata.string_literals[i] {
        script.script_strings.push(
            ScriptString {
                address: rva,
                value: value.clone(),
                name: Some(
                    String::from_str("StringLiteral_").concat(
                        write_safe_id(value.as_str()).as_str(),
                    ),
                ),
            },
        );
    }
}

fn add_method_spec(
    script: &mut ScriptJson,
    executor: &Il2CppExecutor,
    il2cpp: &Il2Cpp,
    i: usize,
    rva: u64,
    Ghost(c): Ghost<Labels>,
)
    requires
        labels_ready(c),
        c.il2cpp == *il2cpp,
        c.x == *executor,
    ensures
        final(script)@ == with_method_spec(old(script)@, c, i as int, rva),
{
    broadcast use script_json::lemma_views_push;

    if i >= il2cpp.method_specs.len() {
        return;
    }
    let names = &executor.method_spec_names[i];
    let pointer: u64 = method_info::find_spec_pointer(il2cpp, i);
    script.script_metadata_methods.push(
        ScriptMetadataMethod {
            address: rva,
            name: write_method_label(names.0.as_str(), names.1.as_str()),
            method_address: get_rva_or_zero(il2cpp, pointer),
        },
    );
}

fn write_data_remark(
    metadata: &Metadata,
    config: &Config,
    path: &str,
    field: usize,
    Ghost(c): Ghost<Labels>,
) -> (r: String)
    requires
        c.m == *metadata,
        c.config == *config,
    ensures
        r@ == data_remark(c, path@, field),
{
    if config.dump_field_rva_data {
        let size: usize = if config.max_field_rva_dump_bytes < 256 {
            config.max_field_rva_dump_bytes
        } else {
            256
        };
        if let Some(offset) = field_layout::default_value_offset(metadata, field) {
            if let Some(data) = field_layout::read_metadata_bytes(metadata, offset, size) {
                return String::from_str(path).concat(" hex=").concat(
                    bytes::bytes_to_hex_preview(data.as_slice(), 128).as_str(),
                );
            }
        }
    }
    String::from_str(path)
}

fn add_field_data(
    script: &mut ScriptJson,
    executor: &Il2CppExecutor,
    metadata: &Metadata,
    il2cpp: &Il2Cpp,
    config: &Config,
    i: usize,
    rva: u64,
    Ghost(c): Ghost<Labels>,
)
    requires
        labels_ready(c),
        c.m == *metadata,
        c.il2cpp == *il2cpp,
        c.x == *executor,
        c.config == *config,
    ensures
        final(script)@ == with_field_data(old(script)@, c, i as int, rva),
{
    broadcast use script_json::lemma_views_push;

    if let Some((path, field)) = find_field_path(executor, metadata, il2cpp, i, Ghost(c)) {
        script.script_metadata.push(
            ScriptMetadata {
                address: rva,
                name: String::from_str("FieldRva$").concat(path.as_str()),
                signature: None,
            },
        );
        script.field_rvas.push(
            ScriptFieldInfo {
                address: rva,
                name: text::replace_char(path.as_str(), '.', '_').concat("_FieldRva"),
                value: write_data_remark(metadata, config, path.as_str(), field, Ghost(c)),
            },
        );
    }
}

fn add_usage<F: Fn(&str, NameStyle) -> String>(
    script: &mut ScriptJson,
    executor: &Il2CppExecutor,
    metadata: &Metadata,
    il2cpp: &Il2Cpp,
    names: &HashMap<usize, String>,
    images: &HashMap<usize, String>,
    config: &Config,
    sanitizer: &Sanitizer<F>,
    kind: u32,
    i: usize,
    rva: u64,
    scanned: bool,
    Ghost(c): Ghost<Labels>,
)
    requires
        labels_of(c, *executor, *metadata, *il2cpp, names@, images@, *config, *sanitizer),
    ensures
        final(script)@ == with_usage(old(script)@, c, kind as int, i as int, rva, scanned),
{
    if kind == 1 {
        add_type_info(
            script,
            executor,
            il2cpp,
            names,
            config,
            sanitizer,
            i,
            rva,
            scanned,
            Ghost(c),
        );
    } else if kind == 2 {
        add_type_ref(script, executor, il2cpp, config, sanitizer, i, rva, Ghost(c));
    } else if kind == 3 {
        add_method(script, executor, metadata, il2cpp, images, i, rva, Ghost(c));
    } else if kind == 4 {
        add_field(script, executor, metadata, il2cpp, config, sanitizer, i, rva, Ghost(c));
    } else if kind == 5 {
        add_string(script, metadata, i, rva, Ghost(c));
    } else if kind == 6 {
        add_method_spec(script, executor, il2cpp, i, rva, Ghost(c));
    } else if kind == 7 && scanned {
        add_field_data(script, executor, metadata, il2cpp, config, i, rva, Ghost(c));
    }
}

/// The type of a field that a usage refers to exists.
pub open spec fn listed_fits(c: Labels, kind: u32, entry: (u32, u32)) -> bool {
    let places = c.il2cpp.metadata_usages@;
    kind == 4 && entry.0 < places.len() && places[entry.0 as int] != 0 && entry.1
        < c.m.field_refs@.len() ==> c.m.field_refs@[entry.1 as int].type_index
        < c.il2cpp.types@.len()
}

/// The types of all fields that usages refer to exist.
pub open spec fn lists_fit(c: Labels) -> bool {
    forall|i: int, j: int|
        0 <= i < c.m.metadata_usages@.len() && 0 <= j < c.m.metadata_usages@[i].1@.len()
            ==> listed_fits(
            c,
            c.m.metadata_usages@[i].0,
            #[trigger] c.m.metadata_usages@[i].1@[j],
        )
}

/// Adds the usages that the metadata lists to the script.
pub fn add_metadata_usages<F: Fn(&str, NameStyle) -> String>(
    script: &mut ScriptJson,
    executor: &Il2CppExecutor,
    metadata: &Metadata,
    il2cpp: &Il2Cpp,
    names: &HashMap<usize, String>,
    images: &HashMap<usize, String>,
    config: &Config,
    sanitizer: &Sanitizer<F>,
)
    requires
        labels_ready(
            labels(
                *executor,
                *metadata,
                *il2cpp,
                names@,
                images@,
                *config,
                sanitizer.spelling(),
            ),
        ),
        lists_fit(
            labels(
                *executor,
                *metadata,
                *il2cpp,
                names@,
                images@,
                *config,
                sanitizer.spelling(),
            ),
        ),
    ensures
        final(script)@ == with_lists(
            old(script)@,
            labels(
                *executor,
                *metadata,
                *il2cpp,
                names@,
                images@,
                *config,
                sanitizer.spelling(),
            ),
            metadata.metadata_usages@.len(),
        ),
{
    let ghost c = labels(
        *executor,
        *metadata,
        *il2cpp,
        names@,
        images@,
        *config,
        sanitizer.spelling(),
    );
    let ghost start = script@;
    let mut a: usize = 0;
    while a < metadata.metadata_usages.len()
        invariant
            labels_of(c, *executor, *metadata, *il2cpp, names@, images@, *config, *sanitizer),
            a <= metadata.metadata_usages@.len(),
            script@ == with_lists(start, c, a as nat),
        decreases metadata.metadata_usages@.len() - a,
    {
        let kind: u32 = metadata.metadata_usages[a].0;
        let list = &metadata.metadata_usages[a].1;
        let ghost before = script@;
        let mut b: usize = 0;
        while b < list.len()
            invariant
                labels_of(c, *executor, *metadata, *il2cpp, names@, images@, *config, *sanitizer),
                b <= list@.len(),
                script@ == with_list(before, c, kind, list@, b as nat),
            decreases list@.len() - b,
        {
            let dest: usize = list[b].0 as usize;
            let src: usize = list[b].1 as usize;
            if dest < il2cpp.metadata_usages.len() {
                let address: u64 = il2cpp.metadata_usages[dest];
                if address != 0 {
                    add_usage(
                        script,
                        executor,
                        metadata,
                        il2cpp,
                        names,
                        images,
                        config,
                        sanitizer,
                        kind,
                        src,
                        il2cpp.get_rva(address),
                        false,
                        Ghost(c),
                    );
                }
            }
            b = b + 1;
        }
        a = a + 1;
    }
}

/// The kind and the index that a word stands for.
pub fn decode_token(word: u64) -> (r: Option<(u32, u32)>)
    ensures
        match r {
            Some((kind, i)) => token(word as nat) == Some((kind as nat, i as nat)),
            None => token(word as nat) is None,
        },
{
    if word < 0xFFFF_FFFF && word % 2 == 1 && word / 0x2000_0000 > 0 {
        Some(((word / 0x2000_0000) as u32, ((word % 0x2000_0000) / 2) as u32))
    } else {
        None
    }
}

/// The word at an offset; 0 where it cannot be read.
pub fn read_word(il2cpp: &Il2Cpp, at: u64) -> (r: u64)
    ensures
        r == word_or_zero(*il2cpp, at),
{
    if il2cpp.is_32bit {
        match il2cpp.stream.peek_u32_at(at) {
            Ok(v) => v as u64,
            Err(_) => 0,
        }
    } else {
        match il2cpp.stream.peek_u64_at(at) {
            Ok(v) => v,
            Err(_) => 0,
        }
    }
}

/// Where the words of a section end.
pub(crate) fn find_section_end(il2cpp: &Il2Cpp, sec: &SearchSection) -> (r: u64)
    ensures
        r == if section_end(*il2cpp, *sec) >= 0 {
            section_end(*il2cpp, *sec)
        } else {
            0
        },
{
    let len: u64 = il2cpp.stream.len();
    let end: u64 = if sec.offset_end < len {
        sec.offset_end
    } else {
        len
    };
    let size: u64 = if il2cpp.is_32bit {
        4
    } else {
        8
    };
    if end >= size {
        end - size
    } else {
        0
    }
}

/// Adds the usages that stand in the data of the image to the script.
pub fn scan_v27_metadata_usages<F: Fn(&str, NameStyle) -> String>(
    script: &mut ScriptJson,
    executor: &Il2CppExecutor,
    metadata: &Metadata,
    il2cpp: &Il2Cpp,
    names: &HashMap<usize, String>,
    images: &HashMap<usize, String>,
    config: &Config,
    sanitizer: &Sanitizer<F>,
)
    requires
        il2cpp.wf(),
        labels_ready(
            labels(
                *executor,
                *metadata,
                *il2cpp,
                names@,
                images@,
                *config,
                sanitizer.spelling(),
            ),
        ),
    ensures
        final(script)@ == with_sections(
            old(script)@,
            labels(
                *executor,
                *metadata,
                *il2cpp,
                names@,
                images@,
                *config,
                sanitizer.spelling(),
            ),
            il2cpp.data_sections@.len(),
        ),
{
    let ghost c = labels(
        *executor,
        *metadata,
        *il2cpp,
        names@,
        images@,
        *config,
        sanitizer.spelling(),
    );
    let ghost start = script@;
    let size: u64 = if il2cpp.is_32bit {
        4
    } else {
        8
    };
    let mut n: usize = 0;
    while n < il2cpp.data_sections.len()
        invariant
            il2cpp.wf(),
            labels_of(c, *executor, *metadata, *il2cpp, names@, images@, *config, *sanitizer),
            size == io::pointer_len(il2cpp.is_32bit),
            n <= il2cpp.data_sections@.len(),
            script@ == with_sections(start, c, n as nat),
        decreases il2cpp.data_sections@.len() - n,
    {
        let sec = &il2cpp.data_sections[n];
        let end: u64 = find_section_end(il2cpp, sec);
        let len: u64 = il2cpp.stream.len();
        let ghost limit = section_end(*il2cpp, *sec);
        let ghost all = with_words(script@, c, sec.offset as int, limit);
        let mut pos: u64 = sec.offset;
        while pos < end
            invariant
                il2cpp.wf(),
                labels_of(c, *executor, *metadata, *il2cpp, names@, images@, *config, *sanitizer),
                size == io::pointer_len(il2cpp.is_32bit),
                len == il2cpp.stream.bytes@.len(),
                limit <= len - size,
                end == if limit >= 0 {
                    limit
                } else {
                    0
                },
                with_words(script@, c, pos as int, limit) == all,
            decreases end + 8 - pos,
        {
            let word: u64 = read_word(il2cpp, pos);
            if let Some((kind, index)) = decode_token(word) {
                let va: u64 = il2cpp.map_rtva(pos);
                if va != 0 {
                    add_usage(
                        script,
                        executor,
                        metadata,
                        il2cpp,
                        names,
                        images,
                        config,
                        sanitizer,
                        kind,
                        index as usize,
                        il2cpp.get_rva(va),
                        true,
                        Ghost(c),
                    );
                }
            }
            pos = pos + size;
        }
        n = n + 1;
    }
}

} // verus!
