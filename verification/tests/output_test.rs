use il2cpp_dump::config::Config;
use il2cpp_dump::error::Error;
use il2cpp_dump::executor::Il2CppExecutor;
use il2cpp_dump::il2cpp::base::{Il2Cpp, SearchSection, VaSegment};
use il2cpp_dump::il2cpp::enums::{
    Il2CppTypeEnum, FIELD_HAS_RVA, FIELD_LITERAL, FIELD_STATIC, METHOD_STATIC, V24, V24_5, V27, V29,
};
use il2cpp_dump::il2cpp::metadata::Metadata;
use il2cpp_dump::il2cpp::structures::{
    Il2CppFieldDefaultValue, Il2CppFieldDefinition, Il2CppFieldRef, Il2CppGenericContext,
    Il2CppImageDefinition, Il2CppMethodDefinition, Il2CppMethodSpec, Il2CppParameterDefinition,
    Il2CppRGCTXDefinition, Il2CppType, Il2CppTypeDefinition, Il2CppTypeDefinitionSizes,
};
use il2cpp_dump::io::BinaryStream;
use il2cpp_dump::names::{NameMap, NameSet, NameStyle, Sanitizer};
use il2cpp_dump::output::c_types::{
    get_il2cpp_struct_name, parse_scaffolding_type, parse_type, resolve_generic_type_var,
};
use il2cpp_dump::output::cpp_scaffolding::CppScaffolding;
use il2cpp_dump::output::func_entries::{collect_method_info_addresses, write_entries, FuncEntry};
use il2cpp_dump::output::method_info::generate_method_info;
use il2cpp_dump::output::name_mangler::MangledNameBuilder;
use il2cpp_dump::output::script::{collect_all_addresses, list_string_literals};
use il2cpp_dump::output::script_json::ScriptJson;
use il2cpp_dump::output::signature::{
    build_func_signature, build_method_signature, get_method_type_signature,
};
use il2cpp_dump::output::static_field_exporter::{
    dummy_dll_layout_attrs, kind_str, write_dump_cs_field_annotations, StaticFieldCatalog,
    StaticFieldExporter,
};
use il2cpp_dump::il2cpp::field_layout::{analyze_field_layout, StaticFieldKind};
use il2cpp_dump::output::struct_generator::StructGenerator;
use il2cpp_dump::output::struct_info::{
    add_rgctx, add_vtable_methods, StructFieldInfo, StructInfo, StructRGCTXInfo,
};
use il2cpp_dump::output::struct_names::get_unique_name;
use il2cpp_dump::output::struct_text::{emit_structs, needs_struct_prefix, Target};
use il2cpp_dump::output::templates::{TEMPLATE_MAIN_H, TEMPLATE_VCXPROJ};
use il2cpp_dump::output::type_checks::resolve_il2cpp_type_name;
use il2cpp_dump::output::type_groups::{classify_types_for_header, CppTypeGroup};
use il2cpp_dump::output::usages::{add_metadata_usages, decode_token, scan_v27_metadata_usages};
use std::collections::{BTreeSet, HashMap};

const BASE: u64 = 0x10000;

// The types of the image.
const VOID: usize = 0;
const PLAYER: usize = 1;
const ENTITY: usize = 2;
const VEC2: usize = 3;
const COLOR: usize = 4;
const INT: usize = 5;
const FLOAT: usize = 6;
const TEXT: usize = 7;
const PLAYERS: usize = 8;
const OBJECT: usize = 9;
const LIST_OF_INT: usize = 10;
const ITEM: usize = 11;
const ITEMS: usize = 12;
const STATIC_INT: usize = 13;
const INT_POINTER: usize = 14;
const LITERAL_FLOAT: usize = 15;
const VEC2_REF: usize = 16;
const LIST: usize = 17;
const METHOD_ITEM: usize = 18;

const LIST_CLASS: u64 = BASE + 0x100;
const LIST_INST: u64 = BASE + 0x200;

fn spell(name: &str, style: NameStyle) -> String {
    let plain = |c: char| c.is_ascii_alphanumeric() || c == '_';
    match style {
        NameStyle::Cpp => name.chars().map(|c| if plain(c) { c } else { '_' }).collect(),
        NameStyle::CppDollar => {
            name.chars().map(|c| if plain(c) || c == '$' { c } else { '_' }).collect()
        }
        NameStyle::Mangled => name.chars().filter(|c| plain(*c)).collect(),
    }
}

fn simple(kind: u8) -> Il2CppType {
    Il2CppType { type_enum: kind, klass_index: 99, ..Il2CppType::default() }
}

fn of_class(kind: u8, klass_index: usize) -> Il2CppType {
    Il2CppType { type_enum: kind, klass_index, ..Il2CppType::default() }
}

fn of_type(kind: u8, inner: usize) -> Il2CppType {
    Il2CppType { datapoint: inner as u64, ..simple(kind) }
}

fn types() -> Vec<Il2CppType> {
    vec![
        simple(0x01),
        of_class(0x12, 0),
        of_class(0x12, 1),
        of_class(0x11, 2),
        of_class(0x11, 3),
        of_class(0x08, 5),
        simple(0x0C),
        simple(0x0E),
        of_type(0x1D, PLAYER),
        simple(0x1C),
        Il2CppType { generic_class: LIST_CLASS, ..of_class(0x15, 4) },
        Il2CppType { generic_param_num: Some(0), ..simple(0x13) },
        of_type(0x1D, ITEM),
        Il2CppType { attrs: FIELD_STATIC, ..of_class(0x08, 5) },
        of_type(0x0F, INT),
        Il2CppType { attrs: FIELD_LITERAL | FIELD_STATIC, ..simple(0x0C) },
        Il2CppType { byref: 1, ..of_class(0x11, 2) },
        of_class(0x12, 4),
        Il2CppType { generic_param_num: Some(0), ..simple(0x1E) },
    ]
}

fn definition(namespace: &str, name: &str, index: i32) -> Il2CppTypeDefinition {
    Il2CppTypeDefinition {
        name_index: 100 + index,
        namespace_index: 7,
        name: Ok(name.to_string()),
        namespace: Ok(namespace.to_string()),
        is_value_type: false,
        is_enum: false,
        byval_type_index: 0,
        element_type_index: 0,
        declaring_type_index: -1,
        parent_index: OBJECT as i32,
        field_start: 0,
        field_count: 0,
        method_start: 0,
        method_count: 0,
        vtable_start: 0,
        vtable_count: 0,
    }
}

fn field(name: &str, type_index: usize, token: u32) -> Il2CppFieldDefinition {
    Il2CppFieldDefinition { name: Ok(name.to_string()), type_index, token }
}

fn method(
    name: &str,
    declaring_type: usize,
    return_type: usize,
    parameters: (usize, usize),
    token: u32,
) -> Il2CppMethodDefinition {
    Il2CppMethodDefinition {
        name: Ok(name.to_string()),
        declaring_type,
        return_type,
        parameter_start: parameters.0,
        parameter_count: parameters.1,
        generic_container_index: -1,
        method_index: 0,
        token,
        flags: 0,
        slot: 0xFFFF,
    }
}

fn metadata() -> Metadata {
    let mut player = definition("Game", "Player", 0);
    player.parent_index = ENTITY as i32;
    player.byval_type_index = PLAYER;
    player.field_count = 6;
    player.method_count = 2;
    player.vtable_count = 1;
    let mut entity = definition("Game", "Entity", 1);
    entity.byval_type_index = ENTITY;
    entity.field_start = 6;
    entity.field_count = 2;
    entity.method_start = 4;
    let mut vec2 = definition("Game", "Vec2", 2);
    vec2.is_value_type = true;
    vec2.byval_type_index = VEC2;
    vec2.field_start = 8;
    vec2.field_count = 2;
    vec2.method_start = 2;
    vec2.method_count = 1;
    let mut color = definition("", "Color", 3);
    color.is_value_type = true;
    color.is_enum = true;
    color.element_type_index = INT;
    let mut list = definition("System", "List`1", 4);
    list.byval_type_index = LIST;
    list.field_start = 10;
    list.field_count = 2;
    list.method_start = 3;
    list.method_count = 1;
    let mut int = definition("System", "Int32", 5);
    int.is_value_type = true;
    let mut update = method("Update", 0, VOID, (0, 1), 0x0600_0001);
    update.slot = 2;
    let mut max = method("Max", 2, FLOAT, (1, 1), 0x0600_0003);
    max.flags = METHOD_STATIC;
    let parameter = |name: &str, type_index: usize| Il2CppParameterDefinition {
        name: Ok(name.to_string()),
        type_index,
    };
    Metadata {
        version: V24_5,
        data: Vec::new(),
        default_value_data_offset: 0,
        default_value_data_size: 0,
        image_defs: vec![Il2CppImageDefinition {
            name: Ok("Game.dll".to_string()),
            type_start: 0,
            type_count: 6,
        }],
        type_defs: vec![player, entity, vec2, color, list, int],
        method_defs: vec![
            update,
            method(".ctor", 0, VOID, (0, 0), 0x0600_0002),
            max,
            method("Add", 4, VOID, (2, 1), 0x0600_0004),
        ],
        parameter_defs: vec![
            parameter("dt", FLOAT),
            parameter("v", VEC2_REF),
            parameter("item", ITEM),
            parameter("first", TEXT),
            parameter("second", TEXT),
        ],
        field_defs: vec![
            field("name", TEXT, 1),
            field("pos", VEC2, 2),
            field("friends", PLAYERS, 3),
            field("items", LIST_OF_INT, 4),
            field("total", STATIC_INT, 5),
            field("MAX", LITERAL_FLOAT, 6),
            field("id", INT, 7),
            field("color", COLOR, 8),
            field("x", FLOAT, 9),
            field("x", FLOAT, 10),
            field("_items", ITEMS, 11),
            field("_size", INT, 12),
        ],
        field_refs: vec![Il2CppFieldRef { type_index: ENTITY, field_index: 1 }],
        vtable_methods: vec![0x6000_0000],
        metadata_usages: Vec::new(),
        string_literals: vec![
            Ok("Hello, world".to_string()),
            Err(Error::OutOfBounds { offset: 1, size: 2 }),
            Ok("x".to_string()),
        ],
        field_default_values: HashMap::new(),
    }
}

fn image(version: u32) -> Il2Cpp {
    let mut bytes = vec![0u8; 0x1000];
    let words = [
        (0x100, 0),
        (0x108, LIST_INST),
        (0x200, 1),
        (0x208, BASE + 0x300),
        (0x300, 0x20000u64),
    ];
    for (at, word) in words {
        bytes[at..at + 8].copy_from_slice(&word.to_le_bytes());
    }
    let stream =
        BinaryStream { bytes, version, is_32bit: false, image_base: BASE, max_array_elems: 100 };
    let mut image = Il2Cpp::new(stream, version, false);
    image.image_base = BASE;
    image.va_segments.push(VaSegment { vaddr: BASE, memsz: 0xFFF, offset: 0 });
    image.types = types();
    image.type_dic.insert(0x20000, INT);
    image.code_gen_module_method_pointers.insert(
        "Game.dll".to_string(),
        vec![BASE + 0x500, BASE + 0x600, BASE + 0x700, 0],
    );
    image.method_specs = vec![Il2CppMethodSpec { method_definition_index: 3 }];
    image.method_definition_method_specs.insert(3, vec![0]);
    image.method_spec_generic_method_pointers.insert(0, BASE + 0x400);
    image
}

fn texts(list: &[&str]) -> Vec<String> {
    list.iter().map(|s| s.to_string()).collect()
}

fn executor() -> Il2CppExecutor {
    let names = texts(&[
        "void",
        "Game.Player",
        "Game.Entity",
        "Game.Vec2",
        "Color",
        "int",
        "float",
        "string",
        "Game.Player[]",
        "object",
        "System.List<int>",
        "T",
        "T[]",
        "int",
        "int*",
        "float",
        "Game.Vec2",
        "System.List<T>",
        "M",
    ]);
    let mut generic_class_defs: HashMap<u64, usize> = HashMap::new();
    generic_class_defs.insert(LIST_CLASS, 4);
    let mut type_rgctxs: HashMap<usize, Vec<Il2CppRGCTXDefinition>> = HashMap::new();
    type_rgctxs.insert(
        4,
        vec![Il2CppRGCTXDefinition {
            rgctx_type: 2,
            def_data: Some(INT as i32),
            constrained_data: None,
            data_va: 0,
            type_index: INT as i32,
        }],
    );
    Il2CppExecutor {
        type_def_names: texts(&[
            "Game.Player",
            "Game.Entity",
            "Game.Vec2",
            "Color",
            "System.List`1",
            "System.Int32",
        ]),
        short_type_names: names.clone(),
        type_names: names,
        method_spec_names: vec![("System.List<int>".to_string(), "Add".to_string())],
        method_spec_contexts: vec![Il2CppGenericContext { class_inst: LIST_INST, method_inst: 0 }],
        generic_class_defs,
        custom_attribute_generators: vec![BASE + 0x900],
        type_rgctxs,
        method_rgctxs: HashMap::new(),
    }
}

fn config() -> Config {
    Config {
        mangle_names: false,
        enhanced_ida_metadata: false,
        dump_field_rva_data: true,
        dump_static_field_metadata: true,
        max_field_rva_dump_bytes: 64,
        use_topological_sort: false,
        compiler_layout: "MSVC".to_string(),
        generate_cpp_scaffold: true,
        generate_unity_headers: true,
    }
}

fn struct_names() -> HashMap<usize, String> {
    StructGenerator::build_struct_name_dic_pub(&executor(), &metadata(), &Sanitizer::new(spell))
}

fn list_context() -> Option<Il2CppGenericContext> {
    Some(Il2CppGenericContext { class_inst: LIST_INST, method_inst: 0 })
}

// Names.

#[test]
fn struct_names_are_unique() {
    let mut set = NameSet::new();
    assert_eq!(get_unique_name("A", &mut set), "A");
    assert_eq!(get_unique_name("A", &mut set), "A_1");
    assert_eq!(get_unique_name("A_1", &mut set), "A_1_1");
    assert_eq!(get_unique_name("A", &mut set), "A_2");
}

#[test]
fn every_listed_type_has_a_struct_name() {
    let names = struct_names();
    assert_eq!(names.len(), 6);
    assert_eq!(names[&0], "Game_Player");
    assert_eq!(names[&4], "System_List_1");
    let mut executor = executor();
    executor.type_def_names[1] = "Game+Player".to_string();
    let names =
        StructGenerator::build_struct_name_dic_pub(&executor, &metadata(), &Sanitizer::new(spell));
    assert_eq!((names[&0].as_str(), names[&1].as_str()), ("Game_Player", "Game_Player_1"));
    let images = StructGenerator::build_type_def_image_names_pub(&metadata());
    assert_eq!(images.len(), 6);
    assert_eq!(images[&5], "Game.dll");
}

#[test]
fn image_names_need_no_type_definitions() {
    let mut metadata = metadata();
    metadata.type_defs.clear();
    metadata.image_defs = vec![
        Il2CppImageDefinition { name: Ok("a.dll".to_string()), type_start: 1, type_count: 3 },
        Il2CppImageDefinition {
            name: Err(Error::OutOfBounds { offset: 1, size: 2 }),
            type_start: 3,
            type_count: 2,
        },
    ];
    let images = StructGenerator::build_type_def_image_names_pub(&metadata);
    let mut listed: Vec<(usize, &str)> = images.iter().map(|(k, v)| (*k, v.as_str())).collect();
    listed.sort();
    assert_eq!(listed, vec![(1, "a.dll"), (2, "a.dll"), (3, ""), (4, "")]);
    assert_eq!(metadata.type_jobs().len(), 5);
}

#[test]
fn virtual_methods_replace_a_table_and_contexts_extend_a_list() {
    let (executor, metadata, image) = (executor(), metadata(), image(V24_5));
    let sanitizer = Sanitizer::new(spell);
    let mut info = struct_info("A");
    info.vtable_methods = vec![Some("Old".to_string())];
    add_vtable_methods(&metadata, &image, &metadata.type_defs[1], &sanitizer, &mut info);
    assert_eq!(info.vtable_methods, vec![Some("Old".to_string())]);
    add_vtable_methods(&metadata, &image, &metadata.type_defs[0], &sanitizer, &mut info);
    assert_eq!(info.vtable_methods, vec![None, None, Some("Update".to_string())]);
    add_rgctx(&executor, &image, 4, &sanitizer, &mut info);
    add_rgctx(&executor, &image, 0, &sanitizer, &mut info);
    add_rgctx(&executor, &image, 4, &sanitizer, &mut info);
    let labels: Vec<Option<&str>> = info.rgctxs.iter().map(|r| r.class_label.as_deref()).collect();
    assert_eq!(labels, vec![Some("int"), Some("int")]);
}

#[test]
fn generic_parameters_are_resolved() {
    let image = image(V24_5);
    assert_eq!(
        StructGenerator::resolve_generic_type_var_pub(&image, LIST_INST, 0).map(|t| t.type_enum),
        Some(0x08)
    );
    assert!(resolve_generic_type_var(&image, LIST_INST, 1).is_none());
    assert!(resolve_generic_type_var(&image, 0, 0).is_none());
    assert!(resolve_generic_type_var(&image, 0x99, 0).is_none());
}

#[test]
fn types_as_c_types() {
    let (names, executor, metadata, image) =
        (struct_names(), executor(), metadata(), image(V24_5));
    let c = |index: usize, ctx: Option<Il2CppGenericContext>| {
        parse_type(&image.types[index], &names, &executor, &metadata, &image, ctx)
    };
    for (index, text) in [
        (VOID, "void"),
        (PLAYER, "Game_Player_o*"),
        (VEC2, "Game_Vec2_o"),
        (COLOR, "int32_t"),
        (TEXT, "System_String_o*"),
        (PLAYERS, "Game_Player_array*"),
        (OBJECT, "Il2CppObject*"),
        (LIST_OF_INT, "System_List_1_o*"),
        (ITEM, "Il2CppObject*"),
        (ITEMS, "System_Object_array*"),
        (INT_POINTER, "int32_t*"),
    ] {
        assert_eq!(c(index, None), text);
    }
    assert_eq!(c(ITEM, list_context()), "int32_t");
    assert_eq!(c(METHOD_ITEM, list_context()), "int32_t");
    assert_eq!(c(ITEMS, list_context()), "System_Int32_array*");
    let of_method = Some(Il2CppGenericContext { class_inst: 0, method_inst: LIST_INST });
    assert_eq!(c(METHOD_ITEM, of_method), "int32_t");
    assert_eq!(c(ITEM, of_method), "Il2CppObject*");
    let scaffold = |index: usize| {
        parse_scaffolding_type(&image.types[index], &names, &executor, &metadata, &image, None)
    };
    assert_eq!(scaffold(VEC2), "Game_Vec2");
    assert_eq!(scaffold(PLAYERS), "Il2CppArray*");
    assert_eq!(scaffold(PLAYER), "Game_Player_o*");
    let name = |index: usize| get_il2cpp_struct_name(&image.types[index], &names, &image, None);
    assert_eq!(name(PLAYERS), "Game_Player_array");
    assert_eq!(name(INT_POINTER), "System_Int32");
    assert_eq!(name(LIST_OF_INT), "System_List_1");
    assert_eq!(name(TEXT), "System_Object");
}

// The header.

fn field_info(type_text: &str, name: &str, by_value: bool, custom: bool) -> StructFieldInfo {
    StructFieldInfo {
        field_type_name: type_text.to_string(),
        field_name: name.to_string(),
        is_value_type: by_value,
        is_custom_type: custom,
    }
}

fn struct_info(name: &str) -> StructInfo {
    StructInfo {
        name: name.to_string(),
        is_value_type: false,
        parent: None,
        fields: Vec::new(),
        static_fields: Vec::new(),
        vtable_methods: Vec::new(),
        rgctxs: Vec::new(),
    }
}

#[test]
fn primitive_types_need_no_prefix() {
    for name in ["int32_t", "void*", "Il2CppChar", "uintptr_t**"] {
        assert!(!needs_struct_prefix(name));
    }
    assert!(needs_struct_prefix("Game_Player_o*") && needs_struct_prefix("Il2CppObject*"));
}

#[test]
fn what_a_struct_needs_comes_first() {
    let mut a = struct_info("A");
    a.parent = Some("B".to_string());
    a.fields = vec![field_info("C_o", "c", true, true), field_info("Gone_o", "g", true, true)];
    let mut b = struct_info("B");
    b.fields = vec![field_info("int32_t", "n", false, false), field_info("A_o*", "a", false, true)];
    let mut c = struct_info("C");
    c.is_value_type = true;
    let list = vec![a, b, c];
    let plain = Target { gcc: false, is_32bit: false, is_pe: false };
    let text = emit_structs(&list, plain);
    let order: Vec<&str> = text
        .lines()
        .filter(|l| l.starts_with("struct ") && (l.ends_with("_Fields {") || l.contains(" : ") || l.contains("Gone")))
        .collect();
    assert_eq!(
        order,
        vec![
            "struct B_Fields {",
            "struct C_Fields {",
            "struct Gone_o {",
            "struct A_Fields : B_Fields {"
        ]
    );
    assert_eq!(text.matches("struct B_o {").count(), 1);
    assert!(text.contains("struct Gone_o {\n\tuint8_t _stub;\n};\n"));
    let gcc = emit_structs(&list, Target { gcc: true, is_32bit: false, is_pe: true });
    assert!(gcc.contains(
        "struct __declspec(align(8)) A_Fields {\n\tint32_t n;\n\tstruct A_o* a;\n\tstruct C_o c;\n\tstruct Gone_o g;\n};\n"
    ));
    assert!(gcc.contains("struct C_Fields {\n};\n"));
    let narrow = emit_structs(&list, Target { gcc: false, is_32bit: true, is_pe: true });
    assert!(narrow.contains("struct __declspec(align(4)) B_Fields {\n"));
}

#[test]
fn structures_that_need_each_other_are_declared_once() {
    let mut a = struct_info("A");
    a.is_value_type = true;
    a.fields = vec![field_info("B_o", "b", true, true)];
    a.static_fields = vec![field_info("A_o", "zero", true, true)];
    let mut b = struct_info("B");
    b.is_value_type = true;
    b.static_fields = vec![field_info("A_o", "a", true, true)];
    let text = emit_structs(&vec![a, b], Target { gcc: false, is_32bit: false, is_pe: false });
    let order: Vec<&str> =
        text.lines().filter(|l| l.starts_with("struct ") && l.ends_with("_o {")).collect();
    assert_eq!(order, vec!["struct B_o {", "struct A_o {"]);
}

#[test]
fn generic_classes_of_one_name_share_a_structure() {
    let mut image = image(V24_5);
    let second = BASE + 0x140;
    let words = [(0x140, 0), (0x148, LIST_INST)];
    for (at, word) in words {
        image.stream.bytes[at..at + 8].copy_from_slice(&word.to_le_bytes());
    }
    image.types.push(Il2CppType { generic_class: second, ..of_class(0x15, 4) });
    let mut executor = executor();
    executor.generic_class_defs.insert(second, 4);
    executor.type_names.push("System.List<int>".to_string());
    executor.short_type_names.push("System.List<int>".to_string());
    let parts = StructGenerator::collect_header(
        &executor,
        &metadata(),
        &image,
        &Sanitizer::new(spell),
        8,
    );
    let names: Vec<&str> = parts.structs.iter().map(|s| s.name.as_str()).collect();
    assert_eq!(
        names,
        vec![
            "Game_Player",
            "Game_Entity",
            "Game_Vec2",
            "Color",
            "System_List_1",
            "System_Int32",
            "System_List_int_"
        ]
    );
}

#[test]
fn generic_classes_that_fields_lead_to_are_found() {
    let mut image = image(V24_5);
    let mut executor = executor();
    let mut metadata = metadata();
    let inner = BASE + 0x140;
    let words = [(0x148, BASE + 0x180), (0x180, 1), (0x188, BASE + 0x190), (0x190, 0x20008)];
    for (at, word) in words {
        image.stream.bytes[at as usize..at as usize + 8].copy_from_slice(&u64::to_le_bytes(word));
    }
    image.type_dic.insert(0x20008, FLOAT);
    let nested = image.types.len();
    image.types.push(Il2CppType { generic_class: inner, ..of_class(0x15, 4) });
    executor.generic_class_defs.insert(inner, 4);
    executor.type_names.push("System.List<float>".to_string());
    executor.short_type_names.push("System.List<float>".to_string());
    metadata.field_defs[11].type_index = nested;
    let parts = StructGenerator::collect_header(
        &executor,
        &metadata,
        &image,
        &Sanitizer::new(spell),
        8,
    );
    let last = parts.structs.last().unwrap();
    assert_eq!(last.name, "System_List_float_");
    assert_eq!(last.fields[1].field_type_name, "System_List_float__o*");
    let of_int = parts.structs.iter().find(|s| s.name == "System_List_int_").unwrap();
    assert_eq!(of_int.fields[1].field_type_name, "System_List_float__o*");
    assert_eq!(parts.structs[4].fields[1].field_type_name, "System_List_1_o*");
}

const CLASS_TAIL: &str = "\tIl2CppClass_2 _2;\n\tVirtualInvokeData vtable[32];\n};\n";

fn class_text(name: &str, rgctx: &str) -> String {
    format!("struct {name}_c {{\n\tIl2CppClass_1 _1;\n\tvoid* static_fields;\n\t{rgctx} rgctx_data;\n{CLASS_TAIL}")
}

fn object_text(name: &str) -> String {
    format!("struct {name}_o {{\n\t{name}_c *klass;\n\tvoid *monitor;\n\t{name}_Fields fields;\n}};\n")
}

fn value_text(name: &str) -> String {
    format!("struct {name}_o {{\n\t{name}_Fields fields;\n}};\n")
}

fn array_text(name: &str, item: &str) -> String {
    format!(
        "struct {name}_array {{\n\tIl2CppObject obj;\n\tIl2CppArrayBounds *bounds;\n\til2cpp_array_size_t max_length;\n\t{item} m_Items[65535];\n}};\n"
    )
}

fn plain_rgctx() -> &'static str {
    "Il2CppRGCTXData*"
}

fn expected_structs() -> String {
    let mut out = String::new();
    out += "struct Game_Entity_Fields {\n\tint32_t id;\n\tint32_t color;\n};\n";
    out += &class_text("Game_Entity", plain_rgctx());
    out += &object_text("Game_Entity");
    out += "struct Game_Vec2_Fields {\n\tfloat x;\n\tfloat x_1;\n};\n";
    out += &class_text("Game_Vec2", plain_rgctx());
    out += &value_text("Game_Vec2");
    out += "struct Game_Player_Fields : Game_Entity_Fields {\n\tstruct System_String_o* name;\n\tstruct Game_Vec2_o pos;\n\tstruct Game_Player_array* friends;\n\tstruct System_List_1_o* items;\n};\n";
    out += "struct Game_Player_VTable {\n\tVirtualInvokeData _0_unknown;\n\tVirtualInvokeData _1_unknown;\n\tVirtualInvokeData _2_Update;\n};\n";
    out += "struct Game_Player_c {\n\tIl2CppClass_1 _1;\n\tstruct Game_Player_StaticFields* static_fields;\n\tIl2CppRGCTXData* rgctx_data;\n\tIl2CppClass_2 _2;\n\tGame_Player_VTable vtable;\n};\n";
    out += &object_text("Game_Player");
    out += "struct Game_Player_StaticFields {\n\tint32_t total;\n};\n";
    out += "struct Color_Fields {\n};\n";
    out += &class_text("Color", plain_rgctx());
    out += &value_text("Color");
    out += "struct System_List_1_Fields {\n\tstruct System_Object_array* _items;\n\tint32_t _size;\n};\n";
    out += "struct System_List_1_RGCTXs {\n\tIl2CppClass* _0_int;\n};\n";
    out += &class_text("System_List_1", "System_List_1_RGCTXs*");
    out += &object_text("System_List_1");
    out += "struct System_Int32_Fields {\n};\n";
    out += &class_text("System_Int32", plain_rgctx());
    out += &value_text("System_Int32");
    out += "struct System_List_int__Fields {\n\tstruct System_Int32_array* _items;\n\tint32_t _size;\n};\n";
    out += &class_text("System_List_int_", plain_rgctx());
    out += &object_text("System_List_int_");
    out
}

#[test]
fn the_header_holds_structs_arrays_and_method_infos() {
    let header = StructGenerator::build_header(
        &executor(),
        &metadata(),
        &image(V24_5),
        &config(),
        &Sanitizer::new(spell),
        8,
        "GENERIC\n",
        Some("VERSION\n"),
        Some("ORDERED\n"),
    );
    let arrays = array_text("Game_Player", "Game_Player_o*")
        + &array_text("System_Object", "Il2CppObject*")
        + &array_text("System_Int32", "int32_t");
    let infos = generate_method_info("MethodInfo_400", "System_List_1", &Vec::new(), V24_5);
    let head = "#include <stdint.h>\n#include <stdbool.h>\n\nGENERIC\nVERSION\n";
    assert_eq!(header, format!("{head}{}{arrays}{infos}", expected_structs()));
    let mut sorted = config();
    sorted.use_topological_sort = true;
    let header = StructGenerator::build_header(
        &executor(),
        &metadata(),
        &image(V24_5),
        &sorted,
        &Sanitizer::new(spell),
        8,
        "GENERIC\n",
        Some("VERSION\n"),
        Some("ORDERED\n"),
    );
    assert_eq!(header, format!("{head}ORDERED\n{arrays}{infos}"));
}

#[test]
fn a_version_without_a_header_has_none() {
    let header = StructGenerator::build_header(
        &executor(),
        &metadata(),
        &image(V24_5),
        &config(),
        &Sanitizer::new(spell),
        8,
        "GENERIC\n",
        None,
        None,
    );
    assert_eq!(header, "");
}

#[test]
fn method_infos_depend_on_the_version() {
    let old = generate_method_info("MI", "T", &Vec::new(), V24);
    assert_eq!(
        old,
        "struct MI {\n\tIl2CppMethodPointer methodPointer;\n\tvoid* invoker_method;\n\tconst char* name;\n\tT_c *declaring_type;\n\tconst Il2CppType *return_type;\n\tconst void* parameters;\n\tconst Il2CppRGCTXData* rgctx_data;\n\tunion\n\t{\n\t\tconst void* genericMethod;\n\t\tconst void* genericContainer;\n\t};\n\tint32_t customAttributeIndex;\n\tuint32_t token;\n\tuint16_t flags;\n\tuint16_t iflags;\n\tuint16_t slot;\n\tuint8_t parameters_count;\n\tuint8_t bitflags;\n};\n"
    );
    let entry = |rgctx_type: i64, label: &str| StructRGCTXInfo {
        rgctx_type,
        type_label: None,
        class_label: None,
        method_label: Some(label.to_string()),
    };
    let new = generate_method_info("MI", "T", &vec![entry(3, "Run"), entry(1, "x"), entry(9, "y")], V29);
    assert_eq!(
        new,
        "struct MI_RGCTXs {\n\tMethodInfo* _0_Run;\n\tIl2CppType* _1_unknown;\n};\nstruct MI {\n\tIl2CppMethodPointer methodPointer;\n\tIl2CppMethodPointer virtualMethodPointer;\n\tInvokerMethod invoker_method;\n\tconst char* name;\n\tT_c *klass;\n\tconst Il2CppType *return_type;\n\tconst Il2CppType** parameters;\n\tconst MI_RGCTXs* rgctx_data;\n\tunion\n\t{\n\t\tconst void* genericMethod;\n\t\tconst void* genericContainerHandle;\n\t};\n\tuint32_t token;\n\tuint16_t flags;\n\tuint16_t iflags;\n\tuint16_t slot;\n\tuint8_t parameters_count;\n\tuint8_t bitflags;\n};\n"
    );
}

#[test]
fn types_are_grouped_by_their_use() {
    let mut metadata = metadata();
    metadata.metadata_usages = vec![(1, vec![(0, 1 + 8 * 1), (1, 2 + 8 * PLAYERS as u32)])];
    let mut special: HashMap<u64, String> = HashMap::new();
    special.insert(LIST_CLASS, "System_List_int_".to_string());
    let image = image(V24_5);
    let names = struct_names();
    let groups = classify_types_for_header(&metadata, &image, &names, &special, 8);
    assert_eq!(groups.get("Game_Vec2"), Some(&CppTypeGroup::TypesFromMethods));
    assert_eq!(groups.get("Game_Entity"), Some(&CppTypeGroup::TypesFromUsages));
    assert_eq!(groups.get("Game_Player"), Some(&CppTypeGroup::TypesFromUsages));
    assert_eq!(groups.get("System_List_int_"), Some(&CppTypeGroup::UnusedConcreteTypes));
    assert_eq!(groups.len(), 7);
    metadata.method_defs[2].generic_container_index = 0;
    let groups = classify_types_for_header(&metadata, &image, &names, &special, 8);
    assert_eq!(groups.get("Game_Vec2"), Some(&CppTypeGroup::TypesFromGenericMethods));
    let name = |index: usize| resolve_il2cpp_type_name(&image.types[index], &image, &names, &special);
    assert_eq!(name(PLAYERS), Some("Game_Player".to_string()));
    assert_eq!(name(LIST_OF_INT), Some("System_List_int_".to_string()));
    assert_eq!(name(INT), None);
}

// Signatures and symbols.

#[test]
fn type_signatures_have_a_letter_per_type() {
    let list = vec![
        Il2CppTypeEnum::Void,
        Il2CppTypeEnum::Boolean,
        Il2CppTypeEnum::U8,
        Il2CppTypeEnum::R4,
        Il2CppTypeEnum::R8,
        Il2CppTypeEnum::Class,
    ];
    assert_eq!(get_method_type_signature(&list), "vijfdi");
}

#[test]
fn method_signatures() {
    let (names, executor, metadata) = (struct_names(), executor(), metadata());
    let sanitizer = Sanitizer::new(spell);
    let mut image = image(V24_5);
    let of = |image: &Il2Cpp, index: usize, ctx: Option<Il2CppGenericContext>| {
        let m = &metadata.method_defs[index];
        build_method_signature(
            &executor,
            &metadata,
            image,
            m,
            &metadata.type_defs[m.declaring_type],
            "A$$B",
            &names,
            ctx,
            &sanitizer,
        )
    };
    let pair = |a: &str, b: &str| (a.to_string(), b.to_string());
    assert_eq!(
        of(&image, 0, None),
        pair("void A__B (Game_Player_o* __this, float dt, const MethodInfo* method);", "vifi")
    );
    assert_eq!(
        of(&image, 2, None),
        pair("float A__B (Game_Vec2_o* v, const MethodInfo* method);", "fii")
    );
    assert_eq!(
        of(&image, 3, list_context()),
        pair("void A__B (System_List_1_o* __this, int32_t item, const MethodInfo* method);", "viii")
    );
    image.version = V24;
    assert_eq!(
        of(&image, 2, None),
        pair("float A__B (Il2CppObject* __this, Game_Vec2_o* v, const MethodInfo* method);", "fiii")
    );
    let m = &metadata.method_defs[2];
    assert_eq!(
        build_func_signature(
            &executor,
            &metadata,
            &image,
            m,
            &metadata.type_defs[2],
            2,
            &names,
            None,
            &sanitizer
        ),
        pair("float", "Il2CppObject* __this, Game_Vec2* v, const MethodInfo* method")
    );
}

#[test]
fn mangled_names() {
    let (executor, metadata, image) = (executor(), metadata(), image(V24_5));
    let sanitizer = Sanitizer::new(spell);
    let mangle = |td: usize, m: &Il2CppMethodDefinition| {
        MangledNameBuilder::mangle_method(
            &executor,
            &metadata,
            &image,
            &metadata.type_defs[td],
            td,
            m,
            &sanitizer,
        )
    };
    assert_eq!(mangle(0, &metadata.method_defs[0]), "_ZN4Game6Player6UpdateEf");
    assert_eq!(mangle(0, &metadata.method_defs[1]), "_ZN4Game6PlayerC1Ev");
    assert_eq!(mangle(2, &metadata.method_defs[2]), "_ZN4Game4Vec23MaxERS0_");
    assert_eq!(mangle(0, &method(".cctor", 0, VOID, (0, 0), 0)), "_ZN4Game6Player5cctorEv");
    assert_eq!(
        mangle(1, &method("Say", 1, VOID, (3, 2), 0)),
        "_ZN4Game6Entity3SayEN6System6StringES2_"
    );
    let mut generic = method("Make", 1, PLAYERS, (0, 0), 0);
    generic.generic_container_index = 0;
    assert_eq!(mangle(1, &generic), "_ZN4Game6Entity4MakeEA_N4Game6PlayerE");
    let player = &metadata.type_defs[0];
    assert_eq!(
        MangledNameBuilder::mangle_method_info(
            &executor,
            &metadata,
            &image,
            player,
            0,
            &metadata.method_defs[0],
            &sanitizer
        ),
        "_ZN10MethodInfo4Game6Player6UpdateEv"
    );
    assert_eq!(
        MangledNameBuilder::mangle_type_info(&executor, &metadata, &image, player, 0, &sanitizer),
        "_ZN8TypeInfo4Game6PlayerE"
    );
    assert_eq!(
        MangledNameBuilder::mangle_type_ref(&executor, &metadata, &image, player, 0, &sanitizer),
        "_ZN7TypeRef4Game6PlayerE"
    );
    assert_eq!(
        MangledNameBuilder::mangle_method_spec(
            &executor,
            &metadata,
            &image,
            &metadata.type_defs[4],
            4,
            &metadata.method_defs[3],
            &list_context().unwrap(),
            &sanitizer
        ),
        "_ZN6System4ListIiE3AddEv"
    );
}

#[test]
fn nested_and_generic_types_in_mangled_names() {
    let (executor, mut metadata, image) = (executor(), metadata(), image(V24_5));
    metadata.type_defs[3].declaring_type_index = PLAYER as i32;
    metadata.parameter_defs[0].type_index = COLOR;
    metadata.parameter_defs[1].type_index = LIST_OF_INT;
    let name = MangledNameBuilder::mangle_method(
        &executor,
        &metadata,
        &image,
        &metadata.type_defs[5],
        5,
        &method("Of", 5, VOID, (0, 2), 0),
        &Sanitizer::new(spell),
    );
    assert_eq!(name, "_ZN6System5Int322OfEN6Player5ColorEN6System4ListIiEE");
}

// The script.

#[test]
fn the_script_lists_methods_and_addresses() {
    let (executor, metadata, image) = (executor(), metadata(), image(V24_5));
    let script = StructGenerator::build_script_json(
        &executor,
        &metadata,
        &image,
        &config(),
        None,
        &Sanitizer::new(spell),
    );
    let listed: Vec<(u64, &str, &str)> = script
        .script_methods
        .iter()
        .map(|m| (m.address, m.name.as_str(), m.type_signature.as_str()))
        .collect();
    assert_eq!(
        listed,
        vec![
            (0x500, "Game.Player$$Update", "vifi"),
            (0x600, "Game.Player$$.ctor", "vii"),
            (0x700, "Game.Vec2$$Max", "fii"),
            (0x400, "System.List<int>$$Add", "viii"),
        ]
    );
    assert_eq!(
        script.script_methods[3].signature,
        "void System_List_int___Add (System_List_1_o* __this, int32_t item, const MethodInfo* method);"
    );
    assert!(script.script_methods[0].group.is_none());
    assert_eq!(script.addresses, vec![0x400, 0x500, 0x600, 0x700, 0x900]);
}

#[test]
fn the_script_can_hold_mangled_names_and_groups() {
    let (executor, metadata, image) = (executor(), metadata(), image(V24_5));
    let mut config = config();
    config.mangle_names = true;
    config.enhanced_ida_metadata = true;
    let script = StructGenerator::build_script_json(
        &executor,
        &metadata,
        &image,
        &config,
        None,
        &Sanitizer::new(spell),
    );
    let first = &script.script_methods[0];
    assert_eq!(first.name, "_ZN4Game6Player6UpdateEf");
    assert_eq!(first.dotnet_signature.as_deref(), Some("Game.Player::Update()"));
    assert_eq!(first.group.as_deref(), Some("Game/Game/Player"));
    assert_eq!(script.script_methods[3].name, "_ZN6System4ListIiE3AddEv");
}

#[test]
fn addresses_come_from_the_tables_of_the_version() {
    let executor = executor();
    let mut image = image(V24_5);
    image.method_pointers = vec![BASE + 0x10];
    image.invoker_pointers = vec![BASE + 0x20, 0];
    image.reverse_pinvoke_wrappers = vec![BASE + 0x30];
    image.unresolved_virtual_call_pointers = vec![BASE + 0x40];
    let collect = |image: &Il2Cpp| {
        let mut set: BTreeSet<u64> = BTreeSet::new();
        collect_all_addresses(&mut set, &executor, image);
        set.into_iter().collect::<Vec<u64>>()
    };
    assert_eq!(collect(&image), vec![0x20, 0x30, 0x40, 0x500, 0x600, 0x700, 0x900]);
    image.version = V29;
    assert_eq!(collect(&image), vec![0x20, 0x30, 0x40, 0x500, 0x600, 0x700]);
    image.version = 2100;
    assert_eq!(collect(&image), vec![0x10, 0x20, 0x900]);
}

#[test]
fn string_literals_that_can_be_read_are_listed() {
    let list = list_string_literals(&metadata());
    let listed: Vec<(usize, &str)> = list.iter().map(|e| (e.index, e.value.as_str())).collect();
    assert_eq!(listed, vec![(0, "Hello, world"), (2, "x")]);
    assert_eq!(StructGenerator::build_string_literal_json(&metadata()).len(), 2);
}

#[test]
fn tokens_are_decoded() {
    assert_eq!(decode_token(0x2000_000B), Some((1, 5)));
    assert_eq!(decode_token(0xE000_0003), Some((7, 1)));
    for word in [0x2000_000A, 0x3, 0, 0xFFFF_FFFF, 0x1_2000_000B] {
        assert_eq!(decode_token(word), None);
    }
}

#[test]
fn metadata_usages_are_labelled() {
    let (executor, mut metadata, mut image) = (executor(), metadata(), image(V24_5));
    metadata.metadata_usages = vec![
        (1, vec![(0, PLAYER as u32), (9, 0)]),
        (2, vec![(1, TEXT as u32)]),
        (3, vec![(2, 0)]),
        (4, vec![(3, 0)]),
        (5, vec![(4, 0), (5, 1)]),
        (6, vec![(6, 0)]),
        (8, vec![(0, 0)]),
    ];
    image.metadata_usages = (0..7).map(|i| BASE + 0x800 + 8 * i).collect();
    let mut script = ScriptJson::new();
    let mut config = config();
    config.enhanced_ida_metadata = true;
    add_metadata_usages(
        &mut script,
        &executor,
        &metadata,
        &image,
        &struct_names(),
        &StructGenerator::build_type_def_image_names_pub(&metadata),
        &config,
        &Sanitizer::new(spell),
    );
    let labels: Vec<(u64, &str, Option<&str>)> = script
        .script_metadata
        .iter()
        .map(|m| (m.address, m.name.as_str(), m.signature.as_deref()))
        .collect();
    assert_eq!(
        labels,
        vec![
            (0x800, "Game.Player_TypeInfo", Some("Game_Player_c*")),
            (0x808, "string_var", Some("Il2CppType*")),
            (0x818, "Field$Game.Entity.color", None),
        ]
    );
    let methods: Vec<(u64, &str, u64)> = script
        .script_metadata_methods
        .iter()
        .map(|m| (m.address, m.name.as_str(), m.method_address))
        .collect();
    assert_eq!(
        methods,
        vec![
            (0x810, "Method$Game.Player.Update()", 0x500),
            (0x830, "Method$System.List<int>.Add()", 0x400),
        ]
    );
    assert_eq!(script.script_strings.len(), 1);
    assert_eq!(script.script_strings[0].value, "Hello, world");
    assert_eq!(script.script_strings[0].name.as_deref(), Some("StringLiteral_Hello__world"));
    assert_eq!(script.type_info_pointers[0].name, "Game_Player_TypeInfo");
    assert_eq!(script.type_info_pointers[0].dotnet_type.as_deref(), Some("Game.Player"));
    assert_eq!(script.type_ref_pointers[0].name, "string_TypeRef");
    assert_eq!(script.field_infos[0].name, "Game_Entity_color_Field");
    assert_eq!(script.field_infos[0].value, "Game.Entity.color");
}

#[test]
fn newer_images_are_searched_for_tokens() {
    let (executor, mut metadata, mut image) = (executor(), metadata(), image(V27));
    metadata.data = (0..16).collect();
    metadata.default_value_data_size = 16;
    metadata.field_default_values.insert(7, Il2CppFieldDefaultValue { data_index: 0, offset: 4 });
    let tokens: [u64; 4] = [0x2000_0000 + 2 * PLAYER as u64 + 1, 0x6000_0001, 0xE000_0001, 0xA000_0005];
    for (i, token) in tokens.iter().enumerate() {
        image.stream.bytes[0x800 + 8 * i..0x808 + 8 * i].copy_from_slice(&token.to_le_bytes());
    }
    image.data_sections = vec![SearchSection {
        offset: 0x800,
        offset_end: 0x828,
        address: BASE + 0x800,
        address_end: BASE + 0x828,
    }];
    let mut config = config();
    config.max_field_rva_dump_bytes = 2;
    let mut script = ScriptJson::new();
    scan_v27_metadata_usages(
        &mut script,
        &executor,
        &metadata,
        &image,
        &struct_names(),
        &StructGenerator::build_type_def_image_names_pub(&metadata),
        &config,
        &Sanitizer::new(spell),
    );
    let labels: Vec<(u64, &str)> =
        script.script_metadata.iter().map(|m| (m.address, m.name.as_str())).collect();
    assert_eq!(
        labels,
        vec![(0x800, "Game.Player_TypeInfo"), (0x810, "FieldRva$Game.Entity.color")]
    );
    assert_eq!(script.script_metadata_methods[0].address, 0x808);
    assert_eq!(script.field_rvas[0].name, "Game_Entity_color_FieldRva");
    assert_eq!(script.field_rvas[0].value, "Game.Entity.color hex=0405");
    assert_eq!(script.script_strings[0].value, "x");
    let infos = collect_method_info_addresses(&metadata, &image);
    assert_eq!(infos.get(&0), Some(&0x808));
    assert_eq!(infos.len(), 1);
}

// The report on static fields.

fn static_world() -> (Il2CppExecutor, Metadata, Il2Cpp) {
    let (mut executor, mut metadata, mut image) = (executor(), metadata(), image(V24_5));
    executor.type_def_names[1] = "<PrivateImplementationDetails>".to_string();
    let rva_type = image.types.len();
    image.types.push(Il2CppType { attrs: FIELD_STATIC | FIELD_HAS_RVA, ..of_class(0x08, 5) });
    metadata.field_defs[6] = field("blob", rva_type, 40);
    metadata.field_defs[7] = field("again", rva_type, 40);
    metadata.field_defs[8] = field("tls", STATIC_INT, 41);
    image.field_offsets = vec![vec![0x10; 8]];
    image.field_offsets[0].push(i32::MIN + 0x20);
    image.field_offsets[0].push(0);
    let size = |thread_static_fields_size: u32| Il2CppTypeDefinitionSizes {
        instance_size: 0,
        native_size: 0,
        static_fields_size: 0,
        thread_static_fields_size,
    };
    image.type_definition_sizes = vec![size(0), size(0), size(0x40)];
    metadata.data = b"....Hi!?".to_vec();
    metadata.default_value_data_offset = 4;
    metadata.default_value_data_size = 4;
    metadata.field_default_values.insert(6, Il2CppFieldDefaultValue { data_index: 0, offset: 4 });
    (executor, metadata, image)
}

#[test]
fn static_fields_are_reported_once_per_token() {
    let (executor, metadata, image) = static_world();
    let catalog = StaticFieldCatalog::collect(&executor, &metadata, &image, &config()).ok().unwrap();
    let paths: Vec<(&str, &str, u32)> = catalog
        .entries
        .iter()
        .map(|e| (e.field_path.as_str(), e.kind.as_str(), e.token))
        .collect();
    assert_eq!(
        paths,
        vec![
            ("<PrivateImplementationDetails>.blob", "FieldRva", 40),
            ("Game.Vec2.tls", "ThreadStatic", 41),
        ]
    );
    let blob = &catalog.entries[0];
    assert_eq!(blob.hex, "4869213F");
    assert_eq!(blob.base64.as_deref(), Some("SGkhPw=="));
    assert_eq!(blob.ascii_preview.as_deref(), Some("Hi!?"));
    assert_eq!((blob.metadata_offset, blob.metadata_rva), (Some(4), Some(0)));
    assert_eq!((blob.data_size, blob.binary_va), (4, None));
    let tls = &catalog.entries[1];
    assert!(tls.is_thread_static && tls.hex.is_empty() && tls.base64.is_none());
    assert_eq!((tls.raw_offset, tls.effective_offset), (i32::MIN + 0x20, 0x20));
    let s = &catalog.summary;
    assert_eq!(
        (s.total_fields_scanned, s.thread_static_count, s.field_rva_count, s.normal_static_count),
        (12, 1, 2, 1)
    );
    assert_eq!(s.types_with_thread_static_block, 1);
    assert_eq!(s.private_implementation_details_types, vec!["<PrivateImplementationDetails>"]);
    let document = StaticFieldExporter::document(&catalog, &image);
    assert_eq!((document.il2cpp_version, document.pointer_size), (V24_5, 8));
    assert_eq!(document.fields.len(), 2);
}

#[test]
fn a_field_name_that_cannot_be_read_fails_the_report() {
    let (executor, mut metadata, image) = static_world();
    metadata.field_defs[8].name = Err(Error::OutOfBounds { offset: 3, size: 1 });
    assert!(matches!(
        StaticFieldCatalog::collect(&executor, &metadata, &image, &config()),
        Err(Error::OutOfBounds { offset: 3, size: 1 })
    ));
}

#[test]
fn the_report_enriches_the_script() {
    let (executor, metadata, image) = static_world();
    let catalog = StaticFieldCatalog::collect(&executor, &metadata, &image, &config()).ok().unwrap();
    let mut script = ScriptJson::new();
    catalog.enrich_script_json(&mut script, &image);
    let rvas: Vec<(u64, &str)> =
        script.field_rvas.iter().map(|f| (f.address, f.value.as_str())).collect();
    assert_eq!(
        rvas,
        vec![
            (0, "<PrivateImplementationDetails>.blob kind=FieldRva hex=4869213F"),
            (0, "Game.Vec2.tls offset=0x20 kind=ThreadStatic"),
        ]
    );
    assert_eq!(script.field_infos.len(), 1);
    assert_eq!(script.field_infos[0].address, 0x20);
    assert_eq!(script.field_infos[0].name, "Game_Vec2_tls_ThreadStatic");
    assert_eq!(script.field_infos[0].value, "ThreadStatic offset=0x20 raw=0x20");
}

#[test]
fn fields_are_annotated_in_the_dump() {
    let (executor, metadata, image) = static_world();
    let annotate = |config: &Config, td: usize, index: usize| {
        let mut buf = String::from("> ");
        let def = &metadata.field_defs[index];
        let done = write_dump_cs_field_annotations(
            &mut buf,
            &executor,
            &metadata,
            &image,
            config,
            &metadata.type_defs[td],
            td,
            index,
            index - metadata.type_defs[td].field_start,
            def,
            &image.types[def.type_index],
            "  ",
        );
        assert!(done.is_ok());
        buf
    };
    assert_eq!(
        annotate(&config(), 1, 6),
        "> \
         \x20 \t// FieldRVA: <PrivateImplementationDetails>.blob\n\
         \x20 \t//   Metadata offset: 0x4\n\
         \x20 \t//   Size: 4 bytes\n\
         \x20 \t//   Hex: 4869213F\n\
         \x20 \t//   ASCII: Hi!?\n\
         \x20 \t//   0000: 48 69 21 3F\n"
    );
    assert_eq!(
        annotate(&config(), 2, 8),
        "> \
         \x20 \t// ThreadStatic field: Game.Vec2.tls\n\
         \x20 \t//   TLS offset in type block: 0x20 (raw IL2CPP offset 0x80000020)\n\
         \x20 \t//   Not a binary RVA — per-thread storage; xref the field name in dump.cs / disasm\n\
         \x20 \t//   ThreadStatic block size: 0x40\n\
         \x20 \t//   Normal static block size: 0x0\n"
    );
    assert_eq!(annotate(&config(), 2, 9), "> ");
    let mut quiet = config();
    quiet.dump_static_field_metadata = false;
    assert_eq!(annotate(&quiet, 1, 6), "> ");
    let mut untouched = String::new();
    let done = write_dump_cs_field_annotations(
        &mut untouched,
        &executor,
        &metadata,
        &image,
        &quiet,
        &metadata.type_defs[1],
        99,
        6,
        0,
        &metadata.field_defs[6],
        &image.types[metadata.field_defs[6].type_index],
        "",
    );
    assert!(done.is_ok() && untouched.is_empty());
}

#[test]
fn layouts_have_attributes() {
    let (_, metadata, image) = static_world();
    let layout = |td: usize, index: usize| {
        let def = &metadata.field_defs[index];
        analyze_field_layout(
            &metadata,
            &image,
            &metadata.type_defs[td],
            td,
            0,
            index,
            def,
            &image.types[def.type_index],
            64,
        )
    };
    let pairs = |list: &[(&'static str, &str)]| -> Vec<(&'static str, String)> {
        list.iter().map(|(a, b)| (*a, b.to_string())).collect()
    };
    assert_eq!(
        dummy_dll_layout_attrs(&layout(1, 6), &config()),
        pairs(&[("MetadataOffset", "0x4"), ("FieldRvaHex", "4869213F")])
    );
    assert_eq!(
        dummy_dll_layout_attrs(&layout(2, 8), &config()),
        pairs(&[("ThreadStatic", "true"), ("Offset", "0x20")])
    );
    assert_eq!(kind_str(StaticFieldKind::Instance), "Instance");
}

// The C++ project.

#[test]
fn functions_are_listed_by_address() {
    let (executor, mut metadata, mut image) = (executor(), metadata(), image(V24_5));
    metadata.metadata_usages = vec![(3, vec![(0, 0), (1, 3)])];
    image.metadata_usages = vec![BASE + 0x800, BASE + 0x808];
    let text = CppScaffolding::build(&executor, &metadata, &image, &Sanitizer::new(spell)).ok().unwrap();
    let lines: Vec<&str> = text.lines().filter(|l| l.starts_with("DO_APP")).collect();
    assert_eq!(
        lines,
        vec![
            "DO_APP_FUNC(0x500, void, Game_Player$$Update, (Game_Player_o* __this, float dt, const MethodInfo* method));",
            "DO_APP_FUNC_METHODINFO(0x800, Game_Player$$Update__MethodInfo);",
            "DO_APP_FUNC(0x600, void, Game_Player$$_ctor, (Game_Player_o* __this, const MethodInfo* method));",
            "DO_APP_FUNC(0x700, float, Game_Vec2$$Max, (Game_Vec2* v, const MethodInfo* method));",
            "DO_APP_FUNC_METHODINFO(0x808, System_List_1$$Add__MethodInfo);",
            "DO_APP_FUNC(0x400, void, System_List_int_$$Add, (System_List_1_o* __this, int32_t item, const MethodInfo* method));",
        ]
    );
    assert!(text.starts_with("// IL2CPP Function Pointers\n"));
    let entry = |rva: u64| FuncEntry {
        rva,
        return_type: "void".to_string(),
        func_name: "f".to_string(),
        params: "int a".to_string(),
        method_info_rva: Some(0x1F),
    };
    assert_eq!(
        write_entries(&vec![entry(0xAB)]),
        "DO_APP_FUNC(0xAB, void, f, (int a));\nDO_APP_FUNC_METHODINFO(0x1F, f__MethodInfo);\n"
    );
    assert_eq!(
        write_entries(&vec![entry(0)]),
        "DO_APP_FUNC_METHODINFO(0x1F, f__MethodInfo);\n"
    );
}

#[test]
fn an_address_is_listed_once() {
    let (executor, metadata, mut image) = (executor(), metadata(), image(V24_5));
    image.method_spec_generic_method_pointers.insert(0, BASE + 0x500);
    let text = CppScaffolding::build(&executor, &metadata, &image, &Sanitizer::new(spell)).ok().unwrap();
    assert_eq!(text.matches("DO_APP_FUNC(0x500, ").count(), 1);
    assert!(text.contains("DO_APP_FUNC(0x500, void, Game_Player$$Update"));
}

#[test]
fn guids_follow_from_their_seed() {
    let expected = |seed: u64| {
        let h = seed.wrapping_mul(0x9E37_79B9_7F4A_7C15) ^ 0xDEAD_BEEF_CAFE_BABE;
        let d = seed.wrapping_add(1).wrapping_mul(0xBF58_476D_1CE4_E5B9) ^ 0xC0FF_EE00_C0FF_EE00;
        format!(
            "{:08X}-{:04X}-{:04X}-{:04X}-{:012X}",
            h & 0xFFFF_FFFF,
            (h >> 32) & 0xFFFF,
            h >> 48,
            d >> 48,
            d & 0xFFFF_FFFF_FFFF
        )
    };
    assert_eq!(CppScaffolding::make_guid(0), "CAFEBABE-BEEF-DEAD-7FA7-A96DDC1B0BB9");
    let seeds = [0, 1, 2, 3, 4, 77, u64::MAX];
    for seed in seeds {
        assert_eq!(CppScaffolding::make_guid(seed), expected(seed));
        assert_eq!(CppScaffolding::make_guid(seed).len(), 36);
    }
    let all: BTreeSet<String> = seeds.into_iter().map(CppScaffolding::make_guid).collect();
    assert_eq!(all.len(), seeds.len());
}

#[test]
fn headers_are_wrapped() {
    assert_eq!(
        CppScaffolding::wrap_header("Part", "body"),
        "// Generated C++ file by Il2CppDumper - Rust Edition\n// * Part\n\nbody\n"
    );
    assert_eq!(CppScaffolding::wrap_header("Part", "body\n").matches('\n').count(), 4);
    let mut image = image(V24_5);
    let text = CppScaffolding::wrap_types_header(&image, "struct X;");
    assert!(text.contains("typedef uint64_t size_t;\n#endif\n"));
    assert!(text.contains("*\n\nstruct X;\n\n#ifndef IS_DECOMPILER\nnamespace app {\n#endif\n"));
    assert!(text.ends_with("\n\n#ifndef IS_DECOMPILER\n}\n#endif\n"));
    image.is_32bit = true;
    let narrow = CppScaffolding::wrap_types_header(&image, "struct X;\n");
    assert!(narrow.contains("typedef int32_t intptr_t;\n"));
    assert_eq!(narrow.len(), text.len());
    assert_eq!(
        CppScaffolding::build_version_header(&image),
        "#pragma once\n\n#define __IL2CPP_METADATA_VERSION 245\n"
    );
    image.version = V27;
    assert!(CppScaffolding::build_version_header(&image).ends_with(" 270\n"));
}

#[test]
fn files_are_chosen_by_the_configuration() {
    let names = |config: &Config, types: &str, api: &str| -> Vec<String> {
        StructGenerator::output_files(
            config,
            "s".to_string(),
            "l".to_string(),
            "h".to_string(),
            "f".to_string(),
            types,
            api,
        )
        .into_iter()
        .map(|f| f.name + "=" + &f.text)
        .collect()
    };
    let mut config = config();
    assert_eq!(
        names(&config, "t", "a"),
        vec![
            "script.json=s",
            "stringliteral.json=l",
            "il2cpp.h=h",
            "il2cpp-functions.h=f",
            "il2cpp-types.h=t",
            "il2cpp-api.h=a"
        ]
    );
    assert_eq!(names(&config, "", "").len(), 4);
    assert!(StructGenerator::wants_project(&config, "t"));
    assert!(!StructGenerator::wants_project(&config, ""));
    config.generate_cpp_scaffold = false;
    assert!(!StructGenerator::wants_project(&config, "t"));
    assert_eq!(names(&config, "t", "").len(), 4);
    config.generate_unity_headers = false;
    assert_eq!(names(&config, "t", "a").len(), 3);
}

#[test]
fn runtime_symbols_are_picked() {
    let mut image = image(V24_5);
    image.exported_symbols = texts(&["il2cpp_init", "malloc", "mono_jit", "il2cpp", "il2cpp_init"]);
    let set = StructGenerator::api_exports(&image);
    assert_eq!(set.bound(), 2);
    assert!(set.contains("il2cpp_init") && set.contains("mono_jit") && !set.contains("malloc"));
}

#[test]
fn the_project_has_its_files() {
    let mut image = image(V24_5);
    image.api_export_rvas.insert("il2cpp_init".to_string(), 0x1234);
    let files = CppScaffolding::project_files(
        &executor(),
        &metadata(),
        &image,
        "TYPES",
        "DO_API(void, il2cpp_init, (int));\nDO_API(void, il2cpp_gone, (int));\n",
        &Sanitizer::new(spell),
    );
    let paths: Vec<(&str, bool)> = files.iter().map(|f| (f.path.as_str(), f.replace)).collect();
    assert_eq!(paths.len(), 19);
    assert_eq!(paths[0], ("appdata/il2cpp-functions.h", true));
    assert!(paths.contains(&("user/main.h", false)) && paths.contains(&("IL2CppDLL.sln", false)));
    let text = |path: &str| files.iter().find(|f| f.path == path).unwrap().text.clone();
    assert_eq!(text("user/main.h"), TEMPLATE_MAIN_H);
    assert_eq!(
        text("IL2CppDLL.vcxproj"),
        TEMPLATE_VCXPROJ.replace("%PROJECTGUID%", &CppScaffolding::make_guid(0))
    );
    assert!(!text("IL2CppDLL.sln").contains('%') && !text("IL2CppDLL.vcxproj.filters").contains("%GUID"));
    let api = text("appdata/il2cpp-api-functions.h");
    assert!(api.contains("il2cpp_init") && !api.contains("\nDO_API(void, il2cpp_gone"));
    assert!(text("appdata/il2cpp-api-functions-ptr.h").contains("#define il2cpp_init_ptr 0x00001234\n"));
    assert_eq!(
        text("appdata/il2cpp-types-ptr.h"),
        "// Generated C++ file by Il2CppDumper - Rust Edition\n// * IL2CPP application type definition addresses\n\n#pragma once\n\nDO_TYPEDEF(0x00000000, Game_Player);\nDO_TYPEDEF(0x00000000, Game_Entity);\nDO_TYPEDEF(0x00000000, Game_Vec2);\nDO_TYPEDEF(0x00000000, Color);\nDO_TYPEDEF(0x00000000, System_List_1);\nDO_TYPEDEF(0x00000000, System_Int32);\n"
    );
}

#[test]
fn api_headers_are_filtered() {
    let mut available: NameMap<u64> = NameMap::new();
    available.insert("mono_b".to_string(), 0xAB);
    available.insert("il2cpp_a".to_string(), 0x12);
    assert_eq!(
        CppScaffolding::extract_api_name("DO_API(void, il2cpp_a, (int x));").as_deref(),
        Some("il2cpp_a")
    );
    for line in ["// nothing", "DO_API(void)", "DO_API(void, il2cpp_a"] {
        assert_eq!(CppScaffolding::extract_api_name(line), None);
    }
    let body = "#pragma once\n  DO_API(void, il2cpp_a, (int x));\nDO_API(void, il2cpp_b, (int x));\nDO_API(x)";
    assert_eq!(
        CppScaffolding::filter_api_header(body, &available),
        "#pragma once\n  DO_API(void, il2cpp_a, (int x));\nDO_API(x)\n"
    );
    assert_eq!(CppScaffolding::filter_api_header(body, &NameMap::new()), body);
    let text = CppScaffolding::build_api_function_ptr_header(&available);
    let lines: Vec<&str> = text.lines().filter(|l| l.starts_with("#define")).collect();
    assert_eq!(lines, vec!["#define il2cpp_a_ptr 0x00000012", "#define mono_b_ptr 0x000000AB"]);
}
