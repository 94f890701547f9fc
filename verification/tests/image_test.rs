use il2cpp_dump::error::Error;
use il2cpp_dump::il2cpp::base::{
    Architecture, DefaultArchitectures, Elf, ElfSegment, Il2Cpp, SearchSection, VaSegment,
};
use il2cpp_dump::il2cpp::enums::{
    Il2CppTypeEnum, FIELD_HAS_RVA, FIELD_LITERAL, FIELD_STATIC, V21, V24, V24_2, V24_3, V24_4,
    V24_5, V27, V27_1, V29, V29_1, V31,
};
use il2cpp_dump::il2cpp::field_layout::{
    analyze_field_layout, decode_field_offset, estimate_field_rva_size, read_binary_bytes,
    read_metadata_bytes, DecodedFieldOffset, StaticFieldKind,
};
use il2cpp_dump::il2cpp::init::{
    apply_auto_plus_heuristics, auto_plus_count_limit, refine_code_registration,
};
use il2cpp_dump::il2cpp::metadata::Metadata;
use il2cpp_dump::il2cpp::records::{AddressMap, Record, RecordKind, RecordReader};
use il2cpp_dump::il2cpp::structures::{
    Il2CppCodeGenModule, Il2CppCodeRegistration, Il2CppFieldDefaultValue, Il2CppFieldDefinition,
    Il2CppGenericInst, Il2CppGenericMethodFunctionsDefinitions, Il2CppMetadataRegistration,
    Il2CppMethodDefinition, Il2CppMethodSpec, Il2CppType, Il2CppTypeDefinition,
    Il2CppTypeDefinitionSizes,
};
use il2cpp_dump::io::BinaryStream;
use il2cpp_dump::names::NameMap;
use std::collections::HashMap;

const BASE: u64 = 0x1000;

fn stream(bytes: Vec<u8>, version: u32) -> BinaryStream {
    BinaryStream { bytes, version, is_32bit: false, image_base: 0, max_array_elems: 100 }
}

/// An image of zeros with the given words, which is mapped to `BASE`.
fn image(version: u32, words: &[(usize, u64)]) -> Il2Cpp {
    let mut bytes = vec![0u8; 0x400];
    for (at, word) in words {
        bytes[*at..*at + 8].copy_from_slice(&word.to_le_bytes());
    }
    let mut image = Il2Cpp::new(stream(bytes, version), version, false);
    image.va_segments.push(VaSegment { vaddr: BASE, memsz: 0x3FF, offset: 0 });
    image
}

fn metadata(data: Vec<u8>) -> Metadata {
    Metadata {
        version: V24_5,
        data,
        default_value_data_offset: 0x10,
        default_value_data_size: 0x20,
        image_defs: Vec::new(),
        type_defs: Vec::new(),
        method_defs: Vec::new(),
        parameter_defs: Vec::new(),
        field_defs: Vec::new(),
        field_refs: Vec::new(),
        vtable_methods: Vec::new(),
        metadata_usages: Vec::new(),
        string_literals: Vec::new(),
        field_default_values: HashMap::new(),
    }
}

fn plain_type(kind: u8, attrs: u32) -> Il2CppType {
    Il2CppType { type_enum: kind, attrs, ..Il2CppType::default() }
}

fn method(token: u32, method_index: usize) -> Il2CppMethodDefinition {
    Il2CppMethodDefinition {
        name: Ok("M".to_string()),
        declaring_type: 0,
        return_type: 0,
        parameter_start: 0,
        parameter_count: 0,
        generic_container_index: -1,
        method_index,
        token,
        flags: 0,
        slot: 0xFFFF,
    }
}

fn type_definition() -> Il2CppTypeDefinition {
    Il2CppTypeDefinition {
        name_index: 0,
        namespace_index: 0,
        name: Ok("T".to_string()),
        namespace: Ok(String::new()),
        is_value_type: false,
        is_enum: false,
        byval_type_index: 0,
        element_type_index: 0,
        declaring_type_index: -1,
        parent_index: -1,
        field_start: 0,
        field_count: 0,
        method_start: 0,
        method_count: 0,
        vtable_start: 0,
        vtable_count: 0,
    }
}

fn field(token: u32) -> Il2CppFieldDefinition {
    Il2CppFieldDefinition { name: Ok("f".to_string()), type_index: 0, token }
}

#[test]
fn addresses_and_offsets_map_to_each_other() {
    let mut image = image(V24_5, &[]);
    image.va_segments.push(VaSegment { vaddr: 0x9000, memsz: 0x10, offset: 0x800 });
    assert_eq!(image.map_vatr(BASE + 5).ok(), Some(5));
    assert_eq!(image.map_vatr(0x9010).ok(), Some(0x810));
    assert_eq!(image.map_rtva(0x808), 0x9008);
    for addr in [BASE, BASE + 0x3FF, 0x9000, 0x9010] {
        assert_eq!(image.map_vatr(addr).map(|at| image.map_rtva(at)).ok(), Some(addr));
    }
    for offset in [0, 0x3FF, 0x800, 0x810] {
        assert_eq!(image.map_vatr(image.map_rtva(offset)).ok(), Some(offset));
    }
}

#[test]
fn what_no_segment_holds_is_not_mapped() {
    let image = image(V24_5, &[]);
    assert!(matches!(image.map_vatr(0x5000), Err(Error::AddressNotMapped(0x5000))));
    assert_eq!(image.map_rtva(0x5000), 0);
}

#[test]
fn the_first_segment_counts() {
    let mut image = image(V24_5, &[]);
    image.va_segments.push(VaSegment { vaddr: BASE, memsz: 0x3FF, offset: 0x2000 });
    assert_eq!(image.map_vatr(BASE + 1).ok(), Some(1));
}

#[test]
fn distances_are_from_the_image_base() {
    let mut image = image(V24_5, &[]);
    assert_eq!(image.get_rva(0x77), 0x77);
    image.image_base = 0x1000;
    assert_eq!(image.get_rva(0x1077), 0x77);
    assert_eq!(image.get_rva(0xFFF), u64::MAX);
}

#[test]
fn method_pointers_are_found_by_token_or_by_index() {
    let mut image = image(V24_2, &[]);
    image.method_pointers = vec![0xA, 0xB];
    image.code_gen_module_method_pointers.insert("a.dll".to_string(), vec![0x10, 0x20]);
    assert_eq!(image.get_method_pointer("a.dll", &method(0x0600_0002, 0)), 0x20);
    assert_eq!(image.get_method_pointer("a.dll", &method(0x0600_0003, 0)), 0);
    assert_eq!(image.get_method_pointer("a.dll", &method(0x0600_0000, 0)), 0);
    assert_eq!(image.get_method_pointer("b.dll", &method(0x0600_0001, 0)), 0);
    image.version = V24;
    assert_eq!(image.get_method_pointer("a.dll", &method(0x0600_0002, 1)), 0xB);
    assert_eq!(image.get_method_pointer("a.dll", &method(0x0600_0002, 2)), 0);
}

#[test]
fn field_offsets_come_from_tables_or_through_pointers() {
    let mut image = image(V24_5, &[(0x20, 0x18_0000_0010), (0x28, 0x8000_0004)]);
    image.field_offsets_are_pointers = true;
    image.field_offset_pointers = vec![BASE + 0x20, 0, 0x7000];
    assert_eq!(image.get_raw_field_offset(0, 0, 9), 0x10);
    assert_eq!(image.get_raw_field_offset(0, 1, 9), 0x18);
    assert_eq!(image.get_raw_field_offset(0, 2, 9), i32::MIN + 4);
    for (td, k) in [(1, 0), (2, 0), (3, 0), (0, 0x1000)] {
        assert_eq!(image.get_raw_field_offset(td, k, 9), -1);
    }
    image.field_offsets_are_pointers = false;
    assert_eq!(image.get_raw_field_offset(0, 0, 0), -1);
    image.field_offsets = vec![vec![24, 32]];
    assert_eq!(image.get_raw_field_offset(0, 0, 1), 32);
    assert_eq!(image.get_raw_field_offset(0, 0, 2), -1);
}

#[test]
fn field_offsets_of_value_types_leave_the_header_out() {
    let mut image = image(V24_5, &[]);
    image.field_offsets = vec![vec![24, 0, i32::MIN + 8]];
    assert_eq!(image.get_field_offset_from_index(0, 0, 0, false, false), 24);
    assert_eq!(image.get_field_offset_from_index(0, 0, 0, true, false), 8);
    assert_eq!(image.get_field_offset_from_index(0, 0, 0, true, true), 24);
    assert_eq!(image.get_field_offset_from_index(0, 0, 1, true, false), 0);
    assert_eq!(image.get_field_offset_from_index(0, 0, 2, false, true), 8);
    image.is_32bit = true;
    assert_eq!(image.get_field_offset_from_index(0, 0, 0, true, false), 16);
}

#[test]
fn generic_classes_and_instances_are_read() {
    let words = [(0x40, 7), (0x48, 0x11), (0x50, 0x22), (0x58, 0x33)];
    let old = image(V24_5, &words);
    let class = old.read_generic_class(BASE + 0x40).unwrap();
    assert_eq!((class.type_definition_index, class.type_ptr), (7, 0));
    assert_eq!((class.context.class_inst, class.context.method_inst), (0x11, 0x22));
    assert_eq!(class.cached_class, 0x33);
    let new = image(V27, &words);
    let class = new.peek_generic_class(BASE + 0x40).unwrap();
    assert_eq!((class.type_definition_index, class.type_ptr), (0, 7));
    let inst = old.read_generic_inst(BASE + 0x48).unwrap();
    assert_eq!((inst.type_argc, inst.type_argv), (0x11, 0x22));
    assert!(old.peek_generic_inst(0x8000).is_err());
    assert!(matches!(
        old.peek_generic_class(BASE + 0x3F0),
        Err(Error::OutOfBounds { offset: 0x400, size: 8 })
    ));
}

#[test]
fn pointer_arrays_are_read() {
    let image = image(V24_5, &[(0x40, 7), (0x48, 8)]);
    assert_eq!(image.read_ptr_array(BASE + 0x40, 2).ok(), Some(vec![7, 8]));
    assert_eq!(image.peek_ptr_array(BASE, 0).ok(), Some(vec![]));
    match image.peek_ptr_array(BASE, 101) {
        Err(Error::InvalidArraySize { count: 101, elem_size: 8, context }) => {
            assert_eq!(context, "peek_ptr_array")
        }
        _ => panic!(),
    }
}

#[test]
fn types_are_found_by_their_address() {
    let mut image = image(V24_5, &[]);
    image.types = vec![plain_type(8, 0)];
    image.type_dic.insert(0x70, 0);
    image.type_dic.insert(0x71, 1);
    assert_eq!(image.get_il2cpp_type(0x70).map(|t| t.type_enum), Some(8));
    assert!(image.get_il2cpp_type(0x71).is_none());
    assert!(image.get_il2cpp_type(0x72).is_none());
}

#[test]
fn the_architecture_falls_back_to_the_format() {
    let arch = |id: u16| Architecture { id };
    let defaults = DefaultArchitectures {
        elf_32bit: arch(1),
        elf_64bit: arch(2),
        pe_32bit: arch(3),
        pe_64bit: arch(4),
    };
    let mut image = image(V24_5, &[]);
    assert_eq!(image.detect_architecture(&defaults), arch(2));
    image.is_32bit = true;
    assert_eq!(image.detect_architecture(&defaults), arch(1));
    image.is_pe = true;
    assert_eq!(image.detect_architecture(&defaults), arch(3));
    image.is_32bit = false;
    assert_eq!(image.detect_architecture(&defaults), arch(4));
    image.arch = Some(arch(9));
    assert_eq!(image.detect_architecture(&defaults), arch(9));
}

#[test]
fn an_elf_file_becomes_an_image() {
    let segment = |p_flags: u32, p_vaddr: u64, p_memsz: u64| ElfSegment {
        p_flags,
        p_offset: 0x40,
        p_vaddr,
        p_filesz: 0x20,
        p_memsz,
    };
    let mut source = stream(vec![0; 0x80], V29);
    source.image_base = 0x500;
    let elf = Elf {
        stream: source,
        is_32bit: false,
        is_dumped: true,
        codm_diag: true,
        e_machine: 183,
        arch: None,
        segments: vec![segment(5, 0x1000, 0x30), segment(6, 0x2000, 0x30), segment(4, 0x3000, 0)],
        types: vec![plain_type(8, 0)],
        type_dic: HashMap::new(),
        method_pointers: vec![1],
        generic_method_pointers: vec![2],
        invoker_pointers: vec![3],
        metadata_usages: vec![4],
        custom_attribute_generators: vec![5],
        generic_insts: Vec::new(),
        generic_inst_pointers: Vec::new(),
        method_specs: Vec::new(),
        generic_method_table: Vec::new(),
        code_gen_modules: NameMap::new(),
        code_gen_module_method_pointers: NameMap::new(),
        method_definition_method_specs: HashMap::new(),
        method_spec_generic_method_pointers: HashMap::new(),
        field_offsets: vec![6],
        field_offsets_are_pointers: true,
        rgctxs_dictionary: NameMap::new(),
        type_definition_sizes: Vec::new(),
    };
    let image = Il2Cpp::from_elf(elf);
    assert_eq!((image.version, image.image_base, image.e_machine), (V29, 0x500, 183));
    assert!(image.is_dumped && image.codm && !image.is_pe && image.field_offsets_are_pointers);
    assert_eq!(image.va_segments.len(), 3);
    assert_eq!(image.va_segments[1], VaSegment { vaddr: 0x2000, memsz: 0x30, offset: 0x40 });
    assert_eq!(
        image.data_sections,
        vec![SearchSection { offset: 0x40, offset_end: 0x60, address: 0x2000, address_end: 0x2030 }]
    );
    assert_eq!(image.field_offset_pointers, vec![6]);
    assert_eq!((image.method_pointers, image.generic_method_pointers), (vec![1], vec![2]));
    assert_eq!((image.invoker_pointers, image.metadata_usages), (vec![3], vec![4]));
    assert!(image.field_offsets.is_empty() && image.exported_symbols.is_empty());
}

#[test]
fn method_addresses_are_sorted_and_unique() {
    let mut image = image(V24_5, &[]);
    image.image_base = 0x100;
    image.method_pointers = vec![0x300, 0, 0x200];
    image.generic_method_pointers = vec![0x200, 0x500];
    image.code_gen_module_method_pointers.insert("a".to_string(), vec![0x400, 0]);
    image.method_spec_generic_method_pointers.insert(3, 0x180);
    assert_eq!(image.build_sorted_method_addresses(), vec![0x80, 0x100, 0x200, 0x300, 0x400]);
}

#[test]
fn body_sizes_reach_to_the_next_method() {
    let image = image(V24_5, &[]);
    let addrs = [0x100, 0x102, 0x200, 0x20_0000];
    assert_eq!(image.get_method_body_size(0x100, &addrs), 4);
    assert_eq!(image.get_method_body_size(0x102, &addrs), 0xFE);
    assert_eq!(image.get_method_body_size(0x200, &addrs), 0x4000);
    assert_eq!(image.get_method_body_size(0x20_0000, &addrs), 0x4000);
    assert_eq!(image.get_method_body_size(0x101, &addrs), 0x4000);
}

#[test]
fn bytes_are_read_at_a_distance_from_the_base() {
    let mut image = image(V24_5, &[(0x10, 0x0807_0605_0403_0201)]);
    image.image_base = BASE;
    assert_eq!(image.read_bytes_at_rva(0x10, 3), Some(vec![1, 2, 3]));
    assert_eq!(image.read_bytes_at_rva(0x3FE, 9), Some(vec![0, 0]));
    image.va_segments.clear();
    assert_eq!(image.read_bytes_at_rva(0x11, 2), Some(vec![2, 3]));
    assert_eq!(image.read_bytes_at_rva(0x400, 2), None);
    image.va_segments.push(VaSegment { vaddr: BASE, memsz: 0x1000, offset: 0 });
    assert_eq!(read_binary_bytes(&image, BASE + 0x10, 2), Some(vec![1, 2]));
    assert_eq!(read_binary_bytes(&image, BASE + 0x10, 0), None);
    assert_eq!(read_binary_bytes(&image, 0, 4), None);
}

#[test]
fn offset_words_carry_the_thread_static_mark() {
    assert_eq!(
        decode_field_offset(0x20),
        DecodedFieldOffset { raw: 0x20, effective: 0x20, is_thread_static: false }
    );
    assert_eq!(
        decode_field_offset(i32::MIN + 0x18),
        DecodedFieldOffset { raw: i32::MIN + 0x18, effective: 0x18, is_thread_static: true }
    );
    assert_eq!(decode_field_offset(-1).effective, i32::MAX);
}

#[test]
fn data_sizes_are_guessed() {
    let mut image = image(V24_5, &[]);
    for (kind, size) in [(2, 1), (3, 2), (8, 4), (0x0A, 8), (0x0C, 4), (0x18, 8), (0x12, 64)] {
        assert_eq!(estimate_field_rva_size(&plain_type(kind, 0), 0, &image), size);
    }
    let sizes = |instance_size: u32, native_size: i32, static_fields_size: u32| {
        Il2CppTypeDefinitionSizes {
            instance_size,
            native_size,
            static_fields_size,
            thread_static_fields_size: 0,
        }
    };
    image.type_definition_sizes =
        vec![sizes(20, 30, 40), sizes(0, 30, 40), sizes(0, -1, 40), sizes(0, 0, 0)];
    for (td, size) in [(0, 20), (1, 30), (2, 40), (3, 4)] {
        assert_eq!(estimate_field_rva_size(&plain_type(8, 0), td, &image), size);
    }
    image.is_32bit = true;
    assert_eq!(estimate_field_rva_size(&plain_type(0x18, 0), 9, &image), 4);
}

#[test]
fn metadata_bytes_stay_in_the_block_of_default_values() {
    let metadata = metadata((0..0x20).collect());
    assert_eq!(read_metadata_bytes(&metadata, 0x12, 2), Some(vec![0x12, 0x13]));
    assert_eq!(read_metadata_bytes(&metadata, 0x1E, 8), Some(vec![0x1E, 0x1F]));
    assert_eq!(read_metadata_bytes(&metadata, 0x0F, 2), None);
    assert_eq!(read_metadata_bytes(&metadata, 0x2F, 2), None);
    assert_eq!(read_metadata_bytes(&metadata, 0x22, 2), None);
    assert_eq!(read_metadata_bytes(&metadata, 0, 0), Some(vec![]));
}

#[test]
fn field_kinds_follow_from_attributes_and_offsets() {
    let mut image = image(V24_5, &[]);
    image.field_offsets = vec![vec![0x10, i32::MIN + 0x10, 0x48]];
    image.type_definition_sizes = vec![Il2CppTypeDefinitionSizes {
        instance_size: 0,
        native_size: 0,
        static_fields_size: 0x40,
        thread_static_fields_size: 0x10,
    }];
    let metadata = metadata(vec![]);
    let analyze = |attrs: u32, index: usize| {
        analyze_field_layout(
            &metadata,
            &image,
            &type_definition(),
            0,
            0,
            index,
            &field(1),
            &plain_type(8, attrs),
            16,
        )
    };
    assert_eq!(analyze(0, 0).kind, StaticFieldKind::Instance);
    assert_eq!(analyze(FIELD_STATIC, 0).kind, StaticFieldKind::NormalStatic);
    assert_eq!(analyze(FIELD_STATIC, 1).kind, StaticFieldKind::ThreadStatic);
    assert_eq!(analyze(FIELD_STATIC, 2).kind, StaticFieldKind::ThreadStatic);
    assert_eq!(analyze(FIELD_HAS_RVA | FIELD_STATIC, 2).kind, StaticFieldKind::FieldRva);
    assert_eq!(analyze(FIELD_LITERAL, 1).kind, StaticFieldKind::Literal);
    let marked = analyze(FIELD_STATIC, 1);
    assert!(marked.is_thread_static && marked.is_static_storage());
    assert_eq!((marked.raw_offset, marked.effective_offset), (i32::MIN + 0x10, 0x10));
    assert_eq!(marked.static_fields_size, Some(0x40));
    assert_eq!(marked.thread_static_fields_size, Some(0x10));
    assert_eq!(marked.rva_data_size, 16);
    assert!(!analyze(0, 0).is_static_storage());
}

#[test]
fn field_data_is_found_in_the_metadata_and_in_the_image() {
    let mut image = image(V24_5, &[(0x200, 0x0807_0605_0403_0201)]);
    image.va_segments[0].vaddr = 0x2000;
    image.image_base = 0x2000;
    let mut data = vec![0u8; 0x40];
    data[0x18..0x20].copy_from_slice(&0x2200u64.to_le_bytes());
    let mut metadata = metadata(data);
    metadata.field_default_values.insert(5, Il2CppFieldDefaultValue { data_index: 8, offset: 0x18 });
    metadata.field_default_values.insert(6, Il2CppFieldDefaultValue { data_index: -1, offset: 0x18 });
    let analyze = |attrs: u32, index: usize| {
        analyze_field_layout(
            &metadata,
            &image,
            &type_definition(),
            0,
            0,
            index,
            &field(1),
            &plain_type(8, attrs),
            16,
        )
    };
    let found = analyze(FIELD_HAS_RVA, 5);
    assert_eq!(found.default_value_metadata_offset, Some(0x18));
    assert_eq!(found.rva_data_size, 4);
    assert_eq!(found.metadata_bytes, Some(vec![0, 0x22, 0, 0]));
    assert_eq!((found.binary_va, found.binary_rva), (Some(0x2200), Some(0x200)));
    assert_eq!(found.binary_bytes, Some(vec![1, 2, 3, 4]));
    let literal = analyze(FIELD_LITERAL, 5);
    assert_eq!(literal.metadata_bytes, Some(vec![0, 0x22, 0, 0]));
    assert_eq!(literal.binary_va, None);
    assert_eq!(analyze(FIELD_STATIC, 5).metadata_bytes, None);
    assert_eq!(analyze(FIELD_HAS_RVA, 6).default_value_metadata_offset, None);
}

#[test]
fn the_count_limit_depends_on_the_format() {
    assert_eq!(auto_plus_count_limit(true), 0x35000);
    assert_eq!(auto_plus_count_limit(false), 0x50000);
}

fn code_registration() -> Il2CppCodeRegistration {
    Il2CppCodeRegistration {
        method_pointers_count: 0,
        method_pointers: 0,
        generic_method_pointers_count: 0,
        generic_method_pointers: 0,
        invoker_pointers_count: 0,
        invoker_pointers: 0,
        custom_attribute_count: 0,
        custom_attribute_generators: 0,
        reverse_pinvoke_wrapper_count: 0,
        interop_data_count: 0,
        code_gen_modules_count: 0,
        code_gen_modules: 0,
    }
}

#[test]
fn the_version_is_adjusted_to_the_code_registration() {
    let adjust = |version: u32, generics: u64, wrappers: u64, interop: u64| {
        let mut s = stream(Vec::new(), version);
        let mut cr = code_registration();
        cr.generic_method_pointers_count = generics;
        cr.reverse_pinvoke_wrapper_count = wrappers;
        cr.interop_data_count = interop;
        let at = apply_auto_plus_heuristics(&mut s, 0x100, &cr, 10);
        (s.version, at)
    };
    assert_eq!(adjust(V31, 11, 0, 0), (V31, 0xF0));
    assert_eq!(adjust(V31, 10, 0, 0), (V29, 0x100));
    assert_eq!(adjust(V29, 11, 0, 0), (V29_1, 0xF0));
    assert_eq!(adjust(V29, 10, 0, 0), (V29, 0x100));
    assert_eq!(adjust(V27, 0, 11, 0), (V27_1, 0xF8));
    assert_eq!(adjust(V24_4, 0, 11, 0), (V24_5, 0xE8));
    assert_eq!(adjust(V24_4, 0, 10, 0), (V24_4, 0xF0));
    assert_eq!(adjust(V24_2, 0, 0, 0), (V24_3, 0xF0));
    assert_eq!(adjust(V24_2, 0, 0, 1), (V24_2, 0x100));
    assert_eq!(adjust(V21, 11, 11, 0), (V21, 0x100));
    let mut s = stream(Vec::new(), V24_4);
    assert_eq!(apply_auto_plus_heuristics(&mut s, 0x8, &code_registration(), 10), 0);
    assert_eq!(apply_auto_plus_heuristics(&mut s, 0, &code_registration(), 10), 0);
}

#[test]
fn the_code_registration_is_read_before_it_is_adjusted() {
    let map = AddressMap::new(|addr: u64| {
        if addr >= BASE { Ok(addr - BASE) } else { Err(Error::AddressNotMapped(addr)) }
    });
    let reader = RecordReader::new(
        |_: &[u8], _: bool, kind: RecordKind, at: u64, _: u32| match kind {
            RecordKind::CodeRegistration => {
                let mut cr = code_registration();
                cr.generic_method_pointers_count = at;
                Ok((Record::CodeRegistration(cr), at))
            }
            _ => Err(Error::Other("no such record".to_string())),
        },
    );
    let mut s = stream(Vec::new(), V29);
    assert_eq!(refine_code_registration(&mut s, BASE + 0x20, &map, &reader, 0x1F).ok(), Some(BASE + 0x10));
    assert_eq!(s.version, V29_1);
    let mut s = stream(Vec::new(), V29);
    assert!(refine_code_registration(&mut s, 0x20, &map, &reader, 0x1F).is_err());
    let mut s = stream(Vec::new(), V24);
    assert_eq!(refine_code_registration(&mut s, 0x20, &map, &reader, 0x1F).ok(), Some(0x20));
}

/// Records of the shape that the tests below need; each takes up eight bytes.
fn read_record(bytes: &[u8], kind: RecordKind, at: u64) -> Result<(Record, u64), Error> {
    let from = at as usize;
    if from + 8 > bytes.len() {
        return Err(Error::OutOfBounds { offset: at, size: 8 });
    }
    let mut word = [0u8; 8];
    word.copy_from_slice(&bytes[from..from + 8]);
    let v = u64::from_le_bytes(word);
    let record = match kind {
        RecordKind::MetadataRegistration => {
            Record::MetadataRegistration(Il2CppMetadataRegistration {
                generic_insts_count: 1,
                generic_insts: BASE + 0x110,
                generic_method_table_count: 2,
                generic_method_table: BASE + 0x120,
                types_count: 2,
                types: BASE + 0x100,
                method_specs_count: 2,
                method_specs: BASE + 0x130,
                field_offsets_count: 1,
                field_offsets: BASE + 0x140,
                type_definitions_sizes_count: 1,
                type_definitions_sizes: BASE + 0x148,
                metadata_usages_count: 1,
                metadata_usages: BASE + 0x150,
            })
        }
        RecordKind::CodeRegistration => {
            let mut cr = code_registration();
            cr.generic_method_pointers_count = 2;
            cr.generic_method_pointers = BASE + 0x160;
            cr.code_gen_modules_count = 1;
            cr.code_gen_modules = BASE + 0x170;
            cr.interop_data_count = 1;
            Record::CodeRegistration(cr)
        }
        RecordKind::Type | RecordKind::ScrambledType => Record::Type(plain_type(v as u8, 0)),
        RecordKind::GenericInst => {
            Record::GenericInst(Il2CppGenericInst { type_argc: v, type_argv: at })
        }
        RecordKind::MethodSpec => {
            Record::MethodSpec(Il2CppMethodSpec { method_definition_index: v as usize })
        }
        RecordKind::GenericMethod => {
            Record::GenericMethod(Il2CppGenericMethodFunctionsDefinitions {
                generic_method_index: (v / 16) as usize,
                method_index: (v % 16) as usize,
            })
        }
        RecordKind::TypeDefinitionSizes => {
            Record::TypeDefinitionSizes(Il2CppTypeDefinitionSizes {
                instance_size: v as u32,
                native_size: 0,
                static_fields_size: 0,
                thread_static_fields_size: 0,
            })
        }
        RecordKind::CodeGenModule => Record::CodeGenModule(Il2CppCodeGenModule {
            module_name: BASE + 0x180,
            method_pointer_count: v,
            method_pointers: BASE + 0x188,
        }),
        RecordKind::Name => Record::Name("a.dll".to_string()),
    };
    Ok((record, at + 8))
}

fn table_words() -> Vec<(usize, u64)> {
    vec![
        (0x00, 0),
        (0x08, 8),
        (0x10, 14),
        (0x100, BASE + 0x08),
        (0x108, BASE + 0x10),
        (0x110, BASE + 0x08),
        (0x120, 0x10),
        (0x128, 0x01),
        (0x130, 40),
        (0x138, 41),
        (0x140, BASE + 0x20),
        (0x148, 24),
        (0x150, 0x77),
        (0x160, 0xAA0),
        (0x168, 0xBB0),
        (0x170, BASE + 0x178),
        (0x178, 2),
        (0x188, 0xC00),
        (0x190, 0xD00),
    ]
}

#[test]
fn the_tables_of_an_image_are_read() {
    let map = AddressMap::new(|addr: u64| {
        if addr >= BASE { Ok(addr - BASE) } else { Err(Error::AddressNotMapped(addr)) }
    });
    let reader = RecordReader::new(|bytes: &[u8], _: bool, kind: RecordKind, at: u64, _: u32| {
        read_record(bytes, kind, at)
    });
    let mut image = image(V24_5, &table_words());
    assert!(image.init(BASE + 0x300, BASE + 0x200, &map, &reader).is_ok());
    assert_eq!((image.code_registration, image.metadata_registration), (BASE + 0x300, BASE + 0x200));
    assert_eq!(image.types.iter().map(|t| t.type_enum).collect::<Vec<_>>(), vec![8, 14]);
    assert_eq!(image.type_dic.get(&(BASE + 0x10)), Some(&1));
    assert_eq!(image.generic_inst_pointers, vec![BASE + 0x08]);
    assert_eq!(image.generic_insts[0].type_argc, 8);
    assert_eq!(image.method_specs[1].method_definition_index, 41);
    assert_eq!(image.generic_method_pointers, vec![0xAA0, 0xBB0]);
    assert_eq!(image.metadata_usages, vec![0x77]);
    assert!(image.field_offsets_are_pointers);
    assert_eq!(image.field_offset_pointers, vec![BASE + 0x20]);
    assert_eq!(image.type_definition_sizes[0].instance_size, 24);
    assert_eq!(image.method_spec_generic_method_pointers.get(&1), Some(&0xAA0));
    assert_eq!(image.method_spec_generic_method_pointers.get(&0), Some(&0xBB0));
    assert_eq!(image.method_definition_method_specs.get(&41), Some(&vec![1]));
    assert_eq!(image.code_gen_modules.get("a.dll").map(|m| m.method_pointer_count), Some(2));
    assert_eq!(image.code_gen_module_method_pointers.get("a.dll"), Some(&vec![0xC00, 0xD00]));
}

#[test]
fn a_registration_that_is_not_mapped_ends_the_reading() {
    let map = AddressMap::new(|addr: u64| {
        if addr >= BASE { Ok(addr - BASE) } else { Err(Error::AddressNotMapped(addr)) }
    });
    let reader = RecordReader::new(|bytes: &[u8], _: bool, kind: RecordKind, at: u64, _: u32| {
        read_record(bytes, kind, at)
    });
    let mut blank = image(V24_5, &table_words());
    assert!(matches!(blank.init(BASE, 0x10, &map, &reader), Err(Error::AddressNotMapped(0x10))));
    assert!(blank.types.is_empty());
    assert_eq!((blank.code_registration, blank.metadata_registration), (BASE, 0x10));
    assert_eq!(blank.version, blank.stream.version);
    let mut half = image(V24_5, &table_words());
    assert!(matches!(half.init(0x30, BASE, &map, &reader), Err(Error::AddressNotMapped(0x30))));
    assert_eq!((half.types.len(), half.method_specs.len()), (2, 2));
    assert!(half.generic_method_pointers.is_empty());
}

#[test]
fn a_type_that_is_not_mapped_is_named_in_the_error() {
    let map = AddressMap::new(|addr: u64| {
        if addr >= BASE { Ok(addr - BASE) } else { Err(Error::AddressNotMapped(addr)) }
    });
    let reader = RecordReader::new(|bytes: &[u8], _: bool, kind: RecordKind, at: u64, _: u32| {
        read_record(bytes, kind, at)
    });
    let mut words = table_words();
    words.push((0x108, 0xABC));
    let mut image = image(V24_5, &words);
    let text = image.init(BASE + 0x300, BASE + 0x200, &map, &reader).map_err(|e| e.to_string());
    assert_eq!(
        text,
        Err("IO error: type[1] ptr=0xabc: Address 0xabc not in any segment".to_string())
    );
}

#[test]
fn a_newer_version_is_tried_as_an_older_one() {
    let map = AddressMap::new(|addr: u64| {
        if addr >= BASE { Ok(addr - BASE) } else { Err(Error::AddressNotMapped(addr)) }
    });
    let reader = RecordReader::new(|bytes: &[u8], _: bool, kind: RecordKind, at: u64, version: u32| {
        if kind == RecordKind::CodeRegistration && version == V31 {
            let mut cr = code_registration();
            cr.generic_method_pointers_count = 0x50001;
            cr.generic_method_pointers = BASE + 0x160;
            return Ok((Record::CodeRegistration(cr), at));
        }
        read_record(bytes, kind, at)
    });
    let mut image = image(V31, &table_words());
    assert!(image
        .init_with_auto_plus(BASE + 0x300, BASE + 0x200, &map, &reader, false)
        .is_ok());
    assert_eq!((image.version, image.stream.version), (V29, V29));
    assert_eq!(image.code_registration, BASE + 0x2F0);
    assert_eq!(image.generic_method_pointers, vec![0xAA0, 0xBB0]);
}

#[test]
fn element_types_have_their_numbers() {
    assert_eq!(Il2CppTypeEnum::from_u8(1), Some(Il2CppTypeEnum::Void));
    assert_eq!(Il2CppTypeEnum::from_u8(0x1D), Some(Il2CppTypeEnum::SzArray));
    assert_eq!(Il2CppTypeEnum::from_u8(0x15), Some(Il2CppTypeEnum::GenericInst));
    assert_eq!(Il2CppTypeEnum::from_u8(0xC8), None);
    assert_eq!(plain_type(0x0E, 0).element_type(), Some(Il2CppTypeEnum::String));
}
