//! An image in memory: its tables of types and code, and the addresses that lead into it.
use crate::error::{Error, ErrorModel};
use crate::il2cpp::enums::{V24_2, V27};
use crate::il2cpp::field_layout;
use crate::il2cpp::structures::{
    Il2CppCodeGenModule, Il2CppGenericClass, Il2CppGenericContext, Il2CppGenericInst,
    Il2CppGenericMethodFunctionsDefinitions, Il2CppMethodDefinition, Il2CppMethodSpec,
    Il2CppRGCTXDefinition, Il2CppType, Il2CppTypeDefinitionSizes,
};
use crate::io;
use crate::io::BinaryStream;
use crate::names::NameMap;
use std::collections::HashMap;
use vstd::prelude::*;
use vstd::string::*;

verus! {

/// A processor architecture, by a number of the caller's choice.
#[derive(Debug, Clone, Copy, PartialEq, Eq, Structural)]
pub struct Architecture {
    pub id: u16,
}

/// The architectures that are taken for granted where an image does not name its own.
#[derive(Debug, Clone, Copy, PartialEq, Eq, Structural)]
pub struct DefaultArchitectures {
    pub elf_32bit: Architecture,
    pub elf_64bit: Architecture,
    pub pe_32bit: Architecture,
    pub pe_64bit: Architecture,
}

/// A part of the file that holds data, with its place in memory.
#[derive(Debug, Clone, Copy, PartialEq, Eq, Structural)]
pub struct SearchSection {
    pub offset: u64,
    pub offset_end: u64,
    pub address: u64,
    pub address_end: u64,
}

/// A part of memory that is filled from the file.
#[derive(Debug, Clone, Copy, PartialEq, Eq, Structural)]
pub struct VaSegment {
    pub vaddr: u64,
    pub memsz: u64,
    pub offset: u64,
}

/// An image with all that has been read from it.
pub struct Il2Cpp {
    pub stream: BinaryStream,
    pub version: u32,
    pub is_32bit: bool,
    pub types: Vec<Il2CppType>,
    pub method_pointers: Vec<u64>,
    pub generic_method_pointers: Vec<u64>,
    pub invoker_pointers: Vec<u64>,
    pub field_offsets: Vec<Vec<i32>>,
    pub metadata_usages: Vec<u64>,
    pub custom_attribute_generators: Vec<u64>,
    pub generic_insts: Vec<Il2CppGenericInst>,
    pub generic_inst_pointers: Vec<u64>,
    pub method_specs: Vec<Il2CppMethodSpec>,
    pub generic_method_table: Vec<Il2CppGenericMethodFunctionsDefinitions>,
    pub code_gen_modules: NameMap<Il2CppCodeGenModule>,
    pub code_gen_module_method_pointers: NameMap<Vec<u64>>,
    pub method_definition_method_specs: HashMap<usize, Vec<usize>>,
    pub method_spec_generic_method_pointers: HashMap<usize, u64>,
    pub code_registration: u64,
    pub metadata_registration: u64,
    pub is_dumped: bool,
    pub image_base: u64,
    pub field_offset_pointers: Vec<u64>,
    pub field_offsets_are_pointers: bool,
    pub type_dic: HashMap<u64, usize>,
    pub va_segments: Vec<VaSegment>,
    pub data_sections: Vec<SearchSection>,
    pub rgctxs_dictionary: NameMap<HashMap<u32, Vec<Il2CppRGCTXDefinition>>>,
    pub is_pe: bool,
    pub reverse_pinvoke_wrappers: Vec<u64>,
    pub unresolved_virtual_call_pointers: Vec<u64>,
    pub arch: Option<Architecture>,
    pub e_machine: u16,
    pub exported_symbols: Vec<String>,
    pub api_export_rvas: NameMap<u64>,
    pub codm: bool,
    pub type_definition_sizes: Vec<Il2CppTypeDefinitionSizes>,
}

/// A loaded segment of an ELF file.
#[derive(Debug, Clone, Copy, PartialEq, Eq, Structural)]
pub struct ElfSegment {
    pub p_flags: u32,
    pub p_offset: u64,
    pub p_vaddr: u64,
    pub p_filesz: u64,
    pub p_memsz: u64,
}

/// An ELF file with all that has been read from it.
pub struct Elf {
    pub stream: BinaryStream,
    pub is_32bit: bool,
    pub is_dumped: bool,
    pub codm_diag: bool,
    pub e_machine: u16,
    /// The architecture that the machine number stands for, if it is known.
    pub arch: Option<Architecture>,
    pub segments: Vec<ElfSegment>,
    pub types: Vec<Il2CppType>,
    pub type_dic: HashMap<u64, usize>,
    pub method_pointers: Vec<u64>,
    pub generic_method_pointers: Vec<u64>,
    pub invoker_pointers: Vec<u64>,
    pub metadata_usages: Vec<u64>,
    pub custom_attribute_generators: Vec<u64>,
    pub generic_insts: Vec<Il2CppGenericInst>,
    pub generic_inst_pointers: Vec<u64>,
    pub method_specs: Vec<Il2CppMethodSpec>,
    pub generic_method_table: Vec<Il2CppGenericMethodFunctionsDefinitions>,
    pub code_gen_modules: NameMap<Il2CppCodeGenModule>,
    pub code_gen_module_method_pointers: NameMap<Vec<u64>>,
    pub method_definition_method_specs: HashMap<usize, Vec<usize>>,
    pub method_spec_generic_method_pointers: HashMap<usize, u64>,
    pub field_offsets: Vec<u64>,
    pub field_offsets_are_pointers: bool,
    pub rgctxs_dictionary: NameMap<HashMap<u32, Vec<Il2CppRGCTXDefinition>>>,
    pub type_definition_sizes: Vec<Il2CppTypeDefinitionSizes>,
}

// Addresses.

/// The segments end before the end of the address space and of the file offsets.
pub open spec fn segments_fit(segments: Seq<VaSegment>) -> bool {
    forall|i: int|
        0 <= i < segments.len() ==> (#[trigger] segments[i]).vaddr + segments[i].memsz <= u64::MAX
            && segments[i].offset + segments[i].memsz <= u64::MAX
}

/// The address stands in the segment; its end counts too.
pub open spec fn holds_address(seg: VaSegment, addr: int) -> bool {
    seg.vaddr <= addr <= seg.vaddr + seg.memsz
}

/// The file offset stands in the segment; its end counts too.
pub open spec fn holds_offset(seg: VaSegment, offset: int) -> bool {
    seg.offset <= offset <= seg.offset + seg.memsz
}

/// The first segment that holds the address, if one does.
pub open spec fn segment_of_address(segments: Seq<VaSegment>, addr: int) -> Option<VaSegment>
    decreases segments.len(),
{
    if segments.len() == 0 {
        None
    } else if holds_address(segments[0], addr) {
        Some(segments[0])
    } else {
        segment_of_address(segments.drop_first(), addr)
    }
}

/// The first segment that holds the file offset, if one does.
pub open spec fn segment_of_offset(segments: Seq<VaSegment>, offset: int) -> Option<VaSegment>
    decreases segments.len(),
{
    if segments.len() == 0 {
        None
    } else if holds_offset(segments[0], offset) {
        Some(segments[0])
    } else {
        segment_of_offset(segments.drop_first(), offset)
    }
}

/// The file offset of an address.
pub open spec fn offset_of(segments: Seq<VaSegment>, addr: u64) -> Result<u64, ErrorModel> {
    match segment_of_address(segments, addr as int) {
        Some(seg) => Ok((addr - seg.vaddr + seg.offset) as u64),
        None => Err(ErrorModel::AddressNotMapped(addr as nat)),
    }
}

/// The address of a file offset; 0 where it has none.
pub open spec fn address_of(segments: Seq<VaSegment>, offset: u64) -> u64 {
    match segment_of_offset(segments, offset as int) {
        Some(seg) => (offset - seg.offset + seg.vaddr) as u64,
        None => 0,
    }
}

pub(crate) proof fn lemma_segment_of_address(segments: Seq<VaSegment>, addr: int, i: int)
    requires
        0 <= i <= segments.len(),
        forall|j: int| 0 <= j < i ==> !holds_address(#[trigger] segments[j], addr),
        i < segments.len() ==> holds_address(segments[i], addr),
    ensures
        segment_of_address(segments, addr) == if i < segments.len() {
            Some(segments[i])
        } else {
            None
        },
    decreases segments.len(),
{
    if i > 0 {
        let rest = segments.drop_first();
        assert forall|j: int| 0 <= j < i - 1 implies !holds_address(#[trigger] rest[j], addr) by {
            assert(rest[j] == segments[j + 1]);
        }
        assert(!holds_address(segments[0], addr));
        lemma_segment_of_address(rest, addr, i - 1);
    }
}

pub(crate) proof fn lemma_segment_of_offset(segments: Seq<VaSegment>, offset: int, i: int)
    requires
        0 <= i <= segments.len(),
        forall|j: int| 0 <= j < i ==> !holds_offset(#[trigger] segments[j], offset),
        i < segments.len() ==> holds_offset(segments[i], offset),
    ensures
        segment_of_offset(segments, offset) == if i < segments.len() {
            Some(segments[i])
        } else {
            None
        },
    decreases segments.len(),
{
    if i > 0 {
        let rest = segments.drop_first();
        assert forall|j: int| 0 <= j < i - 1 implies !holds_offset(#[trigger] rest[j], offset) by {
            assert(rest[j] == segments[j + 1]);
        }
        assert(!holds_offset(segments[0], offset));
        lemma_segment_of_offset(rest, offset, i - 1);
    }
}

proof fn lemma_segment_found(segments: Seq<VaSegment>, at: int)
    ensures
        segment_of_address(segments, at) matches Some(seg) ==> segments.contains(seg)
            && holds_address(seg, at),
        segment_of_offset(segments, at) matches Some(seg) ==> segments.contains(seg)
            && holds_offset(seg, at),
        segment_of_address(segments, at) is None ==> forall|i: int|
            0 <= i < segments.len() ==> !holds_address(#[trigger] segments[i], at),
        segment_of_offset(segments, at) is None ==> forall|i: int|
            0 <= i < segments.len() ==> !holds_offset(#[trigger] segments[i], at),
    decreases segments.len(),
{
    if segments.len() > 0 {
        let rest = segments.drop_first();
        lemma_segment_found(rest, at);
        assert(segments.contains(segments[0]));
        assert forall|seg: VaSegment| rest.contains(seg) implies segments.contains(seg) by {
            let j = choose|j: int| 0 <= j < rest.len() && rest[j] == seg;
            assert(segments[j + 1] == seg);
        }
        if segment_of_address(segments, at) is None {
            assert forall|i: int| 0 <= i < segments.len() implies !holds_address(
                #[trigger] segments[i],
                at,
            ) by {
                if i > 0 {
                    assert(rest[i - 1] == segments[i]);
                }
            }
        }
        if segment_of_offset(segments, at) is None {
            assert forall|i: int| 0 <= i < segments.len() implies !holds_offset(
                #[trigger] segments[i],
                at,
            ) by {
                if i > 0 {
                    assert(rest[i - 1] == segments[i]);
                }
            }
        }
    }
}

/// Segments that hold the same file offset place it at the same address.
pub open spec fn offsets_agree(segments: Seq<VaSegment>) -> bool {
    forall|i: int, j: int, at: int|
        #![trigger holds_offset(segments[i], at), holds_offset(segments[j], at)]
        0 <= i < segments.len() && 0 <= j < segments.len() && holds_offset(segments[i], at)
            && holds_offset(segments[j], at) ==> segments[i].vaddr - segments[i].offset
            == segments[j].vaddr - segments[j].offset
}

/// Segments that hold the same address fill it from the same file offset.
pub open spec fn addresses_agree(segments: Seq<VaSegment>) -> bool {
    forall|i: int, j: int, at: int|
        #![trigger holds_address(segments[i], at), holds_address(segments[j], at)]
        0 <= i < segments.len() && 0 <= j < segments.len() && holds_address(segments[i], at)
            && holds_address(segments[j], at) ==> segments[i].vaddr - segments[i].offset
            == segments[j].vaddr - segments[j].offset
}

/// Where segments agree on the addresses of file offsets, the address of the file offset of a
/// mapped address is that address.
pub proof fn law_address_round_trip(segments: Seq<VaSegment>, addr: u64)
    requires
        segments_fit(segments),
        offsets_agree(segments),
        offset_of(segments, addr) is Ok,
    ensures
        address_of(segments, offset_of(segments, addr)->Ok_0) == addr,
{
    lemma_segment_found(segments, addr as int);
    let seg = segment_of_address(segments, addr as int)->0;
    let i = choose|i: int| 0 <= i < segments.len() && segments[i] == seg;
    let offset = (addr - seg.vaddr + seg.offset) as u64;
    assert(segments[i].offset + segments[i].memsz <= u64::MAX);
    lemma_segment_found(segments, offset as int);
    assert(holds_offset(segments[i], offset as int));
    let found = segment_of_offset(segments, offset as int)->0;
    let j = choose|j: int| 0 <= j < segments.len() && segments[j] == found;
    assert(holds_offset(segments[j], offset as int));
}

/// Where segments agree on the file offsets of addresses, the file offset of the address of an
/// offset that a segment holds is that offset.
pub proof fn law_offset_round_trip(segments: Seq<VaSegment>, offset: u64)
    requires
        segments_fit(segments),
        addresses_agree(segments),
        segment_of_offset(segments, offset as int) is Some,
    ensures
        offset_of(segments, address_of(segments, offset)) == Ok::<u64, ErrorModel>(offset),
{
    lemma_segment_found(segments, offset as int);
    let seg = segment_of_offset(segments, offset as int)->0;
    let i = choose|i: int| 0 <= i < segments.len() && segments[i] == seg;
    let addr = (offset - seg.offset + seg.vaddr) as u64;
    assert(segments[i].vaddr + segments[i].memsz <= u64::MAX);
    lemma_segment_found(segments, addr as int);
    assert(holds_address(segments[i], addr as int));
    let found = segment_of_address(segments, addr as int)->0;
    let j = choose|j: int| 0 <= j < segments.len() && segments[j] == found;
    assert(holds_address(segments[j], addr as int));
}

/// An address relative to the image base; the image base 0 stands for none.
pub open spec fn relative_to(image_base: u64, pointer: u64) -> u64 {
    if image_base <= pointer {
        (pointer - image_base) as u64
    } else {
        (pointer - image_base + 0x1_0000_0000_0000_0000) as u64
    }
}

/// The address at a distance from the image base.
pub open spec fn based_on(image_base: u64, rva: u64) -> u64 {
    if rva + image_base <= u64::MAX {
        (rva + image_base) as u64
    } else {
        (rva + image_base - 0x1_0000_0000_0000_0000) as u64
    }
}

/// Going from an address to its distance from the image base and back changes nothing.
pub proof fn law_rva_round_trip(image_base: u64, pointer: u64)
    ensures
        based_on(image_base, relative_to(image_base, pointer)) == pointer,
        relative_to(image_base, based_on(image_base, pointer)) == pointer,
{
}

// What an image says.

impl Il2Cpp {
    /// The segments of the image make sense.
    pub open spec fn wf(&self) -> bool {
        segments_fit(self.va_segments@)
    }

    /// The distance of an address from the image base.
    pub open spec fn rva(&self, pointer: u64) -> u64 {
        relative_to(self.image_base, pointer)
    }

    /// The pointer of a method: that of its module by its token, or that by its index.
    pub open spec fn method_pointer(&self, image: Seq<char>, md: Il2CppMethodDefinition) -> u64 {
        if self.version >= V24_2 {
            let modules = self.code_gen_module_method_pointers@;
            let row = md.token % 0x100_0000;
            if modules.contains_key(image) && 0 < row <= modules[image]@.len() {
                modules[image]@[row - 1]
            } else {
                0
            }
        } else if md.method_index < self.method_pointers@.len() {
            self.method_pointers@[md.method_index as int]
        } else {
            0
        }
    }

    /// The offset word of a field; -1 where there is none. An address past the end of the address
    /// space is not mapped.
    pub open spec fn raw_field_offset(&self, td: int, index_in_type: int, index: int) -> i32 {
        if self.field_offsets_are_pointers {
            if td >= self.field_offset_pointers@.len() || self.field_offset_pointers@[td] == 0 {
                (-1) as i32
            } else {
                match segment_of_address(
                    self.va_segments@,
                    self.field_offset_pointers@[td] + index_in_type * 4,
                ) {
                    Some(seg) => {
                        let at = self.field_offset_pointers@[td] + index_in_type * 4 - seg.vaddr
                            + seg.offset;
                        match io::word_at(self.stream.bytes@, at as u64, 4) {
                            Ok(v) => io::signed(v) as i32,
                            Err(_) => (-1) as i32,
                        }
                    },
                    None => (-1) as i32,
                }
            }
        } else if self.field_offsets@.len() > 0 && index < self.field_offsets@[0]@.len() {
            self.field_offsets@[0]@[index]
        } else {
            (-1) as i32
        }
    }

    /// The offset of a field, without the thread-static mark, and for an instance field of a value
    /// type without the object header.
    pub open spec fn field_offset(
        &self,
        td: int,
        index_in_type: int,
        index: int,
        is_value_type: bool,
        is_static: bool,
    ) -> int {
        let offset = field_layout::effective_offset(
            self.raw_field_offset(td, index_in_type, index),
        );
        if offset > 0 && is_value_type && !is_static {
            offset - if self.is_32bit {
                8int
            } else {
                16int
            }
        } else {
            offset
        }
    }

    /// The `k`-th pointer from the file offset `at` on.
    pub open spec fn pointer_from(&self, at: u64, k: int) -> Result<u64, ErrorModel> {
        let size = io::pointer_len(self.stream.is_32bit);
        match io::word_at(self.stream.bytes@, (at + k * size) as u64, size) {
            Ok(v) => Ok(v as u64),
            Err(e) => Err(e),
        }
    }

    /// The generic class at an address.
    pub open spec fn generic_class_at(&self, addr: u64) -> Result<Il2CppGenericClass, ErrorModel> {
        match offset_of(self.va_segments@, addr) {
            Err(e) => Err(e),
            Ok(at) => match self.pointer_from(at, 0) {
                Err(e) => Err(e),
                Ok(first) => match self.pointer_from(at, 1) {
                    Err(e) => Err(e),
                    Ok(class_inst) => match self.pointer_from(at, 2) {
                        Err(e) => Err(e),
                        Ok(method_inst) => match self.pointer_from(at, 3) {
                            Err(e) => Err(e),
                            Ok(cached_class) => Ok(
                                Il2CppGenericClass {
                                    type_definition_index: if self.version >= V27 {
                                        0
                                    } else {
                                        first
                                    },
                                    type_ptr: if self.version >= V27 {
                                        first
                                    } else {
                                        0
                                    },
                                    context: Il2CppGenericContext { class_inst, method_inst },
                                    cached_class,
                                },
                            ),
                        },
                    },
                },
            },
        }
    }

    /// The generic instance at an address.
    pub open spec fn generic_inst_at(&self, addr: u64) -> Result<Il2CppGenericInst, ErrorModel> {
        match offset_of(self.va_segments@, addr) {
            Err(e) => Err(e),
            Ok(at) => match self.pointer_from(at, 0) {
                Err(e) => Err(e),
                Ok(type_argc) => match self.pointer_from(at, 1) {
                    Err(e) => Err(e),
                    Ok(type_argv) => Ok(Il2CppGenericInst { type_argc, type_argv }),
                },
            },
        }
    }

    /// The array of pointers at an address.
    pub open spec fn pointers_at(&self, addr: u64, count: u64) -> Result<Seq<u64>, ErrorModel> {
        match offset_of(self.va_segments@, addr) {
            Err(e) => Err(e),
            Ok(at) => io::pointer_array(
                self.stream.bytes@,
                self.stream.is_32bit,
                self.stream.max_array_elems,
                at,
                count,
                "peek_ptr_array"@,
            ),
        }
    }

    /// The type whose record stands at an address.
    pub open spec fn type_at(&self, pointer: u64) -> Option<Il2CppType> {
        if self.type_dic@.contains_key(pointer) && self.type_dic@[pointer] < self.types@.len() {
            Some(self.types@[self.type_dic@[pointer] as int])
        } else {
            None
        }
    }

    /// The image holds the code pointer `p`.
    pub open spec fn has_code_pointer(&self, p: u64) -> bool {
        ||| self.method_pointers@.contains(p)
        ||| self.generic_method_pointers@.contains(p)
        ||| exists|name: Seq<char>| #[trigger]
            self.code_gen_module_method_pointers@.contains_key(name)
                && self.code_gen_module_method_pointers@[name]@.contains(p)
        ||| exists|spec: usize| #[trigger]
            self.method_spec_generic_method_pointers@.contains_key(spec)
                && self.method_spec_generic_method_pointers@[spec] == p
    }

    /// The bytes at a distance from the image base, as far as the file goes. Where nothing is
    /// mapped there, the distance is taken for a file offset.
    pub open spec fn bytes_at_rva(&self, rva: u64, size: nat) -> Option<Seq<u8>> {
        let data = self.stream.bytes@;
        let start = match offset_of(self.va_segments@, based_on(self.image_base, rva)) {
            Ok(at) => at,
            Err(_) => rva,
        };
        if start < data.len() {
            Some(
                data.subrange(
                    start as int,
                    if start + size <= data.len() {
                        start + size
                    } else {
                        data.len() as int
                    },
                ),
            )
        } else {
            None
        }
    }

    /// An image of which nothing has been read yet.
    pub fn new(stream: BinaryStream, version: u32, is_32bit: bool) -> (r: Self)
        ensures
            r.wf(),
            r.stream == (BinaryStream { version, is_32bit, ..stream }),
            r@ == blank_image(stream, version, is_32bit),
    {
        let mut stream = stream;
        stream.version = version;
        stream.is_32bit = is_32bit;
        let r = Il2Cpp {
            stream,
            version,
            is_32bit,
            types: Vec::new(),
            method_pointers: Vec::new(),
            generic_method_pointers: Vec::new(),
            invoker_pointers: Vec::new(),
            field_offsets: Vec::new(),
            metadata_usages: Vec::new(),
            custom_attribute_generators: Vec::new(),
            generic_insts: Vec::new(),
            generic_inst_pointers: Vec::new(),
            method_specs: Vec::new(),
            generic_method_table: Vec::new(),
            code_gen_modules: NameMap::new(),
            code_gen_module_method_pointers: NameMap::new(),
            method_definition_method_specs: HashMap::new(),
            method_spec_generic_method_pointers: HashMap::new(),
            code_registration: 0,
            metadata_registration: 0,
            is_dumped: false,
            image_base: 0,
            field_offset_pointers: Vec::new(),
            field_offsets_are_pointers: false,
            type_dic: HashMap::new(),
            va_segments: Vec::new(),
            data_sections: Vec::new(),
            rgctxs_dictionary: NameMap::new(),
            is_pe: false,
            reverse_pinvoke_wrappers: Vec::new(),
            unresolved_virtual_call_pointers: Vec::new(),
            arch: None,
            e_machine: 0,
            exported_symbols: Vec::new(),
            api_export_rvas: NameMap::new(),
            codm: false,
            type_definition_sizes: Vec::new(),
        };
        assert(r@.field_offsets =~= Seq::<Seq<i32>>::empty());
        assert(r@.code_gen_module_method_pointers =~= Map::<Seq<char>, Seq<u64>>::empty());
        assert(r@.method_definition_method_specs =~= Map::<usize, Seq<usize>>::empty());
        r
    }

    /// The image that an ELF file holds.
    pub fn from_elf(elf: Elf) -> (r: Self)
        requires
            elf_fits(elf.segments@),
        ensures
            r.wf() == segments_fit(mapped_segments(elf.segments@)),
            r.stream == elf.stream,
            r@ == elf_image(elf),
    {
        let mut va_segments: Vec<VaSegment> = Vec::new();
        let mut data_sections: Vec<SearchSection> = Vec::new();
        let mut i: usize = 0;
        while i < elf.segments.len()
            invariant
                i <= elf.segments@.len(),
                elf_fits(elf.segments@),
                va_segments@ == mapped_segments(elf.segments@.take(i as int)),
                data_sections@ == searched_sections(elf.segments@.take(i as int)),
            decreases elf.segments@.len() - i,
        {
            let s = elf.segments[i];
            assert(elf.segments@.take(i + 1).drop_last() =~= elf.segments@.take(i as int));
            va_segments.push(VaSegment { vaddr: s.p_vaddr, memsz: s.p_memsz, offset: s.p_offset });
            assert(va_segments@ =~= mapped_segments(elf.segments@.take(i + 1)));
            if s.p_memsz != 0 && (s.p_flags == 2 || s.p_flags == 4 || s.p_flags == 6) {
                data_sections.push(
                    SearchSection {
                        offset: s.p_offset,
                        offset_end: s.p_offset + s.p_filesz,
                        address: s.p_vaddr,
                        address_end: s.p_vaddr + s.p_memsz,
                    },
                );
            }
            i = i + 1;
        }
        assert(elf.segments@.take(i as int) =~= elf.segments@);
        let version: u32 = elf.stream.version;
        let image_base: u64 = elf.stream.image_base;
        let r = Il2Cpp {
            stream: elf.stream,
            version,
            is_32bit: elf.is_32bit,
            types: elf.types,
            method_pointers: elf.method_pointers,
            generic_method_pointers: elf.generic_method_pointers,
            invoker_pointers: elf.invoker_pointers,
            field_offsets: Vec::new(),
            metadata_usages: elf.metadata_usages,
            custom_attribute_generators: elf.custom_attribute_generators,
            generic_insts: elf.generic_insts,
            generic_inst_pointers: elf.generic_inst_pointers,
            method_specs: elf.method_specs,
            generic_method_table: elf.generic_method_table,
            code_gen_modules: elf.code_gen_modules,
            code_gen_module_method_pointers: elf.code_gen_module_method_pointers,
            method_definition_method_specs: elf.method_definition_method_specs,
            method_spec_generic_method_pointers: elf.method_spec_generic_method_pointers,
            code_registration: 0,
            metadata_registration: 0,
            is_dumped: elf.is_dumped,
            image_base,
            field_offset_pointers: elf.field_offsets,
            field_offsets_are_pointers: elf.field_offsets_are_pointers,
            type_dic: elf.type_dic,
            va_segments,
            data_sections,
            rgctxs_dictionary: elf.rgctxs_dictionary,
            is_pe: false,
            reverse_pinvoke_wrappers: Vec::new(),
            unresolved_virtual_call_pointers: Vec::new(),
            arch: elf.arch,
            e_machine: elf.e_machine,
            exported_symbols: Vec::new(),
            api_export_rvas: NameMap::new(),
            codm: elf.codm_diag,
            type_definition_sizes: elf.type_definition_sizes,
        };
        assert(r@.field_offsets =~= Seq::<Seq<i32>>::empty());
        r
    }

    /// The file offset of an address.
    pub fn map_vatr(&self, addr: u64) -> (r: Result<u64, Error>)
        requires
            self.wf(),
        ensures
            io::outcome(r) == offset_of(self.va_segments@, addr),
    {
        let mut i: usize = 0;
        while i < self.va_segments.len()
            invariant
                self.wf(),
                i <= self.va_segments@.len(),
                forall|j: int|
                    0 <= j < i ==> !holds_address(#[trigger] self.va_segments@[j], addr as int),
            decreases self.va_segments@.len() - i,
        {
            let seg = self.va_segments[i];
            assert(self.va_segments@[i as int].vaddr + self.va_segments@[i as int].memsz
                <= u64::MAX);
            if addr >= seg.vaddr && addr <= seg.vaddr + seg.memsz {
                proof {
                    lemma_segment_of_address(self.va_segments@, addr as int, i as int);
                }
                return Ok(addr - seg.vaddr + seg.offset);
            }
            i = i + 1;
        }
        proof {
            lemma_segment_of_address(self.va_segments@, addr as int, i as int);
        }
        Err(Error::AddressNotMapped(addr))
    }

    /// The address of a file offset; 0 where it has none.
    pub fn map_rtva(&self, offset: u64) -> (r: u64)
        requires
            self.wf(),
        ensures
            r == address_of(self.va_segments@, offset),
    {
        let mut i: usize = 0;
        while i < self.va_segments.len()
            invariant
                self.wf(),
                i <= self.va_segments@.len(),
                forall|j: int|
                    0 <= j < i ==> !holds_offset(#[trigger] self.va_segments@[j], offset as int),
            decreases self.va_segments@.len() - i,
        {
            let seg = self.va_segments[i];
            assert(self.va_segments@[i as int].vaddr + self.va_segments@[i as int].memsz
                <= u64::MAX);
            if offset >= seg.offset && offset <= seg.offset + seg.memsz {
                proof {
                    lemma_segment_of_offset(self.va_segments@, offset as int, i as int);
                }
                return offset - seg.offset + seg.vaddr;
            }
            i = i + 1;
        }
        proof {
            lemma_segment_of_offset(self.va_segments@, offset as int, i as int);
        }
        0
    }

    /// The distance of an address from the image base.
    pub fn get_rva(&self, pointer: u64) -> (r: u64)
        ensures
            r == self.rva(pointer),
    {
        if self.image_base > 0 {
            pointer.wrapping_sub(self.image_base)
        } else {
            pointer
        }
    }

    /// The pointer of a method, or 0.
    pub fn get_method_pointer(&self, image_name: &str, method_def: &Il2CppMethodDefinition) -> (r:
        u64)
        ensures
            r == self.method_pointer(image_name@, *method_def),
    {
        if self.version >= V24_2 {
            match self.code_gen_module_method_pointers.get(image_name) {
                Some(ptrs) => {
                    let row: usize = (method_def.token % 0x100_0000) as usize;
                    if row > 0 && row <= ptrs.len() {
                        return ptrs[row - 1];
                    }
                },
                None => {},
            }
            0
        } else {
            let idx: usize = method_def.method_index;
            if idx < self.method_pointers.len() {
                self.method_pointers[idx]
            } else {
                0
            }
        }
    }

    /// The offset word of a field, or -1.
    pub fn get_raw_field_offset(
        &self,
        type_def_index: usize,
        field_index_in_type: usize,
        field_index: usize,
    ) -> (r: i32)
        requires
            self.wf(),
        ensures
            r == self.raw_field_offset(
                type_def_index as int,
                field_index_in_type as int,
                field_index as int,
            ),
    {
        if self.field_offsets_are_pointers {
            if type_def_index >= self.field_offset_pointers.len() {
                return -1;
            }
            let ptr: u64 = self.field_offset_pointers[type_def_index];
            if ptr == 0 {
                return -1;
            }
            let ghost target = ptr + field_index_in_type * 4;
            proof {
                lemma_segment_found(self.va_segments@, target);
            }
            let distance: u64 = match (field_index_in_type as u64).checked_mul(4) {
                Some(d) => d,
                None => {
                    return -1;
                },
            };
            let target_va: u64 = match ptr.checked_add(distance) {
                Some(va) => va,
                None => {
                    return -1;
                },
            };
            match self.map_vatr(target_va) {
                Ok(read_pos) => match self.stream.peek_i32_at(read_pos) {
                    Ok(v) => v,
                    Err(_) => -1,
                },
                Err(_) => -1,
            }
        } else if self.field_offsets.len() > 0 {
            let flat = &self.field_offsets[0];
            if field_index < flat.len() {
                flat[field_index]
            } else {
                -1
            }
        } else {
            -1
        }
    }

    /// The offset of a field.
    pub fn get_field_offset_from_index(
        &self,
        type_def_index: usize,
        field_index_in_type: usize,
        field_index: usize,
        is_value_type: bool,
        is_static: bool,
    ) -> (r: i32)
        requires
            self.wf(),
        ensures
            r == self.field_offset(
                type_def_index as int,
                field_index_in_type as int,
                field_index as int,
                is_value_type,
                is_static,
            ),
    {
        let raw: i32 = self.get_raw_field_offset(type_def_index, field_index_in_type, field_index);
        let decoded = field_layout::decode_field_offset(raw);
        let offset: i32 = decoded.effective;
        if offset > 0 && is_value_type && !is_static {
            let header: i32 = if self.is_32bit {
                8
            } else {
                16
            };
            return offset - header;
        }
        offset
    }

    /// The `k`-th pointer from the file offset `at` on, where those before it could be read.
    fn read_pointer_from(&self, at: u64, k: u64) -> (r: Result<u64, Error>)
        requires
            k <= 3,
            forall|j: int| 0 <= j < k ==> #[trigger] self.pointer_from(at, j) is Ok,
        ensures
            io::outcome(r) == self.pointer_from(at, k as int),
    {
        let size: u64 = self.stream.pointer_size() as u64;
        let len: u64 = self.stream.len();
        let step: u64 = if k == 0 {
            0
        } else if k == 1 {
            size
        } else if k == 2 {
            size + size
        } else {
            size + size + size
        };
        proof {
            assert(0 * size == 0 && 1 * size == size && 2 * size == size + size && 3 * size == size
                + size + size) by (nonlinear_arith);
            if k >= 1 {
                assert(self.pointer_from(at, 0) is Ok);
                assert(at + size <= len);
            }
            if k >= 2 {
                assert(self.pointer_from(at, 1) is Ok);
                assert(at + size + size <= len);
            }
            if k >= 3 {
                assert(self.pointer_from(at, 2) is Ok);
                assert(at + size + size + size <= len);
            }
        }
        self.stream.peek_ptr_at(at + step)
    }

    /// The generic class at an address.
    pub fn peek_generic_class(&self, addr: u64) -> (r: Result<Il2CppGenericClass, Error>)
        requires
            self.wf(),
        ensures
            io::outcome(r) == self.generic_class_at(addr),
    {
        let at: u64 = match self.map_vatr(addr) {
            Ok(at) => at,
            Err(e) => {
                return Err(e);
            },
        };
        let first: u64 = match self.read_pointer_from(at, 0) {
            Ok(v) => v,
            Err(e) => {
                return Err(e);
            },
        };
        let class_inst: u64 = match self.read_pointer_from(at, 1) {
            Ok(v) => v,
            Err(e) => {
                return Err(e);
            },
        };
        let method_inst: u64 = match self.read_pointer_from(at, 2) {
            Ok(v) => v,
            Err(e) => {
                return Err(e);
            },
        };
        let cached_class: u64 = match self.read_pointer_from(at, 3) {
            Ok(v) => v,
            Err(e) => {
                return Err(e);
            },
        };
        let newer = self.version >= V27;
        Ok(
            Il2CppGenericClass {
                type_definition_index: if newer {
                    0
                } else {
                    first
                },
                type_ptr: if newer {
                    first
                } else {
                    0
                },
                context: Il2CppGenericContext { class_inst, method_inst },
                cached_class,
            },
        )
    }

    /// The generic instance at an address.
    pub fn peek_generic_inst(&self, addr: u64) -> (r: Result<Il2CppGenericInst, Error>)
        requires
            self.wf(),
        ensures
            io::outcome(r) == self.generic_inst_at(addr),
    {
        let at: u64 = match self.map_vatr(addr) {
            Ok(at) => at,
            Err(e) => {
                return Err(e);
            },
        };
        let type_argc: u64 = match self.read_pointer_from(at, 0) {
            Ok(v) => v,
            Err(e) => {
                return Err(e);
            },
        };
        let type_argv: u64 = match self.read_pointer_from(at, 1) {
            Ok(v) => v,
            Err(e) => {
                return Err(e);
            },
        };
        Ok(Il2CppGenericInst { type_argc, type_argv })
    }

    /// The array of pointers at an address.
    pub fn peek_ptr_array(&self, addr: u64, count: u64) -> (r: Result<Vec<u64>, Error>)
        requires
            self.wf(),
        ensures
            io::array_outcome(r) == self.pointers_at(addr, count),
    {
        match self.map_vatr(addr) {
            Ok(at) => self.stream.read_ptr_array(at, count, "peek_ptr_array"),
            Err(e) => Err(e),
        }
    }

    /// The generic class at an address.
    pub fn read_generic_class(&self, addr: u64) -> (r: Result<Il2CppGenericClass, Error>)
        requires
            self.wf(),
        ensures
            io::outcome(r) == self.generic_class_at(addr),
    {
        self.peek_generic_class(addr)
    }

    /// The generic instance at an address.
    pub fn read_generic_inst(&self, addr: u64) -> (r: Result<Il2CppGenericInst, Error>)
        requires
            self.wf(),
        ensures
            io::outcome(r) == self.generic_inst_at(addr),
    {
        self.peek_generic_inst(addr)
    }

    /// The array of pointers at an address.
    pub fn read_ptr_array(&self, addr: u64, count: u64) -> (r: Result<Vec<u64>, Error>)
        requires
            self.wf(),
        ensures
            io::array_outcome(r) == self.pointers_at(addr, count),
    {
        self.peek_ptr_array(addr, count)
    }

    /// The type whose record stands at an address.
    pub fn get_il2cpp_type(&self, pointer: u64) -> (r: Option<&Il2CppType>)
        ensures
            match r {
                Some(t) => self.type_at(pointer) == Some(*t),
                None => self.type_at(pointer) is None,
            },
    {
        match self.type_dic.get(&pointer) {
            Some(idx) => if *idx < self.types.len() {
                Some(&self.types[*idx])
            } else {
                None
            },
            None => None,
        }
    }

    /// The architecture of the image, or the one that goes with its format and pointer size.
    pub fn detect_architecture(&self, defaults: &DefaultArchitectures) -> (r: Architecture)
        ensures
            r == match self.arch {
                Some(arch) => arch,
                None => if self.is_pe && self.is_32bit {
                    defaults.pe_32bit
                } else if self.is_pe {
                    defaults.pe_64bit
                } else if self.is_32bit {
                    defaults.elf_32bit
                } else {
                    defaults.elf_64bit
                },
            },
    {
        match self.arch {
            Some(arch) => arch,
            None => if self.is_pe && self.is_32bit {
                defaults.pe_32bit
            } else if self.is_pe {
                defaults.pe_64bit
            } else if self.is_32bit {
                defaults.elf_32bit
            } else {
                defaults.elf_64bit
            },
        }
    }
}

// The image as a value.

/// An image as a value.
pub struct Il2CppModel {
    pub bytes: Seq<u8>,
    pub stream_version: u32,
    pub stream_is_32bit: bool,
    pub stream_image_base: u64,
    pub max_array_elems: usize,
    pub version: u32,
    pub is_32bit: bool,
    pub types: Seq<Il2CppType>,
    pub method_pointers: Seq<u64>,
    pub generic_method_pointers: Seq<u64>,
    pub invoker_pointers: Seq<u64>,
    pub field_offsets: Seq<Seq<i32>>,
    pub metadata_usages: Seq<u64>,
    pub custom_attribute_generators: Seq<u64>,
    pub generic_insts: Seq<Il2CppGenericInst>,
    pub generic_inst_pointers: Seq<u64>,
    pub method_specs: Seq<Il2CppMethodSpec>,
    pub generic_method_table: Seq<Il2CppGenericMethodFunctionsDefinitions>,
    pub code_gen_modules: Map<Seq<char>, Il2CppCodeGenModule>,
    pub code_gen_module_method_pointers: Map<Seq<char>, Seq<u64>>,
    pub method_definition_method_specs: Map<usize, Seq<usize>>,
    pub method_spec_generic_method_pointers: Map<usize, u64>,
    pub code_registration: u64,
    pub metadata_registration: u64,
    pub is_dumped: bool,
    pub image_base: u64,
    pub field_offset_pointers: Seq<u64>,
    pub field_offsets_are_pointers: bool,
    pub type_dic: Map<u64, usize>,
    pub va_segments: Seq<VaSegment>,
    pub data_sections: Seq<SearchSection>,
    pub rgctxs_dictionary: Map<Seq<char>, HashMap<u32, Vec<Il2CppRGCTXDefinition>>>,
    pub is_pe: bool,
    pub reverse_pinvoke_wrappers: Seq<u64>,
    pub unresolved_virtual_call_pointers: Seq<u64>,
    pub arch: Option<Architecture>,
    pub e_machine: u16,
    pub exported_symbols: Seq<String>,
    pub api_export_rvas: Map<Seq<char>, u64>,
    pub codm: bool,
    pub type_definition_sizes: Seq<Il2CppTypeDefinitionSizes>,
}

/// A sequence of vectors as a sequence of sequences.
pub open spec fn rows<T>(v: Seq<Vec<T>>) -> Seq<Seq<T>> {
    v.map_values(|row: Vec<T>| row@)
}

/// A map to vectors as a map to sequences.
pub open spec fn listed<K, T>(m: Map<K, Vec<T>>) -> Map<K, Seq<T>> {
    m.map_values(|v: Vec<T>| v@)
}

impl View for Il2Cpp {
    type V = Il2CppModel;

    open spec fn view(&self) -> Il2CppModel {
        Il2CppModel {
            bytes: self.stream.bytes@,
            stream_version: self.stream.version,
            stream_is_32bit: self.stream.is_32bit,
            stream_image_base: self.stream.image_base,
            max_array_elems: self.stream.max_array_elems,
            version: self.version,
            is_32bit: self.is_32bit,
            types: self.types@,
            method_pointers: self.method_pointers@,
            generic_method_pointers: self.generic_method_pointers@,
            invoker_pointers: self.invoker_pointers@,
            field_offsets: rows(self.field_offsets@),
            metadata_usages: self.metadata_usages@,
            custom_attribute_generators: self.custom_attribute_generators@,
            generic_insts: self.generic_insts@,
            generic_inst_pointers: self.generic_inst_pointers@,
            method_specs: self.method_specs@,
            generic_method_table: self.generic_method_table@,
            code_gen_modules: self.code_gen_modules@,
            code_gen_module_method_pointers: listed(self.code_gen_module_method_pointers@),
            method_definition_method_specs: listed(self.method_definition_method_specs@),
            method_spec_generic_method_pointers: self.method_spec_generic_method_pointers@,
            code_registration: self.code_registration,
            metadata_registration: self.metadata_registration,
            is_dumped: self.is_dumped,
            image_base: self.image_base,
            field_offset_pointers: self.field_offset_pointers@,
            field_offsets_are_pointers: self.field_offsets_are_pointers,
            type_dic: self.type_dic@,
            va_segments: self.va_segments@,
            data_sections: self.data_sections@,
            rgctxs_dictionary: self.rgctxs_dictionary@,
            is_pe: self.is_pe,
            reverse_pinvoke_wrappers: self.reverse_pinvoke_wrappers@,
            unresolved_virtual_call_pointers: self.unresolved_virtual_call_pointers@,
            arch: self.arch,
            e_machine: self.e_machine,
            exported_symbols: self.exported_symbols@,
            api_export_rvas: self.api_export_rvas@,
            codm: self.codm,
            type_definition_sizes: self.type_definition_sizes@,
        }
    }
}

/// An image of which nothing has been read yet.
pub open spec fn blank_image(stream: BinaryStream, version: u32, is_32bit: bool) -> Il2CppModel {
    Il2CppModel {
        bytes: stream.bytes@,
        stream_version: version,
        stream_is_32bit: is_32bit,
        stream_image_base: stream.image_base,
        max_array_elems: stream.max_array_elems,
        version,
        is_32bit,
        types: Seq::empty(),
        method_pointers: Seq::empty(),
        generic_method_pointers: Seq::empty(),
        invoker_pointers: Seq::empty(),
        field_offsets: Seq::empty(),
        metadata_usages: Seq::empty(),
        custom_attribute_generators: Seq::empty(),
        generic_insts: Seq::empty(),
        generic_inst_pointers: Seq::empty(),
        method_specs: Seq::empty(),
        generic_method_table: Seq::empty(),
        code_gen_modules: Map::empty(),
        code_gen_module_method_pointers: Map::empty(),
        method_definition_method_specs: Map::empty(),
        method_spec_generic_method_pointers: Map::empty(),
        code_registration: 0,
        metadata_registration: 0,
        is_dumped: false,
        image_base: 0,
        field_offset_pointers: Seq::empty(),
        field_offsets_are_pointers: false,
        type_dic: Map::empty(),
        va_segments: Seq::empty(),
        data_sections: Seq::empty(),
        rgctxs_dictionary: Map::empty(),
        is_pe: false,
        reverse_pinvoke_wrappers: Seq::empty(),
        unresolved_virtual_call_pointers: Seq::empty(),
        arch: None,
        e_machine: 0,
        exported_symbols: Seq::empty(),
        api_export_rvas: Map::empty(),
        codm: false,
        type_definition_sizes: Seq::empty(),
    }
}

/// The data segments of an ELF file end before the end of the address space and of the file
/// offsets.
pub open spec fn elf_fits(segments: Seq<ElfSegment>) -> bool {
    forall|i: int|
        0 <= i < segments.len() && holds_data(#[trigger] segments[i]) ==> segments[i].p_vaddr
            + segments[i].p_memsz <= u64::MAX && segments[i].p_offset + segments[i].p_filesz
            <= u64::MAX
}

/// The segments of an ELF file as parts of memory.
pub open spec fn mapped_segments(segments: Seq<ElfSegment>) -> Seq<VaSegment> {
    segments.map_values(
        |s: ElfSegment| VaSegment { vaddr: s.p_vaddr, memsz: s.p_memsz, offset: s.p_offset },
    )
}

/// The segment is one that holds data: it takes up memory, and is writable, readable or both, and
/// not executable.
pub open spec fn holds_data(s: ElfSegment) -> bool {
    s.p_memsz != 0 && (s.p_flags == 2 || s.p_flags == 4 || s.p_flags == 6)
}

/// The data segments of an ELF file as parts of the file.
pub open spec fn searched_sections(segments: Seq<ElfSegment>) -> Seq<SearchSection>
    decreases segments.len(),
{
    if segments.len() == 0 {
        Seq::empty()
    } else if holds_data(segments.last()) {
        let s = segments.last();
        searched_sections(segments.drop_last()).push(
            SearchSection {
                offset: s.p_offset,
                offset_end: (s.p_offset + s.p_filesz) as u64,
                address: s.p_vaddr,
                address_end: (s.p_vaddr + s.p_memsz) as u64,
            },
        )
    } else {
        searched_sections(segments.drop_last())
    }
}

/// The image that an ELF file holds.
pub open spec fn elf_image(elf: Elf) -> Il2CppModel {
    Il2CppModel {
        bytes: elf.stream.bytes@,
        stream_version: elf.stream.version,
        stream_is_32bit: elf.stream.is_32bit,
        stream_image_base: elf.stream.image_base,
        max_array_elems: elf.stream.max_array_elems,
        version: elf.stream.version,
        is_32bit: elf.is_32bit,
        types: elf.types@,
        method_pointers: elf.method_pointers@,
        generic_method_pointers: elf.generic_method_pointers@,
        invoker_pointers: elf.invoker_pointers@,
        metadata_usages: elf.metadata_usages@,
        custom_attribute_generators: elf.custom_attribute_generators@,
        generic_insts: elf.generic_insts@,
        generic_inst_pointers: elf.generic_inst_pointers@,
        method_specs: elf.method_specs@,
        generic_method_table: elf.generic_method_table@,
        code_gen_modules: elf.code_gen_modules@,
        code_gen_module_method_pointers: listed(elf.code_gen_module_method_pointers@),
        method_definition_method_specs: listed(elf.method_definition_method_specs@),
        method_spec_generic_method_pointers: elf.method_spec_generic_method_pointers@,
        is_dumped: elf.is_dumped,
        image_base: elf.stream.image_base,
        field_offset_pointers: elf.field_offsets@,
        field_offsets_are_pointers: elf.field_offsets_are_pointers,
        type_dic: elf.type_dic@,
        va_segments: mapped_segments(elf.segments@),
        data_sections: searched_sections(elf.segments@),
        rgctxs_dictionary: elf.rgctxs_dictionary@,
        arch: elf.arch,
        e_machine: elf.e_machine,
        codm: elf.codm_diag,
        type_definition_sizes: elf.type_definition_sizes@,
        ..blank_image(elf.stream, elf.stream.version, elf.is_32bit)
    }
}

} // verus!
