//! Where things stand: addresses, file offsets, and what a lookup of an image leads to.
use crate::error::ErrorModel;
use crate::executor::Il2CppExecutor;
use crate::il2cpp::base;
use crate::il2cpp::base::{Elf, ElfSegment, Il2Cpp, SearchSection, VaSegment};
use crate::il2cpp::code;
use crate::il2cpp::structures::{
    Il2CppGenericClass, Il2CppGenericContext, Il2CppGenericInst, Il2CppMethodDefinition,
};
use crate::io;
use crate::laws::words;
use crate::output::method_info;
use crate::output::script;
use vstd::prelude::*;
use vstd::string::*;

verus! {

/// The first segment that holds an address or a file offset, its end included, relates the two:
/// they are as far behind its beginning in memory as in the file. An address that no segment holds
/// is not mapped, and a file offset that none holds has the address 0.
pub proof fn law_mapping(segments: Seq<VaSegment>, at: u64, i: int)
    requires
        base::segments_fit(segments),
        0 <= i <= segments.len(),
    ensures
        (forall|j: int|
            0 <= j < i ==> !((#[trigger] segments[j]).vaddr <= at <= segments[j].vaddr
                + segments[j].memsz)) && i < segments.len() && segments[i].vaddr <= at
            <= segments[i].vaddr + segments[i].memsz ==> base::offset_of(segments, at) == Ok::<
            u64,
            ErrorModel,
        >((segments[i].offset + (at - segments[i].vaddr)) as u64) && segments[i].offset + (at
            - segments[i].vaddr) <= u64::MAX,
        (forall|j: int|
            0 <= j < segments.len() ==> !((#[trigger] segments[j]).vaddr <= at <= segments[j].vaddr
                + segments[j].memsz)) ==> base::offset_of(segments, at) == Err::<u64, ErrorModel>(
            ErrorModel::AddressNotMapped(at as nat),
        ),
        (forall|j: int|
            0 <= j < i ==> !((#[trigger] segments[j]).offset <= at <= segments[j].offset
                + segments[j].memsz)) && i < segments.len() && segments[i].offset <= at
            <= segments[i].offset + segments[i].memsz ==> base::address_of(segments, at) == (
        segments[i].vaddr + (at - segments[i].offset)) as u64 && segments[i].vaddr + (at
            - segments[i].offset) <= u64::MAX,
        (forall|j: int|
            0 <= j < segments.len() ==> !((#[trigger] segments[j]).offset <= at <= segments[j].offset
                + segments[j].memsz)) ==> base::address_of(segments, at) == 0,
{
    let n = segments.len() as int;
    if (forall|j: int|
        0 <= j < i ==> !((#[trigger] segments[j]).vaddr <= at <= segments[j].vaddr
            + segments[j].memsz)) && i < n && segments[i].vaddr <= at <= segments[i].vaddr
        + segments[i].memsz {
        base::lemma_segment_of_address(segments, at as int, i);
    }
    if forall|j: int|
        0 <= j < n ==> !((#[trigger] segments[j]).vaddr <= at <= segments[j].vaddr
            + segments[j].memsz) {
        base::lemma_segment_of_address(segments, at as int, n);
    }
    if (forall|j: int|
        0 <= j < i ==> !((#[trigger] segments[j]).offset <= at <= segments[j].offset
            + segments[j].memsz)) && i < n && segments[i].offset <= at <= segments[i].offset
        + segments[i].memsz {
        base::lemma_segment_of_offset(segments, at as int, i);
    }
    if forall|j: int|
        0 <= j < n ==> !((#[trigger] segments[j]).offset <= at <= segments[j].offset
            + segments[j].memsz) {
        base::lemma_segment_of_offset(segments, at as int, n);
    }
}

/// The distance of an address from the image base is their difference, going around the address
/// space where the address is before the base.
pub proof fn law_rva(il2cpp: Il2Cpp, pointer: u64)
    ensures
        (il2cpp.rva(pointer) + il2cpp.image_base - pointer) % 0x1_0000_0000_0000_0000 == 0,
        il2cpp.image_base == 0 ==> il2cpp.rva(pointer) == pointer,
        base::based_on(il2cpp.image_base, il2cpp.rva(pointer)) == pointer,
{
}

/// Since version 24.2 the code of a method is that of its module in the row of its token, counted
/// from 1 by the lower three bytes; before, it is the one of its index. Where there is none it is
/// 0.
pub proof fn law_method_pointer(il2cpp: Il2Cpp, image: Seq<char>, md: Il2CppMethodDefinition)
    ensures
        ({
            let p = il2cpp.method_pointer(image, md);
            let modules = il2cpp.code_gen_module_method_pointers@;
            let row = md.token as int % 0x100_0000;
            &&& il2cpp.version >= words::version_number(24, 2) && modules.contains_key(image)
                && 1 <= row <= modules[image]@.len() ==> p == modules[image]@[row - 1]
            &&& il2cpp.version >= words::version_number(24, 2) && !(modules.contains_key(image)
                && 1 <= row <= modules[image]@.len()) ==> p == 0
            &&& il2cpp.version < words::version_number(24, 2) && md.method_index
                < il2cpp.method_pointers@.len() ==> p
                == il2cpp.method_pointers@[md.method_index as int]
            &&& il2cpp.version < words::version_number(24, 2) && md.method_index
                >= il2cpp.method_pointers@.len() ==> p == 0
        }),
{
}

/// The number that a word holds in two's complement.
pub open spec fn signed_word(s: Seq<u8>, at: int) -> int {
    if words::word32(s, at) < 0x8000_0000 {
        words::word32(s, at)
    } else {
        words::word32(s, at) - 0x1_0000_0000
    }
}

/// The offset word of a field is the signed word in the place of the field behind the pointer of
/// its type, or in the one list of all fields; -1 where there is none. The offset of a field is its
/// word without the top bit, and for a field of the objects of a value type, if it is not 0,
/// without the two pointers that an object begins with.
pub proof fn law_field_offset(
    il2cpp: Il2Cpp,
    td: int,
    k: int,
    field: int,
    value_type: bool,
    is_static: bool,
)
    requires
        0 <= td,
        0 <= k,
        0 <= field,
        il2cpp.wf(),
    ensures
        ({
            let raw = il2cpp.raw_field_offset(td, k, field);
            let pointers = il2cpp.field_offset_pointers@;
            let place = pointers[td] + 4 * k;
            let at = base::offset_of(il2cpp.va_segments@, place as u64);
            let lists = il2cpp.field_offsets@;
            let found = td < pointers.len() && pointers[td] != 0 && place <= u64::MAX && at is Ok
                && at->Ok_0 + 4 <= il2cpp.stream.bytes@.len();
            &&& il2cpp.field_offsets_are_pointers && found ==> raw == signed_word(
                il2cpp.stream.bytes@,
                at->Ok_0 as int,
            )
            &&& il2cpp.field_offsets_are_pointers && !found ==> raw == -1
            &&& !il2cpp.field_offsets_are_pointers && lists.len() > 0 && field < lists[0]@.len()
                ==> raw == lists[0]@[field]
            &&& !il2cpp.field_offsets_are_pointers && !(lists.len() > 0 && field < lists[0]@.len())
                ==> raw == -1
        }),
        ({
            let raw = il2cpp.raw_field_offset(td, k, field) as int;
            let low = raw % 0x8000_0000;
            il2cpp.field_offset(td, k, field, value_type, is_static) == if low > 0 && value_type
                && !is_static {
                low - 2 * words::pointer_bytes(il2cpp.is_32bit)
            } else {
                low
            }
        }),
{
    let pointers = il2cpp.field_offset_pointers@;
    if il2cpp.field_offsets_are_pointers && td < pointers.len() && pointers[td] != 0 {
        let place = pointers[td] + 4 * k;
        if place <= u64::MAX {
            if let Ok(at) = base::offset_of(il2cpp.va_segments@, place as u64) {
                words::law_words(il2cpp.stream.bytes@, at);
                let seg = base::segment_of_address(il2cpp.va_segments@, place)->0;
                lemma_in_segment(il2cpp.va_segments@, place);
            }
        } else {
            lemma_in_segment(il2cpp.va_segments@, place);
        }
    }
}

proof fn lemma_in_segment(segments: Seq<VaSegment>, addr: int)
    requires
        base::segments_fit(segments),
    ensures
        base::segment_of_address(segments, addr) matches Some(seg) ==> seg.vaddr <= addr
            <= seg.vaddr + seg.memsz && seg.vaddr + seg.memsz <= u64::MAX && seg.offset + seg.memsz
            <= u64::MAX,
    decreases segments.len(),
{
    if segments.len() > 0 {
        assert(segments[0].vaddr + segments[0].memsz <= u64::MAX);
        let rest = segments.drop_first();
        assert forall|i: int| 0 <= i < rest.len() implies (#[trigger] rest[i]).vaddr
            + rest[i].memsz <= u64::MAX && rest[i].offset + rest[i].memsz <= u64::MAX by {
            assert(rest[i] == segments[i + 1]);
        }
        lemma_in_segment(rest, addr);
    }
}

/// The file has `n` pointers one after the other from an address on.
pub open spec fn has_pointers(il2cpp: Il2Cpp, addr: u64, n: int) -> bool {
    base::offset_of(il2cpp.va_segments@, addr) matches Ok(at) && at + n * words::pointer_bytes(
        il2cpp.stream.is_32bit,
    ) <= il2cpp.stream.bytes@.len()
}

/// The `k`-th pointer from an address on.
pub open spec fn pointer_at(il2cpp: Il2Cpp, addr: u64, k: int) -> u64 {
    words::pointer_word(
        il2cpp.stream.bytes@,
        il2cpp.stream.is_32bit,
        base::offset_of(il2cpp.va_segments@, addr)->Ok_0 + k * words::pointer_bytes(
            il2cpp.stream.is_32bit,
        ),
    ) as u64
}

proof fn lemma_pointer_from(il2cpp: Il2Cpp, at: u64, k: int)
    requires
        0 <= k < 4,
        at + (k + 1) * words::pointer_bytes(il2cpp.stream.is_32bit)
            <= il2cpp.stream.bytes@.len(),
        il2cpp.stream.bytes@.len() <= u64::MAX,
    ensures
        il2cpp.pointer_from(at, k) == Ok::<u64, ErrorModel>(
            words::pointer_word(
                il2cpp.stream.bytes@,
                il2cpp.stream.is_32bit,
                at + k * words::pointer_bytes(il2cpp.stream.is_32bit),
            ) as u64,
        ),
{
    let size = words::pointer_bytes(il2cpp.stream.is_32bit);
    lemma_steps(il2cpp.stream.is_32bit, k);
    words::law_words(il2cpp.stream.bytes@, (at + k * size) as u64);
}

proof fn lemma_steps(is_32bit: bool, k: int)
    requires
        0 <= k < 4,
    ensures
        0 <= k * words::pointer_bytes(is_32bit) <= 32,
        (k + 1) * words::pointer_bytes(is_32bit) == k * words::pointer_bytes(is_32bit)
            + words::pointer_bytes(is_32bit),
        k * io::pointer_len(is_32bit) == k * words::pointer_bytes(is_32bit),
{
    assert(k == 0 || k == 1 || k == 2 || k == 3);
}

/// A generic class is a record of four pointers: its type, which is an index before version 27 and
/// an address since, the arguments of its class and of its method, and the class itself. A generic
/// instance is a record of two: how many arguments it has, and where their addresses stand. Both
/// can be read if and only if the file has them.
pub proof fn law_generic_records(il2cpp: Il2Cpp, addr: u64)
    requires
        il2cpp.stream.bytes@.len() <= u64::MAX - 64,
    ensures
        has_pointers(il2cpp, addr, 4) ==> il2cpp.generic_class_at(addr) == Ok::<
            Il2CppGenericClass,
            ErrorModel,
        >(
            Il2CppGenericClass {
                type_definition_index: if il2cpp.version < words::version_number(27, 0) {
                    pointer_at(il2cpp, addr, 0)
                } else {
                    0
                },
                type_ptr: if il2cpp.version < words::version_number(27, 0) {
                    0
                } else {
                    pointer_at(il2cpp, addr, 0)
                },
                context: Il2CppGenericContext {
                    class_inst: pointer_at(il2cpp, addr, 1),
                    method_inst: pointer_at(il2cpp, addr, 2),
                },
                cached_class: pointer_at(il2cpp, addr, 3),
            },
        ),
        has_pointers(il2cpp, addr, 2) ==> il2cpp.generic_inst_at(addr) == Ok::<
            Il2CppGenericInst,
            ErrorModel,
        >(
            Il2CppGenericInst {
                type_argc: pointer_at(il2cpp, addr, 0),
                type_argv: pointer_at(il2cpp, addr, 1),
            },
        ),
        il2cpp.generic_class_at(addr) is Ok ==> has_pointers(il2cpp, addr, 4),
        il2cpp.generic_inst_at(addr) is Ok ==> has_pointers(il2cpp, addr, 2),
{
    let size = words::pointer_bytes(il2cpp.stream.is_32bit);
    if let Ok(at) = base::offset_of(il2cpp.va_segments@, addr) {
        if has_pointers(il2cpp, addr, 4) {
            lemma_pointer_from(il2cpp, at, 2);
            lemma_pointer_from(il2cpp, at, 3);
        }
        if has_pointers(il2cpp, addr, 2) {
            lemma_pointer_from(il2cpp, at, 0);
            lemma_pointer_from(il2cpp, at, 1);
        }
        if il2cpp.generic_class_at(addr) is Ok {
            lemma_pointer_place(il2cpp, at, 3);
        }
        if il2cpp.generic_inst_at(addr) is Ok {
            lemma_pointer_place(il2cpp, at, 1);
        }
    }
}

proof fn lemma_pointer_place(il2cpp: Il2Cpp, at: u64, k: int)
    requires
        0 <= k < 4,
        il2cpp.stream.bytes@.len() <= u64::MAX - 64,
        il2cpp.pointer_from(at, 0) is Ok,
        il2cpp.pointer_from(at, k) is Ok,
    ensures
        at + (k + 1) * words::pointer_bytes(il2cpp.stream.is_32bit)
            <= il2cpp.stream.bytes@.len(),
{
    let size = words::pointer_bytes(il2cpp.stream.is_32bit);
    lemma_steps(il2cpp.stream.is_32bit, k);
    lemma_steps(il2cpp.stream.is_32bit, 0);
    assert(at + size <= il2cpp.stream.bytes@.len());
    assert(at + k * size <= u64::MAX);
}

/// The array of pointers at an address is read from the places in the file, if and only if its
/// length is within the limit and the file has it. The type of an address is the one whose record
/// stands there.
pub proof fn law_arrays(il2cpp: Il2Cpp, addr: u64, count: u64)
    ensures
        ({
            let r = il2cpp.pointers_at(addr, count);
            &&& r is Ok <==> base::offset_of(il2cpp.va_segments@, addr) is Ok && (count == 0 || (
            count <= il2cpp.stream.max_array_elems && has_pointers(il2cpp, addr, count as int)))
            &&& r matches Ok(v) ==> v.len() == count && forall|i: int|
                0 <= i < count ==> #[trigger] v[i] == pointer_at(il2cpp, addr, i)
        }),
        il2cpp.type_at(addr) is Some <==> il2cpp.type_dic@.contains_key(addr)
            && il2cpp.type_dic@[addr] < il2cpp.types@.len(),
        il2cpp.type_at(addr) matches Some(t) ==> t
            == il2cpp.types@[il2cpp.type_dic@[addr] as int],
{
    if let Ok(at) = base::offset_of(il2cpp.va_segments@, addr) {
        words::law_pointer_array(
            il2cpp.stream.bytes@,
            il2cpp.stream.is_32bit,
            il2cpp.stream.max_array_elems,
            at,
            count,
            "peek_ptr_array"@,
        );
        if let Ok(v) = il2cpp.pointers_at(addr, count) {
            assert forall|i: int| 0 <= i < count implies #[trigger] v[i] == pointer_at(
                il2cpp,
                addr,
                i,
            ) by {
                words::lemma_words(
                    il2cpp.stream.bytes@,
                    at + i * words::pointer_bytes(il2cpp.stream.is_32bit),
                );
            }
        }
    }
}

/// The bytes at a distance from the image base are those from its place in the file on: as many as
/// are asked for, or all that are left if that is less. Where the place is not mapped, the distance
/// is taken for a file offset; where the file has ended, there are none.
pub proof fn law_bytes_at_rva(il2cpp: Il2Cpp, rva: u64, size: nat)
    ensures
        ({
            let data = il2cpp.stream.bytes@;
            let r = il2cpp.bytes_at_rva(rva, size);
            let va = ((rva + il2cpp.image_base) % 0x1_0000_0000_0000_0000) as u64;
            let start = match base::offset_of(il2cpp.va_segments@, va) {
                Ok(at) => at,
                Err(_) => rva,
            };
            &&& r is Some <==> start < data.len()
            &&& r matches Some(v) ==> {
                &&& v.len() == size || (v.len() < size && start + v.len() == data.len())
                &&& forall|i: int| 0 <= i < v.len() ==> #[trigger] v[i] == data[start + i]
            }
        }),
{
    let va = rva + il2cpp.image_base;
    if va <= u64::MAX {
        assert(va % 0x1_0000_0000_0000_0000 == va);
    } else {
        assert(va % 0x1_0000_0000_0000_0000 == va - 0x1_0000_0000_0000_0000);
    }
    assert(base::based_on(il2cpp.image_base, rva) == (va % 0x1_0000_0000_0000_0000) as u64);
}

/// The segment of an ELF file takes up memory and is not executable, but readable or writable.
pub open spec fn is_data_segment(s: ElfSegment) -> bool {
    s.p_memsz > 0 && s.p_flags % 2 == 0 && 0 < s.p_flags < 8
}

/// The image of an ELF file has its segments in order, and as data sections those that hold data,
/// in order, with their places in the file and in memory. Its version and its base are those of the
/// file, and its tables are those that were found.
pub proof fn law_elf_image(elf: Elf)
    requires
        base::elf_fits(elf.segments@),
    ensures
        ({
            let r = base::elf_image(elf);
            let all = elf.segments@;
            &&& r.va_segments.len() == all.len()
            &&& forall|i: int|
                0 <= i < all.len() ==> {
                    let s = #[trigger] r.va_segments[i];
                    s.vaddr == all[i].p_vaddr && s.memsz == all[i].p_memsz && s.offset
                        == all[i].p_offset
                }
            &&& r.data_sections == all.filter(|s: ElfSegment| is_data_segment(s)).map_values(
                |s: ElfSegment|
                    SearchSection {
                        offset: s.p_offset,
                        offset_end: (s.p_offset + s.p_filesz) as u64,
                        address: s.p_vaddr,
                        address_end: (s.p_vaddr + s.p_memsz) as u64,
                    },
            )
            &&& r.version == elf.stream.version
            &&& r.image_base == elf.stream.image_base
            &&& r.is_32bit == elf.is_32bit
            &&& r.is_dumped == elf.is_dumped
            &&& r.codm == elf.codm_diag
            &&& r.types == elf.types@
            &&& r.type_dic == elf.type_dic@
            &&& r.method_pointers == elf.method_pointers@
            &&& r.generic_method_pointers == elf.generic_method_pointers@
            &&& r.invoker_pointers == elf.invoker_pointers@
            &&& r.field_offset_pointers == elf.field_offsets@
            &&& r.field_offsets_are_pointers == elf.field_offsets_are_pointers
            &&& r.e_machine == elf.e_machine
            &&& !r.is_pe
        }),
{
    lemma_sections(elf.segments@);
}

proof fn lemma_sections(all: Seq<ElfSegment>)
    ensures
        base::searched_sections(all) == all.filter(
            |s: ElfSegment| is_data_segment(s),
        ).map_values(
            |s: ElfSegment|
                SearchSection {
                    offset: s.p_offset,
                    offset_end: (s.p_offset + s.p_filesz) as u64,
                    address: s.p_vaddr,
                    address_end: (s.p_vaddr + s.p_memsz) as u64,
                },
        ),
    decreases all.len(),
{
    reveal(Seq::filter);
    let wanted = |s: ElfSegment| is_data_segment(s);
    let section = |s: ElfSegment|
        SearchSection {
            offset: s.p_offset,
            offset_end: (s.p_offset + s.p_filesz) as u64,
            address: s.p_vaddr,
            address_end: (s.p_vaddr + s.p_memsz) as u64,
        };
    if all.len() == 0 {
        assert(base::searched_sections(all) =~= all.filter(wanted).map_values(section));
    } else {
        lemma_sections(all.drop_last());
        assert(base::holds_data(all.last()) == is_data_segment(all.last()));
        assert(base::searched_sections(all) =~= all.filter(wanted).map_values(section));
    }
}

/// One of the pointers leads to code at the distance `a` from the image base.
pub open spec fn leads_to(il2cpp: Il2Cpp, pointers: Seq<u64>, a: u64) -> bool {
    exists|i: int|
        0 <= i < pointers.len() && #[trigger] pointers[i] != 0 && (a + il2cpp.image_base
            - pointers[i]) % 0x1_0000_0000_0000_0000 == 0
}

proof fn lemma_leads_to(il2cpp: Il2Cpp, pointers: Seq<u64>, a: u64)
    ensures
        code::points_to(il2cpp, pointers, a) == leads_to(il2cpp, pointers, a),
{
    if code::points_to(il2cpp, pointers, a) {
        let i = choose|i: int|
            0 <= i < pointers.len() && #[trigger] pointers[i] > 0 && a == il2cpp.rva(pointers[i]);
        law_rva(il2cpp, pointers[i]);
    }
    if leads_to(il2cpp, pointers, a) {
        let i = choose|i: int|
            0 <= i < pointers.len() && #[trigger] pointers[i] != 0 && (a + il2cpp.image_base
                - pointers[i]) % 0x1_0000_0000_0000_0000 == 0;
        assert(a == il2cpp.rva(pointers[i]));
    }
}

/// The code addresses of a script are those of the methods: since version 24.2 of all modules,
/// before of the one table; of generic methods; of invokers; before version 29 of the generators of
/// custom attributes; and since version 22 of the wrappers for calls from outside and of the
/// virtual calls that were left open.
pub proof fn law_table_addresses(il2cpp: Il2Cpp, x: Il2CppExecutor, a: u64)
    ensures
        script::table_address(il2cpp, x, a) <==> {
            ||| il2cpp.version >= words::version_number(24, 2) && exists|name: Seq<char>| #[trigger]
                il2cpp.code_gen_module_method_pointers@.contains_key(name) && leads_to(
                    il2cpp,
                    il2cpp.code_gen_module_method_pointers@[name]@,
                    a,
                )
            ||| il2cpp.version < words::version_number(24, 2) && leads_to(
                il2cpp,
                il2cpp.method_pointers@,
                a,
            )
            ||| leads_to(il2cpp, il2cpp.generic_method_pointers@, a)
            ||| leads_to(il2cpp, il2cpp.invoker_pointers@, a)
            ||| il2cpp.version < words::version_number(29, 0) && leads_to(
                il2cpp,
                x.custom_attribute_generators@,
                a,
            )
            ||| il2cpp.version >= words::version_number(22, 0) && leads_to(
                il2cpp,
                il2cpp.reverse_pinvoke_wrappers@,
                a,
            )
            ||| il2cpp.version >= words::version_number(22, 0) && leads_to(
                il2cpp,
                il2cpp.unresolved_virtual_call_pointers@,
                a,
            )
        },
{
    assert forall|v: Seq<u64>| #[trigger]
        code::points_to(il2cpp, v, a) == leads_to(il2cpp, v, a) by {
        lemma_leads_to(il2cpp, v, a);
    }
    if exists|name: Seq<char>| #[trigger]
        il2cpp.code_gen_module_method_pointers@.contains_key(name) && leads_to(
            il2cpp,
            il2cpp.code_gen_module_method_pointers@[name]@,
            a,
        ) {
        let name = choose|name: Seq<char>| #[trigger]
            il2cpp.code_gen_module_method_pointers@.contains_key(name) && leads_to(
                il2cpp,
                il2cpp.code_gen_module_method_pointers@[name]@,
                a,
            );
        assert(code::points_to(
            il2cpp,
            il2cpp.code_gen_module_method_pointers@[name]@,
            a,
        ));
    }
}

/// The code pointers of an image are those of its methods, of its generic methods, of the methods
/// of its modules, and of the methods of its instances.
pub proof fn law_code_pointers(il2cpp: Il2Cpp, p: u64)
    ensures
        il2cpp.method_pointers@.contains(p) ==> il2cpp.has_code_pointer(p),
        il2cpp.generic_method_pointers@.contains(p) ==> il2cpp.has_code_pointer(p),
        forall|name: Seq<char>| #[trigger]
            il2cpp.code_gen_module_method_pointers@.contains_key(name)
                && il2cpp.code_gen_module_method_pointers@[name]@.contains(p)
                ==> il2cpp.has_code_pointer(p),
        forall|spec: usize| #[trigger]
            il2cpp.method_spec_generic_method_pointers@.contains_key(spec)
                && il2cpp.method_spec_generic_method_pointers@[spec] == p
                ==> il2cpp.has_code_pointer(p),
        il2cpp.has_code_pointer(p) && !il2cpp.method_pointers@.contains(p)
            && !il2cpp.generic_method_pointers@.contains(p) ==> (exists|name: Seq<char>| #[trigger]
            il2cpp.code_gen_module_method_pointers@.contains_key(name)
                && il2cpp.code_gen_module_method_pointers@[name]@.contains(p)) || exists|
            spec: usize,
        | #[trigger]
            il2cpp.method_spec_generic_method_pointers@.contains_key(spec)
                && il2cpp.method_spec_generic_method_pointers@[spec] == p,
{
}

/// The size of the body of a method is the distance to the next method, but at least 4 bytes and at
/// most 16384; that of the last method is the most.
pub proof fn law_body_sizes(addrs: Seq<u64>, i: int)
    requires
        0 <= i < addrs.len(),
    ensures
        ({
            let n = code::body_size_at(addrs, i);
            let distance = addrs[i + 1] - addrs[i];
            &&& i + 1 == addrs.len() ==> n == 16384
            &&& i + 1 < addrs.len() && 4 <= distance <= 16384 ==> n == distance
            &&& i + 1 < addrs.len() && distance < 4 ==> n == 4
            &&& i + 1 < addrs.len() && distance > 16384 ==> n == 16384
        }),
{
}

/// The methods of instances of a method, and the code of a method of an instance, are those that
/// the lookup of the image leads to.
pub proof fn law_instances(il2cpp: Il2Cpp, method: usize, spec: usize)
    ensures
        il2cpp.method_definition_method_specs@.contains_key(method) ==> method_info::specs_for(
            il2cpp,
            method,
        ) == il2cpp.method_definition_method_specs@[method]@,
        !il2cpp.method_definition_method_specs@.contains_key(method) ==> method_info::specs_for(
            il2cpp,
            method,
        ).len() == 0,
        il2cpp.method_spec_generic_method_pointers@.contains_key(spec)
            ==> method_info::spec_pointer(il2cpp, spec)
            == il2cpp.method_spec_generic_method_pointers@[spec],
        !il2cpp.method_spec_generic_method_pointers@.contains_key(spec)
            ==> method_info::spec_pointer(il2cpp, spec) == 0,
{
}

/// An image of which nothing has been read has the bytes of its stream, the version and the pointer
/// size that were given, and nothing else.
pub proof fn law_blank_image(stream: io::BinaryStream, version: u32, is_32bit: bool)
    ensures
        ({
            let r = base::blank_image(stream, version, is_32bit);
            &&& r.bytes == stream.bytes@
            &&& r.max_array_elems == stream.max_array_elems
            &&& r.version == version && r.stream_version == version
            &&& r.is_32bit == is_32bit && r.stream_is_32bit == is_32bit
            &&& r.image_base == 0 && r.code_registration == 0 && r.metadata_registration == 0
            &&& !r.is_dumped && !r.is_pe && !r.codm && !r.field_offsets_are_pointers
            &&& r.arch is None
            &&& r.types.len() == 0 && r.method_pointers.len() == 0
                && r.generic_method_pointers.len() == 0 && r.invoker_pointers.len() == 0
            &&& r.field_offsets.len() == 0 && r.field_offset_pointers.len() == 0
            &&& r.metadata_usages.len() == 0 && r.custom_attribute_generators.len() == 0
            &&& r.generic_insts.len() == 0 && r.generic_inst_pointers.len() == 0
            &&& r.method_specs.len() == 0 && r.generic_method_table.len() == 0
            &&& r.va_segments.len() == 0 && r.data_sections.len() == 0
            &&& r.reverse_pinvoke_wrappers.len() == 0
                && r.unresolved_virtual_call_pointers.len() == 0
            &&& r.type_definition_sizes.len() == 0 && r.exported_symbols.len() == 0
            &&& forall|p: u64| !r.type_dic.contains_key(p)
            &&& forall|name: Seq<char>|
                !r.code_gen_modules.contains_key(name)
                    && !r.code_gen_module_method_pointers.contains_key(name)
                    && !r.api_export_rvas.contains_key(name)
        }),
{
}

} // verus!
