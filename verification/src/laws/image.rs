//! What reading an image leads to, said of its file and of its two registration records.
use crate::error::ErrorModel;
use crate::il2cpp::base::Il2CppModel;
use crate::il2cpp::init;
use crate::il2cpp::init::Reading;
use crate::il2cpp::records::{Decoding, Mapping, RecordKind, RecordModel};
use crate::il2cpp::structures::{
    Il2CppCodeGenModule, Il2CppCodeRegistration, Il2CppGenericMethodFunctionsDefinitions,
    Il2CppMetadataRegistration, Il2CppMethodSpec, Il2CppType,
};
use crate::laws::words;
use vstd::prelude::*;

verus! {

// Places in the file.

/// The file of an image, with what is known of it before its reading.
pub open spec fn file_of(m: Il2CppModel, map: Mapping, decoding: Decoding) -> Reading {
    Reading {
        bytes: m.bytes,
        is_32bit: m.is_32bit,
        version: m.stream_version,
        limit: m.max_array_elems,
        map,
        decoding,
    }
}

/// The record of a kind at an offset of the file.
pub open spec fn record(f: Reading, kind: RecordKind, at: u64) -> Result<
    (RecordModel, u64),
    ErrorModel,
> {
    (f.decoding)(f.bytes, f.is_32bit, kind, at, f.version)
}

/// The file has room for `count` items of `size` bytes at an address, and they are not more than
/// the limit.
pub open spec fn has_room(f: Reading, addr: u64, count: u64, size: int) -> bool {
    (f.map)(addr) matches Ok(at) && (count == 0 || (count <= f.limit && at + count * size
        <= f.bytes.len()))
}

/// The pointer in place `i` of the table at an address.
pub open spec fn entry(f: Reading, addr: u64, i: int) -> u64 {
    words::pointer_word(
        f.bytes,
        f.is_32bit,
        (f.map)(addr)->Ok_0 + i * words::pointer_bytes(f.is_32bit),
    ) as u64
}

/// The file has a table of `count` pointers at an address.
pub open spec fn has_table(f: Reading, addr: u64, count: u64) -> bool {
    has_room(f, addr, count, words::pointer_bytes(f.is_32bit))
}

/// The table is the one of `count` pointers at an address: each of them is the word that stands in
/// its place of the file.
pub open spec fn is_table(f: Reading, table: Seq<u64>, addr: u64, count: u64) -> bool {
    &&& table.len() == count
    &&& forall|i: int| 0 <= i < count ==> #[trigger] table[i] == entry(f, addr, i)
}

/// The table is the one at an address where the image names one and the file has it, and the one
/// from before elsewhere.
pub open spec fn is_table_or(f: Reading, table: Seq<u64>, before: Seq<u64>, addr: u64, count: u64) -> bool {
    if addr != 0 && count != 0 && has_table(f, addr, count) {
        is_table(f, table, addr, count)
    } else {
        table == before
    }
}

/// The records stand one after the other from `offsets[0]` on, each at its offset.
pub open spec fn is_run(f: Reading, kind: RecordKind, records: Seq<RecordModel>, offsets: Seq<u64>) -> bool {
    &&& offsets.len() == records.len() + 1
    &&& forall|k: int|
        0 <= k < records.len() ==> record(f, kind, #[trigger] offsets[k]) == Ok::<
            (RecordModel, u64),
            ErrorModel,
        >((records[k], offsets[k + 1]))
}

/// The `count` records stand one after the other from an address on.
pub open spec fn are_records(f: Reading, kind: RecordKind, addr: u64, count: u64, records: Seq<RecordModel>) -> bool {
    exists|offsets: Seq<u64>| #[trigger]
        is_run(f, kind, records, offsets) && (f.map)(addr) == Ok::<u64, ErrorModel>(offsets[0])
            && records.len() == count
}

/// The file has `count` records of a kind one after the other from an address on.
pub open spec fn has_records(f: Reading, kind: RecordKind, addr: u64, count: u64) -> bool {
    exists|records: Seq<RecordModel>| #[trigger] are_records(f, kind, addr, count, records)
}

proof fn lemma_table(m: Il2CppModel, f: Reading, at: u64, addr: u64, count: u64)
    requires
        f.bytes == m.bytes,
        f.is_32bit == m.stream_is_32bit,
        f.limit == m.max_array_elems,
        (f.map)(addr) == Ok::<u64, ErrorModel>(at),
    ensures
        init::pointers_in(m, at, count) is Ok <==> has_table(f, addr, count),
        init::pointers_in(m, at, count) matches Ok(v) ==> is_table(f, v, addr, count),
{
    words::law_pointer_array(
        m.bytes,
        m.stream_is_32bit,
        m.max_array_elems,
        at,
        count,
        "read_ptr_array"@,
    );
    if let Ok(v) = init::pointers_in(m, at, count) {
        assert forall|i: int| 0 <= i < count implies #[trigger] v[i] == entry(f, addr, i) by {
            words::lemma_words(f.bytes, at + i * words::pointer_bytes(f.is_32bit));
        }
    }
}

proof fn lemma_run(f: Reading, kind: RecordKind, at: u64, n: nat)
    ensures
        ({
            let t = init::records_from(f, kind, at, n);
            t.2 is None ==> t.0.len() == n && exists|offsets: Seq<u64>| #[trigger]
                is_run(f, kind, t.0, offsets) && offsets[0] == at && offsets.last() == t.1
        }),
    decreases n,
{
    let t = init::records_from(f, kind, at, n);
    if n == 0 {
        let offsets = seq![at];
        assert(is_run(f, kind, t.0, offsets) && offsets[0] == at && offsets.last() == t.1);
    } else {
        lemma_run(f, kind, at, (n - 1) as nat);
        let p = init::records_from(f, kind, at, (n - 1) as nat);
        if t.2 is None {
            let before = choose|offsets: Seq<u64>| #[trigger]
                is_run(f, kind, p.0, offsets) && offsets[0] == at && offsets.last() == p.1;
            let offsets = before.push(t.1);
            assert forall|k: int| 0 <= k < t.0.len() implies record(f, kind, #[trigger] offsets[k])
                == Ok::<(RecordModel, u64), ErrorModel>((t.0[k], offsets[k + 1])) by {
                if k < p.0.len() {
                    assert(before[k] == offsets[k]);
                    assert(before[k + 1] == offsets[k + 1]);
                } else {
                    assert(offsets[k] == p.1);
                }
            }
            assert(is_run(f, kind, t.0, offsets) && offsets[0] == at && offsets.last() == t.1);
        }
    }
}

proof fn lemma_run_found(
    f: Reading,
    kind: RecordKind,
    at: u64,
    records: Seq<RecordModel>,
    offsets: Seq<u64>,
    n: nat,
)
    requires
        is_run(f, kind, records, offsets),
        offsets[0] == at,
        n <= records.len(),
    ensures
        init::records_from(f, kind, at, n) == (records.take(n as int), offsets[n as int], None::<
            ErrorModel,
        >),
    decreases n,
{
    if n == 0 {
        assert(records.take(0) =~= Seq::<RecordModel>::empty());
    } else {
        lemma_run_found(f, kind, at, records, offsets, (n - 1) as nat);
        assert(record(f, kind, offsets[n - 1]) == Ok::<(RecordModel, u64), ErrorModel>(
            (records[n - 1], offsets[n as int]),
        ));
        assert(records.take(n as int) =~= records.take(n - 1).push(records[n - 1]));
    }
}

proof fn lemma_records(f: Reading, kind: RecordKind, at: u64, addr: u64, count: u64)
    requires
        (f.map)(addr) == Ok::<u64, ErrorModel>(at),
    ensures
        ({
            let t = init::records_from(f, kind, at, count as nat);
            &&& t.2 is None <==> has_records(f, kind, addr, count)
            &&& t.2 is None ==> are_records(f, kind, addr, count, t.0)
        }),
{
    let t = init::records_from(f, kind, at, count as nat);
    lemma_run(f, kind, at, count as nat);
    if t.2 is None {
        let offsets = choose|offsets: Seq<u64>| #[trigger]
            is_run(f, kind, t.0, offsets) && offsets[0] == at && offsets.last() == t.1;
        assert(is_run(f, kind, t.0, offsets) && (f.map)(addr) == Ok::<u64, ErrorModel>(offsets[0])
            && t.0.len() == count);
        assert(are_records(f, kind, addr, count, t.0));
    }
    if has_records(f, kind, addr, count) {
        let records = choose|records: Seq<RecordModel>| #[trigger]
            are_records(f, kind, addr, count, records);
        let offsets = choose|offsets: Seq<u64>| #[trigger]
            is_run(f, kind, records, offsets) && (f.map)(addr) == Ok::<u64, ErrorModel>(offsets[0])
                && records.len() == count;
        lemma_run_found(f, kind, at, records, offsets, count as nat);
    }
}

// The types.

/// The kind of the records of types: those of a scrambled image are encoded in their own way.
pub open spec fn type_kind(scrambled: bool) -> RecordKind {
    if scrambled {
        RecordKind::ScrambledType
    } else {
        RecordKind::Type
    }
}

/// The file has the record of a kind at an address.
pub open spec fn has_record(f: Reading, kind: RecordKind, addr: u64) -> bool {
    (f.map)(addr) is Ok && record(f, kind, (f.map)(addr)->Ok_0) is Ok
}

/// The record of a kind at an address.
pub open spec fn record_of(f: Reading, kind: RecordKind, addr: u64) -> RecordModel {
    record(f, kind, (f.map)(addr)->Ok_0)->Ok_0.0
}

/// The file has the types that the metadata registration names. In a memory dump of a scrambled
/// image some of them may be missing.
pub open spec fn has_types(f: Reading, m: Il2CppModel, mr: Il2CppMetadataRegistration) -> bool {
    &&& has_table(f, mr.types, mr.types_count)
    &&& (m.codm && m.is_dumped) || forall|i: int|
        0 <= i < mr.types_count ==> has_record(
            f,
            type_kind(m.codm),
            #[trigger] entry(f, mr.types, i),
        )
}

/// The types are those that the table of the metadata registration points to, in its order, with a
/// blank type for one that is missing. A type is found under the address of its record; where an
/// address occurs more than once, under the last place.
pub open spec fn are_types(
    f: Reading,
    m: Il2CppModel,
    addr: u64,
    n: int,
    types: Seq<Il2CppType>,
    places: Map<u64, usize>,
) -> bool {
    &&& types.len() == n
    &&& forall|i: int|
        0 <= i < n ==> #[trigger] types[i] == if has_record(
            f,
            type_kind(m.codm),
            entry(f, addr, i),
        ) {
            record_of(f, type_kind(m.codm), entry(f, addr, i))->Type_0
        } else {
            Il2CppType::blank()
        }
    &&& forall|i: int|
        0 <= i < n && has_record(f, type_kind(m.codm), #[trigger] entry(f, addr, i))
            ==> places.contains_key(entry(f, addr, i)) && places[entry(f, addr, i)] >= i
    &&& forall|p: u64| #[trigger]
        places.contains_key(p) ==> places[p] < n && entry(f, addr, places[p] as int) == p
            && has_record(f, type_kind(m.codm), p)
}

proof fn lemma_types(f: Reading, m: Il2CppModel, addr: u64, ptrs: Seq<u64>, n: nat)
    requires
        n <= ptrs.len() <= usize::MAX,
        forall|i: int| 0 <= i < ptrs.len() ==> #[trigger] ptrs[i] == entry(f, addr, i),
    ensures
        ({
            let t = init::types_at(f, m.codm, m.codm && m.is_dumped, ptrs, n);
            &&& t.2 is None <==> (m.codm && m.is_dumped) || forall|i: int|
                0 <= i < n ==> has_record(f, type_kind(m.codm), #[trigger] entry(f, addr, i))
            &&& t.2 is None ==> are_types(f, m, addr, n as int, t.0, t.1)
        }),
    decreases n,
{
    if n > 0 {
        lemma_types(f, m, addr, ptrs, (n - 1) as nat);
        let t = init::types_at(f, m.codm, m.codm && m.is_dumped, ptrs, n);
        let p = init::types_at(f, m.codm, m.codm && m.is_dumped, ptrs, (n - 1) as nat);
        let ptr = ptrs[n - 1];
        assert(ptr == entry(f, addr, n - 1));
        let found = has_record(f, type_kind(m.codm), ptr);
        assert(init::type_record(f, m.codm, (n - 1) as nat, ptr) is Ok <==> found);
        if t.2 is None {
            assert forall|i: int|
                0 <= i < n && has_record(
                    f,
                    type_kind(m.codm),
                    #[trigger] entry(f, addr, i),
                ) implies t.1.contains_key(entry(f, addr, i)) && t.1[entry(f, addr, i)] >= i by {}
            assert forall|q: u64| #[trigger] t.1.contains_key(q) implies t.1[q] < n && entry(
                f,
                addr,
                t.1[q] as int,
            ) == q && has_record(f, type_kind(m.codm), q) by {
                if found && q == ptr {
                    assert(t.1[q] == n - 1);
                } else {
                    assert(p.1.contains_key(q));
                }
            }
        }
    }
}

proof fn lemma_with_types(
    m: Il2CppModel,
    mr: Il2CppMetadataRegistration,
    map: Mapping,
    decoding: Decoding,
)
    requires
        m.version == m.stream_version,
        m.stream_is_32bit == m.is_32bit,
    ensures
        ({
            let f = file_of(m, map, decoding);
            let r = init::with_types(m, mr, map, decoding);
            &&& r.1 is Ok <==> has_types(f, m, mr)
            &&& r.1 is Ok ==> are_types(
                f,
                m,
                mr.types,
                mr.types_count as int,
                r.0.types,
                r.0.type_dic,
            )
            &&& r.0 == (Il2CppModel { types: r.0.types, type_dic: r.0.type_dic, ..m })
        }),
{
    reveal(init::with_types);
    let f = file_of(m, map, decoding);
    if let Ok(at) = map(mr.types) {
        lemma_table(m, f, at, mr.types, mr.types_count);
        if let Ok(ptrs) = init::pointers_in(m, at, mr.types_count) {
            lemma_types(f, m, mr.types, ptrs, ptrs.len());
        }
    }
}

// The generic instances.

/// The file has the generic instances that the metadata registration names, if it names any.
pub open spec fn has_insts(f: Reading, mr: Il2CppMetadataRegistration) -> bool {
    mr.generic_insts_count == 0 || {
        &&& has_table(f, mr.generic_insts, mr.generic_insts_count)
        &&& forall|i: int|
            0 <= i < mr.generic_insts_count ==> has_record(
                f,
                RecordKind::GenericInst,
                #[trigger] entry(f, mr.generic_insts, i),
            )
    }
}

proof fn lemma_insts(f: Reading, addr: u64, ptrs: Seq<u64>, n: nat)
    requires
        n <= ptrs.len(),
        forall|i: int| 0 <= i < ptrs.len() ==> #[trigger] ptrs[i] == entry(f, addr, i),
    ensures
        ({
            let t = init::insts_at(f, ptrs, n);
            &&& t.1 is None <==> forall|i: int|
                0 <= i < n ==> has_record(
                    f,
                    RecordKind::GenericInst,
                    #[trigger] entry(f, addr, i),
                )
            &&& t.1 is None ==> t.0.len() == n && forall|i: int|
                0 <= i < n ==> #[trigger] t.0[i] == record_of(
                    f,
                    RecordKind::GenericInst,
                    entry(f, addr, i),
                )->GenericInst_0
        }),
    decreases n,
{
    if n > 0 {
        lemma_insts(f, addr, ptrs, (n - 1) as nat);
        assert(ptrs[n - 1] == entry(f, addr, n - 1));
        assert(init::inst_record(f, ptrs[n - 1]) is Ok <==> has_record(
            f,
            RecordKind::GenericInst,
            ptrs[n - 1],
        ));
    }
}

/// The image has the generic instances of the table, with the table itself; where the metadata
/// registration names none, it keeps those from before.
pub open spec fn insts_read(
    f: Reading,
    mr: Il2CppMetadataRegistration,
    before: Il2CppModel,
    after: Il2CppModel,
) -> bool {
    if mr.generic_insts_count == 0 {
        after.generic_insts == before.generic_insts && after.generic_inst_pointers
            == before.generic_inst_pointers
    } else {
        &&& is_table(f, after.generic_inst_pointers, mr.generic_insts, mr.generic_insts_count)
        &&& after.generic_insts.len() == mr.generic_insts_count
        &&& forall|i: int|
            0 <= i < mr.generic_insts_count ==> #[trigger] after.generic_insts[i] == record_of(
                f,
                RecordKind::GenericInst,
                entry(f, mr.generic_insts, i),
            )->GenericInst_0
    }
}

proof fn lemma_with_insts(
    m: Il2CppModel,
    mr: Il2CppMetadataRegistration,
    map: Mapping,
    decoding: Decoding,
)
    requires
        m.version == m.stream_version,
        m.stream_is_32bit == m.is_32bit,
    ensures
        ({
            let f = file_of(m, map, decoding);
            let r = init::with_generic_insts(m, mr, map, decoding);
            &&& r.1 is Ok <==> has_insts(f, mr)
            &&& r.1 is Ok ==> insts_read(f, mr, m, r.0)
            &&& r.0 == (Il2CppModel {
                generic_insts: r.0.generic_insts,
                generic_inst_pointers: r.0.generic_inst_pointers,
                ..m
            })
        }),
{
    reveal(init::with_generic_insts);
    let f = file_of(m, map, decoding);
    if let Ok(at) = map(mr.generic_insts) {
        lemma_table(m, f, at, mr.generic_insts, mr.generic_insts_count);
        if let Ok(ptrs) = init::pointers_in(m, at, mr.generic_insts_count) {
            lemma_insts(f, mr.generic_insts, ptrs, ptrs.len());
        }
    }
}

// The methods of instances.

/// The file has the records that a registration names, if it names any.
pub open spec fn has_named_records(f: Reading, kind: RecordKind, addr: u64, count: u64) -> bool {
    count == 0 || addr == 0 || has_records(f, kind, addr, count)
}

/// The methods of instances are the records that the metadata registration names, in order; where
/// it names none, those from before.
pub open spec fn method_specs_read(
    f: Reading,
    mr: Il2CppMetadataRegistration,
    before: Seq<Il2CppMethodSpec>,
    after: Seq<Il2CppMethodSpec>,
) -> bool {
    if mr.method_specs_count == 0 || mr.method_specs == 0 {
        after == before
    } else {
        exists|records: Seq<RecordModel>| #[trigger]
            are_records(f, RecordKind::MethodSpec, mr.method_specs, mr.method_specs_count, records)
                && after.len() == records.len() && forall|i: int|
                0 <= i < after.len() ==> #[trigger] after[i] == records[i]->MethodSpec_0
    }
}

/// The table of generic methods holds the records that the metadata registration names, in order;
/// where it names none, those from before.
pub open spec fn generic_methods_read(
    f: Reading,
    mr: Il2CppMetadataRegistration,
    before: Seq<Il2CppGenericMethodFunctionsDefinitions>,
    after: Seq<Il2CppGenericMethodFunctionsDefinitions>,
) -> bool {
    if mr.generic_method_table_count == 0 || mr.generic_method_table == 0 {
        after == before
    } else {
        exists|records: Seq<RecordModel>| #[trigger]
            are_records(
                f,
                RecordKind::GenericMethod,
                mr.generic_method_table,
                mr.generic_method_table_count,
                records,
            ) && after.len() == records.len() && forall|i: int|
                0 <= i < after.len() ==> #[trigger] after[i] == records[i]->GenericMethod_0
    }
}

proof fn lemma_with_specs(
    m: Il2CppModel,
    mr: Il2CppMetadataRegistration,
    map: Mapping,
    decoding: Decoding,
)
    requires
        m.version == m.stream_version,
        m.stream_is_32bit == m.is_32bit,
    ensures
        ({
            let f = file_of(m, map, decoding);
            let r = init::with_method_specs(m, mr, map, decoding);
            &&& r.1 is Ok <==> has_named_records(
                f,
                RecordKind::MethodSpec,
                mr.method_specs,
                mr.method_specs_count,
            )
            &&& r.1 is Ok ==> method_specs_read(f, mr, m.method_specs, r.0.method_specs)
            &&& r.0 == (Il2CppModel { method_specs: r.0.method_specs, ..m })
        }),
        ({
            let f = file_of(m, map, decoding);
            let r = init::with_generic_methods(m, mr, map, decoding);
            &&& r.1 is Ok <==> has_named_records(
                f,
                RecordKind::GenericMethod,
                mr.generic_method_table,
                mr.generic_method_table_count,
            )
            &&& r.1 is Ok ==> generic_methods_read(
                f,
                mr,
                m.generic_method_table,
                r.0.generic_method_table,
            )
            &&& r.0 == (Il2CppModel { generic_method_table: r.0.generic_method_table, ..m })
        }),
{
    reveal(init::with_method_specs);
    reveal(init::with_generic_methods);
    let f = file_of(m, map, decoding);
    if let Ok(at) = map(mr.method_specs) {
        lemma_records(f, RecordKind::MethodSpec, at, mr.method_specs, mr.method_specs_count);
    }
    if let Ok(at) = map(mr.generic_method_table) {
        lemma_records(
            f,
            RecordKind::GenericMethod,
            at,
            mr.generic_method_table,
            mr.generic_method_table_count,
        );
    }
}

// The tables of pointers.

/// The image has the tables of pointers that the registrations name: those of the code registration
/// under their names, and that of the metadata usages. Custom attributes and metadata usages have
/// tables before version 27 only.
pub open spec fn tables_read(
    f: Reading,
    mr: Il2CppMetadataRegistration,
    cr: Il2CppCodeRegistration,
    before: Il2CppModel,
    after: Il2CppModel,
) -> bool {
    &&& is_table_or(
        f,
        after.method_pointers,
        before.method_pointers,
        cr.method_pointers,
        cr.method_pointers_count,
    )
    &&& is_table_or(
        f,
        after.generic_method_pointers,
        before.generic_method_pointers,
        cr.generic_method_pointers,
        cr.generic_method_pointers_count,
    )
    &&& is_table_or(
        f,
        after.invoker_pointers,
        before.invoker_pointers,
        cr.invoker_pointers,
        cr.invoker_pointers_count,
    )
    &&& if f.version < words::version_number(27, 0) {
        &&& is_table_or(
            f,
            after.custom_attribute_generators,
            before.custom_attribute_generators,
            cr.custom_attribute_generators,
            cr.custom_attribute_count,
        )
        &&& is_table_or(
            f,
            after.metadata_usages,
            before.metadata_usages,
            mr.metadata_usages,
            mr.metadata_usages_count,
        )
    } else {
        after.custom_attribute_generators == before.custom_attribute_generators
            && after.metadata_usages == before.metadata_usages
    }
}

/// The file has the table that a registration names, if it names one.
pub open spec fn has_named_table(f: Reading, addr: u64, count: u64) -> bool {
    addr == 0 || count == 0 || has_table(f, addr, count)
}

/// The file has all tables of pointers that the registrations name.
pub open spec fn has_tables(
    f: Reading,
    mr: Il2CppMetadataRegistration,
    cr: Il2CppCodeRegistration,
) -> bool {
    &&& has_named_table(f, cr.method_pointers, cr.method_pointers_count)
    &&& has_named_table(f, cr.generic_method_pointers, cr.generic_method_pointers_count)
    &&& has_named_table(f, cr.invoker_pointers, cr.invoker_pointers_count)
    &&& f.version < words::version_number(27, 0) ==> has_named_table(
        f,
        cr.custom_attribute_generators,
        cr.custom_attribute_count,
    ) && has_named_table(f, mr.metadata_usages, mr.metadata_usages_count)
}

proof fn lemma_pointer_table(
    m: Il2CppModel,
    f: Reading,
    wanted: bool,
    addr: u64,
    count: u64,
    before: Seq<u64>,
)
    requires
        f.bytes == m.bytes,
        f.is_32bit == m.stream_is_32bit,
        f.limit == m.max_array_elems,
    ensures
        ({
            let t = init::pointer_table(m, wanted, addr, count, f.map);
            &&& t is Ok <==> !wanted || has_named_table(f, addr, count)
            &&& wanted ==> is_table_or(f, init::kept(t, before), before, addr, count)
            &&& !wanted ==> init::kept(t, before) == before
        }),
{
    reveal(init::pointer_table);
    if let Ok(at) = (f.map)(addr) {
        lemma_table(m, f, at, addr, count);
    }
}

proof fn lemma_with_tables(
    m: Il2CppModel,
    mr: Il2CppMetadataRegistration,
    cr: Il2CppCodeRegistration,
    map: Mapping,
    decoding: Decoding,
)
    requires
        m.version == m.stream_version,
        m.stream_is_32bit == m.is_32bit,
    ensures
        ({
            let f = file_of(m, map, decoding);
            let r = init::with_tables(m, mr, cr, map);
            &&& r.1 is Ok <==> m.codm || has_tables(f, mr, cr)
            &&& r.1 is Ok ==> tables_read(f, mr, cr, m, r.0)
            &&& r.0 == (Il2CppModel {
                method_pointers: r.0.method_pointers,
                generic_method_pointers: r.0.generic_method_pointers,
                invoker_pointers: r.0.invoker_pointers,
                custom_attribute_generators: r.0.custom_attribute_generators,
                metadata_usages: r.0.metadata_usages,
                ..m
            })
        }),
{
    reveal(init::with_tables);
    let f = file_of(m, map, decoding);
    let older = m.version < 2700;
    lemma_pointer_table(
        m,
        f,
        true,
        cr.method_pointers,
        cr.method_pointers_count,
        m.method_pointers,
    );
    lemma_pointer_table(
        m,
        f,
        true,
        cr.generic_method_pointers,
        cr.generic_method_pointers_count,
        m.generic_method_pointers,
    );
    lemma_pointer_table(
        m,
        f,
        true,
        cr.invoker_pointers,
        cr.invoker_pointers_count,
        m.invoker_pointers,
    );
    lemma_pointer_table(
        m,
        f,
        older,
        cr.custom_attribute_generators,
        cr.custom_attribute_count,
        m.custom_attribute_generators,
    );
    lemma_pointer_table(
        m,
        f,
        older,
        mr.metadata_usages,
        mr.metadata_usages_count,
        m.metadata_usages,
    );
}

// The field offsets and the sizes.

/// After version 21 field offsets stand behind a table of pointers; up to it they are signed words
/// in one list.
pub open spec fn has_field_offsets(f: Reading, mr: Il2CppMetadataRegistration) -> bool {
    mr.field_offsets == 0 || mr.field_offsets_count == 0 || if f.version
        > words::version_number(21, 0) {
        has_table(f, mr.field_offsets, mr.field_offsets_count)
    } else {
        has_room(f, mr.field_offsets, mr.field_offsets_count, 4)
    }
}

/// The image has the field offsets that the metadata registration names, and says how they stand
/// in the file. Where there are none, it keeps those from before.
pub open spec fn field_offsets_read(
    f: Reading,
    mr: Il2CppMetadataRegistration,
    before: Il2CppModel,
    after: Il2CppModel,
) -> bool {
    let pointers = f.version > words::version_number(21, 0);
    let named = mr.field_offsets != 0 && mr.field_offsets_count != 0 && has_field_offsets(f, mr);
    &&& after.field_offsets_are_pointers == pointers
    &&& if named && pointers {
        &&& is_table(f, after.field_offset_pointers, mr.field_offsets, mr.field_offsets_count)
        &&& after.field_offsets == before.field_offsets
    } else if named {
        &&& after.field_offset_pointers == before.field_offset_pointers
        &&& after.field_offsets.len() == 1
        &&& after.field_offsets[0].len() == mr.field_offsets_count
        &&& forall|i: int|
            0 <= i < mr.field_offsets_count ==> #[trigger] after.field_offsets[0][i] == {
                let w = words::word32(f.bytes, (f.map)(mr.field_offsets)->Ok_0 + 4 * i);
                if w < 0x8000_0000 {
                    w
                } else {
                    w - 0x1_0000_0000
                }
            }
    } else {
        after.field_offset_pointers == before.field_offset_pointers && after.field_offsets
            == before.field_offsets
    }
}

proof fn lemma_with_field_offsets(
    m: Il2CppModel,
    mr: Il2CppMetadataRegistration,
    map: Mapping,
    decoding: Decoding,
)
    requires
        m.version == m.stream_version,
        m.stream_is_32bit == m.is_32bit,
    ensures
        ({
            let f = file_of(m, map, decoding);
            let r = init::with_field_offsets(m, mr, map);
            &&& r.1 is Ok <==> m.codm || has_field_offsets(f, mr)
            &&& field_offsets_read(f, mr, m, r.0)
            &&& r.0 == (Il2CppModel {
                field_offsets_are_pointers: r.0.field_offsets_are_pointers,
                field_offset_pointers: r.0.field_offset_pointers,
                field_offsets: r.0.field_offsets,
                ..m
            })
        }),
{
    reveal(init::with_field_offsets);
    let f = file_of(m, map, decoding);
    let m0 = Il2CppModel { field_offsets_are_pointers: m.version > 2100, ..m };
    if let Ok(at) = map(mr.field_offsets) {
        lemma_table(m0, f, at, mr.field_offsets, mr.field_offsets_count);
        assert forall|i: int| 0 <= i < mr.field_offsets_count implies (
        #[trigger] init::signed_words(m.bytes, at, mr.field_offsets_count as nat)[i]) == {
            let w = words::word32(f.bytes, at + 4 * i);
            if w < 0x8000_0000 {
                w
            } else {
                w - 0x1_0000_0000
            }
        } by {
            words::lemma_words(f.bytes, at + i * 4);
        }
    }
}

/// The file has the sizes of type definitions that the metadata registration names: each takes 16
/// bytes.
pub open spec fn has_sizes(f: Reading, mr: Il2CppMetadataRegistration) -> bool {
    mr.type_definitions_sizes == 0 || mr.type_definitions_sizes_count == 0 || {
        &&& has_room(f, mr.type_definitions_sizes, mr.type_definitions_sizes_count, 16)
        &&& has_records(
            f,
            RecordKind::TypeDefinitionSizes,
            mr.type_definitions_sizes,
            mr.type_definitions_sizes_count,
        )
    }
}

/// The image has the sizes of type definitions that the metadata registration names, in order.
/// Where there is no room for them, it keeps those from before.
pub open spec fn sizes_read(
    f: Reading,
    mr: Il2CppMetadataRegistration,
    before: Il2CppModel,
    after: Il2CppModel,
) -> bool {
    if mr.type_definitions_sizes == 0 || mr.type_definitions_sizes_count == 0 || !has_room(
        f,
        mr.type_definitions_sizes,
        mr.type_definitions_sizes_count,
        16,
    ) {
        after.type_definition_sizes == before.type_definition_sizes
    } else {
        has_sizes(f, mr) ==> exists|records: Seq<RecordModel>| #[trigger]
            are_records(
                f,
                RecordKind::TypeDefinitionSizes,
                mr.type_definitions_sizes,
                mr.type_definitions_sizes_count,
                records,
            ) && after.type_definition_sizes.len() == records.len() && forall|i: int|
                0 <= i < records.len() ==> #[trigger] after.type_definition_sizes[i]
                    == records[i]->TypeDefinitionSizes_0
    }
}

proof fn lemma_with_sizes(
    m: Il2CppModel,
    mr: Il2CppMetadataRegistration,
    map: Mapping,
    decoding: Decoding,
)
    requires
        m.version == m.stream_version,
        m.stream_is_32bit == m.is_32bit,
    ensures
        ({
            let f = file_of(m, map, decoding);
            let r = init::with_sizes(m, mr, map, decoding);
            &&& r.1 is Ok <==> m.codm || has_sizes(f, mr)
            &&& sizes_read(f, mr, m, r.0)
            &&& r.0 == (Il2CppModel { type_definition_sizes: r.0.type_definition_sizes, ..m })
        }),
{
    reveal(init::with_sizes);
    let f = file_of(m, map, decoding);
    if let Ok(at) = map(mr.type_definitions_sizes) {
        lemma_records(
            f,
            RecordKind::TypeDefinitionSizes,
            at,
            mr.type_definitions_sizes,
            mr.type_definitions_sizes_count,
        );
    }
}

// The lookup of methods of instances.

/// The entry of the table of generic methods belongs to an instance of the method definition `k`.
pub open spec fn instantiates(
    specs: Seq<Il2CppMethodSpec>,
    e: Il2CppGenericMethodFunctionsDefinitions,
    k: usize,
) -> bool {
    e.generic_method_index < specs.len() && specs[e.generic_method_index as int].method_definition_index
        == k
}

/// The methods of instances of the method definition `k`, in the order of the table.
pub open spec fn instances(
    table: Seq<Il2CppGenericMethodFunctionsDefinitions>,
    specs: Seq<Il2CppMethodSpec>,
    k: usize,
) -> Seq<usize> {
    table.filter(
        |e: Il2CppGenericMethodFunctionsDefinitions| instantiates(specs, e, k),
    ).map_values(|e: Il2CppGenericMethodFunctionsDefinitions| e.generic_method_index)
}

/// The methods of instances of a method definition are those that the table of generic methods
/// lists for it, in the order of the table; a definition without any is not listed. The pointer of
/// a method of an instance is the one that the last entry for it names, as far as it exists.
pub open spec fn is_lookup(
    table: Seq<Il2CppGenericMethodFunctionsDefinitions>,
    specs: Seq<Il2CppMethodSpec>,
    code: Seq<u64>,
    lists: Map<usize, Seq<usize>>,
    pointers: Map<usize, u64>,
) -> bool {
    &&& forall|k: usize| #[trigger]
        lists.contains_key(k) <==> exists|i: int|
            0 <= i < table.len() && instantiates(specs, #[trigger] table[i], k)
    &&& forall|k: usize| #[trigger]
        lists.contains_key(k) ==> lists[k] == instances(table, specs, k)
    &&& forall|i: int|
        0 <= i < table.len() && has_pointer(specs, code, #[trigger] table[i])
            ==> pointers.contains_key(table[i].generic_method_index)
    &&& forall|s: usize| #[trigger]
        pointers.contains_key(s) ==> exists|i: int|
            0 <= i < table.len() && gives_pointer(
                specs,
                code,
                #[trigger] table[i],
                s,
                pointers[s],
            ) && forall|j: int|
                i < j < table.len() && has_pointer(specs, code, #[trigger] table[j])
                    ==> table[j].generic_method_index != s
}

/// The lookup of the methods of instances of an image is that of its tables.
pub open spec fn lookup_built(m: Il2CppModel) -> bool {
    is_lookup(
        m.generic_method_table,
        m.method_specs,
        m.generic_method_pointers,
        m.method_definition_method_specs,
        m.method_spec_generic_method_pointers,
    )
}

/// The entry of the table of generic methods names a pointer for a method of an instance.
pub open spec fn has_pointer(
    specs: Seq<Il2CppMethodSpec>,
    code: Seq<u64>,
    e: Il2CppGenericMethodFunctionsDefinitions,
) -> bool {
    e.generic_method_index < specs.len() && e.method_index < code.len()
}

/// The entry of the table of generic methods names the pointer `p` for the method of an instance
/// `s`.
pub open spec fn gives_pointer(
    specs: Seq<Il2CppMethodSpec>,
    code: Seq<u64>,
    e: Il2CppGenericMethodFunctionsDefinitions,
    s: usize,
    p: u64,
) -> bool {
    has_pointer(specs, code, e) && e.generic_method_index == s && code[e.method_index as int] == p
}

proof fn lemma_specs_of(
    table: Seq<Il2CppGenericMethodFunctionsDefinitions>,
    specs: Seq<Il2CppMethodSpec>,
    k: usize,
)
    ensures
        init::specs_of(table, specs, k) == instances(table, specs, k),
        init::specs_of(table, specs, k).len() > 0 <==> exists|i: int|
            0 <= i < table.len() && instantiates(specs, #[trigger] table[i], k),
    decreases table.len(),
{
    reveal(Seq::filter);
    let wanted = |e: Il2CppGenericMethodFunctionsDefinitions| instantiates(specs, e, k);
    let index = |e: Il2CppGenericMethodFunctionsDefinitions| e.generic_method_index;
    if table.len() == 0 {
        assert(init::specs_of(table, specs, k) =~= table.filter(wanted).map_values(index));
    } else {
        let rest = table.drop_last();
        lemma_specs_of(rest, specs, k);
        let all = init::specs_of(table, specs, k);
        assert(all =~= table.filter(wanted).map_values(index));
        if all.len() > 0 {
            if instantiates(specs, table.last(), k) {
                assert(instantiates(specs, table[table.len() - 1], k));
            } else {
                let i = choose|i: int|
                    0 <= i < rest.len() && instantiates(specs, #[trigger] rest[i], k);
                assert(instantiates(specs, table[i], k));
            }
        }
        if exists|i: int| 0 <= i < table.len() && instantiates(specs, #[trigger] table[i], k) {
            let i = choose|i: int|
                0 <= i < table.len() && instantiates(specs, #[trigger] table[i], k);
            if i < rest.len() {
                assert(instantiates(specs, rest[i], k));
            }
        }
    }
}

proof fn lemma_spec_pointers(
    table: Seq<Il2CppGenericMethodFunctionsDefinitions>,
    specs: Seq<Il2CppMethodSpec>,
    code: Seq<u64>,
    n: nat,
)
    requires
        n <= table.len(),
    ensures
        ({
            let p = init::spec_pointers(table.take(n as int), specs, code);
            &&& forall|i: int|
                0 <= i < n && has_pointer(specs, code, #[trigger] table[i]) ==> p.contains_key(
                    table[i].generic_method_index,
                )
            &&& forall|s: usize| #[trigger]
                p.contains_key(s) ==> exists|i: int|
                    0 <= i < n && gives_pointer(specs, code, #[trigger] table[i], s, p[s])
                        && forall|j: int|
                        i < j < n && has_pointer(specs, code, #[trigger] table[j])
                            ==> table[j].generic_method_index != s
        }),
    decreases n,
{
    if n > 0 {
        lemma_spec_pointers(table, specs, code, (n - 1) as nat);
        assert(table.take(n as int).drop_last() =~= table.take(n - 1));
        let q = init::spec_pointers(table.take(n - 1), specs, code);
        let p = init::spec_pointers(table.take(n as int), specs, code);
        let e = table[n - 1];
        assert(table.take(n as int).last() == e);
        assert forall|s: usize| #[trigger] p.contains_key(s) implies exists|i: int|
            0 <= i < n && gives_pointer(specs, code, #[trigger] table[i], s, p[s]) && forall|j: int|
                i < j < n && has_pointer(specs, code, #[trigger] table[j])
                    ==> table[j].generic_method_index != s by {
            if has_pointer(specs, code, e) && e.generic_method_index == s {
                assert(gives_pointer(specs, code, table[n - 1], s, p[s]));
            } else {
                assert(q.contains_key(s));
                let i = choose|i: int|
                    0 <= i < n - 1 && gives_pointer(specs, code, #[trigger] table[i], s, q[s])
                        && forall|j: int|
                        i < j < n - 1 && has_pointer(specs, code, #[trigger] table[j])
                            ==> table[j].generic_method_index != s;
                assert(gives_pointer(specs, code, table[i], s, p[s]));
            }
        }
    }
}

proof fn lemma_lookup(m: Il2CppModel)
    ensures
        lookup_built(init::with_spec_lookup(m)),
{
    let lists = init::spec_lists(m.generic_method_table, m.method_specs);
    assert forall|k: usize|
        #![trigger lists.contains_key(k)]
        true implies (lists.contains_key(k) <==> exists|i: int|
        0 <= i < m.generic_method_table.len() && instantiates(
            m.method_specs,
            #[trigger] m.generic_method_table[i],
            k,
        )) && (lists.contains_key(k) ==> lists[k] == instances(
        m.generic_method_table,
        m.method_specs,
        k,
    )) by {
        lemma_specs_of(m.generic_method_table, m.method_specs, k);
    }
    lemma_spec_pointers(
        m.generic_method_table,
        m.method_specs,
        m.generic_method_pointers,
        m.generic_method_table.len(),
    );
    assert(m.generic_method_table.take(m.generic_method_table.len() as int)
        =~= m.generic_method_table);
}

// The code modules.

/// The code module whose record stands at an address.
pub open spec fn module_of(f: Reading, p: u64) -> Il2CppCodeGenModule {
    record_of(f, RecordKind::CodeGenModule, p)->CodeGenModule_0
}

/// The name of the code module whose record stands at an address.
pub open spec fn module_name_of(f: Reading, p: u64) -> Seq<char> {
    record_of(f, RecordKind::Name, module_of(f, p).module_name)->Name_0
}

/// The file has the code module at an address with its name, and the place of its method pointers
/// is mapped.
pub open spec fn has_module(f: Reading, p: u64) -> bool {
    &&& has_record(f, RecordKind::CodeGenModule, p)
    &&& has_record(f, RecordKind::Name, module_of(f, p).module_name)
    &&& module_of(f, p).method_pointers == 0 || module_of(f, p).method_pointer_count == 0 || (f.map)(
        module_of(f, p).method_pointers,
    ) is Ok
}

/// The table holds the method pointers of a module. Where the file has no room for them although
/// their number is plausible, it holds as many zeros.
pub open spec fn is_module_table(f: Reading, table: Seq<u64>, module: Il2CppCodeGenModule) -> bool {
    let addr = module.method_pointers;
    let count = module.method_pointer_count;
    if addr == 0 || count == 0 {
        table.len() == 0
    } else if has_table(f, addr, count) {
        is_table(f, table, addr, count)
    } else if count <= f.limit && count <= f.bytes.len() / words::pointer_bytes(f.is_32bit) as nat {
        table.len() == count && forall|i: int| 0 <= i < count ==> #[trigger] table[i] == 0
    } else {
        table.len() == 0
    }
}

/// The file has the code modules that the code registration names, if it names any.
pub open spec fn has_modules(f: Reading, cr: Il2CppCodeRegistration) -> bool {
    cr.code_gen_modules == 0 || cr.code_gen_modules_count == 0 || {
        &&& has_table(f, cr.code_gen_modules, cr.code_gen_modules_count)
        &&& forall|i: int|
            0 <= i < cr.code_gen_modules_count ==> has_module(
                f,
                #[trigger] entry(f, cr.code_gen_modules, i),
            )
    }
}

/// Of the first `n` modules of the table at an address, the one in place `i` is the last of its
/// name.
pub open spec fn last_of_name(f: Reading, addr: u64, n: int, i: int) -> bool {
    forall|j: int|
        i < j < n ==> module_name_of(f, #[trigger] entry(f, addr, j)) != module_name_of(
            f,
            entry(f, addr, i),
        )
}

/// One of the first `n` modules of the table at an address has the name.
pub open spec fn module_named(f: Reading, addr: u64, n: int, name: Seq<char>) -> bool {
    exists|i: int| 0 <= i < n && module_name_of(f, #[trigger] entry(f, addr, i)) == name
}

/// The image has the first `n` code modules of the table at an address under their names, with
/// their method pointers; the last one of a name counts. All others are as before.
pub open spec fn modules_read(
    f: Reading,
    addr: u64,
    n: int,
    before: Il2CppModel,
    after: Il2CppModel,
) -> bool {
    &&& forall|i: int|
        0 <= i < n && last_of_name(f, addr, n, i) ==> {
            let p = #[trigger] entry(f, addr, i);
            &&& after.code_gen_modules.contains_key(module_name_of(f, p))
            &&& after.code_gen_modules[module_name_of(f, p)] == module_of(f, p)
            &&& after.code_gen_module_method_pointers.contains_key(module_name_of(f, p))
            &&& is_module_table(
                f,
                after.code_gen_module_method_pointers[module_name_of(f, p)],
                module_of(f, p),
            )
        }
    &&& forall|name: Seq<char>| #[trigger]
        after.code_gen_modules.contains_key(name) <==> before.code_gen_modules.contains_key(name)
            || module_named(f, addr, n, name)
    &&& forall|name: Seq<char>| #[trigger]
        after.code_gen_module_method_pointers.contains_key(name)
            <==> before.code_gen_module_method_pointers.contains_key(name) || module_named(
            f,
            addr,
            n,
            name,
        )
    &&& forall|name: Seq<char>|
        before.code_gen_modules.contains_key(name) && !module_named(f, addr, n, name)
            ==> #[trigger] after.code_gen_modules[name] == before.code_gen_modules[name]
    &&& forall|name: Seq<char>|
        before.code_gen_module_method_pointers.contains_key(name) && !module_named(
            f,
            addr,
            n,
            name,
        ) ==> #[trigger] after.code_gen_module_method_pointers[name]
            == before.code_gen_module_method_pointers[name]
}

proof fn lemma_module(m: Il2CppModel, map: Mapping, decoding: Decoding, p: u64)
    requires
        m.version == m.stream_version,
        m.stream_is_32bit == m.is_32bit,
    ensures
        ({
            let f = file_of(m, map, decoding);
            let r = init::module_record(m, map, decoding, p);
            &&& r is Ok <==> has_module(f, p)
            &&& r matches Ok((name, module, pointers)) ==> name == module_name_of(f, p) && module
                == module_of(f, p) && is_module_table(f, pointers, module)
        }),
{
    let f = file_of(m, map, decoding);
    let module = module_of(f, p);
    if let Ok(at) = map(module.method_pointers) {
        lemma_table(m, f, at, module.method_pointers, module.method_pointer_count);
    }
}

proof fn lemma_modules(
    m: Il2CppModel,
    map: Mapping,
    decoding: Decoding,
    addr: u64,
    ptrs: Seq<u64>,
    n: nat,
)
    requires
        m.version == m.stream_version,
        m.stream_is_32bit == m.is_32bit,
        n <= ptrs.len(),
        forall|i: int|
            0 <= i < ptrs.len() ==> #[trigger] ptrs[i] == entry(file_of(m, map, decoding), addr, i),
    ensures
        ({
            let f = file_of(m, map, decoding);
            let r = init::with_modules_at(m, map, decoding, ptrs, n);
            &&& r.1 is Ok <==> forall|i: int|
                0 <= i < n ==> has_module(f, #[trigger] entry(f, addr, i))
            &&& r.1 is Ok ==> modules_read(f, addr, n as int, m, r.0)
            &&& r.0 == (Il2CppModel {
                code_gen_modules: r.0.code_gen_modules,
                code_gen_module_method_pointers: r.0.code_gen_module_method_pointers,
                ..m
            })
        }),
    decreases n,
{
    let f = file_of(m, map, decoding);
    let r = init::with_modules_at(m, map, decoding, ptrs, n);
    if n > 0 {
        lemma_modules(m, map, decoding, addr, ptrs, (n - 1) as nat);
        let q = init::with_modules_at(m, map, decoding, ptrs, (n - 1) as nat);
        let p = ptrs[n - 1];
        assert(p == entry(f, addr, n - 1));
        lemma_module(m, map, decoding, p);
        if r.1 is Ok {
            let added = module_name_of(f, p);
            assert forall|name: Seq<char>| #[trigger] module_named(f, addr, n as int, name)
                <==> module_named(f, addr, n - 1, name) || name == added by {
                if module_named(f, addr, n as int, name) {
                    let i = choose|i: int|
                        0 <= i < n && module_name_of(f, #[trigger] entry(f, addr, i)) == name;
                    if i < n - 1 {
                        assert(module_name_of(f, entry(f, addr, i)) == name);
                    }
                }
                if module_named(f, addr, n - 1, name) {
                    let i = choose|i: int|
                        0 <= i < n - 1 && module_name_of(f, #[trigger] entry(f, addr, i)) == name;
                    assert(module_name_of(f, entry(f, addr, i)) == name);
                }
                if name == added {
                    assert(module_name_of(f, entry(f, addr, n - 1)) == name);
                }
            }
            assert forall|i: int| 0 <= i < n && last_of_name(f, addr, n as int, i) implies {
                let e = #[trigger] entry(f, addr, i);
                &&& r.0.code_gen_modules.contains_key(module_name_of(f, e))
                &&& r.0.code_gen_modules[module_name_of(f, e)] == module_of(f, e)
                &&& r.0.code_gen_module_method_pointers.contains_key(module_name_of(f, e))
                &&& is_module_table(
                    f,
                    r.0.code_gen_module_method_pointers[module_name_of(f, e)],
                    module_of(f, e),
                )
            } by {
                if i < n - 1 {
                    assert(module_name_of(f, entry(f, addr, n - 1)) != module_name_of(
                        f,
                        entry(f, addr, i),
                    ));
                    assert(last_of_name(f, addr, n - 1, i));
                }
            }
        }
    }
}

proof fn lemma_with_modules(
    m: Il2CppModel,
    cr: Il2CppCodeRegistration,
    map: Mapping,
    decoding: Decoding,
)
    requires
        m.version == m.stream_version,
        m.stream_is_32bit == m.is_32bit,
    ensures
        ({
            let f = file_of(m, map, decoding);
            let r = init::with_modules(m, cr, map, decoding);
            &&& r.1 is Ok <==> has_modules(f, cr)
            &&& r.1 is Ok ==> if cr.code_gen_modules == 0 || cr.code_gen_modules_count == 0 {
                r.0 == m
            } else {
                modules_read(f, cr.code_gen_modules, cr.code_gen_modules_count as int, m, r.0)
            }
            &&& r.0 == (Il2CppModel {
                code_gen_modules: r.0.code_gen_modules,
                code_gen_module_method_pointers: r.0.code_gen_module_method_pointers,
                ..m
            })
        }),
{
    reveal(init::with_modules);
    let f = file_of(m, map, decoding);
    if let Ok(at) = map(cr.code_gen_modules) {
        lemma_table(m, f, at, cr.code_gen_modules, cr.code_gen_modules_count);
        if let Ok(ptrs) = init::pointers_in(m, at, cr.code_gen_modules_count) {
            lemma_modules(m, map, decoding, cr.code_gen_modules, ptrs, ptrs.len());
        }
    }
}

// The whole reading.

/// The metadata registration that stands at an address.
pub open spec fn metadata_registration_at(f: Reading, addr: u64) -> Il2CppMetadataRegistration {
    record_of(f, RecordKind::MetadataRegistration, addr)->MetadataRegistration_0
}

/// The code registration that stands at an address.
pub open spec fn code_registration_at(f: Reading, addr: u64) -> Il2CppCodeRegistration {
    record_of(f, RecordKind::CodeRegistration, addr)->CodeRegistration_0
}

/// The file has all that the two registrations name. A scrambled image may go without tables of
/// pointers, field offsets and sizes. Code modules are there since version 24.2.
pub open spec fn is_complete(
    f: Reading,
    m: Il2CppModel,
    code_registration: u64,
    metadata_registration: u64,
) -> bool {
    let mr = metadata_registration_at(f, metadata_registration);
    let cr = code_registration_at(f, code_registration);
    &&& has_record(f, RecordKind::MetadataRegistration, metadata_registration)
    &&& has_types(f, m, mr)
    &&& has_insts(f, mr)
    &&& has_named_records(f, RecordKind::MethodSpec, mr.method_specs, mr.method_specs_count)
    &&& has_named_records(
        f,
        RecordKind::GenericMethod,
        mr.generic_method_table,
        mr.generic_method_table_count,
    )
    &&& has_record(f, RecordKind::CodeRegistration, code_registration)
    &&& m.codm || (has_tables(f, mr, cr) && has_field_offsets(f, mr) && has_sizes(f, mr))
    &&& f.version >= words::version_number(24, 2) ==> has_modules(f, cr)
}

/// Reading an image goes through if and only if its file has all that the two registrations name.
/// Then each table of the image is the one that the registration names: the types, the generic
/// instances, the methods of instances, the tables of pointers, the field offsets, the sizes and
/// the code modules all come from the addresses in the fields of their names, as many as the counts
/// of their names, each entry from its place in the file.
pub proof fn law_init_reads(
    m: Il2CppModel,
    code_registration: u64,
    metadata_registration: u64,
    map: Mapping,
    decoding: Decoding,
)
    ensures
        ({
            let f = file_of(m, map, decoding);
            let r = init::initialised(m, code_registration, metadata_registration, map, decoding);
            r.1 is Ok <==> is_complete(f, m, code_registration, metadata_registration)
        }),
        ({
            let f = file_of(m, map, decoding);
            let r = init::initialised(m, code_registration, metadata_registration, map, decoding);
            let mr = metadata_registration_at(f, metadata_registration);
            let cr = code_registration_at(f, code_registration);
            r.1 is Ok ==> {
                &&& are_types(
                    f,
                    m,
                    mr.types,
                    mr.types_count as int,
                    r.0.types,
                    r.0.type_dic,
                )
                &&& insts_read(f, mr, m, r.0)
                &&& method_specs_read(f, mr, m.method_specs, r.0.method_specs)
                &&& generic_methods_read(
                    f,
                    mr,
                    m.generic_method_table,
                    r.0.generic_method_table,
                )
                &&& tables_read(f, mr, cr, m, r.0)
                &&& field_offsets_read(f, mr, m, r.0)
                &&& sizes_read(f, mr, m, r.0)
                &&& lookup_built(r.0)
                &&& if f.version >= words::version_number(24, 2) && cr.code_gen_modules != 0
                    && cr.code_gen_modules_count != 0 {
                    modules_read(f, cr.code_gen_modules, cr.code_gen_modules_count as int, m, r.0)
                } else {
                    r.0.code_gen_modules == m.code_gen_modules
                        && r.0.code_gen_module_method_pointers == m.code_gen_module_method_pointers
                }
            }
        }),
{
    reveal(init::initialised);
    let f = file_of(m, map, decoding);
    let m0 = init::started(m, code_registration, metadata_registration);
    assert(file_of(m0, map, decoding) == f);
    assert(init::reading(m0, map, decoding) == f);
    if has_record(f, RecordKind::MetadataRegistration, metadata_registration) {
        let mr = metadata_registration_at(f, metadata_registration);
        lemma_with_types(m0, mr, map, decoding);
        let a = init::with_types(m0, mr, map, decoding);
        lemma_with_insts(a.0, mr, map, decoding);
        let b = init::with_generic_insts(a.0, mr, map, decoding);
        lemma_with_specs(b.0, mr, map, decoding);
        let c = init::with_method_specs(b.0, mr, map, decoding);
        lemma_with_specs(c.0, mr, map, decoding);
        let d = init::with_metadata_registration(m0, mr, map, decoding);
        assert(has_types(f, m, mr) == has_types(f, m0, mr));
        if d.1 is Ok && has_record(f, RecordKind::CodeRegistration, code_registration) {
            assert(file_of(d.0, map, decoding) == f);
            assert(init::reading(d.0, map, decoding) == f);
            let cr = code_registration_at(f, code_registration);
            lemma_second_half(d.0, mr, cr, map, decoding);
            let r = init::with_code_registration(d.0, mr, cr, map, decoding);
            if r.1 is Ok {
                assert(are_types(f, m0, mr.types, mr.types_count as int, d.0.types, d.0.type_dic));
            }
        }
    }
}

proof fn lemma_second_half(
    m: Il2CppModel,
    mr: Il2CppMetadataRegistration,
    cr: Il2CppCodeRegistration,
    map: Mapping,
    decoding: Decoding,
)
    requires
        m.version == m.stream_version,
        m.stream_is_32bit == m.is_32bit,
    ensures
        ({
            let f = file_of(m, map, decoding);
            let r = init::with_code_registration(m, mr, cr, map, decoding);
            &&& r.1 is Ok <==> (m.codm || (has_tables(f, mr, cr) && has_field_offsets(f, mr)
                && has_sizes(f, mr))) && (f.version >= words::version_number(24, 2) ==> has_modules(
                f,
                cr,
            ))
            &&& r.1 is Ok ==> {
                &&& tables_read(f, mr, cr, m, r.0)
                &&& field_offsets_read(f, mr, m, r.0)
                &&& sizes_read(f, mr, m, r.0)
                &&& lookup_built(r.0)
                &&& if f.version >= words::version_number(24, 2) && cr.code_gen_modules != 0
                    && cr.code_gen_modules_count != 0 {
                    modules_read(f, cr.code_gen_modules, cr.code_gen_modules_count as int, m, r.0)
                } else {
                    r.0.code_gen_modules == m.code_gen_modules
                        && r.0.code_gen_module_method_pointers == m.code_gen_module_method_pointers
                }
                &&& r.0.types == m.types
                &&& r.0.type_dic == m.type_dic
                &&& r.0.generic_insts == m.generic_insts
                &&& r.0.generic_inst_pointers == m.generic_inst_pointers
                &&& r.0.method_specs == m.method_specs
                &&& r.0.generic_method_table == m.generic_method_table
            }
        }),
{
    let f = file_of(m, map, decoding);
    lemma_with_tables(m, mr, cr, map, decoding);
    let a = init::with_tables(m, mr, cr, map);
    assert(file_of(a.0, map, decoding) == f);
    lemma_with_field_offsets(a.0, mr, map, decoding);
    let b = init::with_field_offsets(a.0, mr, map);
    assert(file_of(b.0, map, decoding) == f);
    lemma_with_sizes(b.0, mr, map, decoding);
    let c = init::with_sizes(b.0, mr, map, decoding);
    assert(file_of(c.0, map, decoding) == f);
    let d = init::with_spec_lookup(c.0);
    lemma_lookup(c.0);
    assert(file_of(d, map, decoding) == f);
    lemma_with_modules(d, cr, map, decoding);
    let e = init::with_modules(d, cr, map, decoding);
    let r = init::with_code_registration(m, mr, cr, map, decoding);
    if r.1 is Ok {
        if f.version >= words::version_number(24, 2) && cr.code_gen_modules != 0
            && cr.code_gen_modules_count != 0 {
            assert(modules_read(
                f,
                cr.code_gen_modules,
                cr.code_gen_modules_count as int,
                d,
                r.0,
            ));
        }
    }
}

// What a reading that does not go through says.

/// A reading fails with the error of the mapping or of the record of the metadata registration, or
/// of the mapping of the table of types, where one of them is missing. Where all is there that the
/// metadata registration names before, it fails with that of the mapping or of the record of the
/// code registration.
pub proof fn law_init_errors(
    m: Il2CppModel,
    code_registration: u64,
    metadata_registration: u64,
    map: Mapping,
    decoding: Decoding,
)
    ensures
        ({
            let f = file_of(m, map, decoding);
            let r = init::initialised(m, code_registration, metadata_registration, map, decoding);
            let mr = metadata_registration_at(f, metadata_registration);
            let at = map(metadata_registration);
            let found = has_record(f, RecordKind::MetadataRegistration, metadata_registration);
            let first = is_first_half(f, m, metadata_registration);
            let cr = map(code_registration);
            &&& at matches Err(e) ==> r.1 == Err::<(), ErrorModel>(e)
            &&& at is Ok ==> (record(f, RecordKind::MetadataRegistration, at->Ok_0) matches Err(e)
                ==> r.1 == Err::<(), ErrorModel>(e))
            &&& found ==> (map(mr.types) matches Err(e) ==> r.1 == Err::<(), ErrorModel>(e))
            &&& first ==> (cr matches Err(e) ==> r.1 == Err::<(), ErrorModel>(e))
            &&& first && cr is Ok ==> (record(
                f,
                RecordKind::CodeRegistration,
                cr->Ok_0,
            ) matches Err(e) ==> r.1 == Err::<(), ErrorModel>(e))
        }),
{
    reveal(init::initialised);
    reveal(init::with_types);
    let f = file_of(m, map, decoding);
    let m0 = init::started(m, code_registration, metadata_registration);
    assert(init::reading(m0, map, decoding) == f);
    if has_record(f, RecordKind::MetadataRegistration, metadata_registration) {
        let mr = metadata_registration_at(f, metadata_registration);
        assert(file_of(m0, map, decoding) == f);
        lemma_with_types(m0, mr, map, decoding);
        let a = init::with_types(m0, mr, map, decoding);
        lemma_with_insts(a.0, mr, map, decoding);
        let b = init::with_generic_insts(a.0, mr, map, decoding);
        lemma_with_specs(b.0, mr, map, decoding);
        let c = init::with_method_specs(b.0, mr, map, decoding);
        lemma_with_specs(c.0, mr, map, decoding);
        let d = init::with_metadata_registration(m0, mr, map, decoding);
        assert(has_types(f, m, mr) == has_types(f, m0, mr));
        if is_first_half(f, m, metadata_registration) {
            assert(d.1 is Ok);
            assert(init::reading(d.0, map, decoding) == f);
        }
    }
}

/// The file has all that the metadata registration names before the code registration is read.
pub open spec fn is_first_half(f: Reading, m: Il2CppModel, metadata_registration: u64) -> bool {
    let mr = metadata_registration_at(f, metadata_registration);
    &&& has_record(f, RecordKind::MetadataRegistration, metadata_registration)
    &&& has_types(f, m, mr)
    &&& has_insts(f, mr)
    &&& has_named_records(f, RecordKind::MethodSpec, mr.method_specs, mr.method_specs_count)
    &&& has_named_records(
        f,
        RecordKind::GenericMethod,
        mr.generic_method_table,
        mr.generic_method_table_count,
    )
}

/// A type whose address is not mapped is told with its number, its address and the reason.
pub proof fn law_unmapped_type(f: Reading, scrambled: bool, i: nat, p: u64)
    ensures
        (f.map)(p) matches Err(e) ==> init::type_record(f, scrambled, i, p) == Err::<
            Il2CppType,
            ErrorModel,
        >(
            ErrorModel::Io {
                unexpected_eof: false,
                message: "type["@ + crate::numeral::dec(i) + "] ptr=0x"@ + crate::numeral::numeral(
                    p as nat,
                    16,
                    false,
                ) + ": "@ + crate::error::error_text(e),
            },
        ),
{
}

} // verus!
