//! Reading the tables of an image from its two registration records.
use crate::error;
use crate::error::{Error, ErrorModel, IoError};
use crate::il2cpp::base::{Il2Cpp, Il2CppModel};
use crate::il2cpp::base;
use crate::il2cpp::enums::{
    V21, V24_2, V24_3, V24_4, V24_5, V27, V27_1, V29, V29_1, V31,
};
use crate::il2cpp::records;
use crate::il2cpp::records::{AddressMap, Decoding, Mapping, Record, RecordKind, RecordModel, RecordReader};
use crate::il2cpp::structures::{
    Il2CppCodeGenModule, Il2CppCodeRegistration, Il2CppGenericInst,
    Il2CppGenericMethodFunctionsDefinitions, Il2CppMetadataRegistration, Il2CppMethodSpec,
    Il2CppType, Il2CppTypeDefinitionSizes, TYPE_DEFINITION_SIZES_LEN,
};
use crate::io;
use crate::io::BinaryStream;
use crate::numeral;
use std::collections::HashMap;
use vstd::prelude::*;
use vstd::string::*;

verus! {

// The version and the place of the code registration.

/// The largest count of a code registration that is taken for a count.
pub fn auto_plus_count_limit(is_wasm: bool) -> (r: u64)
    ensures
        r == if is_wasm {
            0x35000u64
        } else {
            0x50000u64
        },
{
    if is_wasm {
        0x35000
    } else {
        0x50000
    }
}

/// `n` less, but not below 0.
pub open spec fn moved_back(code_registration: u64, n: nat) -> u64 {
    if code_registration >= n {
        (code_registration - n) as u64
    } else {
        0
    }
}

/// The version and the code registration that a first reading of the record speaks for: a count
/// that is too large is a pointer, so the record starts earlier and belongs to a later version.
pub open spec fn adjusted(
    version: u32,
    code_registration: u64,
    cr: Il2CppCodeRegistration,
    count_limit: u64,
    pointer_len: nat,
) -> (u32, u64) {
    let generics_too_many = cr.generic_method_pointers_count > count_limit;
    let wrappers_too_many = cr.reverse_pinvoke_wrapper_count > count_limit;
    if code_registration == 0 {
        (version, code_registration)
    } else if version == V31 {
        if generics_too_many {
            (V31, moved_back(code_registration, 2 * pointer_len))
        } else {
            (V29, code_registration)
        }
    } else if version == V29 && generics_too_many {
        (V29_1, moved_back(code_registration, 2 * pointer_len))
    } else if version == V27 && wrappers_too_many {
        (V27_1, moved_back(code_registration, pointer_len))
    } else if version == V24_4 {
        if wrappers_too_many {
            (V24_5, moved_back(code_registration, 3 * pointer_len))
        } else {
            (V24_4, moved_back(code_registration, 2 * pointer_len))
        }
    } else if version == V24_2 && cr.interop_data_count == 0 {
        (V24_3, moved_back(code_registration, 2 * pointer_len))
    } else {
        (version, code_registration)
    }
}

/// The adjustment never moves the code registration forward, leaves a missing one alone, and
/// leaves versions before 24.2 alone.
pub proof fn law_adjusted_moves_back(
    version: u32,
    code_registration: u64,
    cr: Il2CppCodeRegistration,
    count_limit: u64,
    pointer_len: nat,
)
    ensures
        adjusted(version, code_registration, cr, count_limit, pointer_len).1 <= code_registration,
        code_registration == 0 || version < V24_2 ==> adjusted(
            version,
            code_registration,
            cr,
            count_limit,
            pointer_len,
        ) == (version, code_registration),
{
}

/// Adjusts the version of the stream and the code registration.
pub fn apply_auto_plus_heuristics(
    stream: &mut BinaryStream,
    code_registration: u64,
    cr: &Il2CppCodeRegistration,
    count_limit: u64,
) -> (r: u64)
    ensures
        ({
            let a = adjusted(
                old(stream).version,
                code_registration,
                *cr,
                count_limit,
                io::pointer_len(old(stream).is_32bit),
            );
            r == a.1 && *final(stream) == (BinaryStream { version: a.0, ..*old(stream) })
        }),
{
    if code_registration == 0 || stream.version < V24_2 {
        return code_registration;
    }
    let mut code_registration: u64 = code_registration;
    let ptr_size: u64 = stream.pointer_size() as u64;
    if stream.version == V31 {
        if cr.generic_method_pointers_count > count_limit {
            code_registration = code_registration.saturating_sub(ptr_size * 2);
        } else {
            stream.version = V29;
        }
    }
    if stream.version == V29 {
        if cr.generic_method_pointers_count > count_limit {
            stream.version = V29_1;
            code_registration = code_registration.saturating_sub(ptr_size * 2);
        }
    }
    if stream.version == V27 {
        if cr.reverse_pinvoke_wrapper_count > count_limit {
            stream.version = V27_1;
            code_registration = code_registration.saturating_sub(ptr_size);
        }
    }
    if stream.version == V24_4 {
        code_registration = code_registration.saturating_sub(ptr_size * 2);
        if cr.reverse_pinvoke_wrapper_count > count_limit {
            stream.version = V24_5;
            code_registration = code_registration.saturating_sub(ptr_size);
        }
    }
    if stream.version == V24_2 && cr.interop_data_count == 0 {
        stream.version = V24_3;
        code_registration = code_registration.saturating_sub(ptr_size * 2);
    }
    code_registration
}

/// What reading and adjusting the code registration leads to: a version, and where the record
/// starts or why it could not be read.
pub open spec fn refined(
    bytes: Seq<u8>,
    is_32bit: bool,
    version: u32,
    code_registration: u64,
    map: Mapping,
    decoding: Decoding,
    count_limit: u64,
) -> (u32, Result<u64, ErrorModel>) {
    if code_registration == 0 || version < V24_2 {
        (version, Ok(code_registration))
    } else {
        match map(code_registration) {
            Err(e) => (version, Err(e)),
            Ok(at) => match decoding(bytes, is_32bit, RecordKind::CodeRegistration, at, version) {
                Err(e) => (version, Err(e)),
                Ok((record, next)) => {
                    let a = adjusted(
                        version,
                        code_registration,
                        record->CodeRegistration_0,
                        count_limit,
                        io::pointer_len(is_32bit),
                    );
                    (a.0, Ok(a.1))
                },
            },
        }
    }
}

/// Reads the code registration and adjusts the version and the place of it.
pub fn refine_code_registration<
    M: Fn(u64) -> Result<u64, Error>,
    D: Fn(&[u8], bool, RecordKind, u64, u32) -> Result<(Record, u64), Error>,
>(
    stream: &mut BinaryStream,
    code_registration: u64,
    map_vatr: &AddressMap<M>,
    reader: &RecordReader<D>,
    count_limit: u64,
) -> (r: Result<u64, Error>)
    ensures
        ({
            let a = refined(
                old(stream).bytes@,
                old(stream).is_32bit,
                old(stream).version,
                code_registration,
                map_vatr.mapping(),
                reader.decoding(),
                count_limit,
            );
            io::outcome(r) == a.1 && *final(stream) == (BinaryStream {
                version: a.0,
                ..*old(stream)
            })
        }),
{
    if code_registration == 0 || stream.version < V24_2 {
        return Ok(code_registration);
    }
    let at: u64 = match map_vatr.map_vatr(code_registration) {
        Ok(at) => at,
        Err(e) => {
            return Err(e);
        },
    };
    let version: u32 = stream.version;
    match reader.read(stream, RecordKind::CodeRegistration, at, version) {
        Ok((Record::CodeRegistration(cr), _)) => Ok(
            apply_auto_plus_heuristics(stream, code_registration, &cr, count_limit),
        ),
        Ok(_) => Ok(code_registration),
        Err(e) => Err(e),
    }
}

// Runs of records.

/// What the records of an image are read with.
pub struct Reading {
    pub bytes: Seq<u8>,
    pub is_32bit: bool,
    pub version: u32,
    pub limit: usize,
    pub map: Mapping,
    pub decoding: Decoding,
}

/// What the records of the image `m` are read with.
pub open spec fn reading(m: Il2CppModel, map: Mapping, decoding: Decoding) -> Reading {
    Reading {
        bytes: m.bytes,
        is_32bit: m.stream_is_32bit,
        version: m.version,
        limit: m.max_array_elems,
        map,
        decoding,
    }
}

/// The record of a kind at an offset.
pub open spec fn record_at(c: Reading, kind: RecordKind, at: u64) -> records::Decoded {
    (c.decoding)(c.bytes, c.is_32bit, kind, at, c.version)
}

/// The first `n` records that stand one after the other from `at` on: those that can be read, the
/// offset behind them, and why the next one cannot be read.
pub open spec fn records_from(c: Reading, kind: RecordKind, at: u64, n: nat) -> (
    Seq<RecordModel>,
    u64,
    Option<ErrorModel>,
)
    decreases n,
{
    if n == 0 {
        (Seq::empty(), at, None)
    } else {
        let p = records_from(c, kind, at, (n - 1) as nat);
        if p.2 is Some {
            p
        } else {
            match record_at(c, kind, p.1) {
                Ok((record, next)) => (p.0.push(record), next, None),
                Err(e) => (p.0, p.1, Some(e)),
            }
        }
    }
}

proof fn lemma_records_stop(c: Reading, kind: RecordKind, at: u64, i: nat, n: nat)
    requires
        i <= n,
        records_from(c, kind, at, i).2 is Some,
    ensures
        records_from(c, kind, at, n) == records_from(c, kind, at, i),
    decreases n,
{
    if i < n {
        lemma_records_stop(c, kind, at, i, (n - 1) as nat);
    }
}

/// The values of a sequence of records.
pub open spec fn record_models(v: Seq<Record>) -> Seq<RecordModel> {
    v.map_values(|r: Record| r@)
}

/// An optional error as a model.
pub open spec fn failure(e: Option<Error>) -> Option<ErrorModel> {
    match e {
        Some(e) => Some(e@),
        None => None,
    }
}

/// The result of a step that may have failed.
pub open spec fn verdict(e: Option<ErrorModel>) -> Result<(), ErrorModel> {
    match e {
        Some(e) => Err(e),
        None => Ok(()),
    }
}

fn to_result(e: Option<Error>) -> (r: Result<(), Error>)
    ensures
        io::outcome(r) == verdict(failure(e)),
{
    match e {
        Some(e) => Err(e),
        None => Ok(()),
    }
}

/// Reads up to `n` records that stand one after the other from `at` on.
fn read_records<D: Fn(&[u8], bool, RecordKind, u64, u32) -> Result<(Record, u64), Error>>(
    stream: &BinaryStream,
    version: u32,
    reader: &RecordReader<D>,
    kind: RecordKind,
    at: u64,
    n: u64,
    Ghost(c): Ghost<Reading>,
) -> (r: (Vec<Record>, Option<Error>))
    requires
        c.bytes == stream.bytes@,
        c.is_32bit == stream.is_32bit,
        c.version == version,
        c.decoding == reader.decoding(),
    ensures
        record_models(r.0@) == records_from(c, kind, at, n as nat).0,
        failure(r.1) == records_from(c, kind, at, n as nat).2,
        forall|i: int| 0 <= i < r.0@.len() ==> records::has_kind(#[trigger] r.0@[i]@, kind),
{
    let mut out: Vec<Record> = Vec::new();
    let mut pos: u64 = at;
    let mut i: u64 = 0;
    assert(record_models(out@) =~= Seq::<RecordModel>::empty());
    while i < n
        invariant
            i <= n,
            c.bytes == stream.bytes@,
            c.is_32bit == stream.is_32bit,
            c.version == version,
            c.decoding == reader.decoding(),
            records_from(c, kind, at, i as nat) == (record_models(out@), pos, None::<ErrorModel>),
            forall|i: int| 0 <= i < out@.len() ==> records::has_kind(#[trigger] out@[i]@, kind),
        decreases n - i,
    {
        match reader.read(stream, kind, pos, version) {
            Ok((record, next)) => {
                let ghost was = out@;
                out.push(record);
                assert(record_models(out@) =~= record_models(was).push(record@));
                pos = next;
                i = i + 1;
            },
            Err(e) => {
                proof {
                    lemma_records_stop(c, kind, at, (i + 1) as nat, n as nat);
                }
                return (out, Some(e));
            },
        }
    }
    (out, None)
}

/// The methods of instances among the records.
pub open spec fn method_specs_of(v: Seq<RecordModel>) -> Seq<Il2CppMethodSpec> {
    v.map_values(|r: RecordModel| r->MethodSpec_0)
}

/// The entries of the table of generic methods among the records.
pub open spec fn generic_methods_of(v: Seq<RecordModel>) -> Seq<
    Il2CppGenericMethodFunctionsDefinitions,
> {
    v.map_values(|r: RecordModel| r->GenericMethod_0)
}

/// The sizes of type definitions among the records.
pub open spec fn sizes_of(v: Seq<RecordModel>) -> Seq<Il2CppTypeDefinitionSizes> {
    v.map_values(|r: RecordModel| r->TypeDefinitionSizes_0)
}

fn to_method_specs(v: &Vec<Record>) -> (r: Vec<Il2CppMethodSpec>)
    requires
        forall|i: int|
            0 <= i < v@.len() ==> records::has_kind(#[trigger] v@[i]@, RecordKind::MethodSpec),
    ensures
        r@ == method_specs_of(record_models(v@)),
{
    let mut out: Vec<Il2CppMethodSpec> = Vec::new();
    let mut i: usize = 0;
    while i < v.len()
        invariant
            forall|i: int|
                0 <= i < v@.len() ==> records::has_kind(#[trigger] v@[i]@, RecordKind::MethodSpec),
            i <= v@.len(),
            out@.len() == i,
            forall|k: int| 0 <= k < i ==> #[trigger] out@[k] == v@[k]@->MethodSpec_0,
        decreases v@.len() - i,
    {
        assert(records::has_kind(v@[i as int]@, RecordKind::MethodSpec));
        if let Record::MethodSpec(x) = &v[i] {
            out.push(*x);
        }
        i = i + 1;
    }
    assert(out@ =~= method_specs_of(record_models(v@)));
    out
}

fn to_generic_methods(v: &Vec<Record>) -> (r: Vec<Il2CppGenericMethodFunctionsDefinitions>)
    requires
        forall|i: int|
            0 <= i < v@.len() ==> records::has_kind(#[trigger] v@[i]@, RecordKind::GenericMethod),
    ensures
        r@ == generic_methods_of(record_models(v@)),
{
    let mut out: Vec<Il2CppGenericMethodFunctionsDefinitions> = Vec::new();
    let mut i: usize = 0;
    while i < v.len()
        invariant
            forall|i: int|
                0 <= i < v@.len() ==> records::has_kind(
                    #[trigger] v@[i]@,
                    RecordKind::GenericMethod,
                ),
            i <= v@.len(),
            out@.len() == i,
            forall|k: int| 0 <= k < i ==> #[trigger] out@[k] == v@[k]@->GenericMethod_0,
        decreases v@.len() - i,
    {
        assert(records::has_kind(v@[i as int]@, RecordKind::GenericMethod));
        if let Record::GenericMethod(x) = &v[i] {
            out.push(*x);
        }
        i = i + 1;
    }
    assert(out@ =~= generic_methods_of(record_models(v@)));
    out
}

fn to_sizes(v: &Vec<Record>) -> (r: Vec<Il2CppTypeDefinitionSizes>)
    requires
        forall|i: int|
            0 <= i < v@.len() ==> records::has_kind(
                #[trigger] v@[i]@,
                RecordKind::TypeDefinitionSizes,
            ),
    ensures
        r@ == sizes_of(record_models(v@)),
{
    let mut out: Vec<Il2CppTypeDefinitionSizes> = Vec::new();
    let mut i: usize = 0;
    while i < v.len()
        invariant
            forall|i: int|
                0 <= i < v@.len() ==> records::has_kind(
                    #[trigger] v@[i]@,
                    RecordKind::TypeDefinitionSizes,
                ),
            i <= v@.len(),
            out@.len() == i,
            forall|k: int| 0 <= k < i ==> #[trigger] out@[k] == v@[k]@->TypeDefinitionSizes_0,
        decreases v@.len() - i,
    {
        assert(records::has_kind(v@[i as int]@, RecordKind::TypeDefinitionSizes));
        if let Record::TypeDefinitionSizes(x) = &v[i] {
            out.push(*x);
        }
        i = i + 1;
    }
    assert(out@ =~= sizes_of(record_models(v@)));
    out
}

// Types.

/// What is said of a type whose address is not mapped.
pub open spec fn unmapped_type(idx: nat, ptr: u64, e: ErrorModel) -> ErrorModel {
    ErrorModel::Io {
        unexpected_eof: false,
        message: "type["@ + numeral::dec(idx) + "] ptr=0x"@ + numeral::hex_lower(ptr as nat)
            + ": "@ + error::error_text(e),
    }
}

/// The type record at an address.
pub open spec fn type_record(c: Reading, scrambled: bool, idx: nat, ptr: u64) -> Result<
    Il2CppType,
    ErrorModel,
> {
    match (c.map)(ptr) {
        Err(e) => Err(unmapped_type(idx, ptr, e)),
        Ok(at) => match record_at(
            c,
            if scrambled {
                RecordKind::ScrambledType
            } else {
                RecordKind::Type
            },
            at,
        ) {
            Ok((record, next)) => Ok(record->Type_0),
            Err(e) => Err(e),
        },
    }
}

/// The first `n` types, where each can be found by its address, and why the next one cannot be
/// read. A tolerant reading puts a blank type, which no address leads to, in the place of each
/// type that cannot be read.
pub open spec fn types_at(
    c: Reading,
    scrambled: bool,
    tolerant: bool,
    ptrs: Seq<u64>,
    n: nat,
) -> (Seq<Il2CppType>, Map<u64, usize>, Option<ErrorModel>)
    decreases n,
{
    if n == 0 {
        (Seq::empty(), Map::empty(), None)
    } else {
        let p = types_at(c, scrambled, tolerant, ptrs, (n - 1) as nat);
        if p.2 is Some {
            p
        } else {
            match type_record(c, scrambled, (n - 1) as nat, ptrs[n - 1]) {
                Ok(t) => (p.0.push(t), p.1.insert(ptrs[n - 1], (n - 1) as usize), None),
                Err(e) => if tolerant {
                    (p.0.push(Il2CppType::blank()), p.1, None)
                } else {
                    (p.0, p.1, Some(e))
                },
            }
        }
    }
}

proof fn lemma_types_stop(
    c: Reading,
    scrambled: bool,
    tolerant: bool,
    ptrs: Seq<u64>,
    i: nat,
    n: nat,
)
    requires
        i <= n,
        types_at(c, scrambled, tolerant, ptrs, i).2 is Some,
    ensures
        types_at(c, scrambled, tolerant, ptrs, n) == types_at(c, scrambled, tolerant, ptrs, i),
    decreases n,
{
    if i < n {
        lemma_types_stop(c, scrambled, tolerant, ptrs, i, (n - 1) as nat);
    }
}

fn read_type<
    M: Fn(u64) -> Result<u64, Error>,
    D: Fn(&[u8], bool, RecordKind, u64, u32) -> Result<(Record, u64), Error>,
>(
    stream: &BinaryStream,
    version: u32,
    map_vatr: &AddressMap<M>,
    reader: &RecordReader<D>,
    scrambled: bool,
    idx: usize,
    ptr: u64,
    Ghost(c): Ghost<Reading>,
) -> (r: Result<Il2CppType, Error>)
    requires
        c.bytes == stream.bytes@,
        c.is_32bit == stream.is_32bit,
        c.version == version,
        c.map == map_vatr.mapping(),
        c.decoding == reader.decoding(),
    ensures
        io::outcome(r) == type_record(c, scrambled, idx as nat, ptr),
{
    match map_vatr.map_vatr(ptr) {
        Err(e) => Err(
            Error::Io(
                IoError {
                    unexpected_eof: false,
                    message: String::from_str("type[").concat(
                        numeral::dec_string(idx as u64).as_str(),
                    ).concat("] ptr=0x").concat(numeral::hex_lower_string(ptr).as_str()).concat(
                        ": ",
                    ).concat(e.to_string().as_str()),
                },
            ),
        ),
        Ok(at) => {
            let kind = if scrambled {
                RecordKind::ScrambledType
            } else {
                RecordKind::Type
            };
            match reader.read(stream, kind, at, version) {
                Ok((Record::Type(t), _)) => Ok(t),
                Ok(_) => Ok(Il2CppType::default()),
                Err(e) => Err(e),
            }
        },
    }
}

fn read_types<
    M: Fn(u64) -> Result<u64, Error>,
    D: Fn(&[u8], bool, RecordKind, u64, u32) -> Result<(Record, u64), Error>,
>(
    stream: &BinaryStream,
    version: u32,
    map_vatr: &AddressMap<M>,
    reader: &RecordReader<D>,
    scrambled: bool,
    tolerant: bool,
    ptrs: &Vec<u64>,
    Ghost(c): Ghost<Reading>,
) -> (r: (Vec<Il2CppType>, HashMap<u64, usize>, Option<Error>))
    requires
        c.bytes == stream.bytes@,
        c.is_32bit == stream.is_32bit,
        c.version == version,
        c.map == map_vatr.mapping(),
        c.decoding == reader.decoding(),
    ensures
        (r.0@, r.1@, failure(r.2)) == types_at(c, scrambled, tolerant, ptrs@, ptrs@.len()),
{
    let mut types: Vec<Il2CppType> = Vec::new();
    let mut dic: HashMap<u64, usize> = HashMap::new();
    let mut i: usize = 0;
    while i < ptrs.len()
        invariant
            i <= ptrs@.len(),
            c.bytes == stream.bytes@,
            c.is_32bit == stream.is_32bit,
            c.version == version,
            c.map == map_vatr.mapping(),
            c.decoding == reader.decoding(),
            types_at(c, scrambled, tolerant, ptrs@, i as nat) == (
                types@,
                dic@,
                None::<ErrorModel>,
            ),
        decreases ptrs@.len() - i,
    {
        let ptr: u64 = ptrs[i];
        match read_type(stream, version, map_vatr, reader, scrambled, i, ptr, Ghost(c)) {
            Ok(t) => {
                types.push(t);
                dic.insert(ptr, i);
            },
            Err(e) => {
                if !tolerant {
                    proof {
                        lemma_types_stop(
                            c,
                            scrambled,
                            tolerant,
                            ptrs@,
                            (i + 1) as nat,
                            ptrs@.len(),
                        );
                    }
                    return (types, dic, Some(e));
                }
                types.push(Il2CppType::default());
            },
        }
        i = i + 1;
    }
    (types, dic, None)
}

// Generic instances.

/// The generic instance record at an address.
pub open spec fn inst_record(c: Reading, ptr: u64) -> Result<Il2CppGenericInst, ErrorModel> {
    match (c.map)(ptr) {
        Err(e) => Err(e),
        Ok(at) => match record_at(c, RecordKind::GenericInst, at) {
            Ok((record, next)) => Ok(record->GenericInst_0),
            Err(e) => Err(e),
        },
    }
}

/// The first `n` generic instances, and why the next one cannot be read.
pub open spec fn insts_at(c: Reading, ptrs: Seq<u64>, n: nat) -> (
    Seq<Il2CppGenericInst>,
    Option<ErrorModel>,
)
    decreases n,
{
    if n == 0 {
        (Seq::empty(), None)
    } else {
        let p = insts_at(c, ptrs, (n - 1) as nat);
        if p.1 is Some {
            p
        } else {
            match inst_record(c, ptrs[n - 1]) {
                Ok(x) => (p.0.push(x), None),
                Err(e) => (p.0, Some(e)),
            }
        }
    }
}

proof fn lemma_insts_stop(c: Reading, ptrs: Seq<u64>, i: nat, n: nat)
    requires
        i <= n,
        insts_at(c, ptrs, i).1 is Some,
    ensures
        insts_at(c, ptrs, n) == insts_at(c, ptrs, i),
    decreases n,
{
    if i < n {
        lemma_insts_stop(c, ptrs, i, (n - 1) as nat);
    }
}

fn read_insts<
    M: Fn(u64) -> Result<u64, Error>,
    D: Fn(&[u8], bool, RecordKind, u64, u32) -> Result<(Record, u64), Error>,
>(
    stream: &BinaryStream,
    version: u32,
    map_vatr: &AddressMap<M>,
    reader: &RecordReader<D>,
    ptrs: &Vec<u64>,
    Ghost(c): Ghost<Reading>,
) -> (r: (Vec<Il2CppGenericInst>, Option<Error>))
    requires
        c.bytes == stream.bytes@,
        c.is_32bit == stream.is_32bit,
        c.version == version,
        c.map == map_vatr.mapping(),
        c.decoding == reader.decoding(),
    ensures
        (r.0@, failure(r.1)) == insts_at(c, ptrs@, ptrs@.len()),
{
    let mut out: Vec<Il2CppGenericInst> = Vec::new();
    let mut i: usize = 0;
    while i < ptrs.len()
        invariant
            i <= ptrs@.len(),
            c.bytes == stream.bytes@,
            c.is_32bit == stream.is_32bit,
            c.version == version,
            c.map == map_vatr.mapping(),
            c.decoding == reader.decoding(),
            insts_at(c, ptrs@, i as nat) == (out@, None::<ErrorModel>),
        decreases ptrs@.len() - i,
    {
        proof {
            if inst_record(c, ptrs@[i as int]) is Err {
                lemma_insts_stop(c, ptrs@, (i + 1) as nat, ptrs@.len());
            }
        }
        match map_vatr.map_vatr(ptrs[i]) {
            Ok(at) => match reader.read(stream, RecordKind::GenericInst, at, version) {
                Ok((Record::GenericInst(x), _)) => {
                    out.push(x);
                },
                Ok(_) => {},
                Err(e) => {
                    return (out, Some(e));
                },
            },
            Err(e) => {
                return (out, Some(e));
            },
        }
        i = i + 1;
    }
    (out, None)
}

// The steps of reading an image. Each leads from an image to an image, and may fail.

/// The array of `count` pointers at an offset.
pub open spec fn pointers_in(m: Il2CppModel, at: u64, count: u64) -> Result<Seq<u64>, ErrorModel> {
    io::pointer_array(
        m.bytes,
        m.stream_is_32bit,
        m.max_array_elems,
        at,
        count,
        "read_ptr_array"@,
    )
}

/// The image with its types.
#[verifier::opaque]
pub open spec fn with_types(
    m: Il2CppModel,
    mr: Il2CppMetadataRegistration,
    map: Mapping,
    decoding: Decoding,
) -> (Il2CppModel, Result<(), ErrorModel>) {
    match map(mr.types) {
        Err(e) => (m, Err(e)),
        Ok(at) => match pointers_in(m, at, mr.types_count) {
            Err(e) => (m, Err(e)),
            Ok(ptrs) => {
                let t = types_at(
                    reading(m, map, decoding),
                    m.codm,
                    m.codm && m.is_dumped,
                    ptrs,
                    ptrs.len(),
                );
                (Il2CppModel { types: t.0, type_dic: t.1, ..m }, verdict(t.2))
            },
        },
    }
}

/// The image with its generic instances.
#[verifier::opaque]
pub open spec fn with_generic_insts(
    m: Il2CppModel,
    mr: Il2CppMetadataRegistration,
    map: Mapping,
    decoding: Decoding,
) -> (Il2CppModel, Result<(), ErrorModel>) {
    if mr.generic_insts_count == 0 {
        (m, Ok(()))
    } else {
        match map(mr.generic_insts) {
            Err(e) => (m, Err(e)),
            Ok(at) => match pointers_in(m, at, mr.generic_insts_count) {
                Err(e) => (m, Err(e)),
                Ok(ptrs) => {
                    let t = insts_at(reading(m, map, decoding), ptrs, ptrs.len());
                    (
                        Il2CppModel { generic_inst_pointers: ptrs, generic_insts: t.0, ..m },
                        verdict(t.1),
                    )
                },
            },
        }
    }
}

/// The image with its methods of instances.
#[verifier::opaque]
pub open spec fn with_method_specs(
    m: Il2CppModel,
    mr: Il2CppMetadataRegistration,
    map: Mapping,
    decoding: Decoding,
) -> (Il2CppModel, Result<(), ErrorModel>) {
    if mr.method_specs_count == 0 || mr.method_specs == 0 {
        (m, Ok(()))
    } else {
        match map(mr.method_specs) {
            Err(e) => (m, Err(e)),
            Ok(at) => {
                let t = records_from(
                    reading(m, map, decoding),
                    RecordKind::MethodSpec,
                    at,
                    mr.method_specs_count as nat,
                );
                (Il2CppModel { method_specs: method_specs_of(t.0), ..m }, verdict(t.2))
            },
        }
    }
}

/// The image with its table of generic methods.
#[verifier::opaque]
pub open spec fn with_generic_methods(
    m: Il2CppModel,
    mr: Il2CppMetadataRegistration,
    map: Mapping,
    decoding: Decoding,
) -> (Il2CppModel, Result<(), ErrorModel>) {
    if mr.generic_method_table_count == 0 || mr.generic_method_table == 0 {
        (m, Ok(()))
    } else {
        match map(mr.generic_method_table) {
            Err(e) => (m, Err(e)),
            Ok(at) => {
                let t = records_from(
                    reading(m, map, decoding),
                    RecordKind::GenericMethod,
                    at,
                    mr.generic_method_table_count as nat,
                );
                (Il2CppModel { generic_method_table: generic_methods_of(t.0), ..m }, verdict(t.2))
            },
        }
    }
}

/// A table that was read, as a value.
pub open spec fn table_model(r: Result<Option<Vec<u64>>, Error>) -> Result<
    Option<Seq<u64>>,
    ErrorModel,
> {
    match r {
        Ok(Some(v)) => Ok(Some(v@)),
        Ok(None) => Ok(None),
        Err(e) => Err(e@),
    }
}

/// A table of pointers that the image may have; one that it does not have is left as it is.
#[verifier::opaque]
pub open spec fn pointer_table(m: Il2CppModel, wanted: bool, addr: u64, count: u64, map: Mapping) -> Result<
    Option<Seq<u64>>,
    ErrorModel,
> {
    if wanted && addr > 0 && count > 0 {
        match map(addr) {
            Err(e) => Err(e),
            Ok(at) => match pointers_in(m, at, count) {
                Err(e) => Err(e),
                Ok(v) => Ok(Some(v)),
            },
        }
    } else {
        Ok(None)
    }
}

/// The table that was read, or the one from before.
pub open spec fn kept(r: Result<Option<Seq<u64>>, ErrorModel>, before: Seq<u64>) -> Seq<u64> {
    match r {
        Ok(Some(v)) => v,
        _ => before,
    }
}

/// The image with its tables of pointers. A scrambled image goes without those that cannot be
/// read.
#[verifier::opaque]
pub open spec fn with_tables(
    m: Il2CppModel,
    mr: Il2CppMetadataRegistration,
    cr: Il2CppCodeRegistration,
    map: Mapping,
) -> (Il2CppModel, Result<(), ErrorModel>) {
    let older = m.version < V27;
    let a = pointer_table(m, true, cr.method_pointers, cr.method_pointers_count, map);
    let b = pointer_table(m, true, cr.generic_method_pointers, cr.generic_method_pointers_count, map);
    let c = pointer_table(m, true, cr.invoker_pointers, cr.invoker_pointers_count, map);
    let d = pointer_table(m, older, cr.custom_attribute_generators, cr.custom_attribute_count, map);
    let e = pointer_table(m, older, mr.metadata_usages, mr.metadata_usages_count, map);
    let m1 = Il2CppModel { method_pointers: kept(a, m.method_pointers), ..m };
    let m2 = Il2CppModel { generic_method_pointers: kept(b, m1.generic_method_pointers), ..m1 };
    let m3 = Il2CppModel { invoker_pointers: kept(c, m2.invoker_pointers), ..m2 };
    let m4 = Il2CppModel {
        custom_attribute_generators: kept(d, m3.custom_attribute_generators),
        ..m3
    };
    let m5 = Il2CppModel { metadata_usages: kept(e, m4.metadata_usages), ..m4 };
    if !m.codm && a is Err {
        (m1, Err(a->Err_0))
    } else if !m.codm && b is Err {
        (m2, Err(b->Err_0))
    } else if !m.codm && c is Err {
        (m3, Err(c->Err_0))
    } else if !m.codm && d is Err {
        (m4, Err(d->Err_0))
    } else if !m.codm && e is Err {
        (m5, Err(e->Err_0))
    } else {
        (m5, Ok(()))
    }
}

/// The `n` signed words that stand one after the other from `at` on.
pub open spec fn signed_words(s: Seq<u8>, at: u64, n: nat) -> Seq<i32> {
    Seq::new(n, |i: int| io::signed(io::little_endian(s, at + i * 4, 4)) as i32)
}

/// The image with its field offsets: a table of pointers, or one list of offsets.
#[verifier::opaque]
pub open spec fn with_field_offsets(m: Il2CppModel, mr: Il2CppMetadataRegistration, map: Mapping) -> (
    Il2CppModel,
    Result<(), ErrorModel>,
) {
    let m0 = Il2CppModel { field_offsets_are_pointers: m.version > V21, ..m };
    let r = if mr.field_offsets == 0 || mr.field_offsets_count == 0 {
        (m0, Ok(()))
    } else {
        match map(mr.field_offsets) {
            Err(e) => (m0, Err(e)),
            Ok(at) => if m0.field_offsets_are_pointers {
                match pointers_in(m0, at, mr.field_offsets_count) {
                    Err(e) => (m0, Err(e)),
                    Ok(v) => (Il2CppModel { field_offset_pointers: v, ..m0 }, Ok(())),
                }
            } else {
                match io::array_len(
                    mr.field_offsets_count,
                    4,
                    io::left_from(m0.bytes, at),
                    "field_offsets(raw)"@,
                    m0.max_array_elems,
                ) {
                    Err(e) => (m0, Err(e)),
                    Ok(n) => (
                        Il2CppModel {
                            field_offsets: seq![signed_words(m0.bytes, at, n as nat)],
                            ..m0
                        },
                        Ok(()),
                    ),
                }
            },
        }
    };
    if m.codm {
        (r.0, Ok(()))
    } else {
        r
    }
}

/// The image with the sizes of its type definitions.
#[verifier::opaque]
pub open spec fn with_sizes(
    m: Il2CppModel,
    mr: Il2CppMetadataRegistration,
    map: Mapping,
    decoding: Decoding,
) -> (Il2CppModel, Result<(), ErrorModel>) {
    let r = if mr.type_definitions_sizes == 0 || mr.type_definitions_sizes_count == 0 {
        (m, Ok(()))
    } else {
        match map(mr.type_definitions_sizes) {
            Err(e) => (m, Err(e)),
            Ok(at) => match io::array_len(
                mr.type_definitions_sizes_count,
                TYPE_DEFINITION_SIZES_LEN as nat,
                io::left_from(m.bytes, at),
                "type_definition_sizes"@,
                m.max_array_elems,
            ) {
                Err(e) => (m, Err(e)),
                Ok(n) => {
                    let t = records_from(
                        reading(m, map, decoding),
                        RecordKind::TypeDefinitionSizes,
                        at,
                        n as nat,
                    );
                    (Il2CppModel { type_definition_sizes: sizes_of(t.0), ..m }, verdict(t.2))
                },
            },
        }
    };
    if m.codm {
        (r.0, Ok(()))
    } else {
        r
    }
}

/// The methods of instances that the table of generic methods lists for the method definition
/// `k`, in the order of the table.
pub open spec fn specs_of(
    table: Seq<Il2CppGenericMethodFunctionsDefinitions>,
    specs: Seq<Il2CppMethodSpec>,
    k: usize,
) -> Seq<usize>
    decreases table.len(),
{
    if table.len() == 0 {
        Seq::empty()
    } else {
        let rest = specs_of(table.drop_last(), specs, k);
        let spec = table.last().generic_method_index;
        if spec < specs.len() && specs[spec as int].method_definition_index == k {
            rest.push(spec)
        } else {
            rest
        }
    }
}

/// The methods of instances of each method definition that has any.
pub open spec fn spec_lists(
    table: Seq<Il2CppGenericMethodFunctionsDefinitions>,
    specs: Seq<Il2CppMethodSpec>,
) -> Map<usize, Seq<usize>> {
    Map::new(|k: usize| specs_of(table, specs, k).len() > 0, |k: usize| specs_of(table, specs, k))
}

/// The pointers of the methods of instances: where the table gives several, the last one counts.
pub open spec fn spec_pointers(
    table: Seq<Il2CppGenericMethodFunctionsDefinitions>,
    specs: Seq<Il2CppMethodSpec>,
    pointers: Seq<u64>,
) -> Map<usize, u64>
    decreases table.len(),
{
    if table.len() == 0 {
        Map::empty()
    } else {
        let rest = spec_pointers(table.drop_last(), specs, pointers);
        let t = table.last();
        if t.generic_method_index < specs.len() && t.method_index < pointers.len() {
            rest.insert(t.generic_method_index, pointers[t.method_index as int])
        } else {
            rest
        }
    }
}

/// The image with the lookup of its methods of instances.
pub open spec fn with_spec_lookup(m: Il2CppModel) -> Il2CppModel {
    Il2CppModel {
        method_definition_method_specs: spec_lists(m.generic_method_table, m.method_specs),
        method_spec_generic_method_pointers: spec_pointers(
            m.generic_method_table,
            m.method_specs,
            m.generic_method_pointers,
        ),
        ..m
    }
}

/// The method pointers of a module: where their table cannot be read but its length is plausible,
/// as many zeros.
pub open spec fn module_pointers(m: Il2CppModel, module: Il2CppCodeGenModule, map: Mapping) -> Result<
    Seq<u64>,
    ErrorModel,
> {
    let n = module.method_pointer_count;
    if module.method_pointers == 0 || n == 0 {
        Ok(Seq::empty())
    } else {
        match map(module.method_pointers) {
            Err(e) => Err(e),
            Ok(at) => match pointers_in(m, at, n) {
                Ok(v) => Ok(v),
                Err(_) => if n <= m.bytes.len() / io::pointer_len(m.stream_is_32bit) && n
                    <= m.max_array_elems {
                    Ok(Seq::new(n as nat, |i: int| 0u64))
                } else {
                    Ok(Seq::empty())
                },
            },
        }
    }
}

/// The name, the record and the method pointers of the module at an address.
pub open spec fn module_record(m: Il2CppModel, map: Mapping, decoding: Decoding, ptr: u64) -> Result<
    (Seq<char>, Il2CppCodeGenModule, Seq<u64>),
    ErrorModel,
> {
    let c = reading(m, map, decoding);
    match map(ptr) {
        Err(e) => Err(e),
        Ok(at) => match record_at(c, RecordKind::CodeGenModule, at) {
            Err(e) => Err(e),
            Ok((record, next)) => {
                let module = record->CodeGenModule_0;
                match map(module.module_name) {
                    Err(e) => Err(e),
                    Ok(name_at) => match record_at(c, RecordKind::Name, name_at) {
                        Err(e) => Err(e),
                        Ok((name, behind)) => match module_pointers(m, module, map) {
                            Err(e) => Err(e),
                            Ok(v) => Ok((name->Name_0, module, v)),
                        },
                    },
                }
            },
        },
    }
}

/// The image with the first `n` of its code modules, and why the next one cannot be read.
pub open spec fn with_modules_at(
    m: Il2CppModel,
    map: Mapping,
    decoding: Decoding,
    ptrs: Seq<u64>,
    n: nat,
) -> (Il2CppModel, Result<(), ErrorModel>)
    decreases n,
{
    if n == 0 {
        (m, Ok(()))
    } else {
        let p = with_modules_at(m, map, decoding, ptrs, (n - 1) as nat);
        if p.1 is Err {
            p
        } else {
            match module_record(m, map, decoding, ptrs[n - 1]) {
                Ok((name, module, pointers)) => (
                    Il2CppModel {
                        code_gen_modules: p.0.code_gen_modules.insert(name, module),
                        code_gen_module_method_pointers: p.0.code_gen_module_method_pointers.insert(
                            name,
                            pointers,
                        ),
                        ..p.0
                    },
                    Ok(()),
                ),
                Err(e) => (p.0, Err(e)),
            }
        }
    }
}

/// The image with its code modules.
#[verifier::opaque]
pub open spec fn with_modules(
    m: Il2CppModel,
    cr: Il2CppCodeRegistration,
    map: Mapping,
    decoding: Decoding,
) -> (Il2CppModel, Result<(), ErrorModel>) {
    if cr.code_gen_modules == 0 || cr.code_gen_modules_count == 0 {
        (m, Ok(()))
    } else {
        match map(cr.code_gen_modules) {
            Err(e) => (m, Err(e)),
            Ok(at) => match pointers_in(m, at, cr.code_gen_modules_count) {
                Err(e) => (m, Err(e)),
                Ok(ptrs) => with_modules_at(m, map, decoding, ptrs, ptrs.len()),
            },
        }
    }
}

/// The image with all that the metadata registration leads to, before the code registration.
pub open spec fn with_metadata_registration(
    m: Il2CppModel,
    mr: Il2CppMetadataRegistration,
    map: Mapping,
    decoding: Decoding,
) -> (Il2CppModel, Result<(), ErrorModel>) {
    let a = with_types(m, mr, map, decoding);
    let b = with_generic_insts(a.0, mr, map, decoding);
    let c = with_method_specs(b.0, mr, map, decoding);
    if a.1 is Err {
        a
    } else if b.1 is Err {
        b
    } else if c.1 is Err {
        c
    } else {
        with_generic_methods(c.0, mr, map, decoding)
    }
}

/// The image with all that the code registration leads to, and what the metadata registration
/// leads to after that.
pub open spec fn with_code_registration(
    m: Il2CppModel,
    mr: Il2CppMetadataRegistration,
    cr: Il2CppCodeRegistration,
    map: Mapping,
    decoding: Decoding,
) -> (Il2CppModel, Result<(), ErrorModel>) {
    let a = with_tables(m, mr, cr, map);
    let b = with_field_offsets(a.0, mr, map);
    let c = with_sizes(b.0, mr, map, decoding);
    if a.1 is Err {
        a
    } else if b.1 is Err {
        b
    } else if c.1 is Err {
        c
    } else if c.0.version >= V24_2 {
        with_modules(with_spec_lookup(c.0), cr, map, decoding)
    } else {
        (with_spec_lookup(c.0), Ok(()))
    }
}

/// The image at the start of its reading.
pub open spec fn started(m: Il2CppModel, code_registration: u64, metadata_registration: u64) -> Il2CppModel {
    Il2CppModel {
        code_registration,
        metadata_registration,
        stream_is_32bit: m.is_32bit,
        version: m.stream_version,
        ..m
    }
}

/// The image after its reading, and why it stopped if it did not go through.
#[verifier::opaque]
pub open spec fn initialised(
    m: Il2CppModel,
    code_registration: u64,
    metadata_registration: u64,
    map: Mapping,
    decoding: Decoding,
) -> (Il2CppModel, Result<(), ErrorModel>) {
    let m0 = started(m, code_registration, metadata_registration);
    match map(metadata_registration) {
        Err(e) => (m0, Err(e)),
        Ok(at) => match record_at(
            reading(m0, map, decoding),
            RecordKind::MetadataRegistration,
            at,
        ) {
            Err(e) => (m0, Err(e)),
            Ok((mr, next)) => {
                let a = with_metadata_registration(
                    m0,
                    mr->MetadataRegistration_0,
                    map,
                    decoding,
                );
                if a.1 is Err {
                    a
                } else {
                    match map(code_registration) {
                        Err(e) => (a.0, Err(e)),
                        Ok(at) => match record_at(
                            reading(a.0, map, decoding),
                            RecordKind::CodeRegistration,
                            at,
                        ) {
                            Err(e) => (a.0, Err(e)),
                            Ok((cr, next)) => with_code_registration(
                                a.0,
                                mr->MetadataRegistration_0,
                                cr->CodeRegistration_0,
                                map,
                                decoding,
                            ),
                        },
                    }
                }
            },
        },
    }
}

/// The image after its reading from the adjusted code registration, with a second try as version
/// 29 where version 31 was claimed.
pub open spec fn initialised_with_auto_plus(
    m: Il2CppModel,
    code_registration: u64,
    metadata_registration: u64,
    map: Mapping,
    decoding: Decoding,
    is_wasm: bool,
) -> (Il2CppModel, Result<(), ErrorModel>) {
    let a = refined(
        m.bytes,
        m.stream_is_32bit,
        m.stream_version,
        code_registration,
        map,
        decoding,
        if is_wasm {
            0x35000
        } else {
            0x50000
        },
    );
    let cr = match a.1 {
        Ok(cr) => cr,
        Err(_) => code_registration,
    };
    let b = initialised(
        Il2CppModel { stream_version: a.0, version: a.0, ..m },
        cr,
        metadata_registration,
        map,
        decoding,
    );
    if b.1 is Err && m.stream_version == V31 && b.0.stream_version != V29 {
        initialised(
            Il2CppModel { stream_version: V29, version: V29, ..b.0 },
            cr,
            metadata_registration,
            map,
            decoding,
        )
    } else {
        b
    }
}

proof fn lemma_modules_stop(
    m: Il2CppModel,
    map: Mapping,
    decoding: Decoding,
    ptrs: Seq<u64>,
    i: nat,
    n: nat,
)
    requires
        i <= n,
        with_modules_at(m, map, decoding, ptrs, i).1 is Err,
    ensures
        with_modules_at(m, map, decoding, ptrs, n) == with_modules_at(m, map, decoding, ptrs, i),
    decreases n,
{
    if i < n {
        lemma_modules_stop(m, map, decoding, ptrs, i, (n - 1) as nat);
    }
}

/// Puts the table that was read into its place; says why it could not be read.
fn keep_table(r: Result<Option<Vec<u64>>, Error>, slot: &mut Vec<u64>) -> (e: Option<Error>)
    ensures
        final(slot)@ == kept(table_model(r), old(slot)@),
        failure(e) == match table_model(r) {
            Ok(_) => None,
            Err(e) => Some(e),
        },
{
    match r {
        Ok(Some(v)) => {
            *slot = v;
            None
        },
        Ok(None) => None,
        Err(e) => Some(e),
    }
}

/// The words from the offset `at` on, where that many are left.
fn read_signed_words(stream: &BinaryStream, at: u64, n: usize) -> (r: Vec<i32>)
    requires
        n * 4 <= io::left_from(stream.bytes@, at),
    ensures
        r@ == signed_words(stream.bytes@, at, n as nat),
{
    let mut out: Vec<i32> = Vec::new();
    let mut i: usize = 0;
    let len: u64 = stream.len();
    while i < n
        invariant
            n * 4 <= io::left_from(stream.bytes@, at),
            len == stream.bytes@.len(),
            i <= n,
            out@ == signed_words(stream.bytes@, at, i as nat),
        decreases n - i,
    {
        if let Ok(v) = stream.peek_i32_at(at + (i as u64) * 4) {
            out.push(v);
        }
        i = i + 1;
        assert(out@ =~= signed_words(stream.bytes@, at, i as nat));
    }
    assert(out@ =~= signed_words(stream.bytes@, at, n as nat));
    out
}

impl Il2Cpp {
    /// The table of pointers, if the image has it.
    fn load_table<M: Fn(u64) -> Result<u64, Error>>(
        &self,
        wanted: bool,
        addr: u64,
        count: u64,
        map_vatr: &AddressMap<M>,
    ) -> (r: Result<Option<Vec<u64>>, Error>)
        ensures
            table_model(r) == pointer_table(self@, wanted, addr, count, map_vatr.mapping()),
    {
        proof {
            reveal(pointer_table);
        }
        if wanted && addr > 0 && count > 0 {
            match map_vatr.map_vatr(addr) {
                Ok(at) => match self.stream.read_ptr_array(at, count, "read_ptr_array") {
                    Ok(v) => Ok(Some(v)),
                    Err(e) => Err(e),
                },
                Err(e) => Err(e),
            }
        } else {
            Ok(None)
        }
    }

    fn load_types<
        M: Fn(u64) -> Result<u64, Error>,
        D: Fn(&[u8], bool, RecordKind, u64, u32) -> Result<(Record, u64), Error>,
    >(
        &mut self,
        mr: &Il2CppMetadataRegistration,
        map_vatr: &AddressMap<M>,
        reader: &RecordReader<D>,
    ) -> (r: Result<(), Error>)
        ensures
            (final(self)@, io::outcome(r)) == with_types(
                old(self)@,
                *mr,
                map_vatr.mapping(),
                reader.decoding(),
            ),
    {
        proof {
            reveal(with_types);
        }
        let at: u64 = match map_vatr.map_vatr(mr.types) {
            Ok(at) => at,
            Err(e) => {
                return Err(e);
            },
        };
        let ptrs = match self.stream.read_ptr_array(at, mr.types_count, "read_ptr_array") {
            Ok(v) => v,
            Err(e) => {
                return Err(e);
            },
        };
        let ghost c = reading(self@, map_vatr.mapping(), reader.decoding());
        let tolerant = self.codm && self.is_dumped;
        let (types, dic, e) = read_types(
            &self.stream,
            self.version,
            map_vatr,
            reader,
            self.codm,
            tolerant,
            &ptrs,
            Ghost(c),
        );
        self.types = types;
        self.type_dic = dic;
        to_result(e)
    }

    fn load_generic_insts<
        M: Fn(u64) -> Result<u64, Error>,
        D: Fn(&[u8], bool, RecordKind, u64, u32) -> Result<(Record, u64), Error>,
    >(
        &mut self,
        mr: &Il2CppMetadataRegistration,
        map_vatr: &AddressMap<M>,
        reader: &RecordReader<D>,
    ) -> (r: Result<(), Error>)
        ensures
            (final(self)@, io::outcome(r)) == with_generic_insts(
                old(self)@,
                *mr,
                map_vatr.mapping(),
                reader.decoding(),
            ),
    {
        proof {
            reveal(with_generic_insts);
        }
        if mr.generic_insts_count == 0 {
            return Ok(());
        }
        let at: u64 = match map_vatr.map_vatr(mr.generic_insts) {
            Ok(at) => at,
            Err(e) => {
                return Err(e);
            },
        };
        let ptrs = match self.stream.read_ptr_array(at, mr.generic_insts_count, "read_ptr_array") {
            Ok(v) => v,
            Err(e) => {
                return Err(e);
            },
        };
        let ghost c = reading(self@, map_vatr.mapping(), reader.decoding());
        let (insts, e) = read_insts(
            &self.stream,
            self.version,
            map_vatr,
            reader,
            &ptrs,
            Ghost(c),
        );
        self.generic_inst_pointers = ptrs;
        self.generic_insts = insts;
        to_result(e)
    }

    fn load_method_specs<
        M: Fn(u64) -> Result<u64, Error>,
        D: Fn(&[u8], bool, RecordKind, u64, u32) -> Result<(Record, u64), Error>,
    >(
        &mut self,
        mr: &Il2CppMetadataRegistration,
        map_vatr: &AddressMap<M>,
        reader: &RecordReader<D>,
    ) -> (r: Result<(), Error>)
        ensures
            (final(self)@, io::outcome(r)) == with_method_specs(
                old(self)@,
                *mr,
                map_vatr.mapping(),
                reader.decoding(),
            ),
    {
        proof {
            reveal(with_method_specs);
        }
        if mr.method_specs_count == 0 || mr.method_specs == 0 {
            return Ok(());
        }
        let at: u64 = match map_vatr.map_vatr(mr.method_specs) {
            Ok(at) => at,
            Err(e) => {
                return Err(e);
            },
        };
        let ghost c = reading(self@, map_vatr.mapping(), reader.decoding());
        let (found, e) = read_records(
            &self.stream,
            self.version,
            reader,
            RecordKind::MethodSpec,
            at,
            mr.method_specs_count,
            Ghost(c),
        );
        self.method_specs = to_method_specs(&found);
        to_result(e)
    }

    fn load_generic_methods<
        M: Fn(u64) -> Result<u64, Error>,
        D: Fn(&[u8], bool, RecordKind, u64, u32) -> Result<(Record, u64), Error>,
    >(
        &mut self,
        mr: &Il2CppMetadataRegistration,
        map_vatr: &AddressMap<M>,
        reader: &RecordReader<D>,
    ) -> (r: Result<(), Error>)
        ensures
            (final(self)@, io::outcome(r)) == with_generic_methods(
                old(self)@,
                *mr,
                map_vatr.mapping(),
                reader.decoding(),
            ),
    {
        proof {
            reveal(with_generic_methods);
        }
        if mr.generic_method_table_count == 0 || mr.generic_method_table == 0 {
            return Ok(());
        }
        let at: u64 = match map_vatr.map_vatr(mr.generic_method_table) {
            Ok(at) => at,
            Err(e) => {
                return Err(e);
            },
        };
        let ghost c = reading(self@, map_vatr.mapping(), reader.decoding());
        let (found, e) = read_records(
            &self.stream,
            self.version,
            reader,
            RecordKind::GenericMethod,
            at,
            mr.generic_method_table_count,
            Ghost(c),
        );
        self.generic_method_table = to_generic_methods(&found);
        to_result(e)
    }

    fn load_tables<M: Fn(u64) -> Result<u64, Error>>(
        &mut self,
        mr: &Il2CppMetadataRegistration,
        cr: &Il2CppCodeRegistration,
        map_vatr: &AddressMap<M>,
    ) -> (r: Result<(), Error>)
        ensures
            (final(self)@, io::outcome(r)) == with_tables(
                old(self)@,
                *mr,
                *cr,
                map_vatr.mapping(),
            ),
    {
        proof {
            reveal(with_tables);
        }
        let older = self.version < V27;
        let methods = self.load_table(true, cr.method_pointers, cr.method_pointers_count, map_vatr);
        let generics = self.load_table(
            true,
            cr.generic_method_pointers,
            cr.generic_method_pointers_count,
            map_vatr,
        );
        let invokers = self.load_table(
            true,
            cr.invoker_pointers,
            cr.invoker_pointers_count,
            map_vatr,
        );
        let attributes = self.load_table(
            older,
            cr.custom_attribute_generators,
            cr.custom_attribute_count,
            map_vatr,
        );
        let usages = self.load_table(
            older,
            mr.metadata_usages,
            mr.metadata_usages_count,
            map_vatr,
        );
        let strict = !self.codm;
        if let Some(e) = keep_table(methods, &mut self.method_pointers) {
            if strict {
                return Err(e);
            }
        }
        if let Some(e) = keep_table(generics, &mut self.generic_method_pointers) {
            if strict {
                return Err(e);
            }
        }
        if let Some(e) = keep_table(invokers, &mut self.invoker_pointers) {
            if strict {
                return Err(e);
            }
        }
        if let Some(e) = keep_table(attributes, &mut self.custom_attribute_generators) {
            if strict {
                return Err(e);
            }
        }
        if let Some(e) = keep_table(usages, &mut self.metadata_usages) {
            if strict {
                return Err(e);
            }
        }
        Ok(())
    }

    fn load_field_offsets<M: Fn(u64) -> Result<u64, Error>>(
        &mut self,
        mr: &Il2CppMetadataRegistration,
        map_vatr: &AddressMap<M>,
    ) -> (r: Result<(), Error>)
        ensures
            (final(self)@, io::outcome(r)) == with_field_offsets(
                old(self)@,
                *mr,
                map_vatr.mapping(),
            ),
    {
        proof {
            reveal(with_field_offsets);
        }
        let codm = self.codm;
        self.field_offsets_are_pointers = self.version > V21;
        if mr.field_offsets == 0 || mr.field_offsets_count == 0 {
            return Ok(());
        }
        let at: u64 = match map_vatr.map_vatr(mr.field_offsets) {
            Ok(at) => at,
            Err(e) => {
                return if codm {
                    Ok(())
                } else {
                    Err(e)
                };
            },
        };
        if self.field_offsets_are_pointers {
            match self.stream.read_ptr_array(at, mr.field_offsets_count, "read_ptr_array") {
                Ok(v) => {
                    self.field_offset_pointers = v;
                    Ok(())
                },
                Err(e) => if codm {
                    Ok(())
                } else {
                    Err(e)
                },
            }
        } else {
            match io::checked_array_len(
                mr.field_offsets_count,
                4,
                self.stream.remaining_from(at),
                "field_offsets(raw)",
                self.stream.max_array_elems,
            ) {
                Ok(n) => {
                    let raw = read_signed_words(&self.stream, at, n);
                    let mut lists: Vec<Vec<i32>> = Vec::new();
                    lists.push(raw);
                    self.field_offsets = lists;
                    assert(base::rows(self.field_offsets@) =~= seq![
                        signed_words(self.stream.bytes@, at, n as nat),
                    ]);
                    Ok(())
                },
                Err(e) => if codm {
                    Ok(())
                } else {
                    Err(e)
                },
            }
        }
    }

    fn load_sizes<
        M: Fn(u64) -> Result<u64, Error>,
        D: Fn(&[u8], bool, RecordKind, u64, u32) -> Result<(Record, u64), Error>,
    >(
        &mut self,
        mr: &Il2CppMetadataRegistration,
        map_vatr: &AddressMap<M>,
        reader: &RecordReader<D>,
    ) -> (r: Result<(), Error>)
        ensures
            (final(self)@, io::outcome(r)) == with_sizes(
                old(self)@,
                *mr,
                map_vatr.mapping(),
                reader.decoding(),
            ),
    {
        proof {
            reveal(with_sizes);
        }
        let codm = self.codm;
        if mr.type_definitions_sizes == 0 || mr.type_definitions_sizes_count == 0 {
            return Ok(());
        }
        let at: u64 = match map_vatr.map_vatr(mr.type_definitions_sizes) {
            Ok(at) => at,
            Err(e) => {
                return if codm {
                    Ok(())
                } else {
                    Err(e)
                };
            },
        };
        let n: usize = match io::checked_array_len(
            mr.type_definitions_sizes_count,
            TYPE_DEFINITION_SIZES_LEN,
            self.stream.remaining_from(at),
            "type_definition_sizes",
            self.stream.max_array_elems,
        ) {
            Ok(n) => n,
            Err(e) => {
                return if codm {
                    Ok(())
                } else {
                    Err(e)
                };
            },
        };
        let ghost c = reading(self@, map_vatr.mapping(), reader.decoding());
        let (found, e) = read_records(
            &self.stream,
            self.version,
            reader,
            RecordKind::TypeDefinitionSizes,
            at,
            n as u64,
            Ghost(c),
        );
        self.type_definition_sizes = to_sizes(&found);
        if codm {
            Ok(())
        } else {
            to_result(e)
        }
    }

    /// Lists the methods of instances by their method definitions, with their pointers.
    fn build_method_spec_lookup(&mut self)
        ensures
            final(self)@ == with_spec_lookup(old(self)@),
    {
        let mut lists: HashMap<usize, Vec<usize>> = HashMap::new();
        let mut pointers: HashMap<usize, u64> = HashMap::new();
        let mut i: usize = 0;
        let ghost table = self.generic_method_table@;
        let ghost specs = self.method_specs@;
        let ghost code = self.generic_method_pointers@;
        assert(base::listed(lists@) =~= spec_lists(table.take(0), specs));
        assert(pointers@ =~= spec_pointers(table.take(0), specs, code));
        while i < self.generic_method_table.len()
            invariant
                i <= self.generic_method_table@.len(),
                table == self.generic_method_table@,
                specs == self.method_specs@,
                code == self.generic_method_pointers@,
                base::listed(lists@) == spec_lists(table.take(i as int), specs),
                pointers@ == spec_pointers(table.take(i as int), specs, code),
            decreases self.generic_method_table@.len() - i,
        {
            let entry = self.generic_method_table[i];
            let spec: usize = entry.generic_method_index;
            let ghost now = table.take(i as int);
            let ghost next = table.take(i + 1);
            assert(next.drop_last() =~= now);
            assert(next.last() == entry);
            let ghost was = lists@;
            if spec < self.method_specs.len() {
                let k: usize = self.method_specs[spec].method_definition_index;
                let mut list: Vec<usize> = match lists.remove(&k) {
                    Some(v) => v,
                    None => Vec::new(),
                };
                proof {
                    assert(base::listed(was).contains_key(k) == was.contains_key(k));
                    assert(specs_of(now, specs, k) =~= list@) by {
                        if was.contains_key(k) {
                            assert(base::listed(was)[k] == was[k]@);
                        } else {
                            assert(!spec_lists(now, specs).contains_key(k));
                        }
                    }
                }
                list.push(spec);
                lists.insert(k, list);
                proof {
                    assert forall|j: usize| j != k implies specs_of(next, specs, j) == specs_of(
                        now,
                        specs,
                        j,
                    ) by {}
                    assert(base::listed(lists@) =~= base::listed(was).insert(k, list@));
                    assert(base::listed(lists@) =~= spec_lists(next, specs));
                }
                let m: usize = entry.method_index;
                if m < self.generic_method_pointers.len() {
                    pointers.insert(spec, self.generic_method_pointers[m]);
                }
            } else {
                assert(spec_lists(next, specs) =~= spec_lists(now, specs));
            }
            i = i + 1;
        }
        assert(table.take(i as int) =~= table);
        self.method_definition_method_specs = lists;
        self.method_spec_generic_method_pointers = pointers;
    }

    /// The method pointers of a module.
    fn load_module_pointers<M: Fn(u64) -> Result<u64, Error>>(
        &self,
        module: &Il2CppCodeGenModule,
        map_vatr: &AddressMap<M>,
    ) -> (r: Result<Vec<u64>, Error>)
        ensures
            io::array_outcome(r) == module_pointers(self@, *module, map_vatr.mapping()),
    {
        let n: u64 = module.method_pointer_count;
        if module.method_pointers == 0 || n == 0 {
            return Ok(Vec::new());
        }
        let at: u64 = match map_vatr.map_vatr(module.method_pointers) {
            Ok(at) => at,
            Err(e) => {
                return Err(e);
            },
        };
        match self.stream.read_ptr_array(at, n, "read_ptr_array") {
            Ok(v) => Ok(v),
            Err(_) => {
                let longest: u64 = self.stream.len() / self.stream.pointer_size() as u64;
                if n <= longest && n <= self.stream.max_array_elems as u64 {
                    let zeros: Vec<u64> = vec![0u64; n as usize];
                    assert(zeros@ =~= Seq::new(n as nat, |i: int| 0u64));
                    Ok(zeros)
                } else {
                    Ok(Vec::new())
                }
            },
        }
    }

    /// The name, the record and the method pointers of the module at an address.
    fn load_module<
        M: Fn(u64) -> Result<u64, Error>,
        D: Fn(&[u8], bool, RecordKind, u64, u32) -> Result<(Record, u64), Error>,
    >(&self, ptr: u64, map_vatr: &AddressMap<M>, reader: &RecordReader<D>) -> (r: Result<
        (String, Il2CppCodeGenModule, Vec<u64>),
        Error,
    >)
        ensures
            match r {
                Ok((name, module, pointers)) => module_record(
                    self@,
                    map_vatr.mapping(),
                    reader.decoding(),
                    ptr,
                ) == Ok::<(Seq<char>, Il2CppCodeGenModule, Seq<u64>), ErrorModel>(
                    (name@, module, pointers@),
                ),
                Err(e) => module_record(self@, map_vatr.mapping(), reader.decoding(), ptr) == Err::<
                    (Seq<char>, Il2CppCodeGenModule, Seq<u64>),
                    ErrorModel,
                >(e@),
            },
    {
        let at: u64 = match map_vatr.map_vatr(ptr) {
            Ok(at) => at,
            Err(e) => {
                return Err(e);
            },
        };
        match reader.read(&self.stream, RecordKind::CodeGenModule, at, self.version) {
            Err(e) => Err(e),
            Ok((record, _)) => {
                let module = match record {
                    Record::CodeGenModule(module) => module,
                    _ => {
                        return Err(Error::Other(String::new()));
                    },
                };
                let name_at: u64 = match map_vatr.map_vatr(module.module_name) {
                    Ok(at) => at,
                    Err(e) => {
                        return Err(e);
                    },
                };
                match reader.read(&self.stream, RecordKind::Name, name_at, self.version) {
                    Err(e) => Err(e),
                    Ok((record, _)) => {
                        let name = match record {
                            Record::Name(name) => name,
                            _ => {
                                return Err(Error::Other(String::new()));
                            },
                        };
                        match self.load_module_pointers(&module, map_vatr) {
                            Err(e) => Err(e),
                            Ok(pointers) => Ok((name, module, pointers)),
                        }
                    },
                }
            },
        }
    }

    /// Reads the code modules.
    fn load_code_gen_modules<
        M: Fn(u64) -> Result<u64, Error>,
        D: Fn(&[u8], bool, RecordKind, u64, u32) -> Result<(Record, u64), Error>,
    >(
        &mut self,
        cr: &Il2CppCodeRegistration,
        map_vatr: &AddressMap<M>,
        reader: &RecordReader<D>,
    ) -> (r: Result<(), Error>)
        ensures
            (final(self)@, io::outcome(r)) == with_modules(
                old(self)@,
                *cr,
                map_vatr.mapping(),
                reader.decoding(),
            ),
    {
        proof {
            reveal(with_modules);
        }
        if cr.code_gen_modules == 0 || cr.code_gen_modules_count == 0 {
            return Ok(());
        }
        let at: u64 = match map_vatr.map_vatr(cr.code_gen_modules) {
            Ok(at) => at,
            Err(e) => {
                return Err(e);
            },
        };
        let ptrs = match self.stream.read_ptr_array(
            at,
            cr.code_gen_modules_count,
            "read_ptr_array",
        ) {
            Ok(v) => v,
            Err(e) => {
                return Err(e);
            },
        };
        let ghost m = self@;
        let ghost map = map_vatr.mapping();
        let ghost decoding = reader.decoding();
        let mut i: usize = 0;
        while i < ptrs.len()
            invariant
                i <= ptrs@.len(),
                m == old(self)@,
                with_modules(m, *cr, map, decoding) == with_modules_at(
                    m,
                    map,
                    decoding,
                    ptrs@,
                    ptrs@.len(),
                ),
                map == map_vatr.mapping(),
                decoding == reader.decoding(),
                with_modules_at(m, map, decoding, ptrs@, i as nat) == (
                    self@,
                    Ok::<(), ErrorModel>(()),
                ),
                self@ == (Il2CppModel {
                    code_gen_modules: self@.code_gen_modules,
                    code_gen_module_method_pointers: self@.code_gen_module_method_pointers,
                    ..m
                }),
            decreases ptrs@.len() - i,
        {
            assert(module_record(self@, map, decoding, ptrs@[i as int]) == module_record(
                m,
                map,
                decoding,
                ptrs@[i as int],
            ));
            match self.load_module(ptrs[i], map_vatr, reader) {
                Ok((name, module, pointers)) => {
                    let ghost was = self.code_gen_module_method_pointers@;
                    self.code_gen_module_method_pointers.insert(name.clone(), pointers);
                    self.code_gen_modules.insert(name, module);
                    assert(base::listed(self.code_gen_module_method_pointers@) =~= base::listed(
                        was,
                    ).insert(name@, pointers@));
                },
                Err(e) => {
                    proof {
                        lemma_modules_stop(m, map, decoding, ptrs@, (i + 1) as nat, ptrs@.len());
                    }
                    return Err(e);
                },
            }
            i = i + 1;
        }
        Ok(())
    }

    /// Reads the image from its two registration records.
    pub fn init<
        M: Fn(u64) -> Result<u64, Error>,
        D: Fn(&[u8], bool, RecordKind, u64, u32) -> Result<(Record, u64), Error>,
    >(
        &mut self,
        code_registration: u64,
        metadata_registration: u64,
        map_vatr: &AddressMap<M>,
        reader: &RecordReader<D>,
    ) -> (r: Result<(), Error>)
        ensures
            (final(self)@, io::outcome(r)) == initialised(
                old(self)@,
                code_registration,
                metadata_registration,
                map_vatr.mapping(),
                reader.decoding(),
            ),
    {
        proof {
            reveal(initialised);
        }
        self.code_registration = code_registration;
        self.metadata_registration = metadata_registration;
        self.stream.is_32bit = self.is_32bit;
        self.version = self.stream.version;
        let mr_at: u64 = match map_vatr.map_vatr(metadata_registration) {
            Ok(at) => at,
            Err(e) => {
                return Err(e);
            },
        };
        let mr = match reader.read(
            &self.stream,
            RecordKind::MetadataRegistration,
            mr_at,
            self.version,
        ) {
            Ok((Record::MetadataRegistration(mr), _)) => mr,
            Ok(_) => {
                return Ok(());
            },
            Err(e) => {
                return Err(e);
            },
        };
        if let Err(e) = self.load_types(&mr, map_vatr, reader) {
            return Err(e);
        }
        if let Err(e) = self.load_generic_insts(&mr, map_vatr, reader) {
            return Err(e);
        }
        if let Err(e) = self.load_method_specs(&mr, map_vatr, reader) {
            return Err(e);
        }
        if let Err(e) = self.load_generic_methods(&mr, map_vatr, reader) {
            return Err(e);
        }
        let cr_at: u64 = match map_vatr.map_vatr(code_registration) {
            Ok(at) => at,
            Err(e) => {
                return Err(e);
            },
        };
        let cr = match reader.read(
            &self.stream,
            RecordKind::CodeRegistration,
            cr_at,
            self.version,
        ) {
            Ok((Record::CodeRegistration(cr), _)) => cr,
            Ok(_) => {
                return Ok(());
            },
            Err(e) => {
                return Err(e);
            },
        };
        if let Err(e) = self.load_tables(&mr, &cr, map_vatr) {
            return Err(e);
        }
        if let Err(e) = self.load_field_offsets(&mr, map_vatr) {
            return Err(e);
        }
        if let Err(e) = self.load_sizes(&mr, map_vatr, reader) {
            return Err(e);
        }
        self.build_method_spec_lookup();
        if self.version >= V24_2 {
            return self.load_code_gen_modules(&cr, map_vatr, reader);
        }
        Ok(())
    }

    /// Reads the image from its two registration records, of which that of the code may be
    /// misplaced.
    pub fn init_with_auto_plus<
        M: Fn(u64) -> Result<u64, Error>,
        D: Fn(&[u8], bool, RecordKind, u64, u32) -> Result<(Record, u64), Error>,
    >(
        &mut self,
        code_registration: u64,
        metadata_registration: u64,
        map_vatr: &AddressMap<M>,
        reader: &RecordReader<D>,
        is_wasm: bool,
    ) -> (r: Result<(), Error>)
        ensures
            (final(self)@, io::outcome(r)) == initialised_with_auto_plus(
                old(self)@,
                code_registration,
                metadata_registration,
                map_vatr.mapping(),
                reader.decoding(),
                is_wasm,
            ),
    {
        let orig_version: u32 = self.stream.version;
        let limit: u64 = auto_plus_count_limit(is_wasm);
        let cr: u64 = match refine_code_registration(
            &mut self.stream,
            code_registration,
            map_vatr,
            reader,
            limit,
        ) {
            Ok(c) => c,
            Err(_) => code_registration,
        };
        self.version = self.stream.version;
        match self.init(cr, metadata_registration, map_vatr, reader) {
            Ok(()) => Ok(()),
            Err(e) => {
                if orig_version == V31 && self.stream.version != V29 {
                    self.stream.version = V29;
                    self.version = V29;
                    self.init(cr, metadata_registration, map_vatr, reader)
                } else {
                    Err(e)
                }
            },
        }
    }
}

// What reading an image keeps.

/// The two images have the same file, the same places in memory and the same format.
pub open spec fn same_file(a: Il2CppModel, b: Il2CppModel) -> bool {
    &&& a.bytes == b.bytes
    &&& a.stream_image_base == b.stream_image_base
    &&& a.max_array_elems == b.max_array_elems
    &&& a.is_32bit == b.is_32bit
    &&& a.is_dumped == b.is_dumped
    &&& a.image_base == b.image_base
    &&& a.va_segments == b.va_segments
    &&& a.data_sections == b.data_sections
    &&& a.rgctxs_dictionary == b.rgctxs_dictionary
    &&& a.is_pe == b.is_pe
    &&& a.reverse_pinvoke_wrappers == b.reverse_pinvoke_wrappers
    &&& a.unresolved_virtual_call_pointers == b.unresolved_virtual_call_pointers
    &&& a.arch == b.arch
    &&& a.e_machine == b.e_machine
    &&& a.exported_symbols == b.exported_symbols
    &&& a.api_export_rvas == b.api_export_rvas
    &&& a.codm == b.codm
}

/// The two images have the same versions, pointer size and registrations.
pub open spec fn same_start(a: Il2CppModel, b: Il2CppModel) -> bool {
    &&& a.version == b.version
    &&& a.stream_version == b.stream_version
    &&& a.stream_is_32bit == b.stream_is_32bit
    &&& a.code_registration == b.code_registration
    &&& a.metadata_registration == b.metadata_registration
}

/// The indices that the lookups of an image lead to are within its tables.
pub open spec fn lookups_in_bounds(m: Il2CppModel) -> bool {
    &&& forall|p: u64| #[trigger]
        m.type_dic.contains_key(p) ==> m.type_dic[p] < m.types.len()
    &&& forall|k: usize, i: int|
        m.method_definition_method_specs.contains_key(k) && 0 <= i
            < m.method_definition_method_specs[k].len() ==> (
        #[trigger] m.method_definition_method_specs[k][i]) < m.method_specs.len()
}

proof fn lemma_types_bounds(
    c: Reading,
    scrambled: bool,
    tolerant: bool,
    ptrs: Seq<u64>,
    n: nat,
)
    requires
        n <= usize::MAX,
        n <= ptrs.len(),
    ensures
        ({
            let t = types_at(c, scrambled, tolerant, ptrs, n);
            &&& t.0.len() <= n
            &&& t.2 is None ==> t.0.len() == n
            &&& forall|p: u64| #[trigger] t.1.contains_key(p) ==> t.1[p] < t.0.len()
        }),
    decreases n,
{
    if n > 0 {
        lemma_types_bounds(c, scrambled, tolerant, ptrs, (n - 1) as nat);
    }
}

proof fn lemma_specs_bounds(
    table: Seq<Il2CppGenericMethodFunctionsDefinitions>,
    specs: Seq<Il2CppMethodSpec>,
    k: usize,
)
    ensures
        forall|i: int|
            0 <= i < specs_of(table, specs, k).len() ==> (#[trigger] specs_of(table, specs, k)[i])
                < specs.len(),
    decreases table.len(),
{
    if table.len() > 0 {
        lemma_specs_bounds(table.drop_last(), specs, k);
        let rest = specs_of(table.drop_last(), specs, k);
        let all = specs_of(table, specs, k);
        assert forall|i: int| 0 <= i < all.len() implies (#[trigger] all[i]) < specs.len() by {
            if i < rest.len() {
                assert(all[i] == rest[i]);
            }
        }
    }
}

proof fn lemma_modules_keep(
    m: Il2CppModel,
    map: Mapping,
    decoding: Decoding,
    ptrs: Seq<u64>,
    n: nat,
)
    ensures
        ({
            let r = with_modules_at(m, map, decoding, ptrs, n).0;
            r == (Il2CppModel {
                code_gen_modules: r.code_gen_modules,
                code_gen_module_method_pointers: r.code_gen_module_method_pointers,
                ..m
            })
        }),
    decreases n,
{
    if n > 0 {
        lemma_modules_keep(m, map, decoding, ptrs, (n - 1) as nat);
    }
}

proof fn lemma_first_half_keeps(
    m: Il2CppModel,
    mr: Il2CppMetadataRegistration,
    map: Mapping,
    decoding: Decoding,
)
    ensures
        same_file(with_metadata_registration(m, mr, map, decoding).0, m),
        same_start(with_metadata_registration(m, mr, map, decoding).0, m),
        with_metadata_registration(m, mr, map, decoding).1 is Ok ==> forall|p: u64| #[trigger]
            with_metadata_registration(m, mr, map, decoding).0.type_dic.contains_key(p)
                ==> with_metadata_registration(m, mr, map, decoding).0.type_dic[p]
                < with_metadata_registration(m, mr, map, decoding).0.types.len(),
{
    reveal(with_types);
    reveal(with_generic_insts);
    reveal(with_method_specs);
    reveal(with_generic_methods);
    if let Ok(at) = map(mr.types) {
        if let Ok(ptrs) = pointers_in(m, at, mr.types_count) {
            lemma_types_bounds(
                reading(m, map, decoding),
                m.codm,
                m.codm && m.is_dumped,
                ptrs,
                ptrs.len(),
            );
        }
    }
}

proof fn lemma_second_half_keeps(
    m: Il2CppModel,
    mr: Il2CppMetadataRegistration,
    cr: Il2CppCodeRegistration,
    map: Mapping,
    decoding: Decoding,
)
    ensures
        ({
            let r = with_code_registration(m, mr, cr, map, decoding);
            &&& same_file(r.0, m)
            &&& same_start(r.0, m)
            &&& r.0.type_dic == m.type_dic
            &&& r.0.types == m.types
            &&& r.0.method_specs == m.method_specs
            &&& r.1 is Ok ==> r.0.method_definition_method_specs == spec_lists(
                m.generic_method_table,
                m.method_specs,
            )
        }),
{
    let a = with_tables(m, mr, cr, map);
    let b = with_field_offsets(a.0, mr, map);
    let c = with_sizes(b.0, mr, map, decoding);
    assert(same_file(a.0, m) && same_start(a.0, m) && a.0.type_dic == m.type_dic && a.0.types == m.types
        && a.0.method_specs == m.method_specs && a.0.generic_method_table
        == m.generic_method_table) by {
        reveal(with_tables);
    }
    assert(same_file(b.0, m) && same_start(b.0, m) && b.0.type_dic == m.type_dic && b.0.types == m.types
        && b.0.method_specs == m.method_specs && b.0.generic_method_table
        == m.generic_method_table) by {
        reveal(with_field_offsets);
    }
    assert(same_file(c.0, m) && same_start(c.0, m) && c.0.type_dic == m.type_dic && c.0.types == m.types
        && c.0.method_specs == m.method_specs && c.0.generic_method_table
        == m.generic_method_table) by {
        reveal(with_sizes);
    }
    let d = with_spec_lookup(c.0);
    let e = with_modules(d, cr, map, decoding);
    assert(e.0 == (Il2CppModel {
        code_gen_modules: e.0.code_gen_modules,
        code_gen_module_method_pointers: e.0.code_gen_module_method_pointers,
        ..d
    })) by {
        reveal(with_modules);
        if let Ok(at) = map(cr.code_gen_modules) {
            if let Ok(ptrs) = pointers_in(d, at, cr.code_gen_modules_count) {
                lemma_modules_keep(d, map, decoding, ptrs, ptrs.len());
            }
        }
    }
}

/// Reading an image changes nothing of its file, its places in memory and its format, whether it
/// goes through or not. In both cases the version is that of the stream, which stays, the pointer
/// size of the stream is that of the image, and the registrations are those that were given. Where
/// the metadata registration is not mapped, nothing else changes. Where the reading goes through,
/// the lookups lead to indices within the tables.
pub proof fn law_init_keeps(
    m: Il2CppModel,
    code_registration: u64,
    metadata_registration: u64,
    map: Mapping,
    decoding: Decoding,
)
    ensures
        ({
            let r = initialised(m, code_registration, metadata_registration, map, decoding);
            &&& same_file(r.0, m)
            &&& r.0.version == m.stream_version
            &&& r.0.stream_version == m.stream_version
            &&& r.0.stream_is_32bit == m.is_32bit
            &&& r.0.code_registration == code_registration
            &&& r.0.metadata_registration == metadata_registration
            &&& map(metadata_registration) is Err ==> r.0 == (Il2CppModel {
                version: m.stream_version,
                stream_is_32bit: m.is_32bit,
                code_registration,
                metadata_registration,
                ..m
            }) && r.1 is Err
            &&& r.1 is Ok ==> lookups_in_bounds(r.0)
        }),
{
    reveal(initialised);
    let m0 = started(m, code_registration, metadata_registration);
    if let Ok(at) = map(metadata_registration) {
        if let Ok((mr, next)) = record_at(
            reading(m0, map, decoding),
            RecordKind::MetadataRegistration,
            at,
        ) {
            let mr = mr->MetadataRegistration_0;
            lemma_first_half_keeps(m0, mr, map, decoding);
            let a = with_metadata_registration(m0, mr, map, decoding);
            if let Ok(at) = map(code_registration) {
                if let Ok((cr, next)) = record_at(
                    reading(a.0, map, decoding),
                    RecordKind::CodeRegistration,
                    at,
                ) {
                    let cr = cr->CodeRegistration_0;
                    lemma_second_half_keeps(a.0, mr, cr, map, decoding);
                    let r = with_code_registration(a.0, mr, cr, map, decoding).0;
                    assert forall|k: usize, i: int|
                        with_code_registration(a.0, mr, cr, map, decoding).1 is Ok
                            && r.method_definition_method_specs.contains_key(k) && 0 <= i
                            < r.method_definition_method_specs[k].len() implies (
                    #[trigger] r.method_definition_method_specs[k][i]) < r.method_specs.len() by {
                        lemma_specs_bounds(a.0.generic_method_table, a.0.method_specs, k);
                    }
                }
            }
        }
    }
}

} // verus!
