//! The two services that reading an image rests on: the mapping of addresses to file offsets, and
//! the decoding of the records whose layout depends on the version.
use crate::error::{Error, ErrorModel};
use crate::il2cpp::structures::{
    Il2CppCodeGenModule, Il2CppCodeRegistration, Il2CppGenericInst,
    Il2CppGenericMethodFunctionsDefinitions, Il2CppMetadataRegistration, Il2CppMethodSpec,
    Il2CppType, Il2CppTypeDefinitionSizes,
};
use crate::io;
use vstd::prelude::*;

verus! {

/// What a mapping makes of an address: a file offset, or an error.
pub type Mapping = spec_fn(u64) -> Result<u64, ErrorModel>;

/// The function `f` may map `addr` to `m`.
pub open spec fn maps<M: Fn(u64) -> Result<u64, Error>>(
    f: M,
    addr: u64,
    m: Result<u64, ErrorModel>,
) -> bool {
    exists|r: Result<u64, Error>| #[trigger] call_ensures(f, (addr,), r) && io::outcome(r) == m
}

/// The function `f` takes every address, and where it maps an address depends on that alone.
pub open spec fn is_mapping<M: Fn(u64) -> Result<u64, Error>>(f: M) -> bool {
    &&& forall|addr: u64| call_requires(f, (addr,))
    &&& forall|addr: u64, m: Result<u64, ErrorModel>, n: Result<u64, ErrorModel>|
        #![trigger maps(f, addr, m), maps(f, addr, n)]
        maps(f, addr, m) && maps(f, addr, n) ==> m == n
}

/// A mapping of addresses to file offsets, held as the function that computes it.
pub struct AddressMap<M: Fn(u64) -> Result<u64, Error>> {
    f: M,
}

impl<M: Fn(u64) -> Result<u64, Error>> AddressMap<M> {
    #[verifier::type_invariant]
    spec fn inv(self) -> bool {
        is_mapping(self.f)
    }

    /// The mapping that the function computes.
    pub closed spec fn mapping(&self) -> Mapping {
        |addr: u64| choose|m: Result<u64, ErrorModel>| maps(self.f, addr, m)
    }

    /// Holds the function `f` as a mapping.
    pub fn new(f: M) -> (r: Self)
        requires
            is_mapping(f),
        ensures
            forall|addr: u64, m: Result<u64, ErrorModel>| #[trigger]
                maps(f, addr, m) ==> (r.mapping())(addr) == m,
    {
        AddressMap { f }
    }

    /// The file offset of the address `addr`.
    pub fn map_vatr(&self, addr: u64) -> (r: Result<u64, Error>)
        ensures
            io::outcome(r) == (self.mapping())(addr),
    {
        proof {
            use_type_invariant(self);
        }
        let r = (self.f)(addr);
        assert(maps(self.f, addr, io::outcome(r)));
        r
    }
}

/// The kinds of records.
#[derive(Debug, Clone, Copy, PartialEq, Eq, Structural)]
pub enum RecordKind {
    MetadataRegistration,
    CodeRegistration,
    /// A type reference in the usual encoding.
    Type,
    /// A type reference in the scrambled encoding.
    ScrambledType,
    GenericInst,
    MethodSpec,
    GenericMethod,
    TypeDefinitionSizes,
    CodeGenModule,
    /// A name that ends in a zero byte.
    Name,
}

/// A decoded record.
#[derive(Debug)]
pub enum Record {
    MetadataRegistration(Il2CppMetadataRegistration),
    CodeRegistration(Il2CppCodeRegistration),
    Type(Il2CppType),
    GenericInst(Il2CppGenericInst),
    MethodSpec(Il2CppMethodSpec),
    GenericMethod(Il2CppGenericMethodFunctionsDefinitions),
    TypeDefinitionSizes(Il2CppTypeDefinitionSizes),
    CodeGenModule(Il2CppCodeGenModule),
    Name(String),
}

/// A decoded record, with a name as its text.
pub enum RecordModel {
    MetadataRegistration(Il2CppMetadataRegistration),
    CodeRegistration(Il2CppCodeRegistration),
    Type(Il2CppType),
    GenericInst(Il2CppGenericInst),
    MethodSpec(Il2CppMethodSpec),
    GenericMethod(Il2CppGenericMethodFunctionsDefinitions),
    TypeDefinitionSizes(Il2CppTypeDefinitionSizes),
    CodeGenModule(Il2CppCodeGenModule),
    Name(Seq<char>),
}

impl View for Record {
    type V = RecordModel;

    open spec fn view(&self) -> RecordModel {
        match self {
            Record::MetadataRegistration(x) => RecordModel::MetadataRegistration(*x),
            Record::CodeRegistration(x) => RecordModel::CodeRegistration(*x),
            Record::Type(x) => RecordModel::Type(*x),
            Record::GenericInst(x) => RecordModel::GenericInst(*x),
            Record::MethodSpec(x) => RecordModel::MethodSpec(*x),
            Record::GenericMethod(x) => RecordModel::GenericMethod(*x),
            Record::TypeDefinitionSizes(x) => RecordModel::TypeDefinitionSizes(*x),
            Record::CodeGenModule(x) => RecordModel::CodeGenModule(*x),
            Record::Name(s) => RecordModel::Name(s@),
        }
    }
}

/// The record `m` is one of the kind `kind`.
pub open spec fn has_kind(m: RecordModel, kind: RecordKind) -> bool {
    match kind {
        RecordKind::MetadataRegistration => m is MetadataRegistration,
        RecordKind::CodeRegistration => m is CodeRegistration,
        RecordKind::Type => m is Type,
        RecordKind::ScrambledType => m is Type,
        RecordKind::GenericInst => m is GenericInst,
        RecordKind::MethodSpec => m is MethodSpec,
        RecordKind::GenericMethod => m is GenericMethod,
        RecordKind::TypeDefinitionSizes => m is TypeDefinitionSizes,
        RecordKind::CodeGenModule => m is CodeGenModule,
        RecordKind::Name => m is Name,
    }
}

/// A decoded record with the offset behind it, or an error.
pub type Decoded = Result<(RecordModel, u64), ErrorModel>;

/// What a decoder makes of the bytes of an image with 32-bit or 64-bit pointers, a kind of
/// record, an offset and a version.
pub type Decoding = spec_fn(Seq<u8>, bool, RecordKind, u64, u32) -> Decoded;

/// The result of decoding as a model.
pub open spec fn decoded(r: Result<(Record, u64), Error>) -> Decoded {
    match r {
        Ok((record, next)) => Ok((record@, next)),
        Err(e) => Err(e@),
    }
}

/// The function `f` may decode the record at the offset `at` as `m`.
pub open spec fn decodes<D: Fn(&[u8], bool, RecordKind, u64, u32) -> Result<(Record, u64), Error>>(
    f: D,
    bytes: Seq<u8>,
    is_32bit: bool,
    kind: RecordKind,
    at: u64,
    version: u32,
    m: Decoded,
) -> bool {
    exists|b: &[u8], r: Result<(Record, u64), Error>|
        #![trigger call_ensures(f, (b, is_32bit, kind, at, version), r)]
        b@ == bytes && call_ensures(f, (b, is_32bit, kind, at, version), r) && decoded(r) == m
}

/// The function `f` takes everything, what it returns depends on its arguments alone, and a
/// record that it decodes is of the kind that was asked for.
pub open spec fn is_decoding<
    D: Fn(&[u8], bool, RecordKind, u64, u32) -> Result<(Record, u64), Error>,
>(f: D) -> bool {
    &&& forall|b: &[u8], is_32bit: bool, kind: RecordKind, at: u64, version: u32|
        call_requires(f, (b, is_32bit, kind, at, version))
    &&& forall|
        bytes: Seq<u8>,
        is_32bit: bool,
        kind: RecordKind,
        at: u64,
        version: u32,
        m: Decoded,
        n: Decoded,
    |
        #![trigger decodes(f, bytes, is_32bit, kind, at, version, m), decodes(f, bytes, is_32bit, kind, at, version, n)]
        decodes(f, bytes, is_32bit, kind, at, version, m) && decodes(
            f,
            bytes,
            is_32bit,
            kind,
            at,
            version,
            n,
        ) ==> m == n
    &&& forall|
        bytes: Seq<u8>,
        is_32bit: bool,
        kind: RecordKind,
        at: u64,
        version: u32,
        m: Decoded,
    | #[trigger]
        decodes(f, bytes, is_32bit, kind, at, version, m) ==> (m matches Ok((record, next))
            ==> has_kind(record, kind))
}

/// A decoder of records, held as the function that computes it.
pub struct RecordReader<
    D: Fn(&[u8], bool, RecordKind, u64, u32) -> Result<(Record, u64), Error>,
> {
    f: D,
}

impl<D: Fn(&[u8], bool, RecordKind, u64, u32) -> Result<(Record, u64), Error>> RecordReader<D> {
    #[verifier::type_invariant]
    spec fn inv(self) -> bool {
        is_decoding(self.f)
    }

    /// The decoding that the function computes.
    pub closed spec fn decoding(&self) -> Decoding {
        |bytes: Seq<u8>, is_32bit: bool, kind: RecordKind, at: u64, version: u32|
            choose|m: Decoded| decodes(self.f, bytes, is_32bit, kind, at, version, m)
    }

    /// Holds the function `f` as a decoder.
    pub fn new(f: D) -> (r: Self)
        requires
            is_decoding(f),
        ensures
            forall|
                bytes: Seq<u8>,
                is_32bit: bool,
                kind: RecordKind,
                at: u64,
                version: u32,
                m: Decoded,
            | #[trigger]
                decodes(f, bytes, is_32bit, kind, at, version, m) ==> (r.decoding())(
                    bytes,
                    is_32bit,
                    kind,
                    at,
                    version,
                ) == m,
    {
        RecordReader { f }
    }

    /// Decodes the record of the kind `kind` at the offset `at`.
    pub fn read(
        &self,
        stream: &io::BinaryStream,
        kind: RecordKind,
        at: u64,
        version: u32,
    ) -> (r: Result<(Record, u64), Error>)
        ensures
            decoded(r) == (self.decoding())(stream.bytes@, stream.is_32bit, kind, at, version),
            r matches Ok((record, next)) ==> has_kind(record@, kind),
    {
        proof {
            use_type_invariant(self);
        }
        let r = (self.f)(stream.bytes.as_slice(), stream.is_32bit, kind, at, version);
        assert(decodes(
            self.f,
            stream.bytes@,
            stream.is_32bit,
            kind,
            at,
            version,
            decoded(r),
        ));
        r
    }
}

} // verus!
