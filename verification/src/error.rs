//! The errors of the library and their texts.
use crate::numeral;
use crate::text;
use vstd::prelude::*;
use vstd::string::*;

verus! {

/// A failed read or write: whether the input ended early, and the system's message.
#[derive(Debug)]
pub struct IoError {
    pub unexpected_eof: bool,
    pub message: String,
}

/// What can go wrong while an image is read and dumped.
#[derive(Debug)]
pub enum Error {
    InvalidMetadata(String),
    UnsupportedVersion(i32),
    AddressNotMapped(u64),
    InvalidFormat(String),
    OutOfBounds { offset: u64, size: usize },
    InvalidArraySize { count: u64, elem_size: usize, context: String },
    Io(IoError),
    CyclicDependency(String),
    Other(String),
}

/// An error as its kind and its texts.
pub enum ErrorModel {
    InvalidMetadata(Seq<char>),
    UnsupportedVersion(int),
    AddressNotMapped(nat),
    InvalidFormat(Seq<char>),
    OutOfBounds { offset: nat, size: nat },
    InvalidArraySize { count: nat, elem_size: nat, context: Seq<char> },
    Io { unexpected_eof: bool, message: Seq<char> },
    CyclicDependency(Seq<char>),
    Other(Seq<char>),
}

impl View for Error {
    type V = ErrorModel;

    open spec fn view(&self) -> ErrorModel {
        match self {
            Error::InvalidMetadata(s) => ErrorModel::InvalidMetadata(s@),
            Error::UnsupportedVersion(v) => ErrorModel::UnsupportedVersion(*v as int),
            Error::AddressNotMapped(a) => ErrorModel::AddressNotMapped(*a as nat),
            Error::InvalidFormat(s) => ErrorModel::InvalidFormat(s@),
            Error::OutOfBounds { offset, size } => ErrorModel::OutOfBounds {
                offset: *offset as nat,
                size: *size as nat,
            },
            Error::InvalidArraySize { count, elem_size, context } => ErrorModel::InvalidArraySize {
                count: *count as nat,
                elem_size: *elem_size as nat,
                context: context@,
            },
            Error::Io(e) => ErrorModel::Io {
                unexpected_eof: e.unexpected_eof,
                message: e.message@,
            },
            Error::CyclicDependency(s) => ErrorModel::CyclicDependency(s@),
            Error::Other(s) => ErrorModel::Other(s@),
        }
    }
}

impl Clone for Error {
    fn clone(&self) -> (r: Self)
        ensures
            r == *self,
    {
        match self {
            Error::InvalidMetadata(s) => Error::InvalidMetadata(s.clone()),
            Error::UnsupportedVersion(v) => Error::UnsupportedVersion(*v),
            Error::AddressNotMapped(a) => Error::AddressNotMapped(*a),
            Error::InvalidFormat(s) => Error::InvalidFormat(s.clone()),
            Error::OutOfBounds { offset, size } => Error::OutOfBounds {
                offset: *offset,
                size: *size,
            },
            Error::InvalidArraySize { count, elem_size, context } => Error::InvalidArraySize {
                count: *count,
                elem_size: *elem_size,
                context: context.clone(),
            },
            Error::Io(e) => Error::Io(
                IoError { unexpected_eof: e.unexpected_eof, message: e.message.clone() },
            ),
            Error::CyclicDependency(s) => Error::CyclicDependency(s.clone()),
            Error::Other(s) => Error::Other(s.clone()),
        }
    }
}

/// What is said to the user about metadata that cannot be read.
pub open spec fn protection_hint() -> Seq<char> {
    "Common causes: encrypted/obfuscated global-metadata.dat, truncated extract, or wrong Unity layout. Valid files start with magic AF 1B B1 FA. Protected games often need a runtime memory dump of decrypted metadata before dumping."@
}

fn protection_hint_text() -> (r: &'static str)
    ensures
        r@ == protection_hint(),
{
    "Common causes: encrypted/obfuscated global-metadata.dat, truncated extract, or wrong Unity layout. Valid files start with magic AF 1B B1 FA. Protected games often need a runtime memory dump of decrypted metadata before dumping."
}

/// The failed read ran into the end of the input.
pub open spec fn ended_early(unexpected_eof: bool, message: Seq<char>) -> bool {
    unexpected_eof || text::contains(message, "fill whole buffer"@)
}

/// An error seen in the context of a metadata file of `file_len` bytes.
pub open spec fn in_metadata(e: ErrorModel, file_len: nat) -> ErrorModel {
    match e {
        ErrorModel::OutOfBounds { offset, size } => ErrorModel::InvalidMetadata(
            "Read past end of metadata while parsing tables (offset 0x"@ + numeral::hex(offset)
                + ", need "@ + numeral::dec(size) + " bytes, file size "@ + numeral::dec(file_len)
                + "). "@ + protection_hint(),
        ),
        ErrorModel::Io { unexpected_eof, message } => if ended_early(unexpected_eof, message) {
            ErrorModel::InvalidMetadata(
                "Unexpected end of metadata file while parsing tables (file size "@ + numeral::dec(
                    file_len,
                ) + "). "@ + protection_hint(),
            )
        } else {
            e
        },
        ErrorModel::InvalidArraySize { count, elem_size, context } => ErrorModel::InvalidMetadata(
            "Implausible metadata table size in '"@ + context + "' (count="@ + numeral::dec(count)
                + ", element_size="@ + numeral::dec(elem_size) + ", file size "@ + numeral::dec(
                file_len,
            ) + "). Header fields look corrupted — often encryption or a truncated file. "@
                + protection_hint(),
        ),
        other => other,
    }
}

/// The full text of an error.
pub open spec fn error_text(e: ErrorModel) -> Seq<char> {
    match e {
        ErrorModel::InvalidMetadata(s) => "Invalid metadata file: "@ + s,
        ErrorModel::UnsupportedVersion(v) => "Unsupported metadata version: "@ + numeral::dec_int(
            v,
        ),
        ErrorModel::AddressNotMapped(a) => "Address 0x"@ + numeral::hex_lower(a)
            + " not in any segment"@,
        ErrorModel::InvalidFormat(s) => "Invalid binary format: "@ + s,
        ErrorModel::OutOfBounds { offset, size } => "Read out of bounds: offset 0x"@
            + numeral::hex_lower(offset) + ", size "@ + numeral::dec(size)
            + " (truncated file, bad offsets, or encrypted/corrupted data)"@,
        ErrorModel::InvalidArraySize { count, elem_size, context } => "Invalid array size: count="@
            + numeral::dec(count) + ", element_size="@ + numeral::dec(elem_size) + " ("@ + context
            + ")"@,
        ErrorModel::Io { unexpected_eof, message } => "IO error: "@ + message,
        ErrorModel::CyclicDependency(s) => "Cyclic value-type dependency: "@ + s,
        ErrorModel::Other(s) => s,
    }
}

/// The short text of an error for the user interface.
pub open spec fn user_text(e: ErrorModel) -> Seq<char> {
    match e {
        ErrorModel::InvalidMetadata(s) => "Metadata error: "@ + s,
        ErrorModel::UnsupportedVersion(v) => "Metadata error: unsupported metadata version "@
            + numeral::dec_int(v)
            + ". Update the dumper or check for a corrupted/encrypted file."@,
        ErrorModel::OutOfBounds { offset, size } =>
        "Metadata error: read past end of file (offset 0x"@ + numeral::hex(offset) + ", size "@
            + numeral::dec(size) + "). File may be truncated or encrypted."@,
        ErrorModel::InvalidArraySize { count, elem_size, context } =>
        "Metadata error: invalid table size ("@ + context
            + "). File may be encrypted or corrupted."@,
        ErrorModel::Io { unexpected_eof, message } => if ended_early(unexpected_eof, message) {
            "Metadata error: unexpected end of file while reading metadata (often encrypted, truncated, or wrong file)."@
        } else {
            error_text(e)
        },
        other => error_text(other),
    }
}

impl Error {
    /// Turns low-level read failures into statements about the metadata file, with a hint.
    pub fn with_metadata_context(self, file_len: u64) -> (r: Self)
        ensures
            r@ == in_metadata(self@, file_len as nat),
    {
        match self {
            Error::OutOfBounds { offset, size } => Error::InvalidMetadata(
                String::from_str(
                    "Read past end of metadata while parsing tables (offset 0x",
                ).concat(numeral::hex_string(offset).as_str()).concat(", need ").concat(
                    numeral::dec_string(size as u64).as_str(),
                ).concat(" bytes, file size ").concat(
                    numeral::dec_string(file_len).as_str(),
                ).concat("). ").concat(protection_hint_text()),
            ),
            Error::Io(e) => {
                if e.unexpected_eof || text::contains_text(
                    e.message.as_str(),
                    "fill whole buffer",
                ) {
                    Error::InvalidMetadata(
                        String::from_str(
                            "Unexpected end of metadata file while parsing tables (file size ",
                        ).concat(numeral::dec_string(file_len).as_str()).concat("). ").concat(
                            protection_hint_text(),
                        ),
                    )
                } else {
                    Error::Io(e)
                }
            },
            Error::InvalidArraySize { count, elem_size, context } => Error::InvalidMetadata(
                String::from_str("Implausible metadata table size in '").concat(
                    context.as_str(),
                ).concat("' (count=").concat(numeral::dec_string(count).as_str()).concat(
                    ", element_size=",
                ).concat(numeral::dec_string(elem_size as u64).as_str()).concat(
                    ", file size ",
                ).concat(numeral::dec_string(file_len).as_str()).concat(
                    "). Header fields look corrupted — often encryption or a truncated file. ",
                ).concat(protection_hint_text()),
            ),
            other => other,
        }
    }

    /// The full text of the error.
    pub fn to_string(&self) -> (r: String)
        ensures
            r@ == error_text(self@),
    {
        match self {
            Error::InvalidMetadata(s) => String::from_str("Invalid metadata file: ").concat(
                s.as_str(),
            ),
            Error::UnsupportedVersion(v) => String::from_str(
                "Unsupported metadata version: ",
            ).concat(numeral::dec_int_string(*v as i64).as_str()),
            Error::AddressNotMapped(a) => String::from_str("Address 0x").concat(
                numeral::hex_lower_string(*a).as_str(),
            ).concat(" not in any segment"),
            Error::InvalidFormat(s) => String::from_str("Invalid binary format: ").concat(
                s.as_str(),
            ),
            Error::OutOfBounds { offset, size } => String::from_str(
                "Read out of bounds: offset 0x",
            ).concat(numeral::hex_lower_string(*offset).as_str()).concat(", size ").concat(
                numeral::dec_string(*size as u64).as_str(),
            ).concat(" (truncated file, bad offsets, or encrypted/corrupted data)"),
            Error::InvalidArraySize { count, elem_size, context } => String::from_str(
                "Invalid array size: count=",
            ).concat(numeral::dec_string(*count).as_str()).concat(", element_size=").concat(
                numeral::dec_string(*elem_size as u64).as_str(),
            ).concat(" (").concat(context.as_str()).concat(")"),
            Error::Io(e) => String::from_str("IO error: ").concat(e.message.as_str()),
            Error::CyclicDependency(s) => String::from_str(
                "Cyclic value-type dependency: ",
            ).concat(s.as_str()),
            Error::Other(s) => s.clone(),
        }
    }

    /// The short text of the error for the user interface.
    pub fn user_message(&self) -> (r: String)
        ensures
            r@ == user_text(self@),
    {
        match self {
            Error::InvalidMetadata(msg) => String::from_str("Metadata error: ").concat(
                msg.as_str(),
            ),
            Error::UnsupportedVersion(v) => String::from_str(
                "Metadata error: unsupported metadata version ",
            ).concat(numeral::dec_int_string(*v as i64).as_str()).concat(
                ". Update the dumper or check for a corrupted/encrypted file.",
            ),
            Error::OutOfBounds { offset, size } => String::from_str(
                "Metadata error: read past end of file (offset 0x",
            ).concat(numeral::hex_string(*offset).as_str()).concat(", size ").concat(
                numeral::dec_string(*size as u64).as_str(),
            ).concat("). File may be truncated or encrypted."),
            Error::InvalidArraySize { context, .. } => String::from_str(
                "Metadata error: invalid table size (",
            ).concat(context.as_str()).concat("). File may be encrypted or corrupted."),
            Error::Io(e) => {
                if e.unexpected_eof || text::contains_text(
                    e.message.as_str(),
                    "fill whole buffer",
                ) {
                    String::from_str(
                        "Metadata error: unexpected end of file while reading metadata (often encrypted, truncated, or wrong file).",
                    )
                } else {
                    self.to_string()
                }
            },
            other => other.to_string(),
        }
    }
}

/// The error says that the metadata could not be read.
pub open spec fn is_read_failure(e: ErrorModel) -> bool {
    match e {
        ErrorModel::OutOfBounds { .. } | ErrorModel::InvalidArraySize { .. } => true,
        ErrorModel::Io { unexpected_eof, message } => ended_early(unexpected_eof, message),
        _ => false,
    }
}

/// In the context of a metadata file a failed read is an error of the metadata that ends in the
/// hint, every other error stays as it is, and a second context changes nothing.
pub proof fn law_metadata_context(e: ErrorModel, file_len: nat, other_len: nat)
    ensures
        is_read_failure(e) ==> (in_metadata(e, file_len) matches ErrorModel::InvalidMetadata(s)
            && text::ends_with(s, protection_hint())),
        !is_read_failure(e) ==> in_metadata(e, file_len) == e,
        !is_read_failure(in_metadata(e, file_len)),
        in_metadata(in_metadata(e, file_len), other_len) == in_metadata(e, file_len),
{
    if let ErrorModel::InvalidMetadata(s) = in_metadata(e, file_len) {
        if is_read_failure(e) {
            let hint = protection_hint();
            assert(s.subrange(s.len() - hint.len(), s.len() as int) =~= hint);
        }
    }
}

/// What is said to the user about the metadata says so first.
pub proof fn law_user_text(e: ErrorModel)
    requires
        is_read_failure(e) || e is InvalidMetadata || e is UnsupportedVersion,
    ensures
        text::starts_with(user_text(e), "Metadata error: "@),
{
    let head = "Metadata error: "@;
    reveal_strlit("Metadata error: ");
    reveal_strlit("Metadata error: unsupported metadata version ");
    reveal_strlit("Metadata error: read past end of file (offset 0x");
    reveal_strlit("Metadata error: invalid table size (");
    reveal_strlit(
        "Metadata error: unexpected end of file while reading metadata (often encrypted, truncated, or wrong file).",
    );
    assert(user_text(e).len() >= head.len());
    assert(user_text(e).subrange(0, head.len() as int) =~= head);
}

} // verus!
