//! The script that names the parts of an image for a disassembler.
use crate::text;
use vstd::prelude::*;

verus! {

/// A method with its address.
#[derive(Debug)]
pub struct ScriptMethod {
    pub address: u64,
    pub name: String,
    pub signature: String,
    pub type_signature: String,
    pub dotnet_signature: Option<String>,
    pub group: Option<String>,
}

/// A method with its address, as texts.
pub struct ScriptMethodModel {
    pub address: u64,
    pub name: Seq<char>,
    pub signature: Seq<char>,
    pub type_signature: Seq<char>,
    pub dotnet_signature: Option<Seq<char>>,
    pub group: Option<Seq<char>>,
}

impl View for ScriptMethod {
    type V = ScriptMethodModel;

    open spec fn view(&self) -> ScriptMethodModel {
        ScriptMethodModel {
            address: self.address,
            name: self.name@,
            signature: self.signature@,
            type_signature: self.type_signature@,
            dotnet_signature: text::optional(self.dotnet_signature),
            group: text::optional(self.group),
        }
    }
}

/// A string literal with its address.
#[derive(Debug)]
pub struct ScriptString {
    pub address: u64,
    pub value: String,
    pub name: Option<String>,
}

/// A string literal with its address, as texts.
pub struct ScriptStringModel {
    pub address: u64,
    pub value: Seq<char>,
    pub name: Option<Seq<char>>,
}

impl View for ScriptString {
    type V = ScriptStringModel;

    open spec fn view(&self) -> ScriptStringModel {
        ScriptStringModel {
            address: self.address,
            value: self.value@,
            name: text::optional(self.name),
        }
    }
}

/// A metadata object with its address.
#[derive(Debug)]
pub struct ScriptMetadata {
    pub address: u64,
    pub name: String,
    pub signature: Option<String>,
}

/// A metadata object with its address, as texts.
pub struct ScriptMetadataModel {
    pub address: u64,
    pub name: Seq<char>,
    pub signature: Option<Seq<char>>,
}

impl View for ScriptMetadata {
    type V = ScriptMetadataModel;

    open spec fn view(&self) -> ScriptMetadataModel {
        ScriptMetadataModel {
            address: self.address,
            name: self.name@,
            signature: text::optional(self.signature),
        }
    }
}

/// A reference to a method with its address and that of the method.
#[derive(Debug)]
pub struct ScriptMetadataMethod {
    pub address: u64,
    pub name: String,
    pub method_address: u64,
}

/// A reference to a method, as texts.
pub struct ScriptMetadataMethodModel {
    pub address: u64,
    pub name: Seq<char>,
    pub method_address: u64,
}

impl View for ScriptMetadataMethod {
    type V = ScriptMetadataMethodModel;

    open spec fn view(&self) -> ScriptMetadataMethodModel {
        ScriptMetadataMethodModel {
            address: self.address,
            name: self.name@,
            method_address: self.method_address,
        }
    }
}

/// A type pointer with its address.
#[derive(Debug)]
pub struct ScriptTypeInfo {
    pub address: u64,
    pub name: String,
    pub type_str: String,
    pub dotnet_type: Option<String>,
}

/// A type pointer with its address, as texts.
pub struct ScriptTypeInfoModel {
    pub address: u64,
    pub name: Seq<char>,
    pub type_str: Seq<char>,
    pub dotnet_type: Option<Seq<char>>,
}

impl View for ScriptTypeInfo {
    type V = ScriptTypeInfoModel;

    open spec fn view(&self) -> ScriptTypeInfoModel {
        ScriptTypeInfoModel {
            address: self.address,
            name: self.name@,
            type_str: self.type_str@,
            dotnet_type: text::optional(self.dotnet_type),
        }
    }
}

/// A field with its address and a remark.
#[derive(Debug)]
pub struct ScriptFieldInfo {
    pub address: u64,
    pub name: String,
    pub value: String,
}

/// A field with its address and a remark, as texts.
pub struct ScriptFieldInfoModel {
    pub address: u64,
    pub name: Seq<char>,
    pub value: Seq<char>,
}

impl View for ScriptFieldInfo {
    type V = ScriptFieldInfoModel;

    open spec fn view(&self) -> ScriptFieldInfoModel {
        ScriptFieldInfoModel {
            address: self.address,
            name: self.name@,
            value: self.value@,
        }
    }
}

/// A string literal with its index.
#[derive(Debug)]
pub struct StringLiteralEntry {
    pub index: usize,
    pub value: String,
}

/// A string literal with its index, as a text.
pub struct StringLiteralEntryModel {
    pub index: usize,
    pub value: Seq<char>,
}

impl View for StringLiteralEntry {
    type V = StringLiteralEntryModel;

    open spec fn view(&self) -> StringLiteralEntryModel {
        StringLiteralEntryModel {
            index: self.index,
            value: self.value@,
        }
    }
}

/// The views of a sequence.
pub open spec fn views<T: View>(v: Seq<T>) -> Seq<T::V> {
    v.map_values(|x: T| x@)
}

/// The views of a sequence grow with it.
pub broadcast proof fn lemma_views_push<T: View>(v: Seq<T>, x: T)
    ensures
        #[trigger] views(v.push(x)) == views(v).push(x@),
{
    assert(views(v.push(x)) =~= views(v).push(x@));
}

/// The script.
#[derive(Debug)]
pub struct ScriptJson {
    pub script_methods: Vec<ScriptMethod>,
    pub script_strings: Vec<ScriptString>,
    pub script_metadata: Vec<ScriptMetadata>,
    pub script_metadata_methods: Vec<ScriptMetadataMethod>,
    pub type_info_pointers: Vec<ScriptTypeInfo>,
    pub type_ref_pointers: Vec<ScriptTypeInfo>,
    pub field_infos: Vec<ScriptFieldInfo>,
    pub field_rvas: Vec<ScriptFieldInfo>,
    pub addresses: Vec<u64>,
}

/// The script, as texts.
pub struct ScriptJsonModel {
    pub script_methods: Seq<ScriptMethodModel>,
    pub script_strings: Seq<ScriptStringModel>,
    pub script_metadata: Seq<ScriptMetadataModel>,
    pub script_metadata_methods: Seq<ScriptMetadataMethodModel>,
    pub type_info_pointers: Seq<ScriptTypeInfoModel>,
    pub type_ref_pointers: Seq<ScriptTypeInfoModel>,
    pub field_infos: Seq<ScriptFieldInfoModel>,
    pub field_rvas: Seq<ScriptFieldInfoModel>,
    pub addresses: Seq<u64>,
}

impl View for ScriptJson {
    type V = ScriptJsonModel;

    open spec fn view(&self) -> ScriptJsonModel {
        ScriptJsonModel {
            script_methods: views(self.script_methods@),
            script_strings: views(self.script_strings@),
            script_metadata: views(self.script_metadata@),
            script_metadata_methods: views(self.script_metadata_methods@),
            type_info_pointers: views(self.type_info_pointers@),
            type_ref_pointers: views(self.type_ref_pointers@),
            field_infos: views(self.field_infos@),
            field_rvas: views(self.field_rvas@),
            addresses: self.addresses@,
        }
    }
}

/// The script without entries.
pub open spec fn empty_script() -> ScriptJsonModel {
    ScriptJsonModel {
        script_methods: Seq::empty(),
        script_strings: Seq::empty(),
        script_metadata: Seq::empty(),
        script_metadata_methods: Seq::empty(),
        type_info_pointers: Seq::empty(),
        type_ref_pointers: Seq::empty(),
        field_infos: Seq::empty(),
        field_rvas: Seq::empty(),
        addresses: Seq::empty(),
    }
}

impl ScriptJson {
    /// The script without entries.
    pub fn new() -> (r: Self)
        ensures
            r@ == empty_script(),
    {
        let r = ScriptJson {
            script_methods: Vec::new(),
            script_strings: Vec::new(),
            script_metadata: Vec::new(),
            script_metadata_methods: Vec::new(),
            type_info_pointers: Vec::new(),
            type_ref_pointers: Vec::new(),
            field_infos: Vec::new(),
            field_rvas: Vec::new(),
            addresses: Vec::new(),
        };
        proof {
            assert(r@.script_methods =~= empty_script().script_methods);
            assert(r@.script_strings =~= empty_script().script_strings);
            assert(r@.script_metadata =~= empty_script().script_metadata);
            assert(r@.script_metadata_methods =~= empty_script().script_metadata_methods);
            assert(r@.type_info_pointers =~= empty_script().type_info_pointers);
            assert(r@.type_ref_pointers =~= empty_script().type_ref_pointers);
            assert(r@.field_infos =~= empty_script().field_infos);
            assert(r@.field_rvas =~= empty_script().field_rvas);
        }
        r
    }
}

} // verus!
