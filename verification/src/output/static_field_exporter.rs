//! The report on thread-static fields and on fields with data at addresses of their own.
use crate::config::Config;
use crate::error::{Error, ErrorModel};
use crate::executor::Il2CppExecutor;
use crate::il2cpp::base::Il2Cpp;
use crate::il2cpp::enums::{FIELD_HAS_RVA, FIELD_LITERAL, FIELD_STATIC};
use crate::il2cpp::field_layout;
use crate::il2cpp::field_layout::{FieldLayoutInfo, FieldLayoutModel, StaticFieldKind};
use crate::il2cpp::metadata;
use crate::il2cpp::metadata::Metadata;
use crate::il2cpp::structures::{Il2CppFieldDefinition, Il2CppType, Il2CppTypeDefinition};
use crate::numeral;
use crate::output::bytes;
use crate::output::script_json;
use crate::output::script_json::{ScriptFieldInfo, ScriptFieldInfoModel, ScriptJson, ScriptJsonModel};
use crate::text;
use std::collections::HashSet;
use vstd::prelude::*;
use vstd::string::*;

verus! {

/// A field with a place of its own, for the report.
#[derive(Debug)]
pub struct StaticFieldEntry {
    pub declaring_type: String,
    pub field_name: String,
    pub field_path: String,
    pub kind: String,
    pub token: u32,
    pub raw_offset: i32,
    pub effective_offset: i32,
    pub is_thread_static: bool,
    pub has_field_rva: bool,
    pub thread_static_block_size: Option<u32>,
    pub static_block_size: Option<u32>,
    pub metadata_offset: Option<u64>,
    pub metadata_rva: Option<u64>,
    pub binary_va: Option<u64>,
    pub binary_rva: Option<u64>,
    pub data_size: usize,
    pub hex: String,
    pub base64: Option<String>,
    pub ascii_preview: Option<String>,
    pub hex_dump: Option<String>,
}

/// A field with a place of its own, as texts.
pub struct StaticFieldEntryModel {
    pub declaring_type: Seq<char>,
    pub field_name: Seq<char>,
    pub field_path: Seq<char>,
    pub kind: Seq<char>,
    pub token: u32,
    pub raw_offset: i32,
    pub effective_offset: i32,
    pub is_thread_static: bool,
    pub has_field_rva: bool,
    pub thread_static_block_size: Option<u32>,
    pub static_block_size: Option<u32>,
    pub metadata_offset: Option<u64>,
    pub metadata_rva: Option<u64>,
    pub binary_va: Option<u64>,
    pub binary_rva: Option<u64>,
    pub data_size: usize,
    pub hex: Seq<char>,
    pub base64: Option<Seq<char>>,
    pub ascii_preview: Option<Seq<char>>,
    pub hex_dump: Option<Seq<char>>,
}

impl View for StaticFieldEntry {
    type V = StaticFieldEntryModel;

    open spec fn view(&self) -> StaticFieldEntryModel {
        StaticFieldEntryModel {
            declaring_type: self.declaring_type@,
            field_name: self.field_name@,
            field_path: self.field_path@,
            kind: self.kind@,
            token: self.token,
            raw_offset: self.raw_offset,
            effective_offset: self.effective_offset,
            is_thread_static: self.is_thread_static,
            has_field_rva: self.has_field_rva,
            thread_static_block_size: self.thread_static_block_size,
            static_block_size: self.static_block_size,
            metadata_offset: self.metadata_offset,
            metadata_rva: self.metadata_rva,
            binary_va: self.binary_va,
            binary_rva: self.binary_rva,
            data_size: self.data_size,
            hex: self.hex@,
            base64: text::optional(self.base64),
            ascii_preview: text::optional(self.ascii_preview),
            hex_dump: text::optional(self.hex_dump),
        }
    }
}

/// How many fields of which kinds there are.
#[derive(Debug)]
pub struct StaticFieldSummary {
    pub total_fields_scanned: usize,
    pub thread_static_count: usize,
    pub field_rva_count: usize,
    pub normal_static_count: usize,
    pub types_with_thread_static_block: usize,
    pub private_implementation_details_types: Vec<String>,
}

/// How many fields of which kinds there are, as texts.
pub struct StaticFieldSummaryModel {
    pub total_fields_scanned: usize,
    pub thread_static_count: usize,
    pub field_rva_count: usize,
    pub normal_static_count: usize,
    pub types_with_thread_static_block: usize,
    pub private_implementation_details_types: Seq<Seq<char>>,
}

impl View for StaticFieldSummary {
    type V = StaticFieldSummaryModel;

    open spec fn view(&self) -> StaticFieldSummaryModel {
        StaticFieldSummaryModel {
            total_fields_scanned: self.total_fields_scanned,
            thread_static_count: self.thread_static_count,
            field_rva_count: self.field_rva_count,
            normal_static_count: self.normal_static_count,
            types_with_thread_static_block: self.types_with_thread_static_block,
            private_implementation_details_types: text::texts(self.private_implementation_details_types@),
        }
    }
}

impl Clone for StaticFieldEntry {
    fn clone(&self) -> (r: Self)
        ensures
            r@ == self@,
    {
        StaticFieldEntry {
            declaring_type: self.declaring_type.clone(),
            field_name: self.field_name.clone(),
            field_path: self.field_path.clone(),
            kind: self.kind.clone(),
            token: self.token,
            raw_offset: self.raw_offset,
            effective_offset: self.effective_offset,
            is_thread_static: self.is_thread_static,
            has_field_rva: self.has_field_rva,
            thread_static_block_size: self.thread_static_block_size,
            static_block_size: self.static_block_size,
            metadata_offset: self.metadata_offset,
            metadata_rva: self.metadata_rva,
            binary_va: self.binary_va,
            binary_rva: self.binary_rva,
            data_size: self.data_size,
            hex: self.hex.clone(),
            base64: text::clone_optional(&self.base64),
            ascii_preview: text::clone_optional(&self.ascii_preview),
            hex_dump: text::clone_optional(&self.hex_dump),
        }
    }
}

impl Clone for StaticFieldSummary {
    fn clone(&self) -> (r: Self)
        ensures
            r@ == self@,
    {
        StaticFieldSummary {
            total_fields_scanned: self.total_fields_scanned,
            thread_static_count: self.thread_static_count,
            field_rva_count: self.field_rva_count,
            normal_static_count: self.normal_static_count,
            types_with_thread_static_block: self.types_with_thread_static_block,
            private_implementation_details_types: text::clone_texts(&self.private_implementation_details_types),
        }
    }
}

/// The report on the fields with a place of their own.
pub struct StaticFieldCatalog {
    pub entries: Vec<StaticFieldEntry>,
    pub summary: StaticFieldSummary,
}

/// The report as a document: of which image, the summary and the fields.
pub struct StaticMetadataDocument {
    /// The version in hundredths.
    pub il2cpp_version: u32,
    pub pointer_size: u8,
    pub summary: StaticFieldSummary,
    pub fields: Vec<StaticFieldEntry>,
}

/// The name of a kind.
pub open spec fn kind_name(kind: StaticFieldKind) -> Seq<char> {
    match kind {
        StaticFieldKind::Instance => "Instance"@,
        StaticFieldKind::NormalStatic => "NormalStatic"@,
        StaticFieldKind::ThreadStatic => "ThreadStatic"@,
        StaticFieldKind::FieldRva => "FieldRva"@,
        StaticFieldKind::Literal => "Literal"@,
    }
}

/// The name of a kind.
pub fn kind_str(kind: StaticFieldKind) -> (r: &'static str)
    ensures
        r@ == kind_name(kind),
{
    match kind {
        StaticFieldKind::Instance => "Instance",
        StaticFieldKind::NormalStatic => "NormalStatic",
        StaticFieldKind::ThreadStatic => "ThreadStatic",
        StaticFieldKind::FieldRva => "FieldRva",
        StaticFieldKind::Literal => "Literal",
    }
}

/// The field is static or literal, or has data at an address of its own.
pub open spec fn is_listed(attrs: u32) -> bool {
    field_layout::has_attr(attrs, FIELD_STATIC) || field_layout::has_attr(attrs, FIELD_LITERAL)
        || field_layout::has_attr(attrs, FIELD_HAS_RVA)
}

fn listed_by_attrs(attrs: u32) -> (r: bool)
    ensures
        r == is_listed(attrs),
{
    (attrs & FIELD_STATIC) != 0 || (attrs & FIELD_LITERAL) != 0 || (attrs & FIELD_HAS_RVA) != 0
}

/// The data of a field: that at its address, or else that in the metadata.
pub open spec fn data_of(l: FieldLayoutModel) -> Option<Seq<u8>> {
    match l.binary_bytes {
        Some(b) => Some(b),
        None => l.metadata_bytes,
    }
}

fn data_in(l: &FieldLayoutInfo) -> (r: Option<&Vec<u8>>)
    ensures
        match r {
            Some(v) => data_of(l@) == Some(v@),
            None => data_of(l@) is None,
        },
{
    match &l.binary_bytes {
        Some(b) => Some(b),
        None => match &l.metadata_bytes {
            Some(b) => Some(b),
            None => None,
        },
    }
}

// The fields of an image.

/// The fields `start` up to `start + count` of the type definition `td`.
pub open spec fn fields_in(td: int, start: int, count: int) -> Seq<(int, int)> {
    Seq::new(
        if count >= 0 {
            count as nat
        } else {
            0
        },
        |i: int| (td, start + i),
    )
}

/// The fields of the first `n` listed type definitions in order.
pub open spec fn fields_upto(m: Metadata, n: nat) -> Seq<(int, int)>
    decreases n,
{
    if n == 0 {
        Seq::empty()
    } else {
        let td = metadata::type_jobs(m)[n - 1].0;
        fields_upto(m, (n - 1) as nat) + fields_in(
            td,
            m.type_defs@[td].field_start as int,
            m.type_defs@[td].field_count as int,
        )
    }
}

/// The fields of all listed type definitions in order, each with its type definition.
pub open spec fn all_fields(m: Metadata) -> Seq<(int, int)> {
    fields_upto(m, metadata::type_jobs(m).len())
}

/// The fields of a type definition exist, and so do their types.
pub open spec fn fields_fit(m: Metadata, il2cpp: Il2Cpp, td: int) -> bool {
    &&& metadata::range_fits(
        m.type_defs@[td].field_start as int,
        m.type_defs@[td].field_count as int,
        m.field_defs@.len(),
    )
    &&& forall|i: int|
        m.type_defs@[td].field_start <= i < m.type_defs@[td].field_start
            + m.type_defs@[td].field_count ==> (#[trigger] m.field_defs@[i]).type_index
            < il2cpp.types@.len()
}

/// The type of a field.
pub open spec fn field_type(m: Metadata, il2cpp: Il2Cpp, field: int) -> Il2CppType {
    il2cpp.types@[m.field_defs@[field].type_index as int]
}

/// All that the report looks at exists.
pub open spec fn catalog_fits(x: Il2CppExecutor, m: Metadata, il2cpp: Il2Cpp) -> bool {
    &&& il2cpp.wf()
    &&& m.images_fit()
    &&& x.type_def_names@.len() == m.type_defs@.len()
    &&& forall|i: int|
        0 <= i < metadata::type_jobs(m).len() ==> fields_fit(
            m,
            il2cpp,
            (#[trigger] metadata::type_jobs(m)[i]).0,
        )
    &&& forall|i: int|
        0 <= i < all_fields(m).len() ==> blob_ready(m, il2cpp, (#[trigger] all_fields(m)[i]).1)
}

/// The bytes that hold the address of the data of a listed field are not cut off.
pub open spec fn blob_ready(m: Metadata, il2cpp: Il2Cpp, field: int) -> bool {
    let attrs = field_type(m, il2cpp, field).attrs;
    is_listed(attrs) ==> field_layout::blob_whole(m, il2cpp, field as usize, attrs)
}

proof fn lemma_fields_fit(x: Il2CppExecutor, m: Metadata, il2cpp: Il2Cpp, n: nat)
    requires
        catalog_fits(x, m, il2cpp),
        n <= metadata::type_jobs(m).len(),
    ensures
        forall|i: int|
            0 <= i < fields_upto(m, n).len() ==> {
                let f = #[trigger] fields_upto(m, n)[i];
                &&& 0 <= f.0 < m.type_defs@.len()
                &&& 0 <= f.1 < m.field_defs@.len()
                &&& m.type_defs@[f.0].field_start <= f.1
                &&& m.field_defs@[f.1].type_index < il2cpp.types@.len()
            },
    decreases n,
{
    if n > 0 {
        lemma_fields_fit(x, m, il2cpp, (n - 1) as nat);
        metadata::lemma_type_jobs_fit(m);
        let job = metadata::type_jobs(m)[n - 1];
        let td = job.0;
        let before = fields_upto(m, (n - 1) as nat);
        let all = fields_upto(m, n);
        let own = fields_in(
            td,
            m.type_defs@[td].field_start as int,
            m.type_defs@[td].field_count as int,
        );
        assert(fields_fit(m, il2cpp, td));
        assert forall|i: int| 0 <= i < all.len() implies {
            let f = #[trigger] all[i];
            &&& 0 <= f.0 < m.type_defs@.len()
            &&& 0 <= f.1 < m.field_defs@.len()
            &&& m.type_defs@[f.0].field_start <= f.1
            &&& m.field_defs@[f.1].type_index < il2cpp.types@.len()
        } by {
            if i < before.len() {
                assert(all[i] == before[i]);
            } else {
                assert(all[i] == own[i - before.len()]);
            }
        }
    }
}

/// Pairs of indices as numbers.
pub open spec fn pairs(v: Seq<(usize, usize)>) -> Seq<(int, int)> {
    v.map_values(|p: (usize, usize)| (p.0 as int, p.1 as int))
}

fn list_fields(
    executor: &Il2CppExecutor,
    metadata: &Metadata,
    il2cpp: &Il2Cpp,
    jobs: &Vec<(usize, String)>,
) -> (r: Vec<(usize, usize)>)
    requires
        catalog_fits(*executor, *metadata, *il2cpp),
        metadata::job_models(jobs@) == metadata::type_jobs(*metadata),
    ensures
        pairs(r@) == all_fields(*metadata),
{
    let mut out: Vec<(usize, usize)> = Vec::new();
    let mut i: usize = 0;
    let fields: usize = metadata.field_defs.len();
    assert(pairs(out@) =~= Seq::<(int, int)>::empty());
    assert(jobs@.len() == metadata::job_models(jobs@).len());
    while i < jobs.len()
        invariant
            catalog_fits(*executor, *metadata, *il2cpp),
            metadata::job_models(jobs@) == metadata::type_jobs(*metadata),
            jobs@.len() == metadata::type_jobs(*metadata).len(),
            fields == metadata.field_defs@.len(),
            i <= jobs@.len(),
            pairs(out@) == fields_upto(*metadata, i as nat),
        decreases jobs@.len() - i,
    {
        let td: usize = jobs[i].0;
        proof {
            metadata::lemma_type_jobs_fit(*metadata);
            assert(metadata::job_models(jobs@)[i as int].0 == td);
            assert(metadata::type_jobs(*metadata)[i as int].0 == td);
            assert(fields_fit(*metadata, *il2cpp, td as int));
        }
        let def = &metadata.type_defs[td];
        let ghost before = pairs(out@);
        let mut k: usize = 0;
        assert(before + fields_in(td as int, def.field_start as int, 0) =~= before);
        while k < def.field_count
            invariant
                metadata::range_fits(
                    def.field_start as int,
                    def.field_count as int,
                    fields as nat,
                ),
                k <= def.field_count,
                pairs(out@) == before + fields_in(td as int, def.field_start as int, k as int),
            decreases def.field_count - k,
        {
            let ghost was = out@;
            out.push((td, def.field_start + k));
            k = k + 1;
            assert(pairs(out@) =~= pairs(was).push((td as int, def.field_start + k - 1)));
            assert(pairs(out@) =~= before + fields_in(
                td as int,
                def.field_start as int,
                k as int,
            ));
        }
        i = i + 1;
    }
    out
}

// The report.

/// How far the report has come.
#[verifier::ext_equal]
pub struct Progress {
    pub entries: Seq<StaticFieldEntryModel>,
    pub tokens: Set<u32>,
    pub thread_statics: nat,
    pub field_rvas: nat,
    pub normal_statics: nat,
}

/// The layout of a field.
pub open spec fn layout_for(m: Metadata, il2cpp: Il2Cpp, c: Config, td: int, field: int) -> FieldLayoutModel {
    field_layout::layout_of(
        m,
        il2cpp,
        td,
        field - m.type_defs@[td].field_start,
        field as usize,
        field_type(m, il2cpp, field),
        c.max_field_rva_dump_bytes,
    )
}

/// The entry of a field.
pub open spec fn entry_for(
    m: Metadata,
    c: Config,
    token: u32,
    owner: Seq<char>,
    name: Seq<char>,
    l: FieldLayoutModel,
) -> StaticFieldEntryModel {
    let data = if c.dump_field_rva_data && l.kind is FieldRva {
        data_of(l)
    } else {
        None
    };
    StaticFieldEntryModel {
        declaring_type: owner,
        field_name: name,
        field_path: owner + "."@ + name,
        kind: kind_name(l.kind),
        token,
        raw_offset: l.raw_offset,
        effective_offset: l.effective_offset,
        is_thread_static: l.is_thread_static,
        has_field_rva: l.has_field_rva,
        thread_static_block_size: l.thread_static_fields_size,
        static_block_size: l.static_fields_size,
        metadata_offset: l.default_value_metadata_offset,
        metadata_rva: match l.default_value_metadata_offset {
            Some(offset) => Some(
                if offset >= m.default_value_data_offset {
                    (offset - m.default_value_data_offset) as u64
                } else {
                    0
                },
            ),
            None => None,
        },
        binary_va: l.binary_va,
        binary_rva: l.binary_rva,
        data_size: l.rva_data_size,
        hex: match data {
            Some(b) => bytes::hex_preview(b, 128),
            None => Seq::empty(),
        },
        base64: match data {
            Some(b) => Some(bytes::base64_text(b)),
            None => None,
        },
        ascii_preview: match data {
            Some(b) => Some(bytes::ascii_text(b, 64)),
            None => None,
        },
        hex_dump: None,
    }
}

/// What a field adds to the report: it is counted by its kind, and listed if it is thread-static
/// or has data at an address of its own and its token is not listed yet.
pub open spec fn with_field(
    p: Progress,
    x: Il2CppExecutor,
    m: Metadata,
    il2cpp: Il2Cpp,
    c: Config,
    td: int,
    field: int,
) -> Result<Progress, ErrorModel> {
    let def = m.field_defs@[field];
    if !is_listed(field_type(m, il2cpp, field).attrs) {
        Ok(p)
    } else {
        match def.name {
            Err(e) => Err(e@),
            Ok(name) => {
                let l = layout_for(m, il2cpp, c, td, field);
                let e = entry_for(m, c, def.token, x.type_def_names@[td]@, name@, l);
                let listed = (l.kind is ThreadStatic || l.kind is FieldRva) && !p.tokens.contains(
                    def.token,
                );
                Ok(
                    Progress {
                        entries: if listed {
                            p.entries.push(e)
                        } else {
                            p.entries
                        },
                        tokens: if listed {
                            p.tokens.insert(def.token)
                        } else {
                            p.tokens
                        },
                        thread_statics: if l.kind is ThreadStatic {
                            p.thread_statics + 1
                        } else {
                            p.thread_statics
                        },
                        field_rvas: if l.kind is FieldRva {
                            p.field_rvas + 1
                        } else {
                            p.field_rvas
                        },
                        normal_statics: if l.kind is NormalStatic {
                            p.normal_statics + 1
                        } else {
                            p.normal_statics
                        },
                    },
                )
            },
        }
    }
}

/// The report on the first `n` fields; it fails at the first name that it needs and cannot read.
pub open spec fn progress(
    x: Il2CppExecutor,
    m: Metadata,
    il2cpp: Il2Cpp,
    c: Config,
    n: nat,
) -> Result<Progress, ErrorModel>
    decreases n,
{
    if n == 0 {
        Ok(
            Progress {
                entries: Seq::empty(),
                tokens: Set::empty(),
                thread_statics: 0,
                field_rvas: 0,
                normal_statics: 0,
            },
        )
    } else {
        match progress(x, m, il2cpp, c, (n - 1) as nat) {
            Err(e) => Err(e),
            Ok(p) => {
                let f = all_fields(m)[n - 1];
                with_field(p, x, m, il2cpp, c, f.0, f.1)
            },
        }
    }
}

proof fn lemma_progress_stops(
    x: Il2CppExecutor,
    m: Metadata,
    il2cpp: Il2Cpp,
    c: Config,
    i: nat,
    n: nat,
)
    requires
        i <= n,
        progress(x, m, il2cpp, c, i) is Err,
    ensures
        progress(x, m, il2cpp, c, n) == progress(x, m, il2cpp, c, i),
    decreases n,
{
    if i < n {
        lemma_progress_stops(x, m, il2cpp, c, i, (n - 1) as nat);
    }
}

/// The tokens in the report are those of its entries, each of which stands there once.
pub proof fn law_tokens_listed_once(
    x: Il2CppExecutor,
    m: Metadata,
    il2cpp: Il2Cpp,
    c: Config,
    n: nat,
)
    requires
        progress(x, m, il2cpp, c, n) is Ok,
    ensures
        ({
            let p = progress(x, m, il2cpp, c, n)->Ok_0;
            &&& forall|i: int|
                0 <= i < p.entries.len() ==> p.tokens.contains((#[trigger] p.entries[i]).token)
            &&& forall|i: int, j: int|
                0 <= i < j < p.entries.len() ==> (#[trigger] p.entries[i]).token != (
                #[trigger] p.entries[j]).token
            &&& forall|i: int|
                0 <= i < p.entries.len() ==> (#[trigger] p.entries[i]).kind == kind_name(
                    StaticFieldKind::ThreadStatic,
                ) || p.entries[i].kind == kind_name(StaticFieldKind::FieldRva)
            &&& p.entries.len() <= p.thread_statics + p.field_rvas
        }),
    decreases n,
{
    if n > 0 {
        law_tokens_listed_once(x, m, il2cpp, c, (n - 1) as nat);
    }
}

/// The names of the listed types whose names speak of implementation details.
pub open spec fn detail_types(x: Il2CppExecutor, m: Metadata) -> Set<Seq<char>> {
    Set::new(
        |name: Seq<char>|
            text::contains(name, "PrivateImplementationDetails"@) && exists|i: int|
                0 <= i < metadata::type_jobs(m).len() && name
                    == x.type_def_names@[(#[trigger] metadata::type_jobs(m)[i]).0]@,
    )
}

/// The type definition has a block of thread-static fields.
pub open spec fn has_thread_block(il2cpp: Il2Cpp, td: int) -> bool {
    match field_layout::sizes_at(il2cpp, td) {
        Some(sizes) => sizes.thread_static_fields_size > 0,
        None => false,
    }
}

/// How many of the first `n` listed types have a block of thread-static fields.
pub open spec fn thread_blocks(m: Metadata, il2cpp: Il2Cpp, n: nat) -> nat
    decreases n,
{
    if n == 0 {
        0
    } else {
        thread_blocks(m, il2cpp, (n - 1) as nat) + if has_thread_block(
            il2cpp,
            metadata::type_jobs(m)[n - 1].0,
        ) {
            1nat
        } else {
            0
        }
    }
}

/// The catalog is the whole report.
pub open spec fn is_report(
    cat: StaticFieldCatalog,
    p: Progress,
    x: Il2CppExecutor,
    m: Metadata,
    il2cpp: Il2Cpp,
) -> bool {
    let s = cat.summary;
    let details = text::texts(s.private_implementation_details_types@);
    &&& script_json::views(cat.entries@) == p.entries
    &&& s.total_fields_scanned == m.field_defs@.len()
    &&& s.thread_static_count == p.thread_statics
    &&& s.field_rva_count == p.field_rvas
    &&& s.normal_static_count == p.normal_statics
    &&& s.types_with_thread_static_block == thread_blocks(
        m,
        il2cpp,
        metadata::type_jobs(m).len(),
    )
    &&& text::increasing(details)
    &&& details.to_set() == detail_types(x, m)
}

/// The entry of a field.
fn make_entry(
    metadata: &Metadata,
    config: &Config,
    token: u32,
    owner: &str,
    field_name: &str,
    layout: &FieldLayoutInfo,
) -> (r: StaticFieldEntry)
    ensures
        r@ == entry_for(*metadata, *config, token, owner@, field_name@, layout@),
{
    let is_rva = match layout.kind {
        StaticFieldKind::FieldRva => true,
        _ => false,
    };
    let mut hex = String::new();
    let mut base64: Option<String> = None;
    let mut ascii: Option<String> = None;
    assert(hex@ =~= Seq::<char>::empty());
    if config.dump_field_rva_data && is_rva {
        if let Some(data) = data_in(layout) {
            hex = bytes::bytes_to_hex_preview(data.as_slice(), 128);
            base64 = Some(bytes::bytes_to_base64(data.as_slice()));
            ascii = Some(bytes::ascii_preview(data.as_slice(), 64));
        }
    }
    let metadata_rva = match layout.default_value_metadata_offset {
        Some(offset) => Some(offset.saturating_sub(metadata.default_value_data_offset as u64)),
        None => None,
    };
    StaticFieldEntry {
        declaring_type: owner.to_owned(),
        field_name: field_name.to_owned(),
        field_path: owner.to_owned().concat(".").concat(field_name),
        kind: kind_str(layout.kind).to_owned(),
        token,
        raw_offset: layout.raw_offset,
        effective_offset: layout.effective_offset,
        is_thread_static: layout.is_thread_static,
        has_field_rva: layout.has_field_rva,
        thread_static_block_size: layout.thread_static_fields_size,
        static_block_size: layout.static_fields_size,
        metadata_offset: layout.default_value_metadata_offset,
        metadata_rva,
        binary_va: layout.binary_va,
        binary_rva: layout.binary_rva,
        data_size: layout.rva_data_size,
        hex,
        base64,
        ascii_preview: ascii,
        hex_dump: None,
    }
}

/// The sorted names of the listed types whose names speak of implementation details.
fn list_detail_types(
    executor: &Il2CppExecutor,
    metadata: &Metadata,
    jobs: &Vec<(usize, String)>,
) -> (r: Vec<String>)
    requires
        metadata.images_fit(),
        executor.type_def_names@.len() == metadata.type_defs@.len(),
        metadata::job_models(jobs@) == metadata::type_jobs(*metadata),
    ensures
        text::increasing(text::texts(r@)),
        text::texts(r@).to_set() == detail_types(*executor, *metadata),
{
    let mut out: Vec<String> = Vec::new();
    let mut i: usize = 0;
    let ghost all = metadata::type_jobs(*metadata);
    let ghost names = executor.type_def_names@;
    proof {
        metadata::lemma_type_jobs_fit(*metadata);
        assert(jobs@.len() == metadata::job_models(jobs@).len());
    }
    while i < jobs.len()
        invariant
            all == metadata::type_jobs(*metadata),
            names == executor.type_def_names@,
            names.len() == metadata.type_defs@.len(),
            metadata::job_models(jobs@) == all,
            jobs@.len() == all.len(),
            i <= jobs@.len(),
            forall|k: int| 0 <= k < all.len() ==> 0 <= (#[trigger] all[k]).0 < names.len(),
            text::increasing(text::texts(out@)),
            forall|name: Seq<char>| #[trigger]
                text::texts(out@).to_set().contains(name) <==> text::contains(
                    name,
                    "PrivateImplementationDetails"@,
                ) && exists|k: int| 0 <= k < i && name == names[(#[trigger] all[k]).0]@,
        decreases jobs@.len() - i,
    {
        assert(metadata::job_models(jobs@)[i as int].0 == jobs@[i as int].0);
        assert(all[i as int].0 == jobs@[i as int].0);
        let name = &executor.type_def_names[jobs[i].0];
        let ghost was = text::texts(out@).to_set();
        if text::contains_text(name.as_str(), "PrivateImplementationDetails") {
            text::insert_in_order(&mut out, name.clone());
        }
        proof {
            let now = text::texts(out@).to_set();
            assert forall|t: Seq<char>| #[trigger] now.contains(t) <==> text::contains(
                t,
                "PrivateImplementationDetails"@,
            ) && exists|k: int| 0 <= k < i + 1 && t == names[(#[trigger] all[k]).0]@ by {
                assert(was.contains(t) <==> text::contains(t, "PrivateImplementationDetails"@)
                    && exists|k: int| 0 <= k < i && t == names[(#[trigger] all[k]).0]@);
                if t == names[all[i as int].0]@ {
                    assert(exists|k: int| 0 <= k < i + 1 && t == names[(#[trigger] all[k]).0]@);
                }
            }
        }
        i = i + 1;
    }
    assert(text::texts(out@).to_set() =~= detail_types(*executor, *metadata));
    out
}

/// How many listed types have a block of thread-static fields.
fn count_thread_blocks(metadata: &Metadata, il2cpp: &Il2Cpp, jobs: &Vec<(usize, String)>) -> (r:
    usize)
    requires
        metadata::job_models(jobs@) == metadata::type_jobs(*metadata),
    ensures
        r == thread_blocks(*metadata, *il2cpp, metadata::type_jobs(*metadata).len()),
{
    let mut n: usize = 0;
    let mut i: usize = 0;
    assert(jobs@.len() == metadata::job_models(jobs@).len());
    while i < jobs.len()
        invariant
            metadata::job_models(jobs@) == metadata::type_jobs(*metadata),
            jobs@.len() == metadata::type_jobs(*metadata).len(),
            n <= i <= jobs@.len(),
            n == thread_blocks(*metadata, *il2cpp, i as nat),
        decreases jobs@.len() - i,
    {
        let td: usize = jobs[i].0;
        assert(metadata::job_models(jobs@)[i as int].0 == td);
        if let Some(sizes) = field_layout::type_sizes(il2cpp, td) {
            if sizes.thread_static_fields_size > 0 {
                n = n + 1;
            }
        }
        i = i + 1;
    }
    n
}

impl StaticFieldCatalog {
    /// Reports on the static fields of an image.
    pub fn collect(
        executor: &Il2CppExecutor,
        metadata: &Metadata,
        il2cpp: &Il2Cpp,
        config: &Config,
    ) -> (r: Result<Self, Error>)
        requires
            catalog_fits(*executor, *metadata, *il2cpp),
        ensures
            ({
                let done = progress(
                    *executor,
                    *metadata,
                    *il2cpp,
                    *config,
                    all_fields(*metadata).len(),
                );
                match r {
                    Ok(catalog) => done is Ok && is_report(
                        catalog,
                        done->Ok_0,
                        *executor,
                        *metadata,
                        *il2cpp,
                    ),
                    Err(e) => done == Err::<Progress, ErrorModel>(e@),
                }
            }),
    {
        proof {
            metadata::lemma_images_end(*metadata);
        }
        let jobs = metadata.type_jobs();
        let fields = list_fields(executor, metadata, il2cpp, &jobs);
        let mut entries: Vec<StaticFieldEntry> = Vec::new();
        let mut recorded_tokens: HashSet<u32> = HashSet::new();
        let mut thread_static_count: usize = 0;
        let mut field_rva_count: usize = 0;
        let mut normal_static_count: usize = 0;
        let mut i: usize = 0;
        let ghost all = all_fields(*metadata);
        proof {
            lemma_fields_fit(
                *executor,
                *metadata,
                *il2cpp,
                metadata::type_jobs(*metadata).len(),
            );
            assert(fields@.len() == pairs(fields@).len());
            assert(script_json::views(entries@) =~= Seq::<StaticFieldEntryModel>::empty());
        }
        while i < fields.len()
            invariant
                catalog_fits(*executor, *metadata, *il2cpp),
                all == all_fields(*metadata),
                pairs(fields@) == all,
                fields@.len() == all.len(),
                i <= fields@.len(),
                forall|k: int|
                    0 <= k < all.len() ==> {
                        let f = #[trigger] all[k];
                        &&& 0 <= f.0 < metadata.type_defs@.len()
                        &&& 0 <= f.1 < metadata.field_defs@.len()
                        &&& metadata.type_defs@[f.0].field_start <= f.1
                        &&& metadata.field_defs@[f.1].type_index < il2cpp.types@.len()
                    },
                thread_static_count <= i,
                field_rva_count <= i,
                normal_static_count <= i,
                progress(*executor, *metadata, *il2cpp, *config, i as nat) == Ok::<
                    Progress,
                    ErrorModel,
                >(
                    Progress {
                        entries: script_json::views(entries@),
                        tokens: recorded_tokens@,
                        thread_statics: thread_static_count as nat,
                        field_rvas: field_rva_count as nat,
                        normal_statics: normal_static_count as nat,
                    },
                ),
            decreases fields@.len() - i,
        {
            broadcast use script_json::lemma_views_push;

            let (td, field) = fields[i];
            assert(pairs(fields@)[i as int] == (td as int, field as int));
            assert(all[i as int] == (td as int, field as int));
            let field_def = &metadata.field_defs[field];
            let field_type = il2cpp.types[field_def.type_index];
            i = i + 1;
            if !listed_by_attrs(field_type.attrs) {
                continue;
            }
            let field_name = match &field_def.name {
                Ok(name) => name,
                Err(e) => {
                    proof {
                        lemma_progress_stops(
                            *executor,
                            *metadata,
                            *il2cpp,
                            *config,
                            i as nat,
                            all.len(),
                        );
                    }
                    return Err(e.clone());
                },
            };
            let type_def = &metadata.type_defs[td];
            assert(blob_ready(*metadata, *il2cpp, all[i - 1].1));
            let layout = field_layout::analyze_field_layout(
                metadata,
                il2cpp,
                type_def,
                td,
                field - type_def.field_start,
                field,
                field_def,
                &field_type,
                config.max_field_rva_dump_bytes,
            );
            match layout.kind {
                StaticFieldKind::ThreadStatic => {
                    thread_static_count = thread_static_count + 1;
                },
                StaticFieldKind::FieldRva => {
                    field_rva_count = field_rva_count + 1;
                },
                StaticFieldKind::NormalStatic => {
                    normal_static_count = normal_static_count + 1;
                    continue;
                },
                _ => {
                    continue;
                },
            }
            let ghost known = recorded_tokens@;
            if recorded_tokens.insert(field_def.token) {
                entries.push(
                    make_entry(
                        metadata,
                        config,
                        field_def.token,
                        executor.type_def_names[td].as_str(),
                        field_name.as_str(),
                        &layout,
                    ),
                );
            } else {
                assert(recorded_tokens@ =~= known);
            }
        }
        let summary = StaticFieldSummary {
            total_fields_scanned: metadata.field_defs.len(),
            thread_static_count,
            field_rva_count,
            normal_static_count,
            types_with_thread_static_block: count_thread_blocks(metadata, il2cpp, &jobs),
            private_implementation_details_types: list_detail_types(executor, metadata, &jobs),
        };
        Ok(StaticFieldCatalog { entries, summary })
    }
}

// The report in the script.

/// The number that a signed word holds when its sign is not looked at.
pub open spec fn unsigned_word(v: i32) -> nat {
    if v < 0 {
        (v + 0x1_0000_0000) as nat
    } else {
        v as nat
    }
}

fn to_unsigned_word(v: i32) -> (r: u64)
    ensures
        r == unsigned_word(v),
{
    if v < 0 {
        (v as i64 + 0x1_0000_0000) as u64
    } else {
        v as u64
    }
}

/// A signed word as an address.
pub open spec fn word_address(v: i32) -> u64 {
    if v < 0 {
        (v + 0x1_0000_0000_0000_0000) as u64
    } else {
        v as u64
    }
}

fn to_address(v: i32) -> (r: u64)
    ensures
        r == word_address(v),
{
    if v < 0 {
        0xFFFF_FFFF_FFFF_FFFF - ((-(v as i64) - 1) as u64)
    } else {
        v as u64
    }
}

/// What the script says of the place of an entry, if it has one.
pub open spec fn rva_info(e: StaticFieldEntryModel) -> Option<ScriptFieldInfoModel> {
    let address = match e.binary_rva {
        Some(a) => a,
        None => match e.metadata_rva {
            Some(a) => a,
            None => 0,
        },
    };
    if e.kind != "ThreadStatic"@ && e.kind != "FieldRva"@ {
        None
    } else if address == 0 && e.effective_offset < 0 {
        None
    } else {
        Some(
            ScriptFieldInfoModel {
                address,
                name: e.field_path,
                value: if e.hex.len() == 0 {
                    e.field_path + " offset=0x"@ + numeral::hex(unsigned_word(e.effective_offset))
                        + " kind="@ + e.kind
                } else {
                    e.field_path + " kind="@ + e.kind + " hex="@ + e.hex
                },
            },
        )
    }
}

/// What the script says of a thread-static entry.
pub open spec fn thread_info(e: StaticFieldEntryModel) -> Option<ScriptFieldInfoModel> {
    if !e.is_thread_static {
        None
    } else {
        Some(
            ScriptFieldInfoModel {
                address: word_address(e.effective_offset),
                name: text::with_char_replaced(e.field_path, '.', '_') + "_ThreadStatic"@,
                value: "ThreadStatic offset=0x"@ + numeral::hex(
                    unsigned_word(e.effective_offset),
                ) + " raw=0x"@ + numeral::hex(
                    field_layout::effective_offset(e.raw_offset) as nat,
                ),
            },
        )
    }
}

/// `v` with one more element, if there is one.
pub open spec fn with_optional<T>(v: Seq<T>, x: Option<T>) -> Seq<T> {
    match x {
        Some(x) => v.push(x),
        None => v,
    }
}

/// What the script says of the places of the entries.
pub open spec fn rva_infos(entries: Seq<StaticFieldEntryModel>) -> Seq<ScriptFieldInfoModel>
    decreases entries.len(),
{
    if entries.len() == 0 {
        Seq::empty()
    } else {
        with_optional(rva_infos(entries.drop_last()), rva_info(entries.last()))
    }
}

/// What the script says of the thread-static entries.
pub open spec fn thread_infos(entries: Seq<StaticFieldEntryModel>) -> Seq<ScriptFieldInfoModel>
    decreases entries.len(),
{
    if entries.len() == 0 {
        Seq::empty()
    } else {
        with_optional(thread_infos(entries.drop_last()), thread_info(entries.last()))
    }
}

/// The script with the entries of the report.
pub open spec fn enriched(script: ScriptJsonModel, entries: Seq<StaticFieldEntryModel>) -> ScriptJsonModel {
    ScriptJsonModel {
        field_rvas: script.field_rvas + rva_infos(entries),
        field_infos: script.field_infos + thread_infos(entries),
        ..script
    }
}

/// A script field that may be missing, as texts.
pub open spec fn optional_info(x: Option<ScriptFieldInfo>) -> Option<ScriptFieldInfoModel> {
    match x {
        Some(x) => Some(x@),
        None => None,
    }
}

fn make_rva_info(entry: &StaticFieldEntry) -> (r: Option<ScriptFieldInfo>)
    ensures
        optional_info(r) == rva_info(entry@),
{
    if !text::same_text(entry.kind.as_str(), "ThreadStatic") && !text::same_text(
        entry.kind.as_str(),
        "FieldRva",
    ) {
        return None;
    }
    let address: u64 = match entry.binary_rva {
        Some(a) => a,
        None => match entry.metadata_rva {
            Some(a) => a,
            None => 0,
        },
    };
    if address == 0 && entry.effective_offset < 0 {
        return None;
    }
    let value = if entry.hex.as_str().unicode_len() == 0 {
        entry.field_path.clone().concat(" offset=0x").concat(
            numeral::hex_string(to_unsigned_word(entry.effective_offset)).as_str(),
        ).concat(" kind=").concat(entry.kind.as_str())
    } else {
        entry.field_path.clone().concat(" kind=").concat(entry.kind.as_str()).concat(
            " hex=",
        ).concat(entry.hex.as_str())
    };
    Some(ScriptFieldInfo { address, name: entry.field_path.clone(), value })
}

fn make_thread_info(entry: &StaticFieldEntry) -> (r: Option<ScriptFieldInfo>)
    ensures
        optional_info(r) == thread_info(entry@),
{
    if !entry.is_thread_static {
        return None;
    }
    let decoded = field_layout::decode_field_offset(entry.raw_offset);
    Some(
        ScriptFieldInfo {
            address: to_address(entry.effective_offset),
            name: text::replace_char(entry.field_path.as_str(), '.', '_').concat("_ThreadStatic"),
            value: String::from_str("ThreadStatic offset=0x").concat(
                numeral::hex_string(to_unsigned_word(entry.effective_offset)).as_str(),
            ).concat(" raw=0x").concat(
                numeral::hex_string(decoded.effective as u64).as_str(),
            ),
        },
    )
}

impl StaticFieldCatalog {
    /// Adds the entries of the report to the script.
    pub fn enrich_script_json(&self, script: &mut ScriptJson, _il2cpp: &Il2Cpp)
        ensures
            final(script)@ == enriched(old(script)@, script_json::views(self.entries@)),
    {
        let ghost all = script_json::views(self.entries@);
        let ghost was = script@;
        let mut i: usize = 0;
        assert(was.field_rvas + rva_infos(all.take(0)) =~= was.field_rvas);
        assert(was.field_infos + thread_infos(all.take(0)) =~= was.field_infos);
        while i < self.entries.len()
            invariant
                i <= self.entries@.len(),
                all == script_json::views(self.entries@),
                script@ == enriched(was, all.take(i as int)),
            decreases self.entries@.len() - i,
        {
            broadcast use script_json::lemma_views_push;

            let entry = &self.entries[i];
            let ghost before = script@;
            proof {
                assert(all.take(i + 1).drop_last() =~= all.take(i as int));
                assert(all.take(i + 1).last() == entry@);
            }
            if let Some(info) = make_rva_info(entry) {
                script.field_rvas.push(info);
            }
            assert(script@.field_rvas =~= was.field_rvas + rva_infos(all.take(i + 1)));
            if let Some(info) = make_thread_info(entry) {
                script.field_infos.push(info);
            }
            assert(script@.field_infos =~= was.field_infos + thread_infos(all.take(i + 1)));
            i = i + 1;
        }
        assert(all.take(i as int) =~= all);
    }
}

fn clone_entries(v: &Vec<StaticFieldEntry>) -> (r: Vec<StaticFieldEntry>)
    ensures
        script_json::views(r@) == script_json::views(v@),
{
    let mut out: Vec<StaticFieldEntry> = Vec::new();
    let mut i: usize = 0;
    while i < v.len()
        invariant
            i <= v@.len(),
            out@.len() == i,
            forall|k: int| 0 <= k < i ==> (#[trigger] out@[k])@ == v@[k]@,
        decreases v@.len() - i,
    {
        out.push(v[i].clone());
        i = i + 1;
    }
    assert(script_json::views(out@) =~= script_json::views(v@));
    out
}

/// Makes documents of reports.
pub struct StaticFieldExporter;

impl StaticFieldExporter {
    /// The report as a document.
    pub fn document(catalog: &StaticFieldCatalog, il2cpp: &Il2Cpp) -> (r: StaticMetadataDocument)
        ensures
            r.il2cpp_version == il2cpp.version,
            r.pointer_size == if il2cpp.is_32bit {
                4u8
            } else {
                8u8
            },
            r.summary@ == catalog.summary@,
            script_json::views(r.fields@) == script_json::views(catalog.entries@),
    {
        StaticMetadataDocument {
            il2cpp_version: il2cpp.version,
            pointer_size: if il2cpp.is_32bit {
                4
            } else {
                8
            },
            summary: catalog.summary.clone(),
            fields: clone_entries(&catalog.entries),
        }
    }
}

// Remarks in the dump.

/// A remark in the dump.
pub open spec fn remark(indent: Seq<char>, s: Seq<char>) -> Seq<char> {
    indent + "\t// "@ + s + "\n"@
}

fn remark_line(indent: &str, s: &str) -> (r: String)
    ensures
        r@ == remark(indent@, s@),
{
    indent.to_owned().concat("\t// ").concat(s).concat("\n")
}

/// The first `n` lines of a dump as remarks.
pub open spec fn dump_remarks(indent: Seq<char>, lines: Seq<Seq<char>>, n: nat) -> Seq<char>
    decreases n,
{
    if n == 0 {
        Seq::empty()
    } else {
        dump_remarks(indent, lines, (n - 1) as nat) + remark(indent, "  "@ + lines[n - 1])
    }
}

/// The remarks on the data of a field.
pub open spec fn data_remarks(indent: Seq<char>, b: Seq<u8>) -> Seq<char> {
    let lines = text::lines(bytes::hex_dump(b, 16));
    remark(indent, "  Size: "@ + numeral::dec(b.len()) + " bytes"@) + remark(
        indent,
        "  Hex: "@ + bytes::hex_preview(b, 128),
    ) + (if b.len() <= 64 {
        remark(indent, "  ASCII: "@ + bytes::ascii_text(b, 64))
    } else {
        Seq::empty()
    }) + dump_remarks(
        indent,
        lines,
        if lines.len() <= 8 {
            lines.len()
        } else {
            8
        },
    )
}

/// The remarks on a field with data at an address of its own.
pub open spec fn rva_remarks(
    indent: Seq<char>,
    path: Seq<char>,
    l: FieldLayoutModel,
    dump_data: bool,
) -> Seq<char> {
    remark(indent, "FieldRVA: "@ + path) + (match l.default_value_metadata_offset {
        Some(offset) => remark(indent, "  Metadata offset: 0x"@ + numeral::hex(offset as nat)),
        None => Seq::empty(),
    }) + (match l.binary_va {
        Some(va) => remark(
            indent,
            "  Binary VA: 0x"@ + numeral::hex(va as nat) + " (RVA 0x"@ + numeral::hex(
                match l.binary_rva {
                    Some(rva) => rva as nat,
                    None => 0,
                },
            ) + ")"@,
        ),
        None => Seq::empty(),
    }) + (match data_of(l) {
        Some(b) => if dump_data {
            data_remarks(indent, b)
        } else {
            Seq::empty()
        },
        None => Seq::empty(),
    })
}

/// The remarks on a thread-static field.
pub open spec fn thread_remarks(indent: Seq<char>, path: Seq<char>, l: FieldLayoutModel) -> Seq<char> {
    remark(indent, "ThreadStatic field: "@ + path) + remark(
        indent,
        "  TLS offset in type block: 0x"@ + numeral::hex(unsigned_word(l.effective_offset))
            + " (raw IL2CPP offset 0x"@ + numeral::hex(unsigned_word(l.raw_offset)) + ")"@,
    ) + remark(
        indent,
        "  Not a binary RVA — per-thread storage; xref the field name in dump.cs / disasm"@,
    ) + (match l.thread_static_fields_size {
        Some(size) => if size > 0 {
            remark(indent, "  ThreadStatic block size: 0x"@ + numeral::hex(size as nat))
        } else {
            Seq::empty()
        },
        None => Seq::empty(),
    }) + (match l.static_fields_size {
        Some(size) => remark(indent, "  Normal static block size: 0x"@ + numeral::hex(size as nat)),
        None => Seq::empty(),
    })
}

/// The remarks on a field.
pub open spec fn field_remarks(
    indent: Seq<char>,
    path: Seq<char>,
    l: FieldLayoutModel,
    dump_data: bool,
) -> Seq<char> {
    (if l.has_field_rva || l.kind is FieldRva {
        rva_remarks(indent, path, l, dump_data)
    } else {
        Seq::empty()
    }) + (if l.is_thread_static {
        thread_remarks(indent, path, l)
    } else {
        Seq::empty()
    })
}

fn make_data_remarks(indent: &str, b: &Vec<u8>) -> (r: String)
    ensures
        r@ == data_remarks(indent@, b@),
{
    let size: usize = b.len();
    let mut out = remark_line(
        indent,
        String::from_str("  Size: ").concat(numeral::dec_string(size as u64).as_str()).concat(
            " bytes",
        ).as_str(),
    );
    out.append(
        remark_line(
            indent,
            String::from_str("  Hex: ").concat(
                bytes::bytes_to_hex_preview(b.as_slice(), 128).as_str(),
            ).as_str(),
        ).as_str(),
    );
    if size <= 64 {
        out.append(
            remark_line(
                indent,
                String::from_str("  ASCII: ").concat(
                    bytes::ascii_preview(b.as_slice(), 64).as_str(),
                ).as_str(),
            ).as_str(),
        );
    }
    let lines = text::split_lines(bytes::format_hex_dump(b.as_slice(), 16).as_str());
    let ghost head = out@;
    let ghost all = text::texts(lines@);
    let mut i: usize = 0;
    assert(head + dump_remarks(indent@, all, 0) =~= head);
    while i < lines.len() && i < 8
        invariant
            i <= lines@.len(),
            i <= 8,
            all == text::texts(lines@),
            out@ == head + dump_remarks(indent@, all, i as nat),
        decreases lines@.len() - i,
    {
        let ghost was = out@;
        out.append(
            remark_line(
                indent,
                String::from_str("  ").concat(lines[i].as_str()).as_str(),
            ).as_str(),
        );
        i = i + 1;
        assert(out@ =~= head + dump_remarks(indent@, all, i as nat));
    }
    assert(data_remarks(indent@, b@) =~= head + dump_remarks(
        indent@,
        all,
        if all.len() <= 8 {
            all.len()
        } else {
            8
        },
    ));
    out
}

fn make_rva_remarks(indent: &str, path: &str, l: &FieldLayoutInfo, dump_data: bool) -> (r: String)
    ensures
        r@ == rva_remarks(indent@, path@, l@, dump_data),
{
    let mut out = remark_line(indent, String::from_str("FieldRVA: ").concat(path).as_str());
    let ghost part1 = out@;
    if let Some(offset) = l.default_value_metadata_offset {
        out.append(
            remark_line(
                indent,
                String::from_str("  Metadata offset: 0x").concat(
                    numeral::hex_string(offset).as_str(),
                ).as_str(),
            ).as_str(),
        );
    }
    let ghost part2 = out@;
    if let Some(va) = l.binary_va {
        let rva: u64 = match l.binary_rva {
            Some(rva) => rva,
            None => 0,
        };
        out.append(
            remark_line(
                indent,
                String::from_str("  Binary VA: 0x").concat(
                    numeral::hex_string(va).as_str(),
                ).concat(" (RVA 0x").concat(numeral::hex_string(rva).as_str()).concat(
                    ")",
                ).as_str(),
            ).as_str(),
        );
    }
    let ghost part3 = out@;
    if dump_data {
        if let Some(data) = data_in(l) {
            out.append(make_data_remarks(indent, data).as_str());
        }
    }
    assert(out@ =~= rva_remarks(indent@, path@, l@, dump_data));
    out
}

fn make_thread_remarks(indent: &str, path: &str, l: &FieldLayoutInfo) -> (r: String)
    ensures
        r@ == thread_remarks(indent@, path@, l@),
{
    let mut out = remark_line(
        indent,
        String::from_str("ThreadStatic field: ").concat(path).as_str(),
    );
    out.append(
        remark_line(
            indent,
            String::from_str("  TLS offset in type block: 0x").concat(
                numeral::hex_string(to_unsigned_word(l.effective_offset)).as_str(),
            ).concat(" (raw IL2CPP offset 0x").concat(
                numeral::hex_string(to_unsigned_word(l.raw_offset)).as_str(),
            ).concat(")").as_str(),
        ).as_str(),
    );
    out.append(
        remark_line(
            indent,
            "  Not a binary RVA — per-thread storage; xref the field name in dump.cs / disasm",
        ).as_str(),
    );
    if let Some(size) = l.thread_static_fields_size {
        if size > 0 {
            out.append(
                remark_line(
                    indent,
                    String::from_str("  ThreadStatic block size: 0x").concat(
                        numeral::hex_string(size as u64).as_str(),
                    ).as_str(),
                ).as_str(),
            );
        }
    }
    if let Some(size) = l.static_fields_size {
        out.append(
            remark_line(
                indent,
                String::from_str("  Normal static block size: 0x").concat(
                    numeral::hex_string(size as u64).as_str(),
                ).as_str(),
            ).as_str(),
        );
    }
    assert(out@ =~= thread_remarks(indent@, path@, l@));
    out
}

/// What is written about a field: nothing unless remarks are wanted and the field is static or
/// literal or has data at an address of its own.
pub open spec fn annotation(
    x: Il2CppExecutor,
    m: Metadata,
    il2cpp: Il2Cpp,
    c: Config,
    td: int,
    field_index: usize,
    index_in_type: int,
    def: Il2CppFieldDefinition,
    t: Il2CppType,
    indent: Seq<char>,
) -> Result<Seq<char>, ErrorModel> {
    if !c.dump_static_field_metadata || !is_listed(t.attrs) {
        Ok(Seq::empty())
    } else {
        match def.name {
            Err(e) => Err(e@),
            Ok(name) => Ok(
                field_remarks(
                    indent,
                    x.type_def_names@[td]@ + "."@ + name@,
                    field_layout::layout_of(
                        m,
                        il2cpp,
                        td,
                        index_in_type,
                        field_index,
                        t,
                        c.max_field_rva_dump_bytes,
                    ),
                    c.dump_field_rva_data,
                ),
            ),
        }
    }
}

/// Writes the remarks on a field at the end of `buf`.
pub fn write_dump_cs_field_annotations(
    buf: &mut String,
    executor: &Il2CppExecutor,
    metadata: &Metadata,
    il2cpp: &Il2Cpp,
    config: &Config,
    type_def: &Il2CppTypeDefinition,
    type_def_index: usize,
    field_index: usize,
    field_index_in_type: usize,
    field_def: &Il2CppFieldDefinition,
    field_type: &Il2CppType,
    indent: &str,
) -> (r: Result<(), Error>)
    requires
        config.dump_static_field_metadata && is_listed(field_type.attrs) ==> {
            &&& il2cpp.wf()
            &&& type_def_index < executor.type_def_names@.len()
            &&& field_layout::blob_whole(*metadata, *il2cpp, field_index, field_type.attrs)
        },
    ensures
        ({
            let wanted = annotation(
                *executor,
                *metadata,
                *il2cpp,
                *config,
                type_def_index as int,
                field_index,
                field_index_in_type as int,
                *field_def,
                *field_type,
                indent@,
            );
            match r {
                Ok(_) => wanted is Ok && final(buf)@ == old(buf)@ + wanted->Ok_0,
                Err(e) => wanted == Err::<Seq<char>, ErrorModel>(e@) && final(buf)@ == old(buf)@,
            }
        }),
{
    if !config.dump_static_field_metadata {
        assert(buf@ =~= buf@ + Seq::<char>::empty());
        return Ok(());
    }
    if !listed_by_attrs(field_type.attrs) {
        assert(buf@ =~= buf@ + Seq::<char>::empty());
        return Ok(());
    }
    let layout = field_layout::analyze_field_layout(
        metadata,
        il2cpp,
        type_def,
        type_def_index,
        field_index_in_type,
        field_index,
        field_def,
        field_type,
        config.max_field_rva_dump_bytes,
    );
    let field_name = match &field_def.name {
        Ok(name) => name,
        Err(e) => {
            return Err(e.clone());
        },
    };
    let path = executor.type_def_names[type_def_index].clone().concat(".").concat(
        field_name.as_str(),
    );
    let is_rva = match layout.kind {
        StaticFieldKind::FieldRva => true,
        _ => false,
    };
    let ghost was = buf@;
    if layout.has_field_rva || is_rva {
        buf.append(
            make_rva_remarks(
                indent,
                path.as_str(),
                &layout,
                config.dump_field_rva_data,
            ).as_str(),
        );
    }
    if layout.is_thread_static {
        buf.append(make_thread_remarks(indent, path.as_str(), &layout).as_str());
    }
    assert(buf@ =~= was + field_remarks(indent@, path@, layout@, config.dump_field_rva_data));
    Ok(())
}

// Attributes.

/// Attributes as texts.
pub open spec fn attr_texts(v: Seq<(&'static str, String)>) -> Seq<(Seq<char>, Seq<char>)> {
    v.map_values(|a: (&'static str, String)| (a.0@, a.1@))
}

/// The attributes that tell where a field is stored.
pub open spec fn layout_attrs(l: FieldLayoutModel, dump_data: bool) -> Seq<(Seq<char>, Seq<char>)> {
    let thread = if l.is_thread_static {
        seq![
            ("ThreadStatic"@, "true"@),
            ("Offset"@, "0x"@ + numeral::hex(unsigned_word(l.effective_offset))),
        ]
    } else {
        Seq::empty()
    };
    let offset = match l.default_value_metadata_offset {
        Some(offset) => seq![("MetadataOffset"@, "0x"@ + numeral::hex(offset as nat))],
        None => Seq::empty(),
    };
    let data = match data_of(l) {
        Some(b) => if dump_data {
            seq![("FieldRvaHex"@, bytes::hex_preview(b, 64))]
        } else {
            Seq::empty()
        },
        None => Seq::empty(),
    };
    let address = match l.binary_va {
        Some(va) => seq![("FieldRvaAddress"@, "0x"@ + numeral::hex(va as nat))],
        None => Seq::empty(),
    };
    if l.has_field_rva {
        thread + offset + data + address
    } else {
        thread
    }
}

/// The attributes that tell where a field is stored.
pub fn dummy_dll_layout_attrs(layout: &FieldLayoutInfo, config: &Config) -> (r: Vec<
    (&'static str, String),
>)
    ensures
        attr_texts(r@) == layout_attrs(layout@, config.dump_field_rva_data),
{
    let mut attrs: Vec<(&'static str, String)> = Vec::new();
    if layout.is_thread_static {
        attrs.push(("ThreadStatic", String::from_str("true")));
        attrs.push(
            (
                "Offset",
                String::from_str("0x").concat(
                    numeral::hex_string(to_unsigned_word(layout.effective_offset)).as_str(),
                ),
            ),
        );
    }
    if layout.has_field_rva {
        if let Some(offset) = layout.default_value_metadata_offset {
            attrs.push(
                (
                    "MetadataOffset",
                    String::from_str("0x").concat(numeral::hex_string(offset).as_str()),
                ),
            );
        }
        if config.dump_field_rva_data {
            if let Some(data) = data_in(layout) {
                attrs.push(("FieldRvaHex", bytes::bytes_to_hex_preview(data.as_slice(), 64)));
            }
        }
        if let Some(va) = layout.binary_va {
            attrs.push(
                (
                    "FieldRvaAddress",
                    String::from_str("0x").concat(numeral::hex_string(va).as_str()),
                ),
            );
        }
    }
    assert(attr_texts(attrs@) =~= layout_attrs(layout@, config.dump_field_rva_data));
    attrs
}

} // verus!
