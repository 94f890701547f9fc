//! The metadata of an image: its definitions and its literals.
use crate::il2cpp::structures;
use crate::il2cpp::structures::{
    Il2CppFieldDefaultValue, Il2CppFieldDefinition, Il2CppFieldRef, Il2CppImageDefinition,
    Il2CppMethodDefinition, Il2CppParameterDefinition, Il2CppTypeDefinition, NameResult,
};
use std::collections::HashMap;
use vstd::prelude::*;
use vstd::string::*;

verus! {

/// The metadata of an image.
pub struct Metadata {
    pub version: u32,
    pub data: Vec<u8>,
    /// Where the block of default values starts in the data.
    pub default_value_data_offset: u32,
    /// The size of the block of default values.
    pub default_value_data_size: u32,
    pub image_defs: Vec<Il2CppImageDefinition>,
    pub type_defs: Vec<Il2CppTypeDefinition>,
    pub method_defs: Vec<Il2CppMethodDefinition>,
    pub parameter_defs: Vec<Il2CppParameterDefinition>,
    pub field_defs: Vec<Il2CppFieldDefinition>,
    pub field_refs: Vec<Il2CppFieldRef>,
    pub vtable_methods: Vec<u32>,
    /// The metadata usages by their kinds, each a list of places and of what stands there.
    pub metadata_usages: Vec<(u32, Vec<(u32, u32)>)>,
    /// The string literals, or why they could not be read.
    pub string_literals: Vec<NameResult>,
    /// The default values of the fields that have one, by field index.
    pub field_default_values: HashMap<usize, Il2CppFieldDefaultValue>,
}

/// A range of `count` things from `start` on lies among `len` things.
pub open spec fn range_fits(start: int, count: int, len: nat) -> bool {
    count == 0 || start + count <= len
}

impl Metadata {
    /// The type definitions of each image exist.
    pub open spec fn images_fit(&self) -> bool {
        forall|i: int|
            0 <= i < self.image_defs@.len() ==> range_fits(
                (#[trigger] self.image_defs@[i]).type_start as int,
                self.image_defs@[i].type_count as int,
                self.type_defs@.len(),
            )
    }

    /// The type definitions that images list have indices that fit a machine word.
    pub open spec fn images_end(&self) -> bool {
        forall|i: int|
            0 <= i < self.image_defs@.len() ==> (#[trigger] self.image_defs@[i]).type_start
                + self.image_defs@[i].type_count <= usize::MAX
    }
}

/// Type definitions that exist have indices that fit a machine word.
pub proof fn lemma_images_end(m: Metadata)
    requires
        m.images_fit(),
    ensures
        m.images_end(),
{
    assert(m.type_defs.len() == m.type_defs@.len());
    assert forall|i: int| 0 <= i < m.image_defs@.len() implies (
    #[trigger] m.image_defs@[i]).type_start + m.image_defs@[i].type_count <= usize::MAX by {
        assert(range_fits(
            m.image_defs@[i].type_start as int,
            m.image_defs@[i].type_count as int,
            m.type_defs@.len(),
        ));
    }
}

/// The type definitions `start` up to `start + count`, each with the name of its image.
pub open spec fn jobs_of(image: Seq<char>, start: int, count: int) -> Seq<(int, Seq<char>)> {
    Seq::new(
        if count >= 0 {
            count as nat
        } else {
            0
        },
        |i: int| (start + i, image),
    )
}

/// The type definitions of the first `n` images in order, each with the name of its image.
pub open spec fn type_jobs_upto(m: Metadata, n: nat) -> Seq<(int, Seq<char>)>
    decreases n,
{
    if n == 0 {
        Seq::empty()
    } else {
        let image = m.image_defs@[n - 1];
        type_jobs_upto(m, (n - 1) as nat) + jobs_of(
            structures::name_or(image.name, ""@),
            image.type_start as int,
            image.type_count as int,
        )
    }
}

/// The type definitions of all images in order, each with the name of its image.
pub open spec fn type_jobs(m: Metadata) -> Seq<(int, Seq<char>)> {
    type_jobs_upto(m, m.image_defs@.len())
}

/// Type definitions with the names of their images, as numbers and texts.
pub open spec fn job_models(v: Seq<(usize, String)>) -> Seq<(int, Seq<char>)> {
    v.map_values(|job: (usize, String)| (job.0 as int, job.1@))
}

proof fn lemma_jobs_fit(m: Metadata, n: nat)
    requires
        m.images_fit(),
        n <= m.image_defs@.len(),
    ensures
        forall|i: int|
            0 <= i < type_jobs_upto(m, n).len() ==> 0 <= (#[trigger] type_jobs_upto(m, n)[i]).0
                < m.type_defs@.len(),
    decreases n,
{
    if n > 0 {
        lemma_jobs_fit(m, (n - 1) as nat);
        let image = m.image_defs@[n - 1];
        let before = type_jobs_upto(m, (n - 1) as nat);
        let all = type_jobs_upto(m, n);
        assert forall|i: int| 0 <= i < all.len() implies 0 <= (#[trigger] all[i]).0
            < m.type_defs@.len() by {
            if i < before.len() {
                assert(all[i] == before[i]);
            } else {
                let of_image = jobs_of(
                    structures::name_or(image.name, ""@),
                    image.type_start as int,
                    image.type_count as int,
                );
                assert(all[i] == of_image[i - before.len()]);
            }
        }
    }
}

/// Each type definition that an image lists exists.
pub proof fn lemma_type_jobs_fit(m: Metadata)
    requires
        m.images_fit(),
    ensures
        forall|i: int|
            0 <= i < type_jobs(m).len() ==> 0 <= (#[trigger] type_jobs(m)[i]).0
                < m.type_defs@.len(),
{
    lemma_jobs_fit(m, m.image_defs@.len());
}

impl Metadata {
    /// The type definitions of all images in order, each with the name of its image.
    pub fn type_jobs(&self) -> (r: Vec<(usize, String)>)
        requires
            self.images_end(),
        ensures
            job_models(r@) == type_jobs(*self),
    {
        let mut out: Vec<(usize, String)> = Vec::new();
        let mut i: usize = 0;
        assert(job_models(out@) =~= Seq::<(int, Seq<char>)>::empty());
        while i < self.image_defs.len()
            invariant
                self.images_end(),
                i <= self.image_defs@.len(),
                job_models(out@) == type_jobs_upto(*self, i as nat),
            decreases self.image_defs@.len() - i,
        {
            let image = &self.image_defs[i];
            let name = structures::name_text(&image.name, "");
            let ghost before = job_models(out@);
            let mut k: usize = 0;
            assert(before + jobs_of(name@, image.type_start as int, 0) =~= before);
            while k < image.type_count
                invariant
                    image.type_start + image.type_count <= usize::MAX,
                    k <= image.type_count,
                    job_models(out@) == before + jobs_of(
                        name@,
                        image.type_start as int,
                        k as int,
                    ),
                decreases image.type_count - k,
            {
                let ghost was = out@;
                out.push((image.type_start + k, name.clone()));
                k = k + 1;
                assert(job_models(out@) =~= job_models(was).push(
                    (image.type_start + k - 1, name@),
                ));
                assert(job_models(out@) =~= before + jobs_of(
                    name@,
                    image.type_start as int,
                    k as int,
                ));
            }
            i = i + 1;
        }
        out
    }
}

} // verus!
