//! The names of structures: one for each type definition, no two alike.
use crate::executor::Il2CppExecutor;
use crate::il2cpp::metadata;
use crate::il2cpp::metadata::Metadata;
use crate::il2cpp::structures;
use crate::names::{NameSet, NameStyle, Sanitizer, Spelling};
use crate::numeral;
use crate::output::c_types;
use std::collections::HashMap;
use vstd::prelude::*;
use vstd::string::*;

verus! {

// Unique names.

/// The name with a number behind it.
pub open spec fn numbered(name: Seq<char>, k: nat) -> Seq<char> {
    name + "_"@ + numeral::dec(k)
}

/// The number `k` is the least from 1 on that makes the name a new one.
pub open spec fn is_first_free(name: Seq<char>, used: Set<Seq<char>>, k: nat) -> bool {
    &&& k >= 1
    &&& !used.contains(numbered(name, k))
    &&& forall|j: nat| 1 <= j < k ==> used.contains(#[trigger] numbered(name, j))
}

/// The name itself, or with the least number behind it that makes it a new one.
pub open spec fn unique_name(name: Seq<char>, used: Set<Seq<char>>) -> Seq<char> {
    if !used.contains(name) {
        name
    } else {
        numbered(name, choose|k: nat| is_first_free(name, used, k))
    }
}

/// The name, alone and with the numbers up to `k` behind it.
spec fn variants(name: Seq<char>, k: nat) -> Set<Seq<char>>
    decreases k,
{
    if k == 0 {
        set![name]
    } else {
        variants(name, (k - 1) as nat).insert(numbered(name, k))
    }
}

proof fn lemma_numbered_differ(name: Seq<char>, a: nat, b: nat)
    ensures
        numbered(name, a) == numbered(name, b) ==> a == b,
        numbered(name, a) != name,
{
    reveal_strlit("_");
    assert(numbered(name, a).len() > name.len());
    if numbered(name, a) == numbered(name, b) {
        let head = name + "_"@;
        assert(numbered(name, a).skip(head.len() as int) =~= numeral::dec(a));
        assert(numbered(name, b).skip(head.len() as int) =~= numeral::dec(b));
        numeral::lemma_numeral_injective(a, b, 10, true);
    }
}

proof fn lemma_variants(name: Seq<char>, k: nat)
    ensures
        variants(name, k).finite(),
        variants(name, k).len() == k + 1,
        forall|s: Seq<char>| #[trigger]
            variants(name, k).contains(s) ==> s == name || exists|j: nat|
                1 <= j <= k && s == numbered(name, j),
    decreases k,
{
    if k > 0 {
        lemma_variants(name, (k - 1) as nat);
        assert(!variants(name, (k - 1) as nat).contains(numbered(name, k))) by {
            lemma_numbered_differ(name, k, k);
            if exists|j: nat| 1 <= j <= k - 1 && numbered(name, k) == numbered(name, j) {
                let j = choose|j: nat| 1 <= j <= k - 1 && numbered(name, k) == numbered(name, j);
                lemma_numbered_differ(name, k, j);
            }
        }
    }
}

proof fn lemma_taken_are_few(name: Seq<char>, used: Set<Seq<char>>, k: nat)
    requires
        used.finite(),
        used.contains(name),
        forall|j: nat| 1 <= j <= k ==> used.contains(#[trigger] numbered(name, j)),
    ensures
        k + 1 <= used.len(),
{
    lemma_variants(name, k);
    assert(variants(name, k).subset_of(used));
    vstd::set_lib::lemma_len_subset(variants(name, k), used);
}

proof fn lemma_first_free_unique(name: Seq<char>, used: Set<Seq<char>>, a: nat, b: nat)
    requires
        is_first_free(name, used, a),
        is_first_free(name, used, b),
    ensures
        a == b,
{
    if a < b {
        assert(used.contains(numbered(name, a)));
    }
    if b < a {
        assert(used.contains(numbered(name, b)));
    }
}

/// Among finitely many used names there is always a first free number, and the unique name is a
/// new one.
pub proof fn law_unique_name_is_new(name: Seq<char>, used: Set<Seq<char>>)
    requires
        used.finite(),
    ensures
        !used.contains(unique_name(name, used)),
{
    if used.contains(name) {
        lemma_first_free_exists(name, used, used.len());
    }
}

proof fn lemma_first_free_exists(name: Seq<char>, used: Set<Seq<char>>, bound: nat)
    requires
        used.finite(),
        used.contains(name),
        bound >= used.len(),
    ensures
        exists|k: nat| is_first_free(name, used, k),
{
    lemma_free_within(name, used, bound);
}

proof fn lemma_free_within(name: Seq<char>, used: Set<Seq<char>>, k: nat)
    requires
        used.finite(),
        used.contains(name),
    ensures
        (forall|j: nat| 1 <= j <= k ==> used.contains(#[trigger] numbered(name, j))) || exists|j: nat|
            is_first_free(name, used, j),
        k >= used.len() ==> exists|j: nat| is_first_free(name, used, j),
    decreases k,
{
    if k > 0 {
        lemma_free_within(name, used, (k - 1) as nat);
        if forall|j: nat| 1 <= j <= k - 1 ==> used.contains(#[trigger] numbered(name, j)) {
            if !used.contains(numbered(name, k)) {
                assert(is_first_free(name, used, k));
            }
        }
    }
    if k >= used.len() {
        if forall|j: nat| 1 <= j <= k ==> used.contains(#[trigger] numbered(name, j)) {
            lemma_taken_are_few(name, used, k);
        }
    }
}

/// Makes a name unique among the used ones, and counts it among them.
pub fn get_unique_name(name: &str, set: &mut NameSet) -> (r: String)
    ensures
        r@ == unique_name(name@, old(set)@),
        final(set)@ == old(set)@.insert(r@),
        !old(set)@.contains(r@),
{
    let ghost used = set@;
    if !set.contains(name) {
        set.insert(name.to_owned());
        return name.to_owned();
    }
    let bound: usize = set.bound();
    let mut i: u64 = 1;
    loop
        invariant
            set@ == used,
            used == old(set)@,
            used.finite(),
            used.len() == bound,
            used.contains(name@),
            i >= 1,
            forall|j: nat| 1 <= j < i ==> used.contains(#[trigger] numbered(name@, j)),
        decreases bound + 1 - i,
    {
        let fix = name.to_owned().concat("_").concat(numeral::dec_string(i).as_str());
        if !set.contains(fix.as_str()) {
            proof {
                assert(is_first_free(name@, used, i as nat));
                let k = choose|k: nat| is_first_free(name@, used, k);
                lemma_first_free_unique(name@, used, i as nat, k);
            }
            set.insert(fix.clone());
            return fix;
        }
        proof {
            lemma_taken_are_few(name@, used, i as nat);
        }
        i = i + 1;
    }
}

// The structure of each type definition.

/// The structures of the first `n` listed type definitions, and the names used for them.
pub open spec fn names_upto(x: Il2CppExecutor, m: Metadata, spelling: Spelling, n: nat) -> (
    Map<usize, Seq<char>>,
    Set<Seq<char>>,
)
    decreases n,
{
    if n == 0 {
        (Map::empty(), Set::empty())
    } else {
        let p = names_upto(x, m, spelling, (n - 1) as nat);
        let td = metadata::type_jobs(m)[n - 1].0;
        let name = unique_name(spelling(x.type_def_names@[td]@, NameStyle::Cpp), p.1);
        (p.0.insert(td as usize, name), p.1.insert(name))
    }
}

/// The structure of each listed type definition.
pub open spec fn struct_names(x: Il2CppExecutor, m: Metadata, spelling: Spelling) -> Map<
    usize,
    Seq<char>,
> {
    names_upto(x, m, spelling, metadata::type_jobs(m).len()).0
}

proof fn lemma_names_upto(x: Il2CppExecutor, m: Metadata, spelling: Spelling, n: nat)
    ensures
        ({
            let p = names_upto(x, m, spelling, n);
            &&& p.1.finite()
            &&& forall|a: usize| #[trigger] p.0.contains_key(a) ==> p.1.contains(p.0[a])
            &&& forall|a: usize, b: usize|
                #![trigger p.0.contains_key(a), p.0.contains_key(b)]
                p.0.contains_key(a) && p.0.contains_key(b) && a != b ==> p.0[a] != p.0[b]
        }),
    decreases n,
{
    if n > 0 {
        lemma_names_upto(x, m, spelling, (n - 1) as nat);
        let p = names_upto(x, m, spelling, (n - 1) as nat);
        let td = metadata::type_jobs(m)[n - 1].0;
        law_unique_name_is_new(spelling(x.type_def_names@[td]@, NameStyle::Cpp), p.1);
    }
}

/// No two type definitions have structures of the same name.
pub proof fn law_struct_names_distinct(
    x: Il2CppExecutor,
    m: Metadata,
    spelling: Spelling,
    a: usize,
    b: usize,
)
    requires
        struct_names(x, m, spelling).contains_key(a),
        struct_names(x, m, spelling).contains_key(b),
        a != b,
    ensures
        struct_names(x, m, spelling)[a] != struct_names(x, m, spelling)[b],
{
    lemma_names_upto(x, m, spelling, metadata::type_jobs(m).len());
}

proof fn lemma_names_domain(x: Il2CppExecutor, m: Metadata, spelling: Spelling, n: nat)
    requires
        m.images_fit(),
        n <= metadata::type_jobs(m).len(),
        m.type_defs@.len() <= usize::MAX,
    ensures
        forall|k: usize| #[trigger]
            names_upto(x, m, spelling, n).0.contains_key(k) <==> exists|i: int|
                0 <= i < n && (#[trigger] metadata::type_jobs(m)[i]).0 == k,
        forall|k: usize| #[trigger]
            names_upto(x, m, spelling, n).0.contains_key(k) ==> k < m.type_defs@.len(),
    decreases n,
{
    if n > 0 {
        lemma_names_domain(x, m, spelling, (n - 1) as nat);
        metadata::lemma_type_jobs_fit(m);
        let before = names_upto(x, m, spelling, (n - 1) as nat).0;
        let after = names_upto(x, m, spelling, n).0;
        let td = metadata::type_jobs(m)[n - 1].0;
        assert forall|k: usize| #[trigger] after.contains_key(k) <==> exists|i: int|
            0 <= i < n && (#[trigger] metadata::type_jobs(m)[i]).0 == k by {
            if k == td {
                assert(metadata::type_jobs(m)[n - 1].0 == k);
            } else {
                assert(after.contains_key(k) == before.contains_key(k));
                if exists|i: int| 0 <= i < n && (#[trigger] metadata::type_jobs(m)[i]).0 == k {
                    let i = choose|i: int|
                        0 <= i < n && (#[trigger] metadata::type_jobs(m)[i]).0 == k;
                    assert(i < n - 1);
                }
            }
        }
    }
}

/// Just the type definitions that an image lists have structures.
pub proof fn law_struct_names_domain(x: Il2CppExecutor, m: Metadata, spelling: Spelling)
    requires
        m.images_fit(),
        m.type_defs@.len() <= usize::MAX,
    ensures
        forall|k: usize| #[trigger]
            struct_names(x, m, spelling).contains_key(k) <==> exists|i: int|
                0 <= i < metadata::type_jobs(m).len() && (#[trigger] metadata::type_jobs(m)[i]).0
                    == k,
        forall|k: usize| #[trigger]
            struct_names(x, m, spelling).contains_key(k) ==> k < m.type_defs@.len(),
{
    lemma_names_domain(x, m, spelling, metadata::type_jobs(m).len());
}

/// The structure of each listed type definition.
pub fn build_struct_name_dic<F: Fn(&str, NameStyle) -> String>(
    executor: &Il2CppExecutor,
    metadata: &Metadata,
    names: &Sanitizer<F>,
) -> (r: HashMap<usize, String>)
    requires
        metadata.images_fit(),
        executor.type_def_names@.len() == metadata.type_defs@.len(),
    ensures
        c_types::name_texts(r@) == struct_names(*executor, *metadata, names.spelling()),
{
    proof {
        metadata::lemma_images_end(*metadata);
    }
    let jobs = metadata.type_jobs();
    let mut dic: HashMap<usize, String> = HashMap::new();
    let mut used = NameSet::new();
    let mut i: usize = 0;
    let ghost all = metadata::type_jobs(*metadata);
    proof {
        metadata::lemma_type_jobs_fit(*metadata);
        assert(jobs@.len() == metadata::job_models(jobs@).len());
        assert(c_types::name_texts(dic@) =~= Map::<usize, Seq<char>>::empty());
    }
    while i < jobs.len()
        invariant
            executor.type_def_names@.len() == metadata.type_defs@.len(),
            all == metadata::type_jobs(*metadata),
            metadata::job_models(jobs@) == all,
            jobs@.len() == all.len(),
            i <= jobs@.len(),
            forall|k: int|
                0 <= k < all.len() ==> 0 <= (#[trigger] all[k]).0 < metadata.type_defs@.len(),
            (c_types::name_texts(dic@), used@) == names_upto(
                *executor,
                *metadata,
                names.spelling(),
                i as nat,
            ),
        decreases jobs@.len() - i,
    {
        let td: usize = jobs[i].0;
        assert(metadata::job_models(jobs@)[i as int].0 == td);
        assert(all[i as int].0 == td);
        let name = names.fix_name(executor.type_def_names[td].as_str());
        let unique = get_unique_name(name.as_str(), &mut used);
        let ghost was = dic@;
        dic.insert(td, unique);
        assert(c_types::name_texts(dic@) =~= c_types::name_texts(was).insert(td, unique@));
        i = i + 1;
    }
    dic
}

// The image of each type definition.

/// The image in place `i` lists the type definition `k`.
pub open spec fn lists_type(m: Metadata, i: int, k: usize) -> bool {
    m.image_defs@[i].type_start <= k < m.image_defs@[i].type_start + m.image_defs@[i].type_count
}

/// `names` with the name `image` for the `count` type definitions from `start` on.
pub open spec fn with_image(
    names: Map<usize, Seq<char>>,
    image: Seq<char>,
    start: usize,
    count: usize,
) -> Map<usize, Seq<char>> {
    Map::new(
        |k: usize| start <= k < start + count || names.contains_key(k),
        |k: usize|
            if start <= k < start + count {
                image
            } else {
                names[k]
            },
    )
}

/// The image names of the type definitions that the first `n` images list.
pub open spec fn images_upto(m: Metadata, n: nat) -> Map<usize, Seq<char>>
    decreases n,
{
    if n == 0 {
        Map::empty()
    } else {
        let image = m.image_defs@[n - 1];
        with_image(
            images_upto(m, (n - 1) as nat),
            structures::name_or(image.name, ""@),
            image.type_start,
            image.type_count,
        )
    }
}

/// The image name of each listed type definition; the last image that lists it counts.
pub open spec fn image_names(m: Metadata) -> Map<usize, Seq<char>> {
    images_upto(m, m.image_defs@.len())
}

proof fn lemma_images_upto(m: Metadata, n: nat)
    ensures
        forall|k: usize| #[trigger]
            images_upto(m, n).contains_key(k) <==> exists|i: int|
                0 <= i < n && #[trigger] lists_type(m, i, k),
        forall|i: int, k: usize|
            0 <= i < n && #[trigger] lists_type(m, i, k) && (forall|j: int|
                i < j < n ==> !#[trigger] lists_type(m, j, k)) ==> images_upto(m, n)[k]
                == structures::name_or(m.image_defs@[i].name, ""@),
    decreases n,
{
    if n > 0 {
        lemma_images_upto(m, (n - 1) as nat);
        let past = images_upto(m, (n - 1) as nat);
        let now = images_upto(m, n);
        assert forall|k: usize| #[trigger] now.contains_key(k) <==> exists|i: int|
            0 <= i < n && #[trigger] lists_type(m, i, k) by {
            if now.contains_key(k) && !lists_type(m, n - 1, k) {
                assert(past.contains_key(k));
                let i = choose|i: int| 0 <= i < n - 1 && #[trigger] lists_type(m, i, k);
                assert(lists_type(m, i, k));
            }
            if exists|i: int| 0 <= i < n && #[trigger] lists_type(m, i, k) {
                let i = choose|i: int| 0 <= i < n && #[trigger] lists_type(m, i, k);
                if i < n - 1 {
                    assert(past.contains_key(k));
                }
            }
        }
        assert forall|i: int, k: usize|
            0 <= i < n && #[trigger] lists_type(m, i, k) && (forall|j: int|
                i < j < n ==> !#[trigger] lists_type(m, j, k)) implies now[k]
            == structures::name_or(m.image_defs@[i].name, ""@) by {
            assert(now.contains_key(k));
            if i < n - 1 {
                assert(!lists_type(m, n - 1, k));
                assert(past.contains_key(k));
                assert(now[k] == past[k]);
            }
        }
    }
}

/// Just the type definitions that an image lists have an image name, which is that of the last
/// image that lists them; it is empty where it cannot be read.
pub proof fn law_image_names(m: Metadata)
    ensures
        forall|k: usize| #[trigger]
            image_names(m).contains_key(k) <==> exists|i: int|
                0 <= i < m.image_defs@.len() && #[trigger] lists_type(m, i, k),
        forall|i: int, k: usize|
            0 <= i < m.image_defs@.len() && #[trigger] lists_type(m, i, k) && (forall|j: int|
                i < j < m.image_defs@.len() ==> !#[trigger] lists_type(m, j, k)) ==> image_names(
                m,
            )[k] == structures::name_or(m.image_defs@[i].name, ""@),
{
    lemma_images_upto(m, m.image_defs@.len());
}

/// The image name of each listed type definition.
pub fn build_type_def_image_names(metadata: &Metadata) -> (r: HashMap<usize, String>)
    requires
        metadata.images_end(),
    ensures
        c_types::name_texts(r@) == image_names(*metadata),
{
    let mut dic: HashMap<usize, String> = HashMap::new();
    let mut i: usize = 0;
    assert(c_types::name_texts(dic@) =~= Map::<usize, Seq<char>>::empty());
    while i < metadata.image_defs.len()
        invariant
            metadata.images_end(),
            i <= metadata.image_defs@.len(),
            c_types::name_texts(dic@) == images_upto(*metadata, i as nat),
        decreases metadata.image_defs@.len() - i,
    {
        let image = &metadata.image_defs[i];
        let name = structures::name_text(&image.name, "");
        let ghost before = c_types::name_texts(dic@);
        let mut k: usize = 0;
        assert(with_image(before, name@, image.type_start, 0) =~= before);
        while k < image.type_count
            invariant
                image.type_start + image.type_count <= usize::MAX,
                k <= image.type_count,
                c_types::name_texts(dic@) == with_image(before, name@, image.type_start, k),
            decreases image.type_count - k,
        {
            let ghost was = dic@;
            dic.insert(image.type_start + k, name.clone());
            k = k + 1;
            assert(c_types::name_texts(dic@) =~= c_types::name_texts(was).insert(
                (image.type_start + k - 1) as usize,
                name@,
            ));
            assert(c_types::name_texts(dic@) =~= with_image(before, name@, image.type_start, k));
        }
        i = i + 1;
    }
    dic
}

} // verus!
