//! What a script says of the methods and the literals of an image.
use crate::config::Config;
use crate::executor::Il2CppExecutor;
use crate::il2cpp::base::Il2Cpp;
use crate::il2cpp::metadata;
use crate::il2cpp::metadata::Metadata;
use crate::il2cpp::structures::{Il2CppGenericContext, NameResult};
use crate::laws::texts::{flat_list, list_of};
use crate::laws::usages::distance;
use crate::names::Spelling;
use crate::output::c_types;
use crate::output::c_types::Scene;
use crate::output::name_mangler;
use crate::output::name_mangler::Source;
use crate::output::script;
use crate::output::script_json::{ScriptMethodModel, StringLiteralEntryModel};
use crate::output::signature;
use crate::output::struct_names;
use crate::output::usages::{labels, Labels};
use crate::text;
use vstd::prelude::*;
use vstd::string::*;

verus! {

// The type definitions that images list.

/// How many type definitions the images before the one with the number `n` list.
pub open spec fn listed_before(m: Metadata, n: int) -> int
    decreases n,
{
    if n <= 0 {
        0
    } else {
        listed_before(m, n - 1) + m.image_defs@[n - 1].type_count
    }
}

/// The name of an image, empty where it could not be read.
pub open spec fn image_name(name: NameResult) -> Seq<char> {
    match name {
        Ok(s) => s@,
        Err(_) => Seq::empty(),
    }
}

/// The image with the number `n` lists a `k`-th type definition.
pub open spec fn has_job(m: Metadata, n: int, k: int) -> bool {
    0 <= n < m.image_defs@.len() && 0 <= k < m.image_defs@[n].type_count
}

/// The `k`-th type definition that the image with the number `n` lists, with the name of the image.
pub open spec fn job_of(m: Metadata, n: int, k: int) -> (int, Seq<char>) {
    (m.image_defs@[n].type_start + k, image_name(m.image_defs@[n].name))
}

/// The place `j` is that of a type definition that one of the first `a` images lists.
pub open spec fn is_place(m: Metadata, a: int, j: int) -> bool {
    exists|n: int, k: int| n < a && #[trigger] has_job(m, n, k) && j == listed_before(m, n) + k
}

/// The type definitions are gone through image by image, in each from its first one on, as many as
/// it lists, each with the name of its image.
pub proof fn law_type_jobs(m: Metadata)
    ensures
        metadata::type_jobs(m).len() == listed_before(m, m.image_defs@.len() as int),
        forall|n: int, k: int| #[trigger]
            has_job(m, n, k) ==> 0 <= listed_before(m, n) + k < metadata::type_jobs(m).len()
                && metadata::type_jobs(m)[listed_before(m, n) + k] == job_of(m, n, k),
        forall|j: int|
            0 <= j < metadata::type_jobs(m).len() ==> #[trigger] is_place(
                m,
                m.image_defs@.len() as int,
                j,
            ),
{
    lemma_jobs(m, m.image_defs@.len());
}

proof fn lemma_jobs(m: Metadata, a: nat)
    requires
        a <= m.image_defs@.len(),
    ensures
        ({
            let jobs = metadata::type_jobs_upto(m, a);
            &&& jobs.len() == listed_before(m, a as int)
            &&& forall|n: int, k: int|
                n < a && #[trigger] has_job(m, n, k) ==> 0 <= listed_before(m, n) + k < jobs.len()
                    && jobs[listed_before(m, n) + k] == job_of(m, n, k)
            &&& forall|j: int|
                0 <= j < jobs.len() ==> #[trigger] is_place(m, a as int, j)
        }),
    decreases a,
{
    if a > 0 {
        let b = (a - 1) as nat;
        lemma_jobs(m, b);
        let before = metadata::type_jobs_upto(m, b);
        let jobs = metadata::type_jobs_upto(m, a);
        let image = m.image_defs@[b as int];
        reveal_strlit("");
        assert(""@ =~= Seq::<char>::empty());
        assert(crate::il2cpp::structures::name_or(image.name, ""@) == image_name(image.name));
        assert forall|n: int, k: int| n < a && #[trigger] has_job(m, n, k) implies 0
            <= listed_before(m, n) + k < jobs.len() && jobs[listed_before(m, n) + k] == job_of(
            m,
            n,
            k,
        ) by {
            if n < b {
                assert(jobs[listed_before(m, n) + k] == before[listed_before(m, n) + k]);
            }
        }
        assert forall|j: int| 0 <= j < jobs.len() implies #[trigger] is_place(
            m,
            a as int,
            j,
        ) by {
            if j >= before.len() {
                assert(has_job(m, b as int, j - before.len()));
            } else {
                assert(is_place(m, b as int, j));
                let (n, k) = choose|n: int, k: int|
                    n < b && #[trigger] has_job(m, n, k) && j == listed_before(m, n) + k;
                assert(has_job(m, n, k));
            }
        }
    }
}

// The methods.

/// What the script says of a method of the type definition `td`, under the name of its type and its
/// own, in a context, with code.
pub open spec fn method_line(
    c: Labels,
    td: int,
    i: int,
    image: Seq<char>,
    owner: Seq<char>,
    method: Seq<char>,
    ctx: Option<Il2CppGenericContext>,
    pointer: u64,
) -> ScriptMethodModel {
    let def = c.m.type_defs@[td];
    let md = c.m.method_defs@[i];
    let scene = Scene { m: c.m, il2cpp: c.il2cpp, x: c.x, names: c.names, special: Map::empty() };
    let source = Source { m: c.m, il2cpp: c.il2cpp, x: c.x, spelling: c.spelling };
    let enhanced = c.config.enhanced_ida_metadata;
    ScriptMethodModel {
        address: distance(c, pointer),
        name: if c.config.mangle_names {
            name_mangler::mangled_method(source, def, td as nat, md, ctx, false)
        } else {
            owner + "$$"@ + method
        },
        signature: signature::declaration(
            scene,
            c.spelling,
            md,
            def,
            owner + "$$"@ + method,
            ctx,
        ),
        type_signature: signature::kind_letters(signature::kinds(scene, md, def)),
        dotnet_signature: if enhanced {
            Some(owner + "::"@ + method + "()"@)
        } else {
            None
        },
        group: if enhanced {
            Some(
                text::trimmed_end_of(image, ".dll"@) + "/"@ + Seq::new(
                    owner.len(),
                    |k: int|
                        if owner[k] == '.' {
                            '/'
                        } else {
                            owner[k]
                        },
                ),
            )
        } else {
            None
        },
    }
}

/// What the script says of the method with the number `i` itself: nothing where it has no code.
pub open spec fn own_line(c: Labels, td: int, i: int, image: Seq<char>) -> Option<
    ScriptMethodModel,
> {
    let md = c.m.method_defs@[i];
    let pointer = c.il2cpp.method_pointer(image, md);
    if pointer == 0 {
        None
    } else {
        Some(
            method_line(
                c,
                td,
                i,
                image,
                c.x.type_def_names@[td]@,
                image_name(md.name),
                None,
                pointer,
            ),
        )
    }
}

/// What the script says of the `k`-th instance of the method with the number `i`: nothing where it
/// has no code.
pub open spec fn instance_line(c: Labels, td: int, i: int, image: Seq<char>, k: int) -> Option<
    ScriptMethodModel,
> {
    let spec = c.il2cpp.method_definition_method_specs@[i as usize]@[k];
    let pointers = c.il2cpp.method_spec_generic_method_pointers@;
    if pointers.contains_key(spec) && pointers[spec] != 0 {
        let names = c.x.method_spec_names@[spec as int];
        Some(
            method_line(
                c,
                td,
                i,
                image,
                names.0@,
                names.1@,
                Some(c.x.method_spec_contexts@[spec as int]),
                pointers[spec],
            ),
        )
    } else {
        None
    }
}

/// The method with the number `i` has a `k`-th instance.
pub open spec fn has_instance(c: Labels, i: int, k: int) -> bool {
    let lists = c.il2cpp.method_definition_method_specs@;
    lists.contains_key(i as usize) && 0 <= k < lists[i as usize]@.len()
}

/// The line is one of the method with the number `i`, its own or that of an instance.
#[verifier::opaque]
pub open spec fn is_line_of(c: Labels, td: int, i: int, image: Seq<char>, x: ScriptMethodModel) -> bool {
    ||| own_line(c, td, i, image) == Some(x)
    ||| exists|k: int|
        has_instance(c, i, k) && #[trigger] instance_line(c, td, i, image, k) == Some(x)
}

/// The `h`-th method of the type definition exists.
pub open spec fn has_method(c: Labels, td: int, h: int) -> bool {
    0 <= h < c.m.type_defs@[td].method_count
}

/// The line is one of a method of a type definition that an image lists.
pub open spec fn is_line(c: Labels, x: ScriptMethodModel) -> bool {
    exists|j: int, h: int|
        0 <= j < metadata::type_jobs(c.m).len() && #[trigger] has_method(
            c,
            metadata::type_jobs(c.m)[j].0,
            h,
        ) && is_line_of(
            c,
            metadata::type_jobs(c.m)[j].0,
            c.m.type_defs@[metadata::type_jobs(c.m)[j].0].method_start + h,
            metadata::type_jobs(c.m)[j].1,
            x,
        )
}

/// The lines are those of all methods with code, and no more.
pub open spec fn lists_methods(c: Labels, lines: Seq<ScriptMethodModel>) -> bool {
    forall|x: ScriptMethodModel| #[trigger] lines.contains(x) <==> is_line(c, x)
}

proof fn lemma_push<T>(p: Seq<T>, y: T, x: T)
    ensures
        p.push(y).contains(x) <==> p.contains(x) || x == y,
{
    if p.contains(x) {
        let i = choose|i: int| 0 <= i < p.len() && p[i] == x;
        assert(p.push(y)[i] == x);
    }
    if x == y {
        assert(p.push(y)[p.len() as int] == x);
    }
}

proof fn lemma_line(
    c: Labels,
    td: int,
    i: int,
    image: Seq<char>,
    owner: Seq<char>,
    method: Seq<char>,
    ctx: Option<Il2CppGenericContext>,
    pointer: u64,
)
    ensures
        script::method_entry(c, td, i, image, owner, method, ctx, pointer) == method_line(
            c,
            td,
            i,
            image,
            owner,
            method,
            ctx,
            pointer,
        ),
{
    crate::laws::addresses::law_rva(c.il2cpp, pointer);
    assert(c.il2cpp.rva(pointer) == distance(c, pointer));
    assert(text::with_char_replaced(owner, '.', '/') =~= Seq::new(
        owner.len(),
        |k: int|
            if owner[k] == '.' {
                '/'
            } else {
                owner[k]
            },
    ));
}

proof fn lemma_own(
    p: Seq<ScriptMethodModel>,
    c: Labels,
    td: int,
    i: int,
    image: Seq<char>,
    x: ScriptMethodModel,
)
    ensures
        script::with_own(p, c, td, i, image).contains(x) <==> p.contains(x) || own_line(
            c,
            td,
            i,
            image,
        ) == Some(x),
{
    let md = c.m.method_defs@[i];
    let pointer = c.il2cpp.method_pointer(image, md);
    reveal_strlit("");
    assert(""@ =~= Seq::<char>::empty());
    assert(crate::il2cpp::structures::name_or(md.name, ""@) == image_name(md.name));
    let owner = c.x.type_def_names@[td]@;
    lemma_line(c, td, i, image, owner, image_name(md.name), None, pointer);
    lemma_push(
        p,
        method_line(c, td, i, image, owner, image_name(md.name), None, pointer),
        x,
    );
}

proof fn lemma_instances(
    p: Seq<ScriptMethodModel>,
    c: Labels,
    td: int,
    i: int,
    image: Seq<char>,
    k: nat,
    x: ScriptMethodModel,
)
    requires
        k <= crate::output::method_info::specs_for(c.il2cpp, i as usize).len(),
    ensures
        script::with_specs(p, c, td, i, image, k).contains(x) <==> p.contains(x) || exists|h: int|
            0 <= h < k && #[trigger] instance_line(c, td, i, image, h) == Some(x),
    decreases k,
{
    if k > 0 {
        lemma_instances(p, c, td, i, image, (k - 1) as nat, x);
        let q = script::with_specs(p, c, td, i, image, (k - 1) as nat);
        let spec = c.il2cpp.method_definition_method_specs@[i as usize]@[k - 1];
        let pointer = crate::output::method_info::spec_pointer(c.il2cpp, spec);
        let names = c.x.method_spec_names@[spec as int];
        let ctx = Some(c.x.method_spec_contexts@[spec as int]);
        lemma_line(c, td, i, image, names.0@, names.1@, ctx, pointer);
        lemma_push(q, method_line(c, td, i, image, names.0@, names.1@, ctx, pointer), x);
        let last = instance_line(c, td, i, image, k - 1);
        if exists|h: int| 0 <= h < k && #[trigger] instance_line(c, td, i, image, h) == Some(x) {
            let h = choose|h: int|
                0 <= h < k && #[trigger] instance_line(c, td, i, image, h) == Some(x);
            assert(h < k - 1 || last == Some(x));
        }
    }
}

proof fn lemma_one_method(
    p: Seq<ScriptMethodModel>,
    c: Labels,
    td: int,
    i: int,
    image: Seq<char>,
    x: ScriptMethodModel,
)
    ensures
        script::with_specs(
            script::with_own(p, c, td, i, image),
            c,
            td,
            i,
            image,
            crate::output::method_info::specs_for(c.il2cpp, i as usize).len(),
        ).contains(x) <==> p.contains(x) || is_line_of(c, td, i, image, x),
{
    reveal(is_line_of);
    lemma_own(p, c, td, i, image, x);
    let own = script::with_own(p, c, td, i, image);
    let n = crate::output::method_info::specs_for(c.il2cpp, i as usize).len();
    lemma_instances(own, c, td, i, image, n, x);
    assert forall|h: int| has_instance(c, i, h) <==> 0 <= h < n by {}
    if exists|h: int| 0 <= h < n && #[trigger] instance_line(c, td, i, image, h) == Some(x) {
        let h = choose|h: int|
            0 <= h < n && #[trigger] instance_line(c, td, i, image, h) == Some(x);
        assert(has_instance(c, i, h));
    }
    if is_line_of(c, td, i, image, x) && own_line(c, td, i, image) != Some(x) {
        let h = choose|h: int|
            has_instance(c, i, h) && #[trigger] instance_line(c, td, i, image, h) == Some(x);
        assert(0 <= h < n);
    }
}

proof fn lemma_methods(
    p: Seq<ScriptMethodModel>,
    c: Labels,
    td: int,
    image: Seq<char>,
    k: nat,
    x: ScriptMethodModel,
)
    requires
        k <= c.m.type_defs@[td].method_count,
    ensures
        script::with_methods(p, c, td, image, k).contains(x) <==> p.contains(x) || exists|h: int|
            h < k && #[trigger] has_method(c, td, h) && is_line_of(
                c,
                td,
                c.m.type_defs@[td].method_start + h,
                image,
                x,
            ),
    decreases k,
{
    if k > 0 {
        lemma_methods(p, c, td, image, (k - 1) as nat, x);
        let q = script::with_methods(p, c, td, image, (k - 1) as nat);
        let i = c.m.type_defs@[td].method_start + k - 1;
        lemma_one_method(q, c, td, i, image, x);
        assert(has_method(c, td, k - 1));
        if exists|h: int|
            h < k && #[trigger] has_method(c, td, h) && is_line_of(
                c,
                td,
                c.m.type_defs@[td].method_start + h,
                image,
                x,
            ) {
            let h = choose|h: int|
                h < k && #[trigger] has_method(c, td, h) && is_line_of(
                    c,
                    td,
                    c.m.type_defs@[td].method_start + h,
                    image,
                    x,
                );
            assert(h < k - 1 || h == k - 1);
        }
    }
}

proof fn lemma_lines(c: Labels, n: nat, x: ScriptMethodModel)
    requires
        n <= metadata::type_jobs(c.m).len(),
    ensures
        script::methods_upto(c, n).contains(x) <==> exists|j: int, h: int|
            0 <= j < n && #[trigger] has_method(c, metadata::type_jobs(c.m)[j].0, h) && is_line_of(
                c,
                metadata::type_jobs(c.m)[j].0,
                c.m.type_defs@[metadata::type_jobs(c.m)[j].0].method_start + h,
                metadata::type_jobs(c.m)[j].1,
                x,
            ),
    decreases n,
{
    if n > 0 {
        lemma_lines(c, (n - 1) as nat, x);
        let job = metadata::type_jobs(c.m)[n - 1];
        lemma_methods(
            script::methods_upto(c, (n - 1) as nat),
            c,
            job.0,
            job.1,
            c.m.type_defs@[job.0].method_count as nat,
            x,
        );
        if exists|h: int|
            h < c.m.type_defs@[job.0].method_count && #[trigger] has_method(c, job.0, h)
                && is_line_of(c, job.0, c.m.type_defs@[job.0].method_start + h, job.1, x) {
            let h = choose|h: int|
                h < c.m.type_defs@[job.0].method_count && #[trigger] has_method(c, job.0, h)
                    && is_line_of(c, job.0, c.m.type_defs@[job.0].method_start + h, job.1, x);
            assert(has_method(c, metadata::type_jobs(c.m)[n - 1].0, h));
        }
        if exists|j: int, h: int|
            0 <= j < n && #[trigger] has_method(c, metadata::type_jobs(c.m)[j].0, h) && is_line_of(
                c,
                metadata::type_jobs(c.m)[j].0,
                c.m.type_defs@[metadata::type_jobs(c.m)[j].0].method_start + h,
                metadata::type_jobs(c.m)[j].1,
                x,
            ) {
            let (j, h) = choose|j: int, h: int|
                0 <= j < n && #[trigger] has_method(c, metadata::type_jobs(c.m)[j].0, h)
                    && is_line_of(
                    c,
                    metadata::type_jobs(c.m)[j].0,
                    c.m.type_defs@[metadata::type_jobs(c.m)[j].0].method_start + h,
                    metadata::type_jobs(c.m)[j].1,
                    x,
                );
            assert(j < n - 1 || (j == n - 1 && has_method(c, job.0, h)));
        }
    }
}

/// The script lists every method with code of every type definition that an image lists, and every
/// instance of a method with code, each under its names and with its signature and its place, and
/// nothing else.
pub proof fn law_script_methods(c: Labels)
    ensures
        lists_methods(c, script::script_methods(c)),
{
    assert forall|x: ScriptMethodModel| #[trigger]
        script::script_methods(c).contains(x) <==> is_line(c, x) by {
        lemma_lines(c, metadata::type_jobs(c.m).len(), x);
    }
}

/// The lines of a method: its own, if it has code, and those of its instances with code in order.
pub open spec fn lines_of(c: Labels, td: int, i: int, image: Seq<char>) -> Seq<ScriptMethodModel> {
    let lists = c.il2cpp.method_definition_method_specs@;
    let n = if lists.contains_key(i as usize) {
        lists[i as usize]@.len() as int
    } else {
        0
    };
    list_of(own_line(c, td, i, image)) + flat_list(
        n,
        |k: int| list_of(instance_line(c, td, i, image, k)),
    )
}

/// The lines of the methods of a type definition in order.
pub open spec fn lines_of_type(c: Labels, td: int, image: Seq<char>) -> Seq<ScriptMethodModel> {
    let first = c.m.type_defs@[td].method_start;
    flat_list(
        c.m.type_defs@[td].method_count as int,
        |h: int| lines_of(c, td, first + h, image),
    )
}

/// The script lists the methods of the type definitions in the order in which images list them,
/// those of each from its first on, and each method before its instances.
pub proof fn law_script_methods_order(c: Labels)
    ensures
        script::script_methods(c) == flat_list(
            metadata::type_jobs(c.m).len() as int,
            |j: int|
                lines_of_type(c, metadata::type_jobs(c.m)[j].0, metadata::type_jobs(c.m)[j].1),
        ),
{
    lemma_order(c, metadata::type_jobs(c.m).len());
}

proof fn lemma_order(c: Labels, n: nat)
    requires
        n <= metadata::type_jobs(c.m).len(),
    ensures
        script::methods_upto(c, n) == flat_list(
            n as int,
            |j: int|
                lines_of_type(c, metadata::type_jobs(c.m)[j].0, metadata::type_jobs(c.m)[j].1),
        ),
    decreases n,
{
    if n > 0 {
        lemma_order(c, (n - 1) as nat);
        let job = metadata::type_jobs(c.m)[n - 1];
        lemma_type_order(
            script::methods_upto(c, (n - 1) as nat),
            c,
            job.0,
            job.1,
            c.m.type_defs@[job.0].method_count as nat,
        );
    }
}

proof fn lemma_type_order(
    p: Seq<ScriptMethodModel>,
    c: Labels,
    td: int,
    image: Seq<char>,
    k: nat,
)
    requires
        k <= c.m.type_defs@[td].method_count,
    ensures
        script::with_methods(p, c, td, image, k) == p + flat_list(
            k as int,
            |h: int| lines_of(c, td, c.m.type_defs@[td].method_start + h, image),
        ),
    decreases k,
{
    let f = |h: int| lines_of(c, td, c.m.type_defs@[td].method_start + h, image);
    if k == 0 {
        assert(p + Seq::<ScriptMethodModel>::empty() =~= p);
    } else {
        lemma_type_order(p, c, td, image, (k - 1) as nat);
        let q = script::with_methods(p, c, td, image, (k - 1) as nat);
        let i = c.m.type_defs@[td].method_start + k - 1;
        lemma_method_order(q, c, td, i, image);
        assert(f(k - 1) == lines_of(c, td, i, image));
        assert(p + flat_list(k - 1, f) + f(k - 1) =~= p + (flat_list(k - 1, f) + f(k - 1)));
    }
}

proof fn lemma_method_order(
    p: Seq<ScriptMethodModel>,
    c: Labels,
    td: int,
    i: int,
    image: Seq<char>,
)
    ensures
        script::with_specs(
            script::with_own(p, c, td, i, image),
            c,
            td,
            i,
            image,
            crate::output::method_info::specs_for(c.il2cpp, i as usize).len(),
        ) == p + lines_of(c, td, i, image),
{
    let md = c.m.method_defs@[i];
    let pointer = c.il2cpp.method_pointer(image, md);
    reveal_strlit("");
    assert(""@ =~= Seq::<char>::empty());
    assert(crate::il2cpp::structures::name_or(md.name, ""@) == image_name(md.name));
    lemma_line(
        c,
        td,
        i,
        image,
        c.x.type_def_names@[td]@,
        image_name(md.name),
        None,
        pointer,
    );
    let own = script::with_own(p, c, td, i, image);
    assert(own =~= p + list_of(own_line(c, td, i, image)));
    let n = crate::output::method_info::specs_for(c.il2cpp, i as usize).len();
    lemma_instance_order(own, c, td, i, image, n);
    let rest = flat_list(n as int, |k: int| list_of(instance_line(c, td, i, image, k)));
    assert(p + list_of(own_line(c, td, i, image)) + rest =~= p + (list_of(
        own_line(c, td, i, image),
    ) + rest));
}

proof fn lemma_instance_order(
    p: Seq<ScriptMethodModel>,
    c: Labels,
    td: int,
    i: int,
    image: Seq<char>,
    k: nat,
)
    requires
        k <= crate::output::method_info::specs_for(c.il2cpp, i as usize).len(),
    ensures
        script::with_specs(p, c, td, i, image, k) == p + flat_list(
            k as int,
            |h: int| list_of(instance_line(c, td, i, image, h)),
        ),
    decreases k,
{
    let f = |h: int| list_of(instance_line(c, td, i, image, h));
    if k == 0 {
        assert(p + Seq::<ScriptMethodModel>::empty() =~= p);
    } else {
        lemma_instance_order(p, c, td, i, image, (k - 1) as nat);
        let spec = c.il2cpp.method_definition_method_specs@[i as usize]@[k - 1];
        let pointer = crate::output::method_info::spec_pointer(c.il2cpp, spec);
        let names = c.x.method_spec_names@[spec as int];
        let ctx = Some(c.x.method_spec_contexts@[spec as int]);
        lemma_line(c, td, i, image, names.0@, names.1@, ctx, pointer);
        assert(f(k - 1) == list_of(instance_line(c, td, i, image, k - 1)));
        assert(script::with_specs(p, c, td, i, image, k) =~= p + (flat_list(k - 1, f) + f(k - 1)));
    }
}

// The literals.

/// The list of literals holds those that could be read, in order, each with its number.
pub proof fn law_literals(m: Metadata, n: nat)
    requires
        n <= m.string_literals@.len() <= usize::MAX,
    ensures
        ({
            let list = script::literals_upto(m, n);
            &&& forall|i: int|
                0 <= i < n && #[trigger] m.string_literals@[i] is Ok ==> list.contains(
                    StringLiteralEntryModel {
                        index: i as usize,
                        value: m.string_literals@[i]->Ok_0@,
                    },
                )
            &&& forall|k: int|
                0 <= k < list.len() ==> (#[trigger] list[k]).index < n
                    && m.string_literals@[list[k].index as int] is Ok && list[k].value
                    == m.string_literals@[list[k].index as int]->Ok_0@
            &&& forall|k: int, l: int|
                0 <= k < l < list.len() ==> (#[trigger] list[k]).index < (
                #[trigger] list[l]).index
        }),
    decreases n,
{
    if n > 0 {
        law_literals(m, (n - 1) as nat);
        let p = script::literals_upto(m, (n - 1) as nat);
        let list = script::literals_upto(m, n);
        assert forall|i: int| 0 <= i < n && #[trigger] m.string_literals@[i] is Ok implies list.contains(
            StringLiteralEntryModel { index: i as usize, value: m.string_literals@[i]->Ok_0@ },
        ) by {
            let e = StringLiteralEntryModel {
                index: i as usize,
                value: m.string_literals@[i]->Ok_0@,
            };
            if i < n - 1 {
                assert(p.contains(e));
                let k = choose|k: int| 0 <= k < p.len() && p[k] == e;
                assert(list[k] == e);
            } else {
                assert(list[p.len() as int] == e);
            }
        }
    }
}

// What an image is named with.

/// The script of an image is made with its metadata, its tables, the names of its structures and
/// the images of its type definitions, as it is configured and spelled.
pub proof fn law_image_labels(
    x: Il2CppExecutor,
    m: Metadata,
    il2cpp: Il2Cpp,
    config: Config,
    spelling: Spelling,
    names: Map<usize, String>,
    images: Map<usize, String>,
)
    ensures
        ({
            let c = script::image_labels(x, m, il2cpp, config, spelling);
            &&& c.m == m && c.il2cpp == il2cpp && c.x == x && c.config == config && c.spelling
                == spelling
            &&& c.names == struct_names::struct_names(x, m, spelling)
            &&& c.images == struct_names::image_names(m)
        }),
        ({
            let c = labels(x, m, il2cpp, names, images, config, spelling);
            &&& c.m == m && c.il2cpp == il2cpp && c.x == x && c.config == config && c.spelling
                == spelling
            &&& forall|k: usize| #[trigger]
                c.names.contains_key(k) <==> names.contains_key(k)
            &&& forall|k: usize| #[trigger]
                c.images.contains_key(k) <==> images.contains_key(k)
            &&& forall|k: usize| #[trigger] c.names.contains_key(k) ==> c.names[k] == names[k]@
            &&& forall|k: usize| #[trigger] c.images.contains_key(k) ==> c.images[k] == images[k]@
        }),
        ({
            let s = c_types::scene(x, m, il2cpp, names);
            &&& s.m == m && s.il2cpp == il2cpp && s.x == x
            &&& forall|k: usize| #[trigger]
                s.names.contains_key(k) <==> names.contains_key(k)
            &&& forall|k: usize| #[trigger] s.names.contains_key(k) ==> s.names[k] == names[k]@
            &&& forall|k: u64| !(#[trigger] s.special.contains_key(k))
        }),
{
}

/// The addresses of a script stand in increasing order, and are those of its methods and of the
/// code that tables point to, but for 0.
pub proof fn law_script_addresses(c: Labels, addresses: Seq<u64>, a: u64)
    requires
        script::are_addresses(c, addresses),
    ensures
        forall|i: int, j: int| 0 <= i < j < addresses.len() ==> addresses[i] < addresses[j],
        addresses.contains(a) <==> a != 0 && (script::table_address(c.il2cpp, c.x, a) || exists|
            k: int,
        |
            0 <= k < script::script_methods(c).len() && (
            #[trigger] script::script_methods(c)[k]).address == a),
{
    assert(addresses.contains(a) <==> a > 0 && (script::entry_address(
        script::script_methods(c),
        a,
    ) || script::table_address(c.il2cpp, c.x, a)));
}

} // verus!
