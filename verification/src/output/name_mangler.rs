//! Mangled names of methods and types.
use crate::executor::Il2CppExecutor;
use crate::il2cpp::base::Il2Cpp;
use crate::il2cpp::enums::Il2CppTypeEnum;
use crate::il2cpp::metadata::Metadata;
use crate::il2cpp::structures;
use crate::il2cpp::structures::{
    Il2CppGenericContext, Il2CppGenericInst, Il2CppMethodDefinition, Il2CppType,
    Il2CppTypeDefinition,
};
use crate::names::{NameMap, NameStyle, Sanitizer, Spelling};
use crate::numeral;
use crate::output::c_types;
use crate::output::c_types::Scene;
use crate::text;
use vstd::prelude::*;
use vstd::string::*;

verus! {

/// What names are mangled from.
pub struct Source {
    pub m: Metadata,
    pub il2cpp: Il2Cpp,
    pub x: Il2CppExecutor,
    pub spelling: Spelling,
}

/// A mangled name as far as it is written: its text, the numbers of the parts that can be referred
/// to, and the number of the next part.
pub struct Mangled {
    pub text: Seq<char>,
    pub subs: Map<Seq<char>, usize>,
    pub next: nat,
}

// The parts of a name.

/// The name with more text.
pub open spec fn put(b: Mangled, s: Seq<char>) -> Mangled {
    Mangled { text: b.text + s, ..b }
}

/// The name after a part that is not referred to.
pub open spec fn skipped(b: Mangled) -> Mangled {
    Mangled { next: b.next + 1, ..b }
}

/// The name after a part that `key` refers to.
pub open spec fn registered(b: Mangled, key: Seq<char>) -> Mangled {
    Mangled { subs: b.subs.insert(key, b.next as usize), next: b.next + 1, ..b }
}

/// The reference to the part with the number `i`.
pub open spec fn substitution(i: usize) -> Seq<char> {
    if i == 0 {
        "S_"@
    } else {
        "S"@ + numeral::numeral((i - 1) as nat, 36, true) + "_"@
    }
}

/// The name with the reference to the part of a key, if the key has been registered, and whether
/// it has.
pub open spec fn referred(b: Mangled, key: Seq<char>) -> (bool, Mangled) {
    if b.subs.contains_key(key) {
        (true, put(b, substitution(b.subs[key])))
    } else {
        (false, b)
    }
}

/// A key that has not been registered adds nothing. One that has adds its reference and changes
/// neither the keys nor the number of the next part. The reference to the first part is `S_`; that
/// to another one holds the number of the part before it in base 36, with digits and upper-case
/// letters, the most significant first and without a leading zero.
pub proof fn law_reference(b: Mangled, key: Seq<char>)
    ensures
        !b.subs.contains_key(key) ==> referred(b, key) == (false, b),
        b.subs.contains_key(key) ==> {
            let (found, d) = referred(b, key);
            let i = b.subs[key];
            &&& found
            &&& d.subs == b.subs && d.next == b.next
            &&& i == 0 ==> d.text == b.text + "S_"@
            &&& i > 0 ==> {
                let digits = numeral::numeral((i - 1) as nat, 36, true);
                &&& d.text == b.text + "S"@ + digits + "_"@
                &&& numeral::value(digits, 36) == i - 1
                &&& digits.len() > 0
                &&& digits[0] == '0' <==> i == 1
                &&& forall|k: int|
                    0 <= k < digits.len() ==> numeral::is_digit(#[trigger] digits[k], 36, true)
            }
        },
{
    if b.subs.contains_key(key) && b.subs[key] > 0 {
        let digits = numeral::numeral((b.subs[key] - 1) as nat, 36, true);
        numeral::law_numeral((b.subs[key] - 1) as nat, 36, true);
        assert(b.text + ("S"@ + digits + "_"@) =~= b.text + "S"@ + digits + "_"@);
    }
}

/// References to different parts are different.
pub proof fn law_references_apart(i: usize, j: usize)
    requires
        i != j,
    ensures
        substitution(i) != substitution(j),
{
    reveal_strlit("S_");
    reveal_strlit("S");
    reveal_strlit("_");
    let a = substitution(i);
    let b = substitution(j);
    if i > 0 {
        numeral::law_numeral((i - 1) as nat, 36, true);
        assert(a.subrange(1, a.len() - 1) =~= numeral::numeral((i - 1) as nat, 36, true));
    }
    if j > 0 {
        numeral::law_numeral((j - 1) as nat, 36, true);
        assert(b.subrange(1, b.len() - 1) =~= numeral::numeral((j - 1) as nat, 36, true));
    }
}

/// An identifier behind the number of its bytes.
pub open spec fn identifier(c: Source, id: Seq<char>) -> Seq<char> {
    let spelled = (c.spelling)(id, NameStyle::Mangled);
    numeral::dec(vstd::utf8::encode_utf8(spelled).len()) + spelled
}

/// The name with an identifier that is not referred to.
pub open spec fn with_part(c: Source, b: Mangled, id: Seq<char>) -> Mangled {
    skipped(put(b, identifier(c, id)))
}

/// The name with the first `k` of some identifiers that are not empty.
pub open spec fn with_parts(c: Source, b: Mangled, ids: Seq<Seq<char>>, k: nat) -> Mangled
    decreases k,
{
    if k == 0 {
        b
    } else {
        let p = with_parts(c, b, ids, (k - 1) as nat);
        if ids[k - 1].len() == 0 {
            p
        } else {
            with_part(c, p, ids[k - 1])
        }
    }
}

/// The name with the parts of a namespace.
pub open spec fn with_namespace(c: Source, b: Mangled, namespace: Seq<char>) -> Mangled {
    let ids = text::split(namespace, '.');
    with_parts(c, b, ids, ids.len())
}

/// A name without the number of its generic parameters.
pub open spec fn base_name(name: structures::NameResult) -> Seq<char> {
    text::before(structures::name_or(name, ""@), '`')
}

/// The name of the type that a type is declared in.
pub open spec fn declaring_name(c: Source, def: Il2CppTypeDefinition) -> Option<Seq<char>> {
    let i = def.declaring_type_index as int;
    if 0 <= i < c.il2cpp.types@.len() {
        let t = c.il2cpp.types@[i];
        let is_definition = t.element() == Some(Il2CppTypeEnum::ValueType) || t.element() == Some(
            Il2CppTypeEnum::Class,
        );
        if is_definition && t.klass_index < c.m.type_defs@.len() {
            Some(base_name(c.m.type_defs@[t.klass_index as int].name))
        } else {
            Some(c.x.short_type_names@[i]@)
        }
    } else {
        None
    }
}

/// The name with that of a type definition: its namespace, the type that it is declared in, and
/// its own name.
pub open spec fn with_type_name(c: Source, b: Mangled, def: Il2CppTypeDefinition) -> Mangled {
    let p = with_namespace(c, b, structures::name_or(def.namespace, ""@));
    let q = match declaring_name(c, def) {
        Some(name) => with_part(c, p, name),
        None => p,
    };
    put(q, identifier(c, base_name(def.name)))
}

/// The key of a type definition.
pub open spec fn type_key(def: Il2CppTypeDefinition, i: nat) -> Seq<char> {
    "td#"@ + numeral::dec(i) + "::"@ + numeral::dec_int(def.namespace_index as int) + "::"@
        + numeral::dec_int(def.name_index as int)
}

/// The name with a type definition.
pub open spec fn with_definition(c: Source, b: Mangled, td: int) -> Mangled {
    let def = c.m.type_defs@[td];
    let key = type_key(def, td as nat);
    if b.subs.contains_key(key) {
        put(b, substitution(b.subs[key]))
    } else {
        registered(put(with_type_name(c, put(b, "N"@), def), "E"@), key)
    }
}

/// The name with a type of the system.
pub open spec fn with_system_type(c: Source, b: Mangled, namespace: Seq<char>, name: Seq<char>) -> Mangled {
    let key = "sys::"@ + namespace + "::"@ + name;
    if b.subs.contains_key(key) {
        put(b, substitution(b.subs[key]))
    } else {
        registered(
            put(
                put(with_namespace(c, put(b, "N"@), namespace), identifier(c, name)),
                "E"@,
            ),
            key,
        )
    }
}

/// The letters of a type that has some.
pub open spec fn letters(e: Option<Il2CppTypeEnum>) -> Option<Seq<char>> {
    match e {
        Some(Il2CppTypeEnum::Boolean) => Some("b"@),
        Some(Il2CppTypeEnum::Char) => Some("w"@),
        Some(Il2CppTypeEnum::I1) => Some("a"@),
        Some(Il2CppTypeEnum::U1) => Some("h"@),
        Some(Il2CppTypeEnum::I2) => Some("s"@),
        Some(Il2CppTypeEnum::U2) => Some("t"@),
        Some(Il2CppTypeEnum::I4) => Some("i"@),
        Some(Il2CppTypeEnum::U4) => Some("j"@),
        Some(Il2CppTypeEnum::I8) => Some("l"@),
        Some(Il2CppTypeEnum::U8) => Some("m"@),
        Some(Il2CppTypeEnum::R4) => Some("f"@),
        Some(Il2CppTypeEnum::R8) => Some("d"@),
        Some(Il2CppTypeEnum::I) | Some(Il2CppTypeEnum::U) => Some("Pv"@),
        _ => None,
    }
}

// Types.

/// The scene in which generic classes are looked up.
pub open spec fn scene_for(c: Source) -> Scene {
    Scene { m: c.m, il2cpp: c.il2cpp, x: c.x, names: Map::empty(), special: Map::empty() }
}

/// The addresses of the arguments of a generic instance; none where they cannot be read.
pub open spec fn arguments(il2cpp: Il2Cpp, inst: Il2CppGenericInst) -> Seq<u64> {
    match il2cpp.pointers_at(inst.type_argv, inst.type_argc) {
        Ok(v) => v,
        Err(_) => Seq::empty(),
    }
}

/// The type definition of a generic type, and the address of its arguments.
pub open spec fn instance_of(c: Source, t: Il2CppType) -> Option<(int, u64)> {
    match c_types::class_def(scene_for(c), t.generic_class) {
        Some(td) => Some(
            (td, c.il2cpp.generic_class_at(t.generic_class)->Ok_0.context.class_inst),
        ),
        None => None,
    }
}

/// The key of a generic type.
pub open spec fn instance_key(td: nat, inst_addr: u64) -> Seq<char> {
    "td#"@ + numeral::dec(td) + "::gi_ctx@0x"@ + numeral::hex_lower(inst_addr as nat)
}

/// A type consists of at most `n` layers of pointers, arrays and arguments.
pub open spec fn type_ends(c: Source, t: Il2CppType, n: nat) -> bool
    decreases n,
{
    match t.element() {
        Some(Il2CppTypeEnum::Ptr) | Some(Il2CppTypeEnum::SzArray) | Some(
            Il2CppTypeEnum::Array,
        ) => match c_types::inner_type(c.il2cpp, t) {
            Some(inner) => n > 0 && type_ends(c, inner, (n - 1) as nat),
            None => true,
        },
        Some(Il2CppTypeEnum::GenericInst) => match instance_of(c, t) {
            Some((_, addr)) => match c.il2cpp.generic_inst_at(addr) {
                Ok(inst) => n > 0 && forall|k: int|
                    0 <= k < arguments(c.il2cpp, inst).len() ==> (
                    c.il2cpp.type_at(#[trigger] arguments(c.il2cpp, inst)[k]) matches Some(u)
                        ==> type_ends(c, u, (n - 1) as nat)),
                Err(_) => true,
            },
            None => true,
        },
        _ => true,
    }
}

/// The name with a type of at most `n` layers.
pub open spec fn with_type_within(c: Source, b: Mangled, t: Il2CppType, n: nat) -> Mangled
    decreases n, 0nat,
{
    let e = t.element();
    let p = if t.byref == 1 {
        put(b, "R"@)
    } else {
        b
    };
    if e == Some(Il2CppTypeEnum::Void) {
        put(b, "v"@)
    } else if e == Some(Il2CppTypeEnum::Ptr) || e == Some(Il2CppTypeEnum::SzArray) || e == Some(
        Il2CppTypeEnum::Array,
    ) {
        let q = put(
            p,
            if e == Some(Il2CppTypeEnum::Ptr) {
                "P"@
            } else {
                "A_"@
            },
        );
        skipped(
            match c_types::inner_type(c.il2cpp, t) {
                Some(inner) => if n > 0 {
                    with_type_within(c, q, inner, (n - 1) as nat)
                } else {
                    q
                },
                None => put(q, "v"@),
            },
        )
    } else {
        let q = if letters(e) is Some {
            put(p, letters(e)->0)
        } else if e == Some(Il2CppTypeEnum::String) {
            with_system_type(c, p, "System"@, "String"@)
        } else if e == Some(Il2CppTypeEnum::Object) {
            with_system_type(c, p, "System"@, "Object"@)
        } else if e == Some(Il2CppTypeEnum::TypedByRef) {
            with_system_type(c, p, "System"@, "TypedReference"@)
        } else if e == Some(Il2CppTypeEnum::ValueType) || e == Some(Il2CppTypeEnum::Class) {
            if t.klass_index < c.m.type_defs@.len() {
                with_definition(c, p, t.klass_index as int)
            } else {
                put(p, "v"@)
            }
        } else if e == Some(Il2CppTypeEnum::GenericInst) {
            match instance_of(c, t) {
                Some((td, addr)) => {
                    let key = instance_key(td as nat, addr);
                    if p.subs.contains_key(key) {
                        put(p, substitution(p.subs[key]))
                    } else {
                        match c.il2cpp.generic_inst_at(addr) {
                            Ok(inst) => if n > 0 {
                                let args = arguments(c.il2cpp, inst);
                                let named = skipped(
                                    with_type_name(c, put(p, "N"@), c.m.type_defs@[td]),
                                );
                                registered(
                                    put(
                                        put(
                                            with_arguments_within(
                                                c,
                                                put(named, "I"@),
                                                args,
                                                args.len(),
                                                (n - 1) as nat,
                                            ),
                                            "E"@,
                                        ),
                                        "E"@,
                                    ),
                                    key,
                                )
                            } else {
                                p
                            },
                            Err(_) => put(p, "v"@),
                        }
                    }
                },
                None => put(p, "v"@),
            }
        } else {
            put(p, "v"@)
        };
        if t.byref == 1 {
            skipped(q)
        } else {
            q
        }
    }
}

/// The name with the first `k` of some arguments of at most `n` layers.
pub open spec fn with_arguments_within(c: Source, b: Mangled, args: Seq<u64>, k: nat, n: nat) -> Mangled
    decreases n, k + 1,
{
    if k == 0 {
        b
    } else {
        let p = with_arguments_within(c, b, args, (k - 1) as nat, n);
        match c.il2cpp.type_at(args[k - 1]) {
            Some(u) => with_type_within(c, p, u, n),
            None => put(p, "v"@),
        }
    }
}

/// The arguments of an instance consist of at most `n` layers.
pub open spec fn arguments_end(c: Source, args: Seq<u64>, n: nat) -> bool {
    forall|k: int|
        0 <= k < args.len() ==> (c.il2cpp.type_at(#[trigger] args[k]) matches Some(u) ==> type_ends(
            c,
            u,
            n,
        ))
}

/// A type consists of finitely many layers.
pub open spec fn type_fits(c: Source, t: Il2CppType) -> bool {
    exists|n: nat| type_ends(c, t, n)
}

/// The arguments of an instance consist of finitely many layers.
pub open spec fn inst_fits(c: Source, inst: Il2CppGenericInst) -> bool {
    exists|n: nat| arguments_end(c, arguments(c.il2cpp, inst), n)
}

/// The name with a type.
pub open spec fn with_type(c: Source, b: Mangled, t: Il2CppType) -> Mangled {
    with_type_within(c, b, t, choose|n: nat| type_ends(c, t, n))
}

/// The name with the arguments of an instance.
pub open spec fn with_inst(c: Source, b: Mangled, inst: Il2CppGenericInst) -> Mangled {
    let args = arguments(c.il2cpp, inst);
    put(
        with_arguments_within(
            c,
            put(b, "I"@),
            args,
            args.len(),
            choose|n: nat| arguments_end(c, args, n),
        ),
        "E"@,
    )
}

proof fn lemma_more_layers(c: Source, b: Mangled, t: Il2CppType, n: nat, m: nat)
    requires
        type_ends(c, t, n),
        n <= m,
    ensures
        type_ends(c, t, m),
        with_type_within(c, b, t, n) == with_type_within(c, b, t, m),
    decreases n, 0nat,
{
    let e = t.element();
    let p = if t.byref == 1 {
        put(b, "R"@)
    } else {
        b
    };
    if e == Some(Il2CppTypeEnum::Ptr) || e == Some(Il2CppTypeEnum::SzArray) || e == Some(
        Il2CppTypeEnum::Array,
    ) {
        let q = put(
            p,
            if e == Some(Il2CppTypeEnum::Ptr) {
                "P"@
            } else {
                "A_"@
            },
        );
        if let Some(inner) = c_types::inner_type(c.il2cpp, t) {
            lemma_more_layers(c, q, inner, (n - 1) as nat, (m - 1) as nat);
        }
    } else if e == Some(Il2CppTypeEnum::GenericInst) {
        if let Some((td, addr)) = instance_of(c, t) {
            if let Ok(inst) = c.il2cpp.generic_inst_at(addr) {
                let args = arguments(c.il2cpp, inst);
                assert(arguments_end(c, args, (n - 1) as nat));
                let named = skipped(with_type_name(c, put(p, "N"@), c.m.type_defs@[td]));
                lemma_more_arguments(
                    c,
                    put(named, "I"@),
                    args,
                    args.len(),
                    (n - 1) as nat,
                    (m - 1) as nat,
                );
                assert(arguments_end(c, args, (m - 1) as nat));
            }
        }
    }
}

proof fn lemma_more_arguments(c: Source, b: Mangled, args: Seq<u64>, k: nat, n: nat, m: nat)
    requires
        arguments_end(c, args, n),
        k <= args.len(),
        n <= m,
    ensures
        forall|j: int|
            0 <= j < k ==> (c.il2cpp.type_at(#[trigger] args[j]) matches Some(u) ==> type_ends(
                c,
                u,
                m,
            )),
        with_arguments_within(c, b, args, k, n) == with_arguments_within(c, b, args, k, m),
    decreases n, k + 1,
{
    if k > 0 {
        lemma_more_arguments(c, b, args, (k - 1) as nat, n, m);
        let p = with_arguments_within(c, b, args, (k - 1) as nat, n);
        assert(c.il2cpp.type_at(args[k - 1]) matches Some(u) ==> type_ends(c, u, n));
        if let Some(u) = c.il2cpp.type_at(args[k - 1]) {
            lemma_more_layers(c, p, u, n, m);
        }
    }
}

/// However many layers a type is taken to consist of, as long as they are enough, it is written
/// the same.
pub proof fn law_with_type(c: Source, b: Mangled, t: Il2CppType, n: nat)
    requires
        type_ends(c, t, n),
    ensures
        with_type(c, b, t) == with_type_within(c, b, t, n),
{
    let m = choose|m: nat| type_ends(c, t, m);
    if m <= n {
        lemma_more_layers(c, b, t, m, n);
    } else {
        lemma_more_layers(c, b, t, n, m);
    }
}

/// A type definition and a type of the system are written in full once: after that the reference
/// to the part stands for them.
pub proof fn law_written_once(
    c: Source,
    b: Mangled,
    td: int,
    namespace: Seq<char>,
    name: Seq<char>,
)
    ensures
        ({
            let q = with_definition(c, b, td);
            let key = type_key(c.m.type_defs@[td], td as nat);
            q.subs.contains_key(key) && with_definition(c, q, td) == put(
                q,
                substitution(q.subs[key]),
            )
        }),
        ({
            let q = with_system_type(c, b, namespace, name);
            let key = "sys::"@ + namespace + "::"@ + name;
            q.subs.contains_key(key) && with_system_type(c, q, namespace, name) == put(
                q,
                substitution(q.subs[key]),
            )
        }),
{
}

// Names of methods and types.

/// The name before its first part.
pub open spec fn started() -> Mangled {
    Mangled { text: "_ZN"@, subs: Map::empty(), next: 0 }
}

/// The instance at an address, if there is one.
pub open spec fn inst_of(il2cpp: Il2Cpp, addr: u64) -> Option<Il2CppGenericInst> {
    if addr == 0 {
        None
    } else {
        match il2cpp.generic_inst_at(addr) {
            Ok(inst) => Some(inst),
            Err(_) => None,
        }
    }
}

/// The instance that gives the class of a method its arguments.
pub open spec fn class_inst(il2cpp: Il2Cpp, ctx: Option<Il2CppGenericContext>) -> Option<
    Il2CppGenericInst,
> {
    match ctx {
        Some(x) => inst_of(il2cpp, x.class_inst),
        None => None,
    }
}

/// The instance that gives a method its arguments.
pub open spec fn method_inst(il2cpp: Il2Cpp, ctx: Option<Il2CppGenericContext>) -> Option<
    Il2CppGenericInst,
> {
    match ctx {
        Some(x) => inst_of(il2cpp, x.method_inst),
        None => None,
    }
}

/// The name with the arguments of an instance, if there is one.
pub open spec fn with_optional_inst(c: Source, b: Mangled, inst: Option<Il2CppGenericInst>) -> Mangled {
    match inst {
        Some(inst) => with_inst(c, skipped(b), inst),
        None => b,
    }
}

/// The key of the class of a method.
pub open spec fn class_key(
    c: Source,
    def: Il2CppTypeDefinition,
    i: nat,
    ctx: Option<Il2CppGenericContext>,
) -> Seq<char> {
    if class_inst(c.il2cpp, ctx) is Some {
        type_key(def, i) + "::gi_ctx@0x"@ + numeral::hex_lower(ctx->0.class_inst as nat)
    } else {
        type_key(def, i)
    }
}

/// The name of a method inside a mangled name.
pub open spec fn method_part(c: Source, md: Il2CppMethodDefinition) -> Seq<char> {
    let name = structures::name_or(md.name, ""@);
    if name == ".ctor"@ {
        "C1"@
    } else if name == ".cctor"@ {
        identifier(c, "cctor"@)
    } else {
        identifier(c, name)
    }
}

/// The name begins with the type that the method returns.
pub open spec fn returns_first(
    c: Source,
    md: Il2CppMethodDefinition,
    ctx: Option<Il2CppGenericContext>,
    info: bool,
) -> bool {
    !info && (method_inst(c.il2cpp, ctx) is Some || md.generic_container_index >= 0)
}

/// The type of the `j`-th parameter of a method.
pub open spec fn parameter(c: Source, md: Il2CppMethodDefinition, j: int) -> Il2CppType {
    c.il2cpp.types@[c.m.parameter_defs@[md.parameter_start + j].type_index as int]
}

/// The name with the types of the first `k` parameters of a method.
pub open spec fn with_parameters(c: Source, b: Mangled, md: Il2CppMethodDefinition, k: nat) -> Mangled
    decreases k,
{
    if k == 0 {
        b
    } else {
        with_type(
            c,
            with_parameters(c, b, md, (k - 1) as nat),
            parameter(c, md, k - 1),
        )
    }
}

/// The qualified name of a method.
pub open spec fn qualified(
    c: Source,
    def: Il2CppTypeDefinition,
    i: nat,
    md: Il2CppMethodDefinition,
    ctx: Option<Il2CppGenericContext>,
    info: bool,
) -> Mangled {
    let b = if info {
        with_part(c, started(), "MethodInfo"@)
    } else {
        started()
    };
    let class = registered(
        with_optional_inst(c, with_type_name(c, b, def), class_inst(c.il2cpp, ctx)),
        class_key(c, def, i, ctx),
    );
    put(
        with_optional_inst(c, put(class, method_part(c, md)), method_inst(c.il2cpp, ctx)),
        "E"@,
    )
}

/// The mangled name of a method, or of what describes it.
pub open spec fn mangled_method(
    c: Source,
    def: Il2CppTypeDefinition,
    i: nat,
    md: Il2CppMethodDefinition,
    ctx: Option<Il2CppGenericContext>,
    info: bool,
) -> Seq<char> {
    let b = qualified(c, def, i, md, ctx, info);
    let p = if returns_first(c, md, ctx, info) {
        match c_types::type_by_index(c.il2cpp, md.return_type as int) {
            Some(t) => with_type(c, b, t),
            None => put(b, "v"@),
        }
    } else {
        b
    };
    if info {
        p.text + "v"@
    } else if md.parameter_count == 0 {
        if returns_first(c, md, ctx, info) {
            p.text
        } else {
            p.text + "v"@
        }
    } else {
        with_parameters(c, p, md, md.parameter_count as nat).text
    }
}

/// The mangled name of what belongs to a type.
pub open spec fn mangled_data(c: Source, def: Il2CppTypeDefinition, prefix: Seq<char>) -> Seq<char> {
    put(with_type_name(c, with_part(c, started(), prefix), def), "E"@).text
}

/// What follows the prefix in the mangled name of what belongs to a type.
pub open spec fn data_rest(c: Source, def: Il2CppTypeDefinition) -> Seq<char> {
    let blank = Mangled { text: Seq::empty(), subs: Map::empty(), next: 0 };
    with_type_name(c, blank, def).text + "E"@
}

proof fn lemma_parts_text(c: Source, a: Mangled, b: Mangled, ids: Seq<Seq<char>>, k: nat)
    requires
        b.text == Seq::<char>::empty(),
    ensures
        with_parts(c, a, ids, k).text == a.text + with_parts(c, b, ids, k).text,
    decreases k,
{
    if k == 0 {
        assert(a.text + b.text =~= a.text);
    } else {
        lemma_parts_text(c, a, b, ids, (k - 1) as nat);
        assert(with_parts(c, a, ids, k).text =~= a.text + with_parts(c, b, ids, k).text);
    }
}

proof fn lemma_type_name_text(c: Source, a: Mangled, b: Mangled, def: Il2CppTypeDefinition)
    requires
        b.text == Seq::<char>::empty(),
    ensures
        with_type_name(c, a, def).text == a.text + with_type_name(c, b, def).text,
{
    let ids = text::split(structures::name_or(def.namespace, ""@), '.');
    lemma_parts_text(c, a, b, ids, ids.len());
    assert(with_type_name(c, a, def).text =~= a.text + with_type_name(c, b, def).text);
}

/// The mangled names of all that belongs to a type differ in their prefixes alone, and end in `E`.
pub proof fn law_data_name(c: Source, def: Il2CppTypeDefinition, prefix: Seq<char>)
    ensures
        mangled_data(c, def, prefix) == "_ZN"@ + identifier(c, prefix) + data_rest(c, def),
        data_rest(c, def).len() > 0,
        data_rest(c, def).last() == 'E',
{
    let blank = Mangled { text: Seq::empty(), subs: Map::empty(), next: 0 };
    let b = with_part(c, started(), prefix);
    lemma_type_name_text(c, b, blank, def);
    reveal_strlit("E");
    assert(mangled_data(c, def, prefix) =~= "_ZN"@ + identifier(c, prefix) + data_rest(c, def));
}

/// Where the two words are spelled as they are, the names of the type information and of the type
/// reference of a type are their prefixes with one rest that ends in `E`; so they are never the
/// same.
pub proof fn law_type_names(c: Source, def: Il2CppTypeDefinition)
    requires
        (c.spelling)("TypeInfo"@, NameStyle::Mangled) == "TypeInfo"@,
        (c.spelling)("TypeRef"@, NameStyle::Mangled) == "TypeRef"@,
    ensures
        mangled_data(c, def, "TypeInfo"@) == "_ZN8TypeInfo"@ + data_rest(c, def),
        mangled_data(c, def, "TypeRef"@) == "_ZN7TypeRef"@ + data_rest(c, def),
        data_rest(c, def).len() > 0,
        data_rest(c, def).last() == 'E',
        mangled_data(c, def, "TypeInfo"@) != mangled_data(c, def, "TypeRef"@),
{
    reveal_strlit("_ZN");
    reveal_strlit("TypeInfo");
    reveal_strlit("TypeRef");
    reveal_strlit("_ZN8TypeInfo");
    reveal_strlit("_ZN7TypeRef");
    law_data_name(c, def, "TypeInfo"@);
    law_data_name(c, def, "TypeRef"@);
    assert(vstd::utf8::is_ascii_chars("TypeInfo"@));
    assert(vstd::utf8::is_ascii_chars("TypeRef"@));
    vstd::utf8::is_ascii_chars_encode_utf8("TypeInfo"@);
    vstd::utf8::is_ascii_chars_encode_utf8("TypeRef"@);
    assert(numeral::dec(8) =~= seq!['8']);
    assert(numeral::dec(7) =~= seq!['7']);
    assert("_ZN"@ + identifier(c, "TypeInfo"@) =~= "_ZN8TypeInfo"@);
    assert("_ZN"@ + identifier(c, "TypeRef"@) =~= "_ZN7TypeRef"@);
    let info = mangled_data(c, def, "TypeInfo"@);
    let reference = mangled_data(c, def, "TypeRef"@);
    assert(info[3] == '8' && reference[3] == '7');
}

/// All that names are mangled from is there.
pub open spec fn source_fits(c: Source) -> bool {
    &&& c_types::scene_fits(scene_for(c))
    &&& c.x.short_type_names@.len() == c.il2cpp.types@.len()
}

/// A parameter of a method can be written.
pub open spec fn parameter_fits(c: Source, md: Il2CppMethodDefinition, j: int) -> bool {
    &&& md.parameter_start + j < c.m.parameter_defs@.len()
    &&& c.m.parameter_defs@[md.parameter_start + j].type_index < c.il2cpp.types@.len()
    &&& type_fits(c, parameter(c, md, j))
}

/// The types of a method can be written.
pub open spec fn signature_fits(
    c: Source,
    md: Il2CppMethodDefinition,
    ctx: Option<Il2CppGenericContext>,
) -> bool {
    &&& class_inst(c.il2cpp, ctx) matches Some(inst) ==> inst_fits(c, inst)
    &&& method_inst(c.il2cpp, ctx) matches Some(inst) ==> inst_fits(c, inst)
    &&& returns_first(c, md, ctx, false) ==> (c_types::type_by_index(
        c.il2cpp,
        md.return_type as int,
    ) matches Some(t) ==> type_fits(c, t))
    &&& forall|j: int| 0 <= j < md.parameter_count ==> #[trigger] parameter_fits(c, md, j)
}

/// Writes a mangled name.
pub struct MangledNameBuilder {
    buf: String,
    substitution_map: NameMap<usize>,
    current_sub_index: usize,
}

impl View for MangledNameBuilder {
    type V = Mangled;

    closed spec fn view(&self) -> Mangled {
        Mangled {
            text: self.buf@,
            subs: self.substitution_map@,
            next: self.current_sub_index as nat,
        }
    }
}

/// The text begins as that of every mangled name does.
pub open spec fn headed(b: Mangled) -> bool {
    &&& b.text.len() >= 3
    &&& b.text[0] == '_'
    &&& b.text[1] == 'Z'
    &&& b.text[2] == 'N'
}

/// How many parts can follow before there are more parts than characters.
spec fn room(b: Mangled) -> int {
    b.text.len() - b.next
}

/// What is written stays, and there are never more parts than characters.
spec fn keeps(b: Mangled, d: Mangled) -> bool {
    &&& room(d) >= room(b)
    &&& headed(b) ==> headed(d)
}

impl Source {
    /// The source is made of these parts.
    spec fn of<F: Fn(&str, NameStyle) -> String>(
        self,
        executor: Il2CppExecutor,
        metadata: Metadata,
        il2cpp: Il2Cpp,
        sanitizer: Sanitizer<F>,
    ) -> bool {
        &&& self == source(executor, metadata, il2cpp, sanitizer.spelling())
        &&& source_fits(self)
    }
}

/// The source that is made of these parts.
pub open spec fn source(
    executor: Il2CppExecutor,
    metadata: Metadata,
    il2cpp: Il2Cpp,
    spelling: Spelling,
) -> Source {
    Source { m: metadata, il2cpp, x: executor, spelling }
}

impl MangledNameBuilder {
    fn new() -> (r: Self)
        ensures
            r@ == started(),
            room(r@) == 3,
            headed(r@),
    {
        proof {
            reveal_strlit("_ZN");
        }
        MangledNameBuilder {
            buf: String::from_str("_ZN"),
            substitution_map: NameMap::new(),
            current_sub_index: 0,
        }
    }

    fn put(&mut self, s: &str)
        ensures
            final(self)@ == put(old(self)@, s@),
            keeps(old(self)@, final(self)@),
            room(final(self)@) == room(old(self)@) + s@.len(),
    {
        self.buf.append(s);
    }

    fn skip_sub_index(&mut self)
        requires
            room(old(self)@) > 0,
        ensures
            final(self)@ == skipped(old(self)@),
            headed(old(self)@) ==> headed(final(self)@),
            room(final(self)@) == room(old(self)@) - 1,
    {
        let len: usize = self.buf.as_str().unicode_len();
        assert(self.current_sub_index < len);
        self.current_sub_index = self.current_sub_index + 1;
    }

    fn register_substitution(&mut self, key: String)
        requires
            room(old(self)@) > 0,
        ensures
            final(self)@ == registered(old(self)@, key@),
            headed(old(self)@) ==> headed(final(self)@),
            room(final(self)@) == room(old(self)@) - 1,
    {
        self.substitution_map.insert(key, self.current_sub_index);
        self.skip_sub_index();
    }

    fn write_identifier<F: Fn(&str, NameStyle) -> String>(
        &mut self,
        id: &str,
        sanitizer: &Sanitizer<F>,
        Ghost(c): Ghost<Source>,
    )
        requires
            c.spelling == sanitizer.spelling(),
        ensures
            final(self)@ == put(old(self)@, identifier(c, id@)),
            keeps(old(self)@, final(self)@),
            room(final(self)@) > room(old(self)@),
    {
        let spelled = sanitizer.spell(id, NameStyle::Mangled);
        let len: usize = spelled.as_str().as_bytes().len();
        let count = numeral::dec_string(len as u64);
        proof {
            numeral::lemma_numeral_nonempty(len as nat, 10, true);
        }
        self.put(count.concat(spelled.as_str()).as_str());
    }

    /// Writes the reference to the part of a key, if the key has been registered.
    pub fn try_write_substitution(&mut self, key: &str) -> (r: bool)
        ensures
            (r, final(self)@) == referred(old(self)@, key@),
    {
        let index: usize = match self.substitution_map.get(key) {
            Some(i) => *i,
            None => {
                return false;
            },
        };
        if index == 0 {
            self.put("S_");
        } else {
            let number = numeral::numeral_string((index - 1) as u64, 36, true);
            self.put(String::from_str("S").concat(number.as_str()).concat("_").as_str());
        }
        true
    }

    fn write_namespace<F: Fn(&str, NameStyle) -> String>(
        &mut self,
        namespace: &str,
        sanitizer: &Sanitizer<F>,
        Ghost(c): Ghost<Source>,
    )
        requires
            c.spelling == sanitizer.spelling(),
            room(old(self)@) >= 0,
        ensures
            final(self)@ == with_namespace(c, old(self)@, namespace@),
            keeps(old(self)@, final(self)@),
    {
        let parts = text::split_char(namespace, '.');
        let ghost ids = text::split(namespace@, '.');
        let ghost b = self@;
        let mut i: usize = 0;
        assert(ids.len() == parts@.len());
        while i < parts.len()
            invariant
                c.spelling == sanitizer.spelling(),
                ids == text::texts(parts@),
                i <= parts@.len(),
                self@ == with_parts(c, b, ids, i as nat),
                room(b) >= 0,
                keeps(b, self@),
            decreases parts@.len() - i,
        {
            let part = parts[i].as_str();
            assert(ids[i as int] == part@);
            if part.unicode_len() > 0 {
                self.write_identifier(part, sanitizer, Ghost(c));
                self.skip_sub_index();
            }
            i = i + 1;
        }
    }

    fn base_clean(name: &structures::NameResult) -> (r: String)
        ensures
            r@ == base_name(*name),
    {
        text::before_char(structures::name_text(name, "").as_str(), '`')
    }

    fn find_declaring_name(
        def: &Il2CppTypeDefinition,
        metadata: &Metadata,
        il2cpp: &Il2Cpp,
        executor: &Il2CppExecutor,
        Ghost(c): Ghost<Source>,
    ) -> (r: Option<String>)
        requires
            source_fits(c),
            c.m == *metadata,
            c.il2cpp == *il2cpp,
            c.x == *executor,
        ensures
            text::optional(r) == declaring_name(c, *def),
    {
        if def.declaring_type_index < 0 {
            return None;
        }
        let i: usize = def.declaring_type_index as usize;
        match il2cpp.type_by_index(i) {
            Some(t) => {
                let is_definition = match t.element_type() {
                    Some(Il2CppTypeEnum::ValueType) | Some(Il2CppTypeEnum::Class) => true,
                    _ => false,
                };
                if is_definition && t.klass_index < metadata.type_defs.len() {
                    Some(Self::base_clean(&metadata.type_defs[t.klass_index].name))
                } else {
                    Some(executor.short_type_names[i].clone())
                }
            },
            None => None,
        }
    }

    fn write_type_name<F: Fn(&str, NameStyle) -> String>(
        &mut self,
        def: &Il2CppTypeDefinition,
        metadata: &Metadata,
        il2cpp: &Il2Cpp,
        executor: &Il2CppExecutor,
        sanitizer: &Sanitizer<F>,
        Ghost(c): Ghost<Source>,
    )
        requires
            c.of(*executor, *metadata, *il2cpp, *sanitizer),
            room(old(self)@) >= 0,
        ensures
            final(self)@ == with_type_name(c, old(self)@, *def),
            keeps(old(self)@, final(self)@),
            room(final(self)@) > room(old(self)@),
    {
        let namespace = structures::name_text(&def.namespace, "");
        self.write_namespace(namespace.as_str(), sanitizer, Ghost(c));
        if let Some(name) = Self::find_declaring_name(def, metadata, il2cpp, executor, Ghost(c)) {
            self.write_identifier(name.as_str(), sanitizer, Ghost(c));
            self.skip_sub_index();
        }
        self.write_identifier(Self::base_clean(&def.name).as_str(), sanitizer, Ghost(c));
    }

    fn type_def_key(def: &Il2CppTypeDefinition, i: usize) -> (r: String)
        ensures
            r@ == type_key(*def, i as nat),
    {
        String::from_str("td#").concat(numeral::dec_string(i as u64).as_str()).concat("::").concat(
            numeral::dec_int_string(def.namespace_index as i64).as_str(),
        ).concat("::").concat(numeral::dec_int_string(def.name_index as i64).as_str())
    }

    fn write_definition<F: Fn(&str, NameStyle) -> String>(
        &mut self,
        td: usize,
        metadata: &Metadata,
        il2cpp: &Il2Cpp,
        executor: &Il2CppExecutor,
        sanitizer: &Sanitizer<F>,
        Ghost(c): Ghost<Source>,
    )
        requires
            c.of(*executor, *metadata, *il2cpp, *sanitizer),
            td < metadata.type_defs@.len(),
            room(old(self)@) >= 0,
        ensures
            final(self)@ == with_definition(c, old(self)@, td as int),
            keeps(old(self)@, final(self)@),
    {
        let def = &metadata.type_defs[td];
        let key = Self::type_def_key(def, td);
        if self.try_write_substitution(key.as_str()) {
            return;
        }
        self.put("N");
        self.write_type_name(def, metadata, il2cpp, executor, sanitizer, Ghost(c));
        self.put("E");
        self.register_substitution(key);
    }

    fn write_nested_system_type<F: Fn(&str, NameStyle) -> String>(
        &mut self,
        namespace: &str,
        name: &str,
        sanitizer: &Sanitizer<F>,
        Ghost(c): Ghost<Source>,
    )
        requires
            c.spelling == sanitizer.spelling(),
            room(old(self)@) >= 0,
        ensures
            final(self)@ == with_system_type(c, old(self)@, namespace@, name@),
            keeps(old(self)@, final(self)@),
    {
        let key = String::from_str("sys::").concat(namespace).concat("::").concat(name);
        if self.try_write_substitution(key.as_str()) {
            return;
        }
        self.put("N");
        self.write_namespace(namespace, sanitizer, Ghost(c));
        self.write_identifier(name, sanitizer, Ghost(c));
        self.put("E");
        self.register_substitution(key);
    }

    fn find_letters(e: Option<Il2CppTypeEnum>) -> (r: Option<&'static str>)
        ensures
            match r {
                Some(s) => letters(e) == Some(s@),
                None => letters(e) is None,
            },
    {
        match e {
            Some(Il2CppTypeEnum::Boolean) => Some("b"),
            Some(Il2CppTypeEnum::Char) => Some("w"),
            Some(Il2CppTypeEnum::I1) => Some("a"),
            Some(Il2CppTypeEnum::U1) => Some("h"),
            Some(Il2CppTypeEnum::I2) => Some("s"),
            Some(Il2CppTypeEnum::U2) => Some("t"),
            Some(Il2CppTypeEnum::I4) => Some("i"),
            Some(Il2CppTypeEnum::U4) => Some("j"),
            Some(Il2CppTypeEnum::I8) => Some("l"),
            Some(Il2CppTypeEnum::U8) => Some("m"),
            Some(Il2CppTypeEnum::R4) => Some("f"),
            Some(Il2CppTypeEnum::R8) => Some("d"),
            Some(Il2CppTypeEnum::I) | Some(Il2CppTypeEnum::U) => Some("Pv"),
            _ => None,
        }
    }

    fn read_arguments(il2cpp: &Il2Cpp, inst: &Il2CppGenericInst) -> (r: Vec<u64>)
        requires
            il2cpp.wf(),
        ensures
            r@ == arguments(*il2cpp, *inst),
    {
        match il2cpp.read_ptr_array(inst.type_argv, inst.type_argc) {
            Ok(v) => v,
            Err(_) => Vec::new(),
        }
    }

    fn write_arguments<F: Fn(&str, NameStyle) -> String>(
        &mut self,
        args: &Vec<u64>,
        metadata: &Metadata,
        il2cpp: &Il2Cpp,
        executor: &Il2CppExecutor,
        sanitizer: &Sanitizer<F>,
        Ghost(c): Ghost<Source>,
        Ghost(n): Ghost<nat>,
    )
        requires
            c.of(*executor, *metadata, *il2cpp, *sanitizer),
            arguments_end(c, args@, n),
            room(old(self)@) >= 0,
        ensures
            final(self)@ == with_arguments_within(c, old(self)@, args@, args@.len(), n),
            keeps(old(self)@, final(self)@),
        decreases n, 2nat,
    {
        let ghost b = self@;
        let mut k: usize = 0;
        while k < args.len()
            invariant
                c.of(*executor, *metadata, *il2cpp, *sanitizer),
                arguments_end(c, args@, n),
                k <= args@.len(),
                self@ == with_arguments_within(c, b, args@, k as nat, n),
                room(b) >= 0,
                keeps(b, self@),
            decreases args@.len() - k,
        {
            match il2cpp.get_il2cpp_type(args[k]) {
                Some(t) => {
                    assert(c.il2cpp.type_at(args@[k as int]) == Some(*t));
                    self.write_type_within(
                        t,
                        metadata,
                        il2cpp,
                        executor,
                        sanitizer,
                        Ghost(c),
                        Ghost(n),
                    );
                },
                None => {
                    self.put("v");
                },
            }
            k = k + 1;
        }
    }

    fn write_instance<F: Fn(&str, NameStyle) -> String>(
        &mut self,
        t: &Il2CppType,
        metadata: &Metadata,
        il2cpp: &Il2Cpp,
        executor: &Il2CppExecutor,
        sanitizer: &Sanitizer<F>,
        Ghost(c): Ghost<Source>,
        Ghost(n): Ghost<nat>,
    )
        requires
            c.of(*executor, *metadata, *il2cpp, *sanitizer),
            t.element() == Some(Il2CppTypeEnum::GenericInst),
            t.byref != 1,
            type_ends(c, *t, n),
            room(old(self)@) >= 0,
        ensures
            final(self)@ == with_type_within(c, old(self)@, *t, n),
            keeps(old(self)@, final(self)@),
        decreases n, 0nat,
    {
        let ghost s = scene_for(c);
        let td: usize = match c_types::find_class_def(executor, il2cpp, t.generic_class, Ghost(s)) {
            Some(td) => td,
            None => {
                self.put("v");
                return;
            },
        };
        let addr: u64 = match il2cpp.read_generic_class(t.generic_class) {
            Ok(class) => class.context.class_inst,
            Err(_) => {
                self.put("v");
                return;
            },
        };
        assert(instance_of(c, *t) == Some((td as int, addr)));
        let key = String::from_str("td#").concat(numeral::dec_string(td as u64).as_str()).concat(
            "::gi_ctx@0x",
        ).concat(numeral::hex_lower_string(addr).as_str());
        if self.try_write_substitution(key.as_str()) {
            return;
        }
        let inst = match il2cpp.read_generic_inst(addr) {
            Ok(inst) => inst,
            Err(_) => {
                self.put("v");
                return;
            },
        };
        self.put("N");
        self.write_type_name(
            &metadata.type_defs[td],
            metadata,
            il2cpp,
            executor,
            sanitizer,
            Ghost(c),
        );
        self.skip_sub_index();
        self.put("I");
        let args = Self::read_arguments(il2cpp, &inst);
        self.write_arguments(
            &args,
            metadata,
            il2cpp,
            executor,
            sanitizer,
            Ghost(c),
            Ghost((n - 1) as nat),
        );
        self.put("E");
        self.put("E");
        proof {
            reveal_strlit("E");
        }
        self.register_substitution(key);
    }

    fn write_type_within<F: Fn(&str, NameStyle) -> String>(
        &mut self,
        t: &Il2CppType,
        metadata: &Metadata,
        il2cpp: &Il2Cpp,
        executor: &Il2CppExecutor,
        sanitizer: &Sanitizer<F>,
        Ghost(c): Ghost<Source>,
        Ghost(n): Ghost<nat>,
    )
        requires
            c.of(*executor, *metadata, *il2cpp, *sanitizer),
            type_ends(c, *t, n),
            room(old(self)@) >= 0,
        ensures
            final(self)@ == with_type_within(c, old(self)@, *t, n),
            keeps(old(self)@, final(self)@),
        decreases n, 1nat,
    {
        let e = t.element_type();
        if let Some(Il2CppTypeEnum::Void) = e {
            self.put("v");
            return;
        }
        let by_ref = t.byref == 1;
        if by_ref {
            self.put("R");
        }
        proof {
            reveal_strlit("R");
            reveal_strlit("P");
            reveal_strlit("A_");
        }
        match e {
            Some(Il2CppTypeEnum::Ptr) | Some(Il2CppTypeEnum::SzArray) | Some(
                Il2CppTypeEnum::Array,
            ) => {
                match e {
                    Some(Il2CppTypeEnum::Ptr) => {
                        self.put("P");
                    },
                    _ => {
                        self.put("A_");
                    },
                }
                match il2cpp.inner_type(t) {
                    Some(inner) => {
                        self.write_type_within(
                            &inner,
                            metadata,
                            il2cpp,
                            executor,
                            sanitizer,
                            Ghost(c),
                            Ghost((n - 1) as nat),
                        );
                    },
                    None => {
                        self.put("v");
                    },
                }
                self.skip_sub_index();
                return;
            },
            Some(Il2CppTypeEnum::String) => {
                self.write_nested_system_type("System", "String", sanitizer, Ghost(c));
            },
            Some(Il2CppTypeEnum::Object) => {
                self.write_nested_system_type("System", "Object", sanitizer, Ghost(c));
            },
            Some(Il2CppTypeEnum::TypedByRef) => {
                self.write_nested_system_type("System", "TypedReference", sanitizer, Ghost(c));
            },
            Some(Il2CppTypeEnum::ValueType) | Some(Il2CppTypeEnum::Class) => {
                if t.klass_index < metadata.type_defs.len() {
                    self.write_definition(
                        t.klass_index,
                        metadata,
                        il2cpp,
                        executor,
                        sanitizer,
                        Ghost(c),
                    );
                } else {
                    self.put("v");
                }
            },
            Some(Il2CppTypeEnum::GenericInst) => {
                let mut plain = *t;
                plain.byref = 0;
                assert(type_ends(c, plain, n));
                self.write_instance(
                    &plain,
                    metadata,
                    il2cpp,
                    executor,
                    sanitizer,
                    Ghost(c),
                    Ghost(n),
                );
            },
            _ => match Self::find_letters(e) {
                Some(s) => {
                    self.put(s);
                },
                None => {
                    self.put("v");
                },
            },
        }
        if by_ref {
            self.skip_sub_index();
        }
    }

    fn write_type<F: Fn(&str, NameStyle) -> String>(
        &mut self,
        t: &Il2CppType,
        metadata: &Metadata,
        il2cpp: &Il2Cpp,
        executor: &Il2CppExecutor,
        sanitizer: &Sanitizer<F>,
        Ghost(c): Ghost<Source>,
    )
        requires
            c.of(*executor, *metadata, *il2cpp, *sanitizer),
            type_fits(c, *t),
            room(old(self)@) >= 0,
        ensures
            final(self)@ == with_type(c, old(self)@, *t),
            keeps(old(self)@, final(self)@),
    {
        let ghost n = choose|n: nat| type_ends(c, *t, n);
        self.write_type_within(t, metadata, il2cpp, executor, sanitizer, Ghost(c), Ghost(n));
    }

    fn write_optional_inst<F: Fn(&str, NameStyle) -> String>(
        &mut self,
        inst: Option<Il2CppGenericInst>,
        metadata: &Metadata,
        il2cpp: &Il2Cpp,
        executor: &Il2CppExecutor,
        sanitizer: &Sanitizer<F>,
        Ghost(c): Ghost<Source>,
    )
        requires
            c.of(*executor, *metadata, *il2cpp, *sanitizer),
            inst matches Some(i) ==> inst_fits(c, i),
            room(old(self)@) > 0,
        ensures
            final(self)@ == with_optional_inst(c, old(self)@, inst),
            keeps(old(self)@, final(self)@),
    {
        if let Some(inst) = inst {
            self.skip_sub_index();
            self.put("I");
            let args = Self::read_arguments(il2cpp, &inst);
            let ghost n = choose|n: nat| arguments_end(c, args@, n);
            self.write_arguments(
                &args,
                metadata,
                il2cpp,
                executor,
                sanitizer,
                Ghost(c),
                Ghost(n),
            );
            self.put("E");
            proof {
                reveal_strlit("I");
            }
        }
    }

    fn read_inst(il2cpp: &Il2Cpp, addr: u64) -> (r: Option<Il2CppGenericInst>)
        requires
            il2cpp.wf(),
        ensures
            r == inst_of(*il2cpp, addr),
    {
        if addr == 0 {
            return None;
        }
        match il2cpp.read_generic_inst(addr) {
            Ok(inst) => Some(inst),
            Err(_) => None,
        }
    }

    fn write_qualified<F: Fn(&str, NameStyle) -> String>(
        executor: &Il2CppExecutor,
        metadata: &Metadata,
        il2cpp: &Il2Cpp,
        def: &Il2CppTypeDefinition,
        i: usize,
        method_def: &Il2CppMethodDefinition,
        ctx: Option<Il2CppGenericContext>,
        info: bool,
        sanitizer: &Sanitizer<F>,
        Ghost(c): Ghost<Source>,
    ) -> (r: Self)
        requires
            c.of(*executor, *metadata, *il2cpp, *sanitizer),
            class_inst(*il2cpp, ctx) matches Some(inst) ==> inst_fits(c, inst),
            method_inst(*il2cpp, ctx) matches Some(inst) ==> inst_fits(c, inst),
        ensures
            r@ == qualified(c, *def, i as nat, *method_def, ctx, info),
            room(r@) >= 0,
            headed(r@),
    {
        let mut b = MangledNameBuilder::new();
        if info {
            b.write_identifier("MethodInfo", sanitizer, Ghost(c));
            b.skip_sub_index();
        }
        let class = match ctx {
            Some(x) => Self::read_inst(il2cpp, x.class_inst),
            None => None,
        };
        b.write_type_name(def, metadata, il2cpp, executor, sanitizer, Ghost(c));
        b.write_optional_inst(class, metadata, il2cpp, executor, sanitizer, Ghost(c));
        let mut key = Self::type_def_key(def, i);
        if class.is_some() {
            if let Some(x) = ctx {
                key = key.concat("::gi_ctx@0x").concat(
                    numeral::hex_lower_string(x.class_inst).as_str(),
                );
            }
        }
        b.register_substitution(key);
        let name = structures::name_text(&method_def.name, "");
        if text::same_text(name.as_str(), ".ctor") {
            b.put("C1");
            proof {
                reveal_strlit("C1");
            }
        } else if text::same_text(name.as_str(), ".cctor") {
            b.write_identifier("cctor", sanitizer, Ghost(c));
        } else {
            b.write_identifier(name.as_str(), sanitizer, Ghost(c));
        }
        let method = match ctx {
            Some(x) => Self::read_inst(il2cpp, x.method_inst),
            None => None,
        };
        b.write_optional_inst(method, metadata, il2cpp, executor, sanitizer, Ghost(c));
        b.put("E");
        b
    }

    fn mangle_method_inner<F: Fn(&str, NameStyle) -> String>(
        executor: &Il2CppExecutor,
        metadata: &Metadata,
        il2cpp: &Il2Cpp,
        def: &Il2CppTypeDefinition,
        i: usize,
        method_def: &Il2CppMethodDefinition,
        ctx: Option<Il2CppGenericContext>,
        info: bool,
        sanitizer: &Sanitizer<F>,
        Ghost(c): Ghost<Source>,
    ) -> (r: String)
        requires
            c.of(*executor, *metadata, *il2cpp, *sanitizer),
            class_inst(*il2cpp, ctx) matches Some(inst) ==> inst_fits(c, inst),
            method_inst(*il2cpp, ctx) matches Some(inst) ==> inst_fits(c, inst),
            !info ==> signature_fits(c, *method_def, ctx),
        ensures
            r@ == mangled_method(c, *def, i as nat, *method_def, ctx, info),
            text::starts_with(r@, "_ZN"@),
    {
        let mut b = Self::write_qualified(
            executor,
            metadata,
            il2cpp,
            def,
            i,
            method_def,
            ctx,
            info,
            sanitizer,
            Ghost(c),
        );
        let has_inst = match ctx {
            Some(x) => Self::read_inst(il2cpp, x.method_inst).is_some(),
            None => false,
        };
        let has_return_first = !info && (has_inst || method_def.generic_container_index >= 0);
        if has_return_first {
            match il2cpp.type_by_index(method_def.return_type) {
                Some(t) => {
                    b.write_type(&t, metadata, il2cpp, executor, sanitizer, Ghost(c));
                },
                None => {
                    b.put("v");
                },
            }
        }
        if info {
            b.put("v");
        } else if method_def.parameter_count == 0 {
            if !has_return_first {
                b.put("v");
            }
        } else {
            let ghost p = b@;
            let parameters: usize = metadata.parameter_defs.len();
            let mut j: usize = 0;
            while j < method_def.parameter_count
                invariant
                    parameters == metadata.parameter_defs@.len(),
                    c.of(*executor, *metadata, *il2cpp, *sanitizer),
                    signature_fits(c, *method_def, ctx),
                    j <= method_def.parameter_count,
                    b@ == with_parameters(c, p, *method_def, j as nat),
                    room(b@) >= 0,
                    headed(b@),
                decreases method_def.parameter_count - j,
            {
                assert(parameter_fits(c, *method_def, j as int));
                let param = &metadata.parameter_defs[method_def.parameter_start + j];
                let t = il2cpp.types[param.type_index];
                assert(t == parameter(c, *method_def, j as int));
                b.write_type(&t, metadata, il2cpp, executor, sanitizer, Ghost(c));
                j = j + 1;
            }
        }
        proof {
            reveal_strlit("_ZN");
            assert(b@.text.subrange(0, 3) =~= "_ZN"@);
        }
        b.buf
    }

    /// The mangled name of a method.
    pub fn mangle_method<F: Fn(&str, NameStyle) -> String>(
        executor: &Il2CppExecutor,
        metadata: &Metadata,
        il2cpp: &Il2Cpp,
        type_def: &Il2CppTypeDefinition,
        type_def_index: usize,
        method_def: &Il2CppMethodDefinition,
        sanitizer: &Sanitizer<F>,
    ) -> (r: String)
        requires
            source_fits(source(*executor, *metadata, *il2cpp, sanitizer.spelling())),
            signature_fits(
                source(*executor, *metadata, *il2cpp, sanitizer.spelling()),
                *method_def,
                None,
            ),
        ensures
            r@ == mangled_method(
                source(*executor, *metadata, *il2cpp, sanitizer.spelling()),
                *type_def,
                type_def_index as nat,
                *method_def,
                None,
                false,
            ),
            text::starts_with(r@, "_ZN"@),
    {
        let ghost c = source(*executor, *metadata, *il2cpp, sanitizer.spelling());
        Self::mangle_method_inner(
            executor,
            metadata,
            il2cpp,
            type_def,
            type_def_index,
            method_def,
            None,
            false,
            sanitizer,
            Ghost(c),
        )
    }

    /// The mangled name of what describes a method.
    pub fn mangle_method_info<F: Fn(&str, NameStyle) -> String>(
        executor: &Il2CppExecutor,
        metadata: &Metadata,
        il2cpp: &Il2Cpp,
        type_def: &Il2CppTypeDefinition,
        type_def_index: usize,
        method_def: &Il2CppMethodDefinition,
        sanitizer: &Sanitizer<F>,
    ) -> (r: String)
        requires
            source_fits(source(*executor, *metadata, *il2cpp, sanitizer.spelling())),
        ensures
            r@ == mangled_method(
                source(*executor, *metadata, *il2cpp, sanitizer.spelling()),
                *type_def,
                type_def_index as nat,
                *method_def,
                None,
                true,
            ),
            text::starts_with(r@, "_ZN"@),
    {
        let ghost c = source(*executor, *metadata, *il2cpp, sanitizer.spelling());
        Self::mangle_method_inner(
            executor,
            metadata,
            il2cpp,
            type_def,
            type_def_index,
            method_def,
            None,
            true,
            sanitizer,
            Ghost(c),
        )
    }

    /// The mangled name of a method of a generic instance.
    pub fn mangle_method_spec<F: Fn(&str, NameStyle) -> String>(
        executor: &Il2CppExecutor,
        metadata: &Metadata,
        il2cpp: &Il2Cpp,
        type_def: &Il2CppTypeDefinition,
        type_def_index: usize,
        method_def: &Il2CppMethodDefinition,
        generic_context: &Il2CppGenericContext,
        sanitizer: &Sanitizer<F>,
    ) -> (r: String)
        requires
            source_fits(source(*executor, *metadata, *il2cpp, sanitizer.spelling())),
            signature_fits(
                source(*executor, *metadata, *il2cpp, sanitizer.spelling()),
                *method_def,
                Some(*generic_context),
            ),
        ensures
            r@ == mangled_method(
                source(*executor, *metadata, *il2cpp, sanitizer.spelling()),
                *type_def,
                type_def_index as nat,
                *method_def,
                Some(*generic_context),
                false,
            ),
            text::starts_with(r@, "_ZN"@),
    {
        let ghost c = source(*executor, *metadata, *il2cpp, sanitizer.spelling());
        Self::mangle_method_inner(
            executor,
            metadata,
            il2cpp,
            type_def,
            type_def_index,
            method_def,
            Some(*generic_context),
            false,
            sanitizer,
            Ghost(c),
        )
    }

    fn mangle_data<F: Fn(&str, NameStyle) -> String>(
        executor: &Il2CppExecutor,
        metadata: &Metadata,
        il2cpp: &Il2Cpp,
        def: &Il2CppTypeDefinition,
        prefix: &str,
        sanitizer: &Sanitizer<F>,
        Ghost(c): Ghost<Source>,
    ) -> (r: String)
        requires
            c.of(*executor, *metadata, *il2cpp, *sanitizer),
        ensures
            r@ == mangled_data(c, *def, prefix@),
            text::starts_with(r@, "_ZN"@),
    {
        let mut b = MangledNameBuilder::new();
        b.write_identifier(prefix, sanitizer, Ghost(c));
        b.skip_sub_index();
        b.write_type_name(def, metadata, il2cpp, executor, sanitizer, Ghost(c));
        b.put("E");
        proof {
            reveal_strlit("_ZN");
            assert(b@.text.subrange(0, 3) =~= "_ZN"@);
        }
        b.buf
    }

    /// The mangled name of the information on a type.
    pub fn mangle_type_info<F: Fn(&str, NameStyle) -> String>(
        executor: &Il2CppExecutor,
        metadata: &Metadata,
        il2cpp: &Il2Cpp,
        type_def: &Il2CppTypeDefinition,
        _type_def_index: usize,
        sanitizer: &Sanitizer<F>,
    ) -> (r: String)
        requires
            source_fits(source(*executor, *metadata, *il2cpp, sanitizer.spelling())),
        ensures
            r@ == mangled_data(
                source(*executor, *metadata, *il2cpp, sanitizer.spelling()),
                *type_def,
                "TypeInfo"@,
            ),
            text::starts_with(r@, "_ZN"@),
    {
        let ghost c = source(*executor, *metadata, *il2cpp, sanitizer.spelling());
        Self::mangle_data(executor, metadata, il2cpp, type_def, "TypeInfo", sanitizer, Ghost(c))
    }

    /// The mangled name of a reference to a type.
    pub fn mangle_type_ref<F: Fn(&str, NameStyle) -> String>(
        executor: &Il2CppExecutor,
        metadata: &Metadata,
        il2cpp: &Il2Cpp,
        type_def: &Il2CppTypeDefinition,
        _type_def_index: usize,
        sanitizer: &Sanitizer<F>,
    ) -> (r: String)
        requires
            source_fits(source(*executor, *metadata, *il2cpp, sanitizer.spelling())),
        ensures
            r@ == mangled_data(
                source(*executor, *metadata, *il2cpp, sanitizer.spelling()),
                *type_def,
                "TypeRef"@,
            ),
            text::starts_with(r@, "_ZN"@),
    {
        let ghost c = source(*executor, *metadata, *il2cpp, sanitizer.spelling());
        Self::mangle_data(executor, metadata, il2cpp, type_def, "TypeRef", sanitizer, Ghost(c))
    }
}

} // verus!
