//! What mangled names tell of methods and types.
use crate::il2cpp::structures::{
    Il2CppGenericContext, Il2CppGenericInst, Il2CppMethodDefinition, Il2CppType,
    Il2CppTypeDefinition, NameResult,
};
use crate::laws::texts;
use crate::laws::values;
use crate::laws::values::{Nature, Shape};
use crate::names::NameStyle;
use crate::numeral;
use crate::output::name_mangler;
use crate::output::name_mangler::{Mangled, Source};
use crate::text;
use vstd::prelude::*;
use vstd::string::*;

verus! {

/// The shape of the values of the builtin type that the Itanium ABI gives a letter, where `long`
/// has 64 bits and a wide character 16.
pub open spec fn shape_of_letter(letter: char) -> Option<Shape> {
    if letter == 'b' {
        values::shape(Nature::Truth, 8)
    } else if letter == 'w' {
        values::shape(Nature::Character, 16)
    } else if letter == 'a' {
        values::shape(Nature::Signed, 8)
    } else if letter == 'h' {
        values::shape(Nature::Unsigned, 8)
    } else if letter == 's' {
        values::shape(Nature::Signed, 16)
    } else if letter == 't' {
        values::shape(Nature::Unsigned, 16)
    } else if letter == 'i' {
        values::shape(Nature::Signed, 32)
    } else if letter == 'j' {
        values::shape(Nature::Unsigned, 32)
    } else if letter == 'l' {
        values::shape(Nature::Signed, 64)
    } else if letter == 'm' {
        values::shape(Nature::Unsigned, 64)
    } else if letter == 'f' {
        values::shape(Nature::Floating, 32)
    } else if letter == 'd' {
        values::shape(Nature::Floating, 64)
    } else {
        None
    }
}

/// What stands before a type that is passed by reference.
pub open spec fn lead(t: Il2CppType) -> Seq<char> {
    if t.byref == 1 {
        "R"@
    } else {
        Seq::empty()
    }
}

/// A value of a fixed width is mangled as the letter of the ABI for its width and its nature, and
/// one as wide as a pointer as an address. Neither can be referred to; a reference to it counts as
/// one part.
pub proof fn law_value_letter(c: Source, b: Mangled, t: Il2CppType)
    requires
        values::shape_of(t.type_enum) is Some,
    ensures
        ({
            let r = name_mangler::with_type(c, b, t);
            let shape = values::shape_of(t.type_enum)->0;
            &&& r.subs == b.subs
            &&& r.next == b.next + if t.byref == 1 {
                1int
            } else {
                0
            }
            &&& shape.bits is Some ==> exists|letter: char| #[trigger]
                shape_of_letter(letter) == Some(shape) && r.text == b.text + lead(t) + seq![letter]
            &&& shape.bits is None ==> r.text == b.text + lead(t) + "Pv"@
        }),
{
    name_mangler::law_with_type(c, b, t, 0);
    let r = name_mangler::with_type(c, b, t);
    reveal_strlit("b");
    reveal_strlit("w");
    reveal_strlit("a");
    reveal_strlit("h");
    reveal_strlit("s");
    reveal_strlit("t");
    reveal_strlit("i");
    reveal_strlit("j");
    reveal_strlit("l");
    reveal_strlit("m");
    reveal_strlit("f");
    reveal_strlit("d");
    let shape = values::shape_of(t.type_enum)->0;
    assert(b.text + Seq::<char>::empty() =~= b.text);
    if shape.bits is Some {
        let letter = r.text.last();
        assert(r.text =~= b.text + lead(t) + seq![letter]);
        assert(shape_of_letter(letter) == Some(shape));
    }
}

/// The type is a value of a fixed width that is passed as it is.
pub open spec fn is_plain(t: Il2CppType) -> bool {
    t.byref != 1 && values::shape_of(t.type_enum) is Some && values::shape_of(
        t.type_enum,
    )->0.bits is Some
}

/// The type of the `j`-th parameter of a method.
pub open spec fn parameter(c: Source, md: Il2CppMethodDefinition, j: int) -> Il2CppType {
    c.il2cpp.types@[c.m.parameter_defs@[md.parameter_start + j].type_index as int]
}

/// All parameters of a method are values of fixed widths.
pub open spec fn parameters_plain(c: Source, md: Il2CppMethodDefinition) -> bool {
    forall|j: int| 0 <= j < md.parameter_count ==> is_plain(#[trigger] parameter(c, md, j))
}

proof fn lemma_plain_parameters(c: Source, b: Mangled, md: Il2CppMethodDefinition, k: nat)
    requires
        k <= md.parameter_count,
        parameters_plain(c, md),
    ensures
        ({
            let r = name_mangler::with_parameters(c, b, md, k);
            &&& r.text.len() == b.text.len() + k
            &&& text::starts_with(r.text, b.text)
            &&& forall|j: int|
                0 <= j < k ==> shape_of_letter(#[trigger] r.text[b.text.len() + j])
                    == values::shape_of(parameter(c, md, j).type_enum)
        }),
    decreases k,
{
    if k == 0 {
        assert(b.text.subrange(0, b.text.len() as int) =~= b.text);
    } else {
        lemma_plain_parameters(c, b, md, (k - 1) as nat);
        let p = name_mangler::with_parameters(c, b, md, (k - 1) as nat);
        let t = parameter(c, md, k - 1);
        let r = name_mangler::with_parameters(c, b, md, k);
        law_value_letter(c, p, t);
        let letter = choose|letter: char| #[trigger]
            shape_of_letter(letter) == values::shape_of(t.type_enum) && r.text == p.text + lead(t)
                + seq![letter];
        assert(r.text =~= p.text.push(letter));
        assert(r.text.subrange(0, b.text.len() as int) =~= p.text.subrange(
            0,
            b.text.len() as int,
        ));
        assert forall|j: int| 0 <= j < k implies shape_of_letter(
            #[trigger] r.text[b.text.len() + j],
        ) == values::shape_of(parameter(c, md, j).type_enum) by {
            if j < k - 1 {
                assert(r.text[b.text.len() + j] == p.text[b.text.len() + j]);
            }
        }
    }
}

/// The name of a method without arguments of its own, all of whose parameters are values of fixed
/// widths, ends in one letter for each parameter, in order, that tells its width and its nature;
/// without parameters it ends in `v`. What stands before depends on the name of the method alone,
/// not on its parameters.
pub proof fn law_plain_method(
    c: Source,
    def: Il2CppTypeDefinition,
    i: nat,
    md: Il2CppMethodDefinition,
    ctx: Option<Il2CppGenericContext>,
)
    requires
        parameters_plain(c, md),
        !name_mangler::returns_first(c, md, ctx, false),
    ensures
        ({
            let r = name_mangler::mangled_method(c, def, i, md, ctx, false);
            let q = name_mangler::qualified(c, def, i, md, ctx, false).text;
            let n = md.parameter_count as int;
            &&& text::starts_with(r, q)
            &&& n == 0 ==> r == q + "v"@
            &&& n > 0 ==> r.len() == q.len() + n && forall|j: int|
                0 <= j < n ==> shape_of_letter(#[trigger] r[q.len() + j]) == values::shape_of(
                    parameter(c, md, j).type_enum,
                )
        }),
{
    let b = name_mangler::qualified(c, def, i, md, ctx, false);
    lemma_plain_parameters(c, b, md, md.parameter_count as nat);
    reveal_strlit("v");
    assert((b.text + "v"@).subrange(0, b.text.len() as int) =~= b.text);
}

/// Overloads have different names: two methods of one name in one class, without arguments of their
/// own and with values of fixed widths as parameters, are mangled differently where they differ in
/// the number of parameters or in the width or the nature of one of them.
pub proof fn law_overloads_apart(
    c: Source,
    def: Il2CppTypeDefinition,
    i: nat,
    a: Il2CppMethodDefinition,
    b: Il2CppMethodDefinition,
)
    requires
        a.name == b.name,
        a.generic_container_index < 0,
        b.generic_container_index < 0,
        parameters_plain(c, a),
        parameters_plain(c, b),
        a.parameter_count != b.parameter_count || exists|j: int|
            0 <= j < a.parameter_count && (#[trigger] parameter(c, a, j)).type_enum != parameter(
                c,
                b,
                j,
            ).type_enum,
    ensures
        name_mangler::mangled_method(c, def, i, a, None, false) != name_mangler::mangled_method(
            c,
            def,
            i,
            b,
            None,
            false,
        ),
{
    law_plain_method(c, def, i, a, None);
    law_plain_method(c, def, i, b, None);
    let q = name_mangler::qualified(c, def, i, a, None, false).text;
    assert(q == name_mangler::qualified(c, def, i, b, None, false).text);
    let x = name_mangler::mangled_method(c, def, i, a, None, false);
    let y = name_mangler::mangled_method(c, def, i, b, None, false);
    reveal_strlit("v");
    if x == y {
        assert(a.parameter_count == 0 ==> x[q.len() as int] == 'v');
        assert(b.parameter_count == 0 ==> y[q.len() as int] == 'v');
        if a.parameter_count > 0 {
            let t = parameter(c, a, 0);
            assert(is_plain(t));
            assert(shape_of_letter(x[q.len() + 0int]) == values::shape_of(t.type_enum));
        }
        if b.parameter_count > 0 {
            let t = parameter(c, b, 0);
            assert(is_plain(t));
            assert(shape_of_letter(y[q.len() + 0int]) == values::shape_of(t.type_enum));
        }
        assert(a.parameter_count == b.parameter_count);
        let j = choose|j: int|
            0 <= j < a.parameter_count && (#[trigger] parameter(c, a, j)).type_enum != parameter(
                c,
                b,
                j,
            ).type_enum;
        assert(is_plain(parameter(c, a, j)));
        assert(is_plain(parameter(c, b, j)));
        assert(shape_of_letter(x[q.len() + j]) == values::shape_of(parameter(c, a, j).type_enum));
        assert(shape_of_letter(y[q.len() + j]) == values::shape_of(parameter(c, b, j).type_enum));
    }
}

/// Pointers and arrays are mangled as what they lead to behind a letter, and count as one part;
/// references come first. What leads nowhere is mangled as nothing, as is `void` itself.
pub proof fn law_layers(c: Source, b: Mangled, t: Il2CppType)
    requires
        name_mangler::type_fits(c, t),
    ensures
        ({
            let r = name_mangler::with_type(c, b, t);
            let e = t.type_enum;
            let array = e == 0x14 || e == 0x1d;
            let inner = c.il2cpp.types@[t.datapoint as int];
            let found = 0 < t.datapoint < c.il2cpp.types@.len();
            let opened = Mangled {
                text: b.text + lead(t) + if array {
                    "A_"@
                } else {
                    "P"@
                },
                ..b
            };
            &&& e == 0x01 ==> r == (Mangled { text: b.text + "v"@, ..b })
            &&& (e == 0x0f || array) && found ==> {
                let q = name_mangler::with_type(c, opened, inner);
                r == (Mangled { next: q.next + 1, ..q })
            }
            &&& (e == 0x0f || array) && !found ==> r == (Mangled {
                text: opened.text + "v"@,
                subs: b.subs,
                next: b.next + 1,
            })
        }),
{
    let n = choose|n: nat| name_mangler::type_ends(c, t, n);
    name_mangler::law_with_type(c, b, t, n);
    let e = t.type_enum;
    let array = e == 0x14 || e == 0x1d;
    let inner = c.il2cpp.types@[t.datapoint as int];
    let found = 0 < t.datapoint < c.il2cpp.types@.len();
    let opened = Mangled {
        text: b.text + lead(t) + if array {
            "A_"@
        } else {
            "P"@
        },
        ..b
    };
    assert(b.text + Seq::<char>::empty() =~= b.text);
    if (e == 0x0f || array) && found {
        assert(c.il2cpp.types@[t.datapoint as int] == inner);
        name_mangler::law_with_type(c, opened, inner, (n - 1) as nat);
    }
}

/// The name of a result, or nothing where it could not be read.
pub open spec fn read_name(name: NameResult) -> Seq<char> {
    match name {
        Ok(s) => s@,
        Err(_) => Seq::empty(),
    }
}

/// The identifiers that the name of a type definition is made of: the parts of its namespace, the
/// type that it is declared in, and its own name without the number of its parameters.
pub open spec fn type_parts(c: Source, def: Il2CppTypeDefinition) -> Seq<Seq<char>> {
    let d = def.declaring_type_index as int;
    let outer = if 0 <= d < c.il2cpp.types@.len() {
        let t = c.il2cpp.types@[d];
        seq![
            if (t.type_enum == 0x11 || t.type_enum == 0x12) && t.klass_index
                < c.m.type_defs@.len() {
                text::before(read_name(c.m.type_defs@[t.klass_index as int].name), '`')
            } else {
                c.x.short_type_names@[d]@
            },
        ]
    } else {
        Seq::empty()
    };
    text::split(read_name(def.namespace), '.').filter(|id: Seq<char>| id.len() > 0) + outer + seq![
        text::before(read_name(def.name), '`'),
    ]
}

/// Identifiers one after the other, each spelled and behind the number of its bytes.
pub open spec fn spelled_parts(c: Source, ids: Seq<Seq<char>>) -> Seq<char>
    decreases ids.len(),
{
    if ids.len() == 0 {
        Seq::empty()
    } else {
        spelled_parts(c, ids.drop_last()) + spelled_part(c, ids.last())
    }
}

/// An identifier, spelled and behind the number of its bytes.
pub open spec fn spelled_part(c: Source, id: Seq<char>) -> Seq<char> {
    let spelled = (c.spelling)(id, NameStyle::Mangled);
    numeral::dec(vstd::utf8::encode_utf8(spelled).len()) + spelled
}

proof fn lemma_namespace(c: Source, b: Mangled, ids: Seq<Seq<char>>, k: nat)
    requires
        k <= ids.len(),
    ensures
        ({
            let kept = ids.take(k as int).filter(|id: Seq<char>| id.len() > 0);
            let r = name_mangler::with_parts(c, b, ids, k);
            &&& r.text == b.text + spelled_parts(c, kept)
            &&& r.subs == b.subs
            &&& r.next == b.next + kept.len()
        }),
    decreases k,
{
    reveal(Seq::filter);
    let wanted = |id: Seq<char>| id.len() > 0;
    if k == 0 {
        assert(ids.take(0).filter(wanted) =~= Seq::<Seq<char>>::empty());
        assert(b.text + Seq::<char>::empty() =~= b.text);
    } else {
        lemma_namespace(c, b, ids, (k - 1) as nat);
        assert(ids.take(k as int).drop_last() =~= ids.take(k - 1));
        assert(ids.take(k as int).last() == ids[k - 1]);
        let before = ids.take(k - 1).filter(wanted);
        let kept = ids.take(k as int).filter(wanted);
        if ids[k - 1].len() > 0 {
            assert(kept == before.push(ids[k - 1]));
            assert(kept.drop_last() =~= before);
            assert(name_mangler::with_parts(c, b, ids, k).text =~= b.text + spelled_parts(
                c,
                kept,
            ));
        } else {
            assert(kept == before);
        }
    }
}

/// The name of a type definition inside a mangled name is made of its identifiers in order, each
/// behind the number of its bytes. All but the last count as parts.
pub proof fn law_type_name(c: Source, b: Mangled, def: Il2CppTypeDefinition)
    ensures
        ({
            let r = name_mangler::with_type_name(c, b, def);
            &&& r.text == b.text + spelled_parts(c, type_parts(c, def))
            &&& r.subs == b.subs
            &&& r.next == b.next + type_parts(c, def).len() - 1
        }),
{
    let ids = text::split(read_name(def.namespace), '.');
    reveal_strlit("");
    assert(""@ =~= Seq::<char>::empty());
    assert(crate::il2cpp::structures::name_or(def.namespace, ""@) == read_name(def.namespace));
    assert(crate::il2cpp::structures::name_or(def.name, ""@) == read_name(def.name));
    lemma_namespace(c, b, ids, ids.len());
    assert(ids.take(ids.len() as int) =~= ids);
    let kept = ids.filter(|id: Seq<char>| id.len() > 0);
    let own = text::before(read_name(def.name), '`');
    let all = type_parts(c, def);
    assert(all.last() == own);
    let r = name_mangler::with_type_name(c, b, def);
    match name_mangler::declaring_name(c, def) {
        Some(name) => {
            let t = c.il2cpp.types@[def.declaring_type_index as int];
            if t.klass_index < c.m.type_defs@.len() {
                assert(crate::il2cpp::structures::name_or(
                    c.m.type_defs@[t.klass_index as int].name,
                    ""@,
                ) == read_name(c.m.type_defs@[t.klass_index as int].name));
            }
            assert(all =~= kept.push(name).push(own));
            assert(all.drop_last() =~= kept.push(name));
            assert(kept.push(name).drop_last() =~= kept);
            assert(spelled_parts(c, kept.push(name)) == spelled_parts(c, kept) + spelled_part(
                c,
                name,
            ));
            assert(spelled_parts(c, all) == spelled_parts(c, kept.push(name)) + spelled_part(
                c,
                own,
            ));
            assert(r.text =~= b.text + spelled_parts(c, all));
        },
        None => {
            assert(all =~= kept.push(own));
            assert(all.drop_last() =~= kept);
            assert(r.text =~= b.text + spelled_parts(c, all));
        },
    }
}

/// A type definition that has been mangled before is referred to; otherwise it is written between
/// `N` and `E` and can be referred to from then on. Types of the system are written in the same
/// way.
pub proof fn law_definition(c: Source, b: Mangled, t: Il2CppType)
    requires
        t.byref != 1,
    ensures
        ({
            let r = name_mangler::with_type(c, b, t);
            let def = c.m.type_defs@[t.klass_index as int];
            let key = name_mangler::type_key(def, t.klass_index as nat);
            let e = t.type_enum;
            &&& (e == 0x11 || e == 0x12) && t.klass_index < c.m.type_defs@.len()
                && !b.subs.contains_key(key) ==> {
                &&& r.text == b.text + "N"@ + spelled_parts(c, type_parts(c, def)) + "E"@
                &&& r.subs == b.subs.insert(key, r.subs[key])
                &&& r.subs.contains_key(key)
                &&& r.next == b.next + type_parts(c, def).len()
                &&& r.subs[key] == (r.next - 1) as usize
            }
            &&& (e == 0x11 || e == 0x12) && t.klass_index < c.m.type_defs@.len()
                && b.subs.contains_key(key) ==> r == name_mangler::referred(b, key).1
            &&& (e == 0x11 || e == 0x12) && t.klass_index >= c.m.type_defs@.len() ==> r == (
            Mangled { text: b.text + "v"@, ..b })
        }),
        ({
            let r = name_mangler::with_type(c, b, t);
            let e = t.type_enum;
            let name = if e == 0x0e {
                "String"@
            } else if e == 0x1c {
                "Object"@
            } else {
                "TypedReference"@
            };
            let key = "sys::"@ + "System"@ + "::"@ + name;
            &&& (e == 0x0e || e == 0x1c || e == 0x16) && !b.subs.contains_key(key) ==> r.text
                == b.text + "N"@ + spelled_part(c, "System"@) + spelled_part(c, name) + "E"@
                && r.subs.contains_key(key)
            &&& (e == 0x0e || e == 0x1c || e == 0x16) && b.subs.contains_key(key) ==> r
                == name_mangler::referred(b, key).1
        }),
{
    let e = t.type_enum;
    if e == 0x11 || e == 0x12 || e == 0x0e || e == 0x1c || e == 0x16 {
        name_mangler::law_with_type(c, b, t, 0);
    }
    let n = name_mangler::put(b, "N"@);
    if t.klass_index < c.m.type_defs@.len() {
        law_type_name(c, n, c.m.type_defs@[t.klass_index as int]);
    }
    lemma_system(c, n);
    let r = name_mangler::with_type(c, b, t);
    if (e == 0x0e || e == 0x1c || e == 0x16) {
        let name = if e == 0x0e {
            "String"@
        } else if e == 0x1c {
            "Object"@
        } else {
            "TypedReference"@
        };
        if !b.subs.contains_key("sys::"@ + "System"@ + "::"@ + name) {
            assert(r.text =~= b.text + "N"@ + spelled_part(c, "System"@) + spelled_part(c, name)
                + "E"@);
        }
    }
}

proof fn lemma_system(c: Source, b: Mangled)
    ensures
        name_mangler::with_namespace(c, b, "System"@).text == b.text + spelled_part(c, "System"@),
{
    reveal_strlit("System");
    let s = "System"@;
    texts::law_find(s, '.');
    assert(text::find(s, '.') == s.len()) by {
        if text::find(s, '.') < s.len() {
            let i = text::find(s, '.');
            assert(s[i] == '.');
            assert(i == 0 || i == 1 || i == 2 || i == 3 || i == 4 || i == 5);
        }
    }
    assert(text::split(s, '.') =~= seq![s]);
    reveal_with_fuel(name_mangler::with_parts, 3);
}

/// What stands for the name of a method: `C1` for a constructor, `cctor` for the initialiser of a
/// type, and its own name elsewhere.
pub open spec fn method_id(c: Source, md: Il2CppMethodDefinition) -> Seq<char> {
    let name = read_name(md.name);
    if name == ".ctor"@ {
        "C1"@
    } else if name == ".cctor"@ {
        spelled_part(c, "cctor"@)
    } else {
        spelled_part(c, name)
    }
}

/// The name of a method outside any instance begins with `_ZN`, the identifiers of its type and its
/// own, and `E`; that of what describes it has `MethodInfo` in front and ends in `v`. A generic
/// method then tells its result.
pub proof fn law_method_name(
    c: Source,
    def: Il2CppTypeDefinition,
    i: nat,
    md: Il2CppMethodDefinition,
)
    ensures
        ({
            let types = spelled_parts(c, type_parts(c, def));
            let head = "_ZN"@ + types + method_id(c, md) + "E"@;
            let r = name_mangler::mangled_method(c, def, i, md, None, false);
            &&& name_mangler::qualified(c, def, i, md, None, false).text == head
            &&& name_mangler::mangled_method(c, def, i, md, None, true) == "_ZN"@ + spelled_part(
                c,
                "MethodInfo"@,
            ) + types + method_id(c, md) + "E"@ + "v"@
            &&& md.generic_container_index < 0 && md.parameter_count == 0 ==> r == head + "v"@
            &&& md.generic_container_index >= 0 && md.parameter_count == 0 ==> r == match (
            if md.return_type < c.il2cpp.types@.len() {
                Some(c.il2cpp.types@[md.return_type as int])
            } else {
                None
            }) {
                Some(t) => name_mangler::with_type(
                    c,
                    name_mangler::qualified(c, def, i, md, None, false),
                    t,
                ).text,
                None => head + "v"@,
            }
        }),
{
    reveal_strlit("");
    assert(""@ =~= Seq::<char>::empty());
    assert(crate::il2cpp::structures::name_or(md.name, ""@) == read_name(md.name));
    law_type_name(c, name_mangler::started(), def);
    law_type_name(c, name_mangler::with_part(c, name_mangler::started(), "MethodInfo"@), def);
    assert(name_mangler::mangled_method(c, def, i, md, None, true) =~= "_ZN"@ + spelled_part(
        c,
        "MethodInfo"@,
    ) + spelled_parts(c, type_parts(c, def)) + method_id(c, md) + "E"@ + "v"@);
}

// Generic types and methods.

/// The name with the first `k` of some types, given by the addresses of their records, one after
/// the other. One that is not known is mangled as nothing.
pub open spec fn with_all(c: Source, b: Mangled, args: Seq<u64>, k: int) -> Mangled
    decreases k,
{
    if k <= 0 {
        b
    } else {
        let p = with_all(c, b, args, k - 1);
        match c.il2cpp.type_at(args[k - 1]) {
            Some(u) => name_mangler::with_type(c, p, u),
            None => Mangled { text: p.text + "v"@, ..p },
        }
    }
}

proof fn lemma_with_all(c: Source, b: Mangled, args: Seq<u64>, k: nat, n: nat)
    requires
        k <= args.len(),
        name_mangler::arguments_end(c, args, n),
    ensures
        name_mangler::with_arguments_within(c, b, args, k, n) == with_all(c, b, args, k as int),
    decreases k,
{
    if k > 0 {
        lemma_with_all(c, b, args, (k - 1) as nat, n);
        let p = with_all(c, b, args, k - 1);
        assert(c.il2cpp.type_at(args[k - 1]) matches Some(u) ==> name_mangler::type_ends(c, u, n));
        if let Some(u) = c.il2cpp.type_at(args[k - 1]) {
            name_mangler::law_with_type(c, p, u, n);
        }
    }
}

/// The addresses of the arguments of a generic instance; none where they cannot be read.
pub open spec fn arguments_of(c: Source, inst: Il2CppGenericInst) -> Seq<u64> {
    match c.il2cpp.pointers_at(inst.type_argv, inst.type_argc) {
        Ok(v) => v,
        Err(_) => Seq::empty(),
    }
}

/// The arguments of an instance are mangled in order between `I` and `E`.
pub proof fn law_inst(c: Source, b: Mangled, inst: Il2CppGenericInst)
    requires
        name_mangler::inst_fits(c, inst),
    ensures
        ({
            let args = arguments_of(c, inst);
            let q = with_all(c, Mangled { text: b.text + "I"@, ..b }, args, args.len() as int);
            name_mangler::with_inst(c, b, inst) == (Mangled { text: q.text + "E"@, ..q })
        }),
{
    let args = arguments_of(c, inst);
    let n = choose|n: nat| name_mangler::arguments_end(c, args, n);
    assert(name_mangler::arguments_end(c, args, n));
    lemma_with_all(c, name_mangler::put(b, "I"@), args, args.len(), n);
}

/// A generic type that has been mangled before is referred to. Otherwise it is written between `N`
/// and `E`: the identifiers of its type definition, and its arguments between `I` and `E`; from
/// then on it can be referred to. One that is not known is mangled as nothing.
pub proof fn law_generic_type(c: Source, b: Mangled, t: Il2CppType)
    requires
        name_mangler::type_fits(c, t),
        t.type_enum == 0x15,
        t.byref != 1,
    ensures
        ({
            let r = name_mangler::with_type(c, b, t);
            let class = t.generic_class;
            let known = class != 0 && c.il2cpp.generic_class_at(class) is Ok
                && c.x.generic_class_defs@.contains_key(class);
            let td = c.x.generic_class_defs@[class];
            let at = c.il2cpp.generic_class_at(class)->Ok_0.context.class_inst;
            let key = "td#"@ + numeral::dec(td as nat) + "::gi_ctx@0x"@ + numeral::numeral(
                at as nat,
                16,
                false,
            );
            let inst = c.il2cpp.generic_inst_at(at);
            let nothing = Mangled { text: b.text + "v"@, ..b };
            let parts = type_parts(c, c.m.type_defs@[td as int]);
            let opened = Mangled {
                text: b.text + "N"@ + spelled_parts(c, parts) + "I"@,
                subs: b.subs,
                next: (b.next + parts.len()) as nat,
            };
            let args = arguments_of(c, inst->Ok_0);
            let q = with_all(c, opened, args, args.len() as int);
            &&& !known ==> r == nothing
            &&& known && b.subs.contains_key(key) ==> r == name_mangler::referred(b, key).1
            &&& known && !b.subs.contains_key(key) && inst is Err ==> r == nothing
            &&& known && !b.subs.contains_key(key) && inst is Ok ==> r == (Mangled {
                text: q.text + "E"@ + "E"@,
                subs: q.subs.insert(key, q.next as usize),
                next: q.next + 1,
            })
        }),
{
    let n = choose|n: nat| name_mangler::type_ends(c, t, n);
    name_mangler::law_with_type(c, b, t, n);
    if let Some((td, at)) = name_mangler::instance_of(c, t) {
        let def = c.m.type_defs@[td];
        law_type_name(c, name_mangler::put(b, "N"@), def);
        if let Ok(inst) = c.il2cpp.generic_inst_at(at) {
            let args = arguments_of(c, inst);
            assert(n > 0);
            assert(name_mangler::arguments_end(c, args, (n - 1) as nat));
            let named = name_mangler::skipped(
                name_mangler::with_type_name(c, name_mangler::put(b, "N"@), def),
            );
            lemma_with_all(
                c,
                name_mangler::put(named, "I"@),
                args,
                args.len(),
                (n - 1) as nat,
            );
        }
    }
}

/// The generic instance at an address, where there is one that can be read.
pub open spec fn inst_at(c: Source, at: u64) -> Option<Il2CppGenericInst> {
    if at != 0 && c.il2cpp.generic_inst_at(at) is Ok {
        Some(c.il2cpp.generic_inst_at(at)->Ok_0)
    } else {
        None
    }
}

/// The qualified name of a method in a context is made of the identifiers of its type, the
/// arguments of its class if there are any, its own name, and its own arguments if there are any.
/// The class can be referred to under its type definition and the address of its arguments;
/// arguments count as one part. A method with arguments of its own, or with parameters for types,
/// tells its result first.
pub proof fn law_qualified(
    c: Source,
    def: Il2CppTypeDefinition,
    i: nat,
    md: Il2CppMethodDefinition,
    ctx: Option<Il2CppGenericContext>,
    info: bool,
)
    ensures
        ({
            let class = if ctx is Some {
                inst_at(c, ctx->0.class_inst)
            } else {
                None
            };
            let method = if ctx is Some {
                inst_at(c, ctx->0.method_inst)
            } else {
                None
            };
            let start = Mangled { text: "_ZN"@, subs: Map::empty(), next: 0 };
            let a = if info {
                Mangled {
                    text: "_ZN"@ + spelled_part(c, "MethodInfo"@),
                    subs: Map::empty(),
                    next: 1,
                }
            } else {
                start
            };
            let named = Mangled {
                text: a.text + spelled_parts(c, type_parts(c, def)),
                subs: a.subs,
                next: (a.next + type_parts(c, def).len() - 1) as nat,
            };
            let typed = match class {
                Some(inst) => name_mangler::with_inst(
                    c,
                    Mangled { next: named.next + 1, ..named },
                    inst,
                ),
                None => named,
            };
            let key = "td#"@ + numeral::dec(i) + "::"@ + numeral::dec_int(
                def.namespace_index as int,
            ) + "::"@ + numeral::dec_int(def.name_index as int) + (match class {
                Some(_) => "::gi_ctx@0x"@ + numeral::numeral(ctx->0.class_inst as nat, 16, false),
                None => Seq::empty(),
            });
            let noted = Mangled {
                text: typed.text + method_id(c, md),
                subs: typed.subs.insert(key, typed.next as usize),
                next: typed.next + 1,
            };
            let whole = match method {
                Some(inst) => name_mangler::with_inst(
                    c,
                    Mangled { next: noted.next + 1, ..noted },
                    inst,
                ),
                None => noted,
            };
            &&& name_mangler::qualified(c, def, i, md, ctx, info) == (Mangled {
                text: whole.text + "E"@,
                ..whole
            })
            &&& name_mangler::returns_first(c, md, ctx, info) <==> !info && (method is Some
                || md.generic_container_index >= 0)
        }),
{
    reveal_strlit("");
    assert(""@ =~= Seq::<char>::empty());
    assert(crate::il2cpp::structures::name_or(md.name, ""@) == read_name(md.name));
    let a = if info {
        name_mangler::with_part(c, name_mangler::started(), "MethodInfo"@)
    } else {
        name_mangler::started()
    };
    law_type_name(c, a, def);
    let key = name_mangler::type_key(def, i);
    assert(key + Seq::<char>::empty() =~= key);
    if ctx is Some {
        let digits = numeral::numeral(ctx->0.class_inst as nat, 16, false);
        assert(key + "::gi_ctx@0x"@ + digits =~= key + ("::gi_ctx@0x"@ + digits));
    }
}

/// The parameters of a method are mangled in order behind its qualified name, and behind its result
/// where that is told.
pub proof fn law_method_parameters(
    c: Source,
    def: Il2CppTypeDefinition,
    i: nat,
    md: Il2CppMethodDefinition,
    ctx: Option<Il2CppGenericContext>,
    k: nat,
)
    requires
        md.parameter_count > 0,
    ensures
        ({
            let q = name_mangler::qualified(c, def, i, md, ctx, false);
            let start = if name_mangler::returns_first(c, md, ctx, false) {
                if md.return_type < c.il2cpp.types@.len() {
                    name_mangler::with_type(c, q, c.il2cpp.types@[md.return_type as int])
                } else {
                    Mangled { text: q.text + "v"@, ..q }
                }
            } else {
                q
            };
            &&& name_mangler::mangled_method(c, def, i, md, ctx, false)
                == name_mangler::with_parameters(c, start, md, md.parameter_count as nat).text
            &&& name_mangler::with_parameters(c, start, md, 0) == start
            &&& name_mangler::with_parameters(c, start, md, k + 1) == name_mangler::with_type(
                c,
                name_mangler::with_parameters(c, start, md, k),
                parameter(c, md, k as int),
            )
        }),
{
}

} // verus!
