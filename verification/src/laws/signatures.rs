//! The functions behind methods: their objects, their parameters and their results.
use crate::il2cpp::structures::{
    Il2CppGenericContext, Il2CppMethodDefinition, Il2CppType, Il2CppTypeDefinition, NameResult,
};
use crate::laws::texts;
use crate::names::{NameStyle, Spelling};
use crate::output::c_types;
use crate::output::c_types::{CStyle, Node, Scene};
use crate::output::signature;
use crate::text;
use vstd::prelude::*;
use vstd::string::*;

verus! {

/// The method belongs to its type alone: the fifth bit of its flags is set.
pub open spec fn is_static(md: Il2CppMethodDefinition) -> bool {
    (md.flags / 0x10) % 2 == 1
}

proof fn lemma_static(md: Il2CppMethodDefinition)
    ensures
        signature::is_static(md) == is_static(md),
{
    let flags = md.flags;
    assert((flags & 0x10 != 0) == ((flags / 0x10) % 2 == 1)) by (bit_vector);
}

/// The structure that a type definition has, or that of all objects.
pub open spec fn structure(s: Scene, td: usize) -> Seq<char> {
    if s.names.contains_key(td) {
        s.names[td]
    } else {
        "Il2CppObject"@
    }
}

/// The C type of the object that a method is called on. A value type is passed by its address.
pub open spec fn object_type(
    s: Scene,
    style: CStyle,
    def: Il2CppTypeDefinition,
    td: usize,
    ctx: Option<Il2CppGenericContext>,
) -> Seq<char> {
    let t = s.il2cpp.types@[def.byval_type_index as int];
    if def.is_value_type {
        structure(
            s,
            match style {
                CStyle::Header => t.klass_index,
                CStyle::Scaffold => td,
            },
        ) + "*"@
    } else {
        c_types::c_type(s, style, Node { t, ctx, special: false })
    }
}

/// The parameters begin with an object of the C type `before`, and others follow it.
pub open spec fn object_before(params: Seq<char>, before: Seq<char>) -> bool {
    text::starts_with(params, before + " __this, "@)
}

/// The parameters of the function behind an instance method begin with its object: what stands
/// before `" __this"` is a pointer to the structure of the declaring type where that is a value
/// type, and elsewhere its C type, made a pointer in signatures if it is none.
pub proof fn law_object(
    s: Scene,
    style: CStyle,
    spelling: Spelling,
    md: Il2CppMethodDefinition,
    def: Il2CppTypeDefinition,
    td: usize,
    ctx: Option<Il2CppGenericContext>,
)
    requires
        !is_static(md),
    ensures
        ({
            let params = signature::parameters(s, style, spelling, md, def, td, ctx);
            let object = object_type(s, style, def, td, ctx);
            &&& (object.len() > 0 && object.last() == '*') || style == CStyle::Header
                ==> object_before(params, object)
            &&& (object.len() == 0 || object.last() != '*') && style == CStyle::Scaffold
                ==> object_before(params, object + "*"@)
            &&& def.is_value_type ==> object.len() > 0 && object.last() == '*'
        }),
{
    lemma_static(md);
    let object = object_type(s, style, def, td, ctx);
    reveal_strlit("*");
    reveal_strlit(" __this");
    reveal_strlit("* __this");
    reveal_strlit(" __this, ");
    reveal_strlit(", ");
    let this = signature::this_text(s, style, md, def, td, ctx)->0;
    let whole = if (object.len() > 0 && object.last() == '*') || style == CStyle::Header {
        object
    } else {
        object + "*"@
    };
    assert(this =~= whole + " __this"@);
    let rest = signature::parameter_texts(
        s,
        style,
        spelling,
        md,
        ctx,
        md.parameter_count as nat,
    ) + seq!["const MethodInfo* method"@];
    texts::law_joined(seq![this], rest, this, ", "@);
    let params = signature::parameters(s, style, spelling, md, def, td, ctx);
    assert(seq![this] + signature::parameter_texts(
        s,
        style,
        spelling,
        md,
        ctx,
        md.parameter_count as nat,
    ) + seq!["const MethodInfo* method"@] =~= seq![this] + rest);
    let head = whole + " __this, "@;
    assert(this + ", "@ =~= head);
    assert(params.subrange(0, head.len() as int) =~= head);
}

/// The object of a class with a structure is a pointer to that structure.
pub proof fn law_object_of_class(
    s: Scene,
    style: CStyle,
    def: Il2CppTypeDefinition,
    td: usize,
    ctx: Option<Il2CppGenericContext>,
)
    requires
        !def.is_value_type,
        s.il2cpp.types@[def.byval_type_index as int].type_enum == 0x12,
    ensures
        ({
            let object = object_type(s, style, def, td, ctx);
            let k = s.il2cpp.types@[def.byval_type_index as int].klass_index;
            &&& object.last() == '*'
            &&& s.names.contains_key(k) ==> object == s.names[k] + "_o*"@
            &&& !s.names.contains_key(k) ==> object == "Il2CppObject*"@
        }),
{
    let t = s.il2cpp.types@[def.byval_type_index as int];
    crate::laws::values::law_c_type_structures(s, style, Node { t, ctx, special: false });
    reveal_strlit("_o*");
    reveal_strlit("Il2CppObject*");
}

/// The name of a parameter, or a stand-in where it could not be read.
pub open spec fn parameter_name(name: NameResult) -> Seq<char> {
    match name {
        Ok(s) => s@,
        Err(_) => "param"@,
    }
}

/// The text is a value of a type under a name: the C type, with one star more for a reference, a
/// space, and the name.
pub open spec fn is_value(
    s: Scene,
    style: CStyle,
    t: Il2CppType,
    ctx: Option<Il2CppGenericContext>,
    name: Seq<char>,
    text: Seq<char>,
) -> bool {
    text == c_types::c_type(s, style, Node { t, ctx, special: false }) + (if t.byref == 1 {
        "* "@
    } else {
        " "@
    }) + name
}

/// The parameters of the function behind a method, between commas: its object, which a static
/// method has up to version 24 only, then one for each parameter of the method in order, with its
/// type and its spelled name, and last the description of the method.
pub proof fn law_parameters(
    s: Scene,
    style: CStyle,
    spelling: Spelling,
    md: Il2CppMethodDefinition,
    def: Il2CppTypeDefinition,
    td: usize,
    ctx: Option<Il2CppGenericContext>,
)
    ensures
        exists|parts: Seq<Seq<char>>|
            {
                let n = if is_static(md) && s.il2cpp.version > 2400 {
                    0int
                } else {
                    1
                };
                &&& signature::parameters(s, style, spelling, md, def, td, ctx)
                    == #[trigger] text::joined(parts, ", "@)
                &&& parts.len() == n + md.parameter_count + 1
                &&& is_static(md) && n == 1 ==> parts[0] == "Il2CppObject* __this"@
                &&& !is_static(md) ==> text::ends_with(parts[0], "* __this"@)
                    || !def.is_value_type && style == CStyle::Header && parts[0] == object_type(
                    s,
                    style,
                    def,
                    td,
                    ctx,
                ) + " __this"@
                &&& parts.last() == "const MethodInfo* method"@
                &&& forall|j: int|
                    0 <= j < md.parameter_count ==> {
                        let p = s.m.parameter_defs@[md.parameter_start + j];
                        is_value(
                            s,
                            style,
                            s.il2cpp.types@[p.type_index as int],
                            ctx,
                            spelling(
                                parameter_name(p.name),
                                match style {
                                    CStyle::Header => NameStyle::Cpp,
                                    CStyle::Scaffold => NameStyle::CppDollar,
                                },
                            ),
                            #[trigger] parts[n + j],
                        )
                    }
            },
{
    lemma_static(md);
    let first = match signature::this_text(s, style, md, def, td, ctx) {
        Some(t) => seq![t],
        None => Seq::<Seq<char>>::empty(),
    };
    let n = first.len() as int;
    let params = signature::parameter_texts(
        s,
        style,
        spelling,
        md,
        ctx,
        md.parameter_count as nat,
    );
    let parts = first + params + seq!["const MethodInfo* method"@];
    reveal_strlit("* __this");
    reveal_strlit(" __this");
    if !is_static(md) {
        let this = first[0];
        assert(parts[0] == this);
        if def.is_value_type || style == CStyle::Scaffold {
            assert(this.subrange(this.len() - 8, this.len() as int) =~= "* __this"@);
        }
    }
    reveal_strlit("*");
    reveal_strlit(" ");
    reveal_strlit("* ");
    assert forall|j: int| 0 <= j < md.parameter_count implies {
        let p = s.m.parameter_defs@[md.parameter_start + j];
        is_value(
            s,
            style,
            s.il2cpp.types@[p.type_index as int],
            ctx,
            spelling(
                parameter_name(p.name),
                match style {
                    CStyle::Header => NameStyle::Cpp,
                    CStyle::Scaffold => NameStyle::CppDollar,
                },
            ),
            #[trigger] parts[n + j],
        )
    } by {
        let p = s.m.parameter_defs@[md.parameter_start + j];
        let t = s.il2cpp.types@[p.type_index as int];
        let c = c_types::c_type(s, style, Node { t, ctx, special: false });
        assert(parts[n + j] == params[j]);
        let name = spelling(
            parameter_name(p.name),
            match style {
                CStyle::Header => NameStyle::Cpp,
                CStyle::Scaffold => NameStyle::CppDollar,
            },
        );
        assert(params[j] =~= c + (if t.byref == 1 {
            "* "@
        } else {
            " "@
        }) + name);
    }
    assert(signature::parameters(s, style, spelling, md, def, td, ctx) == text::joined(
        parts,
        ", "@,
    ));
}

/// The declaration of the function behind a method is its result, its spelled name, and its
/// parameters in brackets.
pub proof fn law_declaration(
    s: Scene,
    spelling: Spelling,
    md: Il2CppMethodDefinition,
    def: Il2CppTypeDefinition,
    full_name: Seq<char>,
    ctx: Option<Il2CppGenericContext>,
)
    ensures
        exists|head: Seq<char>|
            {
                &&& signature::declaration(s, spelling, md, def, full_name, ctx) == #[trigger] (head
                    + " ("@) + signature::parameters(
                    s,
                    CStyle::Header,
                    spelling,
                    md,
                    def,
                    0,
                    ctx,
                ) + ");"@
                &&& is_value(
                    s,
                    CStyle::Header,
                    s.il2cpp.types@[md.return_type as int],
                    ctx,
                    spelling(full_name, NameStyle::Cpp),
                    head,
                )
            },
{
    let t = s.il2cpp.types@[md.return_type as int];
    let c = c_types::c_type(s, CStyle::Header, Node { t, ctx, special: false });
    reveal_strlit("*");
    reveal_strlit(" ");
    reveal_strlit("* ");
    let head = c + (if t.byref == 1 {
        "* "@
    } else {
        " "@
    }) + spelling(full_name, NameStyle::Cpp);
    assert(head =~= signature::value_type(s, CStyle::Header, t, ctx) + " "@ + spelling(
        full_name,
        NameStyle::Cpp,
    ));
    assert(signature::declaration(s, spelling, md, def, full_name, ctx) == (head + " ("@)
        + signature::parameters(s, CStyle::Header, spelling, md, def, 0, ctx) + ");"@);
}

/// The letter of a value: references are addresses.
pub open spec fn letter_for(t: Il2CppType, void_result: bool) -> char {
    let e = t.type_enum;
    if t.byref == 1 {
        'i'
    } else if e == 0x01 {
        'v'
    } else if e == 0x0a || e == 0x0b {
        'j'
    } else if e == 0x0c {
        'f'
    } else if e == 0x0d {
        'd'
    } else if t.element() is None && void_result {
        'v'
    } else {
        'i'
    }
}

/// The letters of a method tell what the function behind it returns, what its object is if it has
/// one, what its parameters are in order, and last that its description is an address.
pub proof fn law_letters(s: Scene, md: Il2CppMethodDefinition, def: Il2CppTypeDefinition)
    ensures
        ({
            let letters = signature::kind_letters(signature::kinds(s, md, def));
            let n = if is_static(md) && s.il2cpp.version > 2400 {
                1int
            } else {
                2
            };
            &&& letters.len() == n + md.parameter_count + 1
            &&& letters[0] == letter_for(s.il2cpp.types@[md.return_type as int], true)
            &&& is_static(md) && n == 2 ==> letters[1] == 'i'
            &&& !is_static(md) ==> letters[1] == letter_for(
                Il2CppType { byref: 0, ..s.il2cpp.types@[def.byval_type_index as int] },
                false,
            )
            &&& forall|j: int|
                0 <= j < md.parameter_count ==> #[trigger] letters[n + j] == letter_for(
                    s.il2cpp.types@[s.m.parameter_defs@[md.parameter_start + j].type_index as int],
                    false,
                )
            &&& letters.last() == 'i'
        }),
{
    lemma_static(md);
}

} // verus!
