//! The C signatures of methods.
use crate::executor::Il2CppExecutor;
use crate::il2cpp::base::Il2Cpp;
use crate::il2cpp::enums::{Il2CppTypeEnum, METHOD_STATIC, V24};
use crate::il2cpp::field_layout;
use crate::il2cpp::metadata::Metadata;
use crate::il2cpp::structures;
use crate::il2cpp::structures::{
    Il2CppGenericContext, Il2CppMethodDefinition, Il2CppType, Il2CppTypeDefinition,
};
use crate::names::{NameStyle, Sanitizer, Spelling};
use crate::output::c_types;
use crate::output::c_types::{CStyle, Node, Scene};
use crate::text;
use std::collections::HashMap;
use vstd::prelude::*;
use vstd::string::*;

verus! {

// The kinds of parameters and results.

/// The letter for a kind of value.
pub open spec fn kind_letter(e: Il2CppTypeEnum) -> char {
    match e {
        Il2CppTypeEnum::Void => 'v',
        Il2CppTypeEnum::I8 | Il2CppTypeEnum::U8 => 'j',
        Il2CppTypeEnum::R4 => 'f',
        Il2CppTypeEnum::R8 => 'd',
        _ => 'i',
    }
}

/// The letters for the kinds of some values.
pub open spec fn kind_letters(kinds: Seq<Il2CppTypeEnum>) -> Seq<char> {
    kinds.map_values(|e: Il2CppTypeEnum| kind_letter(e))
}

fn letter_of(e: Il2CppTypeEnum) -> (r: char)
    ensures
        r == kind_letter(e),
{
    match e {
        Il2CppTypeEnum::Void => 'v',
        Il2CppTypeEnum::I8 | Il2CppTypeEnum::U8 => 'j',
        Il2CppTypeEnum::R4 => 'f',
        Il2CppTypeEnum::R8 => 'd',
        _ => 'i',
    }
}

/// Writes the letters for the kinds of some values.
pub fn get_method_type_signature(types: &Vec<Il2CppTypeEnum>) -> (r: String)
    ensures
        r@ == kind_letters(types@),
{
    let mut out = String::new();
    let mut i: usize = 0;
    assert(out@ =~= kind_letters(types@.take(0)));
    while i < types.len()
        invariant
            i <= types@.len(),
            out@ == kind_letters(types@.take(i as int)),
        decreases types@.len() - i,
    {
        assert(kind_letters(types@.take(i + 1)) =~= kind_letters(types@.take(i as int)).push(
            kind_letter(types@[i as int]),
        ));
        out.push(letter_of(types[i]));
        i = i + 1;
    }
    assert(types@.take(types@.len() as int) =~= types@);
    out
}

// The parts of a signature.

/// The kind of a value: references are pointers.
pub open spec fn kind_of(t: Il2CppType, fallback: Il2CppTypeEnum) -> Il2CppTypeEnum {
    if t.byref == 1 {
        Il2CppTypeEnum::Ptr
    } else {
        match t.element() {
            Some(e) => e,
            None => fallback,
        }
    }
}

fn find_kind(t: &Il2CppType, fallback: Il2CppTypeEnum) -> (r: Il2CppTypeEnum)
    ensures
        r == kind_of(*t, fallback),
{
    if t.byref == 1 {
        Il2CppTypeEnum::Ptr
    } else {
        match t.element_type() {
            Some(e) => e,
            None => fallback,
        }
    }
}

/// The C type of a value: references are pointers.
pub open spec fn value_type(s: Scene, style: CStyle, t: Il2CppType, ctx: Option<Il2CppGenericContext>) -> Seq<char> {
    let c = c_types::c_type(s, style, Node { t, ctx, special: false });
    if t.byref == 1 {
        c + "*"@
    } else {
        c
    }
}

/// The C type of a value can be written.
pub open spec fn value_ready(s: Scene, style: CStyle, i: int, ctx: Option<Il2CppGenericContext>) -> bool {
    &&& 0 <= i < s.il2cpp.types@.len()
    &&& c_types::has_c_type(s, style, (Node { t: s.il2cpp.types@[i], ctx, special: false }))
}

/// How the names of parameters are spelled.
pub open spec fn name_style(style: CStyle) -> NameStyle {
    match style {
        CStyle::Header => NameStyle::Cpp,
        CStyle::Scaffold => NameStyle::CppDollar,
    }
}

/// The type of the `j`-th parameter of a method.
pub open spec fn parameter_type(s: Scene, md: Il2CppMethodDefinition, j: int) -> Il2CppType {
    s.il2cpp.types@[s.m.parameter_defs@[md.parameter_start + j].type_index as int]
}

/// The `j`-th parameter of a method.
pub open spec fn parameter_text(
    s: Scene,
    style: CStyle,
    spelling: Spelling,
    md: Il2CppMethodDefinition,
    ctx: Option<Il2CppGenericContext>,
    j: int,
) -> Seq<char> {
    value_type(s, style, parameter_type(s, md, j), ctx) + " "@ + spelling(
        structures::name_or(s.m.parameter_defs@[md.parameter_start + j].name, "param"@),
        name_style(style),
    )
}

/// The first `k` parameters of a method.
pub open spec fn parameter_texts(
    s: Scene,
    style: CStyle,
    spelling: Spelling,
    md: Il2CppMethodDefinition,
    ctx: Option<Il2CppGenericContext>,
    k: nat,
) -> Seq<Seq<char>> {
    Seq::new(k, |j: int| parameter_text(s, style, spelling, md, ctx, j))
}

/// The method belongs to its type, not to the objects of the type.
pub open spec fn is_static(md: Il2CppMethodDefinition) -> bool {
    field_layout::has_attr(md.flags, METHOD_STATIC)
}

/// The name of a structure, or that of all objects.
pub open spec fn name_or_object(names: Map<usize, Seq<char>>, td: usize) -> Seq<char> {
    if names.contains_key(td) {
        names[td]
    } else {
        "Il2CppObject"@
    }
}

/// The object that a method is called on, if there is one.
pub open spec fn this_text(
    s: Scene,
    style: CStyle,
    md: Il2CppMethodDefinition,
    def: Il2CppTypeDefinition,
    td: usize,
    ctx: Option<Il2CppGenericContext>,
) -> Option<Seq<char>> {
    if is_static(md) {
        if s.il2cpp.version <= V24 {
            Some("Il2CppObject* __this"@)
        } else {
            None
        }
    } else {
        let t = s.il2cpp.types@[def.byval_type_index as int];
        let c = c_types::c_type(s, style, Node { t, ctx, special: false });
        match style {
            CStyle::Header => if def.is_value_type {
                Some(name_or_object(s.names, t.klass_index) + "* __this"@)
            } else {
                Some(c + " __this"@)
            },
            CStyle::Scaffold => if def.is_value_type {
                Some(name_or_object(s.names, td) + "* __this"@)
            } else if c.len() > 0 && c.last() == '*' {
                Some(c + " __this"@)
            } else {
                Some(c + "* __this"@)
            },
        }
    }
}

/// The parameters of the function behind a method: the object, those of the method, and its
/// description.
pub open spec fn parameters(
    s: Scene,
    style: CStyle,
    spelling: Spelling,
    md: Il2CppMethodDefinition,
    def: Il2CppTypeDefinition,
    td: usize,
    ctx: Option<Il2CppGenericContext>,
) -> Seq<char> {
    let first = match this_text(s, style, md, def, td, ctx) {
        Some(t) => seq![t],
        None => Seq::empty(),
    };
    text::joined(
        first + parameter_texts(s, style, spelling, md, ctx, md.parameter_count as nat)
            + seq!["const MethodInfo* method"@],
        ", "@,
    )
}

/// The type that a method returns.
pub open spec fn result_type(s: Scene, md: Il2CppMethodDefinition) -> Il2CppType {
    s.il2cpp.types@[md.return_type as int]
}

/// The declaration of the function behind a method.
pub open spec fn declaration(
    s: Scene,
    spelling: Spelling,
    md: Il2CppMethodDefinition,
    def: Il2CppTypeDefinition,
    full_name: Seq<char>,
    ctx: Option<Il2CppGenericContext>,
) -> Seq<char> {
    value_type(s, CStyle::Header, result_type(s, md), ctx) + " "@ + spelling(
        full_name,
        NameStyle::Cpp,
    ) + " ("@ + parameters(s, CStyle::Header, spelling, md, def, 0, ctx) + ");"@
}

/// The kinds of what a method returns and takes.
pub open spec fn kinds(s: Scene, md: Il2CppMethodDefinition, def: Il2CppTypeDefinition) -> Seq<
    Il2CppTypeEnum,
> {
    let this = if !is_static(md) {
        match s.il2cpp.types@[def.byval_type_index as int].element() {
            Some(e) => seq![e],
            None => seq![Il2CppTypeEnum::Object],
        }
    } else if s.il2cpp.version <= V24 {
        seq![Il2CppTypeEnum::Ptr]
    } else {
        Seq::empty()
    };
    seq![kind_of(result_type(s, md), Il2CppTypeEnum::Void)] + this + Seq::new(
        md.parameter_count as nat,
        |j: int| kind_of(parameter_type(s, md, j), Il2CppTypeEnum::Object),
    ) + seq![Il2CppTypeEnum::Ptr]
}

/// The `j`-th parameter of a method can be written.
pub open spec fn parameter_ready(
    s: Scene,
    style: CStyle,
    md: Il2CppMethodDefinition,
    ctx: Option<Il2CppGenericContext>,
    j: int,
) -> bool {
    &&& md.parameter_start + j < s.m.parameter_defs@.len()
    &&& value_ready(
        s,
        style,
        s.m.parameter_defs@[md.parameter_start + j].type_index as int,
        ctx,
    )
}

/// The signature of a method can be written.
pub open spec fn signature_ready(
    s: Scene,
    style: CStyle,
    md: Il2CppMethodDefinition,
    def: Il2CppTypeDefinition,
    ctx: Option<Il2CppGenericContext>,
) -> bool {
    &&& value_ready(s, style, md.return_type as int, ctx)
    &&& !is_static(md) && !def.is_value_type ==> value_ready(
        s,
        style,
        def.byval_type_index as int,
        ctx,
    )
    &&& !is_static(md) && style == CStyle::Header ==> def.byval_type_index < s.il2cpp.types@.len()
    &&& forall|j: int|
        0 <= j < md.parameter_count ==> #[trigger] parameter_ready(s, style, md, ctx, j)
}

/// The C type of a type.
fn write_c_type(
    style: CStyle,
    t: &Il2CppType,
    names: &HashMap<usize, String>,
    executor: &Il2CppExecutor,
    metadata: &Metadata,
    il2cpp: &Il2Cpp,
    ctx: Option<Il2CppGenericContext>,
) -> (r: String)
    requires
        c_types::scene_fits(c_types::scene(*executor, *metadata, *il2cpp, names@)),
        c_types::has_c_type(
            c_types::scene(*executor, *metadata, *il2cpp, names@),
            style,
            (Node { t: *t, ctx, special: false }),
        ),
    ensures
        r@ == c_types::c_type(
            c_types::scene(*executor, *metadata, *il2cpp, names@),
            style,
            Node { t: *t, ctx, special: false },
        ),
{
    match style {
        CStyle::Header => c_types::parse_type(t, names, executor, metadata, il2cpp, ctx),
        CStyle::Scaffold => c_types::parse_scaffolding_type(
            t,
            names,
            executor,
            metadata,
            il2cpp,
            ctx,
        ),
    }
}

fn write_value_type(
    style: CStyle,
    t: &Il2CppType,
    names: &HashMap<usize, String>,
    executor: &Il2CppExecutor,
    metadata: &Metadata,
    il2cpp: &Il2Cpp,
    ctx: Option<Il2CppGenericContext>,
) -> (r: String)
    requires
        c_types::scene_fits(c_types::scene(*executor, *metadata, *il2cpp, names@)),
        c_types::has_c_type(
            c_types::scene(*executor, *metadata, *il2cpp, names@),
            style,
            (Node { t: *t, ctx, special: false }),
        ),
    ensures
        r@ == value_type(c_types::scene(*executor, *metadata, *il2cpp, names@), style, *t, ctx),
{
    let c = write_c_type(style, t, names, executor, metadata, il2cpp, ctx);
    if t.byref == 1 {
        c.concat("*")
    } else {
        c
    }
}

fn find_name_or_object(names: &HashMap<usize, String>, td: usize) -> (r: String)
    ensures
        r@ == name_or_object(c_types::name_texts(names@), td),
{
    match names.get(&td) {
        Some(name) => name.clone(),
        None => String::from_str("Il2CppObject"),
    }
}

fn is_static_method(md: &Il2CppMethodDefinition) -> (r: bool)
    ensures
        r == is_static(*md),
{
    md.flags & METHOD_STATIC != 0
}

fn write_this(
    style: CStyle,
    names: &HashMap<usize, String>,
    executor: &Il2CppExecutor,
    metadata: &Metadata,
    il2cpp: &Il2Cpp,
    md: &Il2CppMethodDefinition,
    def: &Il2CppTypeDefinition,
    td: usize,
    ctx: Option<Il2CppGenericContext>,
) -> (r: Option<String>)
    requires
        c_types::scene_fits(c_types::scene(*executor, *metadata, *il2cpp, names@)),
        signature_ready(
            c_types::scene(*executor, *metadata, *il2cpp, names@),
            style,
            *md,
            *def,
            ctx,
        ),
    ensures
        text::optional(r) == this_text(
            c_types::scene(*executor, *metadata, *il2cpp, names@),
            style,
            *md,
            *def,
            td,
            ctx,
        ),
{
    if is_static_method(md) {
        return if il2cpp.version <= V24 {
            Some(String::from_str("Il2CppObject* __this"))
        } else {
            None
        };
    }
    if def.is_value_type {
        let owner: usize = match style {
            CStyle::Header => il2cpp.types[def.byval_type_index].klass_index,
            CStyle::Scaffold => td,
        };
        return Some(find_name_or_object(names, owner).concat("* __this"));
    }
    let c = write_c_type(
        style,
        &il2cpp.types[def.byval_type_index],
        names,
        executor,
        metadata,
        il2cpp,
        ctx,
    );
    match style {
        CStyle::Header => Some(c.concat(" __this")),
        CStyle::Scaffold => {
            let len: usize = c.as_str().unicode_len();
            if len > 0 && c.as_str().get_char(len - 1) == '*' {
                Some(c.concat(" __this"))
            } else {
                Some(c.concat("* __this"))
            }
        },
    }
}

fn write_parameters<F: Fn(&str, NameStyle) -> String>(
    style: CStyle,
    names: &HashMap<usize, String>,
    executor: &Il2CppExecutor,
    metadata: &Metadata,
    il2cpp: &Il2Cpp,
    md: &Il2CppMethodDefinition,
    def: &Il2CppTypeDefinition,
    td: usize,
    ctx: Option<Il2CppGenericContext>,
    sanitizer: &Sanitizer<F>,
) -> (r: String)
    requires
        c_types::scene_fits(c_types::scene(*executor, *metadata, *il2cpp, names@)),
        signature_ready(
            c_types::scene(*executor, *metadata, *il2cpp, names@),
            style,
            *md,
            *def,
            ctx,
        ),
    ensures
        r@ == parameters(
            c_types::scene(*executor, *metadata, *il2cpp, names@),
            style,
            sanitizer.spelling(),
            *md,
            *def,
            td,
            ctx,
        ),
{
    broadcast use text::lemma_texts_push;

    let ghost s = c_types::scene(*executor, *metadata, *il2cpp, names@);
    let ghost spelling = sanitizer.spelling();
    let mut parts: Vec<String> = Vec::new();
    assert(text::texts(parts@) =~= Seq::<Seq<char>>::empty());
    if let Some(this) = write_this(
        style,
        names,
        executor,
        metadata,
        il2cpp,
        md,
        def,
        td,
        ctx,
    ) {
        parts.push(this);
    }
    let ghost first = text::texts(parts@);
    assert(first =~= match this_text(s, style, *md, *def, td, ctx) {
        Some(t) => seq![t],
        None => Seq::empty(),
    });
    let parameter_count: usize = metadata.parameter_defs.len();
    let mut j: usize = 0;
    assert(first + parameter_texts(s, style, spelling, *md, ctx, 0) =~= first);
    while j < md.parameter_count
        invariant
            s == c_types::scene(*executor, *metadata, *il2cpp, names@),
            c_types::scene_fits(s),
            signature_ready(s, style, *md, *def, ctx),
            spelling == sanitizer.spelling(),
            parameter_count == metadata.parameter_defs@.len(),
            j <= md.parameter_count,
            text::texts(parts@) == first + parameter_texts(s, style, spelling, *md, ctx, j as nat),
        decreases md.parameter_count - j,
    {
        broadcast use text::lemma_texts_push;

        assert(parameter_ready(s, style, *md, ctx, j as int));
        let param = &metadata.parameter_defs[md.parameter_start + j];
        let name = structures::name_text(&param.name, "param");
        let c = write_value_type(
            style,
            &il2cpp.types[param.type_index],
            names,
            executor,
            metadata,
            il2cpp,
            ctx,
        );
        let spelled = match style {
            CStyle::Header => sanitizer.fix_name(name.as_str()),
            CStyle::Scaffold => sanitizer.fix_name_scaffold(name.as_str()),
        };
        parts.push(c.concat(" ").concat(spelled.as_str()));
        j = j + 1;
        assert(text::texts(parts@) =~= first + parameter_texts(
            s,
            style,
            spelling,
            *md,
            ctx,
            j as nat,
        ));
    }
    parts.push(String::from_str("const MethodInfo* method"));
    assert(text::texts(parts@) =~= first + parameter_texts(
        s,
        style,
        spelling,
        *md,
        ctx,
        md.parameter_count as nat,
    ) + seq!["const MethodInfo* method"@]);
    text::join(&parts, ", ")
}

fn list_kinds(
    metadata: &Metadata,
    il2cpp: &Il2Cpp,
    md: &Il2CppMethodDefinition,
    def: &Il2CppTypeDefinition,
    ctx: Option<Il2CppGenericContext>,
    Ghost(s): Ghost<Scene>,
) -> (r: Vec<Il2CppTypeEnum>)
    requires
        s.m == *metadata,
        s.il2cpp == *il2cpp,
        signature_ready(s, CStyle::Header, *md, *def, ctx),
    ensures
        r@ == kinds(s, *md, *def),
{
    let mut out: Vec<Il2CppTypeEnum> = Vec::new();
    out.push(find_kind(&il2cpp.types[md.return_type], Il2CppTypeEnum::Void));
    if !is_static_method(md) {
        match il2cpp.types[def.byval_type_index].element_type() {
            Some(e) => {
                out.push(e);
            },
            None => {
                out.push(Il2CppTypeEnum::Object);
            },
        }
    } else if il2cpp.version <= V24 {
        out.push(Il2CppTypeEnum::Ptr);
    }
    let ghost first = out@;
    let ghost rest = Seq::new(
        md.parameter_count as nat,
        |j: int| kind_of(parameter_type(s, *md, j), Il2CppTypeEnum::Object),
    );
    let parameter_count: usize = metadata.parameter_defs.len();
    let mut j: usize = 0;
    assert(first + rest.take(0) =~= first);
    while j < md.parameter_count
        invariant
            s.m == *metadata,
            s.il2cpp == *il2cpp,
            signature_ready(s, CStyle::Header, *md, *def, ctx),
            parameter_count == metadata.parameter_defs@.len(),
            j <= md.parameter_count,
            rest == Seq::new(
                md.parameter_count as nat,
                |j: int| kind_of(parameter_type(s, *md, j), Il2CppTypeEnum::Object),
            ),
            out@ == first + rest.take(j as int),
        decreases md.parameter_count - j,
    {
        assert(parameter_ready(s, CStyle::Header, *md, ctx, j as int));
        let param = &metadata.parameter_defs[md.parameter_start + j];
        out.push(find_kind(&il2cpp.types[param.type_index], Il2CppTypeEnum::Object));
        j = j + 1;
        assert(out@ =~= first + rest.take(j as int));
    }
    out.push(Il2CppTypeEnum::Ptr);
    assert(rest.take(md.parameter_count as int) =~= rest);
    assert(out@ =~= kinds(s, *md, *def));
    out
}

/// The declaration of the function behind a method, and the letters for what it returns and takes.
pub fn build_method_signature<F: Fn(&str, NameStyle) -> String>(
    executor: &Il2CppExecutor,
    metadata: &Metadata,
    il2cpp: &Il2Cpp,
    method_def: &Il2CppMethodDefinition,
    type_def: &Il2CppTypeDefinition,
    method_full_name: &str,
    names: &HashMap<usize, String>,
    generic_context: Option<Il2CppGenericContext>,
    sanitizer: &Sanitizer<F>,
) -> (r: (String, String))
    requires
        c_types::scene_fits(c_types::scene(*executor, *metadata, *il2cpp, names@)),
        signature_ready(
            c_types::scene(*executor, *metadata, *il2cpp, names@),
            CStyle::Header,
            *method_def,
            *type_def,
            generic_context,
        ),
    ensures
        r.0@ == declaration(
            c_types::scene(*executor, *metadata, *il2cpp, names@),
            sanitizer.spelling(),
            *method_def,
            *type_def,
            method_full_name@,
            generic_context,
        ),
        r.1@ == kind_letters(
            kinds(
                c_types::scene(*executor, *metadata, *il2cpp, names@),
                *method_def,
                *type_def,
            ),
        ),
{
    let ghost s = c_types::scene(*executor, *metadata, *il2cpp, names@);
    let result = write_value_type(
        CStyle::Header,
        &il2cpp.types[method_def.return_type],
        names,
        executor,
        metadata,
        il2cpp,
        generic_context,
    );
    let params = write_parameters(
        CStyle::Header,
        names,
        executor,
        metadata,
        il2cpp,
        method_def,
        type_def,
        0,
        generic_context,
        sanitizer,
    );
    let signature = result.concat(" ").concat(
        sanitizer.fix_name(method_full_name).as_str(),
    ).concat(" (").concat(params.as_str()).concat(");");
    let letters = get_method_type_signature(
        &list_kinds(metadata, il2cpp, method_def, type_def, generic_context, Ghost(s)),
    );
    (signature, letters)
}

/// The type that the function behind a method returns, and its parameters.
pub fn build_func_signature<F: Fn(&str, NameStyle) -> String>(
    executor: &Il2CppExecutor,
    metadata: &Metadata,
    il2cpp: &Il2Cpp,
    method_def: &Il2CppMethodDefinition,
    type_def: &Il2CppTypeDefinition,
    type_def_index: usize,
    names: &HashMap<usize, String>,
    generic_context: Option<Il2CppGenericContext>,
    sanitizer: &Sanitizer<F>,
) -> (r: (String, String))
    requires
        c_types::scene_fits(c_types::scene(*executor, *metadata, *il2cpp, names@)),
        signature_ready(
            c_types::scene(*executor, *metadata, *il2cpp, names@),
            CStyle::Scaffold,
            *method_def,
            *type_def,
            generic_context,
        ),
    ensures
        r.0@ == value_type(
            c_types::scene(*executor, *metadata, *il2cpp, names@),
            CStyle::Scaffold,
            result_type(
                c_types::scene(*executor, *metadata, *il2cpp, names@),
                *method_def,
            ),
            generic_context,
        ),
        r.1@ == parameters(
            c_types::scene(*executor, *metadata, *il2cpp, names@),
            CStyle::Scaffold,
            sanitizer.spelling(),
            *method_def,
            *type_def,
            type_def_index,
            generic_context,
        ),
{
    let result = write_value_type(
        CStyle::Scaffold,
        &il2cpp.types[method_def.return_type],
        names,
        executor,
        metadata,
        il2cpp,
        generic_context,
    );
    let params = write_parameters(
        CStyle::Scaffold,
        names,
        executor,
        metadata,
        il2cpp,
        method_def,
        type_def,
        type_def_index,
        generic_context,
        sanitizer,
    );
    (result, params)
}

} // verus!
