//! The values of the language: how wide they are and of what nature, wherever they are written.
use crate::il2cpp::structures::{Il2CppGenericContext, Il2CppType};
use crate::numeral;
use crate::output::c_types;
use crate::output::c_types::{CStyle, Node, Scene};
use crate::output::signature;
use vstd::prelude::*;
use vstd::string::*;

verus! {

/// What a value stands for.
pub enum Nature {
    Truth,
    Character,
    Signed,
    Unsigned,
    Floating,
}

/// The shape of a value: its nature and its number of bits, or none where it is as wide as a
/// pointer.
pub struct Shape {
    pub nature: Nature,
    pub bits: Option<nat>,
}

/// The shape of a value with a number of bits.
pub open spec fn shape(nature: Nature, bits: nat) -> Option<Shape> {
    Some(Shape { nature, bits: Some(bits) })
}

/// The shape that the common language infrastructure gives the values of an element type. The
/// integers follow each other from 4 on, each width first signed and then unsigned.
pub open spec fn shape_of(element: u8) -> Option<Shape> {
    if element == 2 {
        shape(Nature::Truth, 8)
    } else if element == 3 {
        shape(Nature::Character, 16)
    } else if 4 <= element <= 11 {
        shape(
            if element % 2 == 0 {
                Nature::Signed
            } else {
                Nature::Unsigned
            },
            if element < 6 {
                8
            } else if element < 8 {
                16
            } else if element < 10 {
                32
            } else {
                64
            },
        )
    } else if element == 12 {
        shape(Nature::Floating, 32)
    } else if element == 13 {
        shape(Nature::Floating, 64)
    } else if element == 24 {
        Some(Shape { nature: Nature::Signed, bits: None })
    } else if element == 25 {
        Some(Shape { nature: Nature::Unsigned, bits: None })
    } else {
        None
    }
}

/// The number of bits of an integer in the name of its C type.
pub open spec fn bits_text(bits: Option<nat>) -> Seq<char> {
    match bits {
        Some(n) => numeral::dec(n),
        None => "ptr"@,
    }
}

/// The C type is one whose values have the shape: the integers of `stdint.h`, a character being an
/// unsigned one, and the types of the language itself.
pub open spec fn c_type_has(text: Seq<char>, shape: Shape) -> bool {
    match shape.nature {
        Nature::Truth => text == "bool"@ && shape.bits == Some(8nat),
        Nature::Signed => text == "int"@ + bits_text(shape.bits) + "_t"@,
        Nature::Unsigned | Nature::Character => text == "uint"@ + bits_text(shape.bits) + "_t"@,
        Nature::Floating => (text == "float"@ && shape.bits == Some(32nat)) || (text == "double"@
            && shape.bits == Some(64nat)),
    }
}

proof fn lemma_bits()
    ensures
        numeral::dec(8) == seq!['8'],
        numeral::dec(16) == seq!['1', '6'],
        numeral::dec(32) == seq!['3', '2'],
        numeral::dec(64) == seq!['6', '4'],
{
    reveal_with_fuel(numeral::numeral, 3);
    assert(numeral::dec(8) =~= seq!['8']);
    assert(numeral::dec(16) =~= seq!['1', '6']);
    assert(numeral::dec(32) =~= seq!['3', '2']);
    assert(numeral::dec(64) =~= seq!['6', '4']);
}

proof fn lemma_c_names()
    ensures
        "int8_t"@ == "int"@ + numeral::dec(8) + "_t"@,
        "int16_t"@ == "int"@ + numeral::dec(16) + "_t"@,
        "int32_t"@ == "int"@ + numeral::dec(32) + "_t"@,
        "int64_t"@ == "int"@ + numeral::dec(64) + "_t"@,
        "uint8_t"@ == "uint"@ + numeral::dec(8) + "_t"@,
        "uint16_t"@ == "uint"@ + numeral::dec(16) + "_t"@,
        "uint32_t"@ == "uint"@ + numeral::dec(32) + "_t"@,
        "uint64_t"@ == "uint"@ + numeral::dec(64) + "_t"@,
        "intptr_t"@ == "int"@ + "ptr"@ + "_t"@,
        "uintptr_t"@ == "uint"@ + "ptr"@ + "_t"@,
{
    lemma_bits();
    reveal_strlit("int");
    reveal_strlit("uint");
    reveal_strlit("ptr");
    reveal_strlit("_t");
    reveal_strlit("int8_t");
    reveal_strlit("int16_t");
    reveal_strlit("int32_t");
    reveal_strlit("int64_t");
    reveal_strlit("uint8_t");
    reveal_strlit("uint16_t");
    reveal_strlit("uint32_t");
    reveal_strlit("uint64_t");
    reveal_strlit("intptr_t");
    reveal_strlit("uintptr_t");
    assert("int8_t"@ =~= "int"@ + numeral::dec(8) + "_t"@);
    assert("int16_t"@ =~= "int"@ + numeral::dec(16) + "_t"@);
    assert("int32_t"@ =~= "int"@ + numeral::dec(32) + "_t"@);
    assert("int64_t"@ =~= "int"@ + numeral::dec(64) + "_t"@);
    assert("uint8_t"@ =~= "uint"@ + numeral::dec(8) + "_t"@);
    assert("uint16_t"@ =~= "uint"@ + numeral::dec(16) + "_t"@);
    assert("uint32_t"@ =~= "uint"@ + numeral::dec(32) + "_t"@);
    assert("uint64_t"@ =~= "uint"@ + numeral::dec(64) + "_t"@);
    assert("intptr_t"@ =~= "int"@ + "ptr"@ + "_t"@);
    assert("uintptr_t"@ =~= "uint"@ + "ptr"@ + "_t"@);
}

/// A value is written as a C type with its width and its nature, in structures and in signatures,
/// in whatever context it stands.
pub proof fn law_c_type_shape(s: Scene, style: CStyle, node: Node)
    requires
        shape_of(node.t.type_enum) is Some,
    ensures
        c_type_has(c_types::c_type(s, style, node), shape_of(node.t.type_enum)->0),
{
    lemma_c_names();
    assert(c_types::settles(s, style, node, 0));
    c_types::law_c_type(s, style, node, 0);
}

/// Values of different widths, and values of different natures, are written as different C types;
/// only a character shares the type of the unsigned integer of its width.
pub proof fn law_c_types_apart(s: Scene, style: CStyle, a: Node, b: Node)
    requires
        shape_of(a.t.type_enum) is Some,
        shape_of(b.t.type_enum) is Some,
        a.t.type_enum != b.t.type_enum,
        !(a.t.type_enum == 3 && b.t.type_enum == 7),
        !(a.t.type_enum == 7 && b.t.type_enum == 3),
    ensures
        c_types::c_type(s, style, a) != c_types::c_type(s, style, b),
{
    law_c_type_shape(s, style, a);
    law_c_type_shape(s, style, b);
    lemma_bits();
    reveal_strlit("int");
    reveal_strlit("uint");
    reveal_strlit("ptr");
    reveal_strlit("_t");
    reveal_strlit("bool");
    reveal_strlit("float");
    reveal_strlit("double");
    let x = c_types::c_type(s, style, a);
    let y = c_types::c_type(s, style, b);
    lemma_spelled(x, shape_of(a.t.type_enum)->0);
    lemma_spelled(y, shape_of(b.t.type_enum)->0);
    assert(x[0] == y[0] && x[3] == y[3] && x[4] == y[4] && x.len() == y.len() ==> false);
}

proof fn lemma_spelled(x: Seq<char>, sh: Shape)
    requires
        c_type_has(x, sh),
        sh.bits matches Some(n) ==> n == 8 || n == 16 || n == 32 || n == 64,
    ensures
        sh.nature is Truth ==> x.len() == 4 && x[0] == 'b',
        sh.nature is Floating ==> x[0] == 'f' && sh.bits == Some(32nat) || x[0] == 'd' && sh.bits
            == Some(64nat),
        sh.nature is Signed ==> x[0] == 'i' && match sh.bits {
            Some(n) => x[3] == numeral::dec(n)[0],
            None => x[3] == 'p',
        },
        sh.nature is Unsigned || sh.nature is Character ==> x[0] == 'u' && match sh.bits {
            Some(n) => x[4] == numeral::dec(n)[0],
            None => x[4] == 'p',
        },
{
    lemma_bits();
    reveal_strlit("int");
    reveal_strlit("uint");
    reveal_strlit("ptr");
    reveal_strlit("_t");
    reveal_strlit("bool");
    reveal_strlit("float");
    reveal_strlit("double");
}

/// What is no value of the language itself is written by its structure. A class is a pointer to its
/// structure; strings have that of `System.String`. A value type is its structure, which signatures
/// spell without a suffix. An array points to the structure of its elements in structures, and to
/// that of all arrays in signatures. What has no structure points to that of all objects.
pub proof fn law_c_type_structures(s: Scene, style: CStyle, node: Node)
    ensures
        ({
            let t = node.t;
            let c = c_types::c_type(s, style, node);
            let named = s.names.contains_key(t.klass_index);
            &&& t.type_enum == 0x01 ==> c == "void"@
            &&& t.type_enum == 0x0e ==> c == "System_String_o*"@
            &&& t.type_enum == 0x1c || t.type_enum == 0x16 ==> c == "Il2CppObject*"@
            &&& t.type_enum == 0x12 ==> c == if named {
                s.names[t.klass_index] + "_o*"@
            } else {
                "Il2CppObject*"@
            }
            &&& t.type_enum == 0x11 && t.klass_index < s.m.type_defs@.len()
                && !s.m.type_defs@[t.klass_index as int].is_enum && named ==> c == match style {
                CStyle::Header => s.names[t.klass_index] + "_o"@,
                CStyle::Scaffold => s.names[t.klass_index],
            }
            &&& t.type_enum == 0x11 && t.klass_index < s.m.type_defs@.len()
                && !s.m.type_defs@[t.klass_index as int].is_enum && !named ==> c
                == "Il2CppObject*"@
            &&& (t.type_enum == 0x1d || t.type_enum == 0x14) && 0 < t.datapoint
                < s.il2cpp.types@.len() && c_types::has_c_type(s, style, node) ==> c == match style {
                CStyle::Header => c_types::struct_name(
                    s.il2cpp,
                    s.names,
                    s.il2cpp.types@[t.datapoint as int],
                    node.ctx,
                ) + "_array*"@,
                CStyle::Scaffold => "Il2CppArray*"@,
            }
            &&& (t.type_enum == 0x1d || t.type_enum == 0x14) && !(0 < t.datapoint
                < s.il2cpp.types@.len()) ==> c == "Il2CppArray*"@
            &&& t.type_enum == 0x0f && !(0 < t.datapoint < s.il2cpp.types@.len()) ==> c == "void*"@
        }),
{
    if c_types::next_node(s, node) is None && c_types::end_has_name(s, style, node) {
        assert(c_types::settles(s, style, node, 0));
        c_types::law_c_type(s, style, node, 0);
    }
    if c_types::has_c_type(s, style, node) {
        let n = choose|n: nat| c_types::settles(s, style, node, n);
        c_types::law_c_type(s, style, node, n);
    }
}

/// An enumeration is written as the type behind it, a generic parameter as the argument that its
/// context gives it: that of the class, or that of the method if the method has arguments or the
/// class has none.
pub proof fn law_c_type_follows(s: Scene, style: CStyle, node: Node)
    requires
        c_types::has_c_type(s, style, node),
    ensures
        ({
            let t = node.t;
            let c = c_types::c_type(s, style, node);
            let defs = s.m.type_defs@;
            &&& t.type_enum == 0x11 && t.klass_index < defs.len()
                && defs[t.klass_index as int].is_enum && defs[t.klass_index as int].element_type_index
                < s.il2cpp.types@.len() ==> c == c_types::c_type(
                s,
                style,
                Node {
                    t: s.il2cpp.types@[defs[t.klass_index as int].element_type_index as int],
                    ..node
                },
            )
            &&& t.type_enum == 0x0f && 0 < t.datapoint < s.il2cpp.types@.len() ==> c
                == c_types::c_type(
                s,
                style,
                Node { t: s.il2cpp.types@[t.datapoint as int], ..node },
            ) + "*"@
            &&& t.type_enum == 0x13 || t.type_enum == 0x1e ==> match stands_for(s, t, node.ctx) {
                Some(u) => c == c_types::c_type(
                    s,
                    style,
                    Node { t: u, ctx: None, special: false },
                ),
                None => c == "Il2CppObject*"@,
            }
        }),
{
    let n = choose|n: nat| c_types::settles(s, style, node, n);
    c_types::law_c_type(s, style, node, n);
    if let Some(next) = c_types::next_node(s, node) {
        c_types::law_c_type(s, style, next, (n - 1) as nat);
    }
}

/// The argument that a generic parameter stands for in a context.
pub open spec fn stands_for(s: Scene, t: Il2CppType, ctx: Option<Il2CppGenericContext>) -> Option<
    Il2CppType,
> {
    match (ctx, t.generic_param_num) {
        (Some(c), Some(num)) => argument_at(
            s,
            if t.type_enum == 0x13 || (c.method_inst == 0 && c.class_inst != 0) {
                c.class_inst
            } else {
                c.method_inst
            },
            num as int,
        ),
        _ => None,
    }
}

/// The argument in place `num` of the generic instance at an address: the type whose record the
/// pointer in that place leads to.
pub open spec fn argument_at(s: Scene, inst: u64, num: int) -> Option<Il2CppType> {
    if inst != 0 && s.il2cpp.generic_inst_at(inst) is Ok {
        let record = s.il2cpp.generic_inst_at(inst)->Ok_0;
        match s.il2cpp.pointers_at(record.type_argv, record.type_argc) {
            Ok(pointers) => if num < pointers.len() {
                s.il2cpp.type_at(pointers[num])
            } else {
                None
            },
            Err(_) => None,
        }
    } else {
        None
    }
}

/// A generic class is written by its own structure, or else by that of its type definition: by
/// value where it is a value type, as a pointer elsewhere, and as the type behind it where it is an
/// enumeration.
pub proof fn law_c_type_generic(s: Scene, style: CStyle, node: Node)
    requires
        c_types::has_c_type(s, style, node),
        node.t.type_enum == 0x15,
        node.t.generic_class != 0,
        s.il2cpp.generic_class_at(node.t.generic_class) is Ok,
        s.x.generic_class_defs@.contains_key(node.t.generic_class),
    ensures
        ({
            let class = node.t.generic_class;
            let td = s.x.generic_class_defs@[class];
            let def = s.m.type_defs@[td as int];
            let own = node.special && s.special.contains_key(class);
            let name = if own {
                s.special[class]
            } else {
                s.names[td]
            };
            let c = c_types::c_type(s, style, node);
            if !own && !s.names.contains_key(td) {
                c == "Il2CppObject*"@
            } else if !def.is_value_type {
                c == name + "_o*"@
            } else if def.is_enum && td < s.m.type_defs@.len() && def.element_type_index
                < s.il2cpp.types@.len() {
                c == c_types::c_type(
                    s,
                    style,
                    Node {
                        t: s.il2cpp.types@[def.element_type_index as int],
                        ctx: node.ctx,
                        special: false,
                    },
                )
            } else {
                c == match style {
                    CStyle::Header => name + "_o"@,
                    CStyle::Scaffold => name,
                }
            }
        }),
{
    let n = choose|n: nat| c_types::settles(s, style, node, n);
    c_types::law_c_type(s, style, node, n);
    if let Some(next) = c_types::next_node(s, node) {
        c_types::law_c_type(s, style, next, (n - 1) as nat);
    }
}

/// The name of the structure of a type is that of its type definition. An array adds a suffix to
/// that of its elements, a pointer has that of what it points to, and a generic parameter that of
/// the argument in the place of its data word, of the class or of the method. What has no structure
/// has that of all objects.
pub proof fn law_structure_name(
    s: Scene,
    t: Il2CppType,
    ctx: Option<Il2CppGenericContext>,
)
    requires
        c_types::has_name(s.il2cpp, t, ctx),
    ensures
        ({
            let name = c_types::struct_name(s.il2cpp, s.names, t, ctx);
            let e = t.type_enum;
            let inner = s.il2cpp.types@[t.datapoint as int];
            let num = t.datapoint as int % 0x1_0000_0000;
            let parameter = if e == 0x13 {
                argument_at(s, ctx->0.class_inst, num)
            } else {
                argument_at(s, ctx->0.method_inst, num)
            };
            &&& shape_of(e) is Some || e == 0x01 || e == 0x0e || e == 0x11 || e == 0x12 || e == 0x15
                || e == 0x16 || e == 0x1c ==> name == if s.names.contains_key(t.klass_index) {
                s.names[t.klass_index]
            } else {
                "System_Object"@
            }
            &&& (e == 0x14 || e == 0x1d) && 0 < t.datapoint < s.il2cpp.types@.len() ==> name
                == c_types::struct_name(s.il2cpp, s.names, inner, ctx) + "_array"@
            &&& e == 0x0f && 0 < t.datapoint < s.il2cpp.types@.len() ==> name
                == c_types::struct_name(s.il2cpp, s.names, inner, ctx)
            &&& (e == 0x0f || e == 0x14 || e == 0x1d) && !(0 < t.datapoint
                < s.il2cpp.types@.len()) ==> name == "System_Object"@
            &&& (e == 0x13 || e == 0x1e) && ctx is Some && parameter is Some ==> name
                == c_types::struct_name(s.il2cpp, s.names, parameter->0, None)
            &&& (e == 0x13 || e == 0x1e) && (ctx is None || parameter is None) ==> name
                == "System_Object"@
        }),
{
    let n = choose|n: nat| c_types::name_settles(s.il2cpp, t, ctx, n);
    c_types::law_struct_name(s.il2cpp, s.names, t, ctx, n);
    if let Some((inner, c)) = c_types::name_source(s.il2cpp, t, ctx) {
        c_types::law_struct_name(s.il2cpp, s.names, inner, c, (n - 1) as nat);
    }
}

/// The letter for the kind of a value tells floating values apart by their widths and integers of
/// 64 bits from narrower ones; all that is passed as an address, and all narrower integers, have
/// one letter. A reference is an address whatever it refers to.
pub proof fn law_kind_letter(t: Il2CppType, other: crate::il2cpp::enums::Il2CppTypeEnum)
    ensures
        ({
            let letter = signature::kind_letter(signature::kind_of(t, other));
            let sh = shape_of(t.type_enum);
            &&& t.byref == 1 ==> letter == 'i'
            &&& t.byref != 1 && t.type_enum == 1 ==> letter == 'v'
            &&& t.byref != 1 && sh is Some ==> letter == match sh->0.nature {
                Nature::Floating => if sh->0.bits == Some(32nat) {
                    'f'
                } else {
                    'd'
                },
                _ => if sh->0.bits == Some(64nat) {
                    'j'
                } else {
                    'i'
                },
            }
            &&& t.byref != 1 && (t.type_enum == 0x0e || t.type_enum == 0x0f || 0x11 <= t.type_enum
                <= 0x16 || 0x1c <= t.type_enum <= 0x1e) ==> letter == 'i'
        }),
{
}

/// A generic class that is not known, a value type that does not exist, a reference, a pointer to a
/// function and every other element type are written as a pointer to the structure of all objects.
pub proof fn law_c_type_others(s: Scene, style: CStyle, node: Node)
    ensures
        ({
            let t = node.t;
            let class = t.generic_class;
            let known = class != 0 && s.il2cpp.generic_class_at(class) is Ok
                && s.x.generic_class_defs@.contains_key(class);
            let e = t.type_enum;
            (e == 0x15 && !known) || (e == 0x11 && t.klass_index >= s.m.type_defs@.len()) || e
                == 0x00 || e == 0x10 || e == 0x17 || e == 0x1a || e == 0x1b || e >= 0x1f
                ==> c_types::c_type(s, style, node) == "Il2CppObject*"@
        }),
{
    if c_types::next_node(s, node) is None && c_types::end_has_name(s, style, node) {
        assert(c_types::settles(s, style, node, 0));
        c_types::law_c_type(s, style, node, 0);
    }
}

/// A type leads to a generic class with a structure of its own where it refers to one that is known.
/// A pointer leads where what it points to leads, and an enumeration where the type behind it does.
/// Where such structures are not looked for, a type leads to none.
pub proof fn law_class_leads(s: Scene, node: Node)
    requires
        c_types::has_c_type(s, CStyle::Header, node),
    ensures
        ({
            let r = c_types::class_reached(s, node);
            let t = node.t;
            let class = t.generic_class;
            let defs = s.m.type_defs@;
            let known = class != 0 && s.il2cpp.generic_class_at(class) is Ok
                && s.x.generic_class_defs@.contains_key(class) && s.special.contains_key(class);
            &&& !node.special ==> r is None
            &&& node.special && t.type_enum == 0x15 && known ==> r == Some(class)
            &&& node.special && t.type_enum == 0x15 && !known ==> r is None
            &&& node.special && t.type_enum == 0x0f && 0 < t.datapoint < s.il2cpp.types@.len()
                ==> r == c_types::class_reached(
                s,
                Node { t: s.il2cpp.types@[t.datapoint as int], ..node },
            )
            &&& node.special && t.type_enum == 0x11 && t.klass_index < defs.len()
                && defs[t.klass_index as int].is_enum && defs[t.klass_index as int].element_type_index
                < s.il2cpp.types@.len() ==> r == c_types::class_reached(
                s,
                Node {
                    t: s.il2cpp.types@[defs[t.klass_index as int].element_type_index as int],
                    ..node
                },
            )
            &&& shape_of(t.type_enum) is Some || t.type_enum == 0x12 || t.type_enum == 0x0e
                || t.type_enum == 0x13 || t.type_enum == 0x1e || t.type_enum == 0x14 || t.type_enum
                == 0x1d ==> r is None
        }),
{
    let n = choose|n: nat| c_types::settles(s, CStyle::Header, node, n);
    c_types::law_class_reached(s, node, n);
    if let Some(next) = c_types::next_node(s, node) {
        c_types::law_class_reached(s, next, (n - 1) as nat);
    }
}

} // verus!
