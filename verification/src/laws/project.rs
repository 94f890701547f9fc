//! What the files of a project hold.
use crate::executor::Il2CppExecutor;
use crate::il2cpp::base::Il2Cpp;
use crate::il2cpp::metadata::Metadata;
use crate::laws::texts;
use crate::laws::texts::flat;
use crate::names::Spelling;
use crate::numeral;
use crate::output::cpp_scaffolding;
use crate::output::cpp_scaffolding::ProjectSource;
use crate::output::func_entries;
use crate::output::struct_names;
use crate::output::templates::{
    FUNCTIONS_HEAD, TEMPLATE_DLLMAIN_CPP, TEMPLATE_HELPERS_CPP, TEMPLATE_HELPERS_H,
    TEMPLATE_IL2CPP_APPDATA_H, TEMPLATE_IL2CPP_INIT_CPP, TEMPLATE_IL2CPP_INIT_H, TEMPLATE_MAIN_CPP,
    TEMPLATE_MAIN_H, TEMPLATE_PCH_IL2CPP_CPP, TEMPLATE_PCH_IL2CPP_H, TEMPLATE_SLN,
    TEMPLATE_VCXPROJ, TEMPLATE_VCXPROJ_FILTERS, TYPES_HEAD, TYPES_MIDDLE, TYPES_TAIL,
};
use crate::text;
use vstd::prelude::*;
use vstd::string::*;

verus! {

// Lines.

/// A text that is closed ends in a line feed; one that does already stays as it is.
pub proof fn law_closed_line(s: Seq<char>)
    ensures
        cpp_scaffolding::closed_line(s).last() == '\n',
        text::starts_with(cpp_scaffolding::closed_line(s), s),
        s.len() > 0 && s.last() == '\n' ==> cpp_scaffolding::closed_line(s) == s,
        !(s.len() > 0 && s.last() == '\n') ==> cpp_scaffolding::closed_line(s).len() == s.len() + 1,
{
    assert(cpp_scaffolding::closed_line(s).subrange(0, s.len() as int) =~= s);
}

/// A generated file says that it is one and of which part, and ends in a line feed.
pub proof fn law_wrapped(section: Seq<char>, body: Seq<char>)
    ensures
        text::starts_with(
            cpp_scaffolding::wrapped(section, body),
            "// Generated C++ file by Il2CppDumper - Rust Edition\n"@ + "// * "@ + section + "\n"@
                + "\n"@ + body,
        ),
        cpp_scaffolding::wrapped(section, body).last() == '\n',
{
    reveal_strlit("// Generated C++ file by Il2CppDumper - Rust Edition\n// * ");
    reveal_strlit("// Generated C++ file by Il2CppDumper - Rust Edition\n");
    reveal_strlit("// * ");
    reveal_strlit("\n");
    reveal_strlit("\n\n");
    let whole = "// Generated C++ file by Il2CppDumper - Rust Edition\n// * "@ + section + "\n\n"@
        + body;
    assert(whole =~= "// Generated C++ file by Il2CppDumper - Rust Edition\n"@ + "// * "@ + section
        + "\n"@ + "\n"@ + body);
    law_closed_line(whole);
}

/// The header of the types makes the integers that are as wide as a pointer those of the image.
pub proof fn law_types_header(is_32bit: bool, body: Seq<char>)
    ensures
        ({
            let bits = numeral::dec(
                if is_32bit {
                    32
                } else {
                    64
                },
            );
            let head = TYPES_HEAD@ + ("typedef int"@ + bits + "_t intptr_t;\n"@) + ("typedef uint"@
                + bits + "_t uintptr_t;\n"@) + ("typedef uint"@ + bits + "_t size_t;\n"@)
                + TYPES_MIDDLE@ + body;
            cpp_scaffolding::types_header(is_32bit, body) == cpp_scaffolding::closed_line(head)
                + TYPES_TAIL@
        }),
{
    reveal_with_fuel(numeral::numeral, 3);
    reveal_strlit("32");
    reveal_strlit("64");
    assert(numeral::dec(32) =~= "32"@);
    assert(numeral::dec(64) =~= "64"@);
    reveal_strlit("_t intptr_t;\ntypedef uint");
    reveal_strlit("_t intptr_t;\n");
    reveal_strlit("typedef uint");
    reveal_strlit("_t uintptr_t;\ntypedef uint");
    reveal_strlit("_t uintptr_t;\n");
    let bits = numeral::dec(
        if is_32bit {
            32
        } else {
            64
        },
    );
    assert("_t intptr_t;\ntypedef uint"@ =~= "_t intptr_t;\n"@ + "typedef uint"@);
    assert("_t uintptr_t;\ntypedef uint"@ =~= "_t uintptr_t;\n"@ + "typedef uint"@);
    assert(TYPES_HEAD@ + "typedef int"@ + bits + "_t intptr_t;\ntypedef uint"@ + bits
        + "_t uintptr_t;\ntypedef uint"@ + bits + "_t size_t;\n"@ + TYPES_MIDDLE@ + body
        =~= TYPES_HEAD@ + ("typedef int"@ + bits + "_t intptr_t;\n"@) + ("typedef uint"@ + bits
        + "_t uintptr_t;\n"@) + ("typedef uint"@ + bits + "_t size_t;\n"@) + TYPES_MIDDLE@ + body);
}

// The interface of the engine.

/// How deep in brackets the text is behind the first `n` characters.
pub open spec fn depth(s: Seq<char>, n: int) -> int
    decreases n,
{
    if n <= 0 {
        1
    } else {
        depth(s, n - 1) + if s[n - 1] == '(' {
            1int
        } else if s[n - 1] == ')' {
            -1
        } else {
            0
        }
    }
}

proof fn lemma_closing(s: Seq<char>, i: int, d: int)
    requires
        0 <= i <= s.len(),
        d == depth(s, i),
        d >= 1,
    ensures
        match cpp_scaffolding::closing(s, i, d) {
            Some(p) => i <= p < s.len() && depth(s, p + 1) == 0 && forall|q: int|
                i <= q <= p ==> #[trigger] depth(s, q) >= 1,
            None => forall|q: int| i <= q <= s.len() ==> #[trigger] depth(s, q) >= 1,
        },
    decreases s.len() - i,
{
    if i < s.len() {
        assert(depth(s, i + 1) == depth(s, i) + if s[i] == '(' {
            1int
        } else if s[i] == ')' {
            -1
        } else {
            0
        });
        if s[i] == ')' && d == 1 {
            assert(depth(s, i + 1) == 0);
            assert forall|q: int| i <= q <= i implies #[trigger] depth(s, q) >= 1 by {}
        } else {
            lemma_closing(s, i + 1, depth(s, i + 1));
            match cpp_scaffolding::closing(s, i, d) {
                Some(p) => {
                    assert forall|q: int| i <= q <= p implies #[trigger] depth(s, q) >= 1 by {
                        if q > i {
                            assert(i + 1 <= q);
                        }
                    }
                },
                None => {
                    assert forall|q: int| i <= q <= s.len() implies #[trigger] depth(s, q) >= 1 by {
                        if q > i {
                            assert(i + 1 <= q);
                        }
                    }
                },
            }
        }
    } else {
        assert forall|q: int| i <= q <= s.len() implies #[trigger] depth(s, q) >= 1 by {}
    }
}

/// The bracket that closes the one before a text is the first that leads out of it.
pub proof fn law_closing(s: Seq<char>)
    ensures
        match cpp_scaffolding::closing(s, 0, 1) {
            Some(p) => 0 <= p < s.len() && s[p] == ')' && depth(s, p + 1) == 0 && forall|q: int|
                0 <= q <= p ==> #[trigger] depth(s, q) >= 1,
            None => forall|q: int| 0 <= q <= s.len() ==> #[trigger] depth(s, q) >= 1,
        },
{
    assert(depth(s, 0) == 1);
    lemma_closing(s, 0, 1);
    if let Some(p) = cpp_scaffolding::closing(s, 0, 1) {
        assert(depth(s, p) >= 1);
    }
}

/// The text between the first bracket of a line and the one that closes it; nothing where none
/// does.
pub open spec fn arguments(line: Seq<char>) -> Seq<char> {
    let tail = line.skip(text::find(line, '(') + 1);
    match cpp_scaffolding::closing(tail, 0, 1) {
        Some(p) => tail.take(p),
        None => Seq::empty(),
    }
}

/// A line of the interface names its function in the second argument. A line stays if it declares
/// no function of the interface, or names none, or names one that the image exports.
pub proof fn law_line_stays(line: Seq<char>, available: Map<Seq<char>, u64>)
    ensures
        ({
            let inner = text::trimmed_start(line);
            let declares = text::starts_with(inner, "DO_API"@);
            let parts = text::split(arguments(inner), ',');
            let named = inner.contains('(') && parts.len() >= 2;
            cpp_scaffolding::line_stays(line, available) <==> !declares || !named
                || available.contains_key(text::trimmed(parts[1]))
        }),
{
    let inner = text::trimmed_start(line);
    texts::law_find(inner, '(');
    if inner.contains('(') {
        let i = choose|i: int| 0 <= i < inner.len() && inner[i] == '(';
        assert(text::find(inner, '(') < inner.len());
    }
}

/// Where the image exports nothing, the interface stays as it is. Elsewhere the lines that stay are
/// written in order, each with a line feed.
pub proof fn law_filtered(body: Seq<char>, available: Map<Seq<char>, u64>)
    ensures
        (forall|name: Seq<char>| !available.contains_key(name)) ==> cpp_scaffolding::filtered(
            body,
            available,
        ) == body,
        (exists|name: Seq<char>| available.contains_key(name)) ==> cpp_scaffolding::filtered(
            body,
            available,
        ) == flat(
            text::lines(body).len() as int,
            |i: int|
                if cpp_scaffolding::line_stays(text::lines(body)[i], available) {
                    text::lines(body)[i] + "\n"@
                } else {
                    Seq::empty()
                },
        ),
{
    lemma_stay(text::lines(body), available, text::lines(body).len());
}

proof fn lemma_stay(lines: Seq<Seq<char>>, available: Map<Seq<char>, u64>, n: nat)
    ensures
        cpp_scaffolding::lines_that_stay(lines, available, n) == flat(
            n as int,
            |i: int|
                if cpp_scaffolding::line_stays(lines[i], available) {
                    lines[i] + "\n"@
                } else {
                    Seq::empty()
                },
        ),
    decreases n,
{
    if n > 0 {
        lemma_stay(lines, available, (n - 1) as nat);
        let p = cpp_scaffolding::lines_that_stay(lines, available, (n - 1) as nat);
        assert(p + (lines[n - 1] + "\n"@) =~= p + lines[n - 1] + "\n"@);
        assert(p + Seq::<char>::empty() =~= p);
    }
}

// Small headers.

/// The pointers of the interface are defined in the order of their names, each with at least eight
/// hexadecimal digits.
pub proof fn law_pointer_lines(names: Seq<Seq<char>>, exports: Map<Seq<char>, u64>, n: nat)
    ensures
        cpp_scaffolding::pointer_lines(names, exports, n) == flat(
            n as int,
            |i: int|
                "#define "@ + names[i] + "_ptr 0x"@ + numeral::hex_padded(
                    exports[names[i]] as nat,
                    8,
                ) + "\n"@,
        ),
    decreases n,
{
    if n > 0 {
        law_pointer_lines(names, exports, (n - 1) as nat);
        let p = cpp_scaffolding::pointer_lines(names, exports, (n - 1) as nat);
        let digits = numeral::hex_padded(exports[names[n - 1]] as nat, 8);
        assert(p + ("#define "@ + names[n - 1] + "_ptr 0x"@ + digits + "\n"@) =~= p + "#define "@
            + names[n - 1] + "_ptr 0x"@ + digits + "\n"@);
    }
}

/// The type definitions with a name are declared in order, without an address.
pub proof fn law_type_lines(names: Map<usize, Seq<char>>, n: nat)
    ensures
        cpp_scaffolding::type_lines(names, n) == flat(
            n as int,
            |i: int|
                if names.contains_key(i as usize) && names[i as usize].len() > 0 {
                    "DO_TYPEDEF(0x00000000, "@ + names[i as usize] + ");\n"@
                } else {
                    Seq::empty()
                },
        ),
    decreases n,
{
    if n > 0 {
        law_type_lines(names, (n - 1) as nat);
        let p = cpp_scaffolding::type_lines(names, (n - 1) as nat);
        let td = (n - 1) as usize;
        assert(p + ("DO_TYPEDEF(0x00000000, "@ + names[td] + ");\n"@) =~= p
            + "DO_TYPEDEF(0x00000000, "@ + names[td] + ");\n"@);
        assert(p + Seq::<char>::empty() =~= p);
    }
}

/// The version is given in tenths, rounded to the nearest.
pub proof fn law_version_header(version: u32, tenths: nat)
    requires
        10 * tenths - 5 <= version < 10 * tenths + 5,
    ensures
        cpp_scaffolding::version_header(version) == "#pragma once\n"@ + "\n"@
            + "#define __IL2CPP_METADATA_VERSION "@ + numeral::dec(tenths) + "\n"@,
{
    reveal_strlit("#pragma once\n\n#define __IL2CPP_METADATA_VERSION ");
    reveal_strlit("#pragma once\n");
    reveal_strlit("\n");
    reveal_strlit("#define __IL2CPP_METADATA_VERSION ");
    assert((version + 5) / 10 == tenths);
    assert("#pragma once\n\n#define __IL2CPP_METADATA_VERSION "@ =~= "#pragma once\n"@ + "\n"@
        + "#define __IL2CPP_METADATA_VERSION "@);
}

/// The identifier of a seed is made of two mixtures of it, each the lower 64 bits of a product with
/// some bits turned over: the first gives the first three groups, its lower half first, and the
/// second the last two.
pub proof fn law_guid(seed: u64)
    ensures
        ({
            let h = (((seed * 0x9E3779B97F4A7C15) % 0x1_0000_0000_0000_0000) as u64)
                ^ 0xDEADBEEFCAFEBABEu64;
            let d = (((((seed + 1) % 0x1_0000_0000_0000_0000) * 0xBF58476D1CE4E5B9)
                % 0x1_0000_0000_0000_0000) as u64) ^ 0xC0FFEE00C0FFEE00u64;
            cpp_scaffolding::guid(seed) == numeral::hex_padded((h % 0x1_0000_0000) as nat, 8)
                + "-"@ + numeral::hex_padded(((h / 0x1_0000_0000) % 0x1_0000) as nat, 4) + "-"@
                + numeral::hex_padded((h / 0x1_0000_0000_0000) as nat, 4) + "-"@
                + numeral::hex_padded((d / 0x1_0000_0000_0000) as nat, 4) + "-"@
                + numeral::hex_padded((d % 0x1_0000_0000_0000) as nat, 12)
        }),
{
}

// The files.

/// The functions of an image are found with the names of its structures and the places of what
/// describes its methods, and written behind the head of their file without those whose code
/// another one has.
pub proof fn law_functions_header(
    x: Il2CppExecutor,
    m: Metadata,
    il2cpp: Il2Cpp,
    spelling: Spelling,
)
    ensures
        ({
            let c = cpp_scaffolding::functions_of(x, m, il2cpp, spelling);
            let all = func_entries::all_functions(c);
            let entries = func_entries::kept(all, all.len()).0;
            &&& c.s.m == m && c.s.il2cpp == il2cpp && c.s.x == x && c.spelling == spelling
            &&& c.s.names == struct_names::struct_names(x, m, spelling)
            &&& c.s.special.dom().is_empty()
            &&& c.infos == func_entries::info_addresses(m, il2cpp)
            &&& cpp_scaffolding::functions_header(c) == FUNCTIONS_HEAD@ + flat(
                entries.len() as int,
                |i: int| crate::laws::functions::function_text(entries[i]),
            )
        }),
{
    let c = cpp_scaffolding::functions_of(x, m, il2cpp, spelling);
    let all = func_entries::all_functions(c);
    let entries = func_entries::kept(all, all.len()).0;
    crate::laws::functions::law_function_texts(entries, entries.len());
}

/// The files that tell of an image: its functions, its types, the interface of the engine that it
/// exports, the pointers of that interface, its type definitions, and its version. All of them are
/// written anew.
pub proof fn law_image_files(p: ProjectSource)
    ensures
        ({
            let r = cpp_scaffolding::image_files(p);
            let s = p.functions.s;
            let exports = s.il2cpp.api_export_rvas@;
            &&& r.len() == 6
            &&& forall|i: int| 0 <= i < 6 ==> (#[trigger] r[i]).replace
            &&& r[0].path == "appdata/il2cpp-functions.h"@ && r[0].text == cpp_scaffolding::wrapped(
                "IL2CPP application method pointers"@,
                cpp_scaffolding::functions_header(p.functions),
            )
            &&& r[1].path == "appdata/il2cpp-types.h"@ && r[1].text
                == cpp_scaffolding::types_header(s.il2cpp.is_32bit, p.type_header)
            &&& r[2].path == "appdata/il2cpp-api-functions.h"@ && r[2].text
                == cpp_scaffolding::wrapped(
                "IL2CPP API function declarations"@,
                cpp_scaffolding::filtered(p.api_header, exports),
            )
            &&& r[3].path == "appdata/il2cpp-api-functions-ptr.h"@ && r[3].text
                == cpp_scaffolding::wrapped(
                "IL2CPP API function pointers"@,
                cpp_scaffolding::pointers_header(exports),
            )
            &&& r[4].path == "appdata/il2cpp-types-ptr.h"@ && r[4].text == cpp_scaffolding::wrapped(
                "IL2CPP application type definition addresses"@,
                cpp_scaffolding::type_pointers_header(s.names, s.m.type_defs@.len()),
            )
            &&& r[5].path == "appdata/il2cpp-metadata-version.h"@ && r[5].text
                == cpp_scaffolding::version_header(s.il2cpp.version)
        }),
{
}

/// The files that are the same for all images: those of the framework are written anew, those that
/// the user edits and those of the build are left alone where they are there. The identifiers of
/// the project and of the solution are put into the files of the build.
pub proof fn law_fixed_files()
    ensures
        ({
            let r = cpp_scaffolding::fixed_files();
            let id = |seed: u64| cpp_scaffolding::guid(seed);
            &&& r.len() == 13
            &&& forall|i: int| 0 <= i < 13 ==> (#[trigger] r[i]).replace == (i < 8)
            &&& r[0].path == "framework/dllmain.cpp"@ && r[0].text == TEMPLATE_DLLMAIN_CPP@
            &&& r[1].path == "framework/helpers.cpp"@ && r[1].text == TEMPLATE_HELPERS_CPP@
            &&& r[2].path == "framework/helpers.h"@ && r[2].text == TEMPLATE_HELPERS_H@
            &&& r[3].path == "framework/il2cpp-appdata.h"@ && r[3].text
                == TEMPLATE_IL2CPP_APPDATA_H@
            &&& r[4].path == "framework/il2cpp-init.cpp"@ && r[4].text == TEMPLATE_IL2CPP_INIT_CPP@
            &&& r[5].path == "framework/il2cpp-init.h"@ && r[5].text == TEMPLATE_IL2CPP_INIT_H@
            &&& r[6].path == "framework/pch-il2cpp.cpp"@ && r[6].text == TEMPLATE_PCH_IL2CPP_CPP@
            &&& r[7].path == "framework/pch-il2cpp.h"@ && r[7].text == TEMPLATE_PCH_IL2CPP_H@
            &&& r[8].path == "user/main.cpp"@ && r[8].text == TEMPLATE_MAIN_CPP@
            &&& r[9].path == "user/main.h"@ && r[9].text == TEMPLATE_MAIN_H@
            &&& r[10].path == "IL2CppDLL.vcxproj"@ && r[10].text == text::replaced(
                TEMPLATE_VCXPROJ@,
                "%PROJECTGUID%"@,
                id(0),
            )
            &&& r[11].path == "IL2CppDLL.vcxproj.filters"@ && r[11].text == text::replaced(
                text::replaced(
                    text::replaced(TEMPLATE_VCXPROJ_FILTERS@, "%GUID1%"@, id(1)),
                    "%GUID2%"@,
                    id(2),
                ),
                "%GUID3%"@,
                id(3),
            )
            &&& r[12].path == "IL2CppDLL.sln"@ && r[12].text == text::replaced(
                text::replaced(
                    text::replaced(
                        text::replaced(TEMPLATE_SLN@, "%PROJECTGUID%"@, id(0)),
                        "%PROJECTNAME%"@,
                        "IL2CppDLL"@,
                    ),
                    "%PROJECTFILE%"@,
                    "IL2CppDLL.vcxproj"@,
                ),
                "%SOLUTIONGUID%"@,
                id(4),
            )
        }),
{
}

/// The pointers of the interface are defined behind a guard in the order of the names of the
/// exports, each export once.
pub proof fn law_pointers_header(exports: Map<Seq<char>, u64>, names: Seq<Seq<char>>)
    requires
        text::increasing(names),
        names.to_set() == exports.dom(),
    ensures
        cpp_scaffolding::pointers_header(exports) == "#pragma once\n"@ + "\n"@ + flat(
            names.len() as int,
            |i: int|
                "#define "@ + names[i] + "_ptr 0x"@ + numeral::hex_padded(
                    exports[names[i]] as nat,
                    8,
                ) + "\n"@,
        ),
{
    reveal_strlit("#pragma once\n\n");
    reveal_strlit("#pragma once\n");
    reveal_strlit("\n");
    assert("#pragma once\n\n"@ =~= "#pragma once\n"@ + "\n"@);
    assert(cpp_scaffolding::are_names(names, exports));
    let found = choose|v: Seq<Seq<char>>| cpp_scaffolding::are_names(v, exports);
    assert forall|x: Seq<char>| found.contains(x) <==> names.contains(x) by {
        assert(found.to_set().contains(x) <==> found.contains(x));
        assert(names.to_set().contains(x) <==> names.contains(x));
    }
    text::law_increasing_unique(found, names);
    law_pointer_lines(names, exports, names.len());
}

/// The type definitions are declared behind a guard.
pub proof fn law_type_pointers_header(names: Map<usize, Seq<char>>, n: nat)
    ensures
        cpp_scaffolding::type_pointers_header(names, n) == "#pragma once\n"@ + "\n"@
            + cpp_scaffolding::type_lines(names, n),
{
    reveal_strlit("#pragma once\n\n");
    reveal_strlit("#pragma once\n");
    reveal_strlit("\n");
    assert("#pragma once\n\n"@ =~= "#pragma once\n"@ + "\n"@);
}

/// The name of a function of the interface is its second argument, without the white space around
/// it; a line without a bracket or with fewer arguments names none.
pub proof fn law_api_name(line: Seq<char>)
    ensures
        ({
            let r = cpp_scaffolding::api_name(line);
            let parts = text::split(arguments(line), ',');
            &&& r is Some <==> line.contains('(') && parts.len() >= 2
            &&& r matches Some(name) ==> name == text::trimmed(parts[1])
        }),
{
    texts::law_find(line, '(');
    if line.contains('(') {
        let i = choose|i: int| 0 <= i < line.len() && line[i] == '(';
        assert(text::find(line, '(') < line.len());
    }
}

} // verus!
