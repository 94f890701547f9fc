//! A C++ project around the functions and types of an image.
use crate::error::Error;
use crate::executor::Il2CppExecutor;
use crate::il2cpp::base::Il2Cpp;
use crate::il2cpp::metadata::Metadata;
use crate::names::{NameMap, NameStyle, Sanitizer, Spelling};
use crate::numeral;
use crate::output::c_types::Scene;
use crate::output::func_entries;
use crate::output::func_entries::Functions;
use crate::output::script_json;
use crate::output::struct_names;
use crate::output::templates::{
    FUNCTIONS_HEAD, TEMPLATE_DLLMAIN_CPP, TEMPLATE_HELPERS_CPP, TEMPLATE_HELPERS_H,
    TEMPLATE_IL2CPP_APPDATA_H, TEMPLATE_IL2CPP_INIT_CPP, TEMPLATE_IL2CPP_INIT_H, TEMPLATE_MAIN_CPP,
    TEMPLATE_MAIN_H, TEMPLATE_PCH_IL2CPP_CPP, TEMPLATE_PCH_IL2CPP_H, TEMPLATE_SLN,
    TEMPLATE_VCXPROJ, TEMPLATE_VCXPROJ_FILTERS, TYPES_HEAD, TYPES_MIDDLE, TYPES_TAIL,
};
use crate::text;
use vstd::arithmetic::div_mod::*;
use vstd::prelude::*;
use vstd::string::*;

verus! {

/// A file of the project.
#[derive(Debug)]
pub struct ProjectFile {
    /// The path below the root of the project.
    pub path: String,
    pub text: String,
    /// A file that is there already is written anew.
    pub replace: bool,
}

/// A file of the project, as texts.
pub struct ProjectFileModel {
    pub path: Seq<char>,
    pub text: Seq<char>,
    pub replace: bool,
}

impl View for ProjectFile {
    type V = ProjectFileModel;

    open spec fn view(&self) -> ProjectFileModel {
        ProjectFileModel { path: self.path@, text: self.text@, replace: self.replace }
    }
}

// The header with the functions.

/// What the functions of an image are written from.
pub open spec fn functions_of(
    x: Il2CppExecutor,
    m: Metadata,
    il2cpp: Il2Cpp,
    spelling: Spelling,
) -> Functions {
    Functions {
        s: Scene {
            m,
            il2cpp,
            x,
            names: struct_names::struct_names(x, m, spelling),
            special: Map::empty(),
        },
        spelling,
        infos: func_entries::info_addresses(m, il2cpp),
    }
}

/// The header with the functions of an image.
pub open spec fn functions_header(c: Functions) -> Seq<char> {
    let entries = func_entries::functions(c);
    FUNCTIONS_HEAD@ + func_entries::entry_texts(entries, entries.len())
}

// The other headers.

/// The text with a line feed at its end.
pub open spec fn closed_line(s: Seq<char>) -> Seq<char> {
    if s.len() > 0 && s.last() == '\n' {
        s
    } else {
        s.push('\n')
    }
}

/// A header under a heading.
pub open spec fn wrapped(section: Seq<char>, body: Seq<char>) -> Seq<char> {
    closed_line(
        "// Generated C++ file by Il2CppDumper - Rust Edition\n// * "@ + section + "\n\n"@ + body,
    )
}

/// The header with the types of the runtime.
pub open spec fn types_header(is_32bit: bool, body: Seq<char>) -> Seq<char> {
    let bits = if is_32bit {
        "32"@
    } else {
        "64"@
    };
    closed_line(
        TYPES_HEAD@ + "typedef int"@ + bits + "_t intptr_t;\ntypedef uint"@ + bits
            + "_t uintptr_t;\ntypedef uint"@ + bits + "_t size_t;\n"@ + TYPES_MIDDLE@ + body,
    ) + TYPES_TAIL@
}

/// The place of the parenthesis that closes one of `depth` that are open, from `i` on.
pub open spec fn closing(s: Seq<char>, i: int, depth: int) -> Option<int>
    decreases s.len() - i,
{
    if i < 0 || i >= s.len() {
        None
    } else if s[i] == '(' {
        closing(s, i + 1, depth + 1)
    } else if s[i] == ')' {
        if depth == 1 {
            Some(i)
        } else {
            closing(s, i + 1, depth - 1)
        }
    } else {
        closing(s, i + 1, depth)
    }
}

/// The second of the arguments in the first parentheses of a line.
pub open spec fn api_name(line: Seq<char>) -> Option<Seq<char>> {
    let open = text::find(line, '(');
    if open < line.len() {
        let tail = line.skip(open + 1);
        let args = match closing(tail, 0, 1) {
            Some(end) => tail.take(end),
            None => Seq::empty(),
        };
        let parts = text::split(args, ',');
        if parts.len() < 2 {
            None
        } else {
            Some(text::trimmed(parts[1]))
        }
    } else {
        None
    }
}

/// A line stays: it declares no function, or one that is there, or one without a name.
pub open spec fn line_stays(line: Seq<char>, available: Map<Seq<char>, u64>) -> bool {
    let inner = text::trimmed_start(line);
    text::starts_with(inner, "DO_API"@) ==> (api_name(inner) matches Some(name)
        ==> available.contains_key(name))
}

/// Of the first `n` lines those that stay.
pub open spec fn lines_that_stay(
    lines: Seq<Seq<char>>,
    available: Map<Seq<char>, u64>,
    n: nat,
) -> Seq<char>
    decreases n,
{
    if n == 0 {
        Seq::empty()
    } else {
        let p = lines_that_stay(lines, available, (n - 1) as nat);
        if line_stays(lines[n - 1], available) {
            p + lines[n - 1] + "\n"@
        } else {
            p
        }
    }
}

/// A header without the functions that are not there. Where nothing is known to be there, all stay.
pub open spec fn filtered(body: Seq<char>, available: Map<Seq<char>, u64>) -> Seq<char> {
    if forall|name: Seq<char>| !available.contains_key(name) {
        body
    } else {
        lines_that_stay(text::lines(body), available, text::lines(body).len())
    }
}

/// The names are those of the map in increasing order.
pub open spec fn are_names(names: Seq<Seq<char>>, exports: Map<Seq<char>, u64>) -> bool {
    text::increasing(names) && names.to_set() == exports.dom()
}

/// The addresses of the first `n` names.
pub open spec fn pointer_lines(
    names: Seq<Seq<char>>,
    exports: Map<Seq<char>, u64>,
    n: nat,
) -> Seq<char>
    decreases n,
{
    if n == 0 {
        Seq::empty()
    } else {
        pointer_lines(names, exports, (n - 1) as nat) + "#define "@ + names[n - 1] + "_ptr 0x"@
            + numeral::hex_padded(exports[names[n - 1]] as nat, 8) + "\n"@
    }
}

/// The header with the addresses of exported functions, in the order of their names.
pub open spec fn pointers_header(exports: Map<Seq<char>, u64>) -> Seq<char> {
    let names = choose|names: Seq<Seq<char>>| are_names(names, exports);
    "#pragma once\n\n"@ + pointer_lines(names, exports, names.len())
}

/// The declarations of the first `n` type definitions that have names.
pub open spec fn type_lines(names: Map<usize, Seq<char>>, n: nat) -> Seq<char>
    decreases n,
{
    if n == 0 {
        Seq::empty()
    } else {
        let p = type_lines(names, (n - 1) as nat);
        let td = (n - 1) as usize;
        if names.contains_key(td) && names[td].len() > 0 {
            p + "DO_TYPEDEF(0x00000000, "@ + names[td] + ");\n"@
        } else {
            p
        }
    }
}

/// The header with the type definitions of an image.
pub open spec fn type_pointers_header(names: Map<usize, Seq<char>>, n: nat) -> Seq<char> {
    "#pragma once\n\n"@ + type_lines(names, n)
}

/// The header with the version of the metadata, in tenths.
pub open spec fn version_header(version: u32) -> Seq<char> {
    "#pragma once\n\n#define __IL2CPP_METADATA_VERSION "@ + numeral::dec(
        ((version + 5) / 10) as nat,
    ) + "\n"@
}

// Identifiers.

/// The mixed bits of a seed.
pub open spec fn mixed(seed: u64, factor: u64, mask: u64) -> u64 {
    seed.wrapping_mul(factor) ^ mask
}

/// The identifier that is made of a seed.
pub open spec fn guid(seed: u64) -> Seq<char> {
    let h = mixed(seed, 0x9E3779B97F4A7C15, 0xDEADBEEFCAFEBABE);
    let d = mixed(seed.wrapping_add(1), 0xBF58476D1CE4E5B9, 0xC0FFEE00C0FFEE00);
    numeral::hex_padded((h % 0x1_0000_0000) as nat, 8) + "-"@ + numeral::hex_padded(
        ((h / 0x1_0000_0000) % 0x1_0000) as nat,
        4,
    ) + "-"@ + numeral::hex_padded((h / 0x1_0000_0000_0000) as nat, 4) + "-"@
        + numeral::hex_padded((d / 0x1_0000_0000_0000) as nat, 4) + "-"@ + numeral::hex_padded(
        (d % 0x1_0000_0000_0000) as nat,
        12,
    )
}

/// The factor of the first half of identifiers has an inverse, so no two seeds are mixed alike.
proof fn lemma_mixed_apart(a: u64, b: u64)
    requires
        mixed(a, 0x9E3779B97F4A7C15, 0xDEADBEEFCAFEBABE) == mixed(
            b,
            0x9E3779B97F4A7C15,
            0xDEADBEEFCAFEBABE,
        ),
    ensures
        a == b,
{
    let k: int = 0x9E3779B97F4A7C15;
    let whole: int = 0x1_0000_0000_0000_0000;
    let inverse: int = 17428512612931826493;
    let rest: int = 10771413168148108919;
    let x = a.wrapping_mul(0x9E3779B97F4A7C15);
    let y = b.wrapping_mul(0x9E3779B97F4A7C15);
    assert(x ^ 0xDEADBEEFCAFEBABE == y ^ 0xDEADBEEFCAFEBABE ==> x == y) by (bit_vector);
    assert(k * inverse == 1 + whole * rest);
    assert((a * k) % whole == (b * k) % whole);
    let p = (a * k) / whole - (b * k) / whole;
    lemma_fundamental_div_mod(a * k, whole);
    lemma_fundamental_div_mod(b * k, whole);
    let c = a - b;
    assert(c * k == whole * p) by (nonlinear_arith)
        requires
            a * k == whole * ((a * k) / whole) + (a * k) % whole,
            b * k == whole * ((b * k) / whole) + (b * k) % whole,
            (a * k) % whole == (b * k) % whole,
            p == (a * k) / whole - (b * k) / whole,
            c == a - b,
    ;
    let q = p * inverse - c * rest;
    assert(c == whole * q) by (nonlinear_arith)
        requires
            c * k == whole * p,
            k * inverse == 1 + whole * rest,
            q == p * inverse - c * rest,
    {
        assert((c * k) * inverse == c * (k * inverse));
        assert(c * (1 + whole * rest) == c + whole * (c * rest));
        assert((whole * p) * inverse == whole * (p * inverse));
        assert(whole * (p * inverse) - whole * (c * rest) == whole * (p * inverse - c * rest));
    }
}

/// The identifier is made of five groups of hexadecimal digits: 8, 4, 4, 4 and 12.
pub proof fn law_guid_shape(seed: u64)
    ensures
        guid(seed).len() == 36,
        forall|i: int|
            0 <= i < 36 ==> if i == 8 || i == 13 || i == 18 || i == 23 {
                #[trigger] guid(seed)[i] == '-'
            } else {
                numeral::is_digit(guid(seed)[i], 16, true)
            },
{
    lemma_guid_groups(seed);
    let g = guid(seed);
    assert forall|i: int| 0 <= i < 36 implies if i == 8 || i == 13 || i == 18 || i == 23 {
        #[trigger] g[i] == '-'
    } else {
        numeral::is_digit(g[i], 16, true)
    } by {
        if i < 8 {
            assert(g[i] == g.subrange(0, 8)[i]);
        } else if 8 < i < 13 {
            assert(g[i] == g.subrange(9, 13)[i - 9]);
        } else if 13 < i < 18 {
            assert(g[i] == g.subrange(14, 18)[i - 14]);
        } else if 18 < i < 23 {
            assert(g[i] == g.subrange(19, 23)[i - 19]);
        } else if 23 < i {
            assert(g[i] == g.subrange(24, 36)[i - 24]);
        }
    }
}

proof fn lemma_guid_groups(seed: u64)
    ensures
        ({
            let h = mixed(seed, 0x9E3779B97F4A7C15, 0xDEADBEEFCAFEBABE);
            let g = guid(seed);
            &&& g.len() == 36
            &&& g[8] == '-' && g[13] == '-' && g[18] == '-' && g[23] == '-'
            &&& numeral::value(g.subrange(0, 8), 16) == h % 0x1_0000_0000
            &&& numeral::value(g.subrange(9, 13), 16) == (h / 0x1_0000_0000) % 0x1_0000
            &&& numeral::value(g.subrange(14, 18), 16) == h / 0x1_0000_0000_0000
            &&& are_digits(g.subrange(0, 8)) && are_digits(g.subrange(9, 13)) && are_digits(
                g.subrange(14, 18),
            ) && are_digits(g.subrange(19, 23)) && are_digits(g.subrange(24, 36))
        }),
{
    let h = mixed(seed, 0x9E3779B97F4A7C15, 0xDEADBEEFCAFEBABE);
    let d = mixed(seed.wrapping_add(1), 0xBF58476D1CE4E5B9, 0xC0FFEE00C0FFEE00);
    reveal_strlit("-");
    reveal_with_fuel(numeral::power, 13);
    assert(numeral::power(16, 4) == 0x1_0000);
    assert(numeral::power(16, 8) == 0x1_0000_0000);
    assert(numeral::power(16, 12) == 0x1_0000_0000_0000);
    numeral::law_hex_padded((h % 0x1_0000_0000) as nat, 8);
    numeral::law_hex_padded(((h / 0x1_0000_0000) % 0x1_0000) as nat, 4);
    numeral::law_hex_padded((h / 0x1_0000_0000_0000) as nat, 4);
    numeral::law_hex_padded((d / 0x1_0000_0000_0000) as nat, 4);
    numeral::law_hex_padded((d % 0x1_0000_0000_0000) as nat, 12);
    let g = guid(seed);
    assert(g.subrange(0, 8) =~= numeral::hex_padded((h % 0x1_0000_0000) as nat, 8));
    assert(g.subrange(9, 13) =~= numeral::hex_padded(
        ((h / 0x1_0000_0000) % 0x1_0000) as nat,
        4,
    ));
    assert(g.subrange(14, 18) =~= numeral::hex_padded((h / 0x1_0000_0000_0000) as nat, 4));
    assert(g.subrange(19, 23) =~= numeral::hex_padded((d / 0x1_0000_0000_0000) as nat, 4));
    assert(g.subrange(24, 36) =~= numeral::hex_padded((d % 0x1_0000_0000_0000) as nat, 12));
}

/// All characters are hexadecimal digits.
spec fn are_digits(s: Seq<char>) -> bool {
    forall|i: int| 0 <= i < s.len() ==> numeral::is_digit(#[trigger] s[i], 16, true)
}

/// Different seeds give different identifiers.
pub proof fn law_guids_apart(a: u64, b: u64)
    requires
        a != b,
    ensures
        guid(a) != guid(b),
{
    lemma_guid_groups(a);
    lemma_guid_groups(b);
    if guid(a) == guid(b) {
        lemma_mixed_apart(a, b);
    }
}

// The files.

/// What a project is made from.
pub struct ProjectSource {
    pub functions: Functions,
    pub type_header: Seq<char>,
    pub api_header: Seq<char>,
}

/// The files that are made from an image.
pub open spec fn image_files(p: ProjectSource) -> Seq<ProjectFileModel> {
    let s = p.functions.s;
    let exports = s.il2cpp.api_export_rvas@;
    seq![
        ProjectFileModel {
            path: "appdata/il2cpp-functions.h"@,
            text: wrapped(
                "IL2CPP application method pointers"@,
                functions_header(p.functions),
            ),
            replace: true,
        },
        ProjectFileModel {
            path: "appdata/il2cpp-types.h"@,
            text: types_header(s.il2cpp.is_32bit, p.type_header),
            replace: true,
        },
        ProjectFileModel {
            path: "appdata/il2cpp-api-functions.h"@,
            text: wrapped(
                "IL2CPP API function declarations"@,
                filtered(p.api_header, exports),
            ),
            replace: true,
        },
        ProjectFileModel {
            path: "appdata/il2cpp-api-functions-ptr.h"@,
            text: wrapped("IL2CPP API function pointers"@, pointers_header(exports)),
            replace: true,
        },
        ProjectFileModel {
            path: "appdata/il2cpp-types-ptr.h"@,
            text: wrapped(
                "IL2CPP application type definition addresses"@,
                type_pointers_header(s.names, s.m.type_defs@.len()),
            ),
            replace: true,
        },
        ProjectFileModel {
            path: "appdata/il2cpp-metadata-version.h"@,
            text: version_header(s.il2cpp.version),
            replace: true,
        },
    ]
}

/// The files that are the same for all images.
pub open spec fn fixed_files() -> Seq<ProjectFileModel> {
    seq![
        ProjectFileModel {
            path: "framework/dllmain.cpp"@,
            text: TEMPLATE_DLLMAIN_CPP@,
            replace: true,
        },
        ProjectFileModel {
            path: "framework/helpers.cpp"@,
            text: TEMPLATE_HELPERS_CPP@,
            replace: true,
        },
        ProjectFileModel {
            path: "framework/helpers.h"@,
            text: TEMPLATE_HELPERS_H@,
            replace: true,
        },
        ProjectFileModel {
            path: "framework/il2cpp-appdata.h"@,
            text: TEMPLATE_IL2CPP_APPDATA_H@,
            replace: true,
        },
        ProjectFileModel {
            path: "framework/il2cpp-init.cpp"@,
            text: TEMPLATE_IL2CPP_INIT_CPP@,
            replace: true,
        },
        ProjectFileModel {
            path: "framework/il2cpp-init.h"@,
            text: TEMPLATE_IL2CPP_INIT_H@,
            replace: true,
        },
        ProjectFileModel {
            path: "framework/pch-il2cpp.cpp"@,
            text: TEMPLATE_PCH_IL2CPP_CPP@,
            replace: true,
        },
        ProjectFileModel {
            path: "framework/pch-il2cpp.h"@,
            text: TEMPLATE_PCH_IL2CPP_H@,
            replace: true,
        },
        ProjectFileModel { path: "user/main.cpp"@, text: TEMPLATE_MAIN_CPP@, replace: false },
        ProjectFileModel { path: "user/main.h"@, text: TEMPLATE_MAIN_H@, replace: false },
        ProjectFileModel {
            path: "IL2CppDLL.vcxproj"@,
            text: text::replaced(TEMPLATE_VCXPROJ@, "%PROJECTGUID%"@, guid(0)),
            replace: false,
        },
        ProjectFileModel {
            path: "IL2CppDLL.vcxproj.filters"@,
            text: text::replaced(
                text::replaced(
                    text::replaced(TEMPLATE_VCXPROJ_FILTERS@, "%GUID1%"@, guid(1)),
                    "%GUID2%"@,
                    guid(2),
                ),
                "%GUID3%"@,
                guid(3),
            ),
            replace: false,
        },
        ProjectFileModel {
            path: "IL2CppDLL.sln"@,
            text: text::replaced(
                text::replaced(
                    text::replaced(
                        text::replaced(TEMPLATE_SLN@, "%PROJECTGUID%"@, guid(0)),
                        "%PROJECTNAME%"@,
                        "IL2CppDLL"@,
                    ),
                    "%PROJECTFILE%"@,
                    "IL2CppDLL.vcxproj"@,
                ),
                "%SOLUTIONGUID%"@,
                guid(4),
            ),
            replace: false,
        },
    ]
}

fn make_file(path: &str, text: String, replace: bool) -> (r: ProjectFile)
    ensures
        r@ == (ProjectFileModel { path: path@, text: text@, replace }),
{
    ProjectFile { path: String::from_str(path), text, replace }
}

fn close_line(s: String) -> (r: String)
    ensures
        r@ == closed_line(s@),
{
    let len: usize = s.as_str().unicode_len();
    let mut s = s;
    if len == 0 || s.as_str().get_char(len - 1) != '\n' {
        s.push('\n');
    }
    s
}

fn find_closing(tail: &Vec<char>) -> (r: Option<usize>)
    ensures
        match r {
            Some(i) => closing(tail@, 0, 1) == Some(i as int) && i < tail@.len(),
            None => closing(tail@, 0, 1) is None,
        },
{
    let len: usize = tail.len();
    let mut inner: usize = 0;
    let mut i: usize = 0;
    while i < len
        invariant
            len == tail@.len(),
            inner <= i <= len,
            closing(tail@, i as int, inner + 1) == closing(tail@, 0, 1),
        decreases len - i,
    {
        if tail[i] == '(' {
            inner = inner + 1;
        } else if tail[i] == ')' {
            if inner == 0 {
                return Some(i);
            }
            inner = inner - 1;
        }
        i = i + 1;
    }
    None
}

/// A C++ project around the functions and types of an image.
pub struct CppScaffolding;

impl CppScaffolding {
    /// Writes the header with the functions of an image.
    pub fn build<F: Fn(&str, NameStyle) -> String>(
        executor: &Il2CppExecutor,
        metadata: &Metadata,
        il2cpp: &Il2Cpp,
        sanitizer: &Sanitizer<F>,
    ) -> (r: Result<String, Error>)
        requires
            func_entries::functions_ready(
                functions_of(*executor, *metadata, *il2cpp, sanitizer.spelling()),
            ),
        ensures
            r matches Ok(t) && t@ == functions_header(
                functions_of(*executor, *metadata, *il2cpp, sanitizer.spelling()),
            ),
    {
        let ghost c = functions_of(*executor, *metadata, *il2cpp, sanitizer.spelling());
        let names = struct_names::build_struct_name_dic(executor, metadata, sanitizer);
        let entries = func_entries::collect_functions(
            executor,
            metadata,
            il2cpp,
            &names,
            sanitizer,
            Ghost(c),
        );
        assert(entries@.len() == script_json::views(entries@).len());
        Ok(
            String::from_str(FUNCTIONS_HEAD).concat(
                func_entries::write_entries(&entries).as_str(),
            ),
        )
    }

    /// The identifier that is made of a seed.
    pub fn make_guid(seed: u64) -> (r: String)
        ensures
            r@ == guid(seed),
    {
        let h: u64 = seed.wrapping_mul(0x9E3779B97F4A7C15) ^ 0xDEADBEEFCAFEBABE;
        let d: u64 = seed.wrapping_add(1).wrapping_mul(0xBF58476D1CE4E5B9) ^ 0xC0FFEE00C0FFEE00;
        numeral::hex_padded_string(h % 0x1_0000_0000, 8).concat("-").concat(
            numeral::hex_padded_string((h / 0x1_0000_0000) % 0x1_0000, 4).as_str(),
        ).concat("-").concat(
            numeral::hex_padded_string(h / 0x1_0000_0000_0000, 4).as_str(),
        ).concat("-").concat(
            numeral::hex_padded_string(d / 0x1_0000_0000_0000, 4).as_str(),
        ).concat("-").concat(
            numeral::hex_padded_string(d % 0x1_0000_0000_0000, 12).as_str(),
        )
    }

    /// Writes a header under a heading.
    pub fn wrap_header(section: &str, body: &str) -> (r: String)
        ensures
            r@ == wrapped(section@, body@),
    {
        close_line(
            String::from_str("// Generated C++ file by Il2CppDumper - Rust Edition\n// * ").concat(
                section,
            ).concat("\n\n").concat(body),
        )
    }

    /// Writes the header with the types of the runtime.
    pub fn wrap_types_header(il2cpp: &Il2Cpp, type_header_text: &str) -> (r: String)
        ensures
            r@ == types_header(il2cpp.is_32bit, type_header_text@),
    {
        let bits = if il2cpp.is_32bit {
            "32"
        } else {
            "64"
        };
        close_line(
            String::from_str(TYPES_HEAD).concat("typedef int").concat(bits).concat(
                "_t intptr_t;\ntypedef uint",
            ).concat(bits).concat("_t uintptr_t;\ntypedef uint").concat(bits).concat(
                "_t size_t;\n",
            ).concat(TYPES_MIDDLE).concat(type_header_text),
        ).concat(TYPES_TAIL)
    }

    /// The second of the arguments in the first parentheses of a line.
    pub fn extract_api_name(line: &str) -> (r: Option<String>)
        ensures
            text::optional(r) == api_name(line@),
    {
        let v = text::to_chars(line);
        let open: usize = text::find_from(&v, '(', 0);
        assert(v@.skip(0) =~= v@);
        if open >= v.len() {
            return None;
        }
        let tail_text = text::from_chars(&v, open + 1, v.len());
        let tail = text::to_chars(tail_text.as_str());
        let ghost expected = line@.skip(open + 1);
        assert(tail@ =~= expected);
        let args = match find_closing(&tail) {
            Some(end) => text::from_chars(&tail, 0, end),
            None => String::new(),
        };
        assert(args@ =~= match closing(expected, 0, 1) {
            Some(end) => expected.take(end),
            None => Seq::empty(),
        });
        let parts = text::split_char(args.as_str(), ',');
        assert(parts@.len() == text::texts(parts@).len());
        if parts.len() < 2 {
            return None;
        }
        assert(text::texts(parts@)[1] == parts@[1]@);
        Some(text::trim(parts[1].as_str()))
    }

    /// Writes a header without the functions that are not there.
    pub fn filter_api_header(body: &str, available: &NameMap<u64>) -> (r: String)
        ensures
            r@ == filtered(body@, available@),
    {
        let known: usize = available.len();
        if known == 0 {
            assert forall|name: Seq<char>| !available@.contains_key(name) by {
                assert(available@.contains_key(name) <==> available.keys().contains(name));
            }
            return String::from_str(body);
        }
        assert(available.keys().contains(available.keys()[0]));
        assert(available@.contains_key(available.keys()[0]));
        let lines = text::split_lines(body);
        let ghost all = text::lines(body@);
        let mut out = String::new();
        let mut i: usize = 0;
        assert(out@ =~= Seq::<char>::empty());
        assert(all.len() == lines@.len());
        while i < lines.len()
            invariant
                all == text::texts(lines@),
                i <= lines@.len(),
                out@ == lines_that_stay(all, available@, i as nat),
            decreases lines@.len() - i,
        {
            let line = lines[i].as_str();
            assert(all[i as int] == line@);
            let inner = text::trim_start(line);
            let stays = if text::starts_with_text(inner.as_str(), "DO_API") {
                match Self::extract_api_name(inner.as_str()) {
                    Some(name) => available.contains_key(name.as_str()),
                    None => true,
                }
            } else {
                true
            };
            if stays {
                out.append(line);
                out.append("\n");
            }
            i = i + 1;
        }
        out
    }

    /// Writes the header with the addresses of exported functions.
    pub fn build_api_function_ptr_header(exports: &NameMap<u64>) -> (r: String)
        ensures
            r@ == pointers_header(exports@),
    {
        let n: usize = exports.len();
        let ghost keys = exports.keys();
        let mut names: Vec<String> = Vec::new();
        let mut i: usize = 0;
        assert(text::texts(names@) =~= Seq::<Seq<char>>::empty());
        assert(keys.take(0).to_set() =~= Set::<Seq<char>>::empty());
        assert(text::texts(names@).to_set() =~= keys.take(0).to_set());
        while i < n
            invariant
                keys == exports.keys(),
                n == keys.len(),
                i <= n,
                text::increasing(text::texts(names@)),
                text::texts(names@).to_set() == keys.take(i as int).to_set(),
            decreases n - i,
        {
            let name = exports.key_at(i);
            text::insert_in_order(&mut names, String::from_str(name));
            i = i + 1;
            proof {
                let before = keys.take(i - 1);
                let now = keys.take(i as int);
                assert(now =~= before.push(keys[i - 1]));
                assert forall|v: Seq<char>| now.to_set().contains(v) <==> before.to_set().insert(
                    keys[i - 1],
                ).contains(v) by {
                    if now.contains(v) {
                        let k = choose|k: int| 0 <= k < now.len() && now[k] == v;
                        if k < before.len() {
                            assert(before[k] == v);
                            assert(before.contains(v));
                        }
                    }
                    if before.contains(v) {
                        let k = choose|k: int| 0 <= k < before.len() && before[k] == v;
                        assert(now[k] == v);
                    }
                    assert(now[i - 1] == keys[i - 1]);
                }
                assert(now.to_set() =~= before.to_set().insert(keys[i - 1]));
            }
        }
        let ghost list = text::texts(names@);
        proof {
            assert(keys.take(n as int) =~= keys);
            assert forall|k: Seq<char>| list.to_set().contains(k) <==> exports@.dom().contains(
                k,
            ) by {
                assert(exports@.contains_key(k) <==> keys.contains(k));
                assert(keys.to_set().contains(k) <==> keys.contains(k));
            }
            assert(list.to_set() =~= exports@.dom());
            assert(are_names(list, exports@));
            text::law_increasing_unique(
                list,
                choose|names: Seq<Seq<char>>| are_names(names, exports@),
            );
        }
        let mut lines = String::new();
        let mut k: usize = 0;
        assert(lines@ =~= Seq::<char>::empty());
        while k < names.len()
            invariant
                list == text::texts(names@),
                are_names(list, exports@),
                k <= names@.len(),
                lines@ == pointer_lines(list, exports@, k as nat),
            decreases names@.len() - k,
        {
            let name = names[k].as_str();
            proof {
                assert(list[k as int] == name@);
                assert(list.to_set().contains(list[k as int]));
            }
            if let Some(rva) = exports.get(name) {
                let ghost before = lines@;
                let line = String::from_str("#define ").concat(name).concat("_ptr 0x").concat(
                    numeral::hex_padded_string(*rva, 8).as_str(),
                ).concat("\n");
                lines.append(line.as_str());
                assert(lines@ =~= before + "#define "@ + name@ + "_ptr 0x"@ + numeral::hex_padded(
                    *rva as nat,
                    8,
                ) + "\n"@);
            }
            k = k + 1;
        }
        assert(names@.len() == list.len());
        String::from_str("#pragma once\n\n").concat(lines.as_str())
    }

    /// Writes the header with the type definitions of an image.
    pub fn build_types_ptr_header<F: Fn(&str, NameStyle) -> String>(
        executor: &Il2CppExecutor,
        metadata: &Metadata,
        sanitizer: &Sanitizer<F>,
    ) -> (r: String)
        requires
            metadata.images_fit(),
            executor.type_def_names@.len() == metadata.type_defs@.len(),
        ensures
            r@ == type_pointers_header(
                struct_names::struct_names(*executor, *metadata, sanitizer.spelling()),
                metadata.type_defs@.len(),
            ),
    {
        let names = struct_names::build_struct_name_dic(executor, metadata, sanitizer);
        let ghost texts = struct_names::struct_names(*executor, *metadata, sanitizer.spelling());
        let mut lines = String::new();
        let mut td: usize = 0;
        assert(lines@ =~= Seq::<char>::empty());
        while td < metadata.type_defs.len()
            invariant
                crate::output::c_types::name_texts(names@) == texts,
                td <= metadata.type_defs@.len(),
                lines@ == type_lines(texts, td as nat),
            decreases metadata.type_defs@.len() - td,
        {
            if let Some(name) = names.get(&td) {
                assert(texts.contains_key(td) && texts[td] == name@);
                if name.as_str().unicode_len() > 0 {
                    let ghost before = lines@;
                    let line = String::from_str("DO_TYPEDEF(0x00000000, ").concat(
                        name.as_str(),
                    ).concat(");\n");
                    lines.append(line.as_str());
                    assert(lines@ =~= before + "DO_TYPEDEF(0x00000000, "@ + name@ + ");\n"@);
                }
            } else {
                assert(!texts.contains_key(td));
            }
            td = td + 1;
        }
        String::from_str("#pragma once\n\n").concat(lines.as_str())
    }

    /// Writes the header with the version of the metadata.
    pub fn build_version_header(il2cpp: &Il2Cpp) -> (r: String)
        ensures
            r@ == version_header(il2cpp.version),
    {
        let tenths: u64 = (il2cpp.version as u64 + 5) / 10;
        String::from_str("#pragma once\n\n#define __IL2CPP_METADATA_VERSION ").concat(
            numeral::dec_string(tenths).as_str(),
        ).concat("\n")
    }

    fn list_fixed_files() -> (r: Vec<ProjectFile>)
        ensures
            script_json::views(r@) == fixed_files(),
    {
        broadcast use script_json::lemma_views_push;

        let mut out: Vec<ProjectFile> = Vec::new();
        assert(script_json::views(out@) =~= Seq::<ProjectFileModel>::empty());
        let main = String::from_str(TEMPLATE_DLLMAIN_CPP);
        out.push(make_file("framework/dllmain.cpp", main, true));
        let helpers = String::from_str(TEMPLATE_HELPERS_CPP);
        out.push(make_file("framework/helpers.cpp", helpers, true));
        let helpers_h = String::from_str(TEMPLATE_HELPERS_H);
        out.push(make_file("framework/helpers.h", helpers_h, true));
        let appdata = String::from_str(TEMPLATE_IL2CPP_APPDATA_H);
        out.push(make_file("framework/il2cpp-appdata.h", appdata, true));
        let init = String::from_str(TEMPLATE_IL2CPP_INIT_CPP);
        out.push(make_file("framework/il2cpp-init.cpp", init, true));
        let init_h = String::from_str(TEMPLATE_IL2CPP_INIT_H);
        out.push(make_file("framework/il2cpp-init.h", init_h, true));
        let pch = String::from_str(TEMPLATE_PCH_IL2CPP_CPP);
        out.push(make_file("framework/pch-il2cpp.cpp", pch, true));
        let pch_h = String::from_str(TEMPLATE_PCH_IL2CPP_H);
        out.push(make_file("framework/pch-il2cpp.h", pch_h, true));
        let user = String::from_str(TEMPLATE_MAIN_CPP);
        out.push(make_file("user/main.cpp", user, false));
        let user_h = String::from_str(TEMPLATE_MAIN_H);
        out.push(make_file("user/main.h", user_h, false));
        let project_guid = Self::make_guid(0);
        let vcxproj = text::replace_text(
            TEMPLATE_VCXPROJ,
            "%PROJECTGUID%",
            project_guid.as_str(),
        );
        out.push(make_file("IL2CppDLL.vcxproj", vcxproj, false));
        let filters1 = text::replace_text(
            TEMPLATE_VCXPROJ_FILTERS,
            "%GUID1%",
            Self::make_guid(1).as_str(),
        );
        let filters2 = text::replace_text(
            filters1.as_str(),
            "%GUID2%",
            Self::make_guid(2).as_str(),
        );
        let filters = text::replace_text(filters2.as_str(), "%GUID3%", Self::make_guid(3).as_str());
        out.push(make_file("IL2CppDLL.vcxproj.filters", filters, false));
        let sln1 = text::replace_text(TEMPLATE_SLN, "%PROJECTGUID%", project_guid.as_str());
        let sln2 = text::replace_text(sln1.as_str(), "%PROJECTNAME%", "IL2CppDLL");
        let sln3 = text::replace_text(sln2.as_str(), "%PROJECTFILE%", "IL2CppDLL.vcxproj");
        let sln = text::replace_text(sln3.as_str(), "%SOLUTIONGUID%", Self::make_guid(4).as_str());
        out.push(make_file("IL2CppDLL.sln", sln, false));
        assert(script_json::views(out@) =~= fixed_files());
        out
    }

    /// The files of the project around an image.
    pub fn project_files<F: Fn(&str, NameStyle) -> String>(
        executor: &Il2CppExecutor,
        metadata: &Metadata,
        il2cpp: &Il2Cpp,
        type_header_text: &str,
        api_header_text: &str,
        sanitizer: &Sanitizer<F>,
    ) -> (r: Vec<ProjectFile>)
        requires
            func_entries::functions_ready(
                functions_of(*executor, *metadata, *il2cpp, sanitizer.spelling()),
            ),
        ensures
            script_json::views(r@) == image_files(
                ProjectSource {
                    functions: functions_of(
                        *executor,
                        *metadata,
                        *il2cpp,
                        sanitizer.spelling(),
                    ),
                    type_header: type_header_text@,
                    api_header: api_header_text@,
                },
            ) + fixed_files(),
    {
        broadcast use script_json::lemma_views_push;

        let ghost p = ProjectSource {
            functions: functions_of(*executor, *metadata, *il2cpp, sanitizer.spelling()),
            type_header: type_header_text@,
            api_header: api_header_text@,
        };
        let functions = match Self::build(executor, metadata, il2cpp, sanitizer) {
            Ok(functions) => functions,
            Err(_) => String::new(),
        };
        let mut out: Vec<ProjectFile> = Vec::new();
        assert(script_json::views(out@) =~= Seq::<ProjectFileModel>::empty());
        let functions_h = Self::wrap_header(
            "IL2CPP application method pointers",
            functions.as_str(),
        );
        out.push(make_file("appdata/il2cpp-functions.h", functions_h, true));
        let types_h = Self::wrap_types_header(il2cpp, type_header_text);
        out.push(make_file("appdata/il2cpp-types.h", types_h, true));
        let api = Self::filter_api_header(api_header_text, &il2cpp.api_export_rvas);
        let api_h = Self::wrap_header("IL2CPP API function declarations", api.as_str());
        out.push(make_file("appdata/il2cpp-api-functions.h", api_h, true));
        let pointers = Self::build_api_function_ptr_header(&il2cpp.api_export_rvas);
        let pointers_h = Self::wrap_header("IL2CPP API function pointers", pointers.as_str());
        out.push(make_file("appdata/il2cpp-api-functions-ptr.h", pointers_h, true));
        let type_pointers = Self::build_types_ptr_header(executor, metadata, sanitizer);
        let type_pointers_h = Self::wrap_header(
            "IL2CPP application type definition addresses",
            type_pointers.as_str(),
        );
        out.push(make_file("appdata/il2cpp-types-ptr.h", type_pointers_h, true));
        let version_h = Self::build_version_header(il2cpp);
        out.push(make_file("appdata/il2cpp-metadata-version.h", version_h, true));
        assert(script_json::views(out@) =~= image_files(p));
        let fixed = Self::list_fixed_files();
        let ghost first = out@;
        let ghost rest = fixed@;
        let mut fixed = fixed;
        out.append(&mut fixed);
        assert(out@ =~= first + rest);
        assert(script_json::views(out@) =~= script_json::views(first) + script_json::views(rest));
        out
    }
}

/// Where every line stays, the filter leaves all lines of a header.
pub proof fn law_filter_all_stays(body: Seq<char>, available: Map<Seq<char>, u64>, n: nat)
    requires
        n <= text::lines(body).len(),
        forall|i: int|
            0 <= i < text::lines(body).len() ==> line_stays(
                #[trigger] text::lines(body)[i],
                available,
            ),
    ensures
        lines_that_stay(text::lines(body), available, n) == closed_lines(text::lines(body), n),
    decreases n,
{
    if n > 0 {
        law_filter_all_stays(body, available, (n - 1) as nat);
    }
}

/// The first `n` lines, each with a line feed.
pub open spec fn closed_lines(lines: Seq<Seq<char>>, n: nat) -> Seq<char>
    decreases n,
{
    if n == 0 {
        Seq::empty()
    } else {
        closed_lines(lines, (n - 1) as nat) + lines[n - 1] + "\n"@
    }
}

} // verus!
