//! What the project of an image says of its functions.
use crate::il2cpp::base;
use crate::il2cpp::base::Il2Cpp;
use crate::il2cpp::metadata;
use crate::il2cpp::metadata::Metadata;
use crate::il2cpp::structures::Il2CppGenericContext;
use crate::laws::script::image_name;
use crate::laws::texts;
use crate::laws::texts::{flat_list, list_of};
use crate::laws::words;
use crate::names::NameStyle;
use crate::numeral;
use crate::output::c_types;
use crate::output::c_types::{CStyle, Node};
use crate::output::func_entries;
use crate::output::func_entries::{FuncEntryModel, Functions};
use crate::output::method_info;
use crate::output::signature;
use crate::output::usages;
use vstd::prelude::*;
use vstd::string::*;

verus! {

// Where methods are described.

/// The word at an offset stands for the method with the number `k`, which exists.
pub open spec fn word_names(m: Metadata, il2cpp: Il2Cpp, at: int, k: usize) -> bool {
    let word = words::pointer_word(il2cpp.stream.bytes@, il2cpp.is_32bit, at);
    &&& word % 2 == 1
    &&& word / 0x2000_0000 == 3
    &&& (word % 0x2000_0000) / 2 == k
    &&& k < m.method_defs@.len()
}

/// The distance of an address from the image base.
pub open spec fn distance(il2cpp: Il2Cpp, va: u64) -> u64 {
    ((va - il2cpp.image_base) % 0x1_0000_0000_0000_0000) as u64
}

proof fn lemma_distance(il2cpp: Il2Cpp, va: u64)
    ensures
        il2cpp.rva(va) == distance(il2cpp, va),
{
    let base = il2cpp.image_base;
    if base <= va {
        assert((va - base) % 0x1_0000_0000_0000_0000 == va - base);
    } else {
        assert((va - base) % 0x1_0000_0000_0000_0000 == va - base + 0x1_0000_0000_0000_0000);
    }
}

/// The offset of the `j`-th word of the `n`-th data section.
pub open spec fn word_place(il2cpp: Il2Cpp, n: int, j: int) -> int {
    il2cpp.data_sections@[n].offset + j * words::pointer_bytes(il2cpp.is_32bit)
}

/// The data section has a `j`-th word that stands for the method `k`, and its last word stands
/// behind it.
pub open spec fn section_names(m: Metadata, il2cpp: Il2Cpp, n: int, j: int, k: usize) -> bool {
    let end = word_place(il2cpp, n, j) + words::pointer_bytes(il2cpp.is_32bit);
    &&& 0 <= n < il2cpp.data_sections@.len()
    &&& 0 <= j
    &&& end < il2cpp.data_sections@[n].offset_end
    &&& end < il2cpp.stream.bytes@.len()
    &&& word_names(m, il2cpp, word_place(il2cpp, n, j), k)
}

/// The `j`-th usage of the `n`-th list of the metadata stands for the method `k`, and its place
/// exists.
pub open spec fn list_names(m: Metadata, il2cpp: Il2Cpp, n: int, j: int, k: usize) -> bool {
    let list = m.metadata_usages@[n];
    let e = list.1@[j];
    &&& 0 <= n < m.metadata_usages@.len()
    &&& 0 <= j < list.1@.len()
    &&& list.0 == 3
    &&& e.1 == k
    &&& k < m.method_defs@.len()
    &&& e.0 < il2cpp.metadata_usages@.len()
    &&& il2cpp.metadata_usages@[e.0 as int] != 0
}

/// The place `(n, j)` comes before the place `(a, b)`.
pub open spec fn is_before(n: int, j: int, a: int, b: int) -> bool {
    n < a || (n == a && j < b)
}

/// Since version 27 a method is described at the place of the last word of a data section that
/// stands for it; between versions 16 and 27 at that of the last usage that stands for it. A method
/// that nothing stands for is not described.
pub open spec fn is_info_map(m: Metadata, il2cpp: Il2Cpp, map: Map<usize, u64>) -> bool {
    if il2cpp.version >= words::version_number(27, 0) {
        &&& forall|n: int, j: int, k: usize| #[trigger]
            section_names(m, il2cpp, n, j, k) ==> map.contains_key(k)
        &&& forall|k: usize| #[trigger]
            map.contains_key(k) ==> exists|n: int, j: int| #[trigger]
                section_names(m, il2cpp, n, j, k) && map[k] == distance(
                    il2cpp,
                    base::address_of(il2cpp.va_segments@, word_place(il2cpp, n, j) as u64),
                ) && forall|a: int, b: int| #[trigger]
                    section_names(m, il2cpp, a, b, k) ==> !is_before(n, j, a, b)
    } else if il2cpp.version > words::version_number(16, 0) {
        &&& forall|n: int, j: int, k: usize| #[trigger]
            list_names(m, il2cpp, n, j, k) ==> map.contains_key(k)
        &&& forall|k: usize| #[trigger]
            map.contains_key(k) ==> exists|n: int, j: int| #[trigger]
                list_names(m, il2cpp, n, j, k) && map[k] == distance(
                    il2cpp,
                    il2cpp.metadata_usages@[m.metadata_usages@[n].1@[j].0 as int],
                ) && forall|a: int, b: int| #[trigger]
                    list_names(m, il2cpp, a, b, k) ==> !is_before(n, j, a, b)
    } else {
        forall|k: usize| !map.contains_key(k)
    }
}

proof fn lemma_word(p: Map<usize, u64>, m: Metadata, il2cpp: Il2Cpp, at: int)
    requires
        0 <= at <= u64::MAX,
        at + words::pointer_bytes(il2cpp.is_32bit) <= il2cpp.stream.bytes@.len(),
    ensures
        ({
            let r = func_entries::with_word(p, m, il2cpp, at as u64);
            forall|k: usize|
                #![trigger r.contains_key(k)]
                (word_names(m, il2cpp, at, k) ==> r.contains_key(k) && r[k] == distance(
                    il2cpp,
                    base::address_of(il2cpp.va_segments@, at as u64),
                )) && (!word_names(m, il2cpp, at, k) ==> r.contains_key(k) == p.contains_key(k) && (
                p.contains_key(k) ==> r[k] == p[k]))
        }),
{
    words::law_words(il2cpp.stream.bytes@, at as u64);
    lemma_distance(il2cpp, base::address_of(il2cpp.va_segments@, at as u64));
}

/// In a run of words from `at` on, before `end`, the `j`-th word stands for the method `k`.
spec fn run_names(m: Metadata, il2cpp: Il2Cpp, at: int, end: int, j: int, k: usize) -> bool {
    let place = at + j * words::pointer_bytes(il2cpp.is_32bit);
    0 <= j && place < end && word_names(m, il2cpp, place, k)
}

proof fn lemma_run(p: Map<usize, u64>, m: Metadata, il2cpp: Il2Cpp, at: int, end: int, k: usize)
    requires
        0 <= at,
        end <= u64::MAX,
        end + words::pointer_bytes(il2cpp.is_32bit) <= il2cpp.stream.bytes@.len(),
    ensures
        ({
            let r = func_entries::with_words(p, m, il2cpp, at, end);
            let size = words::pointer_bytes(il2cpp.is_32bit);
            &&& (exists|j: int| #[trigger] run_names(m, il2cpp, at, end, j, k)) ==> exists|j: int|
                #[trigger]
                run_names(m, il2cpp, at, end, j, k) && r.contains_key(k) && r[k] == distance(
                    il2cpp,
                    base::address_of(il2cpp.va_segments@, (at + j * size) as u64),
                ) && forall|b: int| #[trigger] run_names(m, il2cpp, at, end, b, k) ==> b <= j
            &&& !(exists|j: int| #[trigger] run_names(m, il2cpp, at, end, j, k))
                ==> r.contains_key(k) == p.contains_key(k) && (p.contains_key(k) ==> r[k] == p[k])
        }),
    decreases end + 8 - at,
{
    let size = words::pointer_bytes(il2cpp.is_32bit);
    if at >= end {
        assert forall|j: int| !(#[trigger] run_names(m, il2cpp, at, end, j, k)) by {
            if 0 <= j {
                assert(j * size >= 0) by (nonlinear_arith)
                    requires
                        j >= 0,
                        size >= 0,
                ;
            }
        }
    } else {
        let q = func_entries::with_word(p, m, il2cpp, at as u64);
        lemma_word(p, m, il2cpp, at);
        let next = at + size;
        lemma_run(q, m, il2cpp, next, end, k);
        let r = func_entries::with_words(p, m, il2cpp, at, end);
        assert(r == func_entries::with_words(q, m, il2cpp, next, end));
        assert(q.contains_key(k) == q.contains_key(k));
        assert forall|j: int| j >= 1 implies #[trigger] run_names(m, il2cpp, at, end, j, k)
            == run_names(m, il2cpp, next, end, j - 1, k) by {
            assert(next + (j - 1) * size == at + j * size) by (nonlinear_arith)
                requires
                    next == at + size,
            ;
        }
        assert(at + 0 * size == at);
        assert(run_names(m, il2cpp, at, end, 0, k) == word_names(m, il2cpp, at, k));
        if exists|j: int| #[trigger] run_names(m, il2cpp, next, end, j, k) {
            let j = choose|j: int| #[trigger]
                run_names(m, il2cpp, next, end, j, k) && r.contains_key(k) && r[k] == distance(
                    il2cpp,
                    base::address_of(il2cpp.va_segments@, (next + j * size) as u64),
                ) && forall|b: int| #[trigger] run_names(m, il2cpp, next, end, b, k) ==> b <= j;
            assert(run_names(m, il2cpp, at, end, j + 1, k));
            assert(next + j * size == at + (j + 1) * size) by (nonlinear_arith)
                requires
                    next == at + size,
            ;
            assert forall|b: int| #[trigger] run_names(m, il2cpp, at, end, b, k) implies b
                <= j + 1 by {
                if b >= 1 {
                    assert(run_names(m, il2cpp, next, end, b - 1, k));
                }
            }
        } else {
            assert forall|b: int| #[trigger] run_names(m, il2cpp, at, end, b, k) implies b == 0 by {
                if b >= 1 {
                    assert(run_names(m, il2cpp, next, end, b - 1, k));
                }
            }
            if word_names(m, il2cpp, at, k) {
                assert(run_names(m, il2cpp, at, end, 0, k));
            } else {
                assert(!(exists|j: int| #[trigger] run_names(m, il2cpp, at, end, j, k)));
            }
        }
    }
}

proof fn lemma_section(m: Metadata, il2cpp: Il2Cpp, n: int, j: int, k: usize)
    requires
        0 <= n < il2cpp.data_sections@.len(),
    ensures
        section_names(m, il2cpp, n, j, k) == run_names(
            m,
            il2cpp,
            il2cpp.data_sections@[n].offset as int,
            usages::section_end(il2cpp, il2cpp.data_sections@[n]),
            j,
            k,
        ),
{
}

proof fn lemma_sections(m: Metadata, il2cpp: Il2Cpp, n: nat, k: usize)
    requires
        n <= il2cpp.data_sections@.len(),
    ensures
        ({
            let r = func_entries::with_sections(m, il2cpp, n);
            &&& (exists|a: int, b: int| a < n && #[trigger] section_names(m, il2cpp, a, b, k))
                ==> r.contains_key(k)
            &&& r.contains_key(k) ==> exists|a: int, b: int|
                a < n && #[trigger] section_names(m, il2cpp, a, b, k) && r[k] == distance(
                    il2cpp,
                    base::address_of(il2cpp.va_segments@, word_place(il2cpp, a, b) as u64),
                ) && forall|x: int, y: int|
                    x < n && #[trigger] section_names(m, il2cpp, x, y, k) ==> !is_before(
                        a,
                        b,
                        x,
                        y,
                    )
        }),
    decreases n,
{
    if n > 0 {
        let h = (n - 1) as nat;
        lemma_sections(m, il2cpp, h, k);
        let p = func_entries::with_sections(m, il2cpp, h);
        let r = func_entries::with_sections(m, il2cpp, n);
        let sec = il2cpp.data_sections@[h as int];
        let at = sec.offset as int;
        let end = usages::section_end(il2cpp, sec);
        lemma_run(p, m, il2cpp, at, end, k);
        assert forall|j: int| #[trigger] section_names(m, il2cpp, h as int, j, k) == run_names(
            m,
            il2cpp,
            at,
            end,
            j,
            k,
        ) by {
            lemma_section(m, il2cpp, h as int, j, k);
        }
        if exists|j: int| #[trigger] run_names(m, il2cpp, at, end, j, k) {
            let size = words::pointer_bytes(il2cpp.is_32bit);
            let j = choose|j: int| #[trigger]
                run_names(m, il2cpp, at, end, j, k) && r.contains_key(k) && r[k] == distance(
                    il2cpp,
                    base::address_of(il2cpp.va_segments@, (at + j * size) as u64),
                ) && forall|b: int| #[trigger] run_names(m, il2cpp, at, end, b, k) ==> b <= j;
            assert(section_names(m, il2cpp, h as int, j, k));
            assert(word_place(il2cpp, h as int, j) == at + j * size);
            assert forall|x: int, y: int|
                x < n && #[trigger] section_names(m, il2cpp, x, y, k) implies !is_before(
                h as int,
                j,
                x,
                y,
            ) by {
                if x == h {
                    assert(run_names(m, il2cpp, at, end, y, k));
                }
            }
        } else {
            assert forall|y: int| !(#[trigger] section_names(m, il2cpp, h as int, y, k)) by {
                lemma_section(m, il2cpp, h as int, y, k);
            }
            if exists|a: int, b: int| a < n && #[trigger] section_names(m, il2cpp, a, b, k) {
                let (a, b) = choose|a: int, b: int|
                    a < n && #[trigger] section_names(m, il2cpp, a, b, k);
                assert(a < h);
            }
            if r.contains_key(k) {
                let (a, b) = choose|a: int, b: int|
                    a < h && #[trigger] section_names(m, il2cpp, a, b, k) && p[k] == distance(
                        il2cpp,
                        base::address_of(il2cpp.va_segments@, word_place(il2cpp, a, b) as u64),
                    ) && forall|x: int, y: int|
                        x < h && #[trigger] section_names(m, il2cpp, x, y, k) ==> !is_before(
                            a,
                            b,
                            x,
                            y,
                        );
                assert(section_names(m, il2cpp, a, b, k));
                assert forall|x: int, y: int|
                    x < n && #[trigger] section_names(m, il2cpp, x, y, k) implies !is_before(
                    a,
                    b,
                    x,
                    y,
                ) by {
                    assert(x != h);
                }
            }
        }
    }
}

proof fn lemma_list(p: Map<usize, u64>, m: Metadata, il2cpp: Il2Cpp, n: int, i: nat, k: usize)
    requires
        0 <= n < m.metadata_usages@.len(),
        m.metadata_usages@[n].0 == 3,
        i <= m.metadata_usages@[n].1@.len(),
    ensures
        ({
            let r = func_entries::with_list(p, m, il2cpp, m.metadata_usages@[n].1@, i);
            &&& (exists|j: int| j < i && #[trigger] list_names(m, il2cpp, n, j, k)) ==> exists|
                j: int,
            |
                j < i && #[trigger] list_names(m, il2cpp, n, j, k) && r.contains_key(k) && r[k]
                    == distance(
                    il2cpp,
                    il2cpp.metadata_usages@[m.metadata_usages@[n].1@[j].0 as int],
                ) && forall|b: int|
                    b < i && #[trigger] list_names(m, il2cpp, n, b, k) ==> b <= j
            &&& !(exists|j: int| j < i && #[trigger] list_names(m, il2cpp, n, j, k))
                ==> r.contains_key(k) == p.contains_key(k) && (p.contains_key(k) ==> r[k] == p[k])
        }),
    decreases i,
{
    if i > 0 {
        let h = (i - 1) as nat;
        lemma_list(p, m, il2cpp, n, h, k);
        let list = m.metadata_usages@[n].1@;
        let q = func_entries::with_list(p, m, il2cpp, list, h);
        let r = func_entries::with_list(p, m, il2cpp, list, i);
        let e = list[h as int];
        if e.0 < il2cpp.metadata_usages@.len() {
            lemma_distance(il2cpp, il2cpp.metadata_usages@[e.0 as int]);
        }
        if list_names(m, il2cpp, n, h as int, k) {
            assert(r.contains_key(k) && r[k] == distance(
                il2cpp,
                il2cpp.metadata_usages@[e.0 as int],
            ));
            assert(list_names(m, il2cpp, n, h as int, k));
        } else {
            assert(r.contains_key(k) == q.contains_key(k));
            assert(q.contains_key(k) ==> r[k] == q[k]);
            if exists|j: int| j < i && #[trigger] list_names(m, il2cpp, n, j, k) {
                let j = choose|j: int| j < i && #[trigger] list_names(m, il2cpp, n, j, k);
                assert(j < h);
                let l = choose|l: int|
                    l < h && #[trigger] list_names(m, il2cpp, n, l, k) && q.contains_key(k) && q[k]
                        == distance(
                        il2cpp,
                        il2cpp.metadata_usages@[m.metadata_usages@[n].1@[l].0 as int],
                    ) && forall|b: int|
                        b < h && #[trigger] list_names(m, il2cpp, n, b, k) ==> b <= l;
                assert(list_names(m, il2cpp, n, l, k));
                assert forall|b: int|
                    b < i && #[trigger] list_names(m, il2cpp, n, b, k) implies b <= l by {
                    assert(b != h);
                }
            }
        }
    }
}

proof fn lemma_lists(m: Metadata, il2cpp: Il2Cpp, n: nat, k: usize)
    requires
        n <= m.metadata_usages@.len(),
    ensures
        ({
            let r = func_entries::with_lists(m, il2cpp, n);
            &&& (exists|a: int, b: int| a < n && #[trigger] list_names(m, il2cpp, a, b, k))
                ==> r.contains_key(k)
            &&& r.contains_key(k) ==> exists|a: int, b: int|
                a < n && #[trigger] list_names(m, il2cpp, a, b, k) && r[k] == distance(
                    il2cpp,
                    il2cpp.metadata_usages@[m.metadata_usages@[a].1@[b].0 as int],
                ) && forall|x: int, y: int|
                    x < n && #[trigger] list_names(m, il2cpp, x, y, k) ==> !is_before(a, b, x, y)
        }),
    decreases n,
{
    if n > 0 {
        let h = (n - 1) as nat;
        lemma_lists(m, il2cpp, h, k);
        let p = func_entries::with_lists(m, il2cpp, h);
        let r = func_entries::with_lists(m, il2cpp, n);
        let list = m.metadata_usages@[h as int];
        if list.0 == 3 {
            lemma_list(p, m, il2cpp, h as int, list.1@.len(), k);
        }
        if list.0 == 3 && exists|j: int|
            j < list.1@.len() && #[trigger] list_names(m, il2cpp, h as int, j, k) {
            let j = choose|j: int|
                j < list.1@.len() && #[trigger] list_names(m, il2cpp, h as int, j, k)
                    && r.contains_key(k) && r[k] == distance(
                    il2cpp,
                    il2cpp.metadata_usages@[list.1@[j].0 as int],
                ) && forall|b: int|
                    b < list.1@.len() && #[trigger] list_names(m, il2cpp, h as int, b, k) ==> b
                        <= j;
            assert(list_names(m, il2cpp, h as int, j, k));
            assert forall|x: int, y: int|
                x < n && #[trigger] list_names(m, il2cpp, x, y, k) implies !is_before(
                h as int,
                j,
                x,
                y,
            ) by {}
        } else {
            assert forall|y: int| !(#[trigger] list_names(m, il2cpp, h as int, y, k)) by {}
            if exists|a: int, b: int| a < n && #[trigger] list_names(m, il2cpp, a, b, k) {
                let (a, b) = choose|a: int, b: int|
                    a < n && #[trigger] list_names(m, il2cpp, a, b, k);
                assert(a < h);
            }
            if r.contains_key(k) {
                let (a, b) = choose|a: int, b: int|
                    a < h && #[trigger] list_names(m, il2cpp, a, b, k) && p[k] == distance(
                        il2cpp,
                        il2cpp.metadata_usages@[m.metadata_usages@[a].1@[b].0 as int],
                    ) && forall|x: int, y: int|
                        x < h && #[trigger] list_names(m, il2cpp, x, y, k) ==> !is_before(
                            a,
                            b,
                            x,
                            y,
                        );
                assert(list_names(m, il2cpp, a, b, k));
                assert forall|x: int, y: int|
                    x < n && #[trigger] list_names(m, il2cpp, x, y, k) implies !is_before(
                    a,
                    b,
                    x,
                    y,
                ) by {
                    assert(x != h);
                }
            }
        }
    }
}

/// The addresses of what describes methods are those of the words or of the usages that stand for
/// them.
pub proof fn law_info_addresses(m: Metadata, il2cpp: Il2Cpp)
    ensures
        is_info_map(m, il2cpp, func_entries::info_addresses(m, il2cpp)),
{
    let map = func_entries::info_addresses(m, il2cpp);
    if il2cpp.version >= words::version_number(27, 0) {
        let n = il2cpp.data_sections@.len();
        assert forall|a: int, b: int, k: usize| #[trigger]
            section_names(m, il2cpp, a, b, k) implies map.contains_key(k) by {
            lemma_sections(m, il2cpp, n, k);
        }
        assert forall|k: usize| #[trigger] map.contains_key(k) implies exists|a: int, b: int|
            #[trigger]
            section_names(m, il2cpp, a, b, k) && map[k] == distance(
                il2cpp,
                base::address_of(il2cpp.va_segments@, word_place(il2cpp, a, b) as u64),
            ) && forall|x: int, y: int| #[trigger]
                section_names(m, il2cpp, x, y, k) ==> !is_before(a, b, x, y) by {
            lemma_sections(m, il2cpp, n, k);
            let (a, b) = choose|a: int, b: int|
                a < n && #[trigger] section_names(m, il2cpp, a, b, k) && map[k] == distance(
                    il2cpp,
                    base::address_of(il2cpp.va_segments@, word_place(il2cpp, a, b) as u64),
                ) && forall|x: int, y: int|
                    x < n && #[trigger] section_names(m, il2cpp, x, y, k) ==> !is_before(
                        a,
                        b,
                        x,
                        y,
                    );
            assert(section_names(m, il2cpp, a, b, k));
        }
    } else if il2cpp.version > words::version_number(16, 0) {
        let n = m.metadata_usages@.len();
        assert forall|a: int, b: int, k: usize| #[trigger]
            list_names(m, il2cpp, a, b, k) implies map.contains_key(k) by {
            lemma_lists(m, il2cpp, n, k);
        }
        assert forall|k: usize| #[trigger] map.contains_key(k) implies exists|a: int, b: int|
            #[trigger]
            list_names(m, il2cpp, a, b, k) && map[k] == distance(
                il2cpp,
                il2cpp.metadata_usages@[m.metadata_usages@[a].1@[b].0 as int],
            ) && forall|x: int, y: int| #[trigger]
                list_names(m, il2cpp, x, y, k) ==> !is_before(a, b, x, y) by {
            lemma_lists(m, il2cpp, n, k);
            let (a, b) = choose|a: int, b: int|
                a < n && #[trigger] list_names(m, il2cpp, a, b, k) && map[k] == distance(
                    il2cpp,
                    il2cpp.metadata_usages@[m.metadata_usages@[a].1@[b].0 as int],
                ) && forall|x: int, y: int|
                    x < n && #[trigger] list_names(m, il2cpp, x, y, k) ==> !is_before(a, b, x, y);
            assert(list_names(m, il2cpp, a, b, k));
        }
    }
}

// The functions.

/// What a project says of a method of the type definition `td`, under the name of its type and its
/// own, in a context: where its code and its description are, what it returns, and its parameters.
pub open spec fn function(
    c: Functions,
    td: int,
    i: int,
    owner: Seq<char>,
    method: Seq<char>,
    ctx: Option<Il2CppGenericContext>,
    rva: u64,
    info: Option<u64>,
) -> FuncEntryModel {
    let md = c.s.m.method_defs@[i];
    let t = c.s.il2cpp.types@[md.return_type as int];
    let result = c_types::c_type(c.s, CStyle::Scaffold, Node { t, ctx, special: false });
    FuncEntryModel {
        rva,
        return_type: if t.byref == 1 {
            result + "*"@
        } else {
            result
        },
        func_name: (c.spelling)(owner, NameStyle::CppDollar) + "$$"@ + (c.spelling)(
            method,
            NameStyle::CppDollar,
        ),
        params: signature::parameters(
            c.s,
            CStyle::Scaffold,
            c.spelling,
            md,
            c.s.m.type_defs@[td],
            td as usize,
            ctx,
        ),
        method_info_rva: info,
    }
}

/// The function of the method with the number `i` itself: there is none where it has neither code
/// nor a description that belongs to it.
pub open spec fn own_function(c: Functions, td: int, i: int, image: Seq<char>) -> Option<
    FuncEntryModel,
> {
    let md = c.s.m.method_defs@[i];
    let pointer = c.s.il2cpp.method_pointer(image, md);
    let info = if c.infos.contains_key(i as usize) && md.declaring_type == td {
        Some(c.infos[i as usize])
    } else {
        None
    };
    if pointer == 0 && info is None {
        None
    } else {
        Some(
            function(
                c,
                td,
                i,
                c.s.x.type_def_names@[td]@,
                image_name(md.name),
                None,
                if pointer == 0 {
                    0
                } else {
                    distance(c.s.il2cpp, pointer)
                },
                info,
            ),
        )
    }
}

/// The function of the `k`-th instance of the method with the number `i`: there is none where it
/// has no code.
pub open spec fn instance_function(c: Functions, td: int, i: int, k: int) -> Option<
    FuncEntryModel,
> {
    let spec = c.s.il2cpp.method_definition_method_specs@[i as usize]@[k];
    let pointers = c.s.il2cpp.method_spec_generic_method_pointers@;
    if pointers.contains_key(spec) && pointers[spec] != 0 {
        let names = c.s.x.method_spec_names@[spec as int];
        Some(
            function(
                c,
                td,
                i,
                names.0@,
                names.1@,
                Some(c.s.x.method_spec_contexts@[spec as int]),
                distance(c.s.il2cpp, pointers[spec]),
                None,
            ),
        )
    } else {
        None
    }
}

/// The method with the number `i` has a `k`-th instance.
pub open spec fn has_instance(c: Functions, i: int, k: int) -> bool {
    let lists = c.s.il2cpp.method_definition_method_specs@;
    lists.contains_key(i as usize) && 0 <= k < lists[i as usize]@.len()
}

/// The function is that of the method with the number `i`, or that of an instance of it.
#[verifier::opaque]
pub open spec fn is_function_of(c: Functions, td: int, i: int, image: Seq<char>, x: FuncEntryModel) -> bool {
    ||| own_function(c, td, i, image) == Some(x)
    ||| exists|k: int| has_instance(c, i, k) && #[trigger] instance_function(c, td, i, k) == Some(x)
}

/// The `h`-th method of the type definition exists.
pub open spec fn has_method(c: Functions, td: int, h: int) -> bool {
    0 <= h < c.s.m.type_defs@[td].method_count
}

/// The function is one of a method of a type definition that an image lists.
pub open spec fn is_function(c: Functions, x: FuncEntryModel) -> bool {
    exists|j: int, h: int|
        0 <= j < metadata::type_jobs(c.s.m).len() && #[trigger] has_method(
            c,
            metadata::type_jobs(c.s.m)[j].0,
            h,
        ) && is_function_of(
            c,
            metadata::type_jobs(c.s.m)[j].0,
            c.s.m.type_defs@[metadata::type_jobs(c.s.m)[j].0].method_start + h,
            metadata::type_jobs(c.s.m)[j].1,
            x,
        )
}

proof fn lemma_push<T>(p: Seq<T>, y: T, x: T)
    ensures
        p.push(y).contains(x) <==> p.contains(x) || x == y,
{
    if p.contains(x) {
        let i = choose|i: int| 0 <= i < p.len() && p[i] == x;
        assert(p.push(y)[i] == x);
    }
    if x == y {
        assert(p.push(y)[p.len() as int] == x);
    }
}

proof fn lemma_own(
    p: Seq<FuncEntryModel>,
    c: Functions,
    td: int,
    i: int,
    image: Seq<char>,
    x: FuncEntryModel,
)
    ensures
        func_entries::with_own(p, c, td, i, image).contains(x) <==> p.contains(x) || own_function(
            c,
            td,
            i,
            image,
        ) == Some(x),
{
    let md = c.s.m.method_defs@[i];
    let pointer = c.s.il2cpp.method_pointer(image, md);
    reveal_strlit("");
    assert(""@ =~= Seq::<char>::empty());
    assert(crate::il2cpp::structures::name_or(md.name, ""@) == image_name(md.name));
    lemma_distance(c.s.il2cpp, pointer);
    if let Some(y) = own_function(c, td, i, image) {
        lemma_push(p, y, x);
    }
}

proof fn lemma_instances(
    p: Seq<FuncEntryModel>,
    c: Functions,
    td: int,
    i: int,
    k: nat,
    x: FuncEntryModel,
)
    requires
        k <= method_info::specs_for(c.s.il2cpp, i as usize).len(),
    ensures
        func_entries::with_specs(p, c, td, i, k).contains(x) <==> p.contains(x) || exists|h: int|
            0 <= h < k && #[trigger] instance_function(c, td, i, h) == Some(x),
    decreases k,
{
    if k > 0 {
        lemma_instances(p, c, td, i, (k - 1) as nat, x);
        let q = func_entries::with_specs(p, c, td, i, (k - 1) as nat);
        let spec = c.s.il2cpp.method_definition_method_specs@[i as usize]@[k - 1];
        lemma_distance(c.s.il2cpp, method_info::spec_pointer(c.s.il2cpp, spec));
        let last = instance_function(c, td, i, k - 1);
        if let Some(y) = last {
            lemma_push(q, y, x);
        }
        if exists|h: int| 0 <= h < k && #[trigger] instance_function(c, td, i, h) == Some(x) {
            let h = choose|h: int|
                0 <= h < k && #[trigger] instance_function(c, td, i, h) == Some(x);
            assert(h < k - 1 || last == Some(x));
        }
    }
}

proof fn lemma_one_method(
    p: Seq<FuncEntryModel>,
    c: Functions,
    td: int,
    i: int,
    image: Seq<char>,
    x: FuncEntryModel,
)
    ensures
        func_entries::with_specs(
            func_entries::with_own(p, c, td, i, image),
            c,
            td,
            i,
            method_info::specs_for(c.s.il2cpp, i as usize).len(),
        ).contains(x) <==> p.contains(x) || is_function_of(c, td, i, image, x),
{
    reveal(is_function_of);
    lemma_own(p, c, td, i, image, x);
    let own = func_entries::with_own(p, c, td, i, image);
    let n = method_info::specs_for(c.s.il2cpp, i as usize).len();
    lemma_instances(own, c, td, i, n, x);
    assert forall|h: int| has_instance(c, i, h) <==> 0 <= h < n by {}
    if exists|h: int| 0 <= h < n && #[trigger] instance_function(c, td, i, h) == Some(x) {
        let h = choose|h: int| 0 <= h < n && #[trigger] instance_function(c, td, i, h) == Some(x);
        assert(has_instance(c, i, h));
    }
    if is_function_of(c, td, i, image, x) && own_function(c, td, i, image) != Some(x) {
        let h = choose|h: int|
            has_instance(c, i, h) && #[trigger] instance_function(c, td, i, h) == Some(x);
        assert(0 <= h < n);
    }
}

proof fn lemma_methods(
    p: Seq<FuncEntryModel>,
    c: Functions,
    td: int,
    image: Seq<char>,
    k: nat,
    x: FuncEntryModel,
)
    requires
        k <= c.s.m.type_defs@[td].method_count,
    ensures
        func_entries::with_methods(p, c, td, image, k).contains(x) <==> p.contains(x) || exists|
            h: int,
        |
            h < k && #[trigger] has_method(c, td, h) && is_function_of(
                c,
                td,
                c.s.m.type_defs@[td].method_start + h,
                image,
                x,
            ),
    decreases k,
{
    if k > 0 {
        lemma_methods(p, c, td, image, (k - 1) as nat, x);
        let q = func_entries::with_methods(p, c, td, image, (k - 1) as nat);
        let i = c.s.m.type_defs@[td].method_start + k - 1;
        lemma_one_method(q, c, td, i, image, x);
        assert(has_method(c, td, k - 1));
        if exists|h: int|
            h < k && #[trigger] has_method(c, td, h) && is_function_of(
                c,
                td,
                c.s.m.type_defs@[td].method_start + h,
                image,
                x,
            ) {
            let h = choose|h: int|
                h < k && #[trigger] has_method(c, td, h) && is_function_of(
                    c,
                    td,
                    c.s.m.type_defs@[td].method_start + h,
                    image,
                    x,
                );
            assert(h < k - 1 || h == k - 1);
        }
    }
}

proof fn lemma_functions(c: Functions, n: nat, x: FuncEntryModel)
    requires
        n <= metadata::type_jobs(c.s.m).len(),
    ensures
        func_entries::functions_upto(c, n).contains(x) <==> exists|j: int, h: int|
            0 <= j < n && #[trigger] has_method(c, metadata::type_jobs(c.s.m)[j].0, h)
                && is_function_of(
                c,
                metadata::type_jobs(c.s.m)[j].0,
                c.s.m.type_defs@[metadata::type_jobs(c.s.m)[j].0].method_start + h,
                metadata::type_jobs(c.s.m)[j].1,
                x,
            ),
    decreases n,
{
    if n > 0 {
        lemma_functions(c, (n - 1) as nat, x);
        let job = metadata::type_jobs(c.s.m)[n - 1];
        lemma_methods(
            func_entries::functions_upto(c, (n - 1) as nat),
            c,
            job.0,
            job.1,
            c.s.m.type_defs@[job.0].method_count as nat,
            x,
        );
        if exists|h: int|
            h < c.s.m.type_defs@[job.0].method_count && #[trigger] has_method(c, job.0, h)
                && is_function_of(c, job.0, c.s.m.type_defs@[job.0].method_start + h, job.1, x) {
            let h = choose|h: int|
                h < c.s.m.type_defs@[job.0].method_count && #[trigger] has_method(c, job.0, h)
                    && is_function_of(
                    c,
                    job.0,
                    c.s.m.type_defs@[job.0].method_start + h,
                    job.1,
                    x,
                );
            assert(has_method(c, metadata::type_jobs(c.s.m)[n - 1].0, h));
        }
        if exists|j: int, h: int|
            0 <= j < n && #[trigger] has_method(c, metadata::type_jobs(c.s.m)[j].0, h)
                && is_function_of(
                c,
                metadata::type_jobs(c.s.m)[j].0,
                c.s.m.type_defs@[metadata::type_jobs(c.s.m)[j].0].method_start + h,
                metadata::type_jobs(c.s.m)[j].1,
                x,
            ) {
            let (j, h) = choose|j: int, h: int|
                0 <= j < n && #[trigger] has_method(c, metadata::type_jobs(c.s.m)[j].0, h)
                    && is_function_of(
                    c,
                    metadata::type_jobs(c.s.m)[j].0,
                    c.s.m.type_defs@[metadata::type_jobs(c.s.m)[j].0].method_start + h,
                    metadata::type_jobs(c.s.m)[j].1,
                    x,
                );
            assert(j < n - 1 || (j == n - 1 && has_method(c, job.0, h)));
        }
    }
}

/// The functions of an image are those of all methods with code or a description, and those of all
/// instances of methods with code, and no others.
pub proof fn law_all_functions(c: Functions)
    ensures
        forall|x: FuncEntryModel| #[trigger]
            func_entries::all_functions(c).contains(x) <==> is_function(c, x),
{
    assert forall|x: FuncEntryModel| #[trigger]
        func_entries::all_functions(c).contains(x) <==> is_function(c, x) by {
        lemma_functions(c, metadata::type_jobs(c.s.m).len(), x);
    }
}

/// The functions of a method: its own, if there is one, and those of its instances with code in
/// order.
pub open spec fn functions_of(c: Functions, td: int, i: int, image: Seq<char>) -> Seq<
    FuncEntryModel,
> {
    let lists = c.s.il2cpp.method_definition_method_specs@;
    let n = if lists.contains_key(i as usize) {
        lists[i as usize]@.len() as int
    } else {
        0
    };
    list_of(own_function(c, td, i, image)) + flat_list(
        n,
        |k: int| list_of(instance_function(c, td, i, k)),
    )
}

/// The functions of the methods of a type definition in order.
pub open spec fn functions_of_type(c: Functions, td: int, image: Seq<char>) -> Seq<FuncEntryModel> {
    let first = c.s.m.type_defs@[td].method_start;
    flat_list(
        c.s.m.type_defs@[td].method_count as int,
        |h: int| functions_of(c, td, first + h, image),
    )
}

/// The functions are those of the type definitions in the order in which images list them, of each
/// from its first method on, and of each method before those of its instances.
pub proof fn law_functions_order(c: Functions)
    ensures
        func_entries::all_functions(c) == flat_list(
            metadata::type_jobs(c.s.m).len() as int,
            |j: int|
                functions_of_type(
                    c,
                    metadata::type_jobs(c.s.m)[j].0,
                    metadata::type_jobs(c.s.m)[j].1,
                ),
        ),
{
    lemma_order(c, metadata::type_jobs(c.s.m).len());
}

proof fn lemma_order(c: Functions, n: nat)
    requires
        n <= metadata::type_jobs(c.s.m).len(),
    ensures
        func_entries::functions_upto(c, n) == flat_list(
            n as int,
            |j: int|
                functions_of_type(
                    c,
                    metadata::type_jobs(c.s.m)[j].0,
                    metadata::type_jobs(c.s.m)[j].1,
                ),
        ),
    decreases n,
{
    if n > 0 {
        lemma_order(c, (n - 1) as nat);
        let job = metadata::type_jobs(c.s.m)[n - 1];
        lemma_type_order(
            func_entries::functions_upto(c, (n - 1) as nat),
            c,
            job.0,
            job.1,
            c.s.m.type_defs@[job.0].method_count as nat,
        );
    }
}

proof fn lemma_type_order(
    p: Seq<FuncEntryModel>,
    c: Functions,
    td: int,
    image: Seq<char>,
    k: nat,
)
    requires
        k <= c.s.m.type_defs@[td].method_count,
    ensures
        func_entries::with_methods(p, c, td, image, k) == p + flat_list(
            k as int,
            |h: int| functions_of(c, td, c.s.m.type_defs@[td].method_start + h, image),
        ),
    decreases k,
{
    let f = |h: int| functions_of(c, td, c.s.m.type_defs@[td].method_start + h, image);
    if k == 0 {
        assert(p + Seq::<FuncEntryModel>::empty() =~= p);
    } else {
        lemma_type_order(p, c, td, image, (k - 1) as nat);
        let q = func_entries::with_methods(p, c, td, image, (k - 1) as nat);
        let i = c.s.m.type_defs@[td].method_start + k - 1;
        lemma_method_order(q, c, td, i, image);
        assert(f(k - 1) == functions_of(c, td, i, image));
        assert(p + flat_list(k - 1, f) + f(k - 1) =~= p + (flat_list(k - 1, f) + f(k - 1)));
    }
}

proof fn lemma_method_order(
    p: Seq<FuncEntryModel>,
    c: Functions,
    td: int,
    i: int,
    image: Seq<char>,
)
    ensures
        func_entries::with_specs(
            func_entries::with_own(p, c, td, i, image),
            c,
            td,
            i,
            method_info::specs_for(c.s.il2cpp, i as usize).len(),
        ) == p + functions_of(c, td, i, image),
{
    let md = c.s.m.method_defs@[i];
    reveal_strlit("");
    assert(""@ =~= Seq::<char>::empty());
    assert(crate::il2cpp::structures::name_or(md.name, ""@) == image_name(md.name));
    lemma_distance(c.s.il2cpp, c.s.il2cpp.method_pointer(image, md));
    let own = func_entries::with_own(p, c, td, i, image);
    assert(own =~= p + list_of(own_function(c, td, i, image)));
    let n = method_info::specs_for(c.s.il2cpp, i as usize).len();
    lemma_instance_order(own, c, td, i, n);
    let rest = flat_list(n as int, |k: int| list_of(instance_function(c, td, i, k)));
    assert(p + list_of(own_function(c, td, i, image)) + rest =~= p + (list_of(
        own_function(c, td, i, image),
    ) + rest));
}

proof fn lemma_instance_order(p: Seq<FuncEntryModel>, c: Functions, td: int, i: int, k: nat)
    requires
        k <= method_info::specs_for(c.s.il2cpp, i as usize).len(),
    ensures
        func_entries::with_specs(p, c, td, i, k) == p + flat_list(
            k as int,
            |h: int| list_of(instance_function(c, td, i, h)),
        ),
    decreases k,
{
    let f = |h: int| list_of(instance_function(c, td, i, h));
    if k == 0 {
        assert(p + Seq::<FuncEntryModel>::empty() =~= p);
    } else {
        lemma_instance_order(p, c, td, i, (k - 1) as nat);
        let spec = c.s.il2cpp.method_definition_method_specs@[i as usize]@[k - 1];
        lemma_distance(c.s.il2cpp, method_info::spec_pointer(c.s.il2cpp, spec));
        assert(f(k - 1) == list_of(instance_function(c, td, i, k - 1)));
        assert(func_entries::with_specs(p, c, td, i, k) =~= p + (flat_list(k - 1, f) + f(k - 1)));
    }
}

/// One of the first `n` functions has the code.
pub open spec fn code_before(all: Seq<FuncEntryModel>, n: int, rva: u64) -> bool {
    exists|j: int| 0 <= j < n && (#[trigger] all[j]).rva == rva
}

/// Of the functions with the same code the first one is kept; functions without code are all kept.
/// Those that are kept stay in order.
pub proof fn law_kept(all: Seq<FuncEntryModel>, n: nat)
    requires
        n <= all.len(),
    ensures
        func_entries::kept(all, n).0 == Seq::new(n, |i: int| i).filter(
            |i: int| all[i].rva == 0 || !code_before(all, i, all[i].rva),
        ).map_values(|i: int| all[i]),
{
    lemma_kept(all, n);
}

proof fn lemma_kept(all: Seq<FuncEntryModel>, n: nat)
    requires
        n <= all.len(),
    ensures
        func_entries::kept(all, n).0 == Seq::new(n, |i: int| i).filter(
            |i: int| all[i].rva == 0 || !code_before(all, i, all[i].rva),
        ).map_values(|i: int| all[i]),
        forall|a: u64| #[trigger]
            func_entries::kept(all, n).1.contains(a) <==> a > 0 && code_before(all, n as int, a),
    decreases n,
{
    reveal(Seq::filter);
    let fresh = |i: int| all[i].rva == 0 || !code_before(all, i, all[i].rva);
    let item = |i: int| all[i];
    let places = Seq::new(n, |i: int| i);
    if n == 0 {
        assert(func_entries::kept(all, n).0 =~= places.filter(fresh).map_values(item));
    } else {
        let m = (n - 1) as nat;
        lemma_kept(all, m);
        assert(places.drop_last() =~= Seq::new(m, |i: int| i));
        assert(places.last() == m);
        assert(func_entries::kept(all, n).0 =~= places.filter(fresh).map_values(item));
        assert forall|a: u64| #[trigger] func_entries::kept(all, n).1.contains(a) <==> a > 0
            && code_before(all, n as int, a) by {
            if code_before(all, m as int, a) {
                let j = choose|j: int| 0 <= j < m && (#[trigger] all[j]).rva == a;
                assert(all[j].rva == a);
            }
            if all[m as int].rva == a {
                assert(code_before(all, n as int, a));
            }
            if code_before(all, n as int, a) {
                let j = choose|j: int| 0 <= j < n && (#[trigger] all[j]).rva == a;
                assert(j < m ==> code_before(all, m as int, a));
            }
        }
    }
}

/// The lines of a function: its code with its result, name and parameters where it has code, and
/// its description where it has one.
pub open spec fn function_text(e: FuncEntryModel) -> Seq<char> {
    let code = "DO_APP_FUNC(0x"@ + numeral::numeral(e.rva as nat, 16, true) + ", "@
        + e.return_type + ", "@ + e.func_name + ", ("@ + e.params + "));\n"@;
    let info = "DO_APP_FUNC_METHODINFO(0x"@ + numeral::numeral(
        e.method_info_rva->0 as nat,
        16,
        true,
    ) + ", "@ + e.func_name + "__MethodInfo);\n"@;
    if e.rva != 0 && e.method_info_rva is Some {
        code + info
    } else if e.rva != 0 {
        code
    } else if e.method_info_rva is Some {
        info
    } else {
        Seq::empty()
    }
}

/// The functions are written one after the other.
pub proof fn law_function_texts(entries: Seq<FuncEntryModel>, n: nat)
    ensures
        func_entries::entry_texts(entries, n) == texts::flat(
            n as int,
            |i: int| function_text(entries[i]),
        ),
    decreases n,
{
    if n > 0 {
        law_function_texts(entries, (n - 1) as nat);
        let e = entries[n - 1];
        assert(func_entries::entry_text(e) =~= function_text(e));
    }
}

} // verus!
