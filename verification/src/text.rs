//! Strings: characters, searching, trimming, splitting, replacing, joining and ordering.
use vstd::prelude::*;
use vstd::string::*;

verus! {

/// `String::push` appends one character to the end of the string.
pub assume_specification[ std::string::String::push ](s: &mut std::string::String, c: char)
    ensures
        final(s)@ == old(s)@.push(c),
;

/// The characters of a string.
pub fn to_chars(s: &str) -> (r: Vec<char>)
    ensures
        r@ == s@,
{
    let mut v: Vec<char> = Vec::new();
    for c in iter: s.chars()
        invariant
            iter.seq() == s@,
            v@ == s@.take(iter.index()),
    {
        assert(s@.take(iter.index() + 1) =~= s@.take(iter.index()).push(c));
        v.push(c);
    }
    assert(s@.take(s@.len() as int) =~= s@);
    v
}

/// The string of the characters from `from` up to `to`.
pub fn from_chars(v: &Vec<char>, from: usize, to: usize) -> (r: String)
    requires
        from <= to <= v@.len(),
    ensures
        r@ == v@.subrange(from as int, to as int),
{
    let mut s = String::new();
    let mut i: usize = from;
    while i < to
        invariant
            from <= i <= to <= v@.len(),
            s@ == v@.subrange(from as int, i as int),
        decreases to - i,
    {
        assert(v@.subrange(from as int, i + 1) =~= v@.subrange(from as int, i as int).push(v@[i as int]));
        s.push(v[i]);
        i = i + 1;
    }
    assert(v@.subrange(from as int, from as int) =~= Seq::<char>::empty());
    s
}

/// Two strings spell the same text.
pub fn same_text(a: &str, b: &str) -> (r: bool)
    ensures
        r == (a@ == b@),
{
    a.to_owned() == b.to_owned()
}

/// The text of a string that may be missing.
pub open spec fn optional(s: Option<String>) -> Option<Seq<char>> {
    match s {
        Some(s) => Some(s@),
        None => None,
    }
}

/// A copy of a string that may be missing.
pub fn clone_optional(s: &Option<String>) -> (r: Option<String>)
    ensures
        optional(r) == optional(*s),
{
    match s {
        Some(s) => Some(s.clone()),
        None => None,
    }
}

/// The texts of a sequence of strings.
pub open spec fn texts(v: Seq<String>) -> Seq<Seq<char>> {
    Seq::new(v.len(), |i: int| v[i]@)
}

/// The texts of a sequence grow with it.
pub broadcast proof fn lemma_texts_push(v: Seq<String>, s: String)
    ensures
        #[trigger] texts(v.push(s)) == texts(v).push(s@),
{
    assert(texts(v.push(s)) =~= texts(v).push(s@));
}

/// A copy of a list of strings.
pub fn clone_texts(v: &Vec<String>) -> (r: Vec<String>)
    ensures
        texts(r@) == texts(v@),
{
    let mut out: Vec<String> = Vec::new();
    let mut i: usize = 0;
    while i < v.len()
        invariant
            i <= v@.len(),
            out@.len() == i,
            forall|k: int| 0 <= k < i ==> (#[trigger] out@[k])@ == v@[k]@,
        decreases v@.len() - i,
    {
        out.push(v[i].clone());
        i = i + 1;
    }
    assert(texts(out@) =~= texts(v@));
    out
}

/// The strings come in increasing order.
pub open spec fn increasing(v: Seq<Seq<char>>) -> bool {
    forall|i: int, j: int| 0 <= i < j < v.len() ==> less(#[trigger] v[i], #[trigger] v[j])
}

/// Puts a string into its place among strings in increasing order, unless it is there already.
pub fn insert_in_order(v: &mut Vec<String>, s: String)
    requires
        increasing(texts(old(v)@)),
    ensures
        increasing(texts(final(v)@)),
        texts(final(v)@).to_set() == texts(old(v)@).to_set().insert(s@),
{
    let mut i: usize = 0;
    let ghost all = texts(v@);
    while i < v.len() && less_text(v[i].as_str(), s.as_str())
        invariant
            all == texts(v@),
            v@ == old(v)@,
            i <= v@.len(),
            forall|k: int| 0 <= k < i ==> less(#[trigger] all[k], s@),
        decreases v@.len() - i,
    {
        assert(all[i as int] == v@[i as int]@);
        i = i + 1;
    }
    if i < v.len() && same_text(v[i].as_str(), s.as_str()) {
        assert(all[i as int] == s@);
        assert(all.to_set() =~= all.to_set().insert(s@));
        return;
    }
    proof {
        if i < v@.len() {
            assert(all[i as int] == v@[i as int]@);
            lemma_less_total(all[i as int], s@);
            assert forall|k: int| i <= k < all.len() implies less(s@, #[trigger] all[k]) by {
                if k > i {
                    assert(less(all[i as int], all[k]));
                    lemma_less_transitive(s@, all[i as int], all[k]);
                }
            }
        }
    }
    let ghost text = s@;
    v.insert(i, s);
    proof {
        let new = texts(v@);
        assert(new =~= all.insert(i as int, text));
        assert forall|a: int, b: int| 0 <= a < b < new.len() implies less(
            #[trigger] new[a],
            #[trigger] new[b],
        ) by {
            if a < i && b < i {
                assert(new[a] == all[a] && new[b] == all[b]);
            } else if a < i && b == i {
                assert(new[a] == all[a]);
            } else if a < i {
                assert(new[a] == all[a] && new[b] == all[b - 1]);
            } else if a == i {
                assert(new[b] == all[b - 1]);
            } else {
                assert(new[a] == all[a - 1] && new[b] == all[b - 1]);
            }
        }
        assert(new.to_set() =~= all.to_set().insert(text)) by {
            assert forall|x: Seq<char>| new.to_set().contains(x) <==> all.to_set().insert(
                text,
            ).contains(x) by {
                if all.contains(x) {
                    let k = choose|k: int| 0 <= k < all.len() && all[k] == x;
                    assert(new[if k < i {
                        k
                    } else {
                        k + 1
                    }] == x);
                }
                if x == text {
                    assert(new[i as int] == x);
                }
                if new.contains(x) {
                    let k = choose|k: int| 0 <= k < new.len() && new[k] == x;
                    if k < i {
                        assert(all[k] == x);
                    } else if k > i {
                        assert(all[k - 1] == x);
                    }
                }
            }
        }
    }
}

// Searching.

/// `p` stands in `s` at position `i`.
pub open spec fn occurs_at(s: Seq<char>, p: Seq<char>, i: int) -> bool {
    0 <= i && i + p.len() <= s.len() && s.subrange(i, i + p.len()) == p
}

/// `p` stands somewhere in `s`.
pub open spec fn contains(s: Seq<char>, p: Seq<char>) -> bool {
    exists|i: int| #[trigger] occurs_at(s, p, i)
}

/// `s` begins with `p`.
pub open spec fn starts_with(s: Seq<char>, p: Seq<char>) -> bool {
    occurs_at(s, p, 0)
}

/// `s` ends in `p`.
pub open spec fn ends_with(s: Seq<char>, p: Seq<char>) -> bool {
    occurs_at(s, p, s.len() - p.len())
}

/// The position of the first `c` in `s`, or the length of `s` where there is none.
pub open spec fn find(s: Seq<char>, c: char) -> int
    decreases s.len(),
{
    if s.len() == 0 || s[0] == c {
        0
    } else {
        1 + find(s.drop_first(), c)
    }
}

/// The part of `s` before the first `c`; all of `s` where there is none.
pub open spec fn before(s: Seq<char>, c: char) -> Seq<char> {
    s.take(find(s, c))
}

proof fn lemma_find(s: Seq<char>, c: char, i: int)
    requires
        0 <= i <= s.len(),
        forall|j: int| 0 <= j < i ==> s[j] != c,
        i < s.len() ==> s[i] == c,
    ensures
        find(s, c) == i,
    decreases s.len(),
{
    if s.len() > 0 && s[0] != c {
        assert(s.drop_first().len() == s.len() - 1);
        assert forall|j: int| 0 <= j < i - 1 implies s.drop_first()[j] != c by {
            assert(s.drop_first()[j] == s[j + 1]);
        }
        lemma_find(s.drop_first(), c, i - 1);
    }
}

/// The first `c` from position `from` on, or the end.
pub fn find_from(v: &Vec<char>, c: char, from: usize) -> (r: usize)
    requires
        from <= v@.len(),
    ensures
        from <= r <= v@.len(),
        r - from == find(v@.skip(from as int), c),
{
    let mut i: usize = from;
    while i < v.len() && v[i] != c
        invariant
            from <= i <= v@.len(),
            forall|j: int| from <= j < i ==> v@[j] != c,
        decreases v@.len() - i,
    {
        i = i + 1;
    }
    proof {
        let s = v@.skip(from as int);
        assert forall|j: int| 0 <= j < i - from implies s[j] != c by {
            assert(s[j] == v@[from + j]);
        }
        lemma_find(s, c, i - from);
    }
    i
}

/// The part of `s` before the first `c`.
pub fn before_char(s: &str, c: char) -> (r: String)
    ensures
        r@ == before(s@, c),
{
    let v = to_chars(s);
    let i: usize = find_from(&v, c, 0);
    assert(v@.skip(0) =~= v@);
    assert(v@.subrange(0, i as int) =~= s@.take(i as int));
    from_chars(&v, 0, i)
}

fn matches_at(v: &Vec<char>, p: &Vec<char>, i: usize) -> (r: bool)
    requires
        i <= v@.len(),
    ensures
        r == occurs_at(v@, p@, i as int),
{
    let n: usize = v.len();
    if p.len() > n - i {
        return false;
    }
    let mut j: usize = 0;
    while j < p.len()
        invariant
            n == v@.len(),
            i <= v@.len(),
            p@.len() <= v@.len() - i,
            j <= p@.len(),
            forall|k: int| 0 <= k < j ==> v@[i + k] == p@[k],
        decreases p@.len() - j,
    {
        if v[i + j] != p[j] {
            assert(v@.subrange(i as int, i + p@.len())[j as int] == v@[i + j]);
            return false;
        }
        j = j + 1;
    }
    assert(v@.subrange(i as int, i + p@.len()) =~= p@);
    true
}

/// Whether `p` stands somewhere in `s`.
pub fn contains_text(s: &str, p: &str) -> (r: bool)
    ensures
        r == contains(s@, p@),
{
    let v = to_chars(s);
    let q = to_chars(p);
    let mut i: usize = 0;
    while i <= v.len()
        invariant
            v@ == s@,
            q@ == p@,
            i <= v@.len() + 1,
            forall|j: int| 0 <= j < i ==> !occurs_at(s@, p@, j),
        decreases v@.len() + 1 - i,
    {
        if matches_at(&v, &q, i) {
            return true;
        }
        if i == v.len() {
            assert forall|j: int| !occurs_at(s@, p@, j) by {
                if occurs_at(s@, p@, j) {
                    assert(j <= i);
                }
            }
            return false;
        }
        i = i + 1;
    }
    false
}

/// Whether `s` begins with `p`.
pub fn starts_with_text(s: &str, p: &str) -> (r: bool)
    ensures
        r == starts_with(s@, p@),
{
    matches_at(&to_chars(s), &to_chars(p), 0)
}

/// Whether `s` ends in `p`.
pub fn ends_with_text(s: &str, p: &str) -> (r: bool)
    ensures
        r == ends_with(s@, p@),
{
    let v = to_chars(s);
    let q = to_chars(p);
    if q.len() > v.len() {
        return false;
    }
    matches_at(&v, &q, v.len() - q.len())
}

// Splitting and joining.

/// The parts of `s` between the occurrences of `c`; one part where there is no `c`.
pub open spec fn split(s: Seq<char>, c: char) -> Seq<Seq<char>>
    decreases s.len(),
{
    let i = find(s, c);
    if 0 <= i < s.len() {
        seq![s.take(i)] + split(s.skip(i + 1), c)
    } else {
        seq![s]
    }
}

/// The parts of `s` between the occurrences of `c`.
pub fn split_char(s: &str, c: char) -> (r: Vec<String>)
    ensures
        texts(r@) == split(s@, c),
{
    let v = to_chars(s);
    let mut parts: Vec<String> = Vec::new();
    let mut start: usize = 0;
    assert(s@.skip(0) =~= s@);
    assert(texts(parts@) =~= Seq::<Seq<char>>::empty());
    assert(texts(parts@) + split(s@.skip(0), c) =~= split(s@, c));
    loop
        invariant
            v@ == s@,
            start <= v@.len(),
            texts(parts@) + split(s@.skip(start as int), c) == split(s@, c),
        decreases v@.len() - start,
    {
        broadcast use lemma_texts_push;

        let i: usize = find_from(&v, c, start);
        let part = from_chars(&v, start, i);
        let ghost rest = s@.skip(start as int);
        assert(part@ =~= rest.take(i - start));
        let ghost before_parts = texts(parts@);
        parts.push(part);
        if i == v.len() {
            assert(rest.take(i - start) =~= rest);
            assert(texts(parts@) =~= before_parts + seq![rest]);
            return parts;
        }
        assert(rest.skip(i - start + 1) =~= s@.skip(i + 1));
        assert(texts(parts@) + split(s@.skip(i + 1), c) =~= before_parts + (seq![
            rest.take(i - start),
        ] + split(s@.skip(i + 1), c)));
        start = i + 1;
    }
}

/// `s` without one carriage return at its end.
pub open spec fn without_cr(s: Seq<char>) -> Seq<char> {
    if s.len() > 0 && s.last() == '\r' {
        s.drop_last()
    } else {
        s
    }
}

/// The lines of `s`: each ends in a line feed, before which one carriage return is dropped;
/// the last one may end with the text.
pub open spec fn lines(s: Seq<char>) -> Seq<Seq<char>>
    decreases s.len(),
{
    let i = find(s, '\n');
    if s.len() == 0 {
        Seq::empty()
    } else if 0 <= i < s.len() {
        seq![without_cr(s.take(i))] + lines(s.skip(i + 1))
    } else {
        seq![s]
    }
}

/// The lines of `s`.
pub fn split_lines(s: &str) -> (r: Vec<String>)
    ensures
        texts(r@) == lines(s@),
{
    let v = to_chars(s);
    let mut parts: Vec<String> = Vec::new();
    let mut start: usize = 0;
    assert(s@.skip(0) =~= s@);
    assert(texts(parts@) + lines(s@.skip(0)) =~= lines(s@));
    while start < v.len()
        invariant
            v@ == s@,
            start <= v@.len(),
            texts(parts@) + lines(s@.skip(start as int)) == lines(s@),
        decreases v@.len() - start,
    {
        broadcast use lemma_texts_push;

        let i: usize = find_from(&v, '\n', start);
        let ghost rest = s@.skip(start as int);
        let ghost before_parts = texts(parts@);
        if i == v.len() {
            let part = from_chars(&v, start, i);
            assert(part@ =~= rest);
            parts.push(part);
            assert(texts(parts@) =~= before_parts + seq![rest]);
            return parts;
        }
        let end: usize = if i > start && v[i - 1] == '\r' {
            i - 1
        } else {
            i
        };
        let part = from_chars(&v, start, end);
        assert(part@ =~= without_cr(rest.take(i - start)));
        parts.push(part);
        assert(rest.skip(i - start + 1) =~= s@.skip(i + 1));
        assert(texts(parts@) + lines(s@.skip(i + 1)) =~= before_parts + (seq![
            without_cr(rest.take(i - start)),
        ] + lines(s@.skip(i + 1))));
        start = i + 1;
    }
    assert(s@.skip(start as int) =~= Seq::<char>::empty());
    assert(texts(parts@) =~= lines(s@));
    parts
}

/// The parts one after the other with `sep` between them.
pub open spec fn joined(parts: Seq<Seq<char>>, sep: Seq<char>) -> Seq<char>
    decreases parts.len(),
{
    if parts.len() == 0 {
        Seq::empty()
    } else if parts.len() == 1 {
        parts.last()
    } else {
        joined(parts.drop_last(), sep) + sep + parts.last()
    }
}

/// The parts one after the other with `sep` between them.
pub fn join(parts: &Vec<String>, sep: &str) -> (r: String)
    ensures
        r@ == joined(texts(parts@), sep@),
{
    let mut out = String::new();
    let mut i: usize = 0;
    while i < parts.len()
        invariant
            i <= parts@.len(),
            out@ == joined(texts(parts@).take(i as int), sep@),
        decreases parts@.len() - i,
    {
        let ghost shown = texts(parts@).take(i + 1);
        assert(shown.drop_last() =~= texts(parts@).take(i as int));
        assert(shown.last() == parts@[i as int]@);
        if i == 0 {
            out = parts[i].clone();
        } else {
            out.append(sep);
            out.append(parts[i].as_str());
        }
        i = i + 1;
    }
    assert(texts(parts@).take(i as int) =~= texts(parts@));
    out
}

// Trimming.

/// The white space characters of Unicode.
pub open spec fn white_space(c: char) -> bool {
    let n = c as int;
    ||| 0x9 <= n <= 0xD
    ||| n == 0x20
    ||| n == 0x85
    ||| n == 0xA0
    ||| n == 0x1680
    ||| 0x2000 <= n <= 0x200A
    ||| n == 0x2028
    ||| n == 0x2029
    ||| n == 0x202F
    ||| n == 0x205F
    ||| n == 0x3000
}

fn is_white_space(c: char) -> (r: bool)
    ensures
        r == white_space(c),
{
    let n: u32 = c as u32;
    (0x9 <= n && n <= 0xD) || n == 0x20 || n == 0x85 || n == 0xA0 || n == 0x1680 || (0x2000 <= n
        && n <= 0x200A) || n == 0x2028 || n == 0x2029 || n == 0x202F || n == 0x205F || n == 0x3000
}

/// `s` without the white space at its beginning.
pub open spec fn trimmed_start(s: Seq<char>) -> Seq<char>
    decreases s.len(),
{
    if s.len() > 0 && white_space(s[0]) {
        trimmed_start(s.drop_first())
    } else {
        s
    }
}

/// `s` without the white space at its end.
pub open spec fn trimmed_end(s: Seq<char>) -> Seq<char>
    decreases s.len(),
{
    if s.len() > 0 && white_space(s.last()) {
        trimmed_end(s.drop_last())
    } else {
        s
    }
}

/// `s` without the white space at both ends.
pub open spec fn trimmed(s: Seq<char>) -> Seq<char> {
    trimmed_end(trimmed_start(s))
}

fn skip_white_space(v: &Vec<char>) -> (i: usize)
    ensures
        i <= v@.len(),
        trimmed_start(v@) == v@.skip(i as int),
{
    let mut i: usize = 0;
    assert(v@.skip(0) =~= v@);
    while i < v.len() && is_white_space(v[i])
        invariant
            i <= v@.len(),
            trimmed_start(v@) == trimmed_start(v@.skip(i as int)),
        decreases v@.len() - i,
    {
        assert(v@.skip(i as int).drop_first() =~= v@.skip(i + 1));
        i = i + 1;
    }
    i
}

/// `s` without the white space at its beginning.
pub fn trim_start(s: &str) -> (r: String)
    ensures
        r@ == trimmed_start(s@),
{
    let v = to_chars(s);
    let i: usize = skip_white_space(&v);
    assert(v@.skip(i as int) =~= v@.subrange(i as int, v@.len() as int));
    from_chars(&v, i, v.len())
}

/// `s` without the white space at both ends.
pub fn trim(s: &str) -> (r: String)
    ensures
        r@ == trimmed(s@),
{
    let v = to_chars(s);
    let i: usize = skip_white_space(&v);
    let mut j: usize = v.len();
    assert(v@.skip(i as int) =~= v@.subrange(i as int, v@.len() as int));
    while j > i && is_white_space(v[j - 1])
        invariant
            i <= j <= v@.len(),
            trimmed(v@) == trimmed_end(v@.subrange(i as int, j as int)),
        decreases j,
    {
        assert(v@.subrange(i as int, j as int).drop_last() =~= v@.subrange(i as int, j - 1));
        j = j - 1;
    }
    from_chars(&v, i, j)
}

/// `s` without the copies of `p` at its end.
pub open spec fn trimmed_end_of(s: Seq<char>, p: Seq<char>) -> Seq<char>
    decreases s.len(),
{
    if p.len() > 0 && ends_with(s, p) {
        trimmed_end_of(s.take(s.len() - p.len()), p)
    } else {
        s
    }
}

/// `s` without the copies of `p`, which is not empty, at its end.
pub fn trim_end_of(s: &str, p: &str) -> (r: String)
    requires
        p@.len() > 0,
    ensures
        r@ == trimmed_end_of(s@, p@),
{
    let v = to_chars(s);
    let q = to_chars(p);
    let mut j: usize = v.len();
    assert(s@.take(v@.len() as int) =~= s@);
    loop
        invariant
            v@ == s@,
            q@ == p@,
            q@.len() > 0,
            j <= v@.len(),
            trimmed_end_of(s@, p@) == trimmed_end_of(s@.take(j as int), p@),
        ensures
            j <= v@.len(),
            trimmed_end_of(s@, p@) == s@.take(j as int),
        decreases j,
    {
        let ghost cut = s@.take(j as int);
        if q.len() > j {
            break;
        }
        let k: usize = j - q.len();
        proof {
            assert(cut.subrange(k as int, j as int) =~= s@.subrange(k as int, j as int));
        }
        if !matches_at(&v, &q, k) {
            break;
        }
        proof {
            assert(ends_with(cut, p@));
            assert(cut.take(cut.len() - p@.len()) =~= s@.take(k as int));
        }
        j = k;
    }
    assert(v@.subrange(0, j as int) =~= s@.take(j as int));
    from_chars(&v, 0, j)
}

// Replacing.

/// `s` with each `a` turned into `b`.
pub open spec fn with_char_replaced(s: Seq<char>, a: char, b: char) -> Seq<char> {
    Seq::new(
        s.len(),
        |i: int|
            if s[i] == a {
                b
            } else {
                s[i]
            },
    )
}

/// `s` with each `a` turned into `b`.
pub fn replace_char(s: &str, a: char, b: char) -> (r: String)
    ensures
        r@ == with_char_replaced(s@, a, b),
{
    let v = to_chars(s);
    let mut out = String::new();
    let mut i: usize = 0;
    while i < v.len()
        invariant
            v@ == s@,
            i <= v@.len(),
            out@ == with_char_replaced(s@, a, b).take(i as int),
        decreases v@.len() - i,
    {
        let c = v[i];
        out.push(
            if c == a {
                b
            } else {
                c
            },
        );
        i = i + 1;
        assert(with_char_replaced(s@, a, b).take(i as int) =~= with_char_replaced(s@, a, b).take(
            i - 1,
        ).push(with_char_replaced(s@, a, b)[i - 1]));
    }
    assert(with_char_replaced(s@, a, b).take(i as int) =~= with_char_replaced(s@, a, b));
    out
}

/// `s` with `t` before each character and at the end.
pub open spec fn interleaved(s: Seq<char>, t: Seq<char>) -> Seq<char>
    decreases s.len(),
{
    if s.len() == 0 {
        t
    } else {
        interleaved(s.drop_last(), t).push(s.last()) + t
    }
}

/// `s` with the occurrences of `p`, taken from the left without overlap, turned into `t`.
/// An empty `p` occurs before each character and at the end.
pub open spec fn replaced(s: Seq<char>, p: Seq<char>, t: Seq<char>) -> Seq<char>
    decreases s.len(),
{
    if p.len() == 0 {
        interleaved(s, t)
    } else if s.len() < p.len() {
        s
    } else if starts_with(s, p) {
        t + replaced(s.skip(p.len() as int), p, t)
    } else {
        seq![s[0]] + replaced(s.drop_first(), p, t)
    }
}

/// `s` with the occurrences of `p` turned into `t`.
pub fn replace_text(s: &str, p: &str, t: &str) -> (r: String)
    ensures
        r@ == replaced(s@, p@, t@),
{
    let v = to_chars(s);
    let q = to_chars(p);
    let mut out = String::new();
    let mut i: usize = 0;
    if q.len() == 0 {
        out.append(t);
        assert(out@ =~= t@);
        while i < v.len()
            invariant
                v@ == s@,
                i <= v@.len(),
                out@ == interleaved(s@.take(i as int), t@),
            decreases v@.len() - i,
        {
            assert(s@.take(i + 1).drop_last() =~= s@.take(i as int));
            out.push(v[i]);
            out.append(t);
            i = i + 1;
        }
        assert(s@.take(i as int) =~= s@);
        return out;
    }
    assert(s@.skip(0) =~= s@);
    assert(out@ + replaced(s@, p@, t@) =~= replaced(s@, p@, t@));
    while i < v.len() && v.len() - i >= q.len()
        invariant
            v@ == s@,
            q@ == p@,
            q@.len() > 0,
            i <= v@.len(),
            out@ + replaced(s@.skip(i as int), p@, t@) == replaced(s@, p@, t@),
        decreases v@.len() - i,
    {
        let ghost rest = s@.skip(i as int);
        let ghost was = out@;
        assert(rest.subrange(0, p@.len() as int) =~= s@.subrange(i as int, i + p@.len()));
        if matches_at(&v, &q, i) {
            out.append(t);
            assert(rest.skip(p@.len() as int) =~= s@.skip(i + p@.len()));
            assert(out@ + replaced(s@.skip(i + p@.len()), p@, t@) =~= was + (t@ + replaced(
                s@.skip(i + p@.len()),
                p@,
                t@,
            )));
            i = i + q.len();
        } else {
            out.push(v[i]);
            assert(rest.drop_first() =~= s@.skip(i + 1));
            assert(out@ + replaced(s@.skip(i + 1), p@, t@) =~= was + (seq![rest[0]] + replaced(
                s@.skip(i + 1),
                p@,
                t@,
            )));
            i = i + 1;
        }
    }
    let tail = from_chars(&v, i, v.len());
    assert(tail@ =~= s@.skip(i as int));
    out.append(tail.as_str());
    out
}

// Ordering.

/// `a` comes before `b` in the lexicographic order of their characters.
pub open spec fn less(a: Seq<char>, b: Seq<char>) -> bool
    decreases a.len(),
{
    if b.len() == 0 {
        false
    } else if a.len() == 0 {
        true
    } else if a[0] != b[0] {
        (a[0] as int) < (b[0] as int)
    } else {
        less(a.drop_first(), b.drop_first())
    }
}

/// Whether `a` comes before `b`.
pub fn less_text(a: &str, b: &str) -> (r: bool)
    ensures
        r == less(a@, b@),
{
    let v = to_chars(a);
    let w = to_chars(b);
    let mut i: usize = 0;
    assert(a@.skip(0) =~= a@);
    assert(b@.skip(0) =~= b@);
    loop
        invariant
            v@ == a@,
            w@ == b@,
            i <= v@.len(),
            i <= w@.len(),
            less(a@, b@) == less(a@.skip(i as int), b@.skip(i as int)),
        decreases v@.len() - i,
    {
        if i == w.len() {
            return false;
        }
        if i == v.len() {
            return true;
        }
        if v[i] != w[i] {
            return v[i] < w[i];
        }
        assert(a@.skip(i as int).drop_first() =~= a@.skip(i + 1));
        assert(b@.skip(i as int).drop_first() =~= b@.skip(i + 1));
        i = i + 1;
    }
}

/// The order has no loops of one or two strings, and any two distinct strings are ordered.
pub proof fn lemma_less_total(a: Seq<char>, b: Seq<char>)
    ensures
        !less(a, a),
        less(a, b) ==> !less(b, a),
        a != b ==> less(a, b) || less(b, a),
    decreases a.len(),
{
    if a.len() > 0 {
        lemma_less_total(a.drop_first(), a.drop_first());
        if b.len() > 0 {
            lemma_less_total(a.drop_first(), b.drop_first());
            if a[0] == b[0] && a.drop_first() == b.drop_first() {
                assert(a =~= seq![a[0]] + a.drop_first());
                assert(b =~= seq![b[0]] + b.drop_first());
            }
        }
    } else if b.len() == 0 {
        assert(a =~= b);
    }
}

/// The order is transitive.
pub proof fn lemma_less_transitive(a: Seq<char>, b: Seq<char>, c: Seq<char>)
    requires
        less(a, b),
        less(b, c),
    ensures
        less(a, c),
    decreases a.len(),
{
    if a.len() > 0 && a[0] == b[0] && b[0] == c[0] {
        lemma_less_transitive(a.drop_first(), b.drop_first(), c.drop_first());
    }
}

/// Strings have one increasing order.
pub proof fn law_increasing_unique(a: Seq<Seq<char>>, b: Seq<Seq<char>>)
    requires
        increasing(a),
        increasing(b),
        a.to_set() == b.to_set(),
    ensures
        a == b,
    decreases a.len(),
{
    if a.len() == 0 {
        if b.len() > 0 {
            assert(b.to_set().contains(b[0]));
            assert(a.to_set().contains(b[0]));
        }
        assert(a =~= b);
    } else {
        assert(a.to_set().contains(a.last()));
        assert(b.to_set().contains(a.last()));
        let j = choose|j: int| 0 <= j < b.len() && b[j] == a.last();
        assert(b.to_set().contains(b.last()));
        assert(a.to_set().contains(b.last()));
        let i = choose|i: int| 0 <= i < a.len() && a[i] == b.last();
        if a.last() != b.last() {
            assert(less(b[j], b[b.len() - 1]));
            assert(less(a[i], a[a.len() - 1]));
            lemma_less_total(a.last(), b.last());
        }
        let x = a.drop_last();
        let y = b.drop_last();
        assert forall|v: Seq<char>| x.to_set().contains(v) <==> y.to_set().contains(v) by {
            if x.to_set().contains(v) {
                let k = choose|k: int| 0 <= k < x.len() && x[k] == v;
                assert(less(a[k], a[a.len() - 1]));
                lemma_less_total(v, a.last());
                assert(a[k] == v);
                assert(a.to_set().contains(v));
                assert(b.to_set().contains(v));
                let l = choose|l: int| 0 <= l < b.len() && b[l] == v;
                assert(y[l] == v);
            }
            if y.to_set().contains(v) {
                let k = choose|k: int| 0 <= k < y.len() && y[k] == v;
                assert(less(b[k], b[b.len() - 1]));
                lemma_less_total(v, b.last());
                assert(b[k] == v);
                assert(b.to_set().contains(v));
                assert(a.to_set().contains(v));
                let l = choose|l: int| 0 <= l < a.len() && a[l] == v;
                assert(x[l] == v);
            }
        }
        assert(x.to_set() =~= y.to_set());
        assert forall|i: int, j: int| 0 <= i < j < x.len() implies less(
            #[trigger] x[i],
            #[trigger] x[j],
        ) by {
            assert(less(a[i], a[j]));
        }
        assert forall|i: int, j: int| 0 <= i < j < y.len() implies less(
            #[trigger] y[i],
            #[trigger] y[j],
        ) by {
            assert(less(b[i], b[j]));
        }
        law_increasing_unique(x, y);
        assert(a =~= x.push(a.last()));
        assert(b =~= y.push(b.last()));
    }
}

} // verus!
