//! What the operations on texts do.
use crate::numeral;
use crate::text;
use vstd::prelude::*;
use vstd::string::*;

verus! {

/// Joining puts the separator between parts and nowhere else: one part stays as it is, and two
/// lists of parts are joined to their joined texts with the separator between them.
pub proof fn law_joined(a: Seq<Seq<char>>, b: Seq<Seq<char>>, part: Seq<char>, sep: Seq<char>)
    ensures
        text::joined(Seq::empty(), sep) == Seq::<char>::empty(),
        text::joined(seq![part], sep) == part,
        a.len() > 0 && b.len() > 0 ==> text::joined(a + b, sep) == text::joined(a, sep) + sep
            + text::joined(b, sep),
    decreases b.len(),
{
    assert(seq![part].last() == part);
    if a.len() > 0 && b.len() > 0 {
        let all = a + b;
        assert(all.last() == b.last());
        assert(all.drop_last() =~= a + b.drop_last());
        if b.len() == 1 {
            assert(a + b.drop_last() =~= a);
            assert(text::joined(b, sep) == b.last());
        } else {
            law_joined(a, b.drop_last(), part, sep);
            assert(text::joined(all, sep) =~= text::joined(a, sep) + sep + text::joined(b, sep));
        }
    }
}

/// The position of a character is that of its first occurrence, or the length of the text.
pub proof fn law_find(s: Seq<char>, c: char)
    ensures
        0 <= text::find(s, c) <= s.len(),
        text::find(s, c) < s.len() ==> s[text::find(s, c)] == c,
        forall|i: int| 0 <= i < text::find(s, c) ==> s[i] != c,
        text::before(s, c) == s.take(text::find(s, c)),
        !text::before(s, c).contains(c),
    decreases s.len(),
{
    if s.len() > 0 && s[0] != c {
        let rest = s.drop_first();
        law_find(rest, c);
        assert forall|i: int| 0 <= i < text::find(s, c) implies s[i] != c by {
            if i > 0 {
                assert(rest[i - 1] == s[i]);
            }
        }
    }
}

/// The parts of a text between the occurrences of a character are free of it, and give the text
/// back when they are joined by it.
pub proof fn law_split(s: Seq<char>, c: char)
    ensures
        text::split(s, c).len() > 0,
        text::joined(text::split(s, c), seq![c]) == s,
        forall|i: int| 0 <= i < text::split(s, c).len() ==> !(#[trigger] text::split(s, c)[i]).contains(c),
    decreases s.len(),
{
    law_find(s, c);
    let i = text::find(s, c);
    if i < s.len() {
        let head = s.take(i);
        let rest = s.skip(i + 1);
        law_split(rest, c);
        law_joined(seq![head], text::split(rest, c), head, seq![c]);
        assert(text::split(s, c) == seq![head] + text::split(rest, c));
        assert(head + seq![c] + rest =~= s);
        assert forall|k: int| 0 <= k < text::split(s, c).len() implies !(#[trigger] text::split(
            s,
            c,
        )[k]).contains(c) by {
            if k > 0 {
                assert(text::split(s, c)[k] == text::split(rest, c)[k - 1]);
            }
        }
    } else {
        law_joined(Seq::empty(), Seq::empty(), s, seq![c]);
        assert(!s.contains(c));
    }
}

/// All characters of the text are white space.
pub open spec fn all_white(s: Seq<char>) -> bool {
    forall|i: int| 0 <= i < s.len() ==> text::white_space(#[trigger] s[i])
}

/// Trimming takes white space alone off the ends of a text, and all of it.
pub proof fn law_trimmed(s: Seq<char>)
    ensures
        exists|a: Seq<char>, b: Seq<char>|
            s == #[trigger] (a + text::trimmed(s) + b) && all_white(a) && all_white(b),
        text::trimmed(s).len() > 0 ==> !text::white_space(text::trimmed(s)[0])
            && !text::white_space(text::trimmed(s).last()),
{
    lemma_trimmed_start(s);
    let t = text::trimmed_start(s);
    lemma_trimmed_end(t);
    let a = s.take(s.len() - t.len());
    let r = text::trimmed_end(t);
    let b = t.skip(r.len() as int);
    assert(s =~= a + r + b);
    assert(s == a + text::trimmed(s) + b);
}

proof fn lemma_trimmed_start(s: Seq<char>)
    ensures
        ({
            let t = text::trimmed_start(s);
            let n = s.len() - t.len();
            &&& 0 <= n
            &&& t == s.skip(n)
            &&& all_white(s.take(n))
            &&& t.len() > 0 ==> !text::white_space(t[0])
        }),
    decreases s.len(),
{
    let t = text::trimmed_start(s);
    if s.len() > 0 && text::white_space(s[0]) {
        let rest = s.drop_first();
        lemma_trimmed_start(rest);
        let n = s.len() - t.len();
        assert(t =~= s.skip(n));
        assert forall|i: int| 0 <= i < n implies text::white_space(#[trigger] s.take(n)[i]) by {
            if i > 0 {
                assert(rest.take(n - 1)[i - 1] == s.take(n)[i]);
            }
        }
    } else {
        assert(s =~= s.skip(0));
    }
}

proof fn lemma_trimmed_end(s: Seq<char>)
    ensures
        ({
            let t = text::trimmed_end(s);
            &&& t.len() <= s.len()
            &&& t == s.take(t.len() as int)
            &&& all_white(s.skip(t.len() as int))
            &&& t.len() > 0 ==> !text::white_space(t.last()) && t[0] == s[0]
        }),
    decreases s.len(),
{
    let t = text::trimmed_end(s);
    if s.len() > 0 && text::white_space(s.last()) {
        let rest = s.drop_last();
        lemma_trimmed_end(rest);
        assert(t =~= s.take(t.len() as int));
        assert forall|i: int| 0 <= i < s.len() - t.len() implies text::white_space(
            #[trigger] s.skip(t.len() as int)[i],
        ) by {
            if i < rest.len() - t.len() {
                assert(rest.skip(t.len() as int)[i] == s.skip(t.len() as int)[i]);
            }
        }
    } else {
        assert(s =~= s.take(s.len() as int));
    }
}

/// Taking the copies of a text off the end of another leaves no copy there, and what was taken off
/// is made of copies alone.
pub proof fn law_trimmed_end_of(s: Seq<char>, p: Seq<char>)
    requires
        p.len() > 0,
    ensures
        ({
            let t = text::trimmed_end_of(s, p);
            &&& !text::ends_with(t, p)
            &&& text::starts_with(s, t)
            &&& text::ends_with(s, p) ==> text::trimmed_end_of(s, p) == text::trimmed_end_of(
                s.take(s.len() - p.len()),
                p,
            )
            &&& !text::ends_with(s, p) ==> t == s
            &&& text::trimmed_end_of(s + p, p) == t
        }),
    decreases s.len(),
{
    let t = text::trimmed_end_of(s, p);
    if text::ends_with(s, p) {
        let rest = s.take(s.len() - p.len());
        law_trimmed_end_of(rest, p);
        assert(s.subrange(0, t.len() as int) =~= rest.subrange(0, t.len() as int));
    } else {
        assert(s.subrange(0, s.len() as int) =~= s);
    }
    assert((s + p).subrange(s.len() as int, (s.len() + p.len()) as int) =~= p);
    assert(text::ends_with(s + p, p));
    assert((s + p).take(s.len() as int) =~= s);
}

/// Replacing leaves a text without the pattern alone, and turns the first occurrence of the pattern
/// into the other text and what follows it in the same way.
pub proof fn law_replaced(s: Seq<char>, p: Seq<char>, t: Seq<char>, i: int)
    requires
        p.len() > 0,
        forall|j: int| 0 <= j < i ==> !text::occurs_at(s, p, j),
        text::occurs_at(s, p, i) || (i == s.len() && !text::contains(s, p)),
    ensures
        text::replaced(s, p, t) == if i < s.len() {
            s.take(i) + t + text::replaced(s.skip(i + p.len()), p, t)
        } else {
            s
        },
    decreases s.len(),
{
    if i == 0 {
        if s.len() > 0 {
            assert(s.take(0) + t + text::replaced(s.skip(p.len() as int), p, t) =~= t
                + text::replaced(s.skip(p.len() as int), p, t));
        }
    } else if s.len() >= p.len() {
        assert(!text::occurs_at(s, p, 0));
        let rest = s.drop_first();
        assert forall|j: int| 0 <= j < i - 1 implies !text::occurs_at(rest, p, j) by {
            assert(!text::occurs_at(s, p, j + 1));
            if text::occurs_at(rest, p, j) {
                assert(rest.subrange(j, j + p.len()) =~= s.subrange(j + 1, j + 1 + p.len()));
            }
        }
        if text::occurs_at(s, p, i) {
            assert(rest.subrange(i - 1, i - 1 + p.len()) =~= s.subrange(i, i + p.len()));
            law_replaced(rest, p, t, i - 1);
            assert(rest.skip(i - 1 + p.len()) =~= s.skip(i + p.len()));
            let more = text::replaced(s.skip(i + p.len()), p, t);
            assert(seq![s[0]] + (rest.take(i - 1) + t + more) =~= s.take(i) + t + more);
        } else {
            assert(!text::contains(rest, p)) by {
                if text::contains(rest, p) {
                    let j = choose|j: int| #[trigger] text::occurs_at(rest, p, j);
                    assert(rest.subrange(j, j + p.len()) =~= s.subrange(j + 1, j + 1 + p.len()));
                    assert(text::occurs_at(s, p, j + 1));
                }
            }
            law_replaced(rest, p, t, i - 1);
            assert(seq![s[0]] + rest =~= s);
        }
    }
}

/// The texts that `f` gives the numbers below `n`, one after the other.
pub open spec fn flat(n: int, f: spec_fn(int) -> Seq<char>) -> Seq<char>
    decreases n,
{
    if n <= 0 {
        Seq::empty()
    } else {
        flat(n - 1, f) + f(n - 1)
    }
}

pub(crate) proof fn lemma_flat_same(n: int, f: spec_fn(int) -> Seq<char>, g: spec_fn(int) -> Seq<char>)
    requires
        forall|i: int| 0 <= i < n ==> #[trigger] f(i) == g(i),
    ensures
        flat(n, f) == flat(n, g),
    decreases n,
{
    if n > 0 {
        lemma_flat_same(n - 1, f, g);
        assert(f(n - 1) == g(n - 1));
    }
}

/// A text comes before another in the order of code points: at the first place where they differ,
/// its character is the smaller one, or it ends there.
pub proof fn law_less(a: Seq<char>, b: Seq<char>, i: int)
    requires
        0 <= i <= a.len(),
        i <= b.len(),
        forall|j: int| 0 <= j < i ==> a[j] == b[j],
        i < a.len() && i < b.len() ==> a[i] != b[i],
    ensures
        text::less(a, b) <==> if i == b.len() {
            false
        } else if i == a.len() {
            true
        } else {
            (a[i] as int) < (b[i] as int)
        },
    decreases i,
{
    if i > 0 {
        let x = a.drop_first();
        let y = b.drop_first();
        assert forall|j: int| 0 <= j < i - 1 implies x[j] == y[j] by {
            assert(a[j + 1] == b[j + 1]);
        }
        law_less(x, y, i - 1);
    }
}

/// The lines of a text: up to each line feed one, without the line feed and without one carriage
/// return before it; what is left behind the last line feed is one more, if it is not empty.
pub proof fn law_lines(s: Seq<char>, i: int)
    requires
        0 <= i <= s.len(),
        forall|j: int| 0 <= j < i ==> s[j] != '\n',
        i < s.len() ==> s[i] == '\n',
    ensures
        s.len() == 0 ==> text::lines(s).len() == 0,
        0 < s.len() == i ==> text::lines(s) == seq![s],
        i < s.len() ==> text::lines(s) == seq![
            if i > 0 && s[i - 1] == '\r' {
                s.take(i - 1)
            } else {
                s.take(i)
            },
        ] + text::lines(s.skip(i + 1)),
{
    law_find(s, '\n');
    assert(text::find(s, '\n') == i) by {
        let k = text::find(s, '\n');
        if k < i {
            assert(s[k] != '\n');
        }
        if i < k {
            assert(s[i] != '\n');
        }
    }
    if i < s.len() && i > 0 {
        assert(s.take(i).last() == s[i - 1]);
        assert(s.take(i).drop_last() =~= s.take(i - 1));
    }
}

/// White space is what Unicode calls so: the controls from tab to carriage return, the space, the
/// next line, the spaces without a break and of the Ogham script, the spaces of fixed widths, the
/// separators of lines and paragraphs, and the narrow, the mathematical and the ideographic space.
pub proof fn law_white_space(c: char)
    ensures
        text::white_space(c) <==> {
            let n = c as int;
            (9 <= n <= 13) || n == 32 || n == 133 || n == 160 || n == 5760 || (8192 <= n <= 8202)
                || n == 8232 || n == 8233 || n == 8239 || n == 8287 || n == 12288
        },
{
}

/// An empty pattern stands before each character and at the end.
pub proof fn law_replaced_empty(s: Seq<char>, t: Seq<char>)
    ensures
        text::replaced(s, Seq::empty(), t) == t + flat(s.len() as int, |i: int| seq![s[i]] + t),
    decreases s.len(),
{
    if s.len() == 0 {
        assert(t + Seq::<char>::empty() =~= t);
    } else {
        let rest = s.drop_last();
        law_replaced_empty(rest, t);
        lemma_flat_same(
            rest.len() as int,
            |i: int| seq![rest[i]] + t,
            |i: int| seq![s[i]] + t,
        );
        let head = flat(s.len() - 1, |i: int| seq![s[i]] + t);
        assert((t + head).push(s.last()) + t =~= t + (head + (seq![s.last()] + t)));
    }
}

/// The lists that `f` gives the numbers below `n`, one after the other.
pub open spec fn flat_list<T>(n: int, f: spec_fn(int) -> Seq<T>) -> Seq<T>
    decreases n,
{
    if n <= 0 {
        Seq::empty()
    } else {
        flat_list(n - 1, f) + f(n - 1)
    }
}

/// A list of one item, or of none.
pub open spec fn list_of<T>(x: Option<T>) -> Seq<T> {
    match x {
        Some(x) => seq![x],
        None => Seq::empty(),
    }
}

/// The numeral of a negative number is that of its amount behind a minus sign.
pub proof fn law_signed_numeral(n: nat)
    ensures
        numeral::dec_int(n as int) == numeral::dec(n),
        n > 0 ==> numeral::dec_int(-n) == "-"@ + numeral::dec(n),
        numeral::dec(n) == numeral::numeral(n, 10, true),
        numeral::hex(n) == numeral::numeral(n, 16, true),
        numeral::hex_lower(n) == numeral::numeral(n, 16, false),
{
}

} // verus!
