//! Names: their spelling as identifiers, and the sets and maps that are keyed by them.
use vstd::hash_map::*;
use vstd::hash_set::*;
use vstd::prelude::*;
use vstd::string::*;

verus! {

/// The rules by which a name is spelled as an identifier.
#[derive(Clone, Copy, PartialEq, Eq, Structural)]
pub enum NameStyle {
    /// A C++ identifier without `$` that does not begin with two underscores.
    Cpp,
    /// A C++ identifier that may hold `$` and does not begin with two underscores.
    CppDollar,
    /// An identifier inside a mangled symbol.
    Mangled,
}

/// What a spelling makes of a text in a style.
pub type Spelling = spec_fn(Seq<char>, NameStyle) -> Seq<char>;

/// The function `f` may spell the text `s` as `t`.
pub open spec fn spells<F: Fn(&str, NameStyle) -> String>(
    f: F,
    s: Seq<char>,
    style: NameStyle,
    t: Seq<char>,
) -> bool {
    exists|a: &str, r: String|
        #![trigger call_ensures(f, (a, style), r)]
        a@ == s && call_ensures(f, (a, style), r) && r@ == t
}

/// The function `f` takes every text, and what it returns depends on the text and the style alone.
pub open spec fn is_spelling<F: Fn(&str, NameStyle) -> String>(f: F) -> bool {
    &&& forall|a: &str, style: NameStyle| call_requires(f, (a, style))
    &&& forall|s: Seq<char>, style: NameStyle, t: Seq<char>, u: Seq<char>|
        #![trigger spells(f, s, style, t), spells(f, s, style, u)]
        spells(f, s, style, t) && spells(f, s, style, u) ==> t == u
}

/// A spelling of names as identifiers, held as the function that computes it.
pub struct Sanitizer<F: Fn(&str, NameStyle) -> String> {
    f: F,
}

impl<F: Fn(&str, NameStyle) -> String> Sanitizer<F> {
    #[verifier::type_invariant]
    spec fn inv(self) -> bool {
        is_spelling(self.f)
    }

    /// The spelling that the function computes.
    pub closed spec fn spelling(&self) -> Spelling {
        |s: Seq<char>, style: NameStyle| choose|t: Seq<char>| spells(self.f, s, style, t)
    }

    /// Holds the function `f` as a spelling.
    pub fn new(f: F) -> (r: Self)
        requires
            is_spelling(f),
        ensures
            forall|s: Seq<char>, style: NameStyle, t: Seq<char>| #[trigger]
                spells(f, s, style, t) ==> (r.spelling())(s, style) == t,
    {
        Sanitizer { f }
    }

    /// Spells `name` in the given style.
    pub fn spell(&self, name: &str, style: NameStyle) -> (r: String)
        ensures
            r@ == (self.spelling())(name@, style),
    {
        proof {
            use_type_invariant(self);
        }
        let r = (self.f)(name, style);
        assert(spells(self.f, name@, style, r@));
        r
    }

    /// Spells `name` as a C++ identifier.
    pub fn fix_name(&self, name: &str) -> (r: String)
        ensures
            r@ == (self.spelling())(name@, NameStyle::Cpp),
    {
        self.spell(name, NameStyle::Cpp)
    }

    /// Spells `name` as a C++ identifier that may hold `$`.
    pub fn fix_name_scaffold(&self, name: &str) -> (r: String)
        ensures
            r@ == (self.spelling())(name@, NameStyle::CppDollar),
    {
        self.spell(name, NameStyle::CppDollar)
    }
}

/// A finite set of names.
pub struct NameSet {
    names: StringHashSet,
    count: usize,
}

impl View for NameSet {
    type V = Set<Seq<char>>;

    closed spec fn view(&self) -> Set<Seq<char>> {
        self.names@
    }
}

impl NameSet {
    #[verifier::type_invariant]
    spec fn inv(self) -> bool {
        self.names@.finite() && self.names@.len() == self.count
    }

    /// The empty set.
    pub fn new() -> (r: Self)
        ensures
            r@ == Set::<Seq<char>>::empty(),
    {
        NameSet { names: StringHashSet::new(), count: 0 }
    }

    /// The set is finite, and its size fits a machine word.
    pub fn bound(&self) -> (n: usize)
        ensures
            self@.finite(),
            n == self@.len(),
    {
        proof {
            use_type_invariant(self);
        }
        self.count
    }

    /// Whether the set holds `name`.
    pub fn contains(&self, name: &str) -> (r: bool)
        ensures
            r == self@.contains(name@),
    {
        self.names.contains(name)
    }

    /// Puts `name` into the set; says whether it is new there.
    pub fn insert(&mut self, name: String) -> (r: bool)
        ensures
            final(self)@ == old(self)@.insert(name@),
            r == !old(self)@.contains(name@),
    {
        proof {
            use_type_invariant(&*self);
        }
        let mut other = NameSet::new();
        std::mem::swap(self, &mut other);
        let NameSet { mut names, count } = other;
        let r = names.insert(name);
        let count: usize = names.len();
        *self = NameSet { names, count };
        r
    }
}

/// A map from names to values that remembers the order in which the names came.
pub struct NameMap<V> {
    index: StringHashMap<usize>,
    entries: Vec<(String, V)>,
}

impl<V> View for NameMap<V> {
    type V = Map<Seq<char>, V>;

    closed spec fn view(&self) -> Map<Seq<char>, V> {
        Map::new(|k: Seq<char>| self.index@.contains_key(k), |k: Seq<char>| self.entries@[self.index@[k] as int].1)
    }
}

impl<V> NameMap<V> {
    #[verifier::type_invariant]
    spec fn inv(self) -> bool {
        &&& forall|k: Seq<char>| #[trigger]
            self.index@.contains_key(k) ==> self.index@[k] < self.entries@.len()
                && self.entries@[self.index@[k] as int].0@ == k
        &&& forall|i: int|
            0 <= i < self.entries@.len() ==> self.index@.contains_key(#[trigger] self.entries@[i].0@)
                && self.index@[self.entries@[i].0@] == i
    }

    /// The names in the order in which they came.
    pub closed spec fn keys(&self) -> Seq<Seq<char>> {
        Seq::new(self.entries@.len(), |i: int| self.entries@[i].0@)
    }

    /// The empty map.
    pub fn new() -> (r: Self)
        ensures
            r@ == Map::<Seq<char>, V>::empty(),
            r.keys() == Seq::<Seq<char>>::empty(),
    {
        let r = NameMap { index: StringHashMap::new(), entries: Vec::new() };
        assert(r@ =~= Map::<Seq<char>, V>::empty());
        assert(r.keys() =~= Seq::<Seq<char>>::empty());
        r
    }

    /// The number of names. Each name of the map came in one place, and no other name did.
    pub fn len(&self) -> (n: usize)
        ensures
            n == self.keys().len(),
            forall|k: Seq<char>| #[trigger] self@.contains_key(k) <==> self.keys().contains(k),
            self.keys().no_duplicates(),
    {
        proof {
            use_type_invariant(self);
            assert forall|k: Seq<char>| #[trigger] self@.contains_key(k) implies self.keys().contains(
                k,
            ) by {
                assert(self.keys()[self.index@[k] as int] == k);
            }
            assert forall|k: Seq<char>| #[trigger] self.keys().contains(k) implies self@.contains_key(
                k,
            ) by {
                let i = choose|i: int| 0 <= i < self.keys().len() && self.keys()[i] == k;
                assert(self.entries@[i].0@ == k);
            }
            assert forall|i: int, j: int|
                0 <= i < self.keys().len() && 0 <= j < self.keys().len() && i
                    != j implies self.keys()[i] != self.keys()[j] by {
                assert(self.index@[self.entries@[i].0@] == i);
                assert(self.index@[self.entries@[j].0@] == j);
            }
        }
        self.entries.len()
    }

    /// The name that came in place `i`.
    pub fn key_at(&self, i: usize) -> (r: &str)
        requires
            i < self.keys().len(),
        ensures
            r@ == self.keys()[i as int],
            self@.contains_key(r@),
    {
        proof {
            use_type_invariant(self);
        }
        self.entries[i].0.as_str()
    }

    /// The value of the name that came in place `i`.
    pub fn value_at(&self, i: usize) -> (r: &V)
        requires
            i < self.keys().len(),
        ensures
            self@.contains_key(self.keys()[i as int]),
            *r == self@[self.keys()[i as int]],
    {
        proof {
            use_type_invariant(self);
            assert(self.keys()[i as int] == self.entries@[i as int].0@);
        }
        &self.entries[i].1
    }

    /// Whether the map holds `name`.
    pub fn contains_key(&self, name: &str) -> (r: bool)
        ensures
            r == self@.contains_key(name@),
    {
        self.index.contains_key(name)
    }

    /// The value of `name`, if the map holds it.
    pub fn get(&self, name: &str) -> (r: Option<&V>)
        ensures
            match r {
                Some(v) => self@.contains_key(name@) && *v == self@[name@],
                None => !self@.contains_key(name@),
            },
    {
        proof {
            use_type_invariant(self);
        }
        match self.index.get(name) {
            Some(i) => Some(&self.entries[*i].1),
            None => None,
        }
    }

    /// Gives `name` the value `value`. A name that is new comes last.
    pub fn insert(&mut self, name: String, value: V)
        ensures
            final(self)@ == old(self)@.insert(name@, value),
            final(self).keys() == if old(self)@.contains_key(name@) {
                old(self).keys()
            } else {
                old(self).keys().push(name@)
            },
    {
        proof {
            use_type_invariant(&*self);
        }
        let mut other = NameMap::new();
        std::mem::swap(self, &mut other);
        let ghost was = other;
        let NameMap { mut index, mut entries } = other;
        let slot: Option<usize> = match index.get(name.as_str()) {
            Some(i) => Some(*i),
            None => None,
        };
        let ghost key = name@;
        match slot {
            Some(i) => {
                entries.set(i, (name, value));
            },
            None => {
                let n: usize = entries.len();
                index.insert(name.clone(), n);
                entries.push((name, value));
            },
        }
        *self = NameMap { index, entries };
        proof {
            assert(self@ =~= was@.insert(key, value));
            assert(self.keys() =~= if was@.contains_key(key) {
                was.keys()
            } else {
                was.keys().push(key)
            });
        }
    }
}

} // verus!
