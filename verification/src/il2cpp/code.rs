//! The code of an image: the addresses of its methods, and their bytes.
use crate::il2cpp::base::Il2Cpp;
use crate::sorted;
use std::collections::BTreeSet;
use vstd::prelude::*;
use vstd::std_specs::iter::IteratorSpec;

verus! {

/// The longest method body that is guessed.
pub const MAX_BODY: usize = 0x4000;

/// The shortest method body that is guessed.
pub const MIN_BODY: usize = 4;

/// The body size that the distance to the next method speaks for.
pub open spec fn body_size(distance: int) -> int {
    if distance > MAX_BODY {
        MAX_BODY as int
    } else if distance < MIN_BODY {
        MIN_BODY as int
    } else {
        distance
    }
}

/// The body size of the method in place `i` of the sorted addresses.
pub open spec fn body_size_at(addrs: Seq<u64>, i: int) -> int {
    if i + 1 < addrs.len() {
        body_size(addrs[i + 1] - addrs[i])
    } else {
        MAX_BODY as int
    }
}

/// A body is never taken to be shorter than the smallest or longer than the largest.
pub proof fn law_body_size(addrs: Seq<u64>, i: int)
    ensures
        MIN_BODY <= body_size_at(addrs, i) <= MAX_BODY,
{
}

/// The addresses do not decrease.
pub open spec fn ordered(s: Seq<u64>) -> bool {
    forall|i: int, j: int| 0 <= i <= j < s.len() ==> s[i] <= s[j]
}

/// The address `a` is that of one of the pointers that are not 0.
pub open spec fn points_to(il2cpp: Il2Cpp, pointers: Seq<u64>, a: u64) -> bool {
    exists|i: int|
        0 <= i < pointers.len() && #[trigger] pointers[i] > 0 && a == il2cpp.rva(pointers[i])
}

impl Il2Cpp {
    /// Puts the addresses of the pointers that are not 0 into the set.
    pub fn add_rvas(&self, pointers: &Vec<u64>, set: &mut BTreeSet<u64>)
        ensures
            forall|a: u64| #[trigger]
                final(set)@.contains(a) <==> old(set)@.contains(a) || points_to(
                    *self,
                    pointers@,
                    a,
                ),
    {
        let mut i: usize = 0;
        assert(pointers@.take(0) =~= Seq::<u64>::empty());
        while i < pointers.len()
            invariant
                i <= pointers@.len(),
                forall|a: u64| #[trigger]
                    set@.contains(a) <==> old(set)@.contains(a) || points_to(
                        *self,
                        pointers@.take(i as int),
                        a,
                    ),
            decreases pointers@.len() - i,
        {
            let ghost was = set@;
            let ptr: u64 = pointers[i];
            if ptr > 0 {
                set.insert(self.get_rva(ptr));
            }
            proof {
                let before = pointers@.take(i as int);
                let after = pointers@.take(i + 1);
                assert(after =~= before.push(ptr));
                assert forall|a: u64| points_to(*self, after, a) <==> points_to(*self, before, a)
                    || (ptr > 0 && a == self.rva(ptr)) by {
                    if points_to(*self, before, a) {
                        let k = choose|k: int|
                            0 <= k < before.len() && #[trigger] before[k] > 0 && a == self.rva(
                                before[k],
                            );
                        assert(after[k] == before[k]);
                    }
                    if ptr > 0 && a == self.rva(ptr) {
                        assert(after[i as int] == ptr);
                    }
                    if points_to(*self, after, a) {
                        let k = choose|k: int|
                            0 <= k < after.len() && #[trigger] after[k] > 0 && a == self.rva(
                                after[k],
                            );
                        if k < i {
                            assert(before[k] == after[k]);
                        }
                    }
                }
            }
            i = i + 1;
        }
        assert(pointers@.take(i as int) =~= pointers@);
    }

    /// The addresses of all methods in increasing order, each once.
    pub fn build_sorted_method_addresses(&self) -> (r: Vec<u64>)
        ensures
            sorted::increasing(r@),
            forall|a: u64| #[trigger]
                r@.contains(a) <==> exists|p: u64| #[trigger]
                    self.has_code_pointer(p) && p > 0 && a == self.rva(p),
    {
        let mut addrs: BTreeSet<u64> = BTreeSet::new();
        self.add_rvas(&self.method_pointers, &mut addrs);
        self.add_rvas(&self.generic_method_pointers, &mut addrs);
        let modules = &self.code_gen_module_method_pointers;
        let n: usize = modules.len();
        let ghost names = modules.keys();
        let mut i: usize = 0;
        let ghost plain = |a: u64|
            points_to(*self, self.method_pointers@, a) || points_to(
                *self,
                self.generic_method_pointers@,
                a,
            );
        while i < n
            invariant
                modules == &self.code_gen_module_method_pointers,
                names == modules.keys(),
                n == names.len(),
                i <= n,
                plain == |a: u64|
                    points_to(*self, self.method_pointers@, a) || points_to(
                        *self,
                        self.generic_method_pointers@,
                        a,
                    ),
                forall|a: u64| #[trigger]
                    addrs@.contains(a) <==> plain(a) || exists|k: int|
                        0 <= k < i && points_to(*self, modules@[#[trigger] names[k]]@, a),
            decreases n - i,
        {
            let ghost was = addrs@;
            self.add_rvas(modules.value_at(i), &mut addrs);
            proof {
                assert forall|a: u64| #[trigger] addrs@.contains(a) implies plain(a) || exists|k: int|
                    0 <= k < i + 1 && points_to(*self, modules@[#[trigger] names[k]]@, a) by {
                    if !was.contains(a) {
                        assert(points_to(*self, modules@[names[i as int]]@, a));
                    }
                }
                assert forall|a: u64|
                    (plain(a) || exists|k: int|
                        0 <= k < i + 1 && points_to(
                            *self,
                            modules@[#[trigger] names[k]]@,
                            a,
                        )) implies #[trigger] addrs@.contains(a) by {
                    if !plain(a) {
                        let k = choose|k: int|
                            0 <= k < i + 1 && points_to(*self, modules@[#[trigger] names[k]]@, a);
                        assert(k < i ==> was.contains(a));
                    }
                }
            }
            i = i + 1;
        }
        let ghost before = addrs@;
        let ghost specs = self.method_spec_generic_method_pointers@;
        let mut values: Vec<u64> = Vec::new();
        let ghost all = self.method_spec_generic_method_pointers.values().remaining();
        for v in iter: self.method_spec_generic_method_pointers.values()
            invariant
                iter.seq() == all,
                values@.len() == iter.index(),
                forall|k: int| 0 <= k < iter.index() ==> values@[k] == *all[k],
        {
            values.push(*v);
        }
        assert(values@ =~= all.unref());
        assert(values@.to_set() == specs.values());
        self.add_rvas(&values, &mut addrs);
        let r = sorted::in_order(&addrs);
        proof {
            assert forall|a: u64| #[trigger] r@.contains(a) implies exists|p: u64| #[trigger]
                self.has_code_pointer(p) && p > 0 && a == self.rva(p) by {
                assert(r@.to_set().contains(a));
                if points_to(*self, values@, a) {
                    let k = choose|k: int|
                        0 <= k < values@.len() && #[trigger] values@[k] > 0 && a == self.rva(
                            values@[k],
                        );
                    assert(values@.to_set().contains(values@[k]));
                    assert(specs.values().contains(values@[k]));
                    assert(self.has_code_pointer(values@[k]));
                } else if points_to(*self, self.method_pointers@, a) {
                    let k = choose|k: int|
                        0 <= k < self.method_pointers@.len() && #[trigger] self.method_pointers@[k]
                            > 0 && a == self.rva(self.method_pointers@[k]);
                    assert(self.has_code_pointer(self.method_pointers@[k]));
                } else if points_to(*self, self.generic_method_pointers@, a) {
                    let k = choose|k: int|
                        0 <= k < self.generic_method_pointers@.len()
                            && #[trigger] self.generic_method_pointers@[k] > 0 && a == self.rva(
                            self.generic_method_pointers@[k],
                        );
                    assert(self.has_code_pointer(self.generic_method_pointers@[k]));
                } else {
                    assert(before.contains(a));
                    let k = choose|k: int|
                        0 <= k < n && points_to(*self, modules@[#[trigger] names[k]]@, a);
                    let list = modules@[names[k]]@;
                    let j = choose|j: int|
                        0 <= j < list.len() && #[trigger] list[j] > 0 && a == self.rva(list[j]);
                    assert(names.contains(names[k]));
                    assert(self.code_gen_module_method_pointers@.contains_key(names[k]));
                    assert(list.contains(list[j]));
                    assert(self.has_code_pointer(list[j]));
                }
            }
            assert forall|a: u64|
                (exists|p: u64| #[trigger]
                    self.has_code_pointer(p) && p > 0 && a == self.rva(
                        p,
                    )) implies #[trigger] r@.contains(a) by {
                let p = choose|p: u64| #[trigger]
                    self.has_code_pointer(p) && p > 0 && a == self.rva(p);
                if self.method_pointers@.contains(p) {
                    let k = choose|k: int|
                        0 <= k < self.method_pointers@.len() && self.method_pointers@[k] == p;
                    assert(self.method_pointers@[k] > 0);
                    assert(points_to(*self, self.method_pointers@, a));
                    assert(before.contains(a));
                } else if self.generic_method_pointers@.contains(p) {
                    let k = choose|k: int|
                        0 <= k < self.generic_method_pointers@.len()
                            && self.generic_method_pointers@[k] == p;
                    assert(self.generic_method_pointers@[k] > 0);
                    assert(points_to(*self, self.generic_method_pointers@, a));
                    assert(before.contains(a));
                } else if exists|name: Seq<char>| #[trigger]
                    modules@.contains_key(name) && modules@[name]@.contains(p) {
                    let name = choose|name: Seq<char>| #[trigger]
                        modules@.contains_key(name) && modules@[name]@.contains(p);
                    assert(names.contains(name));
                    let k = choose|k: int| 0 <= k < names.len() && names[k] == name;
                    let list = modules@[names[k]]@;
                    let j = choose|j: int| 0 <= j < list.len() && list[j] == p;
                    assert(list[j] > 0);
                    assert(points_to(*self, list, a));
                    assert(before.contains(a));
                } else {
                    assert(specs.values().contains(p));
                    assert(values@.to_set().contains(p));
                    let k = choose|k: int| 0 <= k < values@.len() && values@[k] == p;
                    assert(values@[k] > 0);
                    assert(points_to(*self, values@, a));
                }
                assert(addrs@.contains(a));
                assert(r@.to_set().contains(a));
            }
        }
        r
    }

    /// The size of the body of the method at `rva`: up to the next method, within bounds.
    pub fn get_method_body_size(&self, rva: u64, sorted_addrs: &[u64]) -> (r: usize)
        requires
            ordered(sorted_addrs@),
        ensures
            sorted_addrs@.contains(rva) ==> exists|i: int|
                0 <= i < sorted_addrs@.len() && #[trigger] sorted_addrs@[i] == rva && r
                    == body_size_at(sorted_addrs@, i),
            !sorted_addrs@.contains(rva) ==> r == MAX_BODY,
    {
        let mut low: usize = 0;
        let mut high: usize = sorted_addrs.len();
        while low < high
            invariant
                ordered(sorted_addrs@),
                low <= high <= sorted_addrs@.len(),
                forall|i: int| 0 <= i < low ==> sorted_addrs@[i] < rva,
                forall|i: int| high <= i < sorted_addrs@.len() ==> sorted_addrs@[i] > rva,
            decreases high - low,
        {
            let mid: usize = low + (high - low) / 2;
            let at: u64 = sorted_addrs[mid];
            if at == rva {
                assert(sorted_addrs@[mid as int] == rva);
                if mid + 1 < sorted_addrs.len() {
                    let next: u64 = sorted_addrs[mid + 1];
                    assert(sorted_addrs@[mid as int] <= sorted_addrs@[mid + 1]);
                    let distance: u64 = next - rva;
                    return if distance > MAX_BODY as u64 {
                        MAX_BODY
                    } else if distance < MIN_BODY as u64 {
                        MIN_BODY
                    } else {
                        distance as usize
                    };
                }
                return MAX_BODY;
            }
            if at < rva {
                low = mid + 1;
            } else {
                high = mid;
            }
        }
        MAX_BODY
    }

    /// The bytes at a distance from the image base, as far as the file goes.
    pub fn read_bytes_at_rva(&self, rva: u64, size: usize) -> (r: Option<Vec<u8>>)
        requires
            self.wf(),
        ensures
            match r {
                Some(v) => self.bytes_at_rva(rva, size as nat) == Some(v@),
                None => self.bytes_at_rva(rva, size as nat) is None,
            },
    {
        let va: u64 = if self.image_base > 0 {
            rva.wrapping_add(self.image_base)
        } else {
            rva
        };
        let file_offset: u64 = match self.map_vatr(va) {
            Ok(o) => o,
            Err(_) => rva,
        };
        let len: usize = self.stream.bytes.len();
        if file_offset >= len as u64 {
            return None;
        }
        let start: usize = file_offset as usize;
        let end: usize = if size <= len - start {
            start + size
        } else {
            len
        };
        Some(bytes_between(&self.stream.bytes, start, end))
    }
}

/// The bytes from `start` up to `end`.
pub fn bytes_between(data: &Vec<u8>, start: usize, end: usize) -> (r: Vec<u8>)
    requires
        start <= end <= data@.len(),
    ensures
        r@ == data@.subrange(start as int, end as int),
{
    let mut out: Vec<u8> = Vec::new();
    let mut i: usize = start;
    while i < end
        invariant
            start <= i <= end <= data@.len(),
            out@ == data@.subrange(start as int, i as int),
        decreases end - i,
    {
        assert(data@.subrange(start as int, i + 1) =~= data@.subrange(start as int, i as int).push(
            data@[i as int],
        ));
        out.push(data[i]);
        i = i + 1;
    }
    assert(data@.subrange(start as int, start as int) =~= Seq::<u8>::empty());
    out
}

} // verus!
