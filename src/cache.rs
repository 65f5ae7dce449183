//! An explicitly owned memoization table for inversion and under results,
//! keyed by the exact instruction sequence. Entries are never evicted: every
//! result is a function of the sequence alone.
use vstd::prelude::*;
use crate::instr::Instr;
use crate::invert::{invert_instrs, opt_seq, spec_invert};
use crate::under::{opt_pair, spec_under, under_instrs};

verus! {

/// Whether two instruction sequences are structurally equal.
pub fn same_instrs(a: &[Instr], b: &[Instr]) -> (r: bool)
    ensures
        r == (a@ == b@),
{
    if a.len() != b.len() {
        return false;
    }
    let mut i: usize = 0;
    while i < a.len()
        invariant
            a@.len() == b@.len(),
            i <= a@.len(),
            forall|k: int| 0 <= k < i ==> a@[k] == b@[k],
        decreases a@.len() - i,
    {
        if a[i] != b[i] {
            return false;
        }
        i = i + 1;
    }
    assert(a@ =~= b@);
    true
}

fn copy_opt(r: &Option<Vec<Instr>>) -> (c: Option<Vec<Instr>>)
    ensures
        opt_seq(c) == opt_seq(*r),
{
    match r {
        Some(v) => Some(vstd::slice::slice_to_vec(v.as_slice())),
        None => None,
    }
}

fn copy_opt_pair(r: &Option<(Vec<Instr>, Vec<Instr>)>) -> (c: Option<(Vec<Instr>, Vec<Instr>)>)
    ensures
        opt_pair(c) == opt_pair(*r),
{
    match r {
        Some((b, a)) => Some(
            (vstd::slice::slice_to_vec(b.as_slice()), vstd::slice::slice_to_vec(a.as_slice())),
        ),
        None => None,
    }
}

/// Memoized inversion and under results, each keyed once by its sequence; a
/// cached `None` records a sequence proven to have none.
pub struct RewriteCache {
    inverses: Vec<(Vec<Instr>, Option<Vec<Instr>>)>,
    unders: Vec<(Vec<Instr>, Option<(Vec<Instr>, Vec<Instr>)>)>,
}

impl RewriteCache {
    /// Every entry holds the true result for its key, and no key occurs twice.
    pub closed spec fn wf(&self) -> bool {
        &&& forall|i: int, j: int|
            0 <= i < j < self.inverses@.len() ==> #[trigger] self.inverses@[i].0@
                != #[trigger] self.inverses@[j].0@
        &&& forall|i: int, j: int|
            0 <= i < j < self.unders@.len() ==> #[trigger] self.unders@[i].0@
                != #[trigger] self.unders@[j].0@
        &&& forall|i: int|
            0 <= i < self.inverses@.len() ==> opt_seq(#[trigger] self.inverses@[i].1)
                == spec_invert(self.inverses@[i].0@)
        &&& forall|i: int|
            0 <= i < self.unders@.len() ==> opt_pair(#[trigger] self.unders@[i].1) == spec_under(
                self.unders@[i].0@,
            )
    }

    /// The cache holds the inversion result for `s`.
    pub closed spec fn has_inverse(&self, s: Seq<Instr>) -> bool {
        exists|i: int| 0 <= i < self.inverses@.len() && #[trigger] self.inverses@[i].0@ == s
    }

    /// The cache holds the under result for `s`.
    pub closed spec fn has_under(&self, s: Seq<Instr>) -> bool {
        exists|i: int| 0 <= i < self.unders@.len() && #[trigger] self.unders@[i].0@ == s
    }

    pub fn new() -> (r: RewriteCache)
        ensures
            r.wf(),
            forall|s: Seq<Instr>| !r.has_inverse(s) && !r.has_under(s),
    {
        RewriteCache { inverses: Vec::new(), unders: Vec::new() }
    }

    fn find_inverse(&self, instrs: &[Instr]) -> (r: Option<usize>)
        ensures
            r matches Some(i) ==> i < self.inverses@.len() && self.inverses@[i as int].0@
                == instrs@,
            r is None ==> !self.has_inverse(instrs@),
    {
        let mut i: usize = 0;
        while i < self.inverses.len()
            invariant
                i <= self.inverses@.len(),
                forall|k: int| 0 <= k < i ==> self.inverses@[k].0@ != instrs@,
            decreases self.inverses@.len() - i,
        {
            if same_instrs(self.inverses[i].0.as_slice(), instrs) {
                return Some(i);
            }
            i = i + 1;
        }
        None
    }

    fn find_under(&self, instrs: &[Instr]) -> (r: Option<usize>)
        ensures
            r matches Some(i) ==> i < self.unders@.len() && self.unders@[i as int].0@ == instrs@,
            r is None ==> !self.has_under(instrs@),
    {
        let mut i: usize = 0;
        while i < self.unders.len()
            invariant
                i <= self.unders@.len(),
                forall|k: int| 0 <= k < i ==> self.unders@[k].0@ != instrs@,
            decreases self.unders@.len() - i,
        {
            if same_instrs(self.unders[i].0.as_slice(), instrs) {
                return Some(i);
            }
            i = i + 1;
        }
        None
    }

    /// Whether the inversion result for `instrs` is already cached.
    pub fn contains_inverse(&self, instrs: &[Instr]) -> (r: bool)
        ensures
            r == self.has_inverse(instrs@),
    {
        self.find_inverse(instrs).is_some()
    }

    /// Whether the under result for `instrs` is already cached.
    pub fn contains_under(&self, instrs: &[Instr]) -> (r: bool)
        ensures
            r == self.has_under(instrs@),
    {
        self.find_under(instrs).is_some()
    }

    /// The inverse of `instrs`, computed once and then read from the cache.
    /// A cached sequence leaves the cache untouched.
    pub fn invert(&mut self, instrs: &[Instr]) -> (r: Option<Vec<Instr>>)
        requires
            old(self).wf(),
        ensures
            final(self).wf(),
            opt_seq(r) == spec_invert(instrs@),
            final(self).has_inverse(instrs@),
            old(self).has_inverse(instrs@) ==> *final(self) == *old(self),
            forall|s: Seq<Instr>| old(self).has_inverse(s) ==> final(self).has_inverse(s),
            forall|s: Seq<Instr>| #[trigger] final(self).has_under(s) == old(self).has_under(s),
    {
        match self.find_inverse(instrs) {
            Some(i) => copy_opt(&self.inverses[i].1),
            None => {
                let r = invert_instrs(instrs);
                let ghost before = self.inverses@;
                self.inverses.push((vstd::slice::slice_to_vec(instrs), copy_opt(&r)));
                assert(self.inverses@[before.len() as int].0@ == instrs@);
                assert forall|s: Seq<Instr>| old(self).has_inverse(s) implies self.has_inverse(s) by {
                    let k = choose|k: int| 0 <= k < before.len() && #[trigger] before[k].0@ == s;
                    assert(self.inverses@[k] == before[k]);
                }
                r
            },
        }
    }

    /// The under pair of `instrs`, computed once and then read from the cache.
    /// A cached sequence leaves the cache untouched.
    pub fn under(&mut self, instrs: &[Instr]) -> (r: Option<(Vec<Instr>, Vec<Instr>)>)
        requires
            old(self).wf(),
        ensures
            final(self).wf(),
            opt_pair(r) == spec_under(instrs@),
            final(self).has_under(instrs@),
            old(self).has_under(instrs@) ==> *final(self) == *old(self),
            forall|s: Seq<Instr>| old(self).has_under(s) ==> final(self).has_under(s),
            forall|s: Seq<Instr>| #[trigger] final(self).has_inverse(s) == old(self).has_inverse(s),
    {
        match self.find_under(instrs) {
            Some(i) => copy_opt_pair(&self.unders[i].1),
            None => {
                let r = under_instrs(instrs);
                let ghost before = self.unders@;
                self.unders.push((vstd::slice::slice_to_vec(instrs), copy_opt_pair(&r)));
                assert(self.unders@[before.len() as int].0@ == instrs@);
                assert forall|s: Seq<Instr>| old(self).has_under(s) implies self.has_under(s) by {
                    let k = choose|k: int| 0 <= k < before.len() && #[trigger] before[k].0@ == s;
                    assert(self.unders@[k] == before[k]);
                }
                r
            },
        }
    }
}

} // verus!
