//! Compiled functions and their derived inverse and under pair.
use vstd::prelude::*;
use crate::cache::RewriteCache;
use crate::instr::{Instr, Primitive};
use crate::invert::{invert_instrs, spec_invert};
use crate::under::{spec_under, under_instrs};

verus! {

/// How a function is implemented; only normal functions are rewritten.
#[derive(Clone, Copy, Debug, PartialEq, Eq, Structural)]
pub enum FunctionKind {
    Normal,
    /// A function backed by a built-in primitive.
    Primitive(Primitive),
}

/// A compiled function: an identifier, its instructions and its kind.
pub struct Function {
    pub id: u64,
    pub instrs: Vec<Instr>,
    pub kind: FunctionKind,
}

/// The inverse instructions of `f`, where `f` is normal and its body inverts.
pub open spec fn spec_function_inverse(f: Function) -> Option<Seq<Instr>> {
    if f.kind == FunctionKind::Normal {
        spec_invert(f.instrs@)
    } else {
        None
    }
}

impl Function {
    pub fn new(id: u64, instrs: Vec<Instr>, kind: FunctionKind) -> (r: Function)
        ensures
            r.id == id,
            r.instrs == instrs,
            r.kind == kind,
    {
        Function { id, instrs, kind }
    }

    /// A new normal function with the same identifier whose body is the
    /// inverse of this one's; none for a function that is not normal or
    /// whose body does not invert.
    pub fn inverse(&self) -> (r: Option<Function>)
        ensures
            r is Some <==> spec_function_inverse(*self) is Some,
            r matches Some(f) ==> f.id == self.id && f.kind == FunctionKind::Normal && f.instrs@
                == spec_function_inverse(*self).unwrap(),
    {
        if self.kind != FunctionKind::Normal {
            return None;
        }
        match invert_instrs(self.instrs.as_slice()) {
            Some(instrs) => Some(Function::new(self.id, instrs, FunctionKind::Normal)),
            None => None,
        }
    }

    /// [`Function::inverse`], with the body's inverse read from or recorded in `cache`.
    pub fn inverse_cached(&self, cache: &mut RewriteCache) -> (r: Option<Function>)
        requires
            old(cache).wf(),
        ensures
            final(cache).wf(),
            r is Some <==> spec_function_inverse(*self) is Some,
            r matches Some(f) ==> f.id == self.id && f.kind == FunctionKind::Normal && f.instrs@
                == spec_function_inverse(*self).unwrap(),
    {
        if self.kind != FunctionKind::Normal {
            return None;
        }
        match cache.invert(self.instrs.as_slice()) {
            Some(instrs) => Some(Function::new(self.id, instrs, FunctionKind::Normal)),
            None => None,
        }
    }

    /// [`Function::under`], with the inverse and the under decomposition read
    /// from or recorded in `cache`.
    pub fn under_cached(self, cache: &mut RewriteCache) -> (r: Option<(Function, Function)>)
        requires
            old(cache).wf(),
        ensures
            final(cache).wf(),
            spec_function_inverse(self) matches Some(inv) ==> (r matches Some((f, g)) && f == self
                && g.id == self.id && g.kind == FunctionKind::Normal && g.instrs@ == inv),
            spec_function_inverse(self) is None ==> (r is Some <==> spec_under(self.instrs@) is Some),
            spec_function_inverse(self) is None ==> (r matches Some((f, g)) ==> f.id == self.id
                && g.id == self.id && f.kind == FunctionKind::Normal && g.kind
                == FunctionKind::Normal && (f.instrs@, g.instrs@) == spec_under(
                self.instrs@,
            ).unwrap()),
    {
        if let Some(f) = self.inverse_cached(cache) {
            return Some((self, f));
        }
        match cache.under(self.instrs.as_slice()) {
            Some((befores, afters)) => {
                let id = self.id;
                Some(
                    (
                        Function::new(id, befores, FunctionKind::Normal),
                        Function::new(id, afters, FunctionKind::Normal),
                    ),
                )
            },
            None => None,
        }
    }

    /// The function with its inverse where it has one; otherwise two normal
    /// functions built from the under decomposition of its body.
    pub fn under(self) -> (r: Option<(Function, Function)>)
        ensures
            spec_function_inverse(self) matches Some(inv) ==> (r matches Some((f, g)) && f == self
                && g.id == self.id && g.kind == FunctionKind::Normal && g.instrs@ == inv),
            spec_function_inverse(self) is None ==> (r is Some <==> spec_under(self.instrs@) is Some),
            spec_function_inverse(self) is None ==> (r matches Some((f, g)) ==> f.id == self.id
                && g.id == self.id && f.kind == FunctionKind::Normal && g.kind
                == FunctionKind::Normal && (f.instrs@, g.instrs@) == spec_under(
                self.instrs@,
            ).unwrap()),
    {
        if let Some(f) = self.inverse() {
            return Some((self, f));
        }
        match under_instrs(self.instrs.as_slice()) {
            Some((befores, afters)) => {
                let id = self.id;
                Some(
                    (
                        Function::new(id, befores, FunctionKind::Normal),
                        Function::new(id, afters, FunctionKind::Normal),
                    ),
                )
            },
            None => None,
        }
    }
}

} // verus!
