//! Stack-effect inference over straight-line instruction runs.
use vstd::prelude::*;
use crate::instr::{Instr, spec_args, spec_outputs};

verus! {

/// The values a run of instructions consumes and produces.
#[derive(Clone, Copy, Debug, PartialEq, Eq, Structural)]
pub struct Signature {
    pub args: usize,
    pub outputs: usize,
}

/// Stack effect of `s[i..]`, given that `s[..i]` needed `args` values from
/// below and left `height` values. Fails on anything but pushes and
/// fixed-arity primitives, and where a count would leave `usize`.
pub open spec fn sig_from(s: Seq<Instr>, i: int, args: nat, height: nat) -> Option<(nat, nat)>
    decreases s.len() - i,
{
    if i >= s.len() {
        Some((args, height))
    } else {
        match s[i] {
            Instr::Push(_) => {
                if height + 1 > usize::MAX {
                    None
                } else {
                    sig_from(s, i + 1, args, height + 1)
                }
            },
            Instr::Prim(p, _) => {
                match (spec_args(p), spec_outputs(p)) {
                    (Some(a), Some(o)) => {
                        let args2: nat = if height < a { args + (a - height) as nat } else { args };
                        let h2: nat = if height < a { o } else { (height - a) as nat + o };
                        if args2 > usize::MAX || h2 > usize::MAX {
                            None
                        } else {
                            sig_from(s, i + 1, args2, h2)
                        }
                    },
                    _ => None,
                }
            },
            _ => None,
        }
    }
}

/// The signature of a whole run: `(args consumed, outputs produced)`.
pub open spec fn spec_signature(s: Seq<Instr>) -> Option<(nat, nat)> {
    sig_from(s, 0, 0, 0)
}

/// A run is a self-contained value computation: it takes nothing and leaves one value.
pub open spec fn is_value_run(s: Seq<Instr>) -> bool {
    spec_signature(s) == Some((0nat, 1nat))
}

/// Infers the signature of `instrs`, or fails where it cannot be known statically.
pub fn instrs_signature(instrs: &[Instr]) -> (r: Option<Signature>)
    ensures
        r matches Some(sig) ==> spec_signature(instrs@) == Some(
            (sig.args as nat, sig.outputs as nat),
        ),
        r is None ==> spec_signature(instrs@) is None,
{
    let mut args: usize = 0;
    let mut height: usize = 0;
    let mut i: usize = 0;
    while i < instrs.len()
        invariant
            i <= instrs@.len(),
            spec_signature(instrs@) == sig_from(instrs@, i as int, args as nat, height as nat),
        decreases instrs@.len() - i,
    {
        match instrs[i] {
            Instr::Push(_) => {
                if height == usize::MAX {
                    return None;
                }
                height = height + 1;
            },
            Instr::Prim(p, _) => {
                match (p.args(), p.outputs()) {
                    (Some(a), Some(o)) => {
                        if height < a {
                            let need = a - height;
                            if args > usize::MAX - need {
                                return None;
                            }
                            args = args + need;
                            height = o;
                        } else {
                            let rest = height - a;
                            if rest > usize::MAX - o {
                                return None;
                            }
                            height = rest + o;
                        }
                    },
                    _ => {
                        return None;
                    },
                }
            },
            _ => {
                return None;
            },
        }
        i = i + 1;
    }
    Some(Signature { args, outputs: height })
}

} // verus!
