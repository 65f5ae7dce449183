//! Under decomposition: view idioms and the left-anchored segmentation driver.
use vstd::prelude::*;
use crate::instr::{Emit, Instr, Primitive};
use crate::invert::{invert_fragment, invert_instr_fragment};
use crate::pattern::{
    apply_under_template, concat, emit_all, extract_value, prims_match, spans_at, value_at,
};

verus! {

pub open spec fn opt_pair(r: Option<(Vec<Instr>, Vec<Instr>)>) -> Option<(Seq<Instr>, Seq<Instr>)> {
    match r {
        Some((b, a)) => Some((b@, a@)),
        None => None,
    }
}

/// Number of view idioms.
pub const VIEW_RULES: usize = 11;

/// Whether the view idiom `k` starts with a value (the count or index).
pub open spec fn view_value(k: int) -> bool {
    k == 0 || k == 2 || k == 4 || k == 6
}

/// The primitive that the view idiom `k` matches.
pub open spec fn view_op(k: int) -> Primitive {
    if k <= 1 {
        Primitive::Take
    } else if k <= 3 {
        Primitive::Drop
    } else if k <= 5 {
        Primitive::Select
    } else if k <= 7 {
        Primitive::Pick
    } else if k == 8 {
        Primitive::Rotate
    } else if k == 9 {
        Primitive::First
    } else {
        Primitive::Last
    }
}

/// The primitive that restores what the view idiom `k` (for `k < 8`) took out.
pub open spec fn view_restore(k: int) -> Primitive {
    if k <= 1 {
        Primitive::Untake
    } else if k <= 3 {
        Primitive::Undrop
    } else if k <= 5 {
        Primitive::Unselect
    } else {
        Primitive::Unpick
    }
}

/// What the view idiom `k` runs to enter the view.
pub open spec fn view_before(k: int) -> Seq<Emit> {
    if k < 8 {
        seq![Emit::Op(Primitive::Over), Emit::Op(Primitive::Over), Emit::Op(view_op(k))]
    } else if k == 8 {
        seq![Emit::Op(Primitive::Flip), Emit::Op(Primitive::Over), Emit::Op(Primitive::Rotate)]
    } else {
        seq![Emit::Op(Primitive::Dup), Emit::Op(view_op(k))]
    }
}

/// What the view idiom `k` runs to commit the view back.
pub open spec fn view_after(k: int) -> Seq<Emit> {
    if k < 8 {
        seq![Emit::Op(view_restore(k))]
    } else if k == 8 {
        seq![Emit::Op(Primitive::Flip), Emit::Op(Primitive::Neg), Emit::Op(Primitive::Rotate)]
    } else if k == 9 {
        seq![
            Emit::Op(Primitive::Flip),
            Emit::Num(1),
            Emit::Op(Primitive::Drop),
            Emit::Op(Primitive::Flip),
            Emit::Op(Primitive::Join),
        ]
    } else {
        seq![
            Emit::Op(Primitive::Flip),
            Emit::Num(-1i64),
            Emit::Op(Primitive::Drop),
            Emit::Op(Primitive::Join),
        ]
    }
}

/// The view idiom `k` covering all of `s`: the optional value goes before
/// the idiom's own `before`; the `after` is the idiom's alone.
pub open spec fn view_rule(k: int, s: Seq<Instr>) -> Option<(Seq<Instr>, Seq<Instr>)> {
    let head = if view_value(k) {
        value_at(s, 0)
    } else {
        Some((0int, Seq::<Instr>::empty()))
    };
    match head {
        Some((pv, v)) => if prims_match(s, pv, seq![view_op(k)]) && pv + 1 == s.len() {
            let spans = spans_at(s, pv, 1);
            Some((v + emit_all(view_before(k), spans), emit_all(view_after(k), spans)))
        } else {
            None
        },
        None => None,
    }
}

/// The first view idiom from `k` on that covers all of `s`.
pub open spec fn views_from(s: Seq<Instr>, k: int) -> Option<(Seq<Instr>, Seq<Instr>)>
    decreases VIEW_RULES - k,
{
    if k < 0 || k >= VIEW_RULES {
        None
    } else {
        match view_rule(k, s) {
            Some(r) => Some(r),
            None => views_from(s, k + 1),
        }
    }
}

/// An invertible fragment is its own `before` with its inverse as `after`;
/// any other goes through the view idioms.
pub open spec fn under_fragment(s: Seq<Instr>) -> Option<(Seq<Instr>, Seq<Instr>)> {
    match invert_fragment(s) {
        Some(inv) => Some((s, inv)),
        None => views_from(s, 0),
    }
}

/// Left-anchored segmentation of `s[start..]`, with the current window
/// `[start, end)`: befores in order, afters in reverse order.
pub open spec fn under_seg(s: Seq<Instr>, start: int, end: int) -> Option<(Seq<Instr>, Seq<Instr>)>
    decreases s.len() - start, s.len() - end,
{
    if !(0 <= start < end <= s.len()) {
        None
    } else {
        match under_fragment(s.subrange(start, end)) {
            Some((b, a)) => if end == s.len() {
                Some((b, a))
            } else {
                match under_seg(s, end, end + 1) {
                    Some((b2, a2)) => Some((b + b2, a2 + a)),
                    None => None,
                }
            },
            None => if end == s.len() {
                None
            } else {
                under_seg(s, start, end + 1)
            },
        }
    }
}

/// The under decomposition of a whole instruction sequence.
pub open spec fn spec_under(s: Seq<Instr>) -> Option<(Seq<Instr>, Seq<Instr>)> {
    if s.len() == 0 {
        Some((Seq::empty(), Seq::empty()))
    } else {
        under_seg(s, 0, 1)
    }
}

fn view_table(k: usize) -> (r: (bool, Primitive, Vec<Emit>, Vec<Emit>))
    requires
        k < VIEW_RULES,
    ensures
        r.0 == view_value(k as int),
        r.1 == view_op(k as int),
        r.2@ == view_before(k as int),
        r.3@ == view_after(k as int),
{
    let (value, op, restore) = if k <= 1 {
        (k == 0, Primitive::Take, Primitive::Untake)
    } else if k <= 3 {
        (k == 2, Primitive::Drop, Primitive::Undrop)
    } else if k <= 5 {
        (k == 4, Primitive::Select, Primitive::Unselect)
    } else if k <= 7 {
        (k == 6, Primitive::Pick, Primitive::Unpick)
    } else if k == 8 {
        (false, Primitive::Rotate, Primitive::Rotate)
    } else if k == 9 {
        (false, Primitive::First, Primitive::First)
    } else {
        (false, Primitive::Last, Primitive::Last)
    };
    let r = if k < 8 {
        (
            value,
            op,
            vec![Emit::Op(Primitive::Over), Emit::Op(Primitive::Over), Emit::Op(op)],
            vec![Emit::Op(restore)],
        )
    } else if k == 8 {
        (
            value,
            op,
            vec![Emit::Op(Primitive::Flip), Emit::Op(Primitive::Over), Emit::Op(Primitive::Rotate)],
            vec![Emit::Op(Primitive::Flip), Emit::Op(Primitive::Neg), Emit::Op(Primitive::Rotate)],
        )
    } else if k == 9 {
        (
            value,
            op,
            vec![Emit::Op(Primitive::Dup), Emit::Op(op)],
            vec![
                Emit::Op(Primitive::Flip),
                Emit::Num(1),
                Emit::Op(Primitive::Drop),
                Emit::Op(Primitive::Flip),
                Emit::Op(Primitive::Join),
            ],
        )
    } else {
        (
            value,
            op,
            vec![Emit::Op(Primitive::Dup), Emit::Op(op)],
            vec![
                Emit::Op(Primitive::Flip),
                Emit::Num(-1),
                Emit::Op(Primitive::Drop),
                Emit::Op(Primitive::Join),
            ],
        )
    };
    assert(r.2@ =~= view_before(k as int));
    assert(r.3@ =~= view_after(k as int));
    r
}

fn apply_view_rule(k: usize, s: &[Instr]) -> (r: Option<(Vec<Instr>, Vec<Instr>)>)
    requires
        k < VIEW_RULES,
    ensures
        opt_pair(r) == view_rule(k as int, s@),
{
    let (value, op, before, after) = view_table(k);
    let head = if value {
        extract_value(s, 0)
    } else {
        Some((0usize, Vec::new()))
    };
    match head {
        Some((pv, v)) => {
            let prims = vec![op];
            assert(prims@ =~= seq![view_op(k as int)]);
            match apply_under_template(s, pv, prims.as_slice(), before.as_slice(), after.as_slice()) {
                Some((pe, b, a)) => {
                    if pe == s.len() {
                        Some((concat(v, b), a))
                    } else {
                        None
                    }
                },
                None => None,
            }
        },
        None => None,
    }
}

/// The under pair of one fragment, which must be covered whole.
pub fn under_instr_fragment(s: &[Instr]) -> (r: Option<(Vec<Instr>, Vec<Instr>)>)
    ensures
        opt_pair(r) == under_fragment(s@),
{
    if let Some(inv) = invert_instr_fragment(s) {
        return Some((vstd::slice::slice_to_vec(s), inv));
    }
    let mut k: usize = 0;
    while k < VIEW_RULES
        invariant
            k <= VIEW_RULES,
            under_fragment(s@) == views_from(s@, k as int),
        decreases VIEW_RULES - k,
    {
        let r = apply_view_rule(k, s);
        if r.is_some() {
            return r;
        }
        k = k + 1;
    }
    None
}

/// Decomposes a whole instruction sequence into `(before, after)`: the empty
/// sequence gives two empty parts; otherwise windows starting at the left
/// boundary grow rightward until a fragment rule covers one, whose `before`
/// is appended and whose `after` is prepended.
pub fn under_instrs(instrs: &[Instr]) -> (r: Option<(Vec<Instr>, Vec<Instr>)>)
    ensures
        opt_pair(r) == spec_under(instrs@),
{
    let n = instrs.len();
    if n == 0 {
        return Some((Vec::new(), Vec::new()));
    }
    let ghost target = spec_under(instrs@);
    let mut befores: Vec<Instr> = Vec::new();
    let mut afters: Vec<Instr> = Vec::new();
    let mut start: usize = 0;
    let mut end: usize = 1;
    proof {
        if let Some((b, a)) = under_seg(instrs@, start as int, end as int) {
            assert(befores@ + b =~= b);
            assert(a + afters@ =~= a);
        }
    }
    loop
        invariant
            n == instrs@.len(),
            target == spec_under(instrs@),
            0 <= start < end <= n,
            target == (match under_seg(instrs@, start as int, end as int) {
                Some((b, a)) => Some((befores@ + b, a + afters@)),
                None => None,
            }),
        decreases n - start, n - end,
    {
        let frag = vstd::slice::slice_subrange(instrs, start, end);
        assert(frag@ == instrs@.subrange(start as int, end as int));
        match under_instr_fragment(frag) {
            Some((b, a)) => {
                proof {
                    if end < n {
                        if let Some((b2, a2)) = under_seg(instrs@, end as int, end + 1) {
                            assert(befores@ + (b@ + b2) =~= befores@ + b@ + b2);
                            assert(a2 + a@ + afters@ =~= a2 + (a@ + afters@));
                        }
                    }
                }
                befores = concat(befores, b);
                afters = concat(a, afters);
                if end == n {
                    return Some((befores, afters));
                }
                start = end;
                end = end + 1;
            },
            None => {
                if end == n {
                    return None;
                }
                end = end + 1;
            },
        }
    }
}

} // verus!
