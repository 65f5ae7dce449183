//! Inversion: fragment rules and the right-anchored segmentation driver.
use vstd::prelude::*;
use crate::instr::{Emit, Instr, Primitive, Value, spec_as_primitive, spec_inverse};
use crate::pattern::{
    apply_template, concat, extract_value, skip_many, skip_prims, span_of, template_at,
    value_at,
};

verus! {

pub open spec fn opt_seq(r: Option<Vec<Instr>>) -> Option<Seq<Instr>> {
    match r {
        Some(v) => Some(v@),
        None => None,
    }
}

/// Number of "value, operator" template rules.
pub const VALUE_RULES: usize = 6;

/// Number of fragment rules tried after the single-instruction cases.
pub const INVERT_RULES: usize = 9;

/// Whether the value rule `k` skips flips between the value and the operator.
pub open spec fn value_rule_flips(k: int) -> bool {
    k == 2 || k == 4
}

/// The operator that the value rule `k` matches.
pub open spec fn value_rule_op(k: int) -> Primitive {
    if k == 0 {
        Primitive::Invert
    } else if k == 1 {
        Primitive::Rotate
    } else if k == 2 {
        Primitive::Add
    } else if k == 3 {
        Primitive::Sub
    } else if k == 4 {
        Primitive::Mul
    } else {
        Primitive::Div
    }
}

/// What the value rule `k` emits after the value.
pub open spec fn value_rule_emits(k: int) -> Seq<Emit> {
    if k == 0 {
        seq![Emit::Op(Primitive::Call)]
    } else if k == 1 {
        seq![Emit::Op(Primitive::Neg), Emit::Op(Primitive::Rotate)]
    } else if k == 2 {
        seq![Emit::Op(Primitive::Sub)]
    } else if k == 3 {
        seq![Emit::Op(Primitive::Add)]
    } else if k == 4 {
        seq![Emit::Op(Primitive::Div)]
    } else {
        seq![Emit::Op(Primitive::Mul)]
    }
}

/// `Value, [Flip]*, op` covering all of `s`, inverted to the value and the template.
pub open spec fn value_rule(k: int, s: Seq<Instr>) -> Option<Seq<Instr>> {
    match value_at(s, 0) {
        Some((pv, v)) => {
            let po = if value_rule_flips(k) {
                skip_many(s, pv, Primitive::Flip)
            } else {
                pv
            };
            match template_at(s, po, seq![value_rule_op(k)], value_rule_emits(k)) {
                Some((pe, out)) => if pe == s.len() {
                    Some(v + out)
                } else {
                    None
                },
                None => None,
            }
        },
        None => None,
    }
}

/// `Value(e), Pow` inverts to `push 1, Value(e), Div, Pow`.
pub open spec fn pow_rule(s: Seq<Instr>) -> Option<Seq<Instr>> {
    match value_at(s, 0) {
        Some((pv, v)) => if pv + 1 == s.len() && s[pv] matches Instr::Prim(Primitive::Pow, _) {
            let sp = span_of(s[pv]);
            Some(
                seq![Instr::Push(Value::Num(1))] + v + seq![
                    Instr::Prim(Primitive::Div, sp),
                    Instr::Prim(Primitive::Pow, sp),
                ],
            )
        } else {
            None
        },
        None => None,
    }
}

/// `Value(b), Log` inverts to `Value(b), Flip, Pow`.
pub open spec fn log_rule(s: Seq<Instr>) -> Option<Seq<Instr>> {
    match value_at(s, 0) {
        Some((pv, v)) => if pv + 1 == s.len() && s[pv] matches Instr::Prim(Primitive::Log, _) {
            let sp = span_of(s[pv]);
            Some(v + seq![Instr::Prim(Primitive::Flip, sp), Instr::Prim(Primitive::Pow, sp)])
        } else {
            None
        },
        None => None,
    }
}

/// `Value(n), Push(f), Repeat` inverts to `Value(n), Neg, Push(f), Repeat`.
pub open spec fn repeat_rule(s: Seq<Instr>) -> Option<Seq<Instr>> {
    match value_at(s, 0) {
        Some((pv, v)) => if pv + 2 == s.len() && s[pv] is Push && s[pv + 1] matches Instr::Prim(
            Primitive::Repeat,
            _,
        ) {
            let sp = span_of(s[pv + 1]);
            Some(
                v + seq![
                    Instr::Prim(Primitive::Neg, sp),
                    s[pv],
                    Instr::Prim(Primitive::Repeat, sp),
                ],
            )
        } else {
            None
        },
        None => None,
    }
}

/// The fragment rule `k`, in the order in which rules are tried.
pub open spec fn invert_rule(k: int, s: Seq<Instr>) -> Option<Seq<Instr>> {
    if k < VALUE_RULES {
        value_rule(k, s)
    } else if k == 6 {
        pow_rule(s)
    } else if k == 7 {
        log_rule(s)
    } else {
        repeat_rule(s)
    }
}

/// The first rule from `k` on that covers all of `s`.
pub open spec fn rules_from(s: Seq<Instr>, k: int) -> Option<Seq<Instr>>
    decreases INVERT_RULES - k,
{
    if k < 0 || k >= INVERT_RULES {
        None
    } else {
        match invert_rule(k, s) {
            Some(r) => Some(r),
            None => rules_from(s, k + 1),
        }
    }
}

/// A single primitive inverts through the table, square root to `push 2, Pow`.
pub open spec fn prim_inverse(p: Primitive, span: usize) -> Option<Seq<Instr>> {
    if p == Primitive::Sqrt {
        Some(seq![Instr::Push(Value::Num(2)), Instr::Prim(Primitive::Pow, span)])
    } else {
        match spec_inverse(p) {
            Some(q) => Some(seq![Instr::Prim(q, span)]),
            None => None,
        }
    }
}

/// The inverse of a fragment, which must be covered whole.
pub open spec fn invert_fragment(s: Seq<Instr>) -> Option<Seq<Instr>> {
    if s.len() == 1 && s[0] is Prim {
        prim_inverse(s[0]->Prim_0, s[0]->Prim_1)
    } else if s.len() == 1 && s[0] is Push && spec_as_primitive(s[0]->Push_0) is Some {
        let (p, span) = spec_as_primitive(s[0]->Push_0).unwrap();
        match spec_inverse(p) {
            Some(q) => Some(seq![Instr::Prim(q, span)]),
            None => None,
        }
    } else {
        rules_from(s, 0)
    }
}

/// Right-anchored segmentation of `s[..end]`, with the current window `[start, end)`.
pub open spec fn invert_seg(s: Seq<Instr>, start: int, end: int) -> Option<Seq<Instr>>
    decreases end, start,
{
    if !(0 <= start < end <= s.len()) {
        None
    } else {
        match invert_fragment(s.subrange(start, end)) {
            Some(f) => if start == 0 {
                Some(f)
            } else {
                match invert_seg(s, start - 1, start) {
                    Some(rest) => Some(rest + f),
                    None => None,
                }
            },
            None => if start == 0 {
                None
            } else {
                invert_seg(s, start - 1, end)
            },
        }
    }
}

/// The inverse of a whole instruction sequence.
pub open spec fn spec_invert(s: Seq<Instr>) -> Option<Seq<Instr>> {
    if s.len() == 0 {
        Some(Seq::empty())
    } else {
        invert_seg(s, s.len() - 1, s.len() as int)
    }
}

fn value_rule_table(k: usize) -> (r: (bool, Primitive, Vec<Emit>))
    requires
        k < VALUE_RULES,
    ensures
        r.0 == value_rule_flips(k as int),
        r.1 == value_rule_op(k as int),
        r.2@ == value_rule_emits(k as int),
{
    let r = if k == 0 {
        (false, Primitive::Invert, vec![Emit::Op(Primitive::Call)])
    } else if k == 1 {
        (false, Primitive::Rotate, vec![Emit::Op(Primitive::Neg), Emit::Op(Primitive::Rotate)])
    } else if k == 2 {
        (true, Primitive::Add, vec![Emit::Op(Primitive::Sub)])
    } else if k == 3 {
        (false, Primitive::Sub, vec![Emit::Op(Primitive::Add)])
    } else if k == 4 {
        (true, Primitive::Mul, vec![Emit::Op(Primitive::Div)])
    } else {
        (false, Primitive::Div, vec![Emit::Op(Primitive::Mul)])
    };
    assert(r.2@ =~= value_rule_emits(k as int));
    r
}

fn apply_value_rule(k: usize, s: &[Instr]) -> (r: Option<Vec<Instr>>)
    requires
        k < VALUE_RULES,
    ensures
        opt_seq(r) == value_rule(k as int, s@),
{
    let (flips, op, emits) = value_rule_table(k);
    match extract_value(s, 0) {
        Some((pv, v)) => {
            let po = if flips {
                skip_prims(s, pv, Primitive::Flip)
            } else {
                pv
            };
            let prims = vec![op];
            assert(prims@ =~= seq![value_rule_op(k as int)]);
            match apply_template(s, po, prims.as_slice(), emits.as_slice()) {
                Some((pe, out)) => {
                    if pe == s.len() {
                        Some(concat(v, out))
                    } else {
                        None
                    }
                },
                None => None,
            }
        },
        None => None,
    }
}

fn apply_pow_rule(s: &[Instr]) -> (r: Option<Vec<Instr>>)
    ensures
        opt_seq(r) == pow_rule(s@),
{
    match extract_value(s, 0) {
        Some((pv, v)) => {
            if pv < s.len() && pv + 1 == s.len() {
                if let Instr::Prim(Primitive::Pow, sp) = s[pv] {
                    let mut r = vec![Instr::Push(Value::Num(1))];
                    r = concat(r, v);
                    r.push(Instr::Prim(Primitive::Div, sp));
                    r.push(Instr::Prim(Primitive::Pow, sp));
                    assert(r@ =~= pow_rule(s@).unwrap());
                    return Some(r);
                }
            }
            None
        },
        None => None,
    }
}

fn apply_log_rule(s: &[Instr]) -> (r: Option<Vec<Instr>>)
    ensures
        opt_seq(r) == log_rule(s@),
{
    match extract_value(s, 0) {
        Some((pv, v)) => {
            if pv < s.len() && pv + 1 == s.len() {
                if let Instr::Prim(Primitive::Log, sp) = s[pv] {
                    let mut r = v;
                    r.push(Instr::Prim(Primitive::Flip, sp));
                    r.push(Instr::Prim(Primitive::Pow, sp));
                    assert(r@ =~= log_rule(s@).unwrap());
                    return Some(r);
                }
            }
            None
        },
        None => None,
    }
}

fn apply_repeat_rule(s: &[Instr]) -> (r: Option<Vec<Instr>>)
    ensures
        opt_seq(r) == repeat_rule(s@),
{
    match extract_value(s, 0) {
        Some((pv, v)) => {
            if pv < s.len() && s.len() - pv == 2 {
                if let Instr::Push(f) = s[pv] {
                    if let Instr::Prim(Primitive::Repeat, sp) = s[pv + 1] {
                        let mut r = v;
                        r.push(Instr::Prim(Primitive::Neg, sp));
                        r.push(Instr::Push(f));
                        r.push(Instr::Prim(Primitive::Repeat, sp));
                        assert(r@ =~= repeat_rule(s@).unwrap());
                        return Some(r);
                    }
                }
            }
            None
        },
        None => None,
    }
}

fn apply_invert_rule(k: usize, s: &[Instr]) -> (r: Option<Vec<Instr>>)
    requires
        k < INVERT_RULES,
    ensures
        opt_seq(r) == invert_rule(k as int, s@),
{
    if k < VALUE_RULES {
        apply_value_rule(k, s)
    } else if k == 6 {
        apply_pow_rule(s)
    } else if k == 7 {
        apply_log_rule(s)
    } else {
        apply_repeat_rule(s)
    }
}

/// Inverts one fragment, which a rule must cover whole.
pub fn invert_instr_fragment(s: &[Instr]) -> (r: Option<Vec<Instr>>)
    ensures
        opt_seq(r) == invert_fragment(s@),
{
    if s.len() == 1 {
        match s[0] {
            Instr::Prim(p, span) => {
                if p == Primitive::Sqrt {
                    let r = vec![Instr::Push(Value::Num(2)), Instr::Prim(Primitive::Pow, span)];
                    assert(r@ =~= prim_inverse(p, span).unwrap());
                    return Some(r);
                }
                return match p.inverse() {
                    Some(q) => {
                        let r = vec![Instr::Prim(q, span)];
                        assert(r@ =~= prim_inverse(p, span).unwrap());
                        Some(r)
                    },
                    None => None,
                };
            },
            Instr::Push(val) => {
                if let Some((p, span)) = val.as_primitive() {
                    return match p.inverse() {
                        Some(q) => {
                            let r = vec![Instr::Prim(q, span)];
                            assert(r@ =~= invert_fragment(s@).unwrap());
                            Some(r)
                        },
                        None => None,
                    };
                }
            },
            _ => {},
        }
    }
    let mut k: usize = 0;
    while k < INVERT_RULES
        invariant
            k <= INVERT_RULES,
            invert_fragment(s@) == rules_from(s@, k as int),
        decreases INVERT_RULES - k,
    {
        let r = apply_invert_rule(k, s);
        if r.is_some() {
            return r;
        }
        k = k + 1;
    }
    None
}

/// Inverts a whole instruction sequence: the empty sequence inverts to itself;
/// otherwise windows ending at the right boundary grow leftward until a rule
/// covers one, whose inverse is prepended.
pub fn invert_instrs(instrs: &[Instr]) -> (r: Option<Vec<Instr>>)
    ensures
        opt_seq(r) == spec_invert(instrs@),
{
    let n = instrs.len();
    if n == 0 {
        return Some(Vec::new());
    }
    let ghost target = spec_invert(instrs@);
    let mut inverted: Vec<Instr> = Vec::new();
    let mut start: usize = n - 1;
    let mut end: usize = n;
    proof {
        if let Some(rest) = invert_seg(instrs@, start as int, end as int) {
            assert(rest + inverted@ =~= rest);
        }
    }
    loop
        invariant
            n == instrs@.len(),
            target == spec_invert(instrs@),
            0 <= start < end <= n,
            target == (match invert_seg(instrs@, start as int, end as int) {
                Some(rest) => Some(rest + inverted@),
                None => None,
            }),
        decreases end, start,
    {
        let frag = vstd::slice::slice_subrange(instrs, start, end);
        assert(frag@ == instrs@.subrange(start as int, end as int));
        match invert_instr_fragment(frag) {
            Some(f) => {
                proof {
                    if start > 0 {
                        match invert_seg(instrs@, start - 1, start as int) {
                            Some(rest) => {
                                assert(rest + f@ + inverted@ =~= rest + (f@ + inverted@));
                            },
                            None => {},
                        }
                    }
                }
                inverted = concat(f, inverted);
                if start == 0 {
                    return Some(inverted);
                }
                end = start;
                start = end - 1;
            },
            None => {
                if start == 0 {
                    return None;
                }
                start = start - 1;
            },
        }
    }
}

} // verus!
