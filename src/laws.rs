//! Laws of the rewrite engine, proved over its spec functions.
use vstd::prelude::*;
use crate::instr::{Instr, Primitive, Value, spec_inverse};
use crate::invert::{
    invert_fragment, invert_rule, invert_seg, rules_from, spec_invert, value_rule,
    value_rule_emits, value_rule_op, INVERT_RULES, VALUE_RULES,
};
use crate::pattern::{
    array_close, emit_all, prims_match, skip_many, spans_at, template_at, value_at, value_scan,
};
use crate::signature::{sig_from, spec_signature};
use crate::under::{spec_under, under_fragment, under_seg};

verus! {

/// The primitive inverse table is an involution: the inverse of an inverse
/// is the primitive itself.
pub proof fn lemma_inverse_table_involution(p: Primitive)
    ensures
        spec_inverse(p) matches Some(q) ==> spec_inverse(q) == Some(p),
{
}

/// Every instruction of `s` is a primitive, other than square root, that has
/// a table inverse.
pub open spec fn all_table_prims(s: Seq<Instr>) -> bool {
    forall|i: int|
        0 <= i < s.len() ==> (#[trigger] s[i] is Prim && spec_inverse(s[i]->Prim_0) is Some
            && s[i]->Prim_0 != Primitive::Sqrt)
}

/// Each primitive of `s` replaced by its table inverse, spans kept.
pub open spec fn table_image(s: Seq<Instr>) -> Seq<Instr> {
    Seq::new(
        s.len(),
        |i: int| Instr::Prim(spec_inverse(s[i]->Prim_0).unwrap(), s[i]->Prim_1),
    )
}

proof fn lemma_table_seg(s: Seq<Instr>, j: int)
    requires
        all_table_prims(s),
        1 <= j <= s.len(),
    ensures
        invert_seg(s, j - 1, j) == Some(table_image(s).subrange(0, j)),
    decreases j,
{
    let img = table_image(s);
    let f = s.subrange(j - 1, j);
    assert(f =~= seq![s[j - 1]]);
    assert(s[j - 1] is Prim);
    let one = seq![img[j - 1]];
    assert(invert_fragment(f) == Some(one));
    if j == 1 {
        assert(img.subrange(0, 1) =~= one);
    } else {
        lemma_table_seg(s, j - 1);
        assert(img.subrange(0, j - 1) + one =~= img.subrange(0, j));
    }
}

/// A sequence of primitives with table inverses inverts to their inverses in
/// place, and inverting that gives the sequence back.
pub proof fn lemma_table_sequence_round_trip(s: Seq<Instr>)
    requires
        all_table_prims(s),
    ensures
        spec_invert(s) == Some(table_image(s)),
        all_table_prims(table_image(s)),
        spec_invert(table_image(s)) == Some(s),
{
    let img = table_image(s);
    assert forall|i: int| 0 <= i < img.len() implies (#[trigger] img[i] is Prim && spec_inverse(
        img[i]->Prim_0,
    ) is Some && img[i]->Prim_0 != Primitive::Sqrt) by {
        assert(s[i] is Prim);
        lemma_inverse_table_involution(s[i]->Prim_0);
    }
    assert forall|i: int| 0 <= i < s.len() implies #[trigger] table_image(img)[i] == s[i] by {
        assert(s[i] is Prim);
        lemma_inverse_table_involution(s[i]->Prim_0);
    }
    assert(table_image(img) =~= s);
    if s.len() == 0 {
        assert(img =~= s);
    } else {
        lemma_table_seg(s, s.len() as int);
        assert(img.subrange(0, s.len() as int) =~= img);
        lemma_table_seg(img, img.len() as int);
        assert(s.subrange(0, s.len() as int) =~= s);
    }
}

proof fn lemma_seg_fails(s: Seq<Instr>, i: int, start: int, end: int)
    requires
        0 <= i < end,
        0 <= start < end <= s.len(),
        forall|a: int, b: int|
            0 <= a <= i < b <= s.len() ==> #[trigger] invert_fragment(s.subrange(a, b)) is None,
    ensures
        invert_seg(s, start, end) is None,
    decreases end, start,
{
    if start <= i {
        if start > 0 {
            lemma_seg_fails(s, i, start - 1, end);
        }
    } else {
        lemma_seg_fails(s, i, start - 1, start);
        lemma_seg_fails(s, i, start - 1, end);
    }
}

/// An instruction that no fragment around it can cover makes the whole
/// inversion fail: it is never dropped from the result.
pub proof fn lemma_uncovered_instruction_fails(s: Seq<Instr>, i: int)
    requires
        0 <= i < s.len(),
        forall|a: int, b: int|
            0 <= a <= i < b <= s.len() ==> #[trigger] invert_fragment(s.subrange(a, b)) is None,
    ensures
        spec_invert(s) is None,
{
    lemma_seg_fails(s, i, s.len() - 1, s.len() as int);
}

/// Whether some fragment rule, or the square-root case, ends on `p`.
pub open spec fn is_rule_operator(p: Primitive) -> bool {
    p == Primitive::Sqrt || p == Primitive::Invert || p == Primitive::Rotate || p == Primitive::Add
        || p == Primitive::Sub || p == Primitive::Mul || p == Primitive::Div || p == Primitive::Pow
        || p == Primitive::Log || p == Primitive::Repeat
}

proof fn lemma_rules_fail_on_last(f: Seq<Instr>, p: Primitive, span: usize, k: int)
    requires
        f.len() > 0,
        f.last() == Instr::Prim(p, span),
        !is_rule_operator(p),
        0 <= k,
    ensures
        rules_from(f, k) is None,
    decreases INVERT_RULES - k,
{
    if k < INVERT_RULES {
        if k < VALUE_RULES {
            if let Some((pv, v)) = value_at(f, 0) {
                let po = if k == 2 || k == 4 {
                    skip_many(f, pv, Primitive::Flip)
                } else {
                    pv
                };
                if prims_match(f, po, seq![value_rule_op(k)]) && po + 1 == f.len() {
                    assert(f[po + 0] matches Instr::Prim(q, _) && q == value_rule_op(k));
                    assert(f[po] == f.last());
                }
            }
            assert(value_rule(k, f) is None);
        }
        assert(invert_rule(k, f) is None);
        lemma_rules_fail_on_last(f, p, span, k + 1);
    }
}

/// The smallest window around an instruction fails: a fragment that ends in
/// a primitive with no table inverse, on which no rule ends, has no inverse.
pub proof fn lemma_fragment_ending_in_uninvertible_fails(f: Seq<Instr>, p: Primitive, span: usize)
    requires
        f.len() > 0,
        f.last() == Instr::Prim(p, span),
        spec_inverse(p) is None,
        !is_rule_operator(p),
    ensures
        invert_fragment(f) is None,
{
    lemma_rules_fail_on_last(f, p, span, 0);
}

/// A sequence that ends in a primitive with no table inverse, on which no
/// rule ends, has no inverse: that instruction is never dropped.
pub proof fn lemma_trailing_uninvertible_fails(xs: Seq<Instr>, p: Primitive, span: usize)
    requires
        spec_inverse(p) is None,
        !is_rule_operator(p),
    ensures
        spec_invert(xs.push(Instr::Prim(p, span))) is None,
{
    let s = xs.push(Instr::Prim(p, span));
    let i = xs.len() as int;
    assert forall|a: int, b: int| 0 <= a <= i < b <= s.len() implies #[trigger] invert_fragment(
        s.subrange(a, b),
    ) is None by {
        let f = s.subrange(a, b);
        assert(f.last() == s[i]);
        lemma_fragment_ending_in_uninvertible_fails(f, p, span);
    }
    lemma_uncovered_instruction_fails(s, i);
}

proof fn lemma_no_close(s: Seq<Instr>, i: int, depth: nat)
    requires
        forall|j: int| i <= j < s.len() ==> !(#[trigger] s[j] is EndArray),
    ensures
        array_close(s, i, depth) is None,
    decreases s.len() - i,
{
    if 0 <= i < s.len() {
        lemma_no_close(s, i + 1, depth + 1);
        lemma_no_close(s, i + 1, depth);
    }
}

proof fn lemma_array_scan_fails(s: Seq<Instr>, p: int, len: int)
    requires
        0 <= p < s.len(),
        len < s.len() - p,
        s[p] is BeginArray,
        forall|j: int| p < j < s.len() ==> !(#[trigger] s[j] is EndArray),
    ensures
        value_scan(s, p, len) is None,
    decreases len,
{
    if len <= 0 {
        lemma_no_close(s, p + 1, 1);
    } else {
        let sub = s.subrange(p, p + len);
        assert(sub[0] is BeginArray);
        assert(sig_from(sub, 0, 0, 0) is None);
        assert(spec_signature(sub) is None);
        lemma_array_scan_fails(s, p, len - 1);
    }
}

/// An array literal opened at `p` and never closed is no value: extraction
/// there fails, and so does every rule that starts with a value.
pub proof fn lemma_unterminated_array_is_no_value(s: Seq<Instr>, p: int)
    requires
        0 <= p < s.len(),
        s[p] is BeginArray,
        forall|j: int| p < j < s.len() ==> !(#[trigger] s[j] is EndArray),
    ensures
        value_at(s, p) is None,
{
    lemma_array_scan_fails(s, p, s.len() - p - 1);
}

proof fn lemma_under_seg_shift(s1: Seq<Instr>, s2: Seq<Instr>, start: int, end: int)
    requires
        s1.len() <= start < end <= s1.len() + s2.len(),
    ensures
        under_seg(s1 + s2, start, end) == under_seg(
            s2,
            start - s1.len(),
            end - s1.len(),
        ),
    decreases s1.len() + s2.len() - start, s1.len() + s2.len() - end,
{
    let s = s1 + s2;
    let n1 = s1.len() as int;
    assert(s.subrange(start, end) =~= s2.subrange(start - n1, end - n1));
    if end < s.len() {
        lemma_under_seg_shift(s1, s2, end, end + 1);
        lemma_under_seg_shift(s1, s2, start, end + 1);
    }
}

proof fn lemma_under_seg_prefix(
    s1: Seq<Instr>,
    s2: Seq<Instr>,
    j: int,
    b1: Seq<Instr>,
    a1: Seq<Instr>,
    b2: Seq<Instr>,
    a2: Seq<Instr>,
)
    requires
        1 <= j <= s1.len(),
        s2.len() > 0,
        under_fragment(s1) == Some((b1, a1)),
        forall|k: int| 0 < k < s1.len() ==> #[trigger] under_fragment(s1.subrange(0, k)) is None,
        spec_under(s2) == Some((b2, a2)),
    ensures
        under_seg(s1 + s2, 0, j) == Some((b1 + b2, a2 + a1)),
    decreases s1.len() - j,
{
    let s = s1 + s2;
    assert(s.subrange(0, j) =~= s1.subrange(0, j));
    if j < s1.len() {
        lemma_under_seg_prefix(s1, s2, j + 1, b1, a1, b2, a2);
    } else {
        assert(s1.subrange(0, j) =~= s1);
        lemma_under_seg_shift(s1, s2, j, j + 1);
    }
}

/// Under composes segment by segment: when `s1` is the first fragment that
/// the driver covers and `s2` decomposes on its own, the befores of `s1 + s2`
/// run in order and the afters in reverse order, so the view entered last is
/// restored first.
pub proof fn lemma_under_restores_last_view_first(
    s1: Seq<Instr>,
    s2: Seq<Instr>,
    b1: Seq<Instr>,
    a1: Seq<Instr>,
    b2: Seq<Instr>,
    a2: Seq<Instr>,
)
    requires
        s1.len() > 0,
        s2.len() > 0,
        under_fragment(s1) == Some((b1, a1)),
        forall|k: int| 0 < k < s1.len() ==> #[trigger] under_fragment(s1.subrange(0, k)) is None,
        spec_under(s2) == Some((b2, a2)),
    ensures
        spec_under(s1 + s2) == Some((b1 + b2, a2 + a1)),
{
    lemma_under_seg_prefix(s1, s2, 1, b1, a1, b2, a2);
}

proof fn lemma_push_then_op(n: i64, op: Primitive, back: Primitive, k: int, span: usize)
    requires
        0 <= k < 4,
        (k == 2 && op == Primitive::Add && back == Primitive::Sub) || (k == 3 && op
            == Primitive::Sub && back == Primitive::Add),
    ensures
        spec_invert(seq![Instr::Push(Value::Num(n)), Instr::Prim(op, span)]) == Some(
            seq![Instr::Push(Value::Num(n)), Instr::Prim(back, span)],
        ),
{
    let s = seq![Instr::Push(Value::Num(n)), Instr::Prim(op, span)];
    let v = seq![Instr::Push(Value::Num(n))];
    assert(s.subrange(1, 2) =~= seq![Instr::Prim(op, span)]);
    assert(s.subrange(0, 1) =~= v);
    assert(s.subrange(0, 2) =~= s);
    // The lone operator has no table inverse and no rule, so the window grows.
    assert(invert_fragment(s.subrange(1, 2)) is None);
    // The value at the front is the single push.
    assert(sig_from(v, 1, 0, 1) == Some((0nat, 1nat)));
    assert(spec_signature(v) == Some((0nat, 1nat)));
    assert(value_scan(s, 0, 1) == Some((1int, v)));
    assert(value_at(s, 0) == Some((1int, v)));
    assert(skip_many(s, 1, Primitive::Flip) == 1);
    assert(prims_match(s, 1, seq![op]));
    let spans = spans_at(s, 1, 1);
    assert(spans =~= seq![span]);
    assert(emit_all(value_rule_emits(k), spans) =~= seq![Instr::Prim(back, span)]);
    assert(template_at(s, 1, seq![op], value_rule_emits(k)) == Some(
        (2int, seq![Instr::Prim(back, span)]),
    ));
    assert(v + seq![Instr::Prim(back, span)] =~= seq![
        Instr::Push(Value::Num(n)),
        Instr::Prim(back, span),
    ]);
    assert(value_rule(k, s) is Some);
    assert(rules_from(s, k) == value_rule(k, s));
    if k == 3 {
        assert(invert_rule(2, s) is None);
        assert(rules_from(s, 2) == rules_from(s, 3));
    }
    assert(invert_rule(1, s) is None);
    assert(rules_from(s, 1) == rules_from(s, 2));
    assert(invert_rule(0, s) is None);
    assert(rules_from(s, 0) == rules_from(s, 1));
    assert(invert_fragment(s) == value_rule(k, s));
    assert(invert_seg(s, 0, 2) == invert_fragment(s));
    assert(invert_seg(s, 1, 2) == invert_seg(s, 0, 2));
}

/// Adding a pushed number inverts to subtracting it, and that inverts back
/// to adding it.
pub proof fn lemma_push_add_round_trip(n: i64, span: usize)
    ensures
        spec_invert(seq![Instr::Push(Value::Num(n)), Instr::Prim(Primitive::Add, span)]) == Some(
            seq![Instr::Push(Value::Num(n)), Instr::Prim(Primitive::Sub, span)],
        ),
        spec_invert(seq![Instr::Push(Value::Num(n)), Instr::Prim(Primitive::Sub, span)]) == Some(
            seq![Instr::Push(Value::Num(n)), Instr::Prim(Primitive::Add, span)],
        ),
{
    lemma_push_then_op(n, Primitive::Add, Primitive::Sub, 2, span);
    lemma_push_then_op(n, Primitive::Sub, Primitive::Add, 3, span);
}

} // verus!
