use stack_invert::cache::RewriteCache;
use stack_invert::function::{Function, FunctionKind};
use stack_invert::instr::{Emit, Instr, Primitive, Value};
use stack_invert::invert::{invert_instr_fragment, invert_instrs};
use stack_invert::pattern::{apply_template, apply_under_template, extract_value, skip_prims};
use stack_invert::signature::{instrs_signature, Signature};
use stack_invert::under::{under_instr_fragment, under_instrs};

fn prim(p: Primitive, span: usize) -> Instr {
    Instr::Prim(p, span)
}

fn num(n: i64) -> Instr {
    Instr::Push(Value::Num(n))
}

#[test]
fn empty_input_inverts_and_unders_to_empty() {
    assert_eq!(invert_instrs(&[]), Some(vec![]));
    assert_eq!(under_instrs(&[]), Some((vec![], vec![])));
}

#[test]
fn invert_mul_gives_div() {
    assert_eq!(invert_instrs(&[prim(Primitive::Mul, 5)]), Some(vec![prim(Primitive::Div, 5)]));
}

#[test]
fn invert_div_gives_mul() {
    assert_eq!(invert_instrs(&[prim(Primitive::Div, 1)]), Some(vec![prim(Primitive::Mul, 1)]));
}

#[test]
fn invert_sqrt_gives_push_two_pow() {
    assert_eq!(
        invert_instrs(&[prim(Primitive::Sqrt, 3)]),
        Some(vec![num(2), prim(Primitive::Pow, 3)])
    );
}

#[test]
fn invert_push_add_gives_push_sub() {
    assert_eq!(
        invert_instrs(&[num(3), prim(Primitive::Add, 0)]),
        Some(vec![num(3), prim(Primitive::Sub, 0)])
    );
}

#[test]
fn invert_push_sub_gives_push_add() {
    assert_eq!(
        invert_instrs(&[num(4), prim(Primitive::Sub, 2)]),
        Some(vec![num(4), prim(Primitive::Add, 2)])
    );
}

#[test]
fn invert_push_pow_gives_reciprocal_power() {
    assert_eq!(
        invert_instrs(&[num(2), prim(Primitive::Pow, 0)]),
        Some(vec![num(1), num(2), prim(Primitive::Div, 0), prim(Primitive::Pow, 0)])
    );
}

#[test]
fn invert_pow_keeps_whole_value_run() {
    let instrs = [num(2), num(3), prim(Primitive::Add, 1), prim(Primitive::Pow, 2)];
    assert_eq!(
        invert_instrs(&instrs),
        Some(vec![
            num(1),
            num(2),
            num(3),
            prim(Primitive::Add, 1),
            prim(Primitive::Div, 2),
            prim(Primitive::Pow, 2),
        ])
    );
}

#[test]
fn invert_log_swaps_back_to_power() {
    assert_eq!(
        invert_instrs(&[num(10), prim(Primitive::Log, 6)]),
        Some(vec![num(10), prim(Primitive::Flip, 6), prim(Primitive::Pow, 6)])
    );
}

#[test]
fn invert_repeat_negates_count() {
    let f = Instr::Push(Value::Func(Primitive::Neg, 7));
    assert_eq!(
        invert_instrs(&[num(3), f, prim(Primitive::Repeat, 4)]),
        Some(vec![num(3), prim(Primitive::Neg, 4), f, prim(Primitive::Repeat, 4)])
    );
}

#[test]
fn invert_rotate_negates_amount() {
    assert_eq!(
        invert_instrs(&[num(1), prim(Primitive::Rotate, 3)]),
        Some(vec![num(1), prim(Primitive::Neg, 3), prim(Primitive::Rotate, 3)])
    );
}

#[test]
fn invert_add_skips_flips() {
    assert_eq!(
        invert_instrs(&[num(2), prim(Primitive::Flip, 1), prim(Primitive::Add, 8)]),
        Some(vec![num(2), prim(Primitive::Sub, 8)])
    );
}

#[test]
fn invert_value_then_invert_gives_call() {
    assert_eq!(
        invert_instr_fragment(&[num(5), prim(Primitive::Invert, 2)]),
        Some(vec![num(5), prim(Primitive::Call, 2)])
    );
}

#[test]
fn invert_function_value_uses_table() {
    let f = Instr::Push(Value::Func(Primitive::Call, 2));
    assert_eq!(invert_instrs(&[f]), Some(vec![prim(Primitive::Invert, 2)]));
    let g = Instr::Push(Value::Func(Primitive::Pow, 2));
    assert_eq!(invert_instrs(&[g]), None);
}

#[test]
fn invert_sequence_keeps_segment_order() {
    assert_eq!(
        invert_instrs(&[num(3), prim(Primitive::Add, 0), prim(Primitive::Neg, 1)]),
        Some(vec![num(3), prim(Primitive::Sub, 0), prim(Primitive::Neg, 1)])
    );
}

#[test]
fn invert_fails_on_uninvertible_primitive() {
    assert_eq!(invert_instrs(&[prim(Primitive::Dup, 0)]), None);
    assert_eq!(invert_instrs(&[num(3), prim(Primitive::Add, 0), prim(Primitive::Dup, 1)]), None);
    assert_eq!(invert_instrs(&[prim(Primitive::Dup, 1), prim(Primitive::Neg, 0)]), None);
}

#[test]
fn invert_fails_on_lone_add() {
    assert_eq!(invert_instrs(&[prim(Primitive::Add, 0)]), None);
}

#[test]
fn unterminated_array_fails_without_panic() {
    let instrs = [Instr::BeginArray, num(2), prim(Primitive::Pow, 0)];
    assert_eq!(extract_value(&instrs[..1], 0), None);
    assert_eq!(extract_value(&[Instr::BeginArray, Instr::BeginArray, num(1), Instr::EndArray], 0), None);
    assert_eq!(invert_instrs(&instrs), None);
    assert_eq!(under_instrs(&instrs), None);
}

#[test]
fn terminated_array_is_one_value() {
    let instrs = [Instr::BeginArray, num(2), Instr::EndArray, prim(Primitive::Pow, 4)];
    assert_eq!(
        invert_instrs(&instrs),
        Some(vec![
            num(1),
            Instr::BeginArray,
            num(2),
            Instr::EndArray,
            prim(Primitive::Div, 4),
            prim(Primitive::Pow, 4),
        ])
    );
    let nested = [Instr::BeginArray, Instr::BeginArray, Instr::EndArray, Instr::EndArray, num(9)];
    assert_eq!(extract_value(&nested, 0), Some((4, nested[..4].to_vec())));
}

#[test]
fn extract_value_prefers_longest_run() {
    let instrs = [num(1), num(2), prim(Primitive::Mul, 0), prim(Primitive::Neg, 0), num(7)];
    assert_eq!(extract_value(&instrs, 0), Some((4, instrs[..4].to_vec())));
    assert_eq!(extract_value(&instrs, 5), None);
    assert_eq!(extract_value(&[], 0), None);
    assert_eq!(extract_value(&[prim(Primitive::Noop, 3)], 0), Some((1, vec![prim(Primitive::Noop, 3)])));
    assert_eq!(extract_value(&[prim(Primitive::Neg, 3)], 0), None);
}

#[test]
fn skip_prims_stops_at_other() {
    let instrs = [prim(Primitive::Flip, 0), prim(Primitive::Flip, 1), num(1)];
    assert_eq!(skip_prims(&instrs, 0, Primitive::Flip), 2);
    assert_eq!(skip_prims(&instrs, 2, Primitive::Flip), 2);
}

#[test]
fn signature_of_runs() {
    assert_eq!(
        instrs_signature(&[num(1), num(2), prim(Primitive::Add, 0)]),
        Some(Signature { args: 0, outputs: 1 })
    );
    assert_eq!(instrs_signature(&[prim(Primitive::Add, 0)]), Some(Signature { args: 2, outputs: 1 }));
    assert_eq!(instrs_signature(&[num(1), prim(Primitive::Over, 0)]), Some(Signature { args: 1, outputs: 3 }));
    assert_eq!(instrs_signature(&[Instr::BeginArray]), None);
    assert_eq!(instrs_signature(&[prim(Primitive::Call, 0)]), None);
}

#[test]
fn under_take_then_select_restores_select_first() {
    let instrs = [num(2), prim(Primitive::Take, 1), num(0), prim(Primitive::Select, 2)];
    let (before, after) = under_instrs(&instrs).unwrap();
    assert_eq!(
        before,
        vec![
            num(2),
            prim(Primitive::Over, 1),
            prim(Primitive::Over, 1),
            prim(Primitive::Take, 1),
            num(0),
            prim(Primitive::Over, 2),
            prim(Primitive::Over, 2),
            prim(Primitive::Select, 2),
        ]
    );
    assert_eq!(after, vec![prim(Primitive::Unselect, 2), prim(Primitive::Untake, 1)]);
}

#[test]
fn under_invertible_fragment_is_itself() {
    let instrs = [num(3), prim(Primitive::Add, 0)];
    assert_eq!(
        under_instrs(&instrs),
        Some((instrs.to_vec(), vec![num(3), prim(Primitive::Sub, 0)]))
    );
}

#[test]
fn under_bare_view_idioms() {
    assert_eq!(
        under_instr_fragment(&[prim(Primitive::Drop, 1)]),
        Some((
            vec![prim(Primitive::Over, 1), prim(Primitive::Over, 1), prim(Primitive::Drop, 1)],
            vec![prim(Primitive::Undrop, 1)]
        ))
    );
    assert_eq!(
        under_instr_fragment(&[prim(Primitive::Rotate, 2)]),
        Some((
            vec![prim(Primitive::Flip, 2), prim(Primitive::Over, 2), prim(Primitive::Rotate, 2)],
            vec![prim(Primitive::Flip, 2), prim(Primitive::Neg, 2), prim(Primitive::Rotate, 2)]
        ))
    );
    assert_eq!(
        under_instrs(&[num(1), prim(Primitive::Pick, 3)]),
        Some((
            vec![num(1), prim(Primitive::Over, 3), prim(Primitive::Over, 3), prim(Primitive::Pick, 3)],
            vec![prim(Primitive::Unpick, 3)]
        ))
    );
}

#[test]
fn under_first_and_last() {
    assert_eq!(
        under_instrs(&[prim(Primitive::First, 4)]),
        Some((
            vec![prim(Primitive::Dup, 4), prim(Primitive::First, 4)],
            vec![
                prim(Primitive::Flip, 4),
                num(1),
                prim(Primitive::Drop, 4),
                prim(Primitive::Flip, 4),
                prim(Primitive::Join, 4),
            ]
        ))
    );
    assert_eq!(
        under_instrs(&[prim(Primitive::Last, 5)]),
        Some((
            vec![prim(Primitive::Dup, 5), prim(Primitive::Last, 5)],
            vec![prim(Primitive::Flip, 5), num(-1), prim(Primitive::Drop, 5), prim(Primitive::Join, 5)]
        ))
    );
}

#[test]
fn under_fails_without_idiom() {
    assert_eq!(under_instrs(&[prim(Primitive::Dup, 0)]), None);
    assert_eq!(under_instrs(&[prim(Primitive::First, 0), prim(Primitive::Pop, 1)]), None);
}

#[test]
fn cache_second_call_is_a_hit() {
    let mut cache = RewriteCache::new();
    let a = vec![num(2), prim(Primitive::Pow, 0)];
    let b = vec![num(2), prim(Primitive::Pow, 0)];
    assert!(!cache.contains_inverse(&a));
    let first = cache.invert(&a);
    assert!(cache.contains_inverse(&b));
    let second = cache.invert(&b);
    assert_eq!(first, second);
    assert_eq!(first, invert_instrs(&a));

    let failing = vec![prim(Primitive::Dup, 0)];
    assert_eq!(cache.invert(&failing), None);
    assert!(cache.contains_inverse(&failing));
    assert_eq!(cache.invert(&failing), None);

    let view = vec![num(1), prim(Primitive::Take, 0)];
    assert!(!cache.contains_under(&view));
    let u1 = cache.under(&view);
    assert!(cache.contains_under(&view));
    assert_eq!(u1, cache.under(&view.clone()));
    assert_eq!(u1, under_instrs(&view));
}

#[test]
fn function_inverse_and_under() {
    let f = Function::new(7, vec![num(3), prim(Primitive::Add, 0)], FunctionKind::Normal);
    let inv = f.inverse().unwrap();
    assert_eq!(inv.id, 7);
    assert_eq!(inv.kind, FunctionKind::Normal);
    assert_eq!(inv.instrs, vec![num(3), prim(Primitive::Sub, 0)]);
    let (same, back) = f.under().unwrap();
    assert_eq!(same.instrs, vec![num(3), prim(Primitive::Add, 0)]);
    assert_eq!(back.instrs, vec![num(3), prim(Primitive::Sub, 0)]);

    let builtin = Function::new(1, vec![prim(Primitive::Neg, 0)], FunctionKind::Primitive(Primitive::Neg));
    assert!(builtin.inverse().is_none());

    let g = Function::new(9, vec![num(2), prim(Primitive::Take, 0)], FunctionKind::Normal);
    assert!(g.inverse().is_none());
    let (before, after) = g.under().unwrap();
    assert_eq!(before.id, 9);
    assert_eq!(after.kind, FunctionKind::Normal);
    assert_eq!(after.instrs, vec![prim(Primitive::Untake, 0)]);

    let h = Function::new(2, vec![prim(Primitive::Dup, 0)], FunctionKind::Normal);
    assert!(h.under().is_none());
}

#[test]
fn emit_and_table_accessors() {
    assert_eq!(Emit::Num(4).to_instr(9), num(4));
    assert_eq!(Emit::Op(Primitive::Add).to_instr(9), prim(Primitive::Add, 9));
    assert_eq!(Primitive::Mul.inverse(), Some(Primitive::Div));
    assert_eq!(Primitive::Add.inverse(), None);
    assert_eq!(Primitive::Over.args(), Some(2));
    assert_eq!(Primitive::Over.outputs(), Some(3));
    assert_eq!(Primitive::Repeat.args(), None);
    assert_eq!(Value::Func(Primitive::Neg, 3).as_primitive(), Some((Primitive::Neg, 3)));
    assert_eq!(Value::Num(3).as_primitive(), None);
}

#[test]
fn double_inversion_restores_push_add() {
    let instrs = vec![num(3), prim(Primitive::Add, 2)];
    let once = invert_instrs(&instrs).unwrap();
    assert_eq!(invert_instrs(&once), Some(instrs));
}

#[test]
fn double_inversion_restores_single_primitives() {
    for p in [Primitive::Mul, Primitive::Div, Primitive::Neg, Primitive::Flip, Primitive::Call] {
        let instrs = vec![prim(p, 4)];
        let once = invert_instrs(&instrs).unwrap();
        assert_eq!(once.len(), 1);
        assert_eq!(invert_instrs(&once), Some(instrs));
    }
}

#[test]
fn template_spans_cycle_over_matched() {
    let instrs = [num(0), prim(Primitive::Flip, 1), prim(Primitive::Add, 2)];
    let emits = [Emit::Op(Primitive::Sub), Emit::Num(5), Emit::Op(Primitive::Neg), Emit::Op(Primitive::Pop)];
    assert_eq!(
        apply_template(&instrs, 1, &[Primitive::Flip, Primitive::Add], &emits),
        Some((3, vec![prim(Primitive::Sub, 1), num(5), prim(Primitive::Neg, 1), prim(Primitive::Pop, 2)]))
    );
    assert_eq!(apply_template(&instrs, 0, &[Primitive::Flip], &emits), None);
    assert_eq!(apply_template(&instrs, 2, &[Primitive::Add, Primitive::Add], &emits), None);
    assert_eq!(apply_template(&instrs, 1, &[], &emits), Some((1, vec![])));
    assert_eq!(
        apply_under_template(&instrs, 2, &[Primitive::Add], &[Emit::Op(Primitive::Dup)], &[Emit::Num(2)]),
        Some((3, vec![prim(Primitive::Dup, 2)], vec![num(2)]))
    );
}

#[test]
fn trailing_uninvertible_primitive_fails() {
    for p in [Primitive::Dup, Primitive::Over, Primitive::Pop, Primitive::Take, Primitive::First] {
        assert_eq!(invert_instr_fragment(&[num(1), prim(p, 0)]), None);
        assert_eq!(invert_instrs(&[num(2), prim(Primitive::Mul, 1), num(1), prim(p, 0)]), None);
    }
}

#[test]
fn function_entry_points_use_cache() {
    let mut cache = RewriteCache::new();
    let f = Function::new(3, vec![num(2), prim(Primitive::Pow, 1)], FunctionKind::Normal);
    let inv = f.inverse_cached(&mut cache).unwrap();
    assert!(cache.contains_inverse(&f.instrs));
    assert_eq!(inv.id, 3);
    assert_eq!(inv.instrs, vec![num(1), num(2), prim(Primitive::Div, 1), prim(Primitive::Pow, 1)]);
    assert_eq!(f.inverse_cached(&mut cache).unwrap().instrs, inv.instrs);

    let builtin = Function::new(4, vec![prim(Primitive::Neg, 0)], FunctionKind::Primitive(Primitive::Neg));
    assert!(builtin.inverse_cached(&mut cache).is_none());

    let g = Function::new(5, vec![num(0), prim(Primitive::Select, 2)], FunctionKind::Normal);
    let body = g.instrs.clone();
    let (before, after) = g.under_cached(&mut cache).unwrap();
    assert!(cache.contains_under(&body));
    assert_eq!(
        before.instrs,
        vec![num(0), prim(Primitive::Over, 2), prim(Primitive::Over, 2), prim(Primitive::Select, 2)]
    );
    assert_eq!(after.instrs, vec![prim(Primitive::Unselect, 2)]);

    let h = Function::new(6, vec![num(3), prim(Primitive::Sub, 0)], FunctionKind::Normal);
    let (same, back) = h.under_cached(&mut cache).unwrap();
    assert_eq!(same.instrs, vec![num(3), prim(Primitive::Sub, 0)]);
    assert_eq!(back.instrs, vec![num(3), prim(Primitive::Add, 0)]);
}

#[test]
fn double_inversion_restores_table_sequence() {
    let instrs = vec![prim(Primitive::Mul, 0), prim(Primitive::Neg, 1), prim(Primitive::Call, 2), prim(Primitive::Div, 3)];
    let once = invert_instrs(&instrs).unwrap();
    assert_eq!(
        once,
        vec![prim(Primitive::Div, 0), prim(Primitive::Neg, 1), prim(Primitive::Invert, 2), prim(Primitive::Mul, 3)]
    );
    assert_eq!(invert_instrs(&once), Some(instrs));
}
