//! Cursor patterns over an instruction slice: value extraction, fixed
//! primitive templates and greedy skipping. A cursor is a position into an
//! immutable slice; a pattern that matches yields the position after what it
//! consumed.
use vstd::prelude::*;
use crate::instr::{Emit, Instr, Primitive, emit_instr, spec_args, spec_outputs};
use crate::signature::{instrs_signature, is_value_run};

verus! {

/// An optional match result: where the cursor ends and what was emitted.
pub open spec fn match_view(r: Option<(usize, Vec<Instr>)>) -> Option<(int, Seq<Instr>)> {
    match r {
        Some((q, v)) => Some((q as int, v@)),
        None => None,
    }
}

/// An optional under-match result: the cursor and the before/after pair.
pub open spec fn under_match_view(r: Option<(usize, Vec<Instr>, Vec<Instr>)>) -> Option<
    (int, Seq<Instr>, Seq<Instr>),
> {
    match r {
        Some((q, b, a)) => Some((q as int, b@, a@)),
        None => None,
    }
}

/// The position of the `EndArray` that closes a literal opened before `i`,
/// with `depth` literals still open.
pub open spec fn array_close(s: Seq<Instr>, i: int, depth: nat) -> Option<int>
    decreases s.len() - i,
{
    if i < 0 || i >= s.len() {
        None
    } else {
        match s[i] {
            Instr::EndArray => if depth <= 1 {
                Some(i)
            } else {
                array_close(s, i + 1, (depth - 1) as nat)
            },
            Instr::BeginArray => array_close(s, i + 1, depth + 1),
            _ => array_close(s, i + 1, depth),
        }
    }
}

/// A single-instruction value at `p`: a push, a primitive that takes and
/// leaves nothing, or a whole bracketed array literal.
pub open spec fn value_single(s: Seq<Instr>, p: int) -> Option<(int, Seq<Instr>)> {
    if p < 0 || p >= s.len() {
        None
    } else {
        match s[p] {
            Instr::Push(_) => Some((p + 1, seq![s[p]])),
            Instr::Prim(q, _) => if spec_args(q) == Some(0nat) && spec_outputs(q) == Some(0nat) {
                Some((p + 1, seq![s[p]]))
            } else {
                None
            },
            Instr::BeginArray => match array_close(s, p + 1, 1) {
                Some(j) => Some((j + 1, s.subrange(p, j + 1))),
                None => None,
            },
            _ => None,
        }
    }
}

/// The longest value run at `p` of length at most `len`, else a single value.
pub open spec fn value_scan(s: Seq<Instr>, p: int, len: int) -> Option<(int, Seq<Instr>)>
    decreases len,
{
    if len <= 0 {
        value_single(s, p)
    } else if is_value_run(s.subrange(p, p + len)) {
        Some((p + len, s.subrange(p, p + len)))
    } else {
        value_scan(s, p, len - 1)
    }
}

/// The value extracted at `p`: none at an empty cursor; otherwise the
/// longest proper prefix of `s[p..]` that is a value run, falling back to a
/// single value.
pub open spec fn value_at(s: Seq<Instr>, p: int) -> Option<(int, Seq<Instr>)> {
    if p >= s.len() {
        None
    } else {
        value_scan(s, p, s.len() - p - 1)
    }
}

/// The position after greedily skipping instructions that are `prim`.
pub open spec fn skip_many(s: Seq<Instr>, p: int, prim: Primitive) -> int
    decreases s.len() - p,
{
    if 0 <= p < s.len() && (s[p] matches Instr::Prim(q, _) && q == prim) {
        skip_many(s, p + 1, prim)
    } else {
        p
    }
}

/// `s[p..]` starts with exactly the primitives `prims`.
pub open spec fn prims_match(s: Seq<Instr>, p: int, prims: Seq<Primitive>) -> bool {
    0 <= p && p + prims.len() <= s.len() && forall|i: int|
        0 <= i < prims.len() ==> (#[trigger] s[p + i] matches Instr::Prim(q, _) && q == prims[i])
}

pub open spec fn span_of(i: Instr) -> usize {
    match i {
        Instr::Prim(_, span) => span,
        _ => 0,
    }
}

/// The spans of the `n` instructions at `p`.
pub open spec fn spans_at(s: Seq<Instr>, p: int, n: nat) -> Seq<usize> {
    Seq::new(n, |i: int| span_of(s[p + i]))
}

/// A template emitted with spans taken cyclically from `spans`; nothing
/// without spans to take.
pub open spec fn emit_all(emits: Seq<Emit>, spans: Seq<usize>) -> Seq<Instr> {
    if spans.len() == 0 {
        Seq::empty()
    } else {
        Seq::new(emits.len(), |j: int| emit_instr(emits[j], spans[j % (spans.len() as int)]))
    }
}

/// The fixed-arity template `prims -> emits` at `p`.
pub open spec fn template_at(s: Seq<Instr>, p: int, prims: Seq<Primitive>, emits: Seq<Emit>) -> Option<
    (int, Seq<Instr>),
> {
    if prims_match(s, p, prims) {
        Some((p + prims.len(), emit_all(emits, spans_at(s, p, prims.len()))))
    } else {
        None
    }
}

/// The concatenation of `a` and `b`.
pub fn concat(a: Vec<Instr>, b: Vec<Instr>) -> (r: Vec<Instr>)
    ensures
        r@ == a@ + b@,
{
    let mut a = a;
    let mut b = b;
    a.append(&mut b);
    a
}

/// The copy of `s[lo..hi]`.
pub fn copy_range(s: &[Instr], lo: usize, hi: usize) -> (r: Vec<Instr>)
    requires
        lo <= hi <= s@.len(),
    ensures
        r@ == s@.subrange(lo as int, hi as int),
{
    let mut r: Vec<Instr> = Vec::new();
    let mut i: usize = lo;
    while i < hi
        invariant
            lo <= i <= hi <= s@.len(),
            r@ == s@.subrange(lo as int, i as int),
        decreases hi - i,
    {
        r.push(s[i]);
        i = i + 1;
        assert(r@ =~= s@.subrange(lo as int, i as int));
    }
    r
}

/// The closing bracket of an array literal whose opening stands before `i`.
fn find_array_close(s: &[Instr], i: usize) -> (r: Option<usize>)
    requires
        1 <= i <= s@.len(),
    ensures
        r matches Some(j) ==> array_close(s@, i as int, 1) == Some(j as int),
        r is None ==> array_close(s@, i as int, 1) is None,
{
    let n = s.len();
    let mut depth: usize = 1;
    let mut k: usize = i;
    while k < n
        invariant
            n == s@.len(),
            1 <= i <= k <= s@.len(),
            1 <= depth <= k - i + 1,
            array_close(s@, i as int, 1) == array_close(s@, k as int, depth as nat),
        decreases s@.len() - k,
    {
        match s[k] {
            Instr::EndArray => {
                if depth == 1 {
                    return Some(k);
                }
                depth = depth - 1;
            },
            Instr::BeginArray => {
                depth = depth + 1;
            },
            _ => {},
        }
        k = k + 1;
    }
    None
}

/// Extracts the value at `p` (see [`value_at`]).
pub fn extract_value(s: &[Instr], p: usize) -> (r: Option<(usize, Vec<Instr>)>)
    requires
        p <= s@.len(),
    ensures
        match_view(r) == value_at(s@, p as int),
        r matches Some((q, _)) ==> p <= q <= s@.len(),
{
    if p == s.len() {
        return None;
    }
    let n = s.len();
    let mut len: usize = n - p - 1;
    while len > 0
        invariant
            n == s@.len(),
            p < s@.len(),
            len <= s@.len() - p - 1,
            value_at(s@, p as int) == value_scan(s@, p as int, len as int),
        decreases len,
    {
        let chunk = vstd::slice::slice_subrange(s, p, p + len);
        if let Some(sig) = instrs_signature(chunk) {
            if sig.args == 0 && sig.outputs == 1 {
                return Some((p + len, copy_range(s, p, p + len)));
            }
        }
        len = len - 1;
    }
    match s[p] {
        Instr::Push(_) => Some((p + 1, vec![s[p]])),
        Instr::Prim(q, _) => {
            if q.args() == Some(0usize) && q.outputs() == Some(0usize) {
                Some((p + 1, vec![s[p]]))
            } else {
                None
            }
        },
        Instr::BeginArray => {
            match find_array_close(s, p + 1) {
                Some(j) => {
                    proof {
                        lemma_array_close_bounds(s@, (p + 1) as int, 1);
                    }
                    Some((j + 1, copy_range(s, p, j + 1)))
                },
                None => None,
            }
        },
        _ => None,
    }
}

proof fn lemma_array_close_bounds(s: Seq<Instr>, i: int, depth: nat)
    ensures
        array_close(s, i, depth) matches Some(j) ==> i <= j < s.len(),
    decreases s.len() - i,
{
    if 0 <= i < s.len() {
        lemma_array_close_bounds(s, i + 1, (depth - 1) as nat);
        lemma_array_close_bounds(s, i + 1, depth + 1);
        lemma_array_close_bounds(s, i + 1, depth);
    }
}

/// Skips every instruction at `p` onward that is `prim`.
pub fn skip_prims(s: &[Instr], p: usize, prim: Primitive) -> (r: usize)
    requires
        p <= s@.len(),
    ensures
        r as int == skip_many(s@, p as int, prim),
        p <= r <= s@.len(),
{
    let mut k: usize = p;
    while k < s.len()
        invariant
            p <= k <= s@.len(),
            skip_many(s@, p as int, prim) == skip_many(s@, k as int, prim),
        decreases s@.len() - k,
    {
        match s[k] {
            Instr::Prim(q, _) => {
                if q != prim {
                    return k;
                }
            },
            _ => {
                return k;
            },
        }
        k = k + 1;
    }
    k
}

/// The spans of the instructions at `p` if they are exactly `prims`.
fn match_prims(s: &[Instr], p: usize, prims: &[Primitive]) -> (r: Option<Vec<usize>>)
    requires
        p <= s@.len(),
    ensures
        r is Some <==> prims_match(s@, p as int, prims@),
        r matches Some(spans) ==> spans@ == spans_at(s@, p as int, prims@.len()),
        r is Some ==> p + prims@.len() <= usize::MAX,
{
    let n = s.len();
    if prims.len() > n - p {
        return None;
    }
    let mut spans: Vec<usize> = Vec::new();
    let mut i: usize = 0;
    while i < prims.len()
        invariant
            n == s@.len(),
            p + prims@.len() <= s@.len(),
            i <= prims@.len(),
            spans@ == spans_at(s@, p as int, i as nat),
            forall|k: int|
                0 <= k < i ==> (#[trigger] s@[p + k] matches Instr::Prim(q, _) && q
                    == prims@[k]),
        decreases prims@.len() - i,
    {
        match s[p + i] {
            Instr::Prim(q, span) => {
                if q != prims[i] {
                    return None;
                }
                spans.push(span);
            },
            _ => {
                return None;
            },
        }
        i = i + 1;
        assert(spans@ =~= spans_at(s@, p as int, i as nat));
    }
    Some(spans)
}

/// Emits `emits`, taking spans cyclically from `spans`.
pub fn emit_template(emits: &[Emit], spans: &[usize]) -> (r: Vec<Instr>)
    ensures
        r@ == emit_all(emits@, spans@),
{
    if spans.len() == 0 {
        return Vec::new();
    }
    let mut r: Vec<Instr> = Vec::new();
    let mut j: usize = 0;
    while j < emits.len()
        invariant
            spans@.len() > 0,
            j <= emits@.len(),
            r@ =~= emit_all(emits@, spans@).subrange(0, j as int),
        decreases emits@.len() - j,
    {
        r.push(emits[j].to_instr(spans[j % spans.len()]));
        j = j + 1;
        assert(r@ =~= emit_all(emits@, spans@).subrange(0, j as int));
    }
    r
}

/// Applies the template `prims -> emits` at `p` (see [`template_at`]).
pub fn apply_template(s: &[Instr], p: usize, prims: &[Primitive], emits: &[Emit]) -> (r: Option<(usize, Vec<Instr>)>)
    requires
        p <= s@.len(),
    ensures
        match_view(r) == template_at(s@, p as int, prims@, emits@),
{
    match match_prims(s, p, prims) {
        Some(spans) => Some((p + prims.len(), emit_template(emits, spans.as_slice()))),
        None => None,
    }
}

/// Applies the under template `prims -> (before, after)` at `p`.
pub fn apply_under_template(
    s: &[Instr],
    p: usize,
    prims: &[Primitive],
    before: &[Emit],
    after: &[Emit],
) -> (r: Option<(usize, Vec<Instr>, Vec<Instr>)>)
    requires
        p <= s@.len(),
    ensures
        under_match_view(r) == (if prims_match(s@, p as int, prims@) {
            let spans = spans_at(s@, p as int, prims@.len());
            Some((p + prims@.len(), emit_all(before@, spans), emit_all(after@, spans)))
        } else {
            None
        }),
{
    match match_prims(s, p, prims) {
        Some(spans) => Some(
            (
                p + prims.len(),
                emit_template(before, spans.as_slice()),
                emit_template(after, spans.as_slice()),
            ),
        ),
        None => None,
    }
}

} // verus!
