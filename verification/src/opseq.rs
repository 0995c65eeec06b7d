//! The operation type handed to the browser editor: a sequence of retains,
//! deletes and inserts, with composition, transformation, inversion and
//! JSON text.

use operational_transform::OperationSeq;
use vstd::prelude::*;

use crate::ot::{
    apply_ops, op_seq_apply, op_seq_clone, op_seq_compose, op_seq_delete, op_seq_insert,
    op_seq_invert, op_seq_is_noop, op_seq_new, op_seq_ops, op_seq_retain, op_seq_target_len,
    op_seq_base_len, op_seq_transform, op_seq_with_capacity, ops_after_delete, ops_after_insert,
    ops_after_retain, ops_base_len, ops_is_noop, ops_target_len, ot_compose, ot_invert,
    ot_transform, transform_index, transform_index_spec, OpView, counter, ops_fit, lemma_counter_exact, ops_normal,
};
use crate::text::chars_of;

verus! {

/// The JSON text `serde_json` writes for a sequence with these operations.
pub uninterp spec fn ops_json(ops: Seq<OpView>) -> Seq<char>;

/// The operations `serde_json` reads from a JSON text, if it holds a
/// sequence of operations.
pub uninterp spec fn json_ops(text: Seq<char>) -> Option<Seq<OpView>>;

/// Whether `serde_json` can write the sequence: the crate writes a delete
/// of `n` as the number `-(n as i64)`, which overflows (and panics with
/// overflow checks on) for a delete of exactly 2^63.
pub open spec fn ops_writable(ops: Seq<OpView>) -> bool {
    forall|i: int| 0 <= i < ops.len() ==> ops[i] != OpView::Delete(0x8000_0000_0000_0000u64)
}

/// Deletes whose count the writer's `-(n as i64)` keeps.
pub open spec fn deletes_fit_i64(ops: Seq<OpView>) -> bool {
    forall|i: int| 0 <= i < ops.len() ==> (#[trigger] ops[i] matches OpView::Delete(n) ==> n
        <= i64::MAX)
}

/// Calls `serde_json::to_string` on the sequence, which the crate
/// serialises as the list of its operations (retains as non-negative
/// integers, deletes as negative ones, inserts as strings). Writing such a
/// list into a `String` has no error case, so the error arm is never taken.
/// The crate's reader turns each element back into the operation it came
/// from and adds it with `retain`, `delete` or `insert`; on a sequence those
/// builders left (whose deletes the writer keeps), adding its operations in
/// order rebuilds it unchanged.
#[verifier::external_body]
fn op_seq_to_json(seq: &OperationSeq) -> (r: String)
    requires
        ops_writable(op_seq_ops(*seq)),
    ensures
        r@ == ops_json(op_seq_ops(*seq)),
        ops_normal(op_seq_ops(*seq)) && deletes_fit_i64(op_seq_ops(*seq)) ==> json_ops(r@)
            == Some(op_seq_ops(*seq)),
{
    match serde_json::to_string(seq) {
        Ok(text) => text,
        Err(_) => String::new(),
    }
}

/// State of a left-to-right scan of JSON text: inside a string, just after
/// a backslash inside a string, the sum of the digit runs already closed,
/// and the value of the digit run being read.
pub open spec fn scan_step(st: (bool, bool, nat, nat), c: char) -> (bool, bool, nat, nat) {
    let (in_str, escaped, total, run) = st;
    if in_str {
        if escaped {
            (true, false, total, run)
        } else if c == '\\' {
            (true, true, total, run)
        } else if c == '"' {
            (false, false, total, run)
        } else {
            st
        }
    } else if '0' <= c && c <= '9' {
        (false, false, total, run * 10 + (c as int - '0' as int) as nat)
    } else {
        (c == '"', false, total + run, 0)
    }
}

pub open spec fn json_scan(text: Seq<char>) -> (bool, bool, nat, nat)
    decreases text.len(),
{
    if text.len() == 0 {
        (false, false, 0, 0)
    } else {
        scan_step(json_scan(text.drop_last()), text.last())
    }
}

/// The sum of the numbers that the runs of decimal digits outside the
/// strings of `text` spell. Every integer that `serde_json` reads from the
/// text is written as such a run (after a `-` when negative).
pub open spec fn json_digit_sum(text: Seq<char>) -> nat {
    json_scan(text).2 + json_scan(text).3
}

/// Texts the reader of the crate takes in without overflow: the integers
/// it reads fit an `i64` once negated, and the length counters it keeps
/// (sums of those integers and of the characters of the strings) fit a
/// `usize`.
pub open spec fn json_within_limits(text: Seq<char>) -> bool {
    &&& json_digit_sum(text) <= i64::MAX
    &&& json_digit_sum(text) + text.len() <= usize::MAX
}

/// Calls `serde_json::from_str::<OperationSeq>`. The crate's reader adds
/// each element through `retain`, `delete` or `insert`, negating negative
/// numbers; with the text within the limits none of that overflows. The
/// counts it reads are among the digit runs outside the strings, and the
/// inserted characters are among the characters of the text, so the
/// lengths of the sequence stay within those of the text.
#[verifier::external_body]
fn op_seq_from_json(text: &str) -> (r: Option<OperationSeq>)
    requires
        json_within_limits(text@),
    ensures
        r is Some <==> json_ops(text@) is Some,
        r matches Some(o) ==> json_ops(text@) == Some(op_seq_ops(o)),
        r matches Some(o) ==> ops_base_len(op_seq_ops(o)) <= json_digit_sum(text@),
        r matches Some(o) ==> ops_normal(op_seq_ops(o)),
        r matches Some(o) ==> ops_target_len(op_seq_ops(o)) <= json_digit_sum(text@)
            + text@.len(),
{
    serde_json::from_str::<OperationSeq>(text).ok()
}

/// The digit sum never shrinks as the text grows.
proof fn lemma_digit_sum_grows(text: Seq<char>, k: int)
    requires
        0 <= k <= text.len(),
    ensures
        json_digit_sum(text.take(k)) <= json_digit_sum(text),
    decreases text.len() - k,
{
    if k < text.len() {
        lemma_digit_sum_grows(text, k + 1);
        assert(text.take(k + 1).drop_last() =~= text.take(k));
    } else {
        assert(text.take(k) =~= text);
    }
}

/// Whether the text is within the limits of the reader.
pub fn check_json_limits(text: &str) -> (r: bool)
    ensures
        r == json_within_limits(text@),
{
    let cs = chars_of(text);
    let limit: u64 = if (usize::MAX as u64) < (i64::MAX as u64) {
        usize::MAX as u64
    } else {
        i64::MAX as u64
    };
    let mut in_str = false;
    let mut escaped = false;
    let mut total: u64 = 0;
    let mut run: u64 = 0;
    let mut k: usize = 0;
    assert(cs@.take(0) =~= Seq::<char>::empty());
    while k < cs.len()
        invariant
            cs@ == text@,
            k <= cs.len(),
            limit <= usize::MAX,
            limit <= i64::MAX,
            limit == usize::MAX || limit == i64::MAX,
            json_scan(cs@.take(k as int)) == (in_str, escaped, total as nat, run as nat),
            total + run <= limit,
        decreases cs.len() - k,
    {
        let c = cs[k];
        assert(cs@.take(k + 1).drop_last() =~= cs@.take(k as int));
        if in_str {
            if escaped {
                escaped = false;
            } else if c == '\\' {
                escaped = true;
            } else if c == '"' {
                in_str = false;
            }
        } else if '0' <= c && c <= '9' {
            let d: u64 = (c as u32 - '0' as u32) as u64;
            if run > (limit - total) / 10 {
                proof {
                    let q = (limit - total) as int;
                    assert(run * 10 > q) by (nonlinear_arith)
                        requires
                            run > q / 10,
                            q >= 0,
                    ;
                    lemma_digit_sum_grows(cs@, k + 1);
                }
                return false;
            }
            assert(run * 10 <= limit - total) by (nonlinear_arith)
                requires
                    run <= (limit - total) / 10,
                    limit >= total,
            ;
            let next: u64 = run * 10 + d;
            if next > limit - total {
                proof {
                    lemma_digit_sum_grows(cs@, k + 1);
                }
                return false;
            }
            run = next;
        } else {
            total = total + run;
            run = 0;
            in_str = c == '"';
        }
        k = k + 1;
    }
    assert(cs@.take(k as int) =~= cs@);
    let sum: u64 = total + run;
    if sum as u128 + cs.len() as u128 > usize::MAX as u128 {
        false
    } else {
        sum <= i64::MAX as u64
    }
}

/// A sequence of text operations.
#[derive(Debug, PartialEq)]
pub struct OpSeq(pub OperationSeq);

/// The result of transforming two concurrent operations.
#[derive(Debug, PartialEq)]
pub struct OpSeqPair(pub OpSeq, pub OpSeq);

impl OpSeq {
    pub open spec fn view(&self) -> Seq<OpView> {
        op_seq_ops(self.0)
    }

    /// An empty sequence.
    pub fn new() -> (r: OpSeq)
        ensures
            r@ == Seq::<OpView>::empty(),
    {
        OpSeq(op_seq_new())
    }

    /// An empty sequence with room for `capacity` operations.
    pub fn with_capacity(capacity: usize) -> (r: OpSeq)
        ensures
            r@ == Seq::<OpView>::empty(),
    {
        OpSeq(op_seq_with_capacity(capacity))
    }

    /// One sequence that does what `self` and then `other` do: for every
    /// text `S` that `self` applies to,
    /// `apply(apply(S, self), other) == apply(S, compose(self, other))`.
    /// `None` when `other` does not apply to what `self` produces.
    pub fn compose(&self, other: &OpSeq) -> (r: Option<OpSeq>)
        requires
            ops_fit(self@),
            ops_fit(other@),
        ensures
            r is Some <==> ops_target_len(self@) == ops_base_len(other@),
            r matches Some(c) ==> {
                &&& c@ == ot_compose(self@, other@)
                &&& ops_base_len(c@) == ops_base_len(self@)
                &&& ops_target_len(c@) == ops_target_len(other@)
                &&& forall|text: Seq<char>|
                    text.len() == ops_base_len(self@) ==> #[trigger] apply_ops(c@, text)
                        == apply_ops(other@, apply_ops(self@, text))
            },
    {
        match op_seq_compose(&self.0, &other.0) {
            Some(c) => Some(OpSeq(c)),
            None => None,
        }
    }

    /// Deletes `n` characters at the current position.
    pub fn delete(&mut self, n: u32)
        requires
            ops_base_len(old(self)@) + n <= usize::MAX,
        ensures
            final(self)@ == ops_after_delete(old(self)@, n as u64),
    {
        op_seq_delete(&mut self.0, n as u64)
    }

    /// Inserts `s` at the current position.
    pub fn insert(&mut self, s: &str)
        requires
            ops_target_len(old(self)@) + s@.len() <= usize::MAX,
        ensures
            final(self)@ == ops_after_insert(old(self)@, s@),
    {
        op_seq_insert(&mut self.0, s)
    }

    /// Moves the current position `n` characters forwards.
    pub fn retain(&mut self, n: u32)
        requires
            ops_base_len(old(self)@) + n <= usize::MAX,
            ops_target_len(old(self)@) + n <= usize::MAX,
        ensures
            final(self)@ == ops_after_retain(old(self)@, n as u64),
    {
        op_seq_retain(&mut self.0, n as u64)
    }

    /// For concurrent `self` and `other`, the pair `(self', other')` with
    /// `apply(apply(S, self), other') == apply(apply(S, other), self')`;
    /// `None` when the two do not apply to texts of the same length.
    pub fn transform_raw(&self, other: &OpSeq) -> (r: Option<(OpSeq, OpSeq)>)
        requires
            ops_fit(self@),
            ops_fit(other@),
            ops_target_len(self@) + ops_target_len(other@) <= usize::MAX,
        ensures
            r is Some <==> ops_base_len(self@) == ops_base_len(other@),
            r matches Some(p) ==> {
                &&& (p.0@, p.1@) == ot_transform(self@, other@)
                &&& ops_base_len(p.0@) == ops_target_len(other@)
                &&& ops_base_len(p.1@) == ops_target_len(self@)
                &&& forall|text: Seq<char>|
                    text.len() == ops_base_len(self@) ==> #[trigger] apply_ops(
                        p.1@,
                        apply_ops(self@, text),
                    ) == apply_ops(p.0@, apply_ops(other@, text))
            },
    {
        match op_seq_transform(&self.0, &other.0) {
            Some(pair) => Some((OpSeq(pair.0), OpSeq(pair.1))),
            None => None,
        }
    }

    /// `transform_raw`, as a pair.
    pub fn transform(&self, other: &OpSeq) -> (r: Option<OpSeqPair>)
        requires
            ops_fit(self@),
            ops_fit(other@),
            ops_target_len(self@) + ops_target_len(other@) <= usize::MAX,
        ensures
            r is Some <==> ops_base_len(self@) == ops_base_len(other@),
            r matches Some(p) ==> {
                &&& (p.0@, p.1@) == ot_transform(self@, other@)
                &&& ops_base_len(p.0@) == ops_target_len(other@)
                &&& ops_base_len(p.1@) == ops_target_len(self@)
                &&& forall|text: Seq<char>|
                    text.len() == ops_base_len(self@) ==> #[trigger] apply_ops(
                        p.1@,
                        apply_ops(self@, text),
                    ) == apply_ops(p.0@, apply_ops(other@, text))
            },
    {
        match self.transform_raw(other) {
            Some((a, b)) => Some(OpSeqPair(a, b)),
            None => None,
        }
    }

    /// The text after the operations; `None` when `s` does not have
    /// `base_len` characters.
    pub fn apply(&self, s: &str) -> (r: Option<String>)
        requires
            ops_fit(self@),
        ensures
            r is Some <==> s@.len() == ops_base_len(self@),
            r matches Some(out) ==> out@ == apply_ops(self@, s@),
    {
        op_seq_apply(&self.0, s)
    }

    /// The sequence that undoes `self` on the text `s` it was applied to.
    pub fn invert(&self, s: &str) -> (r: OpSeq)
        requires
            ops_fit(self@),
            ops_base_len(self@) <= s@.len(),
        ensures
            r@ == ot_invert(self@, s@),
            s@.len() == ops_base_len(self@) ==> {
                &&& ops_base_len(r@) == ops_target_len(self@)
                &&& apply_ops(r@, apply_ops(self@, s@)) == s@
            },
    {
        OpSeq(op_seq_invert(&self.0, s))
    }

    /// Whether the sequence leaves every text as it is: no operation, or a
    /// lone retain.
    pub fn is_noop(&self) -> (r: bool)
        ensures
            r == ops_is_noop(self@),
    {
        op_seq_is_noop(&self.0)
    }

    /// The length of the texts the sequence applies to, as the crate's
    /// counter holds it: modulo `usize::MAX + 1`, so exact when it fits.
    pub fn base_len(&self) -> (r: usize)
        ensures
            r == counter(ops_base_len(self@)),
            ops_fit(self@) ==> r == ops_base_len(self@),
    {
        proof {
            if ops_fit(self@) {
                lemma_counter_exact(ops_base_len(self@));
            }
        }
        op_seq_base_len(&self.0)
    }

    /// The length of the text the sequence produces, as the crate's counter
    /// holds it (see `base_len`).
    pub fn target_len(&self) -> (r: usize)
        ensures
            r == counter(ops_target_len(self@)),
            ops_fit(self@) ==> r == ops_target_len(self@),
    {
        proof {
            if ops_fit(self@) {
                lemma_counter_exact(ops_target_len(self@));
            }
        }
        op_seq_target_len(&self.0)
    }

    /// Where a position of the text lands after the operations.
    pub fn transform_index(&self, position: u32) -> (r: u32)
        ensures
            r == transform_index_spec(self@, position),
    {
        transform_index(&self.0, position)
    }

    /// The sequence written as JSON text; `None` when the text does not hold
    /// a sequence of operations, or when its numbers are too large for the
    /// reader's counters (see `json_within_limits`).
    pub fn from_str(s: &str) -> (r: Option<OpSeq>)
        ensures
            r is Some <==> (json_within_limits(s@) && json_ops(s@) is Some),
            r matches Some(o) ==> json_ops(s@) == Some(o@),
            r matches Some(o) ==> ops_fit(o@),
            r matches Some(o) ==> ops_normal(o@),
    {
        if !check_json_limits(s) {
            return None;
        }
        match op_seq_from_json(s) {
            Some(o) => Some(OpSeq(o)),
            None => None,
        }
    }

    /// The sequence as JSON text. A sequence as the builders leave it (see
    /// `builders_keep_sequences_normal`) reads back from it unchanged.
    pub fn to_string(&self) -> (r: String)
        requires
            ops_writable(self@),
        ensures
            r@ == ops_json(self@),
            ops_normal(self@) && deletes_fit_i64(self@) ==> json_ops(r@) == Some(self@),
    {
        op_seq_to_json(&self.0)
    }
}

impl Clone for OpSeq {
    fn clone(&self) -> (r: OpSeq)
        ensures
            r@ == self@,
    {
        OpSeq(op_seq_clone(&self.0))
    }
}

impl Default for OpSeq {
    fn default() -> (r: OpSeq)
        ensures
            r@ == Seq::<OpView>::empty(),
    {
        OpSeq::new()
    }
}

impl OpSeqPair {
    /// The first sequence: the first operation of the transform, to apply
    /// after the second.
    pub fn first(&self) -> (r: OpSeq)
        ensures
            r@ == self.0@,
    {
        self.0.clone()
    }

    /// The second sequence: the second operation of the transform, to apply
    /// after the first.
    pub fn second(&self) -> (r: OpSeq)
        ensures
            r@ == self.1@,
    {
        self.1.clone()
    }
}

} // verus!
