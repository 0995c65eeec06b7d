//! Operation sequences of the `operational_transform` crate, the text
//! model they act on, and the position mapping used for remote cursors.

use operational_transform::{Operation, OperationSeq};
use vstd::prelude::*;

verus! {

#[verifier::external_type_specification]
#[verifier::external_body]
pub struct ExOperationSeq(OperationSeq);

/// One operation of a sequence, as plain values.
pub enum OpView {
    Retain(u64),
    Delete(u64),
    Insert(Seq<char>),
}

/// One operation of a sequence, as an executable value.
#[derive(Debug, Clone, PartialEq, Eq)]
pub enum OpItem {
    Retain(u64),
    Delete(u64),
    Insert(String),
}

impl OpItem {
    pub open spec fn view(self) -> OpView {
        match self {
            OpItem::Retain(n) => OpView::Retain(n),
            OpItem::Delete(n) => OpView::Delete(n),
            OpItem::Insert(s) => OpView::Insert(s@),
        }
    }
}

pub open spec fn items_view(items: Seq<OpItem>) -> Seq<OpView> {
    items.map_values(|it: OpItem| it.view())
}

/// The operations that an `OperationSeq` holds, in order.
pub uninterp spec fn op_seq_ops(seq: OperationSeq) -> Seq<OpView>;

/// The operations `compose` produces from two sequences whose lengths fit.
pub uninterp spec fn ot_compose(a: Seq<OpView>, b: Seq<OpView>) -> Seq<OpView>;

/// The pair of operations `transform` produces from two concurrent
/// sequences of the same base length.
pub uninterp spec fn ot_transform(a: Seq<OpView>, b: Seq<OpView>) -> (Seq<OpView>, Seq<OpView>);

/// The operations `invert` produces for a sequence and the text it applies to.
pub uninterp spec fn ot_invert(ops: Seq<OpView>, text: Seq<char>) -> Seq<OpView>;

/// Number of characters a sequence consumes: its retains and deletes.
pub open spec fn ops_base_len(ops: Seq<OpView>) -> nat
    decreases ops.len(),
{
    if ops.len() == 0 {
        0
    } else {
        let rest = ops_base_len(ops.drop_first());
        match ops[0] {
            OpView::Retain(n) => n as nat + rest,
            OpView::Delete(n) => n as nat + rest,
            OpView::Insert(_) => rest,
        }
    }
}

/// Number of characters a sequence produces: its retains and inserts.
pub open spec fn ops_target_len(ops: Seq<OpView>) -> nat
    decreases ops.len(),
{
    if ops.len() == 0 {
        0
    } else {
        let rest = ops_target_len(ops.drop_first());
        match ops[0] {
            OpView::Retain(n) => n as nat + rest,
            OpView::Delete(_) => rest,
            OpView::Insert(s) => s.len() + rest,
        }
    }
}

pub open spec fn min_nat(a: nat, b: nat) -> nat {
    if a <= b {
        a
    } else {
        b
    }
}

/// The text that results from running `ops` over `text`: a retain copies
/// characters, a delete skips them, an insert adds its characters.
pub open spec fn apply_ops(ops: Seq<OpView>, text: Seq<char>) -> Seq<char>
    decreases ops.len(),
{
    if ops.len() == 0 {
        Seq::empty()
    } else {
        match ops[0] {
            OpView::Retain(n) => {
                let k = min_nat(n as nat, text.len());
                text.take(k as int) + apply_ops(ops.drop_first(), text.skip(k as int))
            },
            OpView::Delete(n) => {
                let k = min_nat(n as nat, text.len());
                apply_ops(ops.drop_first(), text.skip(k as int))
            },
            OpView::Insert(s) => s + apply_ops(ops.drop_first(), text),
        }
    }
}

/// On a text of its base length, a sequence produces a text of its target
/// length.
pub proof fn lemma_apply_len(ops: Seq<OpView>, text: Seq<char>)
    requires
        text.len() == ops_base_len(ops),
    ensures
        apply_ops(ops, text).len() == ops_target_len(ops),
    decreases ops.len(),
{
    if ops.len() > 0 {
        match ops[0] {
            OpView::Retain(n) => {
                lemma_apply_len(ops.drop_first(), text.skip(n as int));
            },
            OpView::Delete(n) => {
                lemma_apply_len(ops.drop_first(), text.skip(n as int));
            },
            OpView::Insert(s) => {
                lemma_apply_len(ops.drop_first(), text);
            },
        }
    }
}

/// The lengths of a sequence fit the crate's `usize` counters.
pub open spec fn ops_fit(ops: Seq<OpView>) -> bool {
    ops_base_len(ops) <= usize::MAX && ops_target_len(ops) <= usize::MAX
}

/// A length as the crate's `usize` counter holds it.
pub open spec fn counter(n: nat) -> nat {
    n % (usize::MAX as nat + 1)
}

/// A length that fits is its own counter.
pub proof fn lemma_counter_exact(n: nat)
    requires
        n <= usize::MAX,
    ensures
        counter(n) == n,
{
    vstd::arithmetic::div_mod::lemma_small_mod(n, usize::MAX as nat + 1);
}

/// The lengths of a suffix of a sequence are at most those of the sequence.
proof fn lemma_suffix_lengths(ops: Seq<OpView>, k: int)
    requires
        0 <= k <= ops.len(),
    ensures
        ops_base_len(ops.skip(k)) <= ops_base_len(ops),
        ops_target_len(ops.skip(k)) <= ops_target_len(ops),
    decreases k,
{
    if k == 0 {
        assert(ops.skip(0) =~= ops);
    } else {
        lemma_suffix_lengths(ops, k - 1);
        assert(ops.skip(k - 1).drop_first() =~= ops.skip(k));
    }
}

/// Whether the lengths of a sequence fit the crate's counters, summed over
/// its operations.
pub fn op_seq_fits(seq: &OperationSeq) -> (r: bool)
    ensures
        r == ops_fit(op_seq_ops(*seq)),
{
    let items = op_seq_items(seq);
    let ghost ops = items_view(items@);
    let mut base: u128 = 0;
    let mut target: u128 = 0;
    let mut k: usize = items.len();
    assert(ops.skip(ops.len() as int) =~= Seq::<OpView>::empty());
    while k > 0
        invariant
            ops == items_view(items@),
            ops == op_seq_ops(*seq),
            k <= items@.len(),
            base == ops_base_len(ops.skip(k as int)),
            target == ops_target_len(ops.skip(k as int)),
            base <= usize::MAX,
            target <= usize::MAX,
        decreases k,
    {
        k = k - 1;
        assert(ops.skip(k as int).drop_first() =~= ops.skip(k + 1));
        assert(ops.skip(k as int)[0] == items@[k as int].view());
        match &items[k] {
            OpItem::Retain(n) => {
                base = base + *n as u128;
                target = target + *n as u128;
            },
            OpItem::Delete(n) => {
                base = base + *n as u128;
            },
            OpItem::Insert(t) => {
                target = target + num_chars(t.as_str()) as u128;
            },
        }
        if base > usize::MAX as u128 || target > usize::MAX as u128 {
            proof {
                lemma_suffix_lengths(ops, k as int);
            }
            return false;
        }
    }
    assert(ops.skip(0) =~= ops);
    true
}

/// Whether a sequence has no effect: it is empty or a single retain.
pub open spec fn ops_is_noop(ops: Seq<OpView>) -> bool {
    ops.len() == 0 || (ops.len() == 1 && ops[0] is Retain)
}

/// An operation that does something: a count or a text that is not empty.
pub open spec fn op_nonempty(op: OpView) -> bool {
    match op {
        OpView::Retain(n) => n > 0,
        OpView::Delete(n) => n > 0,
        OpView::Insert(s) => s.len() > 0,
    }
}

/// Two neighbouring operations as the crate's builders leave them: of
/// different kinds, and never an insert right after a delete.
pub open spec fn neighbours_ok(a: OpView, b: OpView) -> bool {
    match (a, b) {
        (OpView::Retain(_), OpView::Retain(_)) => false,
        (OpView::Delete(_), OpView::Delete(_)) => false,
        (OpView::Insert(_), OpView::Insert(_)) => false,
        (OpView::Delete(_), OpView::Insert(_)) => false,
        _ => true,
    }
}

/// A sequence as `retain`, `delete` and `insert` leave it: no empty
/// operation, and neighbours that `neighbours_ok` accepts.
pub open spec fn ops_normal(ops: Seq<OpView>) -> bool {
    &&& forall|i: int| 0 <= i < ops.len() ==> op_nonempty(#[trigger] ops[i])
    &&& forall|i: int, j: int|
        0 <= i && j == i + 1 && j < ops.len() ==> neighbours_ok(#[trigger] ops[i], #[trigger] ops[j])
}

/// The count of the last operation is part of the base length.
proof fn lemma_last_count(ops: Seq<OpView>)
    requires
        ops.len() > 0,
    ensures
        ops.last() matches OpView::Retain(n) ==> n <= ops_base_len(ops),
        ops.last() matches OpView::Delete(n) ==> n <= ops_base_len(ops),
    decreases ops.len(),
{
    if ops.len() > 1 {
        lemma_last_count(ops.drop_first());
        assert(ops.drop_first().last() == ops.last());
    }
}

/// `retain`, `delete` and `insert` keep a sequence as the builders leave
/// it, while the counts fit a `u64`.
pub proof fn builders_keep_sequences_normal(ops: Seq<OpView>, n: u64, s: Seq<char>)
    requires
        ops_normal(ops),
        ops_base_len(ops) + n <= u64::MAX,
    ensures
        ops_normal(ops_after_retain(ops, n)),
        ops_normal(ops_after_delete(ops, n)),
        ops_normal(ops_after_insert(ops, s)),
{
    if ops.len() > 0 {
        lemma_last_count(ops);
    }
    let r = ops_after_retain(ops, n);
    assert forall|i: int, j: int| 0 <= i && j == i + 1 && j < r.len() implies neighbours_ok(
        #[trigger] r[i],
        #[trigger] r[j],
    ) by {
        if j < ops.len() - 1 || (n == 0) {
            assert(r[i] == ops[i] && r[j] == ops[j]);
        } else if j == ops.len() - 1 {
            assert(r[i] == ops[i]);
        } else {
            assert(r[i] == ops[i]);
        }
    }
    assert forall|i: int| 0 <= i < r.len() implies op_nonempty(#[trigger] r[i]) by {
        if i < ops.len() - 1 || n == 0 {
            assert(r[i] == ops[i]);
        } else if i == ops.len() - 1 && !(ops.last() is Retain) {
            assert(r[i] == ops[i]);
        }
    }
    let d = ops_after_delete(ops, n);
    assert forall|i: int, j: int| 0 <= i && j == i + 1 && j < d.len() implies neighbours_ok(
        #[trigger] d[i],
        #[trigger] d[j],
    ) by {
        if j < ops.len() - 1 || (n == 0) {
            assert(d[i] == ops[i] && d[j] == ops[j]);
        } else {
            assert(d[i] == ops[i]);
        }
    }
    assert forall|i: int| 0 <= i < d.len() implies op_nonempty(#[trigger] d[i]) by {
        if i < ops.len() - 1 || n == 0 {
            assert(d[i] == ops[i]);
        } else if i == ops.len() - 1 && !(ops.last() is Delete) {
            assert(d[i] == ops[i]);
        }
    }
    let t = ops_after_insert(ops, s);
    let len = ops.len() as int;
    assert forall|i: int| 0 <= i < t.len() implies op_nonempty(#[trigger] t[i]) by {
        if s.len() == 0 {
            assert(t[i] == ops[i]);
        } else if len > 0 && ops.last() is Insert {
            if i < len - 1 {
                assert(t[i] == ops[i]);
            }
        } else if len > 1 && ops.last() is Delete && ops[len - 2] is Insert {
            if i < len - 2 {
                assert(t[i] == ops[i]);
            } else if i == len - 1 {
                assert(t[i] == ops[len - 1]);
            }
        } else if len > 0 && ops.last() is Delete {
            if i < len - 1 {
                assert(t[i] == ops[i]);
            } else if i == len {
                assert(t[i] == ops[len - 1]);
            }
        } else {
            if i < len {
                assert(t[i] == ops[i]);
            }
        }
    }
    assert forall|i: int, j: int| 0 <= i && j == i + 1 && j < t.len() implies neighbours_ok(
        #[trigger] t[i],
        #[trigger] t[j],
    ) by {
        if s.len() == 0 {
            assert(t[i] == ops[i] && t[j] == ops[j]);
        } else if len > 0 && ops.last() is Insert {
            if j < len - 1 {
                assert(t[i] == ops[i] && t[j] == ops[j]);
            } else {
                assert(t[i] == ops[i]);
            }
        } else if len > 1 && ops.last() is Delete && ops[len - 2] is Insert {
            if j < len - 2 {
                assert(t[i] == ops[i] && t[j] == ops[j]);
            } else if j == len - 2 {
                assert(t[i] == ops[i]);
                assert(neighbours_ok(ops[i], ops[j]));
            } else {
                assert(t[j] == ops[len - 1]);
            }
        } else if len > 0 && ops.last() is Delete {
            if j < len - 1 {
                assert(t[i] == ops[i] && t[j] == ops[j]);
            } else if j == len - 1 {
                assert(t[i] == ops[i]);
                if len > 1 {
                    assert(neighbours_ok(ops[len - 2], ops[len - 1]));
                }
            } else {
                assert(t[j] == ops[len - 1]);
            }
        } else {
            if j < len {
                assert(t[i] == ops[i] && t[j] == ops[j]);
            } else {
                assert(t[i] == ops[i]);
            }
        }
    }
}

/// The operations after `retain(n)`: a retain joins a trailing retain.
pub open spec fn ops_after_retain(ops: Seq<OpView>, n: u64) -> Seq<OpView> {
    if n == 0 {
        ops
    } else if ops.len() > 0 && ops.last() is Retain {
        ops.drop_last().push(OpView::Retain((ops.last()->Retain_0 + n) as u64))
    } else {
        ops.push(OpView::Retain(n))
    }
}

/// The operations after `delete(n)`: a delete joins a trailing delete.
pub open spec fn ops_after_delete(ops: Seq<OpView>, n: u64) -> Seq<OpView> {
    if n == 0 {
        ops
    } else if ops.len() > 0 && ops.last() is Delete {
        ops.drop_last().push(OpView::Delete((ops.last()->Delete_0 + n) as u64))
    } else {
        ops.push(OpView::Delete(n))
    }
}

/// The operations after `insert(s)`: an insert joins a trailing insert,
/// and is kept in front of a trailing delete.
pub open spec fn ops_after_insert(ops: Seq<OpView>, s: Seq<char>) -> Seq<OpView> {
    if s.len() == 0 {
        ops
    } else if ops.len() > 0 && ops.last() is Insert {
        ops.drop_last().push(OpView::Insert(ops.last()->Insert_0 + s))
    } else if ops.len() > 1 && ops.last() is Delete && ops[ops.len() - 2] is Insert {
        ops.subrange(0, ops.len() - 2).push(
            OpView::Insert(ops[ops.len() - 2]->Insert_0 + s),
        ).push(ops.last())
    } else if ops.len() > 0 && ops.last() is Delete {
        ops.drop_last().push(OpView::Insert(s)).push(ops.last())
    } else {
        ops.push(OpView::Insert(s))
    }
}

/// Calls `bytecount::num_chars` on the bytes of `s`: it counts the bytes
/// that do not continue a UTF-8 sequence, which for a `str` is its number
/// of characters.
#[verifier::external_body]
pub(crate) fn num_chars(s: &str) -> (n: usize)
    ensures
        n == s@.len(),
{
    bytecount::num_chars(s.as_bytes())
}

/// Calls `OperationSeq::default`: an empty sequence.
#[verifier::external_body]
pub(crate) fn op_seq_new() -> (r: OperationSeq)
    ensures
        op_seq_ops(r) == Seq::<OpView>::empty(),
{
    OperationSeq::default()
}

/// Calls `OperationSeq::with_capacity`: an empty sequence; the capacity
/// only reserves memory.
#[verifier::external_body]
pub(crate) fn op_seq_with_capacity(capacity: usize) -> (r: OperationSeq)
    ensures
        op_seq_ops(r) == Seq::<OpView>::empty(),
{
    OperationSeq::with_capacity(capacity)
}

/// Calls `OperationSeq::clone` (derived): the copy holds the same operations.
#[verifier::external_body]
pub(crate) fn op_seq_clone(seq: &OperationSeq) -> (r: OperationSeq)
    ensures
        op_seq_ops(r) == op_seq_ops(*seq),
{
    seq.clone()
}

/// Calls `OperationSeq::base_len`. The crate adds `n as usize` to this
/// counter in `retain` and `delete`, and every other constructor (the
/// deserializer, `compose`, `transform`, `invert`) goes through those; the
/// operations merge their counts in `u64`. Both wrap modulo a power of two
/// that `usize::MAX + 1` divides, so the counter is the sum of the retains
/// and deletes modulo `usize::MAX + 1` (with overflow checks on, a wrapping
/// addition panics before any value is returned).
#[verifier::external_body]
pub(crate) fn op_seq_base_len(seq: &OperationSeq) -> (r: usize)
    ensures
        r == counter(ops_base_len(op_seq_ops(*seq))),
{
    seq.base_len()
}

/// Calls `OperationSeq::target_len`, the counter the crate adds the retains
/// and the characters of the inserts to: their sum modulo `usize::MAX + 1`
/// (see `op_seq_base_len`).
#[verifier::external_body]
pub(crate) fn op_seq_target_len(seq: &OperationSeq) -> (r: usize)
    ensures
        r == counter(ops_target_len(op_seq_ops(*seq))),
{
    seq.target_len()
}

/// Calls `OperationSeq::is_noop`: true for no operation or a lone retain.
#[verifier::external_body]
pub(crate) fn op_seq_is_noop(seq: &OperationSeq) -> (r: bool)
    ensures
        r == ops_is_noop(op_seq_ops(*seq)),
{
    seq.is_noop()
}

/// Calls `OperationSeq::retain`, which joins a trailing retain or appends
/// one, and adds `n` to both length counters.
#[verifier::external_body]
pub(crate) fn op_seq_retain(seq: &mut OperationSeq, n: u64)
    requires
        ops_base_len(op_seq_ops(*old(seq))) + n <= usize::MAX,
        ops_target_len(op_seq_ops(*old(seq))) + n <= usize::MAX,
    ensures
        op_seq_ops(*final(seq)) == ops_after_retain(op_seq_ops(*old(seq)), n),
{
    seq.retain(n)
}

/// Calls `OperationSeq::delete`, which joins a trailing delete or appends
/// one, and adds `n` to the base length counter.
#[verifier::external_body]
pub(crate) fn op_seq_delete(seq: &mut OperationSeq, n: u64)
    requires
        ops_base_len(op_seq_ops(*old(seq))) + n <= usize::MAX,
    ensures
        op_seq_ops(*final(seq)) == ops_after_delete(op_seq_ops(*old(seq)), n),
{
    seq.delete(n)
}

/// Calls `OperationSeq::insert`, which joins a trailing insert (also one
/// just before a trailing delete), keeps inserts in front of a trailing
/// delete, and adds the characters of `s` to the target length counter.
#[verifier::external_body]
pub(crate) fn op_seq_insert(seq: &mut OperationSeq, s: &str)
    requires
        ops_target_len(op_seq_ops(*old(seq))) + s@.len() <= usize::MAX,
    ensures
        op_seq_ops(*final(seq)) == ops_after_insert(op_seq_ops(*old(seq)), s@),
{
    seq.insert(s)
}

/// Calls `OperationSeq::ops` and copies each operation into an `OpItem`.
#[verifier::external_body]
pub(crate) fn op_seq_items(seq: &OperationSeq) -> (r: Vec<OpItem>)
    ensures
        items_view(r@) == op_seq_ops(*seq),
{
    let mut items = Vec::new();
    for op in seq.ops() {
        items.push(
            match op {
                Operation::Retain(n) => OpItem::Retain(*n),
                Operation::Delete(n) => OpItem::Delete(*n),
                Operation::Insert(s) => OpItem::Insert(s.clone()),
            },
        );
    }
    items
}

/// Calls `OperationSeq::apply`. It fails exactly when the text does not have
/// `base_len` characters (the counter, which is the base length when the
/// lengths fit); otherwise it copies retained characters, skips deleted ones
/// and adds inserted ones.
#[verifier::external_body]
pub(crate) fn op_seq_apply(seq: &OperationSeq, text: &str) -> (r: Option<String>)
    requires
        ops_fit(op_seq_ops(*seq)),
    ensures
        r is Some <==> text@.len() == ops_base_len(op_seq_ops(*seq)),
        r matches Some(out) ==> out@ == apply_ops(op_seq_ops(*seq), text@),
{
    seq.apply(text).ok()
}

/// Calls `OperationSeq::compose`. It fails exactly when the target length of
/// the first sequence differs from the base length of the second (with
/// lengths that fit, the loop of the crate consumes both sequences in
/// step). The crate documents that applying the result equals applying the
/// two sequences one after the other. The check compares the counters,
/// which are the lengths when they fit; the result's counters then grow to
/// the base length of `a` and the target length of `b` without overflow.
#[verifier::external_body]
pub(crate) fn op_seq_compose(a: &OperationSeq, b: &OperationSeq) -> (r: Option<OperationSeq>)
    requires
        ops_fit(op_seq_ops(*a)),
        ops_fit(op_seq_ops(*b)),
    ensures
        r is Some <==> ops_target_len(op_seq_ops(*a)) == ops_base_len(op_seq_ops(*b)),
        r matches Some(c) ==> {
            &&& op_seq_ops(c) == ot_compose(op_seq_ops(*a), op_seq_ops(*b))
            &&& ops_base_len(op_seq_ops(c)) == ops_base_len(op_seq_ops(*a))
            &&& ops_target_len(op_seq_ops(c)) == ops_target_len(op_seq_ops(*b))
            &&& forall|text: Seq<char>|
                text.len() == ops_base_len(op_seq_ops(*a)) ==> #[trigger] apply_ops(
                    op_seq_ops(c),
                    text,
                ) == apply_ops(op_seq_ops(*b), apply_ops(op_seq_ops(*a), text))
        },
{
    a.compose(b).ok()
}

/// Calls `OperationSeq::transform`. It fails exactly when the two base
/// lengths differ. The crate documents that `A` then `B'` and `B` then `A'`
/// lead to the same text; `A'` applies after `B`, and `B'` after `A`.
/// `A'` is made of the inserts of `A`, retains over the inserts of `B`,
/// and the retains and deletes of `A` over the retains of `B`, so its base
/// length is the target length of `B` and its target length at most the
/// two target lengths together (and symmetrically for `B'`); with those
/// sums within `usize`, no counter of the crate overflows.
#[verifier::external_body]
pub(crate) fn op_seq_transform(a: &OperationSeq, b: &OperationSeq) -> (r: Option<
    (OperationSeq, OperationSeq),
>)
    requires
        ops_fit(op_seq_ops(*a)),
        ops_fit(op_seq_ops(*b)),
        ops_target_len(op_seq_ops(*a)) + ops_target_len(op_seq_ops(*b)) <= usize::MAX,
    ensures
        r is Some <==> ops_base_len(op_seq_ops(*a)) == ops_base_len(op_seq_ops(*b)),
        r matches Some(p) ==> {
            &&& (op_seq_ops(p.0), op_seq_ops(p.1)) == ot_transform(
                op_seq_ops(*a),
                op_seq_ops(*b),
            )
            &&& ops_base_len(op_seq_ops(p.0)) == ops_target_len(op_seq_ops(*b))
            &&& ops_base_len(op_seq_ops(p.1)) == ops_target_len(op_seq_ops(*a))
            &&& ops_target_len(op_seq_ops(p.0)) <= ops_target_len(op_seq_ops(*a))
                + ops_target_len(op_seq_ops(*b))
            &&& ops_target_len(op_seq_ops(p.1)) <= ops_target_len(op_seq_ops(*a))
                + ops_target_len(op_seq_ops(*b))
            &&& forall|text: Seq<char>|
                text.len() == ops_base_len(op_seq_ops(*a)) ==> #[trigger] apply_ops(
                    op_seq_ops(p.1),
                    apply_ops(op_seq_ops(*a), text),
                ) == apply_ops(op_seq_ops(p.0), apply_ops(op_seq_ops(*b), text))
        },
{
    a.transform(b).ok()
}

/// Calls `OperationSeq::invert`. The crate documents that the inverse
/// undoes the sequence on the text it was computed for. It steps through
/// the text once per retained character, so the retains and deletes are
/// held to the length of the text.
/// The inverse's counters grow to the target and at most the base length of
/// the sequence, which fit.
#[verifier::external_body]
pub(crate) fn op_seq_invert(seq: &OperationSeq, text: &str) -> (r: OperationSeq)
    requires
        ops_fit(op_seq_ops(*seq)),
        ops_base_len(op_seq_ops(*seq)) <= text@.len(),
    ensures
        op_seq_ops(r) == ot_invert(op_seq_ops(*seq), text@),
        text@.len() == ops_base_len(op_seq_ops(*seq)) ==> {
            &&& ops_base_len(op_seq_ops(r)) == ops_target_len(op_seq_ops(*seq))
            &&& apply_ops(op_seq_ops(r), apply_ops(op_seq_ops(*seq), text@)) == text@
        },
{
    seq.invert(text)
}


/// One step of the cursor mapping: `index` counts down the characters of the
/// input text still to pass, `new_index` is the mapped position.
pub open spec fn ti_step(op: OpView, index: i32, new_index: i32) -> (i32, i32) {
    match op {
        OpView::Retain(n) => (index.wrapping_sub(n as i32), new_index),
        OpView::Insert(s) => (index, new_index.wrapping_add(s.len() as i32)),
        OpView::Delete(n) => (
            index.wrapping_sub(n as i32),
            new_index.wrapping_sub(
                if index <= n as i32 {
                    index
                } else {
                    n as i32
                },
            ),
        ),
    }
}

/// Runs the cursor mapping over `ops`, stopping after the operation that
/// passes the position.
pub open spec fn ti_run(ops: Seq<OpView>, index: i32, new_index: i32) -> i32
    decreases ops.len(),
{
    if ops.len() == 0 {
        new_index
    } else {
        let (i2, n2) = ti_step(ops[0], index, new_index);
        if i2 < 0 {
            n2
        } else {
            ti_run(ops.drop_first(), i2, n2)
        }
    }
}

/// Where a position of the text lands after `ops`, in the 32-bit two's
/// complement arithmetic of the mapping.
pub open spec fn transform_index_spec(ops: Seq<OpView>, position: u32) -> u32 {
    ti_run(ops, position as i32, position as i32) as u32
}

/// Return the new index of a position in the string.
pub fn transform_index(operation: &OperationSeq, position: u32) -> (r: u32)
    ensures
        r == transform_index_spec(op_seq_ops(*operation), position),
{
    let items = op_seq_items(operation);
    transform_index_items(&items, position)
}

/// Where `position` lands after the operations `items`.
pub fn transform_index_items(items: &Vec<OpItem>, position: u32) -> (r: u32)
    ensures
        r == transform_index_spec(items_view(items@), position),
{
    let ghost ops = items_view(items@);
    #[verifier::truncate]
    let mut index: i32 = position as i32;
    let mut new_index: i32 = index;
    let mut k: usize = 0;
    assert(ops.skip(0) =~= ops);
    while k < items.len()
        invariant
            items_view(items@) == ops,
            k <= items.len(),
            ti_run(ops, position as i32, position as i32) == ti_run(ops.skip(k as int), index, new_index),
        decreases items.len() - k,
    {
        assert(ops.skip(k as int).drop_first() =~= ops.skip(k + 1));
        assert(ops.skip(k as int)[0] == items@[k as int].view());
        let ghost before = (index, new_index);
        match &items[k] {
            OpItem::Retain(n) => {
                #[verifier::truncate]
                let m: i32 = *n as i32;
                index = index.wrapping_sub(m);
            },
            OpItem::Insert(s) => {
                #[verifier::truncate]
                let m: i32 = num_chars(s.as_str()) as i32;
                new_index = new_index.wrapping_add(m);
            },
            OpItem::Delete(n) => {
                #[verifier::truncate]
                let m: i32 = *n as i32;
                let d: i32 = if index <= m {
                    index
                } else {
                    m
                };
                new_index = new_index.wrapping_sub(d);
                index = index.wrapping_sub(m);
            },
        }
        assert((index, new_index) == ti_step(items@[k as int].view(), before.0, before.1));
        if index < 0 {
            #[verifier::truncate]
            let r: u32 = new_index as u32;
            return r;
        }
        k = k + 1;
    }
    assert(ops.skip(k as int) =~= Seq::<OpView>::empty());
    #[verifier::truncate]
    let r: u32 = new_index as u32;
    r
}

/// The cursor mapping in exact integer arithmetic.
spec fn index_run(ops: Seq<OpView>, index: int, new_index: int) -> int
    decreases ops.len(),
{
    if ops.len() == 0 {
        new_index
    } else {
        let (i2, n2) = match ops[0] {
            OpView::Retain(n) => (index - n, new_index),
            OpView::Insert(s) => (index, new_index + s.len()),
            OpView::Delete(n) => (
                index - n,
                new_index - (if index <= n {
                    index
                } else {
                    n as int
                }),
            ),
        };
        if i2 < 0 {
            n2
        } else {
            index_run(ops.drop_first(), i2, n2)
        }
    }
}

spec fn congruent32(a: int, b: int) -> bool {
    (a - b) % 0x1_0000_0000 == 0
}

proof fn lemma_congruent_shift(a: int, b: int, d: int, c: int)
    requires
        congruent32(a, b),
        -1 <= c <= 1,
    ensures
        congruent32(a + d + c * 0x1_0000_0000, b + d),
{
    let m: int = 0x1_0000_0000;
    assert(a + d + c * m - (b + d) == (a - b) + c * m);
    if c == 1 {
        vstd::arithmetic::div_mod::lemma_mod_add_multiples_vanish(a - b, m);
    } else if c == -1 {
        vstd::arithmetic::div_mod::lemma_mod_sub_multiples_vanish(a - b, m);
    }
}

/// While the text lengths fit an `i32`, the position counter of the
/// mapping never wraps, and the mapped position agrees with the exact one
/// up to multiples of 2^32.
proof fn lemma_ti_run_tracks(ops: Seq<OpView>, i: i32, n: i32, en: int)
    requires
        0 <= i,
        ops_base_len(ops) <= i32::MAX,
        ops_target_len(ops) <= i32::MAX,
        congruent32(n as int, en),
    ensures
        congruent32(ti_run(ops, i, n) as int, index_run(ops, i as int, en)),
    decreases ops.len(),
{
    if ops.len() > 0 {
        let rest = ops.drop_first();
        let (i2, n2) = ti_step(ops[0], i, n);
        match ops[0] {
            OpView::Retain(k) => {
                assert(k as i32 == k);
                lemma_congruent_shift(n as int, en, 0, 0);
            },
            OpView::Insert(t) => {
                assert(t.len() as i32 == t.len());
                let c: int = if n + t.len() > i32::MAX { -1 } else { 0 };
                lemma_congruent_shift(n as int, en, t.len() as int, c);
            },
            OpView::Delete(k) => {
                assert(k as i32 == k);
                let d: int = if i <= k { i as int } else { k as int };
                let c: int = if n - d < i32::MIN { 1 } else { 0 };
                lemma_congruent_shift(n as int, en, -d, c);
            },
        }
        if i2 >= 0 {
            lemma_ti_run_tracks(rest, i2, n2, match ops[0] {
                OpView::Retain(k) => en,
                OpView::Insert(t) => en + t.len(),
                OpView::Delete(k) => en - (if i <= k {
                    i as int
                } else {
                    k as int
                }),
            });
        }
    }
}

/// The exact mapping never moves a position back by more than it has left
/// to pass.
proof fn lemma_index_run_lower(ops: Seq<OpView>, i: int, n: int)
    requires
        0 <= i,
    ensures
        index_run(ops, i, n) >= n - i,
    decreases ops.len(),
{
    if ops.len() > 0 {
        match ops[0] {
            OpView::Retain(k) => {
                if i - k >= 0 {
                    lemma_index_run_lower(ops.drop_first(), i - k, n);
                }
            },
            OpView::Insert(t) => {
                lemma_index_run_lower(ops.drop_first(), i, n + t.len());
            },
            OpView::Delete(k) => {
                if i - k >= 0 {
                    lemma_index_run_lower(ops.drop_first(), i - k, n - k);
                }
            },
        }
    }
}

/// A position within the base text lands within the target text, and the
/// end of the base text lands on the end of the target text.
proof fn lemma_index_run_upper(ops: Seq<OpView>, i: int, n: int)
    requires
        0 <= i <= ops_base_len(ops),
    ensures
        index_run(ops, i, n) <= n - i + ops_target_len(ops),
        i == ops_base_len(ops) ==> index_run(ops, i, n) == n - i + ops_target_len(ops),
    decreases ops.len(),
{
    if ops.len() > 0 {
        match ops[0] {
            OpView::Retain(k) => {
                if i - k >= 0 {
                    lemma_index_run_upper(ops.drop_first(), i - k, n);
                }
            },
            OpView::Insert(t) => {
                lemma_index_run_upper(ops.drop_first(), i, n + t.len());
            },
            OpView::Delete(k) => {
                if i - k >= 0 {
                    lemma_index_run_upper(ops.drop_first(), i - k, n - k);
                }
            },
        }
    }
}

/// Two positions with the same offset keep their order.
proof fn lemma_index_run_monotone(ops: Seq<OpView>, i1: int, n1: int, i2: int, n2: int)
    requires
        0 <= i1 <= i2,
        n1 - i1 == n2 - i2,
    ensures
        index_run(ops, i1, n1) <= index_run(ops, i2, n2),
    decreases ops.len(),
{
    if ops.len() > 0 {
        let rest = ops.drop_first();
        match ops[0] {
            OpView::Retain(k) => {
                if i1 - k >= 0 {
                    lemma_index_run_monotone(rest, i1 - k, n1, i2 - k, n2);
                } else if i2 - k >= 0 {
                    lemma_index_run_lower(rest, i2 - k, n2);
                }
            },
            OpView::Insert(t) => {
                lemma_index_run_monotone(rest, i1, n1 + t.len(), i2, n2 + t.len());
            },
            OpView::Delete(k) => {
                if i1 - k >= 0 {
                    lemma_index_run_monotone(rest, i1 - k, n1 - k, i2 - k, n2 - k);
                } else if i2 - k >= 0 {
                    lemma_index_run_lower(rest, i2 - k, n2 - k);
                }
            },
        }
    }
}

/// Where a position of the base text lands, in exact arithmetic.
proof fn lemma_transform_index_exact(ops: Seq<OpView>, p: u32)
    requires
        ops_base_len(ops) <= i32::MAX,
        ops_target_len(ops) <= i32::MAX,
        p <= ops_base_len(ops),
    ensures
        transform_index_spec(ops, p) == index_run(ops, p as int, p as int),
        0 <= index_run(ops, p as int, p as int) <= ops_target_len(ops),
{
    assert(p as i32 == p);
    lemma_ti_run_tracks(ops, p as i32, p as i32, p as int);
    lemma_index_run_lower(ops, p as int, p as int);
    lemma_index_run_upper(ops, p as int, p as int);
    let t = ti_run(ops, p as i32, p as i32) as int;
    let e = index_run(ops, p as int, p as int);
    assert(t == e) by {
        let m: int = 0x1_0000_0000;
        vstd::arithmetic::div_mod::lemma_fundamental_div_mod(t - e, m);
        assert((t - e) % m == 0);
        assert(t - e == m * ((t - e) / m));
        assert(-m < t - e < m);
        if (t - e) / m > 0 {
            assert(m * ((t - e) / m) >= m) by (nonlinear_arith)
                requires
                    (t - e) / m > 0,
                    m > 0,
            ;
        } else if (t - e) / m < 0 {
            assert(m * ((t - e) / m) <= -m) by (nonlinear_arith)
                requires
                    (t - e) / m < 0,
                    m > 0,
            ;
        }
    }
}

/// The cursor mapping keeps the order of positions, never leaves the
/// target text, and takes the end of the base text to the end of the
/// target text, for sequences whose lengths fit its 32-bit arithmetic.
pub proof fn transform_index_laws(ops: Seq<OpView>, p: u32, q: u32)
    requires
        ops_base_len(ops) <= i32::MAX,
        ops_target_len(ops) <= i32::MAX,
        p <= q <= ops_base_len(ops),
    ensures
        transform_index_spec(ops, p) <= transform_index_spec(ops, q),
        transform_index_spec(ops, q) <= ops_target_len(ops),
        transform_index_spec(ops, ops_base_len(ops) as u32) == ops_target_len(ops),
{
    lemma_transform_index_exact(ops, p);
    lemma_transform_index_exact(ops, q);
    lemma_index_run_monotone(ops, p as int, p as int, q as int, q as int);
    let b = ops_base_len(ops) as u32;
    lemma_transform_index_exact(ops, b);
    lemma_index_run_upper(ops, b as int, b as int);
}

/// Under retains alone the mapping has nothing to shift.
proof fn lemma_ti_run_retains(ops: Seq<OpView>, i: i32, n: i32)
    requires
        forall|k: int| 0 <= k < ops.len() ==> #[trigger] ops[k] is Retain,
    ensures
        ti_run(ops, i, n) == n,
    decreases ops.len(),
{
    if ops.len() > 0 {
        assert(ops[0] is Retain);
        let (i2, n2) = ti_step(ops[0], i, n);
        if i2 >= 0 {
            assert forall|k: int| 0 <= k < ops.drop_first().len() implies #[trigger] ops.drop_first()[k] is Retain by {
                assert(ops[k + 1] is Retain);
            }
            lemma_ti_run_retains(ops.drop_first(), i2, n2);
        }
    }
}

/// A sequence made only of retains leaves every position where it is.
pub proof fn transform_index_under_retains(ops: Seq<OpView>, p: u32)
    requires
        forall|k: int| 0 <= k < ops.len() ==> #[trigger] ops[k] is Retain,
    ensures
        transform_index_spec(ops, p) == p,
{
    lemma_ti_run_retains(ops, p as i32, p as i32);
    assert(((p as i32) as u32) == p) by (bit_vector);
}

} // verus!
