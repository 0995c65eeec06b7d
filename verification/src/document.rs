//! The state of one collaboratively edited document: its text, the history
//! of operations that produced it, and the cursors of connected clients.

use operational_transform::OperationSeq;
use vstd::prelude::*;

use crate::ot::{
    lemma_apply_len, apply_ops, items_view, op_seq_apply, op_seq_clone, op_seq_items, op_seq_ops, op_seq_target_len,
    op_seq_transform, ops_base_len, ops_target_len, ot_transform, transform_index_items,
    lemma_counter_exact, op_seq_fits, ops_fit,
    transform_index_spec, OpItem, OpView,
};
use crate::strmap::StrMap;

verus! {

/// Largest text a document may grow to, compared with the target length of
/// an incoming operation.
pub const MAX_DOCUMENT_BYTES: usize = 256 * 1024;

/// An operation together with the session that authored it.
#[derive(Debug)]
pub struct UserOperation {
    pub user_id: String,
    pub operation: OperationSeq,
}

impl UserOperation {
    pub open spec fn view(self) -> (Seq<char>, Seq<OpView>) {
        (self.user_id@, op_seq_ops(self.operation))
    }
}

impl Clone for UserOperation {
    fn clone(&self) -> (r: Self)
        ensures
            r.view() == self.view(),
    {
        UserOperation { user_id: self.user_id.clone(), operation: op_seq_clone(&self.operation) }
    }
}

/// Why an operation was not added to a document.
#[derive(Debug, Clone, PartialEq, Eq)]
pub enum ComposeError {
    /// The operation claims a revision the document has not reached.
    FutureRevision { revision: usize, current: usize },
    /// The operation does not fit the length of the history or the text,
    /// or its lengths do not fit the counters of the operation crate.
    IncompatibleLengths,
    /// The text would grow beyond `MAX_DOCUMENT_BYTES`.
    TooLarge { target_len: usize },
}

/// The text and revision sent to a client that opens a document.
#[derive(Debug, Clone, PartialEq, Eq)]
pub struct DocumentInfo {
    pub text: String,
    pub revision: usize,
}

/// Transforms `op`, written against the start of `history`, over every
/// later operation in turn; `None` when a length does not fit: a base
/// length differs, or two target lengths together exceed the counters of
/// the operation crate.
pub open spec fn transform_chain(op: Seq<OpView>, history: Seq<Seq<OpView>>) -> Option<
    Seq<OpView>,
>
    decreases history.len(),
{
    if history.len() == 0 {
        Some(op)
    } else if ops_base_len(op) != ops_base_len(history[0]) || ops_target_len(op)
        + ops_target_len(history[0]) > usize::MAX {
        None
    } else {
        transform_chain(ot_transform(op, history[0]).0, history.drop_first())
    }
}

/// Maps both ends of every cursor selection through `ops`.
pub open spec fn transform_selections(ops: Seq<OpView>, sel: Seq<(u32, u32)>) -> Seq<(u32, u32)> {
    sel.map_values(
        |p: (u32, u32)| (transform_index_spec(ops, p.0), transform_index_spec(ops, p.1)),
    )
}

pub struct DocumentState {
    operations: Vec<UserOperation>,
    text: String,
    cursors: StrMap<Vec<(u32, u32)>>,
    /// The text the document started from.
    origin: Ghost<Seq<char>>,
}

/// `text` with each of `ops` applied in turn.
pub open spec fn replay(text: Seq<char>, ops: Seq<Seq<OpView>>) -> Seq<char>
    decreases ops.len(),
{
    if ops.len() == 0 {
        text
    } else {
        apply_ops(ops.last(), replay(text, ops.drop_last()))
    }
}

impl DocumentState {
    /// The operations accepted so far, oldest first.
    pub closed spec fn history(&self) -> Seq<(Seq<char>, Seq<OpView>)> {
        self.operations@.map_values(|u: UserOperation| u.view())
    }

    pub closed spec fn text_view(&self) -> Seq<char> {
        self.text@
    }

    /// The selections of each client.
    pub closed spec fn cursor_view(&self) -> Map<Seq<char>, Seq<(u32, u32)>> {
        self.cursors.view().map_values(|v: Vec<(u32, u32)>| v@)
    }

    pub closed spec fn wf(&self) -> bool {
        &&& self.cursors.wf()
        &&& self.text@ == replay(self.origin@, self.history_ops(0))
        &&& forall|i: int|
            0 <= i < self.operations@.len() ==> ops_fit(
                op_seq_ops(#[trigger] self.operations@[i].operation),
            )
    }

    /// The text the document started from.
    pub closed spec fn origin(&self) -> Seq<char> {
        self.origin@
    }

    pub open spec fn revision_view(&self) -> nat {
        self.history().len()
    }

    /// The operations of the history from `start` on.
    pub open spec fn history_ops(&self, start: int) -> Seq<Seq<OpView>> {
        self.history().skip(start).map_values(|h: (Seq<char>, Seq<OpView>)| h.1)
    }

    /// An empty document.
    pub fn new() -> (r: Self)
        ensures
            r.wf(),
            r.text_view() == Seq::<char>::empty(),
            r.history() == Seq::<(Seq<char>, Seq<OpView>)>::empty(),
            r.cursor_view() == Map::<Seq<char>, Seq<(u32, u32)>>::empty(),
    {
        Self::new_with(String::new())
    }

    /// A document that starts with `text` and no history.
    pub fn new_with(text: String) -> (r: Self)
        ensures
            r.wf(),
            r.text_view() == text@,
            r.origin() == text@,
            r.history() == Seq::<(Seq<char>, Seq<OpView>)>::empty(),
            r.cursor_view() == Map::<Seq<char>, Seq<(u32, u32)>>::empty(),
    {
        let ghost start = text@;
        let r = DocumentState {
            operations: Vec::new(),
            text,
            cursors: StrMap::new(),
            origin: Ghost(start),
        };
        assert(r.history_ops(0) =~= Seq::<Seq<OpView>>::empty());
        assert(r.history() =~= Seq::<(Seq<char>, Seq<OpView>)>::empty());
        assert(r.cursor_view() =~= Map::<Seq<char>, Seq<(u32, u32)>>::empty());
        r
    }

    /// A new document with the same text, without history or cursors.
    pub fn fork(&self) -> (r: Self)
        ensures
            r.wf(),
            r.text_view() == self.text_view(),
            r.origin() == self.text_view(),
            r.history() == Seq::<(Seq<char>, Seq<OpView>)>::empty(),
            r.cursor_view() == Map::<Seq<char>, Seq<(u32, u32)>>::empty(),
    {
        Self::new_with(self.text.clone())
    }

    pub fn text(&self) -> (r: String)
        ensures
            r@ == self.text_view(),
    {
        self.text.clone()
    }

    pub fn revision(&self) -> (r: usize)
        ensures
            r == self.revision_view(),
    {
        self.operations.len()
    }

    pub fn info(&self) -> (r: DocumentInfo)
        ensures
            r.text@ == self.text_view(),
            r.revision == self.revision_view(),
    {
        DocumentInfo { text: self.text(), revision: self.revision() }
    }

    /// The selections of one client.
    pub fn cursors_of(&self, user_id: &String) -> (r: Option<Vec<(u32, u32)>>)
        requires
            self.wf(),
        ensures
            r is Some <==> self.cursor_view().contains_key(user_id@),
            r matches Some(v) ==> v@ == self.cursor_view()[user_id@],
    {
        match self.cursors.get(user_id) {
            Some(v) => Some(copy_selections(v)),
            None => None,
        }
    }

    /// Every client with selections, each once.
    pub fn cursor_users(&self) -> (r: Vec<String>)
        requires
            self.wf(),
        ensures
            forall|i: int| 0 <= i < r@.len() ==> self.cursor_view().contains_key(#[trigger] r@[i]@),
            forall|k: Seq<char>|
                self.cursor_view().contains_key(k) ==> exists|i: int|
                    0 <= i < r@.len() && #[trigger] r@[i]@ == k,
            forall|i: int, j: int|
                0 <= i < r@.len() && 0 <= j < r@.len() && i != j ==> #[trigger] r@[i]@ != #[trigger] r@[j]@,
    {
        self.cursors.keys()
    }

    pub fn has_cursors(&self) -> (r: bool)
        requires
            self.wf(),
        ensures
            self.cursor_view().dom().finite(),
            r == (self.cursor_view().dom().len() > 0),
    {
        let n = self.cursors.len();
        assert(self.cursor_view().dom() =~= self.cursors.view().dom());
        n != 0
    }

    /// The selections of every client, as sent to the clients.
    pub fn cursor_map(&self) -> (r: StrMap<Vec<(u32, u32)>>)
        requires
            self.wf(),
        ensures
            r.wf(),
            r.view().map_values(|v: Vec<(u32, u32)>| v@) == self.cursor_view(),
    {
        let keys = self.cursors.keys();
        let mut out: StrMap<Vec<(u32, u32)>> = StrMap::new();
        let mut i: usize = 0;
        while i < keys.len()
            invariant
                i <= keys@.len(),
                self.wf(),
                out.wf(),
                forall|j: int| 0 <= j < keys@.len() ==> self.cursors.view().contains_key(#[trigger] keys@[j]@),
                forall|k: Seq<char>|
                    self.cursors.view().contains_key(k) ==> exists|j: int|
                        0 <= j < keys@.len() && #[trigger] keys@[j]@ == k,
                forall|k: Seq<char>|
                    #[trigger] out.view().contains_key(k) <==> exists|j: int|
                        0 <= j < i && #[trigger] keys@[j]@ == k,
                forall|k: Seq<char>|
                    #[trigger] out.view().contains_key(k) ==> out.view()[k]@ == self.cursors.view()[k]@,
            decreases keys@.len() - i,
        {
            let key = &keys[i];
            let v = copy_selections(self.cursors.get(key).unwrap());
            out.insert(key.clone(), v);
            proof {
                assert forall|k: Seq<char>|
                    #[trigger] out.view().contains_key(k) <==> exists|j: int|
                        0 <= j < i + 1 && #[trigger] keys@[j]@ == k by {
                    if exists|j: int| 0 <= j < i + 1 && #[trigger] keys@[j]@ == k {
                        let j = choose|j: int| 0 <= j < i + 1 && #[trigger] keys@[j]@ == k;
                        if j < i {
                            assert(exists|j2: int| 0 <= j2 < i && #[trigger] keys@[j2]@ == k);
                        }
                    }
                    if exists|j: int| 0 <= j < i && #[trigger] keys@[j]@ == k {
                        let j = choose|j: int| 0 <= j < i && #[trigger] keys@[j]@ == k;
                        assert(0 <= j < i + 1 && keys@[j]@ == k);
                    }
                }
            }
            i = i + 1;
        }
        proof {
            assert(out.view().map_values(|v: Vec<(u32, u32)>| v@).dom() =~= self.cursor_view().dom());
            assert(out.view().map_values(|v: Vec<(u32, u32)>| v@) =~= self.cursor_view());
        }
        out
    }

    /// Records the selections of a client; an empty list removes them.
    pub fn set_cursors(&mut self, user_id: String, cursors: Vec<(u32, u32)>)
        requires
            old(self).wf(),
        ensures
            final(self).wf(),
            final(self).text_view() == old(self).text_view(),
            final(self).history() == old(self).history(),
            final(self).origin() == old(self).origin(),
            cursors@.len() == 0 ==> final(self).cursor_view() == old(self).cursor_view().remove(
                user_id@,
            ),
            cursors@.len() > 0 ==> final(self).cursor_view() == old(self).cursor_view().insert(
                user_id@,
                cursors@,
            ),
    {
        if cursors.len() == 0 {
            let _ = self.cursors.remove(&user_id);
            assert(self.cursor_view() =~= old(self).cursor_view().remove(user_id@));
        } else {
            let ghost k = user_id@;
            self.cursors.insert(user_id, cursors);
            assert(self.cursor_view() =~= old(self).cursor_view().insert(k, cursors@));
        }
    }

    /// The operations from `start` on, with the revision they lead to.
    pub fn send_history(&self, start: usize) -> (r: (usize, Option<Vec<UserOperation>>))
        ensures
            start < self.revision_view() ==> {
                &&& r.0 == self.revision_view()
                &&& r.1 matches Some(ops) && ops@.map_values(|u: UserOperation| u.view())
                    == self.history().skip(start as int)
            },
            start >= self.revision_view() ==> r.0 == start && r.1 is None,
    {
        let len = self.operations.len();
        if start < len {
            let mut out: Vec<UserOperation> = Vec::new();
            let mut i = start;
            while i < len
                invariant
                    start <= i <= len,
                    len == self.operations@.len(),
                    out@.len() == i - start,
                    forall|j: int|
                        0 <= j < out@.len() ==> #[trigger] out@[j].view()
                            == self.operations@[start + j].view(),
                decreases len - i,
            {
                out.push(self.operations[i].clone());
                i = i + 1;
            }
            assert(out@.map_values(|u: UserOperation| u.view()) =~= self.history().skip(
                start as int,
            ));
            (len, Some(out))
        } else {
            (start, None)
        }
    }

    /// Adds an operation authored against `revision` to the history.
    ///
    /// The operation is transformed over every operation accepted after
    /// `revision`, checked against the size limit and applied to the text;
    /// every cursor is mapped through it. On error nothing changes.
    pub fn compose(&mut self, user_id: String, revision: usize, operation: OperationSeq) -> (r:
        Result<(), ComposeError>)
        requires
            old(self).wf(),
        ensures
            final(self).wf(),
            compose_outcome(*old(self), *final(self), user_id@, revision, operation, r),
            final(self).origin() == old(self).origin(),
    {
        let len = self.operations.len();
        if revision > len {
            return Err(ComposeError::FutureRevision { revision, current: len });
        }
        if !op_seq_fits(&operation) {
            return Err(ComposeError::IncompatibleLengths);
        }
        let ghost hist = self.history_ops(revision as int);
        let mut op = operation;
        let mut i = revision;
        proof {
            assert(hist.skip(0) =~= hist);
        }
        while i < len
            invariant
                revision <= i <= len,
                len == self.operations@.len(),
                hist == self.history_ops(revision as int),
                hist.len() == len - revision,
                self.wf(),
                self.text_view() == old(self).text_view(),
                self.history() == old(self).history(),
                self.cursor_view() == old(self).cursor_view(),
                ops_fit(op_seq_ops(op)),
                transform_chain(op_seq_ops(operation), hist) == transform_chain(
                    op_seq_ops(op),
                    hist.skip(i - revision),
                ),
            decreases len - i,
        {
            let ghost rest = hist.skip(i - revision);
            assert(rest[0] == op_seq_ops(self.operations@[i as int].operation));
            assert(rest.drop_first() =~= hist.skip(i + 1 - revision));
            assert(ops_fit(op_seq_ops(self.operations@[i as int].operation)));
            let op_target = op_seq_target_len(&op);
            let h_target = op_seq_target_len(&self.operations[i].operation);
            proof {
                lemma_counter_exact(ops_target_len(op_seq_ops(op)));
                lemma_counter_exact(ops_target_len(op_seq_ops(self.operations@[i as int].operation)));
            }
            if op_target > usize::MAX - h_target {
                return Err(ComposeError::IncompatibleLengths);
            }
            match op_seq_transform(&op, &self.operations[i].operation) {
                Some(pair) => {
                    op = pair.0;
                },
                None => {
                    return Err(ComposeError::IncompatibleLengths);
                },
            }
            i = i + 1;
        }
        assert(hist.skip(len - revision) =~= Seq::<Seq<OpView>>::empty());
        let target_len = op_seq_target_len(&op);
        proof {
            lemma_counter_exact(ops_target_len(op_seq_ops(op)));
        }
        if target_len > MAX_DOCUMENT_BYTES {
            return Err(ComposeError::TooLarge { target_len });
        }
        let new_text = match op_seq_apply(&op, self.text.as_str()) {
            Some(t) => t,
            None => {
                return Err(ComposeError::IncompatibleLengths);
            },
        };
        let items = op_seq_items(&op);
        self.transform_cursors(&items);
        let ghost t = op_seq_ops(op);
        let ghost uid = user_id@;
        let ghost before = self.history_ops(0);
        self.operations.push(UserOperation { user_id, operation: op });
        self.text = new_text;
        assert(self.history() =~= old(self).history().push((uid, t)));
        assert(self.history_ops(0) =~= before.push(t));
        assert(self.history_ops(0).drop_last() =~= before);
        Ok(())
    }

    /// Maps every stored selection through the operation `items`.
    fn transform_cursors(&mut self, items: &Vec<OpItem>)
        requires
            old(self).wf(),
        ensures
            final(self).wf(),
            final(self).text_view() == old(self).text_view(),
            final(self).history() == old(self).history(),
            final(self).origin() == old(self).origin(),
            final(self).cursor_view() == old(self).cursor_view().map_values(
                |sel: Seq<(u32, u32)>| transform_selections(items_view(items@), sel),
            ),
    {
        let ghost ops = items_view(items@);
        let ghost start = self.cursor_view();
        let keys = self.cursors.keys();
        let mut j: usize = 0;
        while j < keys.len()
            invariant
                j <= keys@.len(),
                ops == items_view(items@),
                self.wf(),
                self.text_view() == old(self).text_view(),
                self.history() == old(self).history(),
                self.origin() == old(self).origin(),
                start == old(self).cursor_view(),
                self.cursor_view().dom() == start.dom(),
                forall|i: int| 0 <= i < keys@.len() ==> start.contains_key(#[trigger] keys@[i]@),
                forall|a: int, b: int|
                    0 <= a < keys@.len() && 0 <= b < keys@.len() && a != b ==> #[trigger] keys@[a]@
                        != #[trigger] keys@[b]@,
                forall|i: int|
                    0 <= i < j ==> self.cursor_view()[#[trigger] keys@[i]@] == transform_selections(
                        ops,
                        start[keys@[i]@],
                    ),
                forall|i: int|
                    j <= i < keys@.len() ==> self.cursor_view()[#[trigger] keys@[i]@]
                        == start[keys@[i]@],
            decreases keys@.len() - j,
        {
            let ghost before = self.cursor_view();
            assert(before[keys@[j as int]@] == start[keys@[j as int]@]);
            let ghost cv = self.cursors.view();
            let ghost kj = keys@[j as int]@;
            let cur = self.cursors.get(&keys[j]);
            assert(cur is Some);
            let sel = match cur {
                Some(v) => transform_selection_list(items, v),
                None => Vec::new(),
            };
            assert(sel@ == transform_selections(ops, start[kj]));
            self.cursors.insert(keys[j].clone(), sel);
            assert(self.cursors.view() == cv.insert(kj, sel));
            assert(self.cursor_view() =~= before.insert(kj, transform_selections(ops, start[kj])));
            assert forall|i: int| 0 <= i < j + 1 implies self.cursor_view()[#[trigger] keys@[i]@]
                == transform_selections(ops, start[keys@[i]@]) by {
                if i < j {
                    assert(keys@[i]@ != kj);
                }
            }
            assert forall|i: int| j + 1 <= i < keys@.len() implies self.cursor_view()[
                #[trigger] keys@[i]@] == start[keys@[i]@] by {
                assert(keys@[i]@ != kj);
            }
            j = j + 1;
        }
        proof {
            assert forall|k: Seq<char>| #[trigger] start.contains_key(k) implies self.cursor_view()[k]
                == transform_selections(ops, start[k]) by {
                let i = choose|i: int| 0 <= i < keys@.len() && #[trigger] keys@[i]@ == k;
                assert(self.cursor_view()[keys@[i]@] == transform_selections(ops, start[keys@[i]@]));
            }
            assert(self.cursor_view() =~= start.map_values(
                |sel: Seq<(u32, u32)>| transform_selections(ops, sel),
            ));
        }
    }
}

/// A copy of a selection list.
fn copy_selections(v: &Vec<(u32, u32)>) -> (r: Vec<(u32, u32)>)
    ensures
        r@ == v@,
{
    let mut r: Vec<(u32, u32)> = Vec::new();
    let mut i: usize = 0;
    while i < v.len()
        invariant
            i <= v@.len(),
            r@ == v@.take(i as int),
        decreases v@.len() - i,
    {
        r.push(v[i]);
        i = i + 1;
        assert(r@ =~= v@.take(i as int));
    }
    assert(v@.take(v@.len() as int) =~= v@);
    r
}

/// Maps both ends of every selection through the operation `items`.
fn transform_selection_list(items: &Vec<OpItem>, v: &Vec<(u32, u32)>) -> (r: Vec<(u32, u32)>)
    ensures
        r@ == transform_selections(items_view(items@), v@),
{
    let ghost ops = items_view(items@);
    let mut r: Vec<(u32, u32)> = Vec::new();
    let mut i: usize = 0;
    while i < v.len()
        invariant
            i <= v@.len(),
            ops == items_view(items@),
            r@ == transform_selections(ops, v@.take(i as int)),
        decreases v@.len() - i,
    {
        let (a, b) = v[i];
        let na = transform_index_items(items, a);
        let nb = transform_index_items(items, b);
        r.push((na, nb));
        i = i + 1;
        assert(r@ =~= transform_selections(ops, v@.take(i as int)));
    }
    assert(v@.take(v@.len() as int) =~= v@);
    r
}

/// What `compose` does: the error it reports for `operation`, written by
/// `user_id` against `revision`, or the document it leads to.
pub open spec fn compose_outcome(
    old: DocumentState,
    new: DocumentState,
    user_id: Seq<char>,
    revision: usize,
    operation: OperationSeq,
    r: Result<(), ComposeError>,
) -> bool {
    &&& revision > old.revision_view() ==> r == Err::<(), ComposeError>(
        ComposeError::FutureRevision { revision, current: old.revision_view() as usize },
    )
    &&& revision <= old.revision_view() && !ops_fit(op_seq_ops(operation)) ==> r == Err::<
        (),
        ComposeError,
    >(ComposeError::IncompatibleLengths)
    &&& revision <= old.revision_view() && ops_fit(op_seq_ops(operation)) ==> match transform_chain(
        op_seq_ops(operation),
        old.history_ops(revision as int),
    ) {
        None => r == Err::<(), ComposeError>(ComposeError::IncompatibleLengths),
        Some(t) => if ops_target_len(t) > MAX_DOCUMENT_BYTES {
            r == Err::<(), ComposeError>(
                ComposeError::TooLarge { target_len: ops_target_len(t) as usize },
            )
        } else if ops_base_len(t) != old.text_view().len() {
            r == Err::<(), ComposeError>(ComposeError::IncompatibleLengths)
        } else {
            &&& r is Ok
            &&& new.text_view() == apply_ops(t, old.text_view())
            &&& new.history() == old.history().push((user_id, t))
            &&& new.cursor_view() == old.cursor_view().map_values(
                |sel: Seq<(u32, u32)>| transform_selections(t, sel),
            )
        },
    }
    &&& r is Err ==> {
        &&& new.text_view() == old.text_view()
        &&& new.history() == old.history()
        &&& new.cursor_view() == old.cursor_view()
    }
}

/// The result `compose` reports for `operation` written against `revision`.
pub open spec fn compose_result(old: DocumentState, revision: usize, operation: OperationSeq) -> Result<
    (),
    ComposeError,
> {
    if revision > old.revision_view() {
        Err(ComposeError::FutureRevision { revision, current: old.revision_view() as usize })
    } else if !ops_fit(op_seq_ops(operation)) {
        Err(ComposeError::IncompatibleLengths)
    } else {
        match transform_chain(op_seq_ops(operation), old.history_ops(revision as int)) {
            None => Err(ComposeError::IncompatibleLengths),
            Some(t) => if ops_target_len(t) > MAX_DOCUMENT_BYTES {
                Err(ComposeError::TooLarge { target_len: ops_target_len(t) as usize })
            } else if ops_base_len(t) != old.text_view().len() {
                Err(ComposeError::IncompatibleLengths)
            } else {
                Ok(())
            },
        }
    }
}

/// The result of `compose` depends on the document before the call, the
/// revision and the operation alone.
pub proof fn compose_result_is_determined(
    old: DocumentState,
    new: DocumentState,
    user_id: Seq<char>,
    revision: usize,
    operation: OperationSeq,
    r: Result<(), ComposeError>,
)
    requires
        compose_outcome(old, new, user_id, revision, operation, r),
    ensures
        r == compose_result(old, revision, operation),
{
    if let Ok(u) = r {
        assert(u == ());
    }
}

/// A revision always fits in a `usize`.
pub proof fn lemma_revision_fits(d: DocumentState)
    ensures
        d.revision_view() <= usize::MAX,
{
    assert(d.operations.len() == d.operations@.len());
}

/// Whatever was accepted, a document's text is its starting text with each
/// accepted operation applied in turn.
pub proof fn text_replays_history(d: DocumentState)
    requires
        d.wf(),
    ensures
        d.text_view() == replay(d.origin(), d.history_ops(0)),
{
}

/// An accepted edit never takes a document beyond `MAX_DOCUMENT_BYTES`
/// characters.
pub proof fn accepted_edit_stays_within_limit(
    old: DocumentState,
    new: DocumentState,
    user_id: Seq<char>,
    revision: usize,
    operation: OperationSeq,
)
    requires
        compose_outcome(old, new, user_id, revision, operation, Ok(())),
    ensures
        new.text_view().len() <= MAX_DOCUMENT_BYTES,
{
    let t = transform_chain(op_seq_ops(operation), old.history_ops(revision as int))->Some_0;
    lemma_apply_len(t, old.text_view());
}

/// Replaying a list of operations in two parts is replaying it whole.
pub proof fn lemma_replay_split(text: Seq<char>, ops: Seq<Seq<OpView>>, k: int)
    requires
        0 <= k <= ops.len(),
    ensures
        replay(replay(text, ops.take(k)), ops.skip(k)) == replay(text, ops),
    decreases ops.len(),
{
    if k == ops.len() {
        assert(ops.take(k) =~= ops);
        assert(ops.skip(k) =~= Seq::<Seq<OpView>>::empty());
    } else {
        lemma_replay_split(text, ops.drop_last(), k);
        assert(ops.drop_last().take(k) =~= ops.take(k));
        assert(ops.skip(k).drop_last() =~= ops.drop_last().skip(k));
        assert(ops.skip(k).last() == ops.last());
    }
}

/// A client that has the text of revision `seen` and applies, in order, the
/// operations accepted since then reaches the document's current text.
pub proof fn sent_edits_reach_the_current_text(d: DocumentState, seen: int)
    requires
        d.wf(),
        0 <= seen <= d.revision_view(),
    ensures
        replay(replay(d.origin(), d.history_ops(0).take(seen)), d.history_ops(seen))
            == d.text_view(),
{
    assert(d.history_ops(seen) =~= d.history_ops(0).skip(seen));
    lemma_replay_split(d.origin(), d.history_ops(0), seen);
}

} // verus!
