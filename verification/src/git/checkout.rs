//! Checking out a pull request into a checkout of its own: the registry of
//! checkouts in progress and their cancellation, where a managed checkout
//! lives, and the decisions taken between the Git commands of a checkout.
use crate::external::{chars_of, sha256, sha256_digest, string_of};
use crate::git::command::GitOutput;
use crate::git::worktree::{opt_view, worktrees_view, Worktree, WorktreeView};
use crate::text::{
    chars_eq, decimal, decimal_of, first_match, hex, hex_of, is_first_match, lemma_first_match_at,
    lemma_first_match_none, lemma_first_of_any, push_chars, push_str, trim, trim_chars, upsert,
    lemma_upsert_other, lemma_upsert_same, lemma_first_match_some,
};
use vstd::prelude::*;
use vstd::string::StringSliceAdditionalSpecFns;

verus! {

/// How long a cancellation that arrived before its checkout is kept, in
/// milliseconds.
pub const PENDING_CANCELLATION_MILLIS: u64 = 60000;

/// A checkout in progress.
pub struct CheckoutOperation {
    pub id: String,
    pub project_key: String,
    pub cancelled: bool,
}

pub struct OperationView {
    pub id: Seq<char>,
    pub project_key: Seq<char>,
    pub cancelled: bool,
}

impl View for CheckoutOperation {
    type V = OperationView;

    open spec fn view(&self) -> OperationView {
        OperationView { id: self.id@, project_key: self.project_key@, cancelled: self.cancelled }
    }
}

/// A cancellation that arrived before its checkout registered, with the
/// time it arrived at (milliseconds of a monotonic clock).
pub struct PendingCancellation {
    pub id: String,
    pub requested_at: u64,
}

pub struct PendingView {
    pub id: Seq<char>,
    pub requested_at: u64,
}

impl View for PendingCancellation {
    type V = PendingView;

    open spec fn view(&self) -> PendingView {
        PendingView { id: self.id@, requested_at: self.requested_at }
    }
}

/// The checkouts in progress and the cancellations waiting for theirs.
pub struct CheckoutManager {
    operations: Vec<CheckoutOperation>,
    pending: Vec<PendingCancellation>,
}

pub struct ManagerView {
    pub operations: Seq<OperationView>,
    pub pending: Seq<PendingView>,
}

pub open spec fn operations_view(v: Seq<CheckoutOperation>) -> Seq<OperationView> {
    v.map_values(|o: CheckoutOperation| o@)
}

pub open spec fn pending_view(v: Seq<PendingCancellation>) -> Seq<PendingView> {
    v.map_values(|p: PendingCancellation| p@)
}

impl View for CheckoutManager {
    type V = ManagerView;

    closed spec fn view(&self) -> ManagerView {
        ManagerView { operations: operations_view(self.operations@), pending: pending_view(self.pending@) }
    }
}

/// No two checkouts share an identifier or a pull request, and no two waiting
/// cancellations share an identifier.
pub open spec fn well_formed(m: ManagerView) -> bool {
    &&& operations_distinct(m.operations)
    &&& forall|i: int, j: int| 0 <= i < j < m.pending.len() ==> (#[trigger] m.pending[i]).id != (#[trigger] m.pending[j]).id
}

/// No two checkouts share an identifier or a pull request.
pub open spec fn operations_distinct(ops: Seq<OperationView>) -> bool {
    &&& forall|i: int, j: int| 0 <= i < j < ops.len() ==> (#[trigger] ops[i]).id != (#[trigger] ops[j]).id
    &&& forall|i: int, j: int| 0 <= i < j < ops.len() ==> (#[trigger] ops[i]).project_key != (#[trigger] ops[j]).project_key
}

/// The key of a pull request's checkout: `<project>::pull-request::<number>`.
pub open spec fn project_key(project_id: Seq<char>, number: u64) -> Seq<char> {
    project_id + "::pull-request::"@ + decimal(number as nat)
}

pub open spec fn has_operation(ops: Seq<OperationView>, id: Seq<char>) -> bool {
    exists|i: int| 0 <= i < ops.len() && (#[trigger] ops[i]).id == id
}

pub open spec fn has_key(ops: Seq<OperationView>, key: Seq<char>) -> bool {
    exists|i: int| 0 <= i < ops.len() && (#[trigger] ops[i]).project_key == key
}

pub open spec fn has_pending(ps: Seq<PendingView>, id: Seq<char>) -> bool {
    exists|i: int| 0 <= i < ps.len() && (#[trigger] ps[i]).id == id
}

/// A waiting cancellation is still kept: less than the window has passed
/// since it arrived (a clock read earlier than its arrival counts as none).
pub open spec fn is_fresh(p: PendingView, now: u64) -> bool {
    now < p.requested_at || now - p.requested_at < PENDING_CANCELLATION_MILLIS
}

/// The waiting cancellations that are still kept, in order.
pub open spec fn keep_fresh(ps: Seq<PendingView>, now: u64) -> Seq<PendingView>
    decreases ps.len(),
{
    if ps.len() == 0 {
        ps
    } else if is_fresh(ps.last(), now) {
        keep_fresh(ps.drop_last(), now).push(ps.last())
    } else {
        keep_fresh(ps.drop_last(), now)
    }
}

/// The waiting cancellations but the one for `id`, in order.
pub open spec fn without_pending(ps: Seq<PendingView>, id: Seq<char>) -> Seq<PendingView>
    decreases ps.len(),
{
    if ps.len() == 0 {
        ps
    } else if ps.last().id != id {
        without_pending(ps.drop_last(), id).push(ps.last())
    } else {
        without_pending(ps.drop_last(), id)
    }
}

/// The checkouts in progress but the one for `id`, in order.
pub open spec fn without_operation(ops: Seq<OperationView>, id: Seq<char>) -> Seq<OperationView>
    decreases ops.len(),
{
    if ops.len() == 0 {
        ops
    } else if ops.last().id != id {
        without_operation(ops.drop_last(), id).push(ops.last())
    } else {
        without_operation(ops.drop_last(), id)
    }
}

pub open spec fn missing_id_error() -> Seq<char> {
    "checkout operation is missing an identifier"@
}

/// Registering a checkout: refused without an identifier, when the
/// identifier is in use, or when the pull request is already being checked
/// out; else it is added, cancelled from the start when a cancellation for
/// it is still waiting. Stale waiting cancellations are dropped, and the
/// one for this checkout is used up.
pub open spec fn spec_register(m: ManagerView, id: Seq<char>, project_id: Seq<char>, number: u64, now: u64) -> (ManagerView, Result<(), Seq<char>>) {
    let key = project_key(project_id, number);
    if trim(id).len() == 0 {
        (m, Err(missing_id_error()))
    } else if has_operation(m.operations, id) {
        (m, Err("checkout operation is already active"@))
    } else if has_key(m.operations, key) {
        (m, Err("this pull request is already being checked out"@))
    } else {
        let kept = keep_fresh(m.pending, now);
        let pre_cancelled = has_pending(kept, id);
        (
            ManagerView {
                operations: m.operations.push(OperationView { id: id, project_key: key, cancelled: pre_cancelled }),
                pending: without_pending(kept, id),
            },
            Ok(()),
        )
    }
}

pub open spec fn with_id(id: Seq<char>) -> spec_fn(OperationView) -> bool {
    |o: OperationView| o.id == id
}

pub open spec fn pending_id(id: Seq<char>) -> spec_fn(PendingView) -> bool {
    |p: PendingView| p.id == id
}

/// Cancelling a checkout: refused without an identifier; a checkout in
/// progress is marked cancelled; otherwise the cancellation waits for it,
/// stamped with the current time.
pub open spec fn spec_cancel(m: ManagerView, id: Seq<char>, now: u64) -> (ManagerView, Result<(), Seq<char>>) {
    if trim(id).len() == 0 {
        (m, Err(missing_id_error()))
    } else {
        match first_match(m.operations, with_id(id)) {
            Some(i) => (
                ManagerView {
                    operations: m.operations.update(i, OperationView { cancelled: true, ..m.operations[i] }),
                    pending: m.pending,
                },
                Ok(()),
            ),
            None => (
                ManagerView {
                    operations: m.operations,
                    pending: upsert(m.pending, pending_id(id), PendingView { id: id, requested_at: now }),
                },
                Ok(()),
            ),
        }
    }
}

/// Finishing a checkout: it leaves the registry, and so does a cancellation
/// waiting under its identifier; stale waiting cancellations are dropped.
pub open spec fn spec_finish(m: ManagerView, id: Seq<char>, now: u64) -> ManagerView {
    ManagerView {
        operations: without_operation(m.operations, id),
        pending: keep_fresh(without_pending(m.pending, id), now),
    }
}

/// Every checkout in progress, cancelled.
pub open spec fn all_cancelled(ops: Seq<OperationView>) -> Seq<OperationView> {
    ops.map_values(|o: OperationView| OperationView { cancelled: true, ..o })
}

/// Whether the checkout with that identifier is in progress and cancelled.
pub open spec fn spec_is_cancelled(m: ManagerView, id: Seq<char>) -> bool {
    exists|i: int| 0 <= i < m.operations.len() && (#[trigger] m.operations[i]).id == id && m.operations[i].cancelled
}

proof fn lemma_keep_fresh(ps: Seq<PendingView>, now: u64)
    ensures
        forall|j: int| 0 <= j < keep_fresh(ps, now).len() ==> exists|i: int| 0 <= i < ps.len() && #[trigger] keep_fresh(ps, now)[j] == ps[i] && is_fresh(ps[i], now),
        forall|i: int| 0 <= i < ps.len() && is_fresh(ps[i], now) ==> exists|j: int| 0 <= j < keep_fresh(ps, now).len() && keep_fresh(ps, now)[j] == #[trigger] ps[i],
        (forall|i: int, j: int| 0 <= i < j < ps.len() ==> (#[trigger] ps[i]).id != (#[trigger] ps[j]).id) ==> (forall|i: int, j: int| 0 <= i < j < keep_fresh(ps, now).len() ==> (#[trigger] keep_fresh(ps, now)[i]).id != (#[trigger] keep_fresh(ps, now)[j]).id),
    decreases ps.len(),
{
    if ps.len() > 0 {
        let q = ps.drop_last();
        lemma_keep_fresh(q, now);
        let k = keep_fresh(q, now);
        assert forall|j: int| 0 <= j < keep_fresh(ps, now).len() implies exists|i: int| 0 <= i < ps.len() && #[trigger] keep_fresh(ps, now)[j] == ps[i] && is_fresh(ps[i], now) by {
            if j < k.len() {
                let i = choose|i: int| 0 <= i < q.len() && #[trigger] k[j] == q[i] && is_fresh(q[i], now);
                assert(ps[i] == q[i]);
            } else {
                assert(keep_fresh(ps, now)[j] == ps[ps.len() - 1]);
            }
        }
        assert forall|i: int| 0 <= i < ps.len() && is_fresh(ps[i], now) implies exists|j: int| 0 <= j < keep_fresh(ps, now).len() && keep_fresh(ps, now)[j] == #[trigger] ps[i] by {
            if i < q.len() {
                assert(q[i] == ps[i]);
                let j = choose|j: int| 0 <= j < k.len() && k[j] == #[trigger] q[i];
                assert(keep_fresh(ps, now)[j] == k[j]);
            } else {
                assert(keep_fresh(ps, now)[k.len() as int] == ps[i]);
            }
        }
        if forall|i: int, j: int| 0 <= i < j < ps.len() ==> (#[trigger] ps[i]).id != (#[trigger] ps[j]).id {
            assert forall|i: int, j: int| 0 <= i < j < q.len() implies (#[trigger] q[i]).id != (#[trigger] q[j]).id by {
                assert(q[i] == ps[i] && q[j] == ps[j]);
            }
            let r = keep_fresh(ps, now);
            assert forall|i: int, j: int| 0 <= i < j < r.len() implies (#[trigger] r[i]).id != (#[trigger] r[j]).id by {
                if j < k.len() {
                    assert(r[i] == k[i] && r[j] == k[j]);
                } else {
                    assert(r[j] == ps.last());
                    assert(r[i] == k[i]);
                    let a = choose|a: int| 0 <= a < q.len() && #[trigger] k[i] == q[a] && is_fresh(q[a], now);
                    assert(q[a] == ps[a]);
                    assert(ps[a].id != ps[ps.len() - 1].id);
                }
            }
        }
    }
}

proof fn lemma_without_pending(ps: Seq<PendingView>, id: Seq<char>)
    ensures
        forall|j: int| 0 <= j < without_pending(ps, id).len() ==> exists|i: int| 0 <= i < ps.len() && #[trigger] without_pending(ps, id)[j] == ps[i] && ps[i].id != id,
        (forall|i: int, j: int| 0 <= i < j < ps.len() ==> (#[trigger] ps[i]).id != (#[trigger] ps[j]).id) ==> (forall|i: int, j: int| 0 <= i < j < without_pending(ps, id).len() ==> (#[trigger] without_pending(ps, id)[i]).id != (#[trigger] without_pending(ps, id)[j]).id),
    decreases ps.len(),
{
    if ps.len() > 0 {
        let q = ps.drop_last();
        lemma_without_pending(q, id);
        let k = without_pending(q, id);
        assert forall|j: int| 0 <= j < without_pending(ps, id).len() implies exists|i: int| 0 <= i < ps.len() && #[trigger] without_pending(ps, id)[j] == ps[i] && ps[i].id != id by {
            if j < k.len() {
                let i = choose|i: int| 0 <= i < q.len() && #[trigger] k[j] == q[i] && q[i].id != id;
                assert(ps[i] == q[i]);
            } else {
                assert(without_pending(ps, id)[j] == ps[ps.len() - 1]);
            }
        }
        if forall|i: int, j: int| 0 <= i < j < ps.len() ==> (#[trigger] ps[i]).id != (#[trigger] ps[j]).id {
            assert forall|i: int, j: int| 0 <= i < j < q.len() implies (#[trigger] q[i]).id != (#[trigger] q[j]).id by {
                assert(q[i] == ps[i] && q[j] == ps[j]);
            }
            let r = without_pending(ps, id);
            assert forall|i: int, j: int| 0 <= i < j < r.len() implies (#[trigger] r[i]).id != (#[trigger] r[j]).id by {
                if j < k.len() {
                    assert(r[i] == k[i] && r[j] == k[j]);
                } else {
                    assert(r[j] == ps.last());
                    assert(r[i] == k[i]);
                    let a = choose|a: int| 0 <= a < q.len() && #[trigger] k[i] == q[a] && q[a].id != id;
                    assert(q[a] == ps[a]);
                    assert(ps[a].id != ps[ps.len() - 1].id);
                }
            }
        }
    }
}

proof fn lemma_without_operation(ops: Seq<OperationView>, id: Seq<char>)
    ensures
        forall|j: int| 0 <= j < without_operation(ops, id).len() ==> exists|i: int| 0 <= i < ops.len() && #[trigger] without_operation(ops, id)[j] == ops[i] && ops[i].id != id,
        operations_distinct(ops) ==> operations_distinct(without_operation(ops, id)),
    decreases ops.len(),
{
    if ops.len() > 0 {
        let q = ops.drop_last();
        lemma_without_operation(q, id);
        let k = without_operation(q, id);
        let r = without_operation(ops, id);
        assert forall|j: int| 0 <= j < r.len() implies exists|i: int| 0 <= i < ops.len() && #[trigger] r[j] == ops[i] && ops[i].id != id by {
            if j < k.len() {
                let i = choose|i: int| 0 <= i < q.len() && #[trigger] k[j] == q[i] && q[i].id != id;
                assert(ops[i] == q[i]);
            } else {
                assert(r[j] == ops[ops.len() - 1]);
            }
        }
        if operations_distinct(ops) {
            assert forall|i: int, j: int| 0 <= i < j < q.len() implies (#[trigger] q[i]).id != (#[trigger] q[j]).id by {
                assert(q[i] == ops[i] && q[j] == ops[j]);
            }
            assert forall|i: int, j: int| 0 <= i < j < q.len() implies (#[trigger] q[i]).project_key != (#[trigger] q[j]).project_key by {
                assert(q[i] == ops[i] && q[j] == ops[j]);
            }
            assert(operations_distinct(q));
            assert forall|i: int, j: int| 0 <= i < j < r.len() implies (#[trigger] r[i]).id != (#[trigger] r[j]).id by {
                if j < k.len() {
                    assert(r[i] == k[i] && r[j] == k[j]);
                } else {
                    assert(r[j] == ops.last());
                    assert(r[i] == k[i]);
                    let a = choose|a: int| 0 <= a < q.len() && #[trigger] k[i] == q[a] && q[a].id != id;
                    assert(q[a] == ops[a]);
                    assert(ops[a].id != ops[ops.len() - 1].id);
                }
            }
            assert forall|i: int, j: int| 0 <= i < j < r.len() implies (#[trigger] r[i]).project_key != (#[trigger] r[j]).project_key by {
                if j < k.len() {
                    assert(r[i] == k[i] && r[j] == k[j]);
                } else {
                    assert(r[j] == ops.last());
                    assert(r[i] == k[i]);
                    let a = choose|a: int| 0 <= a < q.len() && #[trigger] k[i] == q[a] && q[a].id != id;
                    assert(q[a] == ops[a]);
                    assert(ops[a].project_key != ops[ops.len() - 1].project_key);
                }
            }
        }
    }
}

/// A checkout's key.
fn key_of(project_id: &str, number: u64) -> (r: String)
    ensures
        r@ == project_key(project_id@, number),
{
    let mut v = chars_of(project_id);
    push_str(&mut v, "::pull-request::");
    let d = decimal_of(number as u128);
    push_chars(&mut v, &d);
    string_of(&v)
}

fn same(a: &str, b: &str) -> (r: bool)
    ensures
        r == (a@ == b@),
{
    chars_eq(&chars_of(a), &chars_of(b))
}

impl CheckoutManager {
    /// An empty registry.
    pub fn new() -> (r: Self)
        ensures
            r@.operations.len() == 0,
            r@.pending.len() == 0,
            well_formed(r@),
    {
        CheckoutManager { operations: Vec::new(), pending: Vec::new() }
    }

    fn find_operation(&self, id: &str) -> (r: Option<usize>)
        ensures
            r matches Some(i) ==> i < self@.operations.len() && first_match(self@.operations, with_id(id@)) == Some(i as int),
            r is None ==> first_match(self@.operations, with_id(id@)) is None,
            r is None <==> !has_operation(self@.operations, id@),
    {
        let ghost ops = self@.operations;
        let mut i: usize = 0;
        while i < self.operations.len()
            invariant
                i <= self.operations.len(),
                ops == operations_view(self.operations@),
                forall|j: int| 0 <= j < i ==> !(#[trigger] with_id(id@)(ops[j])),
            decreases self.operations.len() - i,
        {
            assert(ops[i as int] == self.operations@[i as int]@);
            if same(self.operations[i].id.as_str(), id) {
                proof {
                    lemma_first_match_at(ops, with_id(id@), i as int);
                }
                return Some(i);
            }
            i = i + 1;
        }
        proof {
            lemma_first_match_none(ops, with_id(id@));
            assert forall|j: int| 0 <= j < ops.len() implies (#[trigger] ops[j]).id != id@ by {
                assert(!with_id(id@)(ops[j]));
            }
        }
        None
    }

    fn has_key(&self, key: &str) -> (r: bool)
        ensures
            r == has_key(self@.operations, key@),
    {
        let ghost ops = self@.operations;
        let mut i: usize = 0;
        while i < self.operations.len()
            invariant
                i <= self.operations.len(),
                ops == operations_view(self.operations@),
                forall|j: int| 0 <= j < i ==> (#[trigger] ops[j]).project_key != key@,
            decreases self.operations.len() - i,
        {
            assert(ops[i as int] == self.operations@[i as int]@);
            if same(self.operations[i].project_key.as_str(), key) {
                return true;
            }
            i = i + 1;
        }
        false
    }

    /// Drops the waiting cancellations that are stale.
    fn drop_stale(&mut self, now: u64)
        ensures
            final(self)@.operations == old(self)@.operations,
            final(self)@.pending == keep_fresh(old(self)@.pending, now),
    {
        let ghost ps = old(self)@.pending;
        let mut old_pending: Vec<PendingCancellation> = Vec::new();
        std::mem::swap(&mut old_pending, &mut self.pending);
        let mut kept: Vec<PendingCancellation> = Vec::new();
        let mut rest = old_pending;
        let n = rest.len();
        let mut k: usize = 0;
        while rest.len() > 0
            invariant
                k <= n,
                rest.len() + k == n,
                ps.len() == n,
                pending_view(rest@) == ps.subrange(k as int, n as int),
                pending_view(kept@) == keep_fresh(ps.subrange(0, k as int), now),
            decreases rest.len(),
        {
            let ghost before = pending_view(rest@);
            let p = rest.remove(0);
            assert(before[0] == p@);
            assert(pending_view(rest@) =~= before.subrange(1, before.len() as int));
            assert(ps.subrange(0, k + 1).drop_last() =~= ps.subrange(0, k as int));
            assert(ps.subrange(0, k + 1).last() == p@);
            if p.requested_at > now || now - p.requested_at < PENDING_CANCELLATION_MILLIS {
                let ghost kv = pending_view(kept@);
                kept.push(p);
                assert(pending_view(kept@) =~= kv.push(p@));
            }
            k = k + 1;
        }
        assert(ps.subrange(0, n as int) =~= ps);
        self.pending = kept;
    }

    /// Drops the waiting cancellation for `id`, if any.
    fn drop_pending(&mut self, id: &str)
        ensures
            final(self)@.operations == old(self)@.operations,
            final(self)@.pending == without_pending(old(self)@.pending, id@),
    {
        let ghost ps = old(self)@.pending;
        let mut old_pending: Vec<PendingCancellation> = Vec::new();
        std::mem::swap(&mut old_pending, &mut self.pending);
        let mut kept: Vec<PendingCancellation> = Vec::new();
        let mut rest = old_pending;
        let n = rest.len();
        let mut k: usize = 0;
        while rest.len() > 0
            invariant
                k <= n,
                rest.len() + k == n,
                ps.len() == n,
                pending_view(rest@) == ps.subrange(k as int, n as int),
                pending_view(kept@) == without_pending(ps.subrange(0, k as int), id@),
            decreases rest.len(),
        {
            let ghost before = pending_view(rest@);
            let p = rest.remove(0);
            assert(before[0] == p@);
            assert(pending_view(rest@) =~= before.subrange(1, before.len() as int));
            assert(ps.subrange(0, k + 1).drop_last() =~= ps.subrange(0, k as int));
            assert(ps.subrange(0, k + 1).last() == p@);
            if !same(p.id.as_str(), id) {
                let ghost kv = pending_view(kept@);
                kept.push(p);
                assert(pending_view(kept@) =~= kv.push(p@));
            }
            k = k + 1;
        }
        assert(ps.subrange(0, n as int) =~= ps);
        self.pending = kept;
    }

    fn has_pending(&self, id: &str) -> (r: bool)
        ensures
            r == has_pending(self@.pending, id@),
    {
        let ghost ps = self@.pending;
        let mut i: usize = 0;
        while i < self.pending.len()
            invariant
                i <= self.pending.len(),
                ps == pending_view(self.pending@),
                forall|j: int| 0 <= j < i ==> (#[trigger] ps[j]).id != id@,
            decreases self.pending.len() - i,
        {
            assert(ps[i as int] == self.pending@[i as int]@);
            if same(self.pending[i].id.as_str(), id) {
                return true;
            }
            i = i + 1;
        }
        false
    }

    /// Registers a checkout of pull request `number` of a project, at time
    /// `now` (milliseconds of a monotonic clock).
    pub fn register(&mut self, operation_id: &str, project_id: &str, number: u64, now: u64) -> (r: Result<(), String>)
        requires
            well_formed(old(self)@),
        ensures
            well_formed(final(self)@),
            final(self)@ == spec_register(old(self)@, operation_id@, project_id@, number, now).0,
            r matches Ok(()) ==> spec_register(old(self)@, operation_id@, project_id@, number, now).1 is Ok,
            r matches Err(e) ==> spec_register(old(self)@, operation_id@, project_id@, number, now).1 == Err::<(), Seq<char>>(e@),
    {
        if trim_chars(&chars_of(operation_id)).len() == 0 {
            return Err(String::from_str("checkout operation is missing an identifier"));
        }
        let key = key_of(project_id, number);
        if self.find_operation(operation_id).is_some() {
            return Err(String::from_str("checkout operation is already active"));
        }
        if self.has_key(key.as_str()) {
            return Err(String::from_str("this pull request is already being checked out"));
        }
        let ghost m = self@;
        self.drop_stale(now);
        proof {
            lemma_keep_fresh(m.pending, now);
        }
        let pre_cancelled = self.has_pending(operation_id);
        self.drop_pending(operation_id);
        proof {
            lemma_without_pending(keep_fresh(m.pending, now), operation_id@);
        }
        let ghost ops = self@.operations;
        self.operations.push(CheckoutOperation { id: operation_id.to_string(), project_key: key, cancelled: pre_cancelled });
        assert(self@.operations =~= ops.push(OperationView { id: operation_id@, project_key: key@, cancelled: pre_cancelled }));
        proof {
            let o = self@.operations;
            assert forall|i: int, j: int| 0 <= i < j < o.len() implies (#[trigger] o[i]).id != (#[trigger] o[j]).id && o[i].project_key != o[j].project_key by {
                if j == o.len() - 1 {
                    assert(o[i] == ops[i]);
                    if o[i].id == operation_id@ {
                        assert(has_operation(ops, operation_id@));
                    }
                    if o[i].project_key == key@ {
                        assert(has_key(ops, key@));
                    }
                } else {
                    assert(o[i] == ops[i] && o[j] == ops[j]);
                }
            }
        }
        Ok(())
    }

    /// Cancels a checkout, at time `now`.
    pub fn cancel(&mut self, operation_id: &str, now: u64) -> (r: Result<(), String>)
        requires
            well_formed(old(self)@),
        ensures
            well_formed(final(self)@),
            final(self)@ == spec_cancel(old(self)@, operation_id@, now).0,
            r matches Ok(()) ==> spec_cancel(old(self)@, operation_id@, now).1 is Ok,
            r matches Err(e) ==> spec_cancel(old(self)@, operation_id@, now).1 == Err::<(), Seq<char>>(e@),
    {
        if trim_chars(&chars_of(operation_id)).len() == 0 {
            return Err(String::from_str("checkout operation is missing an identifier"));
        }
        let ghost m = self@;
        match self.find_operation(operation_id) {
            Some(i) => {
                set_cancelled(&mut self.operations, i);
                proof {
                    let o = self@.operations;
                    assert(o =~= m.operations.update(i as int, OperationView { cancelled: true, ..m.operations[i as int] }));
                    assert forall|a: int, b: int| 0 <= a < b < o.len() implies (#[trigger] o[a]).id != (#[trigger] o[b]).id && o[a].project_key != o[b].project_key by {
                        assert(o[a].id == m.operations[a].id && o[b].id == m.operations[b].id);
                        assert(o[a].project_key == m.operations[a].project_key && o[b].project_key == m.operations[b].project_key);
                    }
                }
                Ok(())
            },
            None => {
                let ghost ps = m.pending;
                let mut j: usize = 0;
                let mut found = false;
                while j < self.pending.len()
                    invariant_except_break
                        !found,
                    invariant
                        j <= self.pending.len(),
                        ps == pending_view(self.pending@),
                        forall|k: int| 0 <= k < j ==> !(#[trigger] pending_id(operation_id@)(ps[k])),
                    ensures
                        found ==> j < self.pending.len() && is_first_match(ps, pending_id(operation_id@), j as int),
                        !found ==> forall|k: int| 0 <= k < ps.len() ==> !(#[trigger] pending_id(operation_id@)(ps[k])),
                    decreases self.pending.len() - j,
                {
                    assert(ps[j as int] == self.pending@[j as int]@);
                    if same(self.pending[j].id.as_str(), operation_id) {
                        found = true;
                        break;
                    }
                    j = j + 1;
                }
                let entry = PendingCancellation { id: operation_id.to_string(), requested_at: now };
                let ghost v = entry@;
                if found {
                    proof {
                        lemma_first_match_at(ps, pending_id(operation_id@), j as int);
                    }
                    self.pending.set(j, entry);
                    assert(self@.pending =~= upsert(ps, pending_id(operation_id@), v));
                } else {
                    proof {
                        lemma_first_match_none(ps, pending_id(operation_id@));
                    }
                    self.pending.push(entry);
                    assert(self@.pending =~= upsert(ps, pending_id(operation_id@), v));
                }
                proof {
                    let q = self@.pending;
                    assert forall|a: int, b: int| 0 <= a < b < q.len() implies (#[trigger] q[a]).id != (#[trigger] q[b]).id by {
                        if found {
                            if a == j {
                                assert(q[b] == ps[b]);
                                assert(ps[j as int].id == operation_id@);
                            } else if b == j {
                                assert(q[a] == ps[a]);
                                assert(ps[j as int].id == operation_id@);
                            } else {
                                assert(q[a] == ps[a] && q[b] == ps[b]);
                            }
                        } else {
                            if b == q.len() - 1 {
                                assert(q[a] == ps[a]);
                                assert(!pending_id(operation_id@)(ps[a]));
                            } else {
                                assert(q[a] == ps[a] && q[b] == ps[b]);
                            }
                        }
                    }
                }
                Ok(())
            },
        }
    }

    /// Removes a finished checkout, at time `now`.
    pub fn finish(&mut self, operation_id: &str, now: u64)
        requires
            well_formed(old(self)@),
        ensures
            well_formed(final(self)@),
            final(self)@ == spec_finish(old(self)@, operation_id@, now),
    {
        let ghost m = self@;
        let ghost ops = m.operations;
        let mut old_ops: Vec<CheckoutOperation> = Vec::new();
        std::mem::swap(&mut old_ops, &mut self.operations);
        let mut kept: Vec<CheckoutOperation> = Vec::new();
        let mut rest = old_ops;
        let n = rest.len();
        let mut k: usize = 0;
        while rest.len() > 0
            invariant
                k <= n,
                rest.len() + k == n,
                ops.len() == n,
                operations_view(rest@) == ops.subrange(k as int, n as int),
                operations_view(kept@) == without_operation(ops.subrange(0, k as int), operation_id@),
            decreases rest.len(),
        {
            let ghost before = operations_view(rest@);
            let o = rest.remove(0);
            assert(before[0] == o@);
            assert(operations_view(rest@) =~= before.subrange(1, before.len() as int));
            assert(ops.subrange(0, k + 1).drop_last() =~= ops.subrange(0, k as int));
            assert(ops.subrange(0, k + 1).last() == o@);
            if !same(o.id.as_str(), operation_id) {
                let ghost kv = operations_view(kept@);
                kept.push(o);
                assert(operations_view(kept@) =~= kv.push(o@));
            }
            k = k + 1;
        }
        assert(ops.subrange(0, n as int) =~= ops);
        self.operations = kept;
        proof {
            lemma_without_operation(ops, operation_id@);
        }
        self.drop_pending(operation_id);
        proof {
            lemma_without_pending(m.pending, operation_id@);
        }
        self.drop_stale(now);
        proof {
            lemma_keep_fresh(without_pending(m.pending, operation_id@), now);
        }
    }

    /// Cancels every checkout in progress.
    pub fn cancel_all(&mut self)
        requires
            well_formed(old(self)@),
        ensures
            well_formed(final(self)@),
            final(self)@.operations == all_cancelled(old(self)@.operations),
            final(self)@.pending == old(self)@.pending,
    {
        let ghost m = self@;
        let mut i: usize = 0;
        while i < self.operations.len()
            invariant
                i <= self.operations.len(),
                self.operations.len() == m.operations.len(),
                self@.pending == m.pending,
                forall|j: int| 0 <= j < i ==> #[trigger] self@.operations[j] == (OperationView { cancelled: true, ..m.operations[j] }),
                forall|j: int| i <= j < self.operations.len() ==> #[trigger] self@.operations[j] == m.operations[j],
            decreases self.operations.len() - i,
        {
            let ghost before = self@.operations;
            set_cancelled(&mut self.operations, i);
            assert(self@.operations =~= before.update(i as int, OperationView { cancelled: true, ..before[i as int] }));
            i = i + 1;
        }
        assert(self@.operations =~= all_cancelled(m.operations));
        proof {
            let o = self@.operations;
            assert forall|a: int, b: int| 0 <= a < b < o.len() implies (#[trigger] o[a]).id != (#[trigger] o[b]).id && o[a].project_key != o[b].project_key by {
                assert(o[a].id == m.operations[a].id && o[b].id == m.operations[b].id);
            }
        }
    }

    /// Whether the checkout with that identifier is in progress and has been
    /// cancelled.
    pub fn is_cancelled(&self, operation_id: &str) -> (r: bool)
        requires
            well_formed(self@),
        ensures
            r == spec_is_cancelled(self@, operation_id@),
    {
        match self.find_operation(operation_id) {
            Some(i) => {
                proof {
                    lemma_first_match_some(self@.operations, with_id(operation_id@));
                }
                let c = self.operations[i].cancelled;
                assert(self@.operations[i as int].cancelled == c);
                proof {
                    if !c {
                        assert forall|k: int| 0 <= k < self@.operations.len() && (#[trigger] self@.operations[k]).id == operation_id@ implies !self@.operations[k].cancelled by {
                            if k != i {
                                if k < i {
                                    assert(self@.operations[k].id != self@.operations[i as int].id);
                                } else {
                                    assert(self@.operations[i as int].id != self@.operations[k].id);
                                }
                            }
                        }
                    }
                }
                c
            },
            None => false,
        }
    }
}

/// Marks one checkout cancelled.
fn set_cancelled(ops: &mut Vec<CheckoutOperation>, i: usize)
    requires
        i < old(ops).len(),
    ensures
        operations_view(final(ops)@) == operations_view(old(ops)@).update(i as int, OperationView { cancelled: true, ..operations_view(old(ops)@)[i as int] }),
{
    let ghost before = operations_view(ops@);
    let mut o = ops.remove(i);
    o.cancelled = true;
    ops.insert(i, o);
    assert(operations_view(ops@) =~= before.update(i as int, OperationView { cancelled: true, ..before[i as int] }));
}

/// A request to check out a pull request.
#[derive(Debug)]
pub struct CheckoutPullRequestRequest {
    pub project_id: String,
    pub project_path: String,
    pub pull_request_number: u64,
    pub head_sha: String,
    pub head_branch: String,
}

/// Where a pull request was checked out.
#[derive(Debug)]
pub struct CheckoutPullRequestResult {
    pub worktree_path: String,
}

/// `PathBuf::push` of a relative part: a separator goes between the two
/// unless the base is empty or already ends with one.
pub open spec fn join_path(base: Seq<char>, part: Seq<char>) -> Seq<char> {
    if base.len() == 0 || base.last() == '/' {
        base + part
    } else {
        base + seq!['/'] + part
    }
}

fn join_onto(base: &mut Vec<char>, part: &Vec<char>)
    ensures
        final(base)@ == join_path(old(base)@, part@),
{
    if base.len() > 0 && base[base.len() - 1] != '/' {
        base.push('/');
    }
    push_chars(base, part);
    assert(base@ =~= join_path(old(base)@, part@));
}

/// The managed checkout of pull request `number`:
/// `<app data>/pull-request-checkouts/<project>/pr-<number>`, where the
/// project is named by the first eight bytes of the SHA-256 digest of its
/// identifier, in lowercase hexadecimal.
pub open spec fn spec_managed_path(app_data: Seq<char>, project_id: Seq<u8>, number: u64) -> Seq<char> {
    join_path(
        join_path(join_path(app_data, "pull-request-checkouts"@), hex(sha256(project_id).subrange(0, 8))),
        "pr-"@ + decimal(number as nat),
    )
}

/// The managed checkout of a pull request.
pub fn managed_pull_request_checkout_path(app_data: &str, project_id: &str, number: u64) -> (r: String)
    ensures
        r@ == spec_managed_path(app_data@, project_id.spec_bytes(), number),
{
    let digest = sha256_digest(project_id.as_bytes());
    let project = hex_of(&digest, 8);
    let mut path = chars_of(app_data);
    join_onto(&mut path, &chars_of("pull-request-checkouts"));
    join_onto(&mut path, &project);
    let mut name = chars_of("pr-");
    push_chars(&mut name, &decimal_of(number as u128));
    join_onto(&mut path, &name);
    string_of(&path)
}

/// A checkout that can serve the pull request as it is: not bare, at the
/// fetched commit, and detached or on the pull request's branch.
pub open spec fn reusable(fetched_sha: Seq<char>, head_branch: Seq<char>) -> spec_fn(WorktreeView) -> bool {
    |w: WorktreeView| !w.bare && w.sha == fetched_sha && (w.detached || w.branch == Some("refs/heads/"@ + head_branch))
}

/// The first checkout that can serve the pull request as it is.
pub fn reusable_checkout(worktrees: &Vec<Worktree>, fetched_sha: &str, head_branch: &str) -> (r: Option<usize>)
    ensures
        r matches Some(i) ==> i < worktrees.len() && first_match(worktrees_view(worktrees@), reusable(fetched_sha@, head_branch@)) == Some(i as int),
        r is None ==> first_match(worktrees_view(worktrees@), reusable(fetched_sha@, head_branch@)) is None,
{
    let ghost ws = worktrees_view(worktrees@);
    let ghost p = reusable(fetched_sha@, head_branch@);
    let mut reference = chars_of("refs/heads/");
    push_str(&mut reference, head_branch);
    let sha = chars_of(fetched_sha);
    let mut i: usize = 0;
    while i < worktrees.len()
        invariant
            i <= worktrees.len(),
            ws == worktrees_view(worktrees@),
            p == reusable(fetched_sha@, head_branch@),
            reference@ == "refs/heads/"@ + head_branch@,
            sha@ == fetched_sha@,
            forall|j: int| 0 <= j < i ==> !(#[trigger] p(ws[j])),
        decreases worktrees.len() - i,
    {
        let w = &worktrees[i];
        assert(ws[i as int] == w@);
        let on_branch = match &w.branch {
            Some(b) => chars_eq(&chars_of(b.as_str()), &reference),
            None => false,
        };
        if !w.bare && chars_eq(&chars_of(w.sha.as_str()), &sha) && (w.detached || on_branch) {
            proof {
                lemma_first_match_at(ws, p, i as int);
            }
            return Some(i);
        }
        i = i + 1;
    }
    proof {
        lemma_first_match_none(ws, p);
    }
    None
}

pub open spec fn unit_view(r: Result<(), String>) -> Result<(), Seq<char>> {
    match r {
        Ok(()) => Ok(()),
        Err(e) => Err(e@),
    }
}

/// An error, with the failure of the cleanup that followed it when there
/// was one.
pub open spec fn spec_with_cleanup_error(error: Seq<char>, cleanup: Result<(), Seq<char>>) -> Seq<char> {
    match cleanup {
        Ok(()) => error,
        Err(c) => error + "; cleanup also failed: "@ + c,
    }
}

/// An error, with the failure of the cleanup that followed it.
pub fn with_cleanup_error(error: String, cleanup: Result<(), String>) -> (r: String)
    ensures
        r@ == spec_with_cleanup_error(error@, unit_view(cleanup)),
{
    match cleanup {
        Ok(()) => error,
        Err(c) => {
            let mut v = chars_of(error.as_str());
            push_str(&mut v, "; cleanup also failed: ");
            push_str(&mut v, c.as_str());
            string_of(&v)
        },
    }
}

/// Two cleanup results as one: a failure of either, or both joined by `; `.
pub open spec fn spec_combine_cleanup(first: Result<(), Seq<char>>, second: Result<(), Seq<char>>) -> Result<(), Seq<char>> {
    match (first, second) {
        (Ok(()), Ok(())) => Ok(()),
        (Err(a), Ok(())) => Err(a),
        (Ok(()), Err(b)) => Err(b),
        (Err(a), Err(b)) => Err(a + "; "@ + b),
    }
}

/// Two cleanup results as one.
pub fn combine_cleanup_results(first: Result<(), String>, second: Result<(), String>) -> (r: Result<(), String>)
    ensures
        unit_view(r) == spec_combine_cleanup(unit_view(first), unit_view(second)),
{
    match (first, second) {
        (Ok(()), Ok(())) => Ok(()),
        (Err(a), Ok(())) => Err(a),
        (Ok(()), Err(b)) => Err(b),
        (Err(a), Err(b)) => {
            let mut v = chars_of(a.as_str());
            push_str(&mut v, "; ");
            push_str(&mut v, b.as_str());
            Err(string_of(&v))
        },
    }
}

/// A checkout stops with an error once it is cancelled.
pub fn ensure_not_cancelled(cancelled: bool) -> (r: Result<(), String>)
    ensures
        cancelled ==> unit_view(r) == Err::<(), Seq<char>>("checkout cancelled"@),
        !cancelled ==> r is Ok,
{
    if cancelled {
        Err(String::from_str("checkout cancelled"))
    } else {
        Ok(())
    }
}

/// The repository at the project's path must still be the project.
pub fn check_identity(common_dir: &str, project_id: &str) -> (r: Result<(), String>)
    ensures
        common_dir@ == project_id@ ==> r is Ok,
        common_dir@ != project_id@ ==> unit_view(r) == Err::<(), Seq<char>>("project identity no longer matches; rescan before checking out the pull request"@),
{
    if same(common_dir, project_id) {
        Ok(())
    } else {
        Err(String::from_str("project identity no longer matches; rescan before checking out the pull request"))
    }
}

/// The fetched head must be the one the board showed.
pub fn check_fetched_head(fetched_sha: &str, head_sha: &str) -> (r: Result<(), String>)
    ensures
        fetched_sha@ == head_sha@ ==> r is Ok,
        fetched_sha@ != head_sha@ ==> unit_view(r) == Err::<(), Seq<char>>("the pull request changed on GitHub; refresh it and try again"@),
{
    if same(fetched_sha, head_sha) {
        Ok(())
    } else {
        Err(String::from_str("the pull request changed on GitHub; refresh it and try again"))
    }
}

/// A cancellation that arrives before its checkout registers, and less than
/// the window before it, cancels the checkout from the start.
pub proof fn law_cancel_before_register(m: ManagerView, id: Seq<char>, project_id: Seq<char>, number: u64, t: u64, t2: u64)
    requires
        well_formed(m),
        !has_operation(m.operations, id),
        t <= t2,
        t2 - t < PENDING_CANCELLATION_MILLIS,
    ensures
        ({
            let m1 = spec_cancel(m, id, t).0;
            let (m2, r) = spec_register(m1, id, project_id, number, t2);
            r is Ok ==> spec_is_cancelled(m2, id)
        }),
{
    let m1 = spec_cancel(m, id, t).0;
    if trim(id).len() > 0 {
        assert forall|i: int| 0 <= i < m.operations.len() implies !(#[trigger] with_id(id)(m.operations[i])) by {
            assert(m.operations[i].id != id);
        }
        lemma_first_match_none(m.operations, with_id(id));
        let v = PendingView { id: id, requested_at: t };
        lemma_upsert_same(m.pending, pending_id(id), v);
        let k = first_match(m1.pending, pending_id(id))->0;
        assert(m1.pending[k] == v);
        assert(0 <= k < m1.pending.len()) by {
            lemma_first_match_some(m1.pending, pending_id(id));
        }
        lemma_keep_fresh(m1.pending, t2);
        assert(is_fresh(m1.pending[k], t2));
        let kept = keep_fresh(m1.pending, t2);
        let j = choose|j: int| 0 <= j < kept.len() && kept[j] == #[trigger] m1.pending[k];
        assert(kept[j].id == id);
        assert(has_pending(kept, id));
        let (m2, r) = spec_register(m1, id, project_id, number, t2);
        if r is Ok {
            let last = m2.operations.len() - 1;
            assert(m2.operations[last].id == id && m2.operations[last].cancelled);
        }
    }
}

/// Once a checkout is finished, its pull request and its identifier are free
/// again: a new checkout of the same pull request registers under any
/// identifier that is not in use.
pub proof fn law_finish_frees_pull_request(m: ManagerView, id: Seq<char>, other: Seq<char>, project_id: Seq<char>, number: u64, t: u64, t2: u64, t3: u64)
    requires
        well_formed(m),
        spec_register(m, id, project_id, number, t).1 is Ok,
        trim(other).len() > 0,
        !has_operation(spec_finish(spec_register(m, id, project_id, number, t).0, id, t2).operations, other),
    ensures
        spec_register(spec_finish(spec_register(m, id, project_id, number, t).0, id, t2), other, project_id, number, t3).1 is Ok,
        !has_operation(spec_finish(spec_register(m, id, project_id, number, t).0, id, t2).operations, id),
{
    let m1 = spec_register(m, id, project_id, number, t).0;
    let m2 = spec_finish(m1, id, t2);
    let key = project_key(project_id, number);
    lemma_without_operation(m1.operations, id);
    assert forall|j: int| 0 <= j < m2.operations.len() implies (#[trigger] m2.operations[j]).project_key != key && m2.operations[j].id != id by {
        let i = choose|i: int| 0 <= i < m1.operations.len() && #[trigger] m2.operations[j] == m1.operations[i] && m1.operations[i].id != id;
        if i < m.operations.len() {
            assert(m1.operations[i] == m.operations[i]);
        }
    }
}

/// Whether a managed checkout left from before may be replaced: its
/// status listing succeeded and is empty, and its head is an ancestor of
/// the fetched commit (`git merge-base --is-ancestor`, asked only when the
/// checkout is clean).
pub open spec fn spec_can_replace(status: GitOutput, ancestor: GitOutput) -> bool {
    status.code == Some(0i32) && status.stdout@.len() == 0 && ancestor.code == Some(0i32)
}

/// Whether a managed checkout left from before may be replaced.
pub fn can_replace_checkout(status: &GitOutput, ancestor: &GitOutput) -> (r: bool)
    ensures
        r == spec_can_replace(*status, *ancestor),
{
    status.code == Some(0i32) && status.stdout.len() == 0 && ancestor.code == Some(0i32)
}

fn prefixed(prefix: &str, error: &str) -> (r: String)
    ensures
        r@ == prefix@ + error@,
{
    let mut v = chars_of(prefix);
    push_str(&mut v, error);
    string_of(&v)
}

pub open spec fn prefixed_error(prefix: Seq<char>, r: Result<(), Seq<char>>) -> Result<(), Seq<char>> {
    match r {
        Ok(()) => Ok(()),
        Err(e) => Err(prefix + e),
    }
}

fn prefix_error(prefix: &str, r: &Result<(), String>) -> (x: Result<(), String>)
    ensures
        unit_view(x) == prefixed_error(prefix@, unit_view(*r)),
{
    match r {
        Ok(()) => Ok(()),
        Err(e) => Err(prefixed(prefix, e.as_str())),
    }
}

/// Removing a managed checkout that Git still has registered: `git worktree
/// remove`, then clearing what is left on disk, each failure named.
pub open spec fn spec_remove_existing(removal: Result<(), Seq<char>>, present_after: bool, clear: Result<(), Seq<char>>) -> Result<(), Seq<char>> {
    match removal {
        Err(e) => Err("could not remove the previous PR checkout: "@ + e),
        Ok(()) => if present_after {
            prefixed_error("could not clear the previous PR checkout: "@, clear)
        } else {
            Ok(())
        },
    }
}

/// Removing a managed checkout that Git still has registered.
pub fn remove_existing_worktree(removal: &Result<(), String>, present_after: bool, clear: &Result<(), String>) -> (r: Result<(), String>)
    ensures
        unit_view(r) == spec_remove_existing(unit_view(*removal), present_after, unit_view(*clear)),
{
    match removal {
        Err(e) => Err(prefixed("could not remove the previous PR checkout: ", e.as_str())),
        Ok(()) => if present_after {
            prefix_error("could not clear the previous PR checkout: ", clear)
        } else {
            Ok(())
        },
    }
}

/// Removing a stale path that Git does not know: a link is removed; a
/// directory only when it is empty; anything else is left for the user.
/// `kind` is the path's metadata (is it a link, is it a directory),
/// `nonempty` whether the directory has an entry.
pub open spec fn spec_remove_unregistered(
    path: Seq<char>,
    kind: Result<(bool, bool), Seq<char>>,
    nonempty: Result<bool, Seq<char>>,
    removal: Result<(), Seq<char>>,
) -> Result<(), Seq<char>> {
    match kind {
        Err(e) => Err("could not inspect stale PR checkout: "@ + e),
        Ok((link, dir)) => if link {
            prefixed_error("could not remove stale PR checkout link: "@, removal)
        } else if !dir {
            Err("stale PR checkout path "@ + path + " is not a directory; remove it manually before retrying"@)
        } else {
            match nonempty {
                Err(e) => Err("could not inspect stale PR checkout: "@ + e),
                Ok(true) => Err("stale PR checkout path "@ + path + " contains files; remove it manually before retrying"@),
                Ok(false) => prefixed_error("could not remove stale PR checkout: "@, removal),
            }
        },
    }
}

pub open spec fn kind_view(r: Result<(bool, bool), String>) -> Result<(bool, bool), Seq<char>> {
    match r {
        Ok(k) => Ok(k),
        Err(e) => Err(e@),
    }
}

pub open spec fn flag_view(r: Result<bool, String>) -> Result<bool, Seq<char>> {
    match r {
        Ok(b) => Ok(b),
        Err(e) => Err(e@),
    }
}

/// Removing a stale path that Git does not know.
pub fn remove_unregistered_path(
    path: &str,
    kind: &Result<(bool, bool), String>,
    nonempty: &Result<bool, String>,
    removal: &Result<(), String>,
) -> (r: Result<(), String>)
    ensures
        unit_view(r) == spec_remove_unregistered(path@, kind_view(*kind), flag_view(*nonempty), unit_view(*removal)),
{
    match kind {
        Err(e) => Err(prefixed("could not inspect stale PR checkout: ", e.as_str())),
        Ok((link, dir)) => {
            if *link {
                prefix_error("could not remove stale PR checkout link: ", removal)
            } else if !*dir {
                let mut v = chars_of("stale PR checkout path ");
                push_str(&mut v, path);
                push_str(&mut v, " is not a directory; remove it manually before retrying");
                Err(string_of(&v))
            } else {
                match nonempty {
                    Err(e) => Err(prefixed("could not inspect stale PR checkout: ", e.as_str())),
                    Ok(true) => {
                        let mut v = chars_of("stale PR checkout path ");
                        push_str(&mut v, path);
                        push_str(&mut v, " contains files; remove it manually before retrying");
                        Err(string_of(&v))
                    },
                    Ok(false) => prefix_error("could not remove stale PR checkout: ", removal),
                }
            }
        },
    }
}

/// What is removed while a managed checkout's place is made or a failed
/// checkout is cleaned up. Nothing else is ever removed: local work is kept.
#[derive(Clone, Copy, Debug, PartialEq, Eq, Structural)]
pub enum Removal {
    /// Remove nothing.
    Keep,
    /// Unregister and remove the checkout (`git worktree remove --force`).
    RemoveRegistered,
    /// Remove the link at the path, not what it points to.
    RemoveLink,
    /// Remove the directory at the path, which is empty.
    RemoveEmptyDir,
    /// Remove the directory at the path with all it holds.
    RemoveAll,
}

/// What to remove of a stale path that Git does not know: a link; a
/// directory only when it was read and found empty; nothing else.
pub open spec fn spec_stale_removal(kind: Result<(bool, bool), Seq<char>>, nonempty: Result<bool, Seq<char>>) -> Removal {
    match kind {
        Ok((true, _)) => Removal::RemoveLink,
        Ok((false, true)) => if nonempty == Ok::<bool, Seq<char>>(false) {
            Removal::RemoveEmptyDir
        } else {
            Removal::Keep
        },
        _ => Removal::Keep,
    }
}

/// What to remove of a stale path that Git does not know, given its
/// metadata (is it a link, is it a directory) and whether the directory has
/// an entry. A directory that holds anything, or that could not be read, is
/// kept.
pub fn stale_removal(kind: &Result<(bool, bool), String>, nonempty: &Result<bool, String>) -> (r: Removal)
    ensures
        r == spec_stale_removal(kind_view(*kind), flag_view(*nonempty)),
        kind_view(*kind) == Ok::<(bool, bool), Seq<char>>((false, true)) && flag_view(*nonempty) != Ok::<bool, Seq<char>>(false) ==> r == Removal::Keep,
        kind is Err ==> r == Removal::Keep,
        r == Removal::Keep || r == Removal::RemoveLink || r == Removal::RemoveEmptyDir,
{
    match kind {
        Ok((link, dir)) => {
            if *link {
                Removal::RemoveLink
            } else if *dir {
                match nonempty {
                    Ok(false) => Removal::RemoveEmptyDir,
                    _ => Removal::Keep,
                }
            } else {
                Removal::Keep
            }
        },
        Err(_) => Removal::Keep,
    }
}

/// What to remove of a managed checkout that Git has registered at the
/// place of a new one: the checkout, when the request is not cancelled and
/// the checkout is gone from disk or is clean and behind the fetched commit;
/// otherwise nothing.
pub open spec fn spec_registered_removal(registered_exists: bool, replaceable: bool, cancelled: bool) -> Removal {
    if !cancelled && (!registered_exists || replaceable) {
        Removal::RemoveRegistered
    } else {
        Removal::Keep
    }
}

/// What to remove of a registered checkout at the place of a new one. A
/// checkout that is dirty or has diverged is kept.
pub fn registered_removal(registered_exists: bool, replaceable: bool, cancelled: bool) -> (r: Removal)
    ensures
        r == spec_registered_removal(registered_exists, replaceable, cancelled),
        registered_exists && !replaceable ==> r == Removal::Keep,
        cancelled ==> r == Removal::Keep,
{
    if !cancelled && (!registered_exists || replaceable) {
        Removal::RemoveRegistered
    } else {
        Removal::Keep
    }
}

/// What to remove of what is left on disk once Git has removed a registered
/// checkout (or failed to): everything when Git removed it; when Git
/// failed, the path is treated as a stale path (see `spec_stale_removal`).
pub open spec fn spec_leftover_removal(
    unregistered: bool,
    present: bool,
    kind: Result<(bool, bool), Seq<char>>,
    nonempty: Result<bool, Seq<char>>,
) -> Removal {
    if !present {
        Removal::Keep
    } else if unregistered {
        Removal::RemoveAll
    } else {
        spec_stale_removal(kind, nonempty)
    }
}

/// What to remove of what is left on disk after `git worktree remove`:
/// `unregistered` is whether Git succeeded, `present` whether anything is
/// left at the path; `kind` and `nonempty` are read only when Git failed.
pub fn leftover_removal(
    unregistered: bool,
    present: bool,
    kind: &Result<(bool, bool), String>,
    nonempty: &Result<bool, String>,
) -> (r: Removal)
    ensures
        r == spec_leftover_removal(unregistered, present, kind_view(*kind), flag_view(*nonempty)),
        !unregistered && kind_view(*kind) == Ok::<(bool, bool), Seq<char>>((false, true)) && flag_view(*nonempty) != Ok::<bool, Seq<char>>(false) ==> r == Removal::Keep,
{
    if !present {
        Removal::Keep
    } else if unregistered {
        Removal::RemoveAll
    } else {
        stale_removal(kind, nonempty)
    }
}

/// Local work in a checkout is never removed to make room for a new one:
/// a registered checkout that is dirty or has diverged is kept and the
/// checkout stops with an error; a stale directory that Git does not know
/// and that holds files is kept and the checkout stops with an error naming
/// it.
pub proof fn law_checkout_keeps_local_work(
    path: Seq<char>,
    registered_exists: bool,
    replaceable: bool,
    cancelled: bool,
    remove_existing: Result<(), Seq<char>>,
    removal: Result<(), Seq<char>>,
)
    ensures
        registered_exists && !replaceable ==> {
            &&& spec_registered_removal(registered_exists, replaceable, cancelled) == Removal::Keep
            &&& spec_prepare(true, registered_exists, replaceable, cancelled, remove_existing, true, removal) is Err
        },
        spec_stale_removal(Ok((false, true)), Ok(true)) == Removal::Keep,
        spec_remove_unregistered(path, Ok((false, true)), Ok(true), removal)
            == Err::<(), Seq<char>>("stale PR checkout path "@ + path + " contains files; remove it manually before retrying"@),
        spec_leftover_removal(false, true, Ok((false, true)), Ok(true)) == Removal::Keep,
{
}

/// Making room for a managed checkout: a registered checkout there is
/// replaced only when it exists no more or is clean and behind the fetched
/// commit (the checkout stops first if it was cancelled); a stale path that
/// Git does not know is removed (see `remove_unregistered_path`).
pub open spec fn spec_prepare(
    registered: bool,
    registered_exists: bool,
    replaceable: bool,
    cancelled: bool,
    remove_existing: Result<(), Seq<char>>,
    present: bool,
    remove_unregistered: Result<(), Seq<char>>,
) -> Result<(), Seq<char>> {
    if registered {
        if cancelled {
            Err("checkout cancelled"@)
        } else if registered_exists && !replaceable {
            Err("an existing pull request checkout is dirty or has diverged; preserve it or remove it before retrying"@)
        } else {
            remove_existing
        }
    } else if present {
        remove_unregistered
    } else {
        Ok(())
    }
}

/// Making room for a managed checkout. `remove_existing` is the outcome of
/// `remove_existing_worktree`, `remove_unregistered` that of
/// `remove_unregistered_path`, each used only when that removal happens.
pub fn prepare_managed_path(
    registered: bool,
    registered_exists: bool,
    replaceable: bool,
    cancelled: bool,
    remove_existing: Result<(), String>,
    present: bool,
    remove_unregistered: Result<(), String>,
) -> (r: Result<(), String>)
    ensures
        unit_view(r) == spec_prepare(registered, registered_exists, replaceable, cancelled, unit_view(remove_existing), present, unit_view(remove_unregistered)),
{
    if registered {
        if registered_exists && !replaceable {
            ensure_not_cancelled(cancelled)?;
            return Err(String::from_str("an existing pull request checkout is dirty or has diverged; preserve it or remove it before retrying"));
        }
        ensure_not_cancelled(cancelled)?;
        remove_existing
    } else if present {
        remove_unregistered
    } else {
        Ok(())
    }
}

/// Cleaning up a checkout that failed half-way: `git worktree remove`, then
/// clearing what is left on disk (as a stale path when Git failed); when Git
/// failed, the checkout must no longer be registered (`still_registered`,
/// from reading the worktrees again).
pub open spec fn spec_cleanup_partial(
    removal: Result<(), Seq<char>>,
    present: bool,
    clear: Result<(), Seq<char>>,
    still_registered: Result<bool, Seq<char>>,
) -> Result<(), Seq<char>> {
    if present && clear is Err {
        Err("could not clean up the partial PR checkout: "@ + clear->Err_0)
    } else {
        match removal {
            Ok(()) => Ok(()),
            Err(e) => match still_registered {
                Err(r) => Err("could not verify partial PR checkout cleanup after Git failed: "@ + e + "; "@ + r),
                Ok(true) => Err("could not remove the partial PR checkout: "@ + e),
                Ok(false) => Ok(()),
            },
        }
    }
}

/// Cleaning up a checkout that failed half-way.
pub fn cleanup_partial_checkout(
    removal: &Result<(), String>,
    present: bool,
    clear: &Result<(), String>,
    still_registered: &Result<bool, String>,
) -> (r: Result<(), String>)
    ensures
        unit_view(r) == spec_cleanup_partial(unit_view(*removal), present, unit_view(*clear), flag_view(*still_registered)),
{
    if present {
        if let Err(e) = clear {
            return Err(prefixed("could not clean up the partial PR checkout: ", e.as_str()));
        }
    }
    match removal {
        Ok(()) => Ok(()),
        Err(e) => match still_registered {
            Err(r) => {
                let mut v = chars_of("could not verify partial PR checkout cleanup after Git failed: ");
                push_str(&mut v, e.as_str());
                push_str(&mut v, "; ");
                push_str(&mut v, r.as_str());
                Err(string_of(&v))
            },
            Ok(true) => Err(prefixed("could not remove the partial PR checkout: ", e.as_str())),
            Ok(false) => Ok(()),
        },
    }
}

/// The Git configuration that ties a checkout to its pull request: enable
/// per-worktree configuration in the repository, then record the number in
/// the checkout's own configuration.
pub fn association_args(number: u64) -> (r: (Vec<String>, Vec<String>))
    ensures
        r.0.len() == 3 && r.0@[0]@ == "config"@ && r.0@[1]@ == "extensions.worktreeConfig"@ && r.0@[2]@ == "true"@,
        r.1.len() == 4 && r.1@[0]@ == "config"@ && r.1@[1]@ == "--worktree"@
            && r.1@[2]@ == "shipyard.pull-request-number"@ && r.1@[3]@ == decimal(number as nat),
{
    let mut first: Vec<String> = Vec::new();
    first.push(String::from_str("config"));
    first.push(String::from_str("extensions.worktreeConfig"));
    first.push(String::from_str("true"));
    let mut second: Vec<String> = Vec::new();
    second.push(String::from_str("config"));
    second.push(String::from_str("--worktree"));
    second.push(String::from_str("shipyard.pull-request-number"));
    second.push(string_of(&decimal_of(number as u128)));
    (first, second)
}

/// The outcome of every step of a pull request's checkout, each read only
/// when the steps before it called for it: the checked project root and its
/// common directory, the cancellation state at each point where it is
/// checked, the fetched head, the worktrees, linking the project's
/// dependencies, recording the pull request, removing the dependency link
/// again, making room, creating the parent folder, adding the worktree, and
/// cleaning up a partial checkout.
pub struct CheckoutFacts {
    pub root: Result<String, String>,
    pub common_dir: Result<String, String>,
    pub cancelled_before_fetch: bool,
    pub fetched: Result<String, String>,
    pub cancelled_after_fetch: bool,
    pub worktrees: Result<Vec<Worktree>, String>,
    pub cancelled_before_reuse: bool,
    pub link: Result<bool, String>,
    pub associate: Result<(), String>,
    pub unlink: Result<(), String>,
    pub prepare: Result<(), String>,
    pub cancelled_after_prepare: bool,
    pub create_parent: Result<(), String>,
    pub add: Result<(), String>,
    pub cleanup: Result<(), String>,
}

pub open spec fn text_view(r: Result<String, String>) -> Result<Seq<char>, Seq<char>> {
    match r {
        Ok(t) => Ok(t@),
        Err(e) => Err(e@),
    }
}

pub open spec fn ws_result(r: Result<Vec<Worktree>, String>) -> Result<Seq<WorktreeView>, Seq<char>> {
    match r {
        Ok(v) => Ok(worktrees_view(v@)),
        Err(e) => Err(e@),
    }
}

/// Removing the dependency link, when one was made.
pub open spec fn unlink_outcome(linked: bool, unlink: Result<(), Seq<char>>) -> Result<(), Seq<char>> {
    if linked {
        unlink
    } else {
        Ok(())
    }
}

/// The outcome of checking out a pull request, from the outcome of each
/// step: the project must still be the one named; the fetched head must be
/// the one shown; a checkout that can serve the pull request as it is is
/// reused; otherwise a managed checkout is made at `path`. A failure after
/// the checkout was created is reported with the failure of its cleanup, if
/// any. Once the pull request is recorded, the checkout is complete.
pub open spec fn spec_checkout(request: CheckoutPullRequestRequest, path: Seq<char>, facts: CheckoutFacts) -> Result<Seq<char>, Seq<char>> {
    match text_view(facts.root) {
        Err(e) => Err(e),
        Ok(_) => match text_view(facts.common_dir) {
            Err(e) => Err(e),
            Ok(common) => if common != request.project_id@ {
                Err("project identity no longer matches; rescan before checking out the pull request"@)
            } else if facts.cancelled_before_fetch {
                Err("checkout cancelled"@)
            } else {
                match text_view(facts.fetched) {
                    Err(e) => Err(e),
                    Ok(fetched) => if facts.cancelled_after_fetch {
                        Err("checkout cancelled"@)
                    } else if fetched != request.head_sha@ {
                        Err("the pull request changed on GitHub; refresh it and try again"@)
                    } else {
                        match ws_result(facts.worktrees) {
                            Err(e) => Err(e),
                            Ok(ws) => match first_match(ws, reusable(fetched, request.head_branch@)) {
                                Some(i) => if facts.cancelled_before_reuse {
                                    Err("checkout cancelled"@)
                                } else {
                                    match flag_view(facts.link) {
                                        Err(e) => Err(e),
                                        Ok(linked) => match unit_view(facts.associate) {
                                            Err(e) => Err(spec_with_cleanup_error(e, unlink_outcome(linked, unit_view(facts.unlink)))),
                                            Ok(()) => Ok(ws[i].path),
                                        },
                                    }
                                },
                                None => match unit_view(facts.prepare) {
                                    Err(e) => Err(e),
                                    Ok(()) => if facts.cancelled_after_prepare {
                                        Err("checkout cancelled"@)
                                    } else {
                                        match unit_view(facts.create_parent) {
                                            Err(e) => Err(e),
                                            Ok(()) => match unit_view(facts.add) {
                                                Err(e) => Err(spec_with_cleanup_error(e, unit_view(facts.cleanup))),
                                                Ok(()) => match flag_view(facts.link) {
                                                    Err(e) => Err(spec_with_cleanup_error(e, unit_view(facts.cleanup))),
                                                    Ok(linked) => match unit_view(facts.associate) {
                                                        Err(e) => Err(spec_with_cleanup_error(
                                                            e,
                                                            spec_combine_cleanup(unlink_outcome(linked, unit_view(facts.unlink)), unit_view(facts.cleanup)),
                                                        )),
                                                        Ok(()) => Ok(path),
                                                    },
                                                },
                                            },
                                        }
                                    },
                                },
                            },
                        }
                    },
                }
            },
        },
    }
}

pub open spec fn checkout_result(r: Result<CheckoutPullRequestResult, String>) -> Result<Seq<char>, Seq<char>> {
    match r {
        Ok(c) => Ok(c.worktree_path@),
        Err(e) => Err(e@),
    }
}

fn unlink_result(linked: bool, unlink: &Result<(), String>) -> (r: Result<(), String>)
    ensures
        unit_view(r) == unlink_outcome(linked, unit_view(*unlink)),
{
    if linked {
        match unlink {
            Ok(()) => Ok(()),
            Err(e) => Err(e.clone()),
        }
    } else {
        Ok(())
    }
}

fn copy_unit(r: &Result<(), String>) -> (x: Result<(), String>)
    ensures
        unit_view(x) == unit_view(*r),
{
    match r {
        Ok(()) => Ok(()),
        Err(e) => Err(e.clone()),
    }
}

/// A step of checking out a pull request. `Link`, `Associate` and `Unlink`
/// name the checkout they act on: an existing one by its position among the
/// worktrees Git listed, or the managed checkout (none).
#[derive(Clone, Copy, Debug, PartialEq, Eq)]
pub enum CheckoutStep {
    /// Nothing has run yet.
    Start,
    /// Check that the project's path is a checkout of the project (`root`).
    ValidateRoot,
    /// Resolve the repository's common directory (`common_dir`).
    ResolveCommonDir,
    /// Look whether the request was cancelled (`cancelled_before_fetch`).
    CheckCancelledBeforeFetch,
    /// Fetch the pull request's head (`fetched`).
    Fetch,
    /// Look whether the request was cancelled (`cancelled_after_fetch`).
    CheckCancelledAfterFetch,
    /// Read the repository's worktrees (`worktrees`).
    ReadWorktrees,
    /// Look whether the request was cancelled (`cancelled_before_reuse`).
    CheckCancelledBeforeReuse,
    /// Make room for the managed checkout (`prepare`).
    Prepare,
    /// Look whether the request was cancelled (`cancelled_after_prepare`).
    CheckCancelledAfterPrepare,
    /// Create the managed checkout's parent folder (`create_parent`).
    CreateParent,
    /// Add the managed checkout at the fetched commit (`add`).
    Add,
    /// Link the project's dependencies into a checkout (`link`).
    Link(Option<usize>),
    /// Record the pull request in a checkout's configuration (`associate`).
    Associate(Option<usize>),
    /// Remove the dependency link again (`unlink`).
    Unlink(Option<usize>),
    /// Clean up the managed checkout that failed half-way (`cleanup`).
    Cleanup,
    /// Nothing more runs; the outcome is `pull_request_with_cancellation`'s.
    Done,
}

/// The position of the checkout that can serve the pull request as it is,
/// once the head was fetched and the worktrees read.
pub open spec fn reuse_index(request: CheckoutPullRequestRequest, facts: CheckoutFacts) -> Option<int> {
    match (text_view(facts.fetched), ws_result(facts.worktrees)) {
        (Ok(f), Ok(ws)) => first_match(ws, reusable(f, request.head_branch@)),
        _ => None,
    }
}

/// The step after a checkout step that acted on `target`, once it failed:
/// an existing checkout is left as it is; the managed one is cleaned up.
pub open spec fn after_failure(target: Option<usize>) -> CheckoutStep {
    if target is Some {
        CheckoutStep::Done
    } else {
        CheckoutStep::Cleanup
    }
}

/// The step that runs after `last`, given the outcomes read so far: the
/// steps run in the order that `spec_checkout` reads their outcomes, and
/// stop at the first outcome that decides the result.
pub open spec fn spec_next_step(
    request: CheckoutPullRequestRequest,
    facts: CheckoutFacts,
    last: CheckoutStep,
) -> CheckoutStep {
    match last {
        CheckoutStep::Start => CheckoutStep::ValidateRoot,
        CheckoutStep::ValidateRoot => if facts.root is Err {
            CheckoutStep::Done
        } else {
            CheckoutStep::ResolveCommonDir
        },
        CheckoutStep::ResolveCommonDir => match text_view(facts.common_dir) {
            Ok(c) => if c == request.project_id@ {
                CheckoutStep::CheckCancelledBeforeFetch
            } else {
                CheckoutStep::Done
            },
            Err(_) => CheckoutStep::Done,
        },
        CheckoutStep::CheckCancelledBeforeFetch => if facts.cancelled_before_fetch {
            CheckoutStep::Done
        } else {
            CheckoutStep::Fetch
        },
        CheckoutStep::Fetch => if facts.fetched is Err {
            CheckoutStep::Done
        } else {
            CheckoutStep::CheckCancelledAfterFetch
        },
        CheckoutStep::CheckCancelledAfterFetch => match text_view(facts.fetched) {
            Ok(f) => if !facts.cancelled_after_fetch && f == request.head_sha@ {
                CheckoutStep::ReadWorktrees
            } else {
                CheckoutStep::Done
            },
            Err(_) => CheckoutStep::Done,
        },
        CheckoutStep::ReadWorktrees => if facts.worktrees is Err {
            CheckoutStep::Done
        } else if reuse_index(request, facts) is Some {
            CheckoutStep::CheckCancelledBeforeReuse
        } else {
            CheckoutStep::Prepare
        },
        CheckoutStep::CheckCancelledBeforeReuse => match reuse_index(request, facts) {
            Some(i) => if facts.cancelled_before_reuse {
                CheckoutStep::Done
            } else {
                CheckoutStep::Link(Some(i as usize))
            },
            None => CheckoutStep::Done,
        },
        CheckoutStep::Prepare => if facts.prepare is Err {
            CheckoutStep::Done
        } else {
            CheckoutStep::CheckCancelledAfterPrepare
        },
        CheckoutStep::CheckCancelledAfterPrepare => if facts.cancelled_after_prepare {
            CheckoutStep::Done
        } else {
            CheckoutStep::CreateParent
        },
        CheckoutStep::CreateParent => if facts.create_parent is Err {
            CheckoutStep::Done
        } else {
            CheckoutStep::Add
        },
        CheckoutStep::Add => if facts.add is Err {
            CheckoutStep::Cleanup
        } else {
            CheckoutStep::Link(None)
        },
        CheckoutStep::Link(target) => match facts.link {
            Ok(_) => CheckoutStep::Associate(target),
            Err(_) => after_failure(target),
        },
        CheckoutStep::Associate(target) => match facts.associate {
            Ok(()) => CheckoutStep::Done,
            Err(_) => if facts.link == Ok::<bool, String>(true) {
                CheckoutStep::Unlink(target)
            } else {
                after_failure(target)
            },
        },
        CheckoutStep::Unlink(target) => after_failure(target),
        CheckoutStep::Cleanup => CheckoutStep::Done,
        CheckoutStep::Done => CheckoutStep::Done,
    }
}

fn failure_step(target: Option<usize>) -> (r: CheckoutStep)
    ensures
        r == after_failure(target),
{
    if target.is_some() {
        CheckoutStep::Done
    } else {
        CheckoutStep::Cleanup
    }
}

fn reuse_position(request: &CheckoutPullRequestRequest, facts: &CheckoutFacts) -> (r: Option<usize>)
    ensures
        match reuse_index(*request, *facts) {
            Some(i) => r == Some(i as usize) && (facts.worktrees matches Ok(ws) && i < ws.len()),
            None => r is None,
        },
{
    match (&facts.fetched, &facts.worktrees) {
        (Ok(f), Ok(ws)) => reusable_checkout(ws, f.as_str(), request.head_branch.as_str()),
        _ => None,
    }
}

/// The step that runs after `last`. The caller runs it, records its outcome
/// in `facts`, and asks again until the answer is `Done`; then
/// `pull_request_with_cancellation` gives the outcome.
pub fn next_checkout_step(request: &CheckoutPullRequestRequest, facts: &CheckoutFacts, last: CheckoutStep) -> (r: CheckoutStep)
    ensures
        r == spec_next_step(*request, *facts, last),
{
    match last {
        CheckoutStep::Start => CheckoutStep::ValidateRoot,
        CheckoutStep::ValidateRoot => if facts.root.is_err() {
            CheckoutStep::Done
        } else {
            CheckoutStep::ResolveCommonDir
        },
        CheckoutStep::ResolveCommonDir => match &facts.common_dir {
            Ok(c) => if same(c.as_str(), request.project_id.as_str()) {
                CheckoutStep::CheckCancelledBeforeFetch
            } else {
                CheckoutStep::Done
            },
            Err(_) => CheckoutStep::Done,
        },
        CheckoutStep::CheckCancelledBeforeFetch => if facts.cancelled_before_fetch {
            CheckoutStep::Done
        } else {
            CheckoutStep::Fetch
        },
        CheckoutStep::Fetch => if facts.fetched.is_err() {
            CheckoutStep::Done
        } else {
            CheckoutStep::CheckCancelledAfterFetch
        },
        CheckoutStep::CheckCancelledAfterFetch => match &facts.fetched {
            Ok(f) => if !facts.cancelled_after_fetch && same(f.as_str(), request.head_sha.as_str()) {
                CheckoutStep::ReadWorktrees
            } else {
                CheckoutStep::Done
            },
            Err(_) => CheckoutStep::Done,
        },
        CheckoutStep::ReadWorktrees => if facts.worktrees.is_err() {
            CheckoutStep::Done
        } else if reuse_position(request, facts).is_some() {
            CheckoutStep::CheckCancelledBeforeReuse
        } else {
            CheckoutStep::Prepare
        },
        CheckoutStep::CheckCancelledBeforeReuse => match reuse_position(request, facts) {
            Some(i) => if facts.cancelled_before_reuse {
                CheckoutStep::Done
            } else {
                CheckoutStep::Link(Some(i))
            },
            None => CheckoutStep::Done,
        },
        CheckoutStep::Prepare => if facts.prepare.is_err() {
            CheckoutStep::Done
        } else {
            CheckoutStep::CheckCancelledAfterPrepare
        },
        CheckoutStep::CheckCancelledAfterPrepare => if facts.cancelled_after_prepare {
            CheckoutStep::Done
        } else {
            CheckoutStep::CreateParent
        },
        CheckoutStep::CreateParent => if facts.create_parent.is_err() {
            CheckoutStep::Done
        } else {
            CheckoutStep::Add
        },
        CheckoutStep::Add => if facts.add.is_err() {
            CheckoutStep::Cleanup
        } else {
            CheckoutStep::Link(None)
        },
        CheckoutStep::Link(target) => match &facts.link {
            Ok(_) => CheckoutStep::Associate(target),
            Err(_) => failure_step(target),
        },
        CheckoutStep::Associate(target) => match &facts.associate {
            Ok(()) => CheckoutStep::Done,
            Err(_) => {
                let linked = match &facts.link {
                    Ok(l) => *l,
                    Err(_) => false,
                };
                if linked {
                    CheckoutStep::Unlink(target)
                } else {
                    failure_step(target)
                }
            },
        },
        CheckoutStep::Unlink(target) => failure_step(target),
        CheckoutStep::Cleanup => CheckoutStep::Done,
        CheckoutStep::Done => CheckoutStep::Done,
    }
}

/// A checkout that existed before the request is never cleaned up: when a
/// step on it fails, the checkout stops and leaves it as it is.
pub proof fn law_existing_checkout_is_never_cleaned_up(request: CheckoutPullRequestRequest, facts: CheckoutFacts, i: usize)
    ensures
        spec_next_step(request, facts, CheckoutStep::Link(Some(i))) != CheckoutStep::Cleanup,
        spec_next_step(request, facts, CheckoutStep::Associate(Some(i))) != CheckoutStep::Cleanup,
        spec_next_step(request, facts, CheckoutStep::Unlink(Some(i))) != CheckoutStep::Cleanup,
{
}

/// A second checkout of a pull request returns the managed checkout that
/// the first one made, once Git lists that checkout, detached at the
/// fetched commit, before any other checkout that could serve, and the
/// pull request is recorded again.
pub proof fn law_second_checkout_reuses_the_first(request: CheckoutPullRequestRequest, path: Seq<char>, facts: CheckoutFacts, k: int)
    requires
        facts.root is Ok,
        facts.common_dir matches Ok(c) && c@ == request.project_id@,
        !facts.cancelled_before_fetch,
        !facts.cancelled_after_fetch,
        !facts.cancelled_before_reuse,
        facts.fetched matches Ok(f) && f@ == request.head_sha@,
        facts.worktrees matches Ok(ws) && {
            &&& 0 <= k < ws.len()
            &&& ws@[k]@.path == path
            &&& !ws@[k]@.bare
            &&& ws@[k]@.detached
            &&& ws@[k]@.sha == request.head_sha@
            &&& forall|j: int| 0 <= j < k ==> !(#[trigger] reusable(request.head_sha@, request.head_branch@)(ws@[j]@))
        },
        facts.link is Ok,
        facts.associate is Ok,
    ensures
        spec_checkout(request, path, facts) == Ok::<Seq<char>, Seq<char>>(path),
{
    let ws = worktrees_view(facts.worktrees->Ok_0@);
    let p = reusable(request.head_sha@, request.head_branch@);
    assert(ws[k] == facts.worktrees->Ok_0@[k]@);
    assert forall|j: int| 0 <= j < k implies !p(#[trigger] ws[j]) by {
        assert(ws[j] == facts.worktrees->Ok_0@[j]@);
    }
    assert(is_first_match(ws, p, k));
    lemma_first_match_at(ws, p, k);
}

/// Checks out a pull request, given the outcome of each step and the
/// managed checkout's path (see `managed_pull_request_checkout_path`).
pub fn pull_request_with_cancellation(request: &CheckoutPullRequestRequest, path: &str, facts: &CheckoutFacts) -> (r: Result<CheckoutPullRequestResult, String>)
    ensures
        checkout_result(r) == spec_checkout(*request, path@, *facts),
{
    if let Err(e) = &facts.root {
        return Err(e.clone());
    }
    let common = match &facts.common_dir {
        Err(e) => return Err(e.clone()),
        Ok(c) => c,
    };
    check_identity(common.as_str(), request.project_id.as_str())?;
    ensure_not_cancelled(facts.cancelled_before_fetch)?;
    let fetched = match &facts.fetched {
        Err(e) => return Err(e.clone()),
        Ok(f) => f,
    };
    ensure_not_cancelled(facts.cancelled_after_fetch)?;
    check_fetched_head(fetched.as_str(), request.head_sha.as_str())?;
    let worktrees = match &facts.worktrees {
        Err(e) => return Err(e.clone()),
        Ok(w) => w,
    };
    if let Some(i) = reusable_checkout(worktrees, fetched.as_str(), request.head_branch.as_str()) {
        ensure_not_cancelled(facts.cancelled_before_reuse)?;
        let linked = match &facts.link {
            Err(e) => return Err(e.clone()),
            Ok(l) => *l,
        };
        if let Err(e) = &facts.associate {
            return Err(with_cleanup_error(e.clone(), unlink_result(linked, &facts.unlink)));
        }
        assert(worktrees_view(worktrees@)[i as int] == worktrees@[i as int]@);
        return Ok(CheckoutPullRequestResult { worktree_path: worktrees[i].path.clone() });
    }
    if let Err(e) = &facts.prepare {
        return Err(e.clone());
    }
    ensure_not_cancelled(facts.cancelled_after_prepare)?;
    if let Err(e) = &facts.create_parent {
        return Err(e.clone());
    }
    if let Err(e) = &facts.add {
        return Err(with_cleanup_error(e.clone(), copy_unit(&facts.cleanup)));
    }
    let linked = match &facts.link {
        Err(e) => return Err(with_cleanup_error(e.clone(), copy_unit(&facts.cleanup))),
        Ok(l) => *l,
    };
    if let Err(e) = &facts.associate {
        let combined = combine_cleanup_results(unlink_result(linked, &facts.unlink), copy_unit(&facts.cleanup));
        return Err(with_cleanup_error(e.clone(), combined));
    }
    Ok(CheckoutPullRequestResult { worktree_path: path.to_string() })
}

} // verus!
