//! Composable completion tokens for pending GPU work.
//!
//! A token stands for "some GPU work will eventually finish". Tokens are
//! chained and joined without touching the driver; the driver-facing loop
//! reads off a token which operations are still pending (`op` identifiers),
//! which semaphores a submission gated on the token must wait for, and which
//! fences a thread blocking on the token must wait for. Rust ownership makes
//! a token linear: materializing it through a terminal call consumes it, so a
//! token is materialized at most once.

use vstd::prelude::*;

verus! {

/// A handle for GPU work that will eventually finish.
///
/// `Complete` resolves immediately. `SingleOp` is one pending driver
/// operation, named by an identifier the caller associates with the real
/// submission. `Join` resolves when both sides have resolved.
/// `SemaphoreSignal` emits a device-side signal when the inner token
/// resolves; `FenceSignal` emits a host-waitable signal.
#[derive(Debug, PartialEq, Eq)]
pub enum CompletionToken {
    Complete,
    SingleOp { op: u64 },
    Join { left: Box<CompletionToken>, right: Box<CompletionToken> },
    SemaphoreSignal { inner: Box<CompletionToken>, semaphore: u64 },
    FenceSignal { inner: Box<CompletionToken>, fence: u64 },
}

/// The pending driver operations the token depends on.
pub open spec fn deps(t: CompletionToken) -> Set<u64>
    decreases t,
{
    match t {
        CompletionToken::Complete => Set::empty(),
        CompletionToken::SingleOp { op } => Set::empty().insert(op),
        CompletionToken::Join { left, right } => deps(*left).union(deps(*right)),
        CompletionToken::SemaphoreSignal { inner, .. } => deps(*inner),
        CompletionToken::FenceSignal { inner, .. } => deps(*inner),
    }
}

/// The token depends on no pending operation: waiting on it returns at once.
pub open spec fn no_deps(t: CompletionToken) -> bool
    decreases t,
{
    match t {
        CompletionToken::Complete => true,
        CompletionToken::SingleOp { .. } => false,
        CompletionToken::Join { left, right } => no_deps(*left) && no_deps(*right),
        CompletionToken::SemaphoreSignal { inner, .. } => no_deps(*inner),
        CompletionToken::FenceSignal { inner, .. } => no_deps(*inner),
    }
}

/// Semaphores a submission gated on the token must wait for. A semaphore
/// signal subsumes the wait requirements of its inner token; a join needs
/// the union of both sides.
pub open spec fn wait_semaphores(t: CompletionToken) -> Set<u64>
    decreases t,
{
    match t {
        CompletionToken::Complete => Set::empty(),
        CompletionToken::SingleOp { .. } => Set::empty(),
        CompletionToken::Join { left, right } => wait_semaphores(*left).union(
            wait_semaphores(*right),
        ),
        CompletionToken::SemaphoreSignal { semaphore, .. } => Set::empty().insert(semaphore),
        CompletionToken::FenceSignal { inner, .. } => wait_semaphores(*inner),
    }
}

/// Fences a thread blocking on the token must wait for. A fence signal
/// subsumes the wait requirements of its inner token.
pub open spec fn wait_fences(t: CompletionToken) -> Set<u64>
    decreases t,
{
    match t {
        CompletionToken::Complete => Set::empty(),
        CompletionToken::SingleOp { .. } => Set::empty(),
        CompletionToken::Join { left, right } => wait_fences(*left).union(wait_fences(*right)),
        CompletionToken::SemaphoreSignal { inner, .. } => wait_fences(*inner),
        CompletionToken::FenceSignal { fence, .. } => Set::empty().insert(fence),
    }
}

/// The token was assembled only from already-complete tokens, by joins and
/// signal chaining; no pending operation stands anywhere in it.
pub open spec fn built_from_complete(t: CompletionToken) -> bool
    decreases t,
{
    match t {
        CompletionToken::Complete => true,
        CompletionToken::SingleOp { .. } => false,
        CompletionToken::Join { left, right } => built_from_complete(*left)
            && built_from_complete(*right),
        CompletionToken::SemaphoreSignal { inner, .. } => built_from_complete(*inner),
        CompletionToken::FenceSignal { inner, .. } => built_from_complete(*inner),
    }
}

/// A non-empty set of identifiers holds a witness.
proof fn lemma_nonempty_has_witness(s: Set<u64>)
    requires
        s != Set::<u64>::empty(),
    ensures
        exists|x: u64| s.contains(x),
{
    if forall|x: u64| !s.contains(x) {
        assert(s =~= Set::<u64>::empty());
    }
}

/// A token without pending operations depends on the empty set, and the
/// other way round.
pub proof fn lemma_no_deps_empty(t: CompletionToken)
    ensures
        no_deps(t) <==> deps(t) == Set::<u64>::empty(),
    decreases t,
{
    match t {
        CompletionToken::Complete => {
            assert(deps(t) =~= Set::<u64>::empty());
        },
        CompletionToken::SingleOp { op } => {
            assert(deps(t).contains(op));
        },
        CompletionToken::Join { left, right } => {
            lemma_no_deps_empty(*left);
            lemma_no_deps_empty(*right);
            if no_deps(t) {
                assert(deps(t) =~= Set::<u64>::empty());
            } else {
                if !no_deps(*left) {
                    lemma_nonempty_has_witness(deps(*left));
                    let op = choose|x: u64| deps(*left).contains(x);
                    assert(deps(t).contains(op));
                } else {
                    lemma_nonempty_has_witness(deps(*right));
                    let op = choose|x: u64| deps(*right).contains(x);
                    assert(deps(t).contains(op));
                }
            }
        },
        CompletionToken::SemaphoreSignal { inner, .. } => {
            lemma_no_deps_empty(*inner);
        },
        CompletionToken::FenceSignal { inner, .. } => {
            lemma_no_deps_empty(*inner);
        },
    }
}

/// Any token assembled with `join` and the signal-chaining operations from
/// already-complete tokens is itself immediately complete: waiting on it
/// never blocks.
pub proof fn lemma_complete_compositions_never_block(t: CompletionToken)
    requires
        built_from_complete(t),
    ensures
        no_deps(t),
        deps(t) == Set::<u64>::empty(),
    decreases t,
{
    match t {
        CompletionToken::Join { left, right } => {
            lemma_complete_compositions_never_block(*left);
            lemma_complete_compositions_never_block(*right);
        },
        CompletionToken::SemaphoreSignal { inner, .. } => {
            lemma_complete_compositions_never_block(*inner);
        },
        CompletionToken::FenceSignal { inner, .. } => {
            lemma_complete_compositions_never_block(*inner);
        },
        _ => {},
    }
    lemma_no_deps_empty(t);
}

/// What a blocking wait on a token amounts to: nothing, or waiting for a set
/// of fences while the listed operations are still pending.
pub enum WaitPlan {
    Immediate,
    BlockOn { fences: Vec<u64> },
}

/// `x` occurs in `v`.
fn id_listed(v: &Vec<u64>, x: u64) -> (r: bool)
    ensures
        r == v@.contains(x),
{
    let mut i: usize = 0;
    while i < v.len()
        invariant
            0 <= i <= v@.len(),
            forall|j: int| 0 <= j < i ==> v@[j] != x,
        decreases v@.len() - i,
    {
        if v[i] == x {
            return true;
        }
        i += 1;
    }
    false
}

/// Append `x` unless it is already listed, keeping the list duplicate-free.
fn push_unique(v: &mut Vec<u64>, x: u64)
    requires
        old(v)@.no_duplicates(),
    ensures
        final(v)@.no_duplicates(),
        forall|s: u64| final(v)@.contains(s) <==> old(v)@.contains(s) || s == x,
{
    if !id_listed(v, x) {
        let ghost pre = v@;
        v.push(x);
        proof {
            assert(forall|i: int| 0 <= i < pre.len() ==> v@[i] == pre[i]);
            assert forall|s: u64| v@.contains(s) implies pre.contains(s) || s == x by {
                let i = choose|i: int| 0 <= i < v@.len() && v@[i] == s;
                if i < pre.len() {
                    assert(pre[i] == s);
                }
            }
            assert forall|s: u64| pre.contains(s) implies v@.contains(s) by {
                let i = choose|i: int| 0 <= i < pre.len() && pre[i] == s;
                assert(v@[i] == s);
            }
            assert(v@[v@.len() - 1] == x);
            assert(v@.contains(x));
            assert forall|i: int, j: int|
                0 <= i < v@.len() && 0 <= j < v@.len() && i != j implies v@[i] != v@[j] by {
                if i == v@.len() - 1 && j < pre.len() {
                    assert(pre.contains(pre[j]));
                } else if j == v@.len() - 1 && i < pre.len() {
                    assert(pre.contains(pre[i]));
                }
            }
            assert(v@.no_duplicates());
        }
    }
}


impl CompletionToken {
    /// A token that resolves immediately.
    pub fn already_complete() -> (t: CompletionToken)
        ensures
            t == CompletionToken::Complete,
            no_deps(t),
            built_from_complete(t),
    {
        CompletionToken::Complete
    }

    /// A token for one pending driver operation named `op`.
    pub fn single_op(op: u64) -> (t: CompletionToken)
        ensures
            t == (CompletionToken::SingleOp { op }),
            deps(t) == Set::<u64>::empty().insert(op),
            !no_deps(t),
    {
        CompletionToken::SingleOp { op }
    }

    /// A token that resolves once both inputs have resolved. A submission
    /// gated on it must wait for the union of both inputs' semaphores.
    pub fn join(a: CompletionToken, b: CompletionToken) -> (t: CompletionToken)
        ensures
            t matches CompletionToken::Join { left, right } && *left == a && *right == b,
            deps(t) == deps(a).union(deps(b)),
            wait_semaphores(t) == wait_semaphores(a).union(wait_semaphores(b)),
            wait_fences(t) == wait_fences(a).union(wait_fences(b)),
            no_deps(t) == (no_deps(a) && no_deps(b)),
            built_from_complete(t) == (built_from_complete(a) && built_from_complete(b)),
    {
        CompletionToken::Join { left: Box::new(a), right: Box::new(b) }
    }

    /// Chain a device-side signal onto the token: the returned token carries
    /// the semaphore a later submission can wait on, and the same semaphore
    /// is handed back as the waitable pair. Consumes the token, so it is
    /// materialized at most once.
    pub fn then_signal_semaphore(self, semaphore: u64) -> (r: (CompletionToken, u64))
        ensures
            r.0 matches CompletionToken::SemaphoreSignal { inner, semaphore: s } && *inner == self
                && s == semaphore,
            r.1 == semaphore,
            deps(r.0) == deps(self),
            no_deps(r.0) == no_deps(self),
            built_from_complete(r.0) == built_from_complete(self),
            wait_semaphores(r.0) == Set::<u64>::empty().insert(semaphore),
    {
        (CompletionToken::SemaphoreSignal { inner: Box::new(self), semaphore }, semaphore)
    }

    /// Chain a host-waitable signal onto the token. Consumes the token, so it
    /// is materialized at most once.
    pub fn then_signal_fence(self, fence: u64) -> (t: CompletionToken)
        ensures
            t matches CompletionToken::FenceSignal { inner, fence: f } && *inner == self
                && f == fence,
            deps(t) == deps(self),
            no_deps(t) == no_deps(self),
            built_from_complete(t) == built_from_complete(self),
            wait_fences(t) == Set::<u64>::empty().insert(fence),
    {
        CompletionToken::FenceSignal { inner: Box::new(self), fence }
    }

    /// The token depends on no pending operation: a wait would return at
    /// once.
    pub fn is_immediate(&self) -> (r: bool)
        ensures
            r == no_deps(*self),
        decreases *self,
    {
        match self {
            CompletionToken::Complete => true,
            CompletionToken::SingleOp { .. } => false,
            CompletionToken::Join { left, right } => {
                let l = left.is_immediate();
                let r = right.is_immediate();
                l && r
            },
            CompletionToken::SemaphoreSignal { inner, .. } => inner.is_immediate(),
            CompletionToken::FenceSignal { inner, .. } => inner.is_immediate(),
        }
    }

    /// Collect, without duplicates, the semaphores a submission gated on the
    /// token must wait for.
    fn push_semaphores(&self, acc: &mut Vec<u64>)
        requires
            old(acc)@.no_duplicates(),
        ensures
            final(acc)@.no_duplicates(),
            forall|s: u64| #![trigger final(acc)@.contains(s)] #![trigger old(acc)@.contains(s)] #![trigger wait_semaphores(*self).contains(s)]
                final(acc)@.contains(s) <==> old(acc)@.contains(s) || wait_semaphores(
                    *self,
                ).contains(s),
        decreases *self,
    {
        match self {
            CompletionToken::Complete => {},
            CompletionToken::SingleOp { .. } => {},
            CompletionToken::Join { left, right } => {
                left.push_semaphores(acc);
                right.push_semaphores(acc);
            },
            CompletionToken::SemaphoreSignal { semaphore, .. } => {
                push_unique(acc, *semaphore);
            },
            CompletionToken::FenceSignal { inner, .. } => {
                inner.push_semaphores(acc);
            },
        }
    }

    /// Collect, without duplicates, the fences a blocking wait on the token
    /// must wait for.
    fn push_fences(&self, acc: &mut Vec<u64>)
        requires
            old(acc)@.no_duplicates(),
        ensures
            final(acc)@.no_duplicates(),
            forall|s: u64| #![trigger final(acc)@.contains(s)] #![trigger old(acc)@.contains(s)] #![trigger wait_fences(*self).contains(s)]
                final(acc)@.contains(s) <==> old(acc)@.contains(s) || wait_fences(
                    *self,
                ).contains(s),
        decreases *self,
    {
        match self {
            CompletionToken::Complete => {},
            CompletionToken::SingleOp { .. } => {},
            CompletionToken::Join { left, right } => {
                left.push_fences(acc);
                right.push_fences(acc);
            },
            CompletionToken::SemaphoreSignal { inner, .. } => {
                inner.push_fences(acc);
            },
            CompletionToken::FenceSignal { fence, .. } => {
                push_unique(acc, *fence);
            },
        }
    }

    /// The wait-list for a submission gated on this token: every required
    /// semaphore exactly once. Joining tokens yields the union of both
    /// sides' requirements without duplication.
    pub fn wait_list(&self) -> (r: Vec<u64>)
        ensures
            r@.no_duplicates(),
            forall|s: u64| r@.contains(s) <==> wait_semaphores(*self).contains(s),
    {
        let mut acc: Vec<u64> = Vec::new();
        self.push_semaphores(&mut acc);
        acc
    }

    /// Resolve the token from the calling thread: immediately when nothing is
    /// pending, otherwise by blocking on the token's fences, each listed
    /// exactly once.
    pub fn wait(&self) -> (r: WaitPlan)
        ensures
            r matches WaitPlan::Immediate <==> no_deps(*self),
            r matches WaitPlan::BlockOn { fences } ==> fences@.no_duplicates() && (forall|f: u64|
                fences@.contains(f) <==> wait_fences(*self).contains(f)),
    {
        if self.is_immediate() {
            WaitPlan::Immediate
        } else {
            let mut acc: Vec<u64> = Vec::new();
            self.push_fences(&mut acc);
            WaitPlan::BlockOn { fences: acc }
        }
    }
}

} // verus!

