use gfx_core::token::{CompletionToken, WaitPlan};

#[test]
fn compositions_of_complete_tokens_never_block() {
    // Joins and signal chains over already-complete tokens resolve at once.
    let a = CompletionToken::already_complete();
    let b = CompletionToken::already_complete();
    let joined = CompletionToken::join(a, b);
    let (sem_tok, sem) = joined.then_signal_semaphore(11);
    assert_eq!(sem, 11);
    let fenced = sem_tok.then_signal_fence(12);
    let more = CompletionToken::join(fenced, CompletionToken::already_complete());
    assert!(more.is_immediate());
    assert!(matches!(more.wait(), WaitPlan::Immediate));
}

#[test]
fn pending_operations_block_until_their_fence() {
    let op = CompletionToken::single_op(7);
    assert!(!op.is_immediate());
    let chained = op.then_signal_fence(40);
    match chained.wait() {
        WaitPlan::BlockOn { fences } => assert_eq!(fences, vec![40]),
        WaitPlan::Immediate => panic!("a pending operation must block"),
    }
}

#[test]
fn join_wait_list_is_the_union_without_duplication() {
    let (left, _) = CompletionToken::single_op(1).then_signal_semaphore(10);
    let (right, _) = CompletionToken::single_op(2).then_signal_semaphore(20);
    let both = CompletionToken::join(left, right);
    let mut sems = both.wait_list();
    sems.sort();
    assert_eq!(sems, vec![10, 20]);

    let (left2, _) = CompletionToken::single_op(3).then_signal_semaphore(10);
    let (right2, _) = CompletionToken::single_op(4).then_signal_semaphore(10);
    let shared = CompletionToken::join(left2, right2);
    assert_eq!(shared.wait_list(), vec![10]);
}

#[test]
fn complete_tokens_have_an_empty_wait_list() {
    let t = CompletionToken::already_complete();
    assert_eq!(t.wait_list(), Vec::<u64>::new());
    let j = CompletionToken::join(
        CompletionToken::already_complete(),
        CompletionToken::already_complete(),
    );
    assert_eq!(j.wait_list(), Vec::<u64>::new());
}

#[test]
fn joined_fences_are_collected_without_duplication() {
    let a = CompletionToken::single_op(1).then_signal_fence(5);
    let b = CompletionToken::single_op(2).then_signal_fence(5);
    let both = CompletionToken::join(a, b);
    match both.wait() {
        WaitPlan::BlockOn { fences } => assert_eq!(fences, vec![5]),
        WaitPlan::Immediate => panic!("pending operations must block"),
    }
}
