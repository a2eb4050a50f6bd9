use lexparse::{LazyContext, VecSource};

fn ctx_over(items: Vec<u32>, window: usize) -> LazyContext<VecSource<u32>, u32> {
    LazyContext::new(VecSource::new(items), window)
}

#[test]
fn lazy_peek_and_advance() {
    let mut ctx = ctx_over(vec![10, 20, 30], 8);
    assert_eq!(ctx.peek(), Some(10));
    assert_eq!(ctx.advance(), Some(10));
    assert_eq!(ctx.peek(), Some(20));
    assert_eq!(ctx.token_index(), 1);
    assert_eq!(ctx.advance(), Some(20));
    assert_eq!(ctx.advance(), Some(30));
    assert_eq!(ctx.advance(), None);
    assert!(ctx.is_eof());
}

#[test]
fn lazy_peek_at_pulls_ahead() {
    let mut ctx = ctx_over(vec![1, 2, 3, 4], 8);
    assert_eq!(ctx.peek_at(2), Some(3));
    assert_eq!(ctx.token_index(), 0);
    assert_eq!(ctx.peek_at(10), None);
}

#[test]
fn lazy_checkpoint_restore_within_window() {
    let mut ctx = ctx_over((0..20).collect(), 10);
    ctx.advance();
    ctx.advance();
    let cp = ctx.checkpoint();
    ctx.advance();
    ctx.advance();
    // The checkpoint is two steps back, well within half the window
    ctx.restore(cp);
    assert_eq!(ctx.peek(), Some(2));
    assert_eq!(ctx.token_index(), 2);
}

#[test]
fn lazy_commit_prunes_history() {
    let mut ctx = ctx_over((0..100).collect(), 10);
    for _ in 0..50 {
        ctx.advance();
    }
    ctx.commit();
    // After the commit the cursor can still read forward
    assert_eq!(ctx.peek(), Some(50));
    assert_eq!(ctx.token_index(), 50);
}

#[test]
fn lazy_window_prunes_far_history() {
    // With a window of 6, history older than 3 behind the cursor is pruned
    let mut ctx = ctx_over((0..40).collect(), 6);
    for _ in 0..20 {
        ctx.advance();
    }
    // A checkpoint within half the window is still restorable
    let cp = ctx.checkpoint();
    ctx.advance();
    ctx.advance();
    ctx.restore(cp);
    assert_eq!(ctx.peek(), Some(20));
}

#[test]
fn lazy_is_eof_only_at_end() {
    let mut ctx = ctx_over(vec![7], 4);
    assert!(!ctx.is_eof());
    ctx.advance();
    assert!(ctx.is_eof());
}

#[test]
fn lazy_empty_source() {
    let mut ctx = ctx_over(vec![], 4);
    assert!(ctx.is_eof());
    assert_eq!(ctx.peek(), None);
    assert_eq!(ctx.advance(), None);
}
