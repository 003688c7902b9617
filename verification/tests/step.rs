use task_core::step::Step;

#[test]
fn a_ready_step_is_ready() {
    assert!(Step::Ready(7).is_ready());
    assert!(!Step::<u8>::Pending.is_ready());
}
