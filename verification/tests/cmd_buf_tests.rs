use gpu_lease::cmd_buf::{
    CommandBuffer, CommandBufferInfo, CommandBufferRequest, CommandPoolRequest, Destroy,
    FenceRequest, Handles, Phase, QueryPoolRequest,
};
use gpu_lease::error::DriverError;
use std::cell::Cell;
use std::rc::Rc;

struct Counted(Rc<Cell<u32>>);

impl Drop for Counted {
    fn drop(&mut self) {
        self.0.set(self.0.get() + 1);
    }
}

fn make<D>() -> CommandBuffer<D> {
    let start = CommandBuffer::<D>::create(CommandBufferInfo::new(2));
    let next = start.created(Ok(10)).unwrap();
    let next = next.allocated(Ok(vec![20])).unwrap();
    let next = next.created(Ok(30)).unwrap();
    next.created::<D>(Ok(40)).unwrap()
}

#[test]
fn info_keeps_the_queue_family() {
    let info = CommandBufferInfo::new(7);
    assert_eq!(info.queue_family_index, 7);
    assert_eq!(info, CommandBufferInfo { queue_family_index: 7 });
}

#[test]
fn creation_asks_for_four_objects_in_order() {
    let start = CommandBuffer::<u8>::create(CommandBufferInfo::new(5));
    assert_eq!(
        start.request(),
        CommandPoolRequest { transient: true, reset_command_buffer: true, queue_family_index: 5 }
    );
    let next = start.created(Ok(11)).unwrap();
    assert_eq!(next.request(), CommandBufferRequest { pool: 11, count: 1, primary: true });
    let next = next.allocated(Ok(vec![22, 23])).unwrap();
    assert_eq!(next.cmd_buf, 22);
    assert_eq!(next.request(), FenceRequest { signaled: true });
    let next = next.created(Ok(33)).unwrap();
    assert_eq!(next.request(), QueryPoolRequest { timestamp: true, count: 2 });
    let cmd_buf = next.created::<u8>(Ok(44)).unwrap();
    assert_eq!(cmd_buf.handles(), Handles { cmd_buf: 22, fence: 33, query_pool: 44, pool: 11 });
    assert_eq!(cmd_buf.handle(), 22);
    assert_eq!(cmd_buf.info().queue_family_index, 5);
    assert_eq!(cmd_buf.phase(), Phase::Idle);
    assert_eq!(cmd_buf.pending_drops(), 0);
    assert!(cmd_buf.fence_signaled());
}

#[test]
fn creation_fails_with_the_first_failure() {
    let info = CommandBufferInfo::new(0);
    let start = CommandBuffer::<u8>::create(info);
    assert_eq!(start.created(Err(-1)).unwrap_err(), DriverError::Unsupported);
    let next = start.created(Ok(1)).unwrap();
    assert_eq!(next.allocated(Err(-2)).unwrap_err(), DriverError::Unsupported);
    assert_eq!(next.allocated(Ok(vec![])).unwrap_err(), DriverError::InvalidData);
    let next = next.allocated(Ok(vec![2])).unwrap();
    assert_eq!(next.created(Err(DriverError::OutOfMemory)).unwrap_err(), DriverError::OutOfMemory);
    let next = next.created(Ok(3)).unwrap();
    assert_eq!(
        next.created::<u8>(Err(DriverError::InvalidData)).unwrap_err(),
        DriverError::InvalidData
    );
}

#[test]
fn submitted_buffer_has_not_executed_until_the_fence_signals() {
    let mut cmd_buf = make::<u8>();
    assert_eq!(cmd_buf.begin(), 20);
    assert_eq!(cmd_buf.phase(), Phase::Recording);
    cmd_buf.submit();
    assert_eq!(cmd_buf.phase(), Phase::Submitted);
    assert!(!cmd_buf.fence_signaled());
    assert_eq!(cmd_buf.has_executed(Ok(false)), Ok(false));
    assert_eq!(cmd_buf.phase(), Phase::Submitted);
    assert!(!cmd_buf.fence_signaled());
    assert_eq!(cmd_buf.wait_until_executed(Ok(())), Ok(()));
    assert_eq!(cmd_buf.phase(), Phase::Executed);
    assert!(cmd_buf.fence_signaled());
    assert_eq!(cmd_buf.has_executed(Ok(true)), Ok(true));
    assert_eq!(cmd_buf.phase(), Phase::Executed);
}

#[test]
fn poll_that_finds_the_fence_signaled_ends_the_submission() {
    let mut cmd_buf = make::<u8>();
    cmd_buf.begin();
    cmd_buf.submit();
    assert_eq!(cmd_buf.has_executed(Ok(true)), Ok(true));
    assert_eq!(cmd_buf.phase(), Phase::Executed);
    CommandBuffer::drop_fenced(&mut cmd_buf);
    assert_eq!(cmd_buf.phase(), Phase::Idle);
}

#[test]
fn failed_poll_is_invalid_data() {
    let mut cmd_buf = make::<u8>();
    cmd_buf.begin();
    cmd_buf.submit();
    assert_eq!(cmd_buf.has_executed(Err(-4)), Err(DriverError::InvalidData));
    assert_eq!(cmd_buf.has_executed(Err(-13)), Err(DriverError::InvalidData));
    assert_eq!(cmd_buf.phase(), Phase::Submitted);
}

#[test]
fn failed_wait_is_passed_on_and_changes_nothing() {
    let mut cmd_buf = make::<u8>();
    cmd_buf.begin();
    cmd_buf.submit();
    assert_eq!(cmd_buf.wait_until_executed(Err(DriverError::InvalidData)), Err(DriverError::InvalidData));
    assert_eq!(cmd_buf.wait_until_executed(Err(DriverError::OutOfMemory)), Err(DriverError::OutOfMemory));
    assert_eq!(cmd_buf.phase(), Phase::Submitted);
    assert!(!cmd_buf.fence_signaled());
}

#[test]
fn droppables_live_until_the_fence_is_confirmed() {
    let drops = Rc::new(Cell::new(0));
    let mut cmd_buf = make::<Counted>();
    cmd_buf.begin();
    CommandBuffer::push_fenced_drop(&mut cmd_buf, Counted(drops.clone()));
    cmd_buf.submit();
    CommandBuffer::push_fenced_drop(&mut cmd_buf, Counted(drops.clone()));
    assert_eq!(cmd_buf.pending_drops(), 2);
    assert_eq!(cmd_buf.has_executed(Ok(false)), Ok(false));
    assert_eq!(cmd_buf.has_executed(Err(-4)), Err(DriverError::InvalidData));
    assert!(!cmd_buf.fence_signaled());
    assert_eq!(drops.get(), 0);
    assert_eq!(cmd_buf.pending_drops(), 2);

    assert_eq!(cmd_buf.wait_until_executed(Ok(())), Ok(()));
    assert_eq!(drops.get(), 0);
    assert!(cmd_buf.fence_signaled());
    CommandBuffer::drop_fenced(&mut cmd_buf);
    assert_eq!(drops.get(), 2);
    assert_eq!(cmd_buf.pending_drops(), 0);
    assert_eq!(cmd_buf.phase(), Phase::Idle);
}

#[test]
fn push_on_an_idle_buffer_waits_for_drop_fenced() {
    let drops = Rc::new(Cell::new(0));
    let mut cmd_buf = make::<Counted>();
    CommandBuffer::push_fenced_drop(&mut cmd_buf, Counted(drops.clone()));
    assert_eq!(cmd_buf.phase(), Phase::Executed);
    assert_eq!(cmd_buf.pending_drops(), 1);
    assert_eq!(drops.get(), 0);
    CommandBuffer::drop_fenced(&mut cmd_buf);
    assert_eq!(drops.get(), 1);
    assert_eq!(cmd_buf.phase(), Phase::Idle);
    CommandBuffer::drop_fenced(&mut cmd_buf);
    assert_eq!(cmd_buf.phase(), Phase::Idle);
}

#[test]
fn buffer_cycles_through_its_phases() {
    let mut cmd_buf = make::<u8>();
    for round in 0..3u8 {
        assert_eq!(cmd_buf.phase(), Phase::Idle);
        cmd_buf.begin();
        CommandBuffer::push_fenced_drop(&mut cmd_buf, round);
        cmd_buf.submit();
        assert_eq!(cmd_buf.has_executed(Ok(false)), Ok(false));
        assert_eq!(cmd_buf.has_executed(Ok(true)), Ok(true));
        assert_eq!(cmd_buf.pending_drops(), 1);
        CommandBuffer::drop_fenced(&mut cmd_buf);
        assert_eq!(cmd_buf.pending_drops(), 0);
    }
}

#[test]
fn query_results_or_invalid_data() {
    let cmd_buf = make::<u8>();
    assert_eq!(cmd_buf.get_query_results(Ok([100, 250])), Ok([100, 250]));
    assert_eq!(cmd_buf.get_query_results(Err(-4)), Err(DriverError::InvalidData));
    assert_eq!(cmd_buf.get_query_results(Err(1)), Err(DriverError::InvalidData));
}

#[test]
fn teardown_frees_everything_after_a_last_wait() {
    let cmd_buf = make::<u8>();
    let end = cmd_buf.teardown(false).unwrap();
    let handles = Handles { cmd_buf: 20, fence: 30, query_pool: 40, pool: 10 };
    assert_eq!(end.handles(), handles);
    assert_eq!(end.fence(), 30);
    let (calls, droppables) = end.waited(Ok(()));
    assert_eq!(
        calls,
        vec![
            Destroy::FreeCommandBuffer { pool: 10, cmd_buf: 20 },
            Destroy::DestroyCommandPool { pool: 10 },
            Destroy::DestroyQueryPool { query_pool: 40 },
            Destroy::DestroyFence { fence: 30 },
        ]
    );
    assert_eq!(droppables, vec![]);
}

#[test]
fn teardown_frees_everything_after_a_failed_wait_too() {
    for failure in [DriverError::InvalidData, DriverError::Unsupported, DriverError::OutOfMemory] {
        let cmd_buf = make::<u8>();
        let end = cmd_buf.teardown(false).unwrap();
        let (calls, _) = end.waited(Err(failure));
        assert_eq!(
            calls,
            vec![
                Destroy::FreeCommandBuffer { pool: 10, cmd_buf: 20 },
                Destroy::DestroyCommandPool { pool: 10 },
                Destroy::DestroyQueryPool { query_pool: 40 },
                Destroy::DestroyFence { fence: 30 },
            ]
        );
    }
}

#[test]
fn teardown_does_nothing_while_the_thread_panics() {
    let cmd_buf = make::<u8>();
    assert!(cmd_buf.teardown(true).is_none());
}

#[test]
fn teardown_keeps_droppables_until_the_last_wait_is_over() {
    let drops = Rc::new(Cell::new(0));
    let mut cmd_buf = make::<Counted>();
    cmd_buf.begin();
    CommandBuffer::push_fenced_drop(&mut cmd_buf, Counted(drops.clone()));
    cmd_buf.submit();
    CommandBuffer::push_fenced_drop(&mut cmd_buf, Counted(drops.clone()));
    let end = cmd_buf.teardown(false).unwrap();
    assert_eq!(end.pending_drops(), 2);
    assert_eq!(drops.get(), 0);
    let (calls, droppables) = end.waited(Err(DriverError::InvalidData));
    assert_eq!(calls.len(), 4);
    assert_eq!(droppables.len(), 2);
    assert_eq!(drops.get(), 0);
    drop(droppables);
    assert_eq!(drops.get(), 2);
}
