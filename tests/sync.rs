use rtsc::backoff::Backoff;
use rtsc::buf::DataBuffer;
use rtsc::condvar_api::WaitTimeoutResult;
use rtsc::ops::Operation;
use rtsc::semaphore::Semaphore;

#[test]
fn test_data_buffer() {
    let mut buf: DataBuffer<_> = DataBuffer::bounded(3);
    assert_eq!(buf.len(), 0);
    buf.try_push(1);
    assert_eq!(buf.len(), 1);
    buf.try_push(2);
    assert_eq!(buf.len(), 2);
    buf.try_push(3);
    assert_eq!(buf.len(), 3);
    buf.try_push(4);
    assert_eq!(buf.len(), 3);
    assert_eq!(buf.take(), vec![1, 2, 3]);
    assert!(buf.is_empty());
}

#[test]
fn data_buffer_force_push_evicts_oldest() {
    let mut buf = DataBuffer::bounded_prealloc(2);
    assert!(buf.force_push(1));
    assert!(buf.force_push(2));
    assert!(!buf.force_push(3));
    assert_eq!(buf.try_push(4), Some(4));
    assert_eq!(buf.take(), vec![2, 3]);
    assert!(buf.is_empty());
}

#[test]
fn test_semaphore() {
    let mut sem = Semaphore::new(2);
    assert_eq!(sem.capacity(), 2);
    assert_eq!(sem.available(), 2);
    assert_eq!(sem.used(), 0);
    assert!(sem.try_acquire());
    assert_eq!(sem.available(), 1);
    assert_eq!(sem.used(), 1);
    assert!(sem.try_acquire());
    assert_eq!(sem.available(), 0);
    assert_eq!(sem.used(), 2);
    assert!(!sem.try_acquire());
    sem.release();
    assert_eq!(sem.available(), 1);
    assert_eq!(sem.used(), 1);
    assert!(sem.try_acquire());
    assert_eq!(sem.available(), 0);
    assert_eq!(sem.used(), 2);
}

#[test]
fn semaphore_used_stays_within_capacity() {
    let mut sem = Semaphore::new(10);
    for _ in 0..100 {
        sem.try_acquire();
        assert!(sem.used() <= sem.capacity());
    }
    assert_eq!(sem.used(), 10);
    for _ in 0..10 {
        sem.release();
    }
    assert_eq!(sem.used(), 0);
}

#[test]
fn wait_timeout_result_reports_flag() {
    assert!(WaitTimeoutResult::new(true).timed_out());
    assert!(!WaitTimeoutResult::new(false).timed_out());
}

#[test]
fn backoff_grows_to_cap() {
    let mut b = Backoff::new();
    let seq: Vec<u32> = (0..9).map(|_| b.next_delay_us()).collect();
    assert_eq!(seq, vec![50, 75, 100, 125, 150, 175, 200, 200, 200]);
}

#[test]
fn operation_remaining_and_enough() {
    let op = Operation::new_for_monotonic(1_000, 500);
    assert_eq!(op.started_at(), 1_000);
    assert_eq!(op.remaining_at(1_200), Ok(300));
    assert_eq!(op.remaining_at(1_500), Ok(0));
    assert_eq!(op.remaining_at(1_501), Err(rtsc::Error::Timeout));
    assert_eq!(op.remaining_at(900), Ok(500));
    assert_eq!(op.remaining_for_at(100, 1_050), Ok(50));
    assert_eq!(op.enough_at(300, 1_200), Ok(()));
    assert_eq!(op.enough_at(301, 1_200), Err(rtsc::Error::Timeout));
    assert_eq!(op.enough_at(u64::MAX, 1_000), Err(rtsc::Error::Timeout));
}

#[test]
fn operation_started_now_has_time_left() {
    let op = Operation::new(60_000_000_000);
    assert!(op.remaining().is_ok());
    assert!(op.remaining_for(60_000_000_000).is_ok());
    assert!(op.enough(1).is_ok());
    let expired = Operation::new(0);
    assert!(expired.enough(1).is_err());
}
