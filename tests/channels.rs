use rtsc::base_channel::{ChannelState, SendStep};
use rtsc::base_channel_async::{AsyncChannelState, RecvPoll, SendPoll, Wake, WaiterQueue};
use rtsc::channel::Fifo;
use rtsc::data_policy::{DataDeliveryPolicy, DeliveryPolicy};
use rtsc::pdeque::Deque;
use rtsc::{ChannelStorage, Error, StorageTryPushOutput};

#[derive(Debug, Clone, Copy, PartialEq)]
enum Message {
    Test(usize),
    Temperature(f64),
    Spam,
}

impl DataDeliveryPolicy for Message {
    fn delivery_policy(&self) -> DeliveryPolicy {
        match self {
            Message::Test(_) => DeliveryPolicy::Always,
            Message::Temperature(_) => DeliveryPolicy::Single,
            Message::Spam => DeliveryPolicy::Optional,
        }
    }
    fn priority(&self) -> usize {
        100
    }
    fn eq_kind(&self, other: &Self) -> bool {
        std::mem::discriminant(self) == std::mem::discriminant(other)
    }
    fn is_expired(&self) -> bool {
        false
    }
}

/// Sends with a blocking sender whose waits are served by a consumer that takes one value.
fn send_blocking<T, S: ChannelStorage<T>>(ch: &mut ChannelState<T, S>, mut v: T, got: &mut Vec<T>) -> Result<(), Error> {
    loop {
        match ch.send_step(v) {
            SendStep::Done(r) => return r,
            SendStep::Wait(back) => {
                v = back;
                got.push(ch.try_recv().unwrap());
            }
        }
    }
}

#[test]
fn channel_test_delivery() {
    let mut ch: ChannelState<u32, Fifo<u32>> = ChannelState::new(1, false);
    let mut got = Vec::new();
    for _ in 0..10 {
        send_blocking(&mut ch, 123, &mut got).unwrap();
        send_blocking(&mut ch, 456, &mut got).unwrap();
    }
    assert!(ch.remove_sender());
    loop {
        match ch.try_recv() {
            Ok(v) => got.push(v),
            Err(e) => {
                assert_eq!(e, Error::ChannelClosed);
                break;
            }
        }
    }
    assert_eq!(got.len(), 20);
    for (i, v) in got.iter().enumerate() {
        assert_eq!(*v, if i % 2 == 0 { 123 } else { 456 });
    }
}

#[test]
fn channel_try_ops_report_state() {
    let mut ch: ChannelState<u32, Fifo<u32>> = ChannelState::new(2, false);
    assert_eq!(ch.try_recv(), Err(Error::ChannelEmpty));
    assert_eq!(ch.try_send(1), Ok(()));
    assert_eq!(ch.try_send(2), Ok(()));
    assert!(ch.is_full());
    assert_eq!(ch.try_send(3), Err(Error::ChannelFull));
    assert_eq!(ch.len(), 2);
    assert_eq!(ch.try_recv(), Ok(1));
    ch.add_receiver();
    assert!(!ch.remove_receiver());
    assert!(ch.remove_receiver());
    assert_eq!(ch.try_send(4), Err(Error::ChannelClosed));
    ch.add_sender();
    assert_eq!(ch.senders(), 2);
    assert_eq!(ch.receivers(), 0);
    assert_eq!(ch.try_recv(), Ok(2));
    assert!(ch.is_empty());
}

#[test]
fn fifo_push_then_pop_same_value() {
    let mut f: Fifo<u8> = Fifo::bounded(1);
    assert!(matches!(f.try_push(9), StorageTryPushOutput::Pushed));
    assert!(matches!(f.try_push(10), StorageTryPushOutput::Full(10)));
    assert_eq!(f.get(), Some(9));
    assert_eq!(f.get(), None);
    assert_eq!(f.capacity(), 1);
}

#[test]
fn policy_channel_test_delivery_policy_optional() {
    let mut ch: ChannelState<Message, Deque<Message>> = ChannelState::new(1, false);
    let mut got = Vec::new();
    for _ in 0..10 {
        send_blocking(&mut ch, Message::Test(123), &mut got).unwrap();
        let _ = send_blocking(&mut ch, Message::Spam, &mut got);
        send_blocking(&mut ch, Message::Temperature(123.0), &mut got).unwrap();
    }
    assert!(ch.remove_sender());
    while let Ok(m) = ch.try_recv() {
        got.push(m);
    }
    assert_eq!(got.len(), 20);
    assert!(!got.iter().any(|m| matches!(m, Message::Spam)), "delivery policy not respected ({:?})", got);
}

#[test]
fn policy_channel_test_delivery_policy_single() {
    let mut ch: ChannelState<Message, Deque<Message>> = ChannelState::new(512, false);
    let mut got = Vec::new();
    for _ in 0..10 {
        send_blocking(&mut ch, Message::Test(123), &mut got).unwrap();
        let _ = send_blocking(&mut ch, Message::Spam, &mut got);
        send_blocking(&mut ch, Message::Temperature(123.0), &mut got).unwrap();
    }
    assert!(got.is_empty());
    while let Ok(m) = ch.try_recv() {
        got.push(m);
    }
    let tests = got.iter().filter(|m| matches!(m, Message::Test(_))).count();
    let temps = got.iter().filter(|m| matches!(m, Message::Temperature(_))).count();
    let spam = got.iter().filter(|m| matches!(m, Message::Spam)).count();
    assert_eq!(tests, 10);
    assert_eq!(temps, 1);
    assert!(spam <= 10);
}

#[derive(Debug)]
struct P(usize, u32);
impl DataDeliveryPolicy for P {
    fn delivery_policy(&self) -> DeliveryPolicy {
        DeliveryPolicy::Always
    }
    fn priority(&self) -> usize {
        self.0
    }
    fn eq_kind(&self, _other: &Self) -> bool {
        false
    }
    fn is_expired(&self) -> bool {
        false
    }
}

#[test]
fn ordered_channel_recv_in_priority_order() {
    let mut ch: ChannelState<P, Deque<P>> = ChannelState::new(8, true);
    for (i, p) in [30usize, 10, 20, 10].iter().enumerate() {
        assert_eq!(ch.try_send(P(*p, i as u32)), Ok(()));
    }
    let mut order = Vec::new();
    while let Ok(P(p, i)) = ch.try_recv() {
        order.push((p, i));
    }
    assert_eq!(order, vec![(10, 1), (10, 3), (20, 2), (30, 0)]);
}

#[test]
fn cancellation_liveness() {
    let mut ch: AsyncChannelState<Message, Deque<Message>, &'static str> =
        AsyncChannelState::new(1, false);
    // A sends and its value is stored.
    assert!(matches!(
        ch.poll_send(1, false, Message::Test(1), "a"),
        SendPoll::Ready(Ok(()), Wake::Nobody)
    ));
    // B and C find no room and wait.
    let b = match ch.poll_send(2, false, Message::Test(2), "b") {
        SendPoll::Pending(v) => v,
        _ => panic!("B must wait"),
    };
    let c = match ch.poll_send(3, false, Message::Test(3), "c") {
        SendPoll::Pending(v) => v,
        _ => panic!("C must wait"),
    };
    assert_eq!(b, Message::Test(2));
    // B is dropped before the consumer pops: nobody is woken on its account.
    assert!(matches!(ch.drop_send_future(2), Wake::Nobody));
    // The consumer pops once, which wakes C.
    let (r, w) = ch.try_recv();
    assert_eq!(r, Ok(Message::Test(1)));
    assert!(matches!(w, Wake::Waker("c")));
    // C polls again as the woken one and completes.
    assert!(matches!(ch.poll_send(3, true, c, "c"), SendPoll::Ready(Ok(()), Wake::Nobody)));
    assert!(matches!(
        ch.poll_recv(4, false, "r"),
        RecvPoll::Ready(Ok(Message::Test(3)), Wake::Nobody)
    ));
}

#[test]
fn dropping_a_woken_future_passes_the_wake_on() {
    let mut ch: AsyncChannelState<u32, Fifo<u32>, u8> = AsyncChannelState::new(1, false);
    assert!(matches!(ch.poll_send(1, false, 10, 1), SendPoll::Ready(Ok(()), _)));
    assert!(matches!(ch.poll_send(2, false, 20, 2), SendPoll::Pending(20)));
    assert!(matches!(ch.poll_send(3, false, 30, 3), SendPoll::Pending(30)));
    // The pop wakes B, which is then dropped before it polls: C gets the wake.
    let (r, w) = ch.try_recv();
    assert_eq!(r, Ok(10));
    assert!(matches!(w, Wake::Waker(2)));
    assert!(matches!(ch.drop_send_future(2), Wake::Waker(3)));
    assert!(matches!(ch.poll_send(3, true, 30, 3), SendPoll::Ready(Ok(()), _)));
}

#[test]
fn async_try_ops_do_not_pass_waiters() {
    let mut ch: AsyncChannelState<u32, Fifo<u32>, u8> = AsyncChannelState::new(1, false);
    assert!(matches!(ch.poll_recv(1, false, 1), RecvPoll::Pending));
    // A repoll of the same operation does not queue it twice.
    assert!(matches!(ch.poll_recv(1, false, 1), RecvPoll::Pending));
    let (r, w) = ch.try_send(5);
    assert_eq!(r, Ok(()));
    assert!(matches!(w, Wake::Waker(1)));
    assert!(matches!(ch.send_blocking_step(6), SendPoll::Pending(6)));
    let (r, _) = ch.try_send(7);
    assert_eq!(r, Err(Error::ChannelFull));
    assert!(matches!(ch.poll_recv(1, true, 1), RecvPoll::Ready(Ok(5), Wake::Blocked)));
    assert!(matches!(ch.send_blocking_step(6), SendPoll::Ready(Ok(()), _)));
    assert!(matches!(ch.recv_blocking_step(), RecvPoll::Ready(Ok(6), _)));
    assert!(matches!(ch.recv_blocking_step(), RecvPoll::Pending));
    let woken = ch.remove_sender().unwrap();
    assert!(woken.is_empty());
    assert!(matches!(ch.recv_blocking_step(), RecvPoll::Ready(Err(Error::ChannelClosed), _)));
    assert_eq!(ch.senders(), 0);
    assert_eq!(ch.receivers(), 1);
    assert!(ch.is_empty());
    assert!(!ch.is_full());
    assert_eq!(ch.len(), 0);
}

#[test]
fn async_closing_receivers_wakes_all_senders() {
    let mut ch: AsyncChannelState<u32, Fifo<u32>, u8> = AsyncChannelState::new(1, false);
    ch.add_receiver();
    ch.add_sender();
    let (r, _) = ch.try_send(1);
    assert_eq!(r, Ok(()));
    assert!(matches!(ch.poll_send(7, false, 2, 7), SendPoll::Pending(2)));
    assert!(matches!(ch.poll_send(8, false, 3, 8), SendPoll::Pending(3)));
    assert!(ch.remove_receiver().is_none());
    let woken = ch.remove_receiver().unwrap();
    assert_eq!(woken, vec![7, 8]);
    assert!(matches!(ch.poll_send(7, true, 2, 7), SendPoll::Ready(Err(Error::ChannelClosed), _)));
    assert!(matches!(ch.drop_recv_future(99), Wake::Nobody));
}

#[test]
fn waiter_queue_fifo_and_idempotent() {
    let mut q: WaiterQueue<char> = WaiterQueue::new();
    assert!(q.is_empty());
    q.append_waker('a', 1);
    q.append_blocked();
    q.append_waker('b', 2);
    q.append_waker('z', 1);
    assert!(matches!(q.wake_next(), Wake::Waker('a')));
    assert!(matches!(q.wake_next(), Wake::Blocked));
    q.confirm_waked(1);
    assert!(matches!(q.notify_drop(1), Wake::Nobody));
    assert!(matches!(q.wake_next(), Wake::Waker('b')));
    assert!(matches!(q.wake_next(), Wake::Nobody));
}
