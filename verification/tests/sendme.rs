use arti_core::sendme::{
    Ack, CircRecvWindow, CircSendWindow, RecvWindow, SendWindow, StreamRecvWindow,
    StreamSendWindow, WindowParams,
};

struct TinyParams;

impl WindowParams for TinyParams {
    fn maximum() -> u16 {
        4
    }
    fn increment() -> u16 {
        2
    }
    fn get_maximum() -> u16 {
        4
    }
    fn get_increment() -> u16 {
        2
    }
}

fn tag(n: u16) -> [u8; 20] {
    let mut t = [0u8; 20];
    t[0] = (n >> 8) as u8;
    t[1] = (n & 0xff) as u8;
    t
}

#[test]
fn circuit_window_exhaustion() {
    let mut w: CircSendWindow = SendWindow::new(100);
    let mut last = None;
    for i in 0..100u16 {
        assert!(w.can_take());
        last = w.take(&tag(i));
    }
    assert_eq!(last, Some(0));
    // The window is exhausted: the next sender has to wait.
    assert_eq!(w.take(&tag(100)), None);
    assert!(w.is_parked());
    assert!(!w.can_take());
    // The first tag recorded is the one of the first cell.
    assert_eq!(w.put(Some(tag(0))), Some(Ack { window: 100, wake: true }));
    assert!(!w.is_parked());
    assert_eq!(w.take(&tag(100)), Some(99));
}

#[test]
fn bad_ack_tag() {
    let mut w: CircSendWindow = SendWindow::new(100);
    assert_eq!(w.take(&tag(1)), Some(99));
    assert_eq!(w.put(Some(tag(2))), None);
}

#[test]
fn matching_ack_tag() {
    let mut w: CircSendWindow = SendWindow::new(100);
    assert_eq!(w.take(&tag(1)), Some(99));
    assert_eq!(w.put(Some(tag(1))), Some(Ack { window: 199, wake: false }));
    // Nothing more is expected.
    assert_eq!(w.put(Some(tag(1))), None);
    assert_eq!(w.put(None), None);
}

#[test]
fn ack_without_tag_is_accepted_where_one_is_expected() {
    let mut w: CircSendWindow = SendWindow::new(200);
    assert_eq!(w.take(&tag(7)), Some(199));
    assert_eq!(w.put(None), Some(Ack { window: 299, wake: false }));
}

#[test]
fn full_window_records_no_tag() {
    let mut w: CircSendWindow = SendWindow::new(1000);
    assert_eq!(w.take(&tag(1)), Some(999));
    // The cell sent at the maximum is not one that is acknowledged.
    assert_eq!(w.put(Some(tag(1))), None);
}

#[test]
fn window_stays_within_its_maximum() {
    let mut w: CircSendWindow = SendWindow::new(1000);
    let mut window: u16 = 1000;
    let mut expected = std::collections::VecDeque::new();
    for round in 0..20000u16 {
        // Acknowledge now and then, and always before the window runs out.
        if round % 7 == 0 || window == 1 {
            if let Some(t) = expected.pop_front() {
                window = w.put(Some(t)).unwrap().window;
            }
        } else {
            let t = tag(round);
            if window % 100 == 0 && window != 1000 {
                expected.push_back(t);
            }
            window = w.take(&t).unwrap();
        }
        assert!(window <= 1000);
        assert!(expected.len() <= 10);
    }
}

#[test]
fn stream_window_has_no_tags() {
    let mut w: StreamSendWindow = SendWindow::new(500);
    for _ in 0..50 {
        w.take(&());
    }
    assert_eq!(w.take(&()), Some(449));
    assert_eq!(w.put(Some(())), Some(Ack { window: 499, wake: false }));
    assert_eq!(w.put(None), None);
}

#[test]
fn stream_window_exhaustion() {
    let mut w: StreamSendWindow = SendWindow::new(50);
    for i in 0..50u16 {
        assert_eq!(w.take(&()), Some(49 - i));
    }
    assert_eq!(w.take(&()), None);
    assert_eq!(w.put(None), Some(Ack { window: 50, wake: true }));
    // Only the first acknowledgement wakes the sender.
    assert_eq!(w.put(None), Some(Ack { window: 100, wake: false }));
}

#[test]
fn put_overflow_is_refused() {
    // Not a window that keeps its invariant: it starts far above its maximum.
    let mut high: CircSendWindow = SendWindow::new(65500);
    assert_eq!(high.take(&tag(1)), Some(65499));
    assert_eq!(high.put(Some(tag(1))), None);
    // The tag is used up all the same.
    assert_eq!(high.put(None), None);
    let mut w: SendWindow<TinyParams, ()> = SendWindow::new(2);
    assert_eq!(w.take(&()), Some(1));
    assert_eq!(w.put(None), Some(Ack { window: 3, wake: false }));
}

#[test]
fn recv_window_circuit() {
    let mut w: CircRecvWindow = RecvWindow::new(1000);
    // At the maximum no acknowledgement is due.
    assert_eq!(w.take(), Some(false));
    for _ in 0..99 {
        assert_eq!(w.take(), Some(false));
    }
    // The window stands at 900: the cell that takes it further is acknowledged.
    assert_eq!(w.take(), Some(true));
    assert!(w.can_put());
    w.put();
    for _ in 0..99 {
        assert_eq!(w.take(), Some(false));
    }
    assert_eq!(w.take(), Some(true));
}

#[test]
fn recv_window_underflow() {
    let mut w: StreamRecvWindow = RecvWindow::new(2);
    assert_eq!(w.take(), Some(false));
    assert_eq!(w.take(), Some(false));
    assert_eq!(w.take(), None);
    assert_eq!(w.take(), None);
    w.put();
    assert_eq!(w.take(), Some(true));
}

#[test]
fn recv_window_put_needs_room() {
    let mut w: StreamRecvWindow = RecvWindow::new(65500);
    assert!(!w.can_put());
    let mut w: StreamRecvWindow = RecvWindow::new(65485);
    assert!(w.can_put());
    w.put();
    assert!(!w.can_put());
}

#[test]
fn tiny_params_window() {
    let mut w: RecvWindow<TinyParams> = RecvWindow::new(4);
    assert_eq!(w.take(), Some(false));
    assert_eq!(w.take(), Some(false));
    assert_eq!(w.take(), Some(true));
    assert_eq!(w.take(), Some(false));
    assert_eq!(w.take(), None);
}
