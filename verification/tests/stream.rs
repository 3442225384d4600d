use flowframe::flow_control::Credits;
use flowframe::frames::Frame;
use flowframe::stream::{StreamId, StreamState};
use std::collections::VecDeque;

#[test]
fn stream_id_conversions() {
    let s = StreamId::new(7);
    assert_eq!(s.0, 7);
    let n: u32 = s.into();
    assert_eq!(n, 7);
    let u: usize = s.into();
    assert_eq!(u, 7usize);
    let back: StreamId = 9u32.into();
    assert_eq!(back, StreamId(9));
    assert!(StreamId(1) < StreamId(2));
}

#[test]
fn notify_without_tasks_keeps_state() {
    let (_tx, rx) = futures::sync::mpsc::channel::<Frame>(1);
    let mut st = StreamState {
        credits: Credits::new(5),
        data_buffer: VecDeque::new(),
        data: rx,
        send_task: None,
        recv_task: None,
    };
    st.notify_data_rx();
    st.notify_data_tx();
    assert!(st.recv_task.is_none());
    assert!(st.send_task.is_none());
    assert_eq!(st.credits.available(), 5);
}
