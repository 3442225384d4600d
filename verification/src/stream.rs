//! Stream identifiers and per-stream state.
use std::collections::VecDeque;
use vstd::prelude::*;
use crate::flow_control::Credits;
use crate::protocol::frames;

verus! {

/// Identifies a stream within a connection.
#[derive(Debug, Clone, Copy, Hash, Ord, PartialOrd, Eq, PartialEq, Structural)]
pub struct StreamId(pub u32);

impl StreamId {
    /// The stream id with the number `id`.
    pub fn new(id: u32) -> (s: Self)
        ensures
            s.0 == id,
    {
        StreamId(id)
    }
}

impl From<StreamId> for u32 {
    fn from(it: StreamId) -> (n: u32) {
        it.0
    }
}

impl vstd::std_specs::convert::FromSpecImpl<StreamId> for u32 {
    open spec fn obeys_from_spec() -> bool {
        true
    }

    open spec fn from_spec(v: StreamId) -> u32 {
        v.0
    }
}

impl From<StreamId> for usize {
    fn from(it: StreamId) -> (n: usize) {
        it.0 as usize
    }
}

impl vstd::std_specs::convert::FromSpecImpl<StreamId> for usize {
    open spec fn obeys_from_spec() -> bool {
        true
    }

    open spec fn from_spec(v: StreamId) -> usize {
        v.0 as usize
    }
}

impl From<u32> for StreamId {
    fn from(it: u32) -> (s: Self) {
        StreamId(it)
    }
}

impl vstd::std_specs::convert::FromSpecImpl<u32> for StreamId {
    open spec fn obeys_from_spec() -> bool {
        true
    }

    open spec fn from_spec(v: u32) -> StreamId {
        StreamId(v)
    }
}

/// Data structure tracking an individual stream
pub struct StreamState {
    pub credits: Credits,
    pub data_buffer: VecDeque<frames::Data>,
    pub data: futures::sync::mpsc::Receiver<frames::Frame>,
    /// Task waiting to be able to send data
    pub send_task: Option<futures::task::Task>,
    /// Task waiting to receive data from `data_buffer`
    pub recv_task: Option<futures::task::Task>,
}

impl StreamState {
    /// Wakes the task waiting to receive data, if there is one; it is no longer stored.
    pub fn notify_data_rx(&mut self)
        ensures
            final(self).recv_task is None,
            final(self).send_task == old(self).send_task,
            final(self).credits == old(self).credits,
            final(self).data_buffer == old(self).data_buffer,
            final(self).data == old(self).data,
    {
        if let Some(task) = self.recv_task.take() {
            task.notify();
        }
    }

    /// Wakes the task waiting to send data, if there is one; it is no longer stored.
    pub fn notify_data_tx(&mut self)
        ensures
            final(self).send_task is None,
            final(self).recv_task == old(self).recv_task,
            final(self).credits == old(self).credits,
            final(self).data_buffer == old(self).data_buffer,
            final(self).data == old(self).data,
    {
        if let Some(task) = self.send_task.take() {
            task.notify();
        }
    }
}

} // verus!
