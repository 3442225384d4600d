//! Connection-wide state.
use std::collections::HashMap;
use vstd::prelude::*;
use crate::protocol::frames;
use crate::protocol::frames::Frame;
use crate::protocol::frames::FramingError;
use crate::stream::StreamId;
use crate::stream::StreamState;

verus! {

type ConnectionId = u32;

/// Errors of a connection.
#[derive(Debug)]
pub enum ConnectionError {
    InvalidStreamId,
    UnknownFrame,
    General,
    InsufficientCredit,
}

impl From<()> for ConnectionError {
    fn from(unit: ()) -> (e: Self) {
        ConnectionError::General
    }
}

impl vstd::std_specs::convert::FromSpecImpl<()> for ConnectionError {
    open spec fn obeys_from_spec() -> bool {
        true
    }

    open spec fn from_spec(v: ()) -> ConnectionError {
        ConnectionError::General
    }
}

impl From<FramingError> for ConnectionError {
    fn from(err: FramingError) -> (e: Self) {
        ConnectionError::General
    }
}

impl vstd::std_specs::convert::FromSpecImpl<FramingError> for ConnectionError {
    open spec fn obeys_from_spec() -> bool {
        true
    }

    open spec fn from_spec(v: FramingError) -> ConnectionError {
        ConnectionError::General
    }
}

/// A connection as a value.
pub struct ConnectionView {
    pub id: u32,
    pub err: Option<ConnectionError>,
    /// The task that drives the connection's I/O, if one waits to be woken.
    pub conn_task: Option<futures::task::Task>,
    /// The task that awaits new streams, if one waits to be woken.
    pub new_stream_task: Option<futures::task::Task>,
    pub streams: Map<StreamId, StreamState>,
}

/// Tracks connection-related state needed for driving I/O progress
pub struct ConnectionContext {
    /// ID of this connection
    id: ConnectionId,
    /// Stores the current connection error, if there is one
    err: Option<ConnectionError>,
    /// Task which drives the connection's I/O progress
    conn_task: Option<futures::task::Task>,
    /// Task which awaits new streams
    new_stream_task: Option<futures::task::Task>,
    /// Stream management store
    stream_states: HashMap<StreamId, StreamState>,
}

/// Frame-handling helper
enum AsyncHandle<T> {
    Ready,
    NotReady(T),
}

impl View for ConnectionContext {
    type V = ConnectionView;

    closed spec fn view(&self) -> ConnectionView {
        ConnectionView {
            id: self.id,
            err: self.err,
            conn_task: self.conn_task,
            new_stream_task: self.new_stream_task,
            streams: self.stream_states@,
        }
    }
}

impl ConnectionContext {
    /// A connection with id `id`, no error, no waiting task and no stream.
    pub fn new(id: ConnectionId) -> (c: Self)
        ensures
            c@ == (ConnectionView {
                id,
                err: None,
                conn_task: None,
                new_stream_task: None,
                streams: Map::empty(),
            }),
    {
        ConnectionContext {
            id,
            err: None,
            conn_task: None,
            new_stream_task: None,
            stream_states: HashMap::new(),
        }
    }

    /// Delegates work according to frame type: unknown frames are refused, every other
    /// frame is handled at once.
    fn handle_frame(&mut self, f: Frame) -> (r: Result<AsyncHandle<Frame>, ConnectionError>)
        ensures
            f@ is Unknown ==> r matches Err(ConnectionError::UnknownFrame),
            !(f@ is Unknown) ==> r matches Ok(AsyncHandle::Ready),
            final(self)@ == old(self)@,
    {
        match f {
            Frame::StreamRequest(frame) => self.on_stream_request(frame),
            Frame::CreditUpdate(frame) => self.on_credit_update(frame),
            Frame::Data(frame) => self.on_data(frame),
            Frame::Ping(_, _) => Ok(AsyncHandle::Ready),
            Frame::Pong(_, _) => Ok(AsyncHandle::Ready),
            Frame::Unknown => Err(ConnectionError::UnknownFrame),
        }
    }

    fn on_stream_request(&mut self, request: frames::StreamRequest) -> (r: Result<
        AsyncHandle<Frame>,
        ConnectionError,
    >)
        ensures
            r matches Ok(AsyncHandle::Ready),
            final(self)@ == old(self)@,
    {
        Ok(AsyncHandle::Ready)
    }

    fn on_credit_update(&mut self, request: frames::CreditUpdate) -> (r: Result<
        AsyncHandle<Frame>,
        ConnectionError,
    >)
        ensures
            r matches Ok(AsyncHandle::Ready),
            final(self)@ == old(self)@,
    {
        Ok(AsyncHandle::Ready)
    }

    fn on_data(&mut self, request: frames::Data) -> (r: Result<AsyncHandle<Frame>, ConnectionError>)
        ensures
            r matches Ok(AsyncHandle::Ready),
            final(self)@ == old(self)@,
    {
        Ok(AsyncHandle::Ready)
    }

    /// Returns true if the connection has an error
    pub fn has_err(&self) -> (b: bool)
        ensures
            b == (self@.err is Some),
    {
        self.err.is_some()
    }

    /// Stores an error for this connection
    fn set_err(&mut self, err: ConnectionError)
        ensures
            final(self)@ == (ConnectionView { err: Some(err), ..old(self)@ }),
    {
        self.err = Some(err);
    }

    /// Notifies all connection-related `Task`s
    fn notify_all(&mut self)
        ensures
            final(self)@ == (ConnectionView {
                conn_task: None,
                new_stream_task: None,
                ..old(self)@
            }),
    {
        self.notify_conn_task();
        self.notify_new_stream_task();
    }

    // Notifies connection-driving task to wake up
    fn notify_conn_task(&mut self)
        ensures
            final(self)@ == (ConnectionView { conn_task: None, ..old(self)@ }),
    {
        if let Some(task) = self.conn_task.take() {
            task.notify()
        }
    }

    // Notifies stream-listening task to wake up
    fn notify_new_stream_task(&mut self)
        ensures
            final(self)@ == (ConnectionView { new_stream_task: None, ..old(self)@ }),
    {
        if let Some(task) = self.new_stream_task.take() {
            task.notify()
        }
    }
}

} // verus!
