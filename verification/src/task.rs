//! Handles of the futures runtime that the library stores and wakes.
use vstd::prelude::*;

verus! {

/// `futures::task::Task`, a handle to a task of the futures runtime; opaque here.
#[verifier::external_type_specification]
#[verifier::external_body]
pub struct ExTask(futures::task::Task);

/// `futures::sync::mpsc::Receiver`, the receiving end of a channel; opaque here.
#[verifier::external_type_specification]
#[verifier::external_body]
#[verifier::reject_recursive_types(T)]
pub struct ExReceiver<T>(futures::sync::mpsc::Receiver<T>);

/// `futures::task::Task::notify` asks the executor to poll the task again; it returns
/// nothing, and nothing is claimed of it.
pub assume_specification[ futures::task::Task::notify ](task: &futures::task::Task);

} // verus!
