//! The worker's side of the exchange.
//!
//! A worker opens with a request for work. From then on every message it
//! reads must be a task: it computes the tile, packs the reply with
//! [`FragmentTask::calculate_fractal`], and sends it. Anything else is a
//! protocol error and ends the worker.

use crate::message::{FragmentRequest, FragmentTask, Message};
use vstd::prelude::*;

verus! {

/// The work load that every worker announces.
pub const MAXIMAL_WORK_LOAD: u32 = 1000;

/// What a worker does with a message it has read.
#[derive(Debug)]
pub enum WorkerAction {
    /// Compute `task`; `data_id` is the payload that came with it and goes
    /// back in front of the pixels.
    Compute { task: FragmentTask, data_id: Vec<u8> },
    /// The message is not a task.
    ProtocolError,
}

/// The message with which the worker called `worker_name` asks for work.
pub fn request(worker_name: String) -> (message: Message)
    ensures
        message == Message::FragmentRequest(
            FragmentRequest { worker_name, maximal_work_load: 1000 },
        ),
{
    Message::FragmentRequest(FragmentRequest { worker_name, maximal_work_load: MAXIMAL_WORK_LOAD })
}

/// Decides what to do with `message` and the payload `data` that came with
/// it.
pub fn on_message(message: Message, data: Vec<u8>) -> (action: WorkerAction)
    ensures
        match message {
            Message::FragmentTask(task) => action == (WorkerAction::Compute {
                task,
                data_id: data,
            }),
            _ => action is ProtocolError,
        },
{
    match message {
        Message::FragmentTask(task) => WorkerAction::Compute { task, data_id: data },
        _ => WorkerAction::ProtocolError,
    }
}

} // verus!
