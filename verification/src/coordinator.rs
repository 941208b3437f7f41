//! The coordinator's side of the exchange, one connection at a time.
//!
//! Each connection has a counter that says which tile is out. A request is
//! answered with the task for that tile. A result that the assembler takes
//! moves the counter on and is answered with the task for the next tile; one
//! that it does not take is dropped, and the same tile goes out again. A
//! task arriving here is a protocol error and ends the connection.
//!
//! What happens after the last tile is the owner's choice: the connection is
//! closed, or the plan starts over.

use crate::assembler::{assemble, assembled, lemma_reply_is_taken, AssemblyError};
use crate::fragment_task::{
    create_identification, identification, planned_task, tile_plan, tile_range, RangeManager,
    RangeManagerTrait, TILE_COUNT,
};
use crate::message::{FragmentTask, Message, PixelIntensity, Range, Resolution};
use crate::pixels::pixel_stream;
use vstd::prelude::*;

verus! {

/// What to do when the plan has no tile left.
#[derive(Debug, Clone, Copy, PartialEq, Eq, Structural)]
pub enum Exhaustion {
    /// Close the connection.
    Close,
    /// Start over with the first tile.
    WrapAround,
}

/// What a message turned out to be.
#[derive(Debug)]
pub enum Event {
    /// A worker asked for work.
    Requested,
    /// A result was taken: `pixels` are the tile of `range`, row by row.
    Taken { resolution: Resolution, range: Range, pixels: Vec<PixelIntensity> },
    /// A result was dropped.
    Discarded { error: AssemblyError },
    /// A task arrived, which only the coordinator sends.
    ProtocolError,
}

/// What goes back to the peer.
#[derive(Debug)]
pub enum Reply {
    /// Send `task`, with `payload` as its payload.
    Task { task: FragmentTask, payload: Vec<u8> },
    /// Send nothing and close the connection.
    Close,
}

/// The state of one connection.
#[derive(Debug)]
pub struct Coordinator {
    /// The plan, with `current_range` as the counter of this connection:
    /// the number of the tile that is out, or the number of tiles if none is
    /// left.
    pub plan: RangeManager,
    pub on_exhaustion: Exhaustion,
}

/// The counter after the tile `number` has come back.
pub open spec fn advanced(number: u8, on_exhaustion: Exhaustion) -> u8 {
    if number + 1 < 16 {
        (number + 1) as u8
    } else if on_exhaustion is WrapAround {
        0
    } else {
        16
    }
}

impl Coordinator {
    /// The plan is the tile plan and the counter is within it, or just
    /// behind it.
    pub open spec fn wf(&self) -> bool {
        self.plan.vec_num_range@ == tile_plan() && self.plan.current_range <= 16
    }

    /// Whether `reply` is the reply for counter `number`: the task for that
    /// tile with the identification as payload, or closing when no tile is
    /// left.
    pub open spec fn is_reply_for(reply: Reply, number: u8) -> bool {
        if number < 16 {
            reply matches Reply::Task { task, payload } && task == planned_task(
                tile_range(number as int),
            ) && payload@ == identification()
        } else {
            reply is Close
        }
    }

    /// The state of a fresh connection: the first tile is next.
    pub fn new(on_exhaustion: Exhaustion) -> (coordinator: Coordinator)
        ensures
            coordinator.wf(),
            coordinator.plan.current_range == 0,
            coordinator.on_exhaustion == on_exhaustion,
    {
        Coordinator { plan: RangeManager::new(), on_exhaustion }
    }

    /// The reply for the tile that the counter names.
    fn reply(&self) -> (reply: Reply)
        requires
            self.wf(),
        ensures
            Self::is_reply_for(reply, self.plan.current_range),
    {
        if self.plan.current_range < TILE_COUNT {
            Reply::Task {
                task: self.plan.get_current_range(self.plan.current_range),
                payload: create_identification(),
            }
        } else {
            Reply::Close
        }
    }

    /// Takes one message with its payload, moves the counter, and says what
    /// the message was and what goes back.
    pub fn on_message(&mut self, message: &Message, data: &[u8]) -> (step: (Event, Reply))
        requires
            old(self).wf(),
        ensures
            final(self).wf(),
            final(self).on_exhaustion == old(self).on_exhaustion,
            match *message {
                Message::FragmentTask(_) => {
                    &&& step.0 is ProtocolError
                    &&& step.1 is Close
                    &&& final(self).plan.current_range == old(self).plan.current_range
                },
                Message::FragmentRequest(_) => {
                    &&& step.0 is Requested
                    &&& final(self).plan.current_range == old(self).plan.current_range
                    &&& Self::is_reply_for(step.1, old(self).plan.current_range)
                },
                Message::FragmentResult(result) => match assembled(
                    result,
                    data@,
                    identification(),
                ) {
                    Ok(tile) => {
                        &&& step.0 matches Event::Taken { resolution, range, pixels }
                        &&& resolution == result.resolution
                        &&& range == result.range
                        &&& pixels@ == tile
                        &&& final(self).plan.current_range == advanced(
                            old(self).plan.current_range,
                            old(self).on_exhaustion,
                        )
                        &&& Self::is_reply_for(step.1, final(self).plan.current_range)
                    },
                    Err(e) => {
                        &&& step.0 == (Event::Discarded { error: e })
                        &&& final(self).plan.current_range == old(self).plan.current_range
                        &&& Self::is_reply_for(step.1, old(self).plan.current_range)
                    },
                },
            },
    {
        match message {
            Message::FragmentTask(_) => (Event::ProtocolError, Reply::Close),
            Message::FragmentRequest(_) => (Event::Requested, self.reply()),
            Message::FragmentResult(result) => {
                let id = create_identification();
                match assemble(result, data, id.as_slice()) {
                    Ok(pixels) => {
                        let number = self.plan.current_range;
                        if number + 1 < TILE_COUNT {
                            self.plan.current_range = number + 1;
                        } else {
                            match self.on_exhaustion {
                                Exhaustion::WrapAround => {
                                    self.plan.current_range = 0;
                                },
                                Exhaustion::Close => {
                                    self.plan.current_range = TILE_COUNT;
                                },
                            }
                        }
                        (
                            Event::Taken {
                                resolution: result.resolution,
                                range: result.range,
                                pixels,
                            },
                            self.reply(),
                        )
                    },
                    Err(error) => (Event::Discarded { error }, self.reply()),
                }
            },
        }
    }
}

/// The counter walks the plan in order: each result that is taken moves it
/// to the next tile. Behind the last tile it stays put if the connection is
/// to be closed, so that no tile goes out twice, and returns to the first
/// tile if the plan is to start over, so that there always is a next tile.
pub proof fn lemma_counter_walks_the_plan(number: u8, on_exhaustion: Exhaustion)
    requires
        number <= 16,
    ensures
        number < 15 ==> advanced(number, on_exhaustion) == number + 1,
        number >= 15 && on_exhaustion is Close ==> advanced(number, on_exhaustion) == 16,
        number >= 15 && on_exhaustion is WrapAround ==> advanced(number, on_exhaustion) == 0,
        on_exhaustion is WrapAround ==> advanced(number, on_exhaustion) < 16,
{
}

/// The identification comes back: when a worker computes a task of the plan
/// and packs its reply around the payload that came with the task, the
/// reply's payload starts with the sixteen identification bytes, and the
/// coordinator takes the result and reads the worker's pixels out of it.
pub proof fn lemma_identification_echo(tile: int, pixels: Seq<PixelIntensity>)
    requires
        0 <= tile < 16,
        pixels.len() == 300 * 300,
    ensures
        (identification() + pixel_stream(pixels)).subrange(0, 16) == identification(),
        assembled(
            planned_task(tile_range(tile)).result_record(pixels.len() as u32),
            identification() + pixel_stream(pixels),
            identification(),
        ) == Ok::<Seq<PixelIntensity>, AssemblyError>(pixels),
{
    lemma_reply_is_taken(planned_task(tile_range(tile)), identification(), pixels);
}

} // verus!
