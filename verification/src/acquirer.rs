//! The acquisition side: what to do with the outcome of each blocking read.
//!
//! The loop that owns the hardware channel performs the reads; an
//! [`Acquirer`] decides what each outcome means. A full block is reduced to
//! its statistic and becomes a [`Frame`] to publish. Anything else stops
//! acquisition for good.

use crate::statistic::{mean, mean_of, Sample, Statistic};
use crate::transport::Transport;
use vstd::prelude::*;

verus! {

/// What one blocking read on the hardware channel came back with.
#[derive(Debug, PartialEq, Eq)]
pub enum Reading {
    /// The read returned these samples, oldest first.
    Samples(Vec<Sample>),
    /// The timeout elapsed or the device reported an error.
    Failed,
}

/// Why acquisition stopped.
#[derive(Debug, Clone, Copy, PartialEq, Eq)]
pub enum AcquireError {
    /// The channel could not begin sampling.
    StartFailed,
    /// A read timed out or the device reported an error.
    ReadFailed,
    /// A read returned `received` samples where one block of `expected`
    /// samples was due.
    WrongBlockSize { expected: usize, received: usize },
}

/// The output of one acquisition cycle: a block and the statistic derived
/// from it. The two cannot be set apart: a frame is made from a block, and
/// its statistic is that block's mean.
#[derive(Debug, PartialEq, Eq)]
pub struct Frame {
    statistic: Statistic,
    block: Vec<Sample>,
}

/// A frame as contracts see it.
pub struct FrameView {
    pub statistic: Statistic,
    pub block: Vec<Sample>,
}

impl FrameView {
    /// The block is not empty and the statistic is its mean.
    pub open spec fn is_reduced(self) -> bool {
        self.block@.len() > 0 && self.statistic@ == mean_of(self.block@)
    }
}

impl View for Frame {
    type V = FrameView;

    closed spec fn view(&self) -> FrameView {
        FrameView { statistic: self.statistic, block: self.block }
    }
}

impl Frame {
    #[verifier::type_invariant]
    spec fn statistic_is_of_block(self) -> bool {
        self@.is_reduced()
    }

    /// Reduces a block to its statistic and pairs the two.
    pub fn new(block: Vec<Sample>) -> (frame: Frame)
        requires
            block@.len() > 0,
        ensures
            frame@.block == block,
            frame@.is_reduced(),
    {
        let statistic = mean(block.as_slice());
        Frame { statistic, block }
    }

    /// The mean of the frame's block.
    pub fn statistic(&self) -> (statistic: Statistic)
        ensures
            statistic == self@.statistic,
            self@.is_reduced(),
    {
        proof {
            use_type_invariant(self);
        }
        self.statistic
    }

    /// The frame's block, oldest sample first.
    pub fn block(&self) -> (block: &[Sample])
        ensures
            block@ == self@.block@,
            self@.is_reduced(),
    {
        proof {
            use_type_invariant(self);
        }
        self.block.as_slice()
    }

    /// Publishes the block and its statistic, each on its own channel.
    pub fn publish(
        self,
        statistics: &mut Transport<Statistic>,
        blocks: &mut Transport<Vec<Sample>>,
    )
        ensures
            self@.is_reduced(),
            final(statistics)@ == old(statistics)@.push(self@.statistic),
            final(blocks)@ == old(blocks)@.push(self@.block),
    {
        proof {
            use_type_invariant(&self);
        }
        blocks.publish(self.block);
        statistics.publish(self.statistic);
    }
}

/// Turns read outcomes into frames, for blocks of one fixed size.
pub struct Acquirer {
    block_size: usize,
    stopped: Option<AcquireError>,
}

/// An acquirer as contracts see it.
pub struct AcquirerState {
    /// The number of samples in every block.
    pub block_size: usize,
    /// The error that stopped acquisition, if it has stopped.
    pub stopped: Option<AcquireError>,
}

impl View for Acquirer {
    type V = AcquirerState;

    closed spec fn view(&self) -> AcquirerState {
        AcquirerState { block_size: self.block_size, stopped: self.stopped }
    }
}

/// The error with which a reading is refused, if it is: the error that
/// stopped acquisition earlier, or else what is wrong with the reading
/// itself.
pub open spec fn refusal(state: AcquirerState, reading: Reading) -> Option<AcquireError> {
    match state.stopped {
        Some(error) => Some(error),
        None => match reading {
            Reading::Failed => Some(AcquireError::ReadFailed),
            Reading::Samples(block) => if block@.len() == state.block_size {
                None
            } else {
                Some(
                    AcquireError::WrongBlockSize {
                        expected: state.block_size,
                        received: block.len(),
                    },
                )
            },
        },
    }
}

impl Acquirer {
    #[verifier::type_invariant]
    spec fn blocks_are_not_empty(self) -> bool {
        self.block_size > 0
    }

    /// The number of samples in every block.
    pub fn block_size(&self) -> (size: usize)
        ensures
            size == self@.block_size,
            size > 0,
    {
        proof {
            use_type_invariant(self);
        }
        self.block_size
    }

    /// The error that stopped acquisition, if it has stopped.
    pub fn stopped(&self) -> (error: Option<AcquireError>)
        ensures
            error == self@.stopped,
    {
        self.stopped
    }

    /// Begins acquisition of blocks of `block_size` samples on a channel
    /// whose start was attempted, with `started` telling whether it
    /// succeeded. A channel that did not start is a fatal error.
    pub fn start(block_size: usize, started: bool) -> (outcome: Result<Acquirer, AcquireError>)
        requires
            block_size > 0,
        ensures
            match outcome {
                Ok(acquirer) => started && acquirer@.block_size == block_size
                    && acquirer@.stopped is None,
                Err(error) => !started && error == AcquireError::StartFailed,
            },
    {
        if started {
            Ok(Acquirer { block_size, stopped: None })
        } else {
            Err(AcquireError::StartFailed)
        }
    }

    /// Decides what the outcome of one read means.
    ///
    /// A reading of exactly one block yields the frame to publish: the block
    /// as read and its mean. A failed read, or one that is not exactly one
    /// block, stops acquisition: it and every later reading are refused with
    /// the same error.
    pub fn on_read(&mut self, reading: Reading) -> (outcome: Result<Frame, AcquireError>)
        ensures
            final(self)@.block_size == old(self)@.block_size,
            final(self)@.stopped == refusal(old(self)@, reading),
            match outcome {
                Ok(frame) => {
                    &&& refusal(old(self)@, reading) is None
                    &&& reading == Reading::Samples(frame@.block)
                    &&& frame@.is_reduced()
                },
                Err(error) => refusal(old(self)@, reading) == Some(error),
            },
    {
        proof {
            use_type_invariant(&*self);
        }
        if let Some(error) = self.stopped {
            return Err(error);
        }
        match reading {
            Reading::Failed => {
                self.stopped = Some(AcquireError::ReadFailed);
                Err(AcquireError::ReadFailed)
            },
            Reading::Samples(block) => {
                if block.len() == self.block_size {
                    Ok(Frame::new(block))
                } else {
                    let error = AcquireError::WrongBlockSize {
                        expected: self.block_size,
                        received: block.len(),
                    };
                    self.stopped = Some(error);
                    Err(error)
                }
            },
        }
    }
}

} // verus!
