//! Steps of an operation
//!
//! An operation is a run of exchanges with the chip. The library never waits
//! for the chip itself: each step either names the frame to send, together
//! with what is pending until the reply is in, or reports how the operation
//! ended.

use vstd::prelude::*;

use crate::definitions::MAX_ERASE_BLOCKS;
use crate::protocol::{Mode, ProtocolError};

verus! {

/// What an operation belongs to: it stands alone, or it is one part of a
/// longer procedure that goes on when the part has succeeded.
#[derive(Clone, Copy, Debug, PartialEq, Eq, Structural)]
pub enum Flow {
    /// A single operation.
    Single,
    /// Detect the bootloader, then identify the chip.
    Detect,
    /// Detect, identify, erase, write, verify, leave the bootloader.
    Write,
    /// Detect, identify, verify.
    Verify,
}

/// The parts that procedures are made of.
#[derive(Clone, Copy, Debug, PartialEq, Eq, Structural)]
pub enum Operation {
    Detect,
    Identify,
    Erase,
    Flash(Mode),
    Exit,
}

/// The request whose reply is awaited.
#[derive(Clone, Copy, Debug)]
pub enum Stage {
    /// The probe that tells the bootloader generation.
    Probe,
    /// The chip-detect request.
    ChipId,
    /// The configuration read.
    Config,
    /// The key exchange; `key` becomes the session key if the chip confirms.
    KeyAck { key: [u8; 8] },
    /// Request `index` of the erase requests for a chip of `blocks` blocks.
    Erase { index: u8, blocks: u8 },
    /// The flash packet of `mode` for the chunk at `addr`.
    Flash { mode: Mode, addr: usize },
    /// The request to leave the bootloader.
    Exit,
}

/// A [`Stage`] as a mathematical value.
pub enum StageView {
    Probe,
    ChipId,
    Config,
    KeyAck { key: Seq<u8> },
    Erase { index: int, blocks: u8 },
    Flash { mode: Mode, addr: int },
    Exit,
}

impl View for Stage {
    type V = StageView;

    open spec fn view(&self) -> StageView {
        match *self {
            Stage::Probe => StageView::Probe,
            Stage::ChipId => StageView::ChipId,
            Stage::Config => StageView::Config,
            Stage::KeyAck { key } => StageView::KeyAck { key: key@ },
            Stage::Erase { index, blocks } => StageView::Erase { index: index as int, blocks },
            Stage::Flash { mode, addr } => StageView::Flash { mode, addr: addr as int },
            Stage::Exit => StageView::Exit,
        }
    }
}

/// Whether `stage` can be pending over an image of `image_len` bytes: an
/// erase index lies within the erase requests, a flash address within the
/// image.
pub open spec fn stage_fits(stage: StageView, image_len: nat) -> bool {
    match stage {
        StageView::KeyAck { key } => key.len() == 8,
        StageView::Erase { index, blocks } => 0 <= index <= blocks <= MAX_ERASE_BLOCKS,
        StageView::Flash { mode, addr } => 0 <= addr <= image_len,
        _ => true,
    }
}

/// What is pending while a reply is awaited. It is handed out with the frame
/// to send and handed back with the reply.
pub struct Pending {
    stage: Stage,
    flow: Flow,
    image: Vec<u8>,
}

/// A [`Pending`] as a mathematical value.
pub struct PendingView {
    pub stage: StageView,
    pub flow: Flow,
    pub image: Seq<u8>,
}

impl View for Pending {
    type V = PendingView;

    closed spec fn view(&self) -> PendingView {
        PendingView { stage: self.stage@, flow: self.flow, image: self.image@ }
    }
}

impl Pending {
    #[verifier::type_invariant]
    spec fn well_formed(self) -> bool {
        stage_fits(self.stage@, self.image@.len())
    }

    pub(crate) fn new(stage: Stage, flow: Flow, image: Vec<u8>) -> (pending: Pending)
        requires
            stage_fits(stage@, image@.len()),
        ensures
            pending@ == (PendingView { stage: stage@, flow, image: image@ }),
    {
        Pending { stage, flow, image }
    }

    pub(crate) fn into_parts(self) -> (parts: (Stage, Flow, Vec<u8>))
        ensures
            self@ == (PendingView { stage: parts.0@, flow: parts.1, image: parts.2@ }),
            stage_fits(parts.0@, parts.2@.len()),
    {
        proof {
            use_type_invariant(&self);
        }
        (self.stage, self.flow, self.image)
    }

    /// The request whose reply is awaited. It always fits the image.
    pub fn stage(&self) -> (stage: Stage)
        ensures
            stage@ == self@.stage,
            stage_fits(self@.stage, self@.image.len()),
    {
        proof {
            use_type_invariant(self);
        }
        self.stage
    }
}

/// The outcome of one step of an operation.
pub enum Step {
    /// Send `frame`, collect the reply until the line falls silent, and
    /// advance with the reply and `pending`.
    Exchange { frame: Vec<u8>, pending: Pending },
    /// The operation is over.
    Done(Result<(), ProtocolError>),
}

/// A [`Step`] as a mathematical value.
pub enum StepView {
    Exchange { frame: Seq<u8>, pending: PendingView },
    Done(Result<(), ProtocolError>),
}

impl View for Step {
    type V = StepView;

    open spec fn view(&self) -> StepView {
        match self {
            Step::Exchange { frame, pending } => StepView::Exchange {
                frame: frame@,
                pending: pending@,
            },
            Step::Done(result) => StepView::Done(*result),
        }
    }
}

} // verus!
