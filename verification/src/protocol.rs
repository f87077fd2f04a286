//! Protocol engine
//!
//! The session with one chip and the operations on it: detecting the
//! bootloader, identifying the chip, erasing, writing, verifying and leaving
//! the bootloader. Each operation is a run of steps that follow the rules of
//! [`crate::transition`].

use vstd::prelude::*;

use crate::definitions::Definition;
use crate::erase::{erase_all_request, erase_block_request};
use crate::flash::{
    accepts_flash, address_is, opcode_for, v1_next, v1_packet, v2_next, v2_packet, MIN_IMAGE_LENGTH,
};
use crate::frame::{
    acknowledges, decode_reply, encode_request, reply_of, FRAME_OVERHEAD, PACKET_MAXLEN,
};
use crate::key::{confirms_key, derive_key, fresh_nonce, key_request, key_seed, NONCE_LENGTH};
use crate::reset::{reset_script, reset_sequence, LineStep};
use crate::sequence::{Bootloader, Sequence};
use crate::step::{stage_fits, Flow, Operation, Pending, Stage, Step};
use crate::transition;
use crate::transition::{exchange_of, within_limit, Session};

verus! {

/// Firmware flashing mode.
#[derive(Clone, Copy, Debug, PartialEq, Eq, Structural)]
pub enum Mode {
    Write,
    Verify,
}

/// Possible errors while using the library.
#[derive(Clone, Copy, Debug, PartialEq, Eq, Structural)]
pub enum ProtocolError {
    /// A reply did not open with `55 AA`.
    PreambleMismatch,
    /// The last byte of a reply was not the checksum of its payload.
    ChecksumMismatch,
    /// No reply came.
    SerialTimeout,
    /// The serial port failed, or the chip refused a flash packet.
    SerialError,
    /// The firmware file could not be read. The engine works on images in
    /// memory and never reports this itself; it is for those who load them.
    FileAccessError,
    /// The image is too short to be firmware.
    FileFormatError,
    /// The bootloader is not known, or did not confirm the session key.
    BootloaderUnknown,
    /// The chip is not known, or did not acknowledge an erase request.
    ChipUnknown,
}

impl ProtocolError {
    /// The text shown to the user for each error.
    pub open spec fn spec_message(self) -> Seq<char> {
        match self {
            ProtocolError::PreambleMismatch => "Preamble mismatch"@,
            ProtocolError::ChecksumMismatch => "Checksum mismatch"@,
            ProtocolError::SerialTimeout => "Serial timeout"@,
            ProtocolError::SerialError => "Serial error"@,
            ProtocolError::FileAccessError => "File access error"@,
            ProtocolError::FileFormatError => "File format error"@,
            ProtocolError::BootloaderUnknown => "Bootloader unknown"@,
            ProtocolError::ChipUnknown => "Chip unknown"@,
        }
    }

    /// The text shown to the user for this error.
    pub fn message(&self) -> (text: &'static str)
        ensures
            text@ == self.spec_message(),
    {
        match self {
            ProtocolError::PreambleMismatch => "Preamble mismatch",
            ProtocolError::ChecksumMismatch => "Checksum mismatch",
            ProtocolError::SerialTimeout => "Serial timeout",
            ProtocolError::SerialError => "Serial error",
            ProtocolError::FileAccessError => "File access error",
            ProtocolError::FileFormatError => "File format error",
            ProtocolError::BootloaderUnknown => "Bootloader unknown",
            ProtocolError::ChipUnknown => "Chip unknown",
        }
    }
}

/// For storing MCU information.
#[derive(Clone, Copy, Debug, PartialEq, Eq, Structural)]
pub struct ChipInfo {
    pub bootloader: Bootloader,
    pub chip_id: u8,
}

/// Version of the bootloader as the chip reports it. The first generation
/// reports no patch level.
#[derive(Clone, Copy, Debug, PartialEq, Eq, Structural)]
pub struct Version {
    pub major: u8,
    pub minor: u8,
    pub patch: Option<u8>,
}

/// Current state of a session with one chip.
pub struct Protocol {
    chip_info: ChipInfo,
    bootkey: [u8; 8],
    version: Option<Version>,
}

impl View for Protocol {
    type V = Session;

    closed spec fn view(&self) -> Session {
        Session { info: self.chip_info, key: self.bootkey@, version: self.version }
    }
}

/// Tells the bootloader generation from the reply to the probe: a payload of
/// exactly two bytes is the first generation, any other valid reply the
/// second, and a failed exchange tells nothing.
pub fn classify_probe(reply: &[u8]) -> (found: Bootloader)
    ensures
        found == transition::probe_verdict(reply@),
        reply_of(reply@) matches Ok(payload) ==> (payload.len() == 2 ==> found == Bootloader::V1)
            && (payload.len() != 2 ==> found == Bootloader::V2),
        reply_of(reply@) is Err ==> found == Bootloader::Unknown,
{
    match decode_reply(reply) {
        Ok(payload) => if payload.len() == 2 {
            Bootloader::V1
        } else {
            Bootloader::V2
        },
        Err(_) => Bootloader::Unknown,
    }
}

impl Protocol {
    /// Maximum request length.
    pub const PACKET_MAXLEN: usize = 256;

    /// Create new protocol instance with initial values.
    pub fn new() -> (protocol: Protocol)
        ensures
            protocol@ == Session::fresh(),
    {
        let protocol = Protocol {
            chip_info: ChipInfo { bootloader: Bootloader::Unknown, chip_id: 0 },
            bootkey: [0; 8],
            version: None,
        };
        assert(protocol.bootkey@ =~= Session::fresh().key);
        protocol
    }

    /// Bootloader generation and chip identifier as far as they are known.
    pub fn chip_info(&self) -> (info: ChipInfo)
        ensures
            info == self@.info,
    {
        self.chip_info
    }

    /// The session key.
    pub fn bootkey(&self) -> (key: [u8; 8])
        ensures
            key@ == self@.key,
    {
        self.bootkey
    }

    /// The bootloader version, once the chip has reported it.
    pub fn bootloader_version(&self) -> (version: Option<Version>)
        ensures
            version == self@.version,
    {
        self.version
    }

    fn exchange(payload: &[u8], stage: Stage, flow: Flow, image: Vec<u8>) -> (step: Step)
        requires
            payload.len() + FRAME_OVERHEAD <= PACKET_MAXLEN,
            stage_fits(stage@, image@.len()),
        ensures
            step@ == exchange_of(payload@, stage@, flow, image@),
            within_limit(step@),
    {
        Step::Exchange { frame: encode_request(payload), pending: Pending::new(stage, flow, image) }
    }

    fn detect_start(&self, flow: Flow, image: Vec<u8>) -> (step: Step)
        ensures
            step@ == transition::detect_start(self@, flow, image@),
            within_limit(step@),
    {
        match self.chip_info.bootloader {
            Bootloader::Unknown => Protocol::exchange(
                Sequence::v2().chip_detect,
                Stage::Probe,
                flow,
                image,
            ),
            _ => self.next_operation(flow, Operation::Detect, image),
        }
    }

    fn identify_start(&self, flow: Flow, image: Vec<u8>) -> (step: Step)
        ensures
            step@ == transition::identify_start(self@, flow, image@),
            within_limit(step@),
    {
        match Sequence::for_bootloader(self.chip_info.bootloader) {
            None => Step::Done(Err(ProtocolError::BootloaderUnknown)),
            Some(sequence) => Protocol::exchange(sequence.chip_detect, Stage::ChipId, flow, image),
        }
    }

    fn erase_start(&self, flow: Flow, image: Vec<u8>) -> (step: Step)
        ensures
            step@ == transition::erase_start(self@, flow, image@),
            within_limit(step@),
    {
        match self.chip_info.bootloader {
            Bootloader::Unknown => Step::Done(Err(ProtocolError::BootloaderUnknown)),
            Bootloader::V1 => match Definition::for_chip(self.chip_info.chip_id) {
                None => Step::Done(Err(ProtocolError::ChipUnknown)),
                Some(definition) => Protocol::exchange(
                    Sequence::v1().flash_erase,
                    Stage::Erase { index: 0, blocks: definition.erase_blocks },
                    flow,
                    image,
                ),
            },
            Bootloader::V2 => match Definition::for_chip(self.chip_info.chip_id) {
                None => Step::Done(Err(ProtocolError::ChipUnknown)),
                Some(definition) => {
                    let request = erase_all_request(definition.erase_blocks);
                    Protocol::exchange(
                        request.as_slice(),
                        Stage::Erase { index: 0, blocks: definition.erase_blocks },
                        flow,
                        image,
                    )
                },
            },
        }
    }

    fn flash_packet(&self, mode: Mode, image: &[u8], addr: usize) -> (packet: Vec<u8>)
        requires
            addr <= image.len(),
        ensures
            packet@ == transition::flash_packet_of(self@, mode, image@, addr as int),
            packet.len() + FRAME_OVERHEAD <= PACKET_MAXLEN,
    {
        match opcode_for(self.chip_info.bootloader, mode) {
            None => Vec::new(),
            Some(opcode) => match self.chip_info.bootloader {
                Bootloader::V2 => v2_packet(opcode, &self.bootkey, image, addr),
                _ => v1_packet(opcode, image, addr),
            },
        }
    }

    fn flash_start(&self, mode: Mode, flow: Flow, image: Vec<u8>) -> (step: Step)
        ensures
            step@ == transition::flash_start(self@, mode, flow, image@),
            within_limit(step@),
    {
        match self.chip_info.bootloader {
            Bootloader::Unknown => Step::Done(Err(ProtocolError::BootloaderUnknown)),
            _ => if image.len() < MIN_IMAGE_LENGTH {
                Step::Done(Err(ProtocolError::FileFormatError))
            } else {
                let packet = self.flash_packet(mode, image.as_slice(), 0);
                Protocol::exchange(packet.as_slice(), Stage::Flash { mode, addr: 0 }, flow, image)
            },
        }
    }

    fn exit_start(&self, flow: Flow, image: Vec<u8>) -> (step: Step)
        ensures
            step@ == transition::exit_start(self@, flow, image@),
            within_limit(step@),
    {
        match Sequence::for_bootloader(self.chip_info.bootloader) {
            None => Step::Done(Err(ProtocolError::BootloaderUnknown)),
            Some(sequence) => Protocol::exchange(
                sequence.bootloader_exit,
                Stage::Exit,
                flow,
                image,
            ),
        }
    }

    fn next_operation(&self, flow: Flow, done: Operation, image: Vec<u8>) -> (step: Step)
        ensures
            step@ == transition::next_operation(self@, flow, done, image@),
            within_limit(step@),
    {
        match flow {
            Flow::Single => Step::Done(Ok(())),
            Flow::Detect => match done {
                Operation::Detect => self.identify_start(flow, image),
                _ => Step::Done(Ok(())),
            },
            Flow::Write => match done {
                Operation::Detect => match self.chip_info.bootloader {
                    Bootloader::Unknown => Step::Done(Err(ProtocolError::BootloaderUnknown)),
                    _ => if self.chip_info.chip_id == 0 {
                        self.identify_start(flow, image)
                    } else {
                        self.erase_start(flow, image)
                    },
                },
                Operation::Identify => self.erase_start(flow, image),
                Operation::Erase => self.flash_start(Mode::Write, flow, image),
                Operation::Flash(Mode::Write) => self.flash_start(Mode::Verify, flow, image),
                Operation::Flash(Mode::Verify) => self.exit_start(flow, image),
                Operation::Exit => Step::Done(Ok(())),
            },
            Flow::Verify => match done {
                Operation::Detect => self.identify_start(flow, image),
                Operation::Identify => self.flash_start(Mode::Verify, flow, image),
                _ => Step::Done(Ok(())),
            },
        }
    }

    fn after_probe(&mut self, flow: Flow, image: Vec<u8>, reply: &[u8]) -> (step: Step)
        ensures
            final(self)@ == transition::after_probe(old(self)@, flow, image@, reply@).0,
            step@ == transition::after_probe(old(self)@, flow, image@, reply@).1,
            within_limit(step@),
    {
        match self.chip_info.bootloader {
            Bootloader::Unknown => {
                self.chip_info.bootloader = classify_probe(reply);
            },
            _ => {},
        }
        self.next_operation(flow, Operation::Detect, image)
    }

    fn after_chip_id(&mut self, flow: Flow, image: Vec<u8>, reply: &[u8]) -> (step: Step)
        ensures
            final(self)@ == transition::after_chip_id(old(self)@, flow, image@, reply@).0,
            step@ == transition::after_chip_id(old(self)@, flow, image@, reply@).1,
            within_limit(step@),
    {
        let payload = match decode_reply(reply) {
            Ok(payload) => payload,
            Err(error) => {
                return Step::Done(Err(error));
            },
        };
        let sequence = match Sequence::for_bootloader(self.chip_info.bootloader) {
            Some(sequence) => sequence,
            None => {
                return Step::Done(Err(ProtocolError::BootloaderUnknown));
            },
        };
        let (expected, place): (usize, usize) = match self.chip_info.bootloader {
            Bootloader::V2 => (6, 4),
            _ => (2, 0),
        };
        if payload.len() != expected {
            return Step::Done(Err(ProtocolError::ChipUnknown));
        }
        self.chip_info.chip_id = payload[place];
        Protocol::exchange(sequence.config_read, Stage::Config, flow, image)
    }

    fn after_config(
        &mut self,
        flow: Flow,
        image: Vec<u8>,
        reply: &[u8],
        nonce: &[u8; 48],
    ) -> (step: Step)
        ensures
            final(self)@ == transition::after_config(old(self)@, flow, image@, reply@, nonce@).0,
            step@ == transition::after_config(old(self)@, flow, image@, reply@, nonce@).1,
            within_limit(step@),
    {
        let payload = match decode_reply(reply) {
            Ok(payload) => payload,
            Err(error) => {
                return Step::Done(Err(error));
            },
        };
        match self.chip_info.bootloader {
            Bootloader::Unknown => Step::Done(Err(ProtocolError::BootloaderUnknown)),
            Bootloader::V1 => {
                if payload.len() != 2 {
                    return Step::Done(Err(ProtocolError::BootloaderUnknown));
                }
                self.version = Some(
                    Version { major: payload[0] >> 4, minor: payload[1] & 0x0F, patch: None },
                );
                self.next_operation(flow, Operation::Identify, image)
            },
            Bootloader::V2 => {
                if payload.len() != 30 {
                    return Step::Done(Err(ProtocolError::BootloaderUnknown));
                }
                self.version = Some(
                    Version { major: payload[19], minor: payload[20], patch: Some(payload[21]) },
                );
                let seed = key_seed(payload.as_slice());
                let key = derive_key(nonce, seed, self.chip_info.chip_id);
                let request = key_request(nonce);
                Protocol::exchange(request.as_slice(), Stage::KeyAck { key }, flow, image)
            },
        }
    }

    fn after_key(&mut self, flow: Flow, image: Vec<u8>, key: [u8; 8], reply: &[u8]) -> (step: Step)
        ensures
            final(self)@ == transition::after_key(old(self)@, flow, image@, key@, reply@).0,
            step@ == transition::after_key(old(self)@, flow, image@, key@, reply@).1,
            within_limit(step@),
    {
        let payload = match decode_reply(reply) {
            Ok(payload) => payload,
            Err(error) => {
                return Step::Done(Err(error));
            },
        };
        if confirms_key(payload.as_slice(), &key) {
            self.bootkey = key;
            self.next_operation(flow, Operation::Identify, image)
        } else {
            Step::Done(Err(ProtocolError::BootloaderUnknown))
        }
    }

    fn erase_reply_error(&self, reply: &[u8]) -> (error: Option<ProtocolError>)
        ensures
            error == transition::erase_reply_error(self@.info.bootloader, reply@),
    {
        match decode_reply(reply) {
            Err(error) => Some(error),
            Ok(payload) => match self.chip_info.bootloader {
                Bootloader::Unknown => Some(ProtocolError::BootloaderUnknown),
                Bootloader::V1 => if acknowledges(payload.as_slice(), 0) {
                    None
                } else {
                    Some(ProtocolError::ChipUnknown)
                },
                Bootloader::V2 => if acknowledges(payload.as_slice(), 4) {
                    None
                } else {
                    Some(ProtocolError::ChipUnknown)
                },
            },
        }
    }

    fn after_erase(
        &mut self,
        flow: Flow,
        image: Vec<u8>,
        index: u8,
        blocks: u8,
        reply: &[u8],
    ) -> (step: Step)
        requires
            stage_fits((Stage::Erase { index, blocks })@, image@.len()),
        ensures
            final(self)@ == transition::after_erase(
                old(self)@,
                flow,
                image@,
                index as int,
                blocks,
                reply@,
            ).0,
            step@ == transition::after_erase(
                old(self)@,
                flow,
                image@,
                index as int,
                blocks,
                reply@,
            ).1,
            within_limit(step@),
    {
        if let Some(error) = self.erase_reply_error(reply) {
            return Step::Done(Err(error));
        }
        match self.chip_info.bootloader {
            Bootloader::V1 => if index < blocks {
                let request = erase_block_request(index);
                Protocol::exchange(
                    request.as_slice(),
                    Stage::Erase { index: index + 1, blocks },
                    flow,
                    image,
                )
            } else {
                self.next_operation(flow, Operation::Erase, image)
            },
            _ => self.next_operation(flow, Operation::Erase, image),
        }
    }

    fn flash_reply_error(&self, reply: &[u8]) -> (error: Option<ProtocolError>)
        ensures
            error == transition::flash_reply_error(self@.info.bootloader, reply@),
    {
        match decode_reply(reply) {
            Err(error) => Some(error),
            Ok(payload) => match self.chip_info.bootloader {
                Bootloader::Unknown => Some(ProtocolError::BootloaderUnknown),
                Bootloader::V1 => if acknowledges(payload.as_slice(), 0) {
                    None
                } else {
                    Some(ProtocolError::SerialError)
                },
                Bootloader::V2 => if accepts_flash(payload.as_slice()) {
                    None
                } else {
                    Some(ProtocolError::SerialError)
                },
            },
        }
    }

    fn flash_next(&self, len: usize, addr: usize) -> (next: Option<usize>)
        requires
            addr <= len,
        ensures
            address_is(
                next,
                transition::flash_next_of(self@.info.bootloader, len as int, addr as int),
            ),
            next matches Some(after) ==> after <= len,
    {
        match self.chip_info.bootloader {
            Bootloader::Unknown => None,
            Bootloader::V1 => v1_next(len, addr),
            Bootloader::V2 => v2_next(len, addr),
        }
    }

    fn after_flash(
        &mut self,
        flow: Flow,
        image: Vec<u8>,
        mode: Mode,
        addr: usize,
        reply: &[u8],
    ) -> (step: Step)
        requires
            addr <= image.len(),
        ensures
            final(self)@ == transition::after_flash(
                old(self)@,
                flow,
                image@,
                mode,
                addr as int,
                reply@,
            ).0,
            step@ == transition::after_flash(
                old(self)@,
                flow,
                image@,
                mode,
                addr as int,
                reply@,
            ).1,
            within_limit(step@),
    {
        if let Some(error) = self.flash_reply_error(reply) {
            return Step::Done(Err(error));
        }
        match self.flash_next(image.len(), addr) {
            Some(next) => {
                let packet = self.flash_packet(mode, image.as_slice(), next);
                Protocol::exchange(packet.as_slice(), Stage::Flash { mode, addr: next }, flow, image)
            },
            None => self.next_operation(flow, Operation::Flash(mode), image),
        }
    }

    fn after_exit(&mut self, flow: Flow, image: Vec<u8>, reply: &[u8]) -> (step: Step)
        ensures
            final(self)@ == transition::after_exit(old(self)@, flow, image@, reply@).0,
            step@ == transition::after_exit(old(self)@, flow, image@, reply@).1,
            within_limit(step@),
    {
        match decode_reply(reply) {
            Err(error) => Step::Done(Err(error)),
            Ok(_) => self.next_operation(flow, Operation::Exit, image),
        }
    }

    /// Takes the bytes that came in reply to the frame of the last step, and
    /// tells the next step. `nonce` is the challenge to use if the reply
    /// calls for a key exchange.
    pub fn advance_with_nonce(&mut self, pending: Pending, reply: &[u8], nonce: &[u8; 48]) -> (step:
        Step)
        ensures
            final(self)@ == transition::after_reply(old(self)@, pending@, reply@, nonce@).0,
            step@ == transition::after_reply(old(self)@, pending@, reply@, nonce@).1,
            within_limit(step@),
    {
        let (stage, flow, image) = pending.into_parts();
        match stage {
            Stage::Probe => self.after_probe(flow, image, reply),
            Stage::ChipId => self.after_chip_id(flow, image, reply),
            Stage::Config => self.after_config(flow, image, reply, nonce),
            Stage::KeyAck { key } => self.after_key(flow, image, key, reply),
            Stage::Erase { index, blocks } => self.after_erase(flow, image, index, blocks, reply),
            Stage::Flash { mode, addr } => self.after_flash(flow, image, mode, addr, reply),
            Stage::Exit => self.after_exit(flow, image, reply),
        }
    }

    /// Takes the bytes that came in reply to the frame of the last step, and
    /// tells the next step. Nothing received is to be handed in as no bytes.
    ///
    /// If the reply calls for a key exchange, a fresh random challenge is
    /// drawn for it; otherwise the step is the same for every challenge.
    /// Whatever the reply, a bootloader that is known stays as it is.
    pub fn advance(&mut self, pending: Pending, reply: &[u8]) -> (step: Step)
        ensures
            exists|nonce: Seq<u8>|
                {
                    &&& nonce.len() == NONCE_LENGTH
                    &&& final(self)@ == (#[trigger] transition::after_reply(
                        old(self)@,
                        pending@,
                        reply@,
                        nonce,
                    )).0
                    &&& step@ == transition::after_reply(old(self)@, pending@, reply@, nonce).1
                },
            !transition::key_exchange_is_due(old(self)@, pending@) ==> forall|nonce: Seq<u8>|
                {
                    &&& final(self)@ == (#[trigger] transition::after_reply(
                        old(self)@,
                        pending@,
                        reply@,
                        nonce,
                    )).0
                    &&& step@ == transition::after_reply(old(self)@, pending@, reply@, nonce).1
                },
            old(self)@.info.bootloader != Bootloader::Unknown ==> final(self)@.info.bootloader
                == old(self)@.info.bootloader,
            within_limit(step@),
    {
        let due = match (pending.stage(), self.chip_info.bootloader) {
            (Stage::Config, Bootloader::V2) => true,
            _ => false,
        };
        let nonce = if due {
            fresh_nonce()
        } else {
            [0; 48]
        };
        proof {
            transition::lemma_detection_is_one_way(old(self)@, pending@, reply@, nonce@);
            if !due {
                assert forall|other: Seq<u8>| #[trigger]
                    transition::after_reply(old(self)@, pending@, reply@, other)
                        == transition::after_reply(old(self)@, pending@, reply@, nonce@) by {
                    transition::lemma_nonce_matters_for_key_exchange_only(
                        old(self)@,
                        pending@,
                        reply@,
                        nonce@,
                        other,
                    );
                }
            }
        }
        self.advance_with_nonce(pending, reply, &nonce)
    }

    /// Detect bootloader on a connected chip.
    ///
    /// A failed probe is no error: the operation ends well and the bootloader
    /// is still unknown, which shows in [`Protocol::chip_info`] only.
    pub fn bootloader_detect(&mut self) -> (step: Step)
        ensures
            final(self)@ == old(self)@,
            step@ == transition::detect_start(old(self)@, Flow::Single, Seq::empty()),
            within_limit(step@),
    {
        self.detect_start(Flow::Single, Vec::new())
    }

    /// Detect connected chip.
    pub fn chip_detect(&mut self) -> (step: Step)
        ensures
            final(self)@ == old(self)@,
            step@ == transition::identify_start(old(self)@, Flow::Single, Seq::empty()),
            within_limit(step@),
    {
        self.identify_start(Flow::Single, Vec::new())
    }

    /// Detect the bootloader, then the connected chip.
    pub fn detect(&mut self) -> (step: Step)
        ensures
            final(self)@ == old(self)@,
            step@ == transition::detect_start(old(self)@, Flow::Detect, Seq::empty()),
            within_limit(step@),
    {
        self.detect_start(Flow::Detect, Vec::new())
    }

    /// Erase MCU flash.
    pub fn erase(&mut self) -> (step: Step)
        ensures
            final(self)@ == old(self)@,
            step@ == transition::erase_start(old(self)@, Flow::Single, Seq::empty()),
            within_limit(step@),
    {
        self.erase_start(Flow::Single, Vec::new())
    }

    /// Exit from MCU bootloader.
    pub fn bootloader_exit(&mut self) -> (step: Step)
        ensures
            final(self)@ == old(self)@,
            step@ == transition::exit_start(old(self)@, Flow::Single, Seq::empty()),
            within_limit(step@),
    {
        self.exit_start(Flow::Single, Vec::new())
    }

    /// Default write firmware procedure: detect, identify, erase, write,
    /// verify and leave the bootloader. The first failure ends it.
    pub fn write(&mut self, image: Vec<u8>) -> (step: Step)
        ensures
            final(self)@ == old(self)@,
            step@ == transition::detect_start(old(self)@, Flow::Write, image@),
            within_limit(step@),
    {
        self.detect_start(Flow::Write, image)
    }

    /// Verify firmware on MCU against `image`: detect, identify and verify.
    pub fn verify(&mut self, image: Vec<u8>) -> (step: Step)
        ensures
            final(self)@ == old(self)@,
            step@ == transition::detect_start(old(self)@, Flow::Verify, image@),
            within_limit(step@),
    {
        self.detect_start(Flow::Verify, image)
    }

    /// Reset MCU to bootloader: the moves to make on the control lines.
    pub fn chip_reset(&mut self) -> (script: Vec<LineStep>)
        ensures
            final(self)@ == old(self)@,
            script@ == reset_script(),
    {
        reset_sequence()
    }
}

} // verus!
