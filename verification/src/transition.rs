//! The rules of the protocol
//!
//! Which request opens an operation, what each reply means for the session,
//! and which request follows: stated here as mathematics, over the session
//! and what is pending. The engine is proved to follow these rules step by
//! step.

use vstd::prelude::*;

use crate::definitions::definition_of;
use crate::erase::erase_requests;
use crate::flash::{
    flash_accepted, mode_opcode, v1_next_of, v1_packet_of, v2_next_of, v2_packet_of,
};
use crate::frame::{acknowledged_at, reply_of, request_frame, PACKET_MAXLEN};
use crate::key::{key_confirmed, key_request_of, key_seed_of, session_key};
use crate::protocol::{ChipInfo, Mode, ProtocolError, Version};
use crate::sequence::{templates_of, v2_templates, Bootloader};
use crate::step::{Flow, Operation, PendingView, StageView, StepView};

verus! {

/// What the engine knows of the chip at the other end of the line.
pub struct Session {
    /// Bootloader generation and chip identifier; an identifier of zero
    /// stands for a chip not yet identified.
    pub info: ChipInfo,
    /// The session key, eight bytes; all zero until a key exchange succeeds.
    pub key: Seq<u8>,
    /// The bootloader version, once the chip has reported it.
    pub version: Option<Version>,
}

impl Session {
    /// The session before anything is known.
    pub open spec fn fresh() -> Session {
        Session {
            info: ChipInfo { bootloader: Bootloader::Unknown, chip_id: 0 },
            key: Seq::new(8, |index: int| 0u8),
            version: None,
        }
    }

    pub open spec fn with_bootloader(self, bootloader: Bootloader) -> Session {
        Session {
            info: ChipInfo { bootloader, chip_id: self.info.chip_id },
            key: self.key,
            version: self.version,
        }
    }

    pub open spec fn with_chip(self, chip_id: u8) -> Session {
        Session {
            info: ChipInfo { bootloader: self.info.bootloader, chip_id },
            key: self.key,
            version: self.version,
        }
    }

    pub open spec fn with_version(self, version: Version) -> Session {
        Session { info: self.info, key: self.key, version: Some(version) }
    }

    pub open spec fn with_key(self, key: Seq<u8>) -> Session {
        Session { info: self.info, key, version: self.version }
    }
}

/// The step that sends `payload` and then awaits the reply in `stage`.
pub open spec fn exchange_of(
    payload: Seq<u8>,
    stage: StageView,
    flow: Flow,
    image: Seq<u8>,
) -> StepView {
    StepView::Exchange {
        frame: request_frame(payload),
        pending: PendingView { stage, flow, image },
    }
}

/// The step that ends an operation with `error`.
pub open spec fn failure(error: ProtocolError) -> StepView {
    StepView::Done(Err(error))
}

/// The step that ends an operation well.
pub open spec fn success() -> StepView {
    StepView::Done(Ok(()))
}

/// Whether the frame of a step, if it has one, respects the frame limit.
pub open spec fn within_limit(step: StepView) -> bool {
    step matches StepView::Exchange { frame, .. } ==> frame.len() <= PACKET_MAXLEN
}

/// What the reply to the probe says of the bootloader: a payload of exactly
/// two bytes is the first generation, any other valid reply the second, and
/// a failed exchange tells nothing.
pub open spec fn probe_verdict(raw: Seq<u8>) -> Bootloader {
    match reply_of(raw) {
        Ok(payload) => if payload.len() == 2 {
            Bootloader::V1
        } else {
            Bootloader::V2
        },
        Err(_) => Bootloader::Unknown,
    }
}

/// The version in a configuration reply of the first generation.
pub open spec fn v1_version_of(config: Seq<u8>) -> Version {
    Version { major: config[0] >> 4, minor: config[1] & 0x0F, patch: None }
}

/// The version in a configuration reply of the second generation.
pub open spec fn v2_version_of(config: Seq<u8>) -> Version {
    Version { major: config[19], minor: config[20], patch: Some(config[21]) }
}

/// The flash packet of `mode` for the chunk at `addr`, in the layout of the
/// session's bootloader and, for the second generation, masked with the
/// session key.
pub open spec fn flash_packet_of(
    session: Session,
    mode: Mode,
    image: Seq<u8>,
    addr: int,
) -> Seq<u8> {
    match mode_opcode(session.info.bootloader, mode) {
        None => Seq::empty(),
        Some(opcode) => if session.info.bootloader == Bootloader::V2 {
            v2_packet_of(opcode, session.key, image, addr)
        } else {
            v1_packet_of(opcode, image, addr)
        },
    }
}

/// The address of the flash packet after the one at `addr`, if one follows.
pub open spec fn flash_next_of(bootloader: Bootloader, len: int, addr: int) -> Option<int> {
    match bootloader {
        Bootloader::Unknown => None,
        Bootloader::V1 => v1_next_of(len, addr),
        Bootloader::V2 => v2_next_of(len, addr),
    }
}

/// Detecting the bootloader: nothing to do once it is known, else the probe.
/// The probe is the chip-detect request of the second generation, which
/// both generations answer.
pub open spec fn detect_start(session: Session, flow: Flow, image: Seq<u8>) -> StepView {
    if session.info.bootloader != Bootloader::Unknown {
        next_operation(session, flow, Operation::Detect, image)
    } else {
        exchange_of(v2_templates().chip_detect, StageView::Probe, flow, image)
    }
}

/// Identifying the chip opens with the chip-detect request of the known
/// bootloader.
pub open spec fn identify_start(session: Session, flow: Flow, image: Seq<u8>) -> StepView {
    match templates_of(session.info.bootloader) {
        None => failure(ProtocolError::BootloaderUnknown),
        Some(templates) => exchange_of(templates.chip_detect, StageView::ChipId, flow, image),
    }
}

/// Erasing opens with the first erase request for the chip's profile. An
/// unknown bootloader or a chip without a profile ends it before anything is
/// sent.
pub open spec fn erase_start(session: Session, flow: Flow, image: Seq<u8>) -> StepView {
    if session.info.bootloader == Bootloader::Unknown {
        failure(ProtocolError::BootloaderUnknown)
    } else {
        match definition_of(session.info.chip_id) {
            None => failure(ProtocolError::ChipUnknown),
            Some(definition) => exchange_of(
                erase_requests(session.info.bootloader, definition.erase_blocks)[0],
                StageView::Erase { index: 0, blocks: definition.erase_blocks },
                flow,
                image,
            ),
        }
    }
}

/// Flashing opens with the packet for address zero. An unknown bootloader or
/// an image of less than 32 bytes ends it before anything is sent.
pub open spec fn flash_start(
    session: Session,
    mode: Mode,
    flow: Flow,
    image: Seq<u8>,
) -> StepView {
    if session.info.bootloader == Bootloader::Unknown {
        failure(ProtocolError::BootloaderUnknown)
    } else if image.len() < 32 {
        failure(ProtocolError::FileFormatError)
    } else {
        exchange_of(
            flash_packet_of(session, mode, image, 0),
            StageView::Flash { mode, addr: 0 },
            flow,
            image,
        )
    }
}

/// Leaving the bootloader is the bootloader-exit request of the known
/// bootloader.
pub open spec fn exit_start(session: Session, flow: Flow, image: Seq<u8>) -> StepView {
    match templates_of(session.info.bootloader) {
        None => failure(ProtocolError::BootloaderUnknown),
        Some(templates) => exchange_of(templates.bootloader_exit, StageView::Exit, flow, image),
    }
}

/// What follows when the part `done` of `flow` has succeeded.
///
/// Writing goes from detection to identification (only for a chip not yet
/// identified), erasing, flashing in write mode, flashing in verify mode and
/// leaving the bootloader; it stops at once if detection has left the
/// bootloader unknown. Verifying goes from detection to identification and
/// flashing in verify mode.
pub open spec fn next_operation(
    session: Session,
    flow: Flow,
    done: Operation,
    image: Seq<u8>,
) -> StepView {
    match flow {
        Flow::Single => success(),
        Flow::Detect => match done {
            Operation::Detect => identify_start(session, flow, image),
            _ => success(),
        },
        Flow::Write => match done {
            Operation::Detect => if session.info.bootloader == Bootloader::Unknown {
                failure(ProtocolError::BootloaderUnknown)
            } else if session.info.chip_id == 0 {
                identify_start(session, flow, image)
            } else {
                erase_start(session, flow, image)
            },
            Operation::Identify => erase_start(session, flow, image),
            Operation::Erase => flash_start(session, Mode::Write, flow, image),
            Operation::Flash(Mode::Write) => flash_start(session, Mode::Verify, flow, image),
            Operation::Flash(Mode::Verify) => exit_start(session, flow, image),
            Operation::Exit => success(),
        },
        Flow::Verify => match done {
            Operation::Detect => identify_start(session, flow, image),
            Operation::Identify => flash_start(session, Mode::Verify, flow, image),
            _ => success(),
        },
    }
}

/// The reply to the probe settles the bootloader of a session that did not
/// know it; a failed probe is no error, the bootloader just stays unknown.
pub open spec fn after_probe(
    session: Session,
    flow: Flow,
    image: Seq<u8>,
    raw: Seq<u8>,
) -> (Session, StepView) {
    let found = if session.info.bootloader == Bootloader::Unknown {
        probe_verdict(raw)
    } else {
        session.info.bootloader
    };
    let session = session.with_bootloader(found);
    (session, next_operation(session, flow, Operation::Detect, image))
}

/// Length of the reply to chip-detect and the place of the chip identifier
/// in it: six bytes and place 4 for the second generation, two bytes and
/// place 0 for the first.
pub open spec fn chip_reply_shape(bootloader: Bootloader) -> (nat, int) {
    if bootloader == Bootloader::V2 {
        (6, 4)
    } else {
        (2, 0)
    }
}

/// The reply to chip-detect names the chip, provided it has the length that
/// the bootloader's generation calls for. The configuration read follows.
pub open spec fn after_chip_id(
    session: Session,
    flow: Flow,
    image: Seq<u8>,
    raw: Seq<u8>,
) -> (Session, StepView) {
    let (length, place) = chip_reply_shape(session.info.bootloader);
    match reply_of(raw) {
        Err(error) => (session, failure(error)),
        Ok(payload) => match templates_of(session.info.bootloader) {
            None => (session, failure(ProtocolError::BootloaderUnknown)),
            Some(templates) => if payload.len() != length {
                (session, failure(ProtocolError::ChipUnknown))
            } else {
                (
                    session.with_chip(payload[place]),
                    exchange_of(templates.config_read, StageView::Config, flow, image),
                )
            },
        },
    }
}

/// The reply to the configuration read carries the bootloader version. For
/// the first generation that ends identification. For the second the key
/// exchange follows: the request carries the challenge `nonce`, and the key
/// derived from it is pending until the chip confirms it.
pub open spec fn after_config(
    session: Session,
    flow: Flow,
    image: Seq<u8>,
    raw: Seq<u8>,
    nonce: Seq<u8>,
) -> (Session, StepView) {
    match reply_of(raw) {
        Err(error) => (session, failure(error)),
        Ok(payload) => match session.info.bootloader {
            Bootloader::Unknown => (session, failure(ProtocolError::BootloaderUnknown)),
            Bootloader::V1 => if payload.len() != 2 {
                (session, failure(ProtocolError::BootloaderUnknown))
            } else {
                let session = session.with_version(v1_version_of(payload));
                (session, next_operation(session, flow, Operation::Identify, image))
            },
            Bootloader::V2 => if payload.len() != 30 {
                (session, failure(ProtocolError::BootloaderUnknown))
            } else {
                (
                    session.with_version(v2_version_of(payload)),
                    exchange_of(
                        key_request_of(nonce),
                        StageView::KeyAck {
                            key: session_key(nonce, key_seed_of(payload), session.info.chip_id),
                        },
                        flow,
                        image,
                    ),
                )
            },
        },
    }
}

/// The reply to the key exchange confirms the key or not. A confirmed key
/// becomes the session key; an unconfirmed one is dropped and the bootloader
/// counts as unknown to this programmer.
pub open spec fn after_key(
    session: Session,
    flow: Flow,
    image: Seq<u8>,
    key: Seq<u8>,
    raw: Seq<u8>,
) -> (Session, StepView) {
    match reply_of(raw) {
        Err(error) => (session, failure(error)),
        Ok(payload) => if key_confirmed(payload, key) {
            let session = session.with_key(key);
            (session, next_operation(session, flow, Operation::Identify, image))
        } else {
            (session, failure(ProtocolError::BootloaderUnknown))
        },
    }
}

/// Whether the chip acknowledged an erase request, or else the error. An
/// exchange that failed is reported with its own error, whichever request
/// it was. The first generation acknowledges with a zero at place 0, the
/// second with a zero at place 4; a valid reply without that zero means the
/// chip is unknown.
pub open spec fn erase_reply_error(bootloader: Bootloader, raw: Seq<u8>) -> Option<
    ProtocolError,
> {
    match reply_of(raw) {
        Err(error) => Some(error),
        Ok(payload) => match bootloader {
            Bootloader::Unknown => Some(ProtocolError::BootloaderUnknown),
            Bootloader::V1 => if acknowledged_at(payload, 0) {
                None
            } else {
                Some(ProtocolError::ChipUnknown)
            },
            Bootloader::V2 => if acknowledged_at(payload, 4) {
                None
            } else {
                Some(ProtocolError::ChipUnknown)
            },
        },
    }
}

/// After an acknowledged erase request comes the next of the erase requests,
/// and after the last of them whatever follows erasing.
pub open spec fn after_erase(
    session: Session,
    flow: Flow,
    image: Seq<u8>,
    index: int,
    blocks: u8,
    raw: Seq<u8>,
) -> (Session, StepView) {
    let requests = erase_requests(session.info.bootloader, blocks);
    match erase_reply_error(session.info.bootloader, raw) {
        Some(error) => (session, failure(error)),
        None => if index + 1 < requests.len() {
            (
                session,
                exchange_of(
                    requests[index + 1],
                    StageView::Erase { index: index + 1, blocks },
                    flow,
                    image,
                ),
            )
        } else {
            (session, next_operation(session, flow, Operation::Erase, image))
        },
    }
}

/// Whether the chip took the flash packet, or else the error. The first
/// generation acknowledges with a zero at place 0, the second with a zero or
/// `0xFE` at place 4; anything else is a serial error.
pub open spec fn flash_reply_error(bootloader: Bootloader, raw: Seq<u8>) -> Option<
    ProtocolError,
> {
    match reply_of(raw) {
        Err(error) => Some(error),
        Ok(payload) => match bootloader {
            Bootloader::Unknown => Some(ProtocolError::BootloaderUnknown),
            Bootloader::V1 => if acknowledged_at(payload, 0) {
                None
            } else {
                Some(ProtocolError::SerialError)
            },
            Bootloader::V2 => if flash_accepted(payload) {
                None
            } else {
                Some(ProtocolError::SerialError)
            },
        },
    }
}

/// After an accepted flash packet comes the packet for the next address, and
/// after the last packet whatever follows flashing in this mode.
pub open spec fn after_flash(
    session: Session,
    flow: Flow,
    image: Seq<u8>,
    mode: Mode,
    addr: int,
    raw: Seq<u8>,
) -> (Session, StepView) {
    match flash_reply_error(session.info.bootloader, raw) {
        Some(error) => (session, failure(error)),
        None => match flash_next_of(session.info.bootloader, image.len() as int, addr) {
            Some(next) => (
                session,
                exchange_of(
                    flash_packet_of(session, mode, image, next),
                    StageView::Flash { mode, addr: next },
                    flow,
                    image,
                ),
            ),
            None => (session, next_operation(session, flow, Operation::Flash(mode), image)),
        },
    }
}

/// Any valid reply to the exit request ends the stay in the bootloader.
pub open spec fn after_exit(
    session: Session,
    flow: Flow,
    image: Seq<u8>,
    raw: Seq<u8>,
) -> (Session, StepView) {
    match reply_of(raw) {
        Err(error) => (session, failure(error)),
        Ok(_) => (session, next_operation(session, flow, Operation::Exit, image)),
    }
}

/// The session and the step after the bytes `raw` came in reply to what was
/// pending. `nonce` is the challenge used if a key exchange is due.
pub open spec fn after_reply(
    session: Session,
    pending: PendingView,
    raw: Seq<u8>,
    nonce: Seq<u8>,
) -> (Session, StepView) {
    match pending.stage {
        StageView::Probe => after_probe(session, pending.flow, pending.image, raw),
        StageView::ChipId => after_chip_id(session, pending.flow, pending.image, raw),
        StageView::Config => after_config(session, pending.flow, pending.image, raw, nonce),
        StageView::KeyAck { key } => after_key(session, pending.flow, pending.image, key, raw),
        StageView::Erase { index, blocks } => after_erase(
            session,
            pending.flow,
            pending.image,
            index,
            blocks,
            raw,
        ),
        StageView::Flash { mode, addr } => after_flash(
            session,
            pending.flow,
            pending.image,
            mode,
            addr,
            raw,
        ),
        StageView::Exit => after_exit(session, pending.flow, pending.image, raw),
    }
}

/// A probe settles the bootloader of a session that did not know it: a reply
/// with a payload of exactly two bytes means the first generation, any other
/// valid reply the second, and after a failed exchange the bootloader is
/// still unknown. Detection on its own ends well whatever came back, a
/// failed probe included.
pub proof fn lemma_probe_settles_bootloader(
    session: Session,
    pending: PendingView,
    raw: Seq<u8>,
    nonce: Seq<u8>,
)
    requires
        session.info.bootloader == Bootloader::Unknown,
        pending.stage is Probe,
    ensures
        ({
            let found = after_reply(session, pending, raw, nonce).0.info.bootloader;
            match reply_of(raw) {
                Ok(payload) => if payload.len() == 2 {
                    found == Bootloader::V1
                } else {
                    found == Bootloader::V2
                },
                Err(_) => found == Bootloader::Unknown,
            }
        }),
        pending.flow == Flow::Single ==> after_reply(session, pending, raw, nonce).1 == success(),
{
}

/// Detection is one-way: no reply changes a bootloader that is known, and no
/// reply changes the chip identifier except the reply to chip-detect.
pub proof fn lemma_detection_is_one_way(
    session: Session,
    pending: PendingView,
    raw: Seq<u8>,
    nonce: Seq<u8>,
)
    ensures
        session.info.bootloader != Bootloader::Unknown ==> after_reply(
            session,
            pending,
            raw,
            nonce,
        ).0.info.bootloader == session.info.bootloader,
        !(pending.stage is Probe) ==> after_reply(session, pending, raw, nonce).0.info.bootloader
            == session.info.bootloader,
        !(pending.stage is ChipId) ==> after_reply(session, pending, raw, nonce).0.info.chip_id
            == session.info.chip_id,
        !(pending.stage is KeyAck) ==> after_reply(session, pending, raw, nonce).0.key
            == session.key,
{
}

/// Whether the next reply may call for a key exchange: a second-generation
/// chip is about to answer the configuration read.
pub open spec fn key_exchange_is_due(session: Session, pending: PendingView) -> bool {
    pending.stage is Config && session.info.bootloader == Bootloader::V2
}

/// The challenge matters for the key exchange only: where none is due, the
/// session and the step after a reply are the same for every challenge.
pub proof fn lemma_nonce_matters_for_key_exchange_only(
    session: Session,
    pending: PendingView,
    raw: Seq<u8>,
    nonce: Seq<u8>,
    other: Seq<u8>,
)
    requires
        !key_exchange_is_due(session, pending),
    ensures
        after_reply(session, pending, raw, nonce) == after_reply(session, pending, raw, other),
{
}

/// Detection is the one operation that takes a failed exchange in its
/// stride. Everywhere else the first error met ends the operation, as it
/// is: when a reply cannot be decoded, be it missing, with a wrong preamble
/// or with a wrong checksum, the operation ends with that very error and the
/// session stays as it was.
pub proof fn lemma_exchange_errors_are_reported(
    session: Session,
    pending: PendingView,
    raw: Seq<u8>,
    nonce: Seq<u8>,
)
    requires
        !(pending.stage is Probe),
        reply_of(raw) is Err,
    ensures
        after_reply(session, pending, raw, nonce) == (session, failure(reply_of(raw)->Err_0)),
        reply_of(raw)->Err_0 == ProtocolError::SerialTimeout || reply_of(raw)->Err_0
            == ProtocolError::PreambleMismatch || reply_of(raw)->Err_0
            == ProtocolError::ChecksumMismatch,
{
}

} // verus!
