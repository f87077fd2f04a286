//! The write procedure from end to end
//!
//! What the programmer sends, frame by frame, when it writes an image to a
//! chip that answers as it should.

use vstd::prelude::*;

use crate::definitions::definition_of;
use crate::erase::{erase_all_request_of, erase_requests};
use crate::frame::{reply_of, request_frame};
use crate::key::{key_confirmed, key_request_of, key_seed_of, session_key};
use crate::protocol::{ChipInfo, Mode};
use crate::run::{
    all_erased, all_flashed, erase_frames, flash_frames, lemma_erase_sends_every_request,
    lemma_erase_step, lemma_flash_sends_every_chunk, lemma_run_of_nothing, lemma_run_one,
    lemma_run_splits, packet_count, run_of, Run,
};
use crate::sequence::{templates_of, v1_templates, v2_templates, Bootloader};
use crate::step::{Flow, Operation, StageView};
use crate::transition::{
    detect_start, erase_reply_error, erase_start, exchange_of, flash_start, next_operation,
    success, v1_version_of, v2_version_of, Session,
};

verus! {

/// Whether the chip takes every packet of `image` in write mode with the
/// replies `written`, every packet in verify mode with the replies
/// `verified`, and answers the exit request with `left`.
pub open spec fn flashing_succeeds(
    bootloader: Bootloader,
    image: Seq<u8>,
    written: Seq<Seq<u8>>,
    verified: Seq<Seq<u8>>,
    left: Seq<u8>,
) -> bool {
    &&& image.len() >= 32
    &&& bootloader == Bootloader::V1 ==> image.len() % 8 == 0
    &&& written.len() == packet_count(bootloader, image.len() as int)
    &&& all_flashed(bootloader, written)
    &&& verified.len() == packet_count(bootloader, image.len() as int)
    &&& all_flashed(bootloader, verified)
    &&& reply_of(left) is Ok
}

/// The frames of the second half of the write procedure: every chunk of the
/// image in write mode, every chunk again in verify mode, and the exit
/// request.
pub open spec fn flashing_frames(session: Session, image: Seq<u8>) -> Seq<Seq<u8>> {
    flash_frames(session, Mode::Write, image, 0) + flash_frames(session, Mode::Verify, image, 0)
        + seq![request_frame(templates_of(session.info.bootloader).unwrap().bootloader_exit)]
}

/// The replies with which a first-generation chip `chip_id` opens the write
/// procedure: a probe reply of two bytes, the chip's identifier, and its
/// configuration.
pub open spec fn first_generation_opens(chip_id: u8, opening: Seq<Seq<u8>>) -> bool {
    &&& opening.len() == 3
    &&& reply_of(opening[0]) matches Ok(probe) && probe.len() == 2
    &&& reply_of(opening[1]) matches Ok(chip) && chip.len() == 2 && chip[0] == chip_id
    &&& reply_of(opening[2]) matches Ok(config) && config.len() == 2
}

/// The replies with which a second-generation chip `chip_id` opens the write
/// procedure: a probe reply that is not two bytes long, the chip's
/// identifier, its configuration, the confirmation of the key for `nonce`,
/// and the acknowledgement of the erase request.
pub open spec fn second_generation_opens(
    chip_id: u8,
    nonce: Seq<u8>,
    opening: Seq<Seq<u8>>,
) -> bool {
    &&& opening.len() == 5
    &&& reply_of(opening[0]) matches Ok(probe) && probe.len() != 2
    &&& reply_of(opening[1]) matches Ok(chip) && chip.len() == 6 && chip[4] == chip_id
    &&& reply_of(opening[2]) matches Ok(config) && config.len() == 30
    &&& reply_of(opening[3]) matches Ok(confirmation) && key_confirmed(
        confirmation,
        session_key(nonce, key_seed_of(reply_of(opening[2])->Ok_0), chip_id),
    )
    &&& erase_reply_error(Bootloader::V2, opening[4]) is None
}

/// The session that the write procedure leaves behind with a
/// first-generation chip: no key, and the version of its configuration.
pub open spec fn identified_session(chip_id: u8, config: Seq<u8>) -> Session {
    Session {
        info: ChipInfo { bootloader: Bootloader::V1, chip_id },
        key: Session::fresh().key,
        version: Some(v1_version_of(config)),
    }
}

/// The session that the write procedure leaves behind with a
/// second-generation chip: the key for `nonce`, and the version of its
/// configuration.
pub open spec fn keyed_session(chip_id: u8, nonce: Seq<u8>, config: Seq<u8>) -> Session {
    Session {
        info: ChipInfo { bootloader: Bootloader::V2, chip_id },
        key: session_key(nonce, key_seed_of(config), chip_id),
        version: Some(v2_version_of(config)),
    }
}

/// The end of the write procedure: every chunk in verify mode, then the
/// exit request.
proof fn lemma_closing(
    session: Session,
    image: Seq<u8>,
    verified: Seq<Seq<u8>>,
    left: Seq<u8>,
    nonce: Seq<u8>,
)
    requires
        session.info.bootloader != Bootloader::Unknown,
        session.info.bootloader == Bootloader::V1 ==> image.len() % 8 == 0,
        image.len() >= 32,
        verified.len() == packet_count(session.info.bootloader, image.len() as int),
        all_flashed(session.info.bootloader, verified),
        reply_of(left) is Ok,
    ensures
        run_of(
            session,
            flash_start(session, Mode::Verify, Flow::Write, image),
            verified + seq![left],
            nonce,
        ) == (Run {
            sent: flash_frames(session, Mode::Verify, image, 0) + seq![
                request_frame(templates_of(session.info.bootloader).unwrap().bootloader_exit),
            ],
            session,
            step: success(),
        }),
{
    let flow = Flow::Write;
    let exit = templates_of(session.info.bootloader).unwrap().bootloader_exit;
    let verifying = flash_start(session, Mode::Verify, flow, image);
    lemma_run_splits(session, verifying, verified, seq![left], nonce);
    lemma_flash_sends_every_chunk(session, Mode::Verify, flow, image, verified, nonce);
    let leaving = exchange_of(exit, StageView::Exit, flow, image);
    assert(next_operation(session, flow, Operation::Flash(Mode::Verify), image) == leaving);
    assert(seq![left] =~= seq![left] + Seq::<Seq<u8>>::empty());
    lemma_run_one(session, exit, StageView::Exit, flow, image, left, Seq::empty(), nonce);
    lemma_run_of_nothing(session, success(), nonce);
    let last = run_of(session, leaving, seq![left], nonce);
    assert(last.sent =~= seq![request_frame(exit)]);
}

/// The second half of the write procedure, from the first packet in write
/// mode to the exit request.
proof fn lemma_flashing(
    session: Session,
    image: Seq<u8>,
    written: Seq<Seq<u8>>,
    verified: Seq<Seq<u8>>,
    left: Seq<u8>,
    nonce: Seq<u8>,
)
    requires
        session.info.bootloader != Bootloader::Unknown,
        flashing_succeeds(session.info.bootloader, image, written, verified, left),
    ensures
        run_of(
            session,
            flash_start(session, Mode::Write, Flow::Write, image),
            written + (verified + seq![left]),
            nonce,
        ) == (Run { sent: flashing_frames(session, image), session, step: success() }),
{
    let flow = Flow::Write;
    let writing = flash_start(session, Mode::Write, flow, image);
    lemma_run_splits(session, writing, written, verified + seq![left], nonce);
    lemma_flash_sends_every_chunk(session, Mode::Write, flow, image, written, nonce);
    assert(next_operation(session, flow, Operation::Flash(Mode::Write), image) == flash_start(
        session,
        Mode::Verify,
        flow,
        image,
    ));
    lemma_closing(session, image, verified, left, nonce);
    let run = run_of(session, writing, written + (verified + seq![left]), nonce);
    assert(run.sent =~= flashing_frames(session, image));
}

/// The opening of the write procedure with a first-generation chip, up to
/// the first erase request.
proof fn lemma_first_generation_opening(
    chip_id: u8,
    image: Seq<u8>,
    nonce: Seq<u8>,
    opening: Seq<Seq<u8>>,
    rest: Seq<Seq<u8>>,
)
    requires
        chip_id != 0,
        first_generation_opens(chip_id, opening),
    ensures
        ({
            let session = identified_session(chip_id, reply_of(opening[2])->Ok_0);
            let then = run_of(session, erase_start(session, Flow::Write, image), rest, nonce);
            run_of(
                Session::fresh(),
                detect_start(Session::fresh(), Flow::Write, image),
                opening + rest,
                nonce,
            ) == (Run {
                sent: seq![
                    request_frame(v2_templates().chip_detect),
                    request_frame(v1_templates().chip_detect),
                    request_frame(v1_templates().config_read),
                ] + then.sent,
                session: then.session,
                step: then.step,
            })
        }),
{
    let flow = Flow::Write;
    let config = reply_of(opening[2])->Ok_0;
    let s0 = Session::fresh();
    let s1 = s0.with_bootloader(Bootloader::V1);
    let s2 = s1.with_chip(chip_id);
    let s3 = s2.with_version(v1_version_of(config));
    assert(s3 == identified_session(chip_id, config));
    let r2 = seq![opening[2]] + rest;
    let r1 = seq![opening[1]] + r2;
    assert(opening + rest =~= seq![opening[0]] + r1);
    lemma_run_one(
        s0,
        v2_templates().chip_detect,
        StageView::Probe,
        flow,
        image,
        opening[0],
        r1,
        nonce,
    );
    lemma_run_one(
        s1,
        v1_templates().chip_detect,
        StageView::ChipId,
        flow,
        image,
        opening[1],
        r2,
        nonce,
    );
    lemma_run_one(
        s2,
        v1_templates().config_read,
        StageView::Config,
        flow,
        image,
        opening[2],
        rest,
        nonce,
    );
    let then = run_of(s3, erase_start(s3, flow, image), rest, nonce);
    let whole = run_of(s0, detect_start(s0, flow, image), opening + rest, nonce);
    assert(whole.sent =~= seq![
        request_frame(v2_templates().chip_detect),
        request_frame(v1_templates().chip_detect),
        request_frame(v1_templates().config_read),
    ] + then.sent);
}

/// The opening of the write procedure with a second-generation chip, up to
/// the first packet in write mode.
proof fn lemma_second_generation_opening(
    chip_id: u8,
    image: Seq<u8>,
    nonce: Seq<u8>,
    opening: Seq<Seq<u8>>,
    rest: Seq<Seq<u8>>,
)
    requires
        definition_of(chip_id) is Some,
        second_generation_opens(chip_id, nonce, opening),
    ensures
        ({
            let session = keyed_session(chip_id, nonce, reply_of(opening[2])->Ok_0);
            let blocks = definition_of(chip_id).unwrap().erase_blocks;
            let then = run_of(
                session,
                flash_start(session, Mode::Write, Flow::Write, image),
                rest,
                nonce,
            );
            run_of(
                Session::fresh(),
                detect_start(Session::fresh(), Flow::Write, image),
                opening + rest,
                nonce,
            ) == (Run {
                sent: seq![
                    request_frame(v2_templates().chip_detect),
                    request_frame(v2_templates().chip_detect),
                    request_frame(v2_templates().config_read),
                    request_frame(key_request_of(nonce)),
                    request_frame(erase_all_request_of(blocks)),
                ] + then.sent,
                session: then.session,
                step: then.step,
            })
        }),
{
    let flow = Flow::Write;
    let config = reply_of(opening[2])->Ok_0;
    let key = session_key(nonce, key_seed_of(config), chip_id);
    let blocks = definition_of(chip_id).unwrap().erase_blocks;
    let templates = v2_templates();
    let s0 = Session::fresh();
    let s1 = s0.with_bootloader(Bootloader::V2);
    let s2 = s1.with_chip(chip_id);
    let s3 = s2.with_version(v2_version_of(config));
    let s4 = s3.with_key(key);
    assert(s4 == keyed_session(chip_id, nonce, config));
    let r4 = seq![opening[4]] + rest;
    let r3 = seq![opening[3]] + r4;
    let r2 = seq![opening[2]] + r3;
    let r1 = seq![opening[1]] + r2;
    assert(opening + rest =~= seq![opening[0]] + r1);
    lemma_run_one(s0, templates.chip_detect, StageView::Probe, flow, image, opening[0], r1, nonce);
    lemma_run_one(s1, templates.chip_detect, StageView::ChipId, flow, image, opening[1], r2, nonce);
    lemma_run_one(s2, templates.config_read, StageView::Config, flow, image, opening[2], r3, nonce);
    lemma_run_one(
        s3,
        key_request_of(nonce),
        StageView::KeyAck { key },
        flow,
        image,
        opening[3],
        r4,
        nonce,
    );
    assert(erase_requests(Bootloader::V2, blocks)[0] == erase_all_request_of(blocks));
    lemma_erase_step(s4, flow, image, 0, blocks, opening[4], nonce);
    lemma_run_one(
        s4,
        erase_all_request_of(blocks),
        StageView::Erase { index: 0, blocks },
        flow,
        image,
        opening[4],
        rest,
        nonce,
    );
    let then = run_of(s4, flash_start(s4, Mode::Write, flow, image), rest, nonce);
    let whole = run_of(s0, detect_start(s0, flow, image), opening + rest, nonce);
    assert(whole.sent =~= seq![
        request_frame(templates.chip_detect),
        request_frame(templates.chip_detect),
        request_frame(templates.config_read),
        request_frame(key_request_of(nonce)),
        request_frame(erase_all_request_of(blocks)),
    ] + then.sent);
}

/// The write procedure from a fresh session, with a first-generation chip
/// that has a profile and answers as it should, sends the probe,
/// chip-detect, the configuration read, the flash-erase template and one
/// request for each erase block of the profile, every chunk of the image in
/// write mode, every chunk again in verify mode, and the exit request:
/// these frames, in this order, and no other. It ends well, with the chip
/// identified. This is stated for images whose length is a multiple of
/// eight; with any other the first generation never gets past writing.
pub proof fn lemma_write_procedure_first_generation(
    chip_id: u8,
    image: Seq<u8>,
    nonce: Seq<u8>,
    opening: Seq<Seq<u8>>,
    erased: Seq<Seq<u8>>,
    written: Seq<Seq<u8>>,
    verified: Seq<Seq<u8>>,
    left: Seq<u8>,
)
    requires
        definition_of(chip_id) is Some,
        first_generation_opens(chip_id, opening),
        erased.len() == 1 + definition_of(chip_id).unwrap().erase_blocks,
        all_erased(Bootloader::V1, erased),
        flashing_succeeds(Bootloader::V1, image, written, verified, left),
    ensures
        ({
            let session = identified_session(chip_id, reply_of(opening[2])->Ok_0);
            let blocks = definition_of(chip_id).unwrap().erase_blocks;
            let run = run_of(
                Session::fresh(),
                detect_start(Session::fresh(), Flow::Write, image),
                opening + erased + written + verified + seq![left],
                nonce,
            );
            &&& run.step == success()
            &&& run.session == session
            &&& run.sent == seq![
                request_frame(v2_templates().chip_detect),
                request_frame(v1_templates().chip_detect),
                request_frame(v1_templates().config_read),
            ] + erase_frames(Bootloader::V1, blocks, 0) + flashing_frames(session, image)
            &&& erase_frames(Bootloader::V1, blocks, 0).len() == 1 + blocks
        }),
{
    let flow = Flow::Write;
    let session = identified_session(chip_id, reply_of(opening[2])->Ok_0);
    let blocks = definition_of(chip_id).unwrap().erase_blocks;
    let flashing = written + (verified + seq![left]);
    let rest = erased + flashing;
    assert(opening + erased + written + verified + seq![left] =~= opening + rest);
    lemma_first_generation_opening(chip_id, image, nonce, opening, rest);
    lemma_run_splits(session, erase_start(session, flow, image), erased, flashing, nonce);
    lemma_erase_sends_every_request(session, flow, image, erased, nonce);
    assert(next_operation(session, flow, Operation::Erase, image) == flash_start(
        session,
        Mode::Write,
        flow,
        image,
    ));
    lemma_flashing(session, image, written, verified, left, nonce);
    let run = run_of(
        Session::fresh(),
        detect_start(Session::fresh(), flow, image),
        opening + rest,
        nonce,
    );
    assert(run.sent =~= seq![
        request_frame(v2_templates().chip_detect),
        request_frame(v1_templates().chip_detect),
        request_frame(v1_templates().config_read),
    ] + erase_frames(Bootloader::V1, blocks, 0) + flashing_frames(session, image));
}

/// The write procedure from a fresh session, with a second-generation chip
/// that has a profile and answers as it should, sends the probe,
/// chip-detect, the configuration read, the key exchange, one erase
/// request, every chunk of the image in write mode, every chunk again in
/// verify mode, and the exit request: these frames, in this order, and no
/// other. It ends well, with the chip identified and the key stored.
pub proof fn lemma_write_procedure_second_generation(
    chip_id: u8,
    image: Seq<u8>,
    nonce: Seq<u8>,
    opening: Seq<Seq<u8>>,
    written: Seq<Seq<u8>>,
    verified: Seq<Seq<u8>>,
    left: Seq<u8>,
)
    requires
        definition_of(chip_id) is Some,
        second_generation_opens(chip_id, nonce, opening),
        flashing_succeeds(Bootloader::V2, image, written, verified, left),
    ensures
        ({
            let session = keyed_session(chip_id, nonce, reply_of(opening[2])->Ok_0);
            let blocks = definition_of(chip_id).unwrap().erase_blocks;
            let run = run_of(
                Session::fresh(),
                detect_start(Session::fresh(), Flow::Write, image),
                opening + written + verified + seq![left],
                nonce,
            );
            &&& run.step == success()
            &&& run.session == session
            &&& run.sent == seq![
                request_frame(v2_templates().chip_detect),
                request_frame(v2_templates().chip_detect),
                request_frame(v2_templates().config_read),
                request_frame(key_request_of(nonce)),
                request_frame(erase_all_request_of(blocks)),
            ] + flashing_frames(session, image)
        }),
{
    let session = keyed_session(chip_id, nonce, reply_of(opening[2])->Ok_0);
    let blocks = definition_of(chip_id).unwrap().erase_blocks;
    let rest = written + (verified + seq![left]);
    assert(opening + written + verified + seq![left] =~= opening + rest);
    lemma_second_generation_opening(chip_id, image, nonce, opening, rest);
    lemma_flashing(session, image, written, verified, left, nonce);
}

} // verus!
