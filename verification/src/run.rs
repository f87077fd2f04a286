//! Whole operations
//!
//! The rules say what follows one reply. Here they are followed through a
//! whole series of replies, to state what an operation sends from its first
//! frame to its last.

use vstd::prelude::*;

use crate::definitions::definition_of;
use crate::erase::erase_requests;
use crate::flash::{chunk_size, lemma_v1_chunks, lemma_v2_chunks};
use crate::frame::request_frame;
use crate::protocol::{Mode, Protocol};
use crate::sequence::Bootloader;
use crate::step::{Flow, Operation, PendingView, StageView, Step, StepView};
use crate::transition::{
    after_reply, erase_reply_error, erase_start, exchange_of, flash_next_of, flash_packet_of,
    flash_reply_error, flash_start, next_operation, Session,
};

verus! {

/// Where an operation stands after a series of replies.
pub struct Run {
    /// The frames that were sent and answered, in order.
    pub sent: Seq<Seq<u8>>,
    /// The session after the last reply.
    pub session: Session,
    /// The step that the last reply led to.
    pub step: StepView,
}

/// Plays `replies`, one for each frame, from `step` on. Replies that come
/// after the operation is over are ignored.
pub open spec fn run_of(
    session: Session,
    step: StepView,
    replies: Seq<Seq<u8>>,
    nonce: Seq<u8>,
) -> Run
    decreases replies.len(),
{
    if replies.len() == 0 {
        Run { sent: Seq::empty(), session, step }
    } else {
        match step {
            StepView::Done(_) => Run { sent: Seq::empty(), session, step },
            StepView::Exchange { frame, pending } => {
                let after = after_reply(session, pending, replies[0], nonce);
                let rest = run_of(after.0, after.1, replies.drop_first(), nonce);
                Run { sent: seq![frame] + rest.sent, session: rest.session, step: rest.step }
            },
        }
    }
}

/// The byte sequences that `items` hold, in order.
pub open spec fn views_of(items: Seq<Vec<u8>>) -> Seq<Seq<u8>> {
    Seq::new(items.len(), |index: int| items[index]@)
}

/// One reply played to a pending exchange, then the rest.
pub proof fn lemma_run_unfolds(
    session: Session,
    frame: Seq<u8>,
    pending: PendingView,
    replies: Seq<Seq<u8>>,
    nonce: Seq<u8>,
)
    requires
        replies.len() > 0,
    ensures
        ({
            let after = after_reply(session, pending, replies[0], nonce);
            let rest = run_of(after.0, after.1, replies.drop_first(), nonce);
            run_of(session, StepView::Exchange { frame, pending }, replies, nonce) == (Run {
                sent: seq![frame] + rest.sent,
                session: rest.session,
                step: rest.step,
            })
        }),
{
}

/// With no reply played, nothing has moved.
pub proof fn lemma_run_of_nothing(session: Session, step: StepView, nonce: Seq<u8>)
    ensures
        run_of(session, step, Seq::empty(), nonce) == (Run { sent: Seq::empty(), session, step }),
{
}

impl Protocol {
    /// Plays scripted replies to an operation, as a chip at the other end of
    /// the line would give them: the frame of each step is taken as sent and
    /// answered with the next reply, until the replies are used up or the
    /// operation is over. Hands out the frames that were sent and the step
    /// that the last reply led to. `nonce` is the challenge for the key
    /// exchange, should one come up.
    pub fn replay(&mut self, first: Step, replies: &[Vec<u8>], nonce: &[u8; 48]) -> (outcome: (
        Vec<Vec<u8>>,
        Step,
    ))
        ensures
            run_of(old(self)@, first@, views_of(replies@), nonce@) == (Run {
                sent: views_of(outcome.0@),
                session: final(self)@,
                step: outcome.1@,
            }),
    {
        let ghost initial = self@;
        let ghost opening = first@;
        let ghost all = views_of(replies@);
        let mut sent: Vec<Vec<u8>> = Vec::new();
        let mut step = first;
        let mut index: usize = 0;
        proof {
            assert(all.skip(0) =~= all);
            assert(views_of(sent@) + run_of(initial, opening, all, nonce@).sent =~= run_of(
                initial,
                opening,
                all,
                nonce@,
            ).sent);
        }
        while index < replies.len()
            invariant
                index <= replies.len(),
                initial == old(self)@,
                opening == first@,
                all == views_of(replies@),
                ({
                    let rest = run_of(self@, step@, all.skip(index as int), nonce@);
                    run_of(initial, opening, all, nonce@) == (Run {
                        sent: views_of(sent@) + rest.sent,
                        session: rest.session,
                        step: rest.step,
                    })
                }),
            decreases replies.len() - index,
        {
            let ghost before = views_of(sent@);
            let ghost ahead = all.skip(index as int);
            let ghost current = step@;
            match step {
                Step::Done(result) => {
                    proof {
                        assert(current == StepView::Done(result));
                        assert(run_of(self@, current, ahead, nonce@).sent
                            =~= Seq::<Seq<u8>>::empty());
                        assert(before + Seq::<Seq<u8>>::empty() =~= before);
                    }
                    return (sent, Step::Done(result));
                },
                Step::Exchange { frame, pending } => {
                    proof {
                        lemma_run_unfolds(self@, frame@, pending@, ahead, nonce@);
                        assert(ahead[0] == replies@[index as int]@);
                        assert(ahead.drop_first() =~= all.skip(index + 1));
                    }
                    let ghost answered = frame@;
                    sent.push(frame);
                    step = self.advance_with_nonce(pending, replies[index].as_slice(), nonce);
                    index += 1;
                    proof {
                        assert(views_of(sent@) =~= before + seq![answered]);
                        let rest = run_of(self@, step@, all.skip(index as int), nonce@);
                        assert(views_of(sent@) + rest.sent =~= before + (seq![answered]
                            + rest.sent));
                    }
                },
            }
        }
        proof {
            assert(all.skip(index as int) =~= Seq::<Seq<u8>>::empty());
            lemma_run_of_nothing(self@, step@, nonce@);
            assert(views_of(sent@) + Seq::<Seq<u8>>::empty() =~= views_of(sent@));
        }
        (sent, step)
    }
}

/// Whether the chip acknowledges every erase request with these replies.
pub open spec fn all_erased(bootloader: Bootloader, replies: Seq<Seq<u8>>) -> bool {
    forall|index: int|
        0 <= index < replies.len() ==> #[trigger] erase_reply_error(bootloader, replies[index])
            is None
}

/// Whether the chip takes every flash packet with these replies.
pub open spec fn all_flashed(bootloader: Bootloader, replies: Seq<Seq<u8>>) -> bool {
    forall|index: int|
        0 <= index < replies.len() ==> #[trigger] flash_reply_error(bootloader, replies[index])
            is None
}

/// Number of flash packets that cover an image of `len` bytes: one for each
/// chunk of 56 bytes (second generation) or 60 bytes (first generation), the
/// last chunk being what is left.
pub open spec fn packet_count(bootloader: Bootloader, len: int) -> int {
    if bootloader == Bootloader::V2 {
        (len + 55) / 56
    } else {
        (len + 59) / 60
    }
}

/// The address of flash packet `index`, counted from zero.
pub open spec fn packet_address(bootloader: Bootloader, index: int) -> int {
    if bootloader == Bootloader::V2 {
        56 * index
    } else {
        60 * index
    }
}

/// The frames of the flash packets `from`, `from + 1`, ... of an image, up to
/// its last.
pub open spec fn flash_frames(
    session: Session,
    mode: Mode,
    image: Seq<u8>,
    from: int,
) -> Seq<Seq<u8>> {
    Seq::new(
        (packet_count(session.info.bootloader, image.len() as int) - from) as nat,
        |index: int|
            request_frame(
                flash_packet_of(
                    session,
                    mode,
                    image,
                    packet_address(session.info.bootloader, from + index),
                ),
            ),
    )
}

/// The frames of the erase requests `from`, `from + 1`, ... up to the last.
pub open spec fn erase_frames(bootloader: Bootloader, blocks: u8, from: int) -> Seq<Seq<u8>> {
    Seq::new(
        (erase_requests(bootloader, blocks).len() - from) as nat,
        |index: int| request_frame(erase_requests(bootloader, blocks)[from + index]),
    )
}

/// What follows an acknowledged erase request.
pub proof fn lemma_erase_step(
    session: Session,
    flow: Flow,
    image: Seq<u8>,
    index: int,
    blocks: u8,
    raw: Seq<u8>,
    nonce: Seq<u8>,
)
    requires
        erase_reply_error(session.info.bootloader, raw) is None,
    ensures
        after_reply(
            session,
            PendingView { stage: StageView::Erase { index, blocks }, flow, image },
            raw,
            nonce,
        ) == (
            session,
            if index + 1 < erase_requests(session.info.bootloader, blocks).len() {
                exchange_of(
                    erase_requests(session.info.bootloader, blocks)[index + 1],
                    StageView::Erase { index: index + 1, blocks },
                    flow,
                    image,
                )
            } else {
                next_operation(session, flow, Operation::Erase, image)
            },
        ),
{
}

/// What follows an accepted flash packet.
proof fn lemma_flash_step(
    session: Session,
    flow: Flow,
    image: Seq<u8>,
    mode: Mode,
    addr: int,
    raw: Seq<u8>,
    nonce: Seq<u8>,
)
    requires
        flash_reply_error(session.info.bootloader, raw) is None,
    ensures
        after_reply(
            session,
            PendingView { stage: StageView::Flash { mode, addr }, flow, image },
            raw,
            nonce,
        ) == (
            session,
            match flash_next_of(session.info.bootloader, image.len() as int, addr) {
                Some(next) => exchange_of(
                    flash_packet_of(session, mode, image, next),
                    StageView::Flash { mode, addr: next },
                    flow,
                    image,
                ),
                None => next_operation(session, flow, Operation::Flash(mode), image),
            },
        ),
{
}

/// Where the flash packet after packet `index` starts, if one follows.
proof fn lemma_next_packet(bootloader: Bootloader, len: int, index: int)
    requires
        bootloader != Bootloader::Unknown,
        bootloader == Bootloader::V1 ==> len % 8 == 0,
        0 <= index < packet_count(bootloader, len),
    ensures
        0 <= packet_address(bootloader, index) < len,
        flash_next_of(bootloader, len, packet_address(bootloader, index)) == (if index + 1
            < packet_count(bootloader, len) {
            Some(packet_address(bootloader, index + 1))
        } else {
            None
        }),
{
    let addr = packet_address(bootloader, index);
    if bootloader == Bootloader::V2 {
        lemma_v2_chunks(len, addr);
    } else {
        lemma_v1_chunks(len, addr);
    }
}

proof fn lemma_erase_from(
    session: Session,
    flow: Flow,
    image: Seq<u8>,
    from: int,
    blocks: u8,
    replies: Seq<Seq<u8>>,
    nonce: Seq<u8>,
)
    requires
        0 <= from < erase_requests(session.info.bootloader, blocks).len(),
        replies.len() == erase_requests(session.info.bootloader, blocks).len() - from,
        all_erased(session.info.bootloader, replies),
    ensures
        run_of(
            session,
            exchange_of(
                erase_requests(session.info.bootloader, blocks)[from],
                StageView::Erase { index: from, blocks },
                flow,
                image,
            ),
            replies,
            nonce,
        ) == (Run {
            sent: erase_frames(session.info.bootloader, blocks, from),
            session,
            step: next_operation(session, flow, Operation::Erase, image),
        }),
    decreases replies.len(),
{
    let bootloader = session.info.bootloader;
    let requests = erase_requests(bootloader, blocks);
    let frame = request_frame(requests[from]);
    let pending = PendingView { stage: StageView::Erase { index: from, blocks }, flow, image };
    let frames = erase_frames(bootloader, blocks, from);
    let rest = replies.drop_first();
    assert(erase_reply_error(bootloader, replies[0]) is None);
    lemma_erase_step(session, flow, image, from, blocks, replies[0], nonce);
    lemma_run_unfolds(session, frame, pending, replies, nonce);
    if from + 1 < requests.len() {
        assert forall|index: int| 0 <= index < rest.len() implies #[trigger] erase_reply_error(
            bootloader,
            rest[index],
        ) is None by {
            assert(erase_reply_error(bootloader, replies[index + 1]) is None);
        }
        lemma_erase_from(session, flow, image, from + 1, blocks, rest, nonce);
        assert(frames =~= seq![frame] + erase_frames(bootloader, blocks, from + 1));
    } else {
        assert(rest =~= Seq::<Seq<u8>>::empty());
        lemma_run_of_nothing(
            session,
            next_operation(session, flow, Operation::Erase, image),
            nonce,
        );
        assert(frames =~= seq![frame] + Seq::<Seq<u8>>::empty());
    }
}

/// Erasing, when the chip acknowledges every request, sends the erase
/// requests of the chip's profile from the first to the last and nothing
/// else: for the first generation the flash-erase template and then one
/// request for each erase block of the profile, for the second generation a
/// single request. Then comes what follows erasing.
pub proof fn lemma_erase_sends_every_request(
    session: Session,
    flow: Flow,
    image: Seq<u8>,
    replies: Seq<Seq<u8>>,
    nonce: Seq<u8>,
)
    requires
        session.info.bootloader != Bootloader::Unknown,
        definition_of(session.info.chip_id) is Some,
        replies.len() == erase_requests(
            session.info.bootloader,
            definition_of(session.info.chip_id).unwrap().erase_blocks,
        ).len(),
        all_erased(session.info.bootloader, replies),
    ensures
        ({
            let blocks = definition_of(session.info.chip_id).unwrap().erase_blocks;
            let run = run_of(session, erase_start(session, flow, image), replies, nonce);
            &&& run.sent == erase_frames(session.info.bootloader, blocks, 0)
            &&& run.sent.len() == (if session.info.bootloader == Bootloader::V1 {
                1 + blocks
            } else {
                1
            })
            &&& run.session == session
            &&& run.step == next_operation(session, flow, Operation::Erase, image)
        }),
{
    let blocks = definition_of(session.info.chip_id).unwrap().erase_blocks;
    lemma_erase_from(session, flow, image, 0, blocks, replies, nonce);
}

/// One accepted flash packet, then the rest of the replies.
proof fn lemma_flash_round(
    session: Session,
    mode: Mode,
    flow: Flow,
    image: Seq<u8>,
    from: int,
    replies: Seq<Seq<u8>>,
    nonce: Seq<u8>,
)
    requires
        session.info.bootloader != Bootloader::Unknown,
        session.info.bootloader == Bootloader::V1 ==> image.len() % 8 == 0,
        0 <= from < packet_count(session.info.bootloader, image.len() as int),
        replies.len() > 0,
        flash_reply_error(session.info.bootloader, replies[0]) is None,
    ensures
        ({
            let bootloader = session.info.bootloader;
            let packet = flash_packet_of(session, mode, image, packet_address(bootloader, from));
            let following = if from + 1 < packet_count(bootloader, image.len() as int) {
                exchange_of(
                    flash_packet_of(session, mode, image, packet_address(bootloader, from + 1)),
                    StageView::Flash { mode, addr: packet_address(bootloader, from + 1) },
                    flow,
                    image,
                )
            } else {
                next_operation(session, flow, Operation::Flash(mode), image)
            };
            let rest = run_of(session, following, replies.drop_first(), nonce);
            run_of(
                session,
                exchange_of(
                    packet,
                    StageView::Flash { mode, addr: packet_address(bootloader, from) },
                    flow,
                    image,
                ),
                replies,
                nonce,
            ) == (Run {
                sent: seq![request_frame(packet)] + rest.sent,
                session: rest.session,
                step: rest.step,
            })
        }),
{
    let bootloader = session.info.bootloader;
    let addr = packet_address(bootloader, from);
    let frame = request_frame(flash_packet_of(session, mode, image, addr));
    let pending = PendingView { stage: StageView::Flash { mode, addr }, flow, image };
    lemma_next_packet(bootloader, image.len() as int, from);
    lemma_flash_step(session, flow, image, mode, addr, replies[0], nonce);
    lemma_run_unfolds(session, frame, pending, replies, nonce);
}

/// The frames from packet `from` on are the frame of that packet and then
/// the frames from the next packet on.
proof fn lemma_flash_frames_unfold(session: Session, mode: Mode, image: Seq<u8>, from: int)
    requires
        0 <= from < packet_count(session.info.bootloader, image.len() as int),
    ensures
        flash_frames(session, mode, image, from) == seq![
            request_frame(
                flash_packet_of(
                    session,
                    mode,
                    image,
                    packet_address(session.info.bootloader, from),
                ),
            ),
        ] + flash_frames(session, mode, image, from + 1),
{
    let frames = flash_frames(session, mode, image, from);
    let first = request_frame(
        flash_packet_of(session, mode, image, packet_address(session.info.bootloader, from)),
    );
    let others = flash_frames(session, mode, image, from + 1);
    assert(frames.len() == 1 + others.len());
    assert forall|index: int| 0 <= index < frames.len() implies frames[index] == (seq![first]
        + others)[index] by {
        if index > 0 {
            assert(from + 1 + (index - 1) == from + index);
            assert((seq![first] + others)[index] == others[index - 1]);
        }
    }
    assert(frames =~= seq![first] + others);
}

proof fn lemma_flash_from(
    session: Session,
    mode: Mode,
    flow: Flow,
    image: Seq<u8>,
    from: int,
    replies: Seq<Seq<u8>>,
    nonce: Seq<u8>,
)
    requires
        session.info.bootloader != Bootloader::Unknown,
        session.info.bootloader == Bootloader::V1 ==> image.len() % 8 == 0,
        0 <= from < packet_count(session.info.bootloader, image.len() as int),
        replies.len() == packet_count(session.info.bootloader, image.len() as int) - from,
        all_flashed(session.info.bootloader, replies),
    ensures
        run_of(
            session,
            exchange_of(
                flash_packet_of(
                    session,
                    mode,
                    image,
                    packet_address(session.info.bootloader, from),
                ),
                StageView::Flash { mode, addr: packet_address(session.info.bootloader, from) },
                flow,
                image,
            ),
            replies,
            nonce,
        ) == (Run {
            sent: flash_frames(session, mode, image, from),
            session,
            step: next_operation(session, flow, Operation::Flash(mode), image),
        }),
    decreases replies.len(),
{
    let bootloader = session.info.bootloader;
    let rest = replies.drop_first();
    assert(flash_reply_error(bootloader, replies[0]) is None);
    lemma_flash_round(session, mode, flow, image, from, replies, nonce);
    lemma_flash_frames_unfold(session, mode, image, from);
    if from + 1 < packet_count(bootloader, image.len() as int) {
        assert forall|index: int| 0 <= index < rest.len() implies #[trigger] flash_reply_error(
            bootloader,
            rest[index],
        ) is None by {
            assert(flash_reply_error(bootloader, replies[index + 1]) is None);
        }
        lemma_flash_from(session, mode, flow, image, from + 1, rest, nonce);
    } else {
        assert(rest =~= Seq::<Seq<u8>>::empty());
        lemma_run_of_nothing(
            session,
            next_operation(session, flow, Operation::Flash(mode), image),
            nonce,
        );
        assert(flash_frames(session, mode, image, from + 1) =~= Seq::<Seq<u8>>::empty());
    }
}

/// Flashing an image, when the chip takes every packet, sends one packet for
/// each chunk of the image and nothing else: packet `k` is the one for the
/// address `k` chunks into the image, the chunk being 56 bytes for the
/// second generation and 60 for the first. Then comes what follows flashing.
///
/// For the first generation this holds of images whose length is a multiple
/// of eight; see [`lemma_flash_off_boundary_never_ends`] for the others.
pub proof fn lemma_flash_sends_every_chunk(
    session: Session,
    mode: Mode,
    flow: Flow,
    image: Seq<u8>,
    replies: Seq<Seq<u8>>,
    nonce: Seq<u8>,
)
    requires
        session.info.bootloader != Bootloader::Unknown,
        session.info.bootloader == Bootloader::V1 ==> image.len() % 8 == 0,
        image.len() >= 32,
        replies.len() == packet_count(session.info.bootloader, image.len() as int),
        all_flashed(session.info.bootloader, replies),
    ensures
        ({
            let run = run_of(session, flash_start(session, mode, flow, image), replies, nonce);
            &&& run.sent == flash_frames(session, mode, image, 0)
            &&& run.sent.len() == packet_count(session.info.bootloader, image.len() as int)
            &&& run.session == session
            &&& run.step == next_operation(session, flow, Operation::Flash(mode), image)
        }),
{
    lemma_flash_from(session, mode, flow, image, 0, replies, nonce);
}

proof fn lemma_off_boundary_from(
    session: Session,
    mode: Mode,
    flow: Flow,
    image: Seq<u8>,
    addr: int,
    replies: Seq<Seq<u8>>,
    nonce: Seq<u8>,
)
    requires
        session.info.bootloader == Bootloader::V1,
        image.len() % 8 != 0,
        0 <= addr <= image.len(),
        all_flashed(session.info.bootloader, replies),
    ensures
        ({
            let run = run_of(
                session,
                exchange_of(
                    flash_packet_of(session, mode, image, addr),
                    StageView::Flash { mode, addr },
                    flow,
                    image,
                ),
                replies,
                nonce,
            );
            &&& run.sent.len() == replies.len()
            &&& run.step matches StepView::Exchange { pending, .. }
            &&& pending.stage is Flash
        }),
    decreases replies.len(),
{
    let frame = request_frame(flash_packet_of(session, mode, image, addr));
    let pending = PendingView { stage: StageView::Flash { mode, addr }, flow, image };
    if replies.len() > 0 {
        let rest = replies.drop_first();
        assert(flash_reply_error(session.info.bootloader, replies[0]) is None);
        lemma_v1_chunks(image.len() as int, addr);
        lemma_flash_step(session, flow, image, mode, addr, replies[0], nonce);
        lemma_run_unfolds(session, frame, pending, replies, nonce);
        assert forall|index: int| 0 <= index < rest.len() implies #[trigger] flash_reply_error(
            session.info.bootloader,
            rest[index],
        ) is None by {
            assert(flash_reply_error(session.info.bootloader, replies[index + 1]) is None);
        }
        let next = addr + chunk_size(60, image.len() - addr);
        lemma_off_boundary_from(session, mode, flow, image, next, rest, nonce);
    } else {
        assert(replies =~= Seq::<Seq<u8>>::empty());
        lemma_run_of_nothing(session, StepView::Exchange { frame, pending }, nonce);
    }
}

/// First generation: flashing an image whose length is no multiple of eight
/// does not end for as long as the chip acknowledges. The address never
/// reaches `len + len % 8`, so however many packets were acknowledged,
/// another flash packet is due.
pub proof fn lemma_flash_off_boundary_never_ends(
    session: Session,
    mode: Mode,
    flow: Flow,
    image: Seq<u8>,
    replies: Seq<Seq<u8>>,
    nonce: Seq<u8>,
)
    requires
        session.info.bootloader == Bootloader::V1,
        image.len() >= 32,
        image.len() % 8 != 0,
        all_flashed(session.info.bootloader, replies),
    ensures
        ({
            let run = run_of(session, flash_start(session, mode, flow, image), replies, nonce);
            &&& run.sent.len() == replies.len()
            &&& run.step matches StepView::Exchange { pending, .. }
            &&& pending.stage is Flash
        }),
{
    lemma_off_boundary_from(session, mode, flow, image, 0, replies, nonce);
}

/// Playing two series of replies one after the other is playing the first
/// and then, from where that led, the second.
pub proof fn lemma_run_splits(
    session: Session,
    step: StepView,
    first: Seq<Seq<u8>>,
    second: Seq<Seq<u8>>,
    nonce: Seq<u8>,
)
    ensures
        ({
            let before = run_of(session, step, first, nonce);
            let after = run_of(before.session, before.step, second, nonce);
            run_of(session, step, first + second, nonce) == (Run {
                sent: before.sent + after.sent,
                session: after.session,
                step: after.step,
            })
        }),
    decreases first.len(),
{
    let before = run_of(session, step, first, nonce);
    let after = run_of(before.session, before.step, second, nonce);
    let whole = run_of(session, step, first + second, nonce);
    if first.len() == 0 {
        assert(first + second =~= second);
        assert(before.sent + after.sent =~= after.sent);
    } else {
        match step {
            StepView::Done(_) => {
                assert(before.sent + after.sent =~= whole.sent);
            },
            StepView::Exchange { frame, pending } => {
                let next = after_reply(session, pending, first[0], nonce);
                assert((first + second)[0] == first[0]);
                assert((first + second).drop_first() =~= first.drop_first() + second);
                lemma_run_splits(next.0, next.1, first.drop_first(), second, nonce);
                let inner = run_of(next.0, next.1, first.drop_first(), nonce);
                assert(whole.sent =~= (seq![frame] + inner.sent) + after.sent);
            },
        }
    }
}

/// One reply played to a pending exchange that the rest of the replies
/// follows.
pub proof fn lemma_run_one(
    session: Session,
    payload: Seq<u8>,
    stage: StageView,
    flow: Flow,
    image: Seq<u8>,
    raw: Seq<u8>,
    rest: Seq<Seq<u8>>,
    nonce: Seq<u8>,
)
    ensures
        ({
            let pending = PendingView { stage, flow, image };
            let after = after_reply(session, pending, raw, nonce);
            let then = run_of(after.0, after.1, rest, nonce);
            run_of(session, exchange_of(payload, stage, flow, image), seq![raw] + rest, nonce)
                == (Run {
                sent: seq![request_frame(payload)] + then.sent,
                session: then.session,
                step: then.step,
            })
        }),
{
    let replies = seq![raw] + rest;
    assert(replies[0] == raw);
    assert(replies.drop_first() =~= rest);
    lemma_run_unfolds(
        session,
        request_frame(payload),
        PendingView { stage, flow, image },
        replies,
        nonce,
    );
}

} // verus!
