//! Batch forwarding of messages into other rooms: every (message, target room)
//! pair gets its own outcome, and a pair that cannot be forwarded is skipped with
//! a reason instead of failing the batch.
use vstd::prelude::*;
use crate::text::copy_str;

verus! {

broadcast use vstd::string::group_string_axioms;

/// Messages to forward and the rooms to forward them into.
pub struct ForwardMessagesRequest {
    pub message_ids: Vec<u128>,
    pub target_room_ids: Vec<u128>,
}

/// The outcome of one (message, target room) pair.
pub struct ForwardResult {
    pub message_id: u128,
    pub target_room_id: u128,
    pub forwarded_message_id: Option<u128>,
    pub skipped_reason: Option<String>,
}

/// Why a pair was not forwarded.
#[derive(Clone, Copy, Debug, PartialEq, Eq, Structural)]
pub enum ForwardSkip {
    MessageNotFound,
    NotSourceMember,
    CannotSendToTarget,
    ServerBusy,
    MessageRecalled,
    ForwardFailed,
}

/// The reason text reported for a skip.
pub open spec fn skip_text(s: ForwardSkip) -> Seq<char> {
    match s {
        ForwardSkip::MessageNotFound => "message not found"@,
        ForwardSkip::NotSourceMember => "not a member of the source room"@,
        ForwardSkip::CannotSendToTarget => "cannot send to the target room"@,
        ForwardSkip::ServerBusy => "server busy; retry this forward"@,
        ForwardSkip::MessageRecalled => "message was recalled"@,
        ForwardSkip::ForwardFailed => "forward failed"@,
    }
}

impl ForwardSkip {
    /// The reason text reported for the skip.
    pub fn reason(self) -> (s: &'static str)
        ensures
            s@ == skip_text(self),
    {
        match self {
            ForwardSkip::MessageNotFound => "message not found",
            ForwardSkip::NotSourceMember => "not a member of the source room",
            ForwardSkip::CannotSendToTarget => "cannot send to the target room",
            ForwardSkip::ServerBusy => "server busy; retry this forward",
            ForwardSkip::MessageRecalled => "message was recalled",
            ForwardSkip::ForwardFailed => "forward failed",
        }
    }
}

/// What became of one pair.
#[derive(Clone, Copy, Debug, PartialEq, Eq, Structural)]
pub enum ForwardOutcome {
    Forwarded(u128),
    Skipped(ForwardSkip),
}

/// Whether a result reports `outcome` for the pair.
pub open spec fn reports(r: ForwardResult, message_id: u128, target_room_id: u128, outcome: ForwardOutcome) -> bool {
    &&& r.message_id == message_id
    &&& r.target_room_id == target_room_id
    &&& match outcome {
        ForwardOutcome::Forwarded(id) => r.forwarded_message_id == Some(id)
            && r.skipped_reason is None,
        ForwardOutcome::Skipped(s) => r.forwarded_message_id is None && match r.skipped_reason {
            Some(t) => t@ == skip_text(s),
            None => false,
        },
    }
}

/// The result reported for one pair.
pub fn forward_result(message_id: u128, target_room_id: u128, outcome: ForwardOutcome) -> (r: ForwardResult)
    ensures
        reports(r, message_id, target_room_id, outcome),
{
    match outcome {
        ForwardOutcome::Forwarded(id) => ForwardResult {
            message_id,
            target_room_id,
            forwarded_message_id: Some(id),
            skipped_reason: None,
        },
        ForwardOutcome::Skipped(s) => ForwardResult {
            message_id,
            target_room_id,
            forwarded_message_id: None,
            skipped_reason: Some(copy_str(s.reason())),
        },
    }
}

/// Whether a source message can be forwarded at all: it must exist, and the
/// forwarder must be able to post in its room.
pub fn source_check(source_room_id: Option<u128>, is_source_member: bool) -> (r: Option<ForwardSkip>)
    ensures
        r == if source_room_id is None {
            Some(ForwardSkip::MessageNotFound)
        } else if !is_source_member {
            Some(ForwardSkip::NotSourceMember)
        } else {
            None::<ForwardSkip>
        },
{
    if source_room_id.is_none() {
        Some(ForwardSkip::MessageNotFound)
    } else if !is_source_member {
        Some(ForwardSkip::NotSourceMember)
    } else {
        None
    }
}

/// The outcome of the copy itself: the new message, or a recalled (or vanished)
/// source, or a failure.
pub fn copy_outcome(copied: Result<Option<u128>, ()>) -> (r: ForwardOutcome)
    ensures
        r == match copied {
            Ok(Some(id)) => ForwardOutcome::Forwarded(id),
            Ok(None) => ForwardOutcome::Skipped(ForwardSkip::MessageRecalled),
            Err(_) => ForwardOutcome::Skipped(ForwardSkip::ForwardFailed),
        },
{
    match copied {
        Ok(Some(id)) => ForwardOutcome::Forwarded(id),
        Ok(None) => ForwardOutcome::Skipped(ForwardSkip::MessageRecalled),
        Err(_) => ForwardOutcome::Skipped(ForwardSkip::ForwardFailed),
    }
}

/// The outcome of one pair whose source passed its check: a target the forwarder
/// cannot post in is skipped, then a missing work permit, then the copy decides.
pub fn pair_outcome(can_send: bool, got_permit: bool, copied: Result<Option<u128>, ()>) -> (r: ForwardOutcome)
    ensures
        r == if !can_send {
            ForwardOutcome::Skipped(ForwardSkip::CannotSendToTarget)
        } else if !got_permit {
            ForwardOutcome::Skipped(ForwardSkip::ServerBusy)
        } else {
            match copied {
                Ok(Some(id)) => ForwardOutcome::Forwarded(id),
                Ok(None) => ForwardOutcome::Skipped(ForwardSkip::MessageRecalled),
                Err(_) => ForwardOutcome::Skipped(ForwardSkip::ForwardFailed),
            }
        },
{
    if !can_send {
        ForwardOutcome::Skipped(ForwardSkip::CannotSendToTarget)
    } else if !got_permit {
        ForwardOutcome::Skipped(ForwardSkip::ServerBusy)
    } else {
        copy_outcome(copied)
    }
}

/// One skipped result per target room, in target order, for a source message
/// that failed its check.
pub fn skipped_for_targets(message_id: u128, target_room_ids: &Vec<u128>, skip: ForwardSkip) -> (r: Vec<ForwardResult>)
    ensures
        r@.len() == target_room_ids@.len(),
        forall|i: int|
            0 <= i < r@.len() ==> reports(
                #[trigger] r@[i],
                message_id,
                target_room_ids@[i],
                ForwardOutcome::Skipped(skip),
            ),
{
    let mut r: Vec<ForwardResult> = Vec::new();
    let mut i: usize = 0;
    while i < target_room_ids.len()
        invariant
            i <= target_room_ids.len(),
            r@.len() == i,
            forall|k: int|
                0 <= k < i ==> reports(
                    #[trigger] r@[k],
                    message_id,
                    target_room_ids@[k],
                    ForwardOutcome::Skipped(skip),
                ),
        decreases target_room_ids.len() - i,
    {
        r.push(forward_result(message_id, target_room_ids[i], ForwardOutcome::Skipped(skip)));
        i += 1;
    }
    r
}

/// What the store answered about one source message: the room it is in (none
/// when it does not exist) and whether the forwarder may post there.
#[derive(Clone, Copy, Debug, PartialEq, Eq, Structural)]
pub struct SourceAnswer {
    pub room_id: Option<u128>,
    pub may_send: bool,
}

/// What the store answered for one (message, target room) pair whose source
/// passed its check: whether the forwarder may post in the target, whether a
/// write permit was had, and what the copy gave (the new message, none when the
/// source was recalled meanwhile, or a failure).
#[derive(Clone, Copy, Debug)]
pub struct PairAnswer {
    pub can_send: bool,
    pub got_permit: bool,
    pub copied: Result<Option<u128>, ()>,
}

/// The outcome of a pair: the source's check first (missing message, then not a
/// member of its room), then the target's permission, the permit and the copy.
pub open spec fn expected_outcome(s: SourceAnswer, p: PairAnswer) -> ForwardOutcome {
    if s.room_id is None {
        ForwardOutcome::Skipped(ForwardSkip::MessageNotFound)
    } else if !s.may_send {
        ForwardOutcome::Skipped(ForwardSkip::NotSourceMember)
    } else if !p.can_send {
        ForwardOutcome::Skipped(ForwardSkip::CannotSendToTarget)
    } else if !p.got_permit {
        ForwardOutcome::Skipped(ForwardSkip::ServerBusy)
    } else {
        match p.copied {
            Ok(Some(id)) => ForwardOutcome::Forwarded(id),
            Ok(None) => ForwardOutcome::Skipped(ForwardSkip::MessageRecalled),
            Err(_) => ForwardOutcome::Skipped(ForwardSkip::ForwardFailed),
        }
    }
}

/// Where the pair of the `i`-th message and the `j`-th target stands in a batch
/// of `t` targets per message.
pub open spec fn pair_index(i: int, j: int, t: int) -> int {
    i * t + j
}

proof fn lemma_pair_index(i: int, j: int, t: int)
    requires
        0 <= i,
        0 <= j < t,
    ensures
        i * t <= pair_index(i, j, t) < (i + 1) * t,
        (i + 1) * t == i * t + t,
{
    assert((i + 1) * t == i * t + t) by (nonlinear_arith);
}

proof fn lemma_rows_ordered(a: int, b: int, t: int)
    requires
        0 <= a < b,
        0 <= t,
    ensures
        (a + 1) * t <= b * t,
{
    assert((a + 1) * t <= b * t) by (nonlinear_arith)
        requires
            a + 1 <= b,
            0 <= t,
    ;
}

/// Forwards a batch: one result per (message, target room) pair, messages in
/// request order and, for each, targets in request order, so the pair of the
/// `i`-th message and the `j`-th target is result `i * T + j`. Each result
/// reports the outcome of its own pair, decided by its source's answer and its
/// own pair's answer alone: a skip never fails the batch or touches another
/// pair. `pairs[i * T + j]` is consulted only when the source passed.
pub fn forward_batch(
    message_ids: &Vec<u128>,
    target_room_ids: &Vec<u128>,
    sources: &Vec<SourceAnswer>,
    pairs: &Vec<PairAnswer>,
) -> (r: Vec<ForwardResult>)
    requires
        sources@.len() == message_ids@.len(),
        pairs@.len() == message_ids@.len() * target_room_ids@.len(),
    ensures
        r@.len() == message_ids@.len() * target_room_ids@.len(),
        forall|i: int, j: int|
            0 <= i < message_ids@.len() && 0 <= j < target_room_ids@.len() ==> reports(
                #[trigger] r@[pair_index(i, j, target_room_ids@.len() as int)],
                message_ids@[i],
                target_room_ids@[j],
                expected_outcome(sources@[i], pairs@[pair_index(i, j, target_room_ids@.len() as int)]),
            ),
{
    let m = message_ids.len();
    let t = target_room_ids.len();
    let ghost tt = t as int;
    let mut r: Vec<ForwardResult> = Vec::new();
    let mut i: usize = 0;
    proof {
        assert(0 * tt == 0) by (nonlinear_arith);
    }
    while i < m
        invariant
            m == message_ids@.len(),
            t == target_room_ids@.len(),
            tt == t,
            sources@.len() == m,
            pairs@.len() == m * t,
            i <= m,
            r@.len() == i * tt,
            forall|a: int, b: int|
                0 <= a < i && 0 <= b < t ==> reports(
                    #[trigger] r@[pair_index(a, b, tt)],
                    message_ids@[a],
                    target_room_ids@[b],
                    expected_outcome(sources@[a], pairs@[pair_index(a, b, tt)]),
                ),
        decreases m - i,
    {
        let message_id = message_ids[i];
        let source = sources[i];
        let skip = source_check(source.room_id, source.may_send);
        let mut j: usize = 0;
        proof {
            assert((i + 1) * tt == i * tt + tt) by (nonlinear_arith);
            assert((i + 1) * tt <= m * tt) by (nonlinear_arith)
                requires
                    i + 1 <= m,
                    0 <= tt,
            ;
        }
        while j < t
            invariant
                m == message_ids@.len(),
                t == target_room_ids@.len(),
                tt == t,
                sources@.len() == m,
                pairs@.len() == m * t,
                i < m,
                j <= t,
                (i + 1) * tt <= m * tt,
                message_id == message_ids@[i as int],
                source == sources@[i as int],
                skip == (if source.room_id is None {
                    Some(ForwardSkip::MessageNotFound)
                } else if !source.may_send {
                    Some(ForwardSkip::NotSourceMember)
                } else {
                    None::<ForwardSkip>
                }),
                r@.len() == i * tt + j,
                forall|a: int, b: int|
                    (0 <= a < i && 0 <= b < t) || (a == i && 0 <= b < j) ==> reports(
                        #[trigger] r@[pair_index(a, b, tt)],
                        message_ids@[a],
                        target_room_ids@[b],
                        expected_outcome(sources@[a], pairs@[pair_index(a, b, tt)]),
                    ),
            decreases t - j,
        {
            let k = r.len();
            proof {
                lemma_pair_index(i as int, j as int, tt);
            }
            let outcome = match skip {
                Some(reason) => ForwardOutcome::Skipped(reason),
                None => {
                    let pair = pairs[k];
                    pair_outcome(pair.can_send, pair.got_permit, pair.copied)
                },
            };
            let ghost before = r@;
            r.push(forward_result(message_id, target_room_ids[j], outcome));
            proof {
                assert forall|a: int, b: int|
                    (0 <= a < i && 0 <= b < t) || (a == i && 0 <= b < j + 1) implies reports(
                        #[trigger] r@[pair_index(a, b, tt)],
                        message_ids@[a],
                        target_room_ids@[b],
                        expected_outcome(sources@[a], pairs@[pair_index(a, b, tt)]),
                    ) by {
                    lemma_pair_index(a, b, tt);
                    if a < i {
                        lemma_rows_ordered(a, i as int, tt);
                        assert(r@[pair_index(a, b, tt)] == before[pair_index(a, b, tt)]);
                    } else if b < j {
                        assert(r@[pair_index(a, b, tt)] == before[pair_index(a, b, tt)]);
                    }
                }
            }
            j += 1;
        }
        i += 1;
    }
    r
}

} // verus!
