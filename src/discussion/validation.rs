//! Checks on the inputs of discussion operations, and the stage order.

use vstd::prelude::*;
use vstd::utf8::encode_utf8;

use super::error::DiscussionError;
use super::state::DiscussionState;
use super::types::{
    AddCommentArgs, CreateDiscussionArgs, DiscussionId, DiscussionStage, QualityGateStatus,
    MAX_COMMENT_LEN, MAX_DESCRIPTION_LEN, MAX_TITLE_LEN, MIN_PARTICIPANTS, MIN_REFINING_DURATION_NS,
    MIN_REFINING_HOURS, MIN_SUBSTANTIVE_COMMENTS, NS_PER_HOUR,
};

verus! {

/// Length of the UTF-8 encoding of `s`, in bytes.
pub open spec fn utf8_len(s: Seq<char>) -> nat {
    encode_utf8(s).len()
}

/// What creating a discussion with this title and description is refused for, if anything.
pub open spec fn create_args_error(title: Seq<char>, description: Seq<char>) -> Option<DiscussionError> {
    if title.len() == 0 {
        Some(DiscussionError::EmptyTitle)
    } else if title.len() > MAX_TITLE_LEN {
        Some(DiscussionError::TitleTooLong)
    } else if description.len() == 0 {
        Some(DiscussionError::EmptyDescription)
    } else if utf8_len(description) > MAX_DESCRIPTION_LEN {
        Some(DiscussionError::DescriptionTooLong)
    } else {
        None
    }
}

/// What a comment with this content is refused for, if anything.
pub open spec fn comment_content_error(content: Seq<char>) -> Option<DiscussionError> {
    if content.len() == 0 {
        Some(DiscussionError::EmptyComment)
    } else if utf8_len(content) > MAX_COMMENT_LEN {
        Some(DiscussionError::CommentTooLong)
    } else {
        None
    }
}

/// The stage that follows `s`, if any.
pub open spec fn next_stage(s: DiscussionStage) -> Option<DiscussionStage> {
    match s {
        DiscussionStage::Brainstorm => Some(DiscussionStage::Refining),
        DiscussionStage::Refining => Some(DiscussionStage::Ready),
        DiscussionStage::Ready => None,
    }
}

/// What a move from `current` to `target` is refused for, if anything.
pub open spec fn transition_error(current: DiscussionStage, target: DiscussionStage) -> Option<
    DiscussionError,
> {
    if next_stage(current) == Some(target) {
        None
    } else if current == DiscussionStage::Ready {
        Some(DiscussionError::StageIsTerminal)
    } else if current == target {
        Some(DiscussionError::SameStage)
    } else {
        Some(DiscussionError::InvalidTransition)
    }
}

/// The result that a check returns for the refusal `e`, if any.
pub open spec fn as_result(e: Option<DiscussionError>) -> Result<(), DiscussionError> {
    match e {
        Some(err) => Err(err),
        None => Ok(()),
    }
}

/// Checks the title (1 to 200 characters) and the description (1 byte to 50 KiB).
pub fn validate_create_discussion(args: &CreateDiscussionArgs) -> (r: Result<(), DiscussionError>)
    ensures
        r == as_result(create_args_error(args.title@, args.description@)),
{
    let title = args.title.as_str();
    let description = args.description.as_str();
    if title.is_empty() {
        return Err(DiscussionError::EmptyTitle);
    }
    if title.unicode_len() > MAX_TITLE_LEN {
        return Err(DiscussionError::TitleTooLong);
    }
    if description.is_empty() {
        return Err(DiscussionError::EmptyDescription);
    }
    if description.as_bytes().len() > MAX_DESCRIPTION_LEN {
        return Err(DiscussionError::DescriptionTooLong);
    }
    Ok(())
}

/// Checks that the content of a comment is non-empty and at most 10 KiB.
pub fn validate_comment(args: &AddCommentArgs) -> (r: Result<(), DiscussionError>)
    ensures
        r == as_result(comment_content_error(args.content@)),
{
    let content = args.content.as_str();
    if content.is_empty() {
        return Err(DiscussionError::EmptyComment);
    }
    if content.as_bytes().len() > MAX_COMMENT_LEN {
        return Err(DiscussionError::CommentTooLong);
    }
    Ok(())
}

/// Accepts exactly Brainstorm to Refining and Refining to Ready.
pub fn validate_stage_transition(current: &DiscussionStage, target: &DiscussionStage) -> (r: Result<
    (),
    DiscussionError,
>)
    ensures
        r == as_result(transition_error(*current, *target)),
        r is Ok <==> next_stage(*current) == Some(*target),
{
    match (current, target) {
        (DiscussionStage::Brainstorm, DiscussionStage::Refining) => Ok(()),
        (DiscussionStage::Refining, DiscussionStage::Ready) => Ok(()),
        (DiscussionStage::Ready, _) => Err(DiscussionError::StageIsTerminal),
        (a, b) => {
            if *a == *b {
                Err(DiscussionError::SameStage)
            } else {
                Err(DiscussionError::InvalidTransition)
            }
        },
    }
}


/// Time from `since` to `now`, or 0 if `now` is earlier.
pub open spec fn elapsed(now: u64, since: u64) -> u64 {
    if now >= since {
        (now - since) as u64
    } else {
        0
    }
}

/// The report for a discussion that does not exist: nothing met, all counts 0.
pub open spec fn no_gate_status() -> QualityGateStatus {
    QualityGateStatus {
        participants_met: false,
        participants_count: 0,
        comments_met: false,
        substantive_comments: 0,
        duration_met: false,
        hours_in_refining: 0,
        all_met: false,
    }
}

/// The quality gates of discussion `id` at time `now`.
///
/// The duration gate holds in Refining after 48 hours in that stage, always in Ready
/// (it held when the discussion entered Ready), and never in Brainstorm.
pub open spec fn gate_status(s: DiscussionState, id: DiscussionId, now: u64) -> QualityGateStatus {
    if !s.has_discussion(id) {
        no_gate_status()
    } else {
        let d = s.discussion(id);
        let participants = s.participants(id).len() as u64;
        let substantive = s.substantive_count(id) as u64;
        let in_stage = elapsed(now, d.stage_changed_at);
        let duration_met = match d.stage {
            DiscussionStage::Brainstorm => false,
            DiscussionStage::Refining => in_stage >= MIN_REFINING_DURATION_NS,
            DiscussionStage::Ready => true,
        };
        let hours = match d.stage {
            DiscussionStage::Brainstorm => 0,
            DiscussionStage::Refining => (in_stage / NS_PER_HOUR) as u64,
            DiscussionStage::Ready => MIN_REFINING_HOURS,
        };
        QualityGateStatus {
            participants_met: participants >= MIN_PARTICIPANTS,
            participants_count: participants,
            comments_met: substantive >= MIN_SUBSTANTIVE_COMMENTS,
            substantive_comments: substantive,
            duration_met,
            hours_in_refining: hours,
            all_met: participants >= MIN_PARTICIPANTS && substantive >= MIN_SUBSTANTIVE_COMMENTS
                && duration_met,
        }
    }
}

/// Evaluates the quality gates of discussion `id` at time `now`.
pub fn check_quality_gates(state: &DiscussionState, discussion_id: DiscussionId, now: u64) -> (r:
    QualityGateStatus)
    requires
        state.wf(),
    ensures
        r == gate_status(*state, discussion_id, now),
{
    let discussion = match state.get_discussion(discussion_id) {
        Some(d) => d,
        None => {
            return QualityGateStatus {
                participants_met: false,
                participants_count: 0,
                comments_met: false,
                substantive_comments: 0,
                duration_met: false,
                hours_in_refining: 0,
                all_met: false,
            };
        },
    };
    let participants_count = state.get_participant_count(discussion_id);
    let participants_met = participants_count >= MIN_PARTICIPANTS;
    proof {
        assert(state.discussions@[discussion_id - 1].comment_count == state.ledger(
            discussion_id,
        ).len());
        state.lemma_substantive_at_most(state.ledger(discussion_id));
    }
    let substantive_comments = state.count_substantive_comments(discussion_id);
    let comments_met = substantive_comments >= MIN_SUBSTANTIVE_COMMENTS;
    let (duration_met, hours_in_refining) = match discussion.stage {
        DiscussionStage::Refining => {
            let in_stage: u64 = if now >= discussion.stage_changed_at {
                now - discussion.stage_changed_at
            } else {
                0
            };
            (in_stage >= MIN_REFINING_DURATION_NS, in_stage / NS_PER_HOUR)
        },
        DiscussionStage::Ready => (true, MIN_REFINING_HOURS),
        DiscussionStage::Brainstorm => (false, 0),
    };
    let all_met = participants_met && comments_met && duration_met;
    QualityGateStatus {
        participants_met,
        participants_count,
        comments_met,
        substantive_comments,
        duration_met,
        hours_in_refining,
        all_met,
    }
}

} // verus!
