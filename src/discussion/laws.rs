//! Properties that hold across operations on the discussion store.

use vstd::prelude::*;

use super::api::{invite_of, respond_error, retract_error};
use super::error::DiscussionError;
use super::hash::{
    hash_input_of, lemma_hash_input_changes_with_new_comment,
    lemma_hash_input_changes_with_retraction,
};
use super::state::{stage_rank, DiscussionState};
use super::types::{
    Comment, CommentId, ContributorInvite, Discussion, DiscussionId, DiscussionStage, InviteStatus,
};
use super::validation::transition_error;

verus! {

/// The only stage transitions are Brainstorm to Refining and Refining to Ready: a move out
/// of Ready, to the same stage, or that skips or goes back a stage is refused.
pub proof fn lemma_transitions_only_forward_by_one(current: DiscussionStage, target: DiscussionStage)
    ensures
        transition_error(current, target) is None <==> {
            ||| current == DiscussionStage::Brainstorm && target == DiscussionStage::Refining
            ||| current == DiscussionStage::Refining && target == DiscussionStage::Ready
        },
        current == DiscussionStage::Ready ==> transition_error(current, target) is Some,
        current == target ==> transition_error(current, target) is Some,
        stage_rank(target) != stage_rank(current) + 1 ==> transition_error(current, target) is Some,
{
}

/// Reachability composes: a store reached in several operations from `a` follows `a`. So
/// along any sequence of operations no discussion loses comments or participants, no stage
/// goes back, no archived discussion is restored, and no comment or invitation is removed.
pub proof fn lemma_follows_transitive(a: DiscussionState, b: DiscussionState, c: DiscussionState)
    requires
        b.follows(a),
        c.follows(b),
    ensures
        c.follows(a),
{
    assert forall|i: int| 0 <= i < a.discussions@.len() implies super::state::discussion_follows(
        #[trigger] c.discussions@[i],
        a.discussions@[i],
    ) by {
        assert(super::state::discussion_follows(b.discussions@[i], a.discussions@[i]));
        assert(super::state::discussion_follows(c.discussions@[i], b.discussions@[i]));
    }
    assert forall|i: int| 0 <= i < a.comments@.len() implies super::state::comment_follows(
        #[trigger] c.comments@[i],
        a.comments@[i],
    ) by {
        assert(super::state::comment_follows(b.comments@[i], a.comments@[i]));
        assert(super::state::comment_follows(c.comments@[i], b.comments@[i]));
    }
    assert forall|i: int| 0 <= i < a.invites@.len() implies super::state::invite_follows(
        #[trigger] c.invites@[i],
        a.invites@[i],
    ) by {
        assert(super::state::invite_follows(b.invites@[i], a.invites@[i]));
        assert(super::state::invite_follows(c.invites@[i], b.invites@[i]));
    }
}

/// The participant count of a discussion never decreases from one reachable store to
/// the next.
pub proof fn lemma_participant_count_never_decreases(
    earlier: DiscussionState,
    later: DiscussionState,
    id: DiscussionId,
)
    requires
        later.follows(earlier),
        earlier.has_discussion(id),
    ensures
        later.has_discussion(id),
        later.discussion(id).participant_count >= earlier.discussion(id).participant_count,
{
    assert(super::state::discussion_follows(later.discussions@[id - 1], earlier.discussions@[id - 1]));
}

/// The comment count of a discussion is the number of comments ever added to its ledger,
/// retracted ones included.
pub proof fn lemma_comment_count_is_ledger_length(s: DiscussionState, id: DiscussionId)
    requires
        s.wf(),
        s.has_discussion(id),
    ensures
        s.discussion(id).comment_count == s.ledger(id).len(),
{
    assert(s.discussions@[id - 1].comment_count == s.discussion_comments@[id - 1]@.len());
}

/// Between two reachable stores the comment count of a discussion grows by exactly the
/// number of comments appended to its ledger; only `add_comment` appends (one identifier
/// per successful call), and retraction changes neither the ledger nor the count. So a
/// discussion created with no comments has, after N successful additions, a comment count
/// of N, whatever was retracted in between.
pub proof fn lemma_comment_count_grows_with_ledger(
    earlier: DiscussionState,
    later: DiscussionState,
    id: DiscussionId,
)
    requires
        earlier.wf(),
        later.wf(),
        later.follows(earlier),
        earlier.has_discussion(id),
    ensures
        later.has_discussion(id),
        later.ledger(id).len() >= earlier.ledger(id).len(),
        later.ledger(id).subrange(0, earlier.ledger(id).len() as int) == earlier.ledger(id),
        later.discussion(id).comment_count - earlier.discussion(id).comment_count == later.ledger(
            id,
        ).len() - earlier.ledger(id).len(),
{
    assert(earlier.discussions@[id - 1].comment_count == earlier.discussion_comments@[id - 1]@.len());
    assert(later.discussions@[id - 1].comment_count == later.discussion_comments@[id - 1]@.len());
    assert(later.discussion_comments@[id - 1]@.len() >= earlier.discussion_comments@[id - 1]@.len());
    assert forall|k: int| 0 <= k < earlier.ledger(id).len() implies later.ledger(id)[k]
        == earlier.ledger(id)[k] by {
        assert(later.discussion_comments@[id - 1]@[k] == earlier.discussion_comments@[id - 1]@[k]);
    }
    assert(later.ledger(id).subrange(0, earlier.ledger(id).len() as int) =~= earlier.ledger(id));
}

/// A retracted comment cannot be retracted again.
pub proof fn lemma_retracted_comment_refused(s: DiscussionState, caller: Seq<u8>, id: CommentId)
    requires
        s.has_comment(id),
        s.comment(id).is_retracted,
    ensures
        retract_error(s, caller, id) is Some,
        s.comment(id).author@ == caller ==> retract_error(s, caller, id) == Some(
            DiscussionError::AlreadyRetracted,
        ),
{
}

/// After a successful retraction, a second one by the same caller fails as already
/// retracted.
pub proof fn lemma_second_retraction_fails(
    before: DiscussionState,
    after: DiscussionState,
    caller: Seq<u8>,
    id: CommentId,
    now: u64,
)
    requires
        retract_error(before, caller, id) is None,
        after.comments@ == before.comments@.update(
            id - 1,
            Comment { is_retracted: true, retracted_at: Some(now), ..before.comment(id) },
        ),
    ensures
        retract_error(after, caller, id) == Some(DiscussionError::AlreadyRetracted),
{
}

/// After a successful answer to an invitation, a second answer fails as already
/// responded, whether it accepts or declines.
pub proof fn lemma_second_response_fails(
    before: DiscussionState,
    after: DiscussionState,
    caller: Seq<u8>,
    id: DiscussionId,
    accept: bool,
)
    requires
        after.wf(),
        respond_error(before, caller, id) is None,
        after.invites@ == before.invites@.update(
            invite_of(before, id, caller),
            ContributorInvite {
                status: if accept {
                    InviteStatus::Accepted
                } else {
                    InviteStatus::Declined
                },
                ..before.invites@[invite_of(before, id, caller)]
            },
        ),
    ensures
        respond_error(after, caller, id) == Some(DiscussionError::AlreadyResponded),
{
    let i = invite_of(before, id, caller);
    assert(before.invite_is(i, id, caller));
    assert(after.invite_is(i, id, caller));
    let j = invite_of(after, id, caller);
    assert(after.invite_is(j, id, caller));
    if i < j {
        assert(!(after.invites@[i].discussion_id == after.invites@[j].discussion_id
            && after.invites@[i].invitee@ == after.invites@[j].invitee@));
    } else if j < i {
        assert(!(after.invites@[j].discussion_id == after.invites@[i].discussion_id
            && after.invites@[j].invitee@ == after.invites@[i].invitee@));
    }
}


/// Adding a comment to a discussion changes the input of its verification digest.
pub proof fn lemma_new_comment_changes_discussion_hash_input(
    before: DiscussionState,
    after: DiscussionState,
    id: DiscussionId,
)
    requires
        before.wf(),
        before.has_discussion(id),
        after.discussions@.len() == before.discussions@.len(),
        after.discussion(id) == (Discussion {
            comment_count: after.discussion(id).comment_count,
            participant_count: after.discussion(id).participant_count,
            ..before.discussion(id)
        }),
        after.comments@.len() == before.comments@.len() + 1,
        after.comments@.drop_last() == before.comments@,
        after.ledger(id) == before.ledger(id).push(after.comments@.len() as u64),
    ensures
        hash_input_of(after.discussion(id), after.ledger_comments(id)) != hash_input_of(
            before.discussion(id),
            before.ledger_comments(id),
        ),
{
    let cid = after.comments@.len() as u64;
    let old_cs = before.ledger_comments(id);
    let new_cs = after.ledger_comments(id);
    assert forall|k: int| 0 <= k < old_cs.len() implies new_cs[k] == old_cs[k] by {
        let c = before.ledger(id)[k];
        assert(before.discussion_comments@[id - 1]@[k] == c);
        assert(1 <= c <= before.comments@.len());
        assert(after.comments@[c - 1] == after.comments@.drop_last()[c - 1]);
    }
    assert(new_cs =~= old_cs.push(after.comment(cid)));
    lemma_hash_input_changes_with_new_comment(before.discussion(id), old_cs, after.comment(cid));
    assert(super::hash::discussion_bytes(after.discussion(id)) == super::hash::discussion_bytes(
        before.discussion(id),
    ));
}

/// Retracting a comment of a discussion changes the input of its verification digest.
pub proof fn lemma_retraction_changes_discussion_hash_input(
    before: DiscussionState,
    after: DiscussionState,
    id: DiscussionId,
    position: int,
    now: u64,
)
    requires
        before.wf(),
        before.has_discussion(id),
        0 <= position < before.ledger(id).len(),
        !before.comment(before.ledger(id)[position]).is_retracted,
        after.comments@ == before.comments@.update(
            before.ledger(id)[position] - 1,
            Comment {
                is_retracted: true,
                retracted_at: Some(now),
                ..before.comment(before.ledger(id)[position])
            },
        ),
        after.discussions == before.discussions,
        after.discussion_comments == before.discussion_comments,
    ensures
        hash_input_of(after.discussion(id), after.ledger_comments(id)) != hash_input_of(
            before.discussion(id),
            before.ledger_comments(id),
        ),
{
    let cid = before.ledger(id)[position];
    let old_cs = before.ledger_comments(id);
    let new_cs = after.ledger_comments(id);
    let retracted = Comment { is_retracted: true, retracted_at: Some(now), ..old_cs[position] };
    assert(before.discussion_comments@[id - 1]@[position] == cid);
    assert forall|k: int| 0 <= k < old_cs.len() && k != position implies new_cs[k] == old_cs[k] by {
        let c = before.ledger(id)[k];
        assert(before.discussion_comments@[id - 1]@[k] == c);
        if k < position {
            assert(before.discussion_comments@[id - 1]@[k] < before.discussion_comments@[id - 1]@[position]);
        } else {
            assert(before.discussion_comments@[id - 1]@[position] < before.discussion_comments@[id - 1]@[k]);
        }
    }
    assert(new_cs =~= old_cs.update(position, retracted));
    lemma_hash_input_changes_with_retraction(before.discussion(id), old_cs, position, now);
}

} // verus!
