//! Operations on the discussion store. Each one either applies in full or
//! fails and leaves the store as it was.

use vstd::prelude::*;

use crate::principal::{holds_principal, Principal};

use super::error::DiscussionError;
use super::hash::{discussion_digest, generate_discussion_hash, lemma_comments_bytes_of_copies};
use super::state::{
    distinct_principals, lemma_vec_len_fits, matching, page_end, page_start, same_comments,
    same_discussions, DiscussionState,
};
use super::types::{
    AddCommentArgs, AuthorType, Comment, CommentId, ContributorInvite, CreateDiscussionArgs,
    Discussion, DiscussionFilter, DiscussionId, DiscussionPaginationParams, DiscussionStage,
    InviteStatus, PaginatedDiscussionResponse, QualityGateStatus, DEFAULT_PAGE_LIMIT,
};
use super::validation::{
    check_quality_gates, comment_content_error, create_args_error, gate_status, next_stage,
    validate_comment, validate_create_discussion, validate_stage_transition,
};

verus! {

/// `b` differs from `a` at most in the entry of discussion `id`.
pub open spec fn only_discussion_changed(a: DiscussionState, b: DiscussionState, id: DiscussionId) -> bool {
    &&& b.discussions@ == a.discussions@.update(id - 1, b.discussions@[id - 1])
    &&& b.comments == a.comments
    &&& b.discussion_comments == a.discussion_comments
    &&& b.invites == a.invites
    &&& b.discussion_participants == a.discussion_participants
    &&& b.next_discussion_id == a.next_discussion_id
    &&& b.next_comment_id == a.next_comment_id
}

/// `d` is a discussion just created by `caller` at time `now`.
pub open spec fn is_fresh_discussion(
    d: Discussion,
    id: DiscussionId,
    args: CreateDiscussionArgs,
    caller: Seq<u8>,
    now: u64,
) -> bool {
    &&& d.id == id
    &&& d.title == args.title
    &&& d.description == args.description
    &&& d.category == args.category
    &&& d.proposer@ == caller
    &&& d.contributors@.len() == 0
    &&& d.stage == DiscussionStage::Brainstorm
    &&& d.created_at == now
    &&& d.stage_changed_at == now
    &&& d.comment_count == 0
    &&& d.participant_count == 1
    &&& !d.is_archived
}

/// Creates a discussion in Brainstorm whose proposer, and first participant, is `caller`.
pub fn create_discussion(
    state: &mut DiscussionState,
    caller: Principal,
    args: CreateDiscussionArgs,
    now: u64,
) -> (r: Result<DiscussionId, DiscussionError>)
    requires
        old(state).wf(),
        old(state).next_discussion_id < u64::MAX,
    ensures
        final(state).wf(),
        final(state).follows(*old(state)),
        create_args_error(args.title@, args.description@) is Some ==> {
            &&& r == Err::<DiscussionId, _>(create_args_error(args.title@, args.description@)->0)
            &&& *final(state) == *old(state)
        },
        create_args_error(args.title@, args.description@) is None ==> {
            let id = old(state).next_discussion_id;
            &&& r == Ok::<DiscussionId, DiscussionError>(id)
            &&& final(state).discussions@.len() == old(state).discussions@.len() + 1
            &&& final(state).discussions@.drop_last() == old(state).discussions@
            &&& is_fresh_discussion(final(state).discussion(id), id, args, caller@, now)
            &&& final(state).ledger(id).len() == 0
            &&& final(state).discussion_comments@.drop_last() == old(state).discussion_comments@
            &&& final(state).participants(id).len() == 1
            &&& final(state).participants(id)[0]@ == caller@
            &&& final(state).discussion_participants@.drop_last() == old(
                state,
            ).discussion_participants@
            &&& final(state).comments == old(state).comments
            &&& final(state).invites == old(state).invites
            &&& final(state).next_comment_id == old(state).next_comment_id
        },
{
    if let Err(e) = validate_create_discussion(&args) {
        return Err(e);
    }
    let ghost old_state = *state;
    let id = state.next_discussion_id();
    let mut participants: Vec<Principal> = Vec::new();
    participants.push(caller.clone());
    let discussion = Discussion {
        id,
        title: args.title,
        description: args.description,
        category: args.category,
        proposer: caller,
        contributors: Vec::new(),
        stage: DiscussionStage::Brainstorm,
        created_at: now,
        stage_changed_at: now,
        comment_count: 0,
        participant_count: 1,
        is_archived: false,
    };
    state.discussions.push(discussion);
    state.discussion_comments.push(Vec::new());
    state.discussion_participants.push(participants);
    proof {
        let s = *state;
        assert(s.discussions@.drop_last() =~= old_state.discussions@);
        assert(s.discussion_comments@.drop_last() =~= old_state.discussion_comments@);
        assert(s.discussion_participants@.drop_last() =~= old_state.discussion_participants@);
        assert(holds_principal(s.discussion_participants@[id - 1]@, s.discussions@[id - 1].proposer@)) by {
            assert(s.discussion_participants@[id - 1]@[0]@ == s.discussions@[id - 1].proposer@);
        }
        assert forall|i: int, k: int|
            0 <= i < s.discussion_comments@.len() && 0 <= k
                < s.discussion_comments@[i]@.len() implies {
                let cid = #[trigger] s.discussion_comments@[i]@[k];
                &&& 1 <= cid <= s.comments@.len()
                &&& s.comments@[cid - 1].discussion_id == i + 1
            } by {
            assert(i < old_state.discussion_comments@.len());
            assert(s.discussion_comments@[i] == old_state.discussion_comments@[i]);
        }
        assert(s.wf());
    }
    Ok(id)
}

/// A copy of discussion `id`, if it exists.
pub fn get_discussion(state: &DiscussionState, discussion_id: DiscussionId) -> (r: Option<Discussion>)
    requires
        state.wf(),
    ensures
        r is Some <==> state.has_discussion(discussion_id),
        r is Some ==> r->0.same_as(state.discussion(discussion_id)),
{
    match state.get_discussion(discussion_id) {
        Some(d) => Some(d.clone()),
        None => None,
    }
}

/// Why archiving discussion `id` by `caller` is refused, if it is.
pub open spec fn archive_error(s: DiscussionState, caller: Seq<u8>, id: DiscussionId) -> Option<
    DiscussionError,
> {
    if !s.has_discussion(id) {
        Some(DiscussionError::DiscussionNotFound)
    } else if s.discussion(id).proposer@ != caller {
        Some(DiscussionError::NotProposer)
    } else if s.discussion(id).is_archived {
        Some(DiscussionError::AlreadyArchived)
    } else {
        None
    }
}

/// Archives discussion `id`; only its proposer may, and only once.
pub fn archive_discussion(
    state: &mut DiscussionState,
    caller: Principal,
    discussion_id: DiscussionId,
    now: u64,
) -> (r: Result<(), DiscussionError>)
    requires
        old(state).wf(),
    ensures
        final(state).wf(),
        final(state).follows(*old(state)),
        archive_error(*old(state), caller@, discussion_id) is Some ==> {
            &&& r == Err::<(), _>(archive_error(*old(state), caller@, discussion_id)->0)
            &&& *final(state) == *old(state)
        },
        archive_error(*old(state), caller@, discussion_id) is None ==> {
            &&& r == Ok::<(), DiscussionError>(())
            &&& only_discussion_changed(*old(state), *final(state), discussion_id)
            &&& final(state).discussion(discussion_id) == (Discussion {
                is_archived: true,
                ..old(state).discussion(discussion_id)
            })
        },
{
    let discussion = match state.get_discussion(discussion_id) {
        Some(d) => d,
        None => return Err(DiscussionError::DiscussionNotFound),
    };
    if !discussion.proposer.same_as(&caller) {
        return Err(DiscussionError::NotProposer);
    }
    if discussion.is_archived {
        return Err(DiscussionError::AlreadyArchived);
    }
    proof {
        lemma_vec_len_fits(&state.discussions);
    }
    let ix = (discussion_id - 1) as usize;
    state.discussions[ix].is_archived = true;
    proof {
        assert(state.discussions@ =~= old(state).discussions@.update(
            discussion_id - 1,
            state.discussions@[discussion_id - 1],
        ));
        assert forall|i: int|
            #![trigger state.discussions@[i]]
            0 <= i < state.discussions@.len() implies state.discussions@[i].id == i + 1 by {
            assert(old(state).discussions@[i].id == i + 1);
        }
    }
    Ok(())
}


/// Why adding a comment with `content` to discussion `id` as `caller` is refused, if it is.
pub open spec fn add_comment_error(
    s: DiscussionState,
    caller: Seq<u8>,
    id: DiscussionId,
    content: Seq<char>,
) -> Option<DiscussionError> {
    if !s.has_discussion(id) {
        Some(DiscussionError::DiscussionNotFound)
    } else if s.discussion(id).is_archived {
        Some(DiscussionError::Archived)
    } else if !s.may_comment(id, caller) {
        Some(DiscussionError::CommentNotAllowed)
    } else {
        comment_content_error(content)
    }
}

/// `c` is a comment just added to discussion `did` by `caller` at time `now`.
pub open spec fn is_fresh_comment(
    c: Comment,
    id: CommentId,
    did: DiscussionId,
    caller: Seq<u8>,
    args: AddCommentArgs,
    now: u64,
) -> bool {
    &&& c.id == id
    &&& c.discussion_id == did
    &&& c.author@ == caller
    &&& c.content == args.content
    &&& c.author_type == args.author_type
    &&& c.created_at == now
    &&& !c.is_retracted
    &&& c.retracted_at is None
}

/// The participants after a comment by `caller` of type `author`: a human who was not
/// among them joins at the end; an agent never does.
pub open spec fn participants_after(
    before: Seq<Principal>,
    after: Seq<Principal>,
    caller: Seq<u8>,
    author: AuthorType,
) -> bool {
    if author is Human && !holds_principal(before, caller) {
        &&& after.len() == before.len() + 1
        &&& after.drop_last() == before
        &&& after.last()@ == caller
    } else {
        after == before
    }
}

/// Appends a comment to the ledger of discussion `args.discussion_id`.
///
/// The comment count grows by one whatever the author type; a human author joins the
/// participants, an agent does not.
pub fn add_comment(
    state: &mut DiscussionState,
    caller: Principal,
    args: AddCommentArgs,
    now: u64,
) -> (r: Result<CommentId, DiscussionError>)
    requires
        old(state).wf(),
        old(state).next_comment_id < u64::MAX,
    ensures
        final(state).wf(),
        final(state).follows(*old(state)),
        add_comment_error(*old(state), caller@, args.discussion_id, args.content@) is Some ==> {
            &&& r == Err::<CommentId, _>(
                add_comment_error(*old(state), caller@, args.discussion_id, args.content@)->0,
            )
            &&& *final(state) == *old(state)
        },
        add_comment_error(*old(state), caller@, args.discussion_id, args.content@) is None ==> {
            let did = args.discussion_id;
            let cid = old(state).next_comment_id;
            let before = old(state).discussion(did);
            &&& r == Ok::<CommentId, DiscussionError>(cid)
            &&& final(state).comments@.len() == old(state).comments@.len() + 1
            &&& final(state).comments@.drop_last() == old(state).comments@
            &&& is_fresh_comment(final(state).comment(cid), cid, did, caller@, args, now)
            &&& final(state).discussion_comments@ == old(state).discussion_comments@.update(
                did - 1,
                final(state).discussion_comments@[did - 1],
            )
            &&& final(state).ledger(did) == old(state).ledger(did).push(cid)
            &&& final(state).discussion_participants@ == old(
                state,
            ).discussion_participants@.update(did - 1, final(state).discussion_participants@[did - 1])
            &&& participants_after(
                old(state).participants(did),
                final(state).participants(did),
                caller@,
                args.author_type,
            )
            &&& final(state).discussions@ == old(state).discussions@.update(
                did - 1,
                final(state).discussions@[did - 1],
            )
            &&& final(state).discussion(did) == (Discussion {
                comment_count: (before.comment_count + 1) as u64,
                participant_count: final(state).participants(did).len() as u64,
                ..before
            })
            &&& (args.author_type is Agent ==> final(state).discussion(did).participant_count
                == before.participant_count)
            &&& final(state).discussion(did).participant_count >= before.participant_count
            &&& final(state).invites == old(state).invites
            &&& final(state).next_discussion_id == old(state).next_discussion_id
        },
{
    let did = args.discussion_id;
    let discussion = match state.get_discussion(did) {
        Some(d) => d,
        None => return Err(DiscussionError::DiscussionNotFound),
    };
    if discussion.is_archived {
        return Err(DiscussionError::Archived);
    }
    if !state.can_comment(did, &caller) {
        return Err(DiscussionError::CommentNotAllowed);
    }
    if let Err(e) = validate_comment(&args) {
        return Err(e);
    }
    let ghost s0 = *state;
    let is_human = args.author_type.is_human();
    let cid = state.next_comment_id();
    let comment = Comment {
        id: cid,
        discussion_id: did,
        author: caller.clone(),
        content: args.content,
        author_type: args.author_type,
        created_at: now,
        is_retracted: false,
        retracted_at: None,
    };
    state.comments.push(comment);
    proof {
        lemma_vec_len_fits(&state.discussions);
    }
    let ix = (did - 1) as usize;
    state.discussion_comments[ix].push(cid);
    let count = state.discussions[ix].comment_count;
    state.discussions[ix].comment_count = count + 1;
    proof {
        let s = *state;
        assert(s.comments@.drop_last() =~= s0.comments@);
        assert(s.discussion_comments@ =~= s0.discussion_comments@.update(
            did - 1,
            s.discussion_comments@[did - 1],
        ));
        assert(s.discussions@ =~= s0.discussions@.update(did - 1, s.discussions@[did - 1]));
        assert forall|i: int|
            #![trigger s.discussions@[i]]
            0 <= i < s.discussions@.len() implies {
                let d = s.discussions@[i];
                let ps = s.discussion_participants@[i]@;
                &&& d.id == i + 1
                &&& d.comment_count == s.discussion_comments@[i]@.len()
                &&& d.comment_count <= s.comments@.len()
                &&& d.participant_count == ps.len()
                &&& d.participant_count <= s.comments@.len() + 1
                &&& holds_principal(ps, d.proposer@)
                &&& distinct_principals(ps)
            } by {
            assert(s0.discussions@[i].id == i + 1);
        }
        assert forall|i: int|
            #![trigger s.comments@[i]]
            0 <= i < s.comments@.len() implies {
                &&& s.comments@[i].id == i + 1
                &&& 1 <= s.comments@[i].discussion_id <= s.discussions@.len()
            } by {
            if i < s0.comments@.len() {
                assert(s.comments@[i] == s0.comments@[i]);
            }
        }
        assert forall|i: int, k: int|
            0 <= i < s.discussion_comments@.len() && 0 <= k
                < s.discussion_comments@[i]@.len() implies {
                let c = #[trigger] s.discussion_comments@[i]@[k];
                &&& 1 <= c <= s.comments@.len()
                &&& s.comments@[c - 1].discussion_id == i + 1
            } by {
            if i != did - 1 || k < s0.discussion_comments@[i]@.len() {
                assert(s.discussion_comments@[i]@[k] == s0.discussion_comments@[i]@[k]);
                assert(s.comments@[s.discussion_comments@[i]@[k] - 1] == s0.comments@[
                    s.discussion_comments@[i]@[k] - 1
                ]);
            }
        }
        assert(s.wf());
    }
    if is_human {
        state.add_participant(did, caller);
    }
    Ok(cid)
}

/// Copies of the comments of discussion `id` from position `offset` on, at most `limit`
/// of them, retracted ones included; none if the discussion does not exist.
pub fn get_comments(
    state: &DiscussionState,
    discussion_id: DiscussionId,
    offset: u64,
    limit: u64,
) -> (r: Vec<Comment>)
    requires
        state.wf(),
    ensures
        !state.has_discussion(discussion_id) ==> r@.len() == 0,
        state.has_discussion(discussion_id) ==> same_comments(
            r@,
            state.ledger_comments(discussion_id).subrange(
                page_start(state.ledger(discussion_id).len(), offset),
                page_end(state.ledger(discussion_id).len(), offset, limit),
            ),
        ),
{
    state.get_discussion_comments(discussion_id, offset, limit)
}

/// Why retracting comment `id` as `caller` is refused, if it is.
pub open spec fn retract_error(s: DiscussionState, caller: Seq<u8>, id: CommentId) -> Option<
    DiscussionError,
> {
    if !s.has_comment(id) {
        Some(DiscussionError::CommentNotFound)
    } else if s.comment(id).author@ != caller {
        Some(DiscussionError::NotAuthor)
    } else if s.comment(id).is_retracted {
        Some(DiscussionError::AlreadyRetracted)
    } else {
        None
    }
}

/// Marks comment `id` as retracted at time `now`; its content stays as it was.
pub fn retract_comment(
    state: &mut DiscussionState,
    caller: Principal,
    comment_id: CommentId,
    now: u64,
) -> (r: Result<(), DiscussionError>)
    requires
        old(state).wf(),
    ensures
        final(state).wf(),
        final(state).follows(*old(state)),
        retract_error(*old(state), caller@, comment_id) is Some ==> {
            &&& r == Err::<(), _>(retract_error(*old(state), caller@, comment_id)->0)
            &&& *final(state) == *old(state)
        },
        retract_error(*old(state), caller@, comment_id) is None ==> {
            &&& r == Ok::<(), DiscussionError>(())
            &&& final(state).comments@ == old(state).comments@.update(
                comment_id - 1,
                Comment {
                    is_retracted: true,
                    retracted_at: Some(now),
                    ..old(state).comment(comment_id)
                },
            )
            &&& final(state).discussions == old(state).discussions
            &&& final(state).discussion_comments == old(state).discussion_comments
            &&& final(state).discussion_participants == old(state).discussion_participants
            &&& final(state).invites == old(state).invites
            &&& final(state).next_discussion_id == old(state).next_discussion_id
            &&& final(state).next_comment_id == old(state).next_comment_id
        },
{
    let comment = match state.get_comment(comment_id) {
        Some(c) => c,
        None => return Err(DiscussionError::CommentNotFound),
    };
    if !comment.author.same_as(&caller) {
        return Err(DiscussionError::NotAuthor);
    }
    if comment.is_retracted {
        return Err(DiscussionError::AlreadyRetracted);
    }
    proof {
        lemma_vec_len_fits(&state.comments);
    }
    let ix = (comment_id - 1) as usize;
    state.comments[ix].is_retracted = true;
    state.comments[ix].retracted_at = Some(now);
    proof {
        let s = *state;
        assert(s.comments@ =~= old(state).comments@.update(
            comment_id - 1,
            Comment {
                is_retracted: true,
                retracted_at: Some(now),
                ..old(state).comment(comment_id)
            },
        ));
        assert forall|i: int|
            #![trigger s.comments@[i]]
            0 <= i < s.comments@.len() implies {
                &&& s.comments@[i].id == i + 1
                &&& 1 <= s.comments@[i].discussion_id <= s.discussions@.len()
            } by {
            assert(old(state).comments@[i].id == i + 1);
        }
        assert forall|i: int, k: int|
            0 <= i < s.discussion_comments@.len() && 0 <= k
                < s.discussion_comments@[i]@.len() implies {
                let c = #[trigger] s.discussion_comments@[i]@[k];
                &&& 1 <= c <= s.comments@.len()
                &&& s.comments@[c - 1].discussion_id == i + 1
            } by {
            let c = s.discussion_comments@[i]@[k];
            assert(old(state).comments@[c - 1].discussion_id == i + 1);
        }
    }
    Ok(())
}


/// Why advancing discussion `id` as `caller` at time `now` is refused, if it is.
pub open spec fn advance_error(s: DiscussionState, caller: Seq<u8>, id: DiscussionId, now: u64) -> Option<
    DiscussionError,
> {
    if !s.has_discussion(id) {
        Some(DiscussionError::DiscussionNotFound)
    } else if !s.is_member(id, caller) {
        Some(DiscussionError::NotProposerOrContributor)
    } else if s.discussion(id).is_archived {
        Some(DiscussionError::Archived)
    } else if s.discussion(id).stage == DiscussionStage::Ready {
        Some(DiscussionError::StageIsTerminal)
    } else if s.discussion(id).stage == DiscussionStage::Refining && !gate_status(s, id, now).all_met {
        Some(DiscussionError::QualityGateNotMet(gate_status(s, id, now)))
    } else {
        None
    }
}

/// Moves discussion `id` to the stage after its current one, and restarts the stage clock
/// at `now`.
///
/// Brainstorm to Refining needs only a proposer or contributor; Refining to Ready also needs
/// every quality gate; Ready is terminal.
pub fn advance_stage(
    state: &mut DiscussionState,
    caller: Principal,
    discussion_id: DiscussionId,
    now: u64,
) -> (r: Result<DiscussionStage, DiscussionError>)
    requires
        old(state).wf(),
    ensures
        final(state).wf(),
        final(state).follows(*old(state)),
        advance_error(*old(state), caller@, discussion_id, now) is Some ==> {
            &&& r == Err::<DiscussionStage, _>(
                advance_error(*old(state), caller@, discussion_id, now)->0,
            )
            &&& *final(state) == *old(state)
        },
        advance_error(*old(state), caller@, discussion_id, now) is None ==> {
            let next = next_stage(old(state).discussion(discussion_id).stage)->0;
            &&& next_stage(old(state).discussion(discussion_id).stage) is Some
            &&& r == Ok::<DiscussionStage, DiscussionError>(next)
            &&& only_discussion_changed(*old(state), *final(state), discussion_id)
            &&& final(state).discussion(discussion_id) == (Discussion {
                stage: next,
                stage_changed_at: now,
                ..old(state).discussion(discussion_id)
            })
        },
{
    let discussion = match state.get_discussion(discussion_id) {
        Some(d) => d,
        None => return Err(DiscussionError::DiscussionNotFound),
    };
    if !state.is_proposer_or_contributor(discussion_id, &caller) {
        return Err(DiscussionError::NotProposerOrContributor);
    }
    if discussion.is_archived {
        return Err(DiscussionError::Archived);
    }
    let current = discussion.stage;
    let target = match current {
        DiscussionStage::Brainstorm => DiscussionStage::Refining,
        DiscussionStage::Refining => DiscussionStage::Ready,
        DiscussionStage::Ready => return Err(DiscussionError::StageIsTerminal),
    };
    if let Err(e) = validate_stage_transition(&current, &target) {
        return Err(e);
    }
    if current == DiscussionStage::Refining {
        let gates = check_quality_gates(state, discussion_id, now);
        if !gates.all_met {
            return Err(DiscussionError::QualityGateNotMet(gates));
        }
    }
    proof {
        lemma_vec_len_fits(&state.discussions);
    }
    let ix = (discussion_id - 1) as usize;
    state.discussions[ix].stage = target;
    state.discussions[ix].stage_changed_at = now;
    proof {
        assert(state.discussions@ =~= old(state).discussions@.update(
            discussion_id - 1,
            state.discussions@[discussion_id - 1],
        ));
        assert forall|i: int|
            #![trigger state.discussions@[i]]
            0 <= i < state.discussions@.len() implies state.discussions@[i].id == i + 1 by {
            assert(old(state).discussions@[i].id == i + 1);
        }
    }
    Ok(target)
}

/// Why inviting `invitee` to discussion `id` as `caller` is refused, if it is.
pub open spec fn invite_error(
    s: DiscussionState,
    caller: Seq<u8>,
    id: DiscussionId,
    invitee: Seq<u8>,
) -> Option<DiscussionError> {
    if !s.has_discussion(id) {
        Some(DiscussionError::DiscussionNotFound)
    } else if !s.is_member(id, caller) {
        Some(DiscussionError::NotProposerOrContributor)
    } else if s.discussion(id).is_archived {
        Some(DiscussionError::Archived)
    } else if s.discussion(id).proposer@ == invitee {
        Some(DiscussionError::InviteeIsProposer)
    } else if holds_principal(s.discussion(id).contributors@, invitee) {
        Some(DiscussionError::AlreadyContributor)
    } else if s.has_invite(id, invitee) {
        Some(DiscussionError::AlreadyInvited)
    } else {
        None
    }
}

/// Records a pending invitation of `invitee` to discussion `id`.
///
/// An earlier invitation of any status, a declined one too, blocks a new one.
pub fn invite_contributor(
    state: &mut DiscussionState,
    caller: Principal,
    discussion_id: DiscussionId,
    invitee: Principal,
    now: u64,
) -> (r: Result<(), DiscussionError>)
    requires
        old(state).wf(),
    ensures
        final(state).wf(),
        final(state).follows(*old(state)),
        invite_error(*old(state), caller@, discussion_id, invitee@) is Some ==> {
            &&& r == Err::<(), _>(invite_error(*old(state), caller@, discussion_id, invitee@)->0)
            &&& *final(state) == *old(state)
        },
        invite_error(*old(state), caller@, discussion_id, invitee@) is None ==> {
            let inv = final(state).invites@.last();
            &&& r == Ok::<(), DiscussionError>(())
            &&& final(state).invites@.len() == old(state).invites@.len() + 1
            &&& final(state).invites@.drop_last() == old(state).invites@
            &&& inv.discussion_id == discussion_id
            &&& inv.invitee@ == invitee@
            &&& inv.invited_by@ == caller@
            &&& inv.invited_at == now
            &&& inv.status == InviteStatus::Pending
            &&& final(state).discussions == old(state).discussions
            &&& final(state).comments == old(state).comments
            &&& final(state).discussion_comments == old(state).discussion_comments
            &&& final(state).discussion_participants == old(state).discussion_participants
            &&& final(state).next_discussion_id == old(state).next_discussion_id
            &&& final(state).next_comment_id == old(state).next_comment_id
        },
{
    let discussion = match state.get_discussion(discussion_id) {
        Some(d) => d,
        None => return Err(DiscussionError::DiscussionNotFound),
    };
    if !state.is_proposer_or_contributor(discussion_id, &caller) {
        return Err(DiscussionError::NotProposerOrContributor);
    }
    if discussion.is_archived {
        return Err(DiscussionError::Archived);
    }
    if discussion.proposer.same_as(&invitee) {
        return Err(DiscussionError::InviteeIsProposer);
    }
    if crate::principal::contains_principal(&discussion.contributors, &invitee) {
        return Err(DiscussionError::AlreadyContributor);
    }
    if state.find_invite(discussion_id, &invitee).is_some() {
        return Err(DiscussionError::AlreadyInvited);
    }
    let invite = ContributorInvite {
        discussion_id,
        invitee,
        invited_by: caller,
        invited_at: now,
        status: InviteStatus::Pending,
    };
    let ghost s0 = *state;
    state.invites.push(invite);
    proof {
        let s = *state;
        assert(s.invites@.drop_last() =~= s0.invites@);
        assert forall|i: int|
            #![trigger s.invites@[i]]
            0 <= i < s.invites@.len() implies 1 <= s.invites@[i].discussion_id
                <= s.discussions@.len() by {
            if i < s0.invites@.len() {
                assert(s.invites@[i] == s0.invites@[i]);
            }
        }
        assert forall|i: int, j: int|
            0 <= i < j < s.invites@.len() implies !(#[trigger] s.invites@[i].discussion_id
                == #[trigger] s.invites@[j].discussion_id && s.invites@[i].invitee@
                == s.invites@[j].invitee@) by {
            assert(s.invites@[i] == s0.invites@[i]);
            if j < s0.invites@.len() {
                assert(s.invites@[j] == s0.invites@[j]);
            } else {
                assert(!s0.invite_is(i, discussion_id, invitee@));
            }
        }
    }
    Ok(())
}

/// The invitation for discussion `id` and invitee `p`, when there is one.
pub open spec fn invite_of(s: DiscussionState, id: DiscussionId, p: Seq<u8>) -> int {
    choose|i: int| s.invite_is(i, id, p)
}

/// Why answering the invitation to discussion `id` as `caller` is refused, if it is.
pub open spec fn respond_error(s: DiscussionState, caller: Seq<u8>, id: DiscussionId) -> Option<
    DiscussionError,
> {
    if !s.has_invite(id, caller) {
        Some(DiscussionError::InviteNotFound)
    } else if s.invites@[invite_of(s, id, caller)].status != InviteStatus::Pending {
        Some(DiscussionError::AlreadyResponded)
    } else {
        None
    }
}

/// Accepts or declines the pending invitation of `caller` to discussion `id`.
///
/// On acceptance the caller joins the contributors, once.
pub fn respond_to_invite(
    state: &mut DiscussionState,
    caller: Principal,
    discussion_id: DiscussionId,
    accept: bool,
    now: u64,
) -> (r: Result<(), DiscussionError>)
    requires
        old(state).wf(),
    ensures
        final(state).wf(),
        final(state).follows(*old(state)),
        respond_error(*old(state), caller@, discussion_id) is Some ==> {
            &&& r == Err::<(), _>(respond_error(*old(state), caller@, discussion_id)->0)
            &&& *final(state) == *old(state)
        },
        respond_error(*old(state), caller@, discussion_id) is None ==> {
            let i = invite_of(*old(state), discussion_id, caller@);
            let before = old(state).discussion(discussion_id);
            let after = final(state).discussion(discussion_id);
            &&& r == Ok::<(), DiscussionError>(())
            &&& final(state).invites@ == old(state).invites@.update(
                i,
                ContributorInvite {
                    status: if accept {
                        InviteStatus::Accepted
                    } else {
                        InviteStatus::Declined
                    },
                    ..old(state).invites@[i]
                },
            )
            &&& final(state).discussions@ == old(state).discussions@.update(
                discussion_id - 1,
                after,
            )
            &&& after == (Discussion { contributors: after.contributors, ..before })
            &&& if accept && !holds_principal(before.contributors@, caller@) {
                &&& after.contributors@.len() == before.contributors@.len() + 1
                &&& after.contributors@.drop_last() == before.contributors@
                &&& after.contributors@.last()@ == caller@
            } else {
                after.contributors == before.contributors
            }
            &&& final(state).comments == old(state).comments
            &&& final(state).discussion_comments == old(state).discussion_comments
            &&& final(state).discussion_participants == old(state).discussion_participants
            &&& final(state).next_discussion_id == old(state).next_discussion_id
            &&& final(state).next_comment_id == old(state).next_comment_id
        },
{
    let ix = match state.find_invite(discussion_id, &caller) {
        Some(i) => i,
        None => return Err(DiscussionError::InviteNotFound),
    };
    proof {
        let w = invite_of(*old(state), discussion_id, caller@);
        assert(old(state).invite_is(w, discussion_id, caller@));
        if w != ix {
            if w < ix {
                assert(!(old(state).invites@[w].discussion_id == old(state).invites@[ix as int].discussion_id
                    && old(state).invites@[w].invitee@ == old(state).invites@[ix as int].invitee@));
            } else {
                assert(!(old(state).invites@[ix as int].discussion_id == old(state).invites@[w].discussion_id
                    && old(state).invites@[ix as int].invitee@ == old(state).invites@[w].invitee@));
            }
        }
        assert(w == ix);
    }
    if state.invites[ix].status != InviteStatus::Pending {
        return Err(DiscussionError::AlreadyResponded);
    }
    let ghost s0 = *state;
    if accept {
        state.invites[ix].status = InviteStatus::Accepted;
        proof {
            lemma_vec_len_fits(&state.discussions);
        }
        let dx = (discussion_id - 1) as usize;
        if !crate::principal::contains_principal(&state.discussions[dx].contributors, &caller) {
            state.discussions[dx].contributors.push(caller);
        }
    } else {
        state.invites[ix].status = InviteStatus::Declined;
    }
    proof {
        let s = *state;
        assert(s.invites@ =~= s0.invites@.update(ix as int, s.invites@[ix as int]));
        assert(s.discussions@ =~= s0.discussions@.update(
            discussion_id - 1,
            s.discussions@[discussion_id - 1],
        ));
        assert forall|i: int|
            #![trigger s.discussions@[i]]
            0 <= i < s.discussions@.len() implies s.discussions@[i].id == i + 1 by {
            assert(s0.discussions@[i].id == i + 1);
        }
        assert forall|i: int|
            #![trigger s.invites@[i]]
            0 <= i < s.invites@.len() implies 1 <= s.invites@[i].discussion_id
                <= s.discussions@.len() by {
            assert(s0.invites@[i].discussion_id == s.invites@[i].discussion_id);
        }
        assert forall|i: int, j: int|
            0 <= i < j < s.invites@.len() implies !(#[trigger] s.invites@[i].discussion_id
                == #[trigger] s.invites@[j].discussion_id && s.invites@[i].invitee@
                == s.invites@[j].invitee@) by {
            assert(s0.invites@[i].discussion_id == s.invites@[i].discussion_id);
            assert(s0.invites@[j].discussion_id == s.invites@[j].discussion_id);
            assert(s0.invites@[i].invitee == s.invites@[i].invitee);
            assert(s0.invites@[j].invitee == s.invites@[j].invitee);
        }
    }
    Ok(())
}

/// The quality gates of discussion `id` at time `now`, if it exists.
pub fn get_quality_gate_status(
    state: &DiscussionState,
    discussion_id: DiscussionId,
    now: u64,
) -> (r: Option<QualityGateStatus>)
    requires
        state.wf(),
    ensures
        r is Some <==> state.has_discussion(discussion_id),
        r is Some ==> r->0 == gate_status(*state, discussion_id, now),
{
    if state.get_discussion(discussion_id).is_some() {
        Some(check_quality_gates(state, discussion_id, now))
    } else {
        None
    }
}

/// The offset that a listing with `pagination` starts at.
pub open spec fn page_offset(pagination: Option<DiscussionPaginationParams>) -> u64 {
    match pagination {
        Some(p) => match p.offset {
            Some(o) => o,
            None => 0,
        },
        None => 0,
    }
}

/// The page size of a listing with `pagination`.
pub open spec fn page_limit(pagination: Option<DiscussionPaginationParams>) -> u64 {
    match pagination {
        Some(p) => match p.limit {
            Some(l) => l,
            None => DEFAULT_PAGE_LIMIT,
        },
        None => DEFAULT_PAGE_LIMIT,
    }
}

/// One page of the discussions that `filter` shows, in order of identifier.
///
/// Without a filter archived discussions are left out; without pagination the page
/// starts at 0 and holds at most `DEFAULT_PAGE_LIMIT` discussions.
pub fn list_discussions(
    state: &DiscussionState,
    filter: Option<DiscussionFilter>,
    pagination: Option<DiscussionPaginationParams>,
) -> (r: PaginatedDiscussionResponse)
    ensures
        ({
            let all = matching(state.discussions@, filter);
            let offset = page_offset(pagination);
            let limit = page_limit(pagination);
            &&& r.total == all.len()
            &&& r.offset == offset
            &&& r.limit == limit
            &&& same_discussions(
                r.items@,
                all.subrange(page_start(all.len(), offset), page_end(all.len(), offset, limit)),
            )
        }),
{
    let offset: u64 = match pagination {
        Some(p) => match p.offset {
            Some(o) => o,
            None => 0,
        },
        None => 0,
    };
    let limit: u64 = match pagination {
        Some(p) => match p.limit {
            Some(l) => l,
            None => DEFAULT_PAGE_LIMIT,
        },
        None => DEFAULT_PAGE_LIMIT,
    };
    let all = state.list_discussions(filter);
    let ghost all_spec = matching(state.discussions@, filter);
    let (start, end) = super::state::page_range(all.len(), offset, limit);
    let mut items: Vec<Discussion> = Vec::new();
    let mut i: usize = start;
    while i < end
        invariant
            same_discussions(all@, all_spec),
            start <= i <= end <= all@.len(),
            items@.len() == i - start,
            forall|k: int| 0 <= k < items@.len() ==> (#[trigger] items@[k]).same_as(
                all_spec[start + k],
            ),
        decreases end - i,
    {
        let ghost old_items = items@;
        items.push(all[i].clone());
        proof {
            assert forall|k: int| 0 <= k < items@.len() implies (#[trigger] items@[k]).same_as(
                all_spec[start + k],
            ) by {
                if k < old_items.len() {
                    assert(items@[k] == old_items[k]);
                } else {
                    assert(all@[i as int].same_as(all_spec[i as int]));
                    super::types::lemma_same_principals_transitive(
                        items@[k].contributors@,
                        all@[i as int].contributors@,
                        all_spec[i as int].contributors@,
                    );
                }
            }
        }
        i = i + 1;
    }
    proof {
        assert forall|k: int| 0 <= k < items@.len() implies (#[trigger] items@[k]).same_as(
            all_spec.subrange(start as int, end as int)[k],
        ) by {
            assert(all_spec.subrange(start as int, end as int)[k] == all_spec[start + k]);
        }
    }
    PaginatedDiscussionResponse { items, total: all.len() as u64, offset, limit }
}


/// The verification digest of discussion `id` over all its comments, if it exists.
pub fn get_discussion_hash(state: &DiscussionState, discussion_id: DiscussionId) -> (r: Option<
    String,
>)
    requires
        state.wf(),
    ensures
        r is Some <==> state.has_discussion(discussion_id),
        r is Some ==> r->0@ == discussion_digest(
            state.discussion(discussion_id),
            state.ledger_comments(discussion_id),
        ),
        r is Some ==> r->0@.len() == 64,
{
    let discussion = match state.get_discussion(discussion_id) {
        Some(d) => d,
        None => return None,
    };
    let comments = state.get_all_discussion_comments(discussion_id);
    proof {
        lemma_comments_bytes_of_copies(comments@, state.ledger_comments(discussion_id));
    }
    Some(generate_discussion_hash(discussion, comments.as_slice()))
}

} // verus!
