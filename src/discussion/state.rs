//! The discussion store: tables of discussions, comments, invitations and
//! participants, and the counters that number discussions and comments.

use vstd::prelude::*;

use crate::principal::{contains_principal, holds_principal, Principal};

use super::types::{
    Comment, CommentId, ContributorInvite, Discussion, DiscussionFilter,
    DiscussionId, DiscussionStage, InviteStatus, SUBSTANTIVE_COMMENT_MIN_CHARS,
};

verus! {

/// All tables of the discussion subsystem.
///
/// Discussion `id` is stored at index `id - 1` of `discussions`, and so are its
/// ledger in `discussion_comments` and its participants in
/// `discussion_participants`; comment `id` is stored at index `id - 1` of
/// `comments`. Nothing is ever removed.
pub struct DiscussionState {
    pub discussions: Vec<Discussion>,
    pub comments: Vec<Comment>,
    /// For each discussion, the identifiers of its comments in order of addition.
    pub discussion_comments: Vec<Vec<CommentId>>,
    /// Invitations; at most one for each discussion and invitee.
    pub invites: Vec<ContributorInvite>,
    /// For each discussion, its distinct human participants, the proposer first.
    pub discussion_participants: Vec<Vec<Principal>>,
    pub next_discussion_id: DiscussionId,
    pub next_comment_id: CommentId,
}

/// No two entries of the list name the same identity.
pub open spec fn distinct_principals(list: Seq<Principal>) -> bool {
    forall|i: int, j: int| 0 <= i < j < list.len() ==> #[trigger] list[i]@ != #[trigger] list[j]@
}

/// A comment that counts toward the comment gate: human, not retracted, 50 characters or more.
pub open spec fn is_substantive(c: Comment) -> bool {
    &&& !c.is_retracted
    &&& c.author_type is Human
    &&& c.content@.len() >= SUBSTANTIVE_COMMENT_MIN_CHARS
}

/// Whether a listing with `filter` shows `d`.
pub open spec fn filter_matches(filter: Option<DiscussionFilter>, d: Discussion) -> bool {
    match filter {
        None => !d.is_archived,
        Some(f) => {
            &&& (f.stage is Some ==> d.stage == f.stage->0)
            &&& (f.category is Some ==> d.category == f.category->0)
            &&& (f.proposer is Some ==> d.proposer@ == f.proposer->0@)
            &&& (f.include_archived != Some(true) ==> !d.is_archived)
        },
    }
}

/// The discussions of `ds` that a listing with `filter` shows, in order.
pub open spec fn matching(ds: Seq<Discussion>, filter: Option<DiscussionFilter>) -> Seq<Discussion>
    decreases ds.len(),
{
    if ds.len() == 0 {
        Seq::empty()
    } else {
        let rest = matching(ds.drop_last(), filter);
        if filter_matches(filter, ds.last()) {
            rest.push(ds.last())
        } else {
            rest
        }
    }
}

/// Position of a stage in the order Brainstorm, Refining, Ready.
pub open spec fn stage_rank(s: DiscussionStage) -> int {
    match s {
        DiscussionStage::Brainstorm => 0,
        DiscussionStage::Refining => 1,
        DiscussionStage::Ready => 2,
    }
}

/// `later` is a state that discussion `earlier` can be in after any operations: the same
/// discussion, counts not lower, stage not earlier, still archived if it was.
pub open spec fn discussion_follows(later: Discussion, earlier: Discussion) -> bool {
    &&& later.id == earlier.id
    &&& later.title == earlier.title
    &&& later.description == earlier.description
    &&& later.category == earlier.category
    &&& later.proposer == earlier.proposer
    &&& later.created_at == earlier.created_at
    &&& later.comment_count >= earlier.comment_count
    &&& later.participant_count >= earlier.participant_count
    &&& stage_rank(later.stage) >= stage_rank(earlier.stage)
    &&& (earlier.is_archived ==> later.is_archived)
}

/// `later` is a state that comment `earlier` can be in after any operations: only the
/// retraction may have changed, and a retracted comment does not change at all.
pub open spec fn comment_follows(later: Comment, earlier: Comment) -> bool {
    &&& later == (Comment {
        is_retracted: later.is_retracted,
        retracted_at: later.retracted_at,
        ..earlier
    })
    &&& (earlier.is_retracted ==> later == earlier)
}

/// `later` is a state that invitation `earlier` can be in after any operations: only a
/// pending status may have changed.
pub open spec fn invite_follows(later: ContributorInvite, earlier: ContributorInvite) -> bool {
    &&& later == (ContributorInvite { status: later.status, ..earlier })
    &&& (earlier.status != InviteStatus::Pending ==> later.status == earlier.status)
}

/// Identifiers of the discussions of `ds` that `user` proposed, in order.
pub open spec fn proposed_by(ds: Seq<Discussion>, user: Seq<u8>) -> Seq<DiscussionId>
    decreases ds.len(),
{
    if ds.len() == 0 {
        Seq::empty()
    } else {
        let rest = proposed_by(ds.drop_last(), user);
        if ds.last().proposer@ == user {
            rest.push(ds.last().id)
        } else {
            rest
        }
    }
}

/// `a` holds copies of the discussions of `b`, in the same order.
pub open spec fn same_discussions(a: Seq<Discussion>, b: Seq<Discussion>) -> bool {
    &&& a.len() == b.len()
    &&& forall|i: int| 0 <= i < a.len() ==> (#[trigger] a[i]).same_as(b[i])
}

/// `a` holds copies of the comments of `b`, in the same order.
pub open spec fn same_comments(a: Seq<Comment>, b: Seq<Comment>) -> bool {
    &&& a.len() == b.len()
    &&& forall|i: int| 0 <= i < a.len() ==> (#[trigger] a[i]).same_as(b[i])
}

/// The length of a vector fits in `usize`.
pub proof fn lemma_vec_len_fits<T>(v: &Vec<T>)
    ensures
        v@.len() <= usize::MAX,
{
    assert(v.len() == v@.len());
}

impl DiscussionState {
    /// Whether discussion `id` exists.
    pub open spec fn has_discussion(&self, id: DiscussionId) -> bool {
        1 <= id <= self.discussions@.len()
    }

    /// Discussion `id`.
    pub open spec fn discussion(&self, id: DiscussionId) -> Discussion {
        self.discussions@[id - 1]
    }

    /// Whether comment `id` exists.
    pub open spec fn has_comment(&self, id: CommentId) -> bool {
        1 <= id <= self.comments@.len()
    }

    /// Comment `id`.
    pub open spec fn comment(&self, id: CommentId) -> Comment {
        self.comments@[id - 1]
    }

    /// Identifiers of the comments of discussion `id`, in order of addition (so increasing).
    pub open spec fn ledger(&self, id: DiscussionId) -> Seq<CommentId> {
        self.discussion_comments@[id - 1]@
    }

    /// The comments of discussion `id`, in order of addition.
    pub open spec fn ledger_comments(&self, id: DiscussionId) -> Seq<Comment> {
        self.ledger(id).map_values(|cid: CommentId| self.comment(cid))
    }

    /// Human participants of discussion `id`.
    pub open spec fn participants(&self, id: DiscussionId) -> Seq<Principal> {
        self.discussion_participants@[id - 1]@
    }

    /// Whether `p` is the proposer or a contributor of discussion `id`.
    pub open spec fn is_member(&self, id: DiscussionId, p: Seq<u8>) -> bool {
        &&& self.has_discussion(id)
        &&& (self.discussion(id).proposer@ == p || holds_principal(
            self.discussion(id).contributors@,
            p,
        ))
    }

    /// Whether `p` may comment on discussion `id`: its proposer and contributors always,
    /// anyone else while it is in Brainstorm.
    pub open spec fn may_comment(&self, id: DiscussionId, p: Seq<u8>) -> bool {
        &&& self.has_discussion(id)
        &&& (self.is_member(id, p) || self.discussion(id).stage == DiscussionStage::Brainstorm)
    }

    /// Whether invitation `i` is the one for discussion `id` and invitee `p`.
    pub open spec fn invite_is(&self, i: int, id: DiscussionId, p: Seq<u8>) -> bool {
        &&& 0 <= i < self.invites@.len()
        &&& self.invites@[i].discussion_id == id
        &&& self.invites@[i].invitee@ == p
    }

    /// Whether an invitation exists for discussion `id` and invitee `p`.
    pub open spec fn has_invite(&self, id: DiscussionId, p: Seq<u8>) -> bool {
        exists|i: int| self.invite_is(i, id, p)
    }

    /// Substantive comments among the comments `ids`.
    pub open spec fn substantive_in(&self, ids: Seq<CommentId>) -> nat
        decreases ids.len(),
    {
        if ids.len() == 0 {
            0
        } else {
            self.substantive_in(ids.drop_last()) + if is_substantive(self.comment(ids.last())) {
                1nat
            } else {
                0nat
            }
        }
    }

    /// There are no more substantive comments than comments.
    pub proof fn lemma_substantive_at_most(&self, ids: Seq<CommentId>)
        ensures
            self.substantive_in(ids) <= ids.len(),
        decreases ids.len(),
    {
        if ids.len() > 0 {
            self.lemma_substantive_at_most(ids.drop_last());
        }
    }

    /// Substantive comments of discussion `id`.
    pub open spec fn substantive_count(&self, id: DiscussionId) -> nat {
        self.substantive_in(self.ledger(id))
    }

    /// `self` is a state that the store can reach from `earlier`: nothing is removed, a
    /// ledger only grows at its end, and every discussion, comment and invitation only
    /// moves forward.
    pub open spec fn follows(&self, earlier: DiscussionState) -> bool {
        &&& earlier.discussions@.len() <= self.discussions@.len()
        &&& earlier.comments@.len() <= self.comments@.len()
        &&& earlier.invites@.len() <= self.invites@.len()
        &&& earlier.discussion_comments@.len() <= self.discussion_comments@.len()
        &&& forall|i: int|
            0 <= i < earlier.discussion_comments@.len() ==> earlier.discussion_comments@[i]@.len()
                <= (#[trigger] self.discussion_comments@[i])@.len()
        &&& forall|i: int, k: int|
            0 <= i < earlier.discussion_comments@.len() && 0 <= k
                < earlier.discussion_comments@[i]@.len() ==> #[trigger] self.discussion_comments@[i]@[k]
                == earlier.discussion_comments@[i]@[k]
        &&& forall|i: int|
            0 <= i < earlier.discussions@.len() ==> discussion_follows(
                #[trigger] self.discussions@[i],
                earlier.discussions@[i],
            )
        &&& forall|i: int|
            0 <= i < earlier.comments@.len() ==> comment_follows(
                #[trigger] self.comments@[i],
                earlier.comments@[i],
            )
        &&& forall|i: int|
            0 <= i < earlier.invites@.len() ==> invite_follows(
                #[trigger] self.invites@[i],
                earlier.invites@[i],
            )
    }

    /// The invariant of the store.
    pub open spec fn wf(&self) -> bool {
        &&& self.discussion_comments@.len() == self.discussions@.len()
        &&& self.discussion_participants@.len() == self.discussions@.len()
        &&& self.next_discussion_id == self.discussions@.len() + 1
        &&& self.next_comment_id == self.comments@.len() + 1
        &&& forall|i: int|
            #![trigger self.discussions@[i]]
            0 <= i < self.discussions@.len() ==> {
                let d = self.discussions@[i];
                let ps = self.discussion_participants@[i]@;
                &&& d.id == i + 1
                &&& d.comment_count == self.discussion_comments@[i]@.len()
                &&& d.comment_count <= self.comments@.len()
                &&& d.participant_count == ps.len()
                &&& d.participant_count <= self.comments@.len() + 1
                &&& holds_principal(ps, d.proposer@)
                &&& distinct_principals(ps)
            }
        &&& forall|i: int|
            #![trigger self.comments@[i]]
            0 <= i < self.comments@.len() ==> {
                &&& self.comments@[i].id == i + 1
                &&& 1 <= self.comments@[i].discussion_id <= self.discussions@.len()
            }
        &&& forall|i: int, k: int|
            0 <= i < self.discussion_comments@.len() && 0 <= k
                < self.discussion_comments@[i]@.len() ==> {
                let cid = #[trigger] self.discussion_comments@[i]@[k];
                &&& 1 <= cid <= self.comments@.len()
                &&& self.comments@[cid - 1].discussion_id == i + 1
            }
        &&& forall|i: int, a: int, b: int|
            0 <= i < self.discussion_comments@.len() && 0 <= a < b
                < self.discussion_comments@[i]@.len() ==> #[trigger] self.discussion_comments@[i]@[a]
                < #[trigger] self.discussion_comments@[i]@[b]
        &&& forall|i: int|
            #![trigger self.invites@[i]]
            0 <= i < self.invites@.len() ==> 1 <= self.invites@[i].discussion_id
                <= self.discussions@.len()
        &&& forall|i: int, j: int|
            0 <= i < j < self.invites@.len() ==> !(#[trigger] self.invites@[i].discussion_id
                == #[trigger] self.invites@[j].discussion_id && self.invites@[i].invitee@
                == self.invites@[j].invitee@)
    }

    /// An empty store; the first discussion and the first comment get identifier 1.
    pub fn new() -> (r: DiscussionState)
        ensures
            r.wf(),
            r.discussions@.len() == 0,
            r.comments@.len() == 0,
            r.invites@.len() == 0,
    {
        DiscussionState {
            discussions: Vec::new(),
            comments: Vec::new(),
            discussion_comments: Vec::new(),
            invites: Vec::new(),
            discussion_participants: Vec::new(),
            next_discussion_id: 1,
            next_comment_id: 1,
        }
    }

    /// Takes the next discussion identifier.
    pub fn next_discussion_id(&mut self) -> (r: DiscussionId)
        requires
            old(self).next_discussion_id < u64::MAX,
        ensures
            r == old(self).next_discussion_id,
            *final(self) == (DiscussionState { next_discussion_id: (r + 1) as u64, ..*old(self) }),
    {
        let id = self.next_discussion_id;
        self.next_discussion_id = id + 1;
        id
    }

    /// Takes the next comment identifier.
    pub fn next_comment_id(&mut self) -> (r: CommentId)
        requires
            old(self).next_comment_id < u64::MAX,
        ensures
            r == old(self).next_comment_id,
            *final(self) == (DiscussionState { next_comment_id: (r + 1) as u64, ..*old(self) }),
    {
        let id = self.next_comment_id;
        self.next_comment_id = id + 1;
        id
    }

    /// Discussion `id`, if it exists.
    pub fn get_discussion(&self, id: DiscussionId) -> (r: Option<&Discussion>)
        requires
            self.wf(),
        ensures
            r is Some <==> self.has_discussion(id),
            r is Some ==> *r->0 == self.discussion(id),
    {
        if id >= 1 && id - 1 < self.discussions.len() as u64 {
            Some(&self.discussions[(id - 1) as usize])
        } else {
            None
        }
    }

    /// Comment `id`, if it exists.
    pub fn get_comment(&self, id: CommentId) -> (r: Option<&Comment>)
        requires
            self.wf(),
        ensures
            r is Some <==> self.has_comment(id),
            r is Some ==> *r->0 == self.comment(id),
    {
        if id >= 1 && id - 1 < self.comments.len() as u64 {
            Some(&self.comments[(id - 1) as usize])
        } else {
            None
        }
    }
}


/// Bounds of the page of `len` items that skips `offset` and holds at most `limit`.
pub open spec fn page_start(len: nat, offset: u64) -> int {
    if offset < len {
        offset as int
    } else {
        len as int
    }
}

/// End (exclusive) of the page of `len` items that skips `offset` and holds at most `limit`.
pub open spec fn page_end(len: nat, offset: u64, limit: u64) -> int {
    let start = page_start(len, offset);
    if start + limit < len {
        start + limit
    } else {
        len as int
    }
}

/// The start and end of a page over `len` items.
pub fn page_range(len: usize, offset: u64, limit: u64) -> (r: (usize, usize))
    ensures
        r.0 == page_start(len as nat, offset),
        r.1 == page_end(len as nat, offset, limit),
{
    let n = len as u64;
    let start: u64 = if offset < n {
        offset
    } else {
        n
    };
    let end: u64 = if limit < n - start {
        start + limit
    } else {
        n
    };
    (start as usize, end as usize)
}

/// Whether a listing with `filter` shows `d`.
pub fn filter_accepts(filter: &Option<DiscussionFilter>, d: &Discussion) -> (r: bool)
    ensures
        r == filter_matches(*filter, *d),
{
    match filter {
        None => !d.is_archived,
        Some(f) => {
            if let Some(stage) = f.stage {
                if stage != d.stage {
                    return false;
                }
            }
            if let Some(category) = f.category {
                if category != d.category {
                    return false;
                }
            }
            if let Some(proposer) = &f.proposer {
                if !proposer.same_as(&d.proposer) {
                    return false;
                }
            }
            let include_archived = match f.include_archived {
                Some(b) => b,
                None => false,
            };
            include_archived || !d.is_archived
        },
    }
}

impl DiscussionState {
    /// Index of the invitation for discussion `id` and invitee `p`, if there is one.
    pub fn find_invite(&self, id: DiscussionId, p: &Principal) -> (r: Option<usize>)
        ensures
            r is Some <==> self.has_invite(id, p@),
            r is Some ==> self.invite_is(r->0 as int, id, p@),
    {
        let mut i: usize = 0;
        while i < self.invites.len()
            invariant
                0 <= i <= self.invites@.len(),
                forall|j: int| 0 <= j < i ==> !self.invite_is(j, id, p@),
            decreases self.invites@.len() - i,
        {
            if self.invites[i].discussion_id == id && self.invites[i].invitee.same_as(p) {
                assert(self.invite_is(i as int, id, p@));
                return Some(i);
            }
            i = i + 1;
        }
        None
    }

    /// The invitation for discussion `id` and invitee `p`, if there is one.
    pub fn get_invite(&self, id: DiscussionId, p: &Principal) -> (r: Option<&ContributorInvite>)
        ensures
            r is Some <==> self.has_invite(id, p@),
            r is Some ==> exists|i: int| self.invite_is(i, id, p@) && *r->0 == self.invites@[i],
    {
        match self.find_invite(id, p) {
            Some(i) => Some(&self.invites[i]),
            None => None,
        }
    }

    /// Whether `p` is the proposer or a contributor of discussion `id`.
    pub fn is_proposer_or_contributor(&self, id: DiscussionId, p: &Principal) -> (r: bool)
        requires
            self.wf(),
        ensures
            r == self.is_member(id, p@),
    {
        match self.get_discussion(id) {
            Some(d) => d.proposer.same_as(p) || contains_principal(&d.contributors, p),
            None => false,
        }
    }

    /// Whether `p` may comment on discussion `id`.
    pub fn can_comment(&self, id: DiscussionId, p: &Principal) -> (r: bool)
        requires
            self.wf(),
        ensures
            r == self.may_comment(id, p@),
    {
        match self.get_discussion(id) {
            Some(d) => {
                if d.proposer.same_as(p) {
                    return true;
                }
                if contains_principal(&d.contributors, p) {
                    return true;
                }
                d.stage == DiscussionStage::Brainstorm
            },
            None => false,
        }
    }

    /// Number of human participants of discussion `id`; 0 if it does not exist.
    pub fn get_participant_count(&self, id: DiscussionId) -> (r: u64)
        requires
            self.wf(),
        ensures
            r == if self.has_discussion(id) {
                self.participants(id).len()
            } else {
                0
            },
    {
        match self.get_discussion(id) {
            Some(d) => {
                proof {
                    assert(self.discussions@[id - 1] == self.discussion(id));
                }
                d.participant_count
            },
            None => 0,
        }
    }

    /// Adds `p` to the participants of discussion `id` unless it is among them already,
    /// and keeps the discussion's participant count equal to their number.
    pub fn add_participant(&mut self, id: DiscussionId, p: Principal)
        requires
            old(self).wf(),
            old(self).has_discussion(id),
            old(self).discussion(id).participant_count <= old(self).comments@.len(),
        ensures
            final(self).wf(),
            holds_principal(old(self).participants(id), p@) ==> *final(self) == *old(self),
            !holds_principal(old(self).participants(id), p@) ==> {
                &&& final(self).discussion_participants@ == old(
                    self,
                ).discussion_participants@.update(
                    id - 1,
                    final(self).discussion_participants@[id - 1],
                )
                &&& final(self).participants(id).len() == old(self).participants(id).len() + 1
                &&& final(self).participants(id).drop_last() == old(self).participants(id)
                &&& final(self).participants(id).last()@ == p@
                &&& final(self).discussions@ == old(self).discussions@.update(
                    id - 1,
                    Discussion {
                        participant_count: (old(self).discussion(id).participant_count + 1) as u64,
                        ..old(self).discussion(id)
                    },
                )
                &&& final(self).comments == old(self).comments
                &&& final(self).discussion_comments == old(self).discussion_comments
                &&& final(self).invites == old(self).invites
                &&& final(self).next_discussion_id == old(self).next_discussion_id
                &&& final(self).next_comment_id == old(self).next_comment_id
            },
    {
        proof {
            lemma_vec_len_fits(&self.discussions);
        }
        let ix = (id - 1) as usize;
        if contains_principal(&self.discussion_participants[ix], &p) {
            return;
        }
        assert(self.discussions@[ix as int].participant_count <= self.comments@.len());
        let ghost old_ps = self.discussion_participants@[ix as int]@;
        let ghost pv = p@;
        self.discussion_participants[ix].push(p);
        proof {
            let ps = self.discussion_participants@[ix as int]@;
            assert(ps.drop_last() =~= old_ps);
            assert forall|a: int, b: int| 0 <= a < b < ps.len() implies #[trigger] ps[a]@
                != #[trigger] ps[b]@ by {
                if b == ps.len() - 1 {
                    assert(old_ps[a] == ps[a]);
                }
            }
            assert(holds_principal(ps, self.discussions@[ix as int].proposer@)) by {
                let w = choose|w: int|
                    0 <= w < old_ps.len() && #[trigger] old_ps[w]@
                        == self.discussions@[ix as int].proposer@;
                assert(ps[w] == old_ps[w]);
            }
        }
        let count = self.discussions[ix].participant_count;
        self.discussions[ix].participant_count = count + 1;
        proof {
            assert forall|i: int|
                #![trigger self.discussions@[i]]
                0 <= i < self.discussions@.len() implies self.discussions@[i].participant_count
                == self.discussion_participants@[i]@.len() by {}
        }
    }

    /// Number of substantive comments of discussion `id`; 0 if it does not exist.
    pub fn count_substantive_comments(&self, id: DiscussionId) -> (r: u64)
        requires
            self.wf(),
        ensures
            r == if self.has_discussion(id) {
                self.substantive_count(id)
            } else {
                0
            },
    {
        if id < 1 || id - 1 >= self.discussion_comments.len() as u64 {
            return 0;
        }
        let ids = &self.discussion_comments[(id - 1) as usize];
        proof {
            assert(self.discussions@[id - 1].comment_count == ids@.len());
        }
        let mut count: u64 = 0;
        let mut i: usize = 0;
        while i < ids.len()
            invariant
                self.wf(),
                self.has_discussion(id),
                ids@ == self.ledger(id),
                0 <= i <= ids@.len(),
                ids@.len() <= u64::MAX,
                count == self.substantive_in(ids@.subrange(0, i as int)),
                count <= i,
            decreases ids@.len() - i,
        {
            let cid = ids[i];
            proof {
                lemma_vec_len_fits(&self.comments);
                assert(1 <= cid <= self.comments@.len());
                assert(ids@.subrange(0, i + 1).drop_last() =~= ids@.subrange(0, i as int));
            }
            let c = &self.comments[(cid - 1) as usize];
            proof {
                assert(ids@.subrange(0, i + 1).last() == cid);
                assert(*c == self.comment(cid));
            }
            if !c.is_retracted && c.author_type.is_human() && c.content.as_str().unicode_len()
                >= SUBSTANTIVE_COMMENT_MIN_CHARS {
                count = count + 1;
            }
            i = i + 1;
        }
        proof {
            assert(ids@.subrange(0, ids@.len() as int) =~= ids@);
        }
        count
    }

    /// Copies of the comments of discussion `id` from position `offset` on, at most `limit` of
    /// them; none if the discussion does not exist.
    pub fn get_discussion_comments(&self, id: DiscussionId, offset: u64, limit: u64) -> (r: Vec<
        Comment,
    >)
        requires
            self.wf(),
        ensures
            !self.has_discussion(id) ==> r@.len() == 0,
            self.has_discussion(id) ==> same_comments(
                r@,
                self.ledger_comments(id).subrange(
                    page_start(self.ledger(id).len(), offset),
                    page_end(self.ledger(id).len(), offset, limit),
                ),
            ),
    {
        let mut r: Vec<Comment> = Vec::new();
        if id < 1 || id - 1 >= self.discussion_comments.len() as u64 {
            return r;
        }
        let ids = &self.discussion_comments[(id - 1) as usize];
        let (start, end) = page_range(ids.len(), offset, limit);
        let ghost all = self.ledger_comments(id);
        let mut i: usize = start;
        while i < end
            invariant
                self.wf(),
                self.has_discussion(id),
                ids@ == self.ledger(id),
                all == self.ledger_comments(id),
                start <= i <= end <= ids@.len(),
                r@.len() == i - start,
                forall|k: int| 0 <= k < r@.len() ==> (#[trigger] r@[k]).same_as(all[start + k]),
            decreases end - i,
        {
            let cid = ids[i];
            proof {
                lemma_vec_len_fits(&self.comments);
                assert(1 <= cid <= self.comments@.len());
            }
            let c = self.comments[(cid - 1) as usize].clone();
            let ghost old_r = r@;
            r.push(c);
            proof {
                assert(all[i as int] == self.comment(cid));
                assert forall|k: int| 0 <= k < r@.len() implies (#[trigger] r@[k]).same_as(
                    all[start + k],
                ) by {
                    if k < old_r.len() {
                        assert(r@[k] == old_r[k]);
                    }
                }
            }
            i = i + 1;
        }
        proof {
            assert forall|k: int| 0 <= k < r@.len() implies (#[trigger] r@[k]).same_as(
                all.subrange(start as int, end as int)[k],
            ) by {
                assert(all.subrange(start as int, end as int)[k] == all[start + k]);
            }
        }
        r
    }

    /// Copies of all comments of discussion `id`, retracted ones included, in order of
    /// addition; none if the discussion does not exist.
    pub fn get_all_discussion_comments(&self, id: DiscussionId) -> (r: Vec<Comment>)
        requires
            self.wf(),
        ensures
            !self.has_discussion(id) ==> r@.len() == 0,
            self.has_discussion(id) ==> same_comments(r@, self.ledger_comments(id)),
    {
        let r = self.get_discussion_comments(id, 0, u64::MAX);
        proof {
            if self.has_discussion(id) {
                assert(self.discussions@[id - 1].comment_count == self.ledger(id).len());
                assert(self.ledger_comments(id).subrange(0, self.ledger(id).len() as int)
                    =~= self.ledger_comments(id));
            }
        }
        r
    }

    /// Identifiers of the discussions that `user` proposed, in order of creation.
    pub fn get_user_discussions(&self, user: &Principal) -> (r: Vec<DiscussionId>)
        ensures
            r@ == proposed_by(self.discussions@, user@),
    {
        let mut r: Vec<DiscussionId> = Vec::new();
        let mut i: usize = 0;
        while i < self.discussions.len()
            invariant
                0 <= i <= self.discussions@.len(),
                r@ == proposed_by(self.discussions@.subrange(0, i as int), user@),
            decreases self.discussions@.len() - i,
        {
            proof {
                let pre = self.discussions@.subrange(0, i + 1);
                assert(pre.drop_last() =~= self.discussions@.subrange(0, i as int));
                assert(pre.last() == self.discussions@[i as int]);
            }
            if self.discussions[i].proposer.same_as(user) {
                r.push(self.discussions[i].id);
            }
            i = i + 1;
        }
        proof {
            assert(self.discussions@.subrange(0, self.discussions@.len() as int)
                =~= self.discussions@);
        }
        r
    }

    /// Copies of the discussions that a listing with `filter` shows, in order of identifier.
    pub fn list_discussions(&self, filter: Option<DiscussionFilter>) -> (r: Vec<Discussion>)
        ensures
            same_discussions(r@, matching(self.discussions@, filter)),
    {
        let mut r: Vec<Discussion> = Vec::new();
        let mut i: usize = 0;
        while i < self.discussions.len()
            invariant
                0 <= i <= self.discussions@.len(),
                same_discussions(r@, matching(self.discussions@.subrange(0, i as int), filter)),
            decreases self.discussions@.len() - i,
        {
            proof {
                let pre = self.discussions@.subrange(0, i + 1);
                assert(pre.drop_last() =~= self.discussions@.subrange(0, i as int));
                assert(pre.last() == self.discussions@[i as int]);
            }
            if filter_accepts(&filter, &self.discussions[i]) {
                r.push(self.discussions[i].clone());
            }
            i = i + 1;
        }
        proof {
            assert(self.discussions@.subrange(0, self.discussions@.len() as int)
                =~= self.discussions@);
        }
        r
    }
}

} // verus!
