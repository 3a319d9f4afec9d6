//! Snapshots of the whole store, for keeping it across restarts, and the check that a
//! snapshot read back is a well-formed store.

use vstd::prelude::*;

use crate::principal::{contains_principal, Principal};

use super::state::{distinct_principals, same_comments, same_discussions, DiscussionState};
use super::types::{
    clone_principals, same_principals, CommentId, Comment, ContributorInvite, Discussion,
    DiscussionId,
};

verus! {

/// Every table of the store, verbatim and in order.
#[derive(Debug)]
pub struct StableDiscussionState {
    pub discussions: Vec<Discussion>,
    pub comments: Vec<Comment>,
    pub discussion_comments: Vec<Vec<CommentId>>,
    pub invites: Vec<ContributorInvite>,
    pub discussion_participants: Vec<Vec<Principal>>,
    pub next_discussion_id: DiscussionId,
    pub next_comment_id: CommentId,
}

impl StableDiscussionState {
    /// The store that the snapshot describes.
    pub open spec fn as_state(self) -> DiscussionState {
        DiscussionState {
            discussions: self.discussions,
            comments: self.comments,
            discussion_comments: self.discussion_comments,
            invites: self.invites,
            discussion_participants: self.discussion_participants,
            next_discussion_id: self.next_discussion_id,
            next_comment_id: self.next_comment_id,
        }
    }
}

/// `a` and `b` hold the same lists of identities, in the same order.
pub open spec fn same_principal_lists(a: Seq<Vec<Principal>>, b: Seq<Vec<Principal>>) -> bool {
    &&& a.len() == b.len()
    &&& forall|i: int| 0 <= i < a.len() ==> same_principals(#[trigger] a[i]@, b[i]@)
}

/// `a` and `b` hold the same lists of comment identifiers, in the same order.
pub open spec fn same_ledgers(a: Seq<Vec<CommentId>>, b: Seq<Vec<CommentId>>) -> bool {
    &&& a.len() == b.len()
    &&& forall|i: int| 0 <= i < a.len() ==> (#[trigger] a[i])@ == b[i]@
}

/// `a` holds copies of the invitations of `b`, in the same order.
pub open spec fn same_invites(a: Seq<ContributorInvite>, b: Seq<ContributorInvite>) -> bool {
    &&& a.len() == b.len()
    &&& forall|i: int| 0 <= i < a.len() ==> (#[trigger] a[i]).same_as(b[i])
}

/// `a` holds a copy of every table of `b`.
pub open spec fn same_store(a: DiscussionState, b: DiscussionState) -> bool {
    &&& same_discussions(a.discussions@, b.discussions@)
    &&& same_comments(a.comments@, b.comments@)
    &&& same_ledgers(a.discussion_comments@, b.discussion_comments@)
    &&& same_invites(a.invites@, b.invites@)
    &&& same_principal_lists(a.discussion_participants@, b.discussion_participants@)
    &&& a.next_discussion_id == b.next_discussion_id
    &&& a.next_comment_id == b.next_comment_id
}

/// Whether no two entries of `list` name the same identity.
pub fn all_distinct(list: &Vec<Principal>) -> (r: bool)
    ensures
        r == distinct_principals(list@),
{
    let n = list.len();
    let mut j: usize = 0;
    while j < n
        invariant
            n == list@.len(),
            0 <= j <= n,
            forall|a: int, b: int| 0 <= a < b < j ==> #[trigger] list@[a]@ != #[trigger] list@[b]@,
        decreases n - j,
    {
        let mut i: usize = 0;
        while i < j
            invariant
                n == list@.len(),
                0 <= i <= j < n,
                forall|a: int, b: int| 0 <= a < b < j ==> #[trigger] list@[a]@ != #[trigger] list@[b]@,
                forall|a: int| 0 <= a < i ==> #[trigger] list@[a]@ != list@[j as int]@,
            decreases j - i,
        {
            if list[i].same_as(&list[j]) {
                return false;
            }
            i = i + 1;
        }
        j = j + 1;
    }
    true
}

/// Copies of lists of identities.
fn clone_principal_lists(v: &Vec<Vec<Principal>>) -> (r: Vec<Vec<Principal>>)
    ensures
        same_principal_lists(r@, v@),
{
    let mut r: Vec<Vec<Principal>> = Vec::new();
    let mut i: usize = 0;
    while i < v.len()
        invariant
            0 <= i <= v@.len(),
            r@.len() == i,
            forall|k: int| 0 <= k < i ==> same_principals(#[trigger] r@[k]@, v@[k]@),
        decreases v@.len() - i,
    {
        r.push(clone_principals(&v[i]));
        i = i + 1;
    }
    r
}

/// Copies of lists of comment identifiers.
fn clone_ledgers(v: &Vec<Vec<CommentId>>) -> (r: Vec<Vec<CommentId>>)
    ensures
        same_ledgers(r@, v@),
{
    let mut r: Vec<Vec<CommentId>> = Vec::new();
    let mut i: usize = 0;
    while i < v.len()
        invariant
            0 <= i <= v@.len(),
            r@.len() == i,
            forall|k: int| 0 <= k < i ==> (#[trigger] r@[k])@ == v@[k]@,
        decreases v@.len() - i,
    {
        let mut ids: Vec<CommentId> = Vec::new();
        let mut j: usize = 0;
        while j < v[i].len()
            invariant
                0 <= i < v@.len(),
                0 <= j <= v@[i as int]@.len(),
                ids@ == v@[i as int]@.subrange(0, j as int),
            decreases v@[i as int]@.len() - j,
        {
            ids.push(v[i][j]);
            proof {
                assert(v@[i as int]@.subrange(0, j + 1) =~= v@[i as int]@.subrange(0, j as int).push(
                    v@[i as int]@[j as int],
                ));
            }
            j = j + 1;
        }
        proof {
            assert(v@[i as int]@.subrange(0, v@[i as int]@.len() as int) =~= v@[i as int]@);
        }
        r.push(ids);
        i = i + 1;
    }
    r
}

impl DiscussionState {
    /// Whether the store satisfies its invariant.
    pub fn is_well_formed(&self) -> (r: bool)
        ensures
            r == self.wf(),
    {
        let n = self.discussions.len();
        if self.discussion_comments.len() != n || self.discussion_participants.len() != n {
            return false;
        }
        let m = self.comments.len();
        if !(self.next_discussion_id >= 1 && self.next_discussion_id - 1 == n as u64) {
            return false;
        }
        if !(self.next_comment_id >= 1 && self.next_comment_id - 1 == m as u64) {
            return false;
        }
        let mut i: usize = 0;
        while i < n
            invariant
                n == self.discussions@.len(),
                m == self.comments@.len(),
                self.discussion_comments@.len() == n,
                self.discussion_participants@.len() == n,
                self.next_comment_id == m + 1,
                0 <= i <= n,
                forall|k: int|
                    #![trigger self.discussions@[k]]
                    0 <= k < i ==> {
                        let d = self.discussions@[k];
                        let ps = self.discussion_participants@[k]@;
                        &&& d.id == k + 1
                        &&& d.comment_count == self.discussion_comments@[k]@.len()
                        &&& d.comment_count <= self.comments@.len()
                        &&& d.participant_count == ps.len()
                        &&& d.participant_count <= self.comments@.len() + 1
                        &&& crate::principal::holds_principal(ps, d.proposer@)
                        &&& distinct_principals(ps)
                    },
            decreases n - i,
        {
            let d = &self.discussions[i];
            let ps = &self.discussion_participants[i];
            let ok = d.id == (i + 1) as u64 && d.comment_count
                == self.discussion_comments[i].len() as u64 && d.comment_count <= m as u64
                && d.participant_count == ps.len() as u64 && d.participant_count <= m as u64 + 1
                && contains_principal(ps, &d.proposer) && all_distinct(ps);
            if !ok {
                return false;
            }
            i = i + 1;
        }
        let mut i: usize = 0;
        while i < m
            invariant
                n == self.discussions@.len(),
                m == self.comments@.len(),
                self.next_comment_id == m + 1,
                0 <= i <= m,
                forall|k: int|
                    #![trigger self.comments@[k]]
                    0 <= k < i ==> {
                        &&& self.comments@[k].id == k + 1
                        &&& 1 <= self.comments@[k].discussion_id <= n
                    },
            decreases m - i,
        {
            let c = &self.comments[i];
            if !(c.id == (i + 1) as u64 && c.discussion_id >= 1 && c.discussion_id <= n as u64) {
                return false;
            }
            i = i + 1;
        }
        let mut i: usize = 0;
        while i < n
            invariant
                n == self.discussions@.len(),
                m == self.comments@.len(),
                self.discussion_comments@.len() == n,
                self.next_comment_id == m + 1,
                0 <= i <= n,
                forall|a: int, k: int|
                    0 <= a < i && 0 <= k < self.discussion_comments@[a]@.len() ==> {
                        let cid = #[trigger] self.discussion_comments@[a]@[k];
                        &&& 1 <= cid <= m
                        &&& self.comments@[cid - 1].discussion_id == a + 1
                    },
                forall|x: int, a: int, b: int|
                    0 <= x < i && 0 <= a < b < self.discussion_comments@[x]@.len()
                        ==> #[trigger] self.discussion_comments@[x]@[a]
                        < #[trigger] self.discussion_comments@[x]@[b],
            decreases n - i,
        {
            let ids = &self.discussion_comments[i];
            let mut k: usize = 0;
            while k < ids.len()
                invariant
                    n == self.discussions@.len(),
                    m == self.comments@.len(),
                    self.discussion_comments@.len() == n,
                    0 <= i < n,
                    ids@ == self.discussion_comments@[i as int]@,
                    0 <= k <= ids@.len(),
                    forall|b: int|
                        0 <= b < k ==> {
                            let cid = #[trigger] ids@[b];
                            &&& 1 <= cid <= m
                            &&& self.comments@[cid - 1].discussion_id == i + 1
                        },
                    forall|a: int, b: int| 0 <= a < b < k ==> #[trigger] ids@[a] < #[trigger] ids@[b],
                decreases ids@.len() - k,
            {
                let cid = ids[k];
                if k > 0 && ids[k - 1] >= cid {
                    return false;
                }
                if cid < 1 || cid > m as u64 {
                    return false;
                }
                if self.comments[(cid - 1) as usize].discussion_id != (i + 1) as u64 {
                    return false;
                }
                k = k + 1;
            }
            proof {
                assert forall|a: int, b: int|
                    0 <= a < i + 1 && 0 <= b < self.discussion_comments@[a]@.len() implies {
                        let cid = #[trigger] self.discussion_comments@[a]@[b];
                        &&& 1 <= cid <= m
                        &&& self.comments@[cid - 1].discussion_id == a + 1
                    } by {
                    if a == i {
                        assert(ids@[b] == self.discussion_comments@[a]@[b]);
                    }
                }
                assert forall|x: int, a: int, b: int|
                    0 <= x < i + 1 && 0 <= a < b < self.discussion_comments@[x]@.len()
                        implies #[trigger] self.discussion_comments@[x]@[a]
                        < #[trigger] self.discussion_comments@[x]@[b] by {
                    if x == i {
                        assert(ids@[a] < ids@[b]);
                    }
                }
            }
            i = i + 1;
        }
        let v = self.invites.len();
        let mut j: usize = 0;
        while j < v
            invariant
                n == self.discussions@.len(),
                v == self.invites@.len(),
                0 <= j <= v,
                forall|k: int|
                    #![trigger self.invites@[k]]
                    0 <= k < j ==> 1 <= self.invites@[k].discussion_id <= n,
                forall|a: int, b: int|
                    0 <= a < b < j ==> !(#[trigger] self.invites@[a].discussion_id
                        == #[trigger] self.invites@[b].discussion_id && self.invites@[a].invitee@
                        == self.invites@[b].invitee@),
            decreases v - j,
        {
            let inv = &self.invites[j];
            if !(inv.discussion_id >= 1 && inv.discussion_id <= n as u64) {
                return false;
            }
            let mut a: usize = 0;
            while a < j
                invariant
                    v == self.invites@.len(),
                    0 <= a <= j < v,
                    *inv == self.invites@[j as int],
                    forall|x: int|
                        0 <= x < a ==> !(#[trigger] self.invites@[x].discussion_id
                            == inv.discussion_id && self.invites@[x].invitee@ == inv.invitee@),
                decreases j - a,
            {
                if self.invites[a].discussion_id == inv.discussion_id && self.invites[a].invitee.same_as(
                    &inv.invitee,
                ) {
                    return false;
                }
                a = a + 1;
            }
            j = j + 1;
        }
        true
    }
}


/// Copies of discussions.
fn clone_discussions(v: &Vec<Discussion>) -> (r: Vec<Discussion>)
    ensures
        same_discussions(r@, v@),
{
    let mut r: Vec<Discussion> = Vec::new();
    let mut i: usize = 0;
    while i < v.len()
        invariant
            0 <= i <= v@.len(),
            r@.len() == i,
            forall|k: int| 0 <= k < i ==> (#[trigger] r@[k]).same_as(v@[k]),
        decreases v@.len() - i,
    {
        r.push(v[i].clone());
        i = i + 1;
    }
    r
}

/// Copies of comments.
fn clone_comments(v: &Vec<Comment>) -> (r: Vec<Comment>)
    ensures
        same_comments(r@, v@),
{
    let mut r: Vec<Comment> = Vec::new();
    let mut i: usize = 0;
    while i < v.len()
        invariant
            0 <= i <= v@.len(),
            r@.len() == i,
            forall|k: int| 0 <= k < i ==> (#[trigger] r@[k]).same_as(v@[k]),
        decreases v@.len() - i,
    {
        r.push(v[i].clone());
        i = i + 1;
    }
    r
}

/// Copies of invitations.
fn clone_invites(v: &Vec<ContributorInvite>) -> (r: Vec<ContributorInvite>)
    ensures
        same_invites(r@, v@),
{
    let mut r: Vec<ContributorInvite> = Vec::new();
    let mut i: usize = 0;
    while i < v.len()
        invariant
            0 <= i <= v@.len(),
            r@.len() == i,
            forall|k: int| 0 <= k < i ==> (#[trigger] r@[k]).same_as(v@[k]),
        decreases v@.len() - i,
    {
        r.push(v[i].clone());
        i = i + 1;
    }
    r
}

impl DiscussionState {
    /// A snapshot of every table, in order.
    pub fn export(&self) -> (r: StableDiscussionState)
        ensures
            same_store(r.as_state(), *self),
    {
        StableDiscussionState {
            discussions: clone_discussions(&self.discussions),
            comments: clone_comments(&self.comments),
            discussion_comments: clone_ledgers(&self.discussion_comments),
            invites: clone_invites(&self.invites),
            discussion_participants: clone_principal_lists(&self.discussion_participants),
            next_discussion_id: self.next_discussion_id,
            next_comment_id: self.next_comment_id,
        }
    }

    /// The store that a snapshot describes, if the snapshot is a well-formed store.
    pub fn import(snapshot: StableDiscussionState) -> (r: Option<DiscussionState>)
        ensures
            r is Some <==> snapshot.as_state().wf(),
            r is Some ==> r->0 == snapshot.as_state(),
    {
        let state = DiscussionState {
            discussions: snapshot.discussions,
            comments: snapshot.comments,
            discussion_comments: snapshot.discussion_comments,
            invites: snapshot.invites,
            discussion_participants: snapshot.discussion_participants,
            next_discussion_id: snapshot.next_discussion_id,
            next_comment_id: snapshot.next_comment_id,
        };
        if state.is_well_formed() {
            Some(state)
        } else {
            None
        }
    }
}

/// A copy of a well-formed store is well formed. So every snapshot that `export` takes
/// of a well-formed store is accepted by `import`, which gives back a copy of the store.
pub proof fn lemma_snapshot_round_trip(s: DiscussionState, snapshot: StableDiscussionState)
    requires
        s.wf(),
        same_store(snapshot.as_state(), s),
    ensures
        snapshot.as_state().wf(),
{
    let t = snapshot.as_state();
    assert forall|i: int|
        #![trigger t.discussions@[i]]
        0 <= i < t.discussions@.len() implies {
            let d = t.discussions@[i];
            let ps = t.discussion_participants@[i]@;
            &&& d.id == i + 1
            &&& d.comment_count == t.discussion_comments@[i]@.len()
            &&& d.comment_count <= t.comments@.len()
            &&& d.participant_count == ps.len()
            &&& d.participant_count <= t.comments@.len() + 1
            &&& crate::principal::holds_principal(ps, d.proposer@)
            &&& distinct_principals(ps)
        } by {
        let d0 = s.discussions@[i];
        let ps0 = s.discussion_participants@[i]@;
        let ps = t.discussion_participants@[i]@;
        assert(t.discussions@[i].same_as(d0));
        assert(same_principals(ps, ps0));
        assert(t.discussion_comments@[i]@ == s.discussion_comments@[i]@);
        let w = choose|w: int| 0 <= w < ps0.len() && #[trigger] ps0[w]@ == d0.proposer@;
        assert(ps[w]@ == ps0[w]@);
        assert forall|a: int, b: int| 0 <= a < b < ps.len() implies #[trigger] ps[a]@
            != #[trigger] ps[b]@ by {
            assert(ps[a]@ == ps0[a]@);
            assert(ps[b]@ == ps0[b]@);
        }
    }
    assert forall|i: int|
        #![trigger t.comments@[i]]
        0 <= i < t.comments@.len() implies {
            &&& t.comments@[i].id == i + 1
            &&& 1 <= t.comments@[i].discussion_id <= t.discussions@.len()
        } by {
        assert(t.comments@[i].same_as(s.comments@[i]));
    }
    assert forall|i: int, k: int|
        0 <= i < t.discussion_comments@.len() && 0 <= k < t.discussion_comments@[i]@.len() implies {
            let cid = #[trigger] t.discussion_comments@[i]@[k];
            &&& 1 <= cid <= t.comments@.len()
            &&& t.comments@[cid - 1].discussion_id == i + 1
        } by {
        assert(t.discussion_comments@[i]@ == s.discussion_comments@[i]@);
        let cid = s.discussion_comments@[i]@[k];
        assert(t.comments@[cid - 1].same_as(s.comments@[cid - 1]));
    }
    assert forall|i: int|
        #![trigger t.invites@[i]]
        0 <= i < t.invites@.len() implies 1 <= t.invites@[i].discussion_id
            <= t.discussions@.len() by {
        assert(t.invites@[i].same_as(s.invites@[i]));
    }
    assert forall|i: int, j: int|
        0 <= i < j < t.invites@.len() implies !(#[trigger] t.invites@[i].discussion_id
            == #[trigger] t.invites@[j].discussion_id && t.invites@[i].invitee@
            == t.invites@[j].invitee@) by {
        assert(t.invites@[i].same_as(s.invites@[i]));
        assert(t.invites@[j].same_as(s.invites@[j]));
    }
}

} // verus!
