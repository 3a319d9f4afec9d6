//! Data model of discussions, comments and invitations.

use vstd::prelude::*;

use crate::principal::Principal;

verus! {

/// Identifier of a discussion; the first one is 1.
pub type DiscussionId = u64;

/// Identifier of a comment; the first one is 1.
pub type CommentId = u64;

/// Governance categories that a discussion may belong to.
#[derive(Clone, Copy, Debug, PartialEq, Eq, Hash, Structural)]
pub enum ProposalCategory {
    /// Constitutional changes (bylaws, membership rules).
    Constitutional,
    /// Day-to-day management.
    Operational,
    /// Spending and allocations.
    Treasury,
    /// Features and infrastructure.
    SoftwareDevelopment,
}

/// Stages of a discussion, in the only order in which they are entered.
#[derive(Clone, Copy, Debug, PartialEq, Eq, Structural)]
pub enum DiscussionStage {
    /// Initial ideation; scope can change freely.
    Brainstorm,
    /// Scope locked; arguments and details are refined.
    Refining,
    /// Quality gates met; ready for extraction to a proposal.
    Ready,
}

impl Default for DiscussionStage {
    fn default() -> (r: Self)
        ensures
            r == DiscussionStage::Brainstorm,
    {
        DiscussionStage::Brainstorm
    }
}

/// Who wrote a comment: a person or an automated agent.
#[derive(Debug)]
pub enum AuthorType {
    /// A human member.
    Human,
    /// An automated agent, with the identifier of the agent.
    Agent { agent_id: String },
}

impl AuthorType {
    /// Whether the author is a person.
    pub fn is_human(&self) -> (r: bool)
        ensures
            r == (*self is Human),
    {
        match self {
            AuthorType::Human => true,
            AuthorType::Agent { .. } => false,
        }
    }
}

impl Clone for AuthorType {
    fn clone(&self) -> (r: Self)
        ensures
            r == *self,
    {
        match self {
            AuthorType::Human => AuthorType::Human,
            AuthorType::Agent { agent_id } => AuthorType::Agent { agent_id: agent_id.clone() },
        }
    }
}

impl PartialEq for AuthorType {
    fn eq(&self, other: &AuthorType) -> (r: bool) {
        match self {
            AuthorType::Human => match other {
                AuthorType::Human => true,
                AuthorType::Agent { .. } => false,
            },
            AuthorType::Agent { agent_id: a } => match other {
                AuthorType::Human => false,
                AuthorType::Agent { agent_id: b } => a.eq(b),
            },
        }
    }
}

impl vstd::std_specs::cmp::PartialEqSpecImpl for AuthorType {
    open spec fn obeys_eq_spec() -> bool {
        true
    }

    open spec fn eq_spec(&self, other: &AuthorType) -> bool {
        match *self {
            AuthorType::Human => *other is Human,
            AuthorType::Agent { agent_id: a } => match *other {
                AuthorType::Human => false,
                AuthorType::Agent { agent_id: b } => a@ == b@,
            },
        }
    }
}

impl Eq for AuthorType {
}

impl Default for AuthorType {
    fn default() -> (r: Self)
        ensures
            r is Human,
    {
        AuthorType::Human
    }
}

/// Status of a contributor invitation.
#[derive(Clone, Copy, Debug, PartialEq, Eq, Structural)]
pub enum InviteStatus {
    /// Sent, awaiting a response.
    Pending,
    /// Accepted by the invitee.
    Accepted,
    /// Declined by the invitee.
    Declined,
}

impl Default for InviteStatus {
    fn default() -> (r: Self)
        ensures
            r == InviteStatus::Pending,
    {
        InviteStatus::Pending
    }
}

/// A discussion thread.
#[derive(Debug)]
pub struct Discussion {
    pub id: DiscussionId,
    /// 1 to 200 characters.
    pub title: String,
    /// At most 50 KiB.
    pub description: String,
    pub category: ProposalCategory,
    /// The creator, who alone may archive the discussion.
    pub proposer: Principal,
    /// Identities that accepted an invitation, in order of acceptance.
    pub contributors: Vec<Principal>,
    pub stage: DiscussionStage,
    /// Creation time in nanoseconds.
    pub created_at: u64,
    /// Time at which the current stage was entered, in nanoseconds.
    pub stage_changed_at: u64,
    /// Comments ever added, retracted and agent comments included.
    pub comment_count: u64,
    /// Distinct human participants, the proposer included.
    pub participant_count: u64,
    /// Soft deletion; once set it stays set.
    pub is_archived: bool,
}

/// Two lists of identities that name the same identities in the same order.
pub open spec fn same_principals(a: Seq<Principal>, b: Seq<Principal>) -> bool {
    &&& a.len() == b.len()
    &&& forall|i: int| 0 <= i < a.len() ==> #[trigger] a[i]@ == b[i]@
}

/// Copies of copies name the same identities.
pub proof fn lemma_same_principals_transitive(a: Seq<Principal>, b: Seq<Principal>, c: Seq<Principal>)
    requires
        same_principals(a, b),
        same_principals(b, c),
    ensures
        same_principals(a, c),
{
    assert forall|i: int| 0 <= i < a.len() implies #[trigger] a[i]@ == c[i]@ by {
        assert(a[i]@ == b[i]@);
        assert(b[i]@ == c[i]@);
    }
}

impl Discussion {
    /// `other` holds the same values as `self`, identities compared by their bytes.
    pub open spec fn same_as(&self, other: Discussion) -> bool {
        &&& self.id == other.id
        &&& self.title == other.title
        &&& self.description == other.description
        &&& self.category == other.category
        &&& self.proposer@ == other.proposer@
        &&& same_principals(self.contributors@, other.contributors@)
        &&& self.stage == other.stage
        &&& self.created_at == other.created_at
        &&& self.stage_changed_at == other.stage_changed_at
        &&& self.comment_count == other.comment_count
        &&& self.participant_count == other.participant_count
        &&& self.is_archived == other.is_archived
    }
}

/// Copies a list of identities.
pub fn clone_principals(v: &Vec<Principal>) -> (r: Vec<Principal>)
    ensures
        same_principals(r@, v@),
{
    let mut r: Vec<Principal> = Vec::new();
    let mut i: usize = 0;
    while i < v.len()
        invariant
            0 <= i <= v@.len(),
            same_principals(r@, v@.subrange(0, i as int)),
        decreases v@.len() - i,
    {
        r.push(v[i].clone());
        i = i + 1;
    }
    assert(v@.subrange(0, v@.len() as int) =~= v@);
    r
}

impl Clone for Discussion {
    fn clone(&self) -> (r: Self)
        ensures
            r.same_as(*self),
    {
        Discussion {
            id: self.id,
            title: self.title.clone(),
            description: self.description.clone(),
            category: self.category,
            proposer: self.proposer.clone(),
            contributors: clone_principals(&self.contributors),
            stage: self.stage,
            created_at: self.created_at,
            stage_changed_at: self.stage_changed_at,
            comment_count: self.comment_count,
            participant_count: self.participant_count,
            is_archived: self.is_archived,
        }
    }
}

/// A comment in a discussion's ledger.
#[derive(Debug)]
pub struct Comment {
    pub id: CommentId,
    pub discussion_id: DiscussionId,
    pub author: Principal,
    /// Non-empty, at most 10 KiB; never changed after creation.
    pub content: String,
    pub author_type: AuthorType,
    /// Creation time in nanoseconds; never changed.
    pub created_at: u64,
    /// Retraction marks a comment; it never removes it.
    pub is_retracted: bool,
    /// Set once, when the comment is retracted.
    pub retracted_at: Option<u64>,
}

impl Comment {
    /// `other` holds the same values as `self`, the author compared by its bytes.
    pub open spec fn same_as(&self, other: Comment) -> bool {
        &&& self.id == other.id
        &&& self.discussion_id == other.discussion_id
        &&& self.author@ == other.author@
        &&& self.content == other.content
        &&& self.author_type == other.author_type
        &&& self.created_at == other.created_at
        &&& self.is_retracted == other.is_retracted
        &&& self.retracted_at == other.retracted_at
    }
}

impl Clone for Comment {
    fn clone(&self) -> (r: Self)
        ensures
            r.same_as(*self),
    {
        Comment {
            id: self.id,
            discussion_id: self.discussion_id,
            author: self.author.clone(),
            content: self.content.clone(),
            author_type: self.author_type.clone(),
            created_at: self.created_at,
            is_retracted: self.is_retracted,
            retracted_at: self.retracted_at,
        }
    }
}

/// An invitation to contribute, keyed by discussion and invitee.
#[derive(Debug)]
pub struct ContributorInvite {
    pub discussion_id: DiscussionId,
    pub invitee: Principal,
    pub invited_by: Principal,
    /// Time of the invitation in nanoseconds.
    pub invited_at: u64,
    pub status: InviteStatus,
}

impl ContributorInvite {
    /// `other` holds the same values as `self`, identities compared by their bytes.
    pub open spec fn same_as(&self, other: ContributorInvite) -> bool {
        &&& self.discussion_id == other.discussion_id
        &&& self.invitee@ == other.invitee@
        &&& self.invited_by@ == other.invited_by@
        &&& self.invited_at == other.invited_at
        &&& self.status == other.status
    }
}

impl Clone for ContributorInvite {
    fn clone(&self) -> (r: Self)
        ensures
            r.same_as(*self),
    {
        ContributorInvite {
            discussion_id: self.discussion_id,
            invitee: self.invitee.clone(),
            invited_by: self.invited_by.clone(),
            invited_at: self.invited_at,
            status: self.status,
        }
    }
}

/// The three readiness criteria of a discussion, with the values behind them.
#[derive(Clone, Copy, Debug, PartialEq, Eq, Structural)]
pub struct QualityGateStatus {
    /// At least `MIN_PARTICIPANTS` human participants.
    pub participants_met: bool,
    pub participants_count: u64,
    /// At least `MIN_SUBSTANTIVE_COMMENTS` substantive comments.
    pub comments_met: bool,
    pub substantive_comments: u64,
    /// At least 48 hours spent in the Refining stage.
    pub duration_met: bool,
    /// Whole hours spent in the Refining stage.
    pub hours_in_refining: u64,
    /// All three criteria hold.
    pub all_met: bool,
}

/// Arguments for creating a discussion.
#[derive(Debug)]
pub struct CreateDiscussionArgs {
    pub title: String,
    pub description: String,
    pub category: ProposalCategory,
}

/// Arguments for adding a comment.
#[derive(Debug)]
pub struct AddCommentArgs {
    pub discussion_id: DiscussionId,
    pub content: String,
    pub author_type: AuthorType,
}

/// Filter for listing discussions; an absent field does not filter.
#[derive(Debug)]
pub struct DiscussionFilter {
    pub stage: Option<DiscussionStage>,
    pub category: Option<ProposalCategory>,
    pub proposer: Option<Principal>,
    /// Archived discussions are left out unless this is `Some(true)`.
    pub include_archived: Option<bool>,
}

impl Default for DiscussionFilter {
    fn default() -> (r: Self)
        ensures
            r.stage is None,
            r.category is None,
            r.proposer is None,
            r.include_archived is None,
    {
        DiscussionFilter { stage: None, category: None, proposer: None, include_archived: None }
    }
}

/// Pagination of a discussion listing.
#[derive(Clone, Copy, Debug, PartialEq, Eq, Structural)]
pub struct DiscussionPaginationParams {
    /// Number of items to skip; 0 when absent.
    pub offset: Option<u64>,
    /// Largest number of items to return; `DEFAULT_PAGE_LIMIT` when absent.
    pub limit: Option<u64>,
}

impl Default for DiscussionPaginationParams {
    fn default() -> (r: Self)
        ensures
            r.offset is None,
            r.limit is None,
    {
        DiscussionPaginationParams { offset: None, limit: None }
    }
}

/// One page of a discussion listing.
#[derive(Debug)]
pub struct PaginatedDiscussionResponse {
    pub items: Vec<Discussion>,
    /// Number of discussions that matched the filter.
    pub total: u64,
    pub offset: u64,
    pub limit: u64,
}

/// Unique human participants needed for the Ready stage.
pub const MIN_PARTICIPANTS: u64 = 3;

/// Substantive comments needed for the Ready stage.
pub const MIN_SUBSTANTIVE_COMMENTS: u64 = 5;

/// Nanoseconds in an hour.
pub const NS_PER_HOUR: u64 = 3_600_000_000_000;

/// Time to spend in the Refining stage before Ready: 48 hours, in nanoseconds.
pub const MIN_REFINING_DURATION_NS: u64 = 172_800_000_000_000;

/// Whole hours reported for the Refining stage once a discussion is Ready.
pub const MIN_REFINING_HOURS: u64 = 48;

/// Characters that make a comment substantive.
pub const SUBSTANTIVE_COMMENT_MIN_CHARS: usize = 50;

/// Largest title, in characters.
pub const MAX_TITLE_LEN: usize = 200;

/// Largest comment, in bytes (10 KiB).
pub const MAX_COMMENT_LEN: usize = 10240;

/// Largest description, in bytes (50 KiB).
pub const MAX_DESCRIPTION_LEN: usize = 51200;

/// Page size of a listing whose pagination gives no limit.
pub const DEFAULT_PAGE_LIMIT: u64 = 50;

} // verus!
