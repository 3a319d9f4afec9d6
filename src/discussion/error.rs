//! Errors of discussion operations.

use vstd::prelude::*;

use super::types::QualityGateStatus;

verus! {

/// The classes into which every error of a discussion operation falls.
#[derive(Clone, Copy, Debug, PartialEq, Eq, Structural)]
pub enum ErrorKind {
    /// The discussion, comment or invitation does not exist.
    NotFound,
    /// The caller lacks the relationship to the resource that the operation needs.
    Unauthorized,
    /// The resource is in a state that does not allow the operation.
    InvalidState,
    /// An input is empty, too long or refers to the wrong identity.
    ValidationError,
    /// A quality gate of the Refining to Ready transition is not met.
    QualityGateNotMet,
}

/// Why a discussion operation failed. A failed operation changes nothing.
#[derive(Clone, Copy, Debug, PartialEq, Eq, Structural)]
pub enum DiscussionError {
    DiscussionNotFound,
    CommentNotFound,
    InviteNotFound,
    /// Only the proposer may archive.
    NotProposer,
    /// Only the proposer or a contributor may advance the stage or invite.
    NotProposerOrContributor,
    /// Outside Brainstorm only the proposer and contributors may comment.
    CommentNotAllowed,
    /// Only its author may retract a comment.
    NotAuthor,
    Archived,
    AlreadyArchived,
    AlreadyRetracted,
    AlreadyResponded,
    /// Ready is terminal.
    StageIsTerminal,
    SameStage,
    InvalidTransition,
    InviteeIsProposer,
    AlreadyContributor,
    /// An invitation of any status already exists for the invitee.
    AlreadyInvited,
    EmptyTitle,
    TitleTooLong,
    EmptyDescription,
    DescriptionTooLong,
    EmptyComment,
    CommentTooLong,
    /// The gates as they stood when the transition was refused.
    QualityGateNotMet(QualityGateStatus),
}

impl DiscussionError {
    pub open spec fn spec_kind(&self) -> ErrorKind {
        match *self {
            DiscussionError::DiscussionNotFound
            | DiscussionError::CommentNotFound
            | DiscussionError::InviteNotFound => ErrorKind::NotFound,
            DiscussionError::NotProposer
            | DiscussionError::NotProposerOrContributor
            | DiscussionError::CommentNotAllowed
            | DiscussionError::NotAuthor => ErrorKind::Unauthorized,
            DiscussionError::Archived
            | DiscussionError::AlreadyArchived
            | DiscussionError::AlreadyRetracted
            | DiscussionError::AlreadyResponded
            | DiscussionError::StageIsTerminal
            | DiscussionError::SameStage
            | DiscussionError::InvalidTransition => ErrorKind::InvalidState,
            DiscussionError::QualityGateNotMet(_) => ErrorKind::QualityGateNotMet,
            _ => ErrorKind::ValidationError,
        }
    }

    /// The class of this error.
    #[verifier::when_used_as_spec(spec_kind)]
    pub fn kind(&self) -> (r: ErrorKind)
        ensures
            r == self.spec_kind(),
    {
        match self {
            DiscussionError::DiscussionNotFound
            | DiscussionError::CommentNotFound
            | DiscussionError::InviteNotFound => ErrorKind::NotFound,
            DiscussionError::NotProposer
            | DiscussionError::NotProposerOrContributor
            | DiscussionError::CommentNotAllowed
            | DiscussionError::NotAuthor => ErrorKind::Unauthorized,
            DiscussionError::Archived
            | DiscussionError::AlreadyArchived
            | DiscussionError::AlreadyRetracted
            | DiscussionError::AlreadyResponded
            | DiscussionError::StageIsTerminal
            | DiscussionError::SameStage
            | DiscussionError::InvalidTransition => ErrorKind::InvalidState,
            DiscussionError::QualityGateNotMet(_) => ErrorKind::QualityGateNotMet,
            _ => ErrorKind::ValidationError,
        }
    }

    /// A message for the caller; it names no resource that the caller may not see.
    pub fn message(&self) -> String {
        let text = match self {
            DiscussionError::DiscussionNotFound => "Discussion not found",
            DiscussionError::CommentNotFound => "Comment not found",
            DiscussionError::InviteNotFound => "No invitation found for you",
            DiscussionError::NotProposer => "Only the proposer can archive this discussion",
            DiscussionError::NotProposerOrContributor => "Only the proposer or a contributor can do this",
            DiscussionError::CommentNotAllowed => "You are not authorized to comment on this discussion in its current stage",
            DiscussionError::NotAuthor => "Only the comment author can retract this comment",
            DiscussionError::Archived => "The discussion is archived",
            DiscussionError::AlreadyArchived => "Discussion is already archived",
            DiscussionError::AlreadyRetracted => "Comment is already retracted",
            DiscussionError::AlreadyResponded => "Invitation has already been responded to",
            DiscussionError::StageIsTerminal => "Cannot transition from Ready stage",
            DiscussionError::SameStage => "Already in that stage",
            DiscussionError::InvalidTransition => "Invalid stage transition",
            DiscussionError::InviteeIsProposer => "Cannot invite the proposer",
            DiscussionError::AlreadyContributor => "User is already a contributor",
            DiscussionError::AlreadyInvited => "User already has an invitation",
            DiscussionError::EmptyTitle => "Title cannot be empty",
            DiscussionError::TitleTooLong => "Title too long (max 200 characters)",
            DiscussionError::EmptyDescription => "Description cannot be empty",
            DiscussionError::DescriptionTooLong => "Description too long (max 51200 bytes)",
            DiscussionError::EmptyComment => "Comment content cannot be empty",
            DiscussionError::CommentTooLong => "Comment too long (max 10240 bytes)",
            DiscussionError::QualityGateNotMet(_) => "Quality gates not met",
        };
        text.to_string()
    }
}

} // verus!
