use foundery_os_core::discussion::api::{
    add_comment, advance_stage, archive_discussion, create_discussion, get_comments,
    get_discussion, get_discussion_hash, get_quality_gate_status, invite_contributor,
    list_discussions, respond_to_invite, retract_comment,
};
use foundery_os_core::discussion::error::{DiscussionError, ErrorKind};
use foundery_os_core::discussion::state::DiscussionState;
use foundery_os_core::discussion::types::{
    AddCommentArgs, AuthorType, CreateDiscussionArgs, DiscussionFilter,
    DiscussionPaginationParams, DiscussionStage, InviteStatus, ProposalCategory,
    MIN_REFINING_DURATION_NS, NS_PER_HOUR,
};
use foundery_os_core::principal::Principal;

const NOW: u64 = 1_700_000_000_000_000_000;

fn user() -> Principal {
    Principal::from_slice(&[1, 2, 3, 4, 5, 6, 7, 8, 9, 10])
}

fn args(title: &str, description: &str) -> CreateDiscussionArgs {
    CreateDiscussionArgs {
        title: title.to_string(),
        description: description.to_string(),
        category: ProposalCategory::Operational,
    }
}

fn human(discussion_id: u64, content: &str) -> AddCommentArgs {
    AddCommentArgs { discussion_id, content: content.to_string(), author_type: AuthorType::Human }
}

fn agent(discussion_id: u64, content: &str, agent_id: &str) -> AddCommentArgs {
    AddCommentArgs {
        discussion_id,
        content: content.to_string(),
        author_type: AuthorType::Agent { agent_id: agent_id.to_string() },
    }
}

fn long_text(tag: &str) -> String {
    format!("{} - a substantive contribution that is comfortably longer than fifty characters.", tag)
}

#[test]
fn test_fos_4_1_2_create_discussion() {
    let mut state = DiscussionState::new();
    let result = create_discussion(
        &mut state,
        user(),
        args(
            "Test Governance Proposal",
            "This is a test description for a governance proposal discussion.",
        ),
        NOW,
    );
    assert!(result.is_ok(), "Discussion creation should succeed");
    assert_eq!(result.unwrap(), 1, "First discussion should have ID 1");
    let discussion = get_discussion(&state, 1);
    assert!(discussion.is_some(), "Discussion should exist");
    let d = discussion.unwrap();
    assert_eq!(d.title, "Test Governance Proposal");
    assert_eq!(d.stage, DiscussionStage::Brainstorm);
    assert_eq!(d.proposer, user());
    assert_eq!(d.participant_count, 1);
}

#[test]
fn test_fos_4_1_2_create_discussion_empty_title_rejected() {
    let mut state = DiscussionState::new();
    let result = create_discussion(&mut state, user(), args("", "Description"), NOW);
    assert!(result.is_err(), "Empty title should be rejected");
    assert!(result.unwrap_err().message().contains("empty"), "Error should mention empty title");
}

#[test]
fn test_fos_4_1_2_add_comment() {
    let mut state = DiscussionState::new();
    let discussion_id =
        create_discussion(&mut state, user(), args("Discussion for Comments", "Testing comments"), NOW)
            .unwrap();
    let comment_result = add_comment(
        &mut state,
        user(),
        human(discussion_id, "This is a test comment with sufficient length for testing purposes."),
        NOW,
    );
    assert!(comment_result.is_ok(), "Comment should be added successfully");
    assert_eq!(comment_result.unwrap(), 1, "First comment should have ID 1");
    let comments = get_comments(&state, discussion_id, 0, 10);
    assert_eq!(comments.len(), 1);
    assert!(!comments[0].is_retracted);
}

#[test]
fn test_fos_4_1_2_retract_comment() {
    let mut state = DiscussionState::new();
    let _ = create_discussion(&mut state, user(), args("Discussion for Retraction", "Testing retraction"), NOW);
    let _ = add_comment(&mut state, user(), human(1, "This comment will be retracted"), NOW);
    let retract_result = retract_comment(&mut state, user(), 1, NOW + 1);
    assert!(retract_result.is_ok(), "Retraction should succeed");
    let comments = get_comments(&state, 1, 0, 10);
    assert_eq!(comments.len(), 1, "Comment should still exist");
    assert!(comments[0].is_retracted, "Comment should be marked retracted");
    assert!(comments[0].retracted_at.is_some(), "Retraction time should be set");
}

#[test]
fn test_fos_4_1_2_retract_someone_elses_comment_rejected() {
    let mut state = DiscussionState::new();
    let user_a = user();
    let user_b = Principal::from_slice(&[201, 202, 203, 204, 205, 206, 207, 208, 209, 210]);
    let _ = create_discussion(&mut state, user_a.clone(), args("Discussion", "Description"), NOW);
    let _ = add_comment(&mut state, user_a, human(1, "User A's comment"), NOW);
    let retract_result = retract_comment(&mut state, user_b, 1, NOW);
    assert!(retract_result.is_err(), "Should not be able to retract someone else's comment");
}

#[test]
fn test_fos_4_1_2_stage_transition_brainstorm_to_refining() {
    let mut state = DiscussionState::new();
    let _ = create_discussion(&mut state, user(), args("Stage Transition Test", "Testing stage transitions"), NOW);
    let result = advance_stage(&mut state, user(), 1, NOW);
    assert!(result.is_ok(), "Stage advance should succeed");
    assert_eq!(result.unwrap(), DiscussionStage::Refining);
    assert_eq!(get_discussion(&state, 1).unwrap().stage, DiscussionStage::Refining);
}

#[test]
fn test_fos_4_1_2_invite_contributor() {
    let mut state = DiscussionState::new();
    let proposer = user();
    let contributor = Principal::from_slice(&[211, 212, 213, 214, 215, 216, 217, 218, 219, 220]);
    let _ = create_discussion(&mut state, proposer.clone(), args("Contributor Test", "Testing contributors"), NOW);
    let invite_result = invite_contributor(&mut state, proposer, 1, contributor.clone(), NOW);
    assert!(invite_result.is_ok(), "Invite should succeed");
    let accept_result = respond_to_invite(&mut state, contributor.clone(), 1, true, NOW);
    assert!(accept_result.is_ok(), "Accept should succeed");
    assert!(
        get_discussion(&state, 1).unwrap().contributors.contains(&contributor),
        "Contributor should be in list"
    );
}

#[test]
fn test_fos_4_1_2_quality_gate_status() {
    let mut state = DiscussionState::new();
    let _ = create_discussion(&mut state, user(), args("Quality Gate Test", "Testing quality gates"), NOW);
    let gate_status = get_quality_gate_status(&state, 1, NOW);
    assert!(gate_status.is_some(), "Gate status should be returned");
    let status = gate_status.unwrap();
    assert!(!status.all_met, "Gates should not be met initially");
    assert!(!status.participants_met, "Need 3+ participants");
    assert!(!status.comments_met, "Need 5+ substantive comments");
}

#[test]
fn test_fos_4_1_2_quality_gates_prevent_ready_without_meeting_thresholds() {
    let mut state = DiscussionState::new();
    let _ = create_discussion(&mut state, user(), args("Quality Gate Block Test", "Testing quality gate enforcement"), NOW);
    let _ = advance_stage(&mut state, user(), 1, NOW);
    let result = advance_stage(&mut state, user(), 1, NOW);
    assert!(result.is_err(), "Should not be able to advance to Ready without meeting quality gates");
    assert!(result.unwrap_err().message().contains("Quality gates"), "Error should mention quality gates");
}

#[test]
fn test_fos_4_1_2_agent_comments_tagged_distinctly() {
    let mut state = DiscussionState::new();
    let _ = create_discussion(&mut state, user(), args("Agent Comment Test", "Testing agent comment tagging"), NOW);
    let _ = add_comment(
        &mut state,
        user(),
        agent(1, "This is an AI-generated comment providing analysis of the proposal.", "gpt-4"),
        NOW,
    );
    let comments = get_comments(&state, 1, 0, 10);
    assert_eq!(comments.len(), 1);
    match &comments[0].author_type {
        AuthorType::Agent { agent_id } => assert_eq!(agent_id, "gpt-4"),
        AuthorType::Human => panic!("Comment should be tagged as Agent, not Human"),
    }
    assert_eq!(
        get_discussion(&state, 1).unwrap().participant_count,
        1,
        "Agent should not increase participant count"
    );
}

#[test]
fn test_fos_4_1_2_discussion_hash_generated() {
    let mut state = DiscussionState::new();
    let _ = create_discussion(&mut state, user(), args("Hash Test Discussion", "Testing hash generation"), NOW);
    let _ = add_comment(&mut state, user(), human(1, "A comment for hash testing"), NOW);
    let hash = get_discussion_hash(&state, 1);
    assert!(hash.is_some(), "Hash should be returned");
    let hash_value = hash.unwrap();
    assert!(!hash_value.is_empty(), "Hash should not be empty");
    assert_eq!(hash_value.len(), 64, "SHA-256 hex hash should be 64 characters");
}

#[test]
fn test_fos_4_1_2_discussion_hash_is_deterministic() {
    let mut state = DiscussionState::new();
    let _ = create_discussion(&mut state, user(), args("Determinism Test", "Testing hash determinism"), NOW);
    let hash_1 = get_discussion_hash(&state, 1);
    let hash_2 = get_discussion_hash(&state, 1);
    assert_eq!(hash_1, hash_2, "Hash should be deterministic");
}

#[test]
fn test_fos_4_1_2_list_discussions() {
    let mut state = DiscussionState::new();
    for i in 1..=3 {
        let _ = create_discussion(
            &mut state,
            user(),
            CreateDiscussionArgs {
                title: format!("Discussion {}", i),
                description: format!("Description {}", i),
                category: ProposalCategory::Operational,
            },
            NOW,
        );
    }
    let paginated = list_discussions(&state, None, None);
    assert_eq!(paginated.items.len(), 3, "Should have 3 discussions");
    assert_eq!(paginated.total, 3, "Total should be 3");
}

#[test]
fn test_fos_4_1_2_archive_discussion() {
    let mut state = DiscussionState::new();
    let _ = create_discussion(&mut state, user(), args("Archive Test", "Testing archival"), NOW);
    let archive_result = archive_discussion(&mut state, user(), 1, NOW);
    assert!(archive_result.is_ok(), "Archive should succeed");
    assert!(get_discussion(&state, 1).unwrap().is_archived, "Discussion should be archived");
    let paginated = list_discussions(&state, None, None);
    assert_eq!(paginated.items.len(), 0, "Archived discussion should not appear in default list");
}

#[test]
fn test_fos_4_1_2_anyone_can_comment_in_brainstorm_stage() {
    let mut state = DiscussionState::new();
    let random_user = Principal::from_slice(&[99, 98, 97, 96, 95, 94, 93, 92, 91, 90]);
    let _ = create_discussion(&mut state, user(), args("Open Discussion", "Anyone should be able to comment in Brainstorm"), NOW);
    let comment_result = add_comment(
        &mut state,
        random_user,
        human(1, "I'm a random user commenting in Brainstorm stage!"),
        NOW,
    );
    assert!(comment_result.is_ok(), "Random user should be able to comment in Brainstorm stage");
}

#[test]
fn test_fos_4_1_2_cannot_skip_refining_stage() {
    let mut state = DiscussionState::new();
    let _ = create_discussion(&mut state, user(), args("Stage Skip Test", "Trying to skip from Brainstorm directly to Ready"), NOW);
    assert_eq!(get_discussion(&state, 1).unwrap().stage, DiscussionStage::Brainstorm);
    let advance_result = advance_stage(&mut state, user(), 1, NOW);
    assert!(advance_result.is_ok(), "Brainstorm → Refining should succeed");
    assert_eq!(advance_result.unwrap(), DiscussionStage::Refining);
    let advance_result2 = advance_stage(&mut state, user(), 1, NOW);
    assert!(advance_result2.is_err(), "Refining → Ready should fail without quality gates");
    assert!(
        advance_result2.unwrap_err().message().contains("Quality gates not met"),
        "Error should mention quality gates"
    );
}

// Scenarios and properties of the discussion workflow.

#[test]
fn new_discussion_starts_in_brainstorm_with_its_proposer() {
    let mut state = DiscussionState::new();
    let p = user();
    let id = create_discussion(
        &mut state,
        p.clone(),
        CreateDiscussionArgs {
            title: "T".to_string(),
            description: "D".to_string(),
            category: ProposalCategory::Operational,
        },
        NOW,
    )
    .unwrap();
    let d = get_discussion(&state, id).unwrap();
    assert_eq!(d.stage, DiscussionStage::Brainstorm);
    assert_eq!(d.participant_count, 1);
    assert_eq!(d.comment_count, 0);
    assert_eq!(d.proposer, p);
    assert_eq!(d.created_at, NOW);
    assert_eq!(d.stage_changed_at, NOW);
    assert!(d.contributors.is_empty());
    assert!(!d.is_archived);
}

#[test]
fn ready_after_gates_and_two_days_in_refining() {
    let mut state = DiscussionState::new();
    let p = user();
    let a = Principal::from_slice(&[11]);
    let b = Principal::from_slice(&[12]);
    let id = create_discussion(&mut state, p.clone(), args("Gated", "Gate scenario"), NOW).unwrap();
    for (who, tag) in [(&p, "p1"), (&p, "p2"), (&a, "a1"), (&a, "a2"), (&b, "b1")] {
        add_comment(&mut state, who.clone(), human(id, &long_text(tag)), NOW).unwrap();
    }
    assert_eq!(get_discussion(&state, id).unwrap().participant_count, 3);
    let refining_at = NOW + 10;
    assert_eq!(advance_stage(&mut state, p.clone(), id, refining_at), Ok(DiscussionStage::Refining));
    match advance_stage(&mut state, p.clone(), id, refining_at) {
        Err(DiscussionError::QualityGateNotMet(g)) => {
            assert!(!g.duration_met);
            assert!(g.participants_met);
            assert!(g.comments_met);
            assert_eq!(g.substantive_comments, 5);
            assert_eq!(g.hours_in_refining, 0);
        },
        other => panic!("expected the quality gates to refuse, got {:?}", other),
    }
    assert_eq!(get_discussion(&state, id).unwrap().stage, DiscussionStage::Refining);
    let almost = refining_at + MIN_REFINING_DURATION_NS - 1;
    assert!(matches!(
        advance_stage(&mut state, p.clone(), id, almost),
        Err(DiscussionError::QualityGateNotMet(_))
    ));
    let later = refining_at + MIN_REFINING_DURATION_NS;
    let g = get_quality_gate_status(&state, id, later).unwrap();
    assert!(g.all_met);
    assert_eq!(g.hours_in_refining, 48);
    assert_eq!(advance_stage(&mut state, p.clone(), id, later), Ok(DiscussionStage::Ready));
    let d = get_discussion(&state, id).unwrap();
    assert_eq!(d.stage, DiscussionStage::Ready);
    assert_eq!(d.stage_changed_at, later);
    assert_eq!(advance_stage(&mut state, p, id, later + 1), Err(DiscussionError::StageIsTerminal));
    assert_eq!(get_discussion(&state, id).unwrap().stage, DiscussionStage::Ready);
}

#[test]
fn agent_comment_counts_but_adds_no_participant() {
    let mut state = DiscussionState::new();
    let id = create_discussion(&mut state, user(), args("Agents", "Agent scenario"), NOW).unwrap();
    let stranger = Principal::from_slice(&[77]);
    add_comment(&mut state, stranger, agent(id, "analysis", "helper-7"), NOW).unwrap();
    let d = get_discussion(&state, id).unwrap();
    assert_eq!(d.participant_count, 1);
    assert_eq!(d.comment_count, 1);
    let comments = get_comments(&state, id, 0, 10);
    assert_eq!(comments[0].author_type, AuthorType::Agent { agent_id: "helper-7".to_string() });
    let long_agent = agent(id, &long_text("agent"), "helper-7");
    add_comment(&mut state, user(), long_agent, NOW).unwrap();
    assert_eq!(get_quality_gate_status(&state, id, NOW).unwrap().substantive_comments, 0);
}

#[test]
fn declined_invite_blocks_reinvitation() {
    let mut state = DiscussionState::new();
    let p = user();
    let c = Principal::from_slice(&[42, 42]);
    let id = create_discussion(&mut state, p.clone(), args("Invites", "Invite scenario"), NOW).unwrap();
    invite_contributor(&mut state, p.clone(), id, c.clone(), NOW).unwrap();
    assert_eq!(state.get_invite(id, &c).unwrap().status, InviteStatus::Pending);
    respond_to_invite(&mut state, c.clone(), id, false, NOW).unwrap();
    assert_eq!(state.get_invite(id, &c).unwrap().status, InviteStatus::Declined);
    assert!(!get_discussion(&state, id).unwrap().contributors.contains(&c));
    assert_eq!(
        invite_contributor(&mut state, p, id, c.clone(), NOW),
        Err(DiscussionError::AlreadyInvited)
    );
    assert_eq!(respond_to_invite(&mut state, c, id, true, NOW), Err(DiscussionError::AlreadyResponded));
}

#[test]
fn archived_discussion_refuses_changes() {
    let mut state = DiscussionState::new();
    let p = user();
    let id = create_discussion(&mut state, p.clone(), args("Archive", "Archive scenario"), NOW).unwrap();
    assert_eq!(archive_discussion(&mut state, p.clone(), id, NOW), Ok(()));
    assert_eq!(archive_discussion(&mut state, p.clone(), id, NOW), Err(DiscussionError::AlreadyArchived));
    let e = advance_stage(&mut state, p.clone(), id, NOW).unwrap_err();
    assert_eq!(e, DiscussionError::Archived);
    assert_eq!(e.kind(), ErrorKind::InvalidState);
    let e = add_comment(&mut state, p.clone(), human(id, "late"), NOW).unwrap_err();
    assert_eq!(e.kind(), ErrorKind::InvalidState);
    assert_eq!(add_comment(&mut state, p.clone(), human(id, ""), NOW), Err(DiscussionError::Archived));
    assert_eq!(
        add_comment(&mut state, p.clone(), human(id, &"c".repeat(10241)), NOW),
        Err(DiscussionError::Archived)
    );
    let e = invite_contributor(&mut state, p, id, Principal::from_slice(&[9]), NOW).unwrap_err();
    assert_eq!(e, DiscussionError::Archived);
    assert!(get_discussion(&state, id).unwrap().is_archived);
}

#[test]
fn comment_count_survives_retractions() {
    let mut state = DiscussionState::new();
    let id = create_discussion(&mut state, user(), args("Counts", "Count property"), NOW).unwrap();
    for i in 0..4u64 {
        add_comment(&mut state, user(), human(id, &format!("comment {}", i)), NOW + i).unwrap();
    }
    retract_comment(&mut state, user(), 2, NOW + 10).unwrap();
    retract_comment(&mut state, user(), 3, NOW + 11).unwrap();
    let d = get_discussion(&state, id).unwrap();
    assert_eq!(d.comment_count, 4);
    assert_eq!(get_comments(&state, id, 0, 100).len(), 4);
}

#[test]
fn retracting_twice_is_refused() {
    let mut state = DiscussionState::new();
    let id = create_discussion(&mut state, user(), args("Retract", "Retract twice"), NOW).unwrap();
    let cid = add_comment(&mut state, user(), human(id, "once"), NOW).unwrap();
    assert_eq!(retract_comment(&mut state, user(), cid, NOW + 1), Ok(()));
    let e = retract_comment(&mut state, user(), cid, NOW + 2).unwrap_err();
    assert_eq!(e, DiscussionError::AlreadyRetracted);
    assert_eq!(e.kind(), ErrorKind::InvalidState);
    let c = &get_comments(&state, id, 0, 1)[0];
    assert_eq!(c.retracted_at, Some(NOW + 1));
    assert_eq!(c.content, "once");
    assert_eq!(retract_comment(&mut state, user(), 99, NOW), Err(DiscussionError::CommentNotFound));
}

#[test]
fn participant_count_never_decreases() {
    let mut state = DiscussionState::new();
    let p = user();
    let a = Principal::from_slice(&[5, 5]);
    let id = create_discussion(&mut state, p.clone(), args("Participants", "Monotone"), NOW).unwrap();
    let mut last = get_discussion(&state, id).unwrap().participant_count;
    let mut check = |state: &DiscussionState| {
        let now = get_discussion(state, id).unwrap().participant_count;
        assert!(now >= last);
        last = now;
    };
    add_comment(&mut state, a.clone(), human(id, "hello"), NOW).unwrap();
    check(&state);
    add_comment(&mut state, a.clone(), human(id, "again"), NOW).unwrap();
    check(&state);
    retract_comment(&mut state, a.clone(), 1, NOW).unwrap();
    check(&state);
    add_comment(&mut state, p.clone(), agent(id, "bot", "x"), NOW).unwrap();
    check(&state);
    advance_stage(&mut state, p.clone(), id, NOW).unwrap();
    check(&state);
    archive_discussion(&mut state, p, id, NOW).unwrap();
    check(&state);
    assert_eq!(get_discussion(&state, id).unwrap().participant_count, 2);
}

#[test]
fn hash_changes_after_comment_and_retraction() {
    let mut state = DiscussionState::new();
    let id = create_discussion(&mut state, user(), args("Hashing", "Digest scenario"), NOW).unwrap();
    let h0 = get_discussion_hash(&state, id).unwrap();
    let cid = add_comment(&mut state, user(), human(id, "first"), NOW).unwrap();
    let h1 = get_discussion_hash(&state, id).unwrap();
    retract_comment(&mut state, user(), cid, NOW + 1).unwrap();
    let h2 = get_discussion_hash(&state, id).unwrap();
    assert_ne!(h0, h1);
    assert_ne!(h1, h2);
    assert_ne!(h0, h2);
    assert_eq!(get_discussion_hash(&state, id).unwrap(), h2);
    assert_eq!(get_discussion_hash(&state, 2), None);
}

#[test]
fn outsiders_cannot_comment_after_brainstorm() {
    let mut state = DiscussionState::new();
    let p = user();
    let outsider = Principal::from_slice(&[50]);
    let contributor = Principal::from_slice(&[51]);
    let id = create_discussion(&mut state, p.clone(), args("Closed", "Refining is closed"), NOW).unwrap();
    invite_contributor(&mut state, p.clone(), id, contributor.clone(), NOW).unwrap();
    respond_to_invite(&mut state, contributor.clone(), id, true, NOW).unwrap();
    advance_stage(&mut state, contributor.clone(), id, NOW).unwrap();
    let e = add_comment(&mut state, outsider.clone(), human(id, "me too"), NOW).unwrap_err();
    assert_eq!(e, DiscussionError::CommentNotAllowed);
    assert_eq!(e.kind(), ErrorKind::Unauthorized);
    assert!(add_comment(&mut state, contributor, human(id, "still here"), NOW).is_ok());
    assert!(add_comment(&mut state, p, human(id, "mine"), NOW).is_ok());
    assert_eq!(
        advance_stage(&mut state, outsider, id, NOW),
        Err(DiscussionError::NotProposerOrContributor)
    );
}

#[test]
fn invitation_errors() {
    let mut state = DiscussionState::new();
    let p = user();
    let c = Principal::from_slice(&[60]);
    let id = create_discussion(&mut state, p.clone(), args("Invite errors", "Each refusal"), NOW).unwrap();
    assert_eq!(
        invite_contributor(&mut state, p.clone(), 9, c.clone(), NOW),
        Err(DiscussionError::DiscussionNotFound)
    );
    assert_eq!(
        invite_contributor(&mut state, c.clone(), id, Principal::from_slice(&[61]), NOW),
        Err(DiscussionError::NotProposerOrContributor)
    );
    assert_eq!(
        invite_contributor(&mut state, p.clone(), id, p.clone(), NOW),
        Err(DiscussionError::InviteeIsProposer)
    );
    invite_contributor(&mut state, p.clone(), id, c.clone(), NOW).unwrap();
    assert_eq!(respond_to_invite(&mut state, Principal::from_slice(&[62]), id, true, NOW), Err(DiscussionError::InviteNotFound));
    respond_to_invite(&mut state, c.clone(), id, true, NOW).unwrap();
    assert_eq!(
        invite_contributor(&mut state, p, id, c.clone(), NOW),
        Err(DiscussionError::AlreadyContributor)
    );
    assert_eq!(get_discussion(&state, id).unwrap().contributors, vec![c]);
}

#[test]
fn archive_errors() {
    let mut state = DiscussionState::new();
    let id = create_discussion(&mut state, user(), args("A", "B"), NOW).unwrap();
    assert_eq!(archive_discussion(&mut state, user(), 5, NOW), Err(DiscussionError::DiscussionNotFound));
    let e = archive_discussion(&mut state, Principal::from_slice(&[3]), id, NOW).unwrap_err();
    assert_eq!(e, DiscussionError::NotProposer);
    assert_eq!(e.kind(), ErrorKind::Unauthorized);
    assert_eq!(DiscussionError::DiscussionNotFound.kind(), ErrorKind::NotFound);
}

#[test]
fn input_validation_limits() {
    let mut state = DiscussionState::new();
    let max_title = "t".repeat(200);
    assert!(create_discussion(&mut state, user(), args(&max_title, "d"), NOW).is_ok());
    let e = create_discussion(&mut state, user(), args(&"t".repeat(201), "d"), NOW).unwrap_err();
    assert_eq!(e, DiscussionError::TitleTooLong);
    assert_eq!(e.kind(), ErrorKind::ValidationError);
    // The title limit counts characters: 200 two-byte characters fit, 201 do not.
    assert!(create_discussion(&mut state, user(), args(&"é".repeat(101), "D"), NOW).is_ok());
    assert!(create_discussion(&mut state, user(), args(&"é".repeat(200), "D"), NOW).is_ok());
    assert_eq!(
        create_discussion(&mut state, user(), args(&"é".repeat(201), "d"), NOW),
        Err(DiscussionError::TitleTooLong)
    );
    assert_eq!(create_discussion(&mut state, user(), args("t", ""), NOW), Err(DiscussionError::EmptyDescription));
    assert!(create_discussion(&mut state, user(), args("t", &"d".repeat(51200)), NOW).is_ok());
    assert_eq!(
        create_discussion(&mut state, user(), args("t", &"d".repeat(51201)), NOW),
        Err(DiscussionError::DescriptionTooLong)
    );
    assert_eq!(add_comment(&mut state, user(), human(1, ""), NOW), Err(DiscussionError::EmptyComment));
    assert!(add_comment(&mut state, user(), human(1, &"c".repeat(10240)), NOW).is_ok());
    assert_eq!(
        add_comment(&mut state, user(), human(1, &"c".repeat(10241)), NOW),
        Err(DiscussionError::CommentTooLong)
    );
    assert_eq!(add_comment(&mut state, user(), human(99, "x"), NOW), Err(DiscussionError::DiscussionNotFound));
    assert_eq!(add_comment(&mut state, user(), human(99, ""), NOW), Err(DiscussionError::DiscussionNotFound));
    assert_eq!(get_discussion(&state, 1).unwrap().comment_count, 1);
}

#[test]
fn substantive_comments_count_characters() {
    let mut state = DiscussionState::new();
    let id = create_discussion(&mut state, user(), args("Chars", "Character count"), NOW).unwrap();
    add_comment(&mut state, user(), human(id, &"a".repeat(49)), NOW).unwrap();
    assert_eq!(get_quality_gate_status(&state, id, NOW).unwrap().substantive_comments, 0);
    add_comment(&mut state, user(), human(id, &"a".repeat(50)), NOW).unwrap();
    // 50 characters of two bytes each count as 50 characters.
    add_comment(&mut state, user(), human(id, &"é".repeat(50)), NOW).unwrap();
    assert_eq!(get_quality_gate_status(&state, id, NOW).unwrap().substantive_comments, 2);
    retract_comment(&mut state, user(), 2, NOW).unwrap();
    assert_eq!(get_quality_gate_status(&state, id, NOW).unwrap().substantive_comments, 1);
    assert_eq!(get_quality_gate_status(&state, 7, NOW), None);
}

#[test]
fn gate_hours_follow_the_stage() {
    let mut state = DiscussionState::new();
    let id = create_discussion(&mut state, user(), args("Hours", "Hours in Refining"), NOW).unwrap();
    let g = get_quality_gate_status(&state, id, NOW + 100 * NS_PER_HOUR).unwrap();
    assert!(!g.duration_met);
    assert_eq!(g.hours_in_refining, 0);
    advance_stage(&mut state, user(), id, NOW).unwrap();
    let g = get_quality_gate_status(&state, id, NOW + 5 * NS_PER_HOUR + 7).unwrap();
    assert_eq!(g.hours_in_refining, 5);
    assert!(!g.duration_met);
    let g = get_quality_gate_status(&state, id, NOW - 1).unwrap();
    assert_eq!(g.hours_in_refining, 0);
    assert_eq!(g.participants_count, 1);
}

#[test]
fn listing_filters_and_pages() {
    let mut state = DiscussionState::new();
    let p = user();
    let q = Principal::from_slice(&[8]);
    for i in 0..5u64 {
        let who = if i % 2 == 0 { p.clone() } else { q.clone() };
        create_discussion(
            &mut state,
            who,
            CreateDiscussionArgs {
                title: format!("D{}", i),
                description: "x".to_string(),
                category: if i < 3 { ProposalCategory::Treasury } else { ProposalCategory::Constitutional },
            },
            NOW,
        )
        .unwrap();
    }
    archive_discussion(&mut state, p.clone(), 1, NOW).unwrap();
    advance_stage(&mut state, q.clone(), 2, NOW).unwrap();
    let all = list_discussions(&state, None, None);
    assert_eq!(all.total, 4);
    assert_eq!(all.offset, 0);
    assert_eq!(all.limit, 50);
    let ids: Vec<u64> = all.items.iter().map(|d| d.id).collect();
    assert_eq!(ids, vec![2, 3, 4, 5]);
    let page = list_discussions(
        &state,
        None,
        Some(DiscussionPaginationParams { offset: Some(1), limit: Some(2) }),
    );
    let ids: Vec<u64> = page.items.iter().map(|d| d.id).collect();
    assert_eq!(ids, vec![3, 4]);
    assert_eq!(page.total, 4);
    let beyond = list_discussions(
        &state,
        None,
        Some(DiscussionPaginationParams { offset: Some(10), limit: None }),
    );
    assert!(beyond.items.is_empty());
    let by_p = DiscussionFilter {
        stage: None,
        category: None,
        proposer: Some(p.clone()),
        include_archived: Some(true),
    };
    let ids: Vec<u64> = list_discussions(&state, Some(by_p), None).items.iter().map(|d| d.id).collect();
    assert_eq!(ids, vec![1, 3, 5]);
    let treasury_refining = DiscussionFilter {
        stage: Some(DiscussionStage::Refining),
        category: Some(ProposalCategory::Treasury),
        proposer: None,
        include_archived: None,
    };
    let ids: Vec<u64> =
        list_discussions(&state, Some(treasury_refining), None).items.iter().map(|d| d.id).collect();
    assert_eq!(ids, vec![2]);
    let hidden = DiscussionFilter { include_archived: Some(false), ..DiscussionFilter::default() };
    assert_eq!(list_discussions(&state, Some(hidden), None).total, 4);
}

#[test]
fn comment_pages_slice_the_ledger() {
    let mut state = DiscussionState::new();
    let a = create_discussion(&mut state, user(), args("A", "a"), NOW).unwrap();
    let b = create_discussion(&mut state, user(), args("B", "b"), NOW).unwrap();
    for i in 0..3u64 {
        add_comment(&mut state, user(), human(a, &format!("a{}", i)), NOW).unwrap();
        add_comment(&mut state, user(), human(b, &format!("b{}", i)), NOW).unwrap();
    }
    let page: Vec<String> = get_comments(&state, b, 1, 5).iter().map(|c| c.content.clone()).collect();
    assert_eq!(page, vec!["b1".to_string(), "b2".to_string()]);
    let ids: Vec<u64> = get_comments(&state, a, 0, 2).iter().map(|c| c.id).collect();
    assert_eq!(ids, vec![1, 3]);
    assert!(get_comments(&state, a, 3, 5).is_empty());
    assert!(get_comments(&state, 9, 0, 5).is_empty());
}

#[test]
fn discussions_are_indexed_by_proposer() {
    let mut state = DiscussionState::new();
    let p = user();
    let q = Principal::from_slice(&[8]);
    for i in 0..4u64 {
        let who = if i == 1 { q.clone() } else { p.clone() };
        create_discussion(&mut state, who, args(&format!("D{}", i), "x"), NOW).unwrap();
    }
    archive_discussion(&mut state, p.clone(), 3, NOW).unwrap();
    assert_eq!(state.get_user_discussions(&p), vec![1, 3, 4]);
    assert_eq!(state.get_user_discussions(&q), vec![2]);
    assert!(state.get_user_discussions(&Principal::from_slice(&[0])).is_empty());
}
