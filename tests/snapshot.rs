use foundery_os_core::discussion::api::{
    add_comment, create_discussion, get_comments, get_discussion, get_discussion_hash,
    invite_contributor,
};
use foundery_os_core::discussion::state::DiscussionState;
use foundery_os_core::discussion::types::{AddCommentArgs, AuthorType, CreateDiscussionArgs, ProposalCategory};
use foundery_os_core::principal::Principal;

const NOW: u64 = 1_700_000_000_000_000_000;

fn user() -> Principal {
    Principal::from_slice(&[1, 2, 3, 4, 5, 6, 7, 8, 9, 10])
}

#[test]
fn test_fos_4_1_2_discussion_state_survives_upgrade() {
    let mut state = DiscussionState::new();
    let create_result = create_discussion(
        &mut state,
        user(),
        CreateDiscussionArgs {
            title: "Upgrade Test Discussion".to_string(),
            description: "Testing that state survives upgrade".to_string(),
            category: ProposalCategory::Treasury,
        },
        NOW,
    );
    assert!(create_result.is_ok());
    let discussion_id = create_result.unwrap();
    let comment_result = add_comment(
        &mut state,
        user(),
        AddCommentArgs {
            discussion_id,
            content: "This comment should survive the upgrade!".to_string(),
            author_type: AuthorType::Human,
        },
        NOW,
    );
    assert!(comment_result.is_ok());

    let restored = DiscussionState::import(state.export()).expect("snapshot of a store is accepted");

    let discussion = get_discussion(&restored, discussion_id);
    assert!(discussion.is_some(), "Discussion should exist after upgrade");
    let discussion = discussion.unwrap();
    assert_eq!(discussion.title, "Upgrade Test Discussion", "Discussion title should be preserved");
    assert_eq!(discussion.category, ProposalCategory::Treasury, "Discussion category should be preserved");
    assert_eq!(discussion.comment_count, 1, "Comment count should be preserved");
    let comments = get_comments(&restored, discussion_id, 0, 100);
    assert_eq!(comments.len(), 1, "Comments should be preserved after upgrade");
    assert_eq!(comments[0].content, "This comment should survive the upgrade!", "Comment content should be preserved");
}

#[test]
fn restored_store_continues_numbering_and_hashing() {
    let mut state = DiscussionState::new();
    let id = create_discussion(
        &mut state,
        user(),
        CreateDiscussionArgs {
            title: "Keep".to_string(),
            description: "Across restarts".to_string(),
            category: ProposalCategory::Operational,
        },
        NOW,
    )
    .unwrap();
    invite_contributor(&mut state, user(), id, Principal::from_slice(&[3]), NOW).unwrap();
    let hash = get_discussion_hash(&state, id);
    let mut restored = DiscussionState::import(state.export()).unwrap();
    assert_eq!(get_discussion_hash(&restored, id), hash);
    assert_eq!(restored.invites.len(), 1);
    let second = create_discussion(
        &mut restored,
        user(),
        CreateDiscussionArgs {
            title: "Next".to_string(),
            description: "Numbering continues".to_string(),
            category: ProposalCategory::Operational,
        },
        NOW,
    )
    .unwrap();
    assert_eq!(second, 2);
}

#[test]
fn import_refuses_inconsistent_snapshots() {
    let mut state = DiscussionState::new();
    let id = create_discussion(
        &mut state,
        user(),
        CreateDiscussionArgs {
            title: "Check".to_string(),
            description: "Snapshot checks".to_string(),
            category: ProposalCategory::Operational,
        },
        NOW,
    )
    .unwrap();
    add_comment(
        &mut state,
        user(),
        AddCommentArgs { discussion_id: id, content: "x".to_string(), author_type: AuthorType::Human },
        NOW,
    )
    .unwrap();

    let mut bad_counter = state.export();
    bad_counter.next_comment_id = 1;
    assert!(DiscussionState::import(bad_counter).is_none());

    let mut bad_count = state.export();
    bad_count.discussions[0].comment_count = 2;
    assert!(DiscussionState::import(bad_count).is_none());

    let mut bad_ledger = state.export();
    bad_ledger.discussion_comments[0].push(7);
    assert!(DiscussionState::import(bad_ledger).is_none());

    let mut duplicate_participant = state.export();
    duplicate_participant.discussion_participants[0].push(user());
    duplicate_participant.discussions[0].participant_count = 2;
    assert!(DiscussionState::import(duplicate_participant).is_none());

    let mut no_proposer = state.export();
    no_proposer.discussion_participants[0] = vec![Principal::from_slice(&[9])];
    assert!(DiscussionState::import(no_proposer).is_none());

    assert!(DiscussionState::import(DiscussionState::new().export()).is_some());
}
