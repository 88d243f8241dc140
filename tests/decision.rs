use decision_process::command::{DecisionCommand, Resolution, Reversibility};
use decision_process::decision::{
    handle_command, window_end, CommandContext, CommandOutcome, DecisionError,
    DecisionProcessActionMetadata, IssueDecisionState, DECISION_PROCESS_JOB_NAME,
    DECISION_WINDOW_SECS,
};
use decision_process::jobs::{decision_process_handler, handle_job, JobAction, JobError};
use decision_process::store::{DecisionStore, StoreError};
use decision_process::votes::{
    add_member, build_status_comment, cast_vote, name_less, MemberVotes, UserStatus,
};

fn status(resolution: Resolution) -> UserStatus {
    UserStatus {
        comment_id: "some-id".to_string(),
        text: "I like this".to_string(),
        reversibility: Reversibility::Reversible,
        resolution,
    }
}

fn merge_cmd() -> DecisionCommand {
    DecisionCommand { resolution: Resolution::Merge, reversibility: Reversibility::Reversible }
}

fn hold_cmd() -> DecisionCommand {
    DecisionCommand { resolution: Resolution::Hold, reversibility: Reversibility::Reversible }
}

fn context(user: &str, now: i64) -> CommandContext {
    CommandContext {
        issue_id: 42,
        issue_url: "https://example.com/repo/issues/42".to_string(),
        user: user.to_string(),
        is_team_member: true,
        comment_id: format!("c-{}", user),
        text: "my vote".to_string(),
        now,
        team_members: vec![
            "Niklaus".to_string(),
            "Alan".to_string(),
            "Grace".to_string(),
            "Barbara".to_string(),
        ],
    }
}

fn entry<'a>(votes: &'a [MemberVotes], member: &str) -> &'a MemberVotes {
    votes.iter().find(|m| m.member == member).unwrap()
}

fn open(ctx: &CommandContext, cmd: DecisionCommand) -> (IssueDecisionState, decision_process::decision::ScheduledJob, String) {
    match handle_command(ctx, None, cmd).unwrap() {
        CommandOutcome::Opened { state, job, comment } => (state, job, comment),
        other => panic!("unexpected outcome {:?}", other),
    }
}

#[test]
fn test_build_status_comment() {
    let mut votes: Vec<MemberVotes> = Vec::new();
    let niklaus = "Niklaus".to_string();
    let barbara = "Barbara".to_string();
    cast_vote(&mut votes, &niklaus, status(Resolution::Merge));
    cast_vote(&mut votes, &niklaus, status(Resolution::Hold));
    cast_vote(&mut votes, &niklaus, status(Resolution::Merge));
    cast_vote(&mut votes, &barbara, status(Resolution::Hold));
    cast_vote(&mut votes, &barbara, status(Resolution::Merge));
    cast_vote(&mut votes, &barbara, status(Resolution::Merge));

    assert_eq!(
        build_status_comment(&votes),
        "| Team member | State |\n|-------------|-------|\n| Barbara | ~~hold~~  ~~merge~~  **merge** |\n| Niklaus | ~~merge~~  ~~hold~~  **merge** |"
    )
}

#[test]
fn status_comment_is_deterministic_and_shows_empty_cells() {
    let mut votes: Vec<MemberVotes> = Vec::new();
    add_member(&mut votes, &"Grace".to_string());
    cast_vote(&mut votes, &"Alan".to_string(), status(Resolution::Hold));
    let first = build_status_comment(&votes);
    assert_eq!(first, build_status_comment(&votes));
    assert_eq!(
        first,
        "| Team member | State |\n|-------------|-------|\n| Alan | **hold** |\n| Grace | |"
    );
    assert_eq!(build_status_comment(&Vec::new()), "| Team member | State |\n|-------------|-------|");
}

#[test]
fn names_sort_by_code_point() {
    assert!(name_less(&"Alan".to_string(), &"Barbara".to_string()));
    assert!(!name_less(&"Barbara".to_string(), &"Alan".to_string()));
    assert!(name_less(&"Al".to_string(), &"Alan".to_string()));
    assert!(!name_less(&"Alan".to_string(), &"Alan".to_string()));
    assert!(name_less(&"Zed".to_string(), &"alan".to_string()));
    assert!(name_less(&"".to_string(), &"a".to_string()));
}

#[test]
fn add_member_keeps_existing_votes() {
    let mut votes: Vec<MemberVotes> = Vec::new();
    cast_vote(&mut votes, &"Grace".to_string(), status(Resolution::Merge));
    add_member(&mut votes, &"Grace".to_string());
    add_member(&mut votes, &"Alan".to_string());
    assert_eq!(votes.len(), 2);
    assert_eq!(votes[0].member, "Alan");
    assert!(votes[0].current.is_none());
    assert_eq!(votes[1].current.as_ref().unwrap().resolution, Resolution::Merge);
}

#[test]
fn second_vote_moves_first_into_history() {
    let (state, _, _) = open(&context("Alan", 1_000), merge_cmd());
    let ctx = context("Barbara", 2_000);
    let state = match handle_command(&ctx, Some(state), hold_cmd()).unwrap() {
        CommandOutcome::Updated { state, .. } => state,
        other => panic!("unexpected outcome {:?}", other),
    };
    let ctx = context("Barbara", 3_000);
    let (state, comment) = match handle_command(&ctx, Some(state), merge_cmd()).unwrap() {
        CommandOutcome::Updated { state, comment } => (state, comment),
        other => panic!("unexpected outcome {:?}", other),
    };
    let barbara = entry(&state.votes, "Barbara");
    assert_eq!(barbara.history.len(), 1);
    assert_eq!(barbara.history[0].resolution, Resolution::Hold);
    assert_eq!(barbara.current.as_ref().unwrap().resolution, Resolution::Merge);
    let alan = entry(&state.votes, "Alan");
    assert!(alan.history.is_empty());
    assert_eq!(alan.current.as_ref().unwrap().resolution, Resolution::Merge);
    // The window is never extended by a later vote.
    assert_eq!(state.period_start, 1_000);
    assert_eq!(state.period_end, 1_000 + 864_000);
    assert_eq!(state.resolution, Resolution::Merge);
    assert_eq!(
        comment,
        "| Team member | State |\n|-------------|-------|\n| Alan | **merge** |\n| Barbara | ~~hold~~  **merge** |\n| Grace | |\n| Niklaus | |"
    );
}

#[test]
fn opening_schedules_job_ten_days_later() {
    // 2024-03-25T12:00:00Z: the window crosses a month end and a DST change in Europe.
    let t = 1_711_368_000;
    let (state, job, _) = open(&context("Alan", t), merge_cmd());
    assert_eq!(state.period_start, t);
    assert_eq!(state.period_end, t + 10 * 24 * 3600);
    assert_eq!(job.due_at, 1_712_232_000);
    assert_eq!(DECISION_WINDOW_SECS, 864_000);
    assert_eq!(window_end(0), Some(864_000));
    assert_eq!(window_end(i64::MAX - 864_000), Some(i64::MAX));
    assert_eq!(window_end(i64::MAX - 863_999), None);
}

#[test]
fn opening_out_of_range_is_an_error() {
    let ctx = context("Alan", i64::MAX - 10);
    assert_eq!(handle_command(&ctx, None, merge_cmd()).unwrap_err(), DecisionError::WindowOutOfRange);
}

#[test]
fn opening_a_merge_decision() {
    let ctx = context("Grace", 5_000);
    let (state, job, comment) = open(&ctx, merge_cmd());
    assert_eq!(state.issue_id, 42);
    assert_eq!(state.initiator, "Grace");
    assert_eq!(state.resolution, Resolution::Merge);
    assert_eq!(state.reversibility, Reversibility::Reversible);
    let names: Vec<&str> = state.votes.iter().map(|m| m.member.as_str()).collect();
    assert_eq!(names, vec!["Alan", "Barbara", "Grace", "Niklaus"]);
    for m in &state.votes {
        assert!(m.history.is_empty());
        if m.member == "Grace" {
            let v = m.current.as_ref().unwrap();
            assert_eq!(v.resolution, Resolution::Merge);
            assert_eq!(v.comment_id, "c-Grace");
            assert_eq!(v.text, "my vote");
        } else {
            assert!(m.current.is_none());
        }
    }
    assert_eq!(job.name, DECISION_PROCESS_JOB_NAME);
    assert_eq!(job.name, "decision_process_action");
    assert_eq!(job.due_at, 5_000 + 864_000);
    assert_eq!(job.metadata.status, Resolution::Merge);
    assert_eq!(job.metadata.issue_url, "https://example.com/repo/issues/42");
    assert_eq!(job.metadata.message, "The decision window has elapsed.");
    assert_eq!(
        comment,
        "| Team member | State |\n|-------------|-------|\n| Alan | |\n| Barbara | |\n| Grace | **merge** |\n| Niklaus | |"
    );

    let mut store = DecisionStore::new();
    assert_eq!(store.insert(state), Ok(()));
    assert_eq!(store.get(42).unwrap().initiator, "Grace");
}

#[test]
fn opening_with_hold_records_a_hold_decision() {
    let (state, job, _) = open(&context("Alan", 0), hold_cmd());
    assert_eq!(state.resolution, Resolution::Hold);
    assert_eq!(job.metadata.status, Resolution::Hold);
    assert_eq!(entry(&state.votes, "Alan").current.as_ref().unwrap().resolution, Resolution::Hold);
}

#[test]
fn opener_outside_listed_team_is_still_recorded() {
    let mut ctx = context("Zoe", 0);
    ctx.team_members = vec!["Alan".to_string(), "Alan".to_string()];
    let (state, _, _) = open(&ctx, merge_cmd());
    let names: Vec<&str> = state.votes.iter().map(|m| m.member.as_str()).collect();
    assert_eq!(names, vec!["Alan", "Zoe"]);
}

#[test]
fn non_members_are_denied() {
    let mut ctx = context("Mallory", 0);
    ctx.is_team_member = false;
    match handle_command(&ctx, None, merge_cmd()).unwrap() {
        CommandOutcome::Denied { comment } => {
            assert_eq!(comment, "Only team members can be part of the decision process.")
        }
        other => panic!("unexpected outcome {:?}", other),
    }
}

#[test]
fn second_insert_for_an_issue_conflicts() {
    let (first, _, _) = open(&context("Alan", 0), merge_cmd());
    let (second, _, _) = open(&context("Barbara", 10), hold_cmd());
    let mut store = DecisionStore::new();
    assert!(store.get(42).is_none());
    assert_eq!(store.insert(first), Ok(()));
    assert_eq!(store.insert(second.clone()), Err(StoreError::Conflict));
    assert_eq!(store.get(42).unwrap().initiator, "Alan");
    assert_eq!(store.replace(second), Ok(()));
    assert_eq!(store.get(42).unwrap().initiator, "Barbara");
    let (mut other, _, _) = open(&context("Alan", 0), merge_cmd());
    other.issue_id = 7;
    assert_eq!(store.replace(other.clone()), Err(StoreError::NotFound));
    assert_eq!(store.insert(other), Ok(()));
}

#[test]
fn unknown_job_names_do_nothing() {
    let r = handle_job(&"unrelated_job".to_string(), None);
    assert!(matches!(r, Ok(JobAction::Nothing)));
}

#[test]
fn finalize_jobs_merge_or_close() {
    let meta = |status| DecisionProcessActionMetadata {
        message: "m".to_string(),
        issue_url: "https://example.com/issues/1".to_string(),
        status,
    };
    let name = DECISION_PROCESS_JOB_NAME.to_string();
    match handle_job(&name, Some(meta(Resolution::Merge))) {
        Ok(JobAction::Merge { issue_url }) => assert_eq!(issue_url, "https://example.com/issues/1"),
        other => panic!("unexpected {:?}", other),
    }
    match handle_job(&name, Some(meta(Resolution::Hold))) {
        Ok(JobAction::Close { issue_url }) => assert_eq!(issue_url, "https://example.com/issues/1"),
        other => panic!("unexpected {:?}", other),
    }
    assert!(matches!(decision_process_handler(meta(Resolution::Hold)), JobAction::Close { .. }));
    assert!(matches!(handle_job(&name, None), Err(JobError::UndecodableMetadata)));
}
