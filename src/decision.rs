use vstd::prelude::*;

use crate::command::{DecisionCommand, Resolution, Reversibility};
use crate::votes::{
    add_member, archived, build_status_comment, cast_vote, listed, record_of, sorted, status_comment,
    voted, votes_view, MemberVotes, MemberVotesView, UserStatus,
};

verus! {

/// The name under which finalize jobs of the decision process are scheduled.
pub const DECISION_PROCESS_JOB_NAME: &'static str = "decision_process_action";

/// The length of the deliberation window: ten days of 24 hours, in seconds.
pub const DECISION_WINDOW_SECS: i64 = 864000;

/// What a finalize job carries: the issue to act on and the resolution to apply.
#[derive(Debug, Clone)]
pub struct DecisionProcessActionMetadata {
    pub message: String,
    pub issue_url: String,
    pub status: Resolution,
}

/// A job to run once `due_at` (seconds since the Unix epoch, UTC) has passed.
#[derive(Debug, Clone)]
pub struct ScheduledJob {
    pub name: String,
    pub due_at: i64,
    pub metadata: DecisionProcessActionMetadata,
}

/// The live decision on one issue.
#[derive(Debug, Clone)]
pub struct IssueDecisionState {
    pub issue_id: u64,
    pub initiator: String,
    /// Seconds since the Unix epoch, UTC.
    pub period_start: i64,
    pub period_end: i64,
    /// Each team member's current vote and history, sorted by member name.
    pub votes: Vec<MemberVotes>,
    pub reversibility: Reversibility,
    pub resolution: Resolution,
}

impl IssueDecisionState {
    pub open spec fn wf(&self) -> bool {
        sorted(votes_view(self.votes@))
    }

    pub open spec fn votes_spec(&self) -> Seq<MemberVotesView> {
        votes_view(self.votes@)
    }
}

/// What the caller knows about the comment that carried a command.
#[derive(Debug, Clone)]
pub struct CommandContext {
    pub issue_id: u64,
    pub issue_url: String,
    /// The member who wrote the comment.
    pub user: String,
    /// Whether `user` is a team member; an unknown membership counts as not a member.
    pub is_team_member: bool,
    pub comment_id: String,
    pub text: String,
    /// The time of the command, in seconds since the Unix epoch, UTC.
    pub now: i64,
    /// The governing team's members; read only when a decision is opened.
    pub team_members: Vec<String>,
}

/// What the caller is to do after a command.
#[derive(Debug, Clone)]
pub enum CommandOutcome {
    /// Post `comment` as a refusal; nothing is stored.
    Denied { comment: String },
    /// Insert `state` (a conflict if the issue has a decision already), then schedule
    /// `job`, then post `comment`.
    Opened { state: IssueDecisionState, job: ScheduledJob, comment: String },
    /// Store `state` in place of the issue's decision, then post `comment`.
    Updated { state: IssueDecisionState, comment: String },
}

#[derive(Debug, Clone, Copy, PartialEq, Eq, Structural)]
pub enum DecisionError {
    /// The end of the window is past the largest representable time.
    WindowOutOfRange,
}

pub open spec fn denial_text() -> Seq<char> {
    "Only team members can be part of the decision process."@
}

pub open spec fn job_message() -> Seq<char> {
    "The decision window has elapsed."@
}

/// The vote that a command casts.
pub open spec fn status_of(ctx: CommandContext, cmd: DecisionCommand) -> UserStatus {
    UserStatus {
        comment_id: ctx.comment_id,
        text: ctx.text,
        resolution: cmd.resolution,
        reversibility: cmd.reversibility,
    }
}

pub open spec fn in_team(team: Seq<String>, k: Seq<char>) -> bool {
    exists|i: int| 0 <= i < team.len() && team[i]@ == k
}

/// The votes of a new decision: every team member listed without a vote, then the
/// opener's vote.
pub open spec fn opening_votes(s: Seq<MemberVotesView>, team: Seq<String>, user: Seq<char>, vote: UserStatus) -> bool {
    &&& sorted(s)
    &&& record_of(s, user) == Some(voted(None, user, vote))
    &&& forall|k: Seq<char>| k != user ==> #[trigger] record_of(s, k) == if in_team(team, k) {
        Some(listed(None, k))
    } else {
        None
    }
}

/// The votes after member `user` votes `vote` on a decision whose votes were `old`.
pub open spec fn revised_votes(s: Seq<MemberVotesView>, old: Seq<MemberVotesView>, user: Seq<char>, vote: UserStatus) -> bool {
    &&& sorted(s)
    &&& record_of(s, user) == Some(voted(record_of(old, user), user, vote))
    &&& forall|k: Seq<char>| k != user ==> #[trigger] record_of(s, k) == record_of(old, k)
}

/// The end of a window that opens at `start`, if it can be represented.
pub fn window_end(start: i64) -> (r: Option<i64>)
    ensures
        r == if start + DECISION_WINDOW_SECS <= i64::MAX {
            Some((start + DECISION_WINDOW_SECS) as i64)
        } else {
            None
        },
{
    start.checked_add(DECISION_WINDOW_SECS)
}

/// The votes of a new decision, opened by `user` with `vote`.
fn opening_table(team: &Vec<String>, user: &String, vote: UserStatus) -> (r: Vec<MemberVotes>)
    ensures
        opening_votes(votes_view(r@), team@, user@, vote),
{
    let mut votes: Vec<MemberVotes> = Vec::new();
    let mut i: usize = 0;
    while i < team.len()
        invariant
            i <= team@.len(),
            sorted(votes_view(votes@)),
            forall|k: Seq<char>| #[trigger] record_of(votes_view(votes@), k) == if in_team(team@.take(i as int), k) {
                Some(listed(None, k))
            } else {
                None
            },
        decreases team@.len() - i,
    {
        add_member(&mut votes, &team[i]);
        proof {
            assert forall|k: Seq<char>| in_team(team@.take(i + 1), k) == (in_team(team@.take(i as int), k) || k == team@[i as int]@) by {
                if in_team(team@.take(i + 1), k) && k != team@[i as int]@ {
                    let j = choose|j: int| 0 <= j < i + 1 && (#[trigger] team@.take(i + 1)[j])@ == k;
                    assert(team@.take(i as int)[j] == team@.take(i + 1)[j]);
                }
                if in_team(team@.take(i as int), k) {
                    let j = choose|j: int| 0 <= j < i && (#[trigger] team@.take(i as int)[j])@ == k;
                    assert(team@.take(i as int)[j] == team@.take(i + 1)[j]);
                }
                if k == team@[i as int]@ {
                    assert(team@.take(i + 1)[i as int] == team@[i as int]);
                }
            };
        }
        i = i + 1;
    }
    assert(team@.take(i as int) =~= team@);
    cast_vote(&mut votes, user, vote);
    votes
}

/// Decides what a decision command does. `existing` is the issue's live decision, if
/// any. A command of a non-member is refused. Without a live decision, the command opens
/// one with the command's resolution, a window of ten days from `ctx.now` and a finalize
/// job at its end. With one, the member's vote is revised and the window stays as it was.
pub fn handle_command(
    ctx: &CommandContext,
    existing: Option<IssueDecisionState>,
    cmd: DecisionCommand,
) -> (r: Result<CommandOutcome, DecisionError>)
    requires
        existing matches Some(st) ==> st.wf(),
    ensures
        !ctx.is_team_member ==> (r matches Ok(CommandOutcome::Denied { comment }) && comment@
            == denial_text()),
        ctx.is_team_member && existing is None ==> match r {
            Err(e) => e == DecisionError::WindowOutOfRange && ctx.now + DECISION_WINDOW_SECS
                > i64::MAX,
            Ok(CommandOutcome::Opened { state, job, comment }) => {
                &&& ctx.now + DECISION_WINDOW_SECS <= i64::MAX
                &&& state.issue_id == ctx.issue_id
                &&& state.initiator@ == ctx.user@
                &&& state.period_start == ctx.now
                &&& state.period_end == ctx.now + DECISION_WINDOW_SECS
                &&& state.resolution == cmd.resolution
                &&& state.reversibility == cmd.reversibility
                &&& opening_votes(state.votes_spec(), ctx.team_members@, ctx.user@, status_of(*ctx, cmd))
                &&& job.name@ == DECISION_PROCESS_JOB_NAME@
                &&& job.due_at == state.period_end
                &&& job.metadata.message@ == job_message()
                &&& job.metadata.issue_url@ == ctx.issue_url@
                &&& job.metadata.status == cmd.resolution
                &&& comment@ == status_comment(state.votes_spec())
            },
            _ => false,
        },
        ctx.is_team_member && existing is Some ==> match r {
            Ok(CommandOutcome::Updated { state, comment }) => {
                let old = existing->Some_0;
                &&& state.issue_id == old.issue_id
                &&& state.initiator == old.initiator
                &&& state.period_start == old.period_start
                &&& state.period_end == old.period_end
                &&& state.resolution == old.resolution
                &&& state.reversibility == old.reversibility
                &&& revised_votes(state.votes_spec(), old.votes_spec(), ctx.user@, status_of(*ctx, cmd))
                &&& comment@ == status_comment(state.votes_spec())
            },
            _ => false,
        },
{
    if !ctx.is_team_member {
        return Ok(
            CommandOutcome::Denied {
                comment: String::from_str("Only team members can be part of the decision process."),
            },
        );
    }
    let vote = UserStatus {
        comment_id: ctx.comment_id.clone(),
        text: ctx.text.clone(),
        resolution: cmd.resolution,
        reversibility: cmd.reversibility,
    };
    match existing {
        Some(st) => {
            let mut state = st;
            cast_vote(&mut state.votes, &ctx.user, vote);
            let comment = build_status_comment(&state.votes);
            Ok(CommandOutcome::Updated { state, comment })
        },
        None => {
            let end = match window_end(ctx.now) {
                Some(e) => e,
                None => {
                    return Err(DecisionError::WindowOutOfRange);
                },
            };
            let votes = opening_table(&ctx.team_members, &ctx.user, vote);
            let state = IssueDecisionState {
                issue_id: ctx.issue_id,
                initiator: ctx.user.clone(),
                period_start: ctx.now,
                period_end: end,
                votes,
                reversibility: cmd.reversibility,
                resolution: cmd.resolution,
            };
            let job = ScheduledJob {
                name: DECISION_PROCESS_JOB_NAME.to_owned(),
                due_at: end,
                metadata: DecisionProcessActionMetadata {
                    message: String::from_str("The decision window has elapsed."),
                    issue_url: ctx.issue_url.clone(),
                    status: cmd.resolution,
                },
            };
            let comment = build_status_comment(&state.votes);
            Ok(CommandOutcome::Opened { state, job, comment })
        },
    }
}


/// A member who votes twice keeps the second vote as current, and the first vote is the
/// last entry of the history, after whatever the history held before: no vote is lost
/// or repeated. A member with no earlier vote ends with exactly the first vote in the
/// history. Other members' entries do not change.
pub proof fn lemma_second_vote_archives_first(
    s0: Seq<MemberVotesView>,
    s1: Seq<MemberVotesView>,
    s2: Seq<MemberVotesView>,
    user: Seq<char>,
    first: UserStatus,
    second: UserStatus,
)
    requires
        revised_votes(s1, s0, user, first),
        revised_votes(s2, s1, user, second),
    ensures
        record_of(s2, user) matches Some(m) && m.current == Some(second) && m.history == match record_of(s0, user) {
            Some(m0) => m0.history + archived(m0.current),
            None => Seq::empty(),
        }.push(first),
        (record_of(s0, user) is None || record_of(s0, user) == Some(listed(None, user))) ==> record_of(s2, user)->Some_0.history == seq![first],
        forall|k: Seq<char>| k != user ==> #[trigger] record_of(s2, k) == record_of(s0, k),
{
    match record_of(s0, user) {
        Some(m0) => {
            assert(m0.history + archived(m0.current) + seq![first] =~= (m0.history + archived(m0.current)).push(first));
            if record_of(s0, user) == Some(listed(None, user)) {
                assert(m0.history + archived(m0.current) + seq![first] =~= seq![first]);
            }
        },
        None => {
            assert(Seq::<UserStatus>::empty() + seq![first] =~= seq![first]);
            assert(Seq::<UserStatus>::empty().push(first) =~= seq![first]);
        },
    }
}

} // verus!
