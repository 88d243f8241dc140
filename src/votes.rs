use vstd::prelude::*;

use crate::command::{resolution_name, resolution_to_str, Resolution, Reversibility};

verus! {

/// One team member's vote, as cast in one comment.
#[derive(Debug, Clone)]
pub struct UserStatus {
    pub comment_id: String,
    pub text: String,
    pub resolution: Resolution,
    pub reversibility: Reversibility,
}

/// A team member's current vote and the votes it superseded, oldest first.
#[derive(Debug, Clone)]
pub struct MemberVotes {
    pub member: String,
    pub current: Option<UserStatus>,
    pub history: Vec<UserStatus>,
}

pub struct MemberVotesView {
    pub member: Seq<char>,
    pub current: Option<UserStatus>,
    pub history: Seq<UserStatus>,
}

impl View for MemberVotes {
    type V = MemberVotesView;

    open spec fn view(&self) -> MemberVotesView {
        MemberVotesView { member: self.member@, current: self.current, history: self.history@ }
    }
}

/// Code-point lexicographic order on names, the order of `str`'s `Ord`.
pub open spec fn name_lt(a: Seq<char>, b: Seq<char>) -> bool
    decreases a.len(),
{
    if a.len() == 0 {
        b.len() > 0
    } else if b.len() == 0 {
        false
    } else if a[0] != b[0] {
        a[0] < b[0]
    } else {
        name_lt(a.drop_first(), b.drop_first())
    }
}

pub proof fn lemma_name_lt_irreflexive(a: Seq<char>)
    ensures
        !name_lt(a, a),
    decreases a.len(),
{
    if a.len() > 0 {
        lemma_name_lt_irreflexive(a.drop_first());
    }
}

pub proof fn lemma_name_lt_transitive(a: Seq<char>, b: Seq<char>, c: Seq<char>)
    requires
        name_lt(a, b),
        name_lt(b, c),
    ensures
        name_lt(a, c),
    decreases a.len(),
{
    if a.len() > 0 && b.len() > 0 && c.len() > 0 && a[0] == b[0] && b[0] == c[0] {
        lemma_name_lt_transitive(a.drop_first(), b.drop_first(), c.drop_first());
    }
}

pub proof fn lemma_name_lt_total(a: Seq<char>, b: Seq<char>)
    requires
        a != b,
    ensures
        name_lt(a, b) || name_lt(b, a),
    decreases a.len(),
{
    if a.len() > 0 && b.len() > 0 && a[0] == b[0] {
        if a.drop_first() == b.drop_first() {
            assert(a.drop_first().len() == b.drop_first().len());
            assert forall|i: int| 0 <= i < a.len() implies a[i] == b[i] by {
                if i > 0 {
                    assert(a[i] == a.drop_first()[i - 1]);
                    assert(b[i] == b.drop_first()[i - 1]);
                }
            };
            assert(a =~= b);
        } else {
            lemma_name_lt_total(a.drop_first(), b.drop_first());
        }
    } else if a.len() == 0 && b.len() == 0 {
        assert(a =~= b);
    }
}

/// Whether name `a` sorts strictly before name `b`.
pub fn name_less(a: &String, b: &String) -> (r: bool)
    ensures
        r == name_lt(a@, b@),
{
    let sa = a.as_str();
    let sb = b.as_str();
    let na = sa.unicode_len();
    let nb = sb.unicode_len();
    let mut i: usize = 0;
    assert(a@.skip(0) =~= a@ && b@.skip(0) =~= b@);
    while i < na && i < nb
        invariant
            na == a@.len(),
            nb == b@.len(),
            sa@ == a@,
            sb@ == b@,
            i <= na,
            i <= nb,
            name_lt(a@, b@) == name_lt(a@.skip(i as int), b@.skip(i as int)),
        decreases na - i,
    {
        let ca = sa.get_char(i);
        let cb = sb.get_char(i);
        if ca != cb {
            return ca < cb;
        }
        assert(a@.skip(i as int).drop_first() =~= a@.skip(i + 1));
        assert(b@.skip(i as int).drop_first() =~= b@.skip(i + 1));
        i = i + 1;
    }
    i < nb
}

pub open spec fn votes_view(v: Seq<MemberVotes>) -> Seq<MemberVotesView> {
    v.map_values(|m: MemberVotes| m@)
}

/// Members appear once each, sorted by name.
pub open spec fn sorted(s: Seq<MemberVotesView>) -> bool {
    forall|i: int, j: int| 0 <= i < j < s.len() ==> name_lt(#[trigger] s[i].member, #[trigger] s[j].member)
}

pub open spec fn has_member(s: Seq<MemberVotesView>, k: Seq<char>) -> bool {
    exists|i: int| 0 <= i < s.len() && s[i].member == k
}

/// The votes recorded for member `k`, if the member has an entry.
pub open spec fn record_of(s: Seq<MemberVotesView>, k: Seq<char>) -> Option<MemberVotesView> {
    if has_member(s, k) {
        Some(s[choose|i: int| 0 <= i < s.len() && s[i].member == k])
    } else {
        None
    }
}

/// A superseded current vote, as the list of votes it adds to the history.
pub open spec fn archived(current: Option<UserStatus>) -> Seq<UserStatus> {
    match current {
        Some(s) => seq![s],
        None => Seq::empty(),
    }
}

/// Member `k`'s entry after a vote: the vote becomes current and any earlier
/// current vote moves to the end of the history.
pub open spec fn voted(r: Option<MemberVotesView>, k: Seq<char>, vote: UserStatus) -> MemberVotesView {
    match r {
        Some(m) => MemberVotesView {
            member: k,
            current: Some(vote),
            history: m.history + archived(m.current),
        },
        None => MemberVotesView { member: k, current: Some(vote), history: Seq::empty() },
    }
}

/// Member `k`'s entry when the member is listed: unchanged if present, else without votes.
pub open spec fn listed(r: Option<MemberVotesView>, k: Seq<char>) -> MemberVotesView {
    match r {
        Some(m) => m,
        None => MemberVotesView { member: k, current: None, history: Seq::empty() },
    }
}

pub proof fn lemma_record_at(s: Seq<MemberVotesView>, i: int)
    requires
        sorted(s),
        0 <= i < s.len(),
    ensures
        record_of(s, s[i].member) == Some(s[i]),
{
    let k = s[i].member;
    assert(has_member(s, k));
    let j = choose|j: int| 0 <= j < s.len() && s[j].member == k;
    if j < i {
        lemma_name_lt_irreflexive(k);
        assert(name_lt(s[j].member, s[i].member));
    } else if i < j {
        lemma_name_lt_irreflexive(k);
        assert(name_lt(s[i].member, s[j].member));
    }
}

/// Where name `k` stands in the sorted list: the first entry not before it.
fn locate(votes: &Vec<MemberVotes>, k: &String) -> (r: (bool, usize))
    requires
        sorted(votes_view(votes@)),
    ensures
        r.1 <= votes@.len(),
        forall|i: int| 0 <= i < r.1 ==> name_lt(#[trigger] votes@[i].member@, k@),
        r.0 ==> r.1 < votes@.len() && votes@[r.1 as int].member@ == k@,
        !r.0 ==> (r.1 < votes@.len() ==> name_lt(k@, votes@[r.1 as int].member@)),
{
    let mut i: usize = 0;
    while i < votes.len() && name_less(&votes[i].member, k)
        invariant
            i <= votes@.len(),
            forall|j: int| 0 <= j < i ==> name_lt(#[trigger] votes@[j].member@, k@),
        decreases votes@.len() - i,
    {
        i = i + 1;
    }
    if i < votes.len() {
        let found = votes[i].member == *k;
        if !found {
            proof {
                lemma_name_lt_total(k@, votes@[i as int].member@);
            }
        }
        (found, i)
    } else {
        (false, i)
    }
}

proof fn lemma_insert_sorted(s: Seq<MemberVotesView>, p: int, m: MemberVotesView)
    requires
        sorted(s),
        0 <= p <= s.len(),
        forall|i: int| 0 <= i < p ==> name_lt(#[trigger] s[i].member, m.member),
        p < s.len() ==> name_lt(m.member, s[p].member),
    ensures
        record_of(s, m.member) is None,
        sorted(s.insert(p, m)),
        record_of(s.insert(p, m), m.member) == Some(m),
        forall|k: Seq<char>| k != m.member ==> record_of(s.insert(p, m), k) == #[trigger] record_of(s, k),
{
    let t = s.insert(p, m);
    assert(!has_member(s, m.member)) by {
        lemma_name_lt_irreflexive(m.member);
        assert forall|i: int| 0 <= i < s.len() implies s[i].member != m.member by {
            if i > p {
                assert(name_lt(s[p].member, s[i].member));
                lemma_name_lt_transitive(m.member, s[p].member, s[i].member);
            }
        };
    };
    assert forall|i: int, j: int| 0 <= i < j < t.len() implies name_lt(#[trigger] t[i].member, #[trigger] t[j].member) by {
        if j == p {
        } else if i == p {
            if j > p + 1 {
                assert(name_lt(s[p].member, s[j - 1].member));
                lemma_name_lt_transitive(m.member, s[p].member, s[j - 1].member);
            }
        } else {
            let si = if i < p { i } else { i - 1 };
            let sj = if j < p { j } else { j - 1 };
            assert(t[i] == s[si] && t[j] == s[sj]);
        }
    };
    assert(t[p] == m);
    lemma_record_at(t, p);
    assert forall|k: Seq<char>| k != m.member implies record_of(t, k) == #[trigger] record_of(s, k) by {
        if has_member(s, k) {
            let i = choose|i: int| 0 <= i < s.len() && s[i].member == k;
            lemma_record_at(s, i);
            let ti = if i < p { i } else { i + 1 };
            assert(t[ti] == s[i]);
            lemma_record_at(t, ti);
        } else if has_member(t, k) {
            let i = choose|i: int| 0 <= i < t.len() && t[i].member == k;
            let si = if i < p { i } else { i - 1 };
            assert(s[si] == t[i]);
        }
    };
}

proof fn lemma_update_sorted(s: Seq<MemberVotesView>, p: int, m: MemberVotesView)
    requires
        sorted(s),
        0 <= p < s.len(),
        s[p].member == m.member,
    ensures
        sorted(s.update(p, m)),
        record_of(s.update(p, m), m.member) == Some(m),
        forall|k: Seq<char>| k != m.member ==> record_of(s.update(p, m), k) == #[trigger] record_of(s, k),
{
    let t = s.update(p, m);
    assert forall|i: int, j: int| 0 <= i < j < t.len() implies name_lt(#[trigger] t[i].member, #[trigger] t[j].member) by {
        assert(t[i].member == s[i].member && t[j].member == s[j].member);
    };
    lemma_record_at(t, p);
    assert forall|k: Seq<char>| k != m.member implies record_of(t, k) == #[trigger] record_of(s, k) by {
        if has_member(s, k) {
            let i = choose|i: int| 0 <= i < s.len() && s[i].member == k;
            lemma_record_at(s, i);
            lemma_record_at(t, i);
        } else if has_member(t, k) {
            let i = choose|i: int| 0 <= i < t.len() && t[i].member == k;
            assert(s[i].member == k);
        }
    };
}

/// Records `vote` as member `member`'s current vote; an earlier current vote of the
/// member moves to the end of the member's history. Other members are untouched.
pub fn cast_vote(votes: &mut Vec<MemberVotes>, member: &String, vote: UserStatus)
    requires
        sorted(votes_view(old(votes)@)),
    ensures
        sorted(votes_view(final(votes)@)),
        record_of(votes_view(final(votes)@), member@) == Some(
            voted(record_of(votes_view(old(votes)@), member@), member@, vote),
        ),
        forall|k: Seq<char>| k != member@ ==> #[trigger] record_of(votes_view(final(votes)@), k) == record_of(votes_view(old(votes)@), k),
{
    let ghost s = votes_view(votes@);
    let (found, p) = locate(votes, member);
    if found {
        proof {
            assert(s[p as int] == votes@[p as int]@);
            lemma_record_at(s, p as int);
        }
        let previous = votes.remove(p);
        let mut history = previous.history;
        match previous.current {
            Some(c) => {
                history.push(c);
            },
            None => {},
        }
        assert(history@ =~= s[p as int].history + archived(s[p as int].current));
        let entry = MemberVotes { member: member.clone(), current: Some(vote), history };
        votes.insert(p, entry);
        proof {
            assert(votes_view(votes@) =~= s.update(p as int, entry@));
            lemma_update_sorted(s, p as int, entry@);
        }
    } else {
        let entry = MemberVotes { member: member.clone(), current: Some(vote), history: Vec::new() };
        votes.insert(p, entry);
        proof {
            assert(votes_view(votes@) =~= s.insert(p as int, entry@));
            assert(entry@.history =~= Seq::<UserStatus>::empty());
            assert forall|i: int| 0 <= i < p implies name_lt(#[trigger] s[i].member, entry@.member) by {
                assert(s[i] == votes@[i]@);
            };
            if p < s.len() {
                assert(s[p as int] == old(votes)@[p as int]@);
            }
            lemma_insert_sorted(s, p as int, entry@);
        }
    }
}

/// Lists member `member` with no vote, unless the member is listed already.
pub fn add_member(votes: &mut Vec<MemberVotes>, member: &String)
    requires
        sorted(votes_view(old(votes)@)),
    ensures
        sorted(votes_view(final(votes)@)),
        record_of(votes_view(final(votes)@), member@) == Some(
            listed(record_of(votes_view(old(votes)@), member@), member@),
        ),
        forall|k: Seq<char>| k != member@ ==> #[trigger] record_of(votes_view(final(votes)@), k) == record_of(votes_view(old(votes)@), k),
{
    let ghost s = votes_view(votes@);
    let (found, p) = locate(votes, member);
    if found {
        proof {
            assert(s[p as int] == votes@[p as int]@);
            lemma_record_at(s, p as int);
        }
    } else {
        let entry = MemberVotes { member: member.clone(), current: None, history: Vec::new() };
        votes.insert(p, entry);
        proof {
            assert(votes_view(votes@) =~= s.insert(p as int, entry@));
            assert(entry@.history =~= Seq::<UserStatus>::empty());
            assert forall|i: int| 0 <= i < p implies name_lt(#[trigger] s[i].member, entry@.member) by {
                assert(s[i] == votes@[i]@);
            };
            if p < s.len() {
                assert(s[p as int] == old(votes)@[p as int]@);
            }
            lemma_insert_sorted(s, p as int, entry@);
        }
    }
}

/// The first two lines of the status table.
pub open spec fn table_header() -> Seq<char> {
    "| Team member | State |\n|-------------|-------|"@
}

/// Superseded votes, struck through, oldest first.
pub open spec fn history_cells(h: Seq<UserStatus>) -> Seq<char>
    decreases h.len(),
{
    if h.len() == 0 {
        Seq::empty()
    } else {
        history_cells(h.drop_last()) + " ~~"@ + resolution_name(h.last().resolution) + "~~ "@
    }
}

/// The current vote in bold, or an empty cell.
pub open spec fn current_cell(c: Option<UserStatus>) -> Seq<char> {
    match c {
        Some(s) => " **"@ + resolution_name(s.resolution) + "** |"@,
        None => " |"@,
    }
}

/// A member's row of the status table.
pub open spec fn table_row(m: MemberVotesView) -> Seq<char> {
    "\n| "@ + m.member + " |"@ + history_cells(m.history) + current_cell(m.current)
}

pub open spec fn table_rows(s: Seq<MemberVotesView>) -> Seq<char>
    decreases s.len(),
{
    if s.len() == 0 {
        Seq::empty()
    } else {
        table_rows(s.drop_last()) + table_row(s.last())
    }
}

/// The Markdown status table: one row per member, in the order of the list.
pub open spec fn status_comment(s: Seq<MemberVotesView>) -> Seq<char> {
    table_header() + table_rows(s)
}

fn push_row(comment: &mut String, m: &MemberVotes)
    ensures
        final(comment)@ == old(comment)@ + table_row(m@),
{
    comment.append("\n| ");
    comment.append(m.member.as_str());
    comment.append(" |");
    let ghost start = comment@;
    let mut j: usize = 0;
    assert(m.history@.take(0) =~= Seq::<UserStatus>::empty());
    assert(comment@ =~= start + history_cells(m.history@.take(0)));
    while j < m.history.len()
        invariant
            j <= m.history@.len(),
            start == old(comment)@ + "\n| "@ + m.member@ + " |"@,
            comment@ == start + history_cells(m.history@.take(j as int)),
        decreases m.history@.len() - j,
    {
        let name = resolution_to_str(&m.history[j].resolution);
        comment.append(" ~~");
        comment.append(name.as_str());
        comment.append("~~ ");
        assert(m.history@.take(j + 1).drop_last() =~= m.history@.take(j as int));
        j = j + 1;
        assert(comment@ =~= start + history_cells(m.history@.take(j as int)));
    }
    assert(m.history@.take(j as int) =~= m.history@);
    match &m.current {
        Some(st) => {
            let name = resolution_to_str(&st.resolution);
            comment.append(" **");
            comment.append(name.as_str());
            comment.append("** |");
        },
        None => {
            comment.append(" |");
        },
    }
    assert(comment@ =~= old(comment)@ + table_row(m@));
}

/// Renders the status table of a decision.
pub fn build_status_comment(votes: &Vec<MemberVotes>) -> (r: String)
    ensures
        r@ == status_comment(votes_view(votes@)),
{
    let mut comment = String::from_str("| Team member | State |\n|-------------|-------|");
    let ghost s = votes_view(votes@);
    let mut i: usize = 0;
    assert(s.take(0) =~= Seq::<MemberVotesView>::empty());
    assert(comment@ =~= status_comment(s.take(0)));
    while i < votes.len()
        invariant
            i <= votes@.len(),
            s == votes_view(votes@),
            comment@ == status_comment(s.take(i as int)),
        decreases votes@.len() - i,
    {
        push_row(&mut comment, &votes[i]);
        assert(s.take(i + 1).drop_last() =~= s.take(i as int));
        assert(s[i as int] == votes@[i as int]@);
        i = i + 1;
        assert(comment@ =~= status_comment(s.take(i as int)));
    }
    assert(s.take(i as int) =~= s);
    comment
}

} // verus!
