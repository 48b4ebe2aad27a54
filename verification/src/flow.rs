//! Parse, ask for the marked args that got no value, then parse again with the answers.
//!
//! The decisions of a prompting parse, apart from the terminal and clap's parser: which marks
//! are pending, which are blocked by a conflict, what to ask next, and what a prompt's or a trial
//! parse's outcome leads to. Each answer is checked with a trial parse as soon as it is given;
//! a rejected answer is asked again with clap's message.

use vstd::prelude::*;
use crate::interactive::PromptError;
use crate::text::str_eq;

verus! {

/// Where a mark's arg got its value in the first parse.
pub enum ValueSourceKind {
    /// No value.
    Absent,
    /// Its default, with the default's raw value if clap kept one.
    Default(Option<String>),
    /// The command line or an env var.
    Given,
    /// A `default_value_if` whose condition held: it set the value, or cleared the plain
    /// default.
    ConditionalDefault,
}

/// Where clap says an arg's value came from.
#[derive(Clone, Copy, PartialEq, Eq, Structural, Debug)]
pub enum ClapValueSource {
    CommandLine,
    EnvVariable,
    /// A default: the plain one, or a `default_value_if` whose condition held.
    DefaultValue,
}

/// Where a mark's arg got its value, from what clap reports of it: the source clap gives
/// (`None` for no value), whether the arg has a plain default, whether a default value is still
/// there once that plain default is taken away, and the default's raw value.
///
/// clap reports a conditional default as a plain one, and one that cleared the value as no
/// value at all: an arg with a plain default that got no value had it cleared by a condition,
/// and a default that stays without the plain one came from a condition.
pub fn source_kind(
    source: Option<ClapValueSource>,
    plain_default: bool,
    default_without_plain: bool,
    raw: Option<String>,
) -> (kind: ValueSourceKind)
    ensures
        match source {
            None => if plain_default { kind is ConditionalDefault } else { kind is Absent },
            Some(ClapValueSource::DefaultValue) => if default_without_plain {
                kind is ConditionalDefault
            } else {
                kind == ValueSourceKind::Default(raw)
            },
            Some(_) => kind is Given,
        },
{
    match source {
        None => if plain_default { ValueSourceKind::ConditionalDefault } else { ValueSourceKind::Absent },
        Some(ClapValueSource::DefaultValue) => if default_without_plain {
            ValueSourceKind::ConditionalDefault
        } else {
            ValueSourceKind::Default(raw)
        },
        Some(_) => ValueSourceKind::Given,
    }
}

/// What the first parse says of one mark.
pub struct MarkState {
    /// The command at the mark's path defines the mark's arg.
    pub arg_defined: bool,
    /// The user took the mark's subcommand path.
    pub on_path: bool,
    /// Where its value came from.
    pub source: ValueSourceKind,
}

/// A mark still to be asked: its index among the marks, and its default as the current value.
pub struct PendingMark {
    pub mark: usize,
    pub current: Option<String>,
}

/// A pending mark as plain values.
pub open spec fn pending_view(p: PendingMark) -> (int, Option<Seq<char>>) {
    (p.mark as int, match p.current {
        Some(c) => Some(c@),
        None => None,
    })
}

/// The marks on the path the user took that got no value or only their plain default, with the
/// default's value, in mark order.
pub open spec fn pending_of(states: Seq<MarkState>) -> Seq<(int, Option<Seq<char>>)>
    decreases states.len(),
{
    if states.len() == 0 {
        Seq::empty()
    } else {
        let rest = pending_of(states.drop_last());
        let s = states.last();
        let i = states.len() - 1;
        if !s.arg_defined || !s.on_path {
            rest
        } else {
            match s.source {
                ValueSourceKind::Absent => rest.push((i, None)),
                ValueSourceKind::Default(raw) => rest.push((i, match raw {
                    Some(r) => Some(r@),
                    None => None,
                })),
                ValueSourceKind::Given => rest,
                ValueSourceKind::ConditionalDefault => rest,
            }
        }
    }
}

/// The marks to ask for, from what the first parse says of each.
pub fn pending(states: &Vec<MarkState>) -> (out: Vec<PendingMark>)
    ensures
        out@.map_values(|p: PendingMark| pending_view(p)) == pending_of(states@),
{
    let mut out: Vec<PendingMark> = Vec::new();
    let mut i: usize = 0;
    while i < states.len()
        invariant
            i <= states@.len(),
            out@.map_values(|p: PendingMark| pending_view(p)) == pending_of(states@.subrange(0, i as int)),
        decreases states@.len() - i,
    {
        let ghost prefix = states@.subrange(0, i + 1);
        assert(prefix.drop_last() =~= states@.subrange(0, i as int));
        assert(prefix.last() == states@[i as int]);
        let ghost before = out@;
        let s = &states[i];
        if s.arg_defined && s.on_path {
            match &s.source {
                ValueSourceKind::Absent => out.push(PendingMark { mark: i, current: None }),
                ValueSourceKind::Default(raw) => {
                    let current = match raw {
                        Some(r) => Some(r.clone()),
                        None => None,
                    };
                    out.push(PendingMark { mark: i, current });
                },
                ValueSourceKind::Given => {},
                ValueSourceKind::ConditionalDefault => {},
            }
        }
        proof {
            if out@.len() > before.len() {
                assert(out@.map_values(|p: PendingMark| pending_view(p))
                    =~= before.map_values(|p: PendingMark| pending_view(p)).push(pending_view(out@.last())));
            }
        }
        i = i + 1;
    }
    assert(states@.subrange(0, i as int) =~= states@);
    out
}

/// Whether a mark is asked for: its arg is defined on the path the user took, and it got no
/// value from the command line, an env var or a conditional default whose condition held.
pub open spec fn unset(s: MarkState) -> bool {
    s.arg_defined && s.on_path && !(s.source is Given) && !(s.source is ConditionalDefault)
}

/// The value a mark's prompt starts from: its default's raw value, if it got one.
pub open spec fn default_of(source: ValueSourceKind) -> Option<Seq<char>> {
    match source {
        ValueSourceKind::Default(Some(raw)) => Some(raw@),
        _ => None,
    }
}

/// The marks asked for are exactly the unset ones, each once, in mark order, each starting
/// from its default: a mark whose arg the user passed on the command line or through its env
/// var, or whose conditional default fired, is never asked.
pub proof fn law_pending_exactly_unset(states: Seq<MarkState>)
    ensures
        forall|k: int| 0 <= k < pending_of(states).len() ==> {
            let i = (#[trigger] pending_of(states)[k]).0;
            &&& 0 <= i < states.len()
            &&& unset(states[i])
            &&& pending_of(states)[k].1 == default_of(states[i].source)
        },
        forall|a: int, b: int| 0 <= a < b < pending_of(states).len() ==>
            (#[trigger] pending_of(states)[a]).0 < (#[trigger] pending_of(states)[b]).0,
        forall|i: int| 0 <= i < states.len() && #[trigger] unset(states[i]) ==>
            exists|k: int| 0 <= k < pending_of(states).len() && (#[trigger] pending_of(states)[k]).0 == i,
    decreases states.len(),
{
    if states.len() > 0 {
        let rest = states.drop_last();
        law_pending_exactly_unset(rest);
        let p = pending_of(states);
        let q = pending_of(rest);
        let n = states.len() - 1;
        assert forall|i: int| 0 <= i < rest.len() implies rest[i] == states[i] by {}
        if unset(states.last()) {
            assert(p.len() == q.len() + 1);
            assert forall|k: int| 0 <= k < q.len() implies p[k] == q[k] by {}
            assert(p[q.len() as int].0 == n);
            assert forall|i: int| 0 <= i < states.len() && #[trigger] unset(states[i]) implies
                exists|k: int| 0 <= k < p.len() && (#[trigger] p[k]).0 == i by {
                if i < n {
                    assert(unset(rest[i]));
                    let k = choose|k: int| 0 <= k < q.len() && (#[trigger] q[k]).0 == i;
                    assert(p[k].0 == i);
                } else {
                    assert(p[q.len() as int].0 == i);
                }
            }
        } else {
            assert(p == q);
            assert forall|i: int| 0 <= i < states.len() && #[trigger] unset(states[i]) implies
                exists|k: int| 0 <= k < p.len() && (#[trigger] p[k]).0 == i by {
                assert(i < n);
                assert(unset(rest[i]));
            }
        }
    }
}

/// Whether a parse asks at all: only with marks to ask for and a terminal to ask on. Otherwise
/// it parses as clap would, without prompting.
pub fn prompts_wanted(mark_count: usize, terminal: bool) -> (ask: bool)
    ensures
        ask == (mark_count > 0 && terminal),
{
    mark_count > 0 && terminal
}

/// An arg at a mark's command level, other than the mark's own, as far as conflicts go.
pub struct LevelArg {
    pub id: String,
    /// The user passed it, on the command line or through its env var.
    pub explicit: bool,
    /// It is exclusive: it conflicts with every other arg.
    pub exclusive: bool,
    /// The marked arg declares a conflict with it.
    pub conflicts_with_mark: bool,
    /// It declares a conflict with the marked arg.
    pub mark_conflicts: bool,
    /// It shares a group that allows one member with the marked arg.
    pub group_mate: bool,
}

/// A mark and what its command level says of conflicts.
pub struct MarkInfo {
    /// Subcommand names from the root.
    pub path: Vec<String>,
    /// The marked arg's id.
    pub id: String,
    /// The mark's command, its parse and its arg were all found.
    pub level_found: bool,
    /// The other args of its level.
    pub others: Vec<LevelArg>,
}

/// An accepted answer: the mark's index and the value.
pub struct Answer {
    pub mark: usize,
    pub value: String,
}

/// A path as plain values.
pub open spec fn path_view(path: Vec<String>) -> Seq<Seq<char>> {
    path@.map_values(|s: String| s@)
}

/// Whether an accepted answer is for the arg `id` at `path`.
pub open spec fn answered(marks: Seq<MarkInfo>, answers: Seq<Answer>, path: Seq<Seq<char>>, id: Seq<char>) -> bool {
    exists|k: int| 0 <= k < answers.len() && (#[trigger] answers[k]).mark < marks.len()
        && path_view(marks[answers[k].mark as int].path) == path && marks[answers[k].mark as int].id@ == id
}

/// Whether two args cannot both be set.
pub open spec fn in_conflict(o: LevelArg) -> bool {
    o.exclusive || o.conflicts_with_mark || o.mark_conflicts || o.group_mate
}

/// Whether the mark `m` conflicts with an arg the user passed or an earlier answer. Answers go
/// in as default values, which clap never checks for conflicts, so asking then would let the
/// parse land in a state clap rejects when typed.
pub open spec fn blocked(marks: Seq<MarkInfo>, answers: Seq<Answer>, m: int) -> bool {
    let info = marks[m];
    info.level_found && exists|j: int| 0 <= j < info.others@.len()
        && in_conflict(#[trigger] info.others@[j])
        && (info.others@[j].explicit || answered(marks, answers, path_view(info.path), info.others@[j].id@))
}

fn same_path(a: &Vec<String>, b: &Vec<String>) -> (r: bool)
    ensures
        r == (path_view(*a) == path_view(*b)),
{
    if a.len() != b.len() {
        proof {
            assert(path_view(*a).len() != path_view(*b).len());
        }
        return false;
    }
    let mut i: usize = 0;
    while i < a.len()
        invariant
            i <= a@.len(),
            a@.len() == b@.len(),
            forall|k: int| 0 <= k < i ==> (#[trigger] a@[k])@ == b@[k]@,
        decreases a@.len() - i,
    {
        if !str_eq(a[i].as_str(), b[i].as_str()) {
            proof {
                assert(path_view(*a)[i as int] != path_view(*b)[i as int]);
            }
            return false;
        }
        i = i + 1;
    }
    assert(path_view(*a) =~= path_view(*b));
    true
}

fn is_answered(marks: &Vec<MarkInfo>, answers: &Vec<Answer>, path: &Vec<String>, id: &str) -> (r: bool)
    ensures
        r == answered(marks@, answers@, path_view(*path), id@),
{
    let mut k: usize = 0;
    while k < answers.len()
        invariant
            k <= answers@.len(),
            forall|j: int| 0 <= j < k ==> !((#[trigger] answers@[j]).mark < marks@.len()
                && path_view(marks@[answers@[j].mark as int].path) == path_view(*path)
                && marks@[answers@[j].mark as int].id@ == id@),
        decreases answers@.len() - k,
    {
        let m = answers[k].mark;
        if m < marks.len() && same_path(&marks[m].path, path) && str_eq(marks[m].id.as_str(), id) {
            return true;
        }
        k = k + 1;
    }
    false
}

/// Whether the mark `m` conflicts with an arg the user passed or an earlier answer.
pub fn is_blocked(marks: &Vec<MarkInfo>, answers: &Vec<Answer>, m: usize) -> (r: bool)
    requires
        m < marks@.len(),
    ensures
        r == blocked(marks@, answers@, m as int),
{
    let info = &marks[m];
    if !info.level_found {
        return false;
    }
    let mut j: usize = 0;
    while j < info.others.len()
        invariant
            m < marks@.len(),
            info == &marks@[m as int],
            info.level_found,
            j <= info.others@.len(),
            forall|k: int| 0 <= k < j ==> !(in_conflict(#[trigger] info.others@[k])
                && (info.others@[k].explicit || answered(marks@, answers@, path_view(info.path), info.others@[k].id@))),
        decreases info.others@.len() - j,
    {
        let o = &info.others[j];
        let conflict = o.exclusive || o.conflicts_with_mark || o.mark_conflicts || o.group_mate;
        if conflict && (o.explicit || is_answered(marks, answers, &info.path, o.id.as_str())) {
            assert(in_conflict(info.others@[j as int]));
            return true;
        }
        j = j + 1;
    }
    false
}

} // verus!

verus! {

/// An arg counts as answered at a path exactly when an accepted answer belongs to a mark with
/// that very path and that very id; with no answers, nothing is answered.
pub proof fn law_answered_exactly(marks: Seq<MarkInfo>, answers: Seq<Answer>, path: Seq<Seq<char>>, id: Seq<char>)
    ensures
        answered(marks, answers, path, id) ==> exists|k: int| 0 <= k < answers.len()
            && (#[trigger] answers[k]).mark < marks.len()
            && marks[answers[k].mark as int].id@ == id
            && path_view(marks[answers[k].mark as int].path) == path,
        (forall|k: int| 0 <= k < answers.len() ==> (#[trigger] answers[k]).mark < marks.len()
            ==> marks[answers[k].mark as int].id@ != id) ==> !answered(marks, answers, path, id),
        answers.len() == 0 ==> !answered(marks, answers, path, id),
{
}

/// An answer for a mark that is none of the args in conflict with mark `m` (another id, or
/// another command path) leaves `m` exactly as blocked as it was.
pub proof fn law_unrelated_answer_keeps_blocked(marks: Seq<MarkInfo>, answers: Seq<Answer>, a: Answer, m: int)
    requires
        0 <= m < marks.len(),
        a.mark < marks.len(),
        path_view(marks[a.mark as int].path) != path_view(marks[m].path)
            || forall|j: int| 0 <= j < marks[m].others@.len() && in_conflict(#[trigger] marks[m].others@[j])
                ==> marks[m].others@[j].id@ != marks[a.mark as int].id@,
    ensures
        blocked(marks, answers.push(a), m) == blocked(marks, answers, m),
{
    let info = marks[m];
    let more = answers.push(a);
    assert forall|j: int| 0 <= j < info.others@.len() && in_conflict(#[trigger] info.others@[j]) implies
        answered(marks, more, path_view(info.path), info.others@[j].id@)
            == answered(marks, answers, path_view(info.path), info.others@[j].id@) by {
        let id = info.others@[j].id@;
        let path = path_view(info.path);
        if answered(marks, more, path, id) {
            let k = choose|k: int| 0 <= k < more.len() && (#[trigger] more[k]).mark < marks.len()
                && path_view(marks[more[k].mark as int].path) == path && marks[more[k].mark as int].id@ == id;
            if k < answers.len() {
                assert(more[k] == answers[k]);
            } else {
                assert(more[k] == a);
            }
        }
        if answered(marks, answers, path, id) {
            let k = choose|k: int| 0 <= k < answers.len() && (#[trigger] answers[k]).mark < marks.len()
                && path_view(marks[answers[k].mark as int].path) == path && marks[answers[k].mark as int].id@ == id;
            assert(more[k] == answers[k]);
        }
    }
}

/// A mark is blocked only for a cause: when no arg in conflict with it was passed, and no
/// accepted answer on its command path is for an arg in conflict with it, it is not blocked.
pub proof fn law_blocked_only_for_a_cause(marks: Seq<MarkInfo>, answers: Seq<Answer>, m: int)
    requires
        0 <= m < marks.len(),
        forall|j: int| 0 <= j < marks[m].others@.len() && in_conflict(#[trigger] marks[m].others@[j]) ==> {
            &&& !marks[m].others@[j].explicit
            &&& forall|k: int| 0 <= k < answers.len() && (#[trigger] answers[k]).mark < marks.len()
                && path_view(marks[answers[k].mark as int].path) == path_view(marks[m].path)
                ==> marks[answers[k].mark as int].id@ != marks[m].others@[j].id@
        },
    ensures
        !blocked(marks, answers, m),
{
    let info = marks[m];
    assert forall|j: int| 0 <= j < info.others@.len() && in_conflict(#[trigger] info.others@[j]) implies
        !answered(marks, answers, path_view(info.path), info.others@[j].id@) by {
        if answered(marks, answers, path_view(info.path), info.others@[j].id@) {
            let k = choose|k: int| 0 <= k < answers.len() && (#[trigger] answers[k]).mark < marks.len()
                && path_view(marks[answers[k].mark as int].path) == path_view(info.path)
                && marks[answers[k].mark as int].id@ == info.others@[j].id@;
        }
    }
}

/// The first pending mark from `from` on that no conflict blocks, or the end.
pub open spec fn first_unblocked(marks: Seq<MarkInfo>, answers: Seq<Answer>, pending: Seq<PendingMark>, from: int) -> int
    decreases pending.len() - from,
{
    if from >= pending.len() || from < 0 {
        pending.len() as int
    } else if blocked(marks, answers, pending[from].mark as int) {
        first_unblocked(marks, answers, pending, from + 1)
    } else {
        from
    }
}

/// The pending marks a session skips are exactly the blocked ones: every mark between `from`
/// and the next one asked is blocked, and the one asked is not.
pub proof fn law_skips_only_blocked(marks: Seq<MarkInfo>, answers: Seq<Answer>, pending: Seq<PendingMark>, from: int)
    requires
        0 <= from <= pending.len(),
        forall|k: int| 0 <= k < pending.len() ==> (#[trigger] pending[k]).mark < marks.len(),
    ensures
        from <= first_unblocked(marks, answers, pending, from) <= pending.len(),
        forall|k: int| from <= k < first_unblocked(marks, answers, pending, from) ==>
            blocked(marks, answers, (#[trigger] pending[k]).mark as int),
        first_unblocked(marks, answers, pending, from) < pending.len() ==> !blocked(
            marks,
            answers,
            pending[first_unblocked(marks, answers, pending, from)].mark as int,
        ),
    decreases pending.len() - from,
{
    if from < pending.len() && blocked(marks, answers, pending[from].mark as int) {
        law_skips_only_blocked(marks, answers, pending, from + 1);
    }
}

/// Where a session stands.
pub enum Phase {
    /// Waiting for the answer to the current mark's prompt, shown with clap's complaint about
    /// the previous answer, if any.
    Asking(Option<String>),
    /// Waiting for the trial parse of this candidate answer.
    Trying(String),
    /// Over.
    Done,
}

/// What happened to the last step.
pub enum Event {
    /// The prompt returned an answer; `None` leaves an optional arg unset.
    Answered(Option<String>),
    /// The prompt failed.
    Failed(PromptError),
    /// clap accepted the candidate on top of the accepted answers.
    TrialPassed,
    /// clap rejected the candidate, with the first line of its message.
    TrialFailed(String),
}

/// What to do next.
pub enum Step {
    /// Ask for the pending mark at this index, showing `error` first.
    Ask { pending: usize, error: Option<String> },
    /// Parse with `candidate` as the answer to the pending mark at this index.
    Trial { pending: usize, candidate: String },
    /// Parse for good: with the accepted answers, or as clap would without them.
    Finish { with_answers: bool },
    /// The user backed out.
    Cancelled,
    /// A prompt failed.
    Io(std::io::Error),
}

/// One prompting parse: its marks, the pending ones, and the answers so far.
pub struct Session {
    pub marks: Vec<MarkInfo>,
    pub pending: Vec<PendingMark>,
    /// The pending mark being asked.
    pub cursor: usize,
    pub answers: Vec<Answer>,
    pub phase: Phase,
}

impl Session {
    /// The session is consistent: its indices are in range, and a mark is under way only while
    /// one is left, and only one that no conflict blocks.
    pub open spec fn wf(&self) -> bool {
        &&& self.cursor <= self.pending@.len()
        &&& forall|k: int| 0 <= k < self.pending@.len() ==> (#[trigger] self.pending@[k]).mark < self.marks@.len()
        &&& forall|k: int| 0 <= k < self.answers@.len() ==> (#[trigger] self.answers@[k]).mark < self.marks@.len()
        &&& !(self.phase is Done) ==> self.cursor < self.pending@.len()
        &&& !(self.phase is Done) ==> !blocked(self.marks@, self.answers@, self.pending@[self.cursor as int].mark as int)
    }

    /// `step` asks only for a pending mark that no conflict blocks.
    pub open spec fn asks_unblocked(&self, step: Step) -> bool {
        step matches Step::Ask { pending: p, .. } ==> p < self.pending@.len()
            && !blocked(self.marks@, self.answers@, self.pending@[p as int].mark as int)
    }

    /// Whether `event` answers the step the session is waiting on.
    pub open spec fn expects(&self, event: Event) -> bool {
        match self.phase {
            Phase::Asking(_) => event is Answered || event is Failed,
            Phase::Trying(_) => event is TrialPassed || event is TrialFailed,
            Phase::Done => false,
        }
    }

    /// Move to the first unblocked pending mark from `from` and ask it, or finish with the
    /// answers when none is left.
    fn advance(&mut self, from: usize) -> (step: Step)
        requires
            from <= old(self).pending@.len(),
            forall|k: int| 0 <= k < old(self).pending@.len() ==> (#[trigger] old(self).pending@[k]).mark < old(self).marks@.len(),
            forall|k: int| 0 <= k < old(self).answers@.len() ==> (#[trigger] old(self).answers@[k]).mark < old(self).marks@.len(),
        ensures
            final(self).marks == old(self).marks,
            final(self).pending == old(self).pending,
            final(self).answers == old(self).answers,
            final(self).wf(),
            final(self).cursor == first_unblocked(old(self).marks@, old(self).answers@, old(self).pending@, from as int),
            final(self).cursor >= from,
            final(self).cursor < final(self).pending@.len() ==> step == (Step::Ask { pending: final(self).cursor, error: None })
                && final(self).phase == Phase::Asking(None),
            final(self).cursor == final(self).pending@.len() ==> step == (Step::Finish { with_answers: true })
                && final(self).phase is Done,
            final(self).asks_unblocked(step),
    {
        proof {
            law_skips_only_blocked(self.marks@, self.answers@, self.pending@, from as int);
        }
        let mut k = from;
        while k < self.pending.len() && is_blocked(&self.marks, &self.answers, self.pending[k].mark)
            invariant
                from <= k <= self.pending@.len(),
                self.marks == old(self).marks,
                self.pending == old(self).pending,
                self.answers == old(self).answers,
                forall|j: int| 0 <= j < self.pending@.len() ==> (#[trigger] self.pending@[j]).mark < self.marks@.len(),
                first_unblocked(self.marks@, self.answers@, self.pending@, from as int)
                    == first_unblocked(self.marks@, self.answers@, self.pending@, k as int),
            decreases self.pending@.len() - k,
        {
            k = k + 1;
        }
        self.cursor = k;
        if k < self.pending.len() {
            self.phase = Phase::Asking(None);
            Step::Ask { pending: k, error: None }
        } else {
            self.phase = Phase::Done;
            Step::Finish { with_answers: true }
        }
    }

    /// A session over `marks` asking for `pending`, and its first step.
    pub fn start(marks: Vec<MarkInfo>, pending: Vec<PendingMark>) -> (started: (Session, Step))
        requires
            forall|k: int| 0 <= k < pending@.len() ==> (#[trigger] pending@[k]).mark < marks@.len(),
        ensures
            started.0.wf(),
            started.0.marks == marks,
            started.0.pending == pending,
            started.0.answers@.len() == 0,
            started.0.cursor == first_unblocked(marks@, Seq::empty(), pending@, 0),
            started.0.cursor < pending@.len() ==> started.1 == (Step::Ask { pending: started.0.cursor, error: None }),
            started.0.cursor == pending@.len() ==> started.1 == (Step::Finish { with_answers: true }),
            started.0.asks_unblocked(started.1),
    {
        let mut session = Session { marks, pending, cursor: 0, answers: Vec::new(), phase: Phase::Done };
        let step = session.advance(0);
        (session, step)
    }

    /// Take the outcome of the last step and decide the next.
    pub fn step(&mut self, event: Event) -> (step: Step)
        requires
            old(self).wf(),
            old(self).expects(event),
        ensures
            final(self).wf(),
            final(self).marks == old(self).marks,
            final(self).pending == old(self).pending,
            final(self).asks_unblocked(step),
            final(self).cursor >= old(self).cursor,
            match event {
                Event::Answered(None) => {
                    &&& final(self).answers == old(self).answers
                    &&& final(self).cursor == first_unblocked(old(self).marks@, old(self).answers@, old(self).pending@, old(self).cursor + 1)
                    &&& final(self).cursor < final(self).pending@.len() ==> step == (Step::Ask { pending: final(self).cursor, error: None })
                    &&& final(self).cursor == final(self).pending@.len() ==> step == (Step::Finish { with_answers: true })
                },
                Event::Answered(Some(value)) => {
                    &&& final(self).answers == old(self).answers
                    &&& final(self).cursor == old(self).cursor
                    &&& step == (Step::Trial { pending: old(self).cursor, candidate: value })
                    &&& final(self).phase == Phase::Trying(value)
                },
                Event::Failed(PromptError::Cancelled) => step is Cancelled && final(self).phase is Done,
                Event::Failed(PromptError::NotATerminal) => step == (Step::Finish { with_answers: false }) && final(self).phase is Done,
                Event::Failed(PromptError::Io(err)) => step == Step::Io(err) && final(self).phase is Done,
                Event::TrialPassed => {
                    &&& old(self).phase matches Phase::Trying(value) && final(self).answers@ == old(self).answers@.push(
                        Answer { mark: old(self).pending@[old(self).cursor as int].mark, value },
                    )
                    &&& final(self).cursor == first_unblocked(old(self).marks@, final(self).answers@, old(self).pending@, old(self).cursor + 1)
                    &&& final(self).cursor < final(self).pending@.len() ==> step == (Step::Ask { pending: final(self).cursor, error: None })
                    &&& final(self).cursor == final(self).pending@.len() ==> step == (Step::Finish { with_answers: true })
                },
                Event::TrialFailed(message) => {
                    &&& final(self).answers == old(self).answers
                    &&& final(self).cursor == old(self).cursor
                    &&& step == (Step::Ask { pending: old(self).cursor, error: Some(message) })
                    &&& final(self).phase == Phase::Asking(Some(message))
                },
            },
    {
        let n = self.pending.len();
        assert(self.cursor < n);
        match event {
            Event::Answered(None) => {
                let from = self.cursor + 1;
                self.advance(from)
            },
            Event::Answered(Some(value)) => {
                let candidate = value.clone();
                self.phase = Phase::Trying(value);
                Step::Trial { pending: self.cursor, candidate }
            },
            Event::Failed(PromptError::Cancelled) => {
                self.phase = Phase::Done;
                Step::Cancelled
            },
            Event::Failed(PromptError::NotATerminal) => {
                self.phase = Phase::Done;
                Step::Finish { with_answers: false }
            },
            Event::Failed(PromptError::Io(err)) => {
                self.phase = Phase::Done;
                Step::Io(err)
            },
            Event::TrialPassed => {
                let mut phase = Phase::Done;
                std::mem::swap(&mut phase, &mut self.phase);
                match phase {
                    Phase::Trying(value) => {
                        let mark = self.pending[self.cursor].mark;
                        self.answers.push(Answer { mark, value });
                    },
                    _ => {},
                }
                let from = self.cursor + 1;
                self.advance(from)
            },
            Event::TrialFailed(message) => {
                let shown = message.clone();
                self.phase = Phase::Asking(Some(message));
                Step::Ask { pending: self.cursor, error: Some(shown) }
            },
        }
    }
}

} // verus!

verus! {

/// What a marked arg does when set, as far as asking goes.
#[derive(Clone, Copy, PartialEq, Eq, Structural, Debug)]
pub enum ArgActionKind {
    /// A flag that stores `true`.
    SetTrue,
    /// A flag that stores `false`.
    SetFalse,
    /// Any action that takes a value.
    TakesValue,
}

/// For a flag, whether a "yes" stores `false`; `None` for an arg that takes a value.
pub fn flag_negation(action: ArgActionKind) -> (negate: Option<bool>)
    ensures
        negate == match action {
            ArgActionKind::SetTrue => Some(false),
            ArgActionKind::SetFalse => Some(true),
            ArgActionKind::TakesValue => None::<bool>,
        },
{
    match action {
        ArgActionKind::SetTrue => Some(false),
        ArgActionKind::SetFalse => Some(true),
        ArgActionKind::TakesValue => None,
    }
}

/// The value a yes/no answer stands for: `set` unless the flag stores `false`.
pub fn confirm_value(set: bool, negate: bool) -> (value: String)
    ensures
        value@ == if set != negate { "true"@ } else { "false"@ },
{
    if set != negate {
        "true".to_owned()
    } else {
        "false".to_owned()
    }
}

/// What to ask: the mark's own question, else the arg's help text, else its id.
pub fn question_text(question: Option<&str>, help: Option<&str>, id: &str) -> (text: String)
    ensures
        text@ == match question {
            Some(q) => q@,
            None => match help {
                Some(h) => h@,
                None => id@,
            },
        },
{
    match question {
        Some(q) => q.to_owned(),
        None => match help {
            Some(h) => h.to_owned(),
            None => id.to_owned(),
        },
    }
}

/// Which prompt asks for an arg.
#[derive(Clone, Copy, PartialEq, Eq, Structural, Debug)]
pub enum PromptKind {
    /// A yes/no question, for a flag.
    Confirm,
    /// Free text, for an arg without visible possible values.
    Text,
    /// A pick among the visible possible values.
    Select,
}

/// The prompt for an arg: yes/no for a flag, a pick when it has visible possible values, free
/// text otherwise.
pub fn prompt_kind(negation: Option<bool>, visible_options: usize) -> (kind: PromptKind)
    ensures
        negation is Some ==> kind == PromptKind::Confirm,
        negation is None && visible_options == 0 ==> kind == PromptKind::Text,
        negation is None && visible_options > 0 ==> kind == PromptKind::Select,
{
    if negation.is_some() {
        PromptKind::Confirm
    } else if visible_options == 0 {
        PromptKind::Text
    } else {
        PromptKind::Select
    }
}

/// Index of the first line break of `s`, if any.
pub open spec fn first_break(s: Seq<char>) -> Option<int>
    decreases s.len(),
{
    if s.len() == 0 {
        None
    } else {
        match first_break(s.drop_last()) {
            Some(i) => Some(i),
            None => if s.last() == '\n' { Some(s.len() - 1) } else { None },
        }
    }
}

/// The first line of `s`, the way `str::lines` yields it: up to the first `\n`, without a `\r`
/// right before it; all of `s` when it has no `\n`.
pub open spec fn first_line(s: Seq<char>) -> Seq<char> {
    match first_break(s) {
        None => s,
        Some(i) => if i > 0 && s[i - 1] == '\r' { s.subrange(0, i - 1) } else { s.subrange(0, i) },
    }
}

/// `line` without a leading `error: `.
pub open spec fn without_error_prefix(line: Seq<char>) -> Seq<char> {
    if line.len() >= 7 && line.subrange(0, 7) == "error: "@ {
        line.subrange(7, line.len() as int)
    } else {
        line
    }
}

proof fn lemma_first_break_prefix(s: Seq<char>, k: int)
    requires
        0 <= k <= s.len(),
        first_break(s.subrange(0, k)) is None,
    ensures
        k < s.len() && s[k] == '\n' ==> first_break(s.subrange(0, k + 1)) == Some(k),
        k < s.len() && s[k] != '\n' ==> first_break(s.subrange(0, k + 1)) is None,
{
    if k < s.len() {
        assert(s.subrange(0, k + 1).drop_last() =~= s.subrange(0, k));
    }
}

proof fn lemma_first_break_extends(s: Seq<char>, k: int)
    requires
        0 <= k <= s.len(),
        first_break(s.subrange(0, k)) is Some,
    ensures
        first_break(s) == first_break(s.subrange(0, k)),
    decreases s.len() - k,
{
    if k < s.len() {
        assert(s.subrange(0, k + 1).drop_last() =~= s.subrange(0, k));
        lemma_first_break_extends(s, k + 1);
    } else {
        assert(s.subrange(0, k) =~= s);
    }
}

/// The first line of clap's message, without its `error: ` prefix.
pub fn summary(rendered: &str) -> (line: String)
    ensures
        line@ == without_error_prefix(first_line(rendered@)),
{
    let n = rendered.unicode_len();
    let mut i: usize = 0;
    let mut found = false;
    while !found && i < n
        invariant
            i <= n,
            n == rendered@.len(),
            first_break(rendered@.subrange(0, i as int)) is None,
            found ==> i < n && rendered@[i as int] == '\n',
        decreases n - i + if found { 0int } else { 1int },
    {
        proof {
            lemma_first_break_prefix(rendered@, i as int);
        }
        if rendered.get_char(i) == '\n' {
            found = true;
        } else {
            i = i + 1;
        }
    }
    proof {
        if found {
            lemma_first_break_prefix(rendered@, i as int);
            lemma_first_break_extends(rendered@, i + 1);
        } else {
            assert(rendered@.subrange(0, i as int) =~= rendered@);
        }
    }
    let end = if found && i > 0 && rendered.get_char(i - 1) == '\r' { i - 1 } else { i };
    let line = rendered.substring_char(0, end);
    let len = end;
    if len >= 7 {
        let head = line.substring_char(0, 7);
        if str_eq(head, "error: ") {
            let rest = line.substring_char(7, len);
            return rest.to_owned();
        }
    }
    line.to_owned()
}

} // verus!
