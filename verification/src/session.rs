//! One run, as a state machine.
//!
//! A run finds its target, lists the branches merged into it, lets the user choose among the
//! candidates, and removes the chosen ones in the order in which they were chosen. The session
//! decides; the program around it carries out each `Command` and reports the `Event` that
//! came of it. `begin` and `next` say, over the views, what a session answers; `Session::begin`
//! and `Session::advance` compute it.
use crate::listing::{candidates_of, parse_listing};
use crate::protocol::{
    Command, CommandView, Event, EventView, Fault, Notice, NoticeView, Options, OptionsView,
    Reaction, ReactionView,
};
use crate::target::{default_branch, default_target};
use crate::text::{decode, lines_of};
use vstd::prelude::*;
use vstd::string::StringExecFns;
use vstd::utf8::{decode_utf8, valid_utf8};

verus! {

/// How far a run has come.
pub enum PhaseView {
    /// Asked whether `main` exists.
    ProbingMain,
    /// Asked whether `master` exists; `main` does not.
    ProbingMaster,
    /// Asked for the branches merged into `target`.
    Listing { target: Seq<char> },
    /// Asked the user to choose among `candidates`.
    Selecting { candidates: Seq<Seq<char>> },
    /// Asked to remove the candidate at `selection[next]`; those before it are dealt with.
    Deleting { candidates: Seq<Seq<char>>, selection: Seq<usize>, next: nat },
    /// The run is over.
    Finished,
}

/// A run in progress: its mode, and how far it has come.
pub struct SessionView {
    /// Whether removals are only reported.
    pub dry_run: bool,
    pub phase: PhaseView,
}

/// Whether each of `indices` is a position in a list of `count` candidates.
pub open spec fn fits(indices: Seq<usize>, count: nat) -> bool {
    forall|i: int| 0 <= i < indices.len() ==> #[trigger] indices[i] < count
}

impl SessionView {
    /// What holds of every session: a prompt is open only on candidates, and branches are
    /// removed only outside a dry run, one by one, each of them a candidate.
    pub open spec fn wf(self) -> bool {
        match self.phase {
            PhaseView::Selecting { candidates } => candidates.len() > 0,
            PhaseView::Deleting { candidates, selection, next } => {
                &&& !self.dry_run
                &&& next < selection.len()
                &&& fits(selection, candidates.len())
            },
            _ => true,
        }
    }
}

/// The run is over: `notices` are shown and `command` ends it.
pub open spec fn end(dry_run: bool, notices: Seq<NoticeView>, command: CommandView) -> (
    SessionView,
    ReactionView,
) {
    (SessionView { dry_run, phase: PhaseView::Finished }, ReactionView { notices, command })
}

/// The target is known: the search is announced and the listing asked for.
pub open spec fn search(dry_run: bool, target: Seq<char>) -> (SessionView, ReactionView) {
    (
        SessionView { dry_run, phase: PhaseView::Listing { target } },
        ReactionView {
            notices: seq![NoticeView::Searching { target }],
            command: CommandView::List { target },
        },
    )
}

/// The selection that a prompt on `count` candidates opens with: all of them.
pub open spec fn all_selected(count: nat) -> Seq<bool> {
    Seq::new(count, |i: int| true)
}

/// The listing ran. Where it failed, the user is told and the run ends. Where nothing is left
/// of its output, the user is told and the run ends, without a prompt. Else the candidates
/// are put before the user, all of them selected.
pub open spec fn listed(dry_run: bool, target: Seq<char>, success: bool, output: Seq<u8>) -> (
    SessionView,
    ReactionView,
) {
    if !success {
        end(dry_run, seq![NoticeView::VcsUnavailable], CommandView::Finish)
    } else if !valid_utf8(output) {
        end(dry_run, seq![], CommandView::Abort { fault: Fault::ListingNotText })
    } else {
        let candidates = candidates_of(lines_of(decode_utf8(output)), target);
        if candidates.len() == 0 {
            end(dry_run, seq![NoticeView::NothingToClean], CommandView::Finish)
        } else {
            (
                SessionView { dry_run, phase: PhaseView::Selecting { candidates } },
                ReactionView {
                    notices: seq![NoticeView::Found { count: candidates.len() }],
                    command: CommandView::Select {
                        candidates,
                        preselected: all_selected(candidates.len()),
                    },
                },
            )
        }
    }
}

/// What a dry run reports of a selection: each chosen branch, in the order of the selection.
pub open spec fn would_delete(candidates: Seq<Seq<char>>, indices: Seq<usize>) -> Seq<
    NoticeView,
> {
    Seq::new(
        indices.len(),
        |i: int| NoticeView::WouldDelete { branch: candidates[indices[i] as int] },
    )
}

/// The user chose. With nothing chosen the run ends and nothing is removed. A dry run
/// reports what it would remove and ends. Else the first chosen branch is removed.
pub open spec fn selected(dry_run: bool, candidates: Seq<Seq<char>>, indices: Seq<usize>) -> (
    SessionView,
    ReactionView,
) {
    if indices.len() == 0 {
        end(dry_run, seq![NoticeView::Cancelled], CommandView::Finish)
    } else if dry_run {
        end(dry_run, would_delete(candidates, indices), CommandView::Finish)
    } else {
        (
            SessionView {
                dry_run,
                phase: PhaseView::Deleting { candidates, selection: indices, next: 0 },
            },
            ReactionView {
                notices: seq![],
                command: CommandView::Delete { branch: candidates[indices[0] as int] },
            },
        )
    }
}

/// A removal ran. How it went is reported; then the next chosen branch is removed, whether
/// or not this one is gone. After the last one the run ends.
pub open spec fn removed(
    dry_run: bool,
    candidates: Seq<Seq<char>>,
    selection: Seq<usize>,
    next: nat,
    success: bool,
) -> (SessionView, ReactionView) {
    let branch = candidates[selection[next as int] as int];
    let outcome = if success {
        NoticeView::Deleted { branch }
    } else {
        NoticeView::DeleteFailed { branch }
    };
    if next + 1 < selection.len() {
        (
            SessionView {
                dry_run,
                phase: PhaseView::Deleting { candidates, selection, next: next + 1 },
            },
            ReactionView {
                notices: seq![outcome],
                command: CommandView::Delete {
                    branch: candidates[selection[next as int + 1] as int],
                },
            },
        )
    } else {
        end(dry_run, seq![outcome, NoticeView::Done], CommandView::Finish)
    }
}

/// How a run starts: with the listing where the user named a target, else with the question
/// whether `main` exists.
pub open spec fn begin(options: OptionsView) -> (SessionView, ReactionView) {
    match options.target {
        Some(target) => search(options.dry_run, target),
        None => (
            SessionView { dry_run: options.dry_run, phase: PhaseView::ProbingMain },
            ReactionView { notices: seq![], command: CommandView::Probe { branch: "main"@ } },
        ),
    }
}

/// What the session `s` answers to `event`, and what it is afterwards. There is no answer
/// where the event is not one that the last command can end in, nor to a selection that
/// names a position outside the candidates.
///
/// A question that could not be asked counts as answered with no. Any other command that
/// could not be carried out ends the run as failed.
pub open spec fn next(s: SessionView, event: EventView) -> Option<(SessionView, ReactionView)> {
    match (s.phase, event) {
        (PhaseView::ProbingMain, EventView::Probed { exists: true }) => Some(
            search(s.dry_run, "main"@),
        ),
        (PhaseView::ProbingMain, EventView::Probed { exists: false })
        | (PhaseView::ProbingMain, EventView::Failed) => Some(
            (
                SessionView { dry_run: s.dry_run, phase: PhaseView::ProbingMaster },
                ReactionView {
                    notices: seq![],
                    command: CommandView::Probe { branch: "master"@ },
                },
            ),
        ),
        (PhaseView::ProbingMaster, EventView::Probed { exists }) => Some(
            search(s.dry_run, default_target(false, exists)),
        ),
        (PhaseView::ProbingMaster, EventView::Failed) => Some(
            search(s.dry_run, default_target(false, false)),
        ),
        (PhaseView::Listing { target }, EventView::Listed { success, output }) => Some(
            listed(s.dry_run, target, success, output),
        ),
        (PhaseView::Listing { .. }, EventView::Failed) => Some(
            end(s.dry_run, seq![], CommandView::Abort { fault: Fault::ListingNotRun }),
        ),
        (PhaseView::Selecting { candidates }, EventView::Selected { indices }) => if fits(
            indices,
            candidates.len(),
        ) {
            Some(selected(s.dry_run, candidates, indices))
        } else {
            None
        },
        (PhaseView::Selecting { .. }, EventView::Failed) => Some(
            end(s.dry_run, seq![], CommandView::Abort { fault: Fault::PromptFailed }),
        ),
        (
            PhaseView::Deleting { candidates, selection, next },
            EventView::Removed { success },
        ) => Some(removed(s.dry_run, candidates, selection, next, success)),
        (PhaseView::Deleting { .. }, EventView::Failed) => Some(
            end(s.dry_run, seq![], CommandView::Abort { fault: Fault::RemovalNotRun }),
        ),
        _ => None,
    }
}

enum Phase {
    ProbingMain,
    ProbingMaster,
    Listing { target: String },
    Selecting { candidates: Vec<String> },
    Deleting { candidates: Vec<String>, selection: Vec<usize>, next: usize },
    Finished,
}

impl View for Phase {
    type V = PhaseView;

    closed spec fn view(&self) -> PhaseView {
        match self {
            Phase::ProbingMain => PhaseView::ProbingMain,
            Phase::ProbingMaster => PhaseView::ProbingMaster,
            Phase::Listing { target } => PhaseView::Listing { target: target@ },
            Phase::Selecting { candidates } => PhaseView::Selecting {
                candidates: candidates.deep_view(),
            },
            Phase::Deleting { candidates, selection, next } => PhaseView::Deleting {
                candidates: candidates.deep_view(),
                selection: selection@,
                next: *next as nat,
            },
            Phase::Finished => PhaseView::Finished,
        }
    }
}

/// A run in progress.
pub struct Session {
    dry_run: bool,
    phase: Phase,
}

impl View for Session {
    type V = SessionView;

    closed spec fn view(&self) -> SessionView {
        SessionView { dry_run: self.dry_run, phase: self.phase@ }
    }
}

/// A copy of `names`.
fn copy_names(names: &Vec<String>) -> (out: Vec<String>)
    ensures
        out.deep_view() == names.deep_view(),
{
    let mut out: Vec<String> = Vec::new();
    let mut i: usize = 0;
    while i < names.len()
        invariant
            i <= names.len(),
            out.deep_view() == names.deep_view().take(i as int),
        decreases names.len() - i,
    {
        let ghost before = out.deep_view();
        out.push(names[i].clone());
        assert(out.deep_view() =~= before.push(names[i as int]@));
        assert(names.deep_view().take(i + 1) =~= names.deep_view().take(i as int).push(
            names[i as int]@,
        ));
        i += 1;
    }
    assert(names.deep_view().take(names.len() as int) =~= names.deep_view());
    out
}

/// The selection of all of `count` candidates.
fn select_all(count: usize) -> (chosen: Vec<bool>)
    ensures
        chosen@ == all_selected(count as nat),
{
    let mut chosen: Vec<bool> = Vec::new();
    let mut i: usize = 0;
    while i < count
        invariant
            i <= count,
            chosen@ == all_selected(i as nat),
        decreases count - i,
    {
        chosen.push(true);
        assert(chosen@ =~= all_selected((i + 1) as nat));
        i += 1;
    }
    chosen
}

/// Whether each of `indices` is a position in a list of `count` candidates.
pub fn selection_fits(indices: &Vec<usize>, count: usize) -> (b: bool)
    ensures
        b == fits(indices@, count as nat),
{
    let mut i: usize = 0;
    while i < indices.len()
        invariant
            i <= indices.len(),
            forall|k: int| 0 <= k < i ==> #[trigger] indices@[k] < count,
        decreases indices.len() - i,
    {
        if indices[i] >= count {
            return false;
        }
        i += 1;
    }
    true
}

/// The notices of a dry run on the selection `indices`.
fn dry_run_notices(candidates: &Vec<String>, indices: &Vec<usize>) -> (notices: Vec<Notice>)
    requires
        fits(indices@, candidates.len() as nat),
    ensures
        notices@.map_values(|notice: Notice| notice@) == would_delete(
            candidates.deep_view(),
            indices@,
        ),
{
    let mut notices: Vec<Notice> = Vec::new();
    let mut i: usize = 0;
    while i < indices.len()
        invariant
            i <= indices.len(),
            fits(indices@, candidates.len() as nat),
            notices@.map_values(|notice: Notice| notice@) == would_delete(
                candidates.deep_view(),
                indices@,
            ).take(i as int),
        decreases indices.len() - i,
    {
        let ghost before = notices@.map_values(|notice: Notice| notice@);
        let branch = candidates[indices[i]].clone();
        let notice = Notice::WouldDelete { branch };
        notices.push(notice);
        proof {
            let all = would_delete(candidates.deep_view(), indices@);
            assert(notices@.map_values(|notice: Notice| notice@) =~= before.push(notice@));
            assert(all.take(i + 1) =~= all.take(i as int).push(all[i as int]));
        }
        i += 1;
    }
    assert(would_delete(candidates.deep_view(), indices@).take(indices.len() as int)
        =~= would_delete(candidates.deep_view(), indices@));
    notices
}

/// The reaction that shows `notices` and then gives `command`.
fn react(notices: Vec<Notice>, command: Command) -> (reaction: Reaction)
    ensures
        reaction@ == (ReactionView {
            notices: notices@.map_values(|notice: Notice| notice@),
            command: command@,
        }),
{
    Reaction { notices, command }
}

/// No notices.
fn silent() -> (notices: Vec<Notice>)
    ensures
        notices@.map_values(|notice: Notice| notice@) == Seq::<NoticeView>::empty(),
{
    let notices: Vec<Notice> = Vec::new();
    assert(notices@.map_values(|notice: Notice| notice@) =~= Seq::<NoticeView>::empty());
    notices
}

/// The one notice `notice`.
fn one(notice: Notice) -> (notices: Vec<Notice>)
    ensures
        notices@.map_values(|notice: Notice| notice@) == seq![notice@],
{
    let mut notices: Vec<Notice> = Vec::new();
    notices.push(notice);
    assert(notices@.map_values(|notice: Notice| notice@) =~= seq![notice@]);
    notices
}

impl Session {
    /// Every session is well formed.
    #[verifier::type_invariant]
    spec fn inv(self) -> bool {
        self@.wf()
    }

    /// The session after the target was found, and its first command.
    fn search(dry_run: bool, target: String) -> (out: (Session, Reaction))
        ensures
            (out.0@, out.1@) == search(dry_run, target@),
    {
        let notices = one(Notice::Searching { target: target.clone() });
        let command = Command::List { target: target.clone() };
        (Session { dry_run, phase: Phase::Listing { target } }, react(notices, command))
    }

    /// The session after its last command.
    fn end(dry_run: bool, notices: Vec<Notice>, command: Command) -> (out: (Session, Reaction))
        ensures
            (out.0@, out.1@) == end(
                dry_run,
                notices@.map_values(|notice: Notice| notice@),
                command@,
            ),
    {
        (Session { dry_run, phase: Phase::Finished }, react(notices, command))
    }

    /// Starts a run: the session, and its first notices and command.
    pub fn begin(options: Options) -> (out: (Session, Reaction))
        ensures
            (out.0@, out.1@) == begin(options@),
            out.0@.wf(),
            out.0@.dry_run == options.dry_run,
            !(out.1@.command is Delete),
    {
        match options.target {
            Some(target) => Session::search(options.dry_run, target),
            None => {
                let command = Command::Probe { branch: String::from_str("main") };
                (
                    Session { dry_run: options.dry_run, phase: Phase::ProbingMain },
                    react(silent(), command),
                )
            },
        }
    }

    /// Whether removals are only reported in this run.
    pub fn dry_run(&self) -> (b: bool)
        ensures
            b == self@.dry_run,
    {
        self.dry_run
    }

    /// Whether the run is over.
    pub fn is_finished(&self) -> (b: bool)
        ensures
            b == (self@.phase is Finished),
    {
        match self.phase {
            Phase::Finished => true,
            _ => false,
        }
    }

    /// Whether the session has an answer to `event`.
    pub fn accepts(&self, event: &Event) -> (b: bool)
        ensures
            b == (next(self@, event@) is Some),
    {
        match (&self.phase, event) {
            (Phase::ProbingMain, Event::Probed { .. }) => true,
            (Phase::ProbingMain, Event::Failed) => true,
            (Phase::ProbingMaster, Event::Probed { .. }) => true,
            (Phase::ProbingMaster, Event::Failed) => true,
            (Phase::Listing { .. }, Event::Listed { .. }) => true,
            (Phase::Listing { .. }, Event::Failed) => true,
            (Phase::Selecting { candidates }, Event::Selected { indices }) => selection_fits(
                indices,
                candidates.len(),
            ),
            (Phase::Selecting { .. }, Event::Failed) => true,
            (Phase::Deleting { .. }, Event::Removed { .. }) => true,
            (Phase::Deleting { .. }, Event::Failed) => true,
            _ => false,
        }
    }

    /// The answer to `event`: the session afterwards, and the notices and the command that
    /// follow from the event.
    pub fn advance(self, event: Event) -> (out: (Session, Reaction))
        requires
            next(self@, event@) is Some,
        ensures
            next(self@, event@) == Some((out.0@, out.1@)),
            self@.wf(),
            out.0@.wf(),
            out.0@.dry_run == self@.dry_run,
            self@.dry_run ==> !(out.1@.command is Delete),
    {
        proof {
            use_type_invariant(&self);
        }
        let dry_run = self.dry_run;
        match (self.phase, event) {
            (Phase::ProbingMain, Event::Probed { exists: true }) => Session::search(
                dry_run,
                String::from_str("main"),
            ),
            (Phase::ProbingMain, Event::Probed { exists: false })
            | (Phase::ProbingMain, Event::Failed) => {
                let command = Command::Probe { branch: String::from_str("master") };
                (Session { dry_run, phase: Phase::ProbingMaster }, react(silent(), command))
            },
            (Phase::ProbingMaster, Event::Probed { exists }) => Session::search(
                dry_run,
                default_branch(false, exists),
            ),
            (Phase::ProbingMaster, Event::Failed) => Session::search(
                dry_run,
                default_branch(false, false),
            ),
            (Phase::Listing { target }, Event::Listed { success, output }) => Session::listed(
                dry_run,
                target,
                success,
                output,
            ),
            (Phase::Listing { .. }, Event::Failed) => Session::end(
                dry_run,
                silent(),
                Command::Abort { fault: Fault::ListingNotRun },
            ),
            (Phase::Selecting { candidates }, Event::Selected { indices }) => Session::selected(
                dry_run,
                candidates,
                indices,
            ),
            (Phase::Selecting { .. }, Event::Failed) => Session::end(
                dry_run,
                silent(),
                Command::Abort { fault: Fault::PromptFailed },
            ),
            (Phase::Deleting { candidates, selection, next }, Event::Removed { success }) => {
                Session::removed(dry_run, candidates, selection, next, success)
            },
            (Phase::Deleting { .. }, Event::Failed) => Session::end(
                dry_run,
                silent(),
                Command::Abort { fault: Fault::RemovalNotRun },
            ),
            _ => unreached(),
        }
    }

    /// The answer to a listing that ran.
    fn listed(dry_run: bool, target: String, success: bool, output: Vec<u8>) -> (out: (
        Session,
        Reaction,
    ))
        ensures
            (out.0@, out.1@) == listed(dry_run, target@, success, output@),
            out.0@.wf(),
    {
        if !success {
            return Session::end(dry_run, one(Notice::VcsUnavailable), Command::Finish);
        }
        let text = match decode(output) {
            Some(text) => text,
            None => {
                return Session::end(
                    dry_run,
                    silent(),
                    Command::Abort { fault: Fault::ListingNotText },
                );
            },
        };
        let candidates = parse_listing(text.as_str(), target.as_str());
        if candidates.len() == 0 {
            return Session::end(dry_run, one(Notice::NothingToClean), Command::Finish);
        }
        let notices = one(Notice::Found { count: candidates.len() });
        let command = Command::Select {
            candidates: copy_names(&candidates),
            preselected: select_all(candidates.len()),
        };
        (Session { dry_run, phase: Phase::Selecting { candidates } }, react(notices, command))
    }

    /// The answer to a selection.
    fn selected(dry_run: bool, candidates: Vec<String>, indices: Vec<usize>) -> (out: (
        Session,
        Reaction,
    ))
        requires
            fits(indices@, candidates.len() as nat),
        ensures
            (out.0@, out.1@) == selected(dry_run, candidates.deep_view(), indices@),
            out.0@.wf(),
    {
        if indices.len() == 0 {
            return Session::end(dry_run, one(Notice::Cancelled), Command::Finish);
        }
        if dry_run {
            let notices = dry_run_notices(&candidates, &indices);
            return Session::end(dry_run, notices, Command::Finish);
        }
        let command = Command::Delete { branch: candidates[indices[0]].clone() };
        (
            Session { dry_run, phase: Phase::Deleting { candidates, selection: indices, next: 0 } },
            react(silent(), command),
        )
    }

    /// The answer to a removal that ran.
    fn removed(
        dry_run: bool,
        candidates: Vec<String>,
        selection: Vec<usize>,
        next: usize,
        success: bool,
    ) -> (out: (Session, Reaction))
        requires
            !dry_run,
            next < selection.len(),
            fits(selection@, candidates.len() as nat),
        ensures
            (out.0@, out.1@) == removed(
                dry_run,
                candidates.deep_view(),
                selection@,
                next as nat,
                success,
            ),
            out.0@.wf(),
    {
        let branch = candidates[selection[next]].clone();
        let outcome = if success {
            Notice::Deleted { branch }
        } else {
            Notice::DeleteFailed { branch }
        };
        if next + 1 < selection.len() {
            let command = Command::Delete { branch: candidates[selection[next + 1]].clone() };
            (
                Session {
                    dry_run,
                    phase: Phase::Deleting { candidates, selection, next: next + 1 },
                },
                react(one(outcome), command),
            )
        } else {
            let mut notices = one(outcome);
            let ghost before = notices@.map_values(|notice: Notice| notice@);
            notices.push(Notice::Done);
            assert(notices@.map_values(|notice: Notice| notice@) =~= before.push(
                NoticeView::Done,
            ));
            assert(before.push(NoticeView::Done) =~= seq![outcome@, NoticeView::Done]);
            Session::end(dry_run, notices, Command::Finish)
        }
    }
}

/// What the session `s` answers to `events`, one after the other; nothing where it has no
/// answer to one of them.
pub open spec fn replay(s: SessionView, events: Seq<EventView>) -> Option<Seq<ReactionView>>
    decreases events.len(),
{
    if events.len() == 0 {
        Some(Seq::empty())
    } else {
        match next(s, events.first()) {
            Some((after, reaction)) => match replay(after, events.drop_first()) {
                Some(rest) => Some(seq![reaction] + rest),
                None => None,
            },
            None => None,
        }
    }
}

/// A session stays well formed and keeps its mode. The run is over exactly when the command
/// says so, and a session whose run is over has no answer to any event.
pub proof fn lemma_next_keeps_wf(s: SessionView, event: EventView)
    requires
        s.wf(),
        next(s, event) is Some,
    ensures
        ({
            let (after, reaction) = next(s, event).unwrap();
            &&& after.wf()
            &&& after.dry_run == s.dry_run
            &&& reaction.command.is_final() <==> after.phase is Finished
        }),
        !(s.phase is Finished),
{
}

/// A run starts well formed and in the mode that was asked for. Its first command is
/// neither its end nor a removal.
pub proof fn lemma_begin_is_wf(options: OptionsView)
    ensures
        begin(options).0.wf(),
        begin(options).0.dry_run == options.dry_run,
        !begin(options).1.command.is_final(),
        !(begin(options).1.command is Delete),
        !(begin(options).0.phase is Finished),
{
}

/// Without a target from the user, the answers on `main` and `master` lead to the listing of
/// the default target. `master` is asked about only where `main` does not exist.
pub proof fn lemma_probing_finds_default(dry_run: bool, main_exists: bool, master_exists: bool)
    ensures
        ({
            let start = begin(OptionsView { target: None, dry_run });
            let target = default_target(main_exists, master_exists);
            let first = next(start.0, EventView::Probed { exists: main_exists });
            &&& start.1.command == CommandView::Probe { branch: "main"@ }
            &&& main_exists ==> first == Some(search(dry_run, target))
            &&& !main_exists ==> {
                &&& first matches Some((after, reaction))
                &&& reaction.command == CommandView::Probe { branch: "master"@ }
                &&& next(after, EventView::Probed { exists: master_exists }) == Some(
                    search(dry_run, target),
                )
            }
        }),
{
}

/// No prompt is shown on an empty list, and every prompt opens with all candidates selected.
/// Where the listing leaves no candidate, the user is told so and the run ends as it should.
pub proof fn lemma_no_prompt_without_candidates(s: SessionView, event: EventView)
    requires
        next(s, event) is Some,
    ensures
        next(s, event).unwrap().1.command matches CommandView::Select { candidates, preselected }
            ==> candidates.len() > 0 && preselected == all_selected(candidates.len()),
        ({
            &&& s.phase matches PhaseView::Listing { target }
            &&& event matches EventView::Listed { success: true, output }
            &&& valid_utf8(output)
            &&& candidates_of(lines_of(decode_utf8(output)), target).len() == 0
        }) ==> next(s, event) == Some(
            end(s.dry_run, seq![NoticeView::NothingToClean], CommandView::Finish),
        ),
{
}

/// With nothing selected nothing is removed: the user is told so and the run ends.
pub proof fn lemma_empty_selection_removes_nothing(s: SessionView)
    requires
        s.phase is Selecting,
    ensures
        next(s, EventView::Selected { indices: Seq::empty() }) == Some(
            end(s.dry_run, seq![NoticeView::Cancelled], CommandView::Finish),
        ),
        forall|event: EventView|
            next(
                end(s.dry_run, seq![NoticeView::Cancelled], CommandView::Finish).0,
                event,
            ) is None,
{
}

/// A dry run never asks for a removal, and reports none: whatever the events, no command of
/// the run is `Delete`, and no notice says that a branch was removed or could not be.
pub proof fn lemma_dry_run_never_removes(s: SessionView, events: Seq<EventView>)
    requires
        s.wf(),
        s.dry_run,
        replay(s, events) is Some,
    ensures
        forall|i: int|
            0 <= i < replay(s, events)->0.len() ==> !((#[trigger] replay(
                s,
                events,
            )->0[i]).command is Delete),
        forall|i: int, j: int|
            0 <= i < replay(s, events)->0.len() && 0 <= j < replay(s, events)->0[i].notices.len()
                ==> {
                let notice = #[trigger] replay(s, events)->0[i].notices[j];
                !(notice is Deleted) && !(notice is DeleteFailed) && !(notice is Done)
            },
    decreases events.len(),
{
    if events.len() > 0 {
        let (after, reaction) = next(s, events.first())->0;
        let rest = replay(after, events.drop_first())->0;
        lemma_next_keeps_wf(s, events.first());
        lemma_dry_run_never_removes(after, events.drop_first());
        let all = replay(s, events)->0;
        assert(all == seq![reaction] + rest);
        assert forall|i: int| 0 <= i < all.len() implies !((#[trigger] all[i]).command is Delete) by {
            if i > 0 {
                assert(all[i] == rest[i - 1]);
            }
        }
        assert forall|i: int, j: int| 0 <= i < all.len() && 0 <= j < all[i].notices.len() implies {
            let notice = #[trigger] all[i].notices[j];
            !(notice is Deleted) && !(notice is DeleteFailed) && !(notice is Done)
        } by {
            if i > 0 {
                assert(all[i] == rest[i - 1]);
            }
        }
    }
}

} // verus!
