//! What passes between a session and the program that runs it.
//!
//! The session hands out a `Command`; the program carries it out and hands back an `Event`.
//! With each command come the `Notice`s that the user is to read first. Each type has a view,
//! in which text is a sequence of characters; the rules of a session are stated over the views.
use vstd::prelude::*;

verus! {

/// What the user asked for on the command line.
#[derive(Debug, Clone, PartialEq, Eq)]
pub struct Options {
    /// The target branch, where the user named one.
    pub target: Option<String>,
    /// Whether removals are only reported.
    pub dry_run: bool,
}

/// The options, with text as a sequence of characters.
pub struct OptionsView {
    pub target: Option<Seq<char>>,
    pub dry_run: bool,
}

impl View for Options {
    type V = OptionsView;

    open spec fn view(&self) -> OptionsView {
        OptionsView {
            target: match self.target {
                Some(name) => Some(name@),
                None => None,
            },
            dry_run: self.dry_run,
        }
    }
}

/// Why a run cannot go on.
#[derive(Debug, Clone, Copy, PartialEq, Eq, Structural)]
pub enum Fault {
    /// The listing of merged branches could not be run.
    ListingNotRun,
    /// The listing printed something that is no UTF-8 text.
    ListingNotText,
    /// The prompt could not be shown, or was broken off.
    PromptFailed,
    /// The removal of a branch could not be run.
    RemovalNotRun,
}

/// Something the user is told.
#[derive(Debug, Clone, PartialEq, Eq)]
pub enum Notice {
    /// The branches merged into `target` are being looked up.
    Searching { target: String },
    /// The target does not exist, or this is no repository.
    VcsUnavailable,
    /// No merged branch is left to remove.
    NothingToClean,
    /// So many branches can be removed.
    Found { count: usize },
    /// The user chose none; nothing was removed.
    Cancelled,
    /// In a dry run: this branch would be removed.
    WouldDelete { branch: String },
    /// This branch was removed.
    Deleted { branch: String },
    /// This branch could not be removed.
    DeleteFailed { branch: String },
    /// All chosen branches were dealt with.
    Done,
}

/// A notice, with text as a sequence of characters.
pub enum NoticeView {
    Searching { target: Seq<char> },
    VcsUnavailable,
    NothingToClean,
    Found { count: nat },
    Cancelled,
    WouldDelete { branch: Seq<char> },
    Deleted { branch: Seq<char> },
    DeleteFailed { branch: Seq<char> },
    Done,
}

impl View for Notice {
    type V = NoticeView;

    open spec fn view(&self) -> NoticeView {
        match self {
            Notice::Searching { target } => NoticeView::Searching { target: target@ },
            Notice::VcsUnavailable => NoticeView::VcsUnavailable,
            Notice::NothingToClean => NoticeView::NothingToClean,
            Notice::Found { count } => NoticeView::Found { count: *count as nat },
            Notice::Cancelled => NoticeView::Cancelled,
            Notice::WouldDelete { branch } => NoticeView::WouldDelete { branch: branch@ },
            Notice::Deleted { branch } => NoticeView::Deleted { branch: branch@ },
            Notice::DeleteFailed { branch } => NoticeView::DeleteFailed { branch: branch@ },
            Notice::Done => NoticeView::Done,
        }
    }
}

impl NoticeView {
    /// Whether the notice reports something that went wrong.
    pub open spec fn is_error(self) -> bool {
        self is VcsUnavailable || self is DeleteFailed
    }
}

impl Notice {
    /// Whether the notice reports something that went wrong: such a notice belongs on the
    /// error stream.
    pub fn is_error(&self) -> (b: bool)
        ensures
            b == self@.is_error(),
    {
        match self {
            Notice::VcsUnavailable => true,
            Notice::DeleteFailed { .. } => true,
            _ => false,
        }
    }
}

/// What the program is to do next.
#[derive(Debug, Clone, PartialEq, Eq)]
pub enum Command {
    /// Find out whether `branch` exists.
    Probe { branch: String },
    /// List the branches merged into `target`.
    List { target: String },
    /// Let the user choose among `candidates`. `preselected` says of each candidate whether
    /// it is chosen when the prompt opens.
    Select { candidates: Vec<String>, preselected: Vec<bool> },
    /// Remove `branch`, unless it is not fully merged.
    Delete { branch: String },
    /// End the run; it went as it should.
    Finish,
    /// End the run as failed.
    Abort { fault: Fault },
}

/// A command, with text as a sequence of characters.
pub enum CommandView {
    Probe { branch: Seq<char> },
    List { target: Seq<char> },
    Select { candidates: Seq<Seq<char>>, preselected: Seq<bool> },
    Delete { branch: Seq<char> },
    Finish,
    Abort { fault: Fault },
}

impl View for Command {
    type V = CommandView;

    open spec fn view(&self) -> CommandView {
        match self {
            Command::Probe { branch } => CommandView::Probe { branch: branch@ },
            Command::List { target } => CommandView::List { target: target@ },
            Command::Select { candidates, preselected } => CommandView::Select {
                candidates: candidates.deep_view(),
                preselected: preselected@,
            },
            Command::Delete { branch } => CommandView::Delete { branch: branch@ },
            Command::Finish => CommandView::Finish,
            Command::Abort { fault } => CommandView::Abort { fault: *fault },
        }
    }
}

impl CommandView {
    /// Whether the command ends the run.
    pub open spec fn is_final(self) -> bool {
        self is Finish || self is Abort
    }
}

impl Command {
    /// Whether the command ends the run.
    pub fn is_final(&self) -> (b: bool)
        ensures
            b == self@.is_final(),
    {
        match self {
            Command::Finish => true,
            Command::Abort { .. } => true,
            _ => false,
        }
    }
}

/// What came of the last command.
#[derive(Debug, Clone, PartialEq, Eq)]
pub enum Event {
    /// The branch that was asked about exists, or does not.
    Probed { exists: bool },
    /// The listing ran: whether it succeeded, and what it printed.
    Listed { success: bool, output: Vec<u8> },
    /// The user confirmed these candidates, given by their positions.
    Selected { indices: Vec<usize> },
    /// The removal ran: whether the branch is gone.
    Removed { success: bool },
    /// The command could not be carried out at all.
    Failed,
}

/// An event, with what it carries as sequences.
pub enum EventView {
    Probed { exists: bool },
    Listed { success: bool, output: Seq<u8> },
    Selected { indices: Seq<usize> },
    Removed { success: bool },
    Failed,
}

impl View for Event {
    type V = EventView;

    open spec fn view(&self) -> EventView {
        match self {
            Event::Probed { exists } => EventView::Probed { exists: *exists },
            Event::Listed { success, output } => EventView::Listed {
                success: *success,
                output: output@,
            },
            Event::Selected { indices } => EventView::Selected { indices: indices@ },
            Event::Removed { success } => EventView::Removed { success: *success },
            Event::Failed => EventView::Failed,
        }
    }
}

/// What a session answers: notices for the user, then a command for the program.
#[derive(Debug, Clone, PartialEq, Eq)]
pub struct Reaction {
    pub notices: Vec<Notice>,
    pub command: Command,
}

/// A reaction, as the views of its notices and of its command.
pub struct ReactionView {
    pub notices: Seq<NoticeView>,
    pub command: CommandView,
}

impl View for Reaction {
    type V = ReactionView;

    open spec fn view(&self) -> ReactionView {
        ReactionView {
            notices: self.notices@.map_values(|notice: Notice| notice@),
            command: self.command@,
        }
    }
}

} // verus!
