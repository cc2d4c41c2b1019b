//! The reconciliation of one place: linking it to a file of the repository,
//! and unlinking it again. Each is a task that asks its questions one at a
//! time and decides by the replies.

use crate::effect::{
    no_notices, notice_models, one_notice, Action, ActionModel, Notice, NoticeModel, Reply, ReplyModel,
};
use crate::error::DotmanError;
use vstd::prelude::*;

verus! {

/// How the reconciliation of one place ended.
#[derive(Clone, Copy, Debug, PartialEq, Eq, Structural)]
pub enum LinkOutcome {
    /// The place was free; a symbolic link was created.
    Created,
    /// The place was occupied; what stood there, a file, a symbolic link or an
    /// empty directory, was removed and a symbolic link created.
    Overwritten,
    /// The place was occupied and was left alone.
    SkippedExists,
    /// The symbolic link at the place was removed.
    Removed,
    /// The place holds no symbolic link and was left alone.
    SkippedNotSymlink,
}

/// What became of one place: an outcome, or the reason why it failed.
pub type Settled = Result<LinkOutcome, DotmanError>;

/// What a task does after a reply: it goes on with another action, or it has
/// finished with a result.
pub enum TaskStep<T> {
    Continue { task: T, notices: Vec<Notice>, action: Action },
    Finished { notices: Vec<Notice>, result: Settled },
}

/// A `TaskStep` as a mathematical value.
pub enum TaskStepModel<M> {
    Continue { task: M, notices: Seq<NoticeModel>, action: ActionModel },
    Finished { notices: Seq<NoticeModel>, result: Settled },
}

impl<T: View> View for TaskStep<T> {
    type V = TaskStepModel<T::V>;

    open spec fn view(&self) -> TaskStepModel<T::V> {
        match self {
            TaskStep::Continue { task, notices, action } => TaskStepModel::Continue {
                task: task@,
                notices: notice_models(notices@),
                action: action@,
            },
            TaskStep::Finished { notices, result } => TaskStepModel::Finished {
                notices: notice_models(notices@),
                result: *result,
            },
        }
    }
}

/// Which reply a link task waits for.
#[derive(Clone, Copy, Debug, PartialEq, Eq, Structural)]
pub enum LinkPhase {
    /// Whether anything exists at the destination.
    Exists,
    /// Whether the destination is a symbolic link that leads nowhere.
    IsSymlink,
    /// Whether the source exists; the destination is free.
    SourceForFree,
    /// Whether the source exists; the destination is a symbolic link.
    SourceForLink,
    /// Whether the source exists; something exists at the destination.
    SourceForOccupied,
    /// Whether what exists at the destination is a symbolic link.
    Kind,
    /// Whether what exists at the destination is a directory.
    IsDirectory,
    /// The removal of the file or link that occupies the destination.
    Remove,
    /// The removal of the directory that occupies the destination.
    RemoveDir,
    /// The creation of the link at a destination that was free.
    Create,
    /// The creation of the link at a destination that was cleared.
    Recreate,
}

/// The linking of one destination to one source, under way.
#[derive(Debug)]
pub struct LinkTask {
    source: String,
    dest: String,
    force: bool,
    phase: LinkPhase,
}

/// A `LinkTask` as a mathematical value.
pub struct LinkTaskModel {
    pub source: Seq<char>,
    pub dest: Seq<char>,
    pub force: bool,
    pub phase: LinkPhase,
}

impl View for LinkTask {
    type V = LinkTaskModel;

    closed spec fn view(&self) -> LinkTaskModel {
        LinkTaskModel { source: self.source@, dest: self.dest@, force: self.force, phase: self.phase }
    }
}

impl LinkTaskModel {
    /// The task with another phase.
    pub open spec fn at(self, phase: LinkPhase) -> LinkTaskModel {
        LinkTaskModel { phase, ..self }
    }

    /// The action whose reply the task waits for.
    pub open spec fn awaits(self) -> ActionModel {
        match self.phase {
            LinkPhase::Exists => ActionModel::Exists { path: self.dest },
            LinkPhase::IsSymlink | LinkPhase::Kind => ActionModel::IsSymlink { path: self.dest },
            LinkPhase::SourceForFree | LinkPhase::SourceForLink | LinkPhase::SourceForOccupied => ActionModel::Exists {
                path: self.source,
            },
            LinkPhase::IsDirectory => ActionModel::IsDirectory { path: self.dest },
            LinkPhase::Remove => ActionModel::RemoveFile { path: self.dest },
            LinkPhase::RemoveDir => ActionModel::RemoveDir { path: self.dest },
            LinkPhase::Create | LinkPhase::Recreate => ActionModel::Symlink {
                source: self.source,
                dest: self.dest,
            },
        }
    }

    /// The task goes on in another phase, with the action that the phase
    /// waits for and nothing to tell.
    pub open spec fn go_on(self, phase: LinkPhase) -> TaskStepModel<LinkTaskModel> {
        TaskStepModel::Continue {
            task: self.at(phase),
            notices: Seq::empty(),
            action: self.at(phase).awaits(),
        }
    }

    /// A link task begins by asking whether anything exists at the destination.
    pub open spec fn start(source: Seq<char>, dest: Seq<char>, force: bool) -> (
        LinkTaskModel,
        ActionModel,
    ) {
        (
            LinkTaskModel { source, dest, force, phase: LinkPhase::Exists },
            ActionModel::Exists { path: dest },
        )
    }

    /// What follows once the destination is known to be occupied: without
    /// force it is left alone; with force the task goes on in `phase` and asks
    /// for the source before it touches anything.
    pub open spec fn occupied(self, phase: LinkPhase) -> TaskStepModel<LinkTaskModel> {
        if self.force {
            self.go_on(phase)
        } else {
            TaskStepModel::Finished {
                notices: seq![NoticeModel::SkippedExisting { dest: self.dest }],
                result: Ok(LinkOutcome::SkippedExists),
            }
        }
    }

    /// The task ends because there is no source to link to. The destination
    /// is as it was.
    pub open spec fn source_missing(self) -> TaskStepModel<LinkTaskModel> {
        TaskStepModel::Finished { notices: Seq::empty(), result: Err(DotmanError::SymlinkCreationError) }
    }

    /// The clearing of the destination, as the next action: `phase` says
    /// whether a directory is removed, or a file or link.
    pub open spec fn clear(self, phase: LinkPhase) -> TaskStepModel<LinkTaskModel> {
        TaskStepModel::Continue {
            task: self.at(phase),
            notices: seq![NoticeModel::Overwriting { dest: self.dest }],
            action: self.at(phase).awaits(),
        }
    }

    /// How the task goes on once the clearing of the destination was tried.
    pub open spec fn cleared(self, reply: ReplyModel) -> TaskStepModel<LinkTaskModel> {
        if reply.succeeded() {
            self.go_on(LinkPhase::Recreate)
        } else {
            TaskStepModel::Finished { notices: Seq::empty(), result: Err(DotmanError::LinkRemovalError) }
        }
    }

    /// How the task ends once the creation of the link was tried.
    pub open spec fn created(self, reply: ReplyModel, outcome: LinkOutcome) -> TaskStepModel<
        LinkTaskModel,
    > {
        if reply.succeeded() {
            TaskStepModel::Finished {
                notices: seq![NoticeModel::Linked { dest: self.dest, source: self.source }],
                result: Ok(outcome),
            }
        } else {
            TaskStepModel::Finished {
                notices: Seq::empty(),
                result: Err(DotmanError::SymlinkCreationError),
            }
        }
    }

    /// What the task does after the reply to its last action.
    ///
    /// A destination that exists, or that is a symbolic link even if that leads
    /// nowhere, is occupied, and without force it is left alone. Else the task
    /// asks for the source, and fails without touching the destination if there
    /// is none. With force, what occupies the destination is then removed,
    /// whatever kind of entry it is: a symbolic link or a file as a file, a
    /// directory as a directory. A directory goes only if it holds nothing;
    /// one that holds anything makes the removal fail, and the task with it.
    /// Last, the link is created.
    pub open spec fn resume(self, reply: ReplyModel) -> TaskStepModel<LinkTaskModel> {
        match self.phase {
            LinkPhase::Exists => if reply.affirms() {
                self.occupied(LinkPhase::SourceForOccupied)
            } else {
                self.go_on(LinkPhase::IsSymlink)
            },
            LinkPhase::IsSymlink => if reply.affirms() {
                self.occupied(LinkPhase::SourceForLink)
            } else {
                self.go_on(LinkPhase::SourceForFree)
            },
            LinkPhase::SourceForFree => if reply.affirms() {
                self.go_on(LinkPhase::Create)
            } else {
                self.source_missing()
            },
            LinkPhase::SourceForLink => if reply.affirms() {
                self.clear(LinkPhase::Remove)
            } else {
                self.source_missing()
            },
            LinkPhase::SourceForOccupied => if reply.affirms() {
                self.go_on(LinkPhase::Kind)
            } else {
                self.source_missing()
            },
            LinkPhase::Kind => if reply.affirms() {
                self.clear(LinkPhase::Remove)
            } else {
                self.go_on(LinkPhase::IsDirectory)
            },
            LinkPhase::IsDirectory => if reply.affirms() {
                self.clear(LinkPhase::RemoveDir)
            } else {
                self.clear(LinkPhase::Remove)
            },
            LinkPhase::Remove => self.cleared(reply),
            LinkPhase::RemoveDir => self.cleared(reply),
            LinkPhase::Create => self.created(reply, LinkOutcome::Created),
            LinkPhase::Recreate => self.created(reply, LinkOutcome::Overwritten),
        }
    }
}

/// Begins to link `dest` to `source`: a symbolic link at `dest` that points to
/// `source`. What occupies `dest` is removed first if `force` is set, and left
/// alone otherwise. A source that does not exist is not linked to.
pub fn link_one(source: String, dest: String, force: bool) -> (r: (LinkTask, Action))
    ensures
        (r.0@, r.1@) == LinkTaskModel::start(source@, dest@, force),
{
    let action = Action::Exists { path: dest.clone() };
    (LinkTask { source, dest, force, phase: LinkPhase::Exists }, action)
}

impl LinkTask {
    /// The destination of the link.
    pub fn dest(&self) -> (dest: &str)
        ensures
            dest@ == self@.dest,
    {
        self.dest.as_str()
    }

    /// The action that the task asks for in `phase`.
    fn asks(&self, phase: LinkPhase) -> (action: Action)
        ensures
            action@ == self@.at(phase).awaits(),
    {
        match phase {
            LinkPhase::Exists => Action::Exists { path: self.dest.clone() },
            LinkPhase::IsSymlink | LinkPhase::Kind => Action::IsSymlink { path: self.dest.clone() },
            LinkPhase::SourceForFree | LinkPhase::SourceForLink | LinkPhase::SourceForOccupied => Action::Exists {
                path: self.source.clone(),
            },
            LinkPhase::IsDirectory => Action::IsDirectory { path: self.dest.clone() },
            LinkPhase::Remove => Action::RemoveFile { path: self.dest.clone() },
            LinkPhase::RemoveDir => Action::RemoveDir { path: self.dest.clone() },
            LinkPhase::Create | LinkPhase::Recreate => Action::Symlink {
                source: self.source.clone(),
                dest: self.dest.clone(),
            },
        }
    }

    fn go_on(self, phase: LinkPhase) -> (step: TaskStep<LinkTask>)
        ensures
            step@ == self@.go_on(phase),
    {
        let action = self.asks(phase);
        TaskStep::Continue { task: LinkTask { phase, ..self }, notices: no_notices(), action }
    }

    fn occupied(self, phase: LinkPhase) -> (step: TaskStep<LinkTask>)
        ensures
            step@ == self@.occupied(phase),
    {
        if self.force {
            self.go_on(phase)
        } else {
            TaskStep::Finished {
                notices: one_notice(Notice::SkippedExisting { dest: self.dest }),
                result: Ok(LinkOutcome::SkippedExists),
            }
        }
    }

    fn source_missing(self) -> (step: TaskStep<LinkTask>)
        ensures
            step@ == self@.source_missing(),
    {
        TaskStep::Finished { notices: no_notices(), result: Err(DotmanError::SymlinkCreationError) }
    }

    fn clear(self, phase: LinkPhase) -> (step: TaskStep<LinkTask>)
        ensures
            step@ == self@.clear(phase),
    {
        let action = self.asks(phase);
        let notices = one_notice(Notice::Overwriting { dest: self.dest.clone() });
        TaskStep::Continue { task: LinkTask { phase, ..self }, notices, action }
    }

    fn cleared(self, reply: &Reply) -> (step: TaskStep<LinkTask>)
        ensures
            step@ == self@.cleared(reply@),
    {
        if reply.succeeded() {
            self.go_on(LinkPhase::Recreate)
        } else {
            TaskStep::Finished { notices: no_notices(), result: Err(DotmanError::LinkRemovalError) }
        }
    }

    fn created(self, reply: &Reply, outcome: LinkOutcome) -> (step: TaskStep<LinkTask>)
        ensures
            step@ == self@.created(reply@, outcome),
    {
        if reply.succeeded() {
            TaskStep::Finished {
                notices: one_notice(Notice::Linked { dest: self.dest, source: self.source }),
                result: Ok(outcome),
            }
        } else {
            TaskStep::Finished {
                notices: no_notices(),
                result: Err(DotmanError::SymlinkCreationError),
            }
        }
    }

    /// Takes the reply to the task's last action and says what follows.
    pub fn resume(self, reply: &Reply) -> (step: TaskStep<LinkTask>)
        ensures
            step@ == self@.resume(reply@),
    {
        match self.phase {
            LinkPhase::Exists => {
                if reply.affirms() {
                    self.occupied(LinkPhase::SourceForOccupied)
                } else {
                    self.go_on(LinkPhase::IsSymlink)
                }
            },
            LinkPhase::IsSymlink => {
                if reply.affirms() {
                    self.occupied(LinkPhase::SourceForLink)
                } else {
                    self.go_on(LinkPhase::SourceForFree)
                }
            },
            LinkPhase::SourceForFree => {
                if reply.affirms() {
                    self.go_on(LinkPhase::Create)
                } else {
                    self.source_missing()
                }
            },
            LinkPhase::SourceForLink => {
                if reply.affirms() {
                    self.clear(LinkPhase::Remove)
                } else {
                    self.source_missing()
                }
            },
            LinkPhase::SourceForOccupied => {
                if reply.affirms() {
                    self.go_on(LinkPhase::Kind)
                } else {
                    self.source_missing()
                }
            },
            LinkPhase::Kind => {
                if reply.affirms() {
                    self.clear(LinkPhase::Remove)
                } else {
                    self.go_on(LinkPhase::IsDirectory)
                }
            },
            LinkPhase::IsDirectory => {
                if reply.affirms() {
                    self.clear(LinkPhase::RemoveDir)
                } else {
                    self.clear(LinkPhase::Remove)
                }
            },
            LinkPhase::Remove => self.cleared(reply),
            LinkPhase::RemoveDir => self.cleared(reply),
            LinkPhase::Create => self.created(reply, LinkOutcome::Created),
            LinkPhase::Recreate => self.created(reply, LinkOutcome::Overwritten),
        }
    }
}

/// Which reply an unlink task waits for.
#[derive(Clone, Copy, Debug, PartialEq, Eq, Structural)]
pub enum UnlinkPhase {
    /// Whether anything exists at the place.
    Exists,
    /// Whether the place is a symbolic link.
    IsSymlink,
    /// The removal of the symbolic link.
    Remove,
}

/// The unlinking of one place, under way.
#[derive(Debug)]
pub struct UnlinkTask {
    target: String,
    phase: UnlinkPhase,
}

/// An `UnlinkTask` as a mathematical value.
pub struct UnlinkTaskModel {
    pub target: Seq<char>,
    pub phase: UnlinkPhase,
}

impl View for UnlinkTask {
    type V = UnlinkTaskModel;

    closed spec fn view(&self) -> UnlinkTaskModel {
        UnlinkTaskModel { target: self.target@, phase: self.phase }
    }
}

impl UnlinkTaskModel {
    /// The action whose reply the task waits for.
    pub open spec fn awaits(self) -> ActionModel {
        match self.phase {
            UnlinkPhase::Exists => ActionModel::Exists { path: self.target },
            UnlinkPhase::IsSymlink => ActionModel::IsSymlink { path: self.target },
            UnlinkPhase::Remove => ActionModel::RemoveFile { path: self.target },
        }
    }

    /// An unlink task begins by asking whether anything exists at the place.
    pub open spec fn start(target: Seq<char>) -> (UnlinkTaskModel, ActionModel) {
        (
            UnlinkTaskModel { target, phase: UnlinkPhase::Exists },
            ActionModel::Exists { path: target },
        )
    }

    /// The place is left alone.
    pub open spec fn skipped(self) -> TaskStepModel<UnlinkTaskModel> {
        TaskStepModel::Finished {
            notices: seq![NoticeModel::SkippedNotSymlink { path: self.target }],
            result: Ok(LinkOutcome::SkippedNotSymlink),
        }
    }

    /// What the task does after the reply to its last action. Only a place
    /// that exists and is a symbolic link is removed.
    pub open spec fn resume(self, reply: ReplyModel) -> TaskStepModel<UnlinkTaskModel> {
        match self.phase {
            UnlinkPhase::Exists => if reply.affirms() {
                TaskStepModel::Continue {
                    task: UnlinkTaskModel { target: self.target, phase: UnlinkPhase::IsSymlink },
                    notices: Seq::empty(),
                    action: ActionModel::IsSymlink { path: self.target },
                }
            } else {
                self.skipped()
            },
            UnlinkPhase::IsSymlink => if reply.affirms() {
                TaskStepModel::Continue {
                    task: UnlinkTaskModel { target: self.target, phase: UnlinkPhase::Remove },
                    notices: Seq::empty(),
                    action: ActionModel::RemoveFile { path: self.target },
                }
            } else {
                self.skipped()
            },
            UnlinkPhase::Remove => if reply.succeeded() {
                TaskStepModel::Finished {
                    notices: seq![NoticeModel::Removed { path: self.target }],
                    result: Ok(LinkOutcome::Removed),
                }
            } else {
                TaskStepModel::Finished {
                    notices: Seq::empty(),
                    result: Err(DotmanError::LinkRemovalError),
                }
            },
        }
    }
}

/// Begins to unlink `target`: the symbolic link there is removed; anything
/// else that stands there, a regular file above all, is left alone.
pub fn unlink_one(target: String) -> (r: (UnlinkTask, Action))
    ensures
        (r.0@, r.1@) == UnlinkTaskModel::start(target@),
{
    let action = Action::Exists { path: target.clone() };
    (UnlinkTask { target, phase: UnlinkPhase::Exists }, action)
}

impl UnlinkTask {
    /// The place that is unlinked.
    pub fn target(&self) -> (target: &str)
        ensures
            target@ == self@.target,
    {
        self.target.as_str()
    }

    fn skipped(self) -> (step: TaskStep<UnlinkTask>)
        ensures
            step@ == self@.skipped(),
    {
        TaskStep::Finished {
            notices: one_notice(Notice::SkippedNotSymlink { path: self.target }),
            result: Ok(LinkOutcome::SkippedNotSymlink),
        }
    }

    /// Takes the reply to the task's last action and says what follows.
    pub fn resume(self, reply: &Reply) -> (step: TaskStep<UnlinkTask>)
        ensures
            step@ == self@.resume(reply@),
    {
        match self.phase {
            UnlinkPhase::Exists => {
                if reply.affirms() {
                    let action = Action::IsSymlink { path: self.target.clone() };
                    TaskStep::Continue {
                        task: UnlinkTask { target: self.target, phase: UnlinkPhase::IsSymlink },
                        notices: no_notices(),
                        action,
                    }
                } else {
                    self.skipped()
                }
            },
            UnlinkPhase::IsSymlink => {
                if reply.affirms() {
                    let action = Action::RemoveFile { path: self.target.clone() };
                    TaskStep::Continue {
                        task: UnlinkTask { target: self.target, phase: UnlinkPhase::Remove },
                        notices: no_notices(),
                        action,
                    }
                } else {
                    self.skipped()
                }
            },
            UnlinkPhase::Remove => {
                if reply.succeeded() {
                    TaskStep::Finished {
                        notices: one_notice(Notice::Removed { path: self.target }),
                        result: Ok(LinkOutcome::Removed),
                    }
                } else {
                    TaskStep::Finished {
                        notices: no_notices(),
                        result: Err(DotmanError::LinkRemovalError),
                    }
                }
            },
        }
    }
}

} // verus!
