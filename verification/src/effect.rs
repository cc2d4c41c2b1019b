//! What passes between a command and its driver: the actions that a command
//! asks for, the replies that the driver hands back, and the notices for the
//! user.

use crate::error::DotmanError;
use vstd::prelude::*;

verus! {

/// What a command asks its driver to do next. The driver does it and hands
/// back a `Reply`; `Finish` ends the command.
#[derive(Debug, PartialEq, Eq)]
pub enum Action {
    /// Ask whether the path leads to anything, symbolic links followed.
    Exists { path: String },
    /// Ask whether the path itself is a symbolic link.
    IsSymlink { path: String },
    /// Ask whether the path leads to a directory, symbolic links followed.
    IsDirectory { path: String },
    /// Create the directory and the directories above it.
    CreateDirAll { path: String },
    /// Read the file as text.
    ReadFile { path: String },
    /// Write the text to the file, in place of what it held.
    WriteFile { path: String, content: String },
    /// Move the file `from` to `to`.
    Rename { from: String, to: String },
    /// Remove the file or symbolic link.
    RemoveFile { path: String },
    /// Remove the directory, if it holds nothing. A directory that holds
    /// anything is not removed, nor anything in it.
    RemoveDir { path: String },
    /// Create at `dest` a symbolic link that points to `source`.
    Symlink { source: String, dest: String },
    /// Nothing more: the command has ended with this result.
    Finish { result: Result<(), DotmanError> },
}

/// An `Action` as a mathematical value.
pub enum ActionModel {
    Exists { path: Seq<char> },
    IsSymlink { path: Seq<char> },
    IsDirectory { path: Seq<char> },
    CreateDirAll { path: Seq<char> },
    ReadFile { path: Seq<char> },
    WriteFile { path: Seq<char>, content: Seq<char> },
    Rename { from: Seq<char>, to: Seq<char> },
    RemoveFile { path: Seq<char> },
    RemoveDir { path: Seq<char> },
    Symlink { source: Seq<char>, dest: Seq<char> },
    Finish { result: Result<(), DotmanError> },
}

impl View for Action {
    type V = ActionModel;

    open spec fn view(&self) -> ActionModel {
        match self {
            Action::Exists { path } => ActionModel::Exists { path: path@ },
            Action::IsSymlink { path } => ActionModel::IsSymlink { path: path@ },
            Action::IsDirectory { path } => ActionModel::IsDirectory { path: path@ },
            Action::CreateDirAll { path } => ActionModel::CreateDirAll { path: path@ },
            Action::ReadFile { path } => ActionModel::ReadFile { path: path@ },
            Action::WriteFile { path, content } => ActionModel::WriteFile {
                path: path@,
                content: content@,
            },
            Action::Rename { from, to } => ActionModel::Rename { from: from@, to: to@ },
            Action::RemoveFile { path } => ActionModel::RemoveFile { path: path@ },
            Action::RemoveDir { path } => ActionModel::RemoveDir { path: path@ },
            Action::Symlink { source, dest } => ActionModel::Symlink {
                source: source@,
                dest: dest@,
            },
            Action::Finish { result } => ActionModel::Finish { result: *result },
        }
    }
}

impl Clone for Action {
    fn clone(&self) -> (copy: Action)
        ensures
            copy@ == self@,
    {
        match self {
            Action::Exists { path } => Action::Exists { path: path.clone() },
            Action::IsSymlink { path } => Action::IsSymlink { path: path.clone() },
            Action::IsDirectory { path } => Action::IsDirectory { path: path.clone() },
            Action::CreateDirAll { path } => Action::CreateDirAll { path: path.clone() },
            Action::ReadFile { path } => Action::ReadFile { path: path.clone() },
            Action::WriteFile { path, content } => Action::WriteFile {
                path: path.clone(),
                content: content.clone(),
            },
            Action::Rename { from, to } => Action::Rename { from: from.clone(), to: to.clone() },
            Action::RemoveFile { path } => Action::RemoveFile { path: path.clone() },
            Action::RemoveDir { path } => Action::RemoveDir { path: path.clone() },
            Action::Symlink { source, dest } => Action::Symlink {
                source: source.clone(),
                dest: dest.clone(),
            },
            Action::Finish { result } => Action::Finish { result: *result },
        }
    }
}

/// What the driver hands back after an action. A question is answered by
/// `Flag`, a read by `Text`, any other operation by `Done`; `Failed` says that
/// the operation could not be done.
#[derive(Debug, PartialEq, Eq)]
pub enum Reply {
    Flag(bool),
    Text(String),
    Done,
    Failed,
}

/// A `Reply` as a mathematical value.
pub enum ReplyModel {
    Flag(bool),
    Text(Seq<char>),
    Done,
    Failed,
}

impl View for Reply {
    type V = ReplyModel;

    open spec fn view(&self) -> ReplyModel {
        match self {
            Reply::Flag(flag) => ReplyModel::Flag(*flag),
            Reply::Text(text) => ReplyModel::Text(text@),
            Reply::Done => ReplyModel::Done,
            Reply::Failed => ReplyModel::Failed,
        }
    }
}

impl ReplyModel {
    /// Whether the reply answers a question with yes. A reply of another kind
    /// is no answer, and counts as no.
    pub open spec fn affirms(self) -> bool {
        self == ReplyModel::Flag(true)
    }

    /// Whether the reply says that the operation was done. A reply of another
    /// kind counts as a failure.
    pub open spec fn succeeded(self) -> bool {
        self is Done
    }
}

impl Reply {
    /// Whether the reply answers a question with yes.
    pub fn affirms(&self) -> (yes: bool)
        ensures
            yes == self@.affirms(),
    {
        match self {
            Reply::Flag(flag) => *flag,
            _ => false,
        }
    }

    /// Whether the reply says that the operation was done.
    pub fn succeeded(&self) -> (done: bool)
        ensures
            done == self@.succeeded(),
    {
        match self {
            Reply::Done => true,
            _ => false,
        }
    }
}

/// Something for the driver to tell the user, in the order in which it arises.
#[derive(Debug, PartialEq, Eq)]
pub enum Notice {
    /// The directory exists already; nothing was initialised.
    RepositoryAlreadyExists { dir: String },
    /// A repository was created in the directory.
    Initialized { dir: String },
    /// The file is about to move into the repository.
    Moving { from: String, to: String },
    /// The file of that name is now managed and linked.
    Added { name: String },
    /// The manifest holds no file to link.
    NothingToLink,
    /// Every managed file is about to be linked.
    LinkingAll,
    /// Every managed file was linked or passed over, none failed.
    AllLinked,
    /// Something occupies the place; it is about to be removed.
    Overwriting { dest: String },
    /// Something occupies the place; it was left alone.
    SkippedExisting { dest: String },
    /// A symbolic link at `dest` now points to `source`.
    Linked { dest: String, source: String },
    /// The manifest holds no file to unlink.
    NothingToUnlink,
    /// Every managed file is about to be unlinked.
    UnlinkingAll,
    /// Every symbolic link was removed or passed over, none failed.
    AllUnlinked,
    /// The symbolic link was removed.
    Removed { path: String },
    /// The place holds no symbolic link; it was left alone.
    SkippedNotSymlink { path: String },
    /// The manifest holds no file.
    NothingManaged,
    /// The managed files follow.
    Listing,
    /// The repository copy `source` belongs at `target`.
    Managed { source: String, target: String },
    /// The entry for this place failed; the batch goes on.
    Failed { path: String, error: DotmanError },
}

/// A `Notice` as a mathematical value.
pub enum NoticeModel {
    RepositoryAlreadyExists { dir: Seq<char> },
    Initialized { dir: Seq<char> },
    Moving { from: Seq<char>, to: Seq<char> },
    Added { name: Seq<char> },
    NothingToLink,
    LinkingAll,
    AllLinked,
    Overwriting { dest: Seq<char> },
    SkippedExisting { dest: Seq<char> },
    Linked { dest: Seq<char>, source: Seq<char> },
    NothingToUnlink,
    UnlinkingAll,
    AllUnlinked,
    Removed { path: Seq<char> },
    SkippedNotSymlink { path: Seq<char> },
    NothingManaged,
    Listing,
    Managed { source: Seq<char>, target: Seq<char> },
    Failed { path: Seq<char>, error: DotmanError },
}

impl View for Notice {
    type V = NoticeModel;

    open spec fn view(&self) -> NoticeModel {
        match self {
            Notice::RepositoryAlreadyExists { dir } => NoticeModel::RepositoryAlreadyExists { dir: dir@ },
            Notice::Initialized { dir } => NoticeModel::Initialized { dir: dir@ },
            Notice::Moving { from, to } => NoticeModel::Moving { from: from@, to: to@ },
            Notice::Added { name } => NoticeModel::Added { name: name@ },
            Notice::NothingToLink => NoticeModel::NothingToLink,
            Notice::LinkingAll => NoticeModel::LinkingAll,
            Notice::AllLinked => NoticeModel::AllLinked,
            Notice::Overwriting { dest } => NoticeModel::Overwriting { dest: dest@ },
            Notice::SkippedExisting { dest } => NoticeModel::SkippedExisting { dest: dest@ },
            Notice::Linked { dest, source } => NoticeModel::Linked {
                dest: dest@,
                source: source@,
            },
            Notice::NothingToUnlink => NoticeModel::NothingToUnlink,
            Notice::UnlinkingAll => NoticeModel::UnlinkingAll,
            Notice::AllUnlinked => NoticeModel::AllUnlinked,
            Notice::Removed { path } => NoticeModel::Removed { path: path@ },
            Notice::SkippedNotSymlink { path } => NoticeModel::SkippedNotSymlink { path: path@ },
            Notice::NothingManaged => NoticeModel::NothingManaged,
            Notice::Listing => NoticeModel::Listing,
            Notice::Managed { source, target } => NoticeModel::Managed {
                source: source@,
                target: target@,
            },
            Notice::Failed { path, error } => NoticeModel::Failed { path: path@, error: *error },
        }
    }
}

/// The notices of a list, each as a mathematical value.
pub open spec fn notice_models(notices: Seq<Notice>) -> Seq<NoticeModel> {
    notices.map_values(|notice: Notice| notice@)
}

/// A list without notices.
pub(crate) fn no_notices() -> (notices: Vec<Notice>)
    ensures
        notice_models(notices@) == Seq::<NoticeModel>::empty(),
{
    let notices = Vec::new();
    assert(notice_models(notices@) =~= Seq::<NoticeModel>::empty());
    notices
}

/// A list of one notice.
pub(crate) fn one_notice(notice: Notice) -> (notices: Vec<Notice>)
    ensures
        notice_models(notices@) == seq![notice@],
{
    let mut notices = Vec::new();
    notices.push(notice);
    assert(notice_models(notices@) =~= seq![notice@]);
    notices
}

/// Adds a notice at the end of a list.
pub(crate) fn add_notice(notices: &mut Vec<Notice>, notice: Notice)
    ensures
        notice_models(final(notices)@) == notice_models(old(notices)@).push(notice@),
{
    notices.push(notice);
    assert(notice_models(notices@) =~= notice_models(old(notices)@).push(notice@));
}

} // verus!
