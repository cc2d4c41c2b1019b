//! The five commands. Each is a machine: it asks for one action at a time
//! and, given the reply, says what to tell the user and what to do next, until
//! it finishes. `MachineModel::resume` says what a machine does; `Machine::resume`
//! does it.

use crate::config::{parsed_manifest, saved_manifest, Config, Manifest, CONFIG_FILE_NAME, DEFAULT_DOTFILES_DIR};
use crate::effect::{
    add_notice, no_notices, notice_models, one_notice, Action, ActionModel, Notice, NoticeModel, Reply,
    ReplyModel,
};
use crate::error::DotmanError;
use crate::paths::{file_name, get_home_dir, join, path_file_name, path_joined, resolve_path, resolved};
use crate::reconcile::{
    link_one, unlink_one, LinkTask, LinkTaskModel, Settled, TaskStep, TaskStepModel, UnlinkTask,
    UnlinkTaskModel,
};
use vstd::prelude::*;

verus! {

/// What a command other than `init` is to do once the manifest is loaded.
#[derive(Debug)]
pub enum Request {
    Add { path: String },
    Link { force: bool },
    Unlink,
    List,
}

/// A `Request` as a mathematical value.
pub enum RequestModel {
    Add { path: Seq<char> },
    Link { force: bool },
    Unlink,
    List,
}

impl View for Request {
    type V = RequestModel;

    open spec fn view(&self) -> RequestModel {
        match self {
            Request::Add { path } => RequestModel::Add { path: path@ },
            Request::Link { force } => RequestModel::Link { force: *force },
            Request::Unlink => RequestModel::Unlink,
            Request::List => RequestModel::List,
        }
    }
}

/// Where a command stands between two actions.
#[derive(Debug)]
#[allow(inconsistent_fields)]
enum State {
    InitProbe { target: String },
    InitCreate { target: String },
    InitSave { target: String },
    Locate { request: Request, home: String, root: String },
    Load { request: Request, home: String, root: String },
    AddProbe { config: Config, root: String, source: String },
    AddMove { config: Config, source: String, name: String, copy: String },
    AddLink { config: Config, source: String, name: String, task: LinkTask },
    AddSave { name: String },
    Linking {
        config: Config,
        root: String,
        force: bool,
        index: usize,
        outcomes: Vec<Settled>,
        failure: Option<DotmanError>,
        task: LinkTask,
    },
    Unlinking {
        config: Config,
        index: usize,
        outcomes: Vec<Settled>,
        failure: Option<DotmanError>,
        task: UnlinkTask,
    },
    Finished { result: Result<(), DotmanError>, outcomes: Vec<Settled> },
}

/// A command under way: it has asked for an action and waits for the reply.
#[derive(Debug)]
pub struct Machine {
    state: State,
}

/// A `Machine` as a mathematical value: the reply it waits for, and what it
/// has to remember to go on.
#[allow(inconsistent_fields)]
pub enum MachineModel {
    /// `init` has asked whether the target directory exists.
    InitProbe { target: Seq<char> },
    /// `init` has asked for the target directory to be created.
    InitCreate { target: Seq<char> },
    /// `init` has asked for the empty manifest to be written.
    InitSave { target: Seq<char> },
    /// The command has asked whether the repository directory exists.
    Locate { request: RequestModel, home: Seq<char>, root: Seq<char> },
    /// The command has asked for the text of the manifest file.
    Load { request: RequestModel, home: Seq<char>, root: Seq<char> },
    /// `add` has asked whether the file to add exists.
    AddProbe { manifest: Manifest, root: Seq<char>, source: Seq<char> },
    /// `add` has asked for the file to be moved into the repository.
    AddMove { manifest: Manifest, source: Seq<char>, name: Seq<char>, copy: Seq<char> },
    /// `add` is linking the file's old place to its repository copy.
    AddLink { manifest: Manifest, source: Seq<char>, name: Seq<char>, task: LinkTaskModel },
    /// `add` has asked for the manifest to be written.
    AddSave { name: Seq<char> },
    /// `link` is at the entry of turn `index`; the entries before it are settled.
    Linking {
        manifest: Manifest,
        root: Seq<char>,
        force: bool,
        index: nat,
        outcomes: Seq<Settled>,
        failure: Option<DotmanError>,
        task: LinkTaskModel,
    },
    /// `unlink` is at the entry of turn `index`; the entries before it are settled.
    Unlinking {
        manifest: Manifest,
        index: nat,
        outcomes: Seq<Settled>,
        failure: Option<DotmanError>,
        task: UnlinkTaskModel,
    },
    /// The command has ended. A batch leaves what became of each entry, in order.
    Finished { result: Result<(), DotmanError>, outcomes: Seq<Settled> },
}

impl View for Machine {
    type V = MachineModel;

    closed spec fn view(&self) -> MachineModel {
        match self.state {
            State::InitProbe { target } => MachineModel::InitProbe { target: target@ },
            State::InitCreate { target } => MachineModel::InitCreate { target: target@ },
            State::InitSave { target } => MachineModel::InitSave { target: target@ },
            State::Locate { request, home, root } => MachineModel::Locate {
                request: request@,
                home: home@,
                root: root@,
            },
            State::Load { request, home, root } => MachineModel::Load {
                request: request@,
                home: home@,
                root: root@,
            },
            State::AddProbe { config, root, source } => MachineModel::AddProbe {
                manifest: config@,
                root: root@,
                source: source@,
            },
            State::AddMove { config, source, name, copy } => MachineModel::AddMove {
                manifest: config@,
                source: source@,
                name: name@,
                copy: copy@,
            },
            State::AddLink { config, source, name, task } => MachineModel::AddLink {
                manifest: config@,
                source: source@,
                name: name@,
                task: task@,
            },
            State::AddSave { name } => MachineModel::AddSave { name: name@ },
            State::Linking { config, root, force, index, outcomes, failure, task } => MachineModel::Linking {
                manifest: config@,
                root: root@,
                force,
                index: index as nat,
                outcomes: outcomes@,
                failure,
                task: task@,
            },
            State::Unlinking { config, index, outcomes, failure, task } => MachineModel::Unlinking {
                manifest: config@,
                index: index as nat,
                outcomes: outcomes@,
                failure,
                task: task@,
            },
            State::Finished { result, outcomes } => MachineModel::Finished {
                result,
                outcomes: outcomes@,
            },
        }
    }
}

/// What a command hands its driver: what to tell the user, what to do next,
/// and the machine that takes the reply.
#[derive(Debug)]
pub struct Step {
    pub machine: Machine,
    pub notices: Vec<Notice>,
    pub action: Action,
}

/// A `Step` as a mathematical value.
pub struct StepModel {
    pub machine: MachineModel,
    pub notices: Seq<NoticeModel>,
    pub action: ActionModel,
}

impl View for Step {
    type V = StepModel;

    open spec fn view(&self) -> StepModel {
        StepModel {
            machine: self.machine@,
            notices: notice_models(self.notices@),
            action: self.action@,
        }
    }
}

/// The text of a string that may be missing.
pub open spec fn text_of(string: Option<String>) -> Option<Seq<char>> {
    match string {
        Some(text) => Some(text@),
        None => None,
    }
}

/// The first failure of a batch: the one so far, or else that of the entry just settled.
pub open spec fn first_failure(failure: Option<DotmanError>, result: Settled) -> Option<DotmanError> {
    match (failure, result) {
        (None, Err(error)) => Some(error),
        _ => failure,
    }
}

/// The notices of an entry, with one more where the entry failed.
pub open spec fn with_failure(notices: Seq<NoticeModel>, path: Seq<char>, result: Settled) -> Seq<
    NoticeModel,
> {
    match result {
        Err(error) => notices.push(NoticeModel::Failed { path, error }),
        Ok(_) => notices,
    }
}

/// The line of `list` for the entry of turn `index`: its repository copy and its place.
pub open spec fn managed(manifest: Manifest, index: int) -> NoticeModel {
    NoticeModel::Managed {
        source: path_joined(manifest.dotfiles_dir, manifest.order[index]),
        target: manifest.files[manifest.order[index]],
    }
}

impl StepModel {
    /// The end of a command.
    pub open spec fn finish(
        result: Result<(), DotmanError>,
        outcomes: Seq<Settled>,
        notices: Seq<NoticeModel>,
    ) -> StepModel {
        StepModel {
            machine: MachineModel::Finished { result, outcomes },
            notices,
            action: ActionModel::Finish { result },
        }
    }

    /// The end of a command that failed.
    pub open spec fn fail(error: DotmanError) -> StepModel {
        StepModel::finish(Err(error), Seq::empty(), Seq::empty())
    }

    /// The end of a command that succeeded, with a last word to the user.
    pub open spec fn done(notice: NoticeModel) -> StepModel {
        StepModel::finish(Ok(()), Seq::empty(), seq![notice])
    }

    /// The end of a batch: it fails with its first failure, if it had one.
    pub open spec fn batch_end(
        outcomes: Seq<Settled>,
        failure: Option<DotmanError>,
        notices: Seq<NoticeModel>,
        all_done: NoticeModel,
    ) -> StepModel {
        match failure {
            Some(error) => StepModel::finish(Err(error), outcomes, notices),
            None => StepModel::finish(Ok(()), outcomes, notices.push(all_done)),
        }
    }

    /// `init` with the home directory known: the target is the given directory,
    /// or else the default directory inside the home directory, and the first
    /// question is whether it exists.
    pub open spec fn init(home: Seq<char>, dir: Option<Seq<char>>) -> StepModel {
        let target = match dir {
            Some(dir) => dir,
            None => path_joined(home, DEFAULT_DOTFILES_DIR@),
        };
        StepModel {
            machine: MachineModel::InitProbe { target },
            notices: Seq::empty(),
            action: ActionModel::Exists { path: target },
        }
    }

    /// Any other command with the home directory known: the repository is the
    /// default directory inside the home directory, and the first question is
    /// whether it exists.
    pub open spec fn open(request: RequestModel, home: Seq<char>) -> StepModel {
        let root = path_joined(home, DEFAULT_DOTFILES_DIR@);
        StepModel {
            machine: MachineModel::Locate { request, home, root },
            notices: Seq::empty(),
            action: ActionModel::Exists { path: root },
        }
    }

    /// What a command does once the manifest is loaded.
    pub open spec fn dispatch(
        request: RequestModel,
        manifest: Manifest,
        home: Seq<char>,
        root: Seq<char>,
    ) -> StepModel {
        match request {
            RequestModel::Add { path } => match resolved(path, Some(home)) {
                Ok(source) => StepModel::adding(manifest, root, source),
                Err(error) => StepModel::fail(error),
            },
            RequestModel::Link { force } => StepModel::linking(manifest, root, force),
            RequestModel::Unlink => StepModel::unlinking(manifest),
            RequestModel::List => StepModel::listing(manifest),
        }
    }

    /// `add` with the manifest loaded and the path resolved: the first
    /// question is whether the file exists.
    pub open spec fn adding(manifest: Manifest, root: Seq<char>, source: Seq<char>) -> StepModel {
        StepModel {
            machine: MachineModel::AddProbe { manifest, root, source },
            notices: Seq::empty(),
            action: ActionModel::Exists { path: source },
        }
    }

    /// `link` at the entry of turn `index`: the entry's place is linked to its
    /// repository copy; after the last entry the batch ends.
    pub open spec fn link_entry(
        manifest: Manifest,
        root: Seq<char>,
        force: bool,
        index: nat,
        outcomes: Seq<Settled>,
        failure: Option<DotmanError>,
        notices: Seq<NoticeModel>,
    ) -> StepModel {
        if index < manifest.order.len() {
            let name = manifest.order[index as int];
            let (task, action) = LinkTaskModel::start(path_joined(root, name), manifest.files[name], force);
            StepModel {
                machine: MachineModel::Linking { manifest, root, force, index, outcomes, failure, task },
                notices,
                action,
            }
        } else {
            StepModel::batch_end(outcomes, failure, notices, NoticeModel::AllLinked)
        }
    }

    /// `link` with the manifest loaded: nothing to do for an empty manifest,
    /// else every entry in turn.
    pub open spec fn linking(manifest: Manifest, root: Seq<char>, force: bool) -> StepModel {
        if manifest.order.len() == 0 {
            StepModel::done(NoticeModel::NothingToLink)
        } else {
            StepModel::link_entry(
                manifest,
                root,
                force,
                0,
                Seq::empty(),
                None,
                seq![NoticeModel::LinkingAll],
            )
        }
    }

    /// `unlink` at the entry of turn `index`; after the last entry the batch ends.
    pub open spec fn unlink_entry(
        manifest: Manifest,
        index: nat,
        outcomes: Seq<Settled>,
        failure: Option<DotmanError>,
        notices: Seq<NoticeModel>,
    ) -> StepModel {
        if index < manifest.order.len() {
            let (task, action) = UnlinkTaskModel::start(manifest.files[manifest.order[index as int]]);
            StepModel {
                machine: MachineModel::Unlinking { manifest, index, outcomes, failure, task },
                notices,
                action,
            }
        } else {
            StepModel::batch_end(outcomes, failure, notices, NoticeModel::AllUnlinked)
        }
    }

    /// `unlink` with the manifest loaded: nothing to do for an empty manifest,
    /// else every entry in turn.
    pub open spec fn unlinking(manifest: Manifest) -> StepModel {
        if manifest.order.len() == 0 {
            StepModel::done(NoticeModel::NothingToUnlink)
        } else {
            StepModel::unlink_entry(manifest, 0, Seq::empty(), None, seq![NoticeModel::UnlinkingAll])
        }
    }

    /// `list` with the manifest loaded: a line for every entry, in turn, and
    /// nothing to do on the disk.
    pub open spec fn listing(manifest: Manifest) -> StepModel {
        if manifest.order.len() == 0 {
            StepModel::done(NoticeModel::NothingManaged)
        } else {
            StepModel::finish(
                Ok(()),
                Seq::empty(),
                seq![NoticeModel::Listing] + Seq::new(
                    manifest.order.len(),
                    |index: int| managed(manifest, index),
                ),
            )
        }
    }
}

impl MachineModel {
    /// What the machine does after the reply to its last action.
    pub open spec fn resume(self, reply: ReplyModel) -> StepModel {
        match self {
            MachineModel::InitProbe { target } => if reply.affirms() {
                StepModel::done(NoticeModel::RepositoryAlreadyExists { dir: target })
            } else {
                StepModel {
                    machine: MachineModel::InitCreate { target },
                    notices: Seq::empty(),
                    action: ActionModel::CreateDirAll { path: target },
                }
            },
            MachineModel::InitCreate { target } => if reply.succeeded() {
                match saved_manifest(Manifest::empty(target)) {
                    Ok(content) => StepModel {
                        machine: MachineModel::InitSave { target },
                        notices: Seq::empty(),
                        action: ActionModel::WriteFile {
                            path: Manifest::empty(target).path(),
                            content,
                        },
                    },
                    Err(error) => StepModel::fail(error),
                }
            } else {
                StepModel::fail(DotmanError::RepositoryCreationError)
            },
            MachineModel::InitSave { target } => if reply.succeeded() {
                StepModel::done(NoticeModel::Initialized { dir: target })
            } else {
                StepModel::fail(DotmanError::ManifestWriteError)
            },
            MachineModel::Locate { request, home, root } => if reply.affirms() {
                StepModel {
                    machine: MachineModel::Load { request, home, root },
                    notices: Seq::empty(),
                    action: ActionModel::ReadFile { path: path_joined(root, CONFIG_FILE_NAME@) },
                }
            } else {
                StepModel::fail(DotmanError::RepositoryNotInitialized)
            },
            MachineModel::Load { request, home, root } => match reply {
                ReplyModel::Text(content) => match parsed_manifest(content) {
                    Ok(manifest) => StepModel::dispatch(request, manifest, home, root),
                    Err(error) => StepModel::fail(error),
                },
                _ => StepModel::fail(DotmanError::ManifestReadError),
            },
            MachineModel::AddProbe { manifest, root, source } => if reply.affirms() {
                match path_file_name(source) {
                    Some(name) => {
                        let copy = path_joined(root, name);
                        StepModel {
                            machine: MachineModel::AddMove { manifest, source, name, copy },
                            notices: seq![NoticeModel::Moving { from: source, to: copy }],
                            action: ActionModel::Rename { from: source, to: copy },
                        }
                    },
                    None => StepModel::fail(DotmanError::InvalidFileName),
                }
            } else {
                StepModel::fail(DotmanError::SourceNotFound)
            },
            MachineModel::AddMove { manifest, source, name, copy } => if reply.succeeded() {
                let (task, action) = LinkTaskModel::start(copy, source, true);
                StepModel {
                    machine: MachineModel::AddLink { manifest, source, name, task },
                    notices: Seq::empty(),
                    action,
                }
            } else {
                StepModel::fail(DotmanError::FileMoveError)
            },
            MachineModel::AddLink { manifest, source, name, task } => match task.resume(reply) {
                TaskStepModel::Continue { task, notices, action } => StepModel {
                    machine: MachineModel::AddLink { manifest, source, name, task },
                    notices,
                    action,
                },
                TaskStepModel::Finished { notices, result: Err(error) } => StepModel::finish(
                    Err(error),
                    Seq::empty(),
                    notices,
                ),
                TaskStepModel::Finished { notices, result: Ok(_) } => {
                    let manifest = manifest.with(name, source);
                    match saved_manifest(manifest) {
                        Ok(content) => StepModel {
                            machine: MachineModel::AddSave { name },
                            notices,
                            action: ActionModel::WriteFile { path: manifest.path(), content },
                        },
                        Err(error) => StepModel::finish(Err(error), Seq::empty(), notices),
                    }
                },
            },
            MachineModel::AddSave { name } => if reply.succeeded() {
                StepModel::done(NoticeModel::Added { name })
            } else {
                StepModel::fail(DotmanError::ManifestWriteError)
            },
            MachineModel::Linking { manifest, root, force, index, outcomes, failure, task } => match task.resume(
                reply,
            ) {
                TaskStepModel::Continue { task, notices, action } => StepModel {
                    machine: MachineModel::Linking { manifest, root, force, index, outcomes, failure, task },
                    notices,
                    action,
                },
                TaskStepModel::Finished { notices, result } => StepModel::link_entry(
                    manifest,
                    root,
                    force,
                    index + 1,
                    outcomes.push(result),
                    first_failure(failure, result),
                    with_failure(notices, task.dest, result),
                ),
            },
            MachineModel::Unlinking { manifest, index, outcomes, failure, task } => match task.resume(reply) {
                TaskStepModel::Continue { task, notices, action } => StepModel {
                    machine: MachineModel::Unlinking { manifest, index, outcomes, failure, task },
                    notices,
                    action,
                },
                TaskStepModel::Finished { notices, result } => StepModel::unlink_entry(
                    manifest,
                    index + 1,
                    outcomes.push(result),
                    first_failure(failure, result),
                    with_failure(notices, task.target, result),
                ),
            },
            MachineModel::Finished { result, outcomes } => StepModel::finish(
                result,
                outcomes,
                Seq::empty(),
            ),
        }
    }
}

fn finish(result: Result<(), DotmanError>, outcomes: Vec<Settled>, notices: Vec<Notice>) -> (step: Step)
    ensures
        step@ == StepModel::finish(result, outcomes@, notice_models(notices@)),
{
    Step {
        machine: Machine { state: State::Finished { result, outcomes } },
        notices,
        action: Action::Finish { result },
    }
}

fn fail(error: DotmanError) -> (step: Step)
    ensures
        step@ == StepModel::fail(error),
{
    finish(Err(error), Vec::new(), no_notices())
}

fn done(notice: Notice) -> (step: Step)
    ensures
        step@ == StepModel::done(notice@),
{
    finish(Ok(()), Vec::new(), one_notice(notice))
}

fn batch_end(
    outcomes: Vec<Settled>,
    failure: Option<DotmanError>,
    notices: Vec<Notice>,
    all_done: Notice,
) -> (step: Step)
    ensures
        step@ == StepModel::batch_end(outcomes@, failure, notice_models(notices@), all_done@),
{
    match failure {
        Some(error) => finish(Err(error), outcomes, notices),
        None => {
            let mut notices = notices;
            add_notice(&mut notices, all_done);
            finish(Ok(()), outcomes, notices)
        },
    }
}

fn with_failure_notice(notices: Vec<Notice>, path: String, result: Settled) -> (r: Vec<Notice>)
    ensures
        notice_models(r@) == with_failure(notice_models(notices@), path@, result),
{
    match result {
        Err(error) => {
            let mut notices = notices;
            add_notice(&mut notices, Notice::Failed { path, error });
            notices
        },
        Ok(_) => notices,
    }
}

fn note_failure(failure: Option<DotmanError>, result: Settled) -> (r: Option<DotmanError>)
    ensures
        r == first_failure(failure, result),
{
    match failure {
        Some(_) => failure,
        None => match result {
            Err(error) => Some(error),
            Ok(_) => None,
        },
    }
}

/// Begins `init` with the home directory known.
pub fn init_in(home: &str, dir: Option<String>) -> (step: Step)
    ensures
        step@ == StepModel::init(home@, text_of(dir)),
{
    let target = match dir {
        Some(dir) => dir,
        None => join(home, DEFAULT_DOTFILES_DIR),
    };
    let action = Action::Exists { path: target.clone() };
    Step { machine: Machine { state: State::InitProbe { target } }, notices: no_notices(), action }
}

/// Begins a command other than `init` with the home directory known.
pub fn open(request: Request, home: &str) -> (step: Step)
    ensures
        step@ == StepModel::open(request@, home@),
{
    let root = join(home, DEFAULT_DOTFILES_DIR);
    let action = Action::Exists { path: root.clone() };
    Step {
        machine: Machine { state: State::Locate { request, home: home.to_owned(), root } },
        notices: no_notices(),
        action,
    }
}

/// Begins a command other than `init`; the home directory is asked for first.
fn open_at_home(request: Request) -> (step: Step)
    ensures
        step@ == StepModel::fail(DotmanError::HomeDirectoryUnavailable) || exists|home: Seq<char>|
            step@ == StepModel::open(request@, home),
{
    match get_home_dir() {
        Ok(home) => open(request, home.as_str()),
        Err(_) => fail(DotmanError::HomeDirectoryUnavailable),
    }
}

/// Begins `init`, the command that creates a repository in `dir`, or in the
/// default directory inside the home directory, unless the directory exists
/// already. The command fails at once if there is no home directory, whether
/// `dir` is given or not.
pub fn init(dir: Option<String>) -> (step: Step)
    ensures
        step@ == StepModel::fail(DotmanError::HomeDirectoryUnavailable) || exists|home: Seq<char>|
            step@ == StepModel::init(home, text_of(dir)),
{
    match get_home_dir() {
        Ok(home) => init_in(home.as_str(), dir),
        Err(_) => fail(DotmanError::HomeDirectoryUnavailable),
    }
}

/// Begins `add`, the command that moves the file at `path` into the repository,
/// links its old place to the copy, and records it in the manifest.
pub fn add(path: String) -> (step: Step)
    ensures
        step@ == StepModel::fail(DotmanError::HomeDirectoryUnavailable) || exists|home: Seq<char>|
            step@ == StepModel::open(RequestModel::Add { path: path@ }, home),
{
    open_at_home(Request::Add { path })
}

/// Begins `link`, the command that links the place of every managed file to its
/// repository copy. What occupies a place is removed first if `force` is set,
/// and left alone otherwise.
pub fn link(force: bool) -> (step: Step)
    ensures
        step@ == StepModel::fail(DotmanError::HomeDirectoryUnavailable) || exists|home: Seq<char>|
            step@ == StepModel::open(RequestModel::Link { force }, home),
{
    open_at_home(Request::Link { force })
}

/// Begins `unlink`, the command that removes the symbolic link at the place of
/// every managed file. The manifest stays as it is.
pub fn unlink() -> (step: Step)
    ensures
        step@ == StepModel::fail(DotmanError::HomeDirectoryUnavailable) || exists|home: Seq<char>|
            step@ == StepModel::open(RequestModel::Unlink, home),
{
    open_at_home(Request::Unlink)
}

/// Begins `list`, the command that tells the repository copy and the place of
/// every managed file.
pub fn list() -> (step: Step)
    ensures
        step@ == StepModel::fail(DotmanError::HomeDirectoryUnavailable) || exists|home: Seq<char>|
            step@ == StepModel::open(RequestModel::List, home),
{
    open_at_home(Request::List)
}

fn adding(config: Config, root: String, source: String) -> (step: Step)
    ensures
        step@ == StepModel::adding(config@, root@, source@),
{
    let action = Action::Exists { path: source.clone() };
    Step {
        machine: Machine { state: State::AddProbe { config, root, source } },
        notices: no_notices(),
        action,
    }
}

fn link_entry(
    config: Config,
    root: String,
    force: bool,
    index: usize,
    outcomes: Vec<Settled>,
    failure: Option<DotmanError>,
    notices: Vec<Notice>,
) -> (step: Step)
    ensures
        step@ == StepModel::link_entry(
            config@,
            root@,
            force,
            index as nat,
            outcomes@,
            failure,
            notice_models(notices@),
        ),
{
    let started = match config.entry(index) {
        Some((name, target)) => Some(link_one(join(root.as_str(), name), target.to_owned(), force)),
        None => None,
    };
    match started {
        Some((task, action)) => Step {
            machine: Machine {
                state: State::Linking { config, root, force, index, outcomes, failure, task },
            },
            notices,
            action,
        },
        None => batch_end(outcomes, failure, notices, Notice::AllLinked),
    }
}

fn linking(config: Config, root: String, force: bool) -> (step: Step)
    ensures
        step@ == StepModel::linking(config@, root@, force),
{
    if config.is_empty() {
        done(Notice::NothingToLink)
    } else {
        link_entry(config, root, force, 0, Vec::new(), None, one_notice(Notice::LinkingAll))
    }
}

fn unlink_entry(
    config: Config,
    index: usize,
    outcomes: Vec<Settled>,
    failure: Option<DotmanError>,
    notices: Vec<Notice>,
) -> (step: Step)
    ensures
        step@ == StepModel::unlink_entry(
            config@,
            index as nat,
            outcomes@,
            failure,
            notice_models(notices@),
        ),
{
    let started = match config.entry(index) {
        Some((_, target)) => Some(unlink_one(target.to_owned())),
        None => None,
    };
    match started {
        Some((task, action)) => Step {
            machine: Machine { state: State::Unlinking { config, index, outcomes, failure, task } },
            notices,
            action,
        },
        None => batch_end(outcomes, failure, notices, Notice::AllUnlinked),
    }
}

fn unlinking(config: Config) -> (step: Step)
    ensures
        step@ == StepModel::unlinking(config@),
{
    if config.is_empty() {
        done(Notice::NothingToUnlink)
    } else {
        unlink_entry(config, 0, Vec::new(), None, one_notice(Notice::UnlinkingAll))
    }
}

fn listing(config: Config) -> (step: Step)
    ensures
        step@ == StepModel::listing(config@),
{
    if config.is_empty() {
        return done(Notice::NothingManaged);
    }
    let mut notices = one_notice(Notice::Listing);
    let n = config.len();
    let mut index: usize = 0;
    while index < n
        invariant
            index <= n,
            n == config@.order.len(),
            notice_models(notices@) == seq![NoticeModel::Listing] + Seq::new(
                index as nat,
                |i: int| managed(config@, i),
            ),
        decreases n - index,
    {
        let ghost before = notice_models(notices@);
        match config.entry(index) {
            Some((name, target)) => {
                let source = join(config.dotfiles_dir(), name);
                add_notice(&mut notices, Notice::Managed { source, target: target.to_owned() });
            },
            None => {},
        }
        assert(notice_models(notices@) =~= seq![NoticeModel::Listing] + Seq::new(
            (index + 1) as nat,
            |i: int| managed(config@, i),
        ));
        index += 1;
    }
    finish(Ok(()), Vec::new(), notices)
}

fn dispatch(request: Request, config: Config, home: String, root: String) -> (step: Step)
    ensures
        step@ == StepModel::dispatch(request@, config@, home@, root@),
{
    match request {
        Request::Add { path } => match resolve_path(path.as_str(), Some(home.as_str())) {
            Ok(source) => adding(config, root, source),
            Err(error) => fail(error),
        },
        Request::Link { force } => linking(config, root, force),
        Request::Unlink => unlinking(config),
        Request::List => listing(config),
    }
}

fn init_save(target: String) -> (step: Step)
    ensures
        step@ == (MachineModel::InitCreate { target: target@ }).resume(ReplyModel::Done),
{
    let config = Config::new(target.clone());
    match config.save() {
        Ok(content) => Step {
            machine: Machine { state: State::InitSave { target } },
            notices: no_notices(),
            action: Action::WriteFile { path: config.path(), content },
        },
        Err(error) => fail(error),
    }
}

fn add_move(config: Config, root: String, source: String) -> (step: Step)
    ensures
        step@ == (MachineModel::AddProbe { manifest: config@, root: root@, source: source@ }).resume(
            ReplyModel::Flag(true),
        ),
{
    match file_name(source.as_str()) {
        Some(name) => {
            let copy = join(root.as_str(), name.as_str());
            let notices = one_notice(Notice::Moving { from: source.clone(), to: copy.clone() });
            let action = Action::Rename { from: source.clone(), to: copy.clone() };
            Step {
                machine: Machine { state: State::AddMove { config, source, name, copy } },
                notices,
                action,
            }
        },
        None => fail(DotmanError::InvalidFileName),
    }
}

fn add_save(config: Config, source: String, name: String, notices: Vec<Notice>) -> (step: Step)
    ensures
        step@ == ({
            let manifest = config@.with(name@, source@);
            match saved_manifest(manifest) {
                Ok(content) => StepModel {
                    machine: MachineModel::AddSave { name: name@ },
                    notices: notice_models(notices@),
                    action: ActionModel::WriteFile { path: manifest.path(), content },
                },
                Err(error) => StepModel::finish(Err(error), Seq::empty(), notice_models(notices@)),
            }
        }),
{
    let mut config = config;
    config.insert(name.clone(), source);
    match config.save() {
        Ok(content) => Step {
            machine: Machine { state: State::AddSave { name } },
            notices,
            action: Action::WriteFile { path: config.path(), content },
        },
        Err(error) => finish(Err(error), Vec::new(), notices),
    }
}

impl Machine {
    /// What became of each entry of a batch, in the manifest's order, once the
    /// command has ended; a command that is no batch leaves an empty list.
    /// While the command runs there is none.
    pub fn outcomes(&self) -> (outcomes: Option<&Vec<Settled>>)
        ensures
            match outcomes {
                Some(list) => self@ matches MachineModel::Finished { outcomes, .. } && list@ == outcomes,
                None => !(self@ is Finished),
            },
    {
        match &self.state {
            State::Finished { outcomes, .. } => Some(outcomes),
            _ => None,
        }
    }

    /// Takes the reply to the last action and says what follows.
    pub fn resume(self, reply: Reply) -> (step: Step)
        ensures
            step@ == self@.resume(reply@),
    {
        match self.state {
            State::InitProbe { target } => {
                if reply.affirms() {
                    done(Notice::RepositoryAlreadyExists { dir: target })
                } else {
                    let action = Action::CreateDirAll { path: target.clone() };
                    Step {
                        machine: Machine { state: State::InitCreate { target } },
                        notices: no_notices(),
                        action,
                    }
                }
            },
            State::InitCreate { target } => {
                if reply.succeeded() {
                    init_save(target)
                } else {
                    fail(DotmanError::RepositoryCreationError)
                }
            },
            State::InitSave { target } => {
                if reply.succeeded() {
                    done(Notice::Initialized { dir: target })
                } else {
                    fail(DotmanError::ManifestWriteError)
                }
            },
            State::Locate { request, home, root } => {
                if reply.affirms() {
                    let action = Action::ReadFile { path: join(root.as_str(), CONFIG_FILE_NAME) };
                    Step {
                        machine: Machine { state: State::Load { request, home, root } },
                        notices: no_notices(),
                        action,
                    }
                } else {
                    fail(DotmanError::RepositoryNotInitialized)
                }
            },
            State::Load { request, home, root } => {
                match reply {
                    Reply::Text(content) => match Config::load(content.as_str()) {
                        Ok(config) => dispatch(request, config, home, root),
                        Err(error) => fail(error),
                    },
                    _ => fail(DotmanError::ManifestReadError),
                }
            },
            State::AddProbe { config, root, source } => {
                if reply.affirms() {
                    add_move(config, root, source)
                } else {
                    fail(DotmanError::SourceNotFound)
                }
            },
            State::AddMove { config, source, name, copy } => {
                if reply.succeeded() {
                    let (task, action) = link_one(copy, source.clone(), true);
                    Step {
                        machine: Machine { state: State::AddLink { config, source, name, task } },
                        notices: no_notices(),
                        action,
                    }
                } else {
                    fail(DotmanError::FileMoveError)
                }
            },
            State::AddLink { config, source, name, task } => {
                match task.resume(&reply) {
                    TaskStep::Continue { task, notices, action } => Step {
                        machine: Machine { state: State::AddLink { config, source, name, task } },
                        notices,
                        action,
                    },
                    TaskStep::Finished { notices, result } => match result {
                        Err(error) => finish(Err(error), Vec::new(), notices),
                        Ok(_) => add_save(config, source, name, notices),
                    },
                }
            },
            State::AddSave { name } => {
                if reply.succeeded() {
                    done(Notice::Added { name })
                } else {
                    fail(DotmanError::ManifestWriteError)
                }
            },
            State::Linking { config, root, force, index, outcomes, failure, task } => {
                let dest = task.dest().to_owned();
                match task.resume(&reply) {
                    TaskStep::Continue { task, notices, action } => Step {
                        machine: Machine {
                            state: State::Linking { config, root, force, index, outcomes, failure, task },
                        },
                        notices,
                        action,
                    },
                    TaskStep::Finished { notices, result } => {
                        let mut outcomes = outcomes;
                        outcomes.push(result);
                        let failure = note_failure(failure, result);
                        let notices = with_failure_notice(notices, dest, result);
                        if index < config.len() {
                            link_entry(config, root, force, index + 1, outcomes, failure, notices)
                        } else {
                            batch_end(outcomes, failure, notices, Notice::AllLinked)
                        }
                    },
                }
            },
            State::Unlinking { config, index, outcomes, failure, task } => {
                let target = task.target().to_owned();
                match task.resume(&reply) {
                    TaskStep::Continue { task, notices, action } => Step {
                        machine: Machine {
                            state: State::Unlinking { config, index, outcomes, failure, task },
                        },
                        notices,
                        action,
                    },
                    TaskStep::Finished { notices, result } => {
                        let mut outcomes = outcomes;
                        outcomes.push(result);
                        let failure = note_failure(failure, result);
                        let notices = with_failure_notice(notices, target, result);
                        if index < config.len() {
                            unlink_entry(config, index + 1, outcomes, failure, notices)
                        } else {
                            batch_end(outcomes, failure, notices, Notice::AllUnlinked)
                        }
                    },
                }
            },
            State::Finished { result, outcomes } => finish(result, outcomes, no_notices()),
        }
    }
}

} // verus!
