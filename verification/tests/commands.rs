use dotman::actions::{init_in, open, Request, Step};
use dotman::effect::{Action, Notice, Reply};
use dotman::error::DotmanError;
use dotman::reconcile::LinkOutcome;

const MANIFEST: &str = "dotfiles_dir = \"/home/u/dotfiles\"\n\n[files]\n\".bashrc\" = \"/home/u/.bashrc\"\nvimrc = \"/home/u/.vimrc\"\n";

const EMPTY_MANIFEST: &str = "dotfiles_dir = \"/home/u/dotfiles\"\n\n[files]\n";

fn asks(step: Step, notices: Vec<Notice>, action: Action, reply: Reply) -> Step {
    assert_eq!(step.notices, notices);
    assert_eq!(step.action, action);
    assert_eq!(step.machine.outcomes(), None);
    step.machine.resume(reply)
}

fn ends(step: Step, notices: Vec<Notice>, result: Result<(), DotmanError>) -> Step {
    assert_eq!(step.notices, notices);
    assert_eq!(step.action, Action::Finish { result });
    step
}

fn asks_whether_exists(path: &str) -> Action {
    Action::Exists { path: path.to_string() }
}

fn asks_whether_symlink(path: &str) -> Action {
    Action::IsSymlink { path: path.to_string() }
}

fn reads(path: &str) -> Action {
    Action::ReadFile { path: path.to_string() }
}

fn asks_whether_directory(path: &str) -> Action {
    Action::IsDirectory { path: path.to_string() }
}

fn removes_directory(path: &str) -> Action {
    Action::RemoveDir { path: path.to_string() }
}

fn overwriting(dest: &str) -> Vec<Notice> {
    vec![Notice::Overwriting { dest: dest.to_string() }]
}

fn failed(path: &str, error: DotmanError) -> Notice {
    Notice::Failed { path: path.to_string(), error }
}

fn removes(path: &str) -> Action {
    Action::RemoveFile { path: path.to_string() }
}

fn links(source: &str, dest: &str) -> Action {
    Action::Symlink { source: source.to_string(), dest: dest.to_string() }
}

fn linked(dest: &str, source: &str) -> Notice {
    Notice::Linked { dest: dest.to_string(), source: source.to_string() }
}

fn loaded(request: Request, manifest: &str) -> Step {
    let step = open(request, "/home/u");
    let step = asks(step, vec![], asks_whether_exists("/home/u/dotfiles"), Reply::Flag(true));
    asks(step, vec![], reads("/home/u/dotfiles/dotfiles.toml"), Reply::Text(manifest.to_string()))
}

#[test]
fn init_creates_the_default_repository() {
    let step = init_in("/home/u", None);
    let step = asks(step, vec![], asks_whether_exists("/home/u/dotfiles"), Reply::Flag(false));
    let step = asks(
        step,
        vec![],
        Action::CreateDirAll { path: "/home/u/dotfiles".to_string() },
        Reply::Done,
    );
    let step = asks(
        step,
        vec![],
        Action::WriteFile {
            path: "/home/u/dotfiles/dotfiles.toml".to_string(),
            content: "dotfiles_dir = \"/home/u/dotfiles\"\n\n[files]\n".to_string(),
        },
        Reply::Done,
    );
    let step = ends(step, vec![Notice::Initialized { dir: "/home/u/dotfiles".to_string() }], Ok(()));
    assert_eq!(step.machine.outcomes(), Some(&vec![]));
}

#[test]
fn init_creates_the_repository_in_the_given_directory() {
    let step = init_in("/home/u", Some("/srv/dots".to_string()));
    let step = asks(step, vec![], asks_whether_exists("/srv/dots"), Reply::Flag(false));
    let step = asks(step, vec![], Action::CreateDirAll { path: "/srv/dots".to_string() }, Reply::Done);
    let step = asks(
        step,
        vec![],
        Action::WriteFile {
            path: "/srv/dots/dotfiles.toml".to_string(),
            content: "dotfiles_dir = \"/srv/dots\"\n\n[files]\n".to_string(),
        },
        Reply::Done,
    );
    ends(step, vec![Notice::Initialized { dir: "/srv/dots".to_string() }], Ok(()));
}

#[test]
fn init_does_not_expand_the_shorthand_in_the_given_directory() {
    let step = init_in("/home/u", Some("~/dots".to_string()));
    assert_eq!(step.action, asks_whether_exists("~/dots"));
}

#[test]
fn init_leaves_an_existing_directory_alone() {
    let step = init_in("/home/u", None);
    let step = asks(step, vec![], asks_whether_exists("/home/u/dotfiles"), Reply::Flag(true));
    ends(
        step,
        vec![Notice::RepositoryAlreadyExists { dir: "/home/u/dotfiles".to_string() }],
        Ok(()),
    );
}

#[test]
fn init_fails_where_the_directory_cannot_be_created() {
    let step = init_in("/home/u", None);
    let step = asks(step, vec![], asks_whether_exists("/home/u/dotfiles"), Reply::Flag(false));
    let step = asks(
        step,
        vec![],
        Action::CreateDirAll { path: "/home/u/dotfiles".to_string() },
        Reply::Failed,
    );
    ends(step, vec![], Err(DotmanError::RepositoryCreationError));
}

#[test]
fn init_fails_where_the_manifest_cannot_be_written() {
    let step = init_in("/home/u", None);
    let step = step.machine.resume(Reply::Flag(false));
    let step = step.machine.resume(Reply::Done);
    let step = step.machine.resume(Reply::Failed);
    ends(step, vec![], Err(DotmanError::ManifestWriteError));
}

#[test]
fn a_command_needs_the_repository() {
    let step = open(Request::List, "/home/u");
    let step = asks(step, vec![], asks_whether_exists("/home/u/dotfiles"), Reply::Flag(false));
    ends(step, vec![], Err(DotmanError::RepositoryNotInitialized));
    let step = open(Request::Add { path: "~/.bashrc".to_string() }, "/home/u");
    ends(step.machine.resume(Reply::Flag(false)), vec![], Err(DotmanError::RepositoryNotInitialized));
    let step = open(Request::Link { force: true }, "/home/u");
    ends(step.machine.resume(Reply::Flag(false)), vec![], Err(DotmanError::RepositoryNotInitialized));
    let step = open(Request::Unlink, "/home/u");
    ends(step.machine.resume(Reply::Flag(false)), vec![], Err(DotmanError::RepositoryNotInitialized));
}

#[test]
fn a_command_fails_where_the_manifest_cannot_be_read() {
    let step = open(Request::List, "/home/u");
    let step = asks(step, vec![], asks_whether_exists("/home/u/dotfiles"), Reply::Flag(true));
    let step = asks(step, vec![], reads("/home/u/dotfiles/dotfiles.toml"), Reply::Failed);
    ends(step, vec![], Err(DotmanError::ManifestReadError));
}

#[test]
fn a_command_fails_where_the_manifest_is_malformed() {
    ends(loaded(Request::List, "dotfiles_dir = [\n"), vec![], Err(DotmanError::ManifestParseError));
    ends(loaded(Request::Unlink, "dotfiles_dir = \"/r\"\n"), vec![], Err(DotmanError::ManifestParseError));
    ends(
        loaded(Request::Link { force: false }, "dotfiles_dir = \"/r\"\n[files]\na = 1\n"),
        vec![],
        Err(DotmanError::ManifestParseError),
    );
}

#[test]
fn add_moves_links_and_records() {
    let step = loaded(Request::Add { path: "~/.zshrc".to_string() }, MANIFEST);
    let step = asks(step, vec![], asks_whether_exists("/home/u/.zshrc"), Reply::Flag(true));
    let step = asks(
        step,
        vec![Notice::Moving {
            from: "/home/u/.zshrc".to_string(),
            to: "/home/u/dotfiles/.zshrc".to_string(),
        }],
        Action::Rename { from: "/home/u/.zshrc".to_string(), to: "/home/u/dotfiles/.zshrc".to_string() },
        Reply::Done,
    );
    let step = asks(step, vec![], asks_whether_exists("/home/u/.zshrc"), Reply::Flag(false));
    let step = asks(step, vec![], asks_whether_symlink("/home/u/.zshrc"), Reply::Flag(false));
    let step = asks(step, vec![], asks_whether_exists("/home/u/dotfiles/.zshrc"), Reply::Flag(true));
    let step = asks(step, vec![], links("/home/u/dotfiles/.zshrc", "/home/u/.zshrc"), Reply::Done);
    let step = asks(
        step,
        vec![linked("/home/u/.zshrc", "/home/u/dotfiles/.zshrc")],
        Action::WriteFile {
            path: "/home/u/dotfiles/dotfiles.toml".to_string(),
            content: "dotfiles_dir = \"/home/u/dotfiles\"\n\n[files]\n\".bashrc\" = \"/home/u/.bashrc\"\n\".zshrc\" = \"/home/u/.zshrc\"\nvimrc = \"/home/u/.vimrc\"\n".to_string(),
        },
        Reply::Done,
    );
    ends(step, vec![Notice::Added { name: ".zshrc".to_string() }], Ok(()));
}

#[test]
fn add_takes_a_path_without_shorthand_as_it_is() {
    let step = loaded(Request::Add { path: "notes/todo.txt".to_string() }, EMPTY_MANIFEST);
    let step = asks(step, vec![], asks_whether_exists("notes/todo.txt"), Reply::Flag(true));
    let step = asks(
        step,
        vec![Notice::Moving { from: "notes/todo.txt".to_string(), to: "/home/u/dotfiles/todo.txt".to_string() }],
        Action::Rename { from: "notes/todo.txt".to_string(), to: "/home/u/dotfiles/todo.txt".to_string() },
        Reply::Done,
    );
    assert_eq!(step.action, asks_whether_exists("notes/todo.txt"));
}

#[test]
fn add_overwrites_what_has_taken_the_old_place() {
    let step = loaded(Request::Add { path: "/home/u/.zshrc".to_string() }, EMPTY_MANIFEST);
    let step = step.machine.resume(Reply::Flag(true));
    let step = step.machine.resume(Reply::Done);
    let step = asks(step, vec![], asks_whether_exists("/home/u/.zshrc"), Reply::Flag(true));
    let step = asks(step, vec![], asks_whether_exists("/home/u/dotfiles/.zshrc"), Reply::Flag(true));
    let step = asks(step, vec![], asks_whether_symlink("/home/u/.zshrc"), Reply::Flag(false));
    let step = asks(step, vec![], asks_whether_directory("/home/u/.zshrc"), Reply::Flag(false));
    let step = asks(step, overwriting("/home/u/.zshrc"), removes("/home/u/.zshrc"), Reply::Done);
    let step = asks(step, vec![], links("/home/u/dotfiles/.zshrc", "/home/u/.zshrc"), Reply::Done);
    assert_eq!(step.notices, vec![linked("/home/u/.zshrc", "/home/u/dotfiles/.zshrc")]);
    assert_eq!(
        step.action,
        Action::WriteFile {
            path: "/home/u/dotfiles/dotfiles.toml".to_string(),
            content: "dotfiles_dir = \"/home/u/dotfiles\"\n\n[files]\n\".zshrc\" = \"/home/u/.zshrc\"\n".to_string(),
        }
    );
}

#[test]
fn add_fails_where_the_file_is_missing() {
    let step = loaded(Request::Add { path: "~/.zshrc".to_string() }, MANIFEST);
    let step = asks(step, vec![], asks_whether_exists("/home/u/.zshrc"), Reply::Flag(false));
    ends(step, vec![], Err(DotmanError::SourceNotFound));
}

#[test]
fn add_fails_where_the_path_names_no_file() {
    let step = loaded(Request::Add { path: "/".to_string() }, MANIFEST);
    let step = asks(step, vec![], asks_whether_exists("/"), Reply::Flag(true));
    ends(step, vec![], Err(DotmanError::InvalidFileName));
    let step = loaded(Request::Add { path: "~/..".to_string() }, MANIFEST);
    let step = asks(step, vec![], asks_whether_exists("/home/u/.."), Reply::Flag(true));
    ends(step, vec![], Err(DotmanError::InvalidFileName));
}

#[test]
fn add_fails_where_the_file_cannot_be_moved() {
    let step = loaded(Request::Add { path: "~/.zshrc".to_string() }, MANIFEST);
    let step = step.machine.resume(Reply::Flag(true));
    let step = step.machine.resume(Reply::Failed);
    ends(step, vec![], Err(DotmanError::FileMoveError));
}

#[test]
fn add_fails_where_the_link_cannot_be_created() {
    let step = loaded(Request::Add { path: "~/.zshrc".to_string() }, MANIFEST);
    let step = step.machine.resume(Reply::Flag(true));
    let step = step.machine.resume(Reply::Done);
    let step = step.machine.resume(Reply::Flag(false));
    let step = step.machine.resume(Reply::Flag(false));
    let step = step.machine.resume(Reply::Flag(true));
    let step = asks(step, vec![], links("/home/u/dotfiles/.zshrc", "/home/u/.zshrc"), Reply::Failed);
    ends(step, vec![], Err(DotmanError::SymlinkCreationError));
}

#[test]
fn add_fails_where_the_old_place_cannot_be_cleared() {
    let step = loaded(Request::Add { path: "~/.zshrc".to_string() }, MANIFEST);
    let step = step.machine.resume(Reply::Flag(true));
    let step = step.machine.resume(Reply::Done);
    let step = step.machine.resume(Reply::Flag(true));
    let step = step.machine.resume(Reply::Flag(true));
    let step = step.machine.resume(Reply::Flag(true));
    let step = asks(step, overwriting("/home/u/.zshrc"), removes("/home/u/.zshrc"), Reply::Failed);
    ends(step, vec![], Err(DotmanError::LinkRemovalError));
}

#[test]
fn add_fails_where_the_manifest_cannot_be_written() {
    let step = loaded(Request::Add { path: "~/.zshrc".to_string() }, MANIFEST);
    let step = step.machine.resume(Reply::Flag(true));
    let step = step.machine.resume(Reply::Done);
    let step = step.machine.resume(Reply::Flag(false));
    let step = step.machine.resume(Reply::Flag(false));
    let step = step.machine.resume(Reply::Flag(true));
    let step = step.machine.resume(Reply::Done);
    let step = step.machine.resume(Reply::Failed);
    ends(step, vec![], Err(DotmanError::ManifestWriteError));
}

#[test]
fn link_has_nothing_to_do_for_an_empty_manifest() {
    let step = loaded(Request::Link { force: false }, EMPTY_MANIFEST);
    let step = ends(step, vec![Notice::NothingToLink], Ok(()));
    assert_eq!(step.machine.outcomes(), Some(&vec![]));
}

#[test]
fn link_links_every_entry_in_turn() {
    let step = loaded(Request::Link { force: false }, MANIFEST);
    let step = asks(step, vec![Notice::LinkingAll], asks_whether_exists("/home/u/.bashrc"), Reply::Flag(false));
    let step = asks(step, vec![], asks_whether_symlink("/home/u/.bashrc"), Reply::Flag(false));
    let step = asks(step, vec![], asks_whether_exists("/home/u/dotfiles/.bashrc"), Reply::Flag(true));
    let step = asks(step, vec![], links("/home/u/dotfiles/.bashrc", "/home/u/.bashrc"), Reply::Done);
    let step = asks(
        step,
        vec![linked("/home/u/.bashrc", "/home/u/dotfiles/.bashrc")],
        asks_whether_exists("/home/u/.vimrc"),
        Reply::Flag(true),
    );
    let step = ends(
        step,
        vec![Notice::SkippedExisting { dest: "/home/u/.vimrc".to_string() }, Notice::AllLinked],
        Ok(()),
    );
    assert_eq!(
        step.machine.outcomes(),
        Some(&vec![Ok(LinkOutcome::Created), Ok(LinkOutcome::SkippedExists)])
    );
}

#[test]
fn link_with_force_clears_the_places() {
    let step = loaded(Request::Link { force: true }, MANIFEST);
    let step = asks(step, vec![Notice::LinkingAll], asks_whether_exists("/home/u/.bashrc"), Reply::Flag(true));
    let step = asks(step, vec![], asks_whether_exists("/home/u/dotfiles/.bashrc"), Reply::Flag(true));
    let step = asks(step, vec![], asks_whether_symlink("/home/u/.bashrc"), Reply::Flag(false));
    let step = asks(step, vec![], asks_whether_directory("/home/u/.bashrc"), Reply::Flag(true));
    let step = asks(step, overwriting("/home/u/.bashrc"), removes_directory("/home/u/.bashrc"), Reply::Done);
    let step = asks(step, vec![], links("/home/u/dotfiles/.bashrc", "/home/u/.bashrc"), Reply::Done);
    let step = asks(
        step,
        vec![linked("/home/u/.bashrc", "/home/u/dotfiles/.bashrc")],
        asks_whether_exists("/home/u/.vimrc"),
        Reply::Flag(false),
    );
    let step = asks(step, vec![], asks_whether_symlink("/home/u/.vimrc"), Reply::Flag(false));
    let step = asks(step, vec![], asks_whether_exists("/home/u/dotfiles/vimrc"), Reply::Flag(true));
    let step = asks(step, vec![], links("/home/u/dotfiles/vimrc", "/home/u/.vimrc"), Reply::Done);
    let step = ends(
        step,
        vec![linked("/home/u/.vimrc", "/home/u/dotfiles/vimrc"), Notice::AllLinked],
        Ok(()),
    );
    assert_eq!(
        step.machine.outcomes(),
        Some(&vec![Ok(LinkOutcome::Overwritten), Ok(LinkOutcome::Created)])
    );
}

#[test]
fn link_goes_on_after_a_failure_and_fails_in_the_end() {
    let step = loaded(Request::Link { force: false }, MANIFEST);
    let step = step.machine.resume(Reply::Flag(false));
    let step = step.machine.resume(Reply::Flag(false));
    let step = step.machine.resume(Reply::Flag(true));
    let step = asks(step, vec![], links("/home/u/dotfiles/.bashrc", "/home/u/.bashrc"), Reply::Failed);
    let step = asks(
        step,
        vec![failed("/home/u/.bashrc", DotmanError::SymlinkCreationError)],
        asks_whether_exists("/home/u/.vimrc"),
        Reply::Flag(false),
    );
    let step = step.machine.resume(Reply::Flag(false));
    let step = step.machine.resume(Reply::Flag(true));
    let step = asks(step, vec![], links("/home/u/dotfiles/vimrc", "/home/u/.vimrc"), Reply::Done);
    let step = ends(
        step,
        vec![linked("/home/u/.vimrc", "/home/u/dotfiles/vimrc")],
        Err(DotmanError::SymlinkCreationError),
    );
    assert_eq!(
        step.machine.outcomes(),
        Some(&vec![Err(DotmanError::SymlinkCreationError), Ok(LinkOutcome::Created)])
    );
}

#[test]
fn link_fails_with_its_first_failure() {
    let step = loaded(Request::Link { force: true }, MANIFEST);
    let step = step.machine.resume(Reply::Flag(true));
    let step = step.machine.resume(Reply::Flag(true));
    let step = step.machine.resume(Reply::Flag(true));
    let step = asks(step, overwriting("/home/u/.bashrc"), removes("/home/u/.bashrc"), Reply::Failed);
    let step = asks(
        step,
        vec![failed("/home/u/.bashrc", DotmanError::LinkRemovalError)],
        asks_whether_exists("/home/u/.vimrc"),
        Reply::Flag(false),
    );
    let step = step.machine.resume(Reply::Flag(false));
    let step = asks(step, vec![], asks_whether_exists("/home/u/dotfiles/vimrc"), Reply::Flag(false));
    let step = ends(
        step,
        vec![failed("/home/u/.vimrc", DotmanError::SymlinkCreationError)],
        Err(DotmanError::LinkRemovalError),
    );
    assert_eq!(
        step.machine.outcomes(),
        Some(&vec![Err(DotmanError::LinkRemovalError), Err(DotmanError::SymlinkCreationError)])
    );
}

#[test]
fn link_does_not_link_to_a_repository_copy_that_is_missing() {
    let step = loaded(Request::Link { force: true }, MANIFEST);
    let step = asks(step, vec![Notice::LinkingAll], asks_whether_exists("/home/u/.bashrc"), Reply::Flag(true));
    let step = asks(step, vec![], asks_whether_exists("/home/u/dotfiles/.bashrc"), Reply::Flag(false));
    let step = asks(
        step,
        vec![failed("/home/u/.bashrc", DotmanError::SymlinkCreationError)],
        asks_whether_exists("/home/u/.vimrc"),
        Reply::Flag(false),
    );
    let step = asks(step, vec![], asks_whether_symlink("/home/u/.vimrc"), Reply::Flag(false));
    let step = asks(step, vec![], asks_whether_exists("/home/u/dotfiles/vimrc"), Reply::Flag(true));
    let step = asks(step, vec![], links("/home/u/dotfiles/vimrc", "/home/u/.vimrc"), Reply::Done);
    let step = ends(
        step,
        vec![linked("/home/u/.vimrc", "/home/u/dotfiles/vimrc")],
        Err(DotmanError::SymlinkCreationError),
    );
    assert_eq!(
        step.machine.outcomes(),
        Some(&vec![Err(DotmanError::SymlinkCreationError), Ok(LinkOutcome::Created)])
    );
}

#[test]
fn unlink_has_nothing_to_do_for_an_empty_manifest() {
    ends(loaded(Request::Unlink, EMPTY_MANIFEST), vec![Notice::NothingToUnlink], Ok(()));
}

#[test]
fn unlink_removes_links_and_leaves_the_rest() {
    let step = loaded(Request::Unlink, MANIFEST);
    let step = asks(step, vec![Notice::UnlinkingAll], asks_whether_exists("/home/u/.bashrc"), Reply::Flag(true));
    let step = asks(step, vec![], asks_whether_symlink("/home/u/.bashrc"), Reply::Flag(true));
    let step = asks(step, vec![], removes("/home/u/.bashrc"), Reply::Done);
    let step = asks(
        step,
        vec![Notice::Removed { path: "/home/u/.bashrc".to_string() }],
        asks_whether_exists("/home/u/.vimrc"),
        Reply::Flag(true),
    );
    let step = asks(step, vec![], asks_whether_symlink("/home/u/.vimrc"), Reply::Flag(false));
    let step = ends(
        step,
        vec![Notice::SkippedNotSymlink { path: "/home/u/.vimrc".to_string() }, Notice::AllUnlinked],
        Ok(()),
    );
    assert_eq!(
        step.machine.outcomes(),
        Some(&vec![Ok(LinkOutcome::Removed), Ok(LinkOutcome::SkippedNotSymlink)])
    );
}

#[test]
fn unlink_goes_on_after_a_failure_and_fails_in_the_end() {
    let step = loaded(Request::Unlink, MANIFEST);
    let step = step.machine.resume(Reply::Flag(true));
    let step = step.machine.resume(Reply::Flag(true));
    let step = asks(step, vec![], removes("/home/u/.bashrc"), Reply::Failed);
    let step = asks(
        step,
        vec![Notice::Failed { path: "/home/u/.bashrc".to_string(), error: DotmanError::LinkRemovalError }],
        asks_whether_exists("/home/u/.vimrc"),
        Reply::Flag(false),
    );
    let step = ends(
        step,
        vec![Notice::SkippedNotSymlink { path: "/home/u/.vimrc".to_string() }],
        Err(DotmanError::LinkRemovalError),
    );
    assert_eq!(
        step.machine.outcomes(),
        Some(&vec![Err(DotmanError::LinkRemovalError), Ok(LinkOutcome::SkippedNotSymlink)])
    );
}

#[test]
fn list_tells_every_entry() {
    let step = loaded(Request::List, MANIFEST);
    ends(
        step,
        vec![
            Notice::Listing,
            Notice::Managed {
                source: "/home/u/dotfiles/.bashrc".to_string(),
                target: "/home/u/.bashrc".to_string(),
            },
            Notice::Managed {
                source: "/home/u/dotfiles/vimrc".to_string(),
                target: "/home/u/.vimrc".to_string(),
            },
        ],
        Ok(()),
    );
}

#[test]
fn list_goes_by_the_directory_that_the_manifest_names() {
    let step = loaded(Request::List, "dotfiles_dir = \"/srv/dots\"\n[files]\na = \"/etc/a\"\n");
    ends(
        step,
        vec![
            Notice::Listing,
            Notice::Managed { source: "/srv/dots/a".to_string(), target: "/etc/a".to_string() },
        ],
        Ok(()),
    );
}

#[test]
fn list_of_an_empty_manifest() {
    ends(loaded(Request::List, EMPTY_MANIFEST), vec![Notice::NothingManaged], Ok(()));
}

#[test]
fn a_finished_command_stays_finished() {
    let step = loaded(Request::List, EMPTY_MANIFEST);
    let step = step.machine.resume(Reply::Done);
    let step = ends(step, vec![], Ok(()));
    let step = step.machine.resume(Reply::Flag(true));
    ends(step, vec![], Ok(()));
    let step = open(Request::List, "/home/u").machine.resume(Reply::Flag(false));
    let step = step.machine.resume(Reply::Done);
    ends(step, vec![], Err(DotmanError::RepositoryNotInitialized));
}
