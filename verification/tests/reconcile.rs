use dotman::effect::{Action, Notice, Reply};
use dotman::error::DotmanError;
use dotman::reconcile::{link_one, unlink_one, LinkOutcome, LinkTask, TaskStep, UnlinkTask};

fn asks_exists(path: &str) -> Action {
    Action::Exists { path: path.to_string() }
}

fn is_symlink(path: &str) -> Action {
    Action::IsSymlink { path: path.to_string() }
}

fn remove(path: &str) -> Action {
    Action::RemoveFile { path: path.to_string() }
}

fn symlink(source: &str, dest: &str) -> Action {
    Action::Symlink { source: source.to_string(), dest: dest.to_string() }
}

fn linked(dest: &str, source: &str) -> Notice {
    Notice::Linked { dest: dest.to_string(), source: source.to_string() }
}

fn go_on(step: TaskStep<LinkTask>, notices: Vec<Notice>, action: Action) -> LinkTask {
    match step {
        TaskStep::Continue { task, notices: told, action: asked } => {
            assert_eq!(told, notices);
            assert_eq!(asked, action);
            task
        }
        TaskStep::Finished { result, .. } => panic!("the task ended with {:?}", result),
    }
}

fn ended(step: TaskStep<LinkTask>, notices: Vec<Notice>, result: Result<LinkOutcome, DotmanError>) {
    match step {
        TaskStep::Finished { notices: told, result: came } => {
            assert_eq!(told, notices);
            assert_eq!(came, result);
        }
        TaskStep::Continue { action, .. } => panic!("the task goes on with {:?}", action),
    }
}

fn unlink_goes_on(step: TaskStep<UnlinkTask>, action: Action) -> UnlinkTask {
    match step {
        TaskStep::Continue { task, notices, action: asked } => {
            assert_eq!(notices, vec![]);
            assert_eq!(asked, action);
            task
        }
        TaskStep::Finished { result, .. } => panic!("the task ended with {:?}", result),
    }
}

fn unlink_ended(step: TaskStep<UnlinkTask>, notices: Vec<Notice>, result: Result<LinkOutcome, DotmanError>) {
    match step {
        TaskStep::Finished { notices: told, result: came } => {
            assert_eq!(told, notices);
            assert_eq!(came, result);
        }
        TaskStep::Continue { action, .. } => panic!("the task goes on with {:?}", action),
    }
}

fn skipped_not_symlink(path: &str) -> Notice {
    Notice::SkippedNotSymlink { path: path.to_string() }
}

fn is_directory(path: &str) -> Action {
    Action::IsDirectory { path: path.to_string() }
}

fn remove_dir(path: &str) -> Action {
    Action::RemoveDir { path: path.to_string() }
}

fn overwriting(dest: &str) -> Vec<Notice> {
    vec![Notice::Overwriting { dest: dest.to_string() }]
}

fn begun(force: bool) -> LinkTask {
    link_one("/repo/a".to_string(), "/home/u/a".to_string(), force).0
}

fn at_a_free_place(force: bool) -> LinkTask {
    let task = go_on(begun(force).resume(&Reply::Flag(false)), vec![], is_symlink("/home/u/a"));
    go_on(task.resume(&Reply::Flag(false)), vec![], asks_exists("/repo/a"))
}

fn at_an_occupied_place() -> LinkTask {
    let task = go_on(begun(true).resume(&Reply::Flag(true)), vec![], asks_exists("/repo/a"));
    go_on(task.resume(&Reply::Flag(true)), vec![], is_symlink("/home/u/a"))
}

#[test]
fn link_one_begins_by_asking_for_the_destination() {
    let (task, action) = link_one("/repo/a".to_string(), "/home/u/a".to_string(), false);
    assert_eq!(action, asks_exists("/home/u/a"));
    assert_eq!(task.dest(), "/home/u/a");
}

#[test]
fn link_one_creates_a_link_at_a_free_place() {
    let task = go_on(at_a_free_place(false).resume(&Reply::Flag(true)), vec![], symlink("/repo/a", "/home/u/a"));
    ended(task.resume(&Reply::Done), vec![linked("/home/u/a", "/repo/a")], Ok(LinkOutcome::Created));
}

#[test]
fn link_one_with_force_creates_a_link_at_a_free_place_too() {
    let task = go_on(at_a_free_place(true).resume(&Reply::Flag(true)), vec![], symlink("/repo/a", "/home/u/a"));
    ended(task.resume(&Reply::Done), vec![linked("/home/u/a", "/repo/a")], Ok(LinkOutcome::Created));
}

#[test]
fn link_one_does_not_link_to_a_source_that_is_missing() {
    ended(at_a_free_place(false).resume(&Reply::Flag(false)), vec![], Err(DotmanError::SymlinkCreationError));
    ended(at_a_free_place(true).resume(&Reply::Flag(false)), vec![], Err(DotmanError::SymlinkCreationError));
}

#[test]
fn link_one_with_force_clears_nothing_for_a_source_that_is_missing() {
    let task = go_on(begun(true).resume(&Reply::Flag(true)), vec![], asks_exists("/repo/a"));
    ended(task.resume(&Reply::Flag(false)), vec![], Err(DotmanError::SymlinkCreationError));
    let task = go_on(begun(true).resume(&Reply::Flag(false)), vec![], is_symlink("/home/u/a"));
    let task = go_on(task.resume(&Reply::Flag(true)), vec![], asks_exists("/repo/a"));
    ended(task.resume(&Reply::Flag(false)), vec![], Err(DotmanError::SymlinkCreationError));
}

#[test]
fn link_one_without_force_skips_what_exists() {
    ended(
        begun(false).resume(&Reply::Flag(true)),
        vec![Notice::SkippedExisting { dest: "/home/u/a".to_string() }],
        Ok(LinkOutcome::SkippedExists),
    );
}

#[test]
fn link_one_without_force_skips_a_link_that_leads_nowhere() {
    let task = go_on(begun(false).resume(&Reply::Flag(false)), vec![], is_symlink("/home/u/a"));
    ended(
        task.resume(&Reply::Flag(true)),
        vec![Notice::SkippedExisting { dest: "/home/u/a".to_string() }],
        Ok(LinkOutcome::SkippedExists),
    );
}

#[test]
fn link_one_with_force_overwrites_a_file() {
    let task = go_on(at_an_occupied_place().resume(&Reply::Flag(false)), vec![], is_directory("/home/u/a"));
    let task = go_on(task.resume(&Reply::Flag(false)), overwriting("/home/u/a"), remove("/home/u/a"));
    let task = go_on(task.resume(&Reply::Done), vec![], symlink("/repo/a", "/home/u/a"));
    ended(task.resume(&Reply::Done), vec![linked("/home/u/a", "/repo/a")], Ok(LinkOutcome::Overwritten));
}

#[test]
fn link_one_with_force_overwrites_a_symbolic_link() {
    let task = go_on(at_an_occupied_place().resume(&Reply::Flag(true)), overwriting("/home/u/a"), remove("/home/u/a"));
    let task = go_on(task.resume(&Reply::Done), vec![], symlink("/repo/a", "/home/u/a"));
    ended(task.resume(&Reply::Done), vec![linked("/home/u/a", "/repo/a")], Ok(LinkOutcome::Overwritten));
}

#[test]
fn link_one_with_force_overwrites_a_directory() {
    let task = go_on(at_an_occupied_place().resume(&Reply::Flag(false)), vec![], is_directory("/home/u/a"));
    let task = go_on(task.resume(&Reply::Flag(true)), overwriting("/home/u/a"), remove_dir("/home/u/a"));
    let task = go_on(task.resume(&Reply::Done), vec![], symlink("/repo/a", "/home/u/a"));
    ended(task.resume(&Reply::Done), vec![linked("/home/u/a", "/repo/a")], Ok(LinkOutcome::Overwritten));
}

#[test]
fn link_one_with_force_fails_at_a_directory_that_does_not_go() {
    let task = go_on(at_an_occupied_place().resume(&Reply::Flag(false)), vec![], is_directory("/home/u/a"));
    let task = go_on(task.resume(&Reply::Flag(true)), overwriting("/home/u/a"), remove_dir("/home/u/a"));
    ended(task.resume(&Reply::Failed), vec![], Err(DotmanError::LinkRemovalError));
}

#[test]
fn link_one_with_force_overwrites_a_link_that_leads_nowhere() {
    let task = go_on(begun(true).resume(&Reply::Flag(false)), vec![], is_symlink("/home/u/a"));
    let task = go_on(task.resume(&Reply::Flag(true)), vec![], asks_exists("/repo/a"));
    let task = go_on(task.resume(&Reply::Flag(true)), overwriting("/home/u/a"), remove("/home/u/a"));
    let task = go_on(task.resume(&Reply::Done), vec![], symlink("/repo/a", "/home/u/a"));
    ended(task.resume(&Reply::Done), vec![linked("/home/u/a", "/repo/a")], Ok(LinkOutcome::Overwritten));
}

#[test]
fn link_one_fails_where_the_place_cannot_be_cleared() {
    let task = go_on(at_an_occupied_place().resume(&Reply::Flag(true)), overwriting("/home/u/a"), remove("/home/u/a"));
    ended(task.resume(&Reply::Failed), vec![], Err(DotmanError::LinkRemovalError));
}

#[test]
fn link_one_fails_where_the_link_cannot_be_created() {
    let task = go_on(at_a_free_place(false).resume(&Reply::Flag(true)), vec![], symlink("/repo/a", "/home/u/a"));
    ended(task.resume(&Reply::Failed), vec![], Err(DotmanError::SymlinkCreationError));
}

#[test]
fn link_one_fails_where_the_link_cannot_be_created_after_clearing() {
    let task = go_on(at_an_occupied_place().resume(&Reply::Flag(true)), overwriting("/home/u/a"), remove("/home/u/a"));
    let task = go_on(task.resume(&Reply::Done), vec![], symlink("/repo/a", "/home/u/a"));
    ended(task.resume(&Reply::Failed), vec![], Err(DotmanError::SymlinkCreationError));
}

#[test]
fn link_one_takes_a_reply_of_the_wrong_kind_as_no_and_as_failure() {
    let task = go_on(begun(true).resume(&Reply::Done), vec![], is_symlink("/home/u/a"));
    let task = go_on(task.resume(&Reply::Text("yes".to_string())), vec![], asks_exists("/repo/a"));
    ended(task.resume(&Reply::Done), vec![], Err(DotmanError::SymlinkCreationError));
    let task = go_on(at_a_free_place(true).resume(&Reply::Flag(true)), vec![], symlink("/repo/a", "/home/u/a"));
    ended(task.resume(&Reply::Flag(true)), vec![], Err(DotmanError::SymlinkCreationError));
}

#[test]
fn unlink_one_begins_by_asking_for_the_place() {
    let (task, action) = unlink_one("/home/u/a".to_string());
    assert_eq!(action, asks_exists("/home/u/a"));
    assert_eq!(task.target(), "/home/u/a");
}

#[test]
fn unlink_one_removes_a_symbolic_link() {
    let (task, _) = unlink_one("/home/u/a".to_string());
    let task = unlink_goes_on(task.resume(&Reply::Flag(true)), is_symlink("/home/u/a"));
    let task = unlink_goes_on(task.resume(&Reply::Flag(true)), remove("/home/u/a"));
    unlink_ended(
        task.resume(&Reply::Done),
        vec![Notice::Removed { path: "/home/u/a".to_string() }],
        Ok(LinkOutcome::Removed),
    );
}

#[test]
fn unlink_one_leaves_a_regular_file_alone() {
    let (task, _) = unlink_one("/home/u/a".to_string());
    let task = unlink_goes_on(task.resume(&Reply::Flag(true)), is_symlink("/home/u/a"));
    unlink_ended(
        task.resume(&Reply::Flag(false)),
        vec![skipped_not_symlink("/home/u/a")],
        Ok(LinkOutcome::SkippedNotSymlink),
    );
}

#[test]
fn unlink_one_leaves_alone_what_does_not_exist() {
    let (task, _) = unlink_one("/home/u/a".to_string());
    unlink_ended(
        task.resume(&Reply::Flag(false)),
        vec![skipped_not_symlink("/home/u/a")],
        Ok(LinkOutcome::SkippedNotSymlink),
    );
}

#[test]
fn unlink_one_fails_where_the_link_cannot_be_removed() {
    let (task, _) = unlink_one("/home/u/a".to_string());
    let task = unlink_goes_on(task.resume(&Reply::Flag(true)), is_symlink("/home/u/a"));
    let task = unlink_goes_on(task.resume(&Reply::Flag(true)), remove("/home/u/a"));
    unlink_ended(task.resume(&Reply::Failed), vec![], Err(DotmanError::LinkRemovalError));
}

#[test]
fn an_action_can_be_copied() {
    let action = symlink("/repo/a", "/home/u/a");
    assert_eq!(action.clone(), action);
    let finish = Action::Finish { result: Err(DotmanError::FileMoveError) };
    assert_eq!(finish.clone(), finish);
}
