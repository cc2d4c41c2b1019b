use dotman::actions::{add, init, link, list, unlink};
use dotman::cli::{Cli, Commands};
use dotman::effect::Action;
use dotman::error::DotmanError;
use dotman::paths::get_home_dir;

fn repository() -> Result<String, DotmanError> {
    get_home_dir().map(|home| {
        if home.is_empty() || home.ends_with('/') {
            format!("{}dotfiles", home)
        } else {
            format!("{}/dotfiles", home)
        }
    })
}

fn begins_at_the_repository(action: Action) {
    match repository() {
        Ok(root) => assert_eq!(action, Action::Exists { path: root }),
        Err(error) => assert_eq!(action, Action::Finish { result: Err(error) }),
    }
}

#[test]
fn every_command_begins_at_the_repository_in_the_home_directory() {
    begins_at_the_repository(init(None).action);
    begins_at_the_repository(add("~/.bashrc".to_string()).action);
    begins_at_the_repository(link(false).action);
    begins_at_the_repository(unlink().action);
    begins_at_the_repository(list().action);
}

#[test]
fn init_with_a_directory_begins_there() {
    match get_home_dir() {
        Ok(_) => assert_eq!(
            init(Some("/srv/dots".to_string())).action,
            Action::Exists { path: "/srv/dots".to_string() }
        ),
        Err(error) => assert_eq!(
            init(Some("/srv/dots".to_string())).action,
            Action::Finish { result: Err(error) }
        ),
    }
}

#[test]
fn cli_starts_the_command() {
    begins_at_the_repository(Cli { command: Commands::Init { dir: None } }.start().action);
    begins_at_the_repository(Cli { command: Commands::Add { path: "/etc/hosts".to_string() } }.start().action);
    begins_at_the_repository(Cli { command: Commands::Link { force: true } }.start().action);
    begins_at_the_repository(Cli { command: Commands::Unlink }.start().action);
    begins_at_the_repository(Cli { command: Commands::List }.start().action);
}
