//! What holds of the commands on every filesystem and in every run: `init` is
//! idempotent, `add` moves and records, `link` without force removes nothing
//! and with force links every place, whatever stood there, a source that is
//! missing is not linked to, `unlink` removes nothing but links, a batch settles
//! every entry and touches nothing but places, and the manifest file says what
//! the manifest says.

use crate::actions::{first_failure, with_failure, MachineModel, RequestModel, StepModel};
use crate::config::{
    all_text, document_of, file_items, item_texts, parsed_manifest, read_document, saved_manifest, Manifest,
    CONFIG_FILE_NAME, DEFAULT_DOTFILES_DIR, DIRECTORY_KEY, FILES_KEY,
};
use crate::document::{parsed_document, Item};
use crate::effect::{ActionModel, NoticeModel, ReplyModel};
use crate::error::DotmanError;
use crate::paths::{path_file_name, path_joined};
use crate::reconcile::{
    LinkOutcome, LinkPhase, LinkTaskModel, Settled, TaskStepModel, UnlinkTaskModel,
};
use crate::world::{
    exists_at, is_solid_at, is_symlink_at, keeps_all, keeps_solid, leads_somewhere, leads_to_directory,
    lemma_write_lands_on_a_file,
    link_hops, permits, same_but_at, write_lands, Node, Turn, World,
};
use vstd::prelude::*;
use vstd::utf8::encode_utf8;

verus! {

/// Whether `turns` is a whole run of a command that stands at `step` on a
/// filesystem in state `world`: every reply is one that the filesystem permits
/// for the action asked, and the command ends with the last of them.
pub open spec fn runs(step: StepModel, world: World, turns: Seq<Turn>) -> bool
    decreases turns.len(),
{
    if turns.len() == 0 {
        step.action is Finish
    } else {
        permits(world, step.action, turns[0].reply, turns[0].world) && runs(
            step.machine.resume(turns[0].reply),
            turns[0].world,
            turns.drop_first(),
        )
    }
}

/// The step at which a command stands after the replies of `turns`.
pub open spec fn last_step(step: StepModel, turns: Seq<Turn>) -> StepModel
    decreases turns.len(),
{
    if turns.len() == 0 {
        step
    } else {
        last_step(step.machine.resume(turns[0].reply), turns.drop_first())
    }
}

/// The filesystem after the turns.
pub open spec fn last_world(world: World, turns: Seq<Turn>) -> World {
    if turns.len() == 0 {
        world
    } else {
        turns.last().world
    }
}

/// Whether the action of a step is the one that its machine waits for.
spec fn well_posed(step: StepModel) -> bool {
    match step.machine {
        MachineModel::InitProbe { target } => step.action == ActionModel::Exists { path: target },
        MachineModel::InitCreate { target } => step.action == ActionModel::CreateDirAll {
            path: target,
        },
        MachineModel::InitSave { target } => step.action matches ActionModel::WriteFile { path, .. }
            && path == Manifest::empty(target).path(),
        MachineModel::Locate { root, .. } => step.action == ActionModel::Exists { path: root },
        MachineModel::Load { root, .. } => step.action == ActionModel::ReadFile {
            path: path_joined(root, CONFIG_FILE_NAME@),
        },
        MachineModel::AddProbe { source, .. } => step.action == ActionModel::Exists { path: source },
        MachineModel::AddMove { source, copy, .. } => step.action == ActionModel::Rename {
            from: source,
            to: copy,
        },
        MachineModel::AddLink { task, .. } => step.action == task.awaits(),
        MachineModel::AddSave { .. } => step.action is WriteFile,
        MachineModel::Linking { task, .. } => step.action == task.awaits(),
        MachineModel::Unlinking { task, .. } => step.action == task.awaits(),
        MachineModel::Finished { result, .. } => step.action == ActionModel::Finish { result },
    }
}

/// A link task that goes on asks for the action that its next phase waits for.
proof fn lemma_link_task_awaits(task: LinkTaskModel, reply: ReplyModel)
    ensures
        task.resume(reply) matches TaskStepModel::Continue { task: next, action, .. }
            ==> action == next.awaits() && next.source == task.source && next.dest == task.dest
            && next.force == task.force,
{
}

/// An unlink task that goes on asks for the action that its next phase waits for.
proof fn lemma_unlink_task_awaits(task: UnlinkTaskModel, reply: ReplyModel)
    ensures
        task.resume(reply) matches TaskStepModel::Continue { task: next, action, .. }
            ==> action == next.awaits() && next.target == task.target,
{
}

/// A batch asks for the action that its next entry waits for.
proof fn lemma_batch_is_well_posed(
    manifest: Manifest,
    root: Seq<char>,
    force: bool,
    index: nat,
    outcomes: Seq<Settled>,
    failure: Option<DotmanError>,
    notices: Seq<NoticeModel>,
)
    ensures
        well_posed(StepModel::link_entry(manifest, root, force, index, outcomes, failure, notices)),
        well_posed(StepModel::unlink_entry(manifest, index, outcomes, failure, notices)),
{
}

/// A command begins with the action that its first state waits for.
proof fn lemma_start_is_well_posed(
    request: RequestModel,
    manifest: Manifest,
    home: Seq<char>,
    root: Seq<char>,
    dir: Option<Seq<char>>,
)
    ensures
        well_posed(StepModel::init(home, dir)),
        well_posed(StepModel::open(request, home)),
        well_posed(StepModel::dispatch(request, manifest, home, root)),
{
    match request {
        RequestModel::Add { path } => {},
        RequestModel::Link { force } => {
            lemma_batch_is_well_posed(
                manifest,
                root,
                force,
                0,
                Seq::empty(),
                None,
                seq![NoticeModel::LinkingAll],
            );
        },
        RequestModel::Unlink => {
            lemma_batch_is_well_posed(
                manifest,
                root,
                false,
                0,
                Seq::empty(),
                None,
                seq![NoticeModel::UnlinkingAll],
            );
        },
        RequestModel::List => {},
    }
}

/// A machine always asks for the action that its next state waits for.
proof fn lemma_resume_is_well_posed(machine: MachineModel, reply: ReplyModel)
    ensures
        well_posed(machine.resume(reply)),
{
    match machine {
        MachineModel::Load { request, home, root } => {
            if let ReplyModel::Text(content) = reply {
                if let Ok(manifest) = parsed_manifest(content) {
                    lemma_start_is_well_posed(request, manifest, home, root, None);
                }
            }
        },
        MachineModel::AddLink { manifest, source, name, task } => {
            lemma_link_task_awaits(task, reply);
        },
        MachineModel::Linking { manifest, root, force, index, outcomes, failure, task } => {
            lemma_link_task_awaits(task, reply);
            if let TaskStepModel::Finished { notices, result } = task.resume(reply) {
                lemma_batch_is_well_posed(
                    manifest,
                    root,
                    force,
                    index + 1,
                    outcomes.push(result),
                    first_failure(failure, result),
                    with_failure(notices, task.dest, result),
                );
            }
        },
        MachineModel::Unlinking { manifest, index, outcomes, failure, task } => {
            lemma_unlink_task_awaits(task, reply);
            if let TaskStepModel::Finished { notices, result } = task.resume(reply) {
                lemma_batch_is_well_posed(
                    manifest,
                    Seq::empty(),
                    false,
                    index + 1,
                    outcomes.push(result),
                    first_failure(failure, result),
                    with_failure(notices, task.target, result),
                );
            }
        },
        _ => {},
    }
}

/// What holds of a step and a filesystem at the start of a run, and is kept by
/// every turn that the filesystem permits, holds at the end of the run.
proof fn lemma_kept_to_the_end(
    kept: spec_fn(StepModel, World) -> bool,
    step: StepModel,
    world: World,
    turns: Seq<Turn>,
)
    requires
        kept(step, world),
        runs(step, world, turns),
        forall|s: StepModel, w: World, r: ReplyModel, after: World| #[trigger]
            permits(w, s.action, r, after) && kept(s, w) ==> kept(s.machine.resume(r), after),
    ensures
        kept(last_step(step, turns), last_world(world, turns)),
        last_step(step, turns).action is Finish,
    decreases turns.len(),
{
    if turns.len() > 0 {
        let rest = turns.drop_first();
        lemma_kept_to_the_end(kept, step.machine.resume(turns[0].reply), turns[0].world, rest);
        if rest.len() > 0 {
            assert(rest.last() == turns.last());
        }
    }
}

/// Whether a command failed at its opening: the repository is missing, or its
/// manifest cannot be read or is malformed.
pub open spec fn failed_to_open(step: StepModel) -> bool {
    step.action matches ActionModel::Finish { result: Err(error) } && (error
        is RepositoryNotInitialized || error is ManifestReadError || error is ManifestParseError)
}

/// Whether the first two turns of a run find the repository and read a
/// manifest, and the turns after them are a run, on the same filesystem, of what
/// the command does with that manifest, and end where the whole run ends.
pub open spec fn goes_on_loaded(
    request: RequestModel,
    home: Seq<char>,
    world: World,
    turns: Seq<Turn>,
) -> bool {
    turns.len() >= 2 && match turns[1].reply {
        ReplyModel::Text(content) => match parsed_manifest(content) {
            Ok(manifest) => {
                let start = StepModel::dispatch(
                    request,
                    manifest,
                    home,
                    path_joined(home, DEFAULT_DOTFILES_DIR@),
                );
                &&& runs(start, world, turns.skip(2))
                &&& last_step(StepModel::open(request, home), turns) == last_step(start, turns.skip(2))
                &&& last_world(world, turns) == last_world(world, turns.skip(2))
            },
            Err(_) => false,
        },
        _ => false,
    }
}

/// Every command but `init` opens the repository before anything else, and
/// changes nothing while it does: a run of such a command either fails at the
/// opening and leaves the filesystem as it was, or it goes on with the manifest
/// that it has read, on the filesystem as it was.
pub proof fn opening_changes_nothing(
    request: RequestModel,
    home: Seq<char>,
    world: World,
    turns: Seq<Turn>,
)
    requires
        runs(StepModel::open(request, home), world, turns),
    ensures
        (failed_to_open(last_step(StepModel::open(request, home), turns)) && last_world(world, turns)
            == world) || goes_on_loaded(request, home, world, turns),
{
    let opening = StepModel::open(request, home);
    assert(turns.len() > 0);
    let located = opening.machine.resume(turns[0].reply);
    let rest = turns.drop_first();
    assert(runs(located, world, rest));
    assert(last_step(opening, turns) == last_step(located, rest));
    if located.action is Finish {
        assert(rest.len() == 0);
        assert(turns.last() == turns[0]);
    } else {
        assert(rest.len() > 0);
        let loaded = located.machine.resume(rest[0].reply);
        let after = rest.drop_first();
        assert(rest[0] == turns[1]);
        assert(after =~= turns.skip(2));
        assert(runs(loaded, world, after));
        assert(last_step(located, rest) == last_step(loaded, after));
        if after.len() > 0 {
            assert(after.last() == turns.last());
        } else {
            assert(turns.last() == turns[1]);
        }
    }
}

/// What `unlink` keeps from turn to turn: every file and directory that was
/// there at the start is still there, and a removal is only ever asked for a
/// place that holds a symbolic link.
spec fn unlink_kept(start: World, step: StepModel, world: World) -> bool {
    &&& well_posed(step)
    &&& keeps_solid(start, world)
    &&& match step.machine {
        MachineModel::Locate { request, .. } => request is Unlink,
        MachineModel::Load { request, .. } => request is Unlink,
        MachineModel::Unlinking { task, .. } => task.phase is Remove ==> is_symlink_at(
            world,
            task.target,
        ),
        MachineModel::Finished { .. } => true,
        _ => false,
    }
}

proof fn lemma_unlink_turn(start: World, s: StepModel, w: World, r: ReplyModel, after: World)
    requires
        unlink_kept(start, s, w),
        permits(w, s.action, r, after),
    ensures
        unlink_kept(start, s.machine.resume(r), after),
{
    lemma_resume_is_well_posed(s.machine, r);
    match s.machine {
        MachineModel::Unlinking { manifest, index, outcomes, failure, task } => {
            lemma_unlink_task_awaits(task, r);
            if task.phase is Remove {
                assert forall|path: Seq<char>| #[trigger] is_solid_at(start, path) implies after.contains_key(
                    path,
                ) && after[path] == start[path] by {
                    assert(w.contains_key(path) && w[path] == start[path]);
                }
            }
        },
        _ => {},
    }
}

/// `unlink` never removes a regular file or a directory: whatever the
/// filesystem holds, whatever the manifest says and however the run goes,
/// every regular file and every directory is afterwards where it was and as
/// it was. The manifest file is among them, so the entries stay for a later
/// `link`.
pub proof fn unlink_keeps_files(home: Seq<char>, world: World, turns: Seq<Turn>)
    requires
        runs(StepModel::open(RequestModel::Unlink, home), world, turns),
    ensures
        keeps_solid(world, last_world(world, turns)),
{
    let kept = |s: StepModel, w: World| unlink_kept(world, s, w);
    assert forall|s: StepModel, w: World, r: ReplyModel, after: World| #[trigger]
        permits(w, s.action, r, after) && kept(s, w) implies kept(s.machine.resume(r), after) by {
        lemma_unlink_turn(world, s, w, r, after);
    }
    lemma_kept_to_the_end(kept, StepModel::open(RequestModel::Unlink, home), world, turns);
}

/// What `link` without force keeps from turn to turn: everything that was
/// there at the start is still there, and the task at work only asks
/// questions or creates its link, it never clears a place.
spec fn gentle_link_kept(start: World, step: StepModel, world: World) -> bool {
    &&& well_posed(step)
    &&& keeps_all(start, world)
    &&& match step.machine {
        MachineModel::Locate { request, .. } => request == (RequestModel::Link { force: false }),
        MachineModel::Load { request, .. } => request == (RequestModel::Link { force: false }),
        MachineModel::Linking { force, task, .. } => !force && !task.force && (task.phase is Exists
            || task.phase is IsSymlink || task.phase is SourceForFree || task.phase is Create),
        MachineModel::Finished { .. } => true,
        _ => false,
    }
}

proof fn lemma_gentle_link_turn(start: World, s: StepModel, w: World, r: ReplyModel, after: World)
    requires
        gentle_link_kept(start, s, w),
        permits(w, s.action, r, after),
    ensures
        gentle_link_kept(start, s.machine.resume(r), after),
{
    lemma_resume_is_well_posed(s.machine, r);
    match s.machine {
        MachineModel::Linking { manifest, root, force, index, outcomes, failure, task } => {
            lemma_link_task_awaits(task, r);
            assert forall|path: Seq<char>| #[trigger] start.contains_key(path) implies after.contains_key(
                path,
            ) && after[path] == start[path] by {
                assert(w.contains_key(path) && w[path] == start[path]);
            }
        },
        _ => {},
    }
}

/// `link` without force never removes or replaces anything: whatever the
/// filesystem holds, whatever the manifest says and however the run goes,
/// everything that stood at a path before, a regular file above all, stands
/// there afterwards unchanged. All that the command adds is symbolic links
/// at places that were free.
pub proof fn link_without_force_keeps_everything(home: Seq<char>, world: World, turns: Seq<Turn>)
    requires
        runs(StepModel::open(RequestModel::Link { force: false }, home), world, turns),
    ensures
        keeps_all(world, last_world(world, turns)),
{
    let kept = |s: StepModel, w: World| gentle_link_kept(world, s, w);
    assert forall|s: StepModel, w: World, r: ReplyModel, after: World| #[trigger]
        permits(w, s.action, r, after) && kept(s, w) implies kept(s.machine.resume(r), after) by {
        lemma_gentle_link_turn(world, s, w, r, after);
    }
    lemma_kept_to_the_end(
        kept,
        StepModel::open(RequestModel::Link { force: false }, home),
        world,
        turns,
    );
}

/// Whether an entry of a batch failed.
pub open spec fn some_failed(outcomes: Seq<Settled>) -> bool {
    exists|i: int| 0 <= i < outcomes.len() && (#[trigger] outcomes[i]) is Err
}

proof fn lemma_some_failed_push(outcomes: Seq<Settled>, result: Settled)
    ensures
        some_failed(outcomes.push(result)) <==> some_failed(outcomes) || result is Err,
{
    let longer = outcomes.push(result);
    if some_failed(outcomes) {
        let i = choose|i: int| 0 <= i < outcomes.len() && (#[trigger] outcomes[i]) is Err;
        assert(longer[i] is Err);
    }
    if result is Err {
        assert(longer[outcomes.len() as int] is Err);
    }
    if some_failed(longer) {
        let i = choose|i: int| 0 <= i < longer.len() && (#[trigger] longer[i]) is Err;
        if i < outcomes.len() {
            assert(outcomes[i] is Err);
        }
    }
}

/// What a batch keeps from turn to turn: the entries before the one at work
/// are settled, each with its outcome, and the batch ends only after the last.
spec fn batch_kept(manifest: Manifest, step: StepModel) -> bool {
    &&& well_posed(step)
    &&& match step.machine {
        MachineModel::Linking { manifest: held, index, outcomes, failure, .. } => {
            &&& held == manifest
            &&& index < manifest.order.len()
            &&& outcomes.len() == index
            &&& failure is Some <==> some_failed(outcomes)
        },
        MachineModel::Unlinking { manifest: held, index, outcomes, failure, .. } => {
            &&& held == manifest
            &&& index < manifest.order.len()
            &&& outcomes.len() == index
            &&& failure is Some <==> some_failed(outcomes)
        },
        MachineModel::Finished { result, outcomes } => {
            &&& outcomes.len() == manifest.order.len()
            &&& result is Err <==> some_failed(outcomes)
        },
        _ => false,
    }
}

proof fn lemma_batch_turn(manifest: Manifest, s: StepModel, r: ReplyModel)
    requires
        batch_kept(manifest, s),
    ensures
        batch_kept(manifest, s.machine.resume(r)),
{
    lemma_resume_is_well_posed(s.machine, r);
    match s.machine {
        MachineModel::Linking { manifest, root, force, index, outcomes, failure, task } => {
            if let TaskStepModel::Finished { notices, result } = task.resume(r) {
                lemma_some_failed_push(outcomes, result);
            }
        },
        MachineModel::Unlinking { manifest, index, outcomes, failure, task } => {
            if let TaskStepModel::Finished { notices, result } = task.resume(r) {
                lemma_some_failed_push(outcomes, result);
            }
        },
        _ => {},
    }
}

/// A failure does not end `link`: however the run goes, the batch ends only
/// when every entry of the manifest is settled, each with an outcome or a
/// failure of its own, in the manifest's order; and the command fails exactly
/// if an entry failed.
pub proof fn link_settles_every_entry(
    manifest: Manifest,
    root: Seq<char>,
    force: bool,
    world: World,
    turns: Seq<Turn>,
)
    requires
        runs(StepModel::linking(manifest, root, force), world, turns),
    ensures
        last_step(StepModel::linking(manifest, root, force), turns).machine matches MachineModel::Finished {
            result,
            outcomes,
        } && outcomes.len() == manifest.order.len() && (result is Err <==> some_failed(outcomes)),
{
    let kept = |s: StepModel, w: World| batch_kept(manifest, s);
    assert forall|s: StepModel, w: World, r: ReplyModel, after: World| #[trigger]
        permits(w, s.action, r, after) && kept(s, w) implies kept(s.machine.resume(r), after) by {
        lemma_batch_turn(manifest, s, r);
    }
    lemma_batch_is_well_posed(manifest, root, force, 0, Seq::empty(), None, seq![NoticeModel::LinkingAll]);
    lemma_kept_to_the_end(kept, StepModel::linking(manifest, root, force), world, turns);
}

/// A failure does not end `unlink` either: the batch ends only when every
/// entry of the manifest is settled, and the command fails exactly if an entry
/// failed.
pub proof fn unlink_settles_every_entry(manifest: Manifest, world: World, turns: Seq<Turn>)
    requires
        runs(StepModel::unlinking(manifest), world, turns),
    ensures
        last_step(StepModel::unlinking(manifest), turns).machine matches MachineModel::Finished {
            result,
            outcomes,
        } && outcomes.len() == manifest.order.len() && (result is Err <==> some_failed(outcomes)),
{
    let kept = |s: StepModel, w: World| batch_kept(manifest, s);
    assert forall|s: StepModel, w: World, r: ReplyModel, after: World| #[trigger]
        permits(w, s.action, r, after) && kept(s, w) implies kept(s.machine.resume(r), after) by {
        lemma_batch_turn(manifest, s, r);
    }
    lemma_batch_is_well_posed(
        manifest,
        Seq::empty(),
        false,
        0,
        Seq::empty(),
        None,
        seq![NoticeModel::UnlinkingAll],
    );
    lemma_kept_to_the_end(kept, StepModel::unlinking(manifest), world, turns);
}

/// What `init` keeps from turn to turn: once the target directory is
/// created it stays a directory, and the command succeeds only where the
/// target exists in the end.
spec fn init_kept(target: Seq<char>, step: StepModel, world: World) -> bool {
    &&& well_posed(step)
    &&& match step.machine {
        MachineModel::InitProbe { target: held } => held == target,
        MachineModel::InitCreate { target: held } => held == target,
        MachineModel::InitSave { target: held } => held == target && world.contains_key(target)
            && world[target] is Directory,
        MachineModel::Finished { result, .. } => result is Ok ==> exists_at(world, target),
        _ => false,
    }
}

proof fn lemma_init_turn(target: Seq<char>, s: StepModel, w: World, r: ReplyModel, after: World)
    requires
        init_kept(target, s, w),
        permits(w, s.action, r, after),
    ensures
        init_kept(target, s.machine.resume(r), after),
{
    lemma_resume_is_well_posed(s.machine, r);
    match s.machine {
        MachineModel::InitSave { .. } => {
            if r.succeeded() {
                lemma_write_lands_on_a_file(w, Manifest::empty(target).path(), link_hops());
                assert(after.contains_key(target) && after[target] is Directory);
                assert(leads_somewhere(after, target, link_hops()));
            }
        },
        _ => {},
    }
}

/// The directory in which `init` creates the repository.
pub open spec fn init_target(home: Seq<char>, dir: Option<Seq<char>>) -> Seq<char> {
    match dir {
        Some(dir) => dir,
        None => path_joined(home, DEFAULT_DOTFILES_DIR@),
    }
}

/// Where `init` has succeeded, the target directory exists.
pub proof fn init_leaves_the_target(home: Seq<char>, dir: Option<Seq<char>>, world: World, turns: Seq<Turn>)
    requires
        runs(StepModel::init(home, dir), world, turns),
        last_step(StepModel::init(home, dir), turns).action == (ActionModel::Finish { result: Ok(()) }),
    ensures
        exists_at(last_world(world, turns), init_target(home, dir)),
{
    let target = init_target(home, dir);
    let kept = |s: StepModel, w: World| init_kept(target, s, w);
    assert forall|s: StepModel, w: World, r: ReplyModel, after: World| #[trigger]
        permits(w, s.action, r, after) && kept(s, w) implies kept(s.machine.resume(r), after) by {
        lemma_init_turn(target, s, w, r, after);
    }
    lemma_kept_to_the_end(kept, StepModel::init(home, dir), world, turns);
}

/// Where the target directory exists, `init` succeeds and changes nothing.
pub proof fn init_spares_what_exists(home: Seq<char>, dir: Option<Seq<char>>, world: World, turns: Seq<Turn>)
    requires
        runs(StepModel::init(home, dir), world, turns),
        exists_at(world, init_target(home, dir)),
    ensures
        last_step(StepModel::init(home, dir), turns).action == (ActionModel::Finish { result: Ok(()) }),
        last_world(world, turns) == world,
{
    let target = init_target(home, dir);
    let start = StepModel::init(home, dir);
    let kept = |s: StepModel, w: World|
        w == world && (s == start || s == StepModel::done(
            NoticeModel::RepositoryAlreadyExists { dir: target },
        ));
    assert forall|s: StepModel, w: World, r: ReplyModel, after: World| #[trigger]
        permits(w, s.action, r, after) && kept(s, w) implies kept(s.machine.resume(r), after) by {}
    lemma_kept_to_the_end(kept, start, world, turns);
}

/// `init` is idempotent: once it has succeeded, another `init` with the same
/// target succeeds too and changes nothing on the filesystem, the manifest
/// that is there least of all.
pub proof fn init_twice(
    home: Seq<char>,
    dir: Option<Seq<char>>,
    world: World,
    first: Seq<Turn>,
    second: Seq<Turn>,
)
    requires
        runs(StepModel::init(home, dir), world, first),
        last_step(StepModel::init(home, dir), first).action == (ActionModel::Finish { result: Ok(()) }),
        runs(StepModel::init(home, dir), last_world(world, first), second),
    ensures
        last_step(StepModel::init(home, dir), second).action == (ActionModel::Finish { result: Ok(()) }),
        last_world(last_world(world, first), second) == last_world(world, first),
{
    init_leaves_the_target(home, dir, world, first);
    init_spares_what_exists(home, dir, last_world(world, first), second);
}

/// The repository copy of the file that `add` moves from `source`.
pub open spec fn copy_of(root: Seq<char>, source: Seq<char>) -> Seq<char> {
    path_joined(root, path_file_name(source).unwrap())
}

/// Whether `add` of the file at `source` can keep what it moves: the file's old
/// place, its repository copy and the manifest file are three places, and the
/// manifest file is no symbolic link, so that writing it lands on itself.
pub open spec fn add_keeps_apart(
    manifest: Manifest,
    root: Seq<char>,
    source: Seq<char>,
    world: World,
) -> bool {
    &&& copy_of(root, source) != source
    &&& copy_of(root, source) != manifest.path()
    &&& source != manifest.path()
    &&& !is_symlink_at(world, manifest.path())
}

/// The manifest after `add` has recorded the file at `source`: the file's name
/// stands for the place it came from.
pub open spec fn recorded(manifest: Manifest, source: Seq<char>) -> Manifest {
    manifest.with(path_file_name(source).unwrap(), source)
}

/// Whether the manifest file on the filesystem holds the text of the manifest.
pub open spec fn holds_manifest(world: World, manifest: Manifest) -> bool {
    saved_manifest(manifest) matches Ok(text) && world.contains_key(manifest.path())
        && world[manifest.path()] == Node::File(encode_utf8(text))
}

/// What `add` keeps from turn to turn, where `add_keeps_apart`: the file moves
/// to the copy, then the link takes the old place, then the manifest is
/// written.
spec fn add_kept(
    manifest: Manifest,
    root: Seq<char>,
    source: Seq<char>,
    start: World,
    step: StepModel,
    world: World,
) -> bool {
    let copy = copy_of(root, source);
    let moved = start.remove(source).insert(copy, start[source]);
    &&& well_posed(step)
    &&& match step.machine {
        MachineModel::AddProbe { manifest: m, root: r, source: s } => m == manifest && r == root && s
            == source && world == start,
        MachineModel::AddMove { manifest: m, source: s, name, copy: c } => m == manifest && s == source
            && path_file_name(source) == Some(name) && c == copy && world == start,
        MachineModel::AddLink { manifest: m, source: s, name, task } => {
            &&& m == manifest && s == source && path_file_name(source) == Some(name)
            &&& task.source == copy && task.dest == source && task.force
            &&& task.phase is Exists || task.phase is IsSymlink || task.phase is SourceForFree
                || task.phase is Create
            &&& start.contains_key(source)
            &&& world == moved
        },
        MachineModel::AddSave { name } => {
            &&& step.action matches ActionModel::WriteFile { path, content } && path == manifest.path()
                && saved_manifest(recorded(manifest, source)) == Ok::<Seq<char>, DotmanError>(content)
            &&& path_file_name(source) is Some
            &&& start.contains_key(source)
            &&& world == moved.insert(source, Node::Symlink(copy))
        },
        MachineModel::Finished { result, .. } => result is Ok ==> {
            &&& path_file_name(source) is Some
            &&& start.contains_key(source)
            &&& world.contains_key(source) && world[source] == Node::Symlink(copy)
            &&& world.contains_key(copy) && world[copy] == start[source]
            &&& holds_manifest(world, recorded(manifest, source))
        },
        _ => false,
    }
}

proof fn lemma_add_turn(
    manifest: Manifest,
    root: Seq<char>,
    source: Seq<char>,
    start: World,
    s: StepModel,
    w: World,
    r: ReplyModel,
    after: World,
)
    requires
        add_kept(manifest, root, source, start, s, w),
        permits(w, s.action, r, after),
        path_file_name(source) is Some ==> add_keeps_apart(manifest, root, source, start),
    ensures
        add_kept(manifest, root, source, start, s.machine.resume(r), after),
{
    lemma_resume_is_well_posed(s.machine, r);
    let copy = copy_of(root, source);
    let moved = start.remove(source).insert(copy, start[source]);
    match s.machine {
        MachineModel::AddLink { manifest: m, source: src, name, task } => {
            lemma_link_task_awaits(task, r);
            assert(!moved.contains_key(source));
            assert(!leads_somewhere(moved, source, link_hops()));
        },
        MachineModel::AddSave { .. } => {
            let linked = moved.insert(source, Node::Symlink(copy));
            assert(linked.contains_key(manifest.path()) ==> start.contains_key(manifest.path())
                && linked[manifest.path()] == start[manifest.path()]);
            assert(write_lands(linked, manifest.path(), link_hops()) is Some ==> write_lands(
                linked,
                manifest.path(),
                link_hops(),
            ) == Some(manifest.path()));
        },
        _ => {},
    }
}

/// `add` moves, it does not copy: where `add` has succeeded, the file's old
/// place holds a symbolic link to the repository copy, the repository copy
/// is what stood at the old place before, content and all, and the manifest
/// file holds the manifest with the file recorded. This is stated
/// where `add_keeps_apart`: a file that lies in the repository already, one
/// named like the manifest file, the manifest file itself, or a file that the
/// manifest file is a symbolic link to, may be lost by `add`.
pub proof fn add_moves_the_file(
    manifest: Manifest,
    root: Seq<char>,
    source: Seq<char>,
    world: World,
    turns: Seq<Turn>,
)
    requires
        runs(StepModel::adding(manifest, root, source), world, turns),
        last_step(StepModel::adding(manifest, root, source), turns).action == (ActionModel::Finish {
            result: Ok(()),
        }),
        path_file_name(source) is Some ==> add_keeps_apart(manifest, root, source, world),
    ensures
        path_file_name(source) is Some,
        world.contains_key(source),
        last_world(world, turns).contains_key(source),
        last_world(world, turns)[source] == Node::Symlink(copy_of(root, source)),
        last_world(world, turns).contains_key(copy_of(root, source)),
        last_world(world, turns)[copy_of(root, source)] == world[source],
        holds_manifest(last_world(world, turns), recorded(manifest, source)),
{
    let kept = |s: StepModel, w: World| add_kept(manifest, root, source, world, s, w);
    assert forall|s: StepModel, w: World, r: ReplyModel, after: World| #[trigger]
        permits(w, s.action, r, after) && kept(s, w) implies kept(s.machine.resume(r), after) by {
        lemma_add_turn(manifest, root, source, world, s, w, r, after);
    }
    lemma_kept_to_the_end(kept, StepModel::adding(manifest, root, source), world, turns);
}

/// The place of the entry of turn `index`.
pub open spec fn place(manifest: Manifest, index: int) -> Seq<char> {
    manifest.files[manifest.order[index]]
}

/// Whether the entry of turn `index` has its place to itself from then until
/// turn `until`: none of the entries in between has the same place.
pub open spec fn undisturbed(manifest: Manifest, index: int, until: int) -> bool {
    forall|later: int| index < later < until ==> #[trigger] place(manifest, later) != place(manifest, index)
}

/// Whether the place of the entry of turn `index` holds a symbolic link to the
/// entry's repository copy.
pub open spec fn linked(manifest: Manifest, root: Seq<char>, index: int, world: World) -> bool {
    world.contains_key(place(manifest, index)) && world[place(manifest, index)] == Node::Symlink(
        path_joined(root, manifest.order[index]),
    )
}

/// Whether every entry that is settled without a failure was created or
/// overwritten, and is linked still unless an entry before turn `until` has
/// taken its place since.
pub open spec fn settled_links(
    manifest: Manifest,
    root: Seq<char>,
    outcomes: Seq<Settled>,
    until: int,
    world: World,
) -> bool {
    forall|i: int|
        0 <= i < outcomes.len() && (#[trigger] outcomes[i]) is Ok ==> {
            &&& outcomes[i] == Ok::<LinkOutcome, DotmanError>(LinkOutcome::Created) || outcomes[i] == Ok::<
                LinkOutcome,
                DotmanError,
            >(LinkOutcome::Overwritten)
            &&& undisturbed(manifest, i, until) ==> linked(manifest, root, i, world)
        }
}

/// What `link` with force keeps from turn to turn: the entries settled
/// without a failure are linked, but for those whose place the entry at work
/// or an entry before it has taken.
spec fn forced_link_kept(
    manifest: Manifest,
    root: Seq<char>,
    step: StepModel,
    world: World,
) -> bool {
    &&& well_posed(step)
    &&& match step.machine {
        MachineModel::Linking { manifest: m, root: r, force, index, outcomes, task, .. } => {
            &&& m == manifest && r == root && force
            &&& index < manifest.order.len()
            &&& outcomes.len() == index
            &&& task.source == path_joined(root, manifest.order[index as int])
            &&& task.dest == place(manifest, index as int)
            &&& task.force
            &&& settled_links(manifest, root, outcomes, index as int + 1, world)
        },
        MachineModel::Finished { outcomes, .. } => {
            &&& outcomes.len() == manifest.order.len()
            &&& settled_links(manifest, root, outcomes, outcomes.len() as int, world)
        },
        _ => false,
    }
}

proof fn lemma_forced_link_turn(
    manifest: Manifest,
    root: Seq<char>,
    s: StepModel,
    w: World,
    r: ReplyModel,
    after: World,
)
    requires
        forced_link_kept(manifest, root, s, w),
        permits(w, s.action, r, after),
    ensures
        forced_link_kept(manifest, root, s.machine.resume(r), after),
{
    lemma_resume_is_well_posed(s.machine, r);
    match s.machine {
        MachineModel::Linking { manifest: m, root: rt, force, index, outcomes, failure, task } => {
            lemma_link_task_awaits(task, r);
            assert forall|i: int|
                0 <= i < outcomes.len() && (#[trigger] outcomes[i]) is Ok && undisturbed(
                    manifest,
                    i,
                    index as int + 1,
                ) implies linked(manifest, root, i, after) by {
                assert(linked(manifest, root, i, w));
                assert(place(manifest, index as int) != place(manifest, i));
            }
            if let TaskStepModel::Finished { notices, result } = task.resume(r) {
                let longer = outcomes.push(result);
                assert forall|i: int| 0 <= i < longer.len() && (#[trigger] longer[i]) is Ok implies {
                    &&& longer[i] == Ok::<LinkOutcome, DotmanError>(LinkOutcome::Created) || longer[i]
                        == Ok::<LinkOutcome, DotmanError>(LinkOutcome::Overwritten)
                    &&& undisturbed(manifest, i, index as int + 2) ==> linked(manifest, root, i, after)
                    &&& undisturbed(manifest, i, index as int + 1) ==> linked(manifest, root, i, after)
                } by {
                    if i < outcomes.len() {
                        assert(outcomes[i] is Ok);
                    }
                }
            }
        },
        _ => {},
    }
}

/// `link` with force leaves every place linked: after the command, the place
/// of every entry that did not fail holds a symbolic link to the entry's
/// repository copy, whatever stood there before, unless a later entry of the
/// manifest has the same place and has taken it. No entry is passed over: each
/// is settled as created, as overwritten, or as failed.
pub proof fn link_with_force_links_every_place(
    manifest: Manifest,
    root: Seq<char>,
    world: World,
    turns: Seq<Turn>,
)
    requires
        runs(StepModel::linking(manifest, root, true), world, turns),
    ensures
        last_step(StepModel::linking(manifest, root, true), turns).machine matches MachineModel::Finished {
            outcomes,
            ..
        } && outcomes.len() == manifest.order.len() && settled_links(
            manifest,
            root,
            outcomes,
            outcomes.len() as int,
            last_world(world, turns),
        ),
{
    let kept = |s: StepModel, w: World| forced_link_kept(manifest, root, s, w);
    assert forall|s: StepModel, w: World, r: ReplyModel, after: World| #[trigger]
        permits(w, s.action, r, after) && kept(s, w) implies kept(s.machine.resume(r), after) by {
        lemma_forced_link_turn(manifest, root, s, w, r, after);
    }
    lemma_batch_is_well_posed(manifest, root, true, 0, Seq::empty(), None, seq![NoticeModel::LinkingAll]);
    lemma_kept_to_the_end(kept, StepModel::linking(manifest, root, true), world, turns);
}

/// Whether `turns` is a whole run of a link task on a filesystem in state
/// `world`: every reply is one that the filesystem permits for the action that
/// the task waits for, and the task finishes with the last of them.
pub open spec fn link_runs(task: LinkTaskModel, world: World, turns: Seq<Turn>) -> bool
    decreases turns.len(),
{
    turns.len() > 0 && permits(world, task.awaits(), turns[0].reply, turns[0].world) && match task.resume(
        turns[0].reply,
    ) {
        TaskStepModel::Continue { task: next, .. } => link_runs(
            next,
            turns[0].world,
            turns.drop_first(),
        ),
        TaskStepModel::Finished { .. } => turns.len() == 1,
    }
}

/// How a link task ends after the replies of `turns`.
pub open spec fn link_result(task: LinkTaskModel, turns: Seq<Turn>) -> Settled
    decreases turns.len(),
{
    if turns.len() == 0 {
        Err(DotmanError::SymlinkCreationError)
    } else {
        match task.resume(turns[0].reply) {
            TaskStepModel::Continue { task: next, .. } => link_result(next, turns.drop_first()),
            TaskStepModel::Finished { result, .. } => result,
        }
    }
}

/// Whether the filesystem refused something in the run.
pub open spec fn some_refused(turns: Seq<Turn>) -> bool {
    exists|i: int| 0 <= i < turns.len() && (#[trigger] turns[i]).reply is Failed
}

/// Whether the path is the place of an entry of the manifest.
pub open spec fn is_place(manifest: Manifest, path: Seq<char>) -> bool {
    exists|index: int| 0 <= index < manifest.order.len() && #[trigger] place(manifest, index) == path
}

/// Whether two filesystems hold the same at every path that is no place of
/// an entry of the manifest.
pub open spec fn same_but_at_places(manifest: Manifest, before: World, after: World) -> bool {
    forall|path: Seq<char>|
        !is_place(manifest, path) ==> (#[trigger] before.contains_key(path) <==> after.contains_key(path))
            && (before.contains_key(path) ==> after[path] == before[path])
}

/// What a batch keeps from turn to turn: the task at work is about the place
/// of an entry, and nothing but places has changed.
spec fn places_kept(manifest: Manifest, start: World, step: StepModel, world: World) -> bool {
    &&& well_posed(step)
    &&& same_but_at_places(manifest, start, world)
    &&& match step.machine {
        MachineModel::Linking { manifest: held, index, task, .. } => held == manifest && index
            < manifest.order.len() && task.dest == place(manifest, index as int),
        MachineModel::Unlinking { manifest: held, index, task, .. } => held == manifest && index
            < manifest.order.len() && task.target == place(manifest, index as int),
        MachineModel::Finished { .. } => true,
        _ => false,
    }
}

proof fn lemma_places_turn(
    manifest: Manifest,
    start: World,
    s: StepModel,
    w: World,
    r: ReplyModel,
    after: World,
)
    requires
        places_kept(manifest, start, s, w),
        permits(w, s.action, r, after),
    ensures
        places_kept(manifest, start, s.machine.resume(r), after),
{
    lemma_resume_is_well_posed(s.machine, r);
    match s.machine {
        MachineModel::Linking { index, task, .. } => {
            lemma_link_task_awaits(task, r);
            assert(is_place(manifest, place(manifest, index as int)));
            assert forall|path: Seq<char>| !is_place(manifest, path) implies (#[trigger] start.contains_key(
                path,
            ) <==> after.contains_key(path)) && (start.contains_key(path) ==> after[path]
                == start[path]) by {
                assert(w.contains_key(path) <==> start.contains_key(path));
            }
        },
        MachineModel::Unlinking { index, task, .. } => {
            lemma_unlink_task_awaits(task, r);
            assert(is_place(manifest, place(manifest, index as int)));
            assert forall|path: Seq<char>| !is_place(manifest, path) implies (#[trigger] start.contains_key(
                path,
            ) <==> after.contains_key(path)) && (start.contains_key(path) ==> after[path]
                == start[path]) by {
                assert(w.contains_key(path) <==> start.contains_key(path));
            }
        },
        _ => {},
    }
}

/// `link` touches nothing but places: whatever the manifest says and however
/// the run goes, with force or without, every path that is no place of an
/// entry holds afterwards what it held before, and is free if it was free.
/// The repository copies and the manifest file are among them unless the
/// manifest names one of them as a place.
pub proof fn link_touches_only_places(
    manifest: Manifest,
    root: Seq<char>,
    force: bool,
    world: World,
    turns: Seq<Turn>,
)
    requires
        runs(StepModel::linking(manifest, root, force), world, turns),
    ensures
        same_but_at_places(manifest, world, last_world(world, turns)),
{
    let kept = |s: StepModel, w: World| places_kept(manifest, world, s, w);
    assert forall|s: StepModel, w: World, r: ReplyModel, after: World| #[trigger]
        permits(w, s.action, r, after) && kept(s, w) implies kept(s.machine.resume(r), after) by {
        lemma_places_turn(manifest, world, s, w, r, after);
    }
    lemma_batch_is_well_posed(manifest, root, force, 0, Seq::empty(), None, seq![NoticeModel::LinkingAll]);
    lemma_kept_to_the_end(kept, StepModel::linking(manifest, root, force), world, turns);
}

/// `unlink` touches nothing but places: every path that is no place of an
/// entry holds afterwards what it held before.
pub proof fn unlink_touches_only_places(manifest: Manifest, world: World, turns: Seq<Turn>)
    requires
        runs(StepModel::unlinking(manifest), world, turns),
    ensures
        same_but_at_places(manifest, world, last_world(world, turns)),
{
    let kept = |s: StepModel, w: World| places_kept(manifest, world, s, w);
    assert forall|s: StepModel, w: World, r: ReplyModel, after: World| #[trigger]
        permits(w, s.action, r, after) && kept(s, w) implies kept(s.machine.resume(r), after) by {
        lemma_places_turn(manifest, world, s, w, r, after);
    }
    lemma_batch_is_well_posed(
        manifest,
        Seq::empty(),
        false,
        0,
        Seq::empty(),
        None,
        seq![NoticeModel::UnlinkingAll],
    );
    lemma_kept_to_the_end(kept, StepModel::unlinking(manifest), world, turns);
}

/// What is known of the destination and of the source of a link task in each
/// of its phases, on the filesystem `start` on which the task began and the
/// filesystem `world` on which it stands.
spec fn link_facts(task: LinkTaskModel, start: World, world: World) -> bool {
    let occupied = start.contains_key(task.dest);
    let found = exists_at(start, task.source);
    &&& same_but_at(start, world, task.dest)
    &&& !(task.phase is Recreate) ==> world == start
    &&& match task.phase {
        LinkPhase::Exists => true,
        LinkPhase::IsSymlink => !exists_at(start, task.dest),
        LinkPhase::SourceForFree => !occupied,
        LinkPhase::SourceForLink => task.force && is_symlink_at(start, task.dest),
        LinkPhase::SourceForOccupied => task.force && exists_at(start, task.dest),
        LinkPhase::Kind => task.force && found && exists_at(start, task.dest),
        LinkPhase::IsDirectory => task.force && found && is_solid_at(start, task.dest),
        LinkPhase::Remove => task.force && found && occupied,
        LinkPhase::RemoveDir => task.force && found && occupied,
        LinkPhase::Create => found && !occupied,
        LinkPhase::Recreate => task.force && found && occupied && !world.contains_key(task.dest),
    }
}

/// How a link task may end, by what stood at its destination and whether its
/// source exists on the filesystem `start` on which it began.
pub open spec fn link_ends(
    task: LinkTaskModel,
    start: World,
    result: Settled,
    after: World,
    refusal: bool,
) -> bool {
    let linked = after.contains_key(task.dest) && after[task.dest] == Node::Symlink(task.source);
    &&& same_but_at(start, after, task.dest)
    &&& match result {
        Ok(LinkOutcome::Created) => !start.contains_key(task.dest) && linked,
        Ok(LinkOutcome::Overwritten) => task.force && start.contains_key(task.dest) && linked,
        Ok(LinkOutcome::SkippedExists) => !task.force && start.contains_key(task.dest) && after == start,
        Ok(_) => false,
        Err(DotmanError::SymlinkCreationError) => refusal || (!exists_at(start, task.source) && after
            == start),
        Err(DotmanError::LinkRemovalError) => refusal && after == start,
        Err(_) => false,
    }
    &&& !task.force && start.contains_key(task.dest) ==> result == Ok::<LinkOutcome, DotmanError>(
        LinkOutcome::SkippedExists,
    )
    &&& !exists_at(start, task.source) ==> after == start && (task.force || !start.contains_key(task.dest)
        ==> result == Err::<LinkOutcome, DotmanError>(DotmanError::SymlinkCreationError))
    &&& exists_at(start, task.source) && !refusal ==> result is Ok
}

proof fn lemma_link_run(task: LinkTaskModel, start: World, world: World, turns: Seq<Turn>)
    requires
        link_runs(task, world, turns),
        link_facts(task, start, world),
    ensures
        link_ends(task, start, link_result(task, turns), last_world(world, turns), some_refused(turns)),
    decreases turns.len(),
{
    let rest = turns.drop_first();
    lemma_link_task_awaits(task, turns[0].reply);
    assert(exists_at(start, task.dest) ==> start.contains_key(task.dest));
    assert(!start.contains_key(task.dest) ==> !leads_somewhere(start, task.dest, link_hops()));
    assert(is_solid_at(start, task.dest) ==> (leads_to_directory(start, task.dest, link_hops())
        <==> start[task.dest] is Directory));
    match task.resume(turns[0].reply) {
        TaskStepModel::Continue { task: next, .. } => {
            assert(link_runs(next, turns[0].world, rest));
            assert(rest.len() > 0);
            assert(link_facts(next, start, turns[0].world));
            lemma_link_run(next, start, turns[0].world, rest);
            assert(rest.last() == turns.last());
            if some_refused(rest) {
                let i = choose|i: int| 0 <= i < rest.len() && (#[trigger] rest[i]).reply is Failed;
                assert(turns[i + 1].reply is Failed);
            }
        },
        TaskStepModel::Finished { result, .. } => {
            if turns[0].reply is Failed {
                assert(some_refused(turns));
            }
        },
    }
}

/// Linking one place with force ends in a link, whatever stood at the place
/// before, be it a file, a symbolic link, a directory or nothing. Where the
/// source exists and the filesystem refuses nothing, the task ends with the
/// place holding a symbolic link to the source, as created if the place was
/// free and as overwritten if it was not. A directory goes only if it holds
/// nothing: the removal of one that holds anything is refused, and the task
/// then fails and leaves it. Nothing but the place itself is ever touched.
pub proof fn forced_link_takes_the_place(
    source: Seq<char>,
    dest: Seq<char>,
    world: World,
    turns: Seq<Turn>,
)
    requires
        link_runs(LinkTaskModel::start(source, dest, true).0, world, turns),
    ensures
        link_ends(
            LinkTaskModel::start(source, dest, true).0,
            world,
            link_result(LinkTaskModel::start(source, dest, true).0, turns),
            last_world(world, turns),
            some_refused(turns),
        ),
        exists_at(world, source) && !some_refused(turns) ==> last_world(world, turns).contains_key(dest)
            && last_world(world, turns)[dest] == Node::Symlink(source) && link_result(
            LinkTaskModel::start(source, dest, true).0,
            turns,
        ) == (if world.contains_key(dest) {
            Ok::<LinkOutcome, DotmanError>(LinkOutcome::Overwritten)
        } else {
            Ok::<LinkOutcome, DotmanError>(LinkOutcome::Created)
        }),
{
    lemma_link_run(LinkTaskModel::start(source, dest, true).0, world, world, turns);
}

/// Linking one place without force spares what stands there: the task ends
/// with the filesystem as it was and the place passed over if anything stood
/// there, and else with nothing changed but the place, which holds the link
/// if the task did not fail.
pub proof fn unforced_link_spares_the_place(
    source: Seq<char>,
    dest: Seq<char>,
    world: World,
    turns: Seq<Turn>,
)
    requires
        link_runs(LinkTaskModel::start(source, dest, false).0, world, turns),
    ensures
        link_ends(
            LinkTaskModel::start(source, dest, false).0,
            world,
            link_result(LinkTaskModel::start(source, dest, false).0, turns),
            last_world(world, turns),
            some_refused(turns),
        ),
        world.contains_key(dest) ==> last_world(world, turns) == world && link_result(
            LinkTaskModel::start(source, dest, false).0,
            turns,
        ) == Ok::<LinkOutcome, DotmanError>(LinkOutcome::SkippedExists),
{
    lemma_link_run(LinkTaskModel::start(source, dest, false).0, world, world, turns);
}

/// A source that does not exist is not linked to: the task fails with
/// `SymlinkCreationError` and leaves the filesystem as it was, the destination
/// too. The one exception is a destination that is occupied and a task without
/// force: that destination is passed over before the source is asked for.
pub proof fn missing_source_is_not_linked(
    source: Seq<char>,
    dest: Seq<char>,
    force: bool,
    world: World,
    turns: Seq<Turn>,
)
    requires
        link_runs(LinkTaskModel::start(source, dest, force).0, world, turns),
        !exists_at(world, source),
    ensures
        last_world(world, turns) == world,
        link_result(LinkTaskModel::start(source, dest, force).0, turns) == (if !force
            && world.contains_key(dest) {
            Ok::<LinkOutcome, DotmanError>(LinkOutcome::SkippedExists)
        } else {
            Err::<LinkOutcome, DotmanError>(DotmanError::SymlinkCreationError)
        }),
{
    lemma_link_run(LinkTaskModel::start(source, dest, force).0, world, world, turns);
}

/// The manifest file says what the manifest says: the document that stands
/// for a manifest reads back as the same directory and the same place for
/// every file.
pub proof fn document_round_trip(manifest: Manifest)
    ensures
        read_document(document_of(manifest)) == Some((manifest.dotfiles_dir, manifest.files)),
{
    reveal_strlit("dotfiles_dir");
    reveal_strlit("files");
    assert(DIRECTORY_KEY@.len() != FILES_KEY@.len());
    let files = file_items(manifest.files);
    assert(document_of(manifest)[FILES_KEY@] == Item::Table(files));
    assert(document_of(manifest)[DIRECTORY_KEY@] == Item::Text(manifest.dotfiles_dir));
    assert(all_text(files));
    assert(item_texts(files) =~= manifest.files);
}

/// Saving and loading gives the manifest back: where the text that `save` makes
/// of a manifest is read as the very document that was written, `load` makes of
/// that text a manifest with the same directory and the same place for every
/// file. The order of the entries may differ.
pub proof fn save_then_load(manifest: Manifest, text: Seq<char>)
    requires
        saved_manifest(manifest) == Ok::<Seq<char>, DotmanError>(text),
        parsed_document(text) == Some(document_of(manifest)),
    ensures
        parsed_manifest(text) matches Ok(loaded) && loaded.same_content(manifest),
{
    document_round_trip(manifest);
}

} // verus!
