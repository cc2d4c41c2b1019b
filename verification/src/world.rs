//! A filesystem as a mathematical value, and what it may answer to an action.
//! The laws of the commands are stated over it.

use crate::effect::{ActionModel, ReplyModel};
use vstd::prelude::*;
use vstd::utf8::encode_utf8;

verus! {

/// What stands at a path.
pub enum Node {
    /// A regular file and the bytes it holds.
    File(Seq<u8>),
    /// A directory.
    Directory,
    /// A symbolic link and the path it points to.
    Symlink(Seq<char>),
}

/// A filesystem as the commands see it: what stands at each path that holds
/// anything. Paths are told apart by their text, so two spellings of one place
/// are two places here, and the directories above a path are not looked at.
pub type World = Map<Seq<char>, Node>;

/// How many symbolic links a path may lead through.
pub open spec fn link_hops() -> nat {
    40
}

/// Whether the path leads to a file or a directory through at most `hops`
/// symbolic links.
pub open spec fn leads_somewhere(world: World, path: Seq<char>, hops: nat) -> bool
    decreases hops,
{
    world.contains_key(path) && match world[path] {
        Node::Symlink(target) => hops > 0 && leads_somewhere(world, target, (hops - 1) as nat),
        _ => true,
    }
}

/// Whether something exists at the path, symbolic links followed. A link that
/// leads nowhere does not exist in this sense.
pub open spec fn exists_at(world: World, path: Seq<char>) -> bool {
    leads_somewhere(world, path, link_hops())
}

/// Whether the path leads to a directory through at most `hops` symbolic links.
pub open spec fn leads_to_directory(world: World, path: Seq<char>, hops: nat) -> bool
    decreases hops,
{
    world.contains_key(path) && match world[path] {
        Node::Symlink(target) => hops > 0 && leads_to_directory(world, target, (hops - 1) as nat),
        Node::Directory => true,
        Node::File(_) => false,
    }
}

/// Whether the path is a directory, symbolic links followed.
pub open spec fn is_directory_at(world: World, path: Seq<char>) -> bool {
    leads_to_directory(world, path, link_hops())
}

/// Where a write to the path lands, through at most `hops` symbolic links: at
/// the path itself if it is free or holds a file, at the end of the links if it
/// holds a symbolic link, and nowhere if that is a directory or too far.
pub open spec fn write_lands(world: World, path: Seq<char>, hops: nat) -> Option<Seq<char>>
    decreases hops,
{
    if !world.contains_key(path) {
        Some(path)
    } else {
        match world[path] {
            Node::File(_) => Some(path),
            Node::Directory => None,
            Node::Symlink(target) => if hops > 0 {
                write_lands(world, target, (hops - 1) as nat)
            } else {
                None
            },
        }
    }
}

/// A write lands where nothing stands or where a file stands.
pub proof fn lemma_write_lands_on_a_file(world: World, path: Seq<char>, hops: nat)
    ensures
        write_lands(world, path, hops) matches Some(place) ==> !world.contains_key(place) || world[place]
            is File,
    decreases hops,
{
    if world.contains_key(path) {
        if let Node::Symlink(target) = world[path] {
            if hops > 0 {
                lemma_write_lands_on_a_file(world, target, (hops - 1) as nat);
            }
        }
    }
}

/// Whether the path itself holds a symbolic link, wherever it points.
pub open spec fn is_symlink_at(world: World, path: Seq<char>) -> bool {
    world.contains_key(path) && world[path] is Symlink
}

/// Whether the path holds a regular file or a directory.
pub open spec fn is_solid_at(world: World, path: Seq<char>) -> bool {
    world.contains_key(path) && !(world[path] is Symlink)
}

/// Whether the driver could not do what it was asked: it says so, and the
/// filesystem is as before.
pub open spec fn refused(world: World, reply: ReplyModel, after: World) -> bool {
    reply is Failed && after == world
}

/// Whether a filesystem in state `world` may answer `action` with `reply` and be
/// in state `after`. Questions are answered truly and change nothing. A read
/// changes nothing, whatever it yields. Any other operation may be refused, and
/// is done only where the filesystem can do it: a link is created only where
/// nothing stands, a directory is not removed as a file nor a file as a
/// directory, and a write goes through symbolic links and lands on a file or
/// on a free place, never on a directory. What a directory holds is not looked
/// at: a directory that holds anything is one whose removal is refused.
pub open spec fn permits(world: World, action: ActionModel, reply: ReplyModel, after: World) -> bool {
    match action {
        ActionModel::Exists { path } => after == world && reply == ReplyModel::Flag(
            exists_at(world, path),
        ),
        ActionModel::IsSymlink { path } => after == world && reply == ReplyModel::Flag(
            is_symlink_at(world, path),
        ),
        ActionModel::IsDirectory { path } => after == world && reply == ReplyModel::Flag(
            is_directory_at(world, path),
        ),
        ActionModel::ReadFile { path } => after == world && (reply is Text || reply is Failed),
        ActionModel::CreateDirAll { path } => refused(world, reply, after) || {
            &&& reply.succeeded()
            &&& !world.contains_key(path) || world[path] is Directory
            &&& after == world.insert(path, Node::Directory)
        },
        ActionModel::WriteFile { path, content } => refused(world, reply, after) || {
            &&& reply.succeeded()
            &&& write_lands(world, path, link_hops()) matches Some(place) && after == world.insert(
                place,
                Node::File(encode_utf8(content)),
            )
        },
        ActionModel::Rename { from, to } => refused(world, reply, after) || {
            &&& reply.succeeded()
            &&& world.contains_key(from)
            &&& after == world.remove(from).insert(to, world[from])
        },
        ActionModel::RemoveFile { path } => refused(world, reply, after) || {
            &&& reply.succeeded()
            &&& world.contains_key(path) && !(world[path] is Directory)
            &&& after == world.remove(path)
        },
        ActionModel::RemoveDir { path } => refused(world, reply, after) || {
            &&& reply.succeeded()
            &&& world.contains_key(path) && world[path] is Directory
            &&& after == world.remove(path)
        },
        ActionModel::Symlink { source, dest } => refused(world, reply, after) || {
            &&& reply.succeeded()
            &&& !world.contains_key(dest)
            &&& after == world.insert(dest, Node::Symlink(source))
        },
        ActionModel::Finish { result } => false,
    }
}

/// One turn of a driver: the reply it hands back, and the filesystem after it.
pub struct Turn {
    pub reply: ReplyModel,
    pub world: World,
}

/// Whether `after` still holds everything that `before` held, unchanged.
pub open spec fn keeps_all(before: World, after: World) -> bool {
    forall|path: Seq<char>| #[trigger]
        before.contains_key(path) ==> after.contains_key(path) && after[path] == before[path]
}

/// Whether `after` still holds every file and directory of `before`, unchanged.
pub open spec fn keeps_solid(before: World, after: World) -> bool {
    forall|path: Seq<char>| #[trigger]
        is_solid_at(before, path) ==> after.contains_key(path) && after[path] == before[path]
}

/// Whether two filesystems hold the same everywhere but at `path`.
pub open spec fn same_but_at(before: World, after: World, path: Seq<char>) -> bool {
    forall|other: Seq<char>|
        other != path ==> (#[trigger] before.contains_key(other) <==> after.contains_key(other))
            && (before.contains_key(other) ==> after[other] == before[other])
}

} // verus!
