//! What may be done with a file, by what the file system says of it.

use crate::failure::{Failure, FailureV};
use crate::text;
use vstd::prelude::*;

verus! {

/// What the file system says of a path, its last link not followed.
#[derive(Clone, Copy, Debug, PartialEq, Eq, Structural)]
pub struct FileFacts {
    pub symlink: bool,
    pub file: bool,
    pub directory: bool,
    pub socket: bool,
    pub uid: u32,
    pub mode: u32,
    pub size: u64,
    pub device: u64,
    pub inode: u64,
}

impl FileFacts {
    /// The permission bits: three for the owner, three for the group, three for all others.
    pub open spec fn permissions(self) -> int {
        self.mode as int % 512
    }

    /// Whether the group or others may write.
    pub open spec fn shared(self) -> bool {
        self.mode as int / 16 % 2 == 1 || self.mode as int / 2 % 2 == 1
    }

    pub fn has_permissions(&self, bits: u32) -> (r: bool)
        ensures
            r == (self.permissions() == bits),
    {
        self.mode % 512 == bits
    }

    pub fn is_shared(&self) -> (r: bool)
        ensures
            r == self.shared(),
    {
        self.mode / 16 % 2 == 1 || self.mode / 2 % 2 == 1
    }

    /// Whether two paths lead to the same file.
    pub open spec fn is_same(self, other: FileFacts) -> bool {
        self.device == other.device && self.inode == other.inode
    }

    pub fn same(&self, other: &FileFacts) -> (r: bool)
        ensures
            r == self.is_same(*other),
    {
        self.device == other.device && self.inode == other.inode
    }
}

/// Read and write for the owner alone.
pub const PRIVATE_FILE: u32 = 384;

/// Read, write and enter for the owner alone.
pub const PRIVATE_DIRECTORY: u32 = 448;

pub open spec fn refusal(r: Result<(), Failure>) -> Option<FailureV> {
    match r {
        Ok(_) => None,
        Err(e) => Some(e@),
    }
}

pub open spec fn message(s: Option<Seq<char>>) -> Option<FailureV> {
    match s {
        Some(m) => Some(FailureV::Message(m)),
        None => None,
    }
}

/// `ensure`: nothing where a condition holds, else a failure.
fn ensure(holds: bool, detail: &str) -> (r: Result<(), Failure>)
    ensures
        refusal(r) == if holds {
            None
        } else {
            Some(FailureV::Message(detail@))
        },
{
    if holds {
        Ok(())
    } else {
        Err(Failure::new(detail))
    }
}

/// Why a path that belongs to another user is refused.
pub open spec fn owner_problem(f: FileFacts, owner: u32, label: Seq<char>) -> Option<FailureV> {
    if f.uid == owner {
        None
    } else {
        Some(
            FailureV::Message(
                "INVALID_ARGUMENT: "@ + (label + " is owned by another OS user"@),
            ),
        )
    }
}

pub fn validate_owner(f: &FileFacts, owner: u32, label: &str) -> (r: Result<(), Failure>)
    ensures
        refusal(r) == owner_problem(*f, owner, label@),
{
    if f.uid == owner {
        Ok(())
    } else {
        let tail: String = text::joined(label, " is owned by another OS user");
        Err(Failure::Message(text::joined("INVALID_ARGUMENT: ", tail.as_str())))
    }
}

/// Why a component of a path is refused: it is a link, unless the system's owner made it and
/// it is not the last one.
pub open spec fn component_problem(f: FileFacts, last: bool, label: Seq<char>) -> Option<FailureV> {
    if !f.symlink || (f.uid == 0 && !last) {
        None
    } else {
        Some(
            FailureV::Message(
                "INVALID_ARGUMENT: "@ + (label + " path contains a symbolic link"@),
            ),
        )
    }
}

pub fn check_component(f: &FileFacts, last: bool, label: &str) -> (r: Result<(), Failure>)
    ensures
        refusal(r) == component_problem(*f, last, label@),
{
    if !f.symlink || (f.uid == 0 && !last) {
        Ok(())
    } else {
        let tail: String = text::joined(label, " path contains a symbolic link");
        Err(Failure::Message(text::joined("INVALID_ARGUMENT: ", tail.as_str())))
    }
}

/// Why an existing path is refused: it is a link, or another user's.
pub open spec fn existing_problem(f: FileFacts, owner: u32, label: Seq<char>) -> Option<FailureV> {
    if f.symlink {
        Some(
            FailureV::Message(
                "INVALID_ARGUMENT: "@ + (label + " path must not be a symbolic link"@),
            ),
        )
    } else {
        owner_problem(f, owner, label)
    }
}

pub fn check_existing(f: &FileFacts, owner: u32, label: &str) -> (r: Result<(), Failure>)
    ensures
        refusal(r) == existing_problem(*f, owner, label@),
{
    if f.symlink {
        let tail: String = text::joined(label, " path must not be a symbolic link");
        return Err(Failure::Message(text::joined("INVALID_ARGUMENT: ", tail.as_str())));
    }
    validate_owner(f, owner, label)
}

/// Why an existing data directory is refused.
pub open spec fn root_problem(f: FileFacts, owner: u32) -> Option<FailureV> {
    if f.symlink {
        Some(
            FailureV::Message("INVALID_ARGUMENT: data directory must not be a symbolic link"@),
        )
    } else if !f.directory {
        Some(FailureV::Message("INVALID_ARGUMENT: data directory is not a directory"@))
    } else if owner_problem(f, owner, "data directory"@) is Some {
        owner_problem(f, owner, "data directory"@)
    } else if f.permissions() != PRIVATE_DIRECTORY {
        Some(
            FailureV::Message(
                "INVALID_ARGUMENT: data directory must have owner-only permissions (0700)"@,
            ),
        )
    } else {
        None
    }
}

pub fn check_root(f: &FileFacts, owner: u32) -> (r: Result<(), Failure>)
    ensures
        refusal(r) == root_problem(*f, owner),
{
    if f.symlink {
        return Err(
            Failure::new("INVALID_ARGUMENT: data directory must not be a symbolic link"),
        );
    }
    if !f.directory {
        return Err(Failure::new("INVALID_ARGUMENT: data directory is not a directory"));
    }
    match validate_owner(f, owner, "data directory") {
        Ok(_) => {},
        Err(e) => {
            return Err(e);
        },
    }
    ensure(
        f.has_permissions(PRIVATE_DIRECTORY),
        "INVALID_ARGUMENT: data directory must have owner-only permissions (0700)",
    )
}

/// Why a directory above a new data directory is refused.
pub open spec fn ancestor_problem(f: FileFacts, owner: u32) -> Option<FailureV> {
    if f.symlink {
        Some(
            FailureV::Message(
                "INVALID_ARGUMENT: data directory ancestor must not be a symbolic link"@,
            ),
        )
    } else if !f.directory {
        Some(FailureV::Message("INVALID_ARGUMENT: data directory ancestor is not a directory"@))
    } else {
        owner_problem(f, owner, "data directory ancestor"@)
    }
}

pub fn check_ancestor(f: &FileFacts, owner: u32) -> (r: Result<(), Failure>)
    ensures
        refusal(r) == ancestor_problem(*f, owner),
{
    if f.symlink {
        return Err(
            Failure::new(
                "INVALID_ARGUMENT: data directory ancestor must not be a symbolic link",
            ),
        );
    }
    if !f.directory {
        return Err(Failure::new("INVALID_ARGUMENT: data directory ancestor is not a directory"));
    }
    validate_owner(f, owner, "data directory ancestor")
}

/// Why a directory that was just made is refused.
pub open spec fn created_problem(f: FileFacts, owner: u32) -> Option<FailureV> {
    if f.symlink || !f.directory {
        Some(
            FailureV::Message("INVALID_ARGUMENT: data directory path changed during creation"@),
        )
    } else {
        owner_problem(f, owner, "data directory"@)
    }
}

pub fn check_created(f: &FileFacts, owner: u32) -> (r: Result<(), Failure>)
    ensures
        refusal(r) == created_problem(*f, owner),
{
    if f.symlink || !f.directory {
        return Err(
            Failure::new("INVALID_ARGUMENT: data directory path changed during creation"),
        );
    }
    validate_owner(f, owner, "data directory")
}

/// Why a browser directory that exists is refused.
pub open spec fn browser_directory_problem(f: FileFacts, user: u32) -> Option<Seq<char>> {
    if f.symlink || !f.directory {
        Some("profile path must be a real directory"@)
    } else if f.uid != user || f.permissions() != PRIVATE_DIRECTORY {
        Some("profile directory must be owner-only (0700)"@)
    } else {
        None
    }
}

pub fn check_browser_directory(f: &FileFacts, user: u32) -> (r: Result<(), Failure>)
    ensures
        refusal(r) == message(browser_directory_problem(*f, user)),
{
    if f.symlink || !f.directory {
        return Err(Failure::new("profile path must be a real directory"));
    }
    ensure(
        f.uid == user && f.has_permissions(PRIVATE_DIRECTORY),
        "profile directory must be owner-only (0700)",
    )
}

/// Why no browser directory is made in a directory.
pub open spec fn browser_parent_problem(f: FileFacts, user: u32) -> Option<Seq<char>> {
    if f.symlink || !f.directory {
        Some("profile parent must be a real directory"@)
    } else if f.uid != user || f.shared() {
        Some("profile parent must be owned by this OS user and not group/world writable"@)
    } else {
        None
    }
}

pub fn check_browser_parent(f: &FileFacts, user: u32) -> (r: Result<(), Failure>)
    ensures
        refusal(r) == message(browser_parent_problem(*f, user)),
{
    if f.symlink || !f.directory {
        return Err(Failure::new("profile parent must be a real directory"));
    }
    ensure(
        f.uid == user && !f.is_shared(),
        "profile parent must be owned by this OS user and not group/world writable",
    )
}

/// Whether a profile directory is still the one that was found, and private.
pub open spec fn leased(before: FileFacts, after: FileFacts, user: u32) -> bool {
    before.is_same(after) && after.uid == user && after.permissions() == PRIVATE_DIRECTORY
}

pub fn check_lease(before: &FileFacts, after: &FileFacts, user: u32) -> (r: Result<(), Failure>)
    ensures
        refusal(r) == (if leased(*before, *after, user) {
            None
        } else {
            Some(
                FailureV::Message(
                    "SOURCE_CHANGED: Ozon profile directory changed during acquisition"@,
                ),
            )
        }),
{
    ensure(
        before.same(after) && after.uid == user && after.has_permissions(PRIVATE_DIRECTORY),
        "SOURCE_CHANGED: Ozon profile directory changed during acquisition",
    )
}

/// Whether an opened file is the private one that its path leads to.
pub open spec fn is_private_file(opened: FileFacts, path: FileFacts, user: u32) -> bool {
    opened.uid == user && opened.is_same(path) && opened.permissions() == PRIVATE_FILE
}

/// Refuses a configuration file that is not the owner's alone.
pub fn check_runtime_config(opened: &FileFacts, path: &FileFacts, user: u32) -> (r: Result<
    (),
    Failure,
>)
    ensures
        refusal(r) == (if is_private_file(*opened, *path, user) {
            None
        } else {
            Some(
                FailureV::Message(
                    "INVALID_ARGUMENT: browser runtime config must be owner-only (0600)"@,
                ),
            )
        }),
{
    ensure(
        opened.uid == user && opened.same(path) && opened.has_permissions(PRIVATE_FILE),
        "INVALID_ARGUMENT: browser runtime config must be owner-only (0600)",
    )
}

/// Refuses a profile lock that is not the owner's alone.
pub fn check_profile_lock(opened: &FileFacts, path: &FileFacts, user: u32) -> (r: Result<
    (),
    Failure,
>)
    ensures
        refusal(r) == (if is_private_file(*opened, *path, user) {
            None
        } else {
            Some(FailureV::Message("profile lock must be owner-only (0600)"@))
        }),
{
    ensure(
        opened.uid == user && opened.same(path) && opened.has_permissions(PRIVATE_FILE),
        "profile lock must be owner-only (0600)",
    )
}

/// Why a lock of the broker is refused once it is open.
pub open spec fn broker_lock_problem(
    opened: FileFacts,
    path: FileFacts,
    parent: FileFacts,
) -> Option<Seq<char>> {
    if opened.uid != path.uid || opened.uid != parent.uid || !opened.is_same(path) {
        Some("INVALID_ARGUMENT: broker lock path changed during open"@)
    } else if opened.permissions() != PRIVATE_FILE {
        Some("INVALID_ARGUMENT: broker lock permissions must be 0600"@)
    } else {
        None
    }
}

pub fn check_broker_lock(opened: &FileFacts, path: &FileFacts, parent: &FileFacts) -> (r: Result<
    (),
    Failure,
>)
    ensures
        refusal(r) == message(broker_lock_problem(*opened, *path, *parent)),
{
    if opened.uid != path.uid || opened.uid != parent.uid || !opened.same(path) {
        return Err(Failure::new("INVALID_ARGUMENT: broker lock path changed during open"));
    }
    ensure(
        opened.has_permissions(PRIVATE_FILE),
        "INVALID_ARGUMENT: broker lock permissions must be 0600",
    )
}

/// Why the path of a broker's socket is refused.
pub open spec fn socket_path_problem(f: FileFacts, owner: u32) -> Option<Seq<char>> {
    if f.symlink {
        Some("INVALID_ARGUMENT: broker socket must not be a symbolic link"@)
    } else if !f.socket {
        Some("INVALID_ARGUMENT: broker path is not a Unix socket"@)
    } else if f.uid != owner {
        Some("INVALID_ARGUMENT: broker socket is owned by another OS user"@)
    } else {
        None
    }
}

/// Refuses a stale path that may not be taken for a broker's socket.
pub fn check_socket_path(f: &FileFacts, owner: u32) -> (r: Result<(), Failure>)
    ensures
        refusal(r) == message(socket_path_problem(*f, owner)),
{
    if f.symlink {
        return Err(Failure::new("INVALID_ARGUMENT: broker socket must not be a symbolic link"));
    }
    if !f.socket {
        return Err(Failure::new("INVALID_ARGUMENT: broker path is not a Unix socket"));
    }
    ensure(f.uid == owner, "INVALID_ARGUMENT: broker socket is owned by another OS user")
}

/// Why a broker's socket is not connected to.
pub open spec fn socket_problem(f: FileFacts, owner: u32) -> Option<Seq<char>> {
    if socket_path_problem(f, owner) is Some {
        socket_path_problem(f, owner)
    } else if f.permissions() != PRIVATE_FILE {
        Some("INVALID_ARGUMENT: broker socket permissions must be 0600"@)
    } else {
        None
    }
}

/// Refuses a socket that is not the owner's alone.
pub fn validate_socket(f: &FileFacts, owner: u32) -> (r: Result<(), Failure>)
    ensures
        refusal(r) == message(socket_problem(*f, owner)),
{
    match check_socket_path(f, owner) {
        Ok(_) => ensure(
            f.has_permissions(PRIVATE_FILE),
            "INVALID_ARGUMENT: broker socket permissions must be 0600",
        ),
        Err(e) => Err(e),
    }
}

/// Refuses to remove what is no longer the broker's own socket.
pub fn check_removal(f: &FileFacts, owner: u32) -> (r: Result<(), Failure>)
    ensures
        refusal(r) == (if f.socket && f.uid == owner {
            None
        } else {
            Some(
                FailureV::Message("SOURCE_CHANGED: broker socket path changed during shutdown"@),
            )
        }),
{
    ensure(
        f.socket && f.uid == owner,
        "SOURCE_CHANGED: broker socket path changed during shutdown",
    )
}

/// Refuses a peer that is another user.
pub fn verify_peer(uid: u32, expected: u32) -> (r: Result<(), Failure>)
    ensures
        refusal(r) == (if uid == expected {
            None
        } else {
            Some(
                FailureV::Message("INVALID_ARGUMENT: broker peer belongs to another OS user"@),
            )
        }),
{
    ensure(uid == expected, "INVALID_ARGUMENT: broker peer belongs to another OS user")
}

/// Whether the directory of the running browser is the user's alone.
pub fn is_private_runtime(f: &FileFacts, user: u32) -> (r: bool)
    ensures
        r == (!f.symlink && f.directory && f.uid == user && f.permissions() == PRIVATE_DIRECTORY),
{
    !f.symlink && f.directory && f.uid == user && f.has_permissions(PRIVATE_DIRECTORY)
}

/// Whether a small file of the driver may be read: one that only the user writes.
pub fn is_driver_file(f: &FileFacts, user: u32, limit: u64) -> (r: bool)
    ensures
        r == (!f.symlink && f.file && f.uid == user && !f.shared() && f.size <= limit),
{
    !f.symlink && f.file && f.uid == user && !f.is_shared() && f.size <= limit
}

/// Whether a socket of the driver may be connected to: one that only the user writes to.
pub fn is_driver_socket(f: &FileFacts, user: u32) -> (r: bool)
    ensures
        r == (!f.symlink && f.socket && f.uid == user && !f.shared()),
{
    !f.symlink && f.socket && f.uid == user && !f.is_shared()
}

/// A data directory that is taken, and a socket that is connected to, are the owner's alone:
/// no one else may write to them.
pub proof fn private_paths_are_not_shared(f: FileFacts, owner: u32)
    requires
        root_problem(f, owner) is None || socket_problem(f, owner) is None,
    ensures
        f.uid == owner,
        !f.symlink,
        !f.shared(),
{
    assert(f.mode as int % 512 == 448 || f.mode as int % 512 == 384);
    assert(f.mode as int / 16 % 2 == f.mode as int % 512 / 16 % 2);
    assert(f.mode as int / 2 % 2 == f.mode as int % 512 / 2 % 2);
}

} // verus!
