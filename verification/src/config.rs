//! Where the server keeps its data.

use crate::failure::{self, Failure, FailureV};
use crate::text;
use vstd::prelude::*;

verus! {

pub const MAX_UNIX_SOCKET_PATH_BYTES: usize = 103;

/// The paths of the data directory, the browser profile and the broker socket.
#[derive(Debug)]
pub struct Config {
    pub root: String,
    pub profile: String,
    pub socket: String,
}

/// What a [`Config`] holds.
pub struct ConfigV {
    pub root: Seq<char>,
    pub profile: Seq<char>,
    pub socket: Seq<char>,
}

impl View for Config {
    type V = ConfigV;

    open spec fn view(&self) -> ConfigV {
        ConfigV { root: self.root@, profile: self.profile@, socket: self.socket@ }
    }
}

pub open spec fn is_absolute(path: Seq<char>) -> bool {
    text::starts(path, "/"@)
}

/// A segment of a path that names something: neither empty nor the directory itself.
pub open spec fn names(segment: Seq<char>) -> bool {
    segment.len() > 0 && segment != "."@
}

/// The components of an absolute path below its root.
pub open spec fn components_in(segments: Seq<Seq<char>>) -> Seq<Seq<char>>
    decreases segments.len(),
{
    if segments.len() == 0 {
        segments
    } else if names(segments.last()) {
        components_in(segments.drop_last()).push(segments.last())
    } else {
        components_in(segments.drop_last())
    }
}

pub open spec fn components(path: Seq<char>) -> Seq<Seq<char>> {
    components_in(text::split(path, '/'))
}

fn path_components(path: &str) -> (r: Vec<String>)
    ensures
        text::texts(r@) == components(path@),
{
    let segments: Vec<String> = text::split_at_char(path, '/');
    let ghost all = text::texts(segments@);
    let mut out: Vec<String> = Vec::new();
    let mut i: usize = 0;
    assert(all.take(0) =~= Seq::empty());
    assert(text::texts(out@) =~= Seq::empty());
    while i < segments.len()
        invariant
            0 <= i <= segments@.len(),
            all == text::texts(segments@),
            text::texts(out@) == components_in(all.take(i as int)),
        decreases segments@.len() - i,
    {
        assert(all.take(i + 1).drop_last() =~= all.take(i as int));
        assert(all.take(i + 1).last() == segments@[i as int]@);
        if !segments[i].as_str().is_empty() && !text::same(segments[i].as_str(), ".") {
            let owned: String = segments[i].clone();
            proof {
                text::lemma_texts_push(out@, owned);
            }
            out.push(owned);
        }
        i = i + 1;
    }
    assert(all.take(i as int) =~= all);
    out
}

/// A path with one more component.
pub open spec fn joined_path(path: Seq<char>, name: Seq<char>) -> Seq<char> {
    if path.len() == 0 || text::ends(path, "/"@) {
        path + name
    } else {
        path + "/"@ + name
    }
}

fn join_path(path: &str, name: &str) -> (r: String)
    ensures
        r@ == joined_path(path@, name@),
{
    if path.is_empty() || text::ends_with(path, "/") {
        text::joined(path, name)
    } else {
        text::joined3(path, "/", name)
    }
}

/// The failure of a path that must be absolute.
pub open spec fn absolute_problem(path: Seq<char>, name: Seq<char>) -> Option<FailureV> {
    if is_absolute(path) {
        None
    } else {
        Some(FailureV::Message("INVALID_ARGUMENT: "@ + name + " must be absolute"@))
    }
}

/// The failure of a path that must not lead upwards.
pub open spec fn parent_problem(path: Seq<char>, name: Seq<char>) -> Option<FailureV> {
    if components(path).contains(".."@) {
        Some(FailureV::Message("INVALID_ARGUMENT: "@ + name + " must not contain '..'"@))
    } else {
        None
    }
}

/// The first of six failures.
pub open spec fn first_problem(
    a: Option<FailureV>,
    b: Option<FailureV>,
    c: Option<FailureV>,
    d: Option<FailureV>,
    e: Option<FailureV>,
    f: Option<FailureV>,
) -> Option<FailureV> {
    if a is Some {
        a
    } else if b is Some {
        b
    } else if c is Some {
        c
    } else if d is Some {
        d
    } else if e is Some {
        e
    } else {
        f
    }
}

/// What is wrong with three paths, by their text alone.
pub open spec fn spelling_problem(
    root: Seq<char>,
    profile: Seq<char>,
    socket: Seq<char>,
) -> Option<FailureV> {
    first_problem(
        absolute_problem(root, "OZON_DATA_DIR"@),
        absolute_problem(profile, "OZON_USER_DATA_DIR"@),
        absolute_problem(socket, "OZON_BROKER_SOCKET"@),
        parent_problem(root, "OZON_DATA_DIR"@),
        parent_problem(profile, "OZON_USER_DATA_DIR"@),
        parent_problem(socket, "OZON_BROKER_SOCKET"@),
    )
}

/// What is wrong with the place of the socket.
pub open spec fn socket_problem(root: Seq<char>, socket: Seq<char>) -> Option<FailureV> {
    let parts = components(socket);
    if parts.len() == 0 {
        Some(FailureV::Message("INVALID_ARGUMENT: broker socket has no parent"@))
    } else if parts.drop_last() != components(root) {
        Some(
            FailureV::Message(
                "INVALID_ARGUMENT: OZON_BROKER_SOCKET must be directly inside OZON_DATA_DIR"@,
            ),
        )
    } else if text::utf8_len(socket) > MAX_UNIX_SOCKET_PATH_BYTES {
        Some(
            FailureV::Message(
                "INVALID_ARGUMENT: broker socket path is too long; set OZON_DATA_DIR to a shorter private path"@,
            ),
        )
    } else {
        None
    }
}

/// The configuration with these paths.
pub open spec fn configured(root: Seq<char>, profile: Seq<char>, socket: Seq<char>) -> Result<
    ConfigV,
    FailureV,
> {
    match spelling_problem(root, profile, socket) {
        Some(e) => Err(e),
        None => match socket_problem(root, socket) {
            Some(e) => Err(e),
            None => Ok(ConfigV { root, profile, socket }),
        },
    }
}

fn ensure_absolute(path: &str, name: &str) -> (r: Result<(), Failure>)
    ensures
        match absolute_problem(path@, name@) {
            Some(e) => r is Err && r->Err_0@ == e,
            None => r is Ok,
        },
{
    if text::starts_with(path, "/") {
        Ok(())
    } else {
        Err(Failure::Message(text::joined3("INVALID_ARGUMENT: ", name, " must be absolute")))
    }
}

fn ensure_no_parent_components(path: &str, name: &str) -> (r: Result<(), Failure>)
    ensures
        match parent_problem(path@, name@) {
            Some(e) => r is Err && r->Err_0@ == e,
            None => r is Ok,
        },
{
    if text::contains_text(&path_components(path), "..") {
        Err(Failure::Message(text::joined3("INVALID_ARGUMENT: ", name, " must not contain '..'")))
    } else {
        Ok(())
    }
}

/// Holds three paths to the rules that their text decides, before the directories on the
/// way to them are looked at.
pub fn check_spelling(root: &str, profile: &str, socket: &str) -> (r: Result<(), Failure>)
    ensures
        match spelling_problem(root@, profile@, socket@) {
            Some(e) => r is Err && r->Err_0@ == e,
            None => r is Ok,
        },
{
    if let Err(e) = ensure_absolute(root, "OZON_DATA_DIR") {
        return Err(e);
    }
    if let Err(e) = ensure_absolute(profile, "OZON_USER_DATA_DIR") {
        return Err(e);
    }
    if let Err(e) = ensure_absolute(socket, "OZON_BROKER_SOCKET") {
        return Err(e);
    }
    if let Err(e) = ensure_no_parent_components(root, "OZON_DATA_DIR") {
        return Err(e);
    }
    if let Err(e) = ensure_no_parent_components(profile, "OZON_USER_DATA_DIR") {
        return Err(e);
    }
    ensure_no_parent_components(socket, "OZON_BROKER_SOCKET")
}

fn same_texts(a: &Vec<String>, b: &Vec<String>, n: usize) -> (r: bool)
    requires
        n <= a@.len(),
    ensures
        r == (text::texts(a@).take(n as int) == text::texts(b@)),
{
    let ghost x = text::texts(a@);
    let ghost y = text::texts(b@);
    if n != b.len() {
        assert(x.take(n as int).len() != y.len());
        return false;
    }
    let mut i: usize = 0;
    while i < n
        invariant
            0 <= i <= n <= a@.len(),
            n == b@.len(),
            x == text::texts(a@),
            y == text::texts(b@),
            forall|k: int| 0 <= k < i ==> x[k] == y[k],
        decreases n - i,
    {
        assert(x[i as int] == a@[i as int]@ && y[i as int] == b@[i as int]@);
        if !text::same(a[i].as_str(), b[i].as_str()) {
            assert(x.take(n as int)[i as int] != y[i as int]);
            return false;
        }
        i = i + 1;
    }
    assert(x.take(n as int) =~= y);
    true
}

/// Holds the socket to its place: directly in the data directory, under a short path.
pub fn ensure_socket_parent(root: &str, socket: &str) -> (r: Result<(), Failure>)
    ensures
        match socket_problem(root@, socket@) {
            Some(e) => r is Err && r->Err_0@ == e,
            None => r is Ok,
        },
{
    let parts: Vec<String> = path_components(socket);
    assert(text::texts(parts@).len() == parts@.len());
    if parts.len() == 0 {
        return Err(Failure::new("INVALID_ARGUMENT: broker socket has no parent"));
    }
    let above: Vec<String> = path_components(root);
    assert(text::texts(parts@).drop_last() =~= text::texts(parts@).take(parts@.len() - 1));
    if !same_texts(&parts, &above, parts.len() - 1) {
        return Err(
            Failure::new(
                "INVALID_ARGUMENT: OZON_BROKER_SOCKET must be directly inside OZON_DATA_DIR",
            ),
        );
    }
    if text::utf8_length(socket) > MAX_UNIX_SOCKET_PATH_BYTES {
        return Err(
            Failure::new(
                "INVALID_ARGUMENT: broker socket path is too long; set OZON_DATA_DIR to a shorter private path",
            ),
        );
    }
    Ok(())
}

impl Config {
    /// The configuration with the profile and the socket at their fixed places in a data
    /// directory.
    pub fn at(root: String) -> (r: Result<Config, Failure>)
        ensures
            failure::outcome(r) == configured(
                root@,
                joined_path(root@, "browser-profile"@),
                joined_path(root@, "broker.sock"@),
            ),
    {
        let profile: String = join_path(root.as_str(), "browser-profile");
        let socket: String = join_path(root.as_str(), "broker.sock");
        Config::new(root, profile, socket)
    }

    /// The configuration with these paths.
    pub fn new(root: String, profile: String, socket: String) -> (r: Result<Config, Failure>)
        ensures
            failure::outcome(r) == configured(root@, profile@, socket@),
    {
        if let Err(e) = check_spelling(root.as_str(), profile.as_str(), socket.as_str()) {
            return Err(e);
        }
        if let Err(e) = ensure_socket_parent(root.as_str(), socket.as_str()) {
            return Err(e);
        }
        Ok(Config { root, profile, socket })
    }
}

} // verus!
