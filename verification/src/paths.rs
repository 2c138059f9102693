//! Where things are kept. Paths are bytes, as the system has them.
use vstd::prelude::*;
use crate::error::{IdentityError, RelayError};
use crate::frame::protocol_error;
use crate::ident::{hyphenated_text, SessionId};
use crate::text::glue2;

verus! {

/// The byte between the parts of a path.
pub const SLASH: u8 = 47;

/// ASCII text as bytes.
pub open spec fn bytes_of(text: Seq<char>) -> Seq<u8> {
    text.map_values(|c: char| c as u8)
}

/// A path behind a directory.
pub open spec fn behind(directory: Seq<u8>, path: Seq<u8>) -> Seq<u8> {
    if directory.len() == 0 || directory.last() == SLASH {
        directory + path
    } else {
        directory.push(SLASH) + path
    }
}

/// A path that starts at the root.
pub open spec fn is_absolute(path: Seq<u8>) -> bool {
    path.len() > 0 && path[0] == SLASH
}

/// An optional path's bytes.
pub open spec fn opt_bytes(path: Option<&Vec<u8>>) -> Option<Seq<u8>> {
    match path {
        Some(path) => Some(path@),
        None => None,
    }
}

fn join(directory: &Vec<u8>, path: &str) -> (r: Vec<u8>)
    ensures
        r@ == behind(directory@, bytes_of(path@)),
{
    let mut out = copy(directory);
    if out.len() > 0 && out[out.len() - 1] != SLASH {
        out.push(SLASH);
    }
    let ghost head = out@;
    let chars = crate::text::characters(path);
    let mut k: usize = 0;
    assert(out@ =~= head + bytes_of(path@.take(0)));
    while k < chars.len()
        invariant
            k <= chars@.len(),
            chars@ == path@,
            out@ == head + bytes_of(path@.take(k as int)),
        decreases chars@.len() - k,
    {
        out.push(chars[k] as u8);
        k += 1;
        assert(out@ =~= head + bytes_of(path@.take(k as int)));
    }
    assert(path@.take(k as int) =~= path@);
    out
}

fn copy(path: &Vec<u8>) -> (r: Vec<u8>)
    ensures
        r@ == path@,
{
    let mut out: Vec<u8> = Vec::new();
    let mut i: usize = 0;
    while i < path.len()
        invariant
            i <= path@.len(),
            out@ == path@.take(i as int),
        decreases path@.len() - i,
    {
        out.push(path[i]);
        i += 1;
        assert(out@ =~= path@.take(i as int));
    }
    assert(out@ =~= path@);
    out
}

fn rooted(path: &Vec<u8>) -> (r: bool)
    ensures
        r == is_absolute(path@),
{
    path.len() > 0 && path[0] == SLASH
}

/// Codex's directory by what the environment names: its own, or else one in the user's, which may
/// be unknown.
pub open spec fn codex_directory(named: Option<Seq<u8>>, home: Option<Seq<u8>>) -> Seq<u8> {
    match named {
        Some(path) => path,
        None => match home {
            Some(home) => behind(home, bytes_of(".codex"@)),
            None => bytes_of(".codex"@),
        },
    }
}

/// Codex's directory.
pub fn codex_home(named: Option<&Vec<u8>>, home: Option<&Vec<u8>>) -> (r: Vec<u8>)
    ensures
        r@ == codex_directory(opt_bytes(named), opt_bytes(home)),
{
    match named {
        Some(path) => copy(path),
        None => match home {
            Some(home) => join(home, ".codex"),
            None => {
                let nowhere: Vec<u8> = Vec::new();
                let r = join(&nowhere, ".codex");
                assert(r@ =~= bytes_of(".codex"@));
                r
            },
        },
    }
}

/// The control socket of the shared app server.
pub open spec fn control_place(named: Option<Seq<u8>>, home: Option<Seq<u8>>) -> Seq<u8> {
    behind(
        codex_directory(named, home),
        bytes_of("app-server-control/app-server-control.sock"@),
    )
}

/// The control socket of the shared app server.
pub fn control_socket(named: Option<&Vec<u8>>, home: Option<&Vec<u8>>) -> (r: Vec<u8>)
    ensures
        r@ == control_place(opt_bytes(named), opt_bytes(home)),
{
    join(&codex_home(named, home), "app-server-control/app-server-control.sock")
}

/// The index of thread names.
pub open spec fn index_place(named: Option<Seq<u8>>, home: Option<Seq<u8>>) -> Seq<u8> {
    behind(
        match (named, home) {
            (Some(path), _) => path,
            (None, Some(home)) => behind(home, bytes_of(".codex"@)),
            (None, None) => Seq::empty(),
        },
        bytes_of("session_index.jsonl"@),
    )
}

/// The index of thread names. Without any directory it is sought where the process runs.
pub fn session_index(named: Option<&Vec<u8>>, home: Option<&Vec<u8>>) -> (r: Vec<u8>)
    ensures
        r@ == index_place(opt_bytes(named), opt_bytes(home)),
{
    let directory = match (named, home) {
        (Some(path), _) => copy(path),
        (None, Some(home)) => join(home, ".codex"),
        (None, None) => Vec::new(),
    };
    join(&directory, "session_index.jsonl")
}

/// A path from the environment that counts: one that starts at the root.
pub open spec fn counted(path: Option<Seq<u8>>) -> Option<Seq<u8>> {
    match path {
        Some(path) => if is_absolute(path) {
            Some(path)
        } else {
            None
        },
        None => None,
    }
}

/// Codex's configuration file, where the environment tells where that is.
pub open spec fn config_place(named: Option<Seq<u8>>, home: Option<Seq<u8>>) -> Option<Seq<u8>> {
    match (counted(named), counted(home)) {
        (Some(path), _) => Some(behind(path, bytes_of("config.toml"@))),
        (None, Some(home)) => Some(
            behind(behind(home, bytes_of(".codex"@)), bytes_of("config.toml"@)),
        ),
        (None, None) => None,
    }
}

/// Codex's configuration file, where the environment tells where that is.
pub fn codex_config(named: Option<&Vec<u8>>, home: Option<&Vec<u8>>) -> (r: Option<Vec<u8>>)
    ensures
        (match r {
            Some(path) => Some(path@),
            None => None,
        }) == config_place(opt_bytes(named), opt_bytes(home)),
{
    if let Some(path) = named {
        if rooted(path) {
            return Some(join(path, "config.toml"));
        }
    }
    if let Some(home) = home {
        if rooted(home) {
            return Some(join(&join(home, ".codex"), "config.toml"));
        }
    }
    None
}

/// Where updates of one identity wait for each other: a directory, and a file in it.
#[derive(Debug, PartialEq, Eq)]
pub struct LockPath {
    pub directory: Vec<u8>,
    pub file: Vec<u8>,
}

/// Where updates of a session's identity wait for each other.
pub open spec fn locks(
    named: Option<Seq<u8>>,
    home: Option<Seq<u8>>,
    session: SessionId,
    r: Result<LockPath, IdentityError>,
) -> bool {
    ({
        let base = codex_directory(named, home);
        if is_absolute(base) {
            &&& r is Ok
            &&& r->Ok_0.directory@ == behind(base, bytes_of("tmp/wire/identity"@))
            &&& r->Ok_0.file@ == behind(
                r->Ok_0.directory@,
                bytes_of(hyphenated_text(session.value) + ".lock"@),
            )
        } else {
            r == Err::<LockPath, IdentityError>(IdentityError::Runtime)
        }
    })
}

/// Where updates of a session's identity wait for each other.
pub fn lock_path(named: Option<&Vec<u8>>, home: Option<&Vec<u8>>, session: SessionId) -> (r: Result<
    LockPath,
    IdentityError,
>)
    ensures
        locks(opt_bytes(named), opt_bytes(home), session, r),
{
    let base = codex_home(named, home);
    if !rooted(&base) {
        return Err(IdentityError::Runtime);
    }
    let directory = join(&base, "tmp/wire/identity");
    let name = glue2(session.text().as_str(), ".lock");
    let file = join(&directory, name.as_str());
    Ok(LockPath { directory, file })
}

/// Where the turns are recorded that were started in one session: a directory, and a file in it.
#[derive(Debug, PartialEq, Eq)]
pub struct RecordPath {
    pub directory: Vec<u8>,
    pub file: Vec<u8>,
}

/// Where the turns are recorded that were started in a session for peers and by handoffs.
pub fn record_path(named: Option<&Vec<u8>>, home: Option<&Vec<u8>>, session: SessionId) -> (r:
    RecordPath)
    ensures
        r.directory@ == behind(
            codex_directory(opt_bytes(named), opt_bytes(home)),
            bytes_of("tmp/wire/turns"@),
        ),
        r.file@ == behind(r.directory@, bytes_of(hyphenated_text(session.value))),
{
    let base = codex_home(named, home);
    let directory = join(&base, "tmp/wire/turns");
    let file = join(&directory, session.text().as_str());
    RecordPath { directory, file }
}

/// Where the relay listens.
pub open spec fn listens_at(
    relay_socket: Option<Seq<u8>>,
    runtime_dir: Option<Seq<u8>>,
    r: Result<Vec<u8>, RelayError>,
) -> bool {
    match (relay_socket, runtime_dir) {
        (Some(path), _) => r is Ok && r->Ok_0@ == path,
        (None, Some(directory)) => r is Ok && r->Ok_0@ == behind(
            directory,
            bytes_of("wire/relay.sock"@),
        ),
        (None, None) => protocol_error(
            r,
            "XDG_RUNTIME_DIR or WIRE_RELAY_SOCKET is required"@,
        ),
    }
}

/// Where the relay listens.
pub fn socket_path(relay_socket: Option<&Vec<u8>>, runtime_dir: Option<&Vec<u8>>) -> (r: Result<
    Vec<u8>,
    RelayError,
>)
    ensures
        listens_at(opt_bytes(relay_socket), opt_bytes(runtime_dir), r),
{
    match (relay_socket, runtime_dir) {
        (Some(path), _) => Ok(copy(path)),
        (None, Some(directory)) => Ok(join(directory, "wire/relay.sock")),
        (None, None) => Err(
            RelayError::Protocol("XDG_RUNTIME_DIR or WIRE_RELAY_SOCKET is required".to_owned()),
        ),
    }
}

proof fn lemma_apart(directory: Seq<u8>, left: SessionId, right: SessionId, tail: Seq<char>)
    ensures
        behind(directory, bytes_of(hyphenated_text(left.value) + tail)) == behind(
            directory,
            bytes_of(hyphenated_text(right.value) + tail),
        ) ==> left == right,
{
    let a = hyphenated_text(left.value);
    let b = hyphenated_text(right.value);
    let one = behind(directory, bytes_of(a + tail));
    let two = behind(directory, bytes_of(b + tail));
    if one == two {
        crate::ident::lemma_compact_text(left.value);
        crate::ident::lemma_compact_text(right.value);
        crate::ident::lemma_ascii(left.value);
        crate::ident::lemma_ascii(right.value);
        let head = behind(directory, Seq::<u8>::empty());
        assert(one =~= head + bytes_of(a + tail));
        assert(two =~= head + bytes_of(b + tail));
        assert(a.len() == 36 && b.len() == 36);
        assert forall|i: int| 0 <= i < 36 implies a[i] == b[i] by {
            assert((a + tail)[i] == a[i] && (b + tail)[i] == b[i]);
            assert('-' <= a[i] <= 'f' && '-' <= b[i] <= 'f');
            assert(one[head.len() + i] == a[i] as u8);
            assert(two[head.len() + i] == b[i] as u8);
        }
        assert(a =~= b);
        crate::ident::law_session_id_texts_differ(left, right);
    }
}

/// Different sessions wait at different files.
pub proof fn law_locks_are_apart(directory: Seq<u8>, left: SessionId, right: SessionId)
    ensures
        behind(directory, bytes_of(hyphenated_text(left.value) + ".lock"@)) == behind(
            directory,
            bytes_of(hyphenated_text(right.value) + ".lock"@),
        ) ==> left == right,
{
    lemma_apart(directory, left, right, ".lock"@);
}

/// The turns of different sessions are recorded in different files.
pub proof fn law_records_are_apart(directory: Seq<u8>, left: SessionId, right: SessionId)
    ensures
        behind(directory, bytes_of(hyphenated_text(left.value))) == behind(
            directory,
            bytes_of(hyphenated_text(right.value)),
        ) ==> left == right,
{
    assert(hyphenated_text(left.value) + Seq::empty() =~= hyphenated_text(left.value));
    assert(hyphenated_text(right.value) + Seq::empty() =~= hyphenated_text(right.value));
    lemma_apart(directory, left, right, Seq::empty());
}

/// A path behind a directory is the directory, one slash and the path; the slash may be there already.
pub proof fn law_paths_behind(directory: Seq<u8>, path: Seq<u8>)
    ensures
        directory.len() > 0 && directory.last() != 47 ==> behind(directory, path) == directory + seq![
            47u8,
        ] + path,
        behind(directory.push(47), path) == directory + seq![47u8] + path,
        behind(Seq::empty(), path) == path,
        is_absolute(path) <==> path.len() > 0 && path[0] == 47,
{
    assert(directory.push(47) + path =~= directory + seq![47u8] + path);
    assert(Seq::<u8>::empty() + path =~= path);
}

/// What the environment names counts before what lies in the user's directory: Codex's directory, its
/// socket, its index and its configuration; the last only where it starts at the root.
pub proof fn law_where_codex_lives(named: Seq<u8>, home: Seq<u8>, other: Option<Seq<u8>>)
    ensures
        codex_directory(Some(named), other) == named,
        codex_directory(None, Some(home)) == behind(home, bytes_of(".codex"@)),
        control_place(Some(named), other) == behind(
            named,
            bytes_of("app-server-control/app-server-control.sock"@),
        ),
        index_place(Some(named), other) == behind(named, bytes_of("session_index.jsonl"@)),
        index_place(None, Some(home)) == behind(
            codex_directory(None, Some(home)),
            bytes_of("session_index.jsonl"@),
        ),
        is_absolute(named) ==> config_place(Some(named), other) == Some(
            behind(named, bytes_of("config.toml"@)),
        ),
        !is_absolute(named) && is_absolute(home) ==> config_place(Some(named), Some(home)) == Some(
            behind(codex_directory(None, Some(home)), bytes_of("config.toml"@)),
        ),
        !is_absolute(named) && !is_absolute(home) ==> config_place(Some(named), Some(home)) is None,
{
}

/// The relay listens where it is told to, or else in the runtime directory, and nowhere without
/// either; identities are locked under Codex's directory, which must start at the root, each session
/// by a file of its own.
pub proof fn law_where_wire_works(
    socket: Seq<u8>,
    runtime: Seq<u8>,
    named: Seq<u8>,
    session: SessionId,
    told: Result<Vec<u8>, RelayError>,
    found: Result<Vec<u8>, RelayError>,
    lost: Result<Vec<u8>, RelayError>,
    lock: Result<LockPath, IdentityError>,
)
    requires
        listens_at(Some(socket), Some(runtime), told),
        listens_at(None, Some(runtime), found),
        listens_at(None, None, lost),
        locks(Some(named), None, session, lock),
    ensures
        told is Ok && told->Ok_0@ == socket,
        found is Ok && found->Ok_0@ == behind(runtime, bytes_of("wire/relay.sock"@)),
        lost is Err,
        named.len() > 0 && named[0] == 47 ==> lock is Ok && lock->Ok_0.file@ == behind(
            behind(named, bytes_of("tmp/wire/identity"@)),
            bytes_of(hyphenated_text(session.value) + ".lock"@),
        ),
        !(named.len() > 0 && named[0] == 47) ==> lock is Err,
{
}

} // verus!
