//! The game lifecycle: whether a download is owed, what an install records,
//! how a launch is started and judged, and which capabilities a package may
//! ask for.
use vstd::prelude::*;

use crate::schema::DevcadeGame;
use crate::text::{ends_with, has_suffix, join3, owned};

verus! {

/// The hash of a game, as a character sequence.
pub open spec fn hash_view(h: Option<String>) -> Option<Seq<char>> {
    match h {
        Some(s) => Some(s@),
        None => None,
    }
}

/// What a download has to do.
#[derive(Debug, Clone, PartialEq, Eq)]
pub enum DownloadPlan {
    /// The installed copy is current: nothing is fetched or installed.
    UpToDate(DevcadeGame),
    /// The artifact of this game must be fetched and installed.
    Fetch(DevcadeGame),
    /// The catalog cannot be reached and no copy is installed.
    Unavailable,
}

/// The download decision, from the catalog's record (if the catalog answered)
/// and the record of the installed copy (if there is one).
pub open spec fn download_decision(remote: Option<DevcadeGame>, local: Option<DevcadeGame>) -> DownloadPlan {
    match (remote, local) {
        (Some(g), Some(l)) => if hash_view(l.hash) == hash_view(g.hash) {
            DownloadPlan::UpToDate(l)
        } else {
            DownloadPlan::Fetch(g)
        },
        (Some(g), None) => DownloadPlan::Fetch(g),
        (None, Some(l)) => DownloadPlan::UpToDate(l),
        (None, None) => DownloadPlan::Unavailable,
    }
}

/// Whether two hashes are equal.
fn same_hash(a: &Option<String>, b: &Option<String>) -> (r: bool)
    ensures
        r == (hash_view(*a) == hash_view(*b)),
{
    match (a, b) {
        (Some(x), Some(y)) => *x == *y,
        (None, None) => true,
        _ => false,
    }
}

/// Decides a download: an installed copy whose hash equals the catalog's is
/// kept; without the catalog, the installed copy stands in for it.
pub fn plan_download(remote: Option<DevcadeGame>, local: Option<DevcadeGame>) -> (r: DownloadPlan)
    ensures
        r == download_decision(remote, local),
{
    match (remote, local) {
        (Some(g), Some(l)) => {
            if same_hash(&l.hash, &g.hash) {
                DownloadPlan::UpToDate(l)
            } else {
                DownloadPlan::Fetch(g)
            }
        },
        (Some(g), None) => DownloadPlan::Fetch(g),
        (None, Some(l)) => DownloadPlan::UpToDate(l),
        (None, None) => DownloadPlan::Unavailable,
    }
}

/// The record of a game once installed under `app_id`.
pub open spec fn installed(game: DevcadeGame, app_id: String) -> DevcadeGame {
    DevcadeGame { flatpak_app_id: Some(app_id), ..game }
}

/// Records the install reference that the installer returned.
pub fn record_install(game: DevcadeGame, app_id: String) -> (r: DevcadeGame)
    ensures
        r == installed(game, app_id),
{
    DevcadeGame { flatpak_app_id: Some(app_id), ..game }
}

/// Download idempotence: a game that is not installed, or whose installed copy
/// has another hash, is fetched; once its install is recorded, a second
/// download with the same remote hash (or with the catalog unreachable) keeps
/// that record and fetches nothing.
pub proof fn lemma_download_idempotent(
    remote: DevcadeGame,
    local: Option<DevcadeGame>,
    app_id: String,
    remote_again: DevcadeGame,
)
    requires
        local matches Some(l) ==> hash_view(l.hash) != hash_view(remote.hash),
        hash_view(remote_again.hash) == hash_view(remote.hash),
    ensures
        download_decision(Some(remote), local) == DownloadPlan::Fetch(remote),
        download_decision(Some(remote_again), Some(installed(remote, app_id)))
            == DownloadPlan::UpToDate(installed(remote, app_id)),
        download_decision(None, Some(installed(remote, app_id))) == DownloadPlan::UpToDate(
            installed(remote, app_id),
        ),
{
}

/// A failed launch.
#[derive(Debug, Clone, Copy, PartialEq, Eq, Structural)]
pub enum LaunchError {
    /// The game has no install reference to start.
    NotInstalled,
    /// The game's process ended within the guard window.
    ExitedImmediately,
}

/// The message of a launch failure.
pub open spec fn launch_error_text(e: LaunchError) -> Seq<char> {
    match e {
        LaunchError::NotInstalled => "game is not installed"@,
        LaunchError::ExitedImmediately => "game launched but exited immediately"@,
    }
}

impl LaunchError {
    /// A human-readable cause.
    pub fn message(&self) -> (r: String)
        ensures
            r@ == launch_error_text(*self),
    {
        match self {
            LaunchError::NotInstalled => owned("game is not installed"),
            LaunchError::ExitedImmediately => owned("game launched but exited immediately"),
        }
    }
}

/// How long a launched game must keep running, in milliseconds, before the
/// launch counts as a success.
pub const LAUNCH_GUARD_MS: u64 = 200;

/// The process that starts an installed game.
pub struct LaunchCommand {
    pub program: String,
    pub args: Vec<String>,
    /// The game's directory under the install root.
    pub working_dir: String,
}

/// The command that starts a game: the sandbox runner with the game's install
/// reference, in the game's directory under `root`.
pub fn launch_command(root: &str, game: &DevcadeGame) -> (r: Result<LaunchCommand, LaunchError>)
    ensures
        game.flatpak_app_id is None <==> r is Err,
        r matches Err(e) ==> e == LaunchError::NotInstalled,
        r matches Ok(c) ==> {
            &&& c.program@ == "flatpak"@
            &&& c.args@.len() == 2
            &&& c.args@[0]@ == "run"@
            &&& c.args@[1]@ == game.flatpak_app_id->Some_0@
            &&& c.working_dir@ == root@ + "/"@ + game.id@
        },
{
    match &game.flatpak_app_id {
        None => Err(LaunchError::NotInstalled),
        Some(app_id) => {
            let mut args: Vec<String> = Vec::new();
            args.push(owned("run"));
            args.push(app_id.clone());
            Ok(
                LaunchCommand {
                    program: owned("flatpak"),
                    args,
                    working_dir: join3(root, "/", game.id.as_str()),
                },
            )
        },
    }
}

/// The launch guard: a game whose process has already ended when the guard
/// window closes failed to launch, whatever its exit status; one still
/// running launched.
pub fn guard_verdict(exited_within_window: bool) -> (r: Result<(), LaunchError>)
    ensures
        exited_within_window ==> r == Err::<(), LaunchError>(LaunchError::ExitedImmediately),
        !exited_within_window ==> r is Ok,
{
    if exited_within_window {
        Err(LaunchError::ExitedImmediately)
    } else {
        Ok(())
    }
}

/// The marker file whose name gives a game's executable.
pub open spec fn marker_suffix() -> Seq<char> {
    ".runtimeconfig.json"@
}

/// The executable named by the first marker file of a listing, if any.
pub open spec fn executable_of(names: Seq<String>) -> Option<Seq<char>>
    decreases names.len(),
{
    if names.len() == 0 {
        None
    } else if has_suffix(names[0]@, marker_suffix()) {
        Some(names[0]@.subrange(0, names[0]@.len() - marker_suffix().len()))
    } else {
        executable_of(names.drop_first())
    }
}

/// Finds the executable of an installed game from the file names of its
/// directory: the first `*.runtimeconfig.json` names it. `None` when no such
/// file is listed (see `executable_or` for the fallback).
pub fn locate_executable(names: &Vec<String>) -> (r: Option<String>)
    ensures
        match r {
            Some(s) => executable_of(names@) == Some(s@),
            None => executable_of(names@) is None,
        },
{
    let suffix = ".runtimeconfig.json";
    let m = suffix.unicode_len();
    let mut i: usize = 0;
    assert(names@.subrange(0, names@.len() as int) =~= names@);
    while i < names.len()
        invariant
            i <= names@.len(),
            suffix@ == marker_suffix(),
            m == marker_suffix().len(),
            executable_of(names@) == executable_of(names@.subrange(i as int, names@.len() as int)),
        decreases names@.len() - i,
    {
        let ghost rest = names@.subrange(i as int, names@.len() as int);
        assert(rest[0] == names@[i as int]);
        assert(rest.drop_first() =~= names@.subrange(i + 1, names@.len() as int));
        let name = names[i].as_str();
        if ends_with(name, suffix) {
            let n = name.unicode_len();
            assert(name@ == rest[0]@);
            return Some(owned(name.substring_char(0, n - m)));
        }
        i = i + 1;
    }
    None
}

/// The executable that a listing names, else the fallback.
pub open spec fn executable_or_spec(names: Seq<String>, fallback: Option<Seq<char>>) -> Option<Seq<char>> {
    match executable_of(names) {
        Some(x) => Some(x),
        None => fallback,
    }
}

/// Executable discovery: the first `*.runtimeconfig.json` of the install
/// directory names the executable; without one, the game's declared name
/// (`None` when the game's record could not be read) stands in. `None` means
/// no executable was found, which ends the launch attempt.
pub fn executable_or(names: &Vec<String>, game_name: Option<String>) -> (r: Option<String>)
    ensures
        match r {
            Some(s) => executable_or_spec(names@, opt_view(game_name)) == Some(s@),
            None => executable_or_spec(names@, opt_view(game_name)) is None,
        },
{
    match locate_executable(names) {
        Some(x) => Some(x),
        None => game_name,
    }
}

/// An optional string as an optional character sequence.
pub open spec fn opt_view(s: Option<String>) -> Option<Seq<char>> {
    match s {
        Some(x) => Some(x@),
        None => None,
    }
}

/// The command that starts a game's executable directly, from its `publish`
/// directory under `root`: used when the game has no install reference.
pub fn direct_launch_command(root: &str, game_id: &str, executable: &str) -> (r: LaunchCommand)
    ensures
        r.working_dir@ == root@ + "/"@ + game_id@ + "/publish"@,
        r.program@ == r.working_dir@ + "/"@ + executable@,
        r.args@.len() == 0,
{
    let dir = join3(root, "/", game_id);
    let dir = dir.concat("/publish");
    let program = join3(dir.as_str(), "/", executable);
    LaunchCommand { program, args: Vec::new(), working_dir: dir }
}

/// Whether a realm of a package's sandbox context is one that may be asked for.
pub open spec fn realm_known(realm: Seq<char>) -> bool {
    realm == "shared"@ || realm == "sockets"@ || realm == "devices"@ || realm == "filesystems"@
}

/// Whether a capability of a realm is on the allow-list.
pub open spec fn capability_allowed(realm: Seq<char>, cap: Seq<char>) -> bool {
    ||| realm == "shared"@ && (cap == "network"@ || cap == "ipc"@)
    ||| realm == "sockets"@ && (cap == "x11"@ || cap == "pulseaudio"@)
    ||| realm == "devices"@ && cap == "dri"@
    ||| realm == "filesystems"@ && (cap == "/tmp/devcade/persistence.sock"@
        || cap == "/tmp/devcade/game.sock"@)
}

/// Whether a package's sandbox context asks only for allowed capabilities.
pub open spec fn context_allowed(context: Seq<(String, Vec<String>)>) -> bool {
    forall|i: int|
        0 <= i < context.len() ==> realm_known(#[trigger] context[i].0@) && forall|j: int|
            0 <= j < context[i].1@.len() ==> capability_allowed(context[i].0@, context[i].1@[j]@)
}

fn same(a: &String, b: &str) -> (r: bool)
    ensures
        r == (a@ == b@),
{
    *a == owned(b)
}

fn is_realm_known(realm: &String) -> (r: bool)
    ensures
        r == realm_known(realm@),
{
    same(realm, "shared") || same(realm, "sockets") || same(realm, "devices") || same(
        realm,
        "filesystems",
    )
}

fn is_capability_allowed(realm: &String, cap: &String) -> (r: bool)
    ensures
        r == capability_allowed(realm@, cap@),
{
    (same(realm, "shared") && (same(cap, "network") || same(cap, "ipc"))) || (same(realm, "sockets")
        && (same(cap, "x11") || same(cap, "pulseaudio"))) || (same(realm, "devices") && same(
        cap,
        "dri",
    )) || (same(realm, "filesystems") && (same(cap, "/tmp/devcade/persistence.sock") || same(
        cap,
        "/tmp/devcade/game.sock",
    )))
}

/// Checks a package's sandbox context (realm and its capabilities; `None`
/// when the package declares no context) against the allow-list: any unknown
/// realm or capability refuses the install.
pub fn is_install_allowed(context: &Option<Vec<(String, Vec<String>)>>) -> (r: bool)
    ensures
        r == match context {
            None => true,
            Some(c) => context_allowed(c@),
        },
{
    match context {
        None => true,
        Some(c) => context_ok(c),
    }
}

/// Whether every realm and capability of a context is allowed.
fn context_ok(c: &Vec<(String, Vec<String>)>) -> (r: bool)
    ensures
        r == context_allowed(c@),
{
    let mut i: usize = 0;
    while i < c.len()
        invariant
            i <= c@.len(),
            context_allowed(c@.subrange(0, i as int)),
        decreases c@.len() - i,
    {
        let realm = &c[i].0;
        let caps = &c[i].1;
        if !is_realm_known(realm) {
            assert(!context_allowed(c@)) by {
                assert(!realm_known(c@[i as int].0@));
            }
            return false;
        }
        let mut j: usize = 0;
        while j < caps.len()
            invariant
                i < c@.len(),
                j <= caps@.len(),
                context_allowed(c@.subrange(0, i as int)),
                *caps == c@[i as int].1,
                *realm == c@[i as int].0,
                forall|k: int| 0 <= k < j ==> capability_allowed(realm@, caps@[k]@),
            decreases caps@.len() - j,
        {
            if !is_capability_allowed(realm, &caps[j]) {
                assert(!context_allowed(c@)) by {
                    assert(!capability_allowed(c@[i as int].0@, c@[i as int].1@[j as int]@));
                }
                return false;
            }
            j = j + 1;
        }
        proof {
            let s0 = c@.subrange(0, i as int);
            let s1 = c@.subrange(0, i + 1);
            assert forall|a: int| 0 <= a < s1.len() implies #[trigger] s1[a] == c@[a] by {}
            assert forall|a: int| 0 <= a < s0.len() implies #[trigger] s0[a] == c@[a] by {}
            assert forall|a: int| 0 <= a < s1.len() implies realm_known(#[trigger] s1[a].0@)
                && forall|b: int|
                0 <= b < s1[a].1@.len() ==> capability_allowed(s1[a].0@, s1[a].1@[b]@) by {
                if a < i {
                    assert(s1[a] == s0[a]);
                }
            }
        }
        i = i + 1;
    }
    assert(c@.subrange(0, i as int) =~= c@);
    true
}

/// The game most recently launched, which scopes the save data of the
/// game-facing channel. Each launch overwrites it.
pub struct CurrentGame {
    game: DevcadeGame,
}

impl CurrentGame {
    /// The recorded game.
    pub closed spec fn view(&self) -> DevcadeGame {
        self.game
    }

    /// No game launched yet: a game with an empty id.
    pub fn new() -> (r: Self)
        ensures
            r@.id@ == Seq::<char>::empty(),
    {
        CurrentGame { game: DevcadeGame::empty() }
    }

    /// Records a launch.
    pub fn set(&mut self, game: DevcadeGame)
        ensures
            final(self)@ == game,
    {
        self.game = game;
    }

    /// The game most recently launched.
    pub fn get(&self) -> (r: &DevcadeGame)
        ensures
            *r == self@,
    {
        &self.game
    }
}

} // verus!
