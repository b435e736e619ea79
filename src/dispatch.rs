//! The command dispatcher: each request kind maps to one operation, and the
//! game-facing channel admits only its whitelist.
use vstd::prelude::*;

use crate::catalog::{find_game, find_tag};
use crate::lifecycle::{launch_error_text, LaunchError};
use crate::persistence::{
    cache_error_text, group_path, is_safe_group, lemma_path_of_slashed, safe_group, CacheError,
};
use crate::protocol::{Player, RequestBody, ResponseBody};
use crate::schema::{DevcadeGame, Tag, User};
use crate::text::{join2, join3, owned};

verus! {

/// The two server instances.
#[derive(Debug, Clone, Copy, PartialEq, Eq, Structural)]
pub enum Channel {
    /// The front end, which may use every request kind.
    Frontend,
    /// The running game, which may only ping, use its save data and read
    /// badges.
    Game,
}

/// The work that a request asks for.
#[derive(Debug, Clone, PartialEq, Eq)]
pub enum Operation {
    /// Answer at once with this body.
    Reply(ResponseBody),
    /// List the catalog's games, falling back to the installed ones.
    ListGames,
    /// List the installed games.
    ListLocalGames,
    /// Find a game of the catalog by id.
    FindGame(String),
    Download(String),
    DownloadIcon(String),
    DownloadBanner(String),
    Launch(String),
    SetProduction(bool),
    ListTags,
    FindTag(String),
    TagGames(String),
    GetUser(String),
    /// Read a badge on the first reader.
    PollNfc,
    NfcUser(String),
    /// Save under a group path scoped to the current game: group, key, value.
    Save(String, String, String),
    /// Load from a group path scoped to the current game: group, key.
    Load(String, String),
    Flush,
}

/// The request kinds that the game-facing channel admits.
pub open spec fn game_channel_allows(body: RequestBody) -> bool {
    match body {
        RequestBody::Ping => true,
        RequestBody::Save(_, _, _) => true,
        RequestBody::Load(_, _) => true,
        RequestBody::Flush => true,
        RequestBody::GetNfcTag(_) => true,
        RequestBody::GetNfcUser(_) => true,
        _ => false,
    }
}

/// An operation that only answers with an error.
pub open spec fn is_rejection(op: Operation) -> bool {
    op matches Operation::Reply(ResponseBody::Error(_))
}

/// The group name of a save request, scoped to the game `game_id`.
pub open spec fn scoped(game_id: Seq<char>, group: Seq<char>) -> Seq<char> {
    game_id + "/"@ + group
}

/// `op` is the operation for `body` arriving on `channel` while the game
/// `game_id` is current.
pub open spec fn plans(channel: Channel, body: RequestBody, game_id: Seq<char>, op: Operation) -> bool {
    if channel == Channel::Game && !game_channel_allows(body) {
        op matches Operation::Reply(ResponseBody::Error(m)) && m@ == "Invalid command: "@
            + kind_text(body)
    } else {
        match body {
            RequestBody::Ping => op == Operation::Reply(ResponseBody::Pong),
            RequestBody::GetGameList => op == Operation::ListGames,
            RequestBody::GetGameListFromFs => op == Operation::ListLocalGames,
            RequestBody::GetGame(id) => op == Operation::FindGame(id),
            RequestBody::DownloadGame(id) => op == Operation::Download(id),
            RequestBody::DownloadIcon(id) => op == Operation::DownloadIcon(id),
            RequestBody::DownloadBanner(id) => op == Operation::DownloadBanner(id),
            RequestBody::LaunchGame(id) => op == Operation::Launch(id),
            RequestBody::SetProduction(p) => op == Operation::SetProduction(p),
            RequestBody::GetTagList => op == Operation::ListTags,
            RequestBody::GetTag(name) => op == Operation::FindTag(name),
            RequestBody::GetGameListFromTag(name) => op == Operation::TagGames(name),
            RequestBody::GetUser(uid) => op == Operation::GetUser(uid),
            RequestBody::GetNfcTag(p) => if p == Player::P1 {
                op == Operation::PollNfc
            } else {
                is_rejection(op)
            },
            RequestBody::GetNfcUser(a) => op == Operation::NfcUser(a),
            RequestBody::Save(g, k, v) => if safe_group(g@) {
                op matches Operation::Save(g2, k2, v2) && g2@ == scoped(game_id, g@) && k2 == k
                    && v2 == v
            } else {
                is_rejection(op)
            },
            RequestBody::Load(g, k) => if safe_group(g@) {
                op matches Operation::Load(g2, k2) && g2@ == scoped(game_id, g@) && k2 == k
            } else {
                is_rejection(op)
            },
            RequestBody::Flush => op == Operation::Flush,
        }
    }
}

/// Whether the game-facing channel admits a request kind.
pub fn admits(channel: Channel, body: &RequestBody) -> (r: bool)
    ensures
        r == (channel == Channel::Frontend || game_channel_allows(*body)),
{
    match channel {
        Channel::Frontend => true,
        Channel::Game => match body {
            RequestBody::Ping => true,
            RequestBody::Save(_, _, _) => true,
            RequestBody::Load(_, _) => true,
            RequestBody::Flush => true,
            RequestBody::GetNfcTag(_) => true,
            RequestBody::GetNfcUser(_) => true,
            _ => false,
        },
    }
}

/// The name of a request kind.
pub open spec fn kind_text(body: RequestBody) -> Seq<char> {
    match body {
        RequestBody::Ping => "Ping"@,
        RequestBody::GetGameList => "GetGameList"@,
        RequestBody::GetGameListFromFs => "GetGameListFromFs"@,
        RequestBody::GetGame(_) => "GetGame"@,
        RequestBody::DownloadGame(_) => "DownloadGame"@,
        RequestBody::DownloadIcon(_) => "DownloadIcon"@,
        RequestBody::DownloadBanner(_) => "DownloadBanner"@,
        RequestBody::LaunchGame(_) => "LaunchGame"@,
        RequestBody::SetProduction(_) => "SetProduction"@,
        RequestBody::GetTagList => "GetTagList"@,
        RequestBody::GetTag(_) => "GetTag"@,
        RequestBody::GetGameListFromTag(_) => "GetGameListFromTag"@,
        RequestBody::GetUser(_) => "GetUser"@,
        RequestBody::GetNfcTag(_) => "GetNfcTag"@,
        RequestBody::GetNfcUser(_) => "GetNfcUser"@,
        RequestBody::Save(_, _, _) => "Save"@,
        RequestBody::Load(_, _) => "Load"@,
        RequestBody::Flush => "Flush"@,
    }
}

/// The name of a request kind, for messages.
pub fn kind_name(body: &RequestBody) -> (r: &'static str)
    ensures
        r@ == kind_text(*body),
{
    match body {
        RequestBody::Ping => "Ping",
        RequestBody::GetGameList => "GetGameList",
        RequestBody::GetGameListFromFs => "GetGameListFromFs",
        RequestBody::GetGame(_) => "GetGame",
        RequestBody::DownloadGame(_) => "DownloadGame",
        RequestBody::DownloadIcon(_) => "DownloadIcon",
        RequestBody::DownloadBanner(_) => "DownloadBanner",
        RequestBody::LaunchGame(_) => "LaunchGame",
        RequestBody::SetProduction(_) => "SetProduction",
        RequestBody::GetTagList => "GetTagList",
        RequestBody::GetTag(_) => "GetTag",
        RequestBody::GetGameListFromTag(_) => "GetGameListFromTag",
        RequestBody::GetUser(_) => "GetUser",
        RequestBody::GetNfcTag(_) => "GetNfcTag",
        RequestBody::GetNfcUser(_) => "GetNfcUser",
        RequestBody::Save(_, _, _) => "Save",
        RequestBody::Load(_, _) => "Load",
        RequestBody::Flush => "Flush",
    }
}

/// Maps a request arriving on `channel` to its operation. A kind outside the
/// game-facing whitelist is rejected there without being dispatched; save
/// groups are scoped to the current game `game_id`.
pub fn plan(channel: Channel, body: RequestBody, game_id: &str) -> (r: Operation)
    ensures
        plans(channel, body, game_id@, r),
{
    if !admits(channel, &body) {
        let msg = join2("Invalid command: ", kind_name(&body));
        return Operation::Reply(ResponseBody::Error(msg));
    }
    match body {
        RequestBody::Ping => Operation::Reply(ResponseBody::Pong),
        RequestBody::GetGameList => Operation::ListGames,
        RequestBody::GetGameListFromFs => Operation::ListLocalGames,
        RequestBody::GetGame(id) => Operation::FindGame(id),
        RequestBody::DownloadGame(id) => Operation::Download(id),
        RequestBody::DownloadIcon(id) => Operation::DownloadIcon(id),
        RequestBody::DownloadBanner(id) => Operation::DownloadBanner(id),
        RequestBody::LaunchGame(id) => Operation::Launch(id),
        RequestBody::SetProduction(p) => Operation::SetProduction(p),
        RequestBody::GetTagList => Operation::ListTags,
        RequestBody::GetTag(name) => Operation::FindTag(name),
        RequestBody::GetGameListFromTag(name) => Operation::TagGames(name),
        RequestBody::GetUser(uid) => Operation::GetUser(uid),
        RequestBody::GetNfcTag(p) => match p {
            Player::P1 => Operation::PollNfc,
            Player::P2 => Operation::Reply(
                ResponseBody::Error(owned("Only the first badge reader is connected")),
            ),
        },
        RequestBody::GetNfcUser(a) => Operation::NfcUser(a),
        RequestBody::Save(g, k, v) => {
            if is_safe_group(g.as_str()) {
                Operation::Save(join3(game_id, "/", g.as_str()), k, v)
            } else {
                Operation::Reply(ResponseBody::Error(join2("Invalid group: ", g.as_str())))
            }
        },
        RequestBody::Load(g, k) => {
            if is_safe_group(g.as_str()) {
                Operation::Load(join3(game_id, "/", g.as_str()), k)
            } else {
                Operation::Reply(ResponseBody::Error(join2("Invalid group: ", g.as_str())))
            }
        },
        RequestBody::Flush => Operation::Flush,
    }
}

/// Channel whitelist: a download asked for on the game-facing channel is
/// answered with an error and dispatches no download.
pub proof fn lemma_game_channel_rejects_download(id: String, game_id: Seq<char>, op: Operation)
    requires
        plans(Channel::Game, RequestBody::DownloadGame(id), game_id, op),
    ensures
        is_rejection(op),
        !(op is Download),
{
}

/// Game isolation: a save or load that the dispatcher lets through names a
/// group free of empty, `.` and `..` segments, and is stored at
/// `root/game_id/group`, inside the current game's own directory.
pub proof fn lemma_saves_stay_in_game(
    channel: Channel,
    body: RequestBody,
    game_id: Seq<char>,
    op: Operation,
    root: Seq<char>,
)
    requires
        plans(channel, body, game_id, op),
    ensures
        op matches Operation::Save(g2, _, _) ==> (body matches RequestBody::Save(g, _, _)
            && safe_group(g@) && group_path(root, g2@) == root + "/"@ + game_id + "/"@ + g@),
        op matches Operation::Load(g2, _) ==> (body matches RequestBody::Load(g, _) && safe_group(
            g@,
        ) && group_path(root, g2@) == root + "/"@ + game_id + "/"@ + g@),
{
    reveal_strlit("/");
    match body {
        RequestBody::Save(g, _, _) => {
            if safe_group(g@) {
                let s = game_id + "/"@ + g@;
                assert(s[game_id.len() as int] == '/');
                lemma_path_of_slashed(root, s, game_id.len() as int);
                assert(root + "/"@ + s =~= root + "/"@ + game_id + "/"@ + g@);
            }
        },
        RequestBody::Load(g, _) => {
            if safe_group(g@) {
                let s = game_id + "/"@ + g@;
                assert(s[game_id.len() as int] == '/');
                lemma_path_of_slashed(root, s, game_id.len() as int);
                assert(root + "/"@ + s =~= root + "/"@ + game_id + "/"@ + g@);
            }
        },
        _ => {},
    }
}

/// The response to a listing of tags.
pub fn tags_response(r: Result<Vec<Tag>, String>) -> (b: ResponseBody)
    ensures
        match r {
            Ok(v) => b == ResponseBody::TagList(v),
            Err(m) => b == ResponseBody::Error(m),
        },
{
    match r {
        Ok(v) => ResponseBody::TagList(v),
        Err(m) => ResponseBody::Error(m),
    }
}

/// The response to a user lookup.
pub fn user_response(r: Result<User, String>) -> (b: ResponseBody)
    ensures
        match r {
            Ok(u) => b == ResponseBody::User(u),
            Err(m) => b == ResponseBody::Error(m),
        },
{
    match r {
        Ok(u) => ResponseBody::User(u),
        Err(m) => ResponseBody::Error(m),
    }
}

/// The response to a badge read: the badge's handle, if one was read.
pub fn nfc_tag_response(r: Result<Option<String>, String>) -> (b: ResponseBody)
    ensures
        match r {
            Ok(h) => b == ResponseBody::NfcTag(h),
            Err(m) => b == ResponseBody::Error(m),
        },
{
    match r {
        Ok(h) => ResponseBody::NfcTag(h),
        Err(m) => ResponseBody::Error(m),
    }
}

/// The response to a member lookup by badge handle.
pub fn nfc_user_response(r: Result<String, String>) -> (b: ResponseBody)
    ensures
        match r {
            Ok(u) => b == ResponseBody::NfcUser(u),
            Err(m) => b == ResponseBody::Error(m),
        },
{
    match r {
        Ok(u) => ResponseBody::NfcUser(u),
        Err(m) => ResponseBody::Error(m),
    }
}

/// The response to a listing of games.
pub fn games_response(r: Result<Vec<DevcadeGame>, String>) -> (b: ResponseBody)
    ensures
        match r {
            Ok(v) => b == ResponseBody::GameList(v),
            Err(m) => b == ResponseBody::Error(m),
        },
{
    match r {
        Ok(v) => ResponseBody::GameList(v),
        Err(m) => ResponseBody::Error(m),
    }
}

/// The response to a request for the game `id`, from the catalog's listing.
pub fn game_response(r: Result<Vec<DevcadeGame>, String>, id: &str) -> (b: ResponseBody)
    ensures
        match r {
            Err(m) => b == ResponseBody::Error(m),
            Ok(v) => if exists|i: int| 0 <= i < v@.len() && v@[i].id@ == id@ {
                exists|i: int|
                    0 <= i < v@.len() && v@[i].id@ == id@ && b == ResponseBody::Game(v@[i]) && (
                    forall|j: int| 0 <= j < i ==> v@[j].id@ != id@)
            } else {
                b matches ResponseBody::Error(m) && m@ == "Game with ID "@ + id@ + " not found"@
            },
        },
{
    match r {
        Err(m) => ResponseBody::Error(m),
        Ok(v) => {
            let mut v = v;
            match find_game(&v, id) {
                Some(i) => {
                    let ghost before = v@;
                    let g = v.swap_remove(i);
                    assert(g == before[i as int]);
                    ResponseBody::Game(g)
                },
                None => ResponseBody::Error(join3("Game with ID ", id, " not found")),
            }
        },
    }
}

/// The response to a request for the tag `name`, from the catalog's listing.
pub fn tag_response(r: Result<Vec<Tag>, String>, name: &str) -> (b: ResponseBody)
    ensures
        match r {
            Err(m) => b == ResponseBody::Error(m),
            Ok(v) => if exists|i: int| 0 <= i < v@.len() && v@[i].name@ == name@ {
                exists|i: int|
                    0 <= i < v@.len() && v@[i].name@ == name@ && b == ResponseBody::Tag(v@[i]) && (
                    forall|j: int| 0 <= j < i ==> v@[j].name@ != name@)
            } else {
                b matches ResponseBody::Error(m) && m@ == "Tag with name "@ + name@ + " not found"@
            },
        },
{
    match r {
        Err(m) => ResponseBody::Error(m),
        Ok(v) => {
            let mut v = v;
            match find_tag(&v, name) {
                Some(i) => {
                    let ghost before = v@;
                    let t = v.swap_remove(i);
                    assert(t == before[i as int]);
                    ResponseBody::Tag(t)
                },
                None => ResponseBody::Error(join3("Tag with name ", name, " not found")),
            }
        },
    }
}

/// The response to an operation that returns nothing.
pub fn unit_response(r: Result<(), String>) -> (b: ResponseBody)
    ensures
        match r {
            Ok(()) => b == ResponseBody::Success,
            Err(m) => b == ResponseBody::Error(m),
        },
{
    match r {
        Ok(()) => ResponseBody::Success,
        Err(m) => ResponseBody::Error(m),
    }
}

/// The response to a save.
pub fn save_response(r: Result<(), CacheError>) -> (b: ResponseBody)
    ensures
        match r {
            Ok(()) => b == ResponseBody::Success,
            Err(e) => b matches ResponseBody::Error(m) && m@ == cache_error_text(e),
        },
{
    match r {
        Ok(()) => ResponseBody::Success,
        Err(e) => ResponseBody::Error(e.message()),
    }
}

/// The response to a load: the value, or the cause of the failure.
pub fn load_response(r: Result<String, CacheError>) -> (b: ResponseBody)
    ensures
        match r {
            Ok(v) => b == ResponseBody::Object(v),
            Err(e) => b matches ResponseBody::Error(m) && m@ == cache_error_text(e),
        },
{
    match r {
        Ok(v) => ResponseBody::Object(v),
        Err(e) => ResponseBody::Error(e.message()),
    }
}

/// The response to a launch.
pub fn launch_response(r: Result<(), LaunchError>) -> (b: ResponseBody)
    ensures
        match r {
            Ok(()) => b == ResponseBody::Success,
            Err(e) => b matches ResponseBody::Error(m) && m@ == launch_error_text(e),
        },
{
    match r {
        Ok(()) => ResponseBody::Success,
        Err(e) => ResponseBody::Error(e.message()),
    }
}

} // verus!
