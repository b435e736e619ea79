//! The remote catalog's routes and the selection of records from what it
//! returns.
use vstd::prelude::*;

use crate::schema::{DevcadeGame, Tag};
use crate::text::{join2, join3, owned};

verus! {

/// The route of the list of games.
pub fn game_list() -> (r: String)
    ensures
        r@ == "games/"@,
{
    owned("games/")
}

/// The route of one game.
pub fn game(id: &str) -> (r: String)
    ensures
        r@ == "games/"@ + id@,
{
    join2("games/", id)
}

/// The route of a game's icon.
pub fn game_icon(id: &str) -> (r: String)
    ensures
        r@ == "games/"@ + id@ + "/icon"@,
{
    join3("games/", id, "/icon")
}

/// The route of a game's banner.
pub fn game_banner(id: &str) -> (r: String)
    ensures
        r@ == "games/"@ + id@ + "/banner"@,
{
    join3("games/", id, "/banner")
}

/// The route of a game's artifact.
pub fn game_download(id: &str) -> (r: String)
    ensures
        r@ == "games/"@ + id@ + "/game"@,
{
    join3("games/", id, "/game")
}

/// The route of the list of tags.
pub fn tag_list() -> (r: String)
    ensures
        r@ == "tags/"@,
{
    owned("tags/")
}

/// The route of one tag.
pub fn tag(name: &str) -> (r: String)
    ensures
        r@ == "tags/"@ + name@,
{
    join2("tags/", name)
}

/// The route of the games under a tag.
pub fn tag_games(name: &str) -> (r: String)
    ensures
        r@ == "tags/"@ + name@ + "/games"@,
{
    join3("tags/", name, "/games")
}

/// The route of one user.
pub fn user(uid: &str) -> (r: String)
    ensures
        r@ == "users/"@ + uid@,
{
    join2("users/", uid)
}

/// The URL of a route under the catalog's base URL.
pub fn endpoint(api_url: &str, route: &str) -> (r: String)
    ensures
        r@ == api_url@ + "/"@ + route@,
{
    join3(api_url, "/", route)
}

/// The games of a list that carry a hash, in their order.
pub open spec fn hashed(games: Seq<DevcadeGame>) -> Seq<DevcadeGame>
    decreases games.len(),
{
    if games.len() == 0 {
        Seq::empty()
    } else if games.last().hash is Some {
        hashed(games.drop_last()).push(games.last())
    } else {
        hashed(games.drop_last())
    }
}

/// Keeps the games that carry a hash: only those can be downloaded and
/// checked for updates.
pub fn games_with_hash(games: Vec<DevcadeGame>) -> (r: Vec<DevcadeGame>)
    ensures
        r@ == hashed(games@),
{
    let mut r: Vec<DevcadeGame> = Vec::new();
    let ghost all = games@;
    let mut rest = games;
    let n: usize = rest.len();
    let mut i: usize = 0;
    while rest.len() > 0
        invariant
            all.len() == n,
            i <= all.len(),
            rest@ == all.subrange(i as int, all.len() as int),
            r@ == hashed(all.subrange(0, i as int)),
        decreases rest@.len(),
    {
        let g = rest.remove(0);
        proof {
            assert(g == all[i as int]);
            assert(all.subrange(0, i + 1).drop_last() =~= all.subrange(0, i as int));
        }
        if g.hash.is_some() {
            r.push(g);
        }
        i = i + 1;
        assert(rest@ =~= all.subrange(i as int, all.len() as int));
    }
    assert(all.subrange(0, i as int) =~= all);
    r
}

/// The games of a list of lookups that succeeded, in their order.
pub open spec fn found(results: Seq<Result<DevcadeGame, String>>) -> Seq<DevcadeGame>
    decreases results.len(),
{
    if results.len() == 0 {
        Seq::empty()
    } else {
        match results.last() {
            Ok(g) => found(results.drop_last()).push(g),
            Err(_) => found(results.drop_last()),
        }
    }
}

/// Keeps the games whose lookups succeeded, dropping the failed ones: the
/// games under a tag are those that could be fetched.
pub fn games_found(results: Vec<Result<DevcadeGame, String>>) -> (r: Vec<DevcadeGame>)
    ensures
        r@ == found(results@),
{
    let mut r: Vec<DevcadeGame> = Vec::new();
    let ghost all = results@;
    let mut rest = results;
    let n: usize = rest.len();
    let mut i: usize = 0;
    while rest.len() > 0
        invariant
            all.len() == n,
            i <= all.len(),
            rest@ == all.subrange(i as int, all.len() as int),
            r@ == found(all.subrange(0, i as int)),
        decreases rest@.len(),
    {
        let x = rest.remove(0);
        proof {
            assert(x == all[i as int]);
            assert(all.subrange(0, i + 1).drop_last() =~= all.subrange(0, i as int));
        }
        match x {
            Ok(g) => r.push(g),
            Err(_) => {},
        }
        i = i + 1;
        assert(rest@ =~= all.subrange(i as int, all.len() as int));
    }
    assert(all.subrange(0, i as int) =~= all);
    r
}

/// The position of the first game with the given id.
pub fn find_game(games: &Vec<DevcadeGame>, id: &str) -> (r: Option<usize>)
    ensures
        r matches Some(i) ==> i < games@.len() && games@[i as int].id@ == id@ && forall|j: int|
            0 <= j < i ==> games@[j].id@ != id@,
        r is None ==> forall|j: int| 0 <= j < games@.len() ==> games@[j].id@ != id@,
{
    let target = owned(id);
    let mut i: usize = 0;
    while i < games.len()
        invariant
            i <= games@.len(),
            target@ == id@,
            forall|j: int| 0 <= j < i ==> games@[j].id@ != id@,
        decreases games@.len() - i,
    {
        if games[i].id == target {
            return Some(i);
        }
        i = i + 1;
    }
    None
}

/// The position of the first tag with the given name.
pub fn find_tag(tags: &Vec<Tag>, name: &str) -> (r: Option<usize>)
    ensures
        r matches Some(i) ==> i < tags@.len() && tags@[i as int].name@ == name@ && forall|j: int|
            0 <= j < i ==> tags@[j].name@ != name@,
        r is None ==> forall|j: int| 0 <= j < tags@.len() ==> tags@[j].name@ != name@,
{
    let target = owned(name);
    let mut i: usize = 0;
    while i < tags.len()
        invariant
            i <= tags@.len(),
            target@ == name@,
            forall|j: int| 0 <= j < i ==> tags@[j].name@ != name@,
        decreases tags@.len() - i,
    {
        if tags[i].name == target {
            return Some(i);
        }
        i = i + 1;
    }
    None
}

} // verus!
