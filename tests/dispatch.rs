use backend::dispatch::{
    admits, game_response, launch_response, load_response, plan, save_response, tag_response,
    unit_response, Channel, Operation,
};
use backend::lifecycle::LaunchError;
use backend::persistence::CacheError;
use backend::protocol::{Player, RequestBody, ResponseBody};
use backend::dispatch::{nfc_tag_response, nfc_user_response, tags_response, user_response};
use backend::schema::{DevcadeGame, Tag, User};

fn game(id: &str) -> DevcadeGame {
    let mut g = DevcadeGame::empty();
    g.id = id.to_string();
    g
}

#[test]
fn game_channel_rejects_download() {
    let op = plan(Channel::Game, RequestBody::DownloadGame("abc".to_string()), "g1");
    assert_eq!(
        op,
        Operation::Reply(ResponseBody::Error("Invalid command: DownloadGame".to_string()))
    );
    assert!(!admits(Channel::Game, &RequestBody::LaunchGame("x".to_string())));
    assert!(!admits(Channel::Game, &RequestBody::GetGameList));
    assert!(!admits(Channel::Game, &RequestBody::SetProduction(false)));
}

#[test]
fn frontend_dispatches_download() {
    let op = plan(Channel::Frontend, RequestBody::DownloadGame("abc".to_string()), "g1");
    assert_eq!(op, Operation::Download("abc".to_string()));
    assert_eq!(
        plan(Channel::Frontend, RequestBody::LaunchGame("x".to_string()), ""),
        Operation::Launch("x".to_string())
    );
}

#[test]
fn game_channel_whitelist() {
    assert_eq!(
        plan(Channel::Game, RequestBody::Ping, "g1"),
        Operation::Reply(ResponseBody::Pong)
    );
    assert_eq!(plan(Channel::Game, RequestBody::Flush, "g1"), Operation::Flush);
    assert_eq!(
        plan(Channel::Game, RequestBody::GetNfcTag(Player::P1), "g1"),
        Operation::PollNfc
    );
    assert_eq!(
        plan(Channel::Game, RequestBody::GetNfcUser("h".to_string()), "g1"),
        Operation::NfcUser("h".to_string())
    );
}

#[test]
fn save_and_load_are_scoped_to_current_game() {
    let op = plan(
        Channel::Game,
        RequestBody::Save("saves".to_string(), "k".to_string(), "v".to_string()),
        "g1",
    );
    assert_eq!(
        op,
        Operation::Save("g1/saves".to_string(), "k".to_string(), "v".to_string())
    );
    let op = plan(
        Channel::Frontend,
        RequestBody::Load("a/b".to_string(), "k".to_string()),
        "g2",
    );
    assert_eq!(op, Operation::Load("g2/a/b".to_string(), "k".to_string()));
}

#[test]
fn second_badge_reader_is_refused() {
    let op = plan(Channel::Frontend, RequestBody::GetNfcTag(Player::P2), "");
    assert!(matches!(op, Operation::Reply(ResponseBody::Error(_))));
}

#[test]
fn game_lookup() {
    let games = vec![game("a"), game("b")];
    assert_eq!(game_response(Ok(games.clone()), "b"), ResponseBody::Game(game("b")));
    assert_eq!(
        game_response(Ok(games), "zzz"),
        ResponseBody::Error("Game with ID zzz not found".to_string())
    );
    assert_eq!(
        game_response(Err("offline".to_string()), "a"),
        ResponseBody::Error("offline".to_string())
    );
}

#[test]
fn tag_lookup() {
    let tags = vec![
        Tag { description: "d1".to_string(), name: "puzzle".to_string() },
        Tag { description: "d2".to_string(), name: "arcade".to_string() },
    ];
    assert_eq!(tag_response(Ok(tags.clone()), "arcade"), ResponseBody::Tag(tags[1].clone()));
    assert_eq!(
        tag_response(Ok(tags), "none"),
        ResponseBody::Error("Tag with name none not found".to_string())
    );
}

#[test]
fn result_responses() {
    assert_eq!(unit_response(Ok(())), ResponseBody::Success);
    assert_eq!(unit_response(Err("x".to_string())), ResponseBody::Error("x".to_string()));
    assert_eq!(save_response(Ok(())), ResponseBody::Success);
    assert_eq!(
        load_response(Err(CacheError::NotFound)),
        ResponseBody::Error("could not find key in group".to_string())
    );
    assert_eq!(load_response(Ok("v".to_string())), ResponseBody::Object("v".to_string()));
    assert_eq!(
        launch_response(Err(LaunchError::ExitedImmediately)),
        ResponseBody::Error("game launched but exited immediately".to_string())
    );
}

#[test]
fn groups_that_leave_the_game_are_refused() {
    for bad in ["../other/slot", "a/../../b", "", "a//b", "./a", "a/", "/a", ".."] {
        let op = plan(
            Channel::Game,
            RequestBody::Save(bad.to_string(), "k".to_string(), "v".to_string()),
            "g1",
        );
        assert!(matches!(op, Operation::Reply(ResponseBody::Error(_))), "{bad}");
        let op = plan(Channel::Game, RequestBody::Load(bad.to_string(), "k".to_string()), "g1");
        assert!(matches!(op, Operation::Reply(ResponseBody::Error(_))), "{bad}");
    }
    for good in ["saves", "a/b.c", "..x/y", "a/.hidden"] {
        let op = plan(Channel::Game, RequestBody::Load(good.to_string(), "k".to_string()), "g1");
        assert_eq!(op, Operation::Load(format!("g1/{good}"), "k".to_string()), "{good}");
    }
    assert!(backend::persistence::is_safe_group("a/b"));
    assert!(!backend::persistence::is_safe_group("a/.."));
}

#[test]
fn one_response_shape_per_kind() {
    assert_eq!(tags_response(Ok(Vec::new())), ResponseBody::TagList(Vec::new()));
    assert_eq!(tags_response(Err("x".to_string())), ResponseBody::Error("x".to_string()));
    assert_eq!(user_response(Ok(User::empty())), ResponseBody::User(User::empty()));
    assert_eq!(
        nfc_tag_response(Ok(Some("h".to_string()))),
        ResponseBody::NfcTag(Some("h".to_string()))
    );
    assert_eq!(nfc_tag_response(Ok(None)), ResponseBody::NfcTag(None));
    assert_eq!(
        nfc_user_response(Ok("{}".to_string())),
        ResponseBody::NfcUser("{}".to_string())
    );
    assert_eq!(
        nfc_user_response(Err("nobody".to_string())),
        ResponseBody::Error("nobody".to_string())
    );
    assert_eq!(backend::dispatch::kind_name(&RequestBody::Flush), "Flush");
}
