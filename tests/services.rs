use backend::catalog::{
    endpoint, game, game_banner, game_download, game_icon, game_list, games_found,
    games_with_hash, tag, tag_games, tag_list, user,
};
use backend::env::{api_url, default_devcade_path, save_root, Settings};
use backend::listener::{game_pipe, onboard_pipe, BindEvent, BindRecovery, BindStep};
use backend::nfc::Associations;
use backend::schema::DevcadeGame;
use backend::supervisor::ThreadHandles;

#[test]
fn routes() {
    assert_eq!(game_list(), "games/");
    assert_eq!(game("x1"), "games/x1");
    assert_eq!(game_icon("x1"), "games/x1/icon");
    assert_eq!(game_banner("x1"), "games/x1/banner");
    assert_eq!(game_download("x1"), "games/x1/game");
    assert_eq!(tag_list(), "tags/");
    assert_eq!(tag("fun"), "tags/fun");
    assert_eq!(tag_games("fun"), "tags/fun/games");
    assert_eq!(user("u"), "users/u");
    assert_eq!(endpoint("https://api.example", &game("x1")), "https://api.example/games/x1");
}

fn g(id: &str, hash: Option<&str>) -> DevcadeGame {
    let mut g = DevcadeGame::empty();
    g.id = id.to_string();
    g.hash = hash.map(|h| h.to_string());
    g
}

#[test]
fn catalog_keeps_hashed_games() {
    let kept = games_with_hash(vec![g("a", Some("1")), g("b", None), g("c", Some("3"))]);
    let ids: Vec<_> = kept.iter().map(|g| g.id.as_str()).collect();
    assert_eq!(ids, vec!["a", "c"]);
    let found = games_found(vec![Ok(g("a", None)), Err("e".to_string()), Ok(g("c", None))]);
    let ids: Vec<_> = found.iter().map(|g| g.id.as_str()).collect();
    assert_eq!(ids, vec!["a", "c"]);
}

#[test]
fn settings() {
    let mut s = Settings::new();
    assert!(s.is_production());
    assert_eq!(s.api_domain_var(), "DEVCADE_API_DOMAIN");
    s.set_production(false);
    assert_eq!(s.api_domain_var(), "DEVCADE_DEV_API_DOMAIN");
    assert_eq!(api_url("devcade.example"), "https://devcade.example");
    assert_eq!(default_devcade_path("/home/u"), "/home/u/.devcade");
    assert_eq!(save_root(true), "/home/devcade/.save");
    assert_eq!(save_root(false), "./.save");
}

#[test]
fn pipes() {
    assert_eq!(onboard_pipe("/tmp/devcade"), "/tmp/devcade/onboard.sock");
    assert_eq!(game_pipe("/tmp/devcade"), "/tmp/devcade/game.sock");
}

#[test]
fn stale_socket_recovery() {
    let mut r = BindRecovery::new();
    assert_eq!(r.next(BindEvent::AddressInUse), BindStep::CheckHolder);
    assert_eq!(r.next(BindEvent::Holder(false)), BindStep::RemoveStaleAndRetry);
    assert_eq!(r.next(BindEvent::Bound), BindStep::Listening);

    let mut r = BindRecovery::new();
    assert_eq!(r.next(BindEvent::AddressInUse), BindStep::CheckHolder);
    assert_eq!(r.next(BindEvent::Holder(false)), BindStep::RemoveStaleAndRetry);
    assert_eq!(r.next(BindEvent::AddressInUse), BindStep::Fatal);
}

#[test]
fn live_holder_is_fatal() {
    let mut r = BindRecovery::new();
    assert_eq!(r.next(BindEvent::AddressInUse), BindStep::CheckHolder);
    assert_eq!(r.next(BindEvent::Holder(true)), BindStep::Fatal);
    let mut r = BindRecovery::new();
    assert_eq!(r.next(BindEvent::BindFailed), BindStep::Fatal);
}

#[test]
fn supervisor_restarts_ended_tasks() {
    let mut h = ThreadHandles::new();
    assert!(!h.onboard_error(true));
    h.restart_onboard();
    h.restart_game();
    let r = h.tick(false, true);
    assert!(!r.onboard);
    assert!(r.game);
    let r = h.tick(false, false);
    assert!(!r.onboard && !r.game);
    assert!(h.onboard_error(true));
    assert!(!h.onboard_error(true));
    assert!(!h.gatekeeper_error(true));
}

#[test]
fn badge_handles() {
    let mut a = Associations::new();
    assert_eq!(a.on_badge(None, "game1"), None);
    let h = a.on_badge(Some("assoc1".to_string()), "game1").unwrap();
    assert_eq!(h, sha256::digest("assoc1:game1"));
    assert_ne!(h, "assoc1");
    // the same badge keeps its handle, even under another game
    assert_eq!(a.on_badge(Some("assoc1".to_string()), "game2"), Some(h.clone()));
    assert_eq!(a.association_of(&h), Some("assoc1".to_string()));
    assert_eq!(a.association_of(&"unknown".to_string()), None);
}

#[test]
fn badge_handles_are_forgotten_after_eight() {
    let mut a = Associations::new();
    let first = a.on_badge(Some("b0".to_string()), "g").unwrap();
    for i in 1..8 {
        a.on_badge(Some(format!("b{i}")), "g").unwrap();
    }
    assert_eq!(a.association_of(&first), Some("b0".to_string()));
    a.on_badge(Some("b8".to_string()), "g").unwrap();
    assert_eq!(a.association_of(&first), None);
}
