use backend::lifecycle::{
    guard_verdict, is_install_allowed, launch_command, locate_executable, plan_download,
    record_install, CurrentGame, DownloadPlan, LaunchError,
};
use backend::schema::DevcadeGame;

fn game(id: &str, hash: Option<&str>) -> DevcadeGame {
    let mut g = DevcadeGame::empty();
    g.id = id.to_string();
    g.name = format!("Game {id}");
    g.hash = hash.map(|h| h.to_string());
    g
}

#[test]
fn download_when_not_installed() {
    let remote = game("a", Some("h1"));
    assert_eq!(plan_download(Some(remote.clone()), None), DownloadPlan::Fetch(remote));
}

#[test]
fn download_idempotence() {
    let remote = game("a", Some("h1"));
    let plan = plan_download(Some(remote.clone()), None);
    let fetched = match plan {
        DownloadPlan::Fetch(g) => g,
        other => panic!("expected a fetch, got {other:?}"),
    };
    let installed = record_install(fetched, "org.devcade.a".to_string());
    assert_eq!(installed.flatpak_app_id, Some("org.devcade.a".to_string()));
    assert_eq!(installed.hash, remote.hash);
    // second call, remote hash unchanged: no fetch, same record
    assert_eq!(
        plan_download(Some(remote.clone()), Some(installed.clone())),
        DownloadPlan::UpToDate(installed.clone())
    );
    // catalog unreachable: the installed copy stands
    assert_eq!(
        plan_download(None, Some(installed.clone())),
        DownloadPlan::UpToDate(installed)
    );
}

#[test]
fn changed_hash_downloads_again() {
    let local = record_install(game("a", Some("h1")), "app".to_string());
    let remote = game("a", Some("h2"));
    assert_eq!(plan_download(Some(remote.clone()), Some(local)), DownloadPlan::Fetch(remote));
}

#[test]
fn offline_and_not_installed() {
    assert_eq!(plan_download(None, None), DownloadPlan::Unavailable);
}

#[test]
fn launch_guard() {
    assert_eq!(guard_verdict(true), Err(LaunchError::ExitedImmediately));
    assert_eq!(guard_verdict(false), Ok(()));
}

#[test]
fn launch_command_uses_install_reference() {
    let g = record_install(game("abc", Some("h")), "org.devcade.abc".to_string());
    let c = launch_command("/home/u/.devcade", &g).unwrap();
    assert_eq!(c.program, "flatpak");
    assert_eq!(c.args, vec!["run".to_string(), "org.devcade.abc".to_string()]);
    assert_eq!(c.working_dir, "/home/u/.devcade/abc");
    assert!(matches!(
        launch_command("/x", &game("abc", None)),
        Err(LaunchError::NotInstalled)
    ));
}

#[test]
fn executable_from_runtime_config() {
    let names = vec![
        "readme.txt".to_string(),
        "Game.runtimeconfig.json".to_string(),
        "Other.runtimeconfig.json".to_string(),
    ];
    assert_eq!(locate_executable(&names), Some("Game".to_string()));
    assert_eq!(locate_executable(&vec!["a.json".to_string()]), None);
    assert_eq!(locate_executable(&Vec::new()), None);
}

fn ctx(entries: &[(&str, &[&str])]) -> Option<Vec<(String, Vec<String>)>> {
    Some(
        entries
            .iter()
            .map(|(r, caps)| (r.to_string(), caps.iter().map(|c| c.to_string()).collect()))
            .collect(),
    )
}

#[test]
fn install_capabilities() {
    assert!(is_install_allowed(&None));
    assert!(is_install_allowed(&ctx(&[
        ("shared", &["network", "ipc"]),
        ("sockets", &["x11", "pulseaudio"]),
        ("devices", &["dri"]),
        ("filesystems", &["/tmp/devcade/game.sock"]),
    ])));
    assert!(!is_install_allowed(&ctx(&[("devices", &["all"])])));
    assert!(!is_install_allowed(&ctx(&[("persistent", &[])])));
    assert!(!is_install_allowed(&ctx(&[("filesystems", &["home"])])));
}

#[test]
fn current_game_is_last_launched() {
    let mut current = CurrentGame::new();
    assert_eq!(current.get().id, "");
    current.set(game("a", None));
    current.set(game("b", None));
    assert_eq!(current.get().id, "b");
}

#[test]
fn executable_falls_back_to_declared_name() {
    let names = vec!["data.bin".to_string(), "README".to_string()];
    assert_eq!(
        backend::lifecycle::executable_or(&names, Some("Tetris".to_string())),
        Some("Tetris".to_string())
    );
    assert_eq!(backend::lifecycle::executable_or(&names, None), None);
    let marked = vec!["Space.runtimeconfig.json".to_string()];
    assert_eq!(
        backend::lifecycle::executable_or(&marked, Some("Tetris".to_string())),
        Some("Space".to_string())
    );
}

#[test]
fn direct_launch_runs_from_publish_directory() {
    let c = backend::lifecycle::direct_launch_command("/d", "g1", "Space");
    assert_eq!(c.working_dir, "/d/g1/publish");
    assert_eq!(c.program, "/d/g1/publish/Space");
    assert!(c.args.is_empty());
}
