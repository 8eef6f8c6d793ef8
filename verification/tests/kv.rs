use baofzf::version::{parse_kv_version, KvVersion};
use baofzf::walk::{SecretWalk, WalkAction};

/// The keys a key-value mount holding `secrets` answers for a listing of
/// `path`: the next path component of each secret below it, folders with
/// their trailing `/`, each once, in sorted order.
fn list_keys(secrets: &[&str], path: &str) -> Vec<String> {
    let mut keys: Vec<String> = Vec::new();
    for s in secrets {
        if let Some(rest) = s.strip_prefix(path) {
            let key = match rest.find('/') {
                Some(i) => rest[..=i].to_string(),
                None => rest.to_string(),
            };
            if !key.is_empty() && !keys.contains(&key) {
                keys.push(key);
            }
        }
    }
    keys.sort();
    keys
}

/// Runs a walk against an in-memory mount, recording the listed paths.
fn run_walk(secrets: &[&str], path: &str, kvv: &str) -> (Vec<String>, Vec<String>) {
    let (mut walk, mut action) = SecretWalk::start(path, kvv);
    let mut asked = Vec::new();
    loop {
        match action {
            WalkAction::Finished(found) => return (found, asked),
            WalkAction::List { version, path } => {
                assert_eq!(Some(version), parse_kv_version(kvv));
                assert!(walk.is_waiting());
                let keys = list_keys(secrets, &path);
                asked.push(path);
                action = walk.receive(keys);
            }
        }
    }
}

const SECRETS: [&str; 9] = [
    "secret1",
    "secret2",
    "secret3",
    "app1/secret1",
    "app1/secret2",
    "app1/secret3",
    "app2/secret1",
    "app2/secret2",
    "app2/secret3",
];

#[test]
fn list_kvv2() {
    let mut secret_list = Vec::from(SECRETS);
    let (server_secret_list, _) = run_walk(&SECRETS, "", "2");
    let mut server_secret_list: Vec<&str> = server_secret_list.iter().map(|s| s.as_str()).collect();
    secret_list.sort();
    server_secret_list.sort();
    assert_eq!(secret_list, server_secret_list);
}

#[test]
fn list_kvv1() {
    let mut secret_list = Vec::from(SECRETS);
    let (server_secret_list, _) = run_walk(&SECRETS, "", "1");
    let mut server_secret_list: Vec<&str> = server_secret_list.iter().map(|s| s.as_str()).collect();
    secret_list.sort();
    server_secret_list.sort();
    assert_eq!(secret_list, server_secret_list);
}

#[test]
fn walk_keeps_depth_first_order() {
    let (found, asked) = run_walk(&SECRETS, "", "2");
    assert_eq!(
        found,
        vec![
            "app1/secret1",
            "app1/secret2",
            "app1/secret3",
            "app2/secret1",
            "app2/secret2",
            "app2/secret3",
            "secret1",
            "secret2",
            "secret3",
        ]
    );
    assert_eq!(asked, vec!["", "app1/", "app2/"]);
}

#[test]
fn walk_names_are_relative_to_the_mount() {
    let secrets = ["team/app/db/password", "team/app/token", "team/other", "elsewhere"];
    let (found, asked) = run_walk(&secrets, "team/", "2");
    assert_eq!(found, vec!["team/app/db/password", "team/app/token", "team/other"]);
    assert_eq!(asked, vec!["team/", "team/app/", "team/app/db/"]);
}

#[test]
fn start_path_without_slash_names_a_folder() {
    let secrets = ["my-app/x", "my-app/sub/y", "my-appendix/z"];
    let (found, asked) = run_walk(&secrets, "my-app", "2");
    assert_eq!(found, vec!["my-app/sub/y", "my-app/x"]);
    assert_eq!(asked, vec!["my-app/", "my-app/sub/"]);
}

#[test]
fn walk_of_empty_mount_finds_nothing() {
    let (found, asked) = run_walk(&[], "", "1");
    assert!(found.is_empty());
    assert_eq!(asked, vec![""]);
}

#[test]
fn walk_with_unknown_layout_lists_nothing() {
    let (found, asked) = run_walk(&SECRETS, "", "3");
    assert!(found.is_empty());
    assert!(asked.is_empty());
}

#[test]
fn walk_keeps_server_order() {
    let (mut walk, action) = SecretWalk::start("kv/", "2");
    match action {
        WalkAction::List { version, path } => {
            assert_eq!(version, KvVersion::V2);
            assert_eq!(path, "kv/");
        }
        WalkAction::Finished(_) => panic!("the walk must list its start path"),
    }
    let action = walk.receive(vec!["zeta".to_string(), "d/".to_string(), "alpha".to_string()]);
    match action {
        WalkAction::List { path, .. } => assert_eq!(path, "kv/d/"),
        WalkAction::Finished(_) => panic!("the folder must be listed"),
    }
    let action = walk.receive(vec!["inner".to_string()]);
    match action {
        WalkAction::Finished(found) => assert_eq!(found, vec!["kv/zeta", "kv/d/inner", "kv/alpha"]),
        WalkAction::List { .. } => panic!("nothing is left to list"),
    }
    assert!(!walk.is_waiting());
}

#[test]
fn layout_spellings() {
    assert_eq!(parse_kv_version("1"), Some(KvVersion::V1));
    assert_eq!(parse_kv_version("2"), Some(KvVersion::V2));
    assert_eq!(parse_kv_version("3"), None);
    assert_eq!(parse_kv_version(""), None);
    assert_eq!(parse_kv_version("22"), None);
    assert_eq!(parse_kv_version(" 2"), None);
    assert_eq!(parse_kv_version("v2"), None);
}
