use shipyard::paths::{expand, expand_path, path_join, Env};
use shipyard::platform::{cache_dir, config_dir, current, data_dir, library_root_under, HostPlatform, Platform};
use shipyard::roms::library::library_root;
use shipyard::text::{parse_i64, parse_u32, to_ascii_lowercase, u64_to_string};

fn env(vars: &[(&str, &str)]) -> Env {
    Env { vars: vars.iter().map(|(k, v)| (k.to_string(), v.to_string())).collect() }
}

#[test]
fn expands_leading_tilde() {
    let e = env(&[("HOME", "/home/testuser")]);
    assert_eq!(expand("~", &e), "/home/testuser");
    assert_eq!(expand("~/personal/roms", &e), "/home/testuser/personal/roms");
}

#[test]
fn tilde_not_at_start_is_left_alone() {
    let e = env(&[("HOME", "/home/testuser")]);
    assert_eq!(expand("/opt/~/foo", &e), "/opt/~/foo");
    assert_eq!(expand("foo~bar", &e), "foo~bar");
}

#[test]
fn expands_dollar_var_and_braced() {
    let e = env(&[("SHIPYARD_TEST_USER", "jules")]);
    assert_eq!(expand("/home/$SHIPYARD_TEST_USER/x", &e), "/home/jules/x");
    assert_eq!(expand("/home/${SHIPYARD_TEST_USER}_bkp", &e), "/home/jules_bkp");
}

#[test]
fn unknown_var_is_preserved_literally() {
    let e = env(&[]);
    assert_eq!(expand("/x/$SHIPYARD_NO_SUCH_VAR/y", &e), "/x/$SHIPYARD_NO_SUCH_VAR/y");
    assert_eq!(expand("/x/${SHIPYARD_NO_SUCH_VAR}/y", &e), "/x/${SHIPYARD_NO_SUCH_VAR}/y");
}

#[test]
fn combined_tilde_and_env() {
    let e = env(&[("HOME", "/home/testuser"), ("SHIPYARD_SUB", "saves")]);
    assert_eq!(expand("~/$SHIPYARD_SUB/a", &e), "/home/testuser/saves/a");
}

#[test]
fn expand_path_roundtrip() {
    let e = env(&[("HOME", "/home/testuser")]);
    assert_eq!(expand_path("~/roms/oot.z64", &e), "/home/testuser/roms/oot.z64");
}

#[test]
fn tilde_without_home_is_kept() {
    assert_eq!(expand("~/x", &env(&[])), "~/x");
    assert_eq!(expand("$", &env(&[])), "$");
    assert_eq!(expand("${open", &env(&[("open", "no")])), "${open");
}

#[test]
fn join_follows_pathbuf_join() {
    assert_eq!(path_join("/a", "b"), "/a/b");
    assert_eq!(path_join("/a/", "b"), "/a/b");
    assert_eq!(path_join("/a", "/abs"), "/abs");
    assert_eq!(path_join("", "b"), "b");
}

#[test]
fn platforms_are_found_by_os_name() {
    assert_eq!(current("linux"), Some(HostPlatform::Linux));
    assert_eq!(current("macos"), Some(HostPlatform::MacOs));
    assert_eq!(current("windows"), None);
    assert_eq!(HostPlatform::MacOs.asset_keyword(), "Mac");
    assert_eq!(library_root_under("/data/Shipyard"), "/data/Shipyard/versions");
}

#[test]
fn text_helpers_match_std() {
    assert_eq!(parse_u32("+42"), Some(42));
    assert_eq!(parse_u32("4294967296"), None);
    assert_eq!(parse_u32(""), None);
    assert_eq!(parse_i64("-9223372036854775808"), Some(i64::MIN));
    assert_eq!(parse_i64("1e3"), None);
    assert_eq!(to_ascii_lowercase("SoH-Mac.ZIP"), "soh-mac.zip");
    assert_eq!(u64_to_string(0), "0");
    assert_eq!(u64_to_string(1234567890), "1234567890");
}

fn is_project_dir(p: &str) -> bool {
    p.ends_with("/shipyard") || p.ends_with("/Shipyard")
}

#[test]
fn project_directories_end_with_the_project_directory() {
    for d in [data_dir(), config_dir(), cache_dir()] {
        if let Some(p) = d {
            assert!(is_project_dir(&p), "{p}");
        }
    }
    for platform in [HostPlatform::Linux, HostPlatform::MacOs] {
        if let Some(root) = platform.default_library_root() {
            let base = root.strip_suffix("/versions").expect("under versions");
            assert!(is_project_dir(base), "{root}");
        }
        if let Some(root) = library_root(&platform) {
            let base = root.strip_suffix("/roms").expect("under roms");
            assert!(is_project_dir(base), "{root}");
        }
    }
}

#[test]
fn non_ascii_text_is_kept_as_written() {
    let e = env(&[("HOME", "/home/testuser"), ("GAME", "zelda")]);
    assert_eq!(expand("~/Spiele/Ökarina/$GAME", &e), "/home/testuser/Spiele/Ökarina/zelda");
    assert_eq!(expand("/roms/日本/${GAME}", &e), "/roms/日本/zelda");
}
