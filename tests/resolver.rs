use cxd::command::Command;
use cxd::command_store::CommandStore;
use cxd::resolver::{resolve, Resolution, Scope};

fn cmd(id: i64, name: &str, dir: Option<&str>) -> Command {
    Command {
        id,
        name: name.to_string(),
        command: "make".to_string(),
        dir: dir.map(|d| d.to_string()),
        args: vec![],
        envs: vec![],
    }
}

fn found_id(r: Resolution) -> Option<i64> {
    match r {
        Resolution::Found(c) => Some(c.id),
        _ => None,
    }
}

#[test]
fn current_directory_shadows_others() {
    let cmds = vec![cmd(1, "build", Some("/a")), cmd(2, "build", Some("/b"))];
    let r = resolve(cmds, "build", &Scope::Unscoped("/a".to_string()));
    assert_eq!(found_id(r), Some(1));
    let cmds = vec![cmd(1, "build", Some("/a")), cmd(2, "build", Some("/b"))];
    let r = resolve(cmds, "build", &Scope::Unscoped("/b".to_string()));
    assert_eq!(found_id(r), Some(2));
}

#[test]
fn ambiguous_lists_every_candidate() {
    let cmds = vec![cmd(1, "build", Some("/a")), cmd(7, "other", None), cmd(2, "build", Some("/b"))];
    match resolve(cmds, "build", &Scope::Unscoped("/c".to_string())) {
        Resolution::Ambiguous(cs) => {
            assert_eq!(cs.len(), 2);
            assert_eq!((cs[0].id, cs[0].dir.clone()), (1, Some("/a".to_string())));
            assert_eq!((cs[1].id, cs[1].dir.clone()), (2, Some("/b".to_string())));
        }
        _ => panic!("expected an ambiguous outcome"),
    }
}

#[test]
fn sole_match_is_found_from_elsewhere() {
    let cmds = vec![cmd(3, "deploy", Some("/a")), cmd(4, "build", None)];
    let r = resolve(cmds, "deploy", &Scope::Unscoped("/c".to_string()));
    assert_eq!(found_id(r), Some(3));
}

#[test]
fn unknown_name_is_not_found_in_every_scope() {
    for scope in [
        Scope::Global,
        Scope::Directory("/a".to_string()),
        Scope::Unscoped("/a".to_string()),
    ] {
        let cmds = vec![cmd(1, "build", Some("/a")), cmd(2, "test", None)];
        assert!(matches!(resolve(cmds, "deploy", &scope), Resolution::NotFound));
    }
    assert!(matches!(resolve(vec![], "x", &Scope::Global), Resolution::NotFound));
}

#[test]
fn strict_scope_never_falls_back() {
    let cmds = vec![cmd(1, "build", Some("/a"))];
    assert!(matches!(resolve(cmds, "build", &Scope::Global), Resolution::NotFound));
    let cmds = vec![cmd(1, "build", Some("/a"))];
    assert!(matches!(
        resolve(cmds, "build", &Scope::Directory("/b".to_string())),
        Resolution::NotFound
    ));
    let cmds = vec![cmd(1, "build", Some("/a")), cmd(2, "build", None)];
    assert_eq!(found_id(resolve(cmds, "build", &Scope::Directory("/a".to_string()))), Some(1));
    let cmds = vec![cmd(1, "build", Some("/a")), cmd(2, "build", None)];
    assert_eq!(found_id(resolve(cmds, "build", &Scope::Global)), Some(2));
}

#[test]
fn global_command_is_found_unscoped() {
    let cmds = vec![cmd(5, "fmt", None)];
    assert_eq!(found_id(resolve(cmds, "fmt", &Scope::Unscoped("/x".to_string()))), Some(5));
}

#[test]
fn store_resolves_by_name() {
    let store = CommandStore::new(":memory:").unwrap();
    let mut c = cmd(0, "deploy", Some("/a"));
    c.args = vec!["--prod".to_string()];
    let id = store.insert(&c).unwrap().unwrap();
    match store.resolve("deploy", &Scope::Unscoped("/c".to_string())).unwrap() {
        Resolution::Found(got) => {
            assert_eq!(got.id, id);
            assert_eq!(got.args, vec!["--prod".to_string()]);
        }
        _ => panic!("expected the sole match"),
    }
    assert!(matches!(
        store.resolve("deploy", &Scope::Global).unwrap(),
        Resolution::NotFound
    ));
    assert!(matches!(
        store.resolve("nothing", &Scope::Unscoped("/a".to_string())).unwrap(),
        Resolution::NotFound
    ));
}
