use cxd::command::Command;
use cxd::command_store::{
    arg_params, command_params, env_params, insert_reply, is_duplicate, pick_named, removed, CommandStore,
    SQLITE_CONSTRAINT_UNIQUE,
};
use cxd::error::CxdError;
use cxd::rows::SqlValue;

fn open() -> CommandStore {
    CommandStore::new(":memory:").expect("an in-memory store opens")
}

fn cmd(name: &str, command: &str, dir: Option<&str>, args: &[&str], envs: &[(&str, &str)]) -> Command {
    Command {
        id: 0,
        name: name.to_string(),
        command: command.to_string(),
        dir: dir.map(|d| d.to_string()),
        args: args.iter().map(|a| a.to_string()).collect(),
        envs: envs.iter().map(|(k, v)| (k.to_string(), v.to_string())).collect(),
    }
}

#[test]
fn add_short() {
    let store = open();
    let id = store.insert(&cmd("test", "echo", None, &["hi"], &[])).unwrap();
    assert!(id.is_some());
    let got = store.get_by_name("test").unwrap().unwrap();
    assert_eq!(got.name, "test");
    assert_eq!(got.command, "echo");
    assert_eq!(got.args, vec!["hi".to_string()]);
}

#[test]
fn add_long() {
    let store = open();
    assert!(store.insert(&cmd("test", "echo", None, &["hi"], &[])).unwrap().is_some());
    let all = store.fetch_all().unwrap();
    assert_eq!(all.len(), 1);
    assert_eq!(all[0].name, "test");
}

#[test]
fn cwd_long() {
    let store = open();
    assert!(store.insert(&cmd("test", "pwd", Some("/work/project"), &[], &[])).unwrap().is_some());
    let got = store.get_by_name("test").unwrap().unwrap();
    assert_eq!(got.dir, Some("/work/project".to_string()));
}

#[test]
fn add_env_long() {
    let store = open();
    let c = cmd("test", "printenv", None, &["CXD_TEST"], &[("CXD_TEST", "hi")]);
    assert!(store.insert(&c).unwrap().is_some());
    let got = store.get_by_name("test").unwrap().unwrap();
    assert_eq!(got.envs, vec![("CXD_TEST".to_string(), "hi".to_string())]);
    assert_eq!(got.args, vec!["CXD_TEST".to_string()]);
}

#[test]
fn add_env_multiple() {
    let store = open();
    let c = cmd(
        "test",
        "sh",
        None,
        &["-c", "printenv CXD_TEST1 && printenv CXD_TEST2"],
        &[("CXD_TEST1", "hi"), ("CXD_TEST2", "there")],
    );
    assert!(store.insert(&c).unwrap().is_some());
    let got = store.get_by_name("test").unwrap().unwrap();
    assert_eq!(got.envs.len(), 2);
    assert!(got.envs.contains(&("CXD_TEST1".to_string(), "hi".to_string())));
    assert!(got.envs.contains(&("CXD_TEST2".to_string(), "there".to_string())));
    assert_eq!(got.args[1], "printenv CXD_TEST1 && printenv CXD_TEST2");
}

#[test]
fn remove_short() {
    let store = open();
    assert!(store.insert(&cmd("test", "echo", Some("/work"), &[], &[])).unwrap().is_some());
    assert!(store.delete_by_name("test").unwrap());
    assert!(store.get_by_name("test").unwrap().is_none());
}

#[test]
fn remove_long() {
    let store = open();
    assert!(store.insert(&cmd("test", "echo", Some("/work"), &[], &[])).unwrap().is_some());
    assert!(store.delete_by_name("test").unwrap());
    assert!(store.fetch_all().unwrap().is_empty());
}

#[test]
fn id_short() {
    let store = open();
    let id = store.insert(&cmd("test", "echo", Some("/work"), &[], &[])).unwrap();
    assert_eq!(id, Some(1));
    assert!(store.delete_by_id(1).unwrap());
    assert!(store.get_by_name("test").unwrap().is_none());
}

#[test]
fn id_long() {
    let store = open();
    assert_eq!(store.insert(&cmd("test", "echo", Some("/work"), &[], &[])).unwrap(), Some(1));
    assert!(store.delete_by_id(1).unwrap());
    assert!(store.fetch_all().unwrap().is_empty());
}

#[test]
fn duplicate_name_is_reported_and_changes_nothing() {
    let store = open();
    let first = cmd("build", "make", Some("/a"), &["all"], &[("CC", "gcc")]);
    let id = store.insert(&first).unwrap().unwrap();
    let second = cmd("build", "cargo", Some("/b"), &["build"], &[]);
    assert_eq!(store.insert(&second).unwrap(), None);
    let global = cmd("build", "ninja", None, &[], &[]);
    assert_eq!(store.insert(&global).unwrap(), None);
    let all = store.fetch_all().unwrap();
    assert_eq!(all.len(), 1);
    assert_eq!(all[0].id, id);
    assert_eq!(all[0].command, "make");
    assert_eq!(all[0].dir, Some("/a".to_string()));
    assert_eq!(all[0].args, vec!["all".to_string()]);
    assert_eq!(all[0].envs, vec![("CC".to_string(), "gcc".to_string())]);
}

#[test]
fn round_trip_keeps_arguments_and_environment() {
    let store = open();
    let c = cmd("deploy", "rsync", Some("/srv"), &["-a", "b", "-a", ""], &[("A", "1"), ("B", "2"), ("C", "")]);
    let id = store.insert(&c).unwrap().unwrap();
    assert_ne!(id, 0);
    let got = store.get_by_name("deploy").unwrap().unwrap();
    assert_eq!(got.id, id);
    assert_eq!(got.command, c.command);
    assert_eq!(got.dir, c.dir);
    assert_eq!(got.args, c.args);
    assert_eq!(got.envs, c.envs);
}

#[test]
fn round_trip_of_empty_command() {
    let store = open();
    let c = cmd("x", "true", None, &[], &[]);
    let id = store.insert(&c).unwrap().unwrap();
    let got = store.get_by_name("x").unwrap().unwrap();
    assert_eq!(got.id, id);
    assert_eq!(got.dir, None);
    assert!(got.args.is_empty());
    assert!(got.envs.is_empty());
}

#[test]
fn ids_are_fresh_and_not_reused() {
    let store = open();
    let a = store.insert(&cmd("a", "true", None, &[], &[])).unwrap().unwrap();
    let b = store.insert(&cmd("b", "true", None, &[], &[])).unwrap().unwrap();
    assert_ne!(a, b);
    assert!(store.delete_by_id(b).unwrap());
    let c = store.insert(&cmd("c", "true", None, &[], &[])).unwrap().unwrap();
    assert!(c != a && c != b);
}

#[test]
fn delete_cascades_to_arguments_and_environment() {
    let store = open();
    let id = store.insert(&cmd("a", "echo", None, &["1", "2"], &[("K", "V")])).unwrap().unwrap();
    assert!(store.delete_by_id(id).unwrap());
    // A command inserted afresh under the same name owns nothing of the old one.
    let id2 = store.insert(&cmd("a", "echo", None, &[], &[])).unwrap().unwrap();
    assert_ne!(id, id2);
    let got = store.get_by_name("a").unwrap().unwrap();
    assert!(got.args.is_empty());
    assert!(got.envs.is_empty());
}

#[test]
fn deleting_nothing_returns_false() {
    let store = open();
    assert!(!store.delete_by_id(42).unwrap());
    assert!(!store.delete_by_name("missing").unwrap());
    assert!(store.insert(&cmd("a", "true", None, &[], &[])).unwrap().is_some());
    assert!(store.delete_by_name("a").unwrap());
    assert!(!store.delete_by_name("a").unwrap());
}

#[test]
fn lookup_of_missing_name_is_none() {
    let store = open();
    assert!(store.get_by_name("nothing").unwrap().is_none());
}

#[test]
fn duplicate_code_is_recognised() {
    assert!(is_duplicate(Some(SQLITE_CONSTRAINT_UNIQUE)));
    assert!(is_duplicate(Some(2067)));
    assert!(!is_duplicate(Some(1555)));
    assert!(!is_duplicate(Some(19)));
    assert!(!is_duplicate(None));
}

fn count(c: &rusqlite::Connection, sql: &str, id: i64) -> i64 {
    c.query_row(sql, [id], |r| r.get(0)).unwrap()
}

#[test]
fn cascade_leaves_no_dependent_rows() {
    let uri = "file:cascade_rows?mode=memory&cache=shared";
    let store = CommandStore::new(uri).unwrap();
    let probe = rusqlite::Connection::open(uri).unwrap();
    let id = store
        .insert(&cmd("a", "echo", Some("/w"), &["1", "2", "3"], &[("K", "V"), ("L", "W")]))
        .unwrap()
        .unwrap();
    let keep = store.insert(&cmd("b", "echo", None, &["x"], &[("M", "N")])).unwrap().unwrap();
    let args = "SELECT COUNT(*) FROM cxd_arg WHERE cmd_id = ?1";
    let envs = "SELECT COUNT(*) FROM cxd_env WHERE cmd_id = ?1";
    assert_eq!(count(&probe, args, id), 3);
    assert_eq!(count(&probe, envs, id), 2);
    assert!(store.delete_by_id(id).unwrap());
    assert_eq!(count(&probe, args, id), 0);
    assert_eq!(count(&probe, envs, id), 0);
    assert_eq!(count(&probe, args, keep), 1);
    assert_eq!(count(&probe, envs, keep), 1);
    assert!(store.delete_by_name("b").unwrap());
    assert_eq!(count(&probe, args, keep), 0);
    assert_eq!(count(&probe, envs, keep), 0);
}

#[test]
fn duplicate_insert_leaves_row_counts_unchanged() {
    let uri = "file:duplicate_rows?mode=memory&cache=shared";
    let store = CommandStore::new(uri).unwrap();
    let probe = rusqlite::Connection::open(uri).unwrap();
    let id = store.insert(&cmd("same", "a", None, &["1"], &[("K", "V")])).unwrap().unwrap();
    assert_eq!(store.insert(&cmd("same", "b", Some("/d"), &["2", "3"], &[("X", "Y")])).unwrap(), None);
    let total = |sql: &str| -> i64 { probe.query_row(sql, [], |r| r.get(0)).unwrap() };
    assert_eq!(total("SELECT COUNT(*) FROM cxd_cmd"), 1);
    assert_eq!(total("SELECT COUNT(*) FROM cxd_arg"), 1);
    assert_eq!(total("SELECT COUNT(*) FROM cxd_env"), 1);
    let got = store.get_by_name("same").unwrap().unwrap();
    assert_eq!((got.id, got.command.as_str()), (id, "a"));
}

#[test]
fn params_bound_for_rows() {
    let c = cmd("n", "c", None, &[], &[]);
    assert_eq!(command_params(&c), vec!["n".to_string(), "c".to_string(), String::new()]);
    let c = cmd("n", "c", Some("/d"), &[], &[]);
    assert_eq!(command_params(&c), vec!["n".to_string(), "c".to_string(), "/d".to_string()]);
    assert_eq!(arg_params(&"x".to_string()), vec!["x".to_string()]);
    assert_eq!(env_params(&("K".to_string(), "V".to_string())), vec!["K".to_string(), "V".to_string()]);
}

#[test]
fn insert_reply_rules() {
    assert!(matches!(
        insert_reply(Err(rusqlite::Error::QueryReturnedNoRows), Some(SQLITE_CONSTRAINT_UNIQUE)),
        Ok(None)
    ));
    assert!(matches!(
        insert_reply(Err(rusqlite::Error::QueryReturnedNoRows), Some(19)),
        Err(CxdError::Sql(rusqlite::Error::QueryReturnedNoRows))
    ));
    assert!(matches!(
        insert_reply(Err(rusqlite::Error::InvalidColumnIndex(3)), None),
        Err(CxdError::Sql(rusqlite::Error::InvalidColumnIndex(3)))
    ));
    assert!(matches!(insert_reply(Ok(vec![vec![SqlValue::Integer(7)]]), None), Ok(Some(7))));
    assert!(matches!(insert_reply(Ok(vec![]), None), Err(CxdError::RowDecode { column: 0 })));
    assert!(matches!(
        insert_reply(Ok(vec![vec![SqlValue::Text("7".to_string())]]), None),
        Err(CxdError::RowDecode { column: 0 })
    ));
}

#[test]
fn pick_named_and_removed() {
    assert_eq!(pick_named(vec![cmd("a", "c", None, &[], &[])], "a").map(|c| c.name), Some("a".to_string()));
    assert!(pick_named(vec![cmd("a", "c", None, &[], &[])], "b").is_none());
    assert!(pick_named(vec![], "a").is_none());
    assert!(!removed(&vec![]));
    assert!(removed(&vec![vec![SqlValue::Integer(1)]]));
}

#[test]
fn second_delete_removes_nothing() {
    let store = open();
    let id = store.insert(&cmd("a", "true", None, &[], &[])).unwrap().unwrap();
    assert!(store.delete_by_id(id).unwrap());
    assert!(!store.delete_by_id(id).unwrap());
}

#[test]
fn init_creates_relations_idempotently() {
    let c = rusqlite::Connection::open_in_memory().unwrap();
    assert!(cxd::rows::CmdRow::init(&c).is_ok());
    assert!(cxd::rows::ArgRow::init(&c).is_ok());
    assert!(cxd::rows::EnvRow::init(&c).is_ok());
    assert!(cxd::rows::CmdRow::init(&c).is_ok());
    assert!(cxd::rows::ArgRow::init(&c).is_ok());
    assert!(cxd::rows::EnvRow::init(&c).is_ok());
    let n: i64 = c
        .query_row("SELECT COUNT(*) FROM sqlite_master WHERE type = 'table' AND name LIKE 'cxd_%'", [], |r| r.get(0))
        .unwrap();
    assert_eq!(n, 3);
}
