use cxd::command::Command;
use cxd::error::CxdError;
use cxd::rows::{ArgRow, CmdRow, EnvRow, SqlValue};

fn text(s: &str) -> SqlValue {
    SqlValue::Text(s.to_string())
}

#[test]
fn command_record_decodes() {
    let rec = vec![SqlValue::Integer(4), text("build"), text("make"), text("/src")];
    let row = CmdRow::from_record(&rec).ok().unwrap();
    assert_eq!(row.id, 4);
    assert_eq!(row.name, "build");
    assert_eq!(row.cmd, "make");
    assert_eq!(row.dir, "/src");
}

#[test]
fn command_record_of_wrong_shape_fails_at_first_bad_field() {
    let rec = vec![SqlValue::Integer(4), text("build"), SqlValue::Null, SqlValue::Integer(1)];
    assert!(matches!(CmdRow::from_record(&rec), Err(CxdError::RowDecode { column: 2 })));
    let rec = vec![text("4"), text("build"), text("make"), text("")];
    assert!(matches!(CmdRow::from_record(&rec), Err(CxdError::RowDecode { column: 0 })));
    let rec = vec![SqlValue::Integer(4), text("build"), text("make")];
    assert!(matches!(CmdRow::from_record(&rec), Err(CxdError::RowDecode { column: 3 })));
    assert!(matches!(CmdRow::from_record(&vec![]), Err(CxdError::RowDecode { column: 0 })));
}

#[test]
fn argument_and_environment_records_decode() {
    let a = ArgRow::from_record(&vec![SqlValue::Integer(1), SqlValue::Integer(9), text("-v")]).ok().unwrap();
    assert_eq!((a.id, a.cmd_id, a.data.as_str()), (1, 9, "-v"));
    let e = EnvRow::from_record(&vec![SqlValue::Integer(2), SqlValue::Integer(9), text("K"), text("V")])
        .ok()
        .unwrap();
    assert_eq!((e.id, e.cmd_id, e.key.as_str(), e.value.as_str()), (2, 9, "K", "V"));
    assert!(matches!(
        EnvRow::from_record(&vec![SqlValue::Integer(2), SqlValue::Integer(9), text("K"), SqlValue::Real]),
        Err(CxdError::RowDecode { column: 3 })
    ));
    assert!(matches!(
        ArgRow::from_record(&vec![SqlValue::Integer(2), SqlValue::Blob(vec![1]), text("x")]),
        Err(CxdError::RowDecode { column: 1 })
    ));
}

#[test]
fn many_records_decode_in_order() {
    let recs = vec![
        vec![SqlValue::Integer(1), SqlValue::Integer(9), text("a")],
        vec![SqlValue::Integer(2), SqlValue::Integer(9), text("b")],
    ];
    let rows = ArgRow::from_records(&recs).ok().unwrap();
    assert_eq!(rows.iter().map(|r| r.data.clone()).collect::<Vec<_>>(), vec!["a", "b"]);
    let bad = vec![vec![SqlValue::Integer(1), SqlValue::Integer(9), text("a")], vec![SqlValue::Integer(2), SqlValue::Integer(9)]];
    assert!(matches!(ArgRow::from_records(&bad), Err(CxdError::RowDecode { column: 2 })));
}

#[test]
fn command_assembles_from_rows() {
    let row = CmdRow { id: 3, name: "n".to_string(), cmd: "c".to_string(), dir: String::new() };
    let args = vec![
        ArgRow { id: 1, cmd_id: 3, data: "x".to_string() },
        ArgRow { id: 2, cmd_id: 3, data: "y".to_string() },
    ];
    let envs = vec![EnvRow { id: 1, cmd_id: 3, key: "K".to_string(), value: "V".to_string() }];
    let c = Command::new(row, args, envs);
    assert_eq!(c.id, 3);
    assert_eq!(c.dir, None);
    assert_eq!(c.args, vec!["x".to_string(), "y".to_string()]);
    assert_eq!(c.envs, vec![("K".to_string(), "V".to_string())]);
    let row = CmdRow { id: 3, name: "n".to_string(), cmd: "c".to_string(), dir: "/d".to_string() };
    assert_eq!(Command::new(row, vec![], vec![]).dir, Some("/d".to_string()));
}

#[test]
fn command_assembles_from_records() {
    let c = Command::from_records(
        &vec![SqlValue::Integer(8), text("n"), text("c"), text("/w")],
        &vec![vec![SqlValue::Integer(1), SqlValue::Integer(8), text("p")]],
        &vec![vec![SqlValue::Integer(1), SqlValue::Integer(8), text("K"), text("V")]],
    )
    .ok()
    .unwrap();
    assert_eq!(c.id, 8);
    assert_eq!(c.dir, Some("/w".to_string()));
    assert_eq!(c.args, vec!["p".to_string()]);
    assert_eq!(c.envs, vec![("K".to_string(), "V".to_string())]);
    assert!(Command::from_records(
        &vec![SqlValue::Integer(8), text("n"), text("c"), text("/w")],
        &vec![vec![SqlValue::Integer(1), SqlValue::Integer(8), SqlValue::Null]],
        &vec![],
    )
    .is_err());
}

fn sample(id: i64, dir: Option<&str>, args: &[&str], envs: &[(&str, &str)]) -> Command {
    Command {
        id,
        name: "test".to_string(),
        command: "echo".to_string(),
        dir: dir.map(|d| d.to_string()),
        args: args.iter().map(|a| a.to_string()).collect(),
        envs: envs.iter().map(|(k, v)| (k.to_string(), v.to_string())).collect(),
    }
}

#[test]
fn describe_with_one_env_pair_and_dir() {
    let c = sample(12, Some("/w"), &["hi", "there"], &[("A", "1")]);
    assert_eq!(c.describe(), "[12]: test\n  env: A=1\n  dir: /w\n  cmd: echo hi there");
}

#[test]
fn describe_with_many_env_pairs() {
    let c = sample(3, None, &["x"], &[("A", "1"), ("B", "2")]);
    assert_eq!(c.describe(), "[3]: test\n  env:\n    A=1\n    B=2\n  cmd: echo x");
}

#[test]
fn describe_bare_command() {
    assert_eq!(sample(0, None, &[], &[]).describe(), "[0]: test\n  cmd: echo ");
    assert_eq!(sample(-405, None, &[], &[]).describe(), "[-405]: test\n  cmd: echo ");
    assert_eq!(
        sample(i64::MIN, None, &["a"], &[]).describe(),
        "[-9223372036854775808]: test\n  cmd: echo a"
    );
    assert_eq!(sample(1234567890, None, &[], &[]).describe(), "[1234567890]: test\n  cmd: echo ");
}
