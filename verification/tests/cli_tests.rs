use nftables::cli::{collect_command_args, deserialize_stdin, handle_args, Command, DEFAULT_SCHEMA_PATH};
use nftables::codec::TextError;
use nftables::schema::Nftables;

fn strings(items: &[&str]) -> Vec<String> {
    items.iter().map(|x| x.to_string()).collect()
}

#[test]
fn test_collect_command_args() {
    assert_eq!(collect_command_args(strings(&["/usr/bin/nftables", "schema", "out.json"])), strings(&["schema", "out.json"]));
    assert_eq!(collect_command_args(strings(&["/usr/bin/nftables"])), strings(&[]));
    assert_eq!(collect_command_args(vec![]), strings(&[]));
}

#[test]
fn test_handle_args_schema_default_path() {
    assert_eq!(handle_args(strings(&["schema"])), Command::Schema("./nftables.schema.json".to_string()));
    assert_eq!(DEFAULT_SCHEMA_PATH, "./nftables.schema.json");
}

#[test]
fn test_handle_args_schema_custom_path() {
    assert_eq!(
        handle_args(strings(&["schema", "/tmp/test_nftables.schema.json"])),
        Command::Schema("/tmp/test_nftables.schema.json".to_string())
    );
    assert_eq!(
        handle_args(strings(&["schema", "a.json", "b.json"])),
        Command::Schema("a.json".to_string())
    );
}

#[test]
fn test_handle_args_without_arguments() {
    assert_eq!(handle_args(vec![]), Command::DeserializeStdin);
}

#[test]
fn test_handle_args_unknown_command() {
    assert_eq!(handle_args(strings(&["scheme"])), Command::Unknown("scheme".to_string()));
    assert_eq!(handle_args(strings(&["", "schema"])), Command::Unknown("".to_string()));
    assert_eq!(handle_args(strings(&["Schema"])), Command::Unknown("Schema".to_string()));
}

#[test]
fn test_deserialize_stdin() {
    assert_eq!(deserialize_stdin("{\"nftables\": []}"), Ok(Nftables { objects: vec![] }));
    assert!(matches!(deserialize_stdin("not json"), Err(TextError::Syntax(_))));
    assert!(matches!(deserialize_stdin("{\"nftables\": 1}"), Err(TextError::Decode(_))));
}
