use nftables::batch::Batch;
use nftables::codec::{encode, TextError};
use nftables::expr::Expression;
use nftables::helper::{
    apply_and_return_ruleset, apply_and_return_ruleset_with_args, apply_ruleset, apply_ruleset_raw,
    apply_ruleset_with_args, finish, get_current_ruleset, get_current_ruleset_raw,
    get_current_ruleset_with_args, read_outcome, read_output, NftCall, NftExecutableError,
    NftExpect, NftOutcome, NftResult, NFT_EXECUTABLE,
};
use nftables::schema::{
    Chain, Element, FlushObject, MapObject, NfCmd, NfListObject, NfObject, Nftables, Rule,
    SetObject, SetType, SetTypeValue, Table,
};
use nftables::stmt::{AnonymousCounter, Counter, Statement};
use nftables::types::NfFamily;

fn s(text: &str) -> String {
    text.to_string()
}

fn strings(items: &[&str]) -> Vec<String> {
    items.iter().map(|x| x.to_string()).collect()
}

fn table(family: NfFamily, name: &str) -> Table {
    Table { family, name: s(name), handle: None }
}

fn exited(success: bool, stdout: &str, stderr: &str) -> NftOutcome {
    NftOutcome::Exited { success, stdout: stdout.as_bytes().to_vec(), stderr: stderr.as_bytes().to_vec() }
}

fn example_ruleset(with_undo: bool) -> Nftables {
    let mut batch = Batch::new();
    // create table "test-table-01"
    let table_name = "test-table-01";
    batch.add(NfListObject::Table(table(NfFamily::IP, table_name)));
    // create named set "test_set"
    let set_name = "test_set";
    batch.add(NfListObject::SetObject(Box::new(SetObject {
        family: NfFamily::IP,
        table: s(table_name),
        name: s(set_name),
        handle: None,
        set_type: SetTypeValue::Single(SetType::Ipv4Addr),
        policy: None,
        flags: None,
        elem: None,
        timeout: None,
        gc_interval: None,
        size: None,
        comment: None,
    })));
    // create named map "test_map"
    batch.add(NfListObject::MapObject(Box::new(MapObject {
        family: NfFamily::IP,
        table: s(table_name),
        name: s("test_map"),
        handle: None,
        map: SetTypeValue::Single(SetType::EtherAddr),
        set_type: SetTypeValue::Single(SetType::Ipv4Addr),
        policy: None,
        flags: None,
        elem: None,
        timeout: None,
        gc_interval: None,
        size: None,
        comment: None,
    })));
    // add element to set
    batch.add(NfListObject::Element(Element {
        family: NfFamily::IP,
        table: s(table_name),
        name: s(set_name),
        elem: vec![Expression::String(s("127.0.0.1")), Expression::String(s("127.0.0.2"))],
    }));
    if with_undo {
        batch.delete(NfListObject::Table(table(NfFamily::IP, "test-table-01")));
    }
    batch.to_document()
}

fn get_flush_ruleset() -> Nftables {
    let mut batch = Batch::new();
    batch.add_cmd(NfCmd::Flush(FlushObject::Ruleset(None)));
    batch.to_document()
}

#[test]
fn test_list_ruleset() {
    let call = get_current_ruleset();
    assert_eq!(
        call,
        NftCall {
            program: s("nft"),
            args: strings(&["-j", "list", "ruleset"]),
            stdin: None,
            hint: s("getting the current ruleset"),
            expect: NftExpect::Ruleset,
        }
    );
    assert_eq!(NFT_EXECUTABLE, "nft");
    let listed = finish(&call, exited(true, "{\"nftables\": [{\"flush\": {\"ruleset\": null}}]}", ""));
    assert_eq!(listed, Ok(NftResult::Ruleset(get_flush_ruleset())));
}

#[test]
fn test_list_ruleset_invalid_program() {
    let call = get_current_ruleset_with_args(Some("/dev/null/nft"), &vec![]);
    assert_eq!(call.program, "/dev/null/nft");
    assert_eq!(call.args, strings(&["-j", "list", "ruleset"]));
    let result = finish(&call, NftOutcome::NotRun { reason: s("Not a directory (os error 20)") });
    let err = result.expect_err("getting the current ruleset should fail with non-existing nft binary");
    assert!(matches!(err, NftExecutableError::NftExecution { .. }));
    assert_eq!(
        err,
        NftExecutableError::NftExecution { program: s("/dev/null/nft"), inner: s("Not a directory (os error 20)") }
    );
}

#[test]
fn test_nft_args_list_map_set() {
    let ruleset = example_ruleset(false);
    assert_eq!(ruleset.objects.len(), 4);
    let call = get_current_ruleset_with_args(None, &strings(&["list", "map", "ip", "test-table-01", "test_map"]));
    assert_eq!(call.program, "nft");
    assert_eq!(call.args, strings(&["-j", "list", "map", "ip", "test-table-01", "test_map"]));
    // nft returns two list objects: metainfo and the map
    let output = "{\"nftables\": [{\"metainfo\": {\"version\": \"1.0.9\", \"release_name\": \"Old Doc Yak #3\", \"json_schema_version\": 1}}, {\"map\": {\"family\": \"ip\", \"name\": \"test_map\", \"table\": \"test-table-01\", \"type\": \"ipv4_addr\", \"handle\": 2, \"map\": \"ether_addr\"}}]}";
    match finish(&call, exited(true, output, "")) {
        Ok(NftResult::Ruleset(applied)) => assert_eq!(2, applied.objects.len()),
        other => panic!("{:?}", other),
    }
    let call = get_current_ruleset_with_args(None, &strings(&["list", "set", "ip", "test-table-01", "test_set"]));
    assert_eq!(call.args, strings(&["-j", "list", "set", "ip", "test-table-01", "test_set"]));
    let output = "{\"nftables\": [{\"metainfo\": {\"version\": \"1.0.9\", \"release_name\": \"Old Doc Yak #3\", \"json_schema_version\": 1}}, {\"set\": {\"family\": \"ip\", \"name\": \"test_set\", \"table\": \"test-table-01\", \"type\": \"ipv4_addr\", \"handle\": 1, \"elem\": [\"127.0.0.1\", \"127.0.0.2\"]}}]}";
    match finish(&call, exited(true, output, "")) {
        Ok(NftResult::Ruleset(applied)) => assert_eq!(2, applied.objects.len()),
        other => panic!("{:?}", other),
    }
}

#[test]
fn test_regr_anoncounter_none() {
    let mut batch = Batch::new();
    // create table "test-table-02" and chain "test-chain-02".
    let table_name = "test-table-02";
    batch.add(NfListObject::Table(table(NfFamily::IP, table_name)));
    batch.add(NfListObject::Chain(Chain {
        family: NfFamily::IP,
        table: s(table_name),
        name: s("test-chain-02"),
        newname: None,
        handle: None,
        _type: None,
        hook: None,
        prio: None,
        dev: None,
        policy: None,
    }));
    // create rule with multiple forms of anonymous counters.
    batch.add(NfListObject::Rule(Rule {
        chain: s("test-chain-02"),
        family: NfFamily::IP,
        table: s(table_name),
        expr: vec![
            Statement::Counter(Counter::Anonymous(Some(AnonymousCounter { packets: None, bytes: None }))),
            Statement::Counter(Counter::Anonymous(Some(AnonymousCounter { packets: Some(0), bytes: Some(0) }))),
        ],
        handle: None,
        index: None,
        comment: None,
    }));
    let ruleset = batch.to_document();

    let call = apply_ruleset(&ruleset);
    let payload = call.stdin.clone().expect("a ruleset is applied from the standard input");
    assert!(payload.contains("\"expr\":[{\"counter\":{\"packets\":0,\"bytes\":0}},{\"counter\":{\"packets\":0,\"bytes\":0}}]"));
    let result = finish(&call, exited(true, "", ""));
    assert!(result.is_ok());
    assert_eq!(result, Ok(NftResult::Done));
}

#[test]
fn test_apply_ruleset() {
    let ruleset = example_ruleset(true);
    let call = apply_ruleset(&ruleset);
    assert_eq!(
        call,
        NftCall {
            program: s("nft"),
            args: strings(&["-j", "-f", "-"]),
            stdin: Some(encode(&ruleset)),
            hint: s("applying ruleset"),
            expect: NftExpect::Nothing,
        }
    );
    assert_eq!(ruleset.objects.len(), 5);
    assert!(matches!(ruleset.objects[4], NfObject::CmdObject(NfCmd::Delete(NfListObject::Table(_)))));
    assert_eq!(finish(&call, exited(true, "", "")), Ok(NftResult::Done));
}

#[test]
fn test_remove_unknown_table() {
    let mut batch = Batch::new();
    batch.delete(NfListObject::Table(table(NfFamily::IP6, "i-do-not-exist")));
    let ruleset = batch.to_document();

    let call = apply_ruleset(&ruleset);
    assert_eq!(
        call.stdin,
        Some(s("{\"nftables\":[{\"delete\":{\"table\":{\"family\":\"ip6\",\"name\":\"i-do-not-exist\"}}}]}"))
    );
    let result = finish(&call, exited(false, "", "Error: No such file or directory\n"));
    let err = result.expect_err("Expecting nftables error for unknown table.");
    assert!(matches!(err, NftExecutableError::NftFailed { .. }));
    assert_eq!(
        err,
        NftExecutableError::NftFailed {
            program: s("nft"),
            hint: s("applying ruleset"),
            stdout: s(""),
            stderr: s("Error: No such file or directory\n"),
        }
    );
}

#[test]
fn test_get_calls() {
    let raw = get_current_ruleset_raw(None, &vec![]);
    assert_eq!(raw.args, strings(&["-j", "list", "ruleset"]));
    assert_eq!(raw.expect, NftExpect::Text);
    assert_eq!(raw.stdin, None);
    let raw = get_current_ruleset_raw(Some("/usr/sbin/nft"), &strings(&["-a", "list", "tables"]));
    assert_eq!(raw.program, "/usr/sbin/nft");
    assert_eq!(raw.args, strings(&["-j", "-a", "list", "tables"]));
    assert_eq!(raw.hint, "getting the current ruleset");
}

#[test]
fn test_apply_calls() {
    let doc = get_flush_ruleset();
    let raw = apply_ruleset_raw("payload", Some("nft2"), &strings(&["-c"]));
    assert_eq!(
        raw,
        NftCall {
            program: s("nft2"),
            args: strings(&["-c", "-j", "-f", "-"]),
            stdin: Some(s("payload")),
            hint: s("applying ruleset"),
            expect: NftExpect::Text,
        }
    );
    let with_args = apply_ruleset_with_args(&doc, None, &strings(&["-c", "-n"]));
    assert_eq!(with_args.args, strings(&["-c", "-n", "-j", "-f", "-"]));
    assert_eq!(with_args.stdin, Some(s("{\"nftables\":[{\"flush\":{\"ruleset\":null}}]}")));
    assert_eq!(with_args.expect, NftExpect::Nothing);
    let echo = apply_and_return_ruleset(&doc);
    assert_eq!(echo.program, "nft");
    assert_eq!(echo.args, strings(&["--echo", "-j", "-f", "-"]));
    assert_eq!(echo.expect, NftExpect::Ruleset);
    assert_eq!(echo.stdin, with_args.stdin);
    let echo = apply_and_return_ruleset_with_args(&doc, Some("nft3"), &strings(&["-c"]));
    assert_eq!(echo.program, "nft3");
    assert_eq!(echo.args, strings(&["-c", "--echo", "-j", "-f", "-"]));
}

#[test]
fn test_finish_gives_what_the_call_asks_for() {
    let doc = get_flush_ruleset();
    let text = "{\"nftables\": [{\"flush\": {\"ruleset\": null}}]}";
    assert_eq!(finish(&apply_ruleset(&doc), exited(true, text, "")), Ok(NftResult::Done));
    assert_eq!(finish(&apply_ruleset(&doc), exited(true, "no json", "")), Ok(NftResult::Done));
    assert_eq!(
        finish(&apply_ruleset_raw(text, None, &vec![]), exited(true, "out", "warn")),
        Ok(NftResult::Text(s("out")))
    );
    assert_eq!(
        finish(&get_current_ruleset_raw(None, &vec![]), exited(true, text, "")),
        Ok(NftResult::Text(s(text)))
    );
    assert_eq!(finish(&apply_and_return_ruleset(&doc), exited(true, text, "")), Ok(NftResult::Ruleset(doc)));
}

#[test]
fn test_finish_errors() {
    let call = get_current_ruleset();
    assert_eq!(
        finish(&call, exited(false, "out", "err")),
        Err(NftExecutableError::NftFailed {
            program: s("nft"),
            hint: s("getting the current ruleset"),
            stdout: s("out"),
            stderr: s("err"),
        })
    );
    let bad = vec![0xff_u8, 0xfe];
    assert_eq!(
        finish(&call, NftOutcome::Exited { success: true, stdout: bad.clone(), stderr: vec![] }),
        Err(NftExecutableError::NftOutputEncoding { program: s("nft"), valid_up_to: 0 })
    );
    // The standard output is read first, whether the call succeeded or not.
    assert_eq!(
        finish(&call, NftOutcome::Exited { success: false, stdout: bad.clone(), stderr: b"err".to_vec() }),
        Err(NftExecutableError::NftOutputEncoding { program: s("nft"), valid_up_to: 0 })
    );
    assert_eq!(
        finish(&call, NftOutcome::Exited { success: false, stdout: b"out".to_vec(), stderr: bad.clone() }),
        Err(NftExecutableError::NftOutputEncoding { program: s("nft"), valid_up_to: 0 })
    );
    // The error output of a call that succeeded is not read.
    assert_eq!(
        finish(
            &get_current_ruleset_raw(None, &vec![]),
            NftOutcome::Exited { success: true, stdout: b"out".to_vec(), stderr: bad }
        ),
        Ok(NftResult::Text(s("out")))
    );
    assert!(matches!(
        finish(&call, exited(true, "{\"nftables\": [", "")),
        Err(NftExecutableError::NftInvalidJson(TextError::Syntax(_)))
    ));
    assert!(matches!(
        finish(&call, exited(true, "{\"nftables\": [{\"table\": {}}]}", "")),
        Err(NftExecutableError::NftInvalidJson(TextError::Decode(_)))
    ));
}

#[test]
fn test_read_output() {
    assert_eq!(read_output("nft", b"plain".to_vec()), Ok(s("plain")));
    assert_eq!(read_output("nft", "käse €".as_bytes().to_vec()), Ok(s("käse €")));
    assert_eq!(read_output("nft", vec![]), Ok(s("")));
    assert_eq!(
        read_output("prog", vec![b'a', 0x80]),
        Err(NftExecutableError::NftOutputEncoding { program: s("prog"), valid_up_to: 1 })
    );
    // A character that is cut short: the bytes before it are all that is UTF-8.
    assert_eq!(
        read_output("prog", vec![b'k', 0xc3, 0xa4, b's', 0xe2, 0x82]),
        Err(NftExecutableError::NftOutputEncoding { program: s("prog"), valid_up_to: 4 })
    );
    let call = get_current_ruleset();
    assert_eq!(read_outcome(&call, exited(true, "x", "y")), Ok(s("x")));
}
