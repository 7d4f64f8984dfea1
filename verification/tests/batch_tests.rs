use nftables::batch::Batch;
use nftables::codec::encode;
use nftables::schema::{
    Chain, FlushObject, NfCmd, NfListObject, NfObject, Nftables, Rule, Table,
};
use nftables::stmt::{AnonymousCounter, Counter, Statement};
use nftables::types::NfFamily;

fn s(text: &str) -> String {
    text.to_string()
}

fn table(name: &str) -> NfListObject {
    NfListObject::Table(Table { family: NfFamily::IP, name: s(name), handle: None })
}

fn chain(table: &str, name: &str) -> NfListObject {
    NfListObject::Chain(Chain {
        family: NfFamily::IP,
        table: s(table),
        name: s(name),
        newname: None,
        handle: None,
        _type: None,
        hook: None,
        prio: None,
        dev: None,
        policy: None,
    })
}

fn rule(table: &str, chain: &str, expr: Vec<Statement>) -> Rule {
    Rule { family: NfFamily::IP, table: s(table), chain: s(chain), expr, handle: None, index: None, comment: None }
}

#[test]
fn test_empty_batch() {
    let batch = Batch::new();
    assert_eq!(batch.len(), 0);
    let doc = batch.to_document();
    assert_eq!(doc, Nftables { objects: vec![] });
    assert_eq!(encode(&doc), "{\"nftables\":[]}");
}

#[test]
fn test_commands_keep_their_order() {
    let mut batch = Batch::new();
    batch.add(table("t1"));
    batch.insert(chain("t1", "c1"));
    batch.replace(rule("t1", "c1", vec![]));
    batch.delete(table("t1"));
    batch.add_cmd(NfCmd::Flush(FlushObject::Ruleset(None)));
    batch.add_obj(table("t2"));
    assert_eq!(batch.len(), 6);
    assert_eq!(
        batch.to_document().objects,
        vec![
            NfObject::CmdObject(NfCmd::Add(table("t1"))),
            NfObject::CmdObject(NfCmd::Insert(chain("t1", "c1"))),
            NfObject::CmdObject(NfCmd::Replace(rule("t1", "c1", vec![]))),
            NfObject::CmdObject(NfCmd::Delete(table("t1"))),
            NfObject::CmdObject(NfCmd::Flush(FlushObject::Ruleset(None))),
            NfObject::ListObject(table("t2")),
        ]
    );
}

#[test]
fn test_the_same_object_twice() {
    let mut batch = Batch::new();
    batch.add(table("t1"));
    batch.add(table("t1"));
    batch.delete(table("t1"));
    assert_eq!(
        batch.to_document().objects,
        vec![
            NfObject::CmdObject(NfCmd::Add(table("t1"))),
            NfObject::CmdObject(NfCmd::Add(table("t1"))),
            NfObject::CmdObject(NfCmd::Delete(table("t1"))),
        ]
    );
}

#[test]
fn test_add_all_and_delete_all() {
    let mut batch = Batch::new();
    batch.add(table("t0"));
    batch.add_all(vec![table("t1"), table("t2"), table("t3")]);
    batch.delete_all(vec![table("t3"), table("t1")]);
    batch.add_all(vec![]);
    assert_eq!(
        batch.to_document().objects,
        vec![
            NfObject::CmdObject(NfCmd::Add(table("t0"))),
            NfObject::CmdObject(NfCmd::Add(table("t1"))),
            NfObject::CmdObject(NfCmd::Add(table("t2"))),
            NfObject::CmdObject(NfCmd::Add(table("t3"))),
            NfObject::CmdObject(NfCmd::Delete(table("t3"))),
            NfObject::CmdObject(NfCmd::Delete(table("t1"))),
        ]
    );
}

#[test]
fn test_many_commands_keep_their_order() {
    let mut batch = Batch::new();
    let mut expected = Vec::new();
    for i in 0..100 {
        let name = format!("t{}", i);
        if i % 3 == 0 {
            batch.delete(table(&name));
            expected.push(NfObject::CmdObject(NfCmd::Delete(table(&name))));
        } else {
            batch.add(table(&name));
            expected.push(NfObject::CmdObject(NfCmd::Add(table(&name))));
        }
    }
    assert_eq!(batch.len(), 100);
    assert_eq!(batch.to_document().objects, expected);
}

#[test]
fn test_a_document_is_not_changed_by_a_later_batch() {
    let mut first = Batch::new();
    first.add(table("t1"));
    let mut second = first.clone();
    let doc = first.to_document();
    second.add(table("t2"));
    assert_eq!(doc.objects.len(), 1);
    assert_eq!(second.to_document().objects.len(), 2);
}

#[test]
fn test_table_chain_rule_and_delete() {
    let mut batch = Batch::new();
    batch.add(table("t1"));
    batch.add(chain("t1", "c1"));
    batch.add(NfListObject::Rule(rule(
        "t1",
        "c1",
        vec![Statement::Counter(Counter::Anonymous(Some(AnonymousCounter { packets: None, bytes: None })))],
    )));
    batch.delete(table("t1"));
    let doc = batch.to_document();
    assert_eq!(doc.objects.len(), 4);
    assert!(matches!(doc.objects[0], NfObject::CmdObject(NfCmd::Add(NfListObject::Table(_)))));
    assert!(matches!(doc.objects[1], NfObject::CmdObject(NfCmd::Add(NfListObject::Chain(_)))));
    assert!(matches!(doc.objects[2], NfObject::CmdObject(NfCmd::Add(NfListObject::Rule(_)))));
    assert!(matches!(doc.objects[3], NfObject::CmdObject(NfCmd::Delete(NfListObject::Table(_)))));
    assert_eq!(
        encode(&doc),
        "{\"nftables\":[\
         {\"add\":{\"table\":{\"family\":\"ip\",\"name\":\"t1\"}}},\
         {\"add\":{\"chain\":{\"family\":\"ip\",\"table\":\"t1\",\"name\":\"c1\"}}},\
         {\"add\":{\"rule\":{\"family\":\"ip\",\"table\":\"t1\",\"chain\":\"c1\",\"expr\":[{\"counter\":{\"packets\":0,\"bytes\":0}}]}}},\
         {\"delete\":{\"table\":{\"family\":\"ip\",\"name\":\"t1\"}}}]}"
    );
}
