use std::collections::HashMap;

use tarball_store::archive::{ContentObject, StorePlan};
use tarball_store::error::FetchError;
use tarball_store::index::PackageIndex;
use tarball_store::store::{Stage, StoreReply, StoreRequest, StoreSession};

fn object(path: &str, contents: &[u8]) -> ContentObject {
    ContentObject { path: path.to_string(), contents: contents.to_vec() }
}

fn plan_of(objects: Vec<ContentObject>) -> StorePlan {
    let mut index = PackageIndex::new();
    for (i, o) in objects.iter().enumerate() {
        index.insert(format!("file{}", i), o.path.clone());
    }
    StorePlan { index, objects, index_file: object("ff/ff-index.json", b"{}") }
}

/// Carries the plan out against a store held in memory. Gives the session
/// at its end and the paths written, in order.
fn carry_out(plan: StorePlan, store: &mut HashMap<String, Vec<u8>>) -> (StoreSession, Vec<String>) {
    let mut session = StoreSession::new(plan);
    let mut writes = Vec::new();
    loop {
        let reply = match session.request() {
            StoreRequest::Probe { path } => {
                if store.contains_key(path) {
                    StoreReply::Present
                } else {
                    StoreReply::Absent
                }
            }
            StoreRequest::Write { path, contents } => {
                store.insert(path.to_string(), contents.to_vec());
                writes.push(path.to_string());
                StoreReply::Written
            }
            StoreRequest::Finished | StoreRequest::Stopped => break,
        };
        session.record(reply);
    }
    (session, writes)
}

#[test]
fn plan_is_carried_out_in_order() {
    let plan = plan_of(vec![object("aa/11", b"one"), object("bb/22", b"two")]);
    let mut store = HashMap::new();
    let (session, writes) = carry_out(plan.clone(), &mut store);
    assert_eq!(session.stage(), Stage::Done);
    assert_eq!(session.written(), 2);
    assert_eq!(writes, vec!["aa/11", "bb/22", "ff/ff-index.json"]);
    assert_eq!(store.len(), 3);
    assert_eq!(store["aa/11"], b"one".to_vec());
    assert_eq!(store["bb/22"], b"two".to_vec());
    assert_eq!(store["ff/ff-index.json"], b"{}".to_vec());
    assert_eq!(session.finish(), Ok(plan.index));
}

#[test]
fn second_run_writes_no_object() {
    let plan = plan_of(vec![object("aa/11", b"one"), object("bb/22", b"two")]);
    let mut store = HashMap::new();
    let (first, _) = carry_out(plan.clone(), &mut store);
    let after_first = store.clone();
    let (second, writes) = carry_out(plan.clone(), &mut store);
    assert_eq!(second.stage(), Stage::Done);
    assert_eq!(second.written(), 0);
    assert_eq!(writes, vec!["ff/ff-index.json"]);
    assert_eq!(store, after_first);
    assert_eq!(first.finish(), second.finish());
}

#[test]
fn object_that_is_present_is_never_overwritten() {
    let plan = plan_of(vec![object("aa/11", b"one"), object("bb/22", b"two")]);
    let mut store = HashMap::new();
    store.insert("aa/11".to_string(), b"kept as it was".to_vec());
    let (session, writes) = carry_out(plan, &mut store);
    assert_eq!(session.written(), 1);
    assert_eq!(writes, vec!["bb/22", "ff/ff-index.json"]);
    assert_eq!(store["aa/11"], b"kept as it was".to_vec());
}

#[test]
fn same_contents_twice_are_written_once() {
    let plan = plan_of(vec![object("aa/11", b"one"), object("aa/11", b"one")]);
    let mut store = HashMap::new();
    let (session, writes) = carry_out(plan, &mut store);
    assert_eq!(session.written(), 1);
    assert_eq!(writes, vec!["aa/11", "ff/ff-index.json"]);
}

#[test]
fn plan_without_objects_writes_the_index_only() {
    let mut store = HashMap::new();
    let (session, writes) = carry_out(plan_of(Vec::new()), &mut store);
    assert_eq!(session.stage(), Stage::Done);
    assert_eq!(session.written(), 0);
    assert_eq!(writes, vec!["ff/ff-index.json"]);
}

#[test]
fn requests_follow_the_answers() {
    let mut session = StoreSession::new(plan_of(vec![object("aa/11", b"one")]));
    assert_eq!(session.stage(), Stage::Probing);
    assert_eq!(session.request(), StoreRequest::Probe { path: "aa/11" });
    session.record(StoreReply::Absent);
    assert_eq!(session.stage(), Stage::Writing);
    assert_eq!(session.request(), StoreRequest::Write { path: "aa/11", contents: b"one" });
    session.record(StoreReply::Written);
    assert_eq!(session.stage(), Stage::Indexing);
    assert_eq!(
        session.request(),
        StoreRequest::Write { path: "ff/ff-index.json", contents: b"{}" }
    );
    session.record(StoreReply::Written);
    assert_eq!(session.stage(), Stage::Done);
    assert_eq!(session.request(), StoreRequest::Finished);
    session.record(StoreReply::Failed);
    assert_eq!(session.stage(), Stage::Done);
    assert_eq!(session.written(), 1);
}

#[test]
fn failure_of_the_store_stops_the_session() {
    for failing in 0..3 {
        let mut session = StoreSession::new(plan_of(vec![object("aa/11", b"one")]));
        let answers = [StoreReply::Absent, StoreReply::Written, StoreReply::Written];
        for (i, answer) in answers.iter().enumerate() {
            if i == failing {
                session.record(StoreReply::Failed);
                break;
            }
            session.record(*answer);
        }
        assert_eq!(session.stage(), Stage::Failed);
        assert_eq!(session.request(), StoreRequest::Stopped);
        session.record(StoreReply::Written);
        assert_eq!(session.stage(), Stage::Failed);
        assert_eq!(
            session.finish(),
            Err(FetchError::Io("the store could not be written".to_string()))
        );
    }
}

#[test]
fn answer_out_of_turn_is_a_failure() {
    let mut session = StoreSession::new(plan_of(vec![object("aa/11", b"one")]));
    session.record(StoreReply::Written);
    assert_eq!(session.stage(), Stage::Failed);
    let mut session = StoreSession::new(plan_of(vec![object("aa/11", b"one")]));
    session.record(StoreReply::Absent);
    session.record(StoreReply::Present);
    assert_eq!(session.stage(), Stage::Failed);
    let mut session = StoreSession::new(plan_of(Vec::new()));
    session.record(StoreReply::Absent);
    assert_eq!(session.stage(), Stage::Failed);
}

#[test]
fn unfinished_session_gives_no_index() {
    let session = StoreSession::new(plan_of(vec![object("aa/11", b"one")]));
    assert_eq!(
        session.finish(),
        Err(FetchError::Io("the store could not be written".to_string()))
    );
}
