use updates::derive::{DeploymentInfo, Origin};
use updates::pull::Resolution;
use updates::server::{Error as ServerError, Guard, Status};
use updates::session::{Action, Event, Operation, Session, UpdateRequest};
use updates::Error;

fn merged_deployment() -> Event {
    Event::StateRead {
        deployment: DeploymentInfo {
            osname: "rlxos".to_string(),
            csum: "CCCC".to_string(),
            serial: 0,
            origin: Some(Origin {
                refspec: "x86_64/os/local".to_string(),
                merged: true,
                channel: Some("stable".to_string()),
                extensions: Some("devtools;".to_string()),
            }),
        },
        metadata: vec![
            ("rlxos.revision.core".to_string(), "AAAA".to_string()),
            ("rlxos.revision.devtools".to_string(), "DDDD".to_string()),
        ],
        remotes: vec!["rlxos".to_string()],
    }
}

fn plain_deployment(csum: &str) -> Event {
    Event::StateRead {
        deployment: DeploymentInfo {
            osname: "rlxos".to_string(),
            csum: csum.to_string(),
            serial: 0,
            origin: Some(Origin {
                refspec: "rlxos:x86_64/os/stable".to_string(),
                merged: false,
                channel: None,
                extensions: None,
            }),
        },
        metadata: vec![],
        remotes: vec![],
    }
}

fn res(rev: &str) -> Resolution {
    Resolution { revision: Some(rev.to_string()), subject: Some("hello".to_string()), body: None }
}

fn start(op: Operation) -> Session {
    let (s, a) = Session::new(op, "x86_64".to_string()).step(Event::Done);
    assert!(matches!(a, Action::Lock));
    let (s, a) = s.step(Event::Done);
    assert!(matches!(a, Action::ReadState));
    s
}

fn wind_down(s: Session) -> Action {
    let (s, a) = s.step(Event::Done);
    assert!(matches!(a, Action::Cleanup));
    let (s, a) = s.step(Event::Done);
    assert!(s.is_done());
    a
}

#[test]
fn check_without_updates() {
    let s = start(Operation::Check);
    let (s, a) = s.step(plain_deployment("AAAA"));
    match a {
        Action::Pull(p) => {
            assert!(p.commit_only);
            assert_eq!(p.refs, vec!["x86_64/os/stable"]);
            assert_eq!(p.remote, "rlxos");
        }
        other => panic!("{other:?}"),
    }
    let (s, a) = s.step(Event::Pulled(vec![res("AAAA")]));
    assert!(matches!(a, Action::Unlock));
    match wind_down(s) {
        Action::Finish(Ok((changed, log))) => {
            assert!(!changed);
            assert_eq!(log, "");
        }
        other => panic!("{other:?}"),
    }
}

#[test]
fn check_never_deploys() {
    let s = start(Operation::Check);
    let (s, _) = s.step(plain_deployment("AAAA"));
    let (s, a) = s.step(Event::Pulled(vec![res("BBBB")]));
    assert!(matches!(a, Action::Unlock));
    match wind_down(s) {
        Action::Finish(Ok((changed, log))) => {
            assert!(changed);
            assert_eq!(log, "rlxos:x86_64/os/stable: hello\n\nrev: AAAA -> BBBB\n");
        }
        other => panic!("{other:?}"),
    }
}

#[test]
fn apply_base_only_update() {
    let s = start(Operation::Apply);
    let (s, _) = s.step(plain_deployment("AAAA"));
    let (s, a) = s.step(Event::Pulled(vec![res("BBBB")]));
    match a {
        Action::Deploy { revision, origin_refspec, origin_group } => {
            assert_eq!(revision, "BBBB");
            assert_eq!(origin_refspec, "rlxos:x86_64/os/stable");
            assert!(origin_group.is_none());
        }
        other => panic!("{other:?}"),
    }
    let (s, a) = s.step(Event::Done);
    assert!(matches!(a, Action::Unlock));
    assert!(matches!(wind_down(s), Action::Finish(Ok((true, _)))));
}

#[test]
fn apply_merged_update() {
    let s = start(Operation::Apply);
    let (s, _) = s.step(merged_deployment());
    let (s, a) = s.step(Event::Pulled(vec![res("BBBB"), res("DDDD")]));
    assert!(matches!(a, Action::PrepareTransaction));
    let (s, a) = s.step(Event::Done);
    match a {
        Action::WriteMerge(m) => {
            assert_eq!(m.base, "BBBB");
            assert_eq!(m.local_ref, "x86_64/os/local");
        }
        other => panic!("{other:?}"),
    }
    let (s, a) = s.step(Event::Merged("CCC2".to_string()));
    assert!(matches!(a, Action::CommitTransaction));
    let (s, a) = s.step(Event::Done);
    match a {
        Action::Deploy { revision, origin_refspec, origin_group } => {
            assert_eq!(revision, "CCC2");
            assert_eq!(origin_refspec, "x86_64/os/local");
            assert_eq!(origin_group.unwrap().extensions, "devtools;");
        }
        other => panic!("{other:?}"),
    }
    let (s, a) = s.step(Event::Done);
    assert!(matches!(a, Action::Unlock));
    assert!(matches!(wind_down(s), Action::Finish(Ok((true, _)))));
}

#[test]
fn failed_merge_is_aborted_and_nothing_is_deployed() {
    let s = start(Operation::Apply);
    let (s, _) = s.step(merged_deployment());
    let (s, _) = s.step(Event::Pulled(vec![res("BBBB"), res("DDDD")]));
    let (s, _) = s.step(Event::Done);
    let (s, a) = s.step(Event::Failed(Error::ObjectStore("disk full".to_string())));
    assert!(matches!(a, Action::AbortTransaction));
    let (s, a) = s.step(Event::Done);
    assert!(matches!(a, Action::Unlock));
    match wind_down(s) {
        Action::Finish(Err(Error::ObjectStore(m))) => assert_eq!(m, "disk full"),
        other => panic!("{other:?}"),
    }
}

#[test]
fn switch_to_an_unknown_channel_fails() {
    let s = start(Operation::Switch("testing".to_string()));
    let (s, a) = s.step(merged_deployment());
    match a {
        Action::Pull(p) => assert_eq!(p.refs, vec!["x86_64/os/testing", "x86_64/extension/devtools/testing"]),
        other => panic!("{other:?}"),
    }
    let (s, a) = s.step(Event::Pulled(vec![res("TTTT")]));
    assert!(matches!(a, Action::Unlock));
    match wind_down(s) {
        Action::Finish(Err(Error::NoRevisionForRefSpec(r))) => {
            assert_eq!(r, "rlxos:x86_64/extension/devtools/testing")
        }
        other => panic!("{other:?}"),
    }
}

#[test]
fn reset_drops_extensions() {
    let s = start(Operation::Reset("testing".to_string()));
    let (_, a) = s.step(merged_deployment());
    match a {
        Action::Pull(p) => assert_eq!(p.refs, vec!["x86_64/os/testing"]),
        other => panic!("{other:?}"),
    }
}

#[test]
fn add_extension_pulls_it() {
    let s = start(Operation::AddExtension(vec!["games".to_string(), String::new()]));
    let (_, a) = s.step(plain_deployment("AAAA"));
    match a {
        Action::Pull(p) => assert_eq!(p.refs, vec!["x86_64/os/stable", "x86_64/extension/games/stable"]),
        other => panic!("{other:?}"),
    }
}

#[test]
fn lock_failure_finishes_at_once() {
    let (s, _) = Session::new(Operation::Apply, "x86_64".to_string()).step(Event::Done);
    let (s, a) = s.step(Event::Failed(Error::FailedTryLock));
    assert!(s.is_done());
    assert!(matches!(a, Action::Finish(Err(Error::FailedTryLock))));
}

#[test]
fn read_failure_releases_the_lock() {
    let s = start(Operation::Apply);
    let (s, a) = s.step(Event::Failed(Error::NoBootDeployment));
    assert!(matches!(a, Action::Unlock));
    assert!(matches!(wind_down(s), Action::Finish(Err(Error::NoBootDeployment))));
}

#[test]
fn cleanup_failure_is_reported() {
    let s = start(Operation::Check);
    let (s, _) = s.step(plain_deployment("AAAA"));
    let (s, _) = s.step(Event::Pulled(vec![res("AAAA")]));
    let (s, a) = s.step(Event::Done);
    assert!(matches!(a, Action::Cleanup));
    let (_, a) = s.step(Event::Failed(Error::ObjectStore("busy".to_string())));
    assert!(matches!(a, Action::Finish(Err(Error::ObjectStore(_)))));
}

#[test]
fn busy_guard_turns_a_second_client_away() {
    let mut g = Guard::new();
    assert_eq!(g.status(), Status::Idle);
    assert!(g.begin(&Operation::Apply).is_ok());
    assert_eq!(g.status(), Status::Deploying);
    assert!(matches!(g.begin(&Operation::Apply), Err(ServerError::EngineIsBusy)));
    assert!(matches!(g.begin(&Operation::Check), Err(ServerError::EngineIsBusy)));
    assert_eq!(g.status(), Status::Deploying);
    g.end();
    assert_eq!(g.status(), Status::Idle);
    assert!(g.begin(&Operation::Apply).is_ok());
}

#[test]
fn check_runs_as_checking() {
    let mut g = Guard::new();
    g.begin(&Operation::Check).unwrap();
    assert_eq!(g.status(), Status::Checking);
    assert_eq!(g.status().code(), 1);
    assert_eq!(Status::Idle.code(), 0);
    assert_eq!(Status::Deploying.code(), 2);
}

#[test]
fn engine_errors_reach_clients_on_one_line() {
    match ServerError::from_engine(&Error::NoRemoteFound) {
        ServerError::Engine(m) => assert_eq!(m, "ERROR: no remote found"),
        other => panic!("{other:?}"),
    }
}

#[test]
fn update_request_combines_changes() {
    let req = UpdateRequest {
        reset: false,
        channel: Some("testing".to_string()),
        add: vec!["games".to_string()],
        remove: vec!["devtools".to_string()],
        check_only: true,
    };
    let mut g = Guard::new();
    g.begin(&Operation::Update(req.clone())).unwrap();
    assert_eq!(g.status(), Status::Checking);
    let s = start(Operation::Update(req));
    let (s, a) = s.step(merged_deployment());
    match a {
        Action::Pull(p) => {
            assert!(p.commit_only);
            assert_eq!(p.refs, vec!["x86_64/os/testing", "x86_64/extension/games/testing"]);
        }
        other => panic!("{other:?}"),
    }
    let (s, a) = s.step(Event::Pulled(vec![res("TTTT"), res("GGGG")]));
    assert!(matches!(a, Action::Unlock));
    assert!(matches!(wind_down(s), Action::Finish(Ok((true, _)))));
}

#[test]
fn update_reset_drops_every_extension() {
    let req = UpdateRequest { reset: true, channel: None, add: vec![], remove: vec![], check_only: false };
    let s = start(Operation::Update(req));
    let (s, a) = s.step(merged_deployment());
    match a {
        Action::Pull(p) => assert_eq!(p.refs, vec!["x86_64/os/stable"]),
        other => panic!("{other:?}"),
    }
    let (_, a) = s.step(Event::Pulled(vec![res("BBBB")]));
    match a {
        Action::Deploy { revision, origin_refspec, origin_group } => {
            assert_eq!(revision, "BBBB");
            assert_eq!(origin_refspec, "rlxos:x86_64/os/stable");
            assert!(origin_group.is_none());
        }
        other => panic!("{other:?}"),
    }
}
