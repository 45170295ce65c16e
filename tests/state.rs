use updates::derive::{lookup_metadata, DeploymentInfo, Origin};
use updates::state::{RefState, State};
use updates::Error;

fn rs(refspec: &str, revision: &str) -> RefState {
    RefState { refspec: refspec.to_string(), revision: revision.to_string() }
}

fn merged_state() -> State {
    State {
        revision: "CCCC".to_string(),
        core: rs("rlxos:x86_64/os/stable", "AAAA"),
        merged: true,
        extensions: vec![rs("rlxos:x86_64/extension/devtools/stable", "DDDD")],
    }
}

fn md(entries: &[(&str, &str)]) -> Vec<(String, String)> {
    entries.iter().map(|(k, v)| (k.to_string(), v.to_string())).collect()
}

#[test]
fn channel_is_the_last_segment_of_the_core_ref() {
    assert_eq!(merged_state().channel(), "stable");
}

#[test]
fn add_extension_by_id() {
    let mut s = State {
        revision: "AAAA".to_string(),
        core: rs("rlxos:x86_64/os/stable", "AAAA"),
        merged: false,
        extensions: vec![],
    };
    s.add_extension("devtools").unwrap();
    assert!(s.merged);
    assert_eq!(s.extensions.len(), 1);
    assert_eq!(s.extensions[0].refspec, "rlxos:x86_64/extension/devtools/stable");
    assert_eq!(s.extensions[0].revision, "");
    s.add_extension("x86_64/extension/games/stable").unwrap();
    assert_eq!(s.extensions[1].refspec, "x86_64/extension/games/stable");
}

#[test]
fn add_extension_refuses_a_bad_id() {
    let mut s = merged_state();
    assert!(matches!(s.add_extension("dev tools"), Err(Error::BadRefspec(_))));
    assert_eq!(s.extensions.len(), 1);
}

#[test]
fn remove_extension_by_id() {
    let mut s = merged_state();
    s.add_extension("games").unwrap();
    s.remove_extension("devtools");
    assert_eq!(s.extensions.len(), 1);
    assert_eq!(s.extensions[0].refspec, "rlxos:x86_64/extension/games/stable");
}

#[test]
fn switch_channel_rewrites_every_ref() {
    let mut s = merged_state();
    s.switch_channel("testing").unwrap();
    assert_eq!(s.core.refspec, "rlxos:x86_64/os/testing");
    assert_eq!(s.core.revision, "");
    assert_eq!(s.extensions[0].refspec, "rlxos:x86_64/extension/devtools/testing");
    assert_eq!(s.extensions[0].revision, "");
    assert!(s.merged);
    assert_eq!(s.revision, "CCCC");
}

#[test]
fn switch_channel_failure_leaves_the_state() {
    let mut s = merged_state();
    s.extensions.push(rs("garbage", "EEEE"));
    assert!(matches!(s.switch_channel("testing"), Err(Error::BadRefspec(_))));
    assert_eq!(s.core.refspec, "rlxos:x86_64/os/stable");
    assert_eq!(s.core.revision, "AAAA");
}

#[test]
fn plain_deployment_state() {
    let d = DeploymentInfo {
        osname: "rlxos".to_string(),
        csum: "AAAA".to_string(),
        serial: 0,
        origin: Some(Origin {
            refspec: "rlxos:x86_64/os/stable".to_string(),
            merged: false,
            channel: None,
            extensions: None,
        }),
    };
    let s = State::for_deployment(&d, &vec![], "x86_64").unwrap();
    assert_eq!(s.core.refspec, "rlxos:x86_64/os/stable");
    assert_eq!(s.core.revision, "AAAA");
    assert_eq!(s.revision, "AAAA");
    assert!(!s.merged);
    assert!(s.extensions.is_empty());
}

fn merged_deployment(exts: &str) -> DeploymentInfo {
    DeploymentInfo {
        osname: "rlxos".to_string(),
        csum: "CCCC".to_string(),
        serial: 1,
        origin: Some(Origin {
            refspec: "x86_64/os/local".to_string(),
            merged: true,
            channel: Some("testing".to_string()),
            extensions: Some(exts.to_string()),
        }),
    }
}

#[test]
fn merged_deployment_state() {
    let d = merged_deployment("devtools;x86_64/extension/old/stable;;games;");
    let m = md(&[
        ("rlxos.revision.core", "BBBB"),
        ("rlxos.revision.devtools", "DDDD"),
        ("rlxos.revision.games", "GGGG"),
    ]);
    let s = State::for_deployment(&d, &m, "x86_64").unwrap();
    assert!(s.merged);
    assert_eq!(s.revision, "CCCC");
    assert_eq!(s.core.refspec, "rlxos:x86_64/os/testing");
    assert_eq!(s.core.revision, "BBBB");
    assert_eq!(s.extensions.len(), 2);
    assert_eq!(s.extensions[0].refspec, "rlxos:x86_64/extension/devtools/testing");
    assert_eq!(s.extensions[0].revision, "DDDD");
    assert_eq!(s.extensions[1].refspec, "rlxos:x86_64/extension/games/testing");
    assert_eq!(s.extensions[1].revision, "GGGG");
}

#[test]
fn merged_deployment_defaults_to_stable() {
    let mut d = merged_deployment("");
    if let Some(o) = d.origin.as_mut() {
        o.channel = None;
        o.extensions = None;
    }
    let s = State::for_deployment(&d, &md(&[("rlxos.revision.core", "BBBB")]), "aarch64").unwrap();
    assert_eq!(s.core.refspec, "rlxos:aarch64/os/stable");
    assert!(s.extensions.is_empty());
}

#[test]
fn merged_deployment_missing_checksums() {
    let d = merged_deployment("devtools;");
    assert!(matches!(
        State::for_deployment(&d, &md(&[("rlxos.revision.devtools", "DDDD")]), "x86_64"),
        Err(Error::MissingBaseChecksum)
    ));
    match State::for_deployment(&d, &md(&[("rlxos.revision.core", "BBBB")]), "x86_64") {
        Err(Error::MissingExtensionChecksum(id)) => assert_eq!(id, "devtools"),
        other => panic!("{other:?}"),
    }
}

#[test]
fn deployment_without_origin() {
    let d = DeploymentInfo { osname: "rlxos".to_string(), csum: "AAAA".to_string(), serial: 2, origin: None };
    match State::for_deployment(&d, &vec![], "x86_64") {
        Err(Error::NoOriginForDeployment(c, n)) => {
            assert_eq!(c, "AAAA");
            assert_eq!(n, 2);
        }
        other => panic!("{other:?}"),
    }
}

#[test]
fn derivation_is_repeatable() {
    let d = merged_deployment("devtools;");
    let m = md(&[("rlxos.revision.core", "BBBB"), ("rlxos.revision.devtools", "DDDD")]);
    let a = State::for_deployment(&d, &m, "x86_64").unwrap();
    let b = State::for_deployment(&d, &m, "x86_64").unwrap();
    assert_eq!(format!("{a:?}"), format!("{b:?}"));
}

#[test]
fn metadata_lookup_takes_the_last_entry() {
    let m = md(&[("k", "1"), ("j", "2"), ("k", "3")]);
    assert_eq!(lookup_metadata(&m, "k").as_deref(), Some("3"));
    assert_eq!(lookup_metadata(&m, "x"), None);
}
