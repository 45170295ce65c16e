use updates::deploy::plan_deploy;
use updates::pull::{finish_pull, get_changelog, plan_pull, Resolution};
use updates::state::{RefState, State};
use updates::Error;

fn rs(refspec: &str, revision: &str) -> RefState {
    RefState { refspec: refspec.to_string(), revision: revision.to_string() }
}

fn res(rev: &str, subject: &str) -> Resolution {
    Resolution { revision: Some(rev.to_string()), subject: Some(subject.to_string()), body: None }
}

fn plain(rev: &str) -> State {
    State { revision: rev.to_string(), core: rs("rlxos:x86_64/os/stable", rev), merged: false, extensions: vec![] }
}

fn merged() -> State {
    State {
        revision: "CCCC".to_string(),
        core: rs("rlxos:x86_64/os/stable", "AAAA"),
        merged: true,
        extensions: vec![rs("rlxos:x86_64/extension/devtools/stable", "DDDD")],
    }
}

#[test]
fn pull_plan_uses_the_core_remote() {
    let p = plan_pull(&merged(), &vec!["other".to_string()], true).unwrap();
    assert_eq!(p.remote, "rlxos");
    assert_eq!(p.refs, vec!["x86_64/os/stable", "x86_64/extension/devtools/stable"]);
    assert!(p.commit_only);
}

#[test]
fn pull_plan_falls_back_to_the_first_remote() {
    let mut s = plain("AAAA");
    s.core.refspec = "x86_64/os/stable".to_string();
    let p = plan_pull(&s, &vec!["main".to_string(), "b".to_string()], false).unwrap();
    assert_eq!(p.remote, "main");
    assert!(!p.commit_only);
    assert!(matches!(plan_pull(&s, &vec![], false), Err(Error::NoRemoteFound)));
}

#[test]
fn changelog_entry_format() {
    let r = Resolution {
        revision: Some("BBBB".to_string()),
        subject: Some("hello".to_string()),
        body: Some("details".to_string()),
    };
    let (moved, rev, entry) = get_changelog("rlxos:x86_64/os/stable", "AAAA", &r).unwrap();
    assert!(moved);
    assert_eq!(rev, "BBBB");
    assert_eq!(entry, "rlxos:x86_64/os/stable: hello\ndetails\nrev: AAAA -> BBBB\n");
    let (moved, rev, entry) = get_changelog("rlxos:x86_64/os/stable", "BBBB", &r).unwrap();
    assert!(!moved);
    assert_eq!(rev, "BBBB");
    assert_eq!(entry, "");
    let none = Resolution { revision: None, subject: None, body: None };
    match get_changelog("rlxos:x86_64/os/stable", "AAAA", &none) {
        Err(Error::NoRevisionForRefSpec(r)) => assert_eq!(r, "rlxos:x86_64/os/stable"),
        other => panic!("{other:?}"),
    }
}

#[test]
fn no_updates() {
    let o = finish_pull(&plain("AAAA"), &vec![res("AAAA", "")]).unwrap();
    assert!(!o.changed);
    assert_eq!(o.changelog, "");
    assert_eq!(o.resolved.core.revision, "AAAA");
}

#[test]
fn base_only_update() {
    let o = finish_pull(&plain("AAAA"), &vec![res("BBBB", "hello")]).unwrap();
    assert!(o.changed);
    assert_eq!(o.changelog, "rlxos:x86_64/os/stable: hello\n\nrev: AAAA -> BBBB\n");
    assert_eq!(o.resolved.core.revision, "BBBB");
    let p = plan_deploy(&o.resolved).unwrap();
    assert!(p.merge.is_none());
    assert_eq!(p.revision, "BBBB");
    assert_eq!(p.origin_refspec, "rlxos:x86_64/os/stable");
    assert!(p.origin_group.is_none());
}

#[test]
fn merged_update() {
    let o = finish_pull(&merged(), &vec![res("BBBB", "new base"), res("DDDD", "")]).unwrap();
    assert!(o.changed);
    assert_eq!(o.changelog, "rlxos:x86_64/os/stable: new base\n\nrev: AAAA -> BBBB\n");
    assert_eq!(o.resolved.core.revision, "BBBB");
    assert_eq!(o.resolved.extensions[0].revision, "DDDD");
    assert!(o.resolved.merged);
    let p = plan_deploy(&o.resolved).unwrap();
    let m = p.merge.unwrap();
    assert_eq!(m.base, "BBBB");
    assert_eq!(m.overlays, vec!["DDDD"]);
    assert_eq!(
        m.metadata,
        vec![
            ("rlxos.revision.core".to_string(), "BBBB".to_string()),
            ("rlxos.revision.devtools".to_string(), "DDDD".to_string())
        ]
    );
    assert_eq!(m.local_ref, "x86_64/os/local");
    assert_eq!(p.origin_refspec, "x86_64/os/local");
    let g = p.origin_group.unwrap();
    assert_eq!(g.channel, "stable");
    assert_eq!(g.refspec, "rlxos:x86_64/os/stable");
    assert_eq!(g.extensions, "devtools;");
}

#[test]
fn unresolved_extension_is_fatal() {
    let r = finish_pull(&merged(), &vec![res("BBBB", "")]);
    match r {
        Err(Error::NoRevisionForRefSpec(r)) => assert_eq!(r, "rlxos:x86_64/extension/devtools/stable"),
        other => panic!("{other:?}"),
    }
}

#[test]
fn extension_changelog_follows_the_core() {
    let o = finish_pull(&merged(), &vec![res("BBBB", "base"), res("EEEE", "ext")]).unwrap();
    assert_eq!(
        o.changelog,
        "rlxos:x86_64/os/stable: base\n\nrev: AAAA -> BBBB\nrlxos:x86_64/extension/devtools/stable: ext\n\nrev: DDDD -> EEEE\n"
    );
}

#[test]
fn second_pull_without_remote_change_is_quiet() {
    let rs1 = vec![res("BBBB", "base"), res("EEEE", "ext")];
    let first = finish_pull(&merged(), &rs1).unwrap();
    assert!(first.changed);
    let second = finish_pull(&first.resolved, &rs1).unwrap();
    assert!(!second.changed);
    assert_eq!(second.changelog, "");
    assert_eq!(format!("{:?}", second.resolved), format!("{:?}", first.resolved));
}

#[test]
fn merge_plans_are_deterministic() {
    let a = plan_deploy(&merged()).unwrap();
    let b = plan_deploy(&merged()).unwrap();
    assert_eq!(format!("{a:?}"), format!("{b:?}"));
}

#[test]
fn removed_extensions_deploy_the_base() {
    let mut s = merged();
    s.extensions.clear();
    let p = plan_deploy(&s).unwrap();
    assert!(p.merge.is_none());
    assert!(p.origin_group.is_none());
    assert_eq!(p.origin_refspec, "rlxos:x86_64/os/stable");
    assert_eq!(p.revision, "AAAA");
}

#[test]
fn merge_needs_known_commits() {
    let mut s = merged();
    s.extensions[0].revision = String::new();
    match plan_deploy(&s) {
        Err(Error::MissingExtensionChecksum(id)) => assert_eq!(id, "devtools"),
        other => panic!("{other:?}"),
    }
    let mut s = merged();
    s.core.revision = String::new();
    assert!(matches!(plan_deploy(&s), Err(Error::MissingBaseChecksum)));
}
