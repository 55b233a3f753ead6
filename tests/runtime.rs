use rootcell::image::{ensure_tag, flatten_reference, prepare_root_fs, root_fs_path, split_reference, RootFsPlan};
use rootcell::launch::{child_plan, default_entry, exit_status, ChildAction, EntryCommand, ForkOutcome, Termination, UNPRIVILEGED_ID};
use rootcell::mounts::{container_target, resolve_spans};
use rootcell::plan::{plan_startup, resolve_entries, Action, ContainerSpec, MountEntry, SpecError};
use rootcell::registry::{access_token, blob_url, collect_digests, layer_digests, manifest_url, select_token, token_url, ManifestError, MissingToken};
use rootcell::startup::{stage_of_action, Failure, Next, Outcome, Stage, Startup};
use rootcell::text::{absolute, find_char_from, has_char};

fn spec(root: &str, mounts: &[(&str, &str)]) -> ContainerSpec {
    ContainerSpec {
        root_fs: root.to_string(),
        mounts: mounts
            .iter()
            .map(|(s, t)| MountEntry { source: s.to_string(), target: t.to_string() })
            .collect(),
    }
}

fn describe(a: &Action) -> String {
    match a {
        Action::Lock { path } => format!("lock {}", path),
        Action::Unshare => "unshare".to_string(),
        Action::SetHostname { name } => format!("hostname {}", name),
        Action::MakePrivate => "private".to_string(),
        Action::Bind { source, target } => format!("bind {} {}", source, target),
        Action::MakeDir { path } => format!("mkdir {}", path),
        Action::ChangeDir { path } => format!("chdir {}", path),
        Action::PivotRoot { new_root, put_old } => format!("pivot {} {}", new_root, put_old),
        Action::DetachUnmount { path } => format!("umount {}", path),
        Action::RemoveTree { path } => format!("rmtree {}", path),
        Action::MountFs { fstype, target } => format!("mount {} {}", fstype, target),
        Action::Fork => "fork".to_string(),
    }
}

fn script(s: &ContainerSpec) -> Vec<String> {
    plan_startup(s).ok().unwrap().iter().map(describe).collect()
}

const ROOT: &str = "/var/lib/containers/alpine_latest";

#[test]
fn ensure_tag_adds_latest() {
    assert_eq!(ensure_tag("alpine"), "alpine:latest");
    assert_eq!(ensure_tag("library/nginx"), "library/nginx:latest");
    assert_eq!(ensure_tag(""), ":latest");
}

#[test]
fn ensure_tag_keeps_existing_tag() {
    assert_eq!(ensure_tag("alpine:3.19"), "alpine:3.19");
    assert_eq!(ensure_tag("host:5000/img"), "host:5000/img");
}

#[test]
fn flatten_replaces_separators() {
    assert_eq!(flatten_reference("library/alpine:latest"), "library_alpine_latest");
    assert_eq!(flatten_reference("a//b::c"), "a__b__c");
    assert_eq!(flatten_reference("plain"), "plain");
    assert_eq!(flatten_reference(""), "");
}

#[test]
fn root_path_of_image() {
    assert_eq!(root_fs_path("alpine:latest"), ROOT);
    assert_eq!(root_fs_path("library/nginx:1.25"), "/var/lib/containers/library_nginx_1.25");
}

#[test]
fn split_reference_parts() {
    assert_eq!(split_reference("alpine:3.19"), ("alpine".to_string(), "3.19".to_string()));
    assert_eq!(split_reference("alpine"), ("alpine".to_string(), "latest".to_string()));
    assert_eq!(split_reference("a:b:c"), ("a".to_string(), "b".to_string()));
    assert_eq!(split_reference("a:"), ("a".to_string(), "".to_string()));
}

#[test]
fn prepare_root_fs_present() {
    match prepare_root_fs("alpine:latest", true) {
        RootFsPlan::Present { path } => assert_eq!(path, ROOT),
        RootFsPlan::Fetch { .. } => panic!("expected the present root"),
    }
}

#[test]
fn prepare_root_fs_fetch() {
    match prepare_root_fs("library/alpine:3.19", false) {
        RootFsPlan::Fetch { path, repository, tag } => {
            assert_eq!(path, "/var/lib/containers/library_alpine_3.19");
            assert_eq!(repository, "library/alpine");
            assert_eq!(tag, "3.19");
        }
        RootFsPlan::Present { .. } => panic!("expected a fetch"),
    }
}

#[test]
fn registry_urls() {
    assert_eq!(
        token_url("library/alpine"),
        "https://auth.docker.io/token?service=registry.docker.io&scope=repository:library/alpine:pull"
    );
    assert_eq!(
        manifest_url("library/alpine", "latest"),
        "https://registry-1.docker.io/v2/library/alpine/manifests/latest"
    );
    assert_eq!(
        blob_url("library/alpine", "sha256:abc"),
        "https://registry-1.docker.io/v2/library/alpine/blobs/sha256:abc"
    );
}

#[test]
fn token_selection() {
    assert_eq!(select_token(Some("t".to_string()), Some("a".to_string())), Ok("t".to_string()));
    assert_eq!(select_token(None, Some("a".to_string())), Ok("a".to_string()));
    assert_eq!(select_token(None, None), Err(MissingToken));
}

#[test]
fn text_helpers() {
    assert_eq!(find_char_from("a:b:c", ':', 0), 1);
    assert_eq!(find_char_from("a:b:c", ':', 2), 3);
    assert_eq!(find_char_from("abc", ':', 0), 3);
    assert!(has_char("x:y", ':'));
    assert!(!has_char("xy", ':'));
    assert!(absolute("/host"));
    assert!(!absolute("host"));
    assert!(!absolute(""));
}

#[test]
fn targets_land_under_root() {
    assert_eq!(container_target("/r", "/data"), Some("/r/data".to_string()));
    assert_eq!(container_target("/r", "data"), Some("/r/data".to_string()));
    assert_eq!(container_target("/r", "a/./b/../c//"), Some("/r/a/c".to_string()));
    assert_eq!(container_target("/r", "a/.."), Some("/r".to_string()));
    assert_eq!(container_target("/r", ""), Some("/r".to_string()));
    assert_eq!(container_target("/r", "..."), Some("/r/...".to_string()));
}

#[test]
fn escaping_targets_refused() {
    assert_eq!(container_target("/r", "../escape"), None);
    assert_eq!(container_target("/r", "a/../../b"), None);
    assert_eq!(container_target("/r", "/.."), None);
    assert_eq!(resolve_spans("../escape"), None);
    assert_eq!(resolve_spans("x/y"), Some(vec![(0, 1), (2, 3)]));
}

#[test]
fn plain_startup_script() {
    let s = script(&spec(ROOT, &[]));
    let expected: Vec<String> = vec![
        format!("lock {}", ROOT),
        "unshare".to_string(),
        "hostname container".to_string(),
        "private".to_string(),
        format!("bind {} {}", ROOT, ROOT),
        format!("mkdir {}/old_root", ROOT),
        format!("chdir {}", ROOT),
        "pivot . old_root".to_string(),
        "chdir /".to_string(),
        "umount /old_root".to_string(),
        "rmtree /old_root".to_string(),
        "mkdir /proc".to_string(),
        "mkdir /sys".to_string(),
        "mkdir /dev".to_string(),
        "mount proc /proc".to_string(),
        "mount sysfs /sys".to_string(),
        "mount tmpfs /dev".to_string(),
        "fork".to_string(),
    ];
    assert_eq!(s, expected);
    assert_eq!(s.iter().filter(|a| a.as_str() == "fork").count(), 1);
}

#[test]
fn alpine_with_data_mount_script() {
    let s = script(&spec(ROOT, &[("/host/data", "/data")]));
    assert_eq!(s.len(), 20);
    assert_eq!(s[5], format!("mkdir {}/data", ROOT));
    assert_eq!(s[6], format!("bind /host/data {}/data", ROOT));
    assert_eq!(s[9], "pivot . old_root");
    assert_eq!(s[19], "fork");
    let entry = default_entry();
    assert_eq!(entry.program, "/bin/sh");
    assert_eq!(
        entry.args,
        vec!["sh", "-c", "ip link set lo up && echo Hello from container! && sleep 10"]
    );
    assert_eq!(exit_status(Termination::Exited { code: 0 }), 0);
    assert_eq!(exit_status(Termination::Exited { code: 3 }), 3);
}

#[test]
fn mounts_keep_their_order() {
    let s = script(&spec("/r", &[("/a", "x"), ("/b", "x/y")]));
    assert_eq!(s[5], "mkdir /r/x");
    assert_eq!(s[6], "bind /a /r/x");
    assert_eq!(s[7], "mkdir /r/x/y");
    assert_eq!(s[8], "bind /b /r/x/y");
    let b = resolve_entries(&spec("/r", &[("/a", "x"), ("/b", "x/y")])).ok().unwrap();
    assert_eq!(b, vec![("/a".to_string(), "/r/x".to_string()), ("/b".to_string(), "/r/x/y".to_string())]);
}

#[test]
fn escape_refused_before_any_action() {
    let r = plan_startup(&spec(ROOT, &[("/host/data", "../escape")]));
    assert_eq!(r.err(), Some(SpecError::EscapingTarget { index: 0 }));
    let r = plan_startup(&spec(ROOT, &[("/host/data", "data"), ("/host/x", "../escape")]));
    assert_eq!(r.err(), Some(SpecError::EscapingTarget { index: 1 }));
}

#[test]
fn other_refusals() {
    assert_eq!(plan_startup(&spec("relative", &[])).err(), Some(SpecError::RelativeRoot));
    assert_eq!(
        plan_startup(&spec(ROOT, &[("host/data", "data")])).err(),
        Some(SpecError::RelativeSource { index: 0 })
    );
}

#[test]
fn distinct_roots_claim_distinct_paths() {
    let a = script(&spec("/c/one", &[("/h/a", "data")]));
    let b = script(&spec("/c/two", &[("/h/b", "data")]));
    assert_eq!(a[0], "lock /c/one");
    assert_eq!(b[0], "lock /c/two");
    assert_eq!(a[6], "bind /h/a /c/one/data");
    assert_eq!(b[6], "bind /h/b /c/two/data");
}

#[test]
fn driver_runs_to_the_end() {
    let actions = plan_startup(&spec(ROOT, &[])).ok().unwrap();
    let n = actions.len();
    let mut st = Startup::new(actions);
    let mut seen = 0;
    loop {
        match st.pending() {
            Next::Perform(_) => {}
            Next::Finished => break,
            Next::Aborted(_) => panic!("no failure was reported"),
        }
        seen += 1;
        st.record(Outcome::Done);
    }
    assert_eq!(seen, n);
}

#[test]
fn lock_failure_stops_the_startup() {
    let actions = plan_startup(&spec(ROOT, &[])).ok().unwrap();
    let mut st = Startup::new(actions);
    match st.pending() {
        Next::Perform(a) => assert_eq!(describe(a), format!("lock {}", ROOT)),
        _ => panic!("expected the lock"),
    }
    st.record(Outcome::Failed { code: 11 });
    st.record(Outcome::Done);
    let expected = Failure { stage: Stage::Isolate, step: 0, code: 11 };
    match st.pending() {
        Next::Aborted(f) => assert_eq!(f, expected),
        _ => panic!("expected the startup to stay stopped"),
    }
}

#[test]
fn failure_names_its_stage() {
    let actions = plan_startup(&spec(ROOT, &[])).ok().unwrap();
    assert_eq!(stage_of_action(&actions[1]), Stage::Isolate);
    assert_eq!(stage_of_action(&actions[7]), Stage::BuildMountNamespace);
    assert_eq!(stage_of_action(&actions[17]), Stage::Launch);
    let mut st = Startup::new(actions);
    for _ in 0..7 {
        st.record(Outcome::Done);
    }
    st.record(Outcome::Failed { code: 22 });
    match st.pending() {
        Next::Aborted(f) => {
            assert_eq!(f, Failure { stage: Stage::BuildMountNamespace, step: 7, code: 22 })
        }
        _ => panic!("expected a failure"),
    }
}

fn sample_entry() -> EntryCommand {
    EntryCommand { program: "/bin/echo".to_string(), args: vec!["echo".to_string(), "hi".to_string()] }
}

#[test]
fn superuser_child_drops_privilege_first() {
    let plan = child_plan(0, sample_entry());
    assert_eq!(plan.len(), 3);
    assert!(matches!(plan[0], ChildAction::SetGid { gid } if gid == UNPRIVILEGED_ID));
    assert!(matches!(plan[1], ChildAction::SetUid { uid } if uid == 65534));
    match &plan[2] {
        ChildAction::Exec { program, args } => {
            assert_eq!(program, "/bin/echo");
            assert_eq!(args, &vec!["echo".to_string(), "hi".to_string()]);
        }
        _ => panic!("expected exec last"),
    }
}

#[test]
fn unprivileged_child_keeps_identity() {
    let plan = child_plan(1000, sample_entry());
    assert_eq!(plan.len(), 1);
    assert!(matches!(&plan[0], ChildAction::Exec { program, .. } if program == "/bin/echo"));
}

#[test]
fn exit_status_of_signal() {
    assert_eq!(exit_status(Termination::Signaled { signal: 9 }), 137);
    assert_eq!(exit_status(Termination::Exited { code: 127 }), 127);
    assert_eq!(ForkOutcome::Parent { child: 5 }, ForkOutcome::Parent { child: 5 });
    assert_ne!(ForkOutcome::Parent { child: 5 }, ForkOutcome::Child);
}

#[test]
fn token_from_answer() {
    assert_eq!(access_token(br#"{"token":"abc","access_token":"xyz"}"#), Ok("abc".to_string()));
    assert_eq!(access_token(br#"{"access_token":"xyz"}"#), Ok("xyz".to_string()));
    assert_eq!(access_token(br#"{"token":5,"access_token":"xyz"}"#), Ok("xyz".to_string()));
    assert_eq!(access_token(br#"{"other":"abc"}"#), Err(MissingToken));
    assert_eq!(access_token(b"not json"), Err(MissingToken));
}

#[test]
fn digests_from_manifest() {
    let body = br#"{"layers":[{"digest":"sha256:aa","size":1},{"digest":"sha256:bb"}]}"#;
    assert_eq!(layer_digests(body), Ok(vec!["sha256:aa".to_string(), "sha256:bb".to_string()]));
    assert_eq!(layer_digests(br#"{"layers":[]}"#), Ok(vec![]));
    assert_eq!(layer_digests(br#"{"config":{}}"#), Err(ManifestError::NoLayers));
    assert_eq!(layer_digests(b"[1,2]"), Err(ManifestError::NoLayers));
    assert_eq!(
        layer_digests(br#"{"layers":[{"digest":"sha256:aa"},{"size":3}]}"#),
        Err(ManifestError::NoDigest { index: 1 })
    );
}

#[test]
fn digests_from_fields() {
    assert_eq!(collect_digests(None), Err(ManifestError::NoLayers));
    assert_eq!(
        collect_digests(Some(vec![Some("a".to_string()), None, None])),
        Err(ManifestError::NoDigest { index: 1 })
    );
    assert_eq!(
        collect_digests(Some(vec![Some("a".to_string()), Some("b".to_string())])),
        Ok(vec!["a".to_string(), "b".to_string()])
    );
}
