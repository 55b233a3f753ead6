//! The ordered startup script of a container: isolation, the mount namespace,
//! the root switch, the virtual filesystems, and the launch.
use vstd::prelude::*;
use crate::text::{is_absolute, absolute};
use crate::mounts::{resolve_target, join_under, container_target};

verus! {

/// A host directory to bind into the container, at a path relative to its root.
pub struct MountEntry {
    pub source: String,
    pub target: String,
}

/// What a container is started from: an unpacked root filesystem and the
/// bind mounts to apply, in order.
pub struct ContainerSpec {
    pub root_fs: String,
    pub mounts: Vec<MountEntry>,
}

/// Why a container specification is refused before anything is done.
#[derive(Clone, Copy, Debug, PartialEq, Eq, Structural)]
pub enum SpecError {
    /// The root filesystem path is not absolute.
    RelativeRoot,
    /// The mount at `index` has a source that is not an absolute path.
    RelativeSource { index: usize },
    /// The mount at `index` has a target that climbs above the container root.
    EscapingTarget { index: usize },
}

/// One operating-system step of a container startup.
pub enum Action {
    /// Take the exclusive advisory lock on the root filesystem path.
    Lock { path: String },
    /// Leave the host's mount, process-id, network and hostname namespaces, all at once.
    Unshare,
    SetHostname { name: String },
    /// Mark the whole mount tree private, recursively.
    MakePrivate,
    /// Bind `source` onto `target`, recursively.
    Bind { source: String, target: String },
    /// Create the directory and its parents where absent.
    MakeDir { path: String },
    ChangeDir { path: String },
    /// Switch the root to `new_root`, keeping the old one under `put_old`.
    PivotRoot { new_root: String, put_old: String },
    /// Detach the mount at `path` now and let its users finish.
    DetachUnmount { path: String },
    /// Remove the directory tree at `path`.
    RemoveTree { path: String },
    /// Mount a virtual filesystem of type `fstype` at `target`, with default options.
    MountFs { fstype: String, target: String },
    /// Create the container process.
    Fork,
}

/// The value of an `Action`.
pub enum Step {
    Lock(Seq<char>),
    Unshare,
    SetHostname(Seq<char>),
    MakePrivate,
    Bind(Seq<char>, Seq<char>),
    MakeDir(Seq<char>),
    ChangeDir(Seq<char>),
    PivotRoot(Seq<char>, Seq<char>),
    DetachUnmount(Seq<char>),
    RemoveTree(Seq<char>),
    MountFs(Seq<char>, Seq<char>),
    Fork,
}

impl View for Action {
    type V = Step;

    open spec fn view(&self) -> Step {
        match self {
            Action::Lock { path } => Step::Lock(path@),
            Action::Unshare => Step::Unshare,
            Action::SetHostname { name } => Step::SetHostname(name@),
            Action::MakePrivate => Step::MakePrivate,
            Action::Bind { source, target } => Step::Bind(source@, target@),
            Action::MakeDir { path } => Step::MakeDir(path@),
            Action::ChangeDir { path } => Step::ChangeDir(path@),
            Action::PivotRoot { new_root, put_old } => Step::PivotRoot(new_root@, put_old@),
            Action::DetachUnmount { path } => Step::DetachUnmount(path@),
            Action::RemoveTree { path } => Step::RemoveTree(path@),
            Action::MountFs { fstype, target } => Step::MountFs(fstype@, target@),
            Action::Fork => Step::Fork,
        }
    }
}

/// The steps of a list of actions.
pub open spec fn steps_of(v: Seq<Action>) -> Seq<Step> {
    v.map_values(|a: Action| a@)
}

/// The (source, target) text of each mount entry.
pub open spec fn entries_of(m: Seq<MountEntry>) -> Seq<(Seq<char>, Seq<char>)> {
    m.map_values(|e: MountEntry| (e.source@, e.target@))
}

/// The bind mounts of a specification, each as a host source and the path it
/// lands on under `root`, or the first entry that is refused.
pub open spec fn resolve_mounts(root: Seq<char>, m: Seq<(Seq<char>, Seq<char>)>) -> Result<
    Seq<(Seq<char>, Seq<char>)>,
    SpecError,
>
    decreases m.len(),
{
    if m.len() == 0 {
        Ok(Seq::empty())
    } else {
        match resolve_mounts(root, m.drop_last()) {
            Err(e) => Err(e),
            Ok(prev) => {
                let i = (m.len() - 1) as usize;
                let (source, target) = m.last();
                if !is_absolute(source) {
                    Err(SpecError::RelativeSource { index: i })
                } else {
                    match resolve_target(target) {
                        None => Err(SpecError::EscapingTarget { index: i }),
                        Some(comps) => Ok(prev.push((source, join_under(root, comps)))),
                    }
                }
            }
        }
    }
}

/// For each resolved bind mount: create its target, then bind its source there.
pub open spec fn bind_steps(binds: Seq<(Seq<char>, Seq<char>)>) -> Seq<Step>
    decreases binds.len(),
{
    if binds.len() == 0 {
        Seq::empty()
    } else {
        bind_steps(binds.drop_last()) + seq![
            Step::MakeDir(binds.last().1),
            Step::Bind(binds.last().0, binds.last().1),
        ]
    }
}

/// Where the previous root is kept during the root switch, seen from the host.
pub open spec fn staging_dir(root: Seq<char>) -> Seq<char> {
    root + "/old_root"@
}

/// The steps before the bind mounts.
pub open spec fn opening_steps(root: Seq<char>) -> Seq<Step> {
    seq![
        Step::Lock(root),
        Step::Unshare,
        Step::SetHostname("container"@),
        Step::MakePrivate,
        Step::Bind(root, root),
    ]
}

/// The steps after the bind mounts.
pub open spec fn closing_steps(root: Seq<char>) -> Seq<Step> {
    seq![
        Step::MakeDir(staging_dir(root)),
        Step::ChangeDir(root),
        Step::PivotRoot("."@, "old_root"@),
        Step::ChangeDir("/"@),
        Step::DetachUnmount("/old_root"@),
        Step::RemoveTree("/old_root"@),
        Step::MakeDir("/proc"@),
        Step::MakeDir("/sys"@),
        Step::MakeDir("/dev"@),
        Step::MountFs("proc"@, "/proc"@),
        Step::MountFs("sysfs"@, "/sys"@),
        Step::MountFs("tmpfs"@, "/dev"@),
        Step::Fork,
    ]
}

/// The whole startup of a container with root `root` and resolved bind mounts `binds`.
pub open spec fn startup_script(root: Seq<char>, binds: Seq<(Seq<char>, Seq<char>)>) -> Seq<Step> {
    opening_steps(root) + bind_steps(binds) + closing_steps(root)
}

/// The startup script of a specification, or why it is refused.
pub open spec fn plan_of(root: Seq<char>, m: Seq<(Seq<char>, Seq<char>)>) -> Result<Seq<Step>, SpecError> {
    if !is_absolute(root) {
        Err(SpecError::RelativeRoot)
    } else {
        match resolve_mounts(root, m) {
            Err(e) => Err(e),
            Ok(binds) => Ok(startup_script(root, binds)),
        }
    }
}

/// The text of each pair of strings.
pub open spec fn pairs_of(b: Seq<(String, String)>) -> Seq<(Seq<char>, Seq<char>)> {
    b.map_values(|p: (String, String)| (p.0@, p.1@))
}

/// Once a prefix of the entries is refused, the whole list is refused for the same reason.
proof fn lemma_refusal_kept(root: Seq<char>, m: Seq<(Seq<char>, Seq<char>)>, j: int)
    requires
        0 <= j <= m.len(),
        resolve_mounts(root, m.take(j)) is Err,
    ensures
        resolve_mounts(root, m) == resolve_mounts(root, m.take(j)),
    decreases m.len() - j,
{
    if j == m.len() {
        assert(m.take(j) =~= m);
    } else {
        assert(m.drop_last().take(j) =~= m.take(j));
        lemma_refusal_kept(root, m.drop_last(), j);
    }
}

fn own(s: &str) -> (r: String)
    ensures
        r@ == s@,
{
    String::from_str(s)
}

/// Checks every mount entry of `spec` and returns each as a host source and
/// the path it lands on under the root, or the first entry that is refused.
pub fn resolve_entries(spec: &ContainerSpec) -> (r: Result<Vec<(String, String)>, SpecError>)
    ensures
        r matches Ok(b) ==> resolve_mounts(spec.root_fs@, entries_of(spec.mounts@)) == Ok::<
            Seq<(Seq<char>, Seq<char>)>,
            SpecError,
        >(pairs_of(b@)),
        r matches Err(e) ==> resolve_mounts(spec.root_fs@, entries_of(spec.mounts@)) == Err::<
            Seq<(Seq<char>, Seq<char>)>,
            SpecError,
        >(e),
{
    let ghost all = entries_of(spec.mounts@);
    let mut binds: Vec<(String, String)> = Vec::new();
    let mut k: usize = 0;
    assert(all.take(0) =~= Seq::<(Seq<char>, Seq<char>)>::empty());
    assert(pairs_of(binds@) =~= Seq::<(Seq<char>, Seq<char>)>::empty());
    while k < spec.mounts.len()
        invariant
            k <= spec.mounts@.len(),
            all == entries_of(spec.mounts@),
            resolve_mounts(spec.root_fs@, all.take(k as int)) == Ok::<
                Seq<(Seq<char>, Seq<char>)>,
                SpecError,
            >(pairs_of(binds@)),
        decreases spec.mounts@.len() - k,
    {
        let entry = &spec.mounts[k];
        proof {
            assert(all.take(k + 1).drop_last() =~= all.take(k as int));
            assert(all.take(k + 1).last() == (entry.source@, entry.target@));
        }
        if !absolute(entry.source.as_str()) {
            proof {
                lemma_refusal_kept(spec.root_fs@, all, k + 1);
            }
            return Err(SpecError::RelativeSource { index: k });
        }
        match container_target(spec.root_fs.as_str(), entry.target.as_str()) {
            None => {
                proof {
                    lemma_refusal_kept(spec.root_fs@, all, k + 1);
                }
                return Err(SpecError::EscapingTarget { index: k });
            },
            Some(landing) => {
                let ghost before = pairs_of(binds@);
                binds.push((entry.source.clone(), landing));
                proof {
                    assert(pairs_of(binds@) =~= before.push(
                        (entry.source@, join_under(spec.root_fs@, resolve_target(entry.target@)->0)),
                    ));
                }
            },
        }
        k = k + 1;
    }
    assert(all.take(k as int) =~= all);
    Ok(binds)
}

/// Returns the ordered startup actions of `spec`, or, before any action is
/// produced, why the specification is refused.
pub fn plan_startup(spec: &ContainerSpec) -> (r: Result<Vec<Action>, SpecError>)
    ensures
        r matches Ok(v) ==> plan_of(spec.root_fs@, entries_of(spec.mounts@)) == Ok::<
            Seq<Step>,
            SpecError,
        >(steps_of(v@)),
        r matches Err(e) ==> plan_of(spec.root_fs@, entries_of(spec.mounts@)) == Err::<
            Seq<Step>,
            SpecError,
        >(e),
{
    if !absolute(spec.root_fs.as_str()) {
        return Err(SpecError::RelativeRoot);
    }
    let binds = match resolve_entries(spec) {
        Err(e) => {
            return Err(e);
        },
        Ok(b) => b,
    };
    let ghost root = spec.root_fs@;
    let mut v: Vec<Action> = Vec::new();
    v.push(Action::Lock { path: spec.root_fs.clone() });
    v.push(Action::Unshare);
    v.push(Action::SetHostname { name: own("container") });
    v.push(Action::MakePrivate);
    v.push(Action::Bind { source: spec.root_fs.clone(), target: spec.root_fs.clone() });
    assert(steps_of(v@) =~= opening_steps(root));
    let mut k: usize = 0;
    while k < binds.len()
        invariant
            k <= binds@.len(),
            steps_of(v@) == opening_steps(root) + bind_steps(pairs_of(binds@).take(k as int)),
        decreases binds@.len() - k,
    {
        let ghost before = steps_of(v@);
        v.push(Action::MakeDir { path: binds[k].1.clone() });
        v.push(Action::Bind { source: binds[k].0.clone(), target: binds[k].1.clone() });
        proof {
            let bs = pairs_of(binds@);
            assert(bs.take(k + 1).drop_last() =~= bs.take(k as int));
            assert(steps_of(v@) =~= before + seq![
                Step::MakeDir(bs[k as int].1),
                Step::Bind(bs[k as int].0, bs[k as int].1),
            ]);
        }
        k = k + 1;
    }
    assert(pairs_of(binds@).take(k as int) =~= pairs_of(binds@));
    let ghost middle = steps_of(v@);
    v.push(Action::MakeDir { path: spec.root_fs.clone().concat("/old_root") });
    v.push(Action::ChangeDir { path: spec.root_fs.clone() });
    v.push(Action::PivotRoot { new_root: own("."), put_old: own("old_root") });
    v.push(Action::ChangeDir { path: own("/") });
    v.push(Action::DetachUnmount { path: own("/old_root") });
    v.push(Action::RemoveTree { path: own("/old_root") });
    v.push(Action::MakeDir { path: own("/proc") });
    v.push(Action::MakeDir { path: own("/sys") });
    v.push(Action::MakeDir { path: own("/dev") });
    v.push(Action::MountFs { fstype: own("proc"), target: own("/proc") });
    v.push(Action::MountFs { fstype: own("sysfs"), target: own("/sys") });
    v.push(Action::MountFs { fstype: own("tmpfs"), target: own("/dev") });
    v.push(Action::Fork);
    assert(steps_of(v@) =~= middle + closing_steps(root));
    Ok(v)
}

} // verus!
