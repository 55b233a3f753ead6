//! Properties of container startups, stated over the startup script and the
//! driver, and proved.
use vstd::prelude::*;
use crate::text::is_absolute;
use crate::mounts::{resolve_target, join_under};
use crate::plan::{SpecError, Step, resolve_mounts, bind_steps, opening_steps, closing_steps, startup_script, plan_of, staging_dir};
use crate::startup::{Outcome, Failure, Stage, progress, advanced, stage_of};

verus! {

/// Whether `p` lies at or below `root`, read as text.
pub open spec fn under(root: Seq<char>, p: Seq<char>) -> bool {
    root.len() <= p.len() && p.subrange(0, root.len() as int) == root
}

/// The host path a step writes to or claims, if any.
pub open spec fn claimed_path(s: Step) -> Option<Seq<char>> {
    match s {
        Step::Lock(p) => Some(p),
        Step::Bind(_, t) => Some(t),
        Step::MakeDir(p) => Some(p),
        _ => None,
    }
}

/// Whether a step names `p` as a path it acts on.
pub open spec fn acts_on(s: Step, p: Seq<char>) -> bool {
    match s {
        Step::Lock(q) | Step::MakeDir(q) | Step::ChangeDir(q) | Step::DetachUnmount(q)
        | Step::RemoveTree(q) => q == p,
        Step::Bind(a, b) | Step::PivotRoot(a, b) | Step::MountFs(a, b) => a == p || b == p,
        _ => false,
    }
}

proof fn lemma_bind_steps(b: Seq<(Seq<char>, Seq<char>)>)
    ensures
        bind_steps(b).len() == 2 * b.len(),
        forall|i: int|
            0 <= i < b.len() ==> #[trigger] bind_steps(b)[2 * i] == Step::MakeDir(b[i].1)
                && bind_steps(b)[2 * i + 1] == Step::Bind(b[i].0, b[i].1),
    decreases b.len(),
{
    if b.len() > 0 {
        lemma_bind_steps(b.drop_last());
        assert forall|i: int| 0 <= i < b.len() implies #[trigger] bind_steps(b)[2 * i]
            == Step::MakeDir(b[i].1) && bind_steps(b)[2 * i + 1] == Step::Bind(b[i].0, b[i].1) by {
            if i < b.len() - 1 {
                assert(b.drop_last()[i] == b[i]);
                assert(bind_steps(b.drop_last())[2 * i] == Step::MakeDir(b[i].1));
            }
        }
    }
}

proof fn lemma_resolved(root: Seq<char>, m: Seq<(Seq<char>, Seq<char>)>)
    requires
        resolve_mounts(root, m) is Ok,
    ensures
        resolve_mounts(root, m)->Ok_0.len() == m.len(),
        forall|i: int|
            0 <= i < m.len() ==> is_absolute(#[trigger] m[i].0) && resolve_target(m[i].1) is Some
                && resolve_mounts(root, m)->Ok_0[i] == (m[i].0, join_under(
                root,
                resolve_target(m[i].1)->0,
            )),
    decreases m.len(),
{
    if m.len() > 0 {
        lemma_resolved(root, m.drop_last());
        assert forall|i: int| 0 <= i < m.len() - 1 implies m.drop_last()[i] == #[trigger] m[i] by {}
    }
}

proof fn lemma_join_under(root: Seq<char>, comps: Seq<Seq<char>>)
    ensures
        under(root, join_under(root, comps)),
    decreases comps.len(),
{
    if comps.len() == 0 {
        assert(root.subrange(0, root.len() as int) =~= root);
    } else {
        lemma_join_under(root, comps.drop_last());
        let j = join_under(root, comps.drop_last());
        assert((j + seq!['/'] + comps.last()).subrange(0, root.len() as int) =~= j.subrange(
            0,
            root.len() as int,
        ));
    }
}

proof fn lemma_escape(root: Seq<char>, m: Seq<(Seq<char>, Seq<char>)>, i: int)
    requires
        0 <= i < m.len(),
        resolve_target(m[i].1) is None,
    ensures
        resolve_mounts(root, m) is Err,
    decreases m.len(),
{
    if i < m.len() - 1 {
        assert(m.drop_last()[i] == m[i]);
        lemma_escape(root, m.drop_last(), i);
    }
}

/// A startup with an absolute root and no bind mounts is never refused: it
/// takes the lock on the root, binds the root onto itself, enters it and makes
/// it the root, and creates exactly one process, as its last step.
pub proof fn law_plain_startup(root: Seq<char>)
    requires
        is_absolute(root),
    ensures
        plan_of(root, Seq::empty()) matches Ok(s) && s.len() == 18 && s[0] == Step::Lock(root)
            && s[4] == Step::Bind(root, root) && s[6] == Step::ChangeDir(root) && s[7]
            == Step::PivotRoot("."@, "old_root"@) && s[17] == Step::Fork && forall|j: int|
            0 <= j < 17 ==> s[j] != Step::Fork,
{
    let e = Seq::<(Seq<char>, Seq<char>)>::empty();
    assert(resolve_mounts(root, e) == Ok::<Seq<(Seq<char>, Seq<char>)>, SpecError>(e));
    assert(bind_steps(e) =~= Seq::<Step>::empty());
}

/// Each bind mount of an accepted specification is carried out before the
/// root switch: its target, under the root, is created, and its source is
/// bound there; the switch comes after every bind mount.
pub proof fn law_mounts_before_switch(root: Seq<char>, m: Seq<(Seq<char>, Seq<char>)>, i: int)
    requires
        plan_of(root, m) is Ok,
        0 <= i < m.len(),
    ensures
        ({
            let s = plan_of(root, m)->Ok_0;
            let t = join_under(root, resolve_target(m[i].1)->0);
            let pivot = (5 + 2 * m.len() + 2) as int;
            &&& s[5 + 2 * i] == Step::MakeDir(t)
            &&& s[6 + 2 * i] == Step::Bind(m[i].0, t)
            &&& 6 + 2 * i < pivot
            &&& s[pivot] == Step::PivotRoot("."@, "old_root"@)
            &&& under(root, t)
        }),
{
    let b = resolve_mounts(root, m)->Ok_0;
    lemma_resolved(root, m);
    lemma_bind_steps(b);
    lemma_join_under(root, resolve_target(m[i].1)->0);
    let s = startup_script(root, b);
    assert(s[5 + 2 * i] == bind_steps(b)[2 * i]);
    assert(s[6 + 2 * i] == bind_steps(b)[2 * i + 1]);
}

/// After the root switch the staging directory of the old root is detached
/// and then removed, and no later step acts on it.
pub proof fn law_staging_removed(root: Seq<char>, binds: Seq<(Seq<char>, Seq<char>)>)
    ensures
        ({
            let s = startup_script(root, binds);
            let pivot = (5 + 2 * binds.len() + 2) as int;
            &&& s.len() == pivot + 11
            &&& s[pivot] == Step::PivotRoot("."@, "old_root"@)
            &&& s[pivot + 2] == Step::DetachUnmount("/old_root"@)
            &&& s[pivot + 3] == Step::RemoveTree("/old_root"@)
            &&& forall|j: int| pivot + 3 < j < s.len() ==> !acts_on(#[trigger] s[j], "/old_root"@)
        }),
{
    lemma_bind_steps(binds);
    reveal_strlit("/old_root");
    reveal_strlit("/proc");
    reveal_strlit("/sys");
    reveal_strlit("/dev");
    reveal_strlit("proc");
    reveal_strlit("sysfs");
    reveal_strlit("tmpfs");
    assert("/proc"@ != "/old_root"@ && "/sys"@ != "/old_root"@ && "/dev"@ != "/old_root"@);
    assert("proc"@ != "/old_root"@ && "sysfs"@ != "/old_root"@ && "tmpfs"@ != "/old_root"@);
}

/// The stages of a startup come in order and none is skipped: the first
/// three steps isolate, every step after them up to the last builds the mount
/// namespace, and the last one launches.
pub proof fn law_stages_in_order(root: Seq<char>, binds: Seq<(Seq<char>, Seq<char>)>)
    ensures
        ({
            let s = startup_script(root, binds);
            &&& s.len() == 18 + 2 * binds.len()
            &&& forall|j: int| 0 <= j < 3 ==> stage_of(#[trigger] s[j]) == Stage::Isolate
            &&& forall|j: int| 3 <= j < s.len() - 1 ==> stage_of(#[trigger] s[j]) == Stage::BuildMountNamespace
            &&& stage_of(s[s.len() - 1]) == Stage::Launch
        }),
{
    lemma_bind_steps(binds);
    let s = startup_script(root, binds);
    let n = binds.len();
    assert forall|j: int| 3 <= j < s.len() - 1 implies stage_of(#[trigger] s[j]) == Stage::BuildMountNamespace by {
        if j < 5 {
            assert(s[j] == opening_steps(root)[j]);
        } else if j >= 5 + 2 * n {
            assert(s[j] == closing_steps(root)[j - 5 - 2 * n]);
        } else {
            let i = (j - 5) / 2;
            if j == 5 + 2 * i {
                assert(s[j] == bind_steps(binds)[2 * i]);
            } else {
                assert(s[j] == bind_steps(binds)[2 * i + 1]);
            }
        }
    }
}

/// Before the root switch, every host path that a startup locks, creates or
/// mounts onto lies at or below its root; so two startups whose roots are not
/// prefixes of one another never claim the same host path.
pub proof fn law_disjoint_roots(
    r1: Seq<char>,
    m1: Seq<(Seq<char>, Seq<char>)>,
    r2: Seq<char>,
    m2: Seq<(Seq<char>, Seq<char>)>,
)
    requires
        plan_of(r1, m1) is Ok,
        plan_of(r2, m2) is Ok,
        !under(r1, r2),
        !under(r2, r1),
    ensures
        forall|j: int, k: int|
            0 <= j < 5 + 2 * m1.len() + 2 && 0 <= k < 5 + 2 * m2.len() + 2 && (#[trigger] claimed_path(
                plan_of(r1, m1)->Ok_0[j],
            )) is Some && (#[trigger] claimed_path(plan_of(r2, m2)->Ok_0[k])) is Some
                ==> claimed_path(plan_of(r1, m1)->Ok_0[j]) != claimed_path(plan_of(r2, m2)->Ok_0[k]),
{
    lemma_claims_under(r1, m1);
    lemma_claims_under(r2, m2);
    let s1 = plan_of(r1, m1)->Ok_0;
    let s2 = plan_of(r2, m2)->Ok_0;
    assert forall|j: int, k: int|
        0 <= j < 5 + 2 * m1.len() + 2 && 0 <= k < 5 + 2 * m2.len() + 2 && (#[trigger] claimed_path(
            s1[j],
        )) is Some && (#[trigger] claimed_path(s2[k])) is Some implies claimed_path(s1[j])
        != claimed_path(s2[k]) by {
        let p = claimed_path(s1[j])->0;
        let q = claimed_path(s2[k])->0;
        assert(under(r1, p));
        assert(under(r2, q));
        if p == q {
            if r1.len() <= r2.len() {
                assert(r2.subrange(0, r1.len() as int) =~= p.subrange(0, r1.len() as int));
            } else {
                assert(r1.subrange(0, r2.len() as int) =~= p.subrange(0, r2.len() as int));
            }
        }
    }
}

proof fn lemma_claims_under(root: Seq<char>, m: Seq<(Seq<char>, Seq<char>)>)
    requires
        plan_of(root, m) is Ok,
    ensures
        forall|j: int|
            0 <= j < 5 + 2 * m.len() + 2 ==> (#[trigger] claimed_path(plan_of(root, m)->Ok_0[j]) matches Some(p) ==> under(root, p)),
{
    let b = resolve_mounts(root, m)->Ok_0;
    lemma_resolved(root, m);
    lemma_bind_steps(b);
    let s = startup_script(root, b);
    assert(under(root, root)) by {
        assert(root.subrange(0, root.len() as int) =~= root);
    }
    assert(under(root, staging_dir(root))) by {
        assert(staging_dir(root).subrange(0, root.len() as int) =~= root);
    }
    assert forall|j: int| 0 <= j < 5 + 2 * m.len() + 2 implies (#[trigger] claimed_path(s[j]) matches Some(p) ==> under(root, p)) by {
        if j < 5 {
            assert(s[j] == opening_steps(root)[j]);
            assert(j == 0 || j == 4 ==> claimed_path(s[j]) == Some(root));
            assert(0 < j < 4 ==> claimed_path(s[j]) is None);
        } else if j >= 5 + 2 * m.len() {
            assert(s[j] == closing_steps(root)[j - 5 - 2 * m.len()]);
            assert(j == 5 + 2 * m.len() ==> claimed_path(s[j]) == Some(staging_dir(root)));
            assert(j == 6 + 2 * m.len() ==> claimed_path(s[j]) is None);
        } else {
            let i = (j - 5) / 2;
            assert(0 <= i < m.len());
            lemma_join_under(root, resolve_target(m[i].1)->0);
            assert(is_absolute(m[i].0));
            assert(b[i].1 == join_under(root, resolve_target(m[i].1)->0));
            if j == 5 + 2 * i {
                assert(s[j] == bind_steps(b)[2 * i]);
            } else {
                assert(j == 5 + 2 * i + 1);
                assert(s[j] == bind_steps(b)[2 * i + 1]);
            }
            assert(claimed_path(s[j]) == Some(b[i].1));
        }
    }
}

/// A target that climbs above the root has the whole specification refused,
/// so no step of it is ever produced.
pub proof fn law_escape_refused(root: Seq<char>, m: Seq<(Seq<char>, Seq<char>)>, i: int)
    requires
        0 <= i < m.len(),
        resolve_target(m[i].1) is None,
    ensures
        plan_of(root, m) is Err,
{
    lemma_escape(root, m, i);
}

proof fn lemma_halted(script: Seq<Step>, os: Seq<Outcome>, code: i32)
    requires
        script.len() > 0,
        os.len() > 0,
        os[0] == (Outcome::Failed { code }),
    ensures
        progress(script, os) == (0nat, Some(Failure { stage: stage_of(script[0]), step: 0, code })),
    decreases os.len(),
{
    let f = Failure { stage: stage_of(script[0]), step: 0, code };
    if os.len() == 1 {
        assert(os.drop_last().len() == 0);
        assert(progress(script, os.drop_last()) == (0nat, None::<Failure>));
        assert(os.last() == os[0]);
        assert(advanced(script, 0nat, None::<Failure>, os[0]) == (0nat, Some(f)));
    } else {
        assert(os.drop_last()[0] == os[0]);
        lemma_halted(script, os.drop_last(), code);
    }
}

/// Two startups on the same root contend for the same lock, their first step;
/// a startup that fails to take it stops there for good, in the isolation
/// stage, whatever is reported after, and no other step is ever handed out.
pub proof fn law_same_root_serialized(
    root: Seq<char>,
    m1: Seq<(Seq<char>, Seq<char>)>,
    m2: Seq<(Seq<char>, Seq<char>)>,
    os: Seq<Outcome>,
    code: i32,
)
    requires
        plan_of(root, m1) is Ok,
        plan_of(root, m2) is Ok,
        os.len() > 0,
        os[0] == (Outcome::Failed { code }),
    ensures
        plan_of(root, m1)->Ok_0[0] == Step::Lock(root),
        plan_of(root, m2)->Ok_0[0] == Step::Lock(root),
        progress(plan_of(root, m1)->Ok_0, os) == (0nat, Some(
            Failure { stage: Stage::Isolate, step: 0, code },
        )),
{
    lemma_halted(plan_of(root, m1)->Ok_0, os, code);
}

} // verus!
