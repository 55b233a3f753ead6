//! The container process: the two sides of process creation, what the child
//! does before its program runs, and the status the supervisor reports.
use vstd::prelude::*;

verus! {

/// The user and group identity a privileged launch drops to.
pub const UNPRIVILEGED_ID: u32 = 65534;

/// The program a container runs and its argument vector, `args[0]` included.
pub struct EntryCommand {
    pub program: String,
    pub args: Vec<String>,
}

/// The text of each string.
pub open spec fn texts_of(v: Seq<String>) -> Seq<Seq<char>> {
    v.map_values(|s: String| s@)
}

/// The shell command that a container runs unless told otherwise.
pub open spec fn default_script() -> Seq<char> {
    "ip link set lo up && echo Hello from container! && sleep 10"@
}

/// Returns the default entry command: a shell that brings up the loopback
/// interface, prints a readiness line and idles.
pub fn default_entry() -> (r: EntryCommand)
    ensures
        r.program@ == "/bin/sh"@,
        texts_of(r.args@) == seq!["sh"@, "-c"@, default_script()],
{
    let mut args: Vec<String> = Vec::new();
    args.push(String::from_str("sh"));
    args.push(String::from_str("-c"));
    args.push(String::from_str("ip link set lo up && echo Hello from container! && sleep 10"));
    assert(texts_of(args@) =~= seq!["sh"@, "-c"@, default_script()]);
    EntryCommand { program: String::from_str("/bin/sh"), args }
}

/// The two sides of a successful process creation.
#[derive(Clone, Copy, Debug, PartialEq, Eq, Structural)]
pub enum ForkOutcome {
    /// The caller's side, which learns the id of the new process.
    Parent { child: i32 },
    /// The new process's side.
    Child,
}

/// One step of the child before and as it runs the entry command.
pub enum ChildAction {
    SetGid { gid: u32 },
    SetUid { uid: u32 },
    Exec { program: String, args: Vec<String> },
}

/// The value of a `ChildAction`.
pub enum ChildStep {
    SetGid(u32),
    SetUid(u32),
    Exec(Seq<char>, Seq<Seq<char>>),
}

impl View for ChildAction {
    type V = ChildStep;

    open spec fn view(&self) -> ChildStep {
        match self {
            ChildAction::SetGid { gid } => ChildStep::SetGid(*gid),
            ChildAction::SetUid { uid } => ChildStep::SetUid(*uid),
            ChildAction::Exec { program, args } => ChildStep::Exec(program@, texts_of(args@)),
        }
    }
}

/// The steps of a list of child actions.
pub open spec fn child_steps_of(v: Seq<ChildAction>) -> Seq<ChildStep> {
    v.map_values(|a: ChildAction| a@)
}

/// What the child does when its effective user id is `euid`: the superuser
/// first gives up its group, then its user, for the unprivileged identity; any
/// other identity is kept. Then the entry command replaces the program.
pub open spec fn child_script(euid: u32, program: Seq<char>, args: Seq<Seq<char>>) -> Seq<ChildStep> {
    if euid == 0 {
        seq![
            ChildStep::SetGid(UNPRIVILEGED_ID),
            ChildStep::SetUid(UNPRIVILEGED_ID),
            ChildStep::Exec(program, args),
        ]
    } else {
        seq![ChildStep::Exec(program, args)]
    }
}

/// Returns the child's steps for the effective user id `euid`.
pub fn child_plan(euid: u32, entry: EntryCommand) -> (r: Vec<ChildAction>)
    ensures
        child_steps_of(r@) == child_script(euid, entry.program@, texts_of(entry.args@)),
{
    let ghost program = entry.program@;
    let ghost args = texts_of(entry.args@);
    let mut v: Vec<ChildAction> = Vec::new();
    if euid == 0 {
        v.push(ChildAction::SetGid { gid: UNPRIVILEGED_ID });
        v.push(ChildAction::SetUid { uid: UNPRIVILEGED_ID });
    }
    v.push(ChildAction::Exec { program: entry.program, args: entry.args });
    assert(child_steps_of(v@) =~= child_script(euid, program, args));
    v
}

/// How the container process ended.
#[derive(Clone, Copy, Debug, PartialEq, Eq, Structural)]
pub enum Termination {
    Exited { code: i32 },
    Signaled { signal: i32 },
}

/// The status reported for a termination: the exit code itself, or 128 plus
/// the signal number, as shells report it.
pub open spec fn status_of(t: Termination) -> int {
    match t {
        Termination::Exited { code } => code as int,
        Termination::Signaled { signal } => 128 + signal,
    }
}

/// Returns the status to report for the container process's termination.
pub fn exit_status(t: Termination) -> (r: i32)
    requires
        t matches Termination::Signaled { signal } ==> signal <= i32::MAX - 128,
    ensures
        r as int == status_of(t),
{
    match t {
        Termination::Exited { code } => code,
        Termination::Signaled { signal } => 128 + signal,
    }
}

} // verus!
