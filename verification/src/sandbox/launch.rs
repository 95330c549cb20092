use vstd::prelude::*;

use crate::sandbox::command::{texts, words_from, EmptyCommand};
use crate::sandbox::resource::ResourceLimits;
use crate::sandbox::Profile;

verus! {

/// A kernel resource that a process can be limited in.
#[derive(Clone, Copy, Debug, PartialEq, Eq, Hash, Structural)]
pub enum Resource {
    /// CPU time, in seconds. The kernel kills a process that exceeds it.
    Cpu,
    /// The data segment, in bytes.
    Data,
}

/// One limit to set on the process itself.
#[derive(Clone, Copy, Debug, PartialEq, Eq, Hash, Structural)]
pub struct Rlimit {
    pub resource: Resource,
    pub soft: u64,
    pub hard: u64,
}

/// What a path of the file system may be used for.
#[derive(Clone, Copy, Debug, PartialEq, Eq, Hash, Structural)]
pub enum Access {
    /// Read, write and execute.
    Full,
    /// Read and execute.
    ReadOnly,
}

/// One layer of the sandbox. Each is put on by the child itself, after the
/// fork and before it executes the command.
#[derive(Clone, Copy, Debug, PartialEq, Eq, Hash, Structural)]
pub enum Layer {
    /// The file system is confined to the working directory and the
    /// system's libraries.
    Confinement,
    /// The limits on CPU time and memory are set.
    Limits(ResourceLimits),
    /// The system call filter is installed.
    SyscallFilter,
}

/// How a command is to be launched.
#[derive(Clone, Debug, PartialEq, Eq)]
pub struct Launch {
    pub executable: String,
    pub args: Vec<String>,
    /// The layers of the sandbox, in the order in which they are put on.
    pub layers: Vec<Layer>,
}

/// A [`Launch`] as plain values.
pub struct LaunchView {
    pub executable: Seq<char>,
    pub args: Seq<Seq<char>>,
    pub layers: Seq<Layer>,
}

impl View for Launch {
    type V = LaunchView;

    open spec fn view(&self) -> LaunchView {
        LaunchView { executable: self.executable@, args: texts(self.args@), layers: self.layers@ }
    }
}

/// The layers that a profile calls for. A compiler runs without any; a
/// submission is confined first, then limited, then filtered.
pub open spec fn layers_of(profile: Profile) -> Seq<Layer> {
    match profile {
        Profile::Compile => Seq::empty(),
        Profile::Run(limits) => seq![
            Layer::Confinement,
            Layer::Limits(limits),
            Layer::SyscallFilter,
        ],
    }
}

/// How a list of words is launched under a profile: the first word is the
/// executable, the others are its arguments. No words cannot be launched.
pub open spec fn launch_of(command: Seq<Seq<char>>, profile: Profile) -> Result<
    LaunchView,
    EmptyCommand,
> {
    if command.len() == 0 {
        Err(EmptyCommand)
    } else {
        Ok(
            LaunchView {
                executable: command[0],
                args: command.skip(1),
                layers: layers_of(profile),
            },
        )
    }
}

/// The result of planning a launch as plain values.
pub open spec fn planned_view(result: Result<Launch, EmptyCommand>) -> Result<
    LaunchView,
    EmptyCommand,
> {
    match result {
        Ok(launch) => Ok(launch@),
        Err(error) => Err(error),
    }
}

/// The process limits that stand for the given resource limits: CPU time
/// and data segment, each with the soft limit at the hard limit.
pub open spec fn rlimits_of(limits: ResourceLimits) -> Seq<Rlimit> {
    seq![
        Rlimit { resource: Resource::Cpu, soft: limits.cpu, hard: limits.cpu },
        Rlimit { resource: Resource::Data, soft: limits.memory, hard: limits.memory },
    ]
}

impl Profile {
    /// The layers of the sandbox that this profile calls for, in the order
    /// in which they are put on.
    pub fn layers(&self) -> (layers: Vec<Layer>)
        ensures
            layers@ == layers_of(*self),
    {
        let mut layers: Vec<Layer> = Vec::new();
        match self {
            Profile::Compile => {},
            Profile::Run(limits) => {
                layers.push(Layer::Confinement);
                layers.push(Layer::Limits(*limits));
                layers.push(Layer::SyscallFilter);
            },
        }
        proof {
            assert(layers@ =~= layers_of(*self));
        }
        layers
    }
}

impl ResourceLimits {
    /// The process limits to set, in order.
    pub fn rlimits(&self) -> (limits: Vec<Rlimit>)
        ensures
            limits@ == rlimits_of(*self),
    {
        let mut limits: Vec<Rlimit> = Vec::new();
        limits.push(Rlimit { resource: Resource::Cpu, soft: self.cpu, hard: self.cpu });
        limits.push(Rlimit { resource: Resource::Data, soft: self.memory, hard: self.memory });
        proof {
            assert(limits@ =~= rlimits_of(*self));
        }
        limits
    }
}

/// Plans the launch of a command under a profile.
pub fn plan(command: &[String], profile: Profile) -> (result: Result<Launch, EmptyCommand>)
    ensures
        planned_view(result) == launch_of(texts(command@), profile),
{
    if command.len() == 0 {
        return Err(EmptyCommand);
    }
    Ok(
        Launch {
            executable: command[0].clone(),
            args: words_from(command, 1),
            layers: profile.layers(),
        },
    )
}

/// One rule of the confinement: a path, and what it may be used for.
#[derive(Clone, Debug, PartialEq, Eq, Hash)]
pub struct PathRule {
    pub path: String,
    pub access: Access,
}

/// The rules of the confinement as plain values.
pub open spec fn rules_view(rules: Seq<PathRule>) -> Seq<(Seq<char>, Access)> {
    Seq::new(rules.len(), |i: int| (rules[i].path@, rules[i].access))
}

/// What a confined process can reach: its working directory in full, the
/// places of the system's libraries for reading, and nothing else.
pub open spec fn confinement_of(dir: Seq<char>) -> Seq<(Seq<char>, Access)> {
    seq![
        (dir, Access::Full),
        ("/lib"@, Access::ReadOnly),
        ("/usr/lib"@, Access::ReadOnly),
        ("/usr/local/lib"@, Access::ReadOnly),
        ("/nix/store"@, Access::ReadOnly),
    ]
}

/// The rules that confine a process to the given working directory.
pub fn confinement(dir: &str) -> (rules: Vec<PathRule>)
    ensures
        rules_view(rules@) == confinement_of(dir@),
{
    let mut rules: Vec<PathRule> = Vec::new();
    rules.push(PathRule { path: dir.to_owned(), access: Access::Full });
    rules.push(PathRule { path: "/lib".to_owned(), access: Access::ReadOnly });
    rules.push(PathRule { path: "/usr/lib".to_owned(), access: Access::ReadOnly });
    rules.push(PathRule { path: "/usr/local/lib".to_owned(), access: Access::ReadOnly });
    rules.push(PathRule { path: "/nix/store".to_owned(), access: Access::ReadOnly });
    proof {
        assert(rules_view(rules@) =~= confinement_of(dir@));
    }
    rules
}

} // verus!
