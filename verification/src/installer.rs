//! The installer dispatch policy: whether the tool is present, and if
//! not, which package manager to probe and which install command to
//! run, decided from the host OS and from probe outcomes alone. The
//! caller performs each probe or command as one subprocess invocation
//! and feeds its outcome back; success of a command is its exit
//! status, with no output parsing.

use vstd::prelude::*;

use crate::errors::GitError;

verus! {

/// How one subprocess invocation ended: a success status, a
/// non-success status, or no launch at all.
#[derive(Clone, Copy, PartialEq, Eq, Structural, Debug)]
pub enum ProbeOutcome {
    Success,
    Failure,
    LaunchError,
}

/// The host operating system, as far as dispatch cares.
#[derive(Clone, Copy, PartialEq, Eq, Structural, Debug)]
pub enum HostOs {
    MacOs,
    Linux,
    Windows,
    Other,
}

/// A package manager the dispatch may probe or run.
#[derive(Clone, Copy, PartialEq, Eq, Structural, Debug)]
pub enum Manager {
    Brew,
    Pacman,
    AptGet,
    Choco,
    Winget,
}

/// The installer's next move: probe a manager, run a manager's
/// install command, stop because nothing is to do, or stop failing.
#[derive(Debug)]
pub enum InstallStep {
    Probe(Manager),
    Run(Manager),
    Done,
    Fail(GitError),
}

/// Whether the tool is installed, read off the outcome of its version
/// probe: a success status means installed, a non-success status
/// means not installed, and a probe that could not be launched at all
/// resolves to `NotFound`.
pub fn is_git_installed(probe: ProbeOutcome) -> (r: Result<bool, GitError>)
    ensures
        probe is Success ==> (r matches Ok(b) && b),
        probe is Failure ==> (r matches Ok(b) && !b),
        probe is LaunchError ==> (r matches Err(e) && e is NotFound),
{
    match probe {
        ProbeOutcome::Success => Ok(true),
        ProbeOutcome::Failure => Ok(false),
        ProbeOutcome::LaunchError => Err(GitError::NotFound),
    }
}

/// The first move of an installation: with the tool already callable
/// it is a no-op success, with no manager probed and no command run;
/// otherwise the host OS picks the manager to probe first, and a host
/// outside the table fails at once.
pub fn install_start(tool_installed: bool, os: HostOs) -> (r: InstallStep)
    ensures
        tool_installed ==> r is Done,
        !tool_installed && os is MacOs ==> (r matches InstallStep::Probe(m) && m is Brew),
        !tool_installed && os is Linux ==> (r matches InstallStep::Probe(m) && m is Pacman),
        !tool_installed && os is Windows ==> (r matches InstallStep::Probe(m) && m is Choco),
        !tool_installed && os is Other ==> (r matches InstallStep::Fail(
            GitError::CommandFailed(msg),
        ) && msg@ == "OS not supported"@),
{
    if tool_installed {
        InstallStep::Done
    } else {
        match os {
            HostOs::MacOs => InstallStep::Probe(Manager::Brew),
            HostOs::Linux => InstallStep::Probe(Manager::Pacman),
            HostOs::Windows => InstallStep::Probe(Manager::Choco),
            HostOs::Other => InstallStep::Fail(
                GitError::CommandFailed(String::from_str("OS not supported")),
            ),
        }
    }
}

/// The probe states the dispatch can reach: the manager that
/// `install_start` or a failed Chocolatey probe asks about on that OS.
pub open spec fn probe_state(os: HostOs, m: Manager) -> bool {
    ||| (os is MacOs && m is Brew)
    ||| (os is Linux && m is Pacman)
    ||| (os is Windows && m is Choco)
    ||| (os is Windows && m is Winget)
}

/// The decision table after a manager probe. On macOS a missing
/// Homebrew is fatal; on Linux a missing pacman falls back to apt-get
/// unprobed; on the Windows-class host a missing Chocolatey is
/// followed by a Winget probe, and only both missing is fatal.
pub fn install_after_probe(os: HostOs, m: Manager, available: bool) -> (r: InstallStep)
    requires
        probe_state(os, m),
    ensures
        os is MacOs && available ==> (r matches InstallStep::Run(mm) && mm is Brew),
        os is MacOs && !available ==> (r matches InstallStep::Fail(GitError::CommandFailed(msg))
            && msg@ == "Homebrew is not installed. Please install Homebrew first."@),
        os is Linux && available ==> (r matches InstallStep::Run(mm) && mm is Pacman),
        os is Linux && !available ==> (r matches InstallStep::Run(mm) && mm is AptGet),
        os is Windows && m is Choco && available ==> (r matches InstallStep::Run(mm)
            && mm is Choco),
        os is Windows && m is Choco && !available ==> (r matches InstallStep::Probe(mm)
            && mm is Winget),
        os is Windows && m is Winget && available ==> (r matches InstallStep::Run(mm)
            && mm is Winget),
        os is Windows && m is Winget && !available ==> (r matches InstallStep::Fail(
            GitError::CommandFailed(msg),
        ) && msg@ == "Neither Chocolatey nor Winget is installed. Please install one of them first."@),
{
    match (os, m) {
        (HostOs::MacOs, Manager::Brew) => {
            if available {
                InstallStep::Run(Manager::Brew)
            } else {
                InstallStep::Fail(
                    GitError::CommandFailed(
                        String::from_str("Homebrew is not installed. Please install Homebrew first."),
                    ),
                )
            }
        },
        (HostOs::Linux, Manager::Pacman) => {
            if available {
                InstallStep::Run(Manager::Pacman)
            } else {
                InstallStep::Run(Manager::AptGet)
            }
        },
        (HostOs::Windows, Manager::Choco) => {
            if available {
                InstallStep::Run(Manager::Choco)
            } else {
                InstallStep::Probe(Manager::Winget)
            }
        },
        (HostOs::Windows, Manager::Winget) => {
            if available {
                InstallStep::Run(Manager::Winget)
            } else {
                InstallStep::Fail(
                    GitError::CommandFailed(
                        String::from_str(
                            "Neither Chocolatey nor Winget is installed. Please install one of them first.",
                        ),
                    ),
                )
            }
        },
        _ => unreached(),
    }
}

/// The result of one install command, from how its process ended:
/// exit status alone decides.
pub fn interpret_run(launched: bool, success: bool, cmd: &str, status: &str) -> (r: Result<
    (),
    GitError,
>)
    ensures
        !launched ==> (r matches Err(GitError::CommandFailed(msg)) && msg@
            == "Failed to run command: "@ + cmd@),
        launched && !success ==> (r matches Err(GitError::CommandFailed(msg)) && msg@
            == "Command failed with status: "@ + status@),
        launched && success ==> r is Ok,
{
    if !launched {
        Err(GitError::CommandFailed(String::from_str("Failed to run command: ").concat(cmd)))
    } else if !success {
        Err(GitError::CommandFailed(String::from_str("Command failed with status: ").concat(status)))
    } else {
        Ok(())
    }
}

/// The probe invocation for a manager: the program and its one
/// version argument.
pub fn probe_argv(m: Manager) -> (r: (&'static str, &'static str))
    ensures
        m is Brew ==> r.0@ == "brew"@ && r.1@ == "--version"@,
        m is Pacman ==> r.0@ == "pacman"@ && r.1@ == "-V"@,
        m is AptGet ==> r.0@ == "apt-get"@ && r.1@ == "--version"@,
        m is Choco ==> r.0@ == "choco"@ && r.1@ == "--version"@,
        m is Winget ==> r.0@ == "winget"@ && r.1@ == "--version"@,
{
    match m {
        Manager::Brew => ("brew", "--version"),
        Manager::Pacman => ("pacman", "-V"),
        Manager::AptGet => ("apt-get", "--version"),
        Manager::Choco => ("choco", "--version"),
        Manager::Winget => ("winget", "--version"),
    }
}

/// The non-interactive install invocation for a manager, program
/// first, in the exact argument order run.
pub fn install_argv(m: Manager) -> (r: Vec<&'static str>)
    ensures
        m is Brew ==> r@.len() == 3 && r@[0]@ == "brew"@ && r@[1]@ == "install"@ && r@[2]@
            == "git"@,
        m is Pacman ==> r@.len() == 5 && r@[0]@ == "sudo"@ && r@[1]@ == "pacman"@ && r@[2]@
            == "-S"@ && r@[3]@ == "--noconfirm"@ && r@[4]@ == "git"@,
        m is AptGet ==> r@.len() == 5 && r@[0]@ == "sudo"@ && r@[1]@ == "apt-get"@ && r@[2]@
            == "install"@ && r@[3]@ == "-y"@ && r@[4]@ == "git"@,
        m is Choco ==> r@.len() == 4 && r@[0]@ == "choco"@ && r@[1]@ == "install"@ && r@[2]@
            == "git"@ && r@[3]@ == "-y"@,
        m is Winget ==> r@.len() == 5 && r@[0]@ == "winget"@ && r@[1]@ == "install"@ && r@[2]@
            == "--id"@ && r@[3]@ == "Git.Git"@ && r@[4]@ == "--silent"@,
{
    let mut v: Vec<&'static str> = Vec::new();
    match m {
        Manager::Brew => {
            v.push("brew");
            v.push("install");
            v.push("git");
        },
        Manager::Pacman => {
            v.push("sudo");
            v.push("pacman");
            v.push("-S");
            v.push("--noconfirm");
            v.push("git");
        },
        Manager::AptGet => {
            v.push("sudo");
            v.push("apt-get");
            v.push("install");
            v.push("-y");
            v.push("git");
        },
        Manager::Choco => {
            v.push("choco");
            v.push("install");
            v.push("git");
            v.push("-y");
        },
        Manager::Winget => {
            v.push("winget");
            v.push("install");
            v.push("--id");
            v.push("Git.Git");
            v.push("--silent");
        },
    }
    v
}

} // verus!
