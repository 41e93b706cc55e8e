//! A local reconciliation engine for developer-hosted projects: it compares the
//! declared projects with the last applied state, derives an ordered plan of actions,
//! decides step by step what the executor does next, and builds the command lines that
//! run a project's commands inside a dependency shell.

pub mod action;
pub mod config;
pub mod dict;
pub mod executor;
pub mod instance;
pub mod multi;
pub mod paths;
pub mod planner;
pub mod project;
pub mod reconcile;
pub mod text;

use crate::text::{joined, replaced};
use vstd::prelude::*;
use vstd::string::StringExecFns;

verus! {

/// What a child process does with its standard streams.
#[derive(Debug, Clone, Copy, PartialEq, Eq, Structural)]
pub enum Stdio {
    /// As the platform has it by default.
    Default,
    /// Output and errors are captured.
    Piped,
    /// Input, output and errors are those of the parent.
    Inherit,
}

/// A child process to spawn: the program, its arguments, the directory to run it in.
#[derive(Debug, Clone, PartialEq)]
pub struct Invocation {
    pub program: String,
    pub args: Vec<String>,
    pub cwd: Option<String>,
    pub stdio: Stdio,
}

/// An [`Invocation`] as a mathematical value: its strings as sequences of characters,
/// its lists as sequences.
pub struct InvocationView {
    pub program: Seq<char>,
    pub args: Seq<Seq<char>>,
    pub cwd: Option<Seq<char>>,
    pub stdio: Stdio,
}

impl View for Invocation {
    type V = InvocationView;

    open spec fn view(&self) -> InvocationView {
        InvocationView {
            program: self.program@,
            args: self.args.deep_view(),
            cwd: self.cwd.deep_view(),
            stdio: self.stdio,
        }
    }
}

impl DeepView for Invocation {
    type V = InvocationView;

    open spec fn deep_view(&self) -> InvocationView {
        self@
    }
}

impl Invocation {
    /// A copy of the invocation.
    pub fn copy(&self) -> (r: Self)
        ensures
            r@ == self@,
    {
        let cwd = match &self.cwd {
            Some(dir) => Some(dir.clone()),
            None => None,
        };
        Invocation {
            program: self.program.clone(),
            args: crate::text::copy_all(&self.args),
            cwd,
            stdio: self.stdio,
        }
    }
}

/// Where the dependency shell is found unless another place is given.
pub open spec fn default_shell() -> Seq<char> {
    "/nix/var/nix/profiles/default/bin/nix-shell"@
}

/// Where the dependency shell is found unless another place is given.
pub fn nix_shell_path() -> (r: String)
    ensures
        r@ == default_shell(),
{
    "/nix/var/nix/profiles/default/bin/nix-shell".to_owned()
}

/// `s` as one word of a shell command: between single quotes, with each single quote
/// inside it written as `'\''`.
pub open spec fn escaped(s: Seq<char>) -> Seq<char> {
    "'"@ + replaced(s, "'"@, "'\\''"@) + "'"@
}

/// Quotes `s` so that a shell reads it as one word.
pub fn escape_bash_string(s: &str) -> (r: String)
    ensures
        r@ == escaped(s@),
{
    let inner = crate::text::replace(s, "'", "'\\''");
    let mut r = "'".to_owned();
    r.append(inner.as_str());
    r.append("'");
    r
}

/// The assignments put in front of each command: the project's name and directory.
pub open spec fn env_prefix(project_name: Seq<char>, project_dir: Seq<char>) -> Seq<char> {
    "PROJECT_NAME="@ + escaped(project_name) + " PROJECT_DIR="@ + escaped(project_dir) + " "@
}

/// The commands, each behind the prefix, joined by `&&`.
pub open spec fn script(cmds: Seq<Seq<char>>, prefix: Seq<char>) -> Seq<char> {
    joined(cmds.map_values(|c: Seq<char>| prefix + c), "&&"@)
}

/// The child process that runs `cmds` in the directory `path`: inside the dependency
/// shell with `deps` where dependencies are given, in plain bash where they are not.
pub open spec fn shell_invocation(
    path: Seq<char>,
    deps: Option<Seq<Seq<char>>>,
    cmds: Seq<Seq<char>>,
    inherit: bool,
    project_name: Seq<char>,
    project_dir: Seq<char>,
) -> InvocationView {
    let text = script(cmds, env_prefix(project_name, project_dir));
    let stdio = if inherit {
        Stdio::Inherit
    } else {
        Stdio::Default
    };
    match deps {
        Some(deps) => InvocationView {
            program: default_shell(),
            args: seq!["-p"@] + deps + seq!["--run"@, text],
            cwd: Some(path),
            stdio,
        },
        None => InvocationView {
            program: "/usr/bin/env"@,
            args: seq!["bash"@, "-c"@, text],
            cwd: Some(path),
            stdio,
        },
    }
}

/// Builds the child process that runs `cmds` in the directory `path`, with the
/// project's name and directory set as variables in front of each command.
pub fn nix_shell(
    path: &str,
    deps: Option<&Vec<String>>,
    cmds: &Vec<String>,
    inherit: bool,
    project_name: &str,
    project_dir: &str,
) -> (r: Invocation)
    ensures
        r@ == shell_invocation(
            path@,
            deps.deep_view(),
            cmds.deep_view(),
            inherit,
            project_name@,
            project_dir@,
        ),
{
    let escaped_name = escape_bash_string(project_name);
    let escaped_dir = escape_bash_string(project_dir);
    let mut prefix = "PROJECT_NAME=".to_owned();
    prefix.append(escaped_name.as_str());
    prefix.append(" PROJECT_DIR=");
    prefix.append(escaped_dir.as_str());
    prefix.append(" ");
    let ghost pre = env_prefix(project_name@, project_dir@);
    assert(prefix@ == pre);

    let mut lines: Vec<String> = Vec::new();
    let mut i: usize = 0;
    while i < cmds.len()
        invariant
            i <= cmds.len(),
            prefix@ == pre,
            lines.len() == i,
            forall|j: int| 0 <= j < i ==> (#[trigger] lines[j])@ == pre + cmds[j]@,
        decreases cmds.len() - i,
    {
        lines.push(crate::text::chain(prefix.as_str(), cmds[i].as_str()));
        i += 1;
    }
    assert(lines.deep_view() =~= cmds.deep_view().map_values(|c: Seq<char>| pre + c));
    let text = crate::text::join(&lines, "&&");
    let stdio = if inherit {
        Stdio::Inherit
    } else {
        Stdio::Default
    };
    let mut args: Vec<String> = Vec::new();
    match deps {
        Some(deps) => {
            args.push("-p".to_owned());
            assert(args.deep_view() =~= seq!["-p"@]);
            crate::text::extend(&mut args, deps);
            args.push("--run".to_owned());
            args.push(text);
            assert(args.deep_view() =~= seq!["-p"@] + deps.deep_view() + seq!["--run"@, text@]);
            Invocation { program: nix_shell_path(), args, cwd: Some(path.to_owned()), stdio }
        },
        None => {
            args.push("bash".to_owned());
            args.push("-c".to_owned());
            args.push(text);
            assert(args.deep_view() =~= seq!["bash"@, "-c"@, text@]);
            Invocation { program: "/usr/bin/env".to_owned(), args, cwd: Some(path.to_owned()), stdio }
        },
    }
}

} // verus!
