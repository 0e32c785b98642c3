//! How a managed unit's application is started.

use crate::util::os::TargetOs;
use crate::util::text::{decimal, u64_to_string};
use vstd::prelude::*;
use vstd::string::StringExecFns;

verus! {

/// The start of an application: the program to run in the background, what
/// `PATH` it runs with, and the files to unlock before.
#[derive(Debug, PartialEq)]
pub struct LaunchCommand {
    pub program: String,
    /// Value of `PATH` for the program: the runtime's directory of programs.
    pub path: String,
    pub args: Vec<String>,
    /// Files whose read-only flag is cleared before the program is started.
    pub unlock: Vec<String>,
}

/// A `LaunchCommand` as text.
pub struct LaunchCommandModel {
    pub program: Seq<char>,
    pub path: Seq<char>,
    pub args: Seq<Seq<char>>,
    pub unlock: Seq<Seq<char>>,
}

impl DeepView for LaunchCommand {
    type V = LaunchCommandModel;

    open spec fn deep_view(&self) -> LaunchCommandModel {
        LaunchCommandModel {
            program: self.program@,
            path: self.path@,
            args: self.args.deep_view(),
            unlock: self.unlock.deep_view(),
        }
    }
}

/// What separates the parts of a path on a system.
pub open spec fn separator(os: TargetOs) -> Seq<char> {
    match os {
        TargetOs::Windows => "\\"@,
        _ => "/"@,
    }
}

/// The runtime's directory of programs.
pub open spec fn bin_dir(os: TargetOs, jdk_path: Seq<char>) -> Seq<char> {
    jdk_path + separator(os) + "bin"@
}

/// How the application in `jar_file_path` is started on `port` with the
/// runtime in `jdk_path`.
///
/// On Windows the program is `javaw`, which opens no console. Elsewhere it
/// is `java`, and the runtime's `java` and the application are unlocked
/// first.
pub open spec fn launch_command(
    os: TargetOs,
    jar_file_path: Seq<char>,
    jdk_path: Seq<char>,
    port: u32,
) -> LaunchCommandModel {
    LaunchCommandModel {
        program: match os {
            TargetOs::Windows => "javaw"@,
            _ => "java"@,
        },
        path: bin_dir(os, jdk_path),
        args: seq!["-jar"@, jar_file_path, "--server.port"@, decimal(port as nat)],
        unlock: match os {
            TargetOs::Windows => Seq::empty(),
            _ => seq![bin_dir(os, jdk_path) + separator(os) + "java"@, jar_file_path],
        },
    }
}

/// Builds the command that starts an application in the background.
pub fn run_spring_boot(os: TargetOs, jar_file_path: &str, jdk_path: &str, port: u32) -> (r:
    LaunchCommand)
    ensures
        r.deep_view() == launch_command(os, jar_file_path@, jdk_path@, port),
{
    let windows = match os {
        TargetOs::Windows => true,
        _ => false,
    };
    let sep = if windows {
        "\\"
    } else {
        "/"
    };
    let mut path = jdk_path.to_owned();
    path.append(sep);
    path.append("bin");
    let mut args: Vec<String> = Vec::new();
    args.push("-jar".to_owned());
    args.push(jar_file_path.to_owned());
    args.push("--server.port".to_owned());
    args.push(u64_to_string(port as u64));
    let mut unlock: Vec<String> = Vec::new();
    if !windows {
        let mut java = path.clone();
        java.append(sep);
        java.append("java");
        unlock.push(java);
        unlock.push(jar_file_path.to_owned());
    }
    let program = if windows {
        "javaw"
    } else {
        "java"
    };
    let r = LaunchCommand { program: program.to_owned(), path, args, unlock };
    assert(r.deep_view().args =~= launch_command(os, jar_file_path@, jdk_path@, port).args);
    assert(r.deep_view().unlock =~= launch_command(os, jar_file_path@, jdk_path@, port).unlock);
    r
}

} // verus!
