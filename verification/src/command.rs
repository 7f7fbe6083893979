//! The command lines of each stage, by package manager.
//!
//! A command line is a program and its arguments, each a string of its own. A
//! package name always travels as one argument, or inside one, and is never
//! read by a shell.

use vstd::prelude::*;
use crate::manager::PackageManagerKind;
use crate::text::{push_text, texts};

verus! {

/// A program to start and the arguments to hand it.
#[derive(Clone, Debug, PartialEq, Eq)]
pub struct CommandLine {
    pub program: String,
    pub args: Vec<String>,
}

/// A command line as plain text.
pub struct CommandLineView {
    pub program: Seq<char>,
    pub args: Seq<Seq<char>>,
}

impl View for CommandLine {
    type V = CommandLineView;

    open spec fn view(&self) -> CommandLineView {
        CommandLineView { program: self.program@, args: texts(self.args@) }
    }
}

/// The program that answers version probes for a manager.
pub open spec fn probe_program(kind: PackageManagerKind) -> Seq<char> {
    match kind {
        PackageManagerKind::Apt => "apt-get"@,
        PackageManagerKind::Dnf => "dnf"@,
        PackageManagerKind::Yum => "yum"@,
        PackageManagerKind::Pacman => "pacman"@,
        PackageManagerKind::Zypper => "zypper"@,
    }
}

/// The version check of a manager: its exit status tells whether the manager
/// is present.
pub open spec fn spec_version_check(kind: PackageManagerKind) -> CommandLineView {
    CommandLineView { program: probe_program(kind), args: seq!["--version"@] }
}

/// The command that prints the installed packages, one name per line.
///
/// For apt and pacman the manager's listing goes through a text filter that
/// keeps the name column, so the command is a shell pipeline; no input of the
/// program is part of its text.
pub open spec fn spec_listing(kind: PackageManagerKind) -> CommandLineView {
    match kind {
        PackageManagerKind::Apt => CommandLineView {
            program: "sh"@,
            args: seq!["-c"@, "dpkg -l | awk '/^ii/ {print $2}'"@],
        },
        PackageManagerKind::Pacman => CommandLineView {
            program: "sh"@,
            args: seq!["-c"@, "pacman -Q | awk '{print $1}'"@],
        },
        PackageManagerKind::Dnf | PackageManagerKind::Yum | PackageManagerKind::Zypper => CommandLineView {
            program: "rpm"@,
            args: seq!["-qa"@, "--qf"@, "%{NAME}\\n"@],
        },
    }
}

/// The search pattern for a package: the name itself, anchored at both ends
/// where the manager's search reads patterns.
pub open spec fn search_pattern(kind: PackageManagerKind, package: Seq<char>) -> Seq<char> {
    match kind {
        PackageManagerKind::Apt | PackageManagerKind::Pacman => "^"@ + package + "$"@,
        _ => package,
    }
}

/// The repository search for one package.
pub open spec fn spec_existence_check(kind: PackageManagerKind, package: Seq<char>) -> CommandLineView {
    let pattern = search_pattern(kind, package);
    match kind {
        PackageManagerKind::Apt => CommandLineView { program: "apt-cache"@, args: seq!["search"@, pattern] },
        PackageManagerKind::Dnf => CommandLineView { program: "dnf"@, args: seq!["search"@, pattern, "--cve"@] },
        PackageManagerKind::Yum => CommandLineView { program: "yum"@, args: seq!["search"@, pattern] },
        PackageManagerKind::Pacman => CommandLineView { program: "pacman"@, args: seq!["-Ss"@, pattern] },
        PackageManagerKind::Zypper => CommandLineView { program: "zypper"@, args: seq!["search"@, pattern] },
    }
}

/// The arguments that make a manager remove packages without asking.
pub open spec fn removal_prefix(kind: PackageManagerKind) -> Seq<Seq<char>> {
    match kind {
        PackageManagerKind::Apt => seq!["apt-get"@, "remove"@, "-y"@],
        PackageManagerKind::Dnf => seq!["dnf"@, "remove"@, "-y"@],
        PackageManagerKind::Yum => seq!["yum"@, "remove"@, "-y"@],
        PackageManagerKind::Pacman => seq!["pacman"@, "-R"@, "--noconfirm"@],
        PackageManagerKind::Zypper => seq!["zypper"@, "remove"@, "-y"@],
    }
}

/// The removal of one package, run with elevated privileges and without
/// questions; the package name is the last argument.
pub open spec fn spec_removal(kind: PackageManagerKind, package: Seq<char>) -> CommandLineView {
    CommandLineView { program: "sudo"@, args: removal_prefix(kind).push(package) }
}

fn probe_program_name(kind: PackageManagerKind) -> (name: &'static str)
    ensures
        name@ == probe_program(kind),
{
    match kind {
        PackageManagerKind::Apt => "apt-get",
        PackageManagerKind::Dnf => "dnf",
        PackageManagerKind::Yum => "yum",
        PackageManagerKind::Pacman => "pacman",
        PackageManagerKind::Zypper => "zypper",
    }
}

fn anchored(package: &str) -> (pattern: String)
    ensures
        pattern@ == "^"@ + package@ + "$"@,
{
    let mut pattern = "^".to_owned();
    pattern.append(package);
    pattern.append("$");
    pattern
}

fn pattern_for(kind: PackageManagerKind, package: &str) -> (pattern: String)
    ensures
        pattern@ == search_pattern(kind, package@),
{
    match kind {
        PackageManagerKind::Apt | PackageManagerKind::Pacman => anchored(package),
        _ => package.to_owned(),
    }
}

impl CommandLine {
    fn with_args(program: &str, args: Vec<String>) -> (command: CommandLine)
        ensures
            command@ == (CommandLineView { program: program@, args: texts(args@) }),
    {
        CommandLine { program: program.to_owned(), args }
    }
}

/// Builds the version check of a manager.
pub fn version_check_command(kind: PackageManagerKind) -> (command: CommandLine)
    ensures
        command@ == spec_version_check(kind),
{
    let mut args: Vec<String> = Vec::new();
    push_text(&mut args, "--version");
    assert(texts(args@) =~= seq!["--version"@]);
    CommandLine::with_args(probe_program_name(kind), args)
}

/// Builds the command that lists the installed packages.
pub fn listing_command(kind: PackageManagerKind) -> (command: CommandLine)
    ensures
        command@ == spec_listing(kind),
{
    let mut args: Vec<String> = Vec::new();
    match kind {
        PackageManagerKind::Apt => {
            push_text(&mut args, "-c");
            push_text(&mut args, "dpkg -l | awk '/^ii/ {print $2}'");
            assert(texts(args@) =~= seq!["-c"@, "dpkg -l | awk '/^ii/ {print $2}'"@]);
            CommandLine::with_args("sh", args)
        },
        PackageManagerKind::Pacman => {
            push_text(&mut args, "-c");
            push_text(&mut args, "pacman -Q | awk '{print $1}'");
            assert(texts(args@) =~= seq!["-c"@, "pacman -Q | awk '{print $1}'"@]);
            CommandLine::with_args("sh", args)
        },
        PackageManagerKind::Dnf | PackageManagerKind::Yum | PackageManagerKind::Zypper => {
            push_text(&mut args, "-qa");
            push_text(&mut args, "--qf");
            push_text(&mut args, "%{NAME}\\n");
            assert(texts(args@) =~= seq!["-qa"@, "--qf"@, "%{NAME}\\n"@]);
            CommandLine::with_args("rpm", args)
        },
    }
}

/// Builds the repository search for one package.
pub fn existence_check_command(kind: PackageManagerKind, package: &str) -> (command: CommandLine)
    ensures
        command@ == spec_existence_check(kind, package@),
{
    let pattern = pattern_for(kind, package);
    let mut args: Vec<String> = Vec::new();
    match kind {
        PackageManagerKind::Apt => {
            push_text(&mut args, "search");
            push_text(&mut args, pattern.as_str());
            assert(texts(args@) =~= seq!["search"@, pattern@]);
            CommandLine::with_args("apt-cache", args)
        },
        PackageManagerKind::Dnf => {
            push_text(&mut args, "search");
            push_text(&mut args, pattern.as_str());
            push_text(&mut args, "--cve");
            assert(texts(args@) =~= seq!["search"@, pattern@, "--cve"@]);
            CommandLine::with_args("dnf", args)
        },
        PackageManagerKind::Yum => {
            push_text(&mut args, "search");
            push_text(&mut args, pattern.as_str());
            assert(texts(args@) =~= seq!["search"@, pattern@]);
            CommandLine::with_args("yum", args)
        },
        PackageManagerKind::Pacman => {
            push_text(&mut args, "-Ss");
            push_text(&mut args, pattern.as_str());
            assert(texts(args@) =~= seq!["-Ss"@, pattern@]);
            CommandLine::with_args("pacman", args)
        },
        PackageManagerKind::Zypper => {
            push_text(&mut args, "search");
            push_text(&mut args, pattern.as_str());
            assert(texts(args@) =~= seq!["search"@, pattern@]);
            CommandLine::with_args("zypper", args)
        },
    }
}

/// Builds the removal of one package.
pub fn removal_command(kind: PackageManagerKind, package: &str) -> (command: CommandLine)
    ensures
        command@ == spec_removal(kind, package@),
{
    let mut args: Vec<String> = Vec::new();
    match kind {
        PackageManagerKind::Apt => {
            push_text(&mut args, "apt-get");
            push_text(&mut args, "remove");
            push_text(&mut args, "-y");
        },
        PackageManagerKind::Dnf => {
            push_text(&mut args, "dnf");
            push_text(&mut args, "remove");
            push_text(&mut args, "-y");
        },
        PackageManagerKind::Yum => {
            push_text(&mut args, "yum");
            push_text(&mut args, "remove");
            push_text(&mut args, "-y");
        },
        PackageManagerKind::Pacman => {
            push_text(&mut args, "pacman");
            push_text(&mut args, "-R");
            push_text(&mut args, "--noconfirm");
        },
        PackageManagerKind::Zypper => {
            push_text(&mut args, "zypper");
            push_text(&mut args, "remove");
            push_text(&mut args, "-y");
        },
    }
    assert(texts(args@) =~= removal_prefix(kind));
    push_text(&mut args, package);
    CommandLine::with_args("sudo", args)
}

/// A package name reaches the removal as one whole argument: the command has
/// the same program and the same number of arguments whatever the name holds,
/// and its last argument is the name.
pub proof fn lemma_removal_keeps_name_whole(kind: PackageManagerKind, package: Seq<char>)
    ensures
        spec_removal(kind, package).program == "sudo"@,
        spec_removal(kind, package).args.len() == 4,
        spec_removal(kind, package).args.last() == package,
        spec_removal(kind, package).args.drop_last() == removal_prefix(kind),
{
    assert(removal_prefix(kind).push(package).drop_last() =~= removal_prefix(kind));
}

/// A package name reaches the repository search inside one argument: the
/// command has the same program and the same number of arguments whatever the
/// name holds, and only the pattern depends on the name.
pub proof fn lemma_search_keeps_name_whole(kind: PackageManagerKind, a: Seq<char>, b: Seq<char>)
    ensures
        spec_existence_check(kind, a).program == spec_existence_check(kind, b).program,
        spec_existence_check(kind, a).args.len() == spec_existence_check(kind, b).args.len(),
        spec_existence_check(kind, a).args[1] == search_pattern(kind, a),
        forall|i: int|
            0 <= i < spec_existence_check(kind, a).args.len() && i != 1 ==> spec_existence_check(kind, a).args[i]
                == spec_existence_check(kind, b).args[i],
{
}

/// Different packages are searched for with different patterns, and so with
/// different commands.
pub proof fn lemma_search_pattern_injective(kind: PackageManagerKind, a: Seq<char>, b: Seq<char>)
    requires
        search_pattern(kind, a) == search_pattern(kind, b),
    ensures
        a == b,
{
    reveal_strlit("^");
    reveal_strlit("$");
    match kind {
        PackageManagerKind::Apt | PackageManagerKind::Pacman => {
            let x = "^"@ + a + "$"@;
            let y = "^"@ + b + "$"@;
            assert(x.len() == a.len() + 2);
            assert(y.len() == b.len() + 2);
            assert(a =~= x.subrange(1, 1 + a.len() as int));
            assert(b =~= y.subrange(1, 1 + b.len() as int));
        },
        _ => {},
    }
}

} // verus!
