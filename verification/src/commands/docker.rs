//! Running a challenge in a container: what the image is built with, and
//! the commands that bring the container up and down.

use vstd::prelude::*;
use crate::ctf::COMPOSE_FILE;
use crate::distro::{
    Packages, DEFAULT_ARCH, DEFAULT_DISTRO, DEFAULT_DISTRO_VERSION, DEFAULT_LIBC_VERSION,
};
use crate::text::{join2, strings_view};

verus! {

/// Manages the container of the challenge in whose directory the command is
/// called.
#[derive(Clone, Debug, PartialEq, Eq)]
pub struct Docker {
    pub subcmd: SubCommand,
}

/// What to do about the container.
#[derive(Clone, Debug, PartialEq, Eq)]
pub enum SubCommand {
    /// Writes the files that the image and the container are made from.
    Init(Init),
    /// Runs a command in the container.
    Exec(Exec),
    /// Removes the container.
    Rm(Rm),
    /// Removes the container and its image.
    Rmi(Rmi),
}

/// Writes the files that the image and the container are made from.
#[derive(Clone, Debug, PartialEq, Eq)]
pub struct Init {}

/// Runs `command` with the arguments `argv` in the container.
#[derive(Clone, Debug, PartialEq, Eq)]
pub struct Exec {
    pub command: String,
    pub argv: Vec<String>,
}

/// Removes the container.
#[derive(Clone, Debug, PartialEq, Eq)]
pub struct Rm {}

/// Removes the container and its image.
#[derive(Clone, Debug, PartialEq, Eq)]
pub struct Rmi {}

/// The text, or `otherwise` where there is none.
pub open spec fn or_else(text: Option<Seq<char>>, otherwise: Seq<char>) -> Seq<char> {
    match text {
        Some(t) => t,
        None => otherwise,
    }
}

/// The arguments that the image is built with, as pairs of name and value:
/// the architecture, the distribution with its version, and the version of
/// the C library; each as the binaries ask for it, or else `amd64`,
/// `ubuntu:latest` and `*`.
pub fn build_args(packages: &Packages) -> (r: Vec<(String, String)>)
    ensures
        r@.len() == 3,
        r@[0].0@ == "arch"@ && r@[0].1@ == or_else(packages@.arch, DEFAULT_ARCH@),
        r@[1].0@ == "distro"@ && r@[1].1@ == or_else(packages@.distro, DEFAULT_DISTRO@) + ":"@
            + or_else(packages@.distro_version, DEFAULT_DISTRO_VERSION@),
        r@[2].0@ == "libc_version"@ && r@[2].1@ == or_else(
            packages@.libc_version,
            DEFAULT_LIBC_VERSION@,
        ),
{
    let arch = match packages.arch {
        Some(a) => a,
        None => DEFAULT_ARCH,
    };
    let distro = match packages.distro {
        Some(d) => d,
        None => DEFAULT_DISTRO,
    };
    let version = match packages.distro_version {
        Some(v) => v,
        None => DEFAULT_DISTRO_VERSION,
    };
    let libc = match &packages.libc_version {
        Some(l) => l.as_str(),
        None => DEFAULT_LIBC_VERSION,
    };
    let mut image = join2(distro, ":");
    image.append(version);
    let mut args: Vec<(String, String)> = Vec::new();
    args.push(("arch".to_owned(), arch.to_owned()));
    args.push(("distro".to_owned(), image));
    args.push(("libc_version".to_owned(), libc.to_owned()));
    args
}

/// What is printed of the packages that a binary asks for: the
/// architecture, the distribution with its version, and the version of the
/// C library, each on a line, with `?` for what is not known.
pub fn describe(packages: &Packages) -> (r: Vec<String>)
    ensures
        strings_view(r@) == seq![
            "  Arch: "@ + or_else(packages@.arch, "?"@),
            "  Distro: "@ + or_else(packages@.distro, "?"@) + " "@ + or_else(
                packages@.distro_version,
                "?"@,
            ),
            "  Libc: "@ + or_else(packages@.libc_version, "?"@),
        ],
{
    let arch = match packages.arch {
        Some(a) => a,
        None => "?",
    };
    let distro = match packages.distro {
        Some(d) => d,
        None => "?",
    };
    let version = match packages.distro_version {
        Some(v) => v,
        None => "?",
    };
    let libc = match &packages.libc_version {
        Some(l) => l.as_str(),
        None => "?",
    };
    let mut second = join2("  Distro: ", distro);
    second.append(" ");
    second.append(version);
    let mut lines: Vec<String> = Vec::new();
    lines.push(join2("  Arch: ", arch));
    lines.push(second);
    lines.push(join2("  Libc: ", libc));
    assert(strings_view(lines@) =~= seq![
        "  Arch: "@ + or_else(packages@.arch, "?"@),
        "  Distro: "@ + or_else(packages@.distro, "?"@) + " "@ + or_else(
            packages@.distro_version,
            "?"@,
        ),
        "  Libc: "@ + or_else(packages@.libc_version, "?"@),
    ]);
    lines
}

/// The message that the files are committed under.
pub fn init_message(challenge_name: &str) -> (r: String)
    ensures
        r@ == "Add Dockerfile and "@ + COMPOSE_FILE@ + " for "@ + challenge_name@,
{
    let mut r = join2("Add Dockerfile and ", COMPOSE_FILE);
    r.append(" for ");
    r.append(challenge_name);
    r
}

/// The start of every command: `docker compose` with the file.
pub open spec fn compose() -> Seq<Seq<char>> {
    seq!["docker"@, "compose"@, "--file="@ + COMPOSE_FILE@]
}

fn compose_command() -> (r: Vec<String>)
    ensures
        strings_view(r@) == compose(),
{
    let mut r: Vec<String> = Vec::new();
    r.push("docker".to_owned());
    r.push("compose".to_owned());
    r.push(join2("--file=", COMPOSE_FILE));
    assert(strings_view(r@) =~= compose());
    r
}

/// The command that builds the image and starts the container.
pub fn up_command() -> (r: Vec<String>)
    ensures
        strings_view(r@) == compose() + seq!["up"@, "--build"@, "--detach"@],
{
    let mut r = compose_command();
    r.push("up".to_owned());
    r.push("--build".to_owned());
    r.push("--detach".to_owned());
    assert(strings_view(r@) =~= compose() + seq!["up"@, "--build"@, "--detach"@]);
    r
}

/// The command that runs `exec.command` with its arguments in the
/// container.
pub fn exec_command(exec: &Exec) -> (r: Vec<String>)
    ensures
        strings_view(r@) == compose() + seq!["exec"@, "main"@, exec.command@] + strings_view(
            exec.argv@,
        ),
{
    let mut r = compose_command();
    r.push("exec".to_owned());
    r.push("main".to_owned());
    r.push(exec.command.clone());
    let ghost start = strings_view(r@);
    assert(start =~= compose() + seq!["exec"@, "main"@, exec.command@]);
    let mut i: usize = 0;
    while i < exec.argv.len()
        invariant
            i <= exec.argv.len(),
            strings_view(r@) == start + strings_view(exec.argv@).take(i as int),
        decreases exec.argv.len() - i,
    {
        let ghost before = strings_view(r@);
        r.push(exec.argv[i].clone());
        assert(strings_view(r@) =~= before.push(exec.argv[i as int]@));
        assert(strings_view(r@) =~= start + strings_view(exec.argv@).take(i + 1));
        i += 1;
    }
    assert(strings_view(exec.argv@).take(exec.argv.len() as int) =~= strings_view(exec.argv@));
    r
}

/// The command that removes the container.
pub fn down_command() -> (r: Vec<String>)
    ensures
        strings_view(r@) == compose() + seq!["down"@],
{
    let mut r = compose_command();
    r.push("down".to_owned());
    assert(strings_view(r@) =~= compose() + seq!["down"@]);
    r
}

/// The command that removes the container and its image.
pub fn remove_image_command() -> (r: Vec<String>)
    ensures
        strings_view(r@) == compose() + seq!["down"@, "--rmi=local"@],
{
    let mut r = compose_command();
    r.push("down".to_owned());
    r.push("--rmi=local".to_owned());
    assert(strings_view(r@) =~= compose() + seq!["down"@, "--rmi=local"@]);
    r
}

} // verus!
