//! The external-tool strategy: how a request is put to the external
//! archiver as command-line arguments, and how its answer is read.
//!
//! The archiver is run by the host. Its correctness as seen from here rests
//! on the arguments alone.

use vstd::prelude::*;
use vstd::string::StringExecFns;
use crate::errors::{failure, prefixed, ErrorKind, Failure};
use crate::text::{lemma_lines_push, lines_of};

verus! {

/// The name under which the external archiver is started.
pub fn tool_program() -> (r: String)
    ensures
        r@ == "7z"@,
{
    String::from_str("7z")
}

/// The harmless flag with which the archiver is started to see whether it
/// is there at all.
pub fn probe_arguments() -> (r: Vec<String>)
    ensures
        lines_of(r@) == seq!["--help"@],
{
    let mut out: Vec<String> = Vec::new();
    out.push(String::from_str("--help"));
    assert(lines_of(out@) =~= seq!["--help"@]);
    out
}

/// The arguments that list the archive at `path`.
pub open spec fn list_arguments(path: Seq<char>) -> Seq<Seq<char>> {
    seq!["l"@, path]
}

/// Whether an optional text is there and not empty.
pub open spec fn given(text: Option<Seq<char>>) -> bool {
    text matches Some(t) && t.len() > 0
}

/// The arguments that extract the archive at `path` into `dest`: the
/// extract verb, the archive, the destination flag, unconditional overwrite,
/// and a password flag only for a password that is not empty.
pub open spec fn extract_arguments(
    path: Seq<char>,
    dest: Seq<char>,
    password: Option<Seq<char>>,
) -> Seq<Seq<char>> {
    let base = seq!["x"@, path, "-o"@ + dest, "-y"@];
    if given(password) {
        base.push("-p"@ + password->Some_0)
    } else {
        base
    }
}

/// The arguments that come before the sources when an archive is created:
/// the add verb, the output, an archive-type flag only for a format that is
/// not empty, and a password flag with the header-encryption flag only for
/// a password that is not empty.
pub open spec fn create_options(
    output: Seq<char>,
    format: Option<Seq<char>>,
    password: Option<Seq<char>>,
) -> Seq<Seq<char>> {
    let base = seq!["a"@, output];
    let typed = if given(format) {
        base.push("-t"@ + format->Some_0)
    } else {
        base
    };
    if given(password) {
        typed.push("-p"@ + password->Some_0).push("-mhe=on"@)
    } else {
        typed
    }
}

/// The arguments that create the archive `output` from `sources`: the
/// options, then every source in its order.
pub open spec fn create_arguments(
    sources: Seq<Seq<char>>,
    output: Seq<char>,
    format: Option<Seq<char>>,
    password: Option<Seq<char>>,
) -> Seq<Seq<char>> {
    create_options(output, format, password) + sources
}

/// An optional text as a mathematical value.
pub open spec fn optional_text(text: Option<&str>) -> Option<Seq<char>> {
    match text {
        Some(t) => Some(t@),
        None => None,
    }
}

/// An optional owned text as a mathematical value.
pub open spec fn optional_string(text: Option<String>) -> Option<Seq<char>> {
    match text {
        Some(t) => Some(t@),
        None => None,
    }
}

/// An optional owned text, borrowed.
pub fn borrowed(text: &Option<String>) -> (r: Option<&str>)
    ensures
        optional_text(r) == optional_string(*text),
{
    match text {
        Some(t) => Some(t.as_str()),
        None => None,
    }
}

/// Builds [`list_arguments`].
pub fn list_command(path: &str) -> (r: Vec<String>)
    ensures
        lines_of(r@) == list_arguments(path@),
{
    let mut out: Vec<String> = Vec::new();
    out.push(String::from_str("l"));
    out.push(String::from_str(path));
    assert(lines_of(out@) =~= list_arguments(path@));
    out
}

/// Builds [`extract_arguments`].
pub fn extract_command(path: &str, dest: &str, password: Option<&str>) -> (r: Vec<String>)
    ensures
        lines_of(r@) == extract_arguments(path@, dest@, optional_text(password)),
{
    let mut out: Vec<String> = Vec::new();
    out.push(String::from_str("x"));
    out.push(String::from_str(path));
    out.push(prefixed("-o", dest));
    out.push(String::from_str("-y"));
    assert(lines_of(out@) =~= seq!["x"@, path@, "-o"@ + dest@, "-y"@]);
    if let Some(p) = password {
        if !p.is_empty() {
            let ghost before = out@;
            let flag = prefixed("-p", p);
            proof {
                lemma_lines_push(before, flag);
            }
            out.push(flag);
        }
    }
    out
}

/// Builds [`create_arguments`].
pub fn create_command(
    sources: &Vec<String>,
    output: &str,
    format: Option<&str>,
    password: Option<&str>,
) -> (r: Vec<String>)
    ensures
        lines_of(r@) == create_arguments(
            lines_of(sources@),
            output@,
            optional_text(format),
            optional_text(password),
        ),
{
    let mut out: Vec<String> = Vec::new();
    out.push(String::from_str("a"));
    out.push(String::from_str(output));
    assert(lines_of(out@) =~= seq!["a"@, output@]);
    if let Some(f) = format {
        if !f.is_empty() {
            let flag = prefixed("-t", f);
            proof {
                lemma_lines_push(out@, flag);
            }
            out.push(flag);
        }
    }
    if let Some(p) = password {
        if !p.is_empty() {
            let flag = prefixed("-p", p);
            proof {
                lemma_lines_push(out@, flag);
            }
            out.push(flag);
            let header = String::from_str("-mhe=on");
            proof {
                lemma_lines_push(out@, header);
            }
            out.push(header);
        }
    }
    let ghost options = lines_of(out@);
    let mut i: usize = 0;
    assert(lines_of(sources@).take(0) =~= Seq::<Seq<char>>::empty());
    assert(options + Seq::<Seq<char>>::empty() =~= options);
    while i < sources.len()
        invariant
            i <= sources.len(),
            lines_of(out@) == options + lines_of(sources@).take(i as int),
        decreases sources.len() - i,
    {
        let source = sources[i].clone();
        proof {
            lemma_lines_push(out@, source);
            assert((options + lines_of(sources@).take(i as int)).push(source@) =~= options
                + lines_of(sources@).take(i + 1));
        }
        out.push(source);
        i += 1;
    }
    assert(lines_of(sources@).take(sources.len() as int) =~= lines_of(sources@));
    out
}

/// How the archiver's answer is read: its standard output is the result
/// when it exited with success, its standard error is the failure
/// otherwise.
pub open spec fn captured(success: bool, stdout: Seq<char>, stderr: Seq<char>) -> Result<
    Seq<char>,
    (ErrorKind, Seq<char>),
> {
    if success {
        Ok(stdout)
    } else {
        Err((ErrorKind::ToolInvocation, stderr))
    }
}

/// Reads the archiver's answer (see [`captured`]).
pub fn capture(success: bool, stdout: String, stderr: String) -> (r: Result<String, Failure>)
    ensures
        crate::errors::text_outcome(r) == captured(success, stdout@, stderr@),
{
    if success {
        Ok(stdout)
    } else {
        Err(failure(ErrorKind::ToolInvocation, stderr))
    }
}

} // verus!
