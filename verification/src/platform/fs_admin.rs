//! Giving the Administrators group full control of a file or folder with
//! `takeown` and `icacls`. The caller runs the commands.

use vstd::prelude::*;
use vstd::string::StringExecFns;
use crate::errors::{CoreError, CoreResult};
use crate::text::{chars_of, string_of, trim, trim_bounds};
use crate::encoding::{from_utf8_lossy, utf8_lossy};

verus! {

broadcast use vstd::string::group_string_axioms;

/// A program to run with its arguments.
#[derive(Debug)]
pub struct CommandLine {
    pub program: String,
    pub args: Vec<String>,
}

pub open spec fn strs_view(v: Seq<String>) -> Seq<Seq<char>> {
    v.map_values(|s: String| s@)
}

/// The commands that give the Administrators group (SID `S-1-5-32-544`)
/// ownership and full control of `path`, recursively for a folder.
pub open spec fn spec_grant_all(path: Seq<char>, is_dir: bool) -> Seq<(Seq<char>, Seq<Seq<char>>)> {
    seq![
        ("takeown"@, if is_dir { seq!["/F"@, path, "/R"@, "/D"@, "Y"@] } else { seq!["/F"@, path] }),
        ("icacls"@, if is_dir {
            seq![path, "/grant"@, "*S-1-5-32-544:F"@, "/T"@, "/C"@]
        } else {
            seq![path, "/grant"@, "*S-1-5-32-544:F"@]
        }),
    ]
}

pub open spec fn commands_view(v: Seq<CommandLine>) -> Seq<(Seq<char>, Seq<Seq<char>>)> {
    v.map_values(|c: CommandLine| (c.program@, strs_view(c.args@)))
}

/// The commands to run, in order, stopping at the first failure (see
/// `spec_grant_all`).
pub fn grant_all(path: &str, is_dir: bool) -> (r: Vec<CommandLine>)
    ensures
        commands_view(r@) == spec_grant_all(path@, is_dir),
{
    let mut a: Vec<String> = Vec::new();
    a.push("/F".to_owned());
    a.push(path.to_owned());
    if is_dir {
        a.push("/R".to_owned());
        a.push("/D".to_owned());
        a.push("Y".to_owned());
    }
    let mut b: Vec<String> = Vec::new();
    b.push(path.to_owned());
    b.push("/grant".to_owned());
    b.push("*S-1-5-32-544:F".to_owned());
    if is_dir {
        b.push("/T".to_owned());
        b.push("/C".to_owned());
    }
    let ghost va = strs_view(a@);
    let ghost vb = strs_view(b@);
    let mut r: Vec<CommandLine> = Vec::new();
    r.push(CommandLine { program: "takeown".to_owned(), args: a });
    r.push(CommandLine { program: "icacls".to_owned(), args: b });
    proof {
        if is_dir {
            assert(va =~= seq!["/F"@, path@, "/R"@, "/D"@, "Y"@]);
            assert(vb =~= seq![path@, "/grant"@, "*S-1-5-32-544:F"@, "/T"@, "/C"@]);
        } else {
            assert(va =~= seq!["/F"@, path@]);
            assert(vb =~= seq![path@, "/grant"@, "*S-1-5-32-544:F"@]);
        }
    }
    assert(commands_view(r@) =~= spec_grant_all(path@, is_dir));
    r
}

/// The outcome of a finished command: its trimmed standard output when it
/// succeeded, else the `Permission` error `<program> failed: <trimmed
/// standard error>`; both read as UTF-8 with invalid sequences replaced.
pub open spec fn spec_command_outcome(program: Seq<char>, success: bool, stdout: Seq<u8>, stderr: Seq<u8>) -> Result<Seq<char>, Seq<char>> {
    if success {
        Ok(trim(utf8_lossy(stdout)))
    } else {
        Err(program + " failed: "@ + trim(utf8_lossy(stderr)))
    }
}

fn trimmed(s: &String) -> (r: String)
    ensures
        r@ == trim(s@),
{
    let v = chars_of(s.as_str());
    let n = v.len();
    let (a, b) = trim_bounds(&v, 0, n);
    assert(v@.subrange(0, n as int) =~= v@);
    string_of(&v, a, b)
}

/// Reads the result of a command run by the caller (see
/// `spec_command_outcome`; the error is a `Permission` error).
pub fn command_outcome(program: &str, success: bool, stdout: &[u8], stderr: &[u8]) -> (r: CoreResult<String>)
    ensures
        match spec_command_outcome(program@, success, stdout@, stderr@) {
            Ok(o) => r matches Ok(s) && s@ == o,
            Err(m) => r matches Err(CoreError::Permission(e)) && e@ == m,
        },
{
    if success {
        let out = from_utf8_lossy(stdout);
        Ok(trimmed(&out))
    } else {
        let err = from_utf8_lossy(stderr);
        let t = trimmed(&err);
        let mut m = program.to_owned();
        m.append(" failed: ");
        m.append(t.as_str());
        Err(CoreError::Permission(m))
    }
}

} // verus!
