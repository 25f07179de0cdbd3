//! The command buffer: shell statements, each closed by `;`, in the order in
//! which the invoking shell is to evaluate them.

use crate::error::Error;
use crate::name::ENV_VAR;
use crate::text::{chars_of, matches_at};
use crate::record::{is_record_line, lines_of, parse_record, read_all, readable, record_of};
use vstd::prelude::*;
use vstd::string::*;

verus! {

/// A shell dialect: how a variable is given a value there.
#[derive(Clone, Copy, Debug, PartialEq, Eq, Structural)]
pub enum Shell {
    /// sh, bash, zsh and their kin.
    Posix,
    /// csh and tcsh.
    Csh,
    /// fish.
    Fish,
}

/// The statement that gives `var` the value `value` in `shell`.
pub open spec fn setenv_text(shell: Shell, var: Seq<char>, value: Seq<char>) -> Seq<char> {
    match shell {
        Shell::Posix => "export "@ + var + "=\""@ + value + "\""@,
        Shell::Csh => "setenv "@ + var + " \""@ + value + "\""@,
        Shell::Fish => "set -gx "@ + var + " \""@ + value + "\""@,
    }
}

/// `text` ends in `pat`.
pub open spec fn ends_with(text: Seq<char>, pat: Seq<char>) -> bool {
    pat.len() <= text.len() && text.subrange(text.len() - pat.len(), text.len() as int) == pat
}

/// The dialect of the shell whose program is found at `path`: the csh family
/// and fish are told by the end of the path, every other shell is taken for
/// a POSIX shell.
pub open spec fn shell_of(path: Seq<char>) -> Shell {
    if ends_with(path, "fish"@) {
        Shell::Fish
    } else if ends_with(path, "csh"@) {
        Shell::Csh
    } else {
        Shell::Posix
    }
}

/// Whether `text` ends in `pat`.
fn has_suffix(text: &Vec<char>, pat: &str) -> (r: bool)
    ensures
        r == ends_with(text@, pat@),
{
    let p = chars_of(pat);
    if p.len() > text.len() {
        return false;
    }
    matches_at(text, &p, text.len() - p.len())
}

/// The dialect of the shell whose program is found at `path`.
pub fn get_shell(path: &str) -> (r: Shell)
    ensures
        r == shell_of(path@),
{
    let cs = chars_of(path);
    if has_suffix(&cs, "fish") {
        Shell::Fish
    } else if has_suffix(&cs, "csh") {
        Shell::Csh
    } else {
        Shell::Posix
    }
}

impl Shell {
    /// The statement that gives `var` the value `value` in this dialect.
    pub fn setenv(&self, var: &str, value: &str) -> (r: String)
        ensures
            r@ == setenv_text(*self, var@, value@),
    {
        match self {
            Shell::Posix => {
                let mut r = String::from_str("export ");
                r.append(var);
                r.append("=\"");
                r.append(value);
                r.append("\"");
                r
            },
            Shell::Csh => {
                let mut r = String::from_str("setenv ");
                r.append(var);
                r.append(" \"");
                r.append(value);
                r.append("\"");
                r
            },
            Shell::Fish => {
                let mut r = String::from_str("set -gx ");
                r.append(var);
                r.append(" \"");
                r.append(value);
                r.append("\"");
                r
            },
        }
    }
}

/// Appends one statement to the buffer, closed by `;`.
pub fn add_output_line(output: &mut String, line: &str)
    ensures
        final(output)@ == old(output)@ + line@ + ";"@,
{
    output.append(line);
    output.append(";");
}

/// Appends the statement that sets the marker variable to `status`.
pub fn set_alias_var(output: &mut String, shell: Shell, status: &str)
    ensures
        final(output)@ == old(output)@ + setenv_text(shell, ENV_VAR@, status@) + ";"@,
{
    let cmd = shell.setenv(ENV_VAR, status);
    add_output_line(output, cmd.as_str());
}

/// The statement that reports `msg` as an error to the user of the shell.
pub fn error_statement(msg: &str) -> (r: String)
    ensures
        r@ == "echo 'Error: "@ + msg@ + "'"@,
{
    let mut r = String::from_str("echo 'Error: ");
    r.append(msg);
    r.append("'");
    r
}

/// `parts`, with `;` between each two of them.
pub open spec fn joined(parts: Seq<Seq<char>>) -> Seq<char>
    decreases parts.len(),
{
    if parts.len() == 0 {
        Seq::empty()
    } else if parts.len() == 1 {
        parts[0]
    } else {
        joined(parts.drop_last()) + ";"@ + parts.last()
    }
}

/// What a batch of statements adds to the buffer: the statements joined and
/// closed by `;`, or nothing where the joined text is empty.
pub open spec fn batch(parts: Seq<Seq<char>>) -> Seq<char> {
    if joined(parts).len() == 0 {
        Seq::empty()
    } else {
        joined(parts) + ";"@
    }
}

/// Joins `parts` with `;`.
pub fn join_statements(parts: &Vec<String>) -> (r: String)
    ensures
        r@ == joined(lines_of(parts@)),
{
    let ghost all = lines_of(parts@);
    let mut r = String::new();
    let mut i: usize = 0;
    while i < parts.len()
        invariant
            i <= parts@.len(),
            all == lines_of(parts@),
            r@ == joined(all.take(i as int)),
        decreases parts@.len() - i,
    {
        proof {
            assert(all.take(i + 1).drop_last() =~= all.take(i as int));
            assert(all.take(i + 1).last() == parts@[i as int]@);
            assert(all.take(i + 1).len() == i + 1);
        }
        if i > 0 {
            r.append(";");
        } else {
            assert(r@ + parts@[i as int]@ =~= parts@[i as int]@);
        }
        r.append(parts[i].as_str());
        i += 1;
    }
    assert(all.take(i as int) =~= all);
    r
}

/// Appends a batch of statements to the buffer.
pub fn add_batch(output: &mut String, parts: &Vec<String>)
    ensures
        final(output)@ == old(output)@ + batch(lines_of(parts@)),
{
    let text = join_statements(parts);
    if !text.as_str().is_empty() {
        add_output_line(output, text.as_str());
        assert(final(output)@ =~= old(output)@ + batch(lines_of(parts@)));
    } else {
        assert(output@ =~= old(output)@ + batch(lines_of(parts@)));
    }
}

/// Appends the statements that define every alias of an alias file: its
/// lines, each of which is such a statement. A line that is no record makes
/// the file corrupt, and the buffer stays as it was: nothing but alias
/// records is ever handed to the shell.
pub fn alias_all(output: &mut String, lines: &Vec<String>) -> (r: Result<(), Error>)
    ensures
        r is Ok <==> readable(lines_of(lines@)),
        r is Ok ==> final(output)@ == old(output)@ + batch(lines_of(lines@)),
        r matches Err(e) ==> e == Error::CorruptFile && final(output)@ == old(output)@,
{
    match read_all(lines) {
        Ok(_) => {
            add_batch(output, lines);
            Ok(())
        },
        Err(e) => Err(e),
    }
}

/// The statement that undoes the alias that `line` records.
pub open spec fn unalias_line(line: Seq<char>) -> Seq<char> {
    "unalias "@ + record_of(line).0
}

/// Appends the statements that undo every alias of an alias file. A line that
/// is no record makes the file corrupt, and the buffer stays as it was.
pub fn unalias_all(output: &mut String, lines: &Vec<String>) -> (r: Result<(), Error>)
    ensures
        r is Ok <==> readable(lines_of(lines@)),
        r is Ok ==> final(output)@ == old(output)@ + batch(
            lines_of(lines@).map_values(|l: Seq<char>| unalias_line(l)),
        ),
        r matches Err(e) ==> e == Error::CorruptFile && final(output)@ == old(output)@,
{
    let ghost want = lines_of(lines@).map_values(|l: Seq<char>| unalias_line(l));
    let mut parts: Vec<String> = Vec::new();
    let mut i: usize = 0;
    while i < lines.len()
        invariant
            i <= lines@.len(),
            output@ == old(output)@,
            want == lines_of(lines@).map_values(|l: Seq<char>| unalias_line(l)),
            forall|j: int| 0 <= j < i ==> is_record_line(#[trigger] lines@[j]@),
            lines_of(parts@) == want.take(i as int),
        decreases lines@.len() - i,
    {
        match parse_record(lines[i].as_str()) {
            Some(a) => {
                let mut s = String::from_str("unalias ");
                s.append(a.name.as_str());
                let ghost before = lines_of(parts@);
                parts.push(s);
                assert(lines_of(parts@) =~= before.push(want[i as int]));
                assert(want.take(i as int).push(want[i as int]) =~= want.take(i + 1));
            },
            None => {
                assert(lines_of(lines@)[i as int] == lines@[i as int]@);
                return Err(Error::CorruptFile);
            },
        }
        i += 1;
    }
    proof {
        assert(want.take(i as int) =~= want);
        assert forall|j: int| 0 <= j < lines@.len() implies is_record_line(
            #[trigger] lines_of(lines@)[j],
        ) by {
            assert(is_record_line(lines@[j]@));
        }
    }
    add_batch(output, &parts);
    Ok(())
}

} // verus!
