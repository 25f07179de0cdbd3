//! Alias records: the one-line text form of an alias, and alias files as
//! sequences of such lines.

use crate::error::Error;
use crate::text::{chars_of, contains, matches_at, occurs_at, occurs_in};
use vstd::prelude::*;
use vstd::string::*;

verus! {

/// A named shorthand for a shell command.
#[derive(Debug)]
pub struct Alias {
    pub name: String,
    pub command: String,
}

impl View for Alias {
    type V = (Seq<char>, Seq<char>);

    open spec fn view(&self) -> (Seq<char>, Seq<char>) {
        (self.name@, self.command@)
    }
}

/// The line that records `alias` as a shorthand for `command`.
pub open spec fn record_line(alias: Seq<char>, command: Seq<char>) -> Seq<char> {
    "alias "@ + alias + "=\""@ + command + "\""@
}

/// The text by which the lines of `alias` are found in an alias file.
pub open spec fn alias_marker(alias: Seq<char>) -> Seq<char> {
    "alias "@ + alias + "="@
}

/// `line` records `name` as a shorthand for `command`. A name that is empty or
/// holds `=` cannot be recorded: the name ends at the first `=`.
pub open spec fn is_record(line: Seq<char>, name: Seq<char>, command: Seq<char>) -> bool {
    &&& line == record_line(name, command)
    &&& name.len() > 0
    &&& !name.contains('=')
}

/// `line` is an alias record.
pub open spec fn is_record_line(line: Seq<char>) -> bool {
    exists|name: Seq<char>, command: Seq<char>| is_record(line, name, command)
}

/// The name and the command that `line` records, where it is a record.
pub open spec fn record_of(line: Seq<char>) -> (Seq<char>, Seq<char>) {
    choose|p: (Seq<char>, Seq<char>)| is_record(line, p.0, p.1)
}

/// Where each character of a record line stands.
pub proof fn record_shape(name: Seq<char>, command: Seq<char>)
    ensures
        record_line(name, command).len() == name.len() + command.len() + 9,
        record_line(name, command).subrange(0, 6) == "alias "@,
        "alias "@.len() == 6,
        !"alias "@.contains('='),
        forall|i: int|
            0 <= i < name.len() ==> #[trigger] record_line(name, command)[6 + i] == name[i],
        record_line(name, command)[(6 + name.len()) as int] == '=',
        record_line(name, command)[(7 + name.len()) as int] == '"',
        forall|i: int|
            0 <= i < command.len() ==> #[trigger] record_line(name, command)[8 + name.len() + i]
                == command[i],
        record_line(name, command)[(8 + name.len() + command.len()) as int] == '"',
{
    reveal_strlit("alias ");
    reveal_strlit("=\"");
    reveal_strlit("\"");
    let line = record_line(name, command);
    assert(line.subrange(0, 6) =~= "alias "@);
    assert forall|i: int| 0 <= i < 6 implies "alias "@[i] != '=' by {}
}

/// A line records at most one name and command.
pub proof fn record_unique(
    line: Seq<char>,
    n1: Seq<char>,
    c1: Seq<char>,
    n2: Seq<char>,
    c2: Seq<char>,
)
    requires
        is_record(line, n1, c1),
        is_record(line, n2, c2),
    ensures
        n1 == n2,
        c1 == c2,
{
    record_shape(n1, c1);
    record_shape(n2, c2);
    if n1.len() < n2.len() {
        assert(line[(6 + n1.len()) as int] == n2[n1.len() as int]);
        assert(n2.contains('='));
    }
    if n2.len() < n1.len() {
        assert(line[(6 + n2.len()) as int] == n1[n2.len() as int]);
        assert(n1.contains('='));
    }
    assert(n1 =~= n2) by {
        assert forall|i: int| 0 <= i < n1.len() implies n1[i] == n2[i] by {
            assert(line[6 + i] == n1[i]);
            assert(line[6 + i] == n2[i]);
        }
    }
    assert(c1 =~= c2) by {
        assert forall|i: int| 0 <= i < c1.len() implies c1[i] == c2[i] by {
            assert(line[8 + n1.len() + i] == c1[i]);
            assert(line[8 + n2.len() + i] == c2[i]);
        }
    }
}

/// What is written is read back: the line made of a name and a command
/// records exactly these two.
pub proof fn record_round_trip(name: Seq<char>, command: Seq<char>)
    requires
        name.len() > 0,
        !name.contains('='),
    ensures
        is_record_line(record_line(name, command)),
        record_of(record_line(name, command)) == (name, command),
{
    let line = record_line(name, command);
    assert(is_record(line, name, command));
    let p = record_of(line);
    assert(is_record(line, (name, command).0, (name, command).1));
    assert(is_record(line, p.0, p.1));
    record_unique(line, name, command, p.0, p.1);
}

/// The line that records `alias` as a shorthand for `command`.
pub fn record_text(alias: &str, command: &str) -> (r: String)
    ensures
        r@ == record_line(alias@, command@),
{
    let mut r = String::from_str("alias ");
    r.append(alias);
    r.append("=\"");
    r.append(command);
    r.append("\"");
    r
}

/// The text by which the lines of `alias` are found in an alias file.
pub fn marker_text(alias: &str) -> (r: String)
    ensures
        r@ == alias_marker(alias@),
{
    let mut r = String::from_str("alias ");
    r.append(alias);
    r.append("=");
    r
}

/// What a line that records a name of `name_len` characters shows to one who
/// reads it from the left: the opening word, the name up to the first `=`,
/// and the command between two quotes.
pub open spec fn shows_record(line: Seq<char>, name_len: int) -> bool {
    &&& name_len > 0
    &&& line.len() >= name_len + 9
    &&& line.subrange(0, 6) == "alias "@
    &&& forall|i: int| 6 <= i < 6 + name_len ==> line[i] != '='
    &&& line[6 + name_len] == '='
    &&& line[7 + name_len] == '"'
    &&& line[line.len() - 1] == '"'
}

/// Reads one line of an alias file: the alias it records, or `None` where
/// the line is no record.
pub fn parse_record(line: &str) -> (r: Option<Alias>)
    ensures
        r is Some <==> is_record_line(line@),
        r matches Some(a) ==> a@ == record_of(line@) && is_record(line@, a.name@, a.command@),
{
    let cs = chars_of(line);
    let prefix = chars_of("alias ");
    let n: usize = cs.len();
    proof {
        reveal_strlit("alias ");
        assert forall|name: Seq<char>, command: Seq<char>|
            is_record(line@, name, command) implies shows_record(cs@, name.len() as int) by {
            record_shape(name, command);
            assert forall|i: int| 6 <= i < 6 + name.len() implies cs@[i] != '=' by {
                assert(cs@[6 + (i - 6)] == name[i - 6]);
            }
        }
    }
    if n < 10 || !matches_at(&cs, &prefix, 0) {
        return None;
    }
    let mut k: usize = 6;
    while k < n && cs[k] != '='
        invariant
            6 <= k <= n,
            n == cs@.len(),
            forall|i: int| 6 <= i < k ==> cs@[i] != '=',
        decreases n - k,
    {
        k += 1;
    }
    if k == 6 || n - k <= 2 {
        return None;
    }
    if cs[k + 1] != '"' || cs[n - 1] != '"' {
        return None;
    }
    let name = String::from_str(line.substring_char(6, k));
    let command = String::from_str(line.substring_char(k + 2, n - 1));
    proof {
        reveal_strlit("=\"");
        reveal_strlit("\"");
        assert(cs@.subrange(0, 6) == prefix@);
        assert(line@ =~= record_line(name@, command@)) by {
            assert forall|i: int| 0 <= i < 6 implies line@[i] == "alias "@[i] by {
                assert(cs@.subrange(0, 6)[i] == cs@[i]);
            }
        }
        assert(!name@.contains('='));
        assert(is_record(line@, name@, command@));
        let p = record_of(line@);
        assert(is_record(line@, (name@, command@).0, (name@, command@).1));
        record_unique(line@, name@, command@, p.0, p.1);
    }
    Some(Alias { name, command })
}

/// The text of each line of an alias file.
pub open spec fn lines_of(lines: Seq<String>) -> Seq<Seq<char>> {
    lines.map_values(|s: String| s@)
}

/// Every line of an alias file is a record.
pub open spec fn readable(lines: Seq<Seq<char>>) -> bool {
    forall|i: int| 0 <= i < lines.len() ==> is_record_line(#[trigger] lines[i])
}

/// The aliases that a readable alias file records, line by line.
pub open spec fn records_of(lines: Seq<Seq<char>>) -> Seq<(Seq<char>, Seq<char>)> {
    lines.map_values(|l: Seq<char>| record_of(l))
}

/// Reads a whole alias file, line by line. One line that is no record makes
/// the file corrupt.
pub fn read_all(lines: &Vec<String>) -> (r: Result<Vec<Alias>, Error>)
    ensures
        r is Ok <==> readable(lines_of(lines@)),
        r matches Ok(v) ==> v@.map_values(|a: Alias| a@) == records_of(lines_of(lines@)),
        r matches Err(e) ==> e == Error::CorruptFile,
{
    let mut out: Vec<Alias> = Vec::new();
    let mut i: usize = 0;
    while i < lines.len()
        invariant
            i <= lines@.len(),
            out@.len() == i,
            forall|j: int| 0 <= j < i ==> is_record_line(#[trigger] lines@[j]@),
            forall|j: int| 0 <= j < i ==> (#[trigger] out@[j])@ == record_of(lines@[j]@),
        decreases lines@.len() - i,
    {
        match parse_record(lines[i].as_str()) {
            Some(a) => out.push(a),
            None => {
                assert(lines_of(lines@)[i as int] == lines@[i as int]@);
                return Err(Error::CorruptFile);
            },
        }
        i += 1;
    }
    proof {
        assert forall|j: int| 0 <= j < lines@.len() implies is_record_line(
            #[trigger] lines_of(lines@)[j],
        ) by {
            assert(is_record_line(lines@[j]@));
        }
        assert(out@.map_values(|a: Alias| a@) =~= records_of(lines_of(lines@)));
    }
    Ok(out)
}

/// The lines that stay when `alias` is removed: those in which its marker
/// does not stand, in their order.
pub open spec fn lines_without(lines: Seq<Seq<char>>, alias: Seq<char>) -> Seq<Seq<char>> {
    lines.filter(|l: Seq<char>| !occurs_in(l, alias_marker(alias)))
}

/// An alias file holds a line of `alias`.
pub open spec fn has_alias(lines: Seq<Seq<char>>, alias: Seq<char>) -> bool {
    exists|i: int| 0 <= i < lines.len() && occurs_in(#[trigger] lines[i], alias_marker(alias))
}

/// Removes every line of `alias` from an alias file and tells whether there
/// was one. Where there was none the file is left as it is.
pub fn delete_alias_from_file(lines: &mut Vec<String>, alias: &str) -> (removed: bool)
    ensures
        lines_of(final(lines)@) == lines_without(lines_of(old(lines)@), alias@),
        removed == has_alias(lines_of(old(lines)@), alias@),
        removed == (final(lines)@.len() < old(lines)@.len()),
        !removed ==> lines_of(final(lines)@) == lines_of(old(lines)@),
{
    let search_text = marker_text(alias);
    let ghost keep = |l: Seq<char>| !occurs_in(l, alias_marker(alias@));
    let ghost all = lines_of(lines@);
    let mut kept: Vec<String> = Vec::new();
    let mut i: usize = 0;
    while i < lines.len()
        invariant
            i <= lines@.len(),
            all == lines_of(lines@),
            search_text@ == alias_marker(alias@),
            keep == |l: Seq<char>| !occurs_in(l, alias_marker(alias@)),
            lines_of(kept@) == all.take(i as int).filter(keep),
            kept@.len() <= i,
            kept@.len() == i <==> forall|j: int| 0 <= j < i ==> keep(#[trigger] all[j]),
            kept@.len() == i ==> lines_of(kept@) == all.take(i as int),
        decreases lines@.len() - i,
    {
        let ghost before = lines_of(kept@);
        proof {
            all.take(i as int).lemma_filter_push(all[i as int], keep);
            assert(all.take(i as int).push(all[i as int]) =~= all.take(i + 1));
        }
        if !contains(lines[i].as_str(), search_text.as_str()) {
            kept.push(lines[i].clone());
            assert(lines_of(kept@) =~= before.push(all[i as int]));
        }
        i += 1;
    }
    proof {
        assert(all.take(i as int) =~= all);
        assert forall|j: int| 0 <= j < all.len() implies keep(#[trigger] all[j]) == !occurs_in(
            all[j],
            alias_marker(alias@),
        ) by {}
    }
    if kept.len() == lines.len() {
        return false;
    }
    *lines = kept;
    true
}

/// An alias that is added to a readable alias file is read back from it.
pub proof fn added_alias_is_read(lines: Seq<Seq<char>>, alias: Seq<char>, command: Seq<char>)
    requires
        readable(lines),
        alias.len() > 0,
        !alias.contains('='),
    ensures
        readable(lines.push(record_line(alias, command))),
        records_of(lines.push(record_line(alias, command))).contains((alias, command)),
{
    let line = record_line(alias, command);
    let after = lines.push(line);
    record_round_trip(alias, command);
    assert forall|i: int| 0 <= i < after.len() implies is_record_line(#[trigger] after[i]) by {
        if i < lines.len() {
            assert(after[i] == lines[i]);
        }
    }
    assert(records_of(after)[lines.len() as int] == (alias, command));
}

/// The line of an alias holds its marker, whatever the command.
pub proof fn record_has_marker(alias: Seq<char>, command: Seq<char>)
    ensures
        occurs_in(record_line(alias, command), alias_marker(alias)),
{
    reveal_strlit("alias ");
    reveal_strlit("=\"");
    reveal_strlit("\"");
    reveal_strlit("=");
    let line = record_line(alias, command);
    let marker = alias_marker(alias);
    assert(line.subrange(0, 0 + marker.len() as int) =~= marker);
    assert(occurs_at(line, marker, 0));
}

/// Once an alias was added, its removal finds it; and after the removal no
/// line of the file records it, so that it is not read back.
pub proof fn removed_alias_is_gone(lines: Seq<Seq<char>>, alias: Seq<char>, command: Seq<char>)
    ensures
        has_alias(lines.push(record_line(alias, command)), alias),
        forall|j: int, c: Seq<char>|
            0 <= j < lines_without(lines.push(record_line(alias, command)), alias).len()
                ==> !#[trigger] is_record(
                lines_without(lines.push(record_line(alias, command)), alias)[j],
                alias,
                c,
            ),
        readable(lines_without(lines.push(record_line(alias, command)), alias)) ==> forall|
            j: int,
        |
            0 <= j < lines_without(lines.push(record_line(alias, command)), alias).len()
                ==> (#[trigger] records_of(
                lines_without(lines.push(record_line(alias, command)), alias),
            )[j]).0 != alias,
{
    let before = lines.push(record_line(alias, command));
    let after = lines_without(before, alias);
    let keep = |l: Seq<char>| !occurs_in(l, alias_marker(alias));
    record_has_marker(alias, command);
    assert(occurs_in(before[lines.len() as int], alias_marker(alias)));
    assert forall|j: int, c: Seq<char>| 0 <= j < after.len() implies !#[trigger] is_record(
        after[j],
        alias,
        c,
    ) by {
        before.lemma_filter_pred(keep, j);
        record_has_marker(alias, c);
    }
    if readable(after) {
        assert forall|j: int| 0 <= j < after.len() implies (#[trigger] records_of(after)[j]).0
            != alias by {
            let p = record_of(after[j]);
            assert(is_record_line(after[j]));
            let (n, c) = choose|n: Seq<char>, c: Seq<char>| is_record(after[j], n, c);
            assert(is_record(after[j], (n, c).0, (n, c).1));
            assert(is_record(after[j], p.0, p.1));
        }
    }
}

} // verus!
