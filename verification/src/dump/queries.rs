//! The query file of the dump: one class name per line, with white space
//! around a name ignored and blank lines skipped.
use crate::dump::names::string_seq_views;
use vstd::prelude::*;

verus! {

/// The Unicode White_Space property, which `char::is_whitespace` tests.
pub open spec fn is_white_space(c: char) -> bool {
    let v = c as u32;
    ||| 0x09 <= v <= 0x0d
    ||| v == 0x20 || v == 0x85 || v == 0xa0 || v == 0x1680
    ||| 0x2000 <= v <= 0x200a
    ||| v == 0x2028 || v == 0x2029 || v == 0x202f || v == 0x205f || v == 0x3000
}

/// `s` without its leading and trailing white space.
pub open spec fn trimmed(s: Seq<char>) -> Seq<char>
    decreases s.len(),
{
    if s.len() > 0 && is_white_space(s[0]) {
        trimmed(s.drop_first())
    } else if s.len() > 0 && is_white_space(s.last()) {
        trimmed(s.drop_last())
    } else {
        s
    }
}

/// A line as `str::lines` gives it: its `\n` dropped, and then a `\r` right
/// before it.
pub open spec fn line_without_ending(line: Seq<char>) -> Seq<char> {
    if line.len() > 0 && line.last() == '\r' {
        line.drop_last()
    } else {
        line
    }
}

/// The lines of `rest`, the line so far being `cur`, as `str::lines` gives
/// them: split after each `\n`, with the ending dropped; a last line without
/// `\n` is kept as it is, and nothing follows a final `\n`.
pub open spec fn lines_after(rest: Seq<char>, cur: Seq<char>) -> Seq<Seq<char>>
    decreases rest.len(),
{
    if rest.len() == 0 {
        if cur.len() == 0 {
            seq![]
        } else {
            seq![cur]
        }
    } else if rest[0] == '\n' {
        seq![line_without_ending(cur)] + lines_after(rest.drop_first(), seq![])
    } else {
        lines_after(rest.drop_first(), cur.push(rest[0]))
    }
}

/// The lines of `s`, as `str::lines` gives them.
pub open spec fn text_lines(s: Seq<char>) -> Seq<Seq<char>> {
    lines_after(s, seq![])
}

/// `std`'s `str::lines`, collected: the lines of `s`, split at each `\n`,
/// with the `\n` and a `\r` right before it dropped, and no empty line after
/// a final `\n`.
#[verifier::external_body]
fn lines_of(s: &str) -> (r: Vec<&str>)
    ensures
        r@.map_values(|l: &str| l@) == text_lines(s@),
{
    s.lines().collect()
}

/// `std`'s `str::trim`: `s` without its leading and trailing White_Space
/// characters.
#[verifier::external_body]
fn trim(s: &str) -> (r: &str)
    ensures
        r@ == trimmed(s@),
{
    s.trim()
}

/// The names of `lines`, trimmed, blank ones left out.
pub open spec fn names_of_lines(lines: Seq<Seq<char>>) -> Seq<Seq<char>>
    decreases lines.len(),
{
    if lines.len() == 0 {
        seq![]
    } else {
        let earlier = names_of_lines(lines.drop_last());
        let t = trimmed(lines.last());
        if t.len() == 0 {
            earlier
        } else {
            earlier.push(t)
        }
    }
}

/// The class names a query file asks for: each of its lines with white
/// space trimmed, blank lines left out, in file order.
pub fn query_names(content: &str) -> (r: Vec<String>)
    ensures
        string_seq_views(r@) == names_of_lines(text_lines(content@)),
{
    let lines = lines_of(content);
    let ghost all = lines@.map_values(|l: &str| l@);
    let mut names: Vec<String> = Vec::new();
    let mut i: usize = 0;
    while i < lines.len()
        invariant
            i <= lines@.len(),
            all == lines@.map_values(|l: &str| l@),
            string_seq_views(names@) == names_of_lines(all.take(i as int)),
        decreases lines@.len() - i,
    {
        let t = trim(lines[i]);
        let ghost before = names@;
        proof {
            let done = all.take(i as int);
            assert(all.take(i + 1).drop_last() =~= done);
            assert(all.take(i + 1).last() == lines@[i as int]@);
        }
        if !t.is_empty() {
            names.push(t.to_owned());
            proof {
                assert(string_seq_views(names@) =~= string_seq_views(before).push(t@));
            }
        }
        i += 1;
    }
    proof {
        assert(all.take(lines@.len() as int) =~= all);
    }
    names
}

} // verus!
