//! The ignore registry: the names of the modules that are expected to fail.
//!
//! The registry is read from a file with one module name per line. Names are
//! compared without regard to case.
use crate::text::{decode, lowercase, str_eq, to_lowercase};
use vstd::prelude::*;
use vstd::slice::slice_subrange;
use vstd::string::StringExecFns;
use vstd::utf8::{decode_utf8, valid_utf8};

verus! {

/// Number of bytes before the first line feed, or the number of all bytes
/// where there is none.
pub open spec fn line_end(bytes: Seq<u8>) -> int
    decreases bytes.len(),
{
    if bytes.len() == 0 || bytes[0] == 0x0a {
        0
    } else {
        1 + line_end(bytes.drop_first())
    }
}

/// `line_end` stops at the first line feed or at the end.
pub proof fn lemma_line_end(bytes: Seq<u8>)
    ensures
        0 <= line_end(bytes) <= bytes.len(),
        line_end(bytes) < bytes.len() ==> bytes[line_end(bytes)] == 0x0a,
        forall|i: int| 0 <= i < line_end(bytes) ==> bytes[i] != 0x0a,
    decreases bytes.len(),
{
    if bytes.len() > 0 && bytes[0] != 0x0a {
        let rest = bytes.drop_first();
        lemma_line_end(rest);
        assert forall|i: int| 0 <= i < line_end(bytes) implies bytes[i] != 0x0a by {
            if i > 0 {
                assert(rest[i - 1] == bytes[i]);
            }
        }
    }
}

/// A line without the carriage return that may end it.
pub open spec fn strip_cr(line: Seq<u8>) -> Seq<u8> {
    if line.len() > 0 && line.last() == 0x0d {
        line.drop_last()
    } else {
        line
    }
}

/// The first line of a non-empty file: the bytes before the first line feed,
/// less a carriage return just before it. A last line that no line feed ends
/// is taken as it stands.
pub open spec fn first_line(bytes: Seq<u8>) -> Seq<u8> {
    let end = line_end(bytes);
    if end < bytes.len() {
        strip_cr(bytes.take(end))
    } else {
        bytes
    }
}

/// What follows the first line and its line feed.
pub open spec fn after_first_line(bytes: Seq<u8>) -> Seq<u8> {
    let end = line_end(bytes);
    if end < bytes.len() {
        bytes.skip(end + 1)
    } else {
        Seq::empty()
    }
}

/// The names that an ignore file holds: its lines, in order, each taken
/// whole. A line that is not well-formed UTF-8 holds no name.
pub open spec fn ignore_names(bytes: Seq<u8>) -> Seq<Seq<char>>
    decreases bytes.len(),
    via ignore_names_decreases
{
    if bytes.len() == 0 {
        Seq::empty()
    } else {
        let line = first_line(bytes);
        let rest = ignore_names(after_first_line(bytes));
        if valid_utf8(line) {
            seq![decode_utf8(line)] + rest
        } else {
            rest
        }
    }
}

#[via_fn]
proof fn ignore_names_decreases(bytes: Seq<u8>) {
    lemma_line_end(bytes);
}

/// Names in lower case, one for one.
pub open spec fn folded(names: Seq<Seq<char>>) -> Seq<Seq<char>> {
    names.map_values(|name: Seq<char>| lowercase(name))
}

/// Whether a module is on the list, case aside.
pub open spec fn ignored(ignores: Seq<Seq<char>>, module: Seq<char>) -> bool {
    folded(ignores).contains(lowercase(module))
}

/// Reads the contents of an ignore file.
pub fn parse_ignore_list(contents: &[u8]) -> (names: Vec<String>)
    ensures
        names.deep_view() == ignore_names(contents@),
{
    let mut names: Vec<String> = Vec::new();
    let mut start: usize = 0;
    proof {
        assert(contents@.skip(0) =~= contents@);
        assert(names.deep_view() =~= Seq::<Seq<char>>::empty());
    }
    while start < contents.len()
        invariant
            start <= contents.len(),
            ignore_names(contents@) == names.deep_view() + ignore_names(
                contents@.skip(start as int),
            ),
        decreases contents.len() - start,
    {
        let ghost tail = contents@.skip(start as int);
        let mut end: usize = start;
        while end < contents.len() && contents[end] != 0x0a
            invariant
                start <= end <= contents.len(),
                tail == contents@.skip(start as int),
                line_end(tail) == (end - start) + line_end(contents@.skip(end as int)),
            decreases contents.len() - end,
        {
            proof {
                assert(contents@.skip(end as int).drop_first() =~= contents@.skip(end + 1));
            }
            end += 1;
        }
        proof {
            lemma_line_end(tail);
            assert(line_end(tail) == end - start);
        }
        let mut stop: usize = end;
        let next: usize = if end < contents.len() {
            if end > start && contents[end - 1] == 0x0d {
                stop = end - 1;
            }
            end + 1
        } else {
            end
        };
        let line = slice_subrange(contents, start, stop);
        proof {
            assert(tail.take(end - start) =~= contents@.subrange(start as int, end as int));
            assert(line@ =~= first_line(tail));
            assert(contents@.skip(next as int) =~= after_first_line(tail));
        }
        let ghost before = names.deep_view();
        match decode(line) {
            Some(name) => {
                names.push(String::from_str(name));
                proof {
                    assert(names.deep_view() =~= before + seq![decode_utf8(line@)]);
                }
            },
            None => {},
        }
        start = next;
    }
    names
}

/// The names of a list in lower case.
pub fn fold_names(names: &Vec<String>) -> (r: Vec<String>)
    ensures
        r.deep_view() == folded(names.deep_view()),
{
    let mut r: Vec<String> = Vec::new();
    let mut i: usize = 0;
    while i < names.len()
        invariant
            i <= names.len(),
            r.len() == i,
            forall|j: int| 0 <= j < i ==> r[j]@ == lowercase(#[trigger] names[j]@),
        decreases names.len() - i,
    {
        r.push(to_lowercase(names[i].as_str()));
        i += 1;
    }
    proof {
        assert(r.deep_view() =~= folded(names.deep_view()));
    }
    r
}

/// Whether a list holds a name, letter for letter.
pub fn contains_name(names: &Vec<String>, name: &str) -> (r: bool)
    ensures
        r == names.deep_view().contains(name@),
{
    let mut i: usize = 0;
    while i < names.len()
        invariant
            i <= names.len(),
            forall|j: int| 0 <= j < i ==> names[j]@ != name@,
        decreases names.len() - i,
    {
        if str_eq(names[i].as_str(), name) {
            proof {
                assert(names.deep_view()[i as int] == name@);
            }
            return true;
        }
        i += 1;
    }
    proof {
        let view = names.deep_view();
        assert forall|j: int| 0 <= j < view.len() implies view[j] != name@ by {
            assert(view[j] == names[j]@);
        }
    }
    false
}

/// Whether a module is expected to fail: whether the list holds its name,
/// case aside.
pub fn is_ignored(ignores: &Vec<String>, module_name: &str) -> (r: bool)
    ensures
        r == ignored(ignores.deep_view(), module_name@),
{
    let names = fold_names(ignores);
    let name = to_lowercase(module_name);
    contains_name(&names, name.as_str())
}

} // verus!
