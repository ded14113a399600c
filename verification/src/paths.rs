//! The few questions about a Unix path that the job logic asks: its final
//! component, the stem of that component, and its extension.

use vstd::prelude::*;

use crate::text::{chars_of, eq_str, slice, split_all, split_all_chars, Sep};

verus! {

/// The last piece of `pieces` that is a real name: empty pieces (from
/// repeated or trailing slashes) and `.` pieces are not.
pub open spec fn last_component(pieces: Seq<Seq<char>>) -> Option<Seq<char>>
    decreases pieces.len(),
{
    if pieces.len() == 0 {
        None
    } else if pieces.last().len() == 0 || pieces.last() == "."@ {
        last_component(pieces.drop_last())
    } else {
        Some(pieces.last())
    }
}

/// `Path::file_name`: the final component of `path`, unless that is `..` or
/// there is none.
pub open spec fn file_name(path: Seq<char>) -> Option<Seq<char>> {
    match last_component(split_all(path, Sep::Char('/'))) {
        Some(c) => if c == ".."@ {
            None
        } else {
            Some(c)
        },
        None => None,
    }
}

/// The index of the last `'.'` in `s`, or `-1`.
pub open spec fn last_dot(s: Seq<char>) -> int
    decreases s.len(),
{
    if s.len() == 0 {
        -1
    } else if s.last() == '.' {
        s.len() - 1
    } else {
        last_dot(s.drop_last())
    }
}

/// The file name without its extension: everything before the last dot,
/// unless that dot starts the name.
pub open spec fn stem_of(name: Seq<char>) -> Seq<char> {
    if last_dot(name) <= 0 {
        name
    } else {
        name.subrange(0, last_dot(name))
    }
}

/// `Path::file_stem`.
pub open spec fn file_stem(path: Seq<char>) -> Option<Seq<char>> {
    match file_name(path) {
        Some(n) => Some(stem_of(n)),
        None => None,
    }
}

/// `Path::extension`: what follows the last dot of the file name, when that
/// dot does not start the name.
pub open spec fn extension(path: Seq<char>) -> Option<Seq<char>> {
    match file_name(path) {
        Some(n) => if last_dot(n) <= 0 {
            None
        } else {
            Some(n.subrange(last_dot(n) + 1, n.len() as int))
        },
        None => None,
    }
}

/// A name for `path` short enough for a label: its file name, or all of it
/// when it has none.
pub open spec fn short_source_of(path: Seq<char>) -> Seq<char> {
    match file_name(path) {
        Some(n) => n,
        None => path,
    }
}

fn last_component_exec(pieces: &Vec<Vec<char>>) -> (r: Option<usize>)
    ensures
        match r {
            Some(i) => i < pieces.len() && last_component(pieces@.map_values(|v: Vec<char>| v@)) == Some(
                pieces@[i as int]@,
            ),
            None => last_component(pieces@.map_values(|v: Vec<char>| v@)) is None,
        },
{
    let ghost ps = pieces@.map_values(|v: Vec<char>| v@);
    let mut k = pieces.len();
    assert(ps.take(k as int) =~= ps);
    while k > 0
        invariant
            k <= pieces.len(),
            ps == pieces@.map_values(|v: Vec<char>| v@),
            last_component(ps) == last_component(ps.take(k as int)),
        decreases k,
    {
        let ghost t = ps.take(k as int);
        assert(t.drop_last() =~= ps.take(k - 1));
        assert(t.last() == pieces@[k - 1]@);
        if pieces[k - 1].len() == 0 || eq_str(&pieces[k - 1], ".") {
            k = k - 1;
        } else {
            return Some(k - 1);
        }
    }
    None
}

/// The final component of `path`, as `Path::file_name` gives it.
pub fn file_name_of(path: &Vec<char>) -> (r: Option<Vec<char>>)
    ensures
        match r {
            Some(n) => file_name(path@) == Some(n@),
            None => file_name(path@) is None,
        },
{
    let pieces = split_all_chars(path, Sep::Char('/'));
    match last_component_exec(&pieces) {
        Some(i) => {
            if eq_str(&pieces[i], "..") {
                None
            } else {
                Some(slice(&pieces[i], 0, pieces[i].len()))
            }
        },
        None => None,
    }
}

fn last_dot_exec(s: &Vec<char>) -> (r: Option<usize>)
    ensures
        match r {
            Some(i) => i < s.len() && last_dot(s@) == i as int,
            None => last_dot(s@) == -1,
        },
{
    let mut k = s.len();
    assert(s@.take(k as int) =~= s@);
    while k > 0
        invariant
            k <= s.len(),
            last_dot(s@) == last_dot(s@.take(k as int)),
        decreases k,
    {
        assert(s@.take(k as int).drop_last() =~= s@.take(k - 1));
        if s[k - 1] == '.' {
            return Some(k - 1);
        }
        k = k - 1;
    }
    None
}

/// The file name of `path` without its extension, as `Path::file_stem` gives it.
pub fn file_stem_of(path: &Vec<char>) -> (r: Option<Vec<char>>)
    ensures
        match r {
            Some(n) => file_stem(path@) == Some(n@),
            None => file_stem(path@) is None,
        },
{
    match file_name_of(path) {
        Some(n) => match last_dot_exec(&n) {
            Some(i) => if i == 0 {
                Some(n)
            } else {
                Some(slice(&n, 0, i))
            },
            None => Some(n),
        },
        None => None,
    }
}

/// Whether `path` names a `.plist` file.
pub fn is_plist_path(path: &str) -> (r: bool)
    ensures
        r == (extension(path@) == Some("plist"@)),
{
    let p = chars_of(path);
    match file_name_of(&p) {
        Some(n) => match last_dot_exec(&n) {
            Some(i) => {
                if i == 0 {
                    false
                } else {
                    let ext = slice(&n, i + 1, n.len());
                    eq_str(&ext, "plist")
                }
            },
            None => false,
        },
        None => false,
    }
}

/// Reduce a source path to its file name for use in a label, falling back to
/// the whole string when there is no file name.
pub fn short_source(s: &str) -> (r: String)
    ensures
        r@ == short_source_of(s@),
{
    let p = chars_of(s);
    match file_name_of(&p) {
        Some(n) => crate::text::string_of(&n),
        None => crate::text::string_from(s),
    }
}

} // verus!
