//! The grammar of the paths that the registry is filled from: which files are
//! guest binaries, and under which name a file is registered.
//!
//! A path is a sequence of characters whose components are separated by `/`.
//! Its file name is the last component. The last `.` of a file name parts it into
//! stem and extension, unless that `.` is the first character of the name.

use vstd::prelude::*;

verus! {

/// The extension that marks a file as a guest binary.
pub open spec fn guest_extension() -> Seq<char> {
    seq!['w', 'a', 's', 'm']
}

/// The greatest index at which `c` stands in `s`, or -1 where `s` does not hold `c`.
pub open spec fn last_index_of(s: Seq<char>, c: char) -> int
    decreases s.len(),
{
    if s.len() == 0 {
        -1
    } else if s.last() == c {
        s.len() - 1
    } else {
        last_index_of(s.drop_last(), c)
    }
}

/// The last component of `path`; `None` where it is empty, `.` or `..`.
pub open spec fn spec_file_name(path: Seq<char>) -> Option<Seq<char>> {
    let name = path.subrange(last_index_of(path, '/') + 1, path.len() as int);
    if name.len() == 0 || name == seq!['.'] || name == seq!['.', '.'] {
        None
    } else {
        Some(name)
    }
}

/// The file name of `path` without its extension.
pub open spec fn spec_file_stem(path: Seq<char>) -> Option<Seq<char>> {
    match spec_file_name(path) {
        None => None,
        Some(name) => {
            let dot = last_index_of(name, '.');
            if dot <= 0 {
                Some(name)
            } else {
                Some(name.subrange(0, dot))
            }
        },
    }
}

/// What follows the last `.` of the file name of `path`; `None` where the name
/// holds no `.` but a leading one.
pub open spec fn spec_extension(path: Seq<char>) -> Option<Seq<char>> {
    match spec_file_name(path) {
        None => None,
        Some(name) => {
            let dot = last_index_of(name, '.');
            if dot <= 0 {
                None
            } else {
                Some(name.subrange(dot + 1, name.len() as int))
            }
        },
    }
}

/// True when the extension of `path` is that of a guest binary.
pub open spec fn spec_is_guest_binary(path: Seq<char>) -> bool {
    spec_extension(path) == Some(guest_extension())
}

/// `last_index_of` finds an occurrence of `c` and nothing stands behind it.
pub proof fn lemma_last_index_of(s: Seq<char>, c: char)
    ensures
        -1 <= last_index_of(s, c) < s.len(),
        last_index_of(s, c) >= 0 ==> s[last_index_of(s, c)] == c,
        forall|i: int| last_index_of(s, c) < i < s.len() ==> s[i] != c,
    decreases s.len(),
{
    if s.len() > 0 && s.last() != c {
        let front = s.drop_last();
        lemma_last_index_of(front, c);
        assert forall|i: int| last_index_of(s, c) < i < s.len() implies s[i] != c by {
            if i < front.len() {
                assert(front[i] == s[i]);
            }
        }
    }
}

/// An index that holds `c` with no `c` behind it is the last index of `c`; where
/// no index holds `c`, -1 is.
pub proof fn lemma_last_index_of_is(s: Seq<char>, c: char, at: int)
    requires
        -1 <= at < s.len(),
        at >= 0 ==> s[at] == c,
        forall|i: int| at < i < s.len() ==> s[i] != c,
    ensures
        last_index_of(s, c) == at,
{
    lemma_last_index_of(s, c);
}

/// The characters of `s`.
fn characters(s: &str) -> (chars: Vec<char>)
    ensures
        chars@ == s@,
{
    broadcast use vstd::string::group_string_axioms;

    let mut chars: Vec<char> = Vec::new();
    for c in it: s.chars()
        invariant
            it.seq() == s@,
            chars@ == it.seq().take(it.index() as int),
    {
        chars.push(c);
    }
    chars
}

/// The last index of `c` within the part of `s` that starts at `from`, as an
/// index into `s`; `None` where that part does not hold `c`.
fn find_last(s: &Vec<char>, from: usize, c: char) -> (found: Option<usize>)
    requires
        from <= s@.len(),
    ensures
        match found {
            Some(at) => from <= at < s@.len() && at - from == last_index_of(
                s@.subrange(from as int, s@.len() as int),
                c,
            ),
            None => last_index_of(s@.subrange(from as int, s@.len() as int), c) == -1,
        },
{
    let ghost part = s@.subrange(from as int, s@.len() as int);
    let mut i: usize = s.len();
    while i > from
        invariant
            from <= i <= s@.len(),
            part == s@.subrange(from as int, s@.len() as int),
            forall|k: int| i - from <= k < part.len() ==> part[k] != c,
        decreases i,
    {
        i = i - 1;
        if s[i] == c {
            proof {
                lemma_last_index_of_is(part, c, i - from);
            }
            return Some(i);
        }
    }
    proof {
        lemma_last_index_of_is(part, c, -1);
    }
    None
}

/// Where the file name of `path` starts, if `path` has a file name.
fn file_name_start(path: &Vec<char>) -> (start: Option<usize>)
    ensures
        match start {
            Some(at) => at < path@.len() && spec_file_name(path@) == Some(
                path@.subrange(at as int, path@.len() as int),
            ),
            None => spec_file_name(path@).is_none(),
        },
{
    let len = path.len();
    assert(path@.subrange(0, len as int) == path@);
    let start: usize = match find_last(path, 0, '/') {
        Some(at) => at + 1,
        None => 0,
    };
    let size: usize = len - start;
    let ghost name = path@.subrange(start as int, len as int);
    if size == 0 {
        return None;
    }
    if size == 1 && path[start] == '.' {
        assert(name == seq!['.']);
        return None;
    }
    if size == 2 && path[start] == '.' && path[start + 1] == '.' {
        assert(name == seq!['.', '.']);
        return None;
    }
    proof {
        if name == seq!['.'] {
            assert(name.len() == 1 && name[0] == '.');
        }
        if name == seq!['.', '.'] {
            assert(name.len() == 2 && name[0] == '.' && name[1] == '.');
        }
    }
    Some(start)
}

/// The name under which the file at `path` is registered: its file stem.
pub fn file_stem(path: &str) -> (stem: Option<String>)
    ensures
        match stem {
            Some(s) => spec_file_stem(path@) == Some(s@),
            None => spec_file_stem(path@).is_none(),
        },
{
    let chars = characters(path);
    match file_name_start(&chars) {
        None => None,
        Some(start) => {
            let end = chars.len();
            let stop: usize = match find_last(&chars, start, '.') {
                Some(dot) => if dot > start {
                    dot
                } else {
                    end
                },
                None => end,
            };
            proof {
                let name = path@.subrange(start as int, end as int);
                let dot = last_index_of(name, '.');
                if dot > 0 {
                    assert(name.subrange(0, dot) == path@.subrange(start as int, stop as int));
                }
            }
            Some(path.substring_char(start, stop).to_owned())
        },
    }
}

/// True when `path` names a guest binary.
pub fn is_guest_binary(path: &str) -> (is: bool)
    ensures
        is == spec_is_guest_binary(path@),
{
    let chars = characters(path);
    match file_name_start(&chars) {
        None => false,
        Some(start) => {
            let end = chars.len();
            let ghost name = path@.subrange(start as int, end as int);
            match find_last(&chars, start, '.') {
                None => false,
                Some(dot) => {
                    if dot == start {
                        return false;
                    }
                    let ghost ext = name.subrange(dot - start + 1, name.len() as int);
                    assert(spec_extension(path@) == Some(ext));
                    if end - dot != 5 {
                        assert(ext.len() != guest_extension().len());
                        return false;
                    }
                    assert(ext.len() == 4);
                    assert(forall|k: int| 0 <= k < 4 ==> ext[k] == path@[dot + 1 + k]);
                    let is = chars[dot + 1] == 'w' && chars[dot + 2] == 'a' && chars[dot + 3]
                        == 's' && chars[dot + 4] == 'm';
                    proof {
                        if is {
                            assert(ext =~= guest_extension());
                        } else {
                            assert(ext[0] == path@[dot + 1] && ext[1] == path@[dot + 2] && ext[2]
                                == path@[dot + 3] && ext[3] == path@[dot + 4]);
                            assert(guest_extension()[0] == 'w' && guest_extension()[1] == 'a'
                                && guest_extension()[2] == 's' && guest_extension()[3] == 'm');
                        }
                    }
                    is
                },
            }
        },
    }
}

} // verus!
