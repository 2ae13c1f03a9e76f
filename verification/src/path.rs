use crate::error::DatabaseError;
use vstd::prelude::*;
use vstd::string::*;

verus! {

/// The position of the last `c` in `s`, or -1 where `s` holds none.
pub open spec fn last_position(s: Seq<char>, c: char) -> int
    decreases s.len(),
{
    if s.len() == 0 {
        -1
    } else if s.last() == c {
        s.len() - 1
    } else {
        last_position(s.drop_last(), c)
    }
}

/// The part of `s` behind its last `c`: all of `s` where it holds none.
pub open spec fn after_last(s: Seq<char>, c: char) -> Seq<char> {
    s.subrange(last_position(s, c) + 1, s.len() as int)
}

/// The part of `s` before its last `c`: all of `s` where it holds none.
pub open spec fn before_last(s: Seq<char>, c: char) -> Seq<char> {
    if last_position(s, c) < 0 {
        s
    } else {
        s.subrange(0, last_position(s, c))
    }
}

/// The last component of a path whose components are parted by `/`, where
/// it names a file: it is not empty and is neither `.` nor `..`.
pub open spec fn file_name(path: Seq<char>) -> Option<Seq<char>> {
    let name = after_last(path, '/');
    if name.len() == 0 || name == seq!['.'] || name == seq!['.', '.'] {
        None
    } else {
        Some(name)
    }
}

/// The name of the database saved at `path`: of the parts of the file name
/// that `.` separates, the one before the last, or the whole file name where
/// it holds no `.`. There is no name where there is no file name or that
/// part is empty.
pub open spec fn database_label(path: Seq<char>) -> Option<Seq<char>> {
    match file_name(path) {
        None => None,
        Some(name) => {
            let label = after_last(before_last(name, '.'), '.');
            if label.len() == 0 {
                None
            } else {
                Some(label)
            }
        },
    }
}

/// The extension of the file that a database is saved in by default.
pub open spec fn extension() -> Seq<char> {
    ".gddb"@
}

/// `at` is where the last `c` stands in `s`: `c` stands there and nowhere
/// behind it, or `at` is -1 and `c` stands nowhere in `s`.
#[verifier::opaque]
pub open spec fn is_last_position(s: Seq<char>, c: char, at: int) -> bool {
    &&& -1 <= at < s.len()
    &&& at >= 0 ==> s[at] == c
    &&& forall|i: int| at < i < s.len() ==> s[i] != c
}

/// [`last_position`] is the position of the last `c`.
pub proof fn lemma_last_position(s: Seq<char>, c: char)
    ensures
        is_last_position(s, c, last_position(s, c)),
    decreases s.len(),
{
    reveal(is_last_position);
    if s.len() > 0 && s.last() != c {
        let shorter = s.drop_last();
        lemma_last_position(shorter, c);
        assert forall|i: int| last_position(s, c) < i < s.len() implies s[i] != c by {
            if i < s.len() - 1 {
                assert(shorter[i] == s[i]);
            }
        }
    }
}

/// The position of the last `c` among the characters of `s` from `from` up
/// to `to`, counted from the start of `s`.
pub fn last_position_between(s: &str, c: char, from: usize, to: usize) -> (at: Option<usize>)
    requires
        from <= to <= s@.len(),
    ensures
        match at {
            Some(p) => {
                &&& from <= p < to
                &&& last_position(s@.subrange(from as int, to as int), c) == p - from
                &&& is_last_position(s@.subrange(from as int, to as int), c, p - from)
            },
            None => {
                &&& last_position(s@.subrange(from as int, to as int), c) == -1
                &&& is_last_position(s@.subrange(from as int, to as int), c, -1)
            },
        },
{
    let ghost part = s@.subrange(from as int, to as int);
    let mut i: usize = to;
    proof {
        lemma_last_position(part, c);
        assert(part.take(to - from) =~= part);
    }
    while i > from
        invariant
            from <= i <= to <= s@.len(),
            part == s@.subrange(from as int, to as int),
            last_position(part, c) == last_position(part.take(i - from), c),
            is_last_position(part, c, last_position(part, c)),
        decreases i,
    {
        let ghost head = part.take(i - from);
        if s.get_char(i - 1) == c {
            assert(head.last() == c);
            return Some(i - 1);
        }
        assert(head.drop_last() =~= part.take(i - 1 - from));
        i -= 1;
    }
    assert(part.take(0).len() == 0);
    None
}

/// Where the part of `s` between `from` and `to` that lies behind its last
/// `c` begins.
fn start_after_last(s: &str, c: char, from: usize, to: usize) -> (start: usize)
    requires
        from <= to <= s@.len(),
    ensures
        from <= start <= to,
        s@.subrange(start as int, to as int) == after_last(s@.subrange(from as int, to as int), c),
{
    let start = match last_position_between(s, c, from, to) {
        Some(at) => at + 1,
        None => from,
    };
    assert(s@.subrange(start as int, to as int) =~= s@.subrange(from as int, to as int).subrange(
        start - from,
        to - from,
    ));
    start
}

/// Where the part of `s` between `from` and `to` that lies before its last
/// `c` ends.
fn end_before_last(s: &str, c: char, from: usize, to: usize) -> (end: usize)
    requires
        from <= to <= s@.len(),
    ensures
        from <= end <= to,
        s@.subrange(from as int, end as int) == before_last(
            s@.subrange(from as int, to as int),
            c,
        ),
{
    let end = match last_position_between(s, c, from, to) {
        Some(at) => at,
        None => to,
    };
    assert(s@.subrange(from as int, end as int) =~= s@.subrange(from as int, to as int).subrange(
        0,
        end - from,
    ));
    end
}

/// The name of the database saved at `path`, or `BadDbName` where the path
/// gives none.
pub fn database_name(path: &str) -> (r: Result<String, DatabaseError>)
    ensures
        match database_label(path@) {
            Some(label) => r is Ok && r->Ok_0@ == label,
            None => r is Err && r->Err_0 == DatabaseError::BadDbName,
        },
{
    let len = path.unicode_len();
    assert(path@.subrange(0, len as int) =~= path@);
    let start = start_after_last(path, '/', 0, len);
    let ghost name = path@.subrange(start as int, len as int);
    if start == len {
        return Err(DatabaseError::BadDbName);
    }
    if path.get_char(start) == '.' {
        if len - start == 1 {
            assert(name =~= seq!['.']);
            return Err(DatabaseError::BadDbName);
        }
        if len - start == 2 && path.get_char(start + 1) == '.' {
            assert(name =~= seq!['.', '.']);
            return Err(DatabaseError::BadDbName);
        }
    }
    assert(name != seq!['.'] && name != seq!['.', '.']) by {
        assert(name.len() == len - start);
        assert(name[0] == path@[start as int]);
        if name == seq!['.'] {
            assert(seq!['.'].len() == 1 && seq!['.'][0] == '.');
        }
        if name == seq!['.', '.'] {
            assert(seq!['.', '.'].len() == 2 && seq!['.', '.'][0] == '.' && seq!['.', '.'][1]
                == '.');
            assert(name[1] == path@[start + 1]);
        }
    }
    assert(file_name(path@) == Some(name));
    let end = end_before_last(path, '.', start, len);
    let first = start_after_last(path, '.', start, end);
    if first == end {
        return Err(DatabaseError::BadDbName);
    }
    Ok(path.substring_char(first, end).to_owned())
}

/// The path under which a database of this label is saved when it has no
/// path of its own: the label and the extension.
pub fn default_path(label: &str) -> (path: String)
    ensures
        path@ == label@ + extension(),
{
    label.to_owned().concat(".gddb")
}

} // verus!
