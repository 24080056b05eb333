//! Which files of the database directory are shards.

use vstd::prelude::*;
use crate::coordinate::chars_of;

verus! {

broadcast use vstd::string::group_string_axioms;

/// The index of the last `.` in `s` before `end`, or -1 where there is none.
pub open spec fn last_dot(s: Seq<char>, end: int) -> int
    decreases end,
{
    if end <= 0 {
        -1
    } else if s[end - 1] == '.' {
        end - 1
    } else {
        last_dot(s, end - 1)
    }
}

/// The extension of a file name, as `Path::extension` finds it: the text after the last
/// `.`, where that `.` is not the name's first character and the name is not `..`.
pub open spec fn extension(name: Seq<char>) -> Option<Seq<char>> {
    let dot = last_dot(name, name.len() as int);
    if name == seq!['.', '.'] || dot <= 0 {
        None
    } else {
        Some(name.subrange(dot + 1, name.len() as int))
    }
}

/// Whether a file of the database directory is a shard: its extension is `db`.
pub open spec fn is_shard_name(name: Seq<char>) -> bool {
    extension(name) == Some(seq!['d', 'b'])
}

proof fn lemma_last_dot_bounds(s: Seq<char>, end: int)
    requires
        end <= s.len(),
    ensures
        -1 <= last_dot(s, end) < end || end <= 0,
        last_dot(s, end) >= 0 ==> s[last_dot(s, end)] == '.',
    decreases end,
{
    if end > 0 && s[end - 1] != '.' {
        lemma_last_dot_bounds(s, end - 1);
    }
}

/// Whether the file with the given name is a database shard.
pub fn is_shard_file(name: &str) -> (r: bool)
    ensures
        r == is_shard_name(name@),
{
    let v = chars_of(name);
    let n = v.len();
    if n == 2 && v[0] == '.' && v[1] == '.' {
        assert(name@ =~= seq!['.', '.']);
        return false;
    }
    let mut end = n;
    while end > 0 && v[end - 1] != '.'
        invariant
            end <= n == v@.len(),
            last_dot(v@, end as int) == last_dot(v@, n as int),
        decreases end,
    {
        end = end - 1;
    }
    // `end - 1` is the index of the last dot, where there is one.
    if end <= 1 {
        return false;
    }
    let r = n - end == 2 && v[end] == 'd' && v[end + 1] == 'b';
    proof {
        let ext = v@.subrange(end as int, n as int);
        if r {
            assert(ext =~= seq!['d', 'b']);
        } else if ext.len() == 2 {
            assert(ext[0] == v@[end as int]);
            assert(ext[1] == v@[end + 1]);
        }
    }
    r
}

/// A file is a shard exactly when its name ends in `.db` with something before it.
pub proof fn lemma_shard_names(name: Seq<char>)
    ensures
        is_shard_name(name) <==> name.len() >= 4 && name.subrange(
            name.len() - 3,
            name.len() as int,
        ) == seq!['.', 'd', 'b'],
{
    let n = name.len() as int;
    lemma_last_dot_bounds(name, n);
    let dot = last_dot(name, n);
    if n >= 4 && name.subrange(n - 3, n) == seq!['.', 'd', 'b'] {
        assert(name[n - 1] == name.subrange(n - 3, n)[2]);
        assert(name[n - 2] == name.subrange(n - 3, n)[1]);
        assert(name[n - 3] == name.subrange(n - 3, n)[0]);
        assert(last_dot(name, n - 1) == last_dot(name, n - 2));
        assert(dot == n - 3);
        assert(name.subrange(dot + 1, n) =~= seq!['d', 'b']);
        assert(name != seq!['.', '.']);
    }
    if is_shard_name(name) {
        let ext = name.subrange(dot + 1, n);
        assert(ext.len() == 2);
        assert(dot == n - 3);
        assert(name[n - 1] == ext[1]);
        assert(name[n - 2] == ext[0]);
        assert(name.subrange(n - 3, n) =~= seq!['.', 'd', 'b']);
    }
}

} // verus!
