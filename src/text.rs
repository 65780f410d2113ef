//! Paths as character sequences.

use vstd::prelude::*;
use vstd::string::StringExecFns;

verus! {

/// `dir/name`: the path of `name` inside `dir`.
pub open spec fn join(dir: Seq<char>, name: Seq<char>) -> Seq<char> {
    dir + seq!['/'] + name
}

/// The bare file name of a path: what follows its last `/`.
pub open spec fn file_name(p: Seq<char>) -> Seq<char>
    decreases p.len(),
{
    if p.len() == 0 {
        p
    } else if p.last() == '/' {
        Seq::empty()
    } else {
        file_name(p.drop_last()).push(p.last())
    }
}

/// The path of `name` inside `dir`, with one `/` between them.
pub fn join_path(dir: &str, name: &str) -> (r: String)
    ensures
        r@ == join(dir@, name@),
{
    let mut r = dir.to_owned();
    r.append("/");
    r.append(name);
    proof {
        reveal_strlit("/");
    }
    r
}

/// The bare file name of `path`: the characters after its last `/`.
pub fn file_name_of(path: &str) -> (r: String)
    ensures
        r@ == file_name(path@),
{
    let n = path.unicode_len();
    let mut start: usize = 0;
    let mut i: usize = 0;
    while i < n
        invariant
            n == path@.len(),
            start <= i <= n,
            file_name(path@.take(i as int)) == path@.subrange(start as int, i as int),
        decreases n - i,
    {
        let c = path.get_char(i);
        proof {
            let t = path@.take(i as int + 1);
            assert(t.drop_last() =~= path@.take(i as int));
            assert(t.last() == c);
        }
        if c == '/' {
            start = i + 1;
        }
        i = i + 1;
        assert(file_name(path@.take(i as int)) =~= path@.subrange(start as int, i as int));
    }
    assert(path@.take(n as int) =~= path@);
    path.substring_char(start, n).to_owned()
}

} // verus!
