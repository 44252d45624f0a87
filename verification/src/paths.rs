//! Where the host keeps an agent's files.
use vstd::prelude::*;

verus! {

/// The path of `name` inside the folder `dir`.
pub open spec fn joined(dir: Seq<char>, name: Seq<char>) -> Seq<char> {
    if dir.len() == 0 || dir.last() == '/' {
        dir + name
    } else {
        dir.push('/') + name
    }
}

/// The path of `name` inside the folder `dir`.
pub fn join(dir: &str, name: &str) -> (r: String)
    ensures
        r@ == joined(dir@, name@),
{
    let mut out = dir.to_owned();
    let n: usize = dir.unicode_len();
    if n > 0 && dir.get_char(n - 1) != '/' {
        out.push('/');
    }
    out.append(name);
    out
}

/// A name in a folder stands behind the folder's path and one slash, which is
/// not written twice; with no folder it stands alone.
pub proof fn a_name_stands_behind_one_slash(dir: Seq<char>, name: Seq<char>)
    ensures
        joined(Seq::empty(), name) == name,
        joined(dir.push('/'), name) == dir.push('/') + name,
        dir.len() > 0 && dir.last() != '/' ==> joined(dir, name) == joined(dir.push('/'), name),
{
    assert(joined(Seq::empty(), name) =~= name);
    assert(dir.push('/').last() == '/');
}

} // verus!
