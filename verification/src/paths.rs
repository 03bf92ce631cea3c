//! Resolution of a member's configuration-file identifier against the root's
//! containing directory, and the lexicographic order used to keep the member
//! mapping deterministic.

use vstd::prelude::*;

verus! {

/// The containing directory of `path`: everything before its last `/`;
/// empty when there is no `/` (the path denotes a file in the current
/// location).
pub open spec fn parent_dir_spec(path: Seq<char>) -> Seq<char>
    decreases path.len(),
{
    if path.len() == 0 {
        Seq::empty()
    } else if path.last() == '/' {
        path.drop_last()
    } else {
        parent_dir_spec(path.drop_last())
    }
}

proof fn lemma_parent_dir_no_slash_suffix(path: Seq<char>, i: int)
    requires
        0 <= i <= path.len(),
        forall|j: int| i <= j < path.len() ==> path[j] != '/',
    ensures
        parent_dir_spec(path) == parent_dir_spec(path.take(i)),
    decreases path.len() - i,
{
    if i < path.len() {
        assert(path.take(i + 1).drop_last() =~= path.take(i));
        assert(path.take(path.len() as int) =~= path);
        lemma_parent_dir_no_slash_suffix(path, i + 1);
    } else {
        assert(path.take(i) =~= path);
    }
}

/// The containing directory of `path` (see `parent_dir_spec`).
pub fn parent_dir(path: &String) -> (r: String)
    ensures
        r@ == parent_dir_spec(path@),
{
    let n = path.as_str().unicode_len();
    let mut i: usize = n;
    while i > 0
        invariant
            i <= n,
            n == path@.len(),
            forall|j: int| i <= j < path@.len() ==> path@[j] != '/',
        decreases i,
    {
        i = i - 1;
        if path.as_str().get_char(i) == '/' {
            let r = path.as_str().substring_char(0, i);
            proof {
                lemma_parent_dir_no_slash_suffix(path@, i + 1);
                assert(path@.take(i + 1).drop_last() =~= path@.take(i as int));
                assert(path@.take(i as int) =~= path@.subrange(0, i as int));
            }
            return r.to_owned();
        }
    }
    proof {
        lemma_parent_dir_no_slash_suffix(path@, 0);
        assert(path@.take(0) =~= Seq::<char>::empty());
    }
    String::new()
}

/// The configuration-file identifier of a member declared as the relative
/// path `member` in a root whose containing directory is `dir`: the two are
/// joined and the conventional file name is appended.
pub open spec fn member_manifest_path(dir: Seq<char>, member: Seq<char>) -> Seq<char> {
    let joined = if dir.len() == 0 {
        member
    } else {
        dir + "/"@ + member
    };
    joined + "/Cargo.toml"@
}

/// The configuration-file identifier of a member (see `member_manifest_path`).
pub fn member_manifest_file(dir: &String, member: &String) -> (r: String)
    ensures
        r@ == member_manifest_path(dir@, member@),
{
    let mut out = String::new();
    if !dir.as_str().is_empty() {
        out.append(dir.as_str());
        out.append("/");
    }
    out.append(member.as_str());
    out.append("/Cargo.toml");
    proof {
        if dir@.len() == 0 {
            assert(out@ =~= member_manifest_path(dir@, member@));
        } else {
            assert(out@ =~= member_manifest_path(dir@, member@));
        }
    }
    out
}

/// Lexicographic comparison of two names by character code, starting at
/// position `i`; a strict prefix comes first.
pub open spec fn lex_le_from(a: Seq<char>, b: Seq<char>, i: int) -> bool
    decreases a.len() - i,
{
    if i >= a.len() {
        true
    } else if i >= b.len() {
        false
    } else if a[i] == b[i] {
        lex_le_from(a, b, i + 1)
    } else {
        (a[i] as u32) < (b[i] as u32)
    }
}

/// `a` comes before `b` (or equals it) in lexicographic order.
pub open spec fn lex_le(a: Seq<char>, b: Seq<char>) -> bool {
    lex_le_from(a, b, 0)
}

/// Decides `lex_le(a@, b@)`.
pub fn name_le(a: &String, b: &String) -> (r: bool)
    ensures
        r == lex_le(a@, b@),
{
    let an = a.as_str().unicode_len();
    let bn = b.as_str().unicode_len();
    let mut i: usize = 0;
    loop
        invariant
            i <= an,
            i <= bn,
            an == a@.len(),
            bn == b@.len(),
            lex_le(a@, b@) == lex_le_from(a@, b@, i as int),
        decreases an - i,
    {
        if i >= an {
            return true;
        }
        if i >= bn {
            return false;
        }
        let ca = a.as_str().get_char(i);
        let cb = b.as_str().get_char(i);
        if ca != cb {
            return (ca as u32) < (cb as u32);
        }
        i = i + 1;
    }
}

} // verus!
