//! Component-wise path logic: prefix matching of repository paths and the
//! mapping of a matched entry to its local destination.
//!
//! Repository tree paths are repo-relative, with single `/` separators and
//! no trailing separator, which is how a tree listing spells them.

use vstd::prelude::*;
use vstd::string::*;

verus! {

/// Whether `path` lies under `target`, component-wise: either the target is
/// empty (everything is under it), or the path is the target itself (the
/// single-file case), or the path continues past the target with a `/`
/// separator. A sibling such as `nvim2/init.lua` is not under `nvim`.
pub open spec fn is_under(target: Seq<char>, path: Seq<char>) -> bool {
    ||| target.len() == 0
    ||| path == target
    ||| (path.len() > target.len() && path.subrange(0, target.len() as int) == target
        && path[target.len() as int] == '/')
}

/// What remains of `path` once the `target` prefix is stripped: the whole
/// path for an empty target, nothing for the single-file case, and the part
/// after the separator otherwise.
pub open spec fn tail_under(target: Seq<char>, path: Seq<char>) -> Seq<char> {
    if target.len() == 0 {
        path
    } else if path == target {
        Seq::empty()
    } else {
        path.subrange(target.len() as int + 1, path.len() as int)
    }
}

/// `rest` joined onto the directory `dir` with a single separator; an empty
/// remainder leaves `dir` itself and an empty `dir` contributes no separator.
pub open spec fn joined(dir: Seq<char>, rest: Seq<char>) -> Seq<char> {
    if rest.len() == 0 {
        dir
    } else if dir.len() == 0 {
        rest
    } else {
        dir + seq!['/'] + rest
    }
}

/// The local destination of the matched entry `path`: the job's local root
/// joined with what remains of `path` after the remote `target` prefix.
pub open spec fn destination(target: Seq<char>, path: Seq<char>, local: Seq<char>) -> Seq<char> {
    joined(local, tail_under(target, path))
}

/// Whether `path` lies component-wise under `target`.
pub fn path_is_under(target: &str, path: &str) -> (r: bool)
    ensures
        r == is_under(target@, path@),
{
    let tl = target.unicode_len();
    let pl = path.unicode_len();
    if tl == 0 {
        return true;
    }
    if pl < tl {
        return false;
    }
    let mut i: usize = 0;
    while i < tl
        invariant
            i <= tl,
            tl == target@.len(),
            pl == path@.len(),
            tl <= pl,
            forall|j: int| 0 <= j < i ==> target@[j] == path@[j],
        decreases tl - i,
    {
        if target.get_char(i) != path.get_char(i) {
            proof {
                if path@ == target@ {
                    assert(target@[i as int] == path@[i as int]);
                }
                if path@.subrange(0, tl as int) == target@ {
                    assert(target@[i as int] == path@.subrange(0, tl as int)[i as int]);
                }
            }
            return false;
        }
        i = i + 1;
    }
    proof {
        assert(path@.subrange(0, tl as int) =~= target@);
    }
    if pl == tl {
        proof {
            assert(path@ =~= target@);
        }
        true
    } else {
        path.get_char(tl) == '/'
    }
}

/// The local destination for one matched entry: strip the remote `target`
/// prefix from `path` and join the remainder onto the `local` root.
pub fn destination_path(target: &str, path: &str, local: &str) -> (r: String)
    requires
        is_under(target@, path@),
    ensures
        r@ == destination(target@, path@, local@),
{
    let tl = target.unicode_len();
    let pl = path.unicode_len();
    let ll = local.unicode_len();
    if tl == 0 {
        if pl == 0 {
            return String::from_str(local);
        }
        if ll == 0 {
            return String::from_str(path);
        }
        let mut out = String::from_str(local);
        out.append("/");
        out.append(path);
        proof {
            reveal_strlit("/");
            assert(out@ =~= local@ + seq!['/'] + path@);
        }
        out
    } else if pl == tl {
        proof {
            assert(path@ == target@);
        }
        String::from_str(local)
    } else {
        if pl == tl + 1 {
            proof {
                assert(tail_under(target@, path@) =~= Seq::<char>::empty());
            }
            return String::from_str(local);
        }
        let rest = path.substring_char(tl + 1, pl);
        if ll == 0 {
            return String::from_str(rest);
        }
        let mut out = String::from_str(local);
        out.append("/");
        out.append(rest);
        proof {
            reveal_strlit("/");
            assert(out@ =~= local@ + seq!['/'] + rest@);
        }
        out
    }
}

/// Join `rest` onto the directory `dir` with a single separator.
pub fn join_path(dir: &str, rest: &str) -> (r: String)
    ensures
        r@ == joined(dir@, rest@),
{
    if rest.unicode_len() == 0 {
        return String::from_str(dir);
    }
    if dir.unicode_len() == 0 {
        return String::from_str(rest);
    }
    let mut out = String::from_str(dir);
    out.append("/");
    out.append(rest);
    proof {
        reveal_strlit("/");
        assert(out@ =~= dir@ + seq!['/'] + rest@);
    }
    out
}

/// The base name of a path: the run of characters after its last separator,
/// empty when the path is empty or ends with a separator.
pub open spec fn base_name_of(s: Seq<char>) -> Seq<char>
    decreases s.len(),
{
    if s.len() == 0 {
        s
    } else if s.last() == '/' {
        Seq::empty()
    } else {
        base_name_of(s.drop_last()).push(s.last())
    }
}

/// The base name is the suffix that starts right after the last separator.
proof fn lemma_base_name_suffix(s: Seq<char>, i: int)
    requires
        0 <= i <= s.len(),
        forall|j: int| i <= j < s.len() ==> s[j] != '/',
        i == 0 || s[i - 1] == '/',
    ensures
        base_name_of(s) == s.subrange(i, s.len() as int),
    decreases s.len(),
{
    if s.len() == 0 {
        assert(s.subrange(0, 0) =~= s);
    } else if i == s.len() {
        assert(s.last() == '/');
        assert(s.subrange(i, s.len() as int) =~= Seq::<char>::empty());
    } else {
        assert(s.last() != '/');
        lemma_base_name_suffix(s.drop_last(), i);
        assert(s.subrange(i, s.len() as int) =~= s.drop_last().subrange(
            i,
            s.len() - 1,
        ).push(s.last()));
    }
}

/// The base name of a path, used as the default local destination name.
pub fn base_name(s: &str) -> (r: String)
    ensures
        r@ == base_name_of(s@),
{
    let n = s.unicode_len();
    let mut i: usize = n;
    let mut stop = false;
    while !stop && i > 0
        invariant
            i <= n,
            n == s@.len(),
            forall|j: int| i <= j < n ==> s@[j] != '/',
            stop ==> i > 0 && s@[i - 1] == '/',
        decreases i, (if stop { 0int } else { 1int }),
    {
        if s.get_char(i - 1) == '/' {
            stop = true;
        } else {
            i = i - 1;
        }
    }
    proof {
        lemma_base_name_suffix(s@, i as int);
    }
    String::from_str(s.substring_char(i, n))
}

} // verus!
