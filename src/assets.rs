//! Where each asset of a template collection is written: the file path under
//! the destination directory and the directory that must exist first.
use vstd::prelude::*;

verus! {

/// `rel` joined onto `dir` with one `/` between them.
pub open spec fn joined(dir: Seq<char>, rel: Seq<char>) -> Seq<char> {
    if dir.len() == 0 {
        rel
    } else if dir.last() == '/' {
        dir + rel
    } else {
        dir + seq!['/'] + rel
    }
}

/// `k` is the position of the last `/` of `p`.
pub open spec fn is_last_slash(p: Seq<char>, k: int) -> bool {
    &&& 0 <= k < p.len()
    &&& p[k] == '/'
    &&& forall|j: int| k < j < p.len() ==> p[j] != '/'
}

/// The directory part of `p`: what stands before its last `/`, or nothing
/// where `p` has no `/`.
pub open spec fn is_parent(p: Seq<char>, d: Seq<char>) -> bool {
    if exists|k: int| is_last_slash(p, k) {
        exists|k: int| is_last_slash(p, k) && d == p.subrange(0, k)
    } else {
        d.len() == 0
    }
}

/// Where one asset goes.
#[derive(Debug)]
pub struct FileTarget {
    /// The directory to create (with its parents) before writing.
    pub dir: String,
    /// The file to write the asset's content to.
    pub path: String,
}

/// `rel` joined onto `dir` with one `/` between them.
pub fn join_path(dir: &str, rel: &str) -> (r: String)
    ensures
        r@ == joined(dir@, rel@),
{
    let mut r = String::from_str(dir);
    let n = dir.unicode_len();
    if n > 0 && dir.get_char(n - 1) != '/' {
        proof {
            reveal_strlit("/");
        }
        r.append("/");
    }
    r.append(rel);
    r
}

/// The directory part of `path`: what stands before its last `/`.
pub fn parent_dir(path: &str) -> (r: String)
    ensures
        is_parent(path@, r@),
{
    let n = path.unicode_len();
    let mut i: usize = n;
    while i > 0
        invariant
            0 <= i <= n,
            n == path@.len(),
            forall|j: int| i <= j < n ==> path@[j] != '/',
        decreases i,
    {
        if path.get_char(i - 1) == '/' {
            let r = String::from_str(path.substring_char(0, i - 1));
            assert(is_last_slash(path@, i - 1));
            return r;
        }
        i -= 1;
    }
    proof {
        reveal_strlit("");
    }
    String::from_str("")
}

/// Where each asset of `paths` (relative paths) goes under `dest`, in order.
pub fn plan_materialize(dest: &str, paths: &Vec<String>) -> (r: Vec<FileTarget>)
    ensures
        r@.len() == paths@.len(),
        forall|k: int|
            0 <= k < paths@.len() ==> {
                &&& (#[trigger] r@[k]).path@ == joined(dest@, paths@[k]@)
                &&& is_parent(r@[k].path@, r@[k].dir@)
            },
{
    let mut r: Vec<FileTarget> = Vec::new();
    let mut k: usize = 0;
    while k < paths.len()
        invariant
            0 <= k <= paths@.len(),
            r@.len() == k,
            forall|m: int|
                0 <= m < k ==> {
                    &&& (#[trigger] r@[m]).path@ == joined(dest@, paths@[m]@)
                    &&& is_parent(r@[m].path@, r@[m].dir@)
                },
        decreases paths@.len() - k,
    {
        let path = join_path(dest, paths[k].as_str());
        let dir = parent_dir(path.as_str());
        r.push(FileTarget { dir, path });
        k += 1;
    }
    r
}

/// Distinct relative paths go to distinct files under one destination, so a
/// collection of N distinct paths gives N distinct files.
pub proof fn lemma_joined_injective(dest: Seq<char>, a: Seq<char>, b: Seq<char>)
    requires
        joined(dest, a) == joined(dest, b),
    ensures
        a == b,
{
    let pre = if dest.len() == 0 {
        dest
    } else if dest.last() == '/' {
        dest
    } else {
        dest + seq!['/']
    };
    assert(joined(dest, a) == pre + a);
    assert(joined(dest, b) == pre + b);
    assert(a =~= (pre + a).subrange(pre.len() as int, (pre + a).len() as int));
    assert(b =~= (pre + b).subrange(pre.len() as int, (pre + b).len() as int));
}

proof fn lemma_last_slash_exists(p: Seq<char>, i: int)
    requires
        0 <= i < p.len(),
        p[i] == '/',
    ensures
        exists|k: int| i <= k && is_last_slash(p, k),
    decreases p.len() - i,
{
    if exists|j: int| i < j < p.len() && p[j] == '/' {
        let j = choose|j: int| i < j < p.len() && p[j] == '/';
        lemma_last_slash_exists(p, j);
    } else {
        assert(is_last_slash(p, i));
    }
}

/// A file under a non-empty destination lies in a directory that starts
/// with the destination: the directory to create is the destination itself
/// or one below it.
pub proof fn lemma_parent_under_dest(dest: Seq<char>, rel: Seq<char>, d: Seq<char>)
    requires
        dest.len() > 0,
        dest.last() != '/',
        is_parent(joined(dest, rel), d),
    ensures
        d.len() >= dest.len(),
        d.subrange(0, dest.len() as int) == dest,
{
    let p = joined(dest, rel);
    let n = dest.len() as int;
    assert(p[n] == '/');
    lemma_last_slash_exists(p, n);
    let k = choose|k: int| is_last_slash(p, k) && d == p.subrange(0, k);
    if k < n {
        assert(p[n] != '/');
    }
    assert(d.subrange(0, n) =~= dest);
}

} // verus!
