//! Path arithmetic on the remote (always `/`-separated) and local sides.
use vstd::prelude::*;
use crate::text::{push_char, push_str, trim_end_char};

verus! {

broadcast use vstd::string::group_string_axioms;

/// Index of the last occurrence of `c` in `s`, or -1 when there is none.
pub open spec fn last_index_of(s: Seq<char>, c: char) -> int
    decreases s.len(),
{
    if s.len() == 0 {
        -1
    } else if s.last() == c {
        s.len() - 1
    } else {
        last_index_of(s.drop_last(), c)
    }
}

/// The parent directory of a remote path: trailing slashes are ignored,
/// the last component is dropped, and the root stands for every path that
/// has no parent of its own.
pub open spec fn remote_parent_of(p: Seq<char>) -> Seq<char> {
    let t = trim_end_char(p, '/');
    let i = last_index_of(t, '/');
    if i <= 0 {
        seq!['/']
    } else {
        t.take(i)
    }
}

/// The string "/".
pub fn root_text() -> (r: String)
    ensures
        r@ == seq!['/'],
{
    let r = "/".to_string();
    proof {
        reveal_strlit("/");
    }
    r
}

/// Parent of a remote directory, as shown by the ".." entry of the remote pane.
pub fn remote_parent(path: &str) -> (r: String)
    ensures
        r@ == remote_parent_of(path@),
{
    let n = path.unicode_len();
    let mut end: usize = n;
    assert(path@.take(n as int) =~= path@);
    while end > 0 && path.get_char(end - 1) == '/'
        invariant
            n == path@.len(),
            end <= n,
            trim_end_char(path@.take(end as int), '/') == trim_end_char(path@, '/'),
        decreases end,
    {
        assert(path@.take(end as int).drop_last() =~= path@.take(end - 1));
        end = end - 1;
    }
    let ghost t = path@.take(end as int);
    assert(trim_end_char(t, '/') == t);
    let mut k: usize = end;
    assert(t.take(end as int) =~= t);
    while k > 0 && path.get_char(k - 1) != '/'
        invariant
            n == path@.len(),
            k <= end <= n,
            t == path@.take(end as int),
            last_index_of(t, '/') == last_index_of(t.take(k as int), '/'),
        decreases k,
    {
        assert(t.take(k as int).drop_last() =~= t.take(k - 1));
        k = k - 1;
    }
    if k <= 1 {
        root_text()
    } else {
        let r = path.substring_char(0, k - 1).to_string();
        assert(r@ =~= t.take(k - 1));
        r
    }
}

/// `base` with its trailing slashes removed, then "/" and `name`: the
/// destination of a file named `name` dropped into directory `base`.
pub open spec fn join_path_of(base: Seq<char>, name: Seq<char>) -> Seq<char> {
    trim_end_char(base, '/').push('/') + name
}

/// Joins a directory and a file name with a single "/" between them.
pub fn join_path(base: &str, name: &str) -> (r: String)
    ensures
        r@ == join_path_of(base@, name@),
{
    let n = base.unicode_len();
    let mut end: usize = n;
    assert(base@.take(n as int) =~= base@);
    while end > 0 && base.get_char(end - 1) == '/'
        invariant
            n == base@.len(),
            end <= n,
            trim_end_char(base@.take(end as int), '/') == trim_end_char(base@, '/'),
        decreases end,
    {
        assert(base@.take(end as int).drop_last() =~= base@.take(end - 1));
        end = end - 1;
    }
    let mut r = base.substring_char(0, end).to_string();
    assert(r@ =~= base@.take(end as int));
    push_char(&mut r, '/');
    push_str(&mut r, name);
    r
}

/// What std's `Path::parent` gives for a path written as `path`, read back
/// as text (`None` when the path has no parent).
pub uninterp spec fn std_path_parent(path: Seq<char>) -> Option<Seq<char>>;

/// Trusted: `std::path::Path::new(path).parent()`, converted back to text
/// with `to_string_lossy` (lossless here, the path being valid UTF-8).
/// std documents that `parent` returns `None` for the empty path and for a
/// path that ends in a root, such as "/"; the contract states those two
/// facts and names the result otherwise.
#[verifier::external_body]
fn path_parent(path: &str) -> (r: Option<String>)
    ensures
        (match r {
            Some(p) => Some(p@),
            None => None,
        }) == std_path_parent(path@),
        path@.len() == 0 ==> r is None,
        path@ == seq!['/'] ==> r is None,
{
    match std::path::Path::new(path).parent() {
        Some(p) => Some(p.to_string_lossy().to_string()),
        None => None,
    }
}

/// The parent of a local path, or the path itself where it has none.
pub open spec fn local_parent_of(path: Seq<char>) -> Seq<char> {
    match std_path_parent(path) {
        Some(p) => p,
        None => path,
    }
}

/// Parent of a local directory, as used by the ".." entry of the local pane.
/// A path with no parent (the empty path, the root) comes back unchanged.
pub fn parent_path(path: &str) -> (r: String)
    ensures
        r@ == local_parent_of(path@),
        path@.len() == 0 ==> r@ == path@,
        path@ == seq!['/'] ==> r@ == path@,
{
    match path_parent(path) {
        Some(p) => p,
        None => path.to_string(),
    }
}

/// Whether `s` begins with `p`.
pub fn starts_with(s: &str, p: &str) -> (r: bool)
    ensures
        r == p@.is_prefix_of(s@),
{
    let n = p.unicode_len();
    if n > s.unicode_len() {
        return false;
    }
    let mut i: usize = 0;
    while i < n
        invariant
            n == p@.len(),
            n <= s@.len(),
            i <= n,
            forall|j: int| 0 <= j < i ==> p@[j] == s@[j],
        decreases n - i,
    {
        if p.get_char(i) != s.get_char(i) {
            return false;
        }
        i = i + 1;
    }
    true
}

/// Whether the folder `dir` is, or lies on the way to, the current
/// directory `current` (component-wise: "/a" lies on the way to "/a/b" but
/// not to "/ab"; the root only matches itself).
pub open spec fn on_path_to(current: Seq<char>, dir: Seq<char>) -> bool {
    current == dir || (dir != seq!['/'] && dir.is_prefix_of(current) && current.len() > dir.len()
        && current[dir.len() as int] == '/')
}

/// Decides `on_path_to` for the folder tree's highlight.
pub fn is_on_path_to(current: &str, dir: &str) -> (r: bool)
    ensures
        r == on_path_to(current@, dir@),
{
    proof {
        reveal_strlit("/");
        assert("/"@ =~= seq!['/']);
    }
    if crate::text::text_eq(current, dir) {
        return true;
    }
    if crate::text::text_eq(dir, "/") {
        return false;
    }
    if !starts_with(current, dir) {
        return false;
    }
    let n = dir.unicode_len();
    n < current.unicode_len() && current.get_char(n) == '/'
}

/// Trimming trailing characters leaves a prefix.
pub proof fn lemma_trim_is_prefix(s: Seq<char>, c: char)
    ensures
        trim_end_char(s, c).is_prefix_of(s),
        trim_end_char(s, c).len() > 0 ==> trim_end_char(s, c).last() != c,
    decreases s.len(),
{
    if s.len() > 0 && s.last() == c {
        lemma_trim_is_prefix(s.drop_last(), c);
    }
}

/// The last occurrence is an occurrence, and nothing after it is one.
pub proof fn lemma_last_index_of(s: Seq<char>, c: char)
    ensures
        -1 <= last_index_of(s, c) < s.len(),
        last_index_of(s, c) >= 0 ==> s[last_index_of(s, c)] == c,
        forall|j: int| last_index_of(s, c) < j < s.len() ==> s[j] != c,
    decreases s.len(),
{
    if s.len() > 0 && s.last() != c {
        lemma_last_index_of(s.drop_last(), c);
        assert forall|j: int| last_index_of(s, c) < j < s.len() implies s[j] != c by {
            if j < s.len() - 1 {
                assert(s.drop_last()[j] == s[j]);
            }
        }
    }
}

/// Appending text free of `c` does not move the last occurrence of `c`.
pub proof fn lemma_last_index_of_append(s: Seq<char>, t: Seq<char>, c: char)
    requires
        forall|j: int| 0 <= j < t.len() ==> t[j] != c,
    ensures
        last_index_of(s + t, c) == last_index_of(s, c),
    decreases t.len(),
{
    if t.len() > 0 {
        assert((s + t).drop_last() =~= s + t.drop_last());
        lemma_last_index_of_append(s, t.drop_last(), c);
    } else {
        assert(s + t =~= s);
    }
}

/// Going up from a remote path gives a non-empty path: the root, or a
/// proper prefix of the path shorter than the path without its trailing
/// slashes, so that going up repeatedly ends at the root. The root is its
/// own parent, and trailing slashes make no difference.
pub proof fn lemma_remote_parent_goes_up(p: Seq<char>)
    ensures
        remote_parent_of(p).len() > 0,
        remote_parent_of(p) == seq!['/'] || (remote_parent_of(p).is_prefix_of(p) && remote_parent_of(
            p,
        ).len() < trim_end_char(p, '/').len()),
        remote_parent_of(seq!['/']) == seq!['/'],
        remote_parent_of(p.push('/')) == remote_parent_of(p),
{
    let t = trim_end_char(p, '/');
    lemma_trim_is_prefix(p, '/');
    lemma_last_index_of(t, '/');
    assert(seq!['/'].drop_last() =~= Seq::<char>::empty());
    assert(trim_end_char(seq!['/'], '/') == trim_end_char(Seq::<char>::empty(), '/'));
    assert(last_index_of(trim_end_char(seq!['/'], '/'), '/') == -1);
    assert(p.push('/').drop_last() =~= p);
}

/// Going up from a file dropped into a directory leads back to that
/// directory (as written without trailing slashes; the root when that is
/// empty), for any file name that is not empty and holds no "/".
pub proof fn lemma_remote_parent_undoes_join(base: Seq<char>, name: Seq<char>)
    requires
        name.len() > 0,
        forall|j: int| 0 <= j < name.len() ==> name[j] != '/',
    ensures
        remote_parent_of(join_path_of(base, name)) == if trim_end_char(base, '/').len() == 0 {
            seq!['/']
        } else {
            trim_end_char(base, '/')
        },
{
    let b = trim_end_char(base, '/');
    let j = join_path_of(base, name);
    assert(j.last() == name.last());
    assert(trim_end_char(j, '/') == j);
    lemma_last_index_of_append(b.push('/'), name, '/');
    assert(last_index_of(b.push('/'), '/') == b.len());
    assert(j.take(b.len() as int) =~= b);
}

/// Trailing slashes of the directory make no difference to where a file
/// dropped into it goes.
pub proof fn lemma_join_ignores_trailing_slashes(base: Seq<char>, name: Seq<char>)
    ensures
        join_path_of(base.push('/'), name) == join_path_of(base, name),
{
    assert(base.push('/').drop_last() =~= base);
}

} // verus!
