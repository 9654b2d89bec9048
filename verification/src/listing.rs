//! Directory listings as the file tables show them: directories first, each
//! group by name, equal keys kept in listing order.
use vstd::prelude::*;
use crate::domain::{EntryKind, FileEntry};
use crate::drag::parent_entry_name;
use crate::paths::{local_parent_of, parent_path};

verus! {

broadcast use vstd::string::group_string_axioms;

/// What a file table reports after a frame: the entry double-clicked and
/// the entry clicked, by name.
pub struct FileTableResponse {
    pub double_clicked: Option<String>,
    pub clicked: Option<String>,
}

/// Strict lexicographic order of names, by character code (the order of
/// `str` comparison, UTF-8 preserving code point order).
pub open spec fn name_lt(a: Seq<char>, b: Seq<char>) -> bool
    decreases a.len(),
{
    if a.len() == 0 {
        b.len() > 0
    } else if b.len() == 0 {
        false
    } else if a[0] != b[0] {
        a[0] < b[0]
    } else {
        name_lt(a.drop_first(), b.drop_first())
    }
}

/// Directories sort before everything else.
pub open spec fn kind_rank(k: EntryKind) -> int {
    if k == EntryKind::Dir {
        0
    } else {
        1
    }
}

/// Whether `a` is shown strictly before `b` in a file table.
pub open spec fn entry_before(a: FileEntry, b: FileEntry) -> bool {
    kind_rank(a.kind) < kind_rank(b.kind) || (kind_rank(a.kind) == kind_rank(b.kind) && name_lt(
        a.name@,
        b.name@,
    ))
}

/// Position `x` of the listing comes before position `y` in the table:
/// by key, and by listing position among equal keys.
pub open spec fn index_before(e: Seq<FileEntry>, x: int, y: int) -> bool {
    entry_before(e[x], e[y]) || (!entry_before(e[y], e[x]) && x < y)
}

/// `p` lists every position of `e` once, in table order.
pub open spec fn is_table_order(e: Seq<FileEntry>, p: Seq<usize>) -> bool {
    &&& p.len() == e.len()
    &&& p.no_duplicates()
    &&& forall|k: int| 0 <= k < p.len() ==> p[k] < e.len()
    &&& forall|k: usize| k < e.len() ==> #[trigger] p.contains(k)
    &&& forall|x: int, y: int|
        0 <= x < y < p.len() ==> index_before(e, #[trigger] p[x] as int, #[trigger] p[y] as int)
}

/// `name_lt` is irreflexive.
pub proof fn lemma_name_lt_irreflexive(a: Seq<char>)
    ensures
        !name_lt(a, a),
    decreases a.len(),
{
    if a.len() > 0 {
        lemma_name_lt_irreflexive(a.drop_first());
    }
}

/// `name_lt` is transitive.
pub proof fn lemma_name_lt_transitive(a: Seq<char>, b: Seq<char>, c: Seq<char>)
    requires
        name_lt(a, b),
        name_lt(b, c),
    ensures
        name_lt(a, c),
    decreases a.len(),
{
    if a.len() > 0 && b.len() > 0 && c.len() > 0 && a[0] == b[0] && b[0] == c[0] {
        lemma_name_lt_transitive(a.drop_first(), b.drop_first(), c.drop_first());
    }
}

/// Two different names are ordered one way or the other.
pub proof fn lemma_name_lt_total(a: Seq<char>, b: Seq<char>)
    ensures
        a == b || name_lt(a, b) || name_lt(b, a),
    decreases a.len(),
{
    if a.len() > 0 && b.len() > 0 {
        if a[0] == b[0] {
            lemma_name_lt_total(a.drop_first(), b.drop_first());
            if a.drop_first() == b.drop_first() {
                assert(a =~= seq![a[0]] + a.drop_first());
                assert(b =~= seq![b[0]] + b.drop_first());
            }
        }
    } else if a.len() == 0 && b.len() == 0 {
        assert(a =~= b);
    }
}

/// Table order of positions is transitive.
pub proof fn lemma_index_before_transitive(e: Seq<FileEntry>, x: int, y: int, z: int)
    requires
        index_before(e, x, y),
        index_before(e, y, z),
    ensures
        index_before(e, x, z),
{
    let (a, b, c) = (e[x], e[y], e[z]);
    if kind_rank(a.kind) == kind_rank(b.kind) && kind_rank(b.kind) == kind_rank(c.kind) {
        lemma_name_lt_total(a.name@, b.name@);
        lemma_name_lt_total(b.name@, c.name@);
        lemma_name_lt_total(a.name@, c.name@);
        if name_lt(a.name@, b.name@) && name_lt(b.name@, c.name@) {
            lemma_name_lt_transitive(a.name@, b.name@, c.name@);
        }
        if name_lt(c.name@, a.name@) && name_lt(a.name@, b.name@) {
            lemma_name_lt_transitive(c.name@, a.name@, b.name@);
        }
        if name_lt(b.name@, c.name@) && name_lt(c.name@, a.name@) {
            lemma_name_lt_transitive(b.name@, c.name@, a.name@);
        }
        lemma_name_lt_irreflexive(a.name@);
        lemma_name_lt_irreflexive(b.name@);
    }
}

/// Table order of positions is total on different positions.
pub proof fn lemma_index_before_total(e: Seq<FileEntry>, x: int, y: int)
    requires
        x != y,
    ensures
        index_before(e, x, y) || index_before(e, y, x),
{
}

/// Table order of positions is irreflexive.
pub proof fn lemma_index_before_irreflexive(e: Seq<FileEntry>, x: int)
    ensures
        !index_before(e, x, x),
{
    lemma_name_lt_irreflexive(e[x].name@);
}

/// In table order, no directory comes after a non-directory.
pub proof fn lemma_directories_first(e: Seq<FileEntry>, p: Seq<usize>, x: int, y: int)
    requires
        is_table_order(e, p),
        0 <= x < y < p.len(),
        e[p[y] as int].kind == EntryKind::Dir,
    ensures
        e[p[x] as int].kind == EntryKind::Dir,
{
    assert(index_before(e, p[x] as int, p[y] as int));
}

/// When every entry is a directory (as in the folder tree), table order is
/// order by name, listing order among equal names.
pub proof fn lemma_all_dirs_by_name(e: Seq<FileEntry>, p: Seq<usize>, x: int, y: int)
    requires
        is_table_order(e, p),
        forall|k: int| 0 <= k < e.len() ==> (#[trigger] e[k]).kind == EntryKind::Dir,
        0 <= x < y < p.len(),
    ensures
        name_lt(e[p[x] as int].name@, e[p[y] as int].name@) || (e[p[x] as int].name@ == e[p[
            y
        ] as int].name@ && p[x] < p[y]),
{
    assert(index_before(e, p[x] as int, p[y] as int));
    let (a, b) = (e[p[x] as int].name@, e[p[y] as int].name@);
    lemma_name_lt_total(a, b);
}

/// The positions placed before position `x` of a table order are exactly
/// those that come before the one at `x`.
proof fn lemma_placed_before(e: Seq<FileEntry>, p: Seq<usize>, x: int)
    requires
        is_table_order(e, p),
        0 <= x < p.len(),
    ensures
        p.take(x).to_set() == Set::new(
            |w: usize| w < e.len() && index_before(e, w as int, p[x] as int),
        ),
{
    let v = p[x] as int;
    assert forall|w: usize| p.take(x).to_set().contains(w) implies w < e.len() && index_before(
        e,
        w as int,
        v,
    ) by {
        let z = choose|z: int| 0 <= z < p.take(x).len() && p.take(x)[z] == w;
        assert(p[z] == w);
        assert(index_before(e, p[z] as int, p[x] as int));
    }
    assert forall|w: usize| w < e.len() && index_before(e, w as int, v) implies p.take(
        x,
    ).to_set().contains(w) by {
        assert(p.contains(w));
        let z = choose|z: int| 0 <= z < p.len() && p[z] == w;
        if z == x {
            lemma_index_before_irreflexive(e, v);
        } else if z > x {
            assert(index_before(e, p[x] as int, p[z] as int));
            lemma_index_before_transitive(e, v, w as int, v);
            lemma_index_before_irreflexive(e, v);
        } else {
            assert(p.take(x)[z] == w);
        }
    }
    assert(p.take(x).to_set() =~= Set::new(
        |w: usize| w < e.len() && index_before(e, w as int, v),
    ));
}

/// A listing has only one table order: the order in which the tables show
/// entries is fully determined.
pub proof fn lemma_table_order_unique(e: Seq<FileEntry>, p: Seq<usize>, q: Seq<usize>)
    requires
        is_table_order(e, p),
        is_table_order(e, q),
    ensures
        p == q,
{
    assert forall|k: int| 0 <= k < p.len() implies p[k] == q[k] by {
        let v = p[k];
        assert(q.contains(v));
        let y = choose|y: int| 0 <= y < q.len() && q[y] == v;
        lemma_placed_before(e, p, k);
        lemma_placed_before(e, q, y);
        assert(p.take(k).no_duplicates());
        assert(q.take(y).no_duplicates());
        p.take(k).unique_seq_to_set();
        q.take(y).unique_seq_to_set();
    }
    assert(p =~= q);
}

/// Decides `name_lt`.
pub fn name_less(a: &str, b: &str) -> (r: bool)
    ensures
        r == name_lt(a@, b@),
{
    let n = a.unicode_len();
    let m = b.unicode_len();
    let mut i: usize = 0;
    assert(a@.skip(0) =~= a@);
    assert(b@.skip(0) =~= b@);
    while i < n && i < m && a.get_char(i) == b.get_char(i)
        invariant
            n == a@.len(),
            m == b@.len(),
            i <= n,
            i <= m,
            name_lt(a@, b@) == name_lt(a@.skip(i as int), b@.skip(i as int)),
        decreases n - i,
    {
        assert(a@.skip(i as int).drop_first() =~= a@.skip(i + 1));
        assert(b@.skip(i as int).drop_first() =~= b@.skip(i + 1));
        i = i + 1;
    }
    if i == n {
        i < m
    } else if i == m {
        false
    } else {
        let ca = a.get_char(i);
        let cb = b.get_char(i);
        assert(a@.skip(i as int)[0] == ca);
        assert(b@.skip(i as int)[0] == cb);
        ca < cb
    }
}

fn is_dir(k: EntryKind) -> (r: bool)
    ensures
        r == (k == EntryKind::Dir),
{
    match k {
        EntryKind::Dir => true,
        _ => false,
    }
}

/// Decides `entry_before`.
pub fn entry_is_before(a: &FileEntry, b: &FileEntry) -> (r: bool)
    ensures
        r == entry_before(*a, *b),
{
    let ra = is_dir(a.kind);
    let rb = is_dir(b.kind);
    if ra && !rb {
        true
    } else if !ra && rb {
        false
    } else {
        name_less(a.name.as_str(), b.name.as_str())
    }
}

/// The order in which a file table shows `entries`: the positions of the
/// listing, directories first, by name within each group, and in listing
/// order where two entries compare equal (a stable sort).
pub fn table_order(entries: &Vec<FileEntry>) -> (p: Vec<usize>)
    ensures
        is_table_order(entries@, p@),
{
    let ghost e = entries@;
    let mut order: Vec<usize> = Vec::new();
    let mut i: usize = 0;
    while i < entries.len()
        invariant
            e == entries@,
            i <= e.len(),
            order@.len() == i,
            order@.no_duplicates(),
            forall|k: int| 0 <= k < order@.len() ==> order@[k] < i,
            forall|k: usize| k < i ==> #[trigger] order@.contains(k),
            forall|x: int, y: int|
                0 <= x < y < order@.len() ==> index_before(
                    e,
                    #[trigger] order@[x] as int,
                    #[trigger] order@[y] as int,
                ),
        decreases e.len() - i,
    {
        let mut k: usize = i;
        while k > 0 && entry_is_before(&entries[i], &entries[order[k - 1]])
            invariant
                e == entries@,
                i < e.len(),
                order@.len() == i,
                k <= i,
                forall|j: int| 0 <= j < order@.len() ==> order@[j] < i,
                forall|m: int| k <= m < i ==> entry_before(e[i as int], e[#[trigger] order@[m] as int]),
            decreases k,
        {
            k = k - 1;
        }
        let ghost old_order = order@;
        proof {
            assert forall|m: int| 0 <= m < k implies index_before(
                e,
                #[trigger] old_order[m] as int,
                i as int,
            ) by {
                let last = old_order[k - 1] as int;
                assert(index_before(e, last, i as int));
                if m < k - 1 {
                    assert(index_before(e, old_order[m] as int, last));
                    lemma_index_before_transitive(e, old_order[m] as int, last, i as int);
                }
            }
        }
        order.insert(k, i);
        proof {
            let o = order@;
            assert(o == old_order.insert(k as int, i));
            assert forall|x: int, y: int| 0 <= x < y < o.len() implies index_before(
                e,
                #[trigger] o[x] as int,
                #[trigger] o[y] as int,
            ) by {
                if x < k && y < k {
                    assert(o[x] == old_order[x] && o[y] == old_order[y]);
                } else if x < k && y == k {
                } else if x < k {
                    assert(o[y] == old_order[y - 1]);
                    assert(index_before(e, old_order[x] as int, i as int));
                    assert(entry_before(e[i as int], e[old_order[y - 1] as int]));
                    lemma_index_before_transitive(e, old_order[x] as int, i as int, old_order[y - 1] as int);
                } else if x == k {
                    assert(o[y] == old_order[y - 1]);
                } else {
                    assert(o[x] == old_order[x - 1] && o[y] == old_order[y - 1]);
                }
            }
            assert forall|j: usize| j < i + 1 implies #[trigger] o.contains(j) by {
                if j < i {
                    assert(old_order.contains(j));
                    let w = choose|w: int| 0 <= w < old_order.len() && old_order[w] == j;
                    if w < k {
                        assert(o[w] == j);
                    } else {
                        assert(o[w + 1] == j);
                    }
                } else {
                    assert(o[k as int] == i);
                }
            }
            assert forall|x: int, y: int| 0 <= x < o.len() && 0 <= y < o.len() && x != y implies o[x]
                != o[y] by {
                if x != k && y != k {
                    let xo = if x < k { x } else { x - 1 };
                    let yo = if y < k { y } else { y - 1 };
                    assert(o[x] == old_order[xo] && o[y] == old_order[yo]);
                }
            }
        }
        i = i + 1;
    }
    order
}

/// The entries of `e` in the order `p`.
pub open spec fn arranged(e: Seq<FileEntry>, p: Seq<usize>) -> Seq<FileEntry> {
    Seq::new(p.len(), |k: int| e[p[k] as int])
}

/// The entries as a file table shows them.
pub fn sorted_for_table(entries: &Vec<FileEntry>) -> (r: Vec<FileEntry>)
    ensures
        exists|p: Seq<usize>| is_table_order(entries@, p) && r@ == arranged(entries@, p),
{
    let p = table_order(entries);
    let mut r: Vec<FileEntry> = Vec::new();
    let mut k: usize = 0;
    while k < p.len()
        invariant
            is_table_order(entries@, p@),
            k <= p@.len(),
            r@ == arranged(entries@, p@).take(k as int),
        decreases p@.len() - k,
    {
        r.push(entries[p[k]].copy());
        assert(r@ =~= arranged(entries@, p@).take(k + 1));
        k = k + 1;
    }
    assert(r@ =~= arranged(entries@, p@));
    r
}

/// The ".." entry leading from `path` to its parent.
pub open spec fn parent_entry_of(path: Seq<char>, e: FileEntry) -> bool {
    &&& e.name@ == parent_entry_name()
    &&& e.path@ == local_parent_of(path)
    &&& e.kind == EntryKind::Dir
    &&& e.size is None
    &&& e.modified is None
    &&& e.permissions is None
}

/// The ".." entry shown at the top of a local listing.
pub fn make_parent_entry(path: &str) -> (r: FileEntry)
    ensures
        parent_entry_of(path@, r),
{
    let name = "..".to_string();
    proof {
        reveal_strlit("..");
        assert(name@ =~= parent_entry_name());
    }
    FileEntry {
        name,
        path: parent_path(path),
        kind: EntryKind::Dir,
        size: None,
        modified: None,
        permissions: None,
    }
}

} // verus!
