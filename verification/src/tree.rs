//! The local folder tree: which folders have been listed, which are
//! unfolded, and which one is highlighted.
use vstd::prelude::*;
use crate::domain::{EntryKind, FileEntry};
use crate::listing::{arranged, is_table_order, sorted_for_table};
use crate::paths::{is_on_path_to, on_path_to, starts_with};
use crate::state::{AppState, TreeFolder};
use crate::text::text_eq;

verus! {

/// The directories of a listing, in listing order.
pub open spec fn only_dirs(s: Seq<FileEntry>) -> Seq<FileEntry> {
    s.filter(|e: FileEntry| e.kind == EntryKind::Dir)
}

/// Whether the subfolders of `path` have been listed.
pub open spec fn is_cached(folders: Seq<TreeFolder>, path: Seq<char>) -> bool {
    exists|i: int| 0 <= i < folders.len() && folders[i].path@ == path
}

/// Whether the folder `path` is unfolded.
pub open spec fn is_unfolded(expanded: Seq<String>, path: Seq<char>) -> bool {
    exists|i: int| 0 <= i < expanded.len() && expanded[i]@ == path
}

/// `after` unfolds exactly the folders `before` unfolds, except `path`,
/// whose state is the opposite.
pub open spec fn unfolding_flipped(before: Seq<String>, after: Seq<String>, path: Seq<char>) -> bool {
    &&& is_unfolded(after, path) == !is_unfolded(before, path)
    &&& forall|q: Seq<char>| q != path ==> is_unfolded(after, q) == is_unfolded(before, q)
}

/// Clicking a folder's arrow twice leaves every folder as it was.
pub proof fn lemma_toggle_twice(a: Seq<String>, b: Seq<String>, c: Seq<String>, path: Seq<char>)
    requires
        unfolding_flipped(a, b, path),
        unfolding_flipped(b, c, path),
    ensures
        forall|q: Seq<char>| is_unfolded(c, q) == is_unfolded(a, q),
{
    assert forall|q: Seq<char>| is_unfolded(c, q) == is_unfolded(a, q) by {
        if q != path {
            assert(is_unfolded(b, q) == is_unfolded(a, q));
        }
    }
}

/// Once a folder has been listed, listing it again changes nothing: the
/// new folder is recorded under its path.
pub proof fn lemma_refresh_tree_records(before: Seq<TreeFolder>, after: Seq<TreeFolder>, path: Seq<char>)
    requires
        after.len() == before.len() + 1,
        after.drop_last() == before,
        after.last().path@ == path,
    ensures
        is_cached(after, path),
        forall|q: Seq<char>| is_cached(before, q) ==> is_cached(after, q),
{
    assert(after[after.len() - 1].path@ == path);
    assert forall|q: Seq<char>| is_cached(before, q) implies is_cached(after, q) by {
        let i = choose|i: int| 0 <= i < before.len() && before[i].path@ == q;
        assert(after.drop_last()[i] == after[i]);
    }
}

/// Each folder is listed once, and only directories are kept.
pub open spec fn tree_well_formed(folders: Seq<TreeFolder>) -> bool {
    &&& forall|i: int, j: int|
        0 <= i < j < folders.len() ==> folders[i].path@ != folders[j].path@
    &&& forall|i: int, k: int|
        0 <= i < folders.len() && 0 <= k < folders[i].dirs@.len() ==> (
        #[trigger] folders[i].dirs@[k]).kind == EntryKind::Dir
}

fn find_folder(folders: &Vec<TreeFolder>, path: &str) -> (r: Option<usize>)
    ensures
        match r {
            Some(i) => i < folders@.len() && folders@[i as int].path@ == path@,
            None => !is_cached(folders@, path@),
        },
{
    let mut i: usize = 0;
    while i < folders.len()
        invariant
            i <= folders@.len(),
            forall|j: int| 0 <= j < i ==> folders@[j].path@ != path@,
        decreases folders@.len() - i,
    {
        if text_eq(folders[i].path.as_str(), path) {
            return Some(i);
        }
        i = i + 1;
    }
    None
}

/// Whether `path` still has to be listed before its subfolders can be shown.
pub fn tree_needs_listing(state: &AppState, path: &str) -> (r: bool)
    ensures
        r == !is_cached(state.tree_children@, path@),
{
    find_folder(&state.tree_children, path).is_none()
}

/// Takes in the listing of `path` for the tree (a failed listing counts as
/// empty). A folder already listed is kept as it was; otherwise its
/// directories are recorded, in listing order. A well-formed tree stays
/// well formed.
pub fn refresh_tree(state: &mut AppState, path: &str, listing: Result<Vec<FileEntry>, String>)
    ensures
        tree_well_formed(old(state).tree_children@) ==> tree_well_formed(final(state).tree_children@),
        is_cached(old(state).tree_children@, path@) ==> *final(state) == *old(state),
        !is_cached(old(state).tree_children@, path@) ==> {
            &&& *final(state) == (AppState { tree_children: final(state).tree_children, ..*old(state) })
            &&& final(state).tree_children@.len() == old(state).tree_children@.len() + 1
            &&& final(state).tree_children@.drop_last() == old(state).tree_children@
            &&& final(state).tree_children@.last().path@ == path@
            &&& final(state).tree_children@.last().dirs@ == match listing {
                Ok(list) => only_dirs(list@),
                Err(_) => Seq::empty(),
            }
        },
{
    if find_folder(&state.tree_children, path).is_some() {
        return;
    }
    let ghost given = listing;
    let mut dirs: Vec<FileEntry> = Vec::new();
    match listing {
        Ok(list) => {
            let mut i: usize = 0;
            while i < list.len()
                invariant
                    i <= list@.len(),
                    dirs@ == only_dirs(list@.take(i as int)),
                decreases list@.len() - i,
            {
                proof {
                    reveal(Seq::filter);
                    assert(list@.take(i + 1).drop_last() =~= list@.take(i as int));
                }
                if list[i].kind == EntryKind::Dir {
                    dirs.push(list[i].copy());
                }
                i = i + 1;
            }
            assert(list@.take(list@.len() as int) =~= list@);
        },
        Err(_) => {},
    }
    let ghost before = state.tree_children@;
    state.tree_children.push(TreeFolder { path: path.to_string(), dirs });
    assert(state.tree_children@.drop_last() =~= before);
    proof {
        if tree_well_formed(before) {
            let listed = match given {
                Ok(list) => list@,
                Err(_) => Seq::empty(),
            };
            lemma_refresh_tree_keeps_well_formed(before, state.tree_children@, path@, listed);
        }
    }
}

/// Recording a new folder keeps the tree well formed.
pub proof fn lemma_refresh_tree_keeps_well_formed(
    before: Seq<TreeFolder>,
    after: Seq<TreeFolder>,
    path: Seq<char>,
    listing: Seq<FileEntry>,
)
    requires
        tree_well_formed(before),
        !is_cached(before, path),
        after.len() == before.len() + 1,
        after.drop_last() == before,
        after.last().path@ == path,
        after.last().dirs@ == only_dirs(listing) || after.last().dirs@ == Seq::<FileEntry>::empty(),
    ensures
        tree_well_formed(after),
{
    broadcast use vstd::seq_lib::group_filter_ensures;

    assert forall|i: int| 0 <= i < before.len() implies after[i] == before[i] by {
        assert(after.drop_last()[i] == after[i]);
    }
    assert forall|i: int, k: int|
        0 <= i < after.len() && 0 <= k < after[i].dirs@.len() implies (
        #[trigger] after[i].dirs@[k]).kind == EntryKind::Dir by {
        if i == before.len() && after.last().dirs@ == only_dirs(listing) {
            listing.lemma_filter_pred(|e: FileEntry| e.kind == EntryKind::Dir, k);
        }
    }
}

/// A click on a folder's arrow: folds or unfolds it, once it has been
/// listed; an unlisted folder has no arrow to click.
pub fn toggle_folder(state: &mut AppState, path: &str)
    ensures
        !is_cached(old(state).tree_children@, path@) ==> *final(state) == *old(state),
        is_cached(old(state).tree_children@, path@) ==> {
            &&& *final(state) == (AppState { tree_expanded: final(state).tree_expanded, ..*old(state) })
            &&& unfolding_flipped(old(state).tree_expanded@, final(state).tree_expanded@, path@)
        },
{
    if find_folder(&state.tree_children, path).is_none() {
        return;
    }
    let mut kept: Vec<String> = Vec::new();
    let mut was_open = false;
    let mut i: usize = 0;
    while i < state.tree_expanded.len()
        invariant
            i <= old(state).tree_expanded@.len(),
            *state == *old(state),
            was_open == is_unfolded(old(state).tree_expanded@.take(i as int), path@),
            forall|q: Seq<char>| #![trigger is_unfolded(kept@, q)]
                q != path@ ==> is_unfolded(kept@, q) == is_unfolded(
                    old(state).tree_expanded@.take(i as int),
                    q,
                ),
            !is_unfolded(kept@, path@),
        decreases old(state).tree_expanded@.len() - i,
    {
        let ghost pre = old(state).tree_expanded@.take(i as int);
        let ghost post = old(state).tree_expanded@.take(i + 1);
        assert(post =~= pre.push(old(state).tree_expanded@[i as int]));
        let ghost kept_before = kept@;
        if text_eq(state.tree_expanded[i].as_str(), path) {
            was_open = true;
            proof {
                assert(is_unfolded(post, path@)) by {
                    assert(post[i as int]@ == path@);
                }
            }
        } else {
            kept.push(state.tree_expanded[i].clone());
        }
        proof {
            assert(forall|w: int| 0 <= w < kept_before.len() ==> kept@[w] == kept_before[w]);
            assert(forall|j: int| 0 <= j < pre.len() ==> post[j] == pre[j]);
            assert forall|q: Seq<char>| #![trigger is_unfolded(kept@, q)]
                q != path@ implies is_unfolded(kept@, q) == is_unfolded(post, q) by {
                if is_unfolded(post, q) {
                    let j = choose|j: int| 0 <= j < post.len() && post[j]@ == q;
                    if j < i {
                        assert(pre[j]@ == q);
                        assert(is_unfolded(pre, q));
                        assert(is_unfolded(kept_before, q));
                        let w = choose|w: int| 0 <= w < kept_before.len() && kept_before[w]@ == q;
                        assert(kept@[w]@ == q);
                    } else {
                        assert(kept@.last()@ == q);
                    }
                }
                if is_unfolded(kept@, q) {
                    let w = choose|w: int| 0 <= w < kept@.len() && kept@[w]@ == q;
                    if w < kept_before.len() {
                        assert(kept_before[w]@ == q);
                        assert(is_unfolded(kept_before, q));
                        assert(is_unfolded(pre, q));
                        let j = choose|j: int| 0 <= j < pre.len() && pre[j]@ == q;
                        assert(post[j]@ == q);
                    } else {
                        assert(post[i as int]@ == q);
                    }
                }
            }
            if was_open && !is_unfolded(pre, path@) {
                assert(is_unfolded(post, path@));
            }
            if is_unfolded(post, path@) {
                let j = choose|j: int| 0 <= j < post.len() && post[j]@ == path@;
                if j < i {
                    assert(pre[j]@ == path@);
                }
            }
            if is_unfolded(kept@, path@) {
                let w = choose|w: int| 0 <= w < kept@.len() && kept@[w]@ == path@;
                if w < kept_before.len() {
                    assert(kept_before[w]@ == path@);
                }
            }
        }
        i = i + 1;
    }
    let ghost all = old(state).tree_expanded@;
    assert(all.take(all.len() as int) =~= all);
    assert(was_open == is_unfolded(all, path@));
    assert forall|q: Seq<char>| q != path@ implies is_unfolded(kept@, q) == is_unfolded(all, q) by {
        assert(is_unfolded(kept@, q) == is_unfolded(all.take(all.len() as int), q));
    }
    if !was_open {
        let ghost kept_before = kept@;
        kept.push(path.to_string());
        proof {
            assert(kept@.last()@ == path@);
            assert forall|q: Seq<char>| q != path@ implies is_unfolded(kept@, q) == is_unfolded(
                kept_before,
                q,
            ) by {
                if is_unfolded(kept@, q) {
                    let w = choose|w: int| 0 <= w < kept@.len() && kept@[w]@ == q;
                    assert(kept_before[w]@ == q);
                }
                if is_unfolded(kept_before, q) {
                    let w = choose|w: int| 0 <= w < kept_before.len() && kept_before[w]@ == q;
                    assert(kept@[w]@ == q);
                }
            }
            assert(is_unfolded(kept@, path@)) by {
                assert(kept@[kept@.len() - 1]@ == path@);
            }
        }
    }
    state.tree_expanded = kept;
}

/// Whether the folder `path` is unfolded.
pub fn folder_unfolded(state: &AppState, path: &str) -> (r: bool)
    ensures
        r == is_unfolded(state.tree_expanded@, path@),
{
    let mut i: usize = 0;
    while i < state.tree_expanded.len()
        invariant
            i <= state.tree_expanded@.len(),
            forall|j: int| 0 <= j < i ==> state.tree_expanded@[j]@ != path@,
        decreases state.tree_expanded@.len() - i,
    {
        if text_eq(state.tree_expanded[i].as_str(), path) {
            return true;
        }
        i = i + 1;
    }
    false
}

/// The subfolders of `path` as the tree shows them, by name (empty when
/// `path` has not been listed).
pub fn folder_children(state: &AppState, path: &str) -> (r: Vec<FileEntry>)
    ensures
        !is_cached(state.tree_children@, path@) ==> r@.len() == 0,
        is_cached(state.tree_children@, path@) ==> exists|i: int, p: Seq<usize>|
            0 <= i < state.tree_children@.len() && state.tree_children@[i].path@ == path@
                && is_table_order(state.tree_children@[i].dirs@, p) && r@ == arranged(
                state.tree_children@[i].dirs@,
                p,
            ),
{
    match find_folder(&state.tree_children, path) {
        Some(i) => sorted_for_table(&state.tree_children[i].dirs),
        None => Vec::new(),
    }
}

/// Whether a tree folder is highlighted as lying on the way to the
/// current local folder.
pub fn folder_highlighted(state: &AppState, path: &str) -> (r: bool)
    ensures
        r == on_path_to(state.local_path@, path@),
{
    is_on_path_to(state.local_path.as_str(), path)
}

/// Whether a root or bookmark button is highlighted: the current local
/// folder begins with its path.
pub fn shortcut_highlighted(state: &AppState, path: &str) -> (r: bool)
    ensures
        r == path@.is_prefix_of(state.local_path@),
{
    starts_with(state.local_path.as_str(), path)
}

} // verus!
