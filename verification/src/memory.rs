//! The memory routes: the tree of stored documents, lists, reading, writing and search.

use vstd::hash_set::StringHashSet;
use vstd::prelude::*;
use vstd::seq_lib::*;
use vstd::string::StrSliceExecFns;
use vstd::utf8::encode_utf8;
use crate::chat::optional_time;
use crate::clock::{optional_rfc3339, Timestamp};
use crate::ids::{id_text, uuid_text};
use crate::reply::{optional_text, refused, require, require_done, Failure, StatusCode};
use crate::sort::{lemma_counted_places, sort_stable, sorted_from, tied_with, views, Ranked};
use crate::state::GatewayState;
use crate::text::{
    ancestors, characters, last_segment, law_last_segment_ends_path, law_text_order,
    law_text_order_is_by_bytes, lemma_text_prefix, segment_after_last_slash, stands_before,
    text_before,
};

verus! {

/// Turns a request down where the gateway has no workspace.
pub fn workspace_available(state: &GatewayState) -> (r: Result<(), Failure>)
    ensures
        state.workspace ==> r is Ok,
        !state.workspace ==> refused(
            r,
            StatusCode::ServiceUnavailable,
            "Workspace not available"@,
        ),
{
    require(state.workspace, StatusCode::ServiceUnavailable, "Workspace not available")
}

// --- The tree ---

/// A file or a directory of the tree. Its view is its path and whether it is a directory.
#[derive(Debug, PartialEq, Eq)]
pub struct TreeEntry {
    pub path: String,
    pub is_dir: bool,
}

impl View for TreeEntry {
    type V = (Seq<char>, bool);

    open spec fn view(&self) -> (Seq<char>, bool) {
        (self.path@, self.is_dir)
    }
}

impl Ranked for TreeEntry {
    open spec fn precedes(a: (Seq<char>, bool), b: (Seq<char>, bool)) -> bool {
        text_before(a.0, b.0)
    }

    proof fn lemma_asymmetric(a: (Seq<char>, bool), b: (Seq<char>, bool)) {
        law_text_order(a.0, b.0, a.0);
    }

    proof fn lemma_transitive(a: (Seq<char>, bool), b: (Seq<char>, bool), c: (Seq<char>, bool)) {
        law_text_order(a.0, b.0, c.0);
        law_text_order(b.0, c.0, a.0);
        law_text_order(c.0, a.0, b.0);
    }

    fn comes_before(&self, other: &Self) -> (r: bool) {
        stands_before(self.path.as_str(), other.path.as_str())
    }
}

/// The directories above any of the paths.
pub open spec fn directories(paths: Seq<Seq<char>>) -> Set<Seq<char>>
    decreases paths.len(),
{
    if paths.len() == 0 {
        Set::empty()
    } else {
        directories(paths.drop_last()).union(ancestors(paths.last()).to_set())
    }
}

/// The directories among `above` that are not known, in order, as entries of the tree.
pub open spec fn entered(above: Seq<Seq<char>>, known: Set<Seq<char>>) -> Seq<(Seq<char>, bool)>
    decreases above.len(),
{
    if above.len() == 0 {
        seq![]
    } else if known.contains(above.last()) {
        entered(above.drop_last(), known)
    } else {
        entered(above.drop_last(), known).push((above.last(), true))
    }
}

/// The entries in the order in which the paths show them: for each path the directories
/// above it that no earlier path has shown, from the outermost inwards, then the path.
pub open spec fn walk(paths: Seq<Seq<char>>) -> Seq<(Seq<char>, bool)>
    decreases paths.len(),
{
    if paths.len() == 0 {
        seq![]
    } else {
        let before = paths.drop_last();
        (walk(before) + entered(ancestors(paths.last()), directories(before))).push(
            (paths.last(), false),
        )
    }
}

proof fn lemma_ancestors_shorter(path: Seq<char>, d: Seq<char>)
    requires
        ancestors(path).contains(d),
    ensures
        d.len() < path.len(),
    decreases path.len(),
{
    if path.len() > 0 {
        let rest = ancestors(path.drop_last());
        let i = choose|i: int| 0 <= i < ancestors(path).len() && ancestors(path)[i] == d;
        if i < rest.len() {
            assert(rest[i] == d);
            lemma_ancestors_shorter(path.drop_last(), d);
        }
    }
}

/// The tree of stored documents.
#[derive(Debug, PartialEq, Eq)]
pub struct MemoryTreeResponse {
    pub entries: Vec<TreeEntry>,
}

/// The entries in the order in which the paths show them.
fn collect_entries(paths: &Vec<String>) -> (r: Vec<TreeEntry>)
    ensures
        views(r@) == walk(views(paths@)),
{
    let mut entries: Vec<TreeEntry> = Vec::new();
    let mut seen = StringHashSet::new();
    let ghost all = views(paths@);
    let mut n: usize = 0;
    proof {
        assert(views(entries@) =~= walk(all.take(0)));
        assert(seen@ =~= directories(all.take(0)));
    }
    while n < paths.len()
        invariant
            n <= paths@.len(),
            all == views(paths@),
            views(entries@) == walk(all.take(n as int)),
            seen@ == directories(all.take(n as int)),
        decreases paths.len() - n,
    {
        let path = &paths[n];
        let units = characters(path.as_str());
        let ghost p = path@;
        let ghost known = seen@;
        let ghost shown = views(entries@);
        let mut i: usize = 0;
        proof {
            assert(shown + entered(ancestors(p.take(0)), known) =~= shown);
            assert(known.union(ancestors(p.take(0)).to_set()) =~= known);
        }
        while i < units.len()
            invariant
                i <= units@.len(),
                units@ == p,
                path@ == p,
                views(entries@) == shown + entered(ancestors(p.take(i as int)), known),
                seen@ == known.union(ancestors(p.take(i as int)).to_set()),
            decreases units.len() - i,
        {
            let ghost above = ancestors(p.take(i as int));
            assert(p.take(i + 1).drop_last() =~= p.take(i as int));
            if units[i] == '/' {
                let dir_path = path.as_str().substring_char(0, i).to_owned();
                let ghost d = dir_path@;
                proof {
                    assert(d =~= p.take(i as int));
                    assert(ancestors(p.take(i + 1)) =~= above.push(d));
                    assert(above.push(d).drop_last() =~= above);
                    if above.contains(d) {
                        lemma_ancestors_shorter(p.take(i as int), d);
                    }
                    assert(above.push(d).to_set() =~= above.to_set().insert(d)) by {
                        assert forall|x: Seq<char>| above.push(d).contains(x) == (above.contains(x)
                            || x == d) by {
                            if above.contains(x) {
                                let k = choose|k: int| 0 <= k < above.len() && above[k] == x;
                                assert(above.push(d)[k] == x);
                            }
                            assert(above.push(d)[above.len() as int] == d);
                        }
                    }
                }
                let ghost before = views(entries@);
                if seen.insert(dir_path.clone()) {
                    entries.push(TreeEntry { path: dir_path, is_dir: true });
                    proof {
                        assert(views(entries@) =~= before.push((d, true)));
                        assert(views(entries@) =~= shown + entered(above.push(d), known));
                    }
                }
                assert(seen@ =~= known.union(above.push(d).to_set()));
            }
            i = i + 1;
        }
        let ghost before = views(entries@);
        entries.push(TreeEntry { path: path.clone(), is_dir: false });
        proof {
            assert(p.take(p.len() as int) =~= p);
            assert(views(entries@) =~= before.push((p, false)));
            assert(all.take(n + 1).drop_last() =~= all.take(n as int));
            assert(all.take(n + 1).last() == p);
        }
        n = n + 1;
    }
    assert(all.take(all.len() as int) =~= all);
    entries
}

/// How deep a tree is asked for. The whole tree is answered with in any case.
#[derive(Debug)]
pub struct TreeQuery {
    pub depth: Option<usize>,
}

/// Takes a request for the tree: the paths of all documents are to be listed.
pub fn memory_tree_handler(state: &GatewayState, _query: &TreeQuery) -> (r: Result<(), Failure>)
    ensures
        state.workspace ==> r is Ok,
        !state.workspace ==> refused(
            r,
            StatusCode::ServiceUnavailable,
            "Workspace not available"@,
        ),
{
    workspace_available(state)
}

/// Builds the tree from the flat list of all paths: every path as a file, and every
/// directory above one of them once, sorted by path.
pub fn tree_listed(listed: Result<Vec<String>, String>) -> (r: Result<
    MemoryTreeResponse,
    Failure,
>)
    ensures
        match listed {
            Ok(paths) => r is Ok && sorted_from::<TreeEntry>(
                walk(views(paths@)),
                views(r->Ok_0.entries@),
            ),
            Err(e) => refused(r, StatusCode::InternalServerError, e@),
        },
{
    match require_done(listed) {
        Ok(paths) => Ok(MemoryTreeResponse { entries: sort_stable(collect_entries(&paths)) }),
        Err(f) => Err(f),
    }
}

/// Whether `d` is what stands before a slash in one of the paths.
pub open spec fn above_some(d: Seq<char>, paths: Seq<Seq<char>>) -> bool {
    exists|i: int| 0 <= i < paths.len() && above_path(d, #[trigger] paths[i])
}

/// Whether `d` is what stands before a slash of `path`.
pub open spec fn above_path(d: Seq<char>, path: Seq<char>) -> bool {
    d.len() < path.len() && path[d.len() as int] == '/' && path.take(d.len() as int) == d
}

proof fn lemma_ancestors_are_above(path: Seq<char>, d: Seq<char>)
    ensures
        ancestors(path).contains(d) == above_path(d, path),
    decreases path.len(),
{
    if path.len() > 0 {
        let front = path.drop_last();
        let rest = ancestors(front);
        lemma_ancestors_are_above(front, d);
        if d.len() < front.len() {
            assert(front.take(d.len() as int) =~= path.take(d.len() as int));
        }
        assert(path.take(front.len() as int) =~= front);
        if path.last() == '/' {
            assert(rest.push(front).contains(d) == (rest.contains(d) || d == front)) by {
                if rest.contains(d) {
                    let k = choose|k: int| 0 <= k < rest.len() && rest[k] == d;
                    assert(rest.push(front)[k] == d);
                }
                assert(rest.push(front)[rest.len() as int] == front);
            }
            if above_path(d, path) && d.len() == front.len() {
                assert(d =~= front);
            }
        }
    }
}

proof fn lemma_directories(paths: Seq<Seq<char>>, d: Seq<char>)
    ensures
        directories(paths).contains(d) == above_some(d, paths),
    decreases paths.len(),
{
    if paths.len() > 0 {
        let front = paths.drop_last();
        lemma_directories(front, d);
        lemma_ancestors_are_above(paths.last(), d);
        if above_some(d, front) {
            let i = choose|i: int| 0 <= i < front.len() && above_path(d, #[trigger] front[i]);
            assert(above_path(d, paths[i]));
        }
        if above_some(d, paths) {
            let i = choose|i: int| 0 <= i < paths.len() && above_path(d, #[trigger] paths[i]);
            if i < front.len() {
                assert(above_path(d, front[i]));
            }
        }
        if above_path(d, paths.last()) {
            assert(above_path(d, paths[paths.len() - 1]));
        }
    }
}

proof fn lemma_entered_counts(path: Seq<char>, known: Set<Seq<char>>, e: (Seq<char>, bool))
    ensures
        entered(ancestors(path), known).to_multiset().count(e) == (if e.1 && ancestors(
            path,
        ).contains(e.0) && !known.contains(e.0) {
            1nat
        } else {
            0nat
        }),
    decreases path.len(),
{
    let above = ancestors(path);
    if path.len() == 0 {
        assert(entered(above, known).to_multiset() =~= vstd::multiset::Multiset::empty()) by {
            broadcast use group_to_multiset_ensures;
            assert(entered(above, known) =~= seq![]);
        }
    } else {
        let front = path.drop_last();
        let rest = ancestors(front);
        lemma_entered_counts(front, known, e);
        if path.last() == '/' {
            assert(above.drop_last() =~= rest);
            assert(above.contains(e.0) == (rest.contains(e.0) || e.0 == front)) by {
                if rest.contains(e.0) {
                    let k = choose|k: int| 0 <= k < rest.len() && rest[k] == e.0;
                    assert(above[k] == e.0);
                }
                assert(above[rest.len() as int] == front);
            }
            if rest.contains(front) {
                lemma_ancestors_shorter(front, front);
            }
            if !known.contains(front) {
                to_multiset_build(entered(rest, known), (front, true));
            }
        }
    }
}

proof fn lemma_walk_counts(paths: Seq<Seq<char>>, e: (Seq<char>, bool))
    ensures
        e.1 ==> walk(paths).to_multiset().count(e) == (if above_some(e.0, paths) {
            1nat
        } else {
            0nat
        }),
        !e.1 ==> walk(paths).to_multiset().count(e) == paths.to_multiset().count(e.0),
    decreases paths.len(),
{
    broadcast use group_to_multiset_ensures;

    if paths.len() == 0 {
        assert(walk(paths) =~= seq![]);
    } else {
        let front = paths.drop_last();
        let last = paths.last();
        let new = entered(ancestors(last), directories(front));
        lemma_walk_counts(front, e);
        lemma_entered_counts(last, directories(front), e);
        lemma_multiset_commutative(walk(front), new);
        to_multiset_build(walk(front) + new, (last, false));
        to_multiset_build(front, last);
        assert(front.push(last) =~= paths);
        lemma_directories(front, e.0);
        lemma_directories(paths, e.0);
    }
}

/// In the tree every stored path is a file, as often as it is stored.
pub proof fn law_tree_has_every_file(
    paths: Seq<Seq<char>>,
    entries: Seq<(Seq<char>, bool)>,
    path: Seq<char>,
)
    requires
        sorted_from::<TreeEntry>(walk(paths), entries),
    ensures
        entries.to_multiset().count((path, false)) == paths.to_multiset().count(path),
{
    lemma_walk_counts(paths, (path, false));
}

/// In the tree a directory stands exactly once if a stored path lies below it, and
/// otherwise not at all.
pub proof fn law_tree_has_every_directory_once(
    paths: Seq<Seq<char>>,
    entries: Seq<(Seq<char>, bool)>,
    d: Seq<char>,
)
    requires
        sorted_from::<TreeEntry>(walk(paths), entries),
    ensures
        entries.to_multiset().count((d, true)) == (if above_some(d, paths) {
            1nat
        } else {
            0nat
        }),
{
    lemma_walk_counts(paths, (d, true));
}

/// In the tree what lies below a path stands behind it.
pub proof fn law_tree_lists_parents_first(
    paths: Seq<Seq<char>>,
    entries: Seq<(Seq<char>, bool)>,
    parent: int,
    child: int,
)
    requires
        sorted_from::<TreeEntry>(walk(paths), entries),
        0 <= parent < entries.len(),
        0 <= child < entries.len(),
        above_path(entries[parent].0, entries[child].0),
    ensures
        parent < child,
{
    let p = entries[parent].0;
    let c = entries[child].0;
    assert(c =~= p + c.skip(p.len() as int));
    lemma_text_prefix(p, c.skip(p.len() as int));
    if child < parent {
        assert(!TreeEntry::precedes(entries[parent], entries[child]));
    }
}

/// In the tree no entry stands behind one whose path comes later: of two paths, behind a
/// beginning of bytes that both share, the first one ends, or its next byte is the smaller
/// one, or the two paths are the same.
pub proof fn law_tree_is_in_path_order(
    paths: Seq<Seq<char>>,
    entries: Seq<TreeEntry>,
    i: int,
    j: int,
)
    requires
        sorted_from::<TreeEntry>(walk(paths), views(entries)),
        0 <= i < j < entries.len(),
    ensures
        entries[i].path@ == entries[j].path@ || exists|k: int|
            0 <= k <= encode_utf8(entries[i].path@).len() && k < encode_utf8(entries[j].path@).len()
                && #[trigger] encode_utf8(entries[i].path@).take(k) == encode_utf8(
                entries[j].path@,
            ).take(k) && (k == encode_utf8(entries[i].path@).len() || encode_utf8(
                entries[i].path@,
            )[k] < encode_utf8(entries[j].path@)[k]),
{
    let a = entries[i].path@;
    let b = entries[j].path@;
    let v = views(entries);
    assert(v[i] == entries[i]@ && v[j] == entries[j]@);
    assert(!TreeEntry::precedes(v[j], v[i]));
    law_text_order(a, b, a);
    law_text_order_is_by_bytes(a, b);
}

/// What the tree holds is what was listed: a path stands in it as a file exactly where it
/// was listed, and as a directory exactly where it is what stands before a slash of a path
/// that was listed; and no directory stands in it twice.
pub proof fn law_tree_holds_what_was_listed(
    paths: Seq<Seq<char>>,
    entries: Seq<TreeEntry>,
    path: Seq<char>,
)
    requires
        sorted_from::<TreeEntry>(walk(paths), views(entries)),
    ensures
        (exists|i: int|
            0 <= i < entries.len() && (#[trigger] entries[i]).path@ == path
                && !entries[i].is_dir) <==> exists|n: int|
            0 <= n < paths.len() && #[trigger] paths[n] == path,
        (exists|i: int|
            0 <= i < entries.len() && (#[trigger] entries[i]).path@ == path
                && entries[i].is_dir) <==> exists|n: int, k: int|
            0 <= n < paths.len() && 0 <= k < paths[n].len() && #[trigger] paths[n][k] == '/'
                && paths[n].take(k) == path,
        forall|i: int, j: int|
            0 <= i < entries.len() && 0 <= j < entries.len() && (#[trigger] entries[i]).is_dir && (
            #[trigger] entries[j]).is_dir && entries[i].path@ == path && entries[j].path@ == path
                ==> i == j,
{
    let v = views(entries);
    law_tree_has_every_file(paths, v, path);
    law_tree_has_every_directory_once(paths, v, path);
    lemma_counted_places(v, (path, false));
    lemma_counted_places(v, (path, true));
    lemma_counted_places(paths, path);
    assert forall|i: int| 0 <= i < entries.len() implies v[i] == (
        (#[trigger] entries[i]).path@,
        entries[i].is_dir,
    ) by {}
    if exists|i: int|
        0 <= i < entries.len() && (#[trigger] entries[i]).path@ == path && !entries[i].is_dir {
        let i = choose|i: int|
            0 <= i < entries.len() && (#[trigger] entries[i]).path@ == path && !entries[i].is_dir;
        assert(v[i] == (path, false));
    }
    if v.to_multiset().count((path, false)) > 0 {
        let i = choose|i: int| 0 <= i < v.len() && #[trigger] v[i] == (path, false);
        assert(entries[i].path@ == path);
    }
    if exists|i: int|
        0 <= i < entries.len() && (#[trigger] entries[i]).path@ == path && entries[i].is_dir {
        let i = choose|i: int|
            0 <= i < entries.len() && (#[trigger] entries[i]).path@ == path && entries[i].is_dir;
        assert(v[i] == (path, true));
        let n = choose|n: int| 0 <= n < paths.len() && above_path(path, #[trigger] paths[n]);
        assert(paths[n][path.len() as int] == '/');
    }
    if exists|n: int, k: int|
        0 <= n < paths.len() && 0 <= k < paths[n].len() && #[trigger] paths[n][k] == '/'
            && paths[n].take(k) == path {
        let (n, k) = choose|n: int, k: int|
            0 <= n < paths.len() && 0 <= k < paths[n].len() && #[trigger] paths[n][k] == '/'
                && paths[n].take(k) == path;
        assert(above_path(path, paths[n]));
        let i = choose|i: int| 0 <= i < v.len() && #[trigger] v[i] == (path, true);
        assert(entries[i].path@ == path);
    }
    assert forall|i: int, j: int|
        0 <= i < entries.len() && 0 <= j < entries.len() && (#[trigger] entries[i]).is_dir && (
        #[trigger] entries[j]).is_dir && entries[i].path@ == path && entries[j].path@
            == path implies i == j by {
        assert(v[i] == (path, true) && v[j] == (path, true));
    }
}

proof fn lemma_entered_at(path: Seq<char>, known: Set<Seq<char>>, d: Seq<char>)
    ensures
        entered(ancestors(path), known).filter(|e: (Seq<char>, bool)| e.0 == d) == (if ancestors(
            path,
        ).contains(d) && !known.contains(d) {
            seq![(d, true)]
        } else {
            seq![]
        }),
    decreases path.len(),
{
    reveal(Seq::filter);
    let p = |e: (Seq<char>, bool)| e.0 == d;
    let above = ancestors(path);
    if path.len() > 0 {
        let front = path.drop_last();
        let rest = ancestors(front);
        lemma_entered_at(front, known, d);
        if path.last() == '/' {
            assert(above.drop_last() =~= rest);
            assert(above.contains(d) == (rest.contains(d) || d == front)) by {
                if rest.contains(d) {
                    let k = choose|k: int| 0 <= k < rest.len() && rest[k] == d;
                    assert(above[k] == d);
                }
                assert(above[rest.len() as int] == front);
            }
            if rest.contains(front) {
                lemma_ancestors_shorter(front, front);
            }
            if !known.contains(front) {
                let before = entered(rest, known);
                assert(entered(above, known).drop_last() =~= before);
                assert(entered(above, known).filter(p) =~= if front == d {
                    before.filter(p).push((front, true))
                } else {
                    before.filter(p)
                });
            }
        }
    }
}

proof fn lemma_tied_paths(x: Seq<char>)
    ensures
        tied_with::<TreeEntry>((x, true)) =~= |e: (Seq<char>, bool)| e.0 == x,
{
    assert forall|e: (Seq<char>, bool)| #[trigger] tied_with::<TreeEntry>((x, true))(e) == (e.0
        == x) by {
        law_text_order(e.0, x, e.0);
        law_text_order(x, e.0, x);
    }
}

/// One more path at the end of what is listed adds, among the entries of any path, a
/// directory where the path is the first to lie below it, and a file where it is the path
/// itself, both behind those that stood there, and changes nothing else.
pub proof fn law_tree_grows_path_by_path(
    paths: Seq<Seq<char>>,
    new: Seq<char>,
    before: Seq<TreeEntry>,
    after: Seq<TreeEntry>,
    path: Seq<char>,
)
    requires
        sorted_from::<TreeEntry>(walk(paths), views(before)),
        sorted_from::<TreeEntry>(walk(paths.push(new)), views(after)),
    ensures
        ({
            let below = exists|k: int| 0 <= k < new.len() && #[trigger] new[k] == '/' && new.take(k)
                == path;
            let known = exists|i: int|
                0 <= i < before.len() && (#[trigger] before[i]).path@ == path && before[i].is_dir;
            views(after).filter(|e: (Seq<char>, bool)| e.0 == path) == views(before).filter(
                |e: (Seq<char>, bool)| e.0 == path,
            ) + (if below && !known {
                seq![(path, true)]
            } else {
                seq![]
            }) + (if new == path {
                seq![(path, false)]
            } else {
                seq![]
            })
        }),
{
    reveal(Seq::filter);
    let p = |e: (Seq<char>, bool)| e.0 == path;
    lemma_tied_paths(path);
    assert(views(after).filter(tied_with::<TreeEntry>((path, true))) == walk(
        paths.push(new),
    ).filter(tied_with::<TreeEntry>((path, true))));
    assert(views(before).filter(tied_with::<TreeEntry>((path, true))) == walk(paths).filter(
        tied_with::<TreeEntry>((path, true)),
    ));
    let added = entered(ancestors(new), directories(paths));
    let all = paths.push(new);
    assert(all.drop_last() =~= paths);
    let whole = walk(paths) + added;
    assert(walk(all) =~= whole.push((new, false)));
    assert(walk(all).drop_last() =~= whole);
    Seq::filter_distributes_over_add(walk(paths), added, p);
    lemma_entered_at(new, directories(paths), path);
    lemma_ancestors_are_above(new, path);
    lemma_directories(paths, path);
    law_tree_holds_what_was_listed(paths, before, path);
    if ancestors(new).contains(path) {
        assert(new[path.len() as int] == '/');
    }
    if exists|k: int| 0 <= k < new.len() && #[trigger] new[k] == '/' && new.take(k) == path {
        let k = choose|k: int| 0 <= k < new.len() && #[trigger] new[k] == '/' && new.take(k)
            == path;
        assert(above_path(path, new));
    }
    assert(directories(paths).contains(path) <==> exists|i: int|
        0 <= i < before.len() && (#[trigger] before[i]).path@ == path && before[i].is_dir) by {
        if directories(paths).contains(path) {
            let n = choose|n: int| 0 <= n < paths.len() && above_path(path, #[trigger] paths[n]);
            assert(paths[n][path.len() as int] == '/');
        }
        if exists|i: int|
            0 <= i < before.len() && (#[trigger] before[i]).path@ == path && before[i].is_dir {
            let (n, k) = choose|n: int, k: int|
                0 <= n < paths.len() && 0 <= k < paths[n].len() && #[trigger] paths[n][k] == '/'
                    && paths[n].take(k) == path;
            assert(above_path(path, paths[n]));
        }
    }
    assert(walk(all).filter(p) =~= if new == path {
        whole.filter(p).push((new, false))
    } else {
        whole.filter(p)
    });
}

// --- Lists ---

/// Which directory is listed.
#[derive(Debug)]
pub struct ListQuery {
    pub path: Option<String>,
}

/// An entry of a directory, as the workspace has it.
#[derive(Debug)]
pub struct WorkspaceEntry {
    pub path: String,
    pub is_directory: bool,
    pub updated_at: Option<Timestamp>,
}

/// An entry of a directory, as it is answered with.
#[derive(Debug, PartialEq, Eq)]
pub struct ListEntry {
    pub name: String,
    pub path: String,
    pub is_dir: bool,
    pub updated_at: Option<String>,
}

impl ListEntry {
    /// Whether this tells of the entry. Its name is what stands behind the last slash.
    pub open spec fn tells(self, entry: WorkspaceEntry) -> bool {
        &&& self.name@ == last_segment(entry.path@)
        &&& self.path@ == entry.path@
        &&& self.is_dir == entry.is_directory
        &&& optional_text(self.updated_at) == optional_time(entry.updated_at)
    }
}

/// The entries of a directory.
#[derive(Debug, PartialEq, Eq)]
pub struct MemoryListResponse {
    pub path: String,
    pub entries: Vec<ListEntry>,
}

/// The path of the directory that a query names: the root where it names none.
pub open spec fn path_or_root(path: Option<String>) -> Seq<char> {
    match path {
        Some(p) => p@,
        None => ""@,
    }
}

/// Takes a request for the entries of a directory: the path that the workspace is to list.
pub fn memory_list_handler(state: &GatewayState, query: &ListQuery) -> (r: Result<String, Failure>)
    ensures
        state.workspace ==> r is Ok && r->Ok_0@ == path_or_root(query.path),
        !state.workspace ==> refused(
            r,
            StatusCode::ServiceUnavailable,
            "Workspace not available"@,
        ),
{
    match workspace_available(state) {
        Err(f) => Err(f),
        Ok(_) => Ok(
            match &query.path {
                Some(p) => p.clone(),
                None => "".to_owned(),
            },
        ),
    }
}

/// Answers with the entries of the directory `path`, one for one and in order.
pub fn directory_listed(path: String, listed: Result<Vec<WorkspaceEntry>, String>) -> (r: Result<
    MemoryListResponse,
    Failure,
>)
    ensures
        match listed {
            Ok(found) => {
                &&& r is Ok
                &&& r->Ok_0.path@ == path@
                &&& r->Ok_0.entries@.len() == found@.len()
                &&& forall|i: int|
                    0 <= i < found@.len() ==> #[trigger] r->Ok_0.entries@[i].tells(found@[i])
            },
            Err(e) => refused(r, StatusCode::InternalServerError, e@),
        },
{
    let found = match require_done(listed) {
        Ok(found) => found,
        Err(f) => {
            return Err(f);
        },
    };
    let mut entries: Vec<ListEntry> = Vec::new();
    let mut i: usize = 0;
    while i < found.len()
        invariant
            i <= found@.len(),
            entries@.len() == i,
            forall|k: int| 0 <= k < i ==> #[trigger] entries@[k].tells(found@[k]),
        decreases found.len() - i,
    {
        let e = &found[i];
        entries.push(
            ListEntry {
                name: segment_after_last_slash(e.path.as_str()),
                path: e.path.clone(),
                is_dir: e.is_directory,
                updated_at: optional_rfc3339(&e.updated_at),
            },
        );
        i = i + 1;
    }
    Ok(MemoryListResponse { path, entries })
}

// --- Reading and writing ---

/// Which document is read.
#[derive(Debug)]
pub struct ReadQuery {
    pub path: String,
}

/// A document, as the workspace has it.
#[derive(Debug)]
pub struct MemoryDocument {
    pub content: String,
    pub updated_at: Timestamp,
}

/// A document, as it is answered with.
#[derive(Debug, PartialEq, Eq)]
pub struct MemoryReadResponse {
    pub path: String,
    pub content: String,
    pub updated_at: Option<String>,
}

/// Takes a request for a document: the path that the workspace is to read.
pub fn memory_read_handler(state: &GatewayState, query: ReadQuery) -> (r: Result<String, Failure>)
    ensures
        state.workspace ==> r is Ok && r->Ok_0@ == query.path@,
        !state.workspace ==> refused(
            r,
            StatusCode::ServiceUnavailable,
            "Workspace not available"@,
        ),
{
    match workspace_available(state) {
        Err(f) => Err(f),
        Ok(_) => Ok(query.path),
    }
}

/// Answers with the document under `path`. One that cannot be read is not found.
pub fn document_read(path: String, read: Result<MemoryDocument, String>) -> (r: Result<
    MemoryReadResponse,
    Failure,
>)
    ensures
        match read {
            Ok(doc) => {
                &&& r is Ok
                &&& r->Ok_0.path@ == path@
                &&& r->Ok_0.content@ == doc.content@
                &&& optional_text(r->Ok_0.updated_at) == Some(doc.updated_at.text())
            },
            Err(e) => refused(r, StatusCode::NotFound, e@),
        },
{
    match read {
        Ok(doc) => Ok(
            MemoryReadResponse {
                path,
                updated_at: Some(doc.updated_at.to_rfc3339()),
                content: doc.content,
            },
        ),
        Err(e) => Err(Failure { status: StatusCode::NotFound, message: e }),
    }
}

/// A document to write.
#[derive(Debug)]
pub struct MemoryWriteRequest {
    pub path: String,
    pub content: String,
}

/// The answer to a document that was written.
#[derive(Debug, PartialEq, Eq)]
pub struct MemoryWriteResponse {
    pub path: String,
    pub status: &'static str,
}

/// What the workspace is asked to write.
#[derive(Debug, PartialEq, Eq)]
pub struct WriteCall {
    pub path: String,
    pub content: String,
}

/// Takes a document to write: what the workspace is asked to write.
pub fn memory_write_handler(state: &GatewayState, req: MemoryWriteRequest) -> (r: Result<
    WriteCall,
    Failure,
>)
    ensures
        state.workspace ==> r is Ok && r->Ok_0.path@ == req.path@ && r->Ok_0.content@
            == req.content@,
        !state.workspace ==> refused(
            r,
            StatusCode::ServiceUnavailable,
            "Workspace not available"@,
        ),
{
    match workspace_available(state) {
        Err(f) => Err(f),
        Ok(_) => Ok(WriteCall { path: req.path, content: req.content }),
    }
}

/// Answers once a document was written under `path`, or could not be.
pub fn document_written(path: String, written: Result<(), String>) -> (r: Result<
    MemoryWriteResponse,
    Failure,
>)
    ensures
        match written {
            Ok(_) => r is Ok && r->Ok_0.path@ == path@ && r->Ok_0.status@ == "written"@,
            Err(e) => refused(r, StatusCode::InternalServerError, e@),
        },
{
    match require_done(written) {
        Ok(_) => Ok(MemoryWriteResponse { path, status: "written" }),
        Err(f) => Err(f),
    }
}

// --- Search ---

/// What is searched for, and how many results are wanted at most.
#[derive(Debug)]
pub struct MemorySearchRequest {
    pub query: String,
    pub limit: Option<usize>,
}

/// A result of a search, as the workspace has it. The score is held by the bits of the
/// 32-bit number it is.
#[derive(Debug)]
pub struct SearchResult {
    pub document_id: u128,
    pub content: String,
    pub score_bits: u32,
}

/// A result of a search, as it is answered with. The score is held by the bits of the
/// 32-bit number it was.
#[derive(Debug, PartialEq, Eq)]
pub struct SearchHit {
    pub path: String,
    pub content: String,
    pub score_bits: u32,
}

impl SearchHit {
    /// Whether this tells of the result.
    pub open spec fn tells(self, result: SearchResult) -> bool {
        &&& self.path@ == uuid_text(result.document_id)
        &&& self.content@ == result.content@
        &&& self.score_bits == result.score_bits
    }
}

/// The results of a search.
#[derive(Debug, PartialEq, Eq)]
pub struct MemorySearchResponse {
    pub results: Vec<SearchHit>,
}

/// What the workspace is asked to search for, and how many results it is to find at most.
#[derive(Debug, PartialEq, Eq)]
pub struct SearchCall {
    pub query: String,
    pub limit: usize,
}

/// Takes a search: what the workspace is asked for. It is to find ten results at most where
/// the request does not say how many.
pub fn memory_search_handler(state: &GatewayState, req: MemorySearchRequest) -> (r: Result<
    SearchCall,
    Failure,
>)
    ensures
        state.workspace ==> r is Ok && r->Ok_0.query@ == req.query@ && r->Ok_0.limit == (
        match req.limit {
            Some(n) => n,
            None => 10usize,
        }),
        !state.workspace ==> refused(
            r,
            StatusCode::ServiceUnavailable,
            "Workspace not available"@,
        ),
{
    match workspace_available(state) {
        Err(f) => Err(f),
        Ok(_) => {
            let limit: usize = match req.limit {
                Some(n) => n,
                None => 10,
            };
            Ok(SearchCall { query: req.query, limit })
        },
    }
}

/// Answers with the results of a search, one for one and in order.
pub fn search_done(searched: Result<Vec<SearchResult>, String>) -> (r: Result<
    MemorySearchResponse,
    Failure,
>)
    ensures
        match searched {
            Ok(found) => {
                &&& r is Ok
                &&& r->Ok_0.results@.len() == found@.len()
                &&& forall|i: int|
                    0 <= i < found@.len() ==> #[trigger] r->Ok_0.results@[i].tells(found@[i])
            },
            Err(e) => refused(r, StatusCode::InternalServerError, e@),
        },
{
    let found = match require_done(searched) {
        Ok(found) => found,
        Err(f) => {
            return Err(f);
        },
    };
    let mut results: Vec<SearchHit> = Vec::new();
    let mut i: usize = 0;
    while i < found.len()
        invariant
            i <= found@.len(),
            results@.len() == i,
            forall|k: int| 0 <= k < i ==> #[trigger] results@[k].tells(found@[k]),
        decreases found.len() - i,
    {
        let hit = &found[i];
        results.push(
            SearchHit {
                path: id_text(hit.document_id),
                content: hit.content.clone(),
                score_bits: hit.score_bits,
            },
        );
        i = i + 1;
    }
    Ok(MemorySearchResponse { results })
}

/// A list names an entry by the end of its path, from the last slash on or from the
/// beginning, and tells of it what the workspace has.
pub proof fn law_list_names_the_end_of_the_path(told: ListEntry, entry: WorkspaceEntry)
    requires
        told.tells(entry),
    ensures
        told.path@ == entry.path@,
        told.is_dir == entry.is_directory,
        told.updated_at is Some <==> entry.updated_at is Some,
        told.updated_at is Some ==> told.updated_at->0@ == entry.updated_at->0.text(),
        forall|i: int| 0 <= i < told.name@.len() ==> #[trigger] told.name@[i] != '/',
        told.name@ == entry.path@ || exists|dir: Seq<char>|
            entry.path@ == #[trigger] dir.push('/') + told.name@,
{
    let p = entry.path@;
    let n = told.name@;
    law_last_segment_ends_path(p);
    if n.len() == p.len() {
        assert(p.skip(0) =~= p);
    } else {
        let dir = p.take(p.len() - n.len() - 1);
        assert(p =~= dir.push('/') + p.skip(p.len() - n.len()));
        assert(p == dir.push('/') + n);
    }
}

/// A search tells of a document by its identifier, its content and its score, none of them
/// changed.
pub proof fn law_hits_tell_of_their_documents(told: SearchHit, result: SearchResult)
    requires
        told.tells(result),
    ensures
        told.path@ == uuid_text(result.document_id),
        told.content@ == result.content@,
        told.score_bits == result.score_bits,
{
}

/// A list starts where the query says, and at the root where it does not say.
pub proof fn law_lists_start_where_asked(path: Option<String>)
    ensures
        path is Some ==> path_or_root(path) == path->0@,
        path is None ==> path_or_root(path).len() == 0,
{
    reveal_strlit("");
}

} // verus!
