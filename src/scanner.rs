//! Folder listings: which entries a folder shows, and in what order.
//!
//! A listing is sorted by name, so what a folder shows depends on which
//! entries it holds and not on the order in which the file system reported
//! them.

use vstd::prelude::*;
use crate::names::{
    has_txt_extension, is_hidden, lemma_name_lt_asymmetric, lemma_name_lt_irreflexive,
    lemma_name_lt_total, lemma_name_lt_transitive, name_has_txt_extension, name_is_hidden, name_less, name_lt};
use crate::path::{DirEntry, EntryModel, Node, NodeModel, NodePath, PathModel};

verus! {

pub open spec fn entries_view(l: Seq<DirEntry>) -> Seq<EntryModel> {
    l.map_values(|d: DirEntry| d@)
}

pub open spec fn nodes_view(l: Seq<Node>) -> Seq<NodeModel> {
    l.map_values(|n: Node| n@)
}

/// An entry is shown unless its name is hidden; with `txt_only`, a file is
/// shown only if it has the `txt` extension (folders are always shown).
pub open spec fn is_listed(e: EntryModel, txt_only: bool) -> bool {
    !is_hidden(e.0) && (e.1 || !txt_only || has_txt_extension(e.0))
}

/// Puts `e` into the name-sorted `s`; an entry of the same name stays as it is.
pub open spec fn insert_sorted(s: Seq<EntryModel>, e: EntryModel) -> Seq<EntryModel>
    decreases s.len(),
{
    if s.len() == 0 {
        seq![e]
    } else if name_lt(s[0].0, e.0) {
        seq![s[0]] + insert_sorted(s.drop_first(), e)
    } else if s[0].0 == e.0 {
        s
    } else {
        seq![e] + s
    }
}

/// The shown entries of a listing, sorted by name.
pub open spec fn sorted_listing(l: Seq<EntryModel>, txt_only: bool) -> Seq<EntryModel>
    decreases l.len(),
{
    if l.len() == 0 {
        Seq::empty()
    } else {
        let rest = sorted_listing(l.drop_last(), txt_only);
        if is_listed(l.last(), txt_only) {
            insert_sorted(rest, l.last())
        } else {
            rest
        }
    }
}

pub open spec fn entry_node(dir: PathModel, e: EntryModel) -> NodeModel {
    (dir.push(e.0), e.1)
}

/// The nodes that the folder `dir` shows, given its listing.
pub open spec fn scan(dir: PathModel, l: Seq<EntryModel>, txt_only: bool) -> Seq<NodeModel> {
    sorted_listing(l, txt_only).map_values(|x: EntryModel| entry_node(dir, x))
}

/// No two entries of the listing share a name, as in any folder on disk.
pub open spec fn names_unique(l: Seq<EntryModel>) -> bool {
    forall|i: int, j: int| 0 <= i < j < l.len() ==> l[i].0 != l[j].0
}

pub open spec fn strictly_sorted(s: Seq<EntryModel>) -> bool {
    forall|i: int, j: int| 0 <= i < j < s.len() ==> name_lt(s[i].0, s[j].0)
}

proof fn lemma_insert_prefix(s: Seq<EntryModel>, e: EntryModel, j: int)
    requires
        0 <= j <= s.len(),
        forall|k: int| 0 <= k < j ==> name_lt(#[trigger] s[k].0, e.0),
    ensures
        insert_sorted(s, e) == s.take(j) + insert_sorted(s.skip(j), e),
    decreases j,
{
    if j == 0 {
        assert(s.skip(0) =~= s);
        assert(s.take(0) + insert_sorted(s, e) =~= insert_sorted(s, e));
    } else {
        let t = s.drop_first();
        assert forall|k: int| 0 <= k < j - 1 implies name_lt(#[trigger] t[k].0, e.0) by {
            assert(t[k] == s[k + 1]);
        }
        lemma_insert_prefix(t, e, j - 1);
        assert(name_lt(s[0].0, e.0));
        assert(t.skip(j - 1) =~= s.skip(j));
        assert(s.take(j) =~= seq![s[0]] + t.take(j - 1));
        assert(seq![s[0]] + (t.take(j - 1) + insert_sorted(t.skip(j - 1), e)) =~= s.take(j)
            + insert_sorted(s.skip(j), e));
    }
}

/// Puts `e` into the name-sorted `v`, unless an entry of that name is there.
fn insert_entry(v: &mut Vec<DirEntry>, e: DirEntry)
    ensures
        entries_view(final(v)@) == insert_sorted(entries_view(old(v)@), e@),
{
    let ghost s = entries_view(v@);
    let n = v.len();
    let mut j: usize = 0;
    while j < n && name_less(&v[j].name, &e.name)
        invariant
            n == v.len(),
            s == entries_view(v@),
            j <= n,
            forall|k: int| 0 <= k < j ==> name_lt(#[trigger] s[k].0, e@.0),
        decreases n - j,
    {
        j = j + 1;
    }
    proof {
        lemma_insert_prefix(s, e@, j as int);
    }
    if j < n && v[j].name == e.name {
        assert(s.skip(j as int)[0] == s[j as int]);
        assert(s.take(j as int) + s.skip(j as int) =~= s);
        return;
    }
    let ghost ev = e@;
    v.insert(j, e);
    proof {
        if j < n {
            assert(s.skip(j as int)[0] == s[j as int]);
        }
        assert(entries_view(v@) =~= s.take(j as int) + insert_sorted(s.skip(j as int), ev));
    }
}

/// The nodes that the folder `dir` shows, sorted by name, given the entries
/// that reading it returned. Hidden names are left out; with `txt_only`, so
/// are files without the `txt` extension.
pub fn scan_directory(dir: &NodePath, listing: &Vec<DirEntry>, txt_only: bool) -> (r: Vec<Node>)
    ensures
        nodes_view(r@) == scan(dir@, entries_view(listing@), txt_only),
{
    let ghost l = entries_view(listing@);
    let mut sorted: Vec<DirEntry> = Vec::new();
    let n = listing.len();
    let mut i: usize = 0;
    while i < n
        invariant
            n == listing.len(),
            l == entries_view(listing@),
            i <= n,
            entries_view(sorted@) == sorted_listing(l.take(i as int), txt_only),
        decreases n - i,
    {
        let e = &listing[i];
        assert(l.take(i + 1).drop_last() =~= l.take(i as int));
        assert(l.take(i + 1).last() == e@);
        if !name_is_hidden(&e.name) && (e.is_dir || !txt_only || name_has_txt_extension(&e.name)) {
            insert_entry(&mut sorted, e.clone_entry());
        }
        i = i + 1;
    }
    assert(l.take(n as int) =~= l);
    let ghost s = entries_view(sorted@);
    let mut r: Vec<Node> = Vec::new();
    let m = sorted.len();
    let mut k: usize = 0;
    while k < m
        invariant
            m == sorted.len(),
            s == entries_view(sorted@),
            k <= m,
            r@.len() == k,
            nodes_view(r@) == s.take(k as int).map_values(|x: EntryModel| entry_node(dir@, x)),
        decreases m - k,
    {
        let e = &sorted[k];
        let node = Node { path: dir.join(&e.name), is_dir: e.is_dir };
        assert(s[k as int] == e@);
        assert(node@ == entry_node(dir@, s[k as int]));
        let ghost before = r@;
        r.push(node);
        assert(r@ == before.push(node));
        proof {
            let f = |x: EntryModel| entry_node(dir@, x);
            assert forall|t: int| 0 <= t < k implies #[trigger] nodes_view(r@)[t] == s.take(k + 1).map_values(f)[t] by {
                assert(nodes_view(r@)[t] == before[t]@);
                assert(nodes_view(before)[t] == s.take(k as int).map_values(f)[t]);
            }
            assert(nodes_view(r@)[k as int] == s.take(k + 1).map_values(f)[k as int]);
            assert(nodes_view(r@) =~= s.take(k + 1).map_values(f));
        }
        k = k + 1;
    }
    assert(s.take(m as int) =~= s);
    r
}

/// The folders and `.txt` files under `dir`, hidden names left out, sorted
/// by name: the top level of a workspace.
pub fn get_txt_files_and_dirs_in_directory(dir: &NodePath, listing: &Vec<DirEntry>) -> (r: Vec<
    Node,
>)
    ensures
        nodes_view(r@) == scan(dir@, entries_view(listing@), true),
{
    scan_directory(dir, listing, true)
}

pub open spec fn paths_view(l: Seq<NodePath>) -> Seq<PathModel> {
    l.map_values(|p: NodePath| p@)
}

/// The paths of the folders and `.txt` files under `dir`, hidden names left
/// out, sorted by name.
pub fn get_txt_files_in_directory(dir: &NodePath, listing: &Vec<DirEntry>) -> (r: Vec<NodePath>)
    ensures
        paths_view(r@) == scan(dir@, entries_view(listing@), true).map_values(
            |n: NodeModel| n.0,
        ),
{
    let nodes = scan_directory(dir, listing, true);
    let ghost s = nodes_view(nodes@);
    let mut r: Vec<NodePath> = Vec::new();
    let n = nodes.len();
    let mut i: usize = 0;
    while i < n
        invariant
            n == nodes.len(),
            s == nodes_view(nodes@),
            i <= n,
            r@.len() == i,
            paths_view(r@) == s.take(i as int).map_values(|x: NodeModel| x.0),
        decreases n - i,
    {
        let p = nodes[i].path.clone_path();
        assert(p@ == s[i as int].0);
        let ghost before = r@;
        r.push(p);
        assert(r@ == before.push(p));
        proof {
            let f = |x: NodeModel| x.0;
            assert forall|t: int| 0 <= t < i implies #[trigger] paths_view(r@)[t] == s.take(i + 1).map_values(f)[t] by {
                assert(paths_view(r@)[t] == before[t]@);
                assert(paths_view(before)[t] == s.take(i as int).map_values(f)[t]);
            }
            assert(paths_view(r@)[i as int] == s.take(i + 1).map_values(f)[i as int]);
            assert(paths_view(r@) =~= s.take(i + 1).map_values(f));
        }
        i = i + 1;
    }
    assert(s.take(n as int) =~= s);
    r
}

proof fn lemma_sorted_cons(h: EntryModel, t: Seq<EntryModel>)
    requires
        strictly_sorted(t),
        forall|j: int| 0 <= j < t.len() ==> name_lt(h.0, #[trigger] t[j].0),
    ensures
        strictly_sorted(seq![h] + t),
{
    let r = seq![h] + t;
    assert forall|i: int, j: int| 0 <= i < j < r.len() implies name_lt(r[i].0, r[j].0) by {
        assert(r[j] == t[j - 1]);
        if i > 0 {
            assert(r[i] == t[i - 1]);
        }
    }
}

proof fn lemma_contains_cons(h: EntryModel, t: Seq<EntryModel>, x: EntryModel)
    ensures
        (seq![h] + t).contains(x) <==> (x == h || t.contains(x)),
{
    let r = seq![h] + t;
    if r.contains(x) {
        let i = choose|i: int| 0 <= i < r.len() && r[i] == x;
        if i > 0 {
            assert(t[i - 1] == x);
        }
    }
    if x == h {
        assert(r[0] == x);
    }
    if t.contains(x) {
        let i = choose|i: int| 0 <= i < t.len() && t[i] == x;
        assert(r[i + 1] == x);
    }
}

proof fn lemma_insert_sorted(s: Seq<EntryModel>, e: EntryModel)
    requires
        strictly_sorted(s),
        forall|k: int| 0 <= k < s.len() ==> (#[trigger] s[k]).0 != e.0,
    ensures
        strictly_sorted(insert_sorted(s, e)),
        forall|x: EntryModel|
            #[trigger] insert_sorted(s, e).contains(x) <==> (s.contains(x) || x == e),
    decreases s.len(),
{
    if s.len() == 0 {
        assert forall|x: EntryModel| #[trigger] insert_sorted(s, e).contains(x) <==> (s.contains(x) || x == e) by {
            lemma_contains_cons(e, s, x);
            assert(seq![e] + s =~= seq![e]);
        }
    } else {
        let t = s.drop_first();
        assert(s =~= seq![s[0]] + t);
        assert(strictly_sorted(t)) by {
            assert forall|i: int, j: int| 0 <= i < j < t.len() implies name_lt(t[i].0, t[j].0) by {
                assert(t[i] == s[i + 1] && t[j] == s[j + 1]);
            }
        }
        if name_lt(s[0].0, e.0) {
            assert forall|k: int| 0 <= k < t.len() implies (#[trigger] t[k]).0 != e.0 by {
                assert(t[k] == s[k + 1]);
            }
            lemma_insert_sorted(t, e);
            let r = insert_sorted(t, e);
            assert forall|j: int| 0 <= j < r.len() implies name_lt(s[0].0, #[trigger] r[j].0) by {
                assert(r.contains(r[j]));
                if r[j] != e {
                    let i = choose|i: int| 0 <= i < t.len() && t[i] == r[j];
                    assert(t[i] == s[i + 1]);
                }
            }
            lemma_sorted_cons(s[0], r);
            assert forall|x: EntryModel| #[trigger] insert_sorted(s, e).contains(x) <==> (s.contains(x) || x == e) by {
                lemma_contains_cons(s[0], r, x);
                lemma_contains_cons(s[0], t, x);
            }
        } else {
            assert(s[0].0 != e.0);
            lemma_name_lt_total(s[0].0, e.0);
            assert forall|j: int| 0 <= j < s.len() implies name_lt(e.0, #[trigger] s[j].0) by {
                if j > 0 {
                    lemma_name_lt_transitive(e.0, s[0].0, s[j].0);
                }
            }
            lemma_sorted_cons(e, s);
            assert forall|x: EntryModel| #[trigger] insert_sorted(s, e).contains(x) <==> (s.contains(x) || x == e) by {
                lemma_contains_cons(e, s, x);
            }
        }
    }
}

proof fn lemma_contains_drop_last(l: Seq<EntryModel>, x: EntryModel)
    requires
        l.len() > 0,
    ensures
        l.contains(x) <==> (l.drop_last().contains(x) || x == l.last()),
{
    let p = l.drop_last();
    if l.contains(x) && x != l.last() {
        let i = choose|i: int| 0 <= i < l.len() && l[i] == x;
        assert(p[i] == x);
    }
    if p.contains(x) {
        let i = choose|i: int| 0 <= i < p.len() && p[i] == x;
        assert(l[i] == x);
    }
    if x == l.last() {
        assert(l[l.len() - 1] == x);
    }
}

pub proof fn lemma_sorted_listing(l: Seq<EntryModel>, txt_only: bool)
    requires
        names_unique(l),
    ensures
        strictly_sorted(sorted_listing(l, txt_only)),
        forall|x: EntryModel|
            #[trigger] sorted_listing(l, txt_only).contains(x) <==> (l.contains(x) && is_listed(
                x,
                txt_only,
            )),
    decreases l.len(),
{
    if l.len() > 0 {
        let p = l.drop_last();
        let rest = sorted_listing(p, txt_only);
        lemma_sorted_listing(p, txt_only);
        if is_listed(l.last(), txt_only) {
            assert forall|k: int| 0 <= k < rest.len() implies (#[trigger] rest[k]).0 != l.last().0 by {
                assert(rest.contains(rest[k]));
                let i = choose|i: int| 0 <= i < p.len() && p[i] == rest[k];
                assert(l[i] == p[i]);
            }
            lemma_insert_sorted(rest, l.last());
        }
        assert forall|x: EntryModel| #[trigger] sorted_listing(l, txt_only).contains(x) <==> (l.contains(x) && is_listed(x, txt_only)) by {
            lemma_contains_drop_last(l, x);
        }
    } else {
        assert forall|x: EntryModel| #[trigger] sorted_listing(l, txt_only).contains(x) <==> (l.contains(x) && is_listed(x, txt_only)) by {
            if l.contains(x) {
                let i = choose|i: int| 0 <= i < l.len() && l[i] == x;
            }
        }
    }
}

proof fn lemma_sorted_unique(a: Seq<EntryModel>, b: Seq<EntryModel>)
    requires
        strictly_sorted(a),
        strictly_sorted(b),
        forall|x: EntryModel| a.contains(x) <==> b.contains(x),
    ensures
        a == b,
    decreases a.len(),
{
    if a.len() == 0 {
        if b.len() > 0 {
            assert(b.contains(b[0]));
        }
        assert(a =~= b);
    } else {
        assert(a.contains(a[0]));
        let k = choose|k: int| 0 <= k < b.len() && b[k] == a[0];
        assert(b.contains(b[0]));
        let m = choose|m: int| 0 <= m < a.len() && a[m] == b[0];
        if k > 0 && m > 0 {
            lemma_name_lt_asymmetric(a[0].0, b[0].0);
        }
        assert(a[0] == b[0]);
        let ta = a.drop_first();
        let tb = b.drop_first();
        assert(a =~= seq![a[0]] + ta);
        assert(b =~= seq![b[0]] + tb);
        assert forall|i: int, j: int| 0 <= i < j < ta.len() implies name_lt(ta[i].0, ta[j].0) by {
            assert(ta[i] == a[i + 1] && ta[j] == a[j + 1]);
        }
        assert forall|i: int, j: int| 0 <= i < j < tb.len() implies name_lt(tb[i].0, tb[j].0) by {
            assert(tb[i] == b[i + 1] && tb[j] == b[j + 1]);
        }
        assert forall|x: EntryModel| ta.contains(x) <==> tb.contains(x) by {
            lemma_contains_cons(a[0], ta, x);
            lemma_contains_cons(b[0], tb, x);
            if ta.contains(x) {
                let i = choose|i: int| 0 <= i < ta.len() && ta[i] == x;
                assert(name_lt(a[0].0, a[i + 1].0));
                lemma_name_lt_irreflexive(x.0);
            }
            if tb.contains(x) {
                let i = choose|i: int| 0 <= i < tb.len() && tb[i] == x;
                assert(name_lt(b[0].0, b[i + 1].0));
                lemma_name_lt_irreflexive(x.0);
            }
        }
        lemma_sorted_unique(ta, tb);
    }
}

/// A folder read twice with no change in between shows the same nodes in the
/// same order, even where the two reads list its entries in another order.
pub proof fn lemma_scan_same_entries(
    dir: PathModel,
    a: Seq<EntryModel>,
    b: Seq<EntryModel>,
    txt_only: bool,
)
    requires
        names_unique(a),
        names_unique(b),
        forall|x: EntryModel| a.contains(x) <==> b.contains(x),
    ensures
        scan(dir, a, txt_only) == scan(dir, b, txt_only),
{
    lemma_sorted_listing(a, txt_only);
    lemma_sorted_listing(b, txt_only);
    let sa = sorted_listing(a, txt_only);
    let sb = sorted_listing(b, txt_only);
    assert forall|x: EntryModel| sa.contains(x) <==> sb.contains(x) by {
        assert(sa.contains(x) <==> (a.contains(x) && is_listed(x, txt_only)));
        assert(sb.contains(x) <==> (b.contains(x) && is_listed(x, txt_only)));
    }
    lemma_sorted_unique(sa, sb);
}

} // verus!
