//! The public-item diff engine.
//!
//! [`PublicItemsDiff::between`] computes a stable, deterministic,
//! duplicate-safe difference between two collections of [`PublicItem`]s. The
//! algorithm sorts both collections in the total order of [`item_cmp_spec`]
//! and then merges them from the greatest element down, so that items are
//! only ever moved, never synthesized or collapsed: two distinct source
//! declarations that render identically are both kept.

use vstd::prelude::*;

use crate::item::PublicItem;
use crate::item::PublicItemView;
use crate::item::item_cmp;
use crate::item::item_cmp_spec;
use crate::item::item_eq;
use crate::item::item_le;
use crate::item::item_lt;
use crate::item::path_eq;

verus! {

/// An item whose path occurs in both collections but whose structure
/// changed between them.
#[derive(Debug, Clone, PartialEq, Eq)]
pub struct ChangedPublicItem {
    /// How the item used to look.
    pub old: PublicItem,
    /// How the item looks now.
    pub new: PublicItem,
}

/// Mathematical model of a [`ChangedPublicItem`].
#[verifier::ext_equal]
pub ghost struct ChangedPublicItemView {
    pub old: PublicItemView,
    pub new: PublicItemView,
}

impl View for ChangedPublicItem {
    type V = ChangedPublicItemView;

    open spec fn view(&self) -> ChangedPublicItemView {
        ChangedPublicItemView { old: self.old@, new: self.new@ }
    }
}

impl DeepView for ChangedPublicItem {
    type V = ChangedPublicItemView;

    open spec fn deep_view(&self) -> ChangedPublicItemView {
        self.view()
    }
}

/// The result of comparing two collections of public items.
#[derive(Debug, Clone, PartialEq, Eq)]
pub struct PublicItemsDiff {
    /// Items that are gone from the public API. A major change.
    pub removed: Vec<PublicItem>,
    /// Items whose structure changed while their path remained.
    pub changed: Vec<ChangedPublicItem>,
    /// Items new to the public API. A minor change.
    pub added: Vec<PublicItem>,
}

/// Mathematical model of a [`PublicItemsDiff`].
#[verifier::ext_equal]
pub ghost struct DiffView {
    pub removed: Seq<PublicItemView>,
    pub changed: Seq<ChangedPublicItemView>,
    pub added: Seq<PublicItemView>,
}

impl View for PublicItemsDiff {
    type V = DiffView;

    open spec fn view(&self) -> DiffView {
        DiffView {
            removed: self.removed.deep_view(),
            changed: self.changed.deep_view(),
            added: self.added.deep_view(),
        }
    }
}

/// Inserts `x` into the already sorted sequence `s`, after every element
/// that is less than or equal to it.
pub open spec fn insert_sorted(s: Seq<PublicItemView>, x: PublicItemView) -> Seq<PublicItemView>
    decreases s.len(),
{
    if s.len() == 0 {
        seq![x]
    } else if item_le(s.last(), x) {
        s.push(x)
    } else {
        insert_sorted(s.drop_last(), x).push(s.last())
    }
}

/// Insertion sort of a sequence of items in the diff engine's total order.
pub open spec fn sort_items(s: Seq<PublicItemView>) -> Seq<PublicItemView>
    decreases s.len(),
{
    if s.len() == 0 {
        Seq::empty()
    } else {
        insert_sorted(sort_items(s.drop_last()), s.last())
    }
}

/// The merge underlying the diff: both sequences must be sorted ascending;
/// elements are considered from the greatest down, and each step classifies
/// one or two of them as removed, changed, added or unchanged.
pub open spec fn merge_sorted(old: Seq<PublicItemView>, new: Seq<PublicItemView>) -> DiffView
    decreases old.len() + new.len(),
{
    if old.len() == 0 && new.len() == 0 {
        DiffView { removed: Seq::empty(), changed: Seq::empty(), added: Seq::empty() }
    } else if new.len() == 0 {
        let d = merge_sorted(old.drop_last(), new);
        DiffView { removed: d.removed.push(old.last()), changed: d.changed, added: d.added }
    } else if old.len() == 0 {
        let d = merge_sorted(old, new.drop_last());
        DiffView { removed: d.removed, changed: d.changed, added: d.added.push(new.last()) }
    } else {
        let o = old.last();
        let n = new.last();
        if o != n && o.path == n.path {
            let d = merge_sorted(old.drop_last(), new.drop_last());
            DiffView {
                removed: d.removed,
                changed: d.changed.push(ChangedPublicItemView { old: o, new: n }),
                added: d.added,
            }
        } else if item_lt(o, n) {
            let d = merge_sorted(old, new.drop_last());
            DiffView { removed: d.removed, changed: d.changed, added: d.added.push(n) }
        } else if item_lt(n, o) {
            let d = merge_sorted(old.drop_last(), new);
            DiffView { removed: d.removed.push(o), changed: d.changed, added: d.added }
        } else {
            merge_sorted(old.drop_last(), new.drop_last())
        }
    }
}

/// What [`PublicItemsDiff::between`] returns, as a function of the two
/// input collections.
pub open spec fn diff_spec(old: Seq<PublicItemView>, new: Seq<PublicItemView>) -> DiffView {
    merge_sorted(sort_items(old), sort_items(new))
}

/// Returns the elements of `v` in reverse order.
fn reversed<T>(v: Vec<T>) -> (r: Vec<T>)
    ensures
        r@ == v@.reverse(),
{
    let ghost v0 = v@;
    let mut v = v;
    let mut r: Vec<T> = Vec::new();
    while v.len() > 0
        invariant
            v.len() <= v0.len(),
            v@ == v0.take(v.len() as int),
            r@ == v0.skip(v.len() as int).reverse(),
        decreases v.len(),
    {
        let ghost k: int = v.len() as int;
        let x = v.pop().unwrap();
        r.push(x);
        proof {
            assert(v@ =~= v0.take(k - 1));
            assert(v0.skip(k - 1) =~= seq![v0[k - 1]] + v0.skip(k));
            assert(v0.skip(k - 1).reverse() =~= v0.skip(k).reverse().push(v0[k - 1]));
        }
    }
    proof {
        assert(v0.skip(0) =~= v0);
        assert(v0.take(v.len() as int) =~= v@);
    }
    r
}

/// The position scan of the insertion step agrees with [`insert_sorted`].
proof fn lemma_insert_position(s: Seq<PublicItemView>, x: PublicItemView, j: int)
    requires
        0 <= j <= s.len(),
        forall|k: int| j <= k < s.len() ==> item_cmp_spec(#[trigger] s[k], x)
            == core::cmp::Ordering::Greater,
        j > 0 ==> item_cmp_spec(s[j - 1], x) != core::cmp::Ordering::Greater,
    ensures
        insert_sorted(s, x) == s.take(j) + seq![x] + s.skip(j),
    decreases s.len() - j,
{
    if j == s.len() {
        if s.len() == 0 {
            assert(insert_sorted(s, x) =~= s.take(j) + seq![x] + s.skip(j));
        } else {
            assert(item_le(s.last(), x));
            assert(s.push(x) =~= s.take(j) + seq![x] + s.skip(j));
        }
    } else {
        assert(item_cmp_spec(s.last(), x) == core::cmp::Ordering::Greater);
        assert(!item_le(s.last(), x));
        let t = s.drop_last();
        lemma_insert_position(t, x, j);
        assert(insert_sorted(s, x) == insert_sorted(t, x).push(s.last()));
        assert((t.take(j) + seq![x] + t.skip(j)).push(s.last()) =~= s.take(j) + seq![x] + s.skip(
            j,
        ));
    }
}

/// Inserts `x` into the sorted vector `out`, keeping it sorted.
fn insert_in_order(out: &mut Vec<PublicItem>, x: PublicItem)
    ensures
        final(out).deep_view() == insert_sorted(old(out).deep_view(), x@),
{
    let mut j: usize = out.len();
    while j > 0 && matches!(item_cmp(&out[j - 1], &x), core::cmp::Ordering::Greater)
        invariant
            j <= out.len(),
            forall|k: int| j <= k < out.len() ==> item_cmp_spec(
                #[trigger] out.deep_view()[k],
                x@,
            ) == core::cmp::Ordering::Greater,
        decreases j,
    {
        j = j - 1;
    }
    proof {
        lemma_insert_position(out.deep_view(), x@, j as int);
    }
    let ghost prior = out.deep_view();
    out.insert(j, x);
    proof {
        assert(out.deep_view() =~= prior.take(j as int) + seq![x@] + prior.skip(j as int));
    }
}

/// Reversing a vector reverses its deep view.
proof fn lemma_deep_reverse<T: DeepView>(a: &Vec<T>, b: &Vec<T>)
    requires
        b@ == a@.reverse(),
    ensures
        b.deep_view() == a.deep_view().reverse(),
{
    assert(b.deep_view() =~= a.deep_view().reverse()) by {
        assert forall|i: int| 0 <= i < b@.len() implies b.deep_view()[i]
            == a.deep_view().reverse()[i] by {
            assert(b@[i] == a@[a@.len() - 1 - i]);
        }
    }
}

/// Sorts the items ascending in the diff engine's total order.
fn sort_vec(v: Vec<PublicItem>) -> (out: Vec<PublicItem>)
    ensures
        out.deep_view() == sort_items(v.deep_view()),
    decreases v.len(),
{
    let ghost v0 = v.deep_view();
    let mut v = v;
    let last = v.pop();
    match last {
        None => {
            proof {
                assert(v0 =~= Seq::<PublicItemView>::empty());
            }
            v
        },
        Some(x) => {
            proof {
                assert(v.deep_view() =~= v0.drop_last());
                assert(x@ == v0.last());
            }
            let mut out = sort_vec(v);
            insert_in_order(&mut out, x);
            out
        },
    }
}

impl PublicItemsDiff {
    /// Computes the difference of the public API between two arbitrary
    /// versions of a library, for example two releases.
    ///
    /// The input collections may contain duplicate-valued items; such items
    /// are matched pairwise in sorted order, never collapsed. The three
    /// output collections come out sorted ascending in the total order of
    /// [`item_cmp_spec`].
    #[verifier::rlimit(50)]
    pub fn between(old_items: Vec<PublicItem>, new_items: Vec<PublicItem>) -> (diff: Self)
        ensures
            diff@ == diff_spec(old_items.deep_view(), new_items.deep_view()),
    {
        let mut old_sorted = sort_vec(old_items);
        let mut new_sorted = sort_vec(new_items);
        let ghost os = old_sorted.deep_view();
        let ghost ns = new_sorted.deep_view();

        // The merge consumes both stacks from the greatest element down, so
        // each classification lands in its vector in descending order; the
        // final reversals restore the ascending order of the result.
        let mut removed_rev: Vec<PublicItem> = Vec::new();
        let mut changed_rev: Vec<ChangedPublicItem> = Vec::new();
        let mut added_rev: Vec<PublicItem> = Vec::new();
        proof {
            assert(os.take(os.len() as int) =~= os);
            assert(ns.take(ns.len() as int) =~= ns);
            assert(merge_sorted(os, ns).removed =~= merge_sorted(os, ns).removed
                + removed_rev.deep_view().reverse());
            assert(merge_sorted(os, ns).changed =~= merge_sorted(os, ns).changed
                + changed_rev.deep_view().reverse());
            assert(merge_sorted(os, ns).added =~= merge_sorted(os, ns).added
                + added_rev.deep_view().reverse());
        }
        while old_sorted.len() > 0 || new_sorted.len() > 0
            invariant
                old_sorted.len() <= os.len(),
                new_sorted.len() <= ns.len(),
                old_sorted.deep_view() == os.take(old_sorted.len() as int),
                new_sorted.deep_view() == ns.take(new_sorted.len() as int),
                merge_sorted(os, ns).removed == merge_sorted(
                    os.take(old_sorted.len() as int),
                    ns.take(new_sorted.len() as int),
                ).removed + removed_rev.deep_view().reverse(),
                merge_sorted(os, ns).changed == merge_sorted(
                    os.take(old_sorted.len() as int),
                    ns.take(new_sorted.len() as int),
                ).changed + changed_rev.deep_view().reverse(),
                merge_sorted(os, ns).added == merge_sorted(
                    os.take(old_sorted.len() as int),
                    ns.take(new_sorted.len() as int),
                ).added + added_rev.deep_view().reverse(),
            decreases old_sorted.len() + new_sorted.len(),
        {
            let ghost i: int = old_sorted.len() as int;
            let ghost j: int = new_sorted.len() as int;
            proof {
                if i > 0 {
                    assert(os.take(i).drop_last() =~= os.take(i - 1));
                }
                if j > 0 {
                    assert(ns.take(j).drop_last() =~= ns.take(j - 1));
                }
            }
            if new_sorted.len() == 0 {
                let o = old_sorted.pop().unwrap();
                let ghost prev = removed_rev.deep_view();
                proof {
                    assert(o@ == os[i - 1]);
                    assert(old_sorted.deep_view() =~= os.take(i - 1));
                    assert(merge_sorted(os.take(i), ns.take(j)).removed == merge_sorted(
                        os.take(i - 1),
                        ns.take(j),
                    ).removed.push(o@));
                }
                removed_rev.push(o);
                proof {
                    assert(removed_rev.deep_view() =~= prev.push(o@));
                    lemma_step_extends(
                        merge_sorted(os, ns).removed,
                        merge_sorted(os.take(i - 1), ns.take(j)).removed,
                        prev,
                        o@,
                    );
                }
            } else if old_sorted.len() == 0 {
                let n = new_sorted.pop().unwrap();
                let ghost prev = added_rev.deep_view();
                proof {
                    assert(n@ == ns[j - 1]);
                    assert(new_sorted.deep_view() =~= ns.take(j - 1));
                    assert(merge_sorted(os.take(i), ns.take(j)).added == merge_sorted(
                        os.take(i),
                        ns.take(j - 1),
                    ).added.push(n@));
                }
                added_rev.push(n);
                proof {
                    assert(added_rev.deep_view() =~= prev.push(n@));
                    lemma_step_extends(
                        merge_sorted(os, ns).added,
                        merge_sorted(os.take(i), ns.take(j - 1)).added,
                        prev,
                        n@,
                    );
                }
            } else {
                let o = old_sorted.pop().unwrap();
                let n = new_sorted.pop().unwrap();
                proof {
                    assert(o@ == os[i - 1]);
                    assert(n@ == ns[j - 1]);
                    assert(old_sorted.deep_view() =~= os.take(i - 1));
                    assert(new_sorted.deep_view() =~= ns.take(j - 1));
                }
                if !item_eq(&o, &n) && path_eq(&o, &n) {
                    // Same identity, but the declaration changed shape.
                    let ghost pair = ChangedPublicItemView { old: o@, new: n@ };
                    let ghost prev = changed_rev.deep_view();
                    proof {
                        assert(merge_sorted(os.take(i), ns.take(j)).changed == merge_sorted(
                            os.take(i - 1),
                            ns.take(j - 1),
                        ).changed.push(pair));
                    }
                    changed_rev.push(ChangedPublicItem { old: o, new: n });
                    proof {
                        assert(changed_rev.deep_view() =~= prev.push(pair));
                        lemma_step_extends(
                            merge_sorted(os, ns).changed,
                            merge_sorted(os.take(i - 1), ns.take(j - 1)).changed,
                            prev,
                            pair,
                        );
                    }
                } else {
                    match item_cmp(&o, &n) {
                        core::cmp::Ordering::Less => {
                            // No counterpart for the new item can remain on
                            // the old side; reconsider the old item later.
                            let ghost prev = added_rev.deep_view();
                            proof {
                                assert(merge_sorted(os.take(i), ns.take(j)).added
                                    == merge_sorted(os.take(i), ns.take(j - 1)).added.push(n@));
                            }
                            added_rev.push(n);
                            old_sorted.push(o);
                            proof {
                                assert(old_sorted.deep_view() =~= os.take(i));
                                assert(added_rev.deep_view() =~= prev.push(n@));
                                lemma_step_extends(
                                    merge_sorted(os, ns).added,
                                    merge_sorted(os.take(i), ns.take(j - 1)).added,
                                    prev,
                                    n@,
                                );
                            }
                        },
                        core::cmp::Ordering::Equal => {
                            // The same declaration is present unchanged in
                            // both collections; it leaves no trace.
                            proof {
                                crate::item::lemma_item_cmp_flip(o@, n@);
                                assert(merge_sorted(os.take(i), ns.take(j)) == merge_sorted(
                                    os.take(i - 1),
                                    ns.take(j - 1),
                                ));
                            }
                        },
                        core::cmp::Ordering::Greater => {
                            let ghost prev = removed_rev.deep_view();
                            proof {
                                crate::item::lemma_item_cmp_flip(o@, n@);
                                assert(crate::item::item_lt(n@, o@));
                                assert(merge_sorted(os.take(i), ns.take(j)).removed
                                    == merge_sorted(os.take(i - 1), ns.take(j)).removed.push(o@));
                            }
                            removed_rev.push(o);
                            new_sorted.push(n);
                            proof {
                                assert(new_sorted.deep_view() =~= ns.take(j));
                                assert(removed_rev.deep_view() =~= prev.push(o@));
                                lemma_step_extends(
                                    merge_sorted(os, ns).removed,
                                    merge_sorted(os.take(i - 1), ns.take(j)).removed,
                                    prev,
                                    o@,
                                );
                            }
                        },
                    }
                }
            }
        }
        proof {
            assert(os.take(0) =~= Seq::<PublicItemView>::empty());
            assert(ns.take(0) =~= Seq::<PublicItemView>::empty());
            assert(merge_sorted(os, ns).removed =~= removed_rev.deep_view().reverse());
            assert(merge_sorted(os, ns).changed =~= changed_rev.deep_view().reverse());
            assert(merge_sorted(os, ns).added =~= added_rev.deep_view().reverse());
        }
        let ghost removed_rev_snap = removed_rev;
        let ghost changed_rev_snap = changed_rev;
        let ghost added_rev_snap = added_rev;
        let removed = reversed(removed_rev);
        let changed = reversed(changed_rev);
        let added = reversed(added_rev);
        proof {
            lemma_deep_reverse(&removed_rev_snap, &removed);
            lemma_deep_reverse(&changed_rev_snap, &changed);
            lemma_deep_reverse(&added_rev_snap, &added);
        }
        Self { removed, changed, added }
    }
}

/// How many items the merge drops as unchanged: those present identically
/// in both sorted sequences.
pub open spec fn unchanged_count(old: Seq<PublicItemView>, new: Seq<PublicItemView>) -> nat
    decreases old.len() + new.len(),
{
    if old.len() == 0 && new.len() == 0 {
        0
    } else if new.len() == 0 {
        unchanged_count(old.drop_last(), new)
    } else if old.len() == 0 {
        unchanged_count(old, new.drop_last())
    } else {
        let o = old.last();
        let n = new.last();
        if o != n && o.path == n.path {
            unchanged_count(old.drop_last(), new.drop_last())
        } else if item_lt(o, n) {
            unchanged_count(old, new.drop_last())
        } else if item_lt(n, o) {
            unchanged_count(old.drop_last(), new)
        } else {
            1 + unchanged_count(old.drop_last(), new.drop_last())
        }
    }
}

/// The number of unchanged items underlying [`diff_spec`]: the same value
/// is reached from the old side and from the new side of the diff.
pub open spec fn diff_unchanged_count(old: Seq<PublicItemView>, new: Seq<PublicItemView>) -> nat {
    unchanged_count(sort_items(old), sort_items(new))
}

/// Inserting into a sequence grows it by exactly one element.
proof fn lemma_insert_sorted_len(s: Seq<PublicItemView>, x: PublicItemView)
    ensures
        insert_sorted(s, x).len() == s.len() + 1,
    decreases s.len(),
{
    if s.len() == 0 {
    } else if item_le(s.last(), x) {
    } else {
        lemma_insert_sorted_len(s.drop_last(), x);
    }
}

/// Sorting preserves the length of a sequence.
pub proof fn lemma_sort_items_len(s: Seq<PublicItemView>)
    ensures
        sort_items(s).len() == s.len(),
    decreases s.len(),
{
    if s.len() > 0 {
        lemma_sort_items_len(s.drop_last());
        lemma_insert_sorted_len(sort_items(s.drop_last()), s.last());
    }
}

/// The merge classifies every element of both inputs exactly once: each old
/// element is removed, changed or unchanged, and each new element is added,
/// changed or unchanged, with one shared count of unchanged items.
proof fn lemma_merge_counts(old: Seq<PublicItemView>, new: Seq<PublicItemView>)
    ensures
        old.len() == merge_sorted(old, new).removed.len() + merge_sorted(old, new).changed.len()
            + unchanged_count(old, new),
        new.len() == merge_sorted(old, new).added.len() + merge_sorted(old, new).changed.len()
            + unchanged_count(old, new),
    decreases old.len() + new.len(),
{
    if old.len() == 0 && new.len() == 0 {
    } else if new.len() == 0 {
        lemma_merge_counts(old.drop_last(), new);
    } else if old.len() == 0 {
        lemma_merge_counts(old, new.drop_last());
    } else {
        let o = old.last();
        let n = new.last();
        if o != n && o.path == n.path {
            lemma_merge_counts(old.drop_last(), new.drop_last());
        } else if item_lt(o, n) {
            lemma_merge_counts(old, new.drop_last());
        } else if item_lt(n, o) {
            lemma_merge_counts(old.drop_last(), new);
        } else {
            lemma_merge_counts(old.drop_last(), new.drop_last());
        }
    }
}

/// Every item of the old collection lands in exactly one of `removed`,
/// `changed` or the unchanged remainder, and every item of the new
/// collection in exactly one of `added`, `changed` or the same unchanged
/// remainder: `|old| = |removed| + |changed| + unchanged` and
/// `|new| = |added| + |changed| + unchanged` for one shared value.
pub proof fn lemma_diff_counts(old: Seq<PublicItemView>, new: Seq<PublicItemView>)
    ensures
        old.len() == diff_spec(old, new).removed.len() + diff_spec(old, new).changed.len()
            + diff_unchanged_count(old, new),
        new.len() == diff_spec(old, new).added.len() + diff_spec(old, new).changed.len()
            + diff_unchanged_count(old, new),
{
    lemma_sort_items_len(old);
    lemma_sort_items_len(new);
    lemma_merge_counts(sort_items(old), sort_items(new));
}

/// Merging a sorted sequence with itself classifies nothing.
proof fn lemma_merge_self(s: Seq<PublicItemView>)
    ensures
        merge_sorted(s, s) == (DiffView {
            removed: Seq::<PublicItemView>::empty(),
            changed: Seq::<ChangedPublicItemView>::empty(),
            added: Seq::<PublicItemView>::empty(),
        }),
    decreases s.len(),
{
    if s.len() > 0 {
        crate::item::lemma_item_cmp_eq(s.last(), s.last());
        lemma_merge_self(s.drop_last());
    }
}

/// Diffing any collection against itself yields empty `removed`, `changed`
/// and `added`, including collections containing duplicate-valued items.
pub proof fn lemma_diff_self(x: Seq<PublicItemView>)
    ensures
        diff_spec(x, x).removed == Seq::<PublicItemView>::empty(),
        diff_spec(x, x).changed == Seq::<ChangedPublicItemView>::empty(),
        diff_spec(x, x).added == Seq::<PublicItemView>::empty(),
{
    lemma_merge_self(sort_items(x));
}

/// Exchanges the two sides of a changed pair.
pub open spec fn swap_changed(c: ChangedPublicItemView) -> ChangedPublicItemView {
    ChangedPublicItemView { old: c.new, new: c.old }
}

/// The merge run in the reverse direction swaps removed with added and
/// swaps the sides of every changed pair.
proof fn lemma_merge_flip(old: Seq<PublicItemView>, new: Seq<PublicItemView>)
    ensures
        merge_sorted(new, old).removed == merge_sorted(old, new).added,
        merge_sorted(new, old).added == merge_sorted(old, new).removed,
        merge_sorted(new, old).changed == merge_sorted(old, new).changed.map_values(
            |c: ChangedPublicItemView| swap_changed(c),
        ),
    decreases old.len() + new.len(),
{
    let f = |c: ChangedPublicItemView| swap_changed(c);
    if old.len() == 0 && new.len() == 0 {
        assert(Seq::<ChangedPublicItemView>::empty().map_values(f)
            =~= Seq::<ChangedPublicItemView>::empty());
    } else if new.len() == 0 {
        lemma_merge_flip(old.drop_last(), new);
    } else if old.len() == 0 {
        lemma_merge_flip(old, new.drop_last());
    } else {
        let o = old.last();
        let n = new.last();
        crate::item::lemma_item_cmp_flip(o, n);
        if o != n && o.path == n.path {
            lemma_merge_flip(old.drop_last(), new.drop_last());
            let d = merge_sorted(old.drop_last(), new.drop_last());
            assert(d.changed.map_values(f).push(
                ChangedPublicItemView { old: n, new: o },
            ) =~= d.changed.push(ChangedPublicItemView { old: o, new: n }).map_values(f));
        } else if item_lt(o, n) {
            lemma_merge_flip(old, new.drop_last());
        } else if item_lt(n, o) {
            lemma_merge_flip(old.drop_last(), new);
        } else {
            lemma_merge_flip(old.drop_last(), new.drop_last());
        }
    }
}

/// Diffing in the reverse direction yields the same diff with `added` and
/// `removed` exchanged and each changed pair's old and new sides swapped.
pub proof fn lemma_diff_symmetry(old: Seq<PublicItemView>, new: Seq<PublicItemView>)
    ensures
        diff_spec(new, old).removed == diff_spec(old, new).added,
        diff_spec(new, old).added == diff_spec(old, new).removed,
        diff_spec(new, old).changed == diff_spec(old, new).changed.map_values(
            |c: ChangedPublicItemView| swap_changed(c),
        ),
{
    lemma_merge_flip(sort_items(old), sort_items(new));
}

/// An item is below or equal to itself.
proof fn lemma_item_le_refl(a: PublicItemView)
    ensures
        item_le(a, a),
{
    crate::item::lemma_item_cmp_eq(a, a);
}

/// Pushing an element above a sorted sequence keeps it sorted.
proof fn lemma_sorted_push(s: Seq<PublicItemView>, x: PublicItemView)
    requires
        crate::item::sorted_items(s),
        s.len() > 0 ==> item_le(s.last(), x),
    ensures
        crate::item::sorted_items(s.push(x)),
{
    let t = s.push(x);
    assert forall|i: int, j: int| 0 <= i < j < t.len() implies item_le(t[i], t[j]) by {
        if j == s.len() {
            if i < s.len() - 1 {
                crate::item::lemma_item_le_trans(s[i], s.last(), x);
            }
        }
    }
}

/// Inserting keeps every existing upper bound an upper bound.
proof fn lemma_insert_sorted_bound(s: Seq<PublicItemView>, x: PublicItemView, b: PublicItemView)
    requires
        forall|k: int| 0 <= k < s.len() ==> item_le(#[trigger] s[k], b),
        item_le(x, b),
    ensures
        forall|k: int|
            0 <= k < insert_sorted(s, x).len() ==> item_le(#[trigger] insert_sorted(s, x)[k], b),
    decreases s.len(),
{
    if s.len() == 0 {
    } else if item_le(s.last(), x) {
    } else {
        lemma_insert_sorted_bound(s.drop_last(), x, b);
        assert forall|k: int| 0 <= k < insert_sorted(s, x).len() implies item_le(
            #[trigger] insert_sorted(s, x)[k],
            b,
        ) by {
            if k < insert_sorted(s.drop_last(), x).len() {
                assert(insert_sorted(s, x)[k] == insert_sorted(s.drop_last(), x)[k]);
            }
        }
    }
}

/// Inserting into a sorted sequence keeps it sorted.
proof fn lemma_insert_sorted_sorted(s: Seq<PublicItemView>, x: PublicItemView)
    requires
        crate::item::sorted_items(s),
    ensures
        crate::item::sorted_items(insert_sorted(s, x)),
    decreases s.len(),
{
    if s.len() == 0 {
    } else if item_le(s.last(), x) {
        lemma_sorted_push(s, x);
    } else {
        assert(crate::item::sorted_items(s.drop_last())) by {
            assert forall|i: int, j: int| 0 <= i < j < s.drop_last().len() implies item_le(
                s.drop_last()[i],
                s.drop_last()[j],
            ) by {
                assert(s.drop_last()[i] == s[i]);
                assert(s.drop_last()[j] == s[j]);
            }
        }
        lemma_insert_sorted_sorted(s.drop_last(), x);
        crate::item::lemma_item_cmp_flip(s.last(), x);
        assert(item_le(x, s.last()));
        assert forall|k: int| 0 <= k < s.drop_last().len() implies item_le(
            #[trigger] s.drop_last()[k],
            s.last(),
        ) by {
            assert(s.drop_last()[k] == s[k]);
        }
        lemma_insert_sorted_bound(s.drop_last(), x, s.last());
        let rec = insert_sorted(s.drop_last(), x);
        lemma_insert_sorted_len(s.drop_last(), x);
        assert(rec.len() > 0);
        lemma_sorted_push(rec, s.last());
    }
}

/// Sorting produces a sorted sequence.
pub proof fn lemma_sort_items_sorted(s: Seq<PublicItemView>)
    ensures
        crate::item::sorted_items(sort_items(s)),
    decreases s.len(),
{
    if s.len() > 0 {
        lemma_sort_items_sorted(s.drop_last());
        lemma_insert_sorted_sorted(sort_items(s.drop_last()), s.last());
    }
}

/// The order of changed pairs: by the old side first, then by the new.
pub open spec fn changed_le(c1: ChangedPublicItemView, c2: ChangedPublicItemView) -> bool {
    if item_cmp_spec(c1.old, c2.old) == core::cmp::Ordering::Equal {
        item_le(c1.new, c2.new)
    } else {
        item_le(c1.old, c2.old)
    }
}

/// A sequence of changed pairs that ascends in the pair order.
pub open spec fn sorted_changed(s: Seq<ChangedPublicItemView>) -> bool {
    forall|i: int, j: int| 0 <= i < j < s.len() ==> changed_le(#[trigger] s[i], #[trigger] s[j])
}

/// The pair order is transitive.
proof fn lemma_changed_le_trans(
    c1: ChangedPublicItemView,
    c2: ChangedPublicItemView,
    c3: ChangedPublicItemView,
)
    requires
        changed_le(c1, c2),
        changed_le(c2, c3),
    ensures
        changed_le(c1, c3),
{
    crate::item::lemma_item_cmp_eq(c1.old, c2.old);
    crate::item::lemma_item_cmp_eq(c2.old, c3.old);
    crate::item::lemma_item_cmp_eq(c1.old, c3.old);
    let eq12 = item_cmp_spec(c1.old, c2.old) == core::cmp::Ordering::Equal;
    let eq23 = item_cmp_spec(c2.old, c3.old) == core::cmp::Ordering::Equal;
    if eq12 && eq23 {
        crate::item::lemma_item_le_trans(c1.new, c2.new, c3.new);
    } else if eq12 {
        assert(item_cmp_spec(c1.old, c3.old) == item_cmp_spec(c2.old, c3.old));
    } else if eq23 {
        assert(item_cmp_spec(c1.old, c3.old) == item_cmp_spec(c1.old, c2.old));
    } else {
        crate::item::lemma_item_le_trans(c1.old, c2.old, c3.old);
        if item_cmp_spec(c1.old, c3.old) == core::cmp::Ordering::Equal {
            assert(item_cmp_spec(c2.old, c1.old) == item_cmp_spec(c2.old, c3.old));
            crate::item::lemma_item_cmp_flip(c1.old, c2.old);
            assert(false);
        }
    }
}

/// Pushing a pair above a sorted pair sequence keeps it sorted.
proof fn lemma_sorted_changed_push(s: Seq<ChangedPublicItemView>, c: ChangedPublicItemView)
    requires
        sorted_changed(s),
        s.len() > 0 ==> changed_le(s.last(), c),
    ensures
        sorted_changed(s.push(c)),
{
    let t = s.push(c);
    assert forall|i: int, j: int| 0 <= i < j < t.len() implies changed_le(t[i], t[j]) by {
        if j == s.len() {
            if i < s.len() - 1 {
                lemma_changed_le_trans(s[i], s.last(), c);
            }
        }
    }
}

/// On sorted inputs the merge emits each of its three output sequences
/// already ascending, bounded by the inputs' greatest elements.
proof fn lemma_merge_outputs_sorted(a: Seq<PublicItemView>, b: Seq<PublicItemView>)
    requires
        crate::item::sorted_items(a),
        crate::item::sorted_items(b),
    ensures
        crate::item::sorted_items(merge_sorted(a, b).removed),
        crate::item::sorted_items(merge_sorted(a, b).added),
        sorted_changed(merge_sorted(a, b).changed),
        merge_sorted(a, b).removed.len() > 0 ==> a.len() > 0 && item_le(
            merge_sorted(a, b).removed.last(),
            a.last(),
        ),
        merge_sorted(a, b).added.len() > 0 ==> b.len() > 0 && item_le(
            merge_sorted(a, b).added.last(),
            b.last(),
        ),
        merge_sorted(a, b).changed.len() > 0 ==> a.len() > 0 && b.len() > 0 && item_le(
            merge_sorted(a, b).changed.last().old,
            a.last(),
        ) && item_le(merge_sorted(a, b).changed.last().new, b.last()),
    decreases a.len() + b.len(),
{
    if a.len() == 0 && b.len() == 0 {
    } else {
        let sub_a = a.drop_last();
        let sub_b = b.drop_last();
        if a.len() > 0 {
            assert(crate::item::sorted_items(sub_a)) by {
                assert forall|i: int, j: int| 0 <= i < j < sub_a.len() implies item_le(
                    sub_a[i],
                    sub_a[j],
                ) by {
                    assert(sub_a[i] == a[i]);
                    assert(sub_a[j] == a[j]);
                }
            }
        }
        if b.len() > 0 {
            assert(crate::item::sorted_items(sub_b)) by {
                assert forall|i: int, j: int| 0 <= i < j < sub_b.len() implies item_le(
                    sub_b[i],
                    sub_b[j],
                ) by {
                    assert(sub_b[i] == b[i]);
                    assert(sub_b[j] == b[j]);
                }
            }
        }
        if b.len() == 0 {
            lemma_merge_outputs_sorted(sub_a, b);
            let d = merge_sorted(sub_a, b);
            if d.removed.len() > 0 {
                crate::item::lemma_item_le_trans(d.removed.last(), sub_a.last(), a.last());
            }
            lemma_sorted_push(d.removed, a.last());
            lemma_item_le_refl(a.last());
        } else if a.len() == 0 {
            lemma_merge_outputs_sorted(a, sub_b);
            let d = merge_sorted(a, sub_b);
            if d.added.len() > 0 {
                crate::item::lemma_item_le_trans(d.added.last(), sub_b.last(), b.last());
            }
            lemma_sorted_push(d.added, b.last());
            lemma_item_le_refl(b.last());
        } else {
            let o = a.last();
            let n = b.last();
            lemma_item_le_refl(o);
            lemma_item_le_refl(n);
            if o != n && o.path == n.path {
                lemma_merge_outputs_sorted(sub_a, sub_b);
                let d = merge_sorted(sub_a, sub_b);
                if d.removed.len() > 0 {
                    crate::item::lemma_item_le_trans(d.removed.last(), sub_a.last(), o);
                }
                if d.added.len() > 0 {
                    crate::item::lemma_item_le_trans(d.added.last(), sub_b.last(), n);
                }
                let c = ChangedPublicItemView { old: o, new: n };
                if d.changed.len() > 0 {
                    crate::item::lemma_item_le_trans(d.changed.last().old, sub_a.last(), o);
                    crate::item::lemma_item_le_trans(d.changed.last().new, sub_b.last(), n);
                    assert(changed_le(d.changed.last(), c));
                }
                lemma_sorted_changed_push(d.changed, c);
            } else if item_lt(o, n) {
                lemma_merge_outputs_sorted(a, sub_b);
                let d = merge_sorted(a, sub_b);
                if d.added.len() > 0 {
                    crate::item::lemma_item_le_trans(d.added.last(), sub_b.last(), n);
                }
                lemma_sorted_push(d.added, n);
                if d.changed.len() > 0 {
                    crate::item::lemma_item_le_trans(d.changed.last().new, sub_b.last(), n);
                }
            } else if item_lt(n, o) {
                lemma_merge_outputs_sorted(sub_a, b);
                let d = merge_sorted(sub_a, b);
                if d.removed.len() > 0 {
                    crate::item::lemma_item_le_trans(d.removed.last(), sub_a.last(), o);
                }
                lemma_sorted_push(d.removed, o);
                if d.changed.len() > 0 {
                    crate::item::lemma_item_le_trans(d.changed.last().old, sub_a.last(), o);
                }
            } else {
                lemma_merge_outputs_sorted(sub_a, sub_b);
                let d = merge_sorted(sub_a, sub_b);
                if d.removed.len() > 0 {
                    crate::item::lemma_item_le_trans(d.removed.last(), sub_a.last(), o);
                }
                if d.added.len() > 0 {
                    crate::item::lemma_item_le_trans(d.added.last(), sub_b.last(), n);
                }
                if d.changed.len() > 0 {
                    crate::item::lemma_item_le_trans(d.changed.last().old, sub_a.last(), o);
                    crate::item::lemma_item_le_trans(d.changed.last().new, sub_b.last(), n);
                }
            }
        }
    }
}

/// The three output collections of the diff come out sorted ascending:
/// `removed` and `added` in the item order, `changed` in the pair order.
pub proof fn lemma_diff_outputs_sorted(old: Seq<PublicItemView>, new: Seq<PublicItemView>)
    ensures
        crate::item::sorted_items(diff_spec(old, new).removed),
        crate::item::sorted_items(diff_spec(old, new).added),
        sorted_changed(diff_spec(old, new).changed),
{
    lemma_sort_items_sorted(old);
    lemma_sort_items_sorted(new);
    lemma_merge_outputs_sorted(sort_items(old), sort_items(new));
}

/// One line per item of a plain listing, in order.
pub open spec fn listing_body(items: Seq<PublicItemView>) -> Seq<char>
    decreases items.len(),
{
    if items.len() == 0 {
        Seq::empty()
    } else {
        listing_body(items.drop_last()) + crate::item::rendered(items.last()) + "\n"@
    }
}

/// Renders a plain listing of a single collection: one item per line,
/// sorted ascending in the total order of [`item_cmp_spec`].
pub fn render_item_list(items: Vec<PublicItem>) -> (s: String)
    ensures
        s@ == listing_body(sort_items(items.deep_view())),
{
    let ghost items0 = items.deep_view();
    let sorted = sort_vec(items);
    let mut s = String::new();
    let mut i: usize = 0;
    while i < sorted.len()
        invariant
            i <= sorted.len(),
            sorted.deep_view() == sort_items(items0),
            s@ == listing_body(sorted.deep_view().take(i as int)),
        decreases sorted.len() - i,
    {
        let line = sorted[i].rendered_text();
        s.append(line.as_str());
        s.append("\n");
        proof {
            assert(sorted.deep_view().take(i + 1).drop_last() =~= sorted.deep_view().take(
                i as int,
            ));
            assert(sorted.deep_view().take(i + 1).last() == sorted.deep_view()[i as int]);
            assert(s@ =~= listing_body(sorted.deep_view().take(i + 1)));
        }
        i = i + 1;
    }
    proof {
        assert(sorted.deep_view().take(sorted.len() as int) =~= sorted.deep_view());
    }
    s
}

/// The output line of one removed item.
pub open spec fn removed_line(v: PublicItemView) -> Seq<char> {
    "-"@ + crate::item::rendered(v) + "\n"@
}

/// The output line of one added item.
pub open spec fn added_line(v: PublicItemView) -> Seq<char> {
    "+"@ + crate::item::rendered(v) + "\n"@
}

/// The output line pair of one changed item: its old form, then its new.
pub open spec fn changed_lines(c: ChangedPublicItemView) -> Seq<char> {
    "-"@ + crate::item::rendered(c.old) + "\n"@ + "+"@ + crate::item::rendered(c.new) + "\n"@
}

/// The lines of all removed items, in order.
pub open spec fn removed_body(items: Seq<PublicItemView>) -> Seq<char>
    decreases items.len(),
{
    if items.len() == 0 {
        Seq::empty()
    } else {
        removed_body(items.drop_last()) + removed_line(items.last())
    }
}

/// The lines of all added items, in order.
pub open spec fn added_body(items: Seq<PublicItemView>) -> Seq<char>
    decreases items.len(),
{
    if items.len() == 0 {
        Seq::empty()
    } else {
        added_body(items.drop_last()) + added_line(items.last())
    }
}

/// The lines of all changed items, in order.
pub open spec fn changed_body(items: Seq<ChangedPublicItemView>) -> Seq<char>
    decreases items.len(),
{
    if items.len() == 0 {
        Seq::empty()
    } else {
        changed_body(items.drop_last()) + changed_lines(items.last())
    }
}

/// One printed section: its header line, then either a `(nothing)`
/// placeholder or the given body, then a blank line.
pub open spec fn section(header: Seq<char>, body: Seq<char>, empty: bool) -> Seq<char> {
    header + "\n"@ + (if empty {
        "(nothing)\n"@
    } else {
        body
    }) + "\n"@
}

/// The complete printed form of a diff under the three given headers.
pub open spec fn render_spec(d: DiffView, hr: Seq<char>, hc: Seq<char>, ha: Seq<char>) -> Seq<
    char,
> {
    section(hr, removed_body(d.removed), d.removed.len() == 0) + section(
        hc,
        changed_body(d.changed),
        d.changed.len() == 0,
    ) + section(ha, added_body(d.added), d.added.len() == 0)
}

impl PublicItemsDiff {
    /// Appends the printed form of this diff to `w`: one section per
    /// category, each with its header, a `-` line per removed item, a `-`
    /// and `+` line pair per changed item, a `+` line per added item, and
    /// `(nothing)` standing in for an empty section.
    #[verifier::rlimit(100)]
    pub fn print_with_headers(
        &self,
        w: &mut String,
        header_removed: &str,
        header_changed: &str,
        header_added: &str,
    )
        ensures
            final(w)@ == old(w)@ + render_spec(self@, header_removed@, header_changed@,
            header_added@),
    {
        let ghost base = w@;
        w.append(header_removed);
        w.append("\n");
        if self.removed.len() == 0 {
            w.append("(nothing)\n");
        } else {
            let ghost sect = w@;
            let mut i: usize = 0;
            while i < self.removed.len()
                invariant
                    i <= self.removed.len(),
                    w@ == sect + removed_body(self@.removed.take(i as int)),
                decreases self.removed.len() - i,
            {
                let line = self.removed[i].rendered_text();
                w.append("-");
                w.append(line.as_str());
                w.append("\n");
                proof {
                    assert(self@.removed.take(i + 1).drop_last() =~= self@.removed.take(i as int));
                    assert(self@.removed.take(i + 1).last() == self@.removed[i as int]);
                    assert(w@ =~= sect + removed_body(self@.removed.take(i + 1)));
                }
                i = i + 1;
            }
            proof {
                assert(self@.removed.take(self.removed.len() as int) =~= self@.removed);
            }
        }
        w.append("\n");
        proof {
            assert(w@ =~= base + section(header_removed@, removed_body(self@.removed),
            self@.removed.len() == 0));
        }
        let ghost base2 = w@;
        w.append(header_changed);
        w.append("\n");
        if self.changed.len() == 0 {
            w.append("(nothing)\n");
        } else {
            let ghost sect = w@;
            let mut i: usize = 0;
            while i < self.changed.len()
                invariant
                    i <= self.changed.len(),
                    w@ == sect + changed_body(self@.changed.take(i as int)),
                decreases self.changed.len() - i,
            {
                let old_line = self.changed[i].old.rendered_text();
                let new_line = self.changed[i].new.rendered_text();
                w.append("-");
                w.append(old_line.as_str());
                w.append("\n");
                w.append("+");
                w.append(new_line.as_str());
                w.append("\n");
                proof {
                    assert(self@.changed.take(i + 1).drop_last() =~= self@.changed.take(i as int));
                    assert(self@.changed.take(i + 1).last() == self@.changed[i as int]);
                    assert(w@ =~= sect + changed_body(self@.changed.take(i + 1)));
                }
                i = i + 1;
            }
            proof {
                assert(self@.changed.take(self.changed.len() as int) =~= self@.changed);
            }
        }
        w.append("\n");
        proof {
            assert(w@ =~= base2 + section(header_changed@, changed_body(self@.changed),
            self@.changed.len() == 0));
        }
        let ghost base3 = w@;
        w.append(header_added);
        w.append("\n");
        if self.added.len() == 0 {
            w.append("(nothing)\n");
        } else {
            let ghost sect = w@;
            let mut i: usize = 0;
            while i < self.added.len()
                invariant
                    i <= self.added.len(),
                    w@ == sect + added_body(self@.added.take(i as int)),
                decreases self.added.len() - i,
            {
                let line = self.added[i].rendered_text();
                w.append("+");
                w.append(line.as_str());
                w.append("\n");
                proof {
                    assert(self@.added.take(i + 1).drop_last() =~= self@.added.take(i as int));
                    assert(self@.added.take(i + 1).last() == self@.added[i as int]);
                    assert(w@ =~= sect + added_body(self@.added.take(i + 1)));
                }
                i = i + 1;
            }
            proof {
                assert(self@.added.take(self.added.len() as int) =~= self@.added);
            }
        }
        w.append("\n");
        proof {
            assert(w@ =~= base3 + section(header_added@, added_body(self@.added), self@.added.len()
                == 0));
            assert(w@ =~= base + render_spec(self@, header_removed@, header_changed@,
            header_added@));
        }
    }
}

/// A merge step moves one classified element from the remaining-prefix
/// result to the front of the already-emitted reversed accumulator.
proof fn lemma_step_extends<T>(full: Seq<T>, shorter: Seq<T>, prev: Seq<T>, x: T)
    requires
        full == shorter.push(x) + prev.reverse(),
    ensures
        full == shorter + prev.push(x).reverse(),
{
    assert(shorter.push(x) + prev.reverse() =~= shorter + prev.push(x).reverse()) by {
        assert(prev.push(x).reverse() =~= seq![x] + prev.reverse());
    }
}

} // verus!
