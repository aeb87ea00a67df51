//! What eviction achieves.
//!
//! The store decides which images have to go from a scan of its directory;
//! the caller deletes them. This module states how the listing is parted
//! into what stays and what goes, and what the directory then looks like to
//! the store: scanned again, it lists exactly the images that were to stay,
//! in the same order, and no more of them than the bound allows.

use vstd::prelude::*;
use crate::image_manager::{
    evicted,
    insert_by_recency,
    is_listed,
    is_newest_first,
    kept,
    lemma_insert_by_recency_at,
    lemma_listed_push,
    lemma_listing,
    lemma_newest_first,
    listed,
    listing,
    modified_at,
    newest_first,
    paths_of,
    ScannedEntryView,
};

verus! {

/// No two entries have the same path, as in every scan of a directory.
pub open spec fn has_distinct_paths(entries: Seq<ScannedEntryView>) -> bool {
    forall|i: int, j: int|
        0 <= i < j < entries.len() ==> (#[trigger] entries[i]).path != (#[trigger] entries[j]).path
}

/// The entries that a scan finds once the files at the paths `doomed` have
/// been deleted and nothing else has changed.
pub open spec fn without_paths(
    entries: Seq<ScannedEntryView>,
    doomed: Seq<Seq<char>>,
) -> Seq<ScannedEntryView> {
    entries.filter(|e: ScannedEntryView| !doomed.contains(e.path))
}

/// Eviction parts the listing in two: what stays is within the bound and
/// ordered as before, what goes is every image behind it, and whatever goes
/// is no more recent than anything that stays.
pub proof fn lemma_eviction_parts_listing(entries: Seq<ScannedEntryView>, bound: nat)
    ensures
        kept(listing(entries), bound).len() <= bound,
        kept(listing(entries), bound).len() + evicted(listing(entries), bound).len() == listing(
            entries,
        ).len(),
        kept(listing(entries), bound) + evicted(listing(entries), bound).reverse() == listing(
            entries,
        ),
        is_newest_first(kept(listing(entries), bound)),
        forall|i: int, j: int|
            0 <= i < kept(listing(entries), bound).len() && 0 <= j < evicted(
                listing(entries),
                bound,
            ).len() ==> modified_at(#[trigger] kept(listing(entries), bound)[i]) >= modified_at(
                #[trigger] evicted(listing(entries), bound)[j],
            ),
{
    lemma_listing(entries);
    let all = listing(entries);
    let stay = kept(all, bound);
    let go = evicted(all, bound);
    if all.len() > bound {
        assert(go.reverse() =~= all.skip(bound as int));
        assert(stay + go.reverse() =~= all);
        assert forall|i: int, j: int| 0 <= i < stay.len() && 0 <= j < go.len() implies modified_at(
            #[trigger] stay[i],
        ) >= modified_at(#[trigger] go[j]) by {
            let k = all.len() - 1 - j;
            assert(go[j] == all[k]);
            assert(stay[i] == all[i]);
        }
        assert forall|i: int, j: int| 0 <= i <= j < stay.len() implies modified_at(
            #[trigger] stay[i],
        ) >= modified_at(#[trigger] stay[j]) by {
            assert(stay[i] == all[i] && stay[j] == all[j]);
        }
    } else {
        assert(go.reverse() =~= Seq::<ScannedEntryView>::empty());
        assert(stay + go.reverse() =~= all);
    }
}

/// An element of an ordered sequence that is kept by a filter stands in the
/// filtered sequence; filtering keeps the order.
proof fn lemma_filter_keeps_order(
    images: Seq<ScannedEntryView>,
    keep: spec_fn(ScannedEntryView) -> bool,
)
    requires
        is_newest_first(images),
    ensures
        is_newest_first(images.filter(keep)),
        forall|k: int|
            0 <= k < images.filter(keep).len() ==> images.contains(
                #[trigger] images.filter(keep)[k],
            ),
    decreases images.len(),
{
    reveal(Seq::filter);
    if images.len() > 0 {
        let rest = images.drop_last();
        assert forall|i: int, j: int| 0 <= i <= j < rest.len() implies modified_at(
            #[trigger] rest[i],
        ) >= modified_at(#[trigger] rest[j]) by {
            assert(rest[i] == images[i] && rest[j] == images[j]);
        }
        lemma_filter_keeps_order(rest, keep);
        let filtered = images.filter(keep);
        let inner = rest.filter(keep);
        assert forall|k: int| 0 <= k < filtered.len() implies images.contains(
            #[trigger] filtered[k],
        ) by {
            if k < inner.len() {
                assert(rest.contains(inner[k]));
                let at = choose|at: int| 0 <= at < rest.len() && rest[at] == inner[k];
                assert(images[at] == filtered[k]);
            } else {
                assert(filtered[k] == images[images.len() - 1]);
            }
        }
        assert forall|i: int, j: int| 0 <= i <= j < filtered.len() implies modified_at(
            #[trigger] filtered[i],
        ) >= modified_at(#[trigger] filtered[j]) by {
            if j < inner.len() {
                assert(filtered[i] == inner[i] && filtered[j] == inner[j]);
            } else if i < inner.len() {
                assert(rest.contains(inner[i]));
                let at = choose|at: int| 0 <= at < rest.len() && rest[at] == inner[i];
                assert(modified_at(images[at]) >= modified_at(images[images.len() - 1]));
            }
        }
    }
}

/// Filtering after an entry was put in its place gives what putting the
/// entry in its place after filtering gives, where the entry is kept, and
/// the filtered sequence where it is not.
proof fn lemma_insert_then_filter(
    sorted: Seq<ScannedEntryView>,
    entry: ScannedEntryView,
    keep: spec_fn(ScannedEntryView) -> bool,
)
    requires
        is_newest_first(sorted),
    ensures
        insert_by_recency(sorted, entry).filter(keep) == if keep(entry) {
            insert_by_recency(sorted.filter(keep), entry)
        } else {
            sorted.filter(keep)
        },
    decreases sorted.len(),
{
    if sorted.len() == 0 {
        reveal(Seq::filter);
        assert(sorted.filter(keep) =~= Seq::<ScannedEntryView>::empty());
        Seq::<ScannedEntryView>::empty().lemma_filter_push(entry, keep);
        assert(seq![entry] =~= Seq::<ScannedEntryView>::empty().push(entry));
    } else if modified_at(sorted.last()) >= modified_at(entry) {
        sorted.lemma_filter_push(entry, keep);
        if keep(entry) {
            let filtered = sorted.filter(keep);
            lemma_filter_keeps_order(sorted, keep);
            assert forall|k: int| 0 <= k < filtered.len() implies modified_at(filtered[k])
                >= modified_at(entry) by {
                assert(sorted.contains(filtered[k]));
                let at = choose|at: int| 0 <= at < sorted.len() && sorted[at] == filtered[k];
                assert(modified_at(sorted[at]) >= modified_at(sorted[sorted.len() - 1]));
            }
            lemma_insert_by_recency_at(filtered, entry, filtered.len() as int);
            assert(filtered.insert(filtered.len() as int, entry) =~= filtered.push(entry));
        }
    } else {
        let rest = sorted.drop_last();
        let last = sorted.last();
        assert forall|i: int, j: int| 0 <= i <= j < rest.len() implies modified_at(
            #[trigger] rest[i],
        ) >= modified_at(#[trigger] rest[j]) by {
            assert(rest[i] == sorted[i] && rest[j] == sorted[j]);
        }
        lemma_insert_then_filter(rest, entry, keep);
        insert_by_recency(rest, entry).lemma_filter_push(last, keep);
        assert(sorted =~= rest.push(last));
        rest.lemma_filter_push(last, keep);
        if keep(last) && keep(entry) {
            assert(rest.filter(keep).push(last).drop_last() =~= rest.filter(keep));
        }
    }
}

/// Ordering the images that a filter keeps gives what the filter keeps of
/// the ordered images.
proof fn lemma_filter_then_order(
    images: Seq<ScannedEntryView>,
    keep: spec_fn(ScannedEntryView) -> bool,
)
    ensures
        newest_first(images.filter(keep)) == newest_first(images).filter(keep),
    decreases images.len(),
{
    if images.len() == 0 {
        reveal(Seq::filter);
        assert(images.filter(keep) =~= images);
        assert(newest_first(images).filter(keep) =~= Seq::<ScannedEntryView>::empty());
    } else {
        let rest = images.drop_last();
        let last = images.last();
        lemma_filter_then_order(rest, keep);
        lemma_newest_first(rest);
        lemma_insert_then_filter(newest_first(rest), last, keep);
        assert(images =~= rest.push(last));
        rest.lemma_filter_push(last, keep);
        if keep(last) {
            assert(rest.filter(keep).push(last).drop_last() =~= rest.filter(keep));
        }
    }
}

/// Two filters may be applied in either order.
proof fn lemma_filters_commute(
    entries: Seq<ScannedEntryView>,
    first: spec_fn(ScannedEntryView) -> bool,
    second: spec_fn(ScannedEntryView) -> bool,
)
    ensures
        entries.filter(first).filter(second) == entries.filter(second).filter(first),
    decreases entries.len(),
{
    if entries.len() == 0 {
        reveal(Seq::filter);
        assert(entries.filter(first) =~= entries);
        assert(entries.filter(second) =~= entries);
    } else {
        let rest = entries.drop_last();
        let last = entries.last();
        lemma_filters_commute(rest, first, second);
        assert(entries =~= rest.push(last));
        rest.lemma_filter_push(last, first);
        rest.lemma_filter_push(last, second);
        rest.filter(first).lemma_filter_push(last, second);
        rest.filter(second).lemma_filter_push(last, first);
    }
}

/// A filter that keeps the first `count` elements and none behind them keeps
/// exactly the first `count`.
proof fn lemma_filter_is_prefix(
    images: Seq<ScannedEntryView>,
    keep: spec_fn(ScannedEntryView) -> bool,
    count: int,
)
    requires
        0 <= count <= images.len(),
        forall|i: int| 0 <= i < count ==> keep(#[trigger] images[i]),
        forall|i: int| count <= i < images.len() ==> !keep(#[trigger] images[i]),
    ensures
        images.filter(keep) == images.take(count),
    decreases images.len(),
{
    if images.len() == 0 {
        reveal(Seq::filter);
        assert(images.filter(keep) =~= images.take(count));
    } else {
        let rest = images.drop_last();
        let last = images.last();
        assert(images =~= rest.push(last));
        rest.lemma_filter_push(last, keep);
        assert(forall|i: int| 0 <= i < rest.len() ==> rest[i] == images[i]);
        if count == images.len() {
            lemma_filter_is_prefix(rest, keep, count - 1);
            assert(keep(images[images.len() - 1]));
            assert(rest.take(count - 1).push(last) =~= images.take(count));
        } else {
            lemma_filter_is_prefix(rest, keep, count);
            assert(!keep(images[images.len() - 1]));
            assert(rest.take(count) =~= images.take(count));
        }
    }
}

/// The store's images occur among the entries no more often than the entries
/// themselves.
proof fn lemma_listed_occurrences(entries: Seq<ScannedEntryView>, entry: ScannedEntryView)
    ensures
        listed(entries).to_multiset().count(entry) <= entries.to_multiset().count(entry),
    decreases entries.len(),
{
    broadcast use vstd::seq_lib::group_to_multiset_ensures;

    if entries.len() > 0 {
        let rest = entries.drop_last();
        let last = entries.last();
        lemma_listed_occurrences(rest, entry);
        assert(entries =~= rest.push(last));
        lemma_listed_push(rest, last);
    }
}

/// The listing of a scan has no two images with the same path.
pub proof fn lemma_listing_has_distinct_paths(entries: Seq<ScannedEntryView>)
    requires
        has_distinct_paths(entries),
    ensures
        has_distinct_paths(listing(entries)),
{
    broadcast use vstd::seq_lib::group_to_multiset_ensures;

    let all = listing(entries);
    lemma_listing(entries);
    assert(entries.no_duplicates()) by {
        assert forall|i: int, j: int|
            0 <= i < entries.len() && 0 <= j < entries.len() && i != j implies entries[i]
            != entries[j] by {
            if i < j {
                assert(entries[i].path != entries[j].path);
            } else {
                assert(entries[j].path != entries[i].path);
            }
        }
    }
    entries.lemma_multiset_has_no_duplicates();
    assert forall|x: ScannedEntryView| all.to_multiset().contains(x) implies all.to_multiset().count(
        x,
    ) == 1 by {
        lemma_listed_occurrences(entries, x);
    }
    all.lemma_multiset_has_no_duplicates_conv();
    assert forall|i: int, j: int| 0 <= i < j < all.len() implies (#[trigger] all[i]).path != (
    #[trigger] all[j]).path by {
        assert(all.contains(all[i]) && all.contains(all[j]));
        assert(entries.contains(all[i]) && entries.contains(all[j]));
        let a = choose|a: int| 0 <= a < entries.len() && entries[a] == all[i];
        let b = choose|b: int| 0 <= b < entries.len() && entries[b] == all[j];
        assert(all[i] != all[j]);
        if a < b {
            assert(entries[a].path != entries[b].path);
        } else {
            assert(entries[b].path != entries[a].path);
        }
    }
}

/// Once the images that were to go are deleted, the store is within its
/// bound: a new scan lists exactly the images that were to stay, most recent
/// first, and at most `bound` of them.
pub proof fn lemma_eviction_restores_bound(entries: Seq<ScannedEntryView>, bound: nat)
    requires
        has_distinct_paths(entries),
    ensures
        ({
            let doomed = evicted(paths_of(listing(entries)), bound);
            let left = without_paths(entries, doomed);
            &&& listing(left) == kept(listing(entries), bound)
            &&& listing(left).len() <= bound
            &&& is_newest_first(listing(left))
        }),
{
    let all = listing(entries);
    let doomed = evicted(paths_of(all), bound);
    let stays = |e: ScannedEntryView| !doomed.contains(e.path);
    let ours = |e: ScannedEntryView| is_listed(e);
    let left = without_paths(entries, doomed);
    lemma_listing(entries);
    lemma_listing_has_distinct_paths(entries);
    // The listing of what is left is the old listing without what went.
    lemma_filters_commute(entries, stays, ours);
    lemma_filter_then_order(listed(entries), stays);
    assert(listing(left) == all.filter(stays));
    // What went is everything behind the bound and nothing before it.
    let count: int = if all.len() > bound {
        bound as int
    } else {
        all.len() as int
    };
    let paths = paths_of(all);
    assert forall|i: int| 0 <= i < count implies stays(#[trigger] all[i]) by {
        if doomed.contains(all[i].path) {
            let k = choose|k: int| 0 <= k < doomed.len() && doomed[k] == all[i].path;
            let j = paths.len() - 1 - k;
            assert(doomed[k] == paths.skip(bound as int)[paths.skip(bound as int).len() - 1 - k]);
            assert(doomed[k] == all[j].path);
            assert(all[i].path != all[j].path);
        }
    }
    assert forall|i: int| count <= i < all.len() implies !stays(#[trigger] all[i]) by {
        let k = all.len() - 1 - i;
        assert(doomed[k] == paths.skip(bound as int)[paths.skip(bound as int).len() - 1 - k]);
        assert(doomed[k] == all[i].path);
    }
    lemma_filter_is_prefix(all, stays, count);
    assert(all.take(all.len() as int) =~= all);
    lemma_listing(left);
}

} // verus!
