//! The bounded image store.
//!
//! The store is a directory of numbered image files. The directory on disk is
//! the only record of what the store holds: every operation starts from a scan
//! of it, which the caller makes and hands over as a `DirectoryScan`. From a
//! scan the store decides the number and name of the next image, the order in
//! which the images are listed, and which images have to go once there are
//! more than `max_images` of them. Reading, writing and deleting files is the
//! caller's work.

use vstd::prelude::*;
use crate::bitmap::Bitmap;
use crate::codec::{encode_lossless, lossless_encoding, CodecError};
use crate::naming::{
    counted_number,
    image_file_name,
    image_name,
    is_stored_image_name,
    is_stored_name,
    lemma_image_name_round_trip,
    parse_image_number,
};

verus! {

/// What a scan found out about one entry of the store's directory.
#[derive(Debug, Clone, PartialEq, Eq)]
pub struct ScannedEntry {
    /// The entry's absolute path.
    pub path: String,
    /// The last component of the path.
    pub file_name: String,
    /// Whether the entry is a regular file.
    pub is_file: bool,
    /// When the entry was last modified, in nanoseconds since the Unix epoch;
    /// `None` where the file system did not say.
    pub modified: Option<i128>,
}

/// A `ScannedEntry` as contracts speak of it.
pub struct ScannedEntryView {
    pub path: Seq<char>,
    pub file_name: Seq<char>,
    pub is_file: bool,
    pub modified: Option<i128>,
}

impl View for ScannedEntry {
    type V = ScannedEntryView;

    open spec fn view(&self) -> ScannedEntryView {
        ScannedEntryView {
            path: self.path@,
            file_name: self.file_name@,
            is_file: self.is_file,
            modified: self.modified,
        }
    }
}

/// The views of a sequence of entries.
pub open spec fn entry_views(entries: Seq<ScannedEntry>) -> Seq<ScannedEntryView> {
    entries.map_values(|e: ScannedEntry| e@)
}

/// The character sequences of a sequence of strings.
pub open spec fn texts(strings: Seq<String>) -> Seq<Seq<char>> {
    strings.map_values(|s: String| s@)
}

/// The result of scanning the store's directory, without descending into
/// subdirectories.
#[derive(Debug, Clone, PartialEq, Eq)]
pub enum DirectoryScan {
    /// The directory does not exist.
    Missing,
    /// The directory exists and holds these entries.
    Found(Vec<ScannedEntry>),
}

impl DirectoryScan {
    /// The entries that the scan found; none where the directory is missing.
    pub open spec fn entries(self) -> Seq<ScannedEntryView> {
        match self {
            DirectoryScan::Missing => Seq::empty(),
            DirectoryScan::Found(entries) => entry_views(entries@),
        }
    }
}

/// The greatest sequence number among the names of `entries`, and 0 where no
/// name carries one. Every entry counts that has a stored image's name, with
/// any of the recognised extensions.
pub open spec fn highest_number(entries: Seq<ScannedEntryView>) -> nat
    decreases entries.len(),
{
    if entries.len() == 0 {
        0
    } else {
        let before = highest_number(entries.drop_last());
        match counted_number(entries.last().file_name) {
            Some(n) => if n > before {
                n as nat
            } else {
                before
            },
            None => before,
        }
    }
}

/// The sequence number of the next image: one more than the greatest number
/// present, so that a number is never used again while its file, or one with
/// a greater number, is in the directory.
pub open spec fn next_number(entries: Seq<ScannedEntryView>) -> nat {
    highest_number(entries) + 1
}

/// The greatest number present is the number of no entry less than that, and
/// it is the number of some entry unless it is 0.
pub proof fn lemma_highest_number(entries: Seq<ScannedEntryView>)
    ensures
        highest_number(entries) <= u32::MAX,
        forall|i: int|
            0 <= i < entries.len() ==> (#[trigger] counted_number(entries[i].file_name) matches Some(
                n,
            ) ==> n <= highest_number(entries)),
        highest_number(entries) > 0 ==> exists|i: int|
            0 <= i < entries.len() && #[trigger] counted_number(entries[i].file_name) == Some(
                highest_number(entries) as u32,
            ),
    decreases entries.len(),
{
    if entries.len() > 0 {
        let rest = entries.drop_last();
        lemma_highest_number(rest);
        assert forall|i: int| 0 <= i < entries.len() implies (#[trigger] counted_number(
            entries[i].file_name,
        ) matches Some(n) ==> n <= highest_number(entries)) by {
            if i < entries.len() - 1 {
                assert(rest[i] == entries[i]);
            }
        }
        if highest_number(entries) > 0 {
            if highest_number(entries) == highest_number(rest) {
                let i = choose|i: int|
                    0 <= i < rest.len() && #[trigger] counted_number(rest[i].file_name) == Some(
                        highest_number(rest) as u32,
                    );
                assert(rest[i] == entries[i]);
            } else {
                let last = entries.len() - 1;
                assert(counted_number(entries[last].file_name) == Some(
                    highest_number(entries) as u32,
                ));
            }
        }
    }
}

/// As long as the numbers have not run out, the name of the next image is
/// the name of no entry in the directory: a new image never overwrites a file
/// that the scan saw.
pub proof fn lemma_next_name_is_fresh(entries: Seq<ScannedEntryView>)
    requires
        next_number(entries) <= u32::MAX,
    ensures
        forall|i: int|
            0 <= i < entries.len() ==> (#[trigger] entries[i]).file_name != image_name(
                next_number(entries),
            ),
{
    lemma_highest_number(entries);
    let next = next_number(entries);
    lemma_image_name_round_trip(next);
    assert forall|i: int| 0 <= i < entries.len() implies (#[trigger] entries[i]).file_name
        != image_name(next) by {
        if entries[i].file_name == image_name(next) {
            assert(counted_number(entries[i].file_name) == Some(next as u32));
        }
    }
}

/// Saves are numbered one after the other: the first image of an empty
/// directory gets the number 1, and once an image is written under the next
/// number, the number after it is next.
pub proof fn lemma_numbers_follow_one_another(
    entries: Seq<ScannedEntryView>,
    written: ScannedEntryView,
)
    requires
        next_number(entries) <= u32::MAX,
        written.file_name == image_name(next_number(entries)),
    ensures
        next_number(Seq::<ScannedEntryView>::empty()) == 1,
        next_number(entries.push(written)) == next_number(entries) + 1,
{
    lemma_image_name_round_trip(next_number(entries));
    assert(entries.push(written).drop_last() == entries);
}

/// The number under which the next image is stored, where it fits in `u32`.
pub open spec fn next_image_number(entries: Seq<ScannedEntryView>) -> Option<u32> {
    if next_number(entries) <= u32::MAX {
        Some(next_number(entries) as u32)
    } else {
        None
    }
}

/// The entry is one of the store's images as far as listing and eviction go:
/// a regular file with a stored image's name whose modification time is
/// known. Every other entry is left alone.
pub open spec fn is_listed(entry: ScannedEntryView) -> bool {
    entry.is_file && entry.modified is Some && is_stored_name(entry.file_name)
}

/// The store's images among `entries`, in the order of the scan.
pub open spec fn listed(entries: Seq<ScannedEntryView>) -> Seq<ScannedEntryView> {
    entries.filter(|e: ScannedEntryView| is_listed(e))
}

/// The modification time by which an image is ordered.
pub open spec fn modified_at(entry: ScannedEntryView) -> int {
    match entry.modified {
        Some(t) => t as int,
        None => 0,
    }
}

/// `sorted` with `entry` put behind every image that is at least as recent.
pub open spec fn insert_by_recency(
    sorted: Seq<ScannedEntryView>,
    entry: ScannedEntryView,
) -> Seq<ScannedEntryView>
    decreases sorted.len(),
{
    if sorted.len() == 0 {
        seq![entry]
    } else if modified_at(sorted.last()) >= modified_at(entry) {
        sorted.push(entry)
    } else {
        insert_by_recency(sorted.drop_last(), entry).push(sorted.last())
    }
}

/// `images` ordered by modification time, most recent first. Images modified
/// at the same time stay in the order they come in.
pub open spec fn newest_first(images: Seq<ScannedEntryView>) -> Seq<ScannedEntryView>
    decreases images.len(),
{
    if images.len() == 0 {
        images
    } else {
        insert_by_recency(newest_first(images.drop_last()), images.last())
    }
}

/// No image comes before one that is more recent.
pub open spec fn is_newest_first(images: Seq<ScannedEntryView>) -> bool {
    forall|i: int, j: int|
        0 <= i <= j < images.len() ==> modified_at(#[trigger] images[i]) >= modified_at(
            #[trigger] images[j],
        )
}

/// The store's listing: its images, most recent first.
pub open spec fn listing(entries: Seq<ScannedEntryView>) -> Seq<ScannedEntryView> {
    newest_first(listed(entries))
}

/// The paths of `images`, in order.
pub open spec fn paths_of(images: Seq<ScannedEntryView>) -> Seq<Seq<char>> {
    images.map_values(|e: ScannedEntryView| e.path)
}

/// Where `insert_by_recency` puts an entry: at the position `at` behind which
/// every image is older than the entry and before which the nearest one is
/// not.
pub proof fn lemma_insert_by_recency_at(
    sorted: Seq<ScannedEntryView>,
    entry: ScannedEntryView,
    at: int,
)
    requires
        0 <= at <= sorted.len(),
        at > 0 ==> modified_at(sorted[at - 1]) >= modified_at(entry),
        forall|j: int| at <= j < sorted.len() ==> modified_at(sorted[j]) < modified_at(entry),
    ensures
        insert_by_recency(sorted, entry) == sorted.insert(at, entry),
    decreases sorted.len(),
{
    if sorted.len() == 0 {
        assert(sorted.insert(at, entry) =~= seq![entry]);
    } else if at == sorted.len() {
        assert(sorted.insert(at, entry) =~= sorted.push(entry));
    } else {
        let rest = sorted.drop_last();
        lemma_insert_by_recency_at(rest, entry, at);
        assert(sorted.insert(at, entry) =~= rest.insert(at, entry).push(sorted.last()));
    }
}

/// Putting an entry into an ordered sequence leaves it ordered and adds
/// exactly that entry.
pub proof fn lemma_insert_by_recency(sorted: Seq<ScannedEntryView>, entry: ScannedEntryView)
    requires
        is_newest_first(sorted),
    ensures
        is_newest_first(insert_by_recency(sorted, entry)),
        insert_by_recency(sorted, entry).len() == sorted.len() + 1,
        insert_by_recency(sorted, entry).to_multiset() == sorted.to_multiset().insert(entry),
    decreases sorted.len(),
{
    broadcast use vstd::seq_lib::group_to_multiset_ensures;

    let result = insert_by_recency(sorted, entry);
    if sorted.len() == 0 {
        assert(sorted =~= Seq::empty());
        assert(result =~= Seq::<ScannedEntryView>::empty().push(entry));
    } else if modified_at(sorted.last()) >= modified_at(entry) {
        assert forall|i: int, j: int| 0 <= i <= j < result.len() implies modified_at(
            #[trigger] result[i],
        ) >= modified_at(#[trigger] result[j]) by {
            if j == sorted.len() {
                if i < sorted.len() {
                    assert(modified_at(sorted[i]) >= modified_at(sorted[sorted.len() - 1]));
                }
            } else {
                assert(result[i] == sorted[i] && result[j] == sorted[j]);
            }
        }
    } else {
        let rest = sorted.drop_last();
        let inner = insert_by_recency(rest, entry);
        assert(is_newest_first(rest)) by {
            assert forall|i: int, j: int| 0 <= i <= j < rest.len() implies modified_at(
                #[trigger] rest[i],
            ) >= modified_at(#[trigger] rest[j]) by {
                assert(rest[i] == sorted[i] && rest[j] == sorted[j]);
            }
        }
        lemma_insert_by_recency(rest, entry);
        assert(sorted =~= rest.push(sorted.last()));
        assert(sorted.to_multiset() == rest.to_multiset().insert(sorted.last()));
        assert(result.to_multiset() =~= sorted.to_multiset().insert(entry));
        // Every element of `inner` is `entry` or an element of `rest`, and
        // each of those is at least as recent as the last of `sorted`.
        assert forall|i: int, j: int| 0 <= i <= j < result.len() implies modified_at(
            #[trigger] result[i],
        ) >= modified_at(#[trigger] result[j]) by {
            if j < inner.len() {
                assert(result[i] == inner[i] && result[j] == inner[j]);
            } else if i < inner.len() {
                let x = inner[i];
                assert(result[i] == x);
                assert(inner.to_multiset().count(x) > 0);
                if x != entry {
                    assert(rest.to_multiset().count(x) > 0);
                    assert(rest.contains(x));
                    let k = choose|k: int| 0 <= k < rest.len() && rest[k] == x;
                    assert(modified_at(sorted[k]) >= modified_at(sorted[sorted.len() - 1]));
                }
            }
        }
    }
}

/// Ordering images keeps every image, each as often as it came in, and puts
/// none before a more recent one.
pub proof fn lemma_newest_first(images: Seq<ScannedEntryView>)
    ensures
        is_newest_first(newest_first(images)),
        newest_first(images).len() == images.len(),
        newest_first(images).to_multiset() == images.to_multiset(),
    decreases images.len(),
{
    broadcast use vstd::seq_lib::group_to_multiset_ensures;

    if images.len() > 0 {
        let rest = images.drop_last();
        lemma_newest_first(rest);
        lemma_insert_by_recency(newest_first(rest), images.last());
        assert(images =~= rest.push(images.last()));
    }
}

/// The listing holds exactly the store's images among the entries scanned,
/// and no other entry; it is ordered most recent first.
pub proof fn lemma_listing(entries: Seq<ScannedEntryView>)
    ensures
        is_newest_first(listing(entries)),
        listing(entries).len() == listed(entries).len(),
        listing(entries).len() <= entries.len(),
        listing(entries).to_multiset() == listed(entries).to_multiset(),
        forall|e: ScannedEntryView|
            #![trigger listing(entries).contains(e)]
            #![trigger entries.contains(e)]
            listing(entries).contains(e) <==> entries.contains(e) && is_listed(e),
{
    broadcast use vstd::seq_lib::group_to_multiset_ensures;

    let pred = |e: ScannedEntryView| is_listed(e);
    let images = listed(entries);
    lemma_newest_first(images);
    entries.lemma_filter_len(pred);
    assert forall|e: ScannedEntryView|
        #![trigger listing(entries).contains(e)]
        #![trigger entries.contains(e)]
        listing(entries).contains(e) <==> entries.contains(e) && is_listed(e) by {
        vstd::seq_lib::to_multiset_contains(listing(entries), e);
        vstd::seq_lib::to_multiset_contains(images, e);
        assert(listing(entries).contains(e) <==> images.contains(e));
        if images.contains(e) {
            let k = choose|k: int| 0 <= k < images.len() && images[k] == e;
            entries.lemma_filter_pred(pred, k);
            assert(pred(e));
            entries.lemma_filter_contains_rev(pred, e);
            assert(entries.contains(e) && is_listed(e));
        }
        if entries.contains(e) && is_listed(e) {
            let k = choose|k: int| 0 <= k < entries.len() && entries[k] == e;
            entries.lemma_filter_contains(pred, k);
            assert(images.contains(e));
        }
    }
}

/// Scanning one more entry adds it to the store's images if it is one of
/// them, and changes nothing otherwise.
pub proof fn lemma_listed_push(entries: Seq<ScannedEntryView>, entry: ScannedEntryView)
    ensures
        listed(entries.push(entry)) == if is_listed(entry) {
            listed(entries).push(entry)
        } else {
            listed(entries)
        },
        listing(entries.push(entry)) == if is_listed(entry) {
            insert_by_recency(listing(entries), entry)
        } else {
            listing(entries)
        },
{
    entries.lemma_filter_push(entry, |e: ScannedEntryView| is_listed(e));
    if is_listed(entry) {
        assert(listed(entries).push(entry).drop_last() =~= listed(entries));
    }
}

/// The images that have to go for a listing to come down to `bound` images:
/// those behind the first `bound`, the oldest first.
pub open spec fn evicted<T>(listing: Seq<T>, bound: nat) -> Seq<T> {
    if listing.len() > bound {
        listing.skip(bound as int).reverse()
    } else {
        Seq::empty()
    }
}

/// The images that stay: the first `bound` of the listing, or all of it where
/// it is no longer than that.
pub open spec fn kept<T>(listing: Seq<T>, bound: nat) -> Seq<T> {
    if listing.len() > bound {
        listing.take(bound as int)
    } else {
        listing
    }
}

/// What is written for a new image.
#[derive(Debug, Clone, PartialEq, Eq)]
pub struct PendingImage {
    /// The image's sequence number.
    pub number: u32,
    /// The name of the file to write, inside the store's directory.
    pub file_name: String,
    /// The file's contents.
    pub contents: Vec<u8>,
}

/// Why nothing can be written for a new image.
#[derive(Debug, Clone, PartialEq, Eq)]
pub enum SaveError {
    /// The directory holds an image with the greatest sequence number there
    /// is.
    NumbersExhausted,
    /// The image could not be encoded.
    Encoding(CodecError),
}

/// The store: the directory it keeps its images in and the number of images
/// it keeps.
#[derive(Debug, Clone, PartialEq, Eq)]
pub struct ImageManager {
    save_directory: String,
    max_images: usize,
}

/// An `ImageManager` as contracts speak of it.
pub struct ImageManagerView {
    pub save_directory: Seq<char>,
    pub max_images: nat,
}

impl View for ImageManager {
    type V = ImageManagerView;

    closed spec fn view(&self) -> ImageManagerView {
        ImageManagerView { save_directory: self.save_directory@, max_images: self.max_images as nat }
    }
}

impl ImageManager {
    /// A store that keeps at most `max_images` images in `save_directory`.
    pub fn new(save_directory: String, max_images: usize) -> (store: Self)
        ensures
            store@ == (ImageManagerView {
                save_directory: save_directory@,
                max_images: max_images as nat,
            }),
    {
        Self { save_directory, max_images }
    }

    /// Replaces the directory and the bound. Files already stored are neither
    /// moved nor deleted by this: the bound is next enforced by the eviction
    /// that follows a save.
    pub fn update_settings(&mut self, save_directory: String, max_images: usize)
        ensures
            final(self)@ == (ImageManagerView {
                save_directory: save_directory@,
                max_images: max_images as nat,
            }),
    {
        self.save_directory = save_directory;
        self.max_images = max_images;
    }

    /// The directory the store keeps its images in.
    pub fn save_directory(&self) -> (directory: &String)
        ensures
            directory@ == self@.save_directory,
    {
        &self.save_directory
    }

    /// The number of images the store keeps.
    pub fn max_images(&self) -> (bound: usize)
        ensures
            bound == self@.max_images,
    {
        self.max_images
    }

    /// The sequence number for the next image: one more than the greatest
    /// number among the names in the directory, 1 where there is none.
    ///
    /// `None` exactly when the greatest number present is `u32::MAX`, so that
    /// no number is left.
    pub fn get_next_image_number(&self, scan: &DirectoryScan) -> (next: Option<u32>)
        ensures
            next == next_image_number(scan.entries()),
            scan is Missing ==> next == Some(1u32),
    {
        let mut highest: u32 = 0;
        match scan {
            DirectoryScan::Missing => {},
            DirectoryScan::Found(entries) => {
                let ghost views = entry_views(entries@);
                let mut i: usize = 0;
                assert(views.take(0) == Seq::<ScannedEntryView>::empty());
                while i < entries.len()
                    invariant
                        i <= entries.len(),
                        views == entry_views(entries@),
                        highest == highest_number(views.take(i as int)),
                    decreases entries.len() - i,
                {
                    proof {
                        assert(views.take(i + 1).drop_last() == views.take(i as int));
                        assert(views.take(i + 1).last().file_name == entries[i as int].file_name@);
                    }
                    match parse_image_number(entries[i].file_name.as_str()) {
                        Some(n) => {
                            if n > highest {
                                highest = n;
                            }
                        },
                        None => {},
                    }
                    i = i + 1;
                }
                assert(views.take(entries.len() as int) == views);
            },
        }
        if highest == 0xffff_ffff {
            None
        } else {
            Some(highest + 1)
        }
    }

    /// The paths of the store's images, most recently modified first.
    ///
    /// An entry is listed if it is a regular file with a stored image's name
    /// and a known modification time. Images modified at the same time are
    /// listed in the order of the scan. Nothing is listed where the directory
    /// is missing.
    pub fn list_images(&self, scan: &DirectoryScan) -> (paths: Vec<String>)
        ensures
            texts(paths@) == paths_of(listing(scan.entries())),
            scan is Missing ==> paths@.len() == 0,
    {
        let mut paths: Vec<String> = Vec::new();
        match scan {
            DirectoryScan::Missing => {
                proof {
                    reveal(Seq::filter);
                }
                assert(listing(scan.entries()) =~= Seq::empty());
                assert(texts(paths@) =~= paths_of(listing(scan.entries())));
            },
            DirectoryScan::Found(entries) => {
                let order = recency_order(entries);
                let ghost images = listing(entry_views(entries@));
                let mut i: usize = 0;
                assert(texts(paths@) =~= paths_of(images.take(0)));
                while i < order.len()
                    invariant
                        i <= order.len(),
                        paths@.len() == i,
                        order@.len() == images.len(),
                        forall|k: int|
                            #![trigger order@[k]]
                            0 <= k < order.len() ==> order@[k] < entries.len() && entries@[order@[k] as int]@
                                == images[k],
                        texts(paths@) == paths_of(images.take(i as int)),
                    decreases order.len() - i,
                {
                    let at = order[i];
                    let entry = &entries[at];
                    assert(entry@ == images[i as int]);
                    let ghost before = paths@;
                    paths.push(entry.path.clone());
                    assert(texts(paths@) =~= paths_of(images.take(i + 1))) by {
                        assert(paths@ == before.push(paths@[i as int]));
                        assert forall|k: int| 0 <= k < i implies texts(paths@)[k] == paths_of(
                            images.take(i + 1),
                        )[k] by {
                            assert(texts(before)[k] == paths_of(images.take(i as int))[k]);
                        }
                    }
                    i = i + 1;
                }
                assert(images.take(order.len() as int) == images);
            },
        }
        paths
    }

    /// The paths of the images to delete so that no more than `max_images`
    /// stay: every listed image behind the first `max_images`, the oldest
    /// first. Nothing where the store is within its bound.
    pub fn cleanup_old_images(&self, scan: &DirectoryScan) -> (doomed: Vec<String>)
        ensures
            texts(doomed@) == evicted(paths_of(listing(scan.entries())), self@.max_images),
    {
        let mut images = self.list_images(scan);
        let ghost all = texts(images@);
        let mut doomed: Vec<String> = Vec::new();
        assert(all.take(images.len() as int) =~= all);
        assert(texts(doomed@) =~= all.skip(images.len() as int).reverse());
        while images.len() > self.max_images
            invariant
                images.len() <= all.len(),
                doomed@.len() == all.len() - images.len(),
                all.len() > self.max_images ==> images.len() >= self.max_images,
                all.len() <= self.max_images ==> images.len() == all.len(),
                texts(images@) == all.take(images.len() as int),
                texts(doomed@) == all.skip(images.len() as int).reverse(),
            decreases images.len(),
        {
            let ghost before = images@;
            let ghost gone = doomed@;
            let ghost n = images.len() as int;
            let oldest = images.pop().unwrap();
            assert(oldest@ == all[n - 1]) by {
                assert(texts(before)[n - 1] == all.take(n)[n - 1]);
            }
            assert(texts(images@) =~= all.take(n - 1)) by {
                assert forall|k: int| 0 <= k < n - 1 implies texts(images@)[k] == all.take(n - 1)[k] by {
                    assert(texts(before)[k] == all.take(n)[k]);
                }
            }
            doomed.push(oldest);
            assert(texts(doomed@) =~= all.skip(n - 1).reverse()) by {
                let tail = all.skip(n);
                let longer = all.skip(n - 1);
                assert(texts(gone) == tail.reverse());
                assert(doomed@ == gone.push(oldest));
                assert(longer.len() == tail.len() + 1);
                assert forall|k: int| 0 <= k < longer.len() implies texts(doomed@)[k]
                    == longer.reverse()[k] by {
                    if k < tail.len() {
                        assert(texts(gone)[k] == tail.reverse()[k]);
                        assert(tail.reverse()[k] == tail[tail.len() - 1 - k]);
                        assert(longer.reverse()[k] == longer[longer.len() - 1 - k]);
                    } else {
                        assert(longer.reverse()[k] == longer[0]);
                    }
                }
            }
        }
        assert(texts(doomed@) == evicted(all, self@.max_images)) by {
            if all.len() <= self.max_images {
                assert(all.skip(all.len() as int).reverse() =~= Seq::<Seq<char>>::empty());
            }
        }
        doomed
    }

    /// What to write for `image`, given a scan of the directory made after
    /// the directory was seen to exist: the next number, the name
    /// `img_NNNN.png` made from it, and the image's lossless encoding.
    ///
    /// Fails with `NumbersExhausted` exactly when no sequence number is left,
    /// and otherwise with `Encoding` exactly when the image has no lossless
    /// encoding.
    pub fn save_image(&self, image: &Bitmap, scan: &DirectoryScan) -> (pending: Result<
        PendingImage,
        SaveError,
    >)
        ensures
            match pending {
                Ok(p) => {
                    &&& next_image_number(scan.entries()) == Some(p.number)
                    &&& p.file_name@ == image_name(p.number as nat)
                    &&& lossless_encoding(image@) == Some(p.contents@)
                },
                Err(SaveError::NumbersExhausted) => next_image_number(scan.entries()) is None,
                Err(SaveError::Encoding(_)) => next_image_number(scan.entries()) is Some
                    && lossless_encoding(image@) is None,
            },
    {
        let number = match self.get_next_image_number(scan) {
            Some(n) => n,
            None => {
                return Err(SaveError::NumbersExhausted);
            },
        };
        let file_name = image_file_name(number);
        match encode_lossless(image) {
            Ok(contents) => Ok(PendingImage { number, file_name, contents }),
            Err(e) => Err(SaveError::Encoding(e)),
        }
    }
}

/// The indices of the store's images among `entries`, most recently modified
/// first.
fn recency_order(entries: &Vec<ScannedEntry>) -> (order: Vec<usize>)
    ensures
        order@.len() == listing(entry_views(entries@)).len(),
        forall|k: int|
            #![trigger order@[k]]
            0 <= k < order.len() ==> order@[k] < entries.len() && entries@[order@[k] as int]@
                == listing(entry_views(entries@))[k],
{
    let ghost views = entry_views(entries@);
    let mut order: Vec<usize> = Vec::new();
    let mut i: usize = 0;
    proof {
        reveal(Seq::filter);
        assert(views.take(0) =~= Seq::<ScannedEntryView>::empty());
        assert(listing(views.take(0)) =~= Seq::<ScannedEntryView>::empty());
    }
    while i < entries.len()
        invariant
            i <= entries.len(),
            views == entry_views(entries@),
            order@.len() == listing(views.take(i as int)).len(),
            forall|k: int|
                #![trigger order@[k]]
                0 <= k < order.len() ==> order@[k] < i && views[order@[k] as int] == listing(
                    views.take(i as int),
                )[k],
        decreases entries.len() - i,
    {
        let entry = &entries[i];
        let ghost sorted = listing(views.take(i as int));
        let ghost current = views[i as int];
        proof {
            assert(current == entry@);
            assert(views.take(i + 1) =~= views.take(i as int).push(current));
            lemma_listed_push(views.take(i as int), current);
            lemma_listing(views.take(i as int));
        }
        if entry.is_file && entry.modified.is_some() && is_stored_image_name(
            entry.file_name.as_str(),
        ) {
            assert(is_listed(current));
            assert forall|k: int| 0 <= k < sorted.len() implies (#[trigger] sorted[k]).modified is Some by {
                assert(sorted.contains(sorted[k]));
            }
            let modified = entry.modified.unwrap();
            let mut at: usize = order.len();
            while at > 0 && entries[order[at - 1]].modified.unwrap() < modified
                invariant
                    at <= order.len(),
                    i < entries.len(),
                    views == entry_views(entries@),
                    order@.len() == sorted.len(),
                    forall|k: int|
                        #![trigger order@[k]]
                        0 <= k < order.len() ==> order@[k] < i && views[order@[k] as int]
                            == sorted[k],
                    forall|k: int|
                        0 <= k < sorted.len() ==> (#[trigger] sorted[k]).modified is Some,
                    modified_at(current) == modified,
                    forall|j: int|
                        at <= j < sorted.len() ==> modified_at(#[trigger] sorted[j]) < modified,
                decreases at,
            {
                proof {
                    let k = at - 1;
                    assert(order@[k] < i && views[order@[k] as int] == sorted[k]);
                    assert(sorted[k].modified is Some);
                }
                at = at - 1;
            }
            proof {
                if at > 0 {
                    let k = at - 1;
                    assert(order@[k] < i && views[order@[k] as int] == sorted[k]);
                    assert(sorted[k].modified is Some);
                }
                lemma_insert_by_recency_at(sorted, current, at as int);
            }
            let ghost before = order@;
            order.insert(at, i);
            assert forall|k: int|
                #![trigger order@[k]]
                0 <= k < order.len() implies order@[k] < i + 1 && views[order@[k] as int]
                    == listing(views.take(i + 1))[k] by {
                if k < at {
                    assert(order@[k] == before[k]);
                } else if k > at {
                    assert(order@[k] == before[k - 1]);
                }
            }
        } else {
            assert(!is_listed(current));
        }
        i = i + 1;
    }
    assert(views.take(entries.len() as int) == views);
    order
}

} // verus!
