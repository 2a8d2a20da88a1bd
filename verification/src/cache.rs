//! The cache of processed graphics: one entry per source location, with the
//! source's modification time and the graphic data produced from it.

use vstd::prelude::*;
use crate::data::{FrameData, GraphicData, GraphicDataView};
use crate::data::copy_tracks;
use crate::graphics::{Animation, Frame, Graphic, Image, TrackList};
use crate::image::{GraphicSourceData, sorted_by_frame_index};
use crate::common::PathState;

verus! {

/// A modification time: whole seconds and the nanoseconds past them.
#[derive(Clone, Copy, PartialEq, Eq, Structural, Debug)]
pub struct ModTime {
    pub secs: u64,
    pub nanos: u32,
}

impl ModTime {
    pub open spec fn spec_is_before(self, other: ModTime) -> bool {
        self.secs < other.secs || (self.secs == other.secs && self.nanos < other.nanos)
    }

    /// Tells whether `self` is strictly earlier than `other`.
    pub fn is_before(&self, other: &ModTime) -> (r: bool)
        ensures
            r == self.spec_is_before(*other),
    {
        self.secs < other.secs || (self.secs == other.secs && self.nanos < other.nanos)
    }
}

pub struct ImageOutputMetadata {
    pub source_directory_modtime: ModTime,
}

pub struct DataOutputMetadata {
    pub prettified: bool,
}

pub struct GenerationMetadata {
    pub image: ImageOutputMetadata,
    pub data: DataOutputMetadata,
}

/// The version of this library, recorded in every cache it writes.
pub open spec fn spec_crate_version() -> Seq<char> {
    seq!['0', '.', '1', '.', '0']
}

/// What a cache was generated with: the library version and the settings
/// that shape its outputs.
pub struct CacheMetadata {
    version: String,
    generation: GenerationMetadata,
}

impl CacheMetadata {
    pub closed spec fn spec_version(&self) -> Seq<char> {
        self.version@
    }

    pub closed spec fn spec_generation(&self) -> &GenerationMetadata {
        &self.generation
    }

    /// Metadata for the current library version.
    pub fn new(generation: GenerationMetadata) -> (r: CacheMetadata)
        ensures
            r.spec_version() == spec_crate_version(),
            r.spec_generation() == generation,
    {
        let version = "0.1.0".to_owned();
        proof {
            reveal_strlit("0.1.0");
        }
        CacheMetadata { version, generation }
    }

    /// Metadata as read back from a stored cache.
    pub fn with_version(version: String, generation: GenerationMetadata) -> (r: CacheMetadata)
        ensures
            r.spec_version() == version@,
            r.spec_generation() == generation,
    {
        CacheMetadata { version, generation }
    }

    /// Both were written by the same library version.
    pub fn same_version(&self, other: &CacheMetadata) -> (r: bool)
        ensures
            r == (self.spec_version() == other.spec_version()),
    {
        self.version == other.version
    }

    pub fn version(&self) -> (r: &str)
        ensures
            r@ == self.spec_version(),
    {
        self.version.as_str()
    }

    pub fn generation_metadata(&self) -> (r: &GenerationMetadata)
        ensures
            r == self.spec_generation(),
    {
        &self.generation
    }
}

/// One cached graphic: the source's modification time and extension, the
/// graphic's data, and its location relative to the cache's image directory.
pub struct CacheEntry {
    pub modtime: ModTime,
    pub extension: String,
    pub data: GraphicData,
    pub location: String,
    pub invalid: bool,
}

pub struct CacheEntryView {
    pub modtime: ModTime,
    pub extension: Seq<char>,
    pub data: GraphicDataView,
    pub location: Seq<char>,
    pub invalid: bool,
}

impl View for CacheEntry {
    type V = CacheEntryView;

    open spec fn view(&self) -> CacheEntryView {
        CacheEntryView {
            modtime: self.modtime,
            extension: self.extension@,
            data: self.data@,
            location: self.location@,
            invalid: self.invalid,
        }
    }
}

impl CacheEntry {
    pub fn new(modtime: ModTime, extension: String, data: GraphicData, location: String) -> (r: CacheEntry)
        ensures
            r == (CacheEntry { modtime, extension, data, location, invalid: false }),
    {
        CacheEntry { modtime, extension, data, location, invalid: false }
    }

    /// The numbers of the frames that have contents: each has a frame image
    /// in the cache.
    pub fn frames_with_contents(&self) -> (r: Vec<usize>)
        ensures
            forall|k: int| 0 <= k < r@.len() ==> #[trigger] r@[k] < self.data.frames@.len()
                && self.data.frames@[r@[k] as int] is Contents,
            forall|i: int| 0 <= i < self.data.frames@.len() && (#[trigger] self.data.frames@[i]) is Contents
                ==> r@.contains(i as usize),
            forall|a: int, b: int| 0 <= a < b < r@.len() ==> r@[a] < r@[b],
    {
        let mut r: Vec<usize> = Vec::new();
        let mut i: usize = 0;
        while i < self.data.frames.len()
            invariant
                i <= self.data.frames@.len(),
                forall|k: int| 0 <= k < r@.len() ==> #[trigger] r@[k] < i && self.data.frames@[r@[k] as int] is Contents,
                forall|j: int| 0 <= j < i && (#[trigger] self.data.frames@[j]) is Contents ==> r@.contains(j as usize),
                forall|a: int, b: int| 0 <= a < b < r@.len() ==> r@[a] < r@[b],
            decreases self.data.frames@.len() - i,
        {
            match self.data.frames[i] {
                FrameData::Contents { .. } => {
                    let ghost before = r@;
                    r.push(i);
                    proof {
                        assert forall|j: int| 0 <= j < i + 1 && (#[trigger] self.data.frames@[j]) is Contents implies r@.contains(j as usize) by {
                            if j < i {
                                let k = choose|k: int| 0 <= k < before.len() && before[k] == j as usize;
                                assert(r@[k] == j as usize);
                            } else {
                                assert(r@[before.len() as int] == i);
                            }
                        }
                    }
                },
                FrameData::Empty => {},
            }
            i = i + 1;
        }
        r
    }

    pub fn mark_as_invalid(&mut self)
        ensures
            final(self)@ == (CacheEntryView { invalid: true, ..old(self)@ }),
    {
        self.invalid = true;
    }

    pub fn is_invalid(&self) -> (r: bool)
        ensures
            r == self.invalid,
    {
        self.invalid
    }
}

/// Why a cache could not be used.
pub enum CacheError {
    Load(LoadError),
    Save(SaveError),
    DirectoryExpected(String),
}

/// Why a stored cache could not be read.
pub enum LoadError {
    Deserialize(serde_json::Error),
    FileNotFound(String),
}

/// Why a cache could not be written.
pub enum SaveError {
    Serialize(serde_json::Error),
}

impl CacheError {
    pub fn from_load(error: LoadError) -> (r: CacheError)
        ensures
            r == CacheError::Load(error),
    {
        CacheError::Load(error)
    }

    pub fn from_save(error: SaveError) -> (r: CacheError)
        ensures
            r == CacheError::Save(error),
    {
        CacheError::Save(error)
    }
}

/// The duration a frame's data gives it, zero when it has none.
pub open spec fn frame_duration_or_zero(duration: Option<u32>) -> u32 {
    match duration {
        Some(d) => d,
        None => 0,
    }
}

/// The `i`-th frame of a graphic rebuilt from its cached data: blank where the
/// data says blank, else the `i`-th frame image with the recorded duration.
pub open spec fn rebuilt_frame(frame_data: FrameData, source: GraphicSourceData, frame: Frame) -> bool {
    match frame_data {
        FrameData::Empty => frame is Empty,
        FrameData::Contents { duration, .. } => frame == (Frame::Contents {
            graphic_source: source.source,
            duration: frame_duration_or_zero(duration),
        }),
    }
}

impl CacheEntry {
    /// `count` frame images can be rebuilt with this entry's data: there is
    /// frame data for each of them, or there is one image and no track, which
    /// makes a single image.
    pub open spec fn spec_sources_fit(&self, count: nat) -> bool {
        count <= self.data.frames@.len() || (count == 1 && self.data.tracks@.len() == 0)
    }

    /// Whether `count` frame images can be rebuilt with this entry's data.
    pub fn sources_fit(&self, count: usize) -> (r: bool)
        ensures
            r == self.spec_sources_fit(count as nat),
    {
        count <= self.data.frames.len() || (count == 1 && self.data.tracks.is_empty())
    }

    /// Rebuilds the cached graphic from its frame images, ordered by frame
    /// number: nothing when there is no image, a single image when there is
    /// one and no track, otherwise an animation with one frame per image
    /// (blank where the cached data says blank) and the cached tracks.
    pub fn graphic_from_sources(&self, sources: Vec<GraphicSourceData>, source_path: String) -> (r: Graphic)
        requires
            sorted_by_frame_index(sources@),
            self.spec_sources_fit(sources@.len()),
        ensures
            sources@.len() == 0 ==> r is Empty,
            sources@.len() == 1 && self.data.tracks@.len() == 0 ==> r == Graphic::Image(
                Image { graphic_source: sources@[0].source, source_path },
            ),
            sources@.len() > 1 || (sources@.len() == 1 && self.data.tracks@.len() > 0) ==> (
            match r {
                Graphic::Animation(a) => {
                    &&& a.source_path == source_path
                    &&& a.frames@.len() == sources@.len()
                    &&& forall|i: int| 0 <= i < sources@.len() ==> rebuilt_frame(
                        #[trigger] self.data.frames@[i],
                        sources@[i],
                        a.frames@[i],
                    )
                    &&& a.tracks@ == self.data.tracks@
                },
                _ => false,
            }),
    {
        let mut sources = sources;
        if sources.len() == 0 {
            return Graphic::Empty;
        }
        if sources.len() == 1 && self.data.tracks.is_empty() {
            let single = sources.remove(0);
            return Graphic::Image(Image::with_graphic_source(single.source, source_path));
        }
        let ghost all = sources@;
        let n = sources.len();
        let mut animation = Animation::new(source_path);
        let mut i: usize = 0;
        while i < n
            invariant
                n == all.len(),
                n <= self.data.frames@.len(),
                i <= n,
                sources@ == all.subrange(i as int, n as int),
                animation.source_path == source_path,
                animation.frames@.len() == i,
                animation.tracks.entries@.len() == 0,
                forall|j: int| 0 <= j < i ==> rebuilt_frame(
                    #[trigger] self.data.frames@[j],
                    all[j],
                    animation.frames@[j],
                ),
            decreases n - i,
        {
            let source_data = sources.remove(0);
            proof {
                assert(source_data == all[i as int]);
                assert(sources@ =~= all.subrange(i + 1, n as int));
            }
            let frame = match self.data.frames[i] {
                FrameData::Empty => Frame::Empty,
                FrameData::Contents { duration, .. } => Frame::Contents {
                    graphic_source: source_data.source,
                    duration: match duration {
                        Some(d) => d,
                        None => 0,
                    },
                },
            };
            let ghost before = animation.frames@;
            animation.push_frame(frame);
            proof {
                assert forall|j: int| 0 <= j < i + 1 implies rebuilt_frame(
                    #[trigger] self.data.frames@[j],
                    all[j],
                    animation.frames@[j],
                ) by {
                    if j < i {
                        assert(animation.frames@[j] == before[j]);
                    }
                }
            }
            i = i + 1;
        }
        let entries = copy_tracks(&self.data.tracks.entries);
        animation.tracks = TrackList { entries };
        Graphic::Animation(animation)
    }
}

/// Some entry of `s` sits at location `loc`.
pub open spec fn has_location(s: Seq<CacheEntry>, loc: Seq<char>) -> bool {
    exists|i: int| 0 <= i < s.len() && (#[trigger] s[i]).location@ == loc
}

/// No two entries of `s` share a location.
pub open spec fn locations_unique(s: Seq<CacheEntry>) -> bool {
    forall|i: int, j: int|
        0 <= i < s.len() && 0 <= j < s.len() && (#[trigger] s[i]).location@ == (#[trigger] s[j]).location@
            ==> i == j
}

/// The entries of `s` by location.
pub open spec fn entries_map(s: Seq<CacheEntry>) -> Map<Seq<char>, CacheEntryView> {
    Map::new(
        |k: Seq<char>| has_location(s, k),
        |k: Seq<char>| s[choose|i: int| 0 <= i < s.len() && (#[trigger] s[i]).location@ == k]@,
    )
}

pub proof fn lemma_entries_map_at(s: Seq<CacheEntry>, i: int)
    requires
        locations_unique(s),
        0 <= i < s.len(),
    ensures
        entries_map(s).contains_key(s[i].location@),
        entries_map(s)[s[i].location@] == s[i]@,
{
    let k = s[i].location@;
    assert(has_location(s, k));
    let j = choose|j: int| 0 <= j < s.len() && (#[trigger] s[j]).location@ == k;
    assert(j == i);
}

proof fn lemma_register_updates(s: Seq<CacheEntry>, i: int, e: CacheEntry)
    requires
        locations_unique(s),
        0 <= i < s.len(),
        s[i].location@ == e.location@,
    ensures
        locations_unique(s.update(i, e)),
        entries_map(s.update(i, e)) == entries_map(s).insert(e.location@, e@),
{
    let s2 = s.update(i, e);
    assert forall|a: int, b: int|
        0 <= a < s2.len() && 0 <= b < s2.len() && (#[trigger] s2[a]).location@ == (#[trigger] s2[b]).location@
            implies a == b by {
        if a != i {
            assert(s[a] == s2[a]);
        }
        if b != i {
            assert(s[b] == s2[b]);
        }
    }
    assert forall|k: Seq<char>| #[trigger] has_location(s2, k) == (has_location(s, k) || k == e.location@) by {
        if has_location(s, k) {
            let j = choose|j: int| 0 <= j < s.len() && (#[trigger] s[j]).location@ == k;
            if j != i {
                assert(s2[j] == s[j]);
            } else {
                assert(s2[i].location@ == k);
            }
        }
        if k == e.location@ {
            assert(s2[i].location@ == k);
        }
        if has_location(s2, k) {
            let j = choose|j: int| 0 <= j < s2.len() && (#[trigger] s2[j]).location@ == k;
            if j != i {
                assert(s[j] == s2[j]);
            }
        }
    }
    assert forall|k: Seq<char>| #[trigger] entries_map(s2).contains_key(k) implies entries_map(s2)[k]
        == entries_map(s).insert(e.location@, e@)[k] by {
        let j = choose|j: int| 0 <= j < s2.len() && (#[trigger] s2[j]).location@ == k;
        lemma_entries_map_at(s2, j);
        if j != i {
            assert(s[j] == s2[j]);
            lemma_entries_map_at(s, j);
        }
    }
    assert(entries_map(s2) =~= entries_map(s).insert(e.location@, e@));
}

proof fn lemma_register_appends(s: Seq<CacheEntry>, e: CacheEntry)
    requires
        locations_unique(s),
        !has_location(s, e.location@),
    ensures
        locations_unique(s.push(e)),
        entries_map(s.push(e)) == entries_map(s).insert(e.location@, e@),
{
    let s2 = s.push(e);
    let n = s.len() as int;
    assert forall|a: int, b: int|
        0 <= a < s2.len() && 0 <= b < s2.len() && (#[trigger] s2[a]).location@ == (#[trigger] s2[b]).location@
            implies a == b by {
        if a < n {
            assert(s[a] == s2[a]);
        }
        if b < n {
            assert(s[b] == s2[b]);
        }
    }
    assert forall|k: Seq<char>| #[trigger] has_location(s2, k) == (has_location(s, k) || k == e.location@) by {
        if has_location(s, k) {
            let j = choose|j: int| 0 <= j < s.len() && (#[trigger] s[j]).location@ == k;
            assert(s2[j] == s[j]);
        }
        if k == e.location@ {
            assert(s2[n].location@ == k);
        }
        if has_location(s2, k) {
            let j = choose|j: int| 0 <= j < s2.len() && (#[trigger] s2[j]).location@ == k;
            if j < n {
                assert(s[j] == s2[j]);
            }
        }
    }
    assert forall|k: Seq<char>| #[trigger] entries_map(s2).contains_key(k) implies entries_map(s2)[k]
        == entries_map(s).insert(e.location@, e@)[k] by {
        let j = choose|j: int| 0 <= j < s2.len() && (#[trigger] s2[j]).location@ == k;
        lemma_entries_map_at(s2, j);
        if j < n {
            assert(s[j] == s2[j]);
            lemma_entries_map_at(s, j);
        }
    }
    assert(entries_map(s2) =~= entries_map(s).insert(e.location@, e@));
}

/// The entries among the first `n` of `s` whose `keep` flag is set, in order.
pub open spec fn selected(s: Seq<CacheEntry>, keep: Seq<bool>, n: nat) -> Seq<CacheEntry>
    decreases n,
{
    if n == 0 {
        Seq::empty()
    } else if keep[n - 1] {
        selected(s, keep, (n - 1) as nat).push(s[n - 1])
    } else {
        selected(s, keep, (n - 1) as nat)
    }
}

/// The locations of the entries among the first `n` of `s` whose `keep` flag
/// is clear, in order.
pub open spec fn dropped(s: Seq<CacheEntry>, keep: Seq<bool>, n: nat) -> Seq<Seq<char>>
    decreases n,
{
    if n == 0 {
        Seq::empty()
    } else if keep[n - 1] {
        dropped(s, keep, (n - 1) as nat)
    } else {
        dropped(s, keep, (n - 1) as nat).push(s[n - 1].location@)
    }
}

spec fn is_among_first(s: Seq<CacheEntry>, x: CacheEntry, n: nat) -> bool {
    exists|j: int| 0 <= j < n && x == #[trigger] s[j]
}

proof fn lemma_selected_unique(s: Seq<CacheEntry>, keep: Seq<bool>, n: nat)
    requires
        locations_unique(s),
        n <= s.len(),
        n <= keep.len(),
    ensures
        locations_unique(selected(s, keep, n)),
        forall|a: int| 0 <= a < selected(s, keep, n).len() ==> is_among_first(s, #[trigger] selected(s, keep, n)[a], n),
    decreases n,
{
    if n > 0 {
        lemma_selected_unique(s, keep, (n - 1) as nat);
        let prev = selected(s, keep, (n - 1) as nat);
        if keep[n - 1] {
            let cur = prev.push(s[n - 1]);
            assert(selected(s, keep, n) == cur);
            assert forall|a: int| 0 <= a < selected(s, keep, n).len() implies is_among_first(s, #[trigger] selected(s, keep, n)[a], n) by {
                if a < prev.len() {
                    let j = choose|j: int| 0 <= j < n - 1 && #[trigger] prev[a] == s[j];
                    assert(cur[a] == s[j]);
                } else {
                    assert(cur[a] == s[n - 1]);
                }
            }
            assert forall|a: int, b: int|
                0 <= a < cur.len() && 0 <= b < cur.len()
                    && (#[trigger] cur[a]).location@ == (#[trigger] cur[b]).location@ implies a == b by {
                if a < prev.len() && b < prev.len() {
                    assert(cur[a] == prev[a] && cur[b] == prev[b]);
                } else if a < prev.len() {
                    let j = choose|j: int| 0 <= j < n - 1 && #[trigger] prev[a] == s[j];
                    assert(s[j].location@ == s[n - 1].location@);
                } else if b < prev.len() {
                    let j = choose|j: int| 0 <= j < n - 1 && #[trigger] prev[b] == s[j];
                    assert(s[j].location@ == s[n - 1].location@);
                }
            }
        } else {
            assert(selected(s, keep, n) == prev);
            assert forall|a: int| 0 <= a < selected(s, keep, n).len() implies is_among_first(s, #[trigger] selected(s, keep, n)[a], n) by {
                let j = choose|j: int| 0 <= j < n - 1 && #[trigger] prev[a] == s[j];
                assert(prev[a] == s[j]);
            }
        }
    } else {
        assert(selected(s, keep, n).len() == 0);
    }
}

/// What the cache knows of a source at some location.
pub enum CacheStatus<'a> {
    Found(&'a CacheEntry),
    Outdated,
    NotFound,
}

/// What a lookup in the cache gives, with the entry found taken by its view.
pub enum LookupView {
    Found(CacheEntryView),
    Outdated,
    NotFound,
}

impl<'a> CacheStatus<'a> {
    pub open spec fn spec_lookup_view(&self) -> LookupView {
        match self {
            CacheStatus::Found(e) => LookupView::Found(e@),
            CacheStatus::Outdated => LookupView::Outdated,
            CacheStatus::NotFound => LookupView::NotFound,
        }
    }
}

/// A lookup of the source at `location`, currently modified at `modtime`,
/// in entries by location: the entry when its recorded time matches,
/// `Outdated` when it does not, `NotFound` when there is no entry there.
pub open spec fn spec_lookup(files: Map<Seq<char>, CacheEntryView>, location: Seq<char>, modtime: ModTime) -> LookupView {
    if files.contains_key(location) {
        if files[location].modtime == modtime {
            LookupView::Found(files[location])
        } else {
            LookupView::Outdated
        }
    } else {
        LookupView::NotFound
    }
}

/// `after` is `before` with `data` recorded for the source at `location`,
/// with the given extension and modification time, replacing what was there.
pub open spec fn registered(
    before: Cache,
    after: Cache,
    location: Seq<char>,
    extension: Seq<char>,
    modtime: ModTime,
    data: GraphicDataView,
) -> bool {
    after.spec_files() == before.spec_files().insert(
        location,
        CacheEntryView { modtime, extension, data, location, invalid: false },
    )
}

/// What the cache's verification saw of one entry: whether its source is
/// still there (and what it is), and whether the cached frame files are all
/// present.
#[derive(Clone, Copy, PartialEq, Eq, Structural, Debug)]
pub enum SourceCheck {
    Missing,
    Present { is_file: bool, modtime: ModTime },
}

#[derive(Clone, Copy, PartialEq, Eq, Structural, Debug)]
pub struct EntryCheck {
    pub source: SourceCheck,
    pub cache_complete: bool,
}

impl EntryCheck {
    /// The cached frame files of an entry are complete when its directory
    /// is a directory and every expected frame file is a file.
    pub fn cache_complete(directory: PathState, frame_files: &Vec<PathState>) -> (r: bool)
        ensures
            r == (directory is Directory && forall|i: int| 0 <= i < frame_files@.len() ==> #[trigger] frame_files@[i] is File),
    {
        if directory != PathState::Directory {
            return false;
        }
        let mut i: usize = 0;
        while i < frame_files.len()
            invariant
                i <= frame_files@.len(),
                forall|j: int| 0 <= j < i ==> #[trigger] frame_files@[j] is File,
            decreases frame_files@.len() - i,
        {
            if frame_files[i] != PathState::File {
                return false;
            }
            i = i + 1;
        }
        true
    }

    /// The source is gone or is no longer a file.
    pub open spec fn spec_invalidates(self) -> bool {
        match self.source {
            SourceCheck::Missing => true,
            SourceCheck::Present { is_file, .. } => !is_file,
        }
    }

    /// The source's modification time differs from the recorded one.
    pub open spec fn spec_modifies(self, recorded: ModTime) -> bool {
        match self.source {
            SourceCheck::Missing => false,
            SourceCheck::Present { modtime, .. } => modtime != recorded,
        }
    }
}

pub open spec fn count_invalidated(checks: Seq<EntryCheck>) -> nat
    decreases checks.len(),
{
    if checks.len() == 0 {
        0
    } else {
        count_invalidated(checks.drop_last()) + if checks.last().spec_invalidates() { 1nat } else { 0nat }
    }
}

pub open spec fn count_modified(checks: Seq<EntryCheck>, entries: Seq<CacheEntry>) -> nat
    decreases checks.len(),
{
    if checks.len() == 0 {
        0
    } else {
        count_modified(checks.drop_last(), entries) + if checks.last().spec_modifies(
            entries[checks.len() - 1].modtime,
        ) {
            1nat
        } else {
            0nat
        }
    }
}

pub open spec fn count_incomplete(checks: Seq<EntryCheck>) -> nat
    decreases checks.len(),
{
    if checks.len() == 0 {
        0
    } else {
        count_incomplete(checks.drop_last()) + if !checks.last().cache_complete { 1nat } else { 0nat }
    }
}

/// Counts from a verification of the cache.
#[derive(Clone, Copy, PartialEq, Eq, Structural, Debug)]
pub struct VerificationSummary {
    pub invalid_entries: usize,
    pub source_modified_entries: usize,
    pub missing_registered_cache_entries: usize,
}

/// A cache that was behind its sources before a step is still behind after
/// it.
pub open spec fn outdated_kept(before: Cache, after: Cache) -> bool {
    before.spec_is_outdated() ==> after.spec_is_outdated()
}

/// The cache: its metadata, its entries by location, where its files live,
/// and whether it is behind its sources.
pub struct Cache {
    meta: CacheMetadata,
    files: Vec<CacheEntry>,
    images_path: String,
    atlas_output_path: String,
    outdated: bool,
}

impl Cache {
    #[verifier::type_invariant]
    closed spec fn inv(self) -> bool {
        locations_unique(self.files@)
    }

    /// The entries in their stored order.
    pub closed spec fn spec_entries(&self) -> Seq<CacheEntry> {
        self.files@
    }

    /// The entries by location.
    pub open spec fn spec_files(&self) -> Map<Seq<char>, CacheEntryView> {
        entries_map(self.spec_entries())
    }

    pub closed spec fn spec_is_outdated(&self) -> bool {
        self.outdated
    }

    pub closed spec fn spec_meta(&self) -> &CacheMetadata {
        &self.meta
    }

    pub closed spec fn spec_images_path(&self) -> Seq<char> {
        self.images_path@
    }

    pub closed spec fn spec_atlas_output_path(&self) -> Seq<char> {
        self.atlas_output_path@
    }

    pub fn meta(&self) -> (r: &CacheMetadata)
        ensures
            r == self.spec_meta(),
    {
        &self.meta
    }

    /// Replaces the metadata, keeping everything else.
    pub fn set_meta(&mut self, meta: CacheMetadata)
        ensures
            outdated_kept(*old(self), *final(self)),
            final(self).spec_meta() == meta,
            final(self).spec_entries() == old(self).spec_entries(),
            final(self).spec_is_outdated() == old(self).spec_is_outdated(),
            final(self).spec_images_path() == old(self).spec_images_path(),
            final(self).spec_atlas_output_path() == old(self).spec_atlas_output_path(),
    {
        proof {
            use_type_invariant(&*self);
        }
        self.meta = meta;
    }

    /// Where the frame images of the cached graphics live.
    pub fn images_path(&self) -> (r: &String)
        ensures
            r@ == self.spec_images_path(),
    {
        &self.images_path
    }

    /// Where the generated atlas files live.
    pub fn atlas_output_path(&self) -> (r: &String)
        ensures
            r@ == self.spec_atlas_output_path(),
    {
        &self.atlas_output_path
    }

    pub fn new(meta: CacheMetadata, images_path: String, atlas_output_path: String) -> (r: Cache)
        ensures
            r.spec_entries() == Seq::<CacheEntry>::empty(),
            r.spec_files() == Map::<Seq<char>, CacheEntryView>::empty(),
            r.spec_meta() == meta,
            r.spec_images_path() == images_path@,
            r.spec_atlas_output_path() == atlas_output_path@,
            !r.spec_is_outdated(),
    {
        let r = Cache { meta, files: Vec::new(), images_path, atlas_output_path, outdated: false };
        proof {
            assert(r.spec_files() =~= Map::<Seq<char>, CacheEntryView>::empty());
        }
        r
    }

    pub fn default_filename() -> (r: &'static str)
        ensures
            r@ == seq!['c', 'a', 'c', 'h', 'e', '.', 'j', 's', 'o', 'n'],
    {
        let r = "cache.json";
        proof {
            reveal_strlit("cache.json");
        }
        r
    }

    pub fn entries(&self) -> (r: &Vec<CacheEntry>)
        ensures
            r@ == self.spec_entries(),
            locations_unique(r@),
    {
        proof {
            use_type_invariant(self);
        }
        &self.files
    }

    pub fn is_outdated(&self) -> (r: bool)
        ensures
            r == self.spec_is_outdated(),
    {
        self.outdated
    }

    pub fn is_updated(&self) -> (r: bool)
        ensures
            r == !self.spec_is_outdated(),
    {
        !self.outdated
    }

    pub fn mark_as_outdated(&mut self)
        ensures
            outdated_kept(*old(self), *final(self)),
            final(self).spec_is_outdated(),
            final(self).spec_entries() == old(self).spec_entries(),
            final(self).spec_meta() == old(self).spec_meta(),
            final(self).spec_images_path() == old(self).spec_images_path(),
            final(self).spec_atlas_output_path() == old(self).spec_atlas_output_path(),
    {
        proof {
            use_type_invariant(&*self);
        }
        if self.is_outdated() {
            return;
        }
        self.outdated = true;
    }

    /// What the cache holds for the source at `location` whose current
    /// modification time is `source_modtime`: its entry when the recorded
    /// time matches, `Outdated` when it does not, `NotFound` when there is no
    /// entry there.
    pub fn retrieve(&self, location: &String, source_modtime: ModTime) -> (r: CacheStatus<'_>)
        ensures
            r matches CacheStatus::Found(e) ==> self.spec_files().contains_key(location@)
                && e@ == self.spec_files()[location@] && e.modtime == source_modtime,
            r is Outdated ==> self.spec_files().contains_key(location@)
                && self.spec_files()[location@].modtime != source_modtime,
            r is NotFound ==> !self.spec_files().contains_key(location@),
            r.spec_lookup_view() == spec_lookup(self.spec_files(), location@, source_modtime),
    {
        proof {
            use_type_invariant(self);
        }
        match self.find(location) {
            Some(i) => {
                proof {
                    lemma_entries_map_at(self.files@, i as int);
                }
                let entry = &self.files[i];
                if entry.modtime == source_modtime {
                    CacheStatus::Found(entry)
                } else {
                    CacheStatus::Outdated
                }
            },
            None => CacheStatus::NotFound,
        }
    }

    /// Records `data` for the source at `location`, replacing what was there.
    pub fn register(&mut self, location: String, extension: String, modtime: ModTime, data: GraphicData)
        ensures
            outdated_kept(*old(self), *final(self)),
            registered(*old(self), *final(self), location@, extension@, modtime, data@),
            final(self).spec_meta() == old(self).spec_meta(),
            final(self).spec_is_outdated() == old(self).spec_is_outdated(),
            final(self).spec_images_path() == old(self).spec_images_path(),
            final(self).spec_atlas_output_path() == old(self).spec_atlas_output_path(),
    {
        proof {
            use_type_invariant(&*self);
        }
        let ghost old_files = self.files@;
        let found = self.find(&location);
        let entry = CacheEntry::new(modtime, extension, data, location);
        let ghost e = entry;
        let mut files: Vec<CacheEntry> = Vec::new();
        std::mem::swap(&mut files, &mut self.files);
        match found {
            Some(i) => {
                proof {
                    let s2 = old_files.update(i as int, e);
                    assert forall|a: int, b: int|
                        0 <= a < s2.len() && 0 <= b < s2.len()
                            && (#[trigger] s2[a]).location@ == (#[trigger] s2[b]).location@ implies a == b by {
                        if a != i && b != i {
                            assert(old_files[a] == s2[a] && old_files[b] == s2[b]);
                        } else if a == i && b != i {
                            assert(old_files[b] == s2[b]);
                            assert(old_files[i as int].location@ == e.location@);
                        } else if a != i && b == i {
                            assert(old_files[a] == s2[a]);
                            assert(old_files[i as int].location@ == e.location@);
                        }
                    }
                }
                files.set(i, entry);
                proof {
                    lemma_register_updates(old_files, i as int, e);
                }
            },
            None => {
                files.push(entry);
                proof {
                    lemma_register_appends(old_files, e);
                }
            },
        }
        self.files = files;
    }

    /// Applies a verification of every entry, `checks[i]` being what was seen
    /// of the `i`-th entry: entries whose source is gone or no longer a file
    /// are marked invalid, and the cache becomes outdated when some entry is
    /// invalid, modified at its source, or incomplete in the cache.
    pub fn apply_verification(&mut self, checks: &Vec<EntryCheck>) -> (r: VerificationSummary)
        requires
            checks@.len() == old(self).spec_entries().len(),
        ensures
            outdated_kept(*old(self), *final(self)),
            final(self).spec_entries().len() == old(self).spec_entries().len(),
            forall|i: int| 0 <= i < old(self).spec_entries().len() ==> final(self).spec_entries()[i] == (
            CacheEntry {
                invalid: old(self).spec_entries()[i].invalid || checks@[i].spec_invalidates(),
                ..old(self).spec_entries()[i]
            }),
            r.invalid_entries == count_invalidated(checks@),
            r.source_modified_entries == count_modified(checks@, old(self).spec_entries()),
            r.missing_registered_cache_entries == count_incomplete(checks@),
            final(self).spec_is_outdated() == (old(self).spec_is_outdated() || r.invalid_entries > 0
                || r.source_modified_entries > 0 || r.missing_registered_cache_entries > 0),
            final(self).spec_meta() == old(self).spec_meta(),
            final(self).spec_images_path() == old(self).spec_images_path(),
            final(self).spec_atlas_output_path() == old(self).spec_atlas_output_path(),
    {
        proof {
            use_type_invariant(&*self);
        }
        let ghost orig = self.files@;
        let n = self.files.len();
        let mut files: Vec<CacheEntry> = Vec::new();
        std::mem::swap(&mut files, &mut self.files);
        let mut out: Vec<CacheEntry> = Vec::new();
        let mut invalid_entries: usize = 0;
        let mut modified: usize = 0;
        let mut missing: usize = 0;
        let mut i: usize = 0;
        while i < n
            invariant
                n == orig.len(),
                checks@.len() == n,
                i <= n,
                files@ == orig.subrange(i as int, n as int),
                out@.len() == i,
                forall|j: int| 0 <= j < i ==> out@[j] == (CacheEntry {
                    invalid: orig[j].invalid || checks@[j].spec_invalidates(),
                    ..orig[j]
                }),
                invalid_entries == count_invalidated(checks@.subrange(0, i as int)),
                modified == count_modified(checks@.subrange(0, i as int), orig),
                missing == count_incomplete(checks@.subrange(0, i as int)),
                invalid_entries <= i,
                modified <= i,
                missing <= i,
            decreases n - i,
        {
            let mut e = files.remove(0);
            let check = checks[i];
            proof {
                assert(e == orig[i as int]);
                let sub1 = checks@.subrange(0, i + 1);
                assert(sub1.drop_last() =~= checks@.subrange(0, i as int));
                assert(sub1.last() == check);
            }
            let is_invalid = match check.source {
                SourceCheck::Missing => true,
                SourceCheck::Present { is_file, .. } => !is_file,
            };
            let is_modified = match check.source {
                SourceCheck::Missing => false,
                SourceCheck::Present { modtime, .. } => modtime != e.modtime,
            };
            if is_invalid {
                invalid_entries = invalid_entries + 1;
                e.invalid = true;
            }
            if is_modified {
                modified = modified + 1;
            }
            if !check.cache_complete {
                missing = missing + 1;
            }
            out.push(e);
            proof {
                assert(files@ =~= orig.subrange(i + 1, n as int));
            }
            i = i + 1;
        }
        proof {
            assert(checks@.subrange(0, n as int) =~= checks@);
            assert forall|a: int, b: int|
                0 <= a < out@.len() && 0 <= b < out@.len()
                    && (#[trigger] out@[a]).location@ == (#[trigger] out@[b]).location@ implies a == b by {
                assert(orig[a].location@ == orig[b].location@);
            }
        }
        self.files = out;
        if invalid_entries > 0 || modified > 0 || missing > 0 {
            self.mark_as_outdated();
        }
        VerificationSummary {
            invalid_entries,
            source_modified_entries: modified,
            missing_registered_cache_entries: missing,
        }
    }

    /// Keeps the `i`-th entry exactly when `keep[i]` holds, and returns the
    /// locations of the entries taken out, in their stored order.
    pub fn remove_entries(&mut self, keep: &Vec<bool>) -> (r: Vec<String>)
        requires
            keep@.len() == old(self).spec_entries().len(),
        ensures
            outdated_kept(*old(self), *final(self)),
            final(self).spec_entries() == selected(old(self).spec_entries(), keep@, keep@.len() as nat),
            r@.map_values(|l: String| l@) == dropped(old(self).spec_entries(), keep@, keep@.len() as nat),
            final(self).spec_is_outdated() == old(self).spec_is_outdated(),
            final(self).spec_meta() == old(self).spec_meta(),
            final(self).spec_images_path() == old(self).spec_images_path(),
            final(self).spec_atlas_output_path() == old(self).spec_atlas_output_path(),
    {
        proof {
            use_type_invariant(&*self);
        }
        let ghost orig = self.files@;
        let n = self.files.len();
        let mut files: Vec<CacheEntry> = Vec::new();
        std::mem::swap(&mut files, &mut self.files);
        let mut out: Vec<CacheEntry> = Vec::new();
        let mut removed: Vec<String> = Vec::new();
        let mut i: usize = 0;
        while i < n
            invariant
                n == orig.len(),
                keep@.len() == n,
                i <= n,
                locations_unique(orig),
                files@ == orig.subrange(i as int, n as int),
                out@ == selected(orig, keep@, i as nat),
                removed@.map_values(|l: String| l@) == dropped(orig, keep@, i as nat),
            decreases n - i,
        {
            let e = files.remove(0);
            proof {
                assert(e == orig[i as int]);
                assert(files@ =~= orig.subrange(i + 1, n as int));
            }
            if keep[i] {
                out.push(e);
            } else {
                let ghost before = removed@;
                removed.push(e.location);
                proof {
                    assert(removed@.map_values(|l: String| l@) =~= before.map_values(|l: String| l@).push(
                        orig[i as int].location@,
                    ));
                }
            }
            i = i + 1;
        }
        proof {
            lemma_selected_unique(orig, keep@, n as nat);
        }
        self.files = out;
        removed
    }

    /// The index of the entry at `location`, if there is one.
    fn find(&self, location: &String) -> (r: Option<usize>)
        ensures
            r matches Some(i) ==> i < self.spec_entries().len()
                && self.spec_entries()[i as int].location@ == location@,
            r is None ==> !has_location(self.spec_entries(), location@),
    {
        let mut i: usize = 0;
        while i < self.files.len()
            invariant
                i <= self.files@.len(),
                forall|j: int| 0 <= j < i ==> (#[trigger] self.files@[j]).location@ != location@,
            decreases self.files@.len() - i,
        {
            if self.files[i].location == *location {
                return Some(i);
            }
            i = i + 1;
        }
        None
    }
}

} // verus!
