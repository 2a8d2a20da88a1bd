//! The data file written next to the atlas: every cached graphic's data,
//! keyed by the name of its source.

use vstd::prelude::*;
use crate::cache::{Cache, CacheEntry};
use crate::common::{ConfigStatus, Verbosity};
use crate::config::Config;
use crate::data::{GraphicData, GraphicDataView};
use crate::paths::{path_file_stem, path_join, spec_file_stem, spec_path_join};

verus! {

/// One graphic's data under its name.
pub struct AtlasEntry {
    pub name: String,
    pub data: GraphicData,
}

pub open spec fn names_unique(s: Seq<AtlasEntry>) -> bool {
    forall|i: int, j: int|
        0 <= i < s.len() && 0 <= j < s.len() && (#[trigger] s[i]).name@ == (#[trigger] s[j]).name@ ==> i == j
}

pub open spec fn has_name(s: Seq<AtlasEntry>, k: Seq<char>) -> bool {
    exists|i: int| 0 <= i < s.len() && (#[trigger] s[i]).name@ == k
}

pub open spec fn names_map(s: Seq<AtlasEntry>) -> Map<Seq<char>, GraphicDataView> {
    Map::new(
        |k: Seq<char>| has_name(s, k),
        |k: Seq<char>| s[choose|i: int| 0 <= i < s.len() && (#[trigger] s[i]).name@ == k].data@,
    )
}

proof fn lemma_names_map_at(s: Seq<AtlasEntry>, i: int)
    requires
        names_unique(s),
        0 <= i < s.len(),
    ensures
        names_map(s).contains_key(s[i].name@),
        names_map(s)[s[i].name@] == s[i].data@,
{
    let k = s[i].name@;
    assert(has_name(s, k));
    let j = choose|j: int| 0 <= j < s.len() && (#[trigger] s[j]).name@ == k;
    assert(j == i);
}

proof fn lemma_names_insert(s: Seq<AtlasEntry>, s2: Seq<AtlasEntry>, e: AtlasEntry, i: int)
    requires
        names_unique(s),
        0 <= i <= s.len(),
        i < s.len() ==> s[i].name@ == e.name@ && s2 == s.update(i, e),
        i == s.len() ==> !has_name(s, e.name@) && s2 == s.push(e),
    ensures
        names_unique(s2),
        names_map(s2) == names_map(s).insert(e.name@, e.data@),
{
    assert(s2.len() == if i < s.len() { s.len() } else { s.len() + 1 });
    assert forall|j: int| 0 <= j < s2.len() && j != i implies #[trigger] s2[j] == s[j] by {}
    assert(s2[i] == e);
    assert forall|a: int, b: int|
        0 <= a < s2.len() && 0 <= b < s2.len() && (#[trigger] s2[a]).name@ == (#[trigger] s2[b]).name@
            implies a == b by {
        if a != i && b != i {
            assert(s[a] == s2[a] && s[b] == s2[b]);
        } else if a != i {
            assert(s[a] == s2[a]);
            if i < s.len() {
                assert(s[i].name@ == e.name@);
            } else {
                assert(has_name(s, e.name@));
            }
        } else if b != i {
            assert(s[b] == s2[b]);
            if i < s.len() {
                assert(s[i].name@ == e.name@);
            } else {
                assert(has_name(s, e.name@));
            }
        }
    }
    assert forall|k: Seq<char>| #[trigger] has_name(s2, k) == (has_name(s, k) || k == e.name@) by {
        if has_name(s, k) {
            let j = choose|j: int| 0 <= j < s.len() && (#[trigger] s[j]).name@ == k;
            if j != i {
                assert(s2[j] == s[j]);
            } else {
                assert(s2[i].name@ == k);
            }
        }
        if k == e.name@ {
            assert(s2[i].name@ == k);
        }
        if has_name(s2, k) {
            let j = choose|j: int| 0 <= j < s2.len() && (#[trigger] s2[j]).name@ == k;
            if j != i {
                assert(s[j] == s2[j]);
            }
        }
    }
    assert forall|k: Seq<char>| #[trigger] names_map(s2).contains_key(k) implies names_map(s2)[k]
        == names_map(s).insert(e.name@, e.data@)[k] by {
        let j = choose|j: int| 0 <= j < s2.len() && (#[trigger] s2[j]).name@ == k;
        lemma_names_map_at(s2, j);
        if j != i {
            assert(s[j] == s2[j]);
            lemma_names_map_at(s, j);
        }
    }
    assert(names_map(s2) =~= names_map(s).insert(e.name@, e.data@));
}

/// The data file's contents: graphics' data by name.
pub struct AtlasData {
    graphics: Vec<AtlasEntry>,
}

impl AtlasData {
    #[verifier::type_invariant]
    closed spec fn inv(self) -> bool {
        names_unique(self.graphics@)
    }

    pub closed spec fn spec_entries(&self) -> Seq<AtlasEntry> {
        self.graphics@
    }

    /// The graphics' data by name.
    pub open spec fn spec_graphics(&self) -> Map<Seq<char>, GraphicDataView> {
        names_map(self.spec_entries())
    }

    pub fn new() -> (r: AtlasData)
        ensures
            r.spec_graphics() == Map::<Seq<char>, GraphicDataView>::empty(),
            r.spec_entries().len() == 0,
    {
        let r = AtlasData { graphics: Vec::new() };
        proof {
            assert(r.spec_graphics() =~= Map::<Seq<char>, GraphicDataView>::empty());
        }
        r
    }

    /// The entries in their stored order, names distinct.
    pub fn entries(&self) -> (r: &Vec<AtlasEntry>)
        ensures
            r@ == self.spec_entries(),
            names_unique(r@),
    {
        proof {
            use_type_invariant(self);
        }
        &self.graphics
    }

    /// Records `data` under `name`, replacing what was there.
    pub fn insert(&mut self, name: String, data: GraphicData)
        ensures
            final(self).spec_graphics() == old(self).spec_graphics().insert(name@, data@),
    {
        proof {
            use_type_invariant(&*self);
        }
        let ghost s = self.graphics@;
        let mut graphics: Vec<AtlasEntry> = Vec::new();
        std::mem::swap(&mut graphics, &mut self.graphics);
        let mut i: usize = 0;
        while i < graphics.len() && graphics[i].name != name
            invariant
                graphics@ == s,
                i <= s.len(),
                forall|j: int| 0 <= j < i ==> (#[trigger] s[j]).name@ != name@,
            decreases s.len() - i,
        {
            i = i + 1;
        }
        let entry = AtlasEntry { name, data };
        if i < graphics.len() {
            graphics.set(i, entry);
        } else {
            graphics.push(entry);
        }
        proof {
            lemma_names_insert(s, graphics@, entry, i as int);
        }
        self.graphics = graphics;
    }
}

/// Why the data file could not be written.
pub enum DataError {
    Save(SaveError),
}

/// Why the data could not be serialized.
pub enum SaveError {
    Serialize(serde_json::Error),
}

impl DataError {
    pub fn from_save(error: SaveError) -> (r: DataError)
        ensures
            r == DataError::Save(error),
    {
        DataError::Save(error)
    }
}

/// Why the data file could not be gathered.
pub enum GatherError {
    /// A cache entry's location has no file name to use as its name.
    FileStemNotFound(String),
}

/// The data file's contents from the first `n` cache entries: each entry's
/// data under the stem of its location, later entries replacing earlier ones
/// of the same name.
pub open spec fn spec_gathered(entries: Seq<CacheEntry>, n: nat) -> Map<Seq<char>, GraphicDataView>
    decreases n,
{
    if n == 0 {
        Map::empty()
    } else {
        spec_gathered(entries, (n - 1) as nat).insert(
            spec_file_stem(entries[n - 1].location@)->0,
            entries[n - 1].data@,
        )
    }
}

/// Every entry among the first `n` has a file stem.
pub open spec fn all_have_stems(entries: Seq<CacheEntry>, n: nat) -> bool {
    forall|i: int| 0 <= i < n ==> spec_file_stem((#[trigger] entries[i]).location@) is Some
}

pub struct DataProcessor {
    verbose: bool,
}

impl Verbosity for DataProcessor {
    closed spec fn spec_is_verbose(&self) -> bool {
        self.verbose
    }

    fn verbose(&mut self, verbose: bool) {
        self.verbose = verbose;
    }

    fn is_verbose(&self) -> bool {
        self.verbose
    }
}

/// The path of the data file: `<name>.data.json` in the cache's atlas
/// directory.
pub open spec fn spec_atlas_data_path(config: Config) -> Seq<char> {
    spec_path_join(
        config.cache.spec_atlas_path(),
        config.output.spec_name_or_default() + seq!['.', 'd', 'a', 't', 'a', '.', 'j', 's', 'o', 'n'],
    )
}

impl DataProcessor {
    pub fn new() -> (r: DataProcessor)
        ensures
            !r.spec_is_verbose(),
    {
        DataProcessor { verbose: false }
    }

    /// Data is prettified when either the data settings or the general
    /// settings ask for it; this is not saved as a change.
    pub fn setup(config: &mut Config) -> (r: ConfigStatus)
        ensures
            r is NotModified,
            final(config).data.prettify == (old(config).data.prettify || old(config).prettify),
            final(config).data.verbose == old(config).data.verbose,
            final(config).prettify == old(config).prettify,
            final(config).cache == old(config).cache,
            final(config).image == old(config).image,
            final(config).packer == old(config).packer,
            final(config).output == old(config).output,
    {
        config.data.prettify = config.data.prettify || config.prettify;
        ConfigStatus::NotModified
    }

    pub fn atlas_data_path(config: &Config) -> (r: String)
        ensures
            r@ == spec_atlas_data_path(*config),
    {
        let mut name = config.output.name_or_default();
        let ext = ".data.json";
        proof {
            reveal_strlit(".data.json");
            assert(ext@ =~= seq!['.', 'd', 'a', 't', 'a', '.', 'j', 's', 'o', 'n']);
        }
        name.append(ext);
        let atlas = config.cache.atlas_path();
        path_join(atlas.as_str(), name.as_str())
    }

    /// The data file from an earlier run can be kept when the cache is up to
    /// date and was written with the same prettify setting.
    pub fn is_up_to_date(cache: &Cache, prettify: bool) -> (r: bool)
        ensures
            r == (!cache.spec_is_outdated() && cache.spec_meta().spec_generation().data.prettified
                == prettify),
    {
        cache.is_updated() && cache.meta().generation_metadata().data.prettified == prettify
    }

    /// Gathers every cache entry's data under the stem of its location.
    pub fn gather(cache: &Cache) -> (r: Result<AtlasData, GatherError>)
        ensures
            r is Ok <==> all_have_stems(cache.spec_entries(), cache.spec_entries().len()),
            r matches Ok(d) ==> d.spec_graphics() == spec_gathered(
                cache.spec_entries(),
                cache.spec_entries().len(),
            ),
    {
        let entries = cache.entries();
        let n = entries.len();
        let mut atlas_data = AtlasData::new();
        let mut i: usize = 0;
        while i < n
            invariant
                n == entries@.len(),
                entries@ == cache.spec_entries(),
                i <= n,
                atlas_data.spec_graphics() == spec_gathered(entries@, i as nat),
                all_have_stems(entries@, i as nat),
            decreases n - i,
        {
            let entry = &entries[i];
            match path_file_stem(entry.location.as_str()) {
                Some(stem) => {
                    atlas_data.insert(stem, entry.data.clone());
                },
                None => {
                    return Err(GatherError::FileStemNotFound(entry.location.clone()));
                },
            }
            i = i + 1;
        }
        Ok(atlas_data)
    }
}

} // verus!
