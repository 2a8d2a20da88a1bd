//! The decisions of the cache importer: whether a stored cache is kept,
//! whether a new cache identifier is needed and what it looks like, and what
//! a verification of the cache leads to.

use vstd::prelude::*;
use rand::Rng;
use crate::cache::{Cache, CacheMetadata};
use crate::common::{ConfigStatus, PathState, Verbosity};

verus! {

pub struct CacheImporterProcessor {
    verbose: bool,
}

impl Verbosity for CacheImporterProcessor {
    closed spec fn spec_is_verbose(&self) -> bool {
        self.verbose
    }

    fn verbose(&mut self, verbose: bool) {
        self.verbose = verbose;
    }

    fn is_verbose(&self) -> bool {
        self.verbose
    }
}

/// How reading the stored cache went.
#[derive(Clone, Copy, PartialEq, Eq, Structural, Debug)]
pub enum LoadOutcome {
    /// The cache was read; `same_version` tells whether it was written by
    /// this library version.
    Loaded { same_version: bool },
    FileNotFound,
    /// The file could not be read through (an I/O failure or an early end).
    UnreadableData,
    /// The file was read but does not hold a valid cache.
    BrokenData,
}

/// What to do with the stored cache.
#[derive(Clone, Copy, PartialEq, Eq, Structural, Debug)]
pub enum ImportAction {
    UseLoaded,
    CreateNew,
    Fail,
}

/// Where a search for a free cache identifier stands.
pub struct IdentifierSearch {
    pub tries: u32,
}

#[derive(Clone, Copy, PartialEq, Eq, Structural, Debug)]
pub enum SearchStep {
    /// The identifier under test is free: use it.
    Accept,
    /// It is taken: generate another one and test again.
    Retry,
    /// No more tries are left.
    GiveUp,
}

/// The characters a generated identifier is drawn from.
pub open spec fn hash_charset() -> Seq<char> {
    "ABCDEFGHIJKLMNOPQRSTUVWXYZabcdefghijklmnopqrstuvwxyz0123456789"@
}

/// `rand::Rng::gen_range(0..bound)` on the thread's generator: some index
/// below `bound`, chosen at random.
#[verifier::external_body]
fn random_index(bound: usize) -> (r: usize)
    requires
        bound > 0,
    ensures
        r < bound,
{
    rand::thread_rng().gen_range(0..bound)
}

/// A stored cache is kept when the library version that wrote it is the
/// current one.
pub open spec fn keeps_cache(previous: CacheMetadata, current: CacheMetadata) -> bool {
    previous.spec_version() == current.spec_version()
}

/// The identifier spelled by indices into the identifier characters.
pub open spec fn hash_of(indices: Seq<usize>) -> Seq<char> {
    indices.map_values(|i: usize| hash_charset()[i as int])
}

impl IdentifierSearch {
    pub fn new() -> (r: IdentifierSearch)
        ensures
            r.tries == 100,
    {
        IdentifierSearch { tries: 100 }
    }

    /// One test of a generated identifier: accepted when free while tries
    /// are left; otherwise one try is spent, or the search gives up when
    /// none is left.
    pub fn step(&mut self, taken: bool) -> (r: SearchStep)
        ensures
            old(self).tries == 0 ==> r is GiveUp && final(self).tries == 0,
            old(self).tries > 0 && !taken ==> r is Accept && final(self).tries == old(self).tries,
            old(self).tries > 0 && taken ==> r is Retry && final(self).tries == old(self).tries - 1,
    {
        if self.tries == 0 {
            SearchStep::GiveUp
        } else if !taken {
            SearchStep::Accept
        } else {
            self.tries = self.tries - 1;
            SearchStep::Retry
        }
    }
}

impl CacheImporterProcessor {
    pub fn new() -> (r: CacheImporterProcessor)
        ensures
            !r.spec_is_verbose(),
    {
        CacheImporterProcessor { verbose: false }
    }

    /// A stored cache is kept only when the library version that wrote it is
    /// the current one.
    pub fn should_keep_cache(&self, previous: &CacheMetadata, current: &CacheMetadata) -> (r: bool)
        ensures
            r == keeps_cache(*previous, *current),
    {
        previous.same_version(current)
    }

    /// A new, empty cache, outdated from the start.
    pub fn fresh_cache(metadata: CacheMetadata, images_path: String, atlas_output_path: String) -> (r: Cache)
        ensures
            r.spec_entries().len() == 0,
            r.spec_meta() == metadata,
            r.spec_images_path() == images_path@,
            r.spec_atlas_output_path() == atlas_output_path@,
            r.spec_is_outdated(),
    {
        let mut cache = Cache::new(metadata, images_path, atlas_output_path);
        cache.mark_as_outdated();
        cache
    }

    /// A new identifier is needed when none is configured, or when what sits
    /// at the configured one is not a directory or cannot be inspected. A
    /// missing directory or an existing one is used as configured.
    pub fn needs_new_identifier(config_identifier: &str, existing: PathState) -> (r: bool)
        ensures
            r == (config_identifier@.len() == 0 || existing is File || existing is Other
                || existing is Unreadable),
    {
        if config_identifier.is_empty() {
            return true;
        }
        match existing {
            PathState::Directory => false,
            PathState::Missing => false,
            _ => true,
        }
    }

    /// The identifier spelled by some indices into the identifier
    /// characters: the character at each index, in order.
    pub fn hash_from_indices(indices: &Vec<usize>) -> (r: String)
        requires
            forall|k: int| 0 <= k < indices@.len() ==> #[trigger] indices@[k] < hash_charset().len(),
        ensures
            r@ == hash_of(indices@),
    {
        let charset = "ABCDEFGHIJKLMNOPQRSTUVWXYZabcdefghijklmnopqrstuvwxyz0123456789";
        proof {
            reveal_strlit("ABCDEFGHIJKLMNOPQRSTUVWXYZabcdefghijklmnopqrstuvwxyz0123456789");
        }
        assert(charset@ == hash_charset());
        let mut r = String::new();
        let mut k: usize = 0;
        while k < indices.len()
            invariant
                charset@ == hash_charset(),
                hash_charset().len() == 62,
                k <= indices@.len(),
                forall|j: int| 0 <= j < indices@.len() ==> #[trigger] indices@[j] < hash_charset().len(),
                r@ == hash_of(indices@.subrange(0, k as int)),
            decreases indices@.len() - k,
        {
            let i = indices[k];
            let piece = charset.substring_char(i, i + 1);
            let ghost before = r@;
            r.append(piece);
            proof {
                assert(piece@ =~= seq![hash_charset()[i as int]]);
                assert(indices@.subrange(0, k + 1) =~= indices@.subrange(0, k as int).push(i));
                assert(hash_of(indices@.subrange(0, k + 1)) =~= hash_of(indices@.subrange(0, k as int)).push(
                    hash_charset()[i as int],
                ));
                assert(r@ =~= before.push(hash_charset()[i as int]));
            }
            k = k + 1;
        }
        proof {
            assert(indices@.subrange(0, indices@.len() as int) =~= indices@);
        }
        r
    }

    /// Ten characters drawn at random from letters and digits: the identifier
    /// spelled by ten indices drawn at random into the identifier characters.
    pub fn generate_hash(&self) -> (r: String)
        ensures
            exists|indices: Seq<usize>|
                #![trigger hash_of(indices)]
                indices.len() == 10 && (forall|k: int| 0 <= k < 10 ==> #[trigger] indices[k] < hash_charset().len())
                    && r@ == hash_of(indices),
            r@.len() == 10,
            forall|k: int| 0 <= k < 10 ==> hash_charset().contains(#[trigger] r@[k]),
    {
        let mut indices: Vec<usize> = Vec::new();
        let mut k: usize = 0;
        while k < 10
            invariant
                k <= 10,
                indices@.len() == k,
                forall|j: int| 0 <= j < k ==> #[trigger] indices@[j] < 62,
            decreases 10 - k,
        {
            indices.push(random_index(62));
            k = k + 1;
        }
        proof {
            reveal_strlit("ABCDEFGHIJKLMNOPQRSTUVWXYZabcdefghijklmnopqrstuvwxyz0123456789");
            assert(hash_charset().len() == 62);
        }
        let r = CacheImporterProcessor::hash_from_indices(&indices);
        proof {
            assert forall|j: int| 0 <= j < 10 implies hash_charset().contains(#[trigger] r@[j]) by {
                assert(r@[j] == hash_charset()[indices@[j] as int]);
            }
        }
        r
    }

    /// What to do with the stored cache: a forced run, a missing file, a
    /// cache of another version and a file that holds no valid cache all
    /// lead to a new cache; a file that cannot be read through stops the run.
    pub fn decide_import(force: bool, outcome: LoadOutcome) -> (r: ImportAction)
        ensures
            force ==> r is CreateNew,
            !force ==> r == match outcome {
                LoadOutcome::Loaded { same_version } => if same_version {
                    ImportAction::UseLoaded
                } else {
                    ImportAction::CreateNew
                },
                LoadOutcome::FileNotFound => ImportAction::CreateNew,
                LoadOutcome::UnreadableData => ImportAction::Fail,
                LoadOutcome::BrokenData => ImportAction::CreateNew,
            },
    {
        if force {
            return ImportAction::CreateNew;
        }
        match outcome {
            LoadOutcome::Loaded { same_version } => if same_version {
                ImportAction::UseLoaded
            } else {
                ImportAction::CreateNew
            },
            LoadOutcome::FileNotFound => ImportAction::CreateNew,
            LoadOutcome::UnreadableData => ImportAction::Fail,
            LoadOutcome::BrokenData => ImportAction::CreateNew,
        }
    }

    /// The cache directory setting changes when it was empty and a default
    /// directory was put in its place.
    pub fn cache_path_status(configured: &str) -> (r: ConfigStatus)
        ensures
            (r is Modified) == (configured@.len() == 0),
    {
        if configured.is_empty() {
            ConfigStatus::Modified
        } else {
            ConfigStatus::NotModified
        }
    }

    /// The identifier setting changes when the identifier in use differs
    /// from the configured one.
    pub fn identifier_status(configured: &String, chosen: &String) -> (r: ConfigStatus)
        ensures
            (r is Modified) == (configured@ != chosen@),
    {
        if *configured == *chosen {
            ConfigStatus::NotModified
        } else {
            ConfigStatus::Modified
        }
    }

    /// A stored entry is kept when it is valid and its cache directory is
    /// still a directory.
    pub fn should_retain_entry(entry_is_invalid: bool, entry_directory: PathState) -> (r: bool)
        ensures
            r == (!entry_is_invalid && entry_directory is Directory),
    {
        !entry_is_invalid && entry_directory == PathState::Directory
    }
}

} // verus!
