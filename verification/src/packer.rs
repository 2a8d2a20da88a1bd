//! Packing graphic sources onto the atlas: the atlas size to start from, when
//! an existing atlas can be kept, how packing is retried on larger atlases,
//! and the atlas image that results.

use vstd::prelude::*;
use vstd::arithmetic::power2::is_pow2;
use crate::math::{Rectangle, Size, is_power_2, ceil_power_2};
use crate::common::{ConfigStatus, Verbosity};
use crate::config::{Config, RetryConfig};
use crate::output::{FileObservation, Output, OutputFile};
use crate::paths::{path_join, spec_path_join};
use crate::state::State;
use crate::atlas_image::{compose_atlas, source_ready, all_fit, spec_composed};
use crate::graphics::{PixelBuffer, GraphicSource, Graphic, graphic_shape, all_sources, take_sources, put_sources, lemma_all_sources_len, ShapedGraphic};

verus! {

/// Why a packer could not place every graphic source.
#[derive(Clone, Copy, PartialEq, Eq, Structural, Debug)]
pub enum PackerError {
    EmptyTargetSize,
    OutOfSpace,
}

/// Why an existing atlas cannot be kept as it is.
pub enum ValidationError {
    AtlasImageLoadFailed(image::ImageError),
    AtlasImageNotFound,
    AtlasImageIoError(std::io::Error),
    CacheNotUpdated,
    PreviousFileImageSizeMismatch,
}

impl ValidationError {
    /// The atlas only has to be generated again; nothing went wrong.
    pub fn calls_for_regeneration(&self) -> (r: bool)
        ensures
            r == (self is CacheNotUpdated || self is AtlasImageNotFound
                || self is PreviousFileImageSizeMismatch),
    {
        match self {
            ValidationError::CacheNotUpdated => true,
            ValidationError::AtlasImageNotFound => true,
            ValidationError::PreviousFileImageSizeMismatch => true,
            _ => false,
        }
    }
}

/// The regions of some graphic sources, in order: what a packer places.
pub open spec fn source_regions(sources: Seq<GraphicSource>) -> Seq<Rectangle> {
    sources.map_values(|g: GraphicSource| g.region)
}

/// `after` holds the same sources as `before`, in the same order, with
/// only their atlas regions possibly changed.
pub open spec fn same_sources_placed(before: Seq<GraphicSource>, after: Seq<GraphicSource>) -> bool {
    &&& after.len() == before.len()
    &&& forall|i: int| 0 <= i < before.len() ==> (#[trigger] after[i]).region == before[i].region
        && after[i].buffer == before[i].buffer
}

/// The sources' atlas regions are those of `placement`, in order.
pub open spec fn placed_as(sources: Seq<GraphicSource>, placement: Seq<Option<Rectangle>>) -> bool {
    forall|i: int| 0 <= i < sources.len() ==> (#[trigger] sources[i]).atlas_region == placement[i]
}

/// A way of placing graphic sources on an atlas.
pub trait Packer {
    /// What a successful packing reports back.
    type Usage;

    fn name(&self) -> &str;

    /// Whether this packer fits regions of these sizes on an atlas of at
    /// least `atlas_min_size`, and why not when it does not.
    spec fn spec_outcome(&self, atlas_min_size: Size, regions: Seq<Rectangle>) -> Result<(), PackerError>;

    /// Where this packer puts regions of these sizes on an atlas of at least
    /// `atlas_min_size` when it fits them: one atlas region, or none, per
    /// region, in order.
    spec fn spec_placement(&self, atlas_min_size: Size, regions: Seq<Rectangle>) -> Seq<Option<Rectangle>>;

    /// Places the graphic sources on an atlas of at least `atlas_min_size`,
    /// setting their atlas regions and nothing else of them. It succeeds or
    /// fails as `spec_outcome` says for the sources' regions, and on success
    /// the atlas regions are those of `spec_placement`.
    fn execute(&self, atlas_min_size: Size, graphic_sources: &mut Vec<GraphicSource>) -> (r: Result<
        Self::Usage,
        PackerError,
    >)
        ensures
            same_sources_placed(old(graphic_sources)@, final(graphic_sources)@),
            r is Ok <==> self.spec_outcome(atlas_min_size, source_regions(old(graphic_sources)@)) is Ok,
            r matches Err(e) ==> self.spec_outcome(atlas_min_size, source_regions(old(graphic_sources)@))
                == Err::<(), PackerError>(e),
            r is Ok ==> placed_as(
                final(graphic_sources)@,
                self.spec_placement(atlas_min_size, source_regions(old(graphic_sources)@)),
            ),
    ;
}

/// What is at the atlas file's path before packing.
pub enum AtlasCheck {
    Missing,
    NotAFile,
    Image { width: u32, height: u32 },
    LoadFailed(image::ImageError),
    IoFailed(std::io::Error),
}

/// What to do about an existing atlas file while setting up.
#[derive(Clone, Copy, PartialEq, Eq, Structural, Debug)]
pub enum AtlasPlan {
    /// A new atlas image is needed.
    Request,
    /// The existing atlas image has the right size.
    Keep,
    /// Something other than a file sits at the atlas path.
    PathInUse,
    /// The file at the atlas path is not a readable image.
    Unreadable,
}

pub struct PackerProcessor<P: Packer> {
    verbose: bool,
    packer: P,
}

impl<P: Packer> Verbosity for PackerProcessor<P> {
    closed spec fn spec_is_verbose(&self) -> bool {
        self.verbose
    }

    fn verbose(&mut self, verbose: bool) {
        self.verbose = verbose;
    }

    fn is_verbose(&self) -> bool {
        self.verbose
    }
}

/// The atlas side used when no limit for retries is configured.
pub const DEFAULT_MAX_ATLAS_SIZE: u32 = 4096;

/// The path of the atlas image: `<name>.png` in the cache's atlas directory.
pub open spec fn spec_output_file_path(config: Config) -> Seq<char> {
    spec_path_join(
        config.cache.spec_atlas_path(),
        config.output.spec_name_or_default() + seq!['.', 'p', 'n', 'g'],
    )
}

/// The largest atlas side that retries may reach.
pub open spec fn spec_until_atlas_size(retry: RetryConfig) -> u32 {
    if retry.until_atlas_size == 0 {
        DEFAULT_MAX_ATLAS_SIZE
    } else {
        retry.until_atlas_size
    }
}

/// A packing that failed with `err` after `retries` retries, at the given
/// atlas size, may be retried: only a lack of space is retried, when retries
/// are enabled, their limit (zero for none) is not reached, and the atlas is
/// not yet at the largest size on both sides.
pub open spec fn spec_can_retry(err: PackerError, retry: RetryConfig, retries: u32, width: u32, height: u32, until: u32) -> bool {
    match err {
        PackerError::EmptyTargetSize => false,
        PackerError::OutOfSpace => retry.enable && (retry.max_retries == 0 || retries < retry.max_retries)
            && !(width == until && height == until),
    }
}

/// One side of the atlas after a retry: doubled, but no larger than
/// `until`; a side already at or past `until` stays.
pub open spec fn spec_grow(side: u32, until: u32) -> u32 {
    if side < until {
        if 2 * side <= until {
            (2 * side) as u32
        } else {
            until
        }
    } else {
        side
    }
}

/// One side of the atlas after `k` retries.
pub open spec fn spec_grown(side: u32, until: u32, k: nat) -> u32
    decreases k,
{
    if k == 0 {
        side
    } else {
        spec_grow(spec_grown(side, until, (k - 1) as nat), until)
    }
}

/// The atlas size of packing attempt `j`, counted from zero, starting at
/// `width` by `height`: each side grown once per earlier attempt.
pub open spec fn attempt_size(width: u32, height: u32, until: u32, j: nat) -> Size {
    Size { width: spec_grown(width, until, j), height: spec_grown(height, until, j) }
}

/// Packing attempt `j` failed, and the failure was retried: the packer gave
/// an error at that attempt's size that the retry settings allow retrying
/// after `j` retries.
pub open spec fn retried_attempt<P: Packer>(
    packer: P,
    width: u32,
    height: u32,
    retry: RetryConfig,
    regions: Seq<Rectangle>,
    j: nat,
) -> bool {
    let until = spec_until_atlas_size(retry);
    let size = attempt_size(width, height, until, j);
    match packer.spec_outcome(size, regions) {
        Ok(_) => false,
        Err(e) => j < u32::MAX && spec_can_retry(e, retry, j as u32, size.width, size.height, until),
    }
}

fn grow(side: u32, until: u32) -> (r: u32)
    ensures
        r == spec_grow(side, until),
{
    if side < until {
        if side <= until / 2 {
            side * 2
        } else {
            until
        }
    } else {
        side
    }
}

fn can_retry(err: PackerError, retry: &RetryConfig, retries: u32, width: u32, height: u32, until: u32) -> (r: bool)
    ensures
        r == spec_can_retry(err, *retry, retries, width, height, until),
{
    match err {
        PackerError::EmptyTargetSize => false,
        PackerError::OutOfSpace => retry.enable && (retry.max_retries == 0 || retries < retry.max_retries)
            && !(width == until && height == until),
    }
}

impl<P: Packer> PackerProcessor<P> {
    pub closed spec fn spec_packer(&self) -> P {
        self.packer
    }

    pub fn new(packer: P) -> (r: PackerProcessor<P>)
        ensures
            !r.spec_is_verbose(),
            r.spec_packer() == packer,
    {
        PackerProcessor { verbose: false, packer }
    }

    pub fn packer(&self) -> (r: &P)
        ensures
            *r == self.spec_packer(),
    {
        &self.packer
    }

    pub fn output_file_path(&self, config: &Config) -> (r: String)
        ensures
            r@ == spec_output_file_path(*config),
    {
        let mut name = config.output.name_or_default();
        let ext = ".png";
        proof {
            reveal_strlit(".png");
            assert(ext@ =~= seq!['.', 'p', 'n', 'g']);
        }
        name.append(ext);
        let atlas = config.cache.atlas_path();
        path_join(atlas.as_str(), name.as_str())
    }

    /// Settles the atlas size from the settings: a configured size is used
    /// as it is, or rounded up to a power of two when optimizing; with no
    /// configured size, the current one is written into the settings, which
    /// then count as changed.
    pub fn configure_atlas_size<S>(&self, config: &mut Config, output: &mut Output<S>) -> (r: ConfigStatus)
        requires
            old(config).packer.optimize ==> old(config).packer.atlas_size <= 0x8000_0000,
        ensures
            old(config).packer.atlas_size != 0 ==> r is NotModified && *final(config) == *old(config),
            old(config).packer.atlas_size != 0 && !(old(config).packer.optimize && !is_pow2(
                old(config).packer.atlas_size as int,
            )) ==> final(output).spec_atlas_width() == old(config).packer.atlas_size
                && final(output).spec_atlas_height() == old(config).packer.atlas_size,
            old(config).packer.atlas_size != 0 && old(config).packer.optimize && !is_pow2(
                old(config).packer.atlas_size as int,
            ) ==> final(output).spec_atlas_width() == final(output).spec_atlas_height()
                && is_pow2(final(output).spec_atlas_width() as int)
                && final(output).spec_atlas_width() >= old(config).packer.atlas_size
                && final(output).spec_atlas_width() / 2 < old(config).packer.atlas_size,
            old(config).packer.atlas_size == 0 ==> r is Modified && final(config).packer.atlas_size
                == old(output).spec_atlas_width() && *final(output) == *old(output),
            final(config).cache == old(config).cache,
            final(config).image == old(config).image,
            final(config).data == old(config).data,
            final(config).output == old(config).output,
            final(config).packer.optimize == old(config).packer.optimize,
            final(config).packer.retry == old(config).packer.retry,
            final(output).spec_files() == old(output).spec_files(),
    {
        let size = config.packer.atlas_size;
        if size != 0 {
            if config.packer.optimize && !is_power_2(size) {
                output.set_atlas_size(ceil_power_2(size));
            } else {
                output.set_atlas_dimensions(size, size);
            }
            ConfigStatus::NotModified
        } else {
            config.packer.atlas_size = output.atlas_width();
            ConfigStatus::Modified
        }
    }

    /// Whether setting up asks for a new atlas image: always when forced;
    /// otherwise when there is no atlas file or its size differs from the
    /// current atlas size.
    pub fn plan_atlas(force: bool, existing: &AtlasCheck, width: u32, height: u32) -> (r: AtlasPlan)
        ensures
            force ==> r is Request,
            !force ==> r == match existing {
                AtlasCheck::Missing => AtlasPlan::Request,
                AtlasCheck::NotAFile => AtlasPlan::PathInUse,
                AtlasCheck::Image { width: w, height: h } => if w == width && h == height {
                    AtlasPlan::Keep
                } else {
                    AtlasPlan::Request
                },
                AtlasCheck::LoadFailed(_) => AtlasPlan::Unreadable,
                AtlasCheck::IoFailed(_) => AtlasPlan::Unreadable,
            },
    {
        if force {
            return AtlasPlan::Request;
        }
        match existing {
            AtlasCheck::Missing => AtlasPlan::Request,
            AtlasCheck::NotAFile => AtlasPlan::PathInUse,
            AtlasCheck::Image { width: w, height: h } => if *w == width && *h == height {
                AtlasPlan::Keep
            } else {
                AtlasPlan::Request
            },
            AtlasCheck::LoadFailed(_) => AtlasPlan::Unreadable,
            AtlasCheck::IoFailed(_) => AtlasPlan::Unreadable,
        }
    }

    /// Packs the sources of every gathered graphic onto the atlas: the packer
    /// is tried at the current atlas size with all the sources, and after
    /// each failure that the retry settings allow retrying, again on an atlas
    /// grown once. Returns the last attempt's result and the number of
    /// retries made; the atlas size ends at that attempt's size. Every graphic
    /// keeps its kind, frames, durations and tracks, and every source its
    /// region and image: only atlas regions are set, on success to where the
    /// packer placed them at the last attempt's size.
    pub fn pack<S>(&self, state: &mut State<S>) -> (r: (Result<P::Usage, PackerError>, u32))
        ensures
            forall|j: nat| j < r.1 ==> #[trigger] retried_attempt(
                self.spec_packer(),
                old(state).output.spec_atlas_width(),
                old(state).output.spec_atlas_height(),
                old(state).config.packer.retry,
                source_regions(all_sources(old(state).graphic_output.graphics@)),
                j,
            ),
            ({
                let until = spec_until_atlas_size(old(state).config.packer.retry);
                let size = attempt_size(
                    old(state).output.spec_atlas_width(),
                    old(state).output.spec_atlas_height(),
                    until,
                    r.1 as nat,
                );
                let outcome = self.spec_packer().spec_outcome(
                    size,
                    source_regions(all_sources(old(state).graphic_output.graphics@)),
                );
                &&& final(state).output.spec_atlas_width() == size.width
                &&& final(state).output.spec_atlas_height() == size.height
                &&& (r.0 is Ok <==> outcome is Ok)
                &&& (r.0 is Ok ==> placed_as(
                    all_sources(final(state).graphic_output.graphics@),
                    self.spec_packer().spec_placement(
                        size,
                        source_regions(all_sources(old(state).graphic_output.graphics@)),
                    ),
                ))
                &&& (r.0 matches Err(e) ==> outcome == Err::<(), PackerError>(e) && (r.1 == u32::MAX
                    || !spec_can_retry(e, old(state).config.packer.retry, r.1, size.width, size.height, until)))
            }),
            !old(state).config.packer.retry.enable ==> r.1 == 0,
            old(state).config.packer.retry.max_retries > 0 ==> r.1 <= old(state).config.packer.retry.max_retries,
            final(state).graphic_output.graphics@.map_values(|g: Graphic| graphic_shape(g))
                == old(state).graphic_output.graphics@.map_values(|g: Graphic| graphic_shape(g)),
            same_sources_placed(
                all_sources(old(state).graphic_output.graphics@),
                all_sources(final(state).graphic_output.graphics@),
            ),
            final(state).graphic_output.requested == old(state).graphic_output.requested,
            final(state).output.spec_files() == old(state).output.spec_files(),
            final(state).config == old(state).config,
            final(state).cache == old(state).cache,
    {
        let mut graphics: Vec<Graphic> = Vec::new();
        std::mem::swap(&mut graphics, &mut state.graphic_output.graphics);
        let ghost old_graphics = graphics@;
        let (shapes, mut sources) = take_sources(graphics);
        proof {
            lemma_all_sources_len(old_graphics);
        }
        let ghost orig = sources@;
        let ghost regions = source_regions(orig);
        let ghost retry = state.config.packer.retry;
        let until = if state.config.packer.retry.until_atlas_size == 0 {
            DEFAULT_MAX_ATLAS_SIZE
        } else {
            state.config.packer.retry.until_atlas_size
        };
        let ghost w0 = state.output.spec_atlas_width();
        let ghost h0 = state.output.spec_atlas_height();
        let mut retries: u32 = 0;
        let mut outcome: Option<Result<P::Usage, PackerError>> = None;
        loop
            invariant_except_break
                regions == source_regions(orig),
                same_sources_placed(orig, sources@),
                retry == state.config.packer.retry,
                until == spec_until_atlas_size(retry),
                state.output.spec_atlas_width() == spec_grown(w0, until, retries as nat),
                state.output.spec_atlas_height() == spec_grown(h0, until, retries as nat),
                state.output.spec_files() == old(state).output.spec_files(),
                state.config == old(state).config,
                state.cache == old(state).cache,
                state.graphic_output.requested == old(state).graphic_output.requested,
                forall|j: nat| j < retries ==> #[trigger] retried_attempt(self.spec_packer(), w0, h0, retry, regions, j),
            ensures
                regions == source_regions(orig),
                same_sources_placed(orig, sources@),
                state.output.spec_atlas_width() == spec_grown(w0, until, retries as nat),
                state.output.spec_atlas_height() == spec_grown(h0, until, retries as nat),
                state.output.spec_files() == old(state).output.spec_files(),
                state.config == old(state).config,
                state.cache == old(state).cache,
                state.graphic_output.requested == old(state).graphic_output.requested,
                forall|j: nat| j < retries ==> #[trigger] retried_attempt(self.spec_packer(), w0, h0, retry, regions, j),
                outcome is Some,
                ({
                    let o = self.spec_packer().spec_outcome(attempt_size(w0, h0, until, retries as nat), regions);
                    &&& (outcome matches Some(Ok(_)) <==> o is Ok)
                    &&& (outcome matches Some(Ok(_)) ==> placed_as(
                        sources@,
                        self.spec_packer().spec_placement(attempt_size(w0, h0, until, retries as nat), regions),
                    ))
                    &&& (outcome matches Some(Err(e)) ==> o == Err::<(), PackerError>(e) && (retries == u32::MAX
                        || !spec_can_retry(e, retry, retries, state.output.spec_atlas_width(),
                        state.output.spec_atlas_height(), until)))
                }),
            decreases u32::MAX - retries,
        {
            let width = state.output.atlas_width();
            let height = state.output.atlas_height();
            proof {
                assert forall|i: int| 0 <= i < sources@.len() implies source_regions(sources@)[i] == regions[i] by {
                    assert(sources@[i].region == orig[i].region);
                }
                assert(source_regions(sources@) =~= regions);
            }
            match self.packer.execute(Size::new(width, height), &mut sources) {
                Ok(usage) => {
                    outcome = Some(Ok(usage));
                    break ;
                },
                Err(err) => {
                    if !can_retry(err, &state.config.packer.retry, retries, width, height, until)
                        || retries == u32::MAX {
                        outcome = Some(Err(err));
                        break ;
                    }
                    proof {
                        assert(retried_attempt(self.spec_packer(), w0, h0, retry, regions, retries as nat));
                    }
                    let new_width = grow(width, until);
                    let new_height = grow(height, until);
                    state.output.set_atlas_dimensions(new_width, new_height);
                    retries = retries + 1;
                },
            }
        }
        let result = outcome.unwrap();
        proof {
            if retries > 0 {
                assert(retried_attempt(self.spec_packer(), w0, h0, retry, regions, (retries - 1) as nat));
            }
        }
        let restored = put_sources(shapes, sources);
        state.graphic_output.graphics = restored;
        proof {
            lemma_all_sources_len(state.graphic_output.graphics@);
        }
        (result, retries)
    }

    /// The atlas image for the current atlas size and the gathered graphics:
    /// their sources composed in order onto a transparent image. The
    /// graphics are left as they were.
    pub fn generate_image<S>(&self, state: &mut State<S>) -> (r: Result<PixelBuffer, image::ImageError>)
        requires
            old(state).output.spec_atlas_width() * old(state).output.spec_atlas_height() * 4 <= usize::MAX,
            forall|i: int| 0 <= i < all_sources(old(state).graphic_output.graphics@).len()
                ==> source_ready(#[trigger] all_sources(old(state).graphic_output.graphics@)[i]),
        ensures
            r is Ok <==> all_fit(
                all_sources(old(state).graphic_output.graphics@),
                all_sources(old(state).graphic_output.graphics@).len(),
                old(state).output.spec_atlas_width(),
                old(state).output.spec_atlas_height(),
            ),
            r matches Ok(atlas) ==> atlas.width == old(state).output.spec_atlas_width() && atlas.height
                == old(state).output.spec_atlas_height() && atlas.wf() && atlas.pixels@ == spec_composed(
                Seq::new(
                    (old(state).output.spec_atlas_width() * old(state).output.spec_atlas_height() * 4) as nat,
                    |i: int| 0u8,
                ),
                old(state).output.spec_atlas_width(),
                all_sources(old(state).graphic_output.graphics@),
                all_sources(old(state).graphic_output.graphics@).len(),
            ),
            final(state).graphic_output.graphics@.map_values(|g: Graphic| graphic_shape(g))
                == old(state).graphic_output.graphics@.map_values(|g: Graphic| graphic_shape(g)),
            all_sources(final(state).graphic_output.graphics@) == all_sources(
                old(state).graphic_output.graphics@,
            ),
            final(state).graphic_output.requested == old(state).graphic_output.requested,
            final(state).output == old(state).output,
            final(state).config == old(state).config,
            final(state).cache == old(state).cache,
    {
        let mut graphics: Vec<Graphic> = Vec::new();
        std::mem::swap(&mut graphics, &mut state.graphic_output.graphics);
        let ghost old_graphics = graphics@;
        let (shapes, sources) = take_sources(graphics);
        proof {
            lemma_all_sources_len(old_graphics);
        }
        let result = compose_atlas(state.output.atlas_width(), state.output.atlas_height(), &sources);
        state.graphic_output.graphics = put_sources(shapes, sources);
        result
    }

    /// Checks whether the atlas from an earlier run can be kept, once the
    /// cache is imported: the cache must be up to date and an atlas image of
    /// the current size must be there; it is then registered as output, with
    /// `stats`.
    pub fn validate_output<S>(&self, state: &mut State<S>, existing: AtlasCheck, stats: S) -> (r: Result<(), ValidationError>)
        requires
            old(state).cache is Some,
        ensures
            final(state).config == old(state).config,
            final(state).cache == old(state).cache,
            final(state).graphic_output == old(state).graphic_output,
            final(state).output.spec_atlas_width() == old(state).output.spec_atlas_width(),
            final(state).output.spec_atlas_height() == old(state).output.spec_atlas_height(),
            if old(state).cache->0.spec_is_outdated() {
                r matches Err(ValidationError::CacheNotUpdated)
            } else {
                match existing {
                    AtlasCheck::LoadFailed(e) => r == Err::<(), ValidationError>(
                        ValidationError::AtlasImageLoadFailed(e),
                    ),
                    AtlasCheck::IoFailed(e) => r == Err::<(), ValidationError>(
                        ValidationError::AtlasImageIoError(e),
                    ),
                    AtlasCheck::Missing => r matches Err(ValidationError::AtlasImageNotFound),
                    AtlasCheck::NotAFile => r matches Err(ValidationError::AtlasImageNotFound),
                    AtlasCheck::Image { width, height } => if width
                        == old(state).output.spec_atlas_width() && height
                        == old(state).output.spec_atlas_height() {
                        r is Ok
                    } else {
                        r matches Err(ValidationError::PreviousFileImageSizeMismatch)
                    },
                }
            },
            r is Ok ==> final(state).output.spec_files().len() == old(state).output.spec_files().len() + 1
                && final(state).output.spec_files().drop_last() == old(state).output.spec_files()
                && final(state).output.spec_files().last().spec_path() == spec_output_file_path(
                old(state).config,
            ) && final(state).output.spec_files().last().spec_stats() == Some(stats),
            r is Err ==> final(state).output.spec_files() == old(state).output.spec_files(),
    {
        let updated = match &state.cache {
            Some(c) => c.is_updated(),
            None => false,
        };
        if !updated {
            return Err(ValidationError::CacheNotUpdated);
        }
        let observed = match existing {
            AtlasCheck::LoadFailed(e) => return Err(ValidationError::AtlasImageLoadFailed(e)),
            AtlasCheck::IoFailed(e) => return Err(ValidationError::AtlasImageIoError(e)),
            AtlasCheck::Missing => FileObservation::NotFound,
            AtlasCheck::NotAFile => FileObservation::Found { is_file: false },
            AtlasCheck::Image { width, height } => {
                if width != state.output.atlas_width() || height != state.output.atlas_height() {
                    return Err(ValidationError::PreviousFileImageSizeMismatch);
                }
                FileObservation::Found { is_file: true }
            },
        };
        let path = self.output_file_path(&state.config);
        let output_file = OutputFile::with_stats(path, stats);
        match state.output.register_file(output_file, observed) {
            Ok(()) => Ok(()),
            Err(_) => Err(ValidationError::AtlasImageNotFound),
        }
    }
}

} // verus!
