//! The decisions of the cache exporter: the data recorded in the cache for
//! each generated graphic.

use vstd::prelude::*;
use crate::math::Rectangle;
use crate::cache::{Cache, CacheEntryView, ModTime, outdated_kept};
use crate::data::{FrameData, GraphicData, GraphicDataView, copy_tracks};
use crate::graphics::{Frame, Graphic, TrackList};
use crate::common::Verbosity;
use crate::paths::{path_extension, relative_location, spec_extension, spec_strip_prefix, spec_without_extension};

verus! {

pub struct CacheExporterProcessor {
    verbose: bool,
}

impl Verbosity for CacheExporterProcessor {
    closed spec fn spec_is_verbose(&self) -> bool {
        self.verbose
    }

    fn verbose(&mut self, verbose: bool) {
        self.verbose = verbose;
    }

    fn is_verbose(&self) -> bool {
        self.verbose
    }
}

/// What the cache records for one generated graphic.
pub struct GraphicRecord {
    pub location: String,
    pub extension: String,
    pub data: GraphicData,
}

/// Why a graphic cannot be recorded.
#[derive(Clone, Copy, PartialEq, Eq, Structural, Debug)]
pub enum RecordError {
    /// Its source file does not lie under the input directory.
    SourceOutsideInput,
    /// A single image was never placed on the atlas.
    MissingAtlasRegion,
}

/// The frame data recorded for an animation frame: blank stays blank; a frame
/// with contents records its atlas region (the empty rectangle when it was
/// not placed), its duration and its source region.
pub open spec fn exported_frame(frame: Frame) -> FrameData {
    match frame {
        Frame::Empty => FrameData::Empty,
        Frame::Contents { graphic_source, duration } => FrameData::Contents {
            atlas_region: match graphic_source.atlas_region {
                Some(a) => a,
                None => Rectangle { x: 0, y: 0, width: 0, height: 0 },
            },
            duration: Some(duration),
            source_region: graphic_source.region,
        },
    }
}

/// The extension recorded for a source path: its extension, or nothing.
pub open spec fn recorded_extension(source_path: Seq<char>) -> Seq<char> {
    match spec_extension(source_path) {
        Some(e) => e,
        None => Seq::empty(),
    }
}

fn extension_or_empty(source_path: &str) -> (r: String)
    ensures
        r@ == recorded_extension(source_path@),
{
    match path_extension(source_path) {
        Some(e) => e,
        None => String::new(),
    }
}

impl CacheExporterProcessor {
    pub fn new() -> (r: CacheExporterProcessor)
        ensures
            !r.spec_is_verbose(),
    {
        CacheExporterProcessor { verbose: false }
    }

    /// What the cache records for `graphic`, whose source lies under
    /// `input_path`: nothing for an empty graphic; for an image, its one
    /// placed frame; for an animation, its tracks and every frame.
    pub fn graphic_record(graphic: &Graphic, input_path: &str) -> (r: Result<Option<GraphicRecord>, RecordError>)
        ensures
            graphic is Empty ==> r == Ok::<Option<GraphicRecord>, RecordError>(None),
            match graphic {
                Graphic::Empty => true,
                Graphic::Image(image) => {
                    let sp = image.source_path@;
                    if spec_strip_prefix(sp, input_path@) is None {
                        r == Err::<Option<GraphicRecord>, RecordError>(RecordError::SourceOutsideInput)
                    } else if image.graphic_source.atlas_region is None {
                        r == Err::<Option<GraphicRecord>, RecordError>(RecordError::MissingAtlasRegion)
                    } else {
                        r matches Ok(Some(rec)) && rec.location@ == spec_without_extension(
                            spec_strip_prefix(sp, input_path@)->0,
                        ) && rec.extension@ == recorded_extension(sp) && rec.data@.tracks.len() == 0
                            && rec.data@.frames == seq![
                            FrameData::Contents {
                                atlas_region: image.graphic_source.atlas_region->0,
                                duration: None,
                                source_region: image.graphic_source.region,
                            },
                        ]
                    }
                },
                Graphic::Animation(animation) => {
                    let sp = animation.source_path@;
                    if spec_strip_prefix(sp, input_path@) is None {
                        r == Err::<Option<GraphicRecord>, RecordError>(RecordError::SourceOutsideInput)
                    } else {
                        r matches Ok(Some(rec)) && rec.location@ == spec_without_extension(
                            spec_strip_prefix(sp, input_path@)->0,
                        ) && rec.extension@ == recorded_extension(sp) && rec.data@.tracks
                            == animation.tracks@ && rec.data@.frames == animation.frames@.map_values(
                            |f: Frame| exported_frame(f),
                        )
                    }
                },
            },
    {
        match graphic {
            Graphic::Empty => Ok(None),
            Graphic::Image(image) => {
                let location = match relative_location(image.source_path.as_str(), input_path) {
                    Some(l) => l,
                    None => return Err(RecordError::SourceOutsideInput),
                };
                let atlas_region = match image.graphic_source.atlas_region {
                    Some(a) => a,
                    None => return Err(RecordError::MissingAtlasRegion),
                };
                let mut data = GraphicData::new();
                data.frames.push(
                    FrameData::Contents {
                        atlas_region,
                        duration: None,
                        source_region: image.graphic_source.region,
                    },
                );
                proof {
                    assert(data@.frames =~= seq![
                        FrameData::Contents {
                            atlas_region,
                            duration: None,
                            source_region: image.graphic_source.region,
                        },
                    ]);
                }
                let extension = extension_or_empty(image.source_path.as_str());
                Ok(Some(GraphicRecord { location, extension, data }))
            },
            Graphic::Animation(animation) => {
                let location = match relative_location(animation.source_path.as_str(), input_path) {
                    Some(l) => l,
                    None => return Err(RecordError::SourceOutsideInput),
                };
                let entries = copy_tracks(&animation.tracks.entries);
                let mut frames: Vec<FrameData> = Vec::new();
                let n = animation.frames.len();
                let mut i: usize = 0;
                while i < n
                    invariant
                        n == animation.frames@.len(),
                        i <= n,
                        frames@ == animation.frames@.subrange(0, i as int).map_values(
                            |f: Frame| exported_frame(f),
                        ),
                    decreases n - i,
                {
                    let fd = match &animation.frames[i] {
                        Frame::Empty => FrameData::Empty,
                        Frame::Contents { graphic_source, duration } => FrameData::Contents {
                            atlas_region: match graphic_source.atlas_region {
                                Some(a) => a,
                                None => Rectangle::default(),
                            },
                            duration: Some(*duration),
                            source_region: graphic_source.region,
                        },
                    };
                    frames.push(fd);
                    proof {
                        assert(animation.frames@.subrange(0, i + 1).map_values(|f: Frame| exported_frame(f))
                            =~= animation.frames@.subrange(0, i as int).map_values(
                            |f: Frame| exported_frame(f),
                        ).push(exported_frame(animation.frames@[i as int])));
                    }
                    i = i + 1;
                }
                proof {
                    assert(animation.frames@.subrange(0, n as int) =~= animation.frames@);
                }
                let data = GraphicData { frames, tracks: TrackList { entries } };
                let extension = extension_or_empty(animation.source_path.as_str());
                Ok(Some(GraphicRecord { location, extension, data }))
            },
        }
    }
}

/// The entries by location after recording some graphic records, in
/// order: `found[i]` is the modification time of the `i`-th record's source
/// when the record's cache directory is there; a record whose directory is
/// not there (`None`) is left out.
pub open spec fn spec_register_records(
    files: Map<Seq<char>, CacheEntryView>,
    records: Seq<GraphicRecord>,
    found: Seq<Option<ModTime>>,
) -> Map<Seq<char>, CacheEntryView>
    decreases records.len(),
{
    if records.len() == 0 || found.len() == 0 {
        files
    } else {
        let prev = spec_register_records(files, records.drop_last(), found.drop_last());
        match found.last() {
            Some(modtime) => prev.insert(
                records.last().location@,
                CacheEntryView {
                    modtime,
                    extension: records.last().extension@,
                    data: records.last().data@,
                    location: records.last().location@,
                    invalid: false,
                },
            ),
            None => prev,
        }
    }
}

impl CacheExporterProcessor {
    /// Records in the cache the graphic records whose cache directory is
    /// there, in order, each with its source's modification time.
    pub fn register_records(cache: &mut Cache, records: Vec<GraphicRecord>, found: &Vec<Option<ModTime>>)
        requires
            records@.len() == found@.len(),
        ensures
            final(cache).spec_files() == spec_register_records(old(cache).spec_files(), records@, found@),
            outdated_kept(*old(cache), *final(cache)),
            final(cache).spec_meta() == old(cache).spec_meta(),
            final(cache).spec_is_outdated() == old(cache).spec_is_outdated(),
            final(cache).spec_images_path() == old(cache).spec_images_path(),
            final(cache).spec_atlas_output_path() == old(cache).spec_atlas_output_path(),
    {
        let ghost all = records@;
        let ghost files0 = cache.spec_files();
        let n = records.len();
        let mut records = records;
        let mut i: usize = 0;
        while i < n
            invariant
                n == all.len(),
                n == found@.len(),
                i <= n,
                records@ == all.subrange(i as int, n as int),
                cache.spec_files() == spec_register_records(
                    files0,
                    all.subrange(0, i as int),
                    found@.subrange(0, i as int),
                ),
                cache.spec_meta() == old(cache).spec_meta(),
                cache.spec_is_outdated() == old(cache).spec_is_outdated(),
                cache.spec_images_path() == old(cache).spec_images_path(),
                cache.spec_atlas_output_path() == old(cache).spec_atlas_output_path(),
            decreases n - i,
        {
            let record = records.remove(0);
            proof {
                assert(record == all[i as int]);
                assert(records@ =~= all.subrange(i + 1, n as int));
                assert(all.subrange(0, i + 1).drop_last() =~= all.subrange(0, i as int));
                assert(found@.subrange(0, i + 1).drop_last() =~= found@.subrange(0, i as int));
                assert(all.subrange(0, i + 1).last() == record);
                assert(found@.subrange(0, i + 1).last() == found@[i as int]);
            }
            match found[i] {
                Some(modtime) => {
                    let GraphicRecord { location, extension, data } = record;
                    cache.register(location, extension, modtime, data);
                },
                None => {},
            }
            i = i + 1;
        }
        proof {
            assert(all.subrange(0, n as int) =~= all);
            assert(found@.subrange(0, n as int) =~= found@);
        }
    }
}

} // verus!
