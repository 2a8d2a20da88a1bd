//! Aseprite sources: recognizing their files, and turning Aseprite's export
//! (frame images plus a data file) into a graphic.

use vstd::prelude::*;
use crate::aseprite_data::{Data, FrameData as AsepriteFrameData, FrameTagData};
use crate::common::{ConfigStatus, Verbosity};
use crate::data::{FrameData, spec_frame_from_aseprite};
use crate::graphics::{Animation, Frame, Graphic, Image, Track, TrackView};
use crate::image::{GraphicSourceData, sorted_by_frame_index};
use crate::math::Size;

verus! {

/// How Aseprite files are read.
#[derive(Clone, Copy, PartialEq, Eq, Structural, Debug)]
pub enum AsepriteProcessor {
    /// By running the Aseprite program.
    Command,
    /// By reading the file directly.
    RawFile,
}

/// The handler of `.ase` and `.aseprite` sources.
pub struct AsepriteFormatHandler {
    verbose: bool,
    processor: AsepriteProcessor,
}

impl Verbosity for AsepriteFormatHandler {
    closed spec fn spec_is_verbose(&self) -> bool {
        self.verbose
    }

    fn verbose(&mut self, verbose: bool) {
        self.verbose = verbose;
    }

    fn is_verbose(&self) -> bool {
        self.verbose
    }
}

/// The two bytes that follow the file size at the start of every Aseprite
/// file.
pub open spec fn spec_magic() -> (u8, u8) {
    (0xE0u8, 0xA5u8)
}

impl AsepriteFormatHandler {
    pub closed spec fn spec_processor(&self) -> AsepriteProcessor {
        self.processor
    }

    pub fn new(processor: AsepriteProcessor) -> (r: AsepriteFormatHandler)
        ensures
            !r.spec_is_verbose(),
            r.spec_processor() == processor,
    {
        AsepriteFormatHandler { verbose: false, processor }
    }

    /// How this handler reads its files.
    pub fn processor(&self) -> (r: AsepriteProcessor)
        ensures
            r == self.spec_processor(),
    {
        self.processor
    }

    /// The name the handler is shown under.
    pub fn name(&self) -> (r: &'static str)
        ensures
            r@ == seq!['A', 's', 'e', 'p', 'r', 'i', 't', 'e'],
    {
        let r = "Aseprite";
        proof {
            reveal_strlit("Aseprite");
        }
        r
    }

    /// The extensions of the source files the handler takes.
    pub fn extensions(&self) -> (r: [&'static str; 2])
        ensures
            r@[0]@ == seq!['a', 's', 'e'],
            r@[1]@ == seq!['a', 's', 'e', 'p', 'r', 'i', 't', 'e'],
    {
        let short = "ase";
        let long = "aseprite";
        proof {
            reveal_strlit("ase");
            reveal_strlit("aseprite");
        }
        [short, long]
    }

    /// The bytes read at offset 4 of a file mark it as an Aseprite file.
    pub fn has_magic_number(bytes: [u8; 2]) -> (r: bool)
        ensures
            r == (bytes@[0] == spec_magic().0 && bytes@[1] == spec_magic().1),
    {
        bytes[0] == 0xE0u8 && bytes[1] == 0xA5u8
    }
}

/// Reads Aseprite files by running the Aseprite program.
pub struct CommandProcessor {}

/// What to do about the configured Aseprite executable.
pub enum BinResolution {
    /// The configured path is the executable.
    Keep,
    /// The executable was found elsewhere from the configured path.
    Use(String),
    /// It has to be asked for.
    Locate,
}

/// The frame indices of a tag over `from..=to`, negative indices left out.
pub open spec fn spec_tag_indices(from: i32, to: i32) -> Seq<u32> {
    let lo: int = if from < 0 { 0 } else { from as int };
    if to < lo {
        Seq::empty()
    } else {
        Seq::new((to - lo + 1) as nat, |k: int| (lo + k) as u32)
    }
}

/// The frames of an animation read from Aseprite's export: the `i`-th frame
/// image shown for the `i`-th frame entry's duration, zero when negative.
pub open spec fn exported_animation_frame(entry: AsepriteFrameData, source: GraphicSourceData, frame: Frame) -> bool {
    frame == (Frame::Contents {
        graphic_source: source.source,
        duration: if entry.duration < 0 { 0u32 } else { entry.duration as u32 },
    })
}

/// `count` exported frame images can be read with the export's data: there
/// is a frame entry for each of them, or there is one image and the sprite
/// has no tag and no slice, which makes a single image.
pub open spec fn spec_export_fits(count: nat, data: Data) -> bool {
    count <= data.frames@.len() || (count == 1 && data.meta.frame_tags@.len() == 0 && data.meta.slices@.len() == 0)
}

impl CommandProcessor {
    pub fn new() -> (r: CommandProcessor) {
        CommandProcessor {  }
    }

    /// Whether `count` exported frame images can be read with `data`.
    pub fn export_fits(count: usize, data: &Data) -> (r: bool)
        ensures
            r == spec_export_fits(count as nat, *data),
    {
        count <= data.frames.len() || (count == 1 && data.meta.frame_tags.len() == 0 && data.meta.slices.len()
            == 0)
    }

    /// What the configured executable path leads to: kept when the search
    /// found it as configured, replaced by what the search found elsewhere,
    /// or asked for when it is empty or was not found.
    pub fn resolve_bin_path(configured: &String, found: Option<String>) -> (r: BinResolution)
        ensures
            configured@.len() == 0 ==> r is Locate,
            configured@.len() > 0 ==> match found {
                None => r is Locate,
                Some(f) => if f@ == configured@ {
                    r is Keep
                } else {
                    r matches BinResolution::Use(u) && u@ == f@
                },
            },
    {
        if configured.as_str().is_empty() {
            return BinResolution::Locate;
        }
        match found {
            None => BinResolution::Locate,
            Some(f) => if f == *configured {
                BinResolution::Keep
            } else {
                BinResolution::Use(f)
            },
        }
    }

    /// Resolving the executable changes the settings unless it was kept.
    pub fn resolution_status(resolution: &BinResolution) -> (r: ConfigStatus)
        ensures
            (r is NotModified) == (resolution is Keep),
    {
        match resolution {
            BinResolution::Keep => ConfigStatus::NotModified,
            _ => ConfigStatus::Modified,
        }
    }

    /// The sprite's dimensions: the full size of the first frame entry whose
    /// size has no zero side.
    pub fn find_dimensions(frames_data: &Vec<AsepriteFrameData>) -> (r: Option<Size>)
        ensures
            r is None <==> (forall|i: int| 0 <= i < frames_data@.len() ==> (#[trigger] frames_data@[i]).source_size.w == 0
                || frames_data@[i].source_size.h == 0),
            r matches Some(s) ==> exists|i: int| 0 <= i < frames_data@.len()
                && s == (Size { width: (#[trigger] frames_data@[i]).source_size.w, height: frames_data@[i].source_size.h })
                && s.width != 0 && s.height != 0 && forall|j: int| 0 <= j < i ==> (#[trigger] frames_data@[j]).source_size.w == 0
                || frames_data@[j].source_size.h == 0,
    {
        let mut i: usize = 0;
        while i < frames_data.len()
            invariant
                i <= frames_data@.len(),
                forall|j: int| 0 <= j < i ==> (#[trigger] frames_data@[j]).source_size.w == 0
                    || frames_data@[j].source_size.h == 0,
            decreases frames_data@.len() - i,
        {
            let f = frames_data[i];
            match Size::with(f.source_size.w, f.source_size.h) {
                Some(s) => {
                    return Some(s);
                },
                None => {},
            }
            i = i + 1;
        }
        None
    }

    /// The frame data of every Aseprite frame entry, in order.
    pub fn to_frame_data(frames_data: &Vec<AsepriteFrameData>) -> (r: Vec<FrameData>)
        ensures
            r@ == frames_data@.map_values(|f: AsepriteFrameData| spec_frame_from_aseprite(f)),
    {
        let mut r: Vec<FrameData> = Vec::new();
        let mut i: usize = 0;
        while i < frames_data.len()
            invariant
                i <= frames_data@.len(),
                r@ == frames_data@.subrange(0, i as int).map_values(
                    |f: AsepriteFrameData| spec_frame_from_aseprite(f),
                ),
            decreases frames_data@.len() - i,
        {
            r.push(FrameData::from_aseprite(&frames_data[i]));
            proof {
                assert(frames_data@.subrange(0, i + 1).map_values(
                    |f: AsepriteFrameData| spec_frame_from_aseprite(f),
                ) =~= frames_data@.subrange(0, i as int).map_values(
                    |f: AsepriteFrameData| spec_frame_from_aseprite(f),
                ).push(spec_frame_from_aseprite(frames_data@[i as int])));
            }
            i = i + 1;
        }
        proof {
            assert(frames_data@.subrange(0, frames_data@.len() as int) =~= frames_data@);
        }
        r
    }

    /// The track of a frame tag: labelled with the tag's name unless that is
    /// empty, over the tag's frames in increasing order, negative indices
    /// left out.
    pub fn build_track(tag: &FrameTagData) -> (r: Track)
        ensures
            r@ == (TrackView {
                label: if tag.name@.len() == 0 { None } else { Some(tag.name@) },
                frame_indices: spec_tag_indices(tag.from, tag.to),
            }),
    {
        let label = if tag.name.as_str().is_empty() {
            None
        } else {
            Some(tag.name.clone())
        };
        let mut track = Track::new(label);
        let lo: i32 = if tag.from < 0 { 0 } else { tag.from };
        if tag.to >= lo {
            let mut index: i32 = lo;
            loop
                invariant_except_break
                    lo <= index <= tag.to,
                    track.frame_indices@ == Seq::new((index - lo) as nat, |k: int| (lo + k) as u32),
                invariant
                    lo == (if tag.from < 0 { 0 } else { tag.from }),
                    lo <= tag.to,
                    track.label == label,
                ensures
                    track.frame_indices@ == Seq::new((tag.to + 1 - lo) as nat, |k: int| (lo + k) as u32),
                decreases tag.to - index,
            {
                let ghost before = track.frame_indices@;
                track.frame_indices.push(index as u32);
                proof {
                    assert(track.frame_indices@ =~= Seq::new((index + 1 - lo) as nat, |k: int| (lo + k) as u32));
                }
                if index == tag.to {
                    break;
                }
                index = index + 1;
            }
            proof {
                assert(track.frame_indices@ =~= spec_tag_indices(tag.from, tag.to));
            }
        } else {
            proof {
                assert(track.frame_indices@ =~= spec_tag_indices(tag.from, tag.to));
            }
        }
        track
    }

    /// The graphic of an Aseprite export, from its frame images ordered by
    /// frame number: nothing when there is no image; a single image when
    /// there is one and the sprite has no tag and no slice; otherwise an
    /// animation with one frame per image and one track per tag.
    pub fn graphic_from_export(sources: Vec<GraphicSourceData>, data: &Data, source_path: String) -> (r: Graphic)
        requires
            sorted_by_frame_index(sources@),
            spec_export_fits(sources@.len(), *data),
        ensures
            sources@.len() == 0 ==> r is Empty,
            sources@.len() == 1 && data.meta.frame_tags@.len() == 0 && data.meta.slices@.len() == 0 ==> r
                == Graphic::Image(Image { graphic_source: sources@[0].source, source_path }),
            sources@.len() > 1 || (sources@.len() == 1 && (data.meta.frame_tags@.len() > 0
                || data.meta.slices@.len() > 0)) ==> (match r {
                Graphic::Animation(a) => {
                    &&& a.source_path == source_path
                    &&& a.frames@.len() == sources@.len()
                    &&& forall|i: int| 0 <= i < sources@.len() ==> exported_animation_frame(
                        #[trigger] data.frames@[i],
                        sources@[i],
                        a.frames@[i],
                    )
                    &&& a.tracks@.len() == data.meta.frame_tags@.len()
                    &&& forall|t: int| 0 <= t < data.meta.frame_tags@.len() ==> #[trigger] a.tracks@[t] == (
                    TrackView {
                        label: if data.meta.frame_tags@[t].name@.len() == 0 {
                            None
                        } else {
                            Some(data.meta.frame_tags@[t].name@)
                        },
                        frame_indices: spec_tag_indices(
                            data.meta.frame_tags@[t].from,
                            data.meta.frame_tags@[t].to,
                        ),
                    })
                },
                _ => false,
            }),
    {
        let mut sources = sources;
        if sources.len() == 0 {
            return Graphic::Empty;
        }
        if sources.len() == 1 && data.meta.frame_tags.len() == 0 && data.meta.slices.len() == 0 {
            let single = sources.remove(0);
            return Graphic::Image(Image::with_graphic_source(single.source, source_path));
        }
        let ghost all = sources@;
        let n = sources.len();
        let mut animation = Animation::new(source_path);
        let mut i: usize = 0;
        while i < n
            invariant
                n == all.len(),
                n <= data.frames@.len(),
                i <= n,
                sources@ == all.subrange(i as int, n as int),
                animation.source_path == source_path,
                animation.frames@.len() == i,
                animation.tracks.entries@.len() == 0,
                forall|j: int| 0 <= j < i ==> exported_animation_frame(
                    #[trigger] data.frames@[j],
                    all[j],
                    animation.frames@[j],
                ),
            decreases n - i,
        {
            let source_data = sources.remove(0);
            proof {
                assert(source_data == all[i as int]);
                assert(sources@ =~= all.subrange(i + 1, n as int));
            }
            let d = data.frames[i].duration;
            let duration: u32 = if d < 0 {
                0u32
            } else {
                d as u32
            };
            let ghost before = animation.frames@;
            animation.push_frame(Frame::Contents { graphic_source: source_data.source, duration });
            proof {
                assert forall|j: int| 0 <= j < i + 1 implies exported_animation_frame(
                    #[trigger] data.frames@[j],
                    all[j],
                    animation.frames@[j],
                ) by {
                    if j < i {
                        assert(animation.frames@[j] == before[j]);
                    }
                }
            }
            i = i + 1;
        }
        let tags = &data.meta.frame_tags;
        let mut t: usize = 0;
        while t < tags.len()
            invariant
                t <= tags@.len(),
                n == all.len(),
                n <= data.frames@.len(),
                tags == &data.meta.frame_tags,
                animation.source_path == source_path,
                animation.frames@.len() == n,
                forall|j: int| 0 <= j < n ==> exported_animation_frame(
                    #[trigger] data.frames@[j],
                    all[j],
                    animation.frames@[j],
                ),
                animation.tracks@.len() == t,
                forall|u: int| 0 <= u < t ==> #[trigger] animation.tracks@[u] == (TrackView {
                    label: if tags@[u].name@.len() == 0 { None } else { Some(tags@[u].name@) },
                    frame_indices: spec_tag_indices(tags@[u].from, tags@[u].to),
                }),
            decreases tags@.len() - t,
        {
            let track = CommandProcessor::build_track(&tags[t]);
            let ghost before = animation.tracks@;
            animation.push_track(track);
            proof {
                assert(animation.tracks@ =~= before.push(track@));
                assert forall|u: int| 0 <= u < t + 1 implies #[trigger] animation.tracks@[u] == (TrackView {
                    label: if tags@[u].name@.len() == 0 { None } else { Some(tags@[u].name@) },
                    frame_indices: spec_tag_indices(tags@[u].from, tags@[u].to),
                }) by {
                    if u < t {
                        assert(animation.tracks@[u] == before[u]);
                    }
                }
            }
            t = t + 1;
        }
        Graphic::Animation(animation)
    }
}

} // verus!
