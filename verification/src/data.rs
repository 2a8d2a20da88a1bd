//! Per-graphic data kept in the cache and written next to the atlas.

use vstd::prelude::*;
use crate::math::Rectangle;
use crate::graphics::{Track, TrackList, TrackView};
use crate::aseprite_data::FrameData as AsepriteFrameData;

verus! {

/// Where one frame of a graphic sits on the atlas and in its source.
#[derive(Clone, Copy, PartialEq, Eq, Structural, Debug)]
pub enum FrameData {
    Empty,
    Contents { atlas_region: Rectangle, duration: Option<u32>, source_region: Rectangle },
}

/// The frame data that an Aseprite frame entry stands for: blank when its
/// trimmed area is empty; otherwise its trimmed area as source region, no
/// atlas region yet, and its duration when that is positive.
pub open spec fn spec_frame_from_aseprite(f: AsepriteFrameData) -> FrameData {
    if f.sprite_source_size.w == 0 || f.sprite_source_size.h == 0 {
        FrameData::Empty
    } else {
        FrameData::Contents {
            atlas_region: Rectangle { x: 0, y: 0, width: 0, height: 0 },
            duration: if f.duration > 0 { Some(f.duration as u32) } else { None },
            source_region: Rectangle {
                x: f.sprite_source_size.x,
                y: f.sprite_source_size.y,
                width: f.sprite_source_size.w,
                height: f.sprite_source_size.h,
            },
        }
    }
}

impl FrameData {
    pub fn from_aseprite(aseprite_frame_data: &AsepriteFrameData) -> (r: FrameData)
        ensures
            r == spec_frame_from_aseprite(*aseprite_frame_data),
    {
        let s = aseprite_frame_data.sprite_source_size;
        if s.w == 0 || s.h == 0 {
            return FrameData::Empty;
        }
        let duration = if aseprite_frame_data.duration > 0 {
            Some(aseprite_frame_data.duration as u32)
        } else {
            None
        };
        let source_region = match Rectangle::with(s.x, s.y, s.w, s.h) {
            Some(r) => r,
            None => Rectangle::default(),
        };
        FrameData::Contents { atlas_region: Rectangle::default(), duration, source_region }
    }
}

/// A set of frame indices: one index or an inclusive range.
#[derive(Clone, Copy, PartialEq, Eq, Structural, Debug)]
pub enum FrameIndicesData {
    Value(u32),
    Range { from: u32, to: u32 },
}

/// The frames and tracks of one graphic.
pub struct GraphicData {
    pub frames: Vec<FrameData>,
    pub tracks: TrackList,
}

pub struct GraphicDataView {
    pub frames: Seq<FrameData>,
    pub tracks: Seq<TrackView>,
}

impl View for GraphicData {
    type V = GraphicDataView;

    open spec fn view(&self) -> GraphicDataView {
        GraphicDataView { frames: self.frames@, tracks: self.tracks@ }
    }
}

pub(crate) fn copy_tracks(tracks: &Vec<Track>) -> (r: Vec<Track>)
    ensures
        r@.map_values(|t: Track| t@) == tracks@.map_values(|t: Track| t@),
{
    let mut r: Vec<Track> = Vec::new();
    let mut i: usize = 0;
    while i < tracks.len()
        invariant
            i <= tracks@.len(),
            r@.len() == i,
            forall|j: int| 0 <= j < i ==> r@[j]@ == tracks@[j]@,
        decreases tracks@.len() - i,
    {
        r.push(tracks[i].clone());
        i = i + 1;
    }
    assert(r@.map_values(|t: Track| t@) =~= tracks@.map_values(|t: Track| t@));
    r
}

fn copy_frames(frames: &Vec<FrameData>) -> (r: Vec<FrameData>)
    ensures
        r@ == frames@,
{
    let mut r: Vec<FrameData> = Vec::new();
    let mut i: usize = 0;
    while i < frames.len()
        invariant
            i <= frames@.len(),
            r@ == frames@.subrange(0, i as int),
        decreases frames@.len() - i,
    {
        r.push(frames[i]);
        i = i + 1;
    }
    r
}

impl Clone for GraphicData {
    fn clone(&self) -> (r: Self)
        ensures
            r@ == self@,
    {
        let frames = copy_frames(&self.frames);
        let entries = copy_tracks(&self.tracks.entries);
        proof {
            assert(frames@ =~= self.frames@);
        }
        GraphicData { frames, tracks: TrackList { entries } }
    }
}

impl GraphicData {
    pub fn new() -> (r: GraphicData)
        ensures
            r@.frames == Seq::<FrameData>::empty(),
            r@.tracks == Seq::<TrackView>::empty(),
    {
        let r = GraphicData { frames: Vec::new(), tracks: TrackList::new() };
        proof {
            assert(r@.tracks =~= Seq::<TrackView>::empty());
        }
        r
    }
}

} // verus!
