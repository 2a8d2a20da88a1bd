//! The data file that Aseprite writes next to the exported frames: one entry
//! per frame and the tags that group frames.

use vstd::prelude::*;

verus! {

/// A rectangle as Aseprite writes it.
#[derive(Clone, Copy, PartialEq, Eq, Structural, Debug)]
pub struct RectData {
    pub x: u32,
    pub y: u32,
    pub w: u32,
    pub h: u32,
}

/// A size as Aseprite writes it.
#[derive(Clone, Copy, PartialEq, Eq, Structural, Debug)]
pub struct SizeData {
    pub w: u32,
    pub h: u32,
}

/// One exported frame: the trimmed area within the sprite, the sprite's full
/// size and the frame's duration in milliseconds.
#[derive(Clone, Copy, PartialEq, Eq, Structural, Debug)]
pub struct FrameData {
    pub sprite_source_size: RectData,
    pub source_size: SizeData,
    pub duration: i32,
}

/// A tag over the frames `from..=to`.
pub struct FrameTagData {
    pub name: String,
    pub from: i32,
    pub to: i32,
}

/// A slice defined in the sprite.
pub struct SliceData {
    pub name: String,
}

pub struct MetaData {
    pub frame_tags: Vec<FrameTagData>,
    pub slices: Vec<SliceData>,
}

/// The whole data file.
pub struct Data {
    pub frames: Vec<FrameData>,
    pub meta: MetaData,
}

} // verus!
