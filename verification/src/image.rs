//! Source images of a graphic: their frame numbers, the regions that frame
//! data assigns them, and their ordering.

use vstd::prelude::*;
use crate::math::Rectangle;
use crate::graphics::{Graphic, GraphicSource};
use crate::data::FrameData;
use crate::paths::{path_file_stem, spec_file_stem};

verus! {

/// The graphics produced for the current run, and whether a new atlas image
/// was asked for.
pub struct GraphicOutput {
    pub graphics: Vec<Graphic>,
    pub requested: bool,
}

impl GraphicOutput {
    pub open spec fn spec_is_requested(&self) -> bool {
        self.requested
    }

    pub fn new() -> (r: GraphicOutput)
        ensures
            r.graphics@.len() == 0,
            !r.spec_is_requested(),
    {
        GraphicOutput { graphics: Vec::new(), requested: false }
    }

    pub fn request(&mut self)
        ensures
            final(self).spec_is_requested(),
            final(self).graphics == old(self).graphics,
    {
        self.requested = true;
    }

    pub fn is_requested(&self) -> (r: bool)
        ensures
            r == self.spec_is_requested(),
    {
        self.requested
    }
}

/// A loaded frame image and the frame number its file name gives.
pub struct GraphicSourceData {
    pub source: GraphicSource,
    pub frame_index: u32,
}

/// The frame images found for one source file, and the sprite's dimensions
/// when some frame states them.
pub struct GraphicSourceDataSet {
    pub sources: Vec<GraphicSourceData>,
    pub dimensions: Option<crate::math::Size>,
}

impl GraphicSourceDataSet {
    pub fn new() -> (r: GraphicSourceDataSet)
        ensures
            r.sources@.len() == 0,
            r.dimensions is None,
    {
        GraphicSourceDataSet { sources: Vec::new(), dimensions: None }
    }
}

/// Why a file could not be taken as a frame image.
pub enum GraphicSourceDataError {
    IO(std::io::Error),
    FileExpected,
    FrameIndexNotFound,
    GraphicLoadError(image::ImageError),
    UnsupportedGraphicFormat,
}

pub open spec fn is_decimal_digit(c: char) -> bool {
    '0' <= c && c <= '9'
}

/// The number written by a string of decimal digits.
pub open spec fn decimal_value(s: Seq<char>) -> nat
    decreases s.len(),
{
    if s.len() == 0 {
        0
    } else {
        decimal_value(s.drop_last()) * 10 + ((s.last() as nat) - ('0' as nat)) as nat
    }
}

/// The digits that `u32::from_str` reads: the text after an optional leading
/// `+`.
pub open spec fn unsigned_digits(s: Seq<char>) -> Seq<char> {
    if s.len() > 0 && s[0] == '+' {
        s.drop_first()
    } else {
        s
    }
}

/// What `u32::from_str` accepts: an optional `+` followed by one or more
/// decimal digits whose value fits in a `u32`.
pub open spec fn spec_parse_u32(s: Seq<char>) -> Option<u32> {
    let d = unsigned_digits(s);
    if d.len() > 0 && (forall|i: int| 0 <= i < d.len() ==> is_decimal_digit(#[trigger] d[i]))
        && decimal_value(d) <= u32::MAX {
        Some(decimal_value(d) as u32)
    } else {
        None
    }
}

proof fn lemma_decimal_value_prefix(d: Seq<char>, k: int)
    requires
        0 <= k <= d.len(),
        forall|i: int| 0 <= i < d.len() ==> is_decimal_digit(#[trigger] d[i]),
    ensures
        decimal_value(d.subrange(0, k)) <= decimal_value(d),
    decreases d.len() - k,
{
    if k < d.len() {
        lemma_decimal_value_prefix(d, k + 1);
        assert(d.subrange(0, k + 1).drop_last() =~= d.subrange(0, k));
        assert(is_decimal_digit(d[k]));
    } else {
        assert(d.subrange(0, k) =~= d);
    }
}

/// Reads a frame number the way `u32::from_str` does.
pub fn parse_u32(text: &str) -> (r: Option<u32>)
    ensures
        r == spec_parse_u32(text@),
{
    let len = text.unicode_len();
    let mut start: usize = 0;
    if len > 0 && text.get_char(0) == '+' {
        start = 1;
    }
    let ghost d = unsigned_digits(text@);
    proof {
        assert(d =~= text@.subrange(start as int, len as int));
    }
    if start == len {
        return None;
    }
    let mut value: u64 = 0;
    let mut i: usize = start;
    while i < len
        invariant
            start <= i <= len,
            len == text@.len(),
            d =~= text@.subrange(start as int, len as int),
            d == unsigned_digits(text@),
            value == decimal_value(d.subrange(0, i - start)),
            value <= u32::MAX,
            forall|j: int| 0 <= j < i - start ==> is_decimal_digit(#[trigger] d[j]),
        decreases len - i,
    {
        let c = text.get_char(i);
        if c < '0' || c > '9' {
            proof {
                assert(d[i - start] == c);
                assert(!is_decimal_digit(d[i - start]));
            }
            return None;
        }
        proof {
            assert(d.subrange(0, i - start + 1).drop_last() =~= d.subrange(0, i - start));
            assert(d.subrange(0, i - start + 1).last() == c);
        }
        let digit: u64 = (c as u64) - ('0' as u64);
        value = value * 10 + digit;
        if value > 0xffff_ffff {
            proof {
                let k = i - start + 1;
                assert(decimal_value(d.subrange(0, k)) == value);
                if forall|j: int| 0 <= j < d.len() ==> is_decimal_digit(#[trigger] d[j]) {
                    lemma_decimal_value_prefix(d, k);
                }
            }
            return None;
        }
        i = i + 1;
    }
    proof {
        assert(d.subrange(0, len - start) =~= d);
    }
    Some(value as u32)
}

/// The frame number a frame image's file name states: its stem read as a
/// `u32`.
pub open spec fn spec_frame_index(path: Seq<char>) -> Option<u32> {
    match spec_file_stem(path) {
        Some(stem) => spec_parse_u32(stem),
        None => None,
    }
}

pub fn try_retrieve_frame_index(path: &str) -> (r: Option<u32>)
    ensures
        r == spec_frame_index(path@),
{
    match path_file_stem(path) {
        Some(stem) => parse_u32(stem.as_str()),
        None => None,
    }
}

/// The source region and the atlas region that the frame data gives frame
/// `frame_index`: for a frame with contents, its source region (or the empty
/// rectangle when that is empty) and its atlas region when that is not empty;
/// otherwise the empty rectangle and no atlas region.
pub open spec fn spec_regions(frame_index: u32, frames_data: Seq<FrameData>) -> (Rectangle, Option<Rectangle>) {
    let empty = Rectangle { x: 0, y: 0, width: 0, height: 0 };
    if frame_index < frames_data.len() {
        match frames_data[frame_index as int] {
            FrameData::Empty => (empty, None),
            FrameData::Contents { atlas_region, source_region, .. } => (
                if source_region.spec_is_empty() { empty } else { source_region },
                if atlas_region.spec_is_empty() { None } else { Some(atlas_region) },
            ),
        }
    } else {
        (empty, None)
    }
}

pub fn get_regions(frame_index: u32, frames_data: &[FrameData]) -> (r: (Rectangle, Option<Rectangle>))
    ensures
        r == spec_regions(frame_index, frames_data@),
{
    let index = frame_index as usize;
    if index < frames_data.len() {
        match frames_data[index] {
            FrameData::Empty => (Rectangle::default(), None),
            FrameData::Contents { atlas_region, source_region, .. } => {
                let source = match Rectangle::with(
                    source_region.x,
                    source_region.y,
                    source_region.width,
                    source_region.height,
                ) {
                    Some(r) => r,
                    None => Rectangle::default(),
                };
                let atlas = if !atlas_region.is_empty() {
                    match Rectangle::with(
                        atlas_region.x,
                        atlas_region.y,
                        atlas_region.width,
                        atlas_region.height,
                    ) {
                        Some(r) => Some(r),
                        None => Some(Rectangle::default()),
                    }
                } else {
                    None
                };
                (source, atlas)
            },
        }
    } else {
        (Rectangle::default(), None)
    }
}

/// Frame images ordered by frame number.
pub open spec fn sorted_by_frame_index(s: Seq<GraphicSourceData>) -> bool {
    forall|i: int, j: int| 0 <= i < j < s.len() ==> s[i].frame_index <= s[j].frame_index
}

/// Orders frame images by frame number, keeping every one of them.
pub fn sort_by_frame_index(sources: Vec<GraphicSourceData>) -> (r: Vec<GraphicSourceData>)
    ensures
        r@.to_multiset() == sources@.to_multiset(),
        sorted_by_frame_index(r@),
{
    broadcast use vstd::seq_lib::group_to_multiset_ensures;
    broadcast use vstd::multiset::group_multiset_axioms;

    let mut input = sources;
    let mut out: Vec<GraphicSourceData> = Vec::new();
    proof {
        assert(out@.to_multiset() =~= vstd::multiset::Multiset::empty());
    }
    while input.len() > 0
        invariant
            out@.to_multiset().add(input@.to_multiset()) == sources@.to_multiset(),
            sorted_by_frame_index(out@),
        decreases input@.len(),
    {
        let ghost before = input@;
        let x = input.pop().unwrap();
        proof {
            assert(before =~= input@.push(x));
            vstd::seq_lib::to_multiset_build(input@, x);
        }
        let mut pos: usize = 0;
        while pos < out.len() && out[pos].frame_index <= x.frame_index
            invariant
                pos <= out@.len(),
                forall|j: int| 0 <= j < pos ==> out@[j].frame_index <= x.frame_index,
            decreases out@.len() - pos,
        {
            pos = pos + 1;
        }
        let ghost old_out = out@;
        out.insert(pos, x);
        proof {
            vstd::seq_lib::to_multiset_insert(old_out, pos as int, x);
            assert(out@ =~= old_out.insert(pos as int, x));
            assert forall|i: int, j: int| 0 <= i < j < out@.len() implies out@[i].frame_index <= out@[j].frame_index by {
                if j < pos {
                } else if j == pos {
                } else if i < pos {
                    assert(out@[j] == old_out[j - 1]);
                    assert(old_out[i].frame_index <= x.frame_index);
                    if pos < old_out.len() {
                        assert(old_out[pos as int].frame_index > x.frame_index);
                        assert(old_out[i].frame_index <= old_out[j - 1].frame_index);
                    }
                } else if i == pos {
                    assert(out@[j] == old_out[j - 1]);
                    assert(old_out[pos as int].frame_index > x.frame_index);
                    assert(old_out[pos as int].frame_index <= old_out[j - 1].frame_index);
                } else {
                    assert(out@[i] == old_out[i - 1]);
                    assert(out@[j] == old_out[j - 1]);
                }
            }
        }
    }
    proof {
        assert(input@.to_multiset() =~= vstd::multiset::Multiset::empty());
    }
    out
}

} // verus!
