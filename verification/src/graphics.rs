//! Graphics gathered from sources: single images and animations, each made of
//! graphic sources that the packer places on the atlas.

use vstd::prelude::*;
use crate::math::Rectangle;

verus! {

/// Pixels in RGBA order, four bytes per pixel, row after row.
pub struct PixelBuffer {
    pub width: u32,
    pub height: u32,
    pub pixels: Vec<u8>,
}

impl PixelBuffer {
    /// The pixel vector holds exactly `width * height` RGBA pixels.
    pub open spec fn wf(&self) -> bool {
        self.pixels@.len() == self.width * self.height * 4
    }

    /// A buffer of the given size with every byte zero (transparent black).
    pub fn transparent(width: u32, height: u32) -> (r: PixelBuffer)
        requires
            width * height * 4 <= usize::MAX,
        ensures
            r.wf(),
            r.width == width,
            r.height == height,
            forall|i: int| 0 <= i < r.pixels@.len() ==> r.pixels@[i] == 0u8,
    {
        let total: usize = width as usize * height as usize * 4;
        let mut pixels: Vec<u8> = Vec::with_capacity(total);
        let mut i: usize = 0;
        while i < total
            invariant
                i <= total,
                pixels@.len() == i,
                forall|j: int| 0 <= j < i ==> pixels@[j] == 0u8,
            decreases total - i,
        {
            pixels.push(0u8);
            i = i + 1;
        }
        PixelBuffer { width, height, pixels }
    }
}

/// An image buffer with the region of it that holds the graphic, and where
/// that region lands on the atlas once packed.
pub struct GraphicSource {
    pub buffer: PixelBuffer,
    pub region: Rectangle,
    pub atlas_region: Option<Rectangle>,
}

/// A single still image and the source file it came from.
pub struct Image {
    pub graphic_source: GraphicSource,
    pub source_path: String,
}

impl Image {
    pub fn with_graphic_source(graphic_source: GraphicSource, source_path: String) -> (r: Image)
        ensures
            r == (Image { graphic_source, source_path }),
    {
        Image { graphic_source, source_path }
    }
}

/// One frame of an animation: blank, or a graphic shown for `duration`.
pub enum Frame {
    Empty,
    Contents { graphic_source: GraphicSource, duration: u32 },
}

/// A named run of frames of an animation.
pub struct Track {
    pub label: Option<String>,
    pub frame_indices: Vec<u32>,
}

pub(crate) fn copy_u32s(v: &Vec<u32>) -> (r: Vec<u32>)
    ensures
        r@ == v@,
{
    let mut r: Vec<u32> = Vec::new();
    let mut i: usize = 0;
    while i < v.len()
        invariant
            i <= v@.len(),
            r@ == v@.subrange(0, i as int),
        decreases v@.len() - i,
    {
        r.push(v[i]);
        i = i + 1;
    }
    r
}

/// A track as values: its label text and its frame indices.
pub struct TrackView {
    pub label: Option<Seq<char>>,
    pub frame_indices: Seq<u32>,
}

impl View for Track {
    type V = TrackView;

    open spec fn view(&self) -> TrackView {
        TrackView {
            label: match self.label {
                Some(l) => Some(l@),
                None => None,
            },
            frame_indices: self.frame_indices@,
        }
    }
}

impl Clone for Track {
    fn clone(&self) -> (r: Self)
        ensures
            r@ == self@,
    {
        let label = match &self.label {
            Some(l) => Some(l.clone()),
            None => None,
        };
        let frame_indices = copy_u32s(&self.frame_indices);
        proof {
            assert(frame_indices@ =~= self.frame_indices@);
        }
        Track { label, frame_indices }
    }
}

impl Track {
    pub fn new(label: Option<String>) -> (r: Track)
        ensures
            r.label == label,
            r.frame_indices@ == Seq::<u32>::empty(),
    {
        Track { label, frame_indices: Vec::new() }
    }
}

/// The tracks of an animation, in the order they were registered.
pub struct TrackList {
    pub entries: Vec<Track>,
}

impl View for TrackList {
    type V = Seq<TrackView>;

    open spec fn view(&self) -> Seq<TrackView> {
        self.entries@.map_values(|t: Track| t@)
    }
}

impl TrackList {
    pub fn new() -> (r: TrackList)
        ensures
            r.entries@ == Seq::<Track>::empty(),
    {
        TrackList { entries: Vec::new() }
    }

    pub fn register(&mut self, track: Track)
        ensures
            final(self).entries@ == old(self).entries@.push(track),
    {
        self.entries.push(track);
    }

    pub fn entries(&self) -> (r: &Vec<Track>)
        ensures
            r == &self.entries,
    {
        &self.entries
    }

    pub fn is_empty(&self) -> (r: bool)
        ensures
            r == (self.entries@.len() == 0),
    {
        self.entries.len() == 0
    }
}

/// An animation read from a source file: its frames and tracks.
pub struct Animation {
    pub source_path: String,
    pub frames: Vec<Frame>,
    pub tracks: TrackList,
}

impl Animation {
    pub fn new(source_path: String) -> (r: Animation)
        ensures
            r.source_path == source_path,
            r.frames@ == Seq::<Frame>::empty(),
            r.tracks.entries@ == Seq::<Track>::empty(),
    {
        Animation { source_path, frames: Vec::new(), tracks: TrackList::new() }
    }

    pub fn push_frame(&mut self, frame: Frame)
        ensures
            final(self).frames@ == old(self).frames@.push(frame),
            final(self).source_path == old(self).source_path,
            final(self).tracks == old(self).tracks,
    {
        self.frames.push(frame);
    }

    pub fn push_track(&mut self, track: Track)
        ensures
            final(self).tracks.entries@ == old(self).tracks.entries@.push(track),
            final(self).source_path == old(self).source_path,
            final(self).frames == old(self).frames,
    {
        self.tracks.register(track);
    }
}

/// What a source file turned into.
pub enum Graphic {
    Empty,
    Image(Image),
    Animation(Animation),
}

/// An animation frame without its image: blank, or shown for `duration`.
#[derive(Clone, Copy, PartialEq, Eq, Structural, Debug)]
pub enum FrameShape {
    Empty,
    Contents { duration: u32 },
}

pub open spec fn frame_shape(f: Frame) -> FrameShape {
    match f {
        Frame::Empty => FrameShape::Empty,
        Frame::Contents { duration, .. } => FrameShape::Contents { duration },
    }
}

/// The graphic sources of some frames, in order.
pub open spec fn frame_sources(frames: Seq<Frame>) -> Seq<GraphicSource>
    decreases frames.len(),
{
    if frames.len() == 0 {
        Seq::empty()
    } else {
        frame_sources(frames.drop_last()) + match frames.last() {
            Frame::Empty => Seq::empty(),
            Frame::Contents { graphic_source, .. } => seq![graphic_source],
        }
    }
}

/// The number of frames with contents.
pub open spec fn count_contents(shapes: Seq<FrameShape>) -> nat
    decreases shapes.len(),
{
    if shapes.len() == 0 {
        0
    } else {
        count_contents(shapes.drop_last()) + if shapes.last() is Contents { 1nat } else { 0nat }
    }
}

/// A graphic without its images: what is left of it while its sources are
/// out for packing.
pub enum GraphicShapeView {
    Empty,
    Image { source_path: Seq<char> },
    Animation { source_path: Seq<char>, frames: Seq<FrameShape>, tracks: Seq<TrackView> },
}

pub open spec fn graphic_shape(g: Graphic) -> GraphicShapeView {
    match g {
        Graphic::Empty => GraphicShapeView::Empty,
        Graphic::Image(i) => GraphicShapeView::Image { source_path: i.source_path@ },
        Graphic::Animation(a) => GraphicShapeView::Animation {
            source_path: a.source_path@,
            frames: a.frames@.map_values(|f: Frame| frame_shape(f)),
            tracks: a.tracks@,
        },
    }
}

/// The graphic sources of one graphic, in order.
pub open spec fn graphic_sources(g: Graphic) -> Seq<GraphicSource> {
    match g {
        Graphic::Empty => Seq::empty(),
        Graphic::Image(i) => seq![i.graphic_source],
        Graphic::Animation(a) => frame_sources(a.frames@),
    }
}

/// The graphic sources of several graphics, graphic after graphic.
pub open spec fn all_sources(gs: Seq<Graphic>) -> Seq<GraphicSource>
    decreases gs.len(),
{
    if gs.len() == 0 {
        Seq::empty()
    } else {
        all_sources(gs.drop_last()) + graphic_sources(gs.last())
    }
}

pub open spec fn shape_count(s: GraphicShapeView) -> nat {
    match s {
        GraphicShapeView::Empty => 0,
        GraphicShapeView::Image { .. } => 1,
        GraphicShapeView::Animation { frames, .. } => count_contents(frames),
    }
}

pub open spec fn total_count(shapes: Seq<GraphicShapeView>) -> nat
    decreases shapes.len(),
{
    if shapes.len() == 0 {
        0
    } else {
        total_count(shapes.drop_last()) + shape_count(shapes.last())
    }
}

/// A graphic whose sources were taken out.
pub enum ShapedGraphic {
    Empty,
    Image { source_path: String },
    Animation { source_path: String, frames: Vec<FrameShape>, tracks: TrackList },
}

impl View for ShapedGraphic {
    type V = GraphicShapeView;

    open spec fn view(&self) -> GraphicShapeView {
        match self {
            ShapedGraphic::Empty => GraphicShapeView::Empty,
            ShapedGraphic::Image { source_path } => GraphicShapeView::Image { source_path: source_path@ },
            ShapedGraphic::Animation { source_path, frames, tracks } => GraphicShapeView::Animation {
                source_path: source_path@,
                frames: frames@,
                tracks: tracks@,
            },
        }
    }
}

proof fn lemma_frame_sources_len(frames: Seq<Frame>)
    ensures
        frame_sources(frames).len() == count_contents(frames.map_values(|f: Frame| frame_shape(f))),
    decreases frames.len(),
{
    if frames.len() > 0 {
        lemma_frame_sources_len(frames.drop_last());
        assert(frames.map_values(|f: Frame| frame_shape(f)).drop_last() =~= frames.drop_last().map_values(
            |f: Frame| frame_shape(f),
        ));
    }
}

pub(crate) proof fn lemma_all_sources_len(gs: Seq<Graphic>)
    ensures
        all_sources(gs).len() == total_count(gs.map_values(|g: Graphic| graphic_shape(g))),
    decreases gs.len(),
{
    if gs.len() > 0 {
        lemma_all_sources_len(gs.drop_last());
        assert(gs.map_values(|g: Graphic| graphic_shape(g)).drop_last() =~= gs.drop_last().map_values(
            |g: Graphic| graphic_shape(g),
        ));
        match gs.last() {
            Graphic::Animation(a) => lemma_frame_sources_len(a.frames@),
            _ => {},
        }
    }
}

fn take_frame_sources(frames: Vec<Frame>) -> (r: (Vec<FrameShape>, Vec<GraphicSource>))
    ensures
        r.0@ == frames@.map_values(|f: Frame| frame_shape(f)),
        r.1@ == frame_sources(frames@),
{
    let ghost orig = frames@;
    let n = frames.len();
    let mut frames = frames;
    let mut shapes: Vec<FrameShape> = Vec::new();
    let mut sources: Vec<GraphicSource> = Vec::new();
    let mut i: usize = 0;
    while i < n
        invariant
            n == orig.len(),
            i <= n,
            frames@ == orig.subrange(i as int, n as int),
            shapes@ == orig.subrange(0, i as int).map_values(|f: Frame| frame_shape(f)),
            sources@ == frame_sources(orig.subrange(0, i as int)),
        decreases n - i,
    {
        let f = frames.remove(0);
        proof {
            assert(f == orig[i as int]);
            assert(frames@ =~= orig.subrange(i + 1, n as int));
            assert(orig.subrange(0, i + 1).drop_last() =~= orig.subrange(0, i as int));
            assert(orig.subrange(0, i + 1).map_values(|f: Frame| frame_shape(f)) =~= orig.subrange(
                0,
                i as int,
            ).map_values(|f: Frame| frame_shape(f)).push(frame_shape(f)));
        }
        let ghost before = sources@;
        match f {
            Frame::Empty => {
                shapes.push(FrameShape::Empty);
                proof {
                    assert(sources@ =~= before + Seq::<GraphicSource>::empty());
                }
            },
            Frame::Contents { graphic_source, duration } => {
                shapes.push(FrameShape::Contents { duration });
                sources.push(graphic_source);
                proof {
                    assert(sources@ =~= before + seq![graphic_source]);
                }
            },
        }
        i = i + 1;
    }
    proof {
        assert(orig.subrange(0, n as int) =~= orig);
    }
    (shapes, sources)
}

fn put_frame_sources(shapes: &Vec<FrameShape>, sources: &mut Vec<GraphicSource>) -> (r: Vec<Frame>)
    requires
        count_contents(shapes@) <= old(sources)@.len(),
    ensures
        r@.map_values(|f: Frame| frame_shape(f)) == shapes@,
        frame_sources(r@) == old(sources)@.subrange(0, count_contents(shapes@) as int),
        final(sources)@ == old(sources)@.subrange(count_contents(shapes@) as int, old(sources)@.len() as int),
{
    let ghost orig = old(sources)@;
    let n = shapes.len();
    let mut frames: Vec<Frame> = Vec::new();
    let mut i: usize = 0;
    proof {
        lemma_count_prefix_le(shapes@, 0);
    }
    while i < n
        invariant
            n == shapes@.len(),
            i <= n,
            count_contents(shapes@) <= orig.len(),
            count_contents(shapes@.subrange(0, i as int)) <= count_contents(shapes@),
            frames@.map_values(|f: Frame| frame_shape(f)) == shapes@.subrange(0, i as int),
            frame_sources(frames@) == orig.subrange(0, count_contents(shapes@.subrange(0, i as int)) as int),
            sources@ == orig.subrange(count_contents(shapes@.subrange(0, i as int)) as int, orig.len() as int),
        decreases n - i,
    {
        let ghost c = count_contents(shapes@.subrange(0, i as int));
        proof {
            assert(shapes@.subrange(0, i + 1).drop_last() =~= shapes@.subrange(0, i as int));
            lemma_count_prefix_le(shapes@, i + 1);
        }
        let ghost before = frames@;
        let frame = match shapes[i] {
            FrameShape::Empty => Frame::Empty,
            FrameShape::Contents { duration } => {
                let gs = sources.remove(0);
                proof {
                    assert(gs == orig[c as int]);
                }
                Frame::Contents { graphic_source: gs, duration }
            },
        };
        frames.push(frame);
        proof {
            assert(frames@.drop_last() =~= before);
            assert(frames@.map_values(|f: Frame| frame_shape(f)) =~= before.map_values(|f: Frame| frame_shape(f)).push(
                frame_shape(frame),
            ));
            assert(shapes@.subrange(0, i + 1) =~= shapes@.subrange(0, i as int).push(shapes@[i as int]));
            let c2 = count_contents(shapes@.subrange(0, i + 1));
            assert(sources@ =~= orig.subrange(c2 as int, orig.len() as int));
            assert(orig.subrange(0, c2 as int) =~= orig.subrange(0, c as int) + orig.subrange(c as int, c2 as int));
        }
        i = i + 1;
    }
    proof {
        assert(shapes@.subrange(0, n as int) =~= shapes@);
    }
    frames
}

proof fn lemma_count_prefix_le(shapes: Seq<FrameShape>, k: int)
    requires
        0 <= k <= shapes.len(),
    ensures
        count_contents(shapes.subrange(0, k)) <= count_contents(shapes),
    decreases shapes.len() - k,
{
    if k < shapes.len() {
        lemma_count_prefix_le(shapes, k + 1);
        assert(shapes.subrange(0, k + 1).drop_last() =~= shapes.subrange(0, k));
    } else {
        assert(shapes.subrange(0, k) =~= shapes);
    }
}

/// Takes the graphic sources out of `graphics`, graphic after graphic,
/// leaving what remains of each graphic.
pub fn take_sources(graphics: Vec<Graphic>) -> (r: (Vec<ShapedGraphic>, Vec<GraphicSource>))
    ensures
        r.0@.map_values(|s: ShapedGraphic| s@) == graphics@.map_values(|g: Graphic| graphic_shape(g)),
        r.1@ == all_sources(graphics@),
{
    let ghost orig = graphics@;
    let n = graphics.len();
    let mut graphics = graphics;
    let mut shapes: Vec<ShapedGraphic> = Vec::new();
    let mut sources: Vec<GraphicSource> = Vec::new();
    let mut i: usize = 0;
    while i < n
        invariant
            n == orig.len(),
            i <= n,
            graphics@ == orig.subrange(i as int, n as int),
            shapes@.map_values(|s: ShapedGraphic| s@) == orig.subrange(0, i as int).map_values(
                |g: Graphic| graphic_shape(g),
            ),
            sources@ == all_sources(orig.subrange(0, i as int)),
        decreases n - i,
    {
        let g = graphics.remove(0);
        proof {
            assert(g == orig[i as int]);
            assert(graphics@ =~= orig.subrange(i + 1, n as int));
            assert(orig.subrange(0, i + 1).drop_last() =~= orig.subrange(0, i as int));
            assert(orig.subrange(0, i + 1).map_values(|g: Graphic| graphic_shape(g)) =~= orig.subrange(
                0,
                i as int,
            ).map_values(|g: Graphic| graphic_shape(g)).push(graphic_shape(g)));
        }
        let ghost before_shapes = shapes@;
        let ghost before = sources@;
        let shape = match g {
            Graphic::Empty => {
                proof {
                    assert(sources@ =~= before + graphic_sources(g));
                }
                ShapedGraphic::Empty
            },
            Graphic::Image(image) => {
                sources.push(image.graphic_source);
                proof {
                    assert(sources@ =~= before + graphic_sources(g));
                }
                ShapedGraphic::Image { source_path: image.source_path }
            },
            Graphic::Animation(animation) => {
                let Animation { source_path, frames, tracks } = animation;
                let (fshapes, mut fsources) = take_frame_sources(frames);
                sources.append(&mut fsources);
                proof {
                    assert(sources@ =~= before + graphic_sources(g));
                }
                ShapedGraphic::Animation { source_path, frames: fshapes, tracks }
            },
        };
        proof {
            assert(shape@ == graphic_shape(g));
        }
        shapes.push(shape);
        proof {
            assert(shapes@.map_values(|s: ShapedGraphic| s@) =~= before_shapes.map_values(
                |s: ShapedGraphic| s@,
            ).push(shape@));
        }
        i = i + 1;
    }
    proof {
        assert(orig.subrange(0, n as int) =~= orig);
    }
    (shapes, sources)
}

/// Puts graphic sources back into graphics, in the order `take_sources`
/// took them out.
pub fn put_sources(shapes: Vec<ShapedGraphic>, sources: Vec<GraphicSource>) -> (r: Vec<Graphic>)
    requires
        sources@.len() == total_count(shapes@.map_values(|s: ShapedGraphic| s@)),
    ensures
        r@.map_values(|g: Graphic| graphic_shape(g)) == shapes@.map_values(|s: ShapedGraphic| s@),
        all_sources(r@) == sources@,
{
    let ghost orig = shapes@.map_values(|s: ShapedGraphic| s@);
    let ghost all = sources@;
    let n = shapes.len();
    let mut shapes = shapes;
    let mut sources = sources;
    let mut graphics: Vec<Graphic> = Vec::new();
    let mut i: usize = 0;
    while i < n
        invariant
            n == orig.len(),
            i <= n,
            all.len() == total_count(orig),
            shapes@.map_values(|s: ShapedGraphic| s@) == orig.subrange(i as int, n as int),
            shapes@.len() == n - i,
            graphics@.map_values(|g: Graphic| graphic_shape(g)) == orig.subrange(0, i as int),
            all_sources(graphics@) == all.subrange(0, total_count(orig.subrange(0, i as int)) as int),
            sources@ == all.subrange(total_count(orig.subrange(0, i as int)) as int, all.len() as int),
            total_count(orig.subrange(0, i as int)) <= total_count(orig),
        decreases n - i,
    {
        let ghost c = total_count(orig.subrange(0, i as int));
        let ghost shapes_before = shapes@;
        let s = shapes.remove(0);
        proof {
            assert(shapes_before[0] == s);
            assert(shapes_before.map_values(|s: ShapedGraphic| s@)[0] == s@);
            assert(s@ == orig[i as int]);
            let m_after = shapes@.map_values(|s: ShapedGraphic| s@);
            let m_before = shapes_before.map_values(|s: ShapedGraphic| s@);
            assert forall|j: int| 0 <= j < m_after.len() implies #[trigger] m_after[j] == orig.subrange(
                i + 1,
                n as int,
            )[j] by {
                assert(shapes@[j] == shapes_before[j + 1]);
                assert(m_before[j + 1] == orig.subrange(i as int, n as int)[j + 1]);
            }
            assert(shapes@.map_values(|s: ShapedGraphic| s@) =~= orig.subrange(i + 1, n as int));
            assert(orig.subrange(0, i + 1).drop_last() =~= orig.subrange(0, i as int));
            lemma_total_prefix_le(orig, i + 1);
        }
        let ghost src_before = sources@;
        let g = match s {
            ShapedGraphic::Empty => Graphic::Empty,
            ShapedGraphic::Image { source_path } => {
                let gs = sources.remove(0);
                Graphic::Image(Image { graphic_source: gs, source_path })
            },
            ShapedGraphic::Animation { source_path, frames, tracks } => {
                let fr = put_frame_sources(&frames, &mut sources);
                proof {
                    assert(fr@.map_values(|f: Frame| frame_shape(f)) == frames@);
                }
                Graphic::Animation(Animation { source_path, frames: fr, tracks })
            },
        };
        let ghost before = graphics@;
        graphics.push(g);
        proof {
            let c2 = total_count(orig.subrange(0, i + 1));
            assert(graphic_shape(g) == orig[i as int]);
            assert(graphics@.drop_last() =~= before);
            assert(graphics@.map_values(|g: Graphic| graphic_shape(g)) =~= before.map_values(
                |g: Graphic| graphic_shape(g),
            ).push(graphic_shape(g)));
            assert(orig.subrange(0, i + 1) =~= orig.subrange(0, i as int).push(orig[i as int]));
            assert(graphic_sources(g) =~= src_before.subrange(0, (c2 - c) as int));
            assert(sources@ =~= all.subrange(c2 as int, all.len() as int));
            assert(all.subrange(0, c2 as int) =~= all.subrange(0, c as int) + all.subrange(c as int, c2 as int));
        }
        i = i + 1;
    }
    proof {
        assert(orig.subrange(0, n as int) =~= orig);
    }
    graphics
}

proof fn lemma_total_prefix_le(shapes: Seq<GraphicShapeView>, k: int)
    requires
        0 <= k <= shapes.len(),
    ensures
        total_count(shapes.subrange(0, k)) <= total_count(shapes),
    decreases shapes.len() - k,
{
    if k < shapes.len() {
        lemma_total_prefix_le(shapes, k + 1);
        assert(shapes.subrange(0, k + 1).drop_last() =~= shapes.subrange(0, k));
    } else {
        assert(shapes.subrange(0, k) =~= shapes);
    }
}

} // verus!
