//! Composing the atlas image: every placed graphic source's region copied to
//! its place on a transparent image.

use vstd::prelude::*;
use crate::math::Rectangle;
use crate::graphics::{Frame, Graphic, GraphicSource, PixelBuffer, all_sources, frame_sources, graphic_sources};

verus! {

/// Channel `i % 4` of pixel `i / 4` of an image `width` pixels wide, after
/// the `region` of `source` is copied with its top-left corner at `(x, y)`:
/// inside the copied rectangle the byte comes from `source`, elsewhere it is
/// `before[i]`.
pub open spec fn copied_byte(
    before: Seq<u8>,
    width: u32,
    source: PixelBuffer,
    region: Rectangle,
    x: u32,
    y: u32,
    i: int,
) -> u8 {
    let p = i / 4;
    let c = i % 4;
    let px = p % (width as int);
    let py = p / (width as int);
    if x <= px < x + region.width && y <= py < y + region.height {
        source.pixels@[((region.y + py - y) * source.width + (region.x + px - x)) * 4 + c]
    } else {
        before[i]
    }
}

/// The pixels of an image after such a copy.
pub open spec fn spec_copied(
    before: Seq<u8>,
    width: u32,
    source: PixelBuffer,
    region: Rectangle,
    x: u32,
    y: u32,
) -> Seq<u8> {
    Seq::new(before.len(), |i: int| copied_byte(before, width, source, region, x, y, i))
}

/// The region of `source` fits on an image of the given size at `(x, y)`.
pub open spec fn fits(region: Rectangle, x: u32, y: u32, width: u32, height: u32) -> bool {
    x + region.width <= width && y + region.height <= height
}

/// `GenericImage::copy_from` of the `image` crate: the sub-image `region` of
/// `source` (taken with `GenericImageView::view`) is copied into `atlas` at
/// `(x, y)`, both held as RGBA buffers. The crate refuses the copy, leaving
/// the atlas as it was, when the region does not fit; otherwise every pixel
/// of the region is put at its place and the others stay.
#[verifier::external_body]
fn copy_region(atlas: &mut PixelBuffer, source: &PixelBuffer, region: Rectangle, x: u32, y: u32) -> (r: Result<(), image::ImageError>)
    requires
        old(atlas).wf(),
        source.wf(),
        region.x + region.width <= source.width,
        region.y + region.height <= source.height,
        x + region.width <= u32::MAX,
        y + region.height <= u32::MAX,
    ensures
        final(atlas).width == old(atlas).width,
        final(atlas).height == old(atlas).height,
        r is Ok <==> fits(region, x, y, old(atlas).width, old(atlas).height),
        r is Ok ==> final(atlas).pixels@ == spec_copied(old(atlas).pixels@, old(atlas).width, *source, region, x, y),
        r is Err ==> final(atlas).pixels@ == old(atlas).pixels@,
{
    let src = image::ImageBuffer::<image::Rgba<u8>, &[u8]>::from_raw(source.width, source.height, source.pixels.as_slice()).unwrap();
    let pixels = std::mem::take(&mut atlas.pixels);
    let mut dst = image::RgbaImage::from_raw(atlas.width, atlas.height, pixels).unwrap();
    let view = image::GenericImageView::view(&src, region.x, region.y, region.width, region.height);
    let result = image::GenericImage::copy_from(&mut dst, &*view, x, y);
    atlas.pixels = dst.into_raw();
    result
}

/// A source whose region lies within its buffer and can be placed anywhere
/// an atlas coordinate allows.
pub open spec fn source_ready(gs: GraphicSource) -> bool {
    &&& gs.buffer.wf()
    &&& gs.region.x + gs.region.width <= gs.buffer.width
    &&& gs.region.y + gs.region.height <= gs.buffer.height
    &&& gs.atlas_region matches Some(a) ==> (a.x + gs.region.width <= u32::MAX && a.y + gs.region.height
        <= u32::MAX)
}

/// The atlas pixels after copying the first `n` sources that have an atlas
/// region, onto `base`.
pub open spec fn spec_composed(base: Seq<u8>, width: u32, sources: Seq<GraphicSource>, n: nat) -> Seq<u8>
    decreases n,
{
    if n == 0 {
        base
    } else {
        let prev = spec_composed(base, width, sources, (n - 1) as nat);
        match sources[n - 1].atlas_region {
            Some(a) => spec_copied(prev, width, sources[n - 1].buffer, sources[n - 1].region, a.x, a.y),
            None => prev,
        }
    }
}

/// Every placed source among the first `n` fits on the atlas.
pub open spec fn all_fit(sources: Seq<GraphicSource>, n: nat, width: u32, height: u32) -> bool {
    forall|i: int|
        0 <= i < n ==> match (#[trigger] sources[i]).atlas_region {
            Some(a) => fits(sources[i].region, a.x, a.y, width, height),
            None => true,
        }
}

/// The atlas image: a transparent image of the given size with the region
/// of every placed source copied at the position of its atlas region, in
/// order. Sources without an atlas region are left out. Fails with the
/// `image` crate's error at the first source whose region does not fit.
pub fn compose_atlas(width: u32, height: u32, sources: &Vec<GraphicSource>) -> (r: Result<PixelBuffer, image::ImageError>)
    requires
        width * height * 4 <= usize::MAX,
        forall|i: int| 0 <= i < sources@.len() ==> source_ready(#[trigger] sources@[i]),
    ensures
        r is Ok <==> all_fit(sources@, sources@.len(), width, height),
        r matches Ok(atlas) ==> atlas.width == width && atlas.height == height && atlas.wf()
            && atlas.pixels@ == spec_composed(
            Seq::new((width * height * 4) as nat, |i: int| 0u8),
            width,
            sources@,
            sources@.len(),
        ),
{
    let mut atlas = PixelBuffer::transparent(width, height);
    let ghost base = atlas.pixels@;
    proof {
        assert(base =~= Seq::new((width * height * 4) as nat, |i: int| 0u8));
    }
    let n = sources.len();
    let mut i: usize = 0;
    while i < n
        invariant
            n == sources@.len(),
            i <= n,
            atlas.width == width,
            atlas.height == height,
            atlas.wf(),
            forall|j: int| 0 <= j < sources@.len() ==> source_ready(#[trigger] sources@[j]),
            atlas.pixels@ == spec_composed(base, width, sources@, i as nat),
            all_fit(sources@, i as nat, width, height),
        decreases n - i,
    {
        let gs = &sources[i];
        proof {
            assert(source_ready(sources@[i as int]));
        }
        match gs.atlas_region {
            Some(a) => {
                match copy_region(&mut atlas, &gs.buffer, gs.region, a.x, a.y) {
                    Ok(()) => {},
                    Err(e) => {
                        proof {
                            assert(!all_fit(sources@, sources@.len(), width, height)) by {
                                assert(!fits(sources@[i as int].region, a.x, a.y, width, height));
                            }
                        }
                        return Err(e);
                    },
                }
            },
            None => {},
        }
        proof {
            assert forall|j: int| 0 <= j < i + 1 implies match (#[trigger] sources@[j]).atlas_region {
                Some(a) => fits(sources@[j].region, a.x, a.y, width, height),
                None => true,
            } by {
                if j < i {
                    assert(all_fit(sources@, i as nat, width, height));
                }
            }
        }
        i = i + 1;
    }
    Ok(atlas)
}

/// Every one of these sources is ready to be composed.
pub open spec fn all_ready(sources: Seq<GraphicSource>) -> bool {
    forall|i: int| 0 <= i < sources.len() ==> source_ready(#[trigger] sources[i])
}

proof fn lemma_all_ready_concat(a: Seq<GraphicSource>, b: Seq<GraphicSource>)
    ensures
        all_ready(a + b) == (all_ready(a) && all_ready(b)),
{
    let c = a + b;
    if all_ready(c) {
        assert forall|i: int| 0 <= i < a.len() implies source_ready(#[trigger] a[i]) by {
            assert(c[i] == a[i]);
        }
        assert forall|i: int| 0 <= i < b.len() implies source_ready(#[trigger] b[i]) by {
            assert(c[a.len() + i] == b[i]);
        }
    }
    if all_ready(a) && all_ready(b) {
        assert forall|i: int| 0 <= i < c.len() implies source_ready(#[trigger] c[i]) by {
            if i < a.len() {
                assert(c[i] == a[i]);
            } else {
                assert(c[i] == b[i - a.len()]);
            }
        }
    }
}

fn source_is_ready(gs: &GraphicSource) -> (r: bool)
    ensures
        r == source_ready(*gs),
{
    let w = gs.buffer.width as u128;
    let h = gs.buffer.height as u128;
    assert(w * h <= 0xffff_ffff_ffff_ffff) by (nonlinear_arith)
        requires
            w <= 0xffff_ffff,
            h <= 0xffff_ffff,
    ;
    let buffer_ok = gs.buffer.pixels.len() as u128 == w * h * 4;
    let region_ok = gs.region.x as u64 + gs.region.width as u64 <= gs.buffer.width as u64
        && gs.region.y as u64 + gs.region.height as u64 <= gs.buffer.height as u64;
    let atlas_ok = match gs.atlas_region {
        Some(a) => a.x as u64 + gs.region.width as u64 <= 0xffff_ffffu64 && a.y as u64 + gs.region.height as u64
            <= 0xffff_ffffu64,
        None => true,
    };
    buffer_ok && region_ok && atlas_ok
}

fn frames_ready(frames: &Vec<Frame>) -> (r: bool)
    ensures
        r == all_ready(frame_sources(frames@)),
{
    let mut ok = true;
    let mut j: usize = 0;
    while j < frames.len()
        invariant
            j <= frames@.len(),
            ok == all_ready(frame_sources(frames@.subrange(0, j as int))),
        decreases frames@.len() - j,
    {
        let ghost prefix = frames@.subrange(0, j as int);
        let ghost next = frames@.subrange(0, j + 1);
        proof {
            assert(next.drop_last() =~= prefix);
            assert(next.last() == frames@[j as int]);
        }
        let step = match &frames[j] {
            Frame::Empty => true,
            Frame::Contents { graphic_source, .. } => source_is_ready(graphic_source),
        };
        proof {
            let tail = match frames@[j as int] {
                Frame::Empty => Seq::<GraphicSource>::empty(),
                Frame::Contents { graphic_source, .. } => seq![graphic_source],
            };
            assert(frame_sources(next) == frame_sources(prefix) + tail);
            lemma_all_ready_concat(frame_sources(prefix), tail);
            match frames@[j as int] {
                Frame::Empty => {
                    assert(all_ready(tail));
                },
                Frame::Contents { graphic_source, .. } => {
                    assert(tail[0] == graphic_source);
                    assert(all_ready(tail) == source_ready(graphic_source));
                },
            }
        }
        ok = ok && step;
        j = j + 1;
    }
    proof {
        assert(frames@.subrange(0, frames@.len() as int) =~= frames@);
    }
    ok
}

/// Whether every source of these graphics is ready to be composed onto an
/// atlas, as generating the atlas image asks.
pub fn sources_ready(graphics: &Vec<Graphic>) -> (r: bool)
    ensures
        r == all_ready(all_sources(graphics@)),
{
    let mut ok = true;
    let mut i: usize = 0;
    while i < graphics.len()
        invariant
            i <= graphics@.len(),
            ok == all_ready(all_sources(graphics@.subrange(0, i as int))),
        decreases graphics@.len() - i,
    {
        let ghost prefix = graphics@.subrange(0, i as int);
        let ghost next = graphics@.subrange(0, i + 1);
        proof {
            assert(next.drop_last() =~= prefix);
            assert(next.last() == graphics@[i as int]);
        }
        let step = match &graphics[i] {
            Graphic::Empty => true,
            Graphic::Image(image) => source_is_ready(&image.graphic_source),
            Graphic::Animation(animation) => frames_ready(&animation.frames),
        };
        proof {
            let g = graphics@[i as int];
            assert(all_sources(next) == all_sources(prefix) + graphic_sources(g));
            lemma_all_ready_concat(all_sources(prefix), graphic_sources(g));
            match g {
                Graphic::Empty => {
                    assert(all_ready(graphic_sources(g)));
                },
                Graphic::Image(image) => {
                    assert(graphic_sources(g) =~= seq![image.graphic_source]);
                    assert(all_ready(graphic_sources(g)) == source_ready(image.graphic_source)) by {
                        assert(graphic_sources(g)[0] == image.graphic_source);
                    }
                },
                Graphic::Animation(_) => {},
            }
        }
        ok = ok && step;
        i = i + 1;
    }
    proof {
        assert(graphics@.subrange(0, graphics@.len() as int) =~= graphics@);
    }
    ok
}

} // verus!
