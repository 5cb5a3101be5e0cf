//! Taking an image apart into its channels and putting it together again.

use vstd::prelude::*;

verus! {

/// An image of 8-bit samples: rows from the top, pixels from the left, the
/// channels of a pixel side by side.
#[derive(Debug, Clone, PartialEq, Eq)]
pub struct Raster {
    pub width: u32,
    pub height: u32,
    pub channels: usize,
    pub samples: Vec<u8>,
}

/// The place of column `x` in row `y` among rows of `width` places.
pub open spec fn offset(x: int, y: int, width: int) -> int {
    y * width + x
}

/// A place in a row of an image lies within the image.
proof fn lemma_offset_within(x: int, y: int, width: int, height: int)
    requires
        0 <= x < width,
        0 <= y < height,
    ensures
        0 <= offset(x, y, width) < width * height,
{
    assert(y * width + x < width * height) by (nonlinear_arith)
        requires
            0 <= x < width,
            0 <= y < height,
    ;
    assert(0 <= y * width) by (nonlinear_arith)
        requires
            0 <= width,
            0 <= y,
    ;
}

/// Places come in the order of their rows, and within a row in the order
/// of their columns.
proof fn lemma_offset_order(x1: int, y1: int, x2: int, y2: int, width: int)
    requires
        0 <= x1 < width,
        0 <= x2 < width,
        0 <= y1,
        0 <= y2,
        y1 < y2 || (y1 == y2 && x1 < x2),
    ensures
        offset(x1, y1, width) < offset(x2, y2, width),
{
    if y1 < y2 {
        assert(y1 * width + width <= y2 * width) by (nonlinear_arith)
            requires
                y1 + 1 <= y2,
                0 <= width,
        ;
    }
}

/// Whether an area of the first size covers each pixel of an area of the
/// second size; an area without pixels is covered by any.
pub open spec fn covers(width: u32, height: u32, inner_width: u32, inner_height: u32) -> bool {
    inner_width > 0 && inner_height > 0 ==> inner_width <= width && inner_height <= height
}

impl Raster {
    /// Whether the raster has one to four channels and holds exactly the
    /// samples of its pixels, which are no more than can be counted.
    pub open spec fn wf(&self) -> bool {
        &&& 1 <= self.channels <= 4
        &&& self.samples@.len() == self.width * self.height * self.channels
        &&& self.width * self.height * self.channels <= usize::MAX
    }

    /// The sample of channel `c` of the pixel in column `x` of row `y`.
    pub open spec fn sample(&self, x: int, y: int, c: int) -> u8 {
        self.samples@[offset(c, offset(x, y, self.width as int), self.channels as int)]
    }

    /// Whether the raster is the plane of channel `c` of `source` on a
    /// canvas of the given size: it has that size and one channel, holds
    /// the samples of the channel where the source has a pixel, and zero
    /// elsewhere.
    pub open spec fn is_plane_of(&self, source: Raster, c: int, width: u32, height: u32) -> bool {
        &&& self.wf()
        &&& self.channels == 1
        &&& self.width == width
        &&& self.height == height
        &&& forall|x: int, y: int|
            0 <= x < width && 0 <= y < height ==> #[trigger] self.sample(x, y, 0) == if x
                < source.width && y < source.height {
                source.sample(x, y, c)
            } else {
                0u8
            }
    }
}

/// The number of samples of an image of the given size, where it can be
/// counted.
fn sample_count(width: u32, height: u32, channels: usize) -> (r: Option<usize>)
    ensures
        match r {
            Some(count) => count == width * height * channels,
            None => width * height * channels > usize::MAX,
        },
{
    if channels == 0 {
        assert(width * height * channels == 0) by (nonlinear_arith)
            requires
                channels == 0,
        ;
        return Some(0);
    }
    match (width as usize).checked_mul(height as usize) {
        Some(pixels) => pixels.checked_mul(channels),
        None => {
            assert(width * height * channels > usize::MAX) by (nonlinear_arith)
                requires
                    width * height > usize::MAX,
                    channels >= 1,
            ;
            None
        },
    }
}

impl Raster {
    /// Says whether the raster is well formed.
    pub fn is_well_formed(&self) -> (r: bool)
        ensures
            r == self.wf(),
    {
        if self.channels < 1 || self.channels > 4 {
            return false;
        }
        match sample_count(self.width, self.height, self.channels) {
            Some(count) => self.samples.len() == count,
            None => false,
        }
    }
}

/// Lays channel `c` of the source out on a canvas of the given size.
fn plane_of(source: &Raster, c: usize, width: u32, height: u32) -> (plane: Raster)
    requires
        source.wf(),
        c < source.channels,
        width * height <= usize::MAX,
    ensures
        plane.is_plane_of(*source, c as int, width, height),
{
    let mut samples: Vec<u8> = Vec::new();
    let mut y: u32 = 0;
    while y < height
        invariant
            y <= height,
            source.wf(),
            c < source.channels,
            width * height <= usize::MAX,
            samples@.len() == offset(0, y as int, width as int),
            forall|px: int, py: int|
                0 <= px < width && 0 <= py < y ==> samples@[#[trigger] offset(px, py, width as int)] == if px
                    < source.width && py < source.height {
                    source.sample(px, py, c as int)
                } else {
                    0u8
                },
        decreases height - y,
    {
        let mut x: u32 = 0;
        while x < width
            invariant
                x <= width,
                y < height,
                source.wf(),
                c < source.channels,
                width * height <= usize::MAX,
                samples@.len() == offset(x as int, y as int, width as int),
                forall|px: int, py: int|
                    0 <= px < width && (0 <= py < y || (py == y && px < x)) ==> samples@[#[trigger] offset(
                        px,
                        py,
                        width as int,
                    )] == if px < source.width && py < source.height {
                        source.sample(px, py, c as int)
                    } else {
                        0u8
                    },
            decreases width - x,
        {
            let ghost before = samples@;
            let value = if x < source.width && y < source.height {
                proof {
                    lemma_offset_within(x as int, y as int, source.width as int, source.height as int);
                    let place = offset(x as int, y as int, source.width as int);
                    lemma_offset_within(
                        c as int,
                        place,
                        source.channels as int,
                        source.width * source.height,
                    );
                    assert(source.width * source.height * source.channels == source.channels * (
                    source.width * source.height)) by (nonlinear_arith);
                    assert(place * source.channels + c == offset(c as int, place, source.channels as int));
                    assert(0 <= y * source.width <= place) by (nonlinear_arith)
                        requires
                            place == y * source.width + x,
                            0 <= x,
                            0 <= y,
                            0 <= source.width,
                    ;
                    assert(place < source.channels * (source.width * source.height)) by (nonlinear_arith)
                        requires
                            0 <= place < source.width * source.height,
                            1 <= source.channels,
                    ;
                }
                let place = y as usize * source.width as usize + x as usize;
                source.samples[place * source.channels + c]
            } else {
                0u8
            };
            samples.push(value);
            proof {
                assert forall|px: int, py: int|
                    0 <= px < width && (0 <= py < y || (py == y && px < x + 1)) implies samples@[#[trigger] offset(
                    px,
                    py,
                    width as int,
                )] == if px < source.width && py < source.height {
                    source.sample(px, py, c as int)
                } else {
                    0u8
                } by {
                    if py == y && px == x {
                    } else {
                        lemma_offset_order(px, py, x as int, y as int, width as int);
                        assert(samples@[offset(px, py, width as int)] == before[offset(px, py, width as int)]);
                    }
                }
            }
            x += 1;
        }
        proof {
            assert(offset(width as int, y as int, width as int) == offset(0, y + 1, width as int))
                by (nonlinear_arith);
        }
        y += 1;
    }
    proof {
        assert(offset(0, height as int, width as int) == width * height * 1) by (nonlinear_arith);
    }
    let plane = Raster { width, height, channels: 1, samples };
    proof {
        assert forall|x: int, y: int| 0 <= x < width && 0 <= y < height implies #[trigger] plane.sample(
            x,
            y,
            0,
        ) == if x < source.width && y < source.height {
            source.sample(x, y, c as int)
        } else {
            0u8
        } by {
            assert(offset(0, offset(x, y, width as int), 1) == offset(x, y, width as int));
        }
    }
    plane
}

/// Whether an image can be taken apart on a canvas of the given size: it
/// is well formed, the canvas covers it, and the pixels of the canvas can
/// be counted.
pub open spec fn separable(source: Raster, width: u32, height: u32) -> bool {
    &&& source.wf()
    &&& covers(width, height, source.width, source.height)
    &&& width * height <= usize::MAX
}

/// Takes an image apart into one plane for each of its channels, on a
/// canvas that covers the image; `None` where that cannot be done.
///
/// Each plane holds the samples of its channel where the image has a pixel
/// and zero on the rest of the canvas.
pub fn separate_channels(source: &Raster, width: u32, height: u32) -> (r: Option<Vec<Raster>>)
    ensures
        r is Some <==> separable(*source, width, height),
        r matches Some(planes) ==> {
            &&& planes@.len() == source.channels
            &&& forall|c: int|
                0 <= c < source.channels ==> (#[trigger] planes@[c]).is_plane_of(
                    *source,
                    c,
                    width,
                    height,
                )
        },
{
    let covered = source.width == 0 || source.height == 0 || (source.width <= width && source.height
        <= height);
    if !source.is_well_formed() || !covered {
        return None;
    }
    match sample_count(width, height, 1) {
        Some(_) => Some(planes_of(source, width, height)),
        None => None,
    }
}

/// Takes a well-formed image apart on a canvas whose pixels can be counted.
fn planes_of(source: &Raster, width: u32, height: u32) -> (planes: Vec<Raster>)
    requires
        source.wf(),
        width * height <= usize::MAX,
    ensures
        planes@.len() == source.channels,
        forall|c: int|
            0 <= c < source.channels ==> (#[trigger] planes@[c]).is_plane_of(*source, c, width, height),
{
    let mut planes: Vec<Raster> = Vec::new();
    let mut c: usize = 0;
    while c < source.channels
        invariant
            c <= source.channels,
            source.wf(),
            width * height <= usize::MAX,
            planes@.len() == c,
            forall|d: int| 0 <= d < c ==> (#[trigger] planes@[d]).is_plane_of(*source, d, width, height),
        decreases source.channels - c,
    {
        let plane = plane_of(source, c, width, height);
        planes.push(plane);
        c += 1;
    }
    planes
}

/// Whether the first `count` of the planes can be put together into an
/// image of the given size: each has one channel and covers the image.
pub open spec fn combinable(planes: Seq<Raster>, count: int, width: u32, height: u32) -> bool {
    &&& 1 <= count <= 4
    &&& count <= planes.len()
    &&& width * height * count <= usize::MAX
    &&& forall|c: int|
        0 <= c < count ==> {
            &&& (#[trigger] planes[c]).wf()
            &&& planes[c].channels == 1
            &&& covers(planes[c].width, planes[c].height, width, height)
        }
}

impl Raster {
    /// Whether the raster is the first `count` of the planes put together
    /// into an image of the given size: it has that size and that many
    /// channels, and each of its samples is the one of the plane of its
    /// channel at the same pixel.
    pub open spec fn is_combination_of(&self, planes: Seq<Raster>, count: int, width: u32, height: u32) -> bool {
        &&& self.wf()
        &&& self.channels == count
        &&& self.width == width
        &&& self.height == height
        &&& forall|x: int, y: int, c: int|
            0 <= x < width && 0 <= y < height && 0 <= c < count ==> #[trigger] self.sample(x, y, c)
                == planes[c].sample(x, y, 0)
    }
}

/// Puts the first `count` of the planes together into one image of the
/// given size, a channel from each plane; `None` where that cannot be done.
pub fn combine_channels(planes: &Vec<Raster>, count: usize, width: u32, height: u32) -> (r: Option<Raster>)
    ensures
        r is Some <==> combinable(planes@, count as int, width, height),
        r matches Some(image) ==> image.is_combination_of(planes@, count as int, width, height),
{
    if count < 1 || count > 4 || count > planes.len() {
        return None;
    }
    if sample_count(width, height, count).is_none() {
        return None;
    }
    let mut c: usize = 0;
    while c < count
        invariant
            c <= count <= planes@.len(),
            forall|d: int|
                0 <= d < c ==> {
                    &&& (#[trigger] planes@[d]).wf()
                    &&& planes@[d].channels == 1
                    &&& covers(planes@[d].width, planes@[d].height, width, height)
                },
        decreases count - c,
    {
        let plane = &planes[c];
        let covering = width == 0 || height == 0 || (width <= plane.width && height <= plane.height);
        if !plane.is_well_formed() || plane.channels != 1 || !covering {
            return None;
        }
        c += 1;
    }
    Some(combination_of(planes, count, width, height))
}

/// Puts planes together that can be put together.
fn combination_of(planes: &Vec<Raster>, count: usize, width: u32, height: u32) -> (image: Raster)
    requires
        combinable(planes@, count as int, width, height),
    ensures
        image.is_combination_of(planes@, count as int, width, height),
{
    let mut samples: Vec<u8> = Vec::new();
    let mut y: u32 = 0;
    proof {
        assert(offset(0, offset(0, 0, width as int), count as int) == 0) by (nonlinear_arith);
    }
    while y < height
        invariant
            y <= height,
            combinable(planes@, count as int, width, height),
            samples@.len() == offset(0, offset(0, y as int, width as int), count as int),
            forall|px: int, py: int, pc: int|
                0 <= px < width && 0 <= py < y && 0 <= pc < count ==> samples@[#[trigger] offset(
                    pc,
                    offset(px, py, width as int),
                    count as int,
                )] == planes@[pc].sample(px, py, 0),
        decreases height - y,
    {
        let mut x: u32 = 0;
        while x < width
            invariant
                x <= width,
                y < height,
                combinable(planes@, count as int, width, height),
                samples@.len() == offset(0, offset(x as int, y as int, width as int), count as int),
                forall|px: int, py: int, pc: int|
                    0 <= px < width && (0 <= py < y || (py == y && px < x)) && 0 <= pc < count
                        ==> samples@[#[trigger] offset(pc, offset(px, py, width as int), count as int)]
                        == planes@[pc].sample(px, py, 0),
            decreases width - x,
        {
            let mut c: usize = 0;
            while c < count
                invariant
                    c <= count,
                    x < width,
                    y < height,
                    combinable(planes@, count as int, width, height),
                    samples@.len() == offset(c as int, offset(x as int, y as int, width as int), count as int),
                    forall|px: int, py: int, pc: int|
                        0 <= px < width && 0 <= pc < count && (0 <= py < y || (py == y && (px < x || (px
                            == x && pc < c)))) ==> samples@[#[trigger] offset(
                            pc,
                            offset(px, py, width as int),
                            count as int,
                        )] == planes@[pc].sample(px, py, 0),
                decreases count - c,
            {
                let ghost before = samples@;
                let plane = &planes[c];
                proof {
                    lemma_offset_within(x as int, y as int, plane.width as int, plane.height as int);
                    assert(plane.width * plane.height * 1 == plane.width * plane.height)
                        by (nonlinear_arith);
                    assert(0 <= y * plane.width <= offset(x as int, y as int, plane.width as int))
                        by (nonlinear_arith)
                        requires
                            0 <= x,
                            0 <= y,
                            0 <= plane.width,
                    ;
                    assert(offset(0, offset(x as int, y as int, plane.width as int), 1) == offset(
                        x as int,
                        y as int,
                        plane.width as int,
                    ));
                }
                let value = plane.samples[y as usize * plane.width as usize + x as usize];
                samples.push(value);
                proof {
                    let here = offset(x as int, y as int, width as int);
                    assert forall|px: int, py: int, pc: int|
                        0 <= px < width && 0 <= pc < count && (0 <= py < y || (py == y && (px < x || (px
                            == x && pc < c + 1)))) implies samples@[#[trigger] offset(
                        pc,
                        offset(px, py, width as int),
                        count as int,
                    )] == planes@[pc].sample(px, py, 0) by {
                        let there = offset(px, py, width as int);
                        if py == y && px == x && pc == c {
                        } else {
                            if py == y && px == x {
                            } else {
                                lemma_offset_order(px, py, x as int, y as int, width as int);
                            }
                            assert(0 <= py * width) by (nonlinear_arith)
                                requires
                                    0 <= py,
                                    0 <= width,
                            ;
                            assert(0 <= y * width) by (nonlinear_arith)
                                requires
                                    0 <= y,
                                    0 <= width,
                            ;
                            lemma_offset_order(pc, there, c as int, here, count as int);
                            assert(samples@[offset(pc, there, count as int)] == before[offset(
                                pc,
                                there,
                                count as int,
                            )]);
                        }
                    }
                }
                c += 1;
            }
            proof {
                assert(offset(count as int, offset(x as int, y as int, width as int), count as int)
                    == offset(0, offset(x + 1, y as int, width as int), count as int)) by (nonlinear_arith);
            }
            x += 1;
        }
        proof {
            assert(offset(width as int, y as int, width as int) == offset(0, y + 1, width as int))
                by (nonlinear_arith);
        }
        y += 1;
    }
    proof {
        assert(offset(0, offset(0, height as int, width as int), count as int) == width * height * count)
            by (nonlinear_arith);
    }
    Raster { width, height, channels: count, samples }
}

/// An image taken apart on a canvas of its own size and put together again
/// is the image it was.
pub proof fn law_combining_undoes_separating(source: Raster, planes: Seq<Raster>, image: Raster)
    requires
        source.wf(),
        planes.len() == source.channels,
        forall|c: int|
            0 <= c < source.channels ==> (#[trigger] planes[c]).is_plane_of(
                source,
                c,
                source.width,
                source.height,
            ),
        image.is_combination_of(planes, source.channels as int, source.width, source.height),
    ensures
        image.samples@ == source.samples@,
{
    let width = source.width as int;
    let count = source.channels as int;
    assert forall|i: int| 0 <= i < source.samples@.len() implies image.samples@[i] == source.samples@[i] by {
        let place = i / count;
        let c = i % count;
        let y = place / width;
        let x = place % width;
        assert(i == place * count + c && 0 <= c < count) by (nonlinear_arith)
            requires
                place == i / count,
                c == i % count,
                count > 0,
        ;
        assert(place < source.width * source.height) by (nonlinear_arith)
            requires
                i == place * count + c,
                0 <= c,
                i < source.width * source.height * count,
                count > 0,
        ;
        assert(width > 0) by (nonlinear_arith)
            requires
                0 <= place < width * source.height,
        ;
        assert(place == y * width + x && 0 <= x < width) by (nonlinear_arith)
            requires
                y == place / width,
                x == place % width,
                width > 0,
        ;
        assert(0 <= y < source.height) by (nonlinear_arith)
            requires
                place == y * width + x,
                0 <= x < width,
                0 <= place < width * source.height,
        ;
        assert(image.sample(x, y, c) == planes[c].sample(x, y, 0));
        assert(planes[c].sample(x, y, 0) == source.sample(x, y, c));
        assert(offset(c, offset(x, y, width), count) == i);
    }
    assert(image.samples@ =~= source.samples@);
}

} // verus!
