//! Estimating how the image moves: a pyramid of smaller images, and the work
//! that is recorded over it.

use vstd::prelude::*;

use crate::gpu::{big_endian, div_ceil, little_endian, steps, word_bytes, GROUP_SIZE};
use crate::vk::{
    Extent2D, Handle, DESCRIPTOR_TYPE_COMBINED_IMAGE_SAMPLER, DESCRIPTOR_TYPE_STORAGE_BUFFER,
    DESCRIPTOR_TYPE_STORAGE_IMAGE, FILTER_NEAREST, IMAGE_LAYOUT_GENERAL,
    IMAGE_LAYOUT_SHADER_READ_ONLY_OPTIMAL, SAMPLER_ADDRESS_MODE_CLAMP_TO_EDGE,
};

verus! {

/// How much work goes into the estimate.
#[derive(Debug, Clone, Copy, PartialEq, Eq, Structural)]
pub enum MotionQuality {
    Ultra,
    High,
    Balanced,
    Performance,
}

impl Default for MotionQuality {
    fn default() -> (quality: Self)
        ensures
            quality == MotionQuality::Ultra,
    {
        MotionQuality::Ultra
    }
}

/// How many levels are searched, and how far.
#[derive(Debug, Clone, Copy, PartialEq, Eq, Structural)]
pub struct MotionProfile {
    pub levels: usize,
    pub patch_radius: i32,
    pub coarse_radius: i32,
    pub fine_radius: i32,
}

impl MotionQuality {
    /// The number that the shaders know the quality by.
    pub open spec fn number(self) -> u32 {
        match self {
            MotionQuality::Ultra => 0,
            MotionQuality::High => 1,
            MotionQuality::Balanced => 2,
            MotionQuality::Performance => 3,
        }
    }

    fn index(self) -> (index: u32)
        ensures
            index == self.number(),
    {
        match self {
            MotionQuality::Ultra => 0,
            MotionQuality::High => 1,
            MotionQuality::Balanced => 2,
            MotionQuality::Performance => 3,
        }
    }

    /// The profile of a quality where there are levels enough.
    pub open spec fn full_profile(self) -> MotionProfile {
        match self {
            MotionQuality::Ultra => MotionProfile {
                levels: 4,
                patch_radius: 3,
                coarse_radius: 4,
                fine_radius: 2,
            },
            MotionQuality::High => MotionProfile {
                levels: 4,
                patch_radius: 2,
                coarse_radius: 4,
                fine_radius: 2,
            },
            MotionQuality::Balanced => MotionProfile {
                levels: 3,
                patch_radius: 2,
                coarse_radius: 3,
                fine_radius: 1,
            },
            MotionQuality::Performance => MotionProfile {
                levels: 3,
                patch_radius: 1,
                coarse_radius: 2,
                fine_radius: 1,
            },
        }
    }

    /// The profile with at most the levels that there are.
    pub open spec fn profile_of(self, available_levels: usize) -> MotionProfile {
        let full = self.full_profile();
        MotionProfile {
            levels: if full.levels < available_levels {
                full.levels
            } else {
                available_levels
            },
            ..full
        }
    }

    pub fn profile(self, available_levels: usize) -> (profile: MotionProfile)
        ensures
            profile == self.profile_of(available_levels),
    {
        let full: MotionProfile = match self {
            MotionQuality::Ultra => MotionProfile {
                levels: 4,
                patch_radius: 3,
                coarse_radius: 4,
                fine_radius: 2,
            },
            MotionQuality::High => MotionProfile {
                levels: 4,
                patch_radius: 2,
                coarse_radius: 4,
                fine_radius: 2,
            },
            MotionQuality::Balanced => MotionProfile {
                levels: 3,
                patch_radius: 2,
                coarse_radius: 3,
                fine_radius: 1,
            },
            MotionQuality::Performance => MotionProfile {
                levels: 3,
                patch_radius: 1,
                coarse_radius: 2,
                fine_radius: 1,
            },
        };
        let levels: usize = if full.levels < available_levels {
            full.levels
        } else {
            available_levels
        };
        MotionProfile { levels, ..full }
    }
}

/// A lower quality never does more work.
pub proof fn lower_qualities_do_less(available_levels: usize)
    ensures
        ({
            let ultra = MotionQuality::Ultra.profile_of(available_levels);
            let high = MotionQuality::High.profile_of(available_levels);
            let balanced = MotionQuality::Balanced.profile_of(available_levels);
            let performance = MotionQuality::Performance.profile_of(available_levels);
            &&& performance.levels <= balanced.levels <= high.levels <= ultra.levels
            &&& performance.patch_radius < balanced.patch_radius <= high.patch_radius
                < ultra.patch_radius
            &&& performance.coarse_radius < balanced.coarse_radius < high.coarse_radius
                <= ultra.coarse_radius
            &&& performance.fine_radius <= balanced.fine_radius < high.fine_radius
                <= ultra.fine_radius
        }),
{
}

/// One image of the pyramid: its size, and where its pixels and its vectors
/// begin.
#[derive(Debug, Clone, Copy, PartialEq, Eq, Structural)]
pub struct Level {
    pub width: u32,
    pub height: u32,
    pub offset: u32,
    pub grid_offset: u32,
}

/// The most levels that a pyramid has.
pub const MAX_LEVELS: usize = 4;

/// No level is made of one that is this small in a direction.
pub const SMALLEST_SIDE: u32 = 8;

pub open spec fn half(side: int) -> int {
    (side + 1) / 2
}

/// The side of the first level.
pub open spec fn first_side(side: u32) -> int {
    if side == 0 {
        1
    } else {
        half(side as int)
    }
}

/// A level of this size is the last one.
pub open spec fn ends_pyramid(width: int, height: int, left: nat) -> bool {
    left <= 1 || width <= SMALLEST_SIDE || height <= SMALLEST_SIDE
}

/// The pyramid from a level on: each level is half the one before, and comes
/// right behind it.
pub open spec fn pyramid_from(width: int, height: int, offset: int, grid_offset: int, left: nat) -> Seq<
    Level,
>
    decreases left,
{
    let level = Level {
        width: width as u32,
        height: height as u32,
        offset: offset as u32,
        grid_offset: grid_offset as u32,
    };
    if ends_pyramid(width, height, left) {
        seq![level]
    } else {
        seq![level] + pyramid_from(
            half(width),
            half(height),
            offset + width * height,
            grid_offset + half(width) * half(height),
            (left - 1) as nat,
        )
    }
}

/// How many pixels the pyramid has from a level on.
pub open spec fn pixels_from(width: int, height: int, left: nat) -> int
    decreases left,
{
    if ends_pyramid(width, height, left) {
        width * height
    } else {
        width * height + pixels_from(half(width), half(height), (left - 1) as nat)
    }
}

pub open spec fn pyramid_of(width: u32, height: u32) -> Seq<Level> {
    pyramid_from(first_side(width), first_side(height), 0, 0, MAX_LEVELS as nat)
}

pub open spec fn pixels_of(width: u32, height: u32) -> int {
    pixels_from(first_side(width), first_side(height), MAX_LEVELS as nat)
}

proof fn lemma_pixels_nonnegative(width: int, height: int, left: nat)
    requires
        width >= 1,
        height >= 1,
    ensures
        pixels_from(width, height, left) >= width * height,
        width * height >= 1,
    decreases left,
{
    assert(width * height >= 1) by (nonlinear_arith)
        requires
            width >= 1,
            height >= 1,
    ;
    if !ends_pyramid(width, height, left) {
        lemma_pixels_nonnegative(half(width), half(height), (left - 1) as nat);
    }
}

fn half_side(side: u32) -> (r: u32)
    ensures
        r == half(side as int),
        r == steps(side, 2),
{
    div_ceil(side, 2)
}

/// Whether the pixels of an image's pyramid can be counted.
pub fn pyramid_fits(width: u32, height: u32) -> (fits: bool)
    ensures
        fits == (pixels_of(width, height) <= u32::MAX),
{
    let mut w: u32 = if width == 0 {
        1
    } else {
        half_side(width)
    };
    let mut h: u32 = if height == 0 {
        1
    } else {
        half_side(height)
    };
    let mut count: u64 = 0;
    let mut left: usize = MAX_LEVELS;
    loop
        invariant
            1 <= left <= MAX_LEVELS,
            w >= 1,
            h >= 1,
            count <= u32::MAX,
            count + pixels_from(w as int, h as int, left as nat) == pixels_of(width, height),
        decreases left,
    {
        let ghost wi = w as int;
        let ghost hi = h as int;
        proof {
            lemma_pixels_nonnegative(wi, hi, left as nat);
            assert(wi * hi <= u32::MAX * u32::MAX) by (nonlinear_arith)
                requires
                    1 <= wi <= u32::MAX,
                    1 <= hi <= u32::MAX,
            ;
        }
        count = count + w as u64 * h as u64;
        if left == 1 || w <= SMALLEST_SIDE || h <= SMALLEST_SIDE {
            return count <= u32::MAX as u64;
        }
        let half_w: u32 = half_side(w);
        let half_h: u32 = half_side(h);
        proof {
            lemma_pixels_nonnegative(half(wi), half(hi), (left - 1) as nat);
        }
        if count > u32::MAX as u64 {
            return false;
        }
        w = half_w;
        h = half_h;
        left = left - 1;
    }
}

/// The levels for an image. The pyramid has to be small enough that its pixels
/// can be counted.
pub fn pyramid(width: u32, height: u32) -> (levels: Vec<Level>)
    requires
        pixels_of(width, height) <= u32::MAX,
    ensures
        levels@ == pyramid_of(width, height),
{
    let mut w: u32 = if width == 0 {
        1
    } else {
        half_side(width)
    };
    let mut h: u32 = if height == 0 {
        1
    } else {
        half_side(height)
    };
    let mut offset: u32 = 0;
    let mut grid_offset: u32 = 0;
    let mut left: usize = MAX_LEVELS;
    let mut levels: Vec<Level> = Vec::new();
    assert(levels@ + pyramid_from(w as int, h as int, 0, 0, left as nat) =~= pyramid_of(
        width,
        height,
    ));
    loop
        invariant_except_break
            1 <= left <= MAX_LEVELS,
            w >= 1,
            h >= 1,
            grid_offset <= offset,
            offset + pixels_from(w as int, h as int, left as nat) <= u32::MAX,
            levels@ + pyramid_from(
                w as int,
                h as int,
                offset as int,
                grid_offset as int,
                left as nat,
            ) == pyramid_of(width, height),
        ensures
            levels@ == pyramid_of(width, height),
        decreases left,
    {
        let ghost before = levels@;
        let ghost rest = pyramid_from(
            w as int,
            h as int,
            offset as int,
            grid_offset as int,
            left as nat,
        );
        let half_w: u32 = half_side(w);
        let half_h: u32 = half_side(h);
        let ghost wi = w as int;
        let ghost hi = h as int;
        proof {
            lemma_pixels_nonnegative(wi, hi, left as nat);
            assert(half(wi) * half(hi) <= wi * hi) by (nonlinear_arith)
                requires
                    half(wi) <= wi,
                    half(hi) <= hi,
                    0 <= half(wi),
                    0 <= half(hi),
            ;
            assert(half(wi) * half(hi) >= 0) by (nonlinear_arith)
                requires
                    0 <= half(wi),
                    0 <= half(hi),
            ;
        }
        levels.push(Level { width: w, height: h, offset, grid_offset });
        if left == 1 || w <= SMALLEST_SIDE || h <= SMALLEST_SIDE {
            assert(levels@ =~= before + rest);
            break;
        }
        proof {
            lemma_pixels_nonnegative(half(wi), half(hi), (left - 1) as nat);
        }
        offset = offset + w * h;
        grid_offset = grid_offset + half_w * half_h;
        w = half_w;
        h = half_h;
        left = left - 1;
        assert(levels@ + pyramid_from(
            w as int,
            h as int,
            offset as int,
            grid_offset as int,
            left as nat,
        ) =~= before + rest);
    }
    levels
}

/// What holds of a pyramid from a level on.
proof fn lemma_pyramid(width: int, height: int, offset: int, grid_offset: int, left: nat)
    requires
        1 <= width <= u32::MAX,
        1 <= height <= u32::MAX,
        0 <= grid_offset <= offset,
        left >= 1,
        offset + pixels_from(width, height, left) <= u32::MAX,
    ensures
        ({
            let levels = pyramid_from(width, height, offset, grid_offset, left);
            let last = levels.last();
            &&& 1 <= levels.len() <= left
            &&& levels[0].width == width
            &&& levels[0].height == height
            &&& levels[0].offset == offset
            &&& levels[0].grid_offset == grid_offset
            &&& last.offset + last.width * last.height == offset + pixels_from(
                width,
                height,
                left,
            )
            &&& last.grid_offset <= last.offset
            &&& forall|i: int|
                0 <= i < levels.len() ==> (#[trigger] levels[i]).width >= 1 && levels[i].height
                    >= 1
            &&& forall|i: int|
                0 <= i < levels.len() - 1 ==> follows(#[trigger] levels[i], levels[i + 1])
        }),
    decreases left,
{
    let levels = pyramid_from(width, height, offset, grid_offset, left);
    lemma_pixels_nonnegative(width, height, left);
    if !ends_pyramid(width, height, left) {
        lemma_pixels_nonnegative(half(width), half(height), (left - 1) as nat);
        assert(half(width) * half(height) <= width * height) by (nonlinear_arith)
            requires
                half(width) <= width,
                half(height) <= height,
                0 <= half(width),
                0 <= half(height),
        ;
        let rest = pyramid_from(
            half(width),
            half(height),
            offset + width * height,
            grid_offset + half(width) * half(height),
            (left - 1) as nat,
        );
        assert(half(width) * half(height) >= 0) by (nonlinear_arith)
            requires
                0 <= half(width),
                0 <= half(height),
        ;
        lemma_pyramid(
            half(width),
            half(height),
            offset + width * height,
            grid_offset + half(width) * half(height),
            (left - 1) as nat,
        );
        assert(levels =~= seq![levels[0]] + rest);
        assert(levels.last() == rest.last());
        assert forall|i: int| 0 <= i < levels.len() - 1 implies follows(
            #[trigger] levels[i],
            levels[i + 1],
        ) by {
            if i > 0 {
                assert(levels[i] == rest[i - 1]);
                assert(levels[i + 1] == rest[i]);
                assert(follows(rest[i - 1], rest[i - 1 + 1]));
            } else {
                assert(levels[1] == rest[0]);
            }
        }
        assert forall|i: int| 0 <= i < levels.len() implies (#[trigger] levels[i]).width >= 1
            && levels[i].height >= 1 by {
            if i > 0 {
                assert(levels[i] == rest[i - 1]);
            }
        }
    }
}

/// A level comes right behind another and is half as large.
pub open spec fn follows(level: Level, next: Level) -> bool {
    &&& next.offset == level.offset + level.width * level.height
    &&& next.grid_offset == level.grid_offset + half(level.width as int) * half(
        level.height as int,
    )
    &&& next.width == half(level.width as int)
    &&& next.height == half(level.height as int)
}

/// A pyramid has one to four levels, none of them empty. They lie one behind
/// the other, and no pixel is lost where a side is odd.
pub proof fn levels_are_disjoint(width: u32, height: u32)
    requires
        pixels_of(width, height) <= u32::MAX,
    ensures
        ({
            let levels = pyramid_of(width, height);
            &&& 1 <= levels.len() <= MAX_LEVELS
            &&& levels[0].offset == 0
            &&& levels[0].grid_offset == 0
            &&& forall|i: int|
                0 <= i < levels.len() ==> (#[trigger] levels[i]).width >= 1 && levels[i].height
                    >= 1
            &&& forall|i: int|
                0 <= i < levels.len() - 1 ==> follows(#[trigger] levels[i], levels[i + 1])
        }),
{
    lemma_pyramid(first_side(width), first_side(height), 0, 0, MAX_LEVELS as nat);
}

/// The views that show the estimate itself.
pub fn visualization_needed(mode: u32) -> (needed: bool)
    ensures
        needed == (1 <= mode <= 3),
{
    mode >= 1 && mode <= 3
}

/// An estimate between two frames.
#[derive(Debug, Clone, Copy, PartialEq, Eq, Structural)]
pub struct MotionField {
    pub vectors: Handle,
    pub confidence: Handle,
    pub grid: Extent2D,
    pub original: Extent2D,
    pub previous_id: u64,
    pub current_id: u64,
}

pub const FORMAT_R8_UNORM: i32 = 9;

pub const FORMAT_VISUALIZATION: i32 = 37;

pub const FORMAT_R16G16_SFLOAT: i32 = 83;

/// How many bytes of constants the shaders get: sixteen words.
pub const MOTION_CONSTANTS: u32 = 64;

/// How many bytes of metadata there are: the scene cut in the first half, the
/// exposure in the second.
pub const METADATA_SIZE: u64 = 32;

/// How many sets of bindings there are: one for each of the two frames.
pub const MOTION_SETS: usize = 2;

/// The buffers of an estimator.
#[derive(Debug, Clone, Copy, PartialEq, Eq, Structural)]
pub enum MotionBuffer {
    Luma(usize),
    Forward,
    Backward,
    Metadata,
}

/// The images of an estimator.
#[derive(Debug, Clone, Copy, PartialEq, Eq, Structural)]
pub enum MotionImage {
    Visualization,
    Vectors,
    Confidence,
}

/// How the buffers may be used: copied from and to, and read and written by
/// shaders.
pub const MOTION_BUFFER_USAGE: u32 = 0x23;

/// How the images may be used: copied from and to, sampled and stored into.
pub const MOTION_IMAGE_USAGE: u32 = 0xf;

/// What an estimator is made of. Sizes are in bytes.
#[derive(Debug, Clone, Copy, PartialEq, Eq, Structural)]
pub struct MotionResources {
    pub luma_size: u64,
    pub vector_size: u64,
    pub metadata_size: u64,
    pub extent: Extent2D,
    pub grid: Extent2D,
    pub buffer_usage: u32,
    pub image_usage: u32,
    pub filter: i32,
    pub address_mode: i32,
    pub samplers: u32,
    pub storage_buffers: u32,
    pub storage_images: u32,
}

/// The type of a binding.
pub open spec fn binding_type_of(binding: u32) -> i32 {
    if binding == 0 {
        DESCRIPTOR_TYPE_COMBINED_IMAGE_SAMPLER
    } else if binding <= 5 {
        DESCRIPTOR_TYPE_STORAGE_BUFFER
    } else {
        DESCRIPTOR_TYPE_STORAGE_IMAGE
    }
}

/// How many bindings there are.
pub const MOTION_BINDINGS: u32 = 9;

/// The bindings of the shaders and their types.
pub fn motion_bindings() -> (bindings: Vec<(u32, i32)>)
    ensures
        bindings@ == Seq::new(
            MOTION_BINDINGS as nat,
            |i: int| (i as u32, binding_type_of(i as u32)),
        ),
{
    let mut bindings: Vec<(u32, i32)> = Vec::new();
    let mut binding: u32 = 0;
    while binding < MOTION_BINDINGS
        invariant
            binding <= MOTION_BINDINGS,
            bindings@.len() == binding,
            forall|i: int|
                0 <= i < binding ==> bindings@[i] == (i as u32, binding_type_of(i as u32)),
        decreases MOTION_BINDINGS - binding,
    {
        let descriptor_type: i32 = if binding == 0 {
            DESCRIPTOR_TYPE_COMBINED_IMAGE_SAMPLER
        } else if binding <= 5 {
            DESCRIPTOR_TYPE_STORAGE_BUFFER
        } else {
            DESCRIPTOR_TYPE_STORAGE_IMAGE
        };
        bindings.push((binding, descriptor_type));
        binding = binding + 1;
    }
    assert(bindings@ =~= Seq::new(
        MOTION_BINDINGS as nat,
        |i: int| (i as u32, binding_type_of(i as u32)),
    ));
    bindings
}

/// In every set this binding samples the captured image.
pub const COLOR_BINDING: u32 = 0;

/// The layout in which the captured image is sampled.
pub const COLOR_LAYOUT: i32 = IMAGE_LAYOUT_SHADER_READ_ONLY_OPTIMAL;

/// The layout in which the images of an estimator are written.
pub const STORED_LAYOUT: i32 = IMAGE_LAYOUT_GENERAL;

/// The buffers behind the bindings of a set. What one set writes as the frame,
/// the other reads as the frame before.
pub open spec fn set_buffers_of(set: usize) -> Seq<(u32, MotionBuffer)> {
    let other = (1 - set) as usize;
    seq![
        (1u32, MotionBuffer::Luma(set)),
        (2u32, MotionBuffer::Luma(other)),
        (3u32, MotionBuffer::Forward),
        (4u32, MotionBuffer::Backward),
        (5u32, MotionBuffer::Metadata),
    ]
}

pub fn set_buffers(set: usize) -> (buffers: Vec<(u32, MotionBuffer)>)
    requires
        set < MOTION_SETS,
    ensures
        buffers@ == set_buffers_of(set),
{
    let other: usize = 1 - set;
    let buffers: Vec<(u32, MotionBuffer)> = vec![
        (1, MotionBuffer::Luma(set)),
        (2, MotionBuffer::Luma(other)),
        (3, MotionBuffer::Forward),
        (4, MotionBuffer::Backward),
        (5, MotionBuffer::Metadata),
    ];
    assert(buffers@ =~= set_buffers_of(set));
    buffers
}

/// The images behind the bindings of every set.
pub open spec fn set_images_of() -> Seq<(u32, MotionImage)> {
    seq![
        (6u32, MotionImage::Visualization),
        (7u32, MotionImage::Vectors),
        (8u32, MotionImage::Confidence),
    ]
}

pub fn set_images() -> (images: Vec<(u32, MotionImage)>)
    ensures
        images@ == set_images_of(),
{
    let images: Vec<(u32, MotionImage)> = vec![
        (6, MotionImage::Visualization),
        (7, MotionImage::Vectors),
        (8, MotionImage::Confidence),
    ];
    assert(images@ =~= set_images_of());
    images
}

/// Every binding of a set is filled, and with what its type says. What the one
/// set writes the other reads.
pub proof fn sets_fill_their_bindings(set: usize, at: int)
    requires
        set < MOTION_SETS,
    ensures
        binding_type_of(COLOR_BINDING) == DESCRIPTOR_TYPE_COMBINED_IMAGE_SAMPLER,
        0 <= at < MOTION_BINDINGS ==> at == COLOR_BINDING || (exists|i: int|
            0 <= i < set_buffers_of(set).len() && (#[trigger] set_buffers_of(set)[i]).0 == at) || (
        exists|i: int|
            0 <= i < set_images_of().len() && (#[trigger] set_images_of()[i]).0 == at),
        0 <= at < set_buffers_of(set).len() ==> binding_type_of(set_buffers_of(set)[at].0)
            == DESCRIPTOR_TYPE_STORAGE_BUFFER,
        0 <= at < set_images_of().len() ==> binding_type_of(set_images_of()[at].0)
            == DESCRIPTOR_TYPE_STORAGE_IMAGE,
        set_buffers_of(set)[0].1 == set_buffers_of((1 - set) as usize)[1].1,
{
    if 1 <= at <= 5 {
        assert(set_buffers_of(set)[at - 1].0 == at);
    }
    if 6 <= at < MOTION_BINDINGS {
        assert(set_images_of()[at - 6].0 == at);
    }
}

/// The constants of one run of a shader.
#[derive(Debug, Clone, Copy, PartialEq, Eq, Structural)]
pub struct MotionParams {
    pub level: Level,
    pub parent: Level,
    pub index: u32,
    pub coarsest: bool,
    pub valid: bool,
    pub decode_srgb: bool,
    pub mode: u32,
    /// The bit patterns of two floats.
    pub cut_low: u32,
    pub cut_high: u32,
    /// The quality above the lowest eight bits, and the direction in them.
    pub control: u32,
}

pub open spec fn flag(value: bool) -> u32 {
    if value {
        1
    } else {
        0
    }
}

impl MotionParams {
    /// The sixteen words that the shaders read.
    pub open spec fn word_seq(self) -> Seq<u32> {
        seq![
            self.level.width,
            self.level.height,
            self.level.offset,
            self.level.grid_offset,
            self.parent.width,
            self.parent.height,
            self.parent.offset,
            self.parent.grid_offset,
            self.index,
            flag(self.coarsest),
            flag(self.valid),
            flag(self.decode_srgb),
            self.mode,
            self.cut_low,
            self.cut_high,
            self.control,
        ]
    }

    /// The words as the shaders find them in memory.
    pub fn bytes(self) -> (bytes: Vec<u8>)
        ensures
            bytes@.len() == MOTION_CONSTANTS,
            (forall|i: int|
                0 <= i < 16 ==> little_endian(bytes@, i) == #[trigger] self.word_seq()[i]) || (
            forall|i: int|
                0 <= i < 16 ==> big_endian(bytes@, i) == #[trigger] self.word_seq()[i]),
    {
        let coarsest: u32 = if self.coarsest {
            1
        } else {
            0
        };
        let valid: u32 = if self.valid {
            1
        } else {
            0
        };
        let decode_srgb: u32 = if self.decode_srgb {
            1
        } else {
            0
        };
        let words: Vec<u32> = vec![
            self.level.width,
            self.level.height,
            self.level.offset,
            self.level.grid_offset,
            self.parent.width,
            self.parent.height,
            self.parent.offset,
            self.parent.grid_offset,
            self.index,
            coarsest,
            valid,
            decode_srgb,
            self.mode,
            self.cut_low,
            self.cut_high,
            self.control,
        ];
        assert(words@ =~= self.word_seq());
        word_bytes(words.as_slice())
    }
}

/// The shaders, in the order of their pipelines.
#[derive(Debug, Clone, Copy, PartialEq, Eq, Structural)]
pub enum MotionShader {
    Luma,
    Downsample,
    Flow,
    Confidence,
    Scene,
    Invalidate,
    Visualize,
}

/// One piece of recorded work.
#[derive(Debug, Clone, Copy, PartialEq, Eq, Structural)]
pub enum MotionCommand {
    /// What was written before is waited for.
    MemoryBarrier,
    /// A buffer becomes zero.
    Fill { buffer: MotionBuffer },
    /// An image gets the layout that the shaders use it in.
    Prepare { image: MotionImage },
    BindSet { set: usize },
    /// A shader runs in this many groups, and what it wrote is waited for.
    Dispatch { shader: MotionShader, params: MotionParams, groups_x: u32, groups_y: u32 },
}

/// The bit pattern of one half.
pub const DEFAULT_CUT_LOW: u32 = 0x3f00_0000;

/// The bit pattern of one fifth.
pub const DEFAULT_CUT_HIGH: u32 = 0x3e4c_cccd;

/// An estimator for images of one extent.
#[derive(Debug)]
pub struct MotionEstimator {
    pub levels: Vec<Level>,
    pub extent: Extent2D,
    pub grid: Extent2D,
    pub initialized: bool,
    pub decode_srgb: bool,
    /// The bit patterns of the thresholds of a scene cut.
    pub cut_low: u32,
    pub cut_high: u32,
    pub quality: MotionQuality,
}

impl MotionEstimator {
    pub open spec fn wf(self) -> bool {
        1 <= self.levels@.len() <= MAX_LEVELS
    }

    /// Makes an estimator, and says what it needs. There is one vector and one
    /// confidence for every pixel.
    pub fn new(extent: Extent2D, decode_srgb: bool) -> (made: (Self, MotionResources))
        requires
            pixels_of(extent.width, extent.height) <= u32::MAX,
        ensures
            ({
                let estimator = made.0;
                let resources = made.1;
                let last = pyramid_of(extent.width, extent.height).last();
                &&& estimator.wf()
                &&& estimator.levels@ == pyramid_of(extent.width, extent.height)
                &&& estimator.extent == extent
                &&& estimator.grid == extent
                &&& !estimator.initialized
                &&& estimator.decode_srgb == decode_srgb
                &&& estimator.cut_low == DEFAULT_CUT_LOW
                &&& estimator.cut_high == DEFAULT_CUT_HIGH
                &&& estimator.quality == MotionQuality::Ultra
                &&& resources.luma_size == 4 * pixels_of(extent.width, extent.height)
                &&& resources.vector_size == 16 * (last.grid_offset + half(last.width as int)
                    * half(last.height as int))
                &&& resources.metadata_size == METADATA_SIZE
                &&& resources.extent == extent
                &&& resources.grid == extent
                &&& resources.buffer_usage == MOTION_BUFFER_USAGE
                &&& resources.image_usage == MOTION_IMAGE_USAGE
                &&& resources.filter == FILTER_NEAREST
                &&& resources.address_mode == SAMPLER_ADDRESS_MODE_CLAMP_TO_EDGE
                &&& resources.samplers == MOTION_SETS
                &&& resources.storage_buffers == 5 * MOTION_SETS
                &&& resources.storage_images == 3 * MOTION_SETS
            }),
    {
        let levels: Vec<Level> = pyramid(extent.width, extent.height);
        proof {
            lemma_pyramid(
                first_side(extent.width),
                first_side(extent.height),
                0,
                0,
                MAX_LEVELS as nat,
            );
        }
        let last: Level = levels[levels.len() - 1];
        let half_width: u32 = half_side(last.width);
        let half_height: u32 = half_side(last.height);
        let ghost w = last.width as int;
        let ghost h = last.height as int;
        proof {
            assert(last == levels@.last());
            assert(0 <= w * h) by (nonlinear_arith)
                requires
                    w >= 0,
                    h >= 0,
            ;
            assert(0 <= half(w) * half(h) <= w * h) by (nonlinear_arith)
                requires
                    0 <= half(w) <= w,
                    0 <= half(h) <= h,
            ;
        }
        let pixels: u32 = last.offset + last.width * last.height;
        let vectors: u32 = last.grid_offset + half_width * half_height;
        let resources: MotionResources = MotionResources {
            luma_size: pixels as u64 * 4,
            vector_size: vectors as u64 * 16,
            metadata_size: METADATA_SIZE,
            extent,
            grid: extent,
            buffer_usage: MOTION_BUFFER_USAGE,
            image_usage: MOTION_IMAGE_USAGE,
            filter: FILTER_NEAREST,
            address_mode: SAMPLER_ADDRESS_MODE_CLAMP_TO_EDGE,
            samplers: 2,
            storage_buffers: 10,
            storage_images: 6,
        };
        let estimator: MotionEstimator = MotionEstimator {
            levels,
            extent,
            grid: extent,
            initialized: false,
            decode_srgb,
            cut_low: DEFAULT_CUT_LOW,
            cut_high: DEFAULT_CUT_HIGH,
            quality: MotionQuality::Ultra,
        };
        (estimator, resources)
    }

    pub fn set_quality(&mut self, quality: MotionQuality)
        ensures
            *final(self) == (MotionEstimator { quality, ..*old(self) }),
    {
        self.quality = quality;
    }

    /// The constants for a level and the one that it builds on.
    pub open spec fn params_of(
        self,
        index: int,
        parent: int,
        valid: bool,
        mode: u32,
        active_levels: int,
    ) -> MotionParams {
        MotionParams {
            level: self.levels@[index],
            parent: self.levels@[parent],
            index: index as u32,
            coarsest: index + 1 == active_levels,
            valid,
            decode_srgb: self.decode_srgb,
            mode,
            cut_low: self.cut_low,
            cut_high: self.cut_high,
            control: (0x100 * self.quality.number()) as u32,
        }
    }

    fn params(
        &self,
        index: usize,
        parent: usize,
        valid: bool,
        mode: u32,
        active_levels: usize,
    ) -> (params: MotionParams)
        requires
            self.wf(),
            index < self.levels@.len(),
            parent < self.levels@.len(),
        ensures
            params == self.params_of(
                index as int,
                parent as int,
                valid,
                mode,
                active_levels as int,
            ),
    {
        MotionParams {
            level: self.levels[index],
            parent: self.levels[parent],
            index: index as u32,
            coarsest: index + 1 == active_levels,
            valid,
            decode_srgb: self.decode_srgb,
            mode,
            cut_low: self.cut_low,
            cut_high: self.cut_high,
            control: 0x100 * self.quality.index(),
        }
    }

    pub open spec fn active(self) -> int {
        self.quality.profile_of(self.levels@.len() as usize).levels as int
    }

    pub open spec fn run(shader: MotionShader, params: MotionParams, width: u32, height: u32) -> MotionCommand {
        MotionCommand::Dispatch {
            shader,
            params,
            groups_x: steps(width, GROUP_SIZE),
            groups_y: steps(height, GROUP_SIZE),
        }
    }

    /// Before the first frame the brightness is zero everywhere.
    pub open spec fn preparation(self) -> Seq<MotionCommand> {
        if self.initialized {
            Seq::empty()
        } else {
            seq![
                MotionCommand::Fill { buffer: MotionBuffer::Luma(0) },
                MotionCommand::Fill { buffer: MotionBuffer::Luma(1) },
                MotionCommand::Prepare { image: MotionImage::Visualization },
                MotionCommand::Prepare { image: MotionImage::Vectors },
                MotionCommand::Prepare { image: MotionImage::Confidence },
                MotionCommand::MemoryBarrier,
            ]
        }
    }

    /// The levels are built from the finest on, each from the one before.
    pub open spec fn building(self, valid: bool, mode: u32) -> Seq<MotionCommand> {
        Seq::new(
            self.active() as nat,
            |i: int|
                Self::run(
                    if i == 0 {
                        MotionShader::Luma
                    } else {
                        MotionShader::Downsample
                    },
                    self.params_of(
                        i,
                        if i == 0 {
                            0
                        } else {
                            i - 1
                        },
                        valid,
                        mode,
                        self.active(),
                    ),
                    self.levels@[i].width,
                    self.levels@[i].height,
                ),
        )
    }

    /// The levels are searched from the coarsest on, each from what the one
    /// before it found.
    pub open spec fn searching(self, valid: bool, mode: u32, direction: u32) -> Seq<MotionCommand> {
        let active = self.active();
        Seq::new(
            active as nat,
            |k: int|
                {
                    let i = active - 1 - k;
                    Self::run(
                        MotionShader::Flow,
                        MotionParams {
                            control: (direction + 0x100 * self.quality.number()) as u32,
                            ..self.params_of(
                                i,
                                if i + 1 < active {
                                    i + 1
                                } else {
                                    active - 1
                                },
                                valid,
                                mode,
                                active,
                            )
                        },
                        steps(self.levels@[i].width, 2),
                        steps(self.levels@[i].height, 2),
                    )
                },
        )
    }

    /// What was found is judged, and shown where that was asked for.
    pub open spec fn judging(self, valid: bool, mode: u32) -> Seq<MotionCommand> {
        let active = self.active();
        let finest = self.params_of(0, 0, valid, mode, active);
        let coarsest = self.params_of(active - 1, 0, valid, mode, active);
        let judged = seq![
            Self::run(MotionShader::Confidence, finest, self.grid.width, self.grid.height),
            Self::run(MotionShader::Scene, coarsest, 1, 1),
            Self::run(MotionShader::Invalidate, finest, self.grid.width, self.grid.height),
        ];
        if 1 <= mode <= 3 {
            judged.push(
                Self::run(
                    MotionShader::Visualize,
                    finest,
                    self.extent.width,
                    self.extent.height,
                ),
            )
        } else {
            judged
        }
    }

    /// The recorded work of one frame.
    pub open spec fn frame_commands(self, write: usize, valid: bool, mode: u32) -> Seq<
        MotionCommand,
    > {
        seq![MotionCommand::MemoryBarrier] + self.preparation() + seq![
            MotionCommand::BindSet { set: write },
        ] + self.building(valid, mode) + self.searching(valid, mode, 0) + self.searching(
            valid,
            mode,
            1,
        ) + self.judging(valid, mode)
    }

    fn dispatch(shader: MotionShader, params: MotionParams, width: u32, height: u32) -> (command:
        MotionCommand)
        ensures
            command == Self::run(shader, params, width, height),
    {
        MotionCommand::Dispatch {
            shader,
            params,
            groups_x: div_ceil(width, GROUP_SIZE),
            groups_y: div_ceil(height, GROUP_SIZE),
        }
    }

    fn record_preparation(&self, commands: &mut Vec<MotionCommand>)
        ensures
            final(commands)@ == old(commands)@ + self.preparation(),
    {
        if !self.initialized {
            commands.push(MotionCommand::Fill { buffer: MotionBuffer::Luma(0) });
            commands.push(MotionCommand::Fill { buffer: MotionBuffer::Luma(1) });
            commands.push(MotionCommand::Prepare { image: MotionImage::Visualization });
            commands.push(MotionCommand::Prepare { image: MotionImage::Vectors });
            commands.push(MotionCommand::Prepare { image: MotionImage::Confidence });
            commands.push(MotionCommand::MemoryBarrier);
        }
        assert(commands@ =~= old(commands)@ + self.preparation());
    }

    fn record_building(
        &self,
        commands: &mut Vec<MotionCommand>,
        active: usize,
        valid: bool,
        mode: u32,
    )
        requires
            self.wf(),
            active == self.active(),
        ensures
            final(commands)@ == old(commands)@ + self.building(valid, mode),
    {
        let ghost before = commands@;
        let mut i: usize = 0;
        while i < active
            invariant
                self.wf(),
                active == self.active(),
                active <= self.levels@.len(),
                i <= active,
                commands@ == before + self.building(valid, mode).take(i as int),
            decreases active - i,
        {
            let (shader, parent): (MotionShader, usize) = if i == 0 {
                (MotionShader::Luma, 0)
            } else {
                (MotionShader::Downsample, i - 1)
            };
            commands.push(
                Self::dispatch(
                    shader,
                    self.params(i, parent, valid, mode, active),
                    self.levels[i].width,
                    self.levels[i].height,
                ),
            );
            assert(commands@ =~= before + self.building(valid, mode).take(i + 1));
            i = i + 1;
        }
        assert(self.building(valid, mode).take(i as int) =~= self.building(valid, mode));
    }

    fn record_searching(
        &self,
        commands: &mut Vec<MotionCommand>,
        active: usize,
        valid: bool,
        mode: u32,
        direction: u32,
    )
        requires
            self.wf(),
            active == self.active(),
            direction < 2,
        ensures
            final(commands)@ == old(commands)@ + self.searching(valid, mode, direction),
    {
        let ghost before = commands@;
        let mut done: usize = 0;
        while done < active
            invariant
                self.wf(),
                active == self.active(),
                active <= self.levels@.len(),
                direction < 2,
                done <= active,
                commands@ == before + self.searching(valid, mode, direction).take(done as int),
            decreases active - done,
        {
            let i: usize = active - 1 - done;
            let parent: usize = if i + 1 < active {
                i + 1
            } else {
                active - 1
            };
            let mut params: MotionParams = self.params(i, parent, valid, mode, active);
            params.control = direction + 0x100 * self.quality.index();
            let width: u32 = div_ceil(self.levels[i].width, 2);
            let height: u32 = div_ceil(self.levels[i].height, 2);
            commands.push(Self::dispatch(MotionShader::Flow, params, width, height));
            assert(commands@ =~= before + self.searching(valid, mode, direction).take(done + 1));
            done = done + 1;
        }
        assert(self.searching(valid, mode, direction).take(done as int) =~= self.searching(
            valid,
            mode,
            direction,
        ));
    }

    fn record_judging(
        &self,
        commands: &mut Vec<MotionCommand>,
        active: usize,
        valid: bool,
        mode: u32,
    )
        requires
            self.wf(),
            active == self.active(),
        ensures
            final(commands)@ == old(commands)@ + self.judging(valid, mode),
    {
        let finest: MotionParams = self.params(0, 0, valid, mode, active);
        let coarsest: MotionParams = self.params(active - 1, 0, valid, mode, active);
        commands.push(
            Self::dispatch(MotionShader::Confidence, finest, self.grid.width, self.grid.height),
        );
        commands.push(Self::dispatch(MotionShader::Scene, coarsest, 1, 1));
        commands.push(
            Self::dispatch(MotionShader::Invalidate, finest, self.grid.width, self.grid.height),
        );
        if visualization_needed(mode) {
            commands.push(
                Self::dispatch(
                    MotionShader::Visualize,
                    finest,
                    self.extent.width,
                    self.extent.height,
                ),
            );
        }
        assert(commands@ =~= old(commands)@ + self.judging(valid, mode));
    }

    /// Records the work of one frame, whose brightness goes into buffer
    /// `write`.
    pub fn record(&mut self, write: usize, valid: bool, mode: u32) -> (commands: Vec<MotionCommand>)
        requires
            old(self).wf(),
            write < MOTION_SETS,
        ensures
            final(self).wf(),
            commands@ == old(self).frame_commands(write, valid, mode),
            *final(self) == (MotionEstimator { initialized: true, ..*old(self) }),
    {
        let mut commands: Vec<MotionCommand> = Vec::new();
        commands.push(MotionCommand::MemoryBarrier);
        assert(commands@ =~= seq![MotionCommand::MemoryBarrier]);
        self.record_preparation(&mut commands);
        let ghost prepared = commands@;
        commands.push(MotionCommand::BindSet { set: write });
        assert(commands@ =~= prepared + seq![MotionCommand::BindSet { set: write }]);
        let active: usize = self.quality.profile(self.levels.len()).levels;
        self.record_building(&mut commands, active, valid, mode);
        self.record_searching(&mut commands, active, valid, mode, 0);
        self.record_searching(&mut commands, active, valid, mode, 1);
        self.record_judging(&mut commands, active, valid, mode);
        self.initialized = true;
        commands
    }
}

/// Each level is searched in both directions, the coarsest first, and the
/// finest last.
pub proof fn the_search_goes_from_coarse_to_fine(
    estimator: MotionEstimator,
    valid: bool,
    mode: u32,
    direction: u32,
)
    requires
        estimator.wf(),
    ensures
        ({
            let search = estimator.searching(valid, mode, direction);
            &&& search.len() == estimator.active()
            &&& 1 <= estimator.active() <= estimator.levels@.len()
            &&& search[0] matches MotionCommand::Dispatch { params, .. }
            &&& params.coarsest
            &&& search.last() matches MotionCommand::Dispatch { params: finest, .. }
            &&& finest.index == 0
        }),
{
}

/// How many levels a quality works on, of those that there are.
pub open spec fn levels_at_work(quality: MotionQuality, available: nat) -> int {
    let wanted: int = match quality {
        MotionQuality::Ultra | MotionQuality::High => 4,
        MotionQuality::Balanced | MotionQuality::Performance => 3,
    };
    if wanted < available {
        wanted
    } else {
        available as int
    }
}

/// A dispatch has just enough groups of eight by eight for an image.
pub open spec fn groups_cover(groups_x: u32, groups_y: u32, width: int, height: int) -> bool {
    &&& 8 * groups_x - 8 < width <= 8 * groups_x
    &&& 8 * groups_y - 8 < height <= 8 * groups_y
}

proof fn lemma_groups(width: u32, height: u32)
    ensures
        groups_cover(
            steps(width, GROUP_SIZE),
            steps(height, GROUP_SIZE),
            width as int,
            height as int,
        ),
        steps(width, 2) == half(width as int),
        steps(height, 2) == half(height as int),
{
    if width > 0 {
        crate::gpu::steps_cover(width, GROUP_SIZE);
    }
    if height > 0 {
        crate::gpu::steps_cover(height, GROUP_SIZE);
    }
}

/// Where the pieces of a frame's work lie.
#[verifier::spinoff_prover]
proof fn lemma_pieces(estimator: MotionEstimator, write: usize, valid: bool, mode: u32, at: int)
    requires
        estimator.wf(),
    ensures
        ({
            let commands = estimator.frame_commands(write, valid, mode);
            let prepared = estimator.preparation();
            let active = estimator.active();
            let start = prepared.len() + 2;
            let judging = estimator.judging(valid, mode);
            &&& active == levels_at_work(estimator.quality, estimator.levels@.len())
            &&& 1 <= active <= estimator.levels@.len()
            &&& commands.len() == start + 3 * active + judging.len()
            &&& commands[0] == MotionCommand::MemoryBarrier
            &&& commands[start - 1] == (MotionCommand::BindSet { set: write })
            &&& 0 <= at < prepared.len() ==> commands[1 + at] == prepared[at]
            &&& 0 <= at < active ==> {
                &&& commands[start + at] == estimator.building(valid, mode)[at]
                &&& commands[start + active + at] == estimator.searching(valid, mode, 0)[at]
                &&& commands[start + 2 * active + at] == estimator.searching(valid, mode, 1)[at]
            }
            &&& 0 <= at < judging.len() ==> commands[start + 3 * active + at] == judging[at]
        }),
{
    let prepared = estimator.preparation();
    let building = estimator.building(valid, mode);
    let forward = estimator.searching(valid, mode, 0);
    let backward = estimator.searching(valid, mode, 1);
    let judging = estimator.judging(valid, mode);
    let barrier = seq![MotionCommand::MemoryBarrier];
    let bind = seq![MotionCommand::BindSet { set: write }];
    let one = barrier + prepared;
    let two = one + bind;
    let three = two + building;
    let four = three + forward;
    let five = four + backward;
    assert(estimator.frame_commands(write, valid, mode) == five + judging);
    assert(building.len() == estimator.active());
    assert(forward.len() == estimator.active());
    assert(backward.len() == estimator.active());
}

/// A command that searches a level in a direction.
pub open spec fn searches(command: MotionCommand, level: int, direction: int) -> bool {
    &&& command matches MotionCommand::Dispatch { shader, params, .. }
    &&& shader == MotionShader::Flow
    &&& params.index == level
    &&& params.control as int % 256 == direction
}

/// What one step of a search is.
proof fn lemma_search(
    estimator: MotionEstimator,
    valid: bool,
    mode: u32,
    direction: u32,
    k: int,
)
    requires
        estimator.wf(),
        0 <= k < estimator.active(),
        direction <= 1,
    ensures
        ({
            let active = estimator.active();
            let level = active - 1 - k;
            &&& estimator.searching(valid, mode, direction)[k] matches MotionCommand::Dispatch {
                shader,
                params,
                groups_x,
                groups_y,
            }
            &&& shader == MotionShader::Flow
            &&& params.index == level
            &&& params.level == estimator.levels@[level]
            &&& params.parent == estimator.levels@[if level + 1 < active {
                level + 1
            } else {
                level
            }]
            &&& params.coarsest == (level + 1 == active)
            &&& params.control as int % 256 == direction
            &&& params.control as int / 256 == match estimator.quality {
                MotionQuality::Ultra => 0int,
                MotionQuality::High => 1int,
                MotionQuality::Balanced => 2int,
                MotionQuality::Performance => 3int,
            }
            &&& params.valid == valid
            &&& params.mode == mode
            &&& params.decode_srgb == estimator.decode_srgb
            &&& params.cut_low == estimator.cut_low
            &&& params.cut_high == estimator.cut_high
            &&& groups_cover(
                groups_x,
                groups_y,
                (estimator.levels@[level].width as int + 1) / 2,
                (estimator.levels@[level].height as int + 1) / 2,
            )
        }),
{
    let level = estimator.active() - 1 - k;
    let width = estimator.levels@[level].width;
    let height = estimator.levels@[level].height;
    lemma_groups(width, height);
    lemma_groups(steps(width, 2), steps(height, 2));
}

#[verifier::spinoff_prover]
proof fn lemma_searched_once(
    estimator: MotionEstimator,
    write: usize,
    valid: bool,
    mode: u32,
    level: int,
    direction: int,
    at: int,
)
    requires
        estimator.wf(),
        0 <= level < estimator.active(),
        0 <= direction <= 1,
        0 <= at < estimator.frame_commands(write, valid, mode).len(),
        searches(estimator.frame_commands(write, valid, mode)[at], level, direction),
    ensures
        at == estimator.preparation().len() + 2 + (1 + direction) * estimator.active() + (
        estimator.active() - 1 - level),
{
    let commands = estimator.frame_commands(write, valid, mode);
    let active = estimator.active();
    let start = estimator.preparation().len() + 2;
    lemma_pieces(estimator, write, valid, mode, 0);
    assert(direction == 0 ==> (1 + direction) * active == active);
    assert(direction == 1 ==> (1 + direction) * active == 2 * active);
    if at < start {
        lemma_pieces(estimator, write, valid, mode, at - 1);
    } else if at < start + active {
        lemma_pieces(estimator, write, valid, mode, at - start);
    } else if at < start + 2 * active {
        lemma_pieces(estimator, write, valid, mode, at - start - active);
        lemma_search(estimator, valid, mode, 0, at - start - active);
    } else if at < start + 3 * active {
        lemma_pieces(estimator, write, valid, mode, at - start - 2 * active);
        lemma_search(estimator, valid, mode, 1, at - start - 2 * active);
    } else {
        lemma_pieces(estimator, write, valid, mode, at - start - 3 * active);
    }
}

/// The work of a frame is recorded in order: the brightness of the finest level,
/// each coarser level from the one before it, the search forward and then the
/// search backward from the coarsest level down, and at last the judgement.
/// Every active level is searched once in either direction; the direction
/// stands in the lowest eight bits of the control, the quality above them.
pub proof fn every_level_is_searched_once_in_either_direction(
    estimator: MotionEstimator,
    write: usize,
    valid: bool,
    mode: u32,
    level: int,
    direction: int,
    at: int,
)
    requires
        estimator.wf(),
        0 <= level < levels_at_work(estimator.quality, estimator.levels@.len()),
        0 <= direction <= 1,
    ensures
        ({
            let commands = estimator.frame_commands(write, valid, mode);
            let active = levels_at_work(estimator.quality, estimator.levels@.len());
            let start: int = if estimator.initialized {
                2
            } else {
                8
            };
            let place = start + active + direction * active + (active - 1 - level);
            &&& 0 <= place < commands.len()
            &&& commands[place] matches MotionCommand::Dispatch {
                shader,
                params,
                groups_x,
                groups_y,
            }
            &&& shader == MotionShader::Flow
            &&& params.index == level
            &&& params.level == estimator.levels@[level]
            &&& params.parent == estimator.levels@[if level + 1 < active {
                level + 1
            } else {
                level
            }]
            &&& params.coarsest == (level + 1 == active)
            &&& params.control as int % 256 == direction
            &&& params.control as int / 256 == match estimator.quality {
                MotionQuality::Ultra => 0int,
                MotionQuality::High => 1int,
                MotionQuality::Balanced => 2int,
                MotionQuality::Performance => 3int,
            }
            &&& params.valid == valid
            &&& params.mode == mode
            &&& params.decode_srgb == estimator.decode_srgb
            &&& params.cut_low == estimator.cut_low
            &&& params.cut_high == estimator.cut_high
            &&& groups_cover(
                groups_x,
                groups_y,
                (estimator.levels@[level].width as int + 1) / 2,
                (estimator.levels@[level].height as int + 1) / 2,
            )
            &&& 0 <= at < commands.len() && at != place ==> !searches(commands[at], level, direction)
        }),
{
    let active = estimator.active();
    let k = active - 1 - level;
    lemma_pieces(estimator, write, valid, mode, k);
    lemma_search(estimator, valid, mode, direction as u32, k);
    assert(direction == 0 ==> direction * active == 0);
    assert(direction == 1 ==> direction * active == active);
    if 0 <= at < estimator.frame_commands(write, valid, mode).len() && searches(
        estimator.frame_commands(write, valid, mode)[at],
        level,
        direction,
    ) {
        lemma_searched_once(estimator, write, valid, mode, level, direction, at);
    }
}

/// Before the search, the levels are built from the captured image on: the
/// finest from the image, each other one from the next finer one. Before the
/// very first frame what is read of a frame before is cleared.
pub proof fn levels_are_built_from_the_finest_on(
    estimator: MotionEstimator,
    write: usize,
    valid: bool,
    mode: u32,
    level: int,
)
    requires
        estimator.wf(),
        0 <= level < levels_at_work(estimator.quality, estimator.levels@.len()),
    ensures
        ({
            let commands = estimator.frame_commands(write, valid, mode);
            let start: int = if estimator.initialized {
                2
            } else {
                8
            };
            &&& commands[0] is MemoryBarrier
            &&& !estimator.initialized ==> {
                &&& commands[1] == (MotionCommand::Fill { buffer: MotionBuffer::Luma(0) })
                &&& commands[2] == (MotionCommand::Fill { buffer: MotionBuffer::Luma(1) })
                &&& commands[3] == (MotionCommand::Prepare { image: MotionImage::Visualization })
                &&& commands[4] == (MotionCommand::Prepare { image: MotionImage::Vectors })
                &&& commands[5] == (MotionCommand::Prepare { image: MotionImage::Confidence })
                &&& commands[6] is MemoryBarrier
            }
            &&& commands[start - 1] == (MotionCommand::BindSet { set: write })
            &&& commands[start + level] matches MotionCommand::Dispatch {
                shader,
                params,
                groups_x,
                groups_y,
            }
            &&& shader == (if level == 0 {
                MotionShader::Luma
            } else {
                MotionShader::Downsample
            })
            &&& params.index == level
            &&& params.level == estimator.levels@[level]
            &&& level > 0 ==> params.parent == estimator.levels@[level - 1]
            &&& params.valid == valid
            &&& params.mode == mode
            &&& params.decode_srgb == estimator.decode_srgb
            &&& groups_cover(
                groups_x,
                groups_y,
                estimator.levels@[level].width as int,
                estimator.levels@[level].height as int,
            )
        }),
{
    let prepared = estimator.preparation();
    lemma_pieces(estimator, write, valid, mode, level);
    lemma_groups(estimator.levels@[level].width, estimator.levels@[level].height);
    if !estimator.initialized {
        lemma_pieces(estimator, write, valid, mode, 0);
        lemma_pieces(estimator, write, valid, mode, 1);
        lemma_pieces(estimator, write, valid, mode, 2);
        lemma_pieces(estimator, write, valid, mode, 3);
        lemma_pieces(estimator, write, valid, mode, 4);
        lemma_pieces(estimator, write, valid, mode, 5);
    }
}

/// After the search every vector gets its confidence, the scene is compared on
/// the coarsest level that was searched, and what a cut made worthless is
/// dropped. The estimate is shown for the views of it alone.
pub proof fn what_was_found_is_judged(
    estimator: MotionEstimator,
    write: usize,
    valid: bool,
    mode: u32,
)
    requires
        estimator.wf(),
    ensures
        ({
            let commands = estimator.frame_commands(write, valid, mode);
            let active = levels_at_work(estimator.quality, estimator.levels@.len());
            let start: int = if estimator.initialized {
                2
            } else {
                8
            };
            let judged = start + 3 * active;
            let grid = estimator.grid;
            &&& commands.len() == judged + (if 1 <= mode <= 3 {
                4int
            } else {
                3int
            })
            &&& commands[judged] is Dispatch
            &&& commands[judged]->shader == MotionShader::Confidence
            &&& commands[judged]->params.index == 0
            &&& commands[judged]->params.level == estimator.levels@[0]
            &&& groups_cover(
                commands[judged]->groups_x,
                commands[judged]->groups_y,
                grid.width as int,
                grid.height as int,
            )
            &&& commands[judged + 1] is Dispatch
            &&& commands[judged + 1]->shader == MotionShader::Scene
            &&& commands[judged + 1]->params.index == active - 1
            &&& commands[judged + 1]->params.level == estimator.levels@[active - 1]
            &&& commands[judged + 1]->params.cut_low == estimator.cut_low
            &&& commands[judged + 1]->params.cut_high == estimator.cut_high
            &&& commands[judged + 1]->groups_x == 1
            &&& commands[judged + 1]->groups_y == 1
            &&& commands[judged + 2] is Dispatch
            &&& commands[judged + 2]->shader == MotionShader::Invalidate
            &&& groups_cover(
                commands[judged + 2]->groups_x,
                commands[judged + 2]->groups_y,
                grid.width as int,
                grid.height as int,
            )
            &&& 1 <= mode <= 3 ==> {
                &&& commands[judged + 3] is Dispatch
                &&& commands[judged + 3]->shader == MotionShader::Visualize
                &&& commands[judged + 3]->params.mode == mode
                &&& groups_cover(
                    commands[judged + 3]->groups_x,
                    commands[judged + 3]->groups_y,
                    estimator.extent.width as int,
                    estimator.extent.height as int,
                )
            }
        }),
{
    lemma_pieces(estimator, write, valid, mode, 0);
    lemma_pieces(estimator, write, valid, mode, 1);
    lemma_pieces(estimator, write, valid, mode, 2);
    lemma_pieces(estimator, write, valid, mode, 3);
    lemma_groups(estimator.grid.width, estimator.grid.height);
    lemma_groups(estimator.extent.width, estimator.extent.height);
    lemma_groups(1, 1);
}

/// The first level of a pyramid has half the sides of the image, rounded up, and
/// every further level half the sides of the one before. Levels are made until
/// there are four of them, or one is eight pixels or less in a direction. The
/// pixels of all levels lie one behind the other.
pub proof fn a_pyramid_halves_the_image(width: u32, height: u32, at: int)
    requires
        pixels_of(width, height) <= u32::MAX,
    ensures
        ({
            let levels = pyramid_of(width, height);
            let last = levels.last();
            &&& width > 0 ==> 2 * levels[0].width - 1 <= width <= 2 * levels[0].width
            &&& height > 0 ==> 2 * levels[0].height - 1 <= height <= 2 * levels[0].height
            &&& width == 0 ==> levels[0].width == 1
            &&& height == 0 ==> levels[0].height == 1
            &&& 1 <= levels.len() <= 4
            &&& levels.len() < 4 ==> last.width <= 8 || last.height <= 8
            &&& 0 <= at < levels.len() - 1 ==> {
                &&& levels[at].width > 8
                &&& levels[at].height > 8
                &&& 2 * levels[at + 1].width - 1 <= levels[at].width <= 2 * levels[at + 1].width
                &&& 2 * levels[at + 1].height - 1 <= levels[at].height <= 2 * levels[at + 1].height
                &&& levels[at + 1].offset == levels[at].offset + levels[at].width
                    * levels[at].height
            }
            &&& pixels_of(width, height) == last.offset + last.width * last.height
        }),
{
    levels_are_disjoint(width, height);
    lemma_pyramid(first_side(width), first_side(height), 0, 0, MAX_LEVELS as nat);
    lemma_pyramid_ends(first_side(width), first_side(height), 0, 0, MAX_LEVELS as nat, at);
    if 0 <= at < pyramid_of(width, height).len() - 1 {
        assert(follows(pyramid_of(width, height)[at], pyramid_of(width, height)[at + 1]));
    }
}

proof fn lemma_pyramid_ends(
    width: int,
    height: int,
    offset: int,
    grid_offset: int,
    left: nat,
    at: int,
)
    requires
        1 <= width <= u32::MAX,
        1 <= height <= u32::MAX,
        0 <= grid_offset <= offset,
        left >= 1,
        offset + pixels_from(width, height, left) <= u32::MAX,
    ensures
        ({
            let levels = pyramid_from(width, height, offset, grid_offset, left);
            let last = levels.last();
            &&& 1 <= levels.len() <= left
            &&& levels.len() < left ==> last.width <= 8 || last.height <= 8
            &&& 0 <= at < levels.len() - 1 ==> levels[at].width > 8 && levels[at].height > 8
        }),
    decreases left,
{
    let levels = pyramid_from(width, height, offset, grid_offset, left);
    lemma_pixels_nonnegative(width, height, left);
    if !ends_pyramid(width, height, left) {
        lemma_pixels_nonnegative(half(width), half(height), (left - 1) as nat);
        assert(0 <= half(width) * half(height) <= width * height) by (nonlinear_arith)
            requires
                0 <= half(width) <= width,
                0 <= half(height) <= height,
        ;
        let rest = pyramid_from(
            half(width),
            half(height),
            offset + width * height,
            grid_offset + half(width) * half(height),
            (left - 1) as nat,
        );
        lemma_pyramid_ends(
            half(width),
            half(height),
            offset + width * height,
            grid_offset + half(width) * half(height),
            (left - 1) as nat,
            at - 1,
        );
        assert(levels.last() == rest.last());
        if 0 < at < levels.len() {
            assert(levels[at] == rest[at - 1]);
        }
    }
}

/// The work of each quality: how many levels it searches, how far it looks around
/// a pixel, and how far it searches on the coarsest level and on the others.
pub proof fn qualities_do_their_work(available: usize)
    requires
        available >= 4,
    ensures
        MotionQuality::Ultra.profile_of(available) == (MotionProfile {
            levels: 4,
            patch_radius: 3,
            coarse_radius: 4,
            fine_radius: 2,
        }),
        MotionQuality::High.profile_of(available) == (MotionProfile {
            levels: 4,
            patch_radius: 2,
            coarse_radius: 4,
            fine_radius: 2,
        }),
        MotionQuality::Balanced.profile_of(available) == (MotionProfile {
            levels: 3,
            patch_radius: 2,
            coarse_radius: 3,
            fine_radius: 1,
        }),
        MotionQuality::Performance.profile_of(available) == (MotionProfile {
            levels: 3,
            patch_radius: 1,
            coarse_radius: 2,
            fine_radius: 1,
        }),
{
}

/// The constants of a shader stand in sixteen words: the level, the one that it
/// builds on, and then what else the shader asks for.
pub proof fn constants_stand_in_their_words(params: MotionParams)
    ensures
        ({
            let words = params.word_seq();
            &&& words.len() == 16
            &&& words[0] == params.level.width
            &&& words[1] == params.level.height
            &&& words[2] == params.level.offset
            &&& words[3] == params.level.grid_offset
            &&& words[4] == params.parent.width
            &&& words[5] == params.parent.height
            &&& words[6] == params.parent.offset
            &&& words[7] == params.parent.grid_offset
            &&& words[8] == params.index
            &&& (words[9] == 1) == params.coarsest && words[9] <= 1
            &&& (words[10] == 1) == params.valid && words[10] <= 1
            &&& (words[11] == 1) == params.decode_srgb && words[11] <= 1
            &&& words[12] == params.mode
            &&& words[13] == params.cut_low
            &&& words[14] == params.cut_high
            &&& words[15] == params.control
        }),
{
}

/// The shaders know each quality by its own number, from the finest on.
pub proof fn each_quality_has_its_number(quality: MotionQuality, other: MotionQuality)
    ensures
        quality.number() < 4,
        quality.number() == other.number() <==> quality == other,
        MotionQuality::Ultra.number() == 0,
        MotionQuality::High.number() == 1,
        MotionQuality::Balanced.number() == 2,
{
}

} // verus!
