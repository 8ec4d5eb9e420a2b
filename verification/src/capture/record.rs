//! The resources and the recorded work of a capture.

use vstd::prelude::*;

use super::{requires_scaling, JitterOffset, JitterSample};
use crate::config::{FloatBits, ONE_BITS};
use crate::gpu::{big_endian, div_ceil, little_endian, steps, word_bytes, GROUP_SIZE};
use crate::vk::{
    Extent2D, Handle, Offset2D, DESCRIPTOR_TYPE_COMBINED_IMAGE_SAMPLER, DESCRIPTOR_TYPE_STORAGE_IMAGE,
    FILTER_LINEAR, IMAGE_LAYOUT_COLOR_ATTACHMENT_OPTIMAL, IMAGE_LAYOUT_GENERAL, IMAGE_LAYOUT_PRESENT_SRC_KHR,
    IMAGE_LAYOUT_SHADER_READ_ONLY_OPTIMAL, IMAGE_LAYOUT_TRANSFER_DST_OPTIMAL,
    IMAGE_LAYOUT_TRANSFER_SRC_OPTIMAL, IMAGE_LAYOUT_UNDEFINED, SAMPLER_ADDRESS_MODE_CLAMP_TO_EDGE,
};

verus! {

/// A captured image and when it was taken, in nanoseconds.
#[derive(Debug, Clone, Copy, PartialEq, Eq, Structural)]
pub struct CapturedFrame {
    pub image: Handle,
    pub view: Handle,
    pub format: i32,
    pub extent: Extent2D,
    pub frame_id: u64,
    pub timestamp: u64,
    pub generation: u64,
}

/// The images that a capture works on.
#[derive(Debug, Clone, Copy, PartialEq, Eq, Structural)]
pub enum CaptureImage {
    /// The game's image.
    Source,
    /// The captured image.
    Color,
    /// The image captured before.
    Previous,
    /// The game's image in the extent of the capture, to be sampled anew.
    ResampleSource,
}

/// A colour, each part of it the bit pattern of a 32-bit float.
#[derive(Debug, Clone, Copy, PartialEq, Eq, Structural)]
pub struct ClearColor {
    pub red: FloatBits,
    pub green: FloatBits,
    pub blue: FloatBits,
    pub alpha: FloatBits,
}

impl ClearColor {
    pub open spec fn opaque_black() -> ClearColor {
        ClearColor { red: 0, green: 0, blue: 0, alpha: ONE_BITS }
    }
}

/// One piece of recorded work.
#[derive(Debug, Clone, Copy, PartialEq, Eq, Structural)]
pub enum CaptureCommand {
    /// The image goes from one layout to another.
    Barrier { image: CaptureImage, old_layout: i32, new_layout: i32 },
    Copy { from: CaptureImage, to: CaptureImage, extent: Extent2D },
    /// A scaled copy between two rectangles from the origin to these corners.
    Blit {
        from: CaptureImage,
        to: CaptureImage,
        from_corner: Offset2D,
        to_corner: Offset2D,
        filter: i32,
    },
    /// The whole image gets one colour.
    Clear { image: CaptureImage, color: ClearColor },
    /// The resampling shader runs in this many groups, and what it wrote is
    /// waited for.
    Resample { offset: JitterOffset, groups_x: u32, groups_y: u32 },
}

/// A binding of the resampling shader: its type, the image behind it, and the
/// layout that the image has when the shader runs.
#[derive(Debug, Clone, Copy, PartialEq, Eq, Structural)]
pub struct CaptureBinding {
    pub binding: u32,
    pub descriptor_type: i32,
    pub image: CaptureImage,
    pub layout: i32,
}

/// The resampling shader samples the game's image in the extent of the capture,
/// and writes the captured image.
pub open spec fn capture_bindings() -> Seq<CaptureBinding> {
    seq![
        CaptureBinding {
            binding: 0,
            descriptor_type: DESCRIPTOR_TYPE_COMBINED_IMAGE_SAMPLER,
            image: CaptureImage::ResampleSource,
            layout: IMAGE_LAYOUT_SHADER_READ_ONLY_OPTIMAL,
        },
        CaptureBinding {
            binding: 1,
            descriptor_type: DESCRIPTOR_TYPE_STORAGE_IMAGE,
            image: CaptureImage::Color,
            layout: IMAGE_LAYOUT_GENERAL,
        },
    ]
}

/// How the images of a capture may be used: copied from and to, sampled and
/// stored into.
pub const CAPTURE_USAGE: u32 = 0xf;

/// How many bytes of constants the resampling shader gets.
pub const CAPTURE_CONSTANTS: u32 = 16;

/// What a capture is made of.
#[derive(Debug)]
pub struct CaptureResources {
    pub image_count: usize,
    pub image_usage: u32,
    pub extent: Extent2D,
    pub format: i32,
    pub bindings: Vec<CaptureBinding>,
    pub filter: i32,
    pub address_mode: i32,
    pub constant_size: u32,
}

/// A capture of images of one extent.
#[derive(Debug, Clone, Copy, PartialEq, Eq, Structural)]
pub struct Capture {
    pub extent: Extent2D,
    pub format: i32,
    pub initialized: bool,
    pub resample_source_initialized: bool,
}

pub open spec fn barrier(image: CaptureImage, from: i32, to: i32) -> CaptureCommand {
    CaptureCommand::Barrier { image, old_layout: from, new_layout: to }
}

/// The layout of an image between two frames.
pub open spec fn resting_layout(initialized: bool) -> i32 {
    if initialized {
        IMAGE_LAYOUT_SHADER_READ_ONLY_OPTIMAL
    } else {
        IMAGE_LAYOUT_UNDEFINED
    }
}

/// The captured image becomes the one before; at first that is opaque black.
pub open spec fn keep_previous(capture: Capture) -> Seq<CaptureCommand> {
    if capture.initialized {
        seq![
            barrier(
                CaptureImage::Color,
                IMAGE_LAYOUT_SHADER_READ_ONLY_OPTIMAL,
                IMAGE_LAYOUT_TRANSFER_SRC_OPTIMAL,
            ),
            barrier(
                CaptureImage::Previous,
                IMAGE_LAYOUT_SHADER_READ_ONLY_OPTIMAL,
                IMAGE_LAYOUT_TRANSFER_DST_OPTIMAL,
            ),
            CaptureCommand::Copy {
                from: CaptureImage::Color,
                to: CaptureImage::Previous,
                extent: capture.extent,
            },
            barrier(
                CaptureImage::Color,
                IMAGE_LAYOUT_TRANSFER_SRC_OPTIMAL,
                IMAGE_LAYOUT_SHADER_READ_ONLY_OPTIMAL,
            ),
            barrier(
                CaptureImage::Previous,
                IMAGE_LAYOUT_TRANSFER_DST_OPTIMAL,
                IMAGE_LAYOUT_SHADER_READ_ONLY_OPTIMAL,
            ),
        ]
    } else {
        seq![
            barrier(
                CaptureImage::Previous,
                IMAGE_LAYOUT_UNDEFINED,
                IMAGE_LAYOUT_TRANSFER_DST_OPTIMAL,
            ),
            CaptureCommand::Clear { image: CaptureImage::Previous, color: ClearColor::opaque_black() },
            barrier(
                CaptureImage::Previous,
                IMAGE_LAYOUT_TRANSFER_DST_OPTIMAL,
                IMAGE_LAYOUT_SHADER_READ_ONLY_OPTIMAL,
            ),
        ]
    }
}

/// The corner across from the origin. The coordinates are signed.
pub open spec fn corner(extent: Extent2D) -> Offset2D {
    Offset2D { x: extent.width as i32, y: extent.height as i32 }
}

fn far_corner(extent: Extent2D) -> (far: Offset2D)
    ensures
        far == corner(extent),
{
    Offset2D {
        x: #[verifier::truncate]
        (extent.width as i32),
        y: #[verifier::truncate]
        (extent.height as i32),
    }
}

/// The game's image goes into another, scaled with the linear filter where the
/// extents differ.
pub open spec fn transfer(capture: Capture, source_extent: Extent2D, to: CaptureImage) -> CaptureCommand {
    if source_extent != capture.extent {
        CaptureCommand::Blit {
            from: CaptureImage::Source,
            to,
            from_corner: corner(source_extent),
            to_corner: corner(capture.extent),
            filter: FILTER_LINEAR,
        }
    } else {
        CaptureCommand::Copy { from: CaptureImage::Source, to, extent: capture.extent }
    }
}

/// The game's image is taken as it is.
pub open spec fn take_plain(
    capture: Capture,
    source_extent: Extent2D,
    layout: i32,
    final_layout: i32,
) -> Seq<CaptureCommand> {
    seq![
        barrier(CaptureImage::Source, layout, IMAGE_LAYOUT_TRANSFER_SRC_OPTIMAL),
        barrier(
            CaptureImage::Color,
            resting_layout(capture.initialized),
            IMAGE_LAYOUT_TRANSFER_DST_OPTIMAL,
        ),
        transfer(capture, source_extent, CaptureImage::Color),
        barrier(
            CaptureImage::Color,
            IMAGE_LAYOUT_TRANSFER_DST_OPTIMAL,
            IMAGE_LAYOUT_SHADER_READ_ONLY_OPTIMAL,
        ),
        barrier(CaptureImage::Source, IMAGE_LAYOUT_TRANSFER_SRC_OPTIMAL, final_layout),
    ]
}

/// The game's image is sampled anew at places off the centres.
pub open spec fn take_resampled(
    capture: Capture,
    source_extent: Extent2D,
    layout: i32,
    final_layout: i32,
    offset: JitterOffset,
) -> Seq<CaptureCommand> {
    seq![
        barrier(CaptureImage::Source, layout, IMAGE_LAYOUT_TRANSFER_SRC_OPTIMAL),
        barrier(
            CaptureImage::ResampleSource,
            resting_layout(capture.resample_source_initialized),
            IMAGE_LAYOUT_TRANSFER_DST_OPTIMAL,
        ),
        transfer(capture, source_extent, CaptureImage::ResampleSource),
        barrier(
            CaptureImage::ResampleSource,
            IMAGE_LAYOUT_TRANSFER_DST_OPTIMAL,
            IMAGE_LAYOUT_SHADER_READ_ONLY_OPTIMAL,
        ),
        barrier(CaptureImage::Source, IMAGE_LAYOUT_TRANSFER_SRC_OPTIMAL, final_layout),
        barrier(
            CaptureImage::Color,
            resting_layout(capture.initialized),
            IMAGE_LAYOUT_GENERAL,
        ),
        CaptureCommand::Resample {
            offset,
            groups_x: steps(capture.extent.width, GROUP_SIZE),
            groups_y: steps(capture.extent.height, GROUP_SIZE),
        },
        barrier(
            CaptureImage::Color,
            IMAGE_LAYOUT_GENERAL,
            IMAGE_LAYOUT_SHADER_READ_ONLY_OPTIMAL,
        ),
    ]
}

/// The recorded work of one frame.
pub open spec fn frame_commands(
    capture: Capture,
    source_extent: Extent2D,
    layout: i32,
    final_layout: i32,
    jitter: JitterSample,
) -> Seq<CaptureCommand> {
    keep_previous(capture) + if jitter.estimated {
        take_resampled(capture, source_extent, layout, final_layout, jitter.current)
    } else {
        take_plain(capture, source_extent, layout, final_layout)
    }
}

/// The capture after a frame.
pub open spec fn recorded(capture: Capture, jitter: JitterSample) -> Capture {
    Capture {
        initialized: true,
        resample_source_initialized: capture.resample_source_initialized || jitter.estimated,
        ..capture
    }
}

fn push_barrier(commands: &mut Vec<CaptureCommand>, image: CaptureImage, from: i32, to: i32)
    ensures
        final(commands)@ == old(commands)@.push(barrier(image, from, to)),
{
    commands.push(CaptureCommand::Barrier { image, old_layout: from, new_layout: to });
}

impl Capture {
    /// A capture that holds nothing yet, and what it is made of.
    pub fn new(extent: Extent2D, format: i32) -> (made: (Self, CaptureResources))
        ensures
            made.0 == (Capture {
                extent,
                format,
                initialized: false,
                resample_source_initialized: false,
            }),
            made.1.image_count == 3,
            made.1.image_usage == CAPTURE_USAGE,
            made.1.extent == extent,
            made.1.format == format,
            made.1.bindings@ == capture_bindings(),
            made.1.filter == FILTER_LINEAR,
            made.1.address_mode == SAMPLER_ADDRESS_MODE_CLAMP_TO_EDGE,
            made.1.constant_size == CAPTURE_CONSTANTS,
    {
        let bindings: Vec<CaptureBinding> = vec![
            CaptureBinding {
                binding: 0,
                descriptor_type: DESCRIPTOR_TYPE_COMBINED_IMAGE_SAMPLER,
                image: CaptureImage::ResampleSource,
                layout: IMAGE_LAYOUT_SHADER_READ_ONLY_OPTIMAL,
            },
            CaptureBinding {
                binding: 1,
                descriptor_type: DESCRIPTOR_TYPE_STORAGE_IMAGE,
                image: CaptureImage::Color,
                layout: IMAGE_LAYOUT_GENERAL,
            },
        ];
        assert(bindings@ =~= capture_bindings());
        let resources: CaptureResources = CaptureResources {
            image_count: 3,
            image_usage: CAPTURE_USAGE,
            extent,
            format,
            bindings,
            filter: FILTER_LINEAR,
            address_mode: SAMPLER_ADDRESS_MODE_CLAMP_TO_EDGE,
            constant_size: CAPTURE_CONSTANTS,
        };
        let capture: Capture = Capture {
            extent,
            format,
            initialized: false,
            resample_source_initialized: false,
        };
        (capture, resources)
    }

    /// Captures an image that is about to be presented.
    pub fn record(&mut self) -> (commands: Vec<CaptureCommand>)
        ensures
            commands@ == frame_commands(
                *old(self),
                old(self).extent,
                IMAGE_LAYOUT_PRESENT_SRC_KHR,
                IMAGE_LAYOUT_COLOR_ATTACHMENT_OPTIMAL,
                JitterSample::none(),
            ),
            *final(self) == recorded(*old(self), JitterSample::none()),
    {
        self.record_from(IMAGE_LAYOUT_PRESENT_SRC_KHR)
    }

    /// Captures an image of the capture's own extent.
    pub fn record_from(&mut self, layout: i32) -> (commands: Vec<CaptureCommand>)
        ensures
            commands@ == frame_commands(
                *old(self),
                old(self).extent,
                layout,
                IMAGE_LAYOUT_COLOR_ATTACHMENT_OPTIMAL,
                JitterSample::none(),
            ),
            *final(self) == recorded(*old(self), JitterSample::none()),
    {
        let extent: Extent2D = self.extent;
        self.record_scaled_from(extent, layout, IMAGE_LAYOUT_COLOR_ATTACHMENT_OPTIMAL)
    }

    /// Captures an image of another extent, without jitter.
    pub fn record_scaled_from(
        &mut self,
        source_extent: Extent2D,
        layout: i32,
        final_layout: i32,
    ) -> (commands: Vec<CaptureCommand>)
        ensures
            commands@ == frame_commands(
                *old(self),
                source_extent,
                layout,
                final_layout,
                JitterSample::none(),
            ),
            *final(self) == recorded(*old(self), JitterSample::none()),
    {
        self.record_scaled_from_with_jitter(
            source_extent,
            layout,
            final_layout,
            JitterSample::default(),
        )
    }

    fn transfer_command(&self, source_extent: Extent2D, to: CaptureImage) -> (command:
        CaptureCommand)
        ensures
            command == transfer(*self, source_extent, to),
    {
        if requires_scaling(source_extent, self.extent) {
            CaptureCommand::Blit {
                from: CaptureImage::Source,
                to,
                from_corner: far_corner(source_extent),
                to_corner: far_corner(self.extent),
                filter: FILTER_LINEAR,
            }
        } else {
            CaptureCommand::Copy { from: CaptureImage::Source, to, extent: self.extent }
        }
    }

    fn record_previous(&self, commands: &mut Vec<CaptureCommand>)
        requires
            old(commands)@.len() == 0,
        ensures
            final(commands)@ == keep_previous(*self),
    {
        if self.initialized {
            push_barrier(
                commands,
                CaptureImage::Color,
                IMAGE_LAYOUT_SHADER_READ_ONLY_OPTIMAL,
                IMAGE_LAYOUT_TRANSFER_SRC_OPTIMAL,
            );
            push_barrier(
                commands,
                CaptureImage::Previous,
                IMAGE_LAYOUT_SHADER_READ_ONLY_OPTIMAL,
                IMAGE_LAYOUT_TRANSFER_DST_OPTIMAL,
            );
            commands.push(
                CaptureCommand::Copy {
                    from: CaptureImage::Color,
                    to: CaptureImage::Previous,
                    extent: self.extent,
                },
            );
            push_barrier(
                commands,
                CaptureImage::Color,
                IMAGE_LAYOUT_TRANSFER_SRC_OPTIMAL,
                IMAGE_LAYOUT_SHADER_READ_ONLY_OPTIMAL,
            );
        } else {
            push_barrier(
                commands,
                CaptureImage::Previous,
                IMAGE_LAYOUT_UNDEFINED,
                IMAGE_LAYOUT_TRANSFER_DST_OPTIMAL,
            );
            let color = ClearColor { red: 0, green: 0, blue: 0, alpha: ONE_BITS };
            commands.push(CaptureCommand::Clear { image: CaptureImage::Previous, color });
        }
        push_barrier(
            commands,
            CaptureImage::Previous,
            IMAGE_LAYOUT_TRANSFER_DST_OPTIMAL,
            IMAGE_LAYOUT_SHADER_READ_ONLY_OPTIMAL,
        );
        assert(commands@ =~= keep_previous(*self));
    }

    /// Captures an image of another extent. With jitter it is sampled anew, at
    /// places off the centres of the pixels.
    pub fn record_scaled_from_with_jitter(
        &mut self,
        source_extent: Extent2D,
        layout: i32,
        final_layout: i32,
        jitter: JitterSample,
    ) -> (commands: Vec<CaptureCommand>)
        ensures
            commands@ == frame_commands(*old(self), source_extent, layout, final_layout, jitter),
            *final(self) == recorded(*old(self), jitter),
    {
        let ghost capture = *self;
        let mut commands: Vec<CaptureCommand> = Vec::new();
        self.record_previous(&mut commands);
        let color: i32 = if self.initialized {
            IMAGE_LAYOUT_SHADER_READ_ONLY_OPTIMAL
        } else {
            IMAGE_LAYOUT_UNDEFINED
        };
        push_barrier(
            &mut commands,
            CaptureImage::Source,
            layout,
            IMAGE_LAYOUT_TRANSFER_SRC_OPTIMAL,
        );
        if jitter.estimated {
            let resample: i32 = if self.resample_source_initialized {
                IMAGE_LAYOUT_SHADER_READ_ONLY_OPTIMAL
            } else {
                IMAGE_LAYOUT_UNDEFINED
            };
            push_barrier(
                &mut commands,
                CaptureImage::ResampleSource,
                resample,
                IMAGE_LAYOUT_TRANSFER_DST_OPTIMAL,
            );
            commands.push(self.transfer_command(source_extent, CaptureImage::ResampleSource));
            push_barrier(
                &mut commands,
                CaptureImage::ResampleSource,
                IMAGE_LAYOUT_TRANSFER_DST_OPTIMAL,
                IMAGE_LAYOUT_SHADER_READ_ONLY_OPTIMAL,
            );
            push_barrier(
                &mut commands,
                CaptureImage::Source,
                IMAGE_LAYOUT_TRANSFER_SRC_OPTIMAL,
                final_layout,
            );
            push_barrier(&mut commands, CaptureImage::Color, color, IMAGE_LAYOUT_GENERAL);
            commands.push(
                CaptureCommand::Resample {
                    offset: jitter.current,
                    groups_x: div_ceil(self.extent.width, GROUP_SIZE),
                    groups_y: div_ceil(self.extent.height, GROUP_SIZE),
                },
            );
            push_barrier(
                &mut commands,
                CaptureImage::Color,
                IMAGE_LAYOUT_GENERAL,
                IMAGE_LAYOUT_SHADER_READ_ONLY_OPTIMAL,
            );
            self.resample_source_initialized = true;
        } else {
            push_barrier(
                &mut commands,
                CaptureImage::Color,
                color,
                IMAGE_LAYOUT_TRANSFER_DST_OPTIMAL,
            );
            commands.push(self.transfer_command(source_extent, CaptureImage::Color));
            push_barrier(
                &mut commands,
                CaptureImage::Color,
                IMAGE_LAYOUT_TRANSFER_DST_OPTIMAL,
                IMAGE_LAYOUT_SHADER_READ_ONLY_OPTIMAL,
            );
            push_barrier(
                &mut commands,
                CaptureImage::Source,
                IMAGE_LAYOUT_TRANSFER_SRC_OPTIMAL,
                final_layout,
            );
        }
        self.initialized = true;
        assert(commands@ =~= frame_commands(
            capture,
            source_extent,
            layout,
            final_layout,
            jitter,
        ));
        commands
    }

    /// The constants of the resampling shader: the extent, and the offset in
    /// the bit patterns of two floats.
    pub fn resample_constants(&self, x_bits: u32, y_bits: u32) -> (bytes: Vec<u8>)
        ensures
            bytes@.len() == CAPTURE_CONSTANTS,
            ({
                let words = seq![self.extent.width, self.extent.height, x_bits, y_bits];
                (forall|i: int| 0 <= i < 4 ==> little_endian(bytes@, i) == #[trigger] words[i]) || (
                forall|i: int| 0 <= i < 4 ==> big_endian(bytes@, i) == #[trigger] words[i])
            }),
    {
        let words: Vec<u32> = vec![self.extent.width, self.extent.height, x_bits, y_bits];
        assert(words@ =~= seq![self.extent.width, self.extent.height, x_bits, y_bits]);
        word_bytes(words.as_slice())
    }
}

/// The layouts that the images are in.
pub struct Layouts {
    pub source: i32,
    pub color: i32,
    pub previous: i32,
    pub resample_source: i32,
}

impl Layouts {
    pub open spec fn of(self, image: CaptureImage) -> i32 {
        match image {
            CaptureImage::Source => self.source,
            CaptureImage::Color => self.color,
            CaptureImage::Previous => self.previous,
            CaptureImage::ResampleSource => self.resample_source,
        }
    }

    pub open spec fn with(self, image: CaptureImage, layout: i32) -> Layouts {
        match image {
            CaptureImage::Source => Layouts { source: layout, ..self },
            CaptureImage::Color => Layouts { color: layout, ..self },
            CaptureImage::Previous => Layouts { previous: layout, ..self },
            CaptureImage::ResampleSource => Layouts { resample_source: layout, ..self },
        }
    }

    /// The layouts after one piece of work, if it finds its images in the
    /// layouts that it needs.
    pub open spec fn after(self, command: CaptureCommand) -> Option<Layouts> {
        match command {
            CaptureCommand::Barrier { image, old_layout, new_layout } => if self.of(image)
                == old_layout {
                Some(self.with(image, new_layout))
            } else {
                None
            },
            CaptureCommand::Copy { from, to, .. } => if self.of(from)
                == IMAGE_LAYOUT_TRANSFER_SRC_OPTIMAL && self.of(to)
                == IMAGE_LAYOUT_TRANSFER_DST_OPTIMAL {
                Some(self)
            } else {
                None
            },
            CaptureCommand::Blit { from, to, .. } => if self.of(from)
                == IMAGE_LAYOUT_TRANSFER_SRC_OPTIMAL && self.of(to)
                == IMAGE_LAYOUT_TRANSFER_DST_OPTIMAL {
                Some(self)
            } else {
                None
            },
            CaptureCommand::Clear { image, .. } => if self.of(image)
                == IMAGE_LAYOUT_TRANSFER_DST_OPTIMAL {
                Some(self)
            } else {
                None
            },
            CaptureCommand::Resample { .. } => if self.resample_source
                == IMAGE_LAYOUT_SHADER_READ_ONLY_OPTIMAL && self.color == IMAGE_LAYOUT_GENERAL {
                Some(self)
            } else {
                None
            },
        }
    }

    /// The layouts after recorded work.
    pub open spec fn after_all(self, commands: Seq<CaptureCommand>) -> Option<Layouts>
        decreases commands.len(),
    {
        if commands.len() == 0 {
            Some(self)
        } else {
            match self.after_all(commands.drop_last()) {
                Some(layouts) => layouts.after(commands.last()),
                None => None,
            }
        }
    }
}

/// The layouts before a frame.
pub open spec fn layouts_before(capture: Capture, layout: i32) -> Layouts {
    Layouts {
        source: layout,
        color: resting_layout(capture.initialized),
        previous: resting_layout(capture.initialized),
        resample_source: resting_layout(capture.resample_source_initialized),
    }
}

proof fn lemma_one_more(start: Layouts, commands: Seq<CaptureCommand>, at: int)
    requires
        0 <= at < commands.len(),
        start.after_all(commands.take(at)) is Some,
    ensures
        start.after_all(commands.take(at + 1)) == start.after_all(
            commands.take(at),
        ).unwrap().after(commands[at]),
{
    assert(commands.take(at + 1).drop_last() =~= commands.take(at));
}

/// Every piece of a frame's work finds its images in the layouts that it
/// needs. After the frame the game's image is in the layout that was asked
/// for, and the others are as the next frame expects them.
pub proof fn recorded_work_keeps_the_layouts(
    capture: Capture,
    source_extent: Extent2D,
    layout: i32,
    final_layout: i32,
    jitter: JitterSample,
)
    ensures
        layouts_before(capture, layout).after_all(
            frame_commands(capture, source_extent, layout, final_layout, jitter),
        ) == Some(layouts_before(recorded(capture, jitter), final_layout)),
{
    let start = layouts_before(capture, layout);
    let commands = frame_commands(capture, source_extent, layout, final_layout, jitter);
    assert(start.after_all(commands.take(0)) == Some(start));
    let first = keep_previous(capture).len() as int;
    lemma_one_more(start, commands, 0);
    lemma_one_more(start, commands, 1);
    lemma_one_more(start, commands, 2);
    if capture.initialized {
        lemma_one_more(start, commands, 3);
        lemma_one_more(start, commands, 4);
    }
    lemma_one_more(start, commands, first);
    lemma_one_more(start, commands, first + 1);
    lemma_one_more(start, commands, first + 2);
    lemma_one_more(start, commands, first + 3);
    lemma_one_more(start, commands, first + 4);
    if jitter.estimated {
        lemma_one_more(start, commands, first + 5);
        lemma_one_more(start, commands, first + 6);
        lemma_one_more(start, commands, first + 7);
    }
    assert(commands.take(commands.len() as int) =~= commands);
}

/// The resampling shader can run exactly where every image behind its bindings
/// has the layout of its binding.
pub proof fn resampling_needs_the_layouts_of_its_bindings(layouts: Layouts, command: CaptureCommand)
    requires
        command is Resample,
    ensures
        layouts.after(command) is Some <==> forall|i: int|
            0 <= i < capture_bindings().len() ==> layouts.of(
                (#[trigger] capture_bindings()[i]).image,
            ) == capture_bindings()[i].layout,
{
    let bindings = capture_bindings();
    assert(bindings[0].image == CaptureImage::ResampleSource);
    assert(bindings[1].image == CaptureImage::Color);
}

/// Without jitter the resampling shader never runs.
pub proof fn no_jitter_means_no_resampling(
    capture: Capture,
    source_extent: Extent2D,
    layout: i32,
    final_layout: i32,
    jitter: JitterSample,
    at: int,
)
    requires
        !jitter.estimated,
        0 <= at < frame_commands(capture, source_extent, layout, final_layout, jitter).len(),
    ensures
        !(frame_commands(capture, source_extent, layout, final_layout, jitter)[at] is Resample),
        recorded(capture, jitter).resample_source_initialized
            == capture.resample_source_initialized,
{
}

/// A command that moves pixels out of an image.
pub open spec fn reads_from(command: CaptureCommand, image: CaptureImage) -> bool {
    match command {
        CaptureCommand::Copy { from, .. } => from == image,
        CaptureCommand::Blit { from, .. } => from == image,
        _ => false,
    }
}

/// A frame takes the whole of the game's image, and takes it once: where its
/// extent is that of the capture it is copied, else it is scaled with the
/// linear filter, from corner to corner. Without jitter it goes into the
/// captured image, with jitter into the copy that is sampled anew.
pub proof fn the_whole_source_is_taken_once(
    capture: Capture,
    source_extent: Extent2D,
    layout: i32,
    final_layout: i32,
    jitter: JitterSample,
    at: int,
)
    ensures
        ({
            let commands = frame_commands(capture, source_extent, layout, final_layout, jitter);
            let place: int = if capture.initialized {
                7
            } else {
                5
            };
            let goal = if jitter.estimated {
                CaptureImage::ResampleSource
            } else {
                CaptureImage::Color
            };
            &&& place < commands.len()
            &&& if source_extent.width == capture.extent.width && source_extent.height
                == capture.extent.height {
                commands[place] == (CaptureCommand::Copy {
                    from: CaptureImage::Source,
                    to: goal,
                    extent: source_extent,
                })
            } else {
                &&& commands[place] matches CaptureCommand::Blit {
                    from,
                    to,
                    from_corner,
                    to_corner,
                    filter,
                }
                &&& from == CaptureImage::Source
                &&& to == goal
                &&& from_corner.x == source_extent.width as i32
                &&& from_corner.y == source_extent.height as i32
                &&& to_corner.x == capture.extent.width as i32
                &&& to_corner.y == capture.extent.height as i32
                &&& filter == 1
            }
            &&& 0 <= at < commands.len() && at != place ==> !reads_from(
                commands[at],
                CaptureImage::Source,
            )
        }),
{
    let before = keep_previous(capture);
    let commands = frame_commands(capture, source_extent, layout, final_layout, jitter);
    let taken = if jitter.estimated {
        take_resampled(capture, source_extent, layout, final_layout, jitter.current)
    } else {
        take_plain(capture, source_extent, layout, final_layout)
    };
    assert(commands[before.len() as int + 2] == taken[2]);
    if 0 <= at < before.len() {
        assert(commands[at] == before[at]);
    } else if before.len() <= at < commands.len() {
        assert(commands[at] == taken[at - before.len()]);
    }
}

/// What was captured last becomes the frame before, whole, and before anything
/// new is captured; the first frame has opaque black before it.
pub proof fn the_frame_before_is_kept(
    capture: Capture,
    source_extent: Extent2D,
    layout: i32,
    final_layout: i32,
    jitter: JitterSample,
    at: int,
)
    ensures
        ({
            let commands = frame_commands(capture, source_extent, layout, final_layout, jitter);
            let place: int = if capture.initialized {
                2
            } else {
                1
            };
            &&& place < commands.len()
            &&& if capture.initialized {
                commands[place] == (CaptureCommand::Copy {
                    from: CaptureImage::Color,
                    to: CaptureImage::Previous,
                    extent: capture.extent,
                })
            } else {
                commands[place] == (CaptureCommand::Clear {
                    image: CaptureImage::Previous,
                    color: ClearColor { red: 0, green: 0, blue: 0, alpha: 0x3f80_0000 },
                })
            }
            &&& 0 <= at <= place ==> !(commands[at] matches CaptureCommand::Copy {
                to: CaptureImage::Color,
                ..
            }) && !(commands[at] matches CaptureCommand::Blit { to: CaptureImage::Color, .. })
                && !(commands[at] is Resample)
        }),
        ({
            let after = recorded(capture, jitter);
            &&& after.initialized
            &&& after.extent == capture.extent
            &&& after.format == capture.format
            &&& after.resample_source_initialized == (capture.resample_source_initialized
                || jitter.estimated)
        }),
{
    let before = keep_previous(capture);
    let commands = frame_commands(capture, source_extent, layout, final_layout, jitter);
    assert(commands[1] == before[1]);
    assert(commands[2] == before[2]);
    if 0 <= at < before.len() {
        assert(commands[at] == before[at]);
    }
}

/// With jitter the copy is sampled at the offset of the sample, in just enough
/// groups for the extent of the capture, and only after the copy was made.
pub proof fn jitter_is_sampled_at_its_offset(
    capture: Capture,
    source_extent: Extent2D,
    layout: i32,
    final_layout: i32,
    jitter: JitterSample,
)
    requires
        jitter.estimated,
        capture.extent.width > 0,
        capture.extent.height > 0,
    ensures
        ({
            let commands = frame_commands(capture, source_extent, layout, final_layout, jitter);
            let place: int = if capture.initialized {
                11
            } else {
                9
            };
            &&& place < commands.len()
            &&& commands[place] matches CaptureCommand::Resample { offset, groups_x, groups_y }
            &&& offset == jitter.current
            &&& 8 * groups_x - 8 < capture.extent.width <= 8 * groups_x
            &&& 8 * groups_y - 8 < capture.extent.height <= 8 * groups_y
        }),
{
    let before = keep_previous(capture);
    let commands = frame_commands(capture, source_extent, layout, final_layout, jitter);
    let taken = take_resampled(capture, source_extent, layout, final_layout, jitter.current);
    assert(commands[before.len() as int + 6] == taken[6]);
    crate::gpu::steps_cover(capture.extent.width, GROUP_SIZE);
    crate::gpu::steps_cover(capture.extent.height, GROUP_SIZE);
}

/// The shader that resamples reads the game's image and writes the captured one,
/// each at a binding of its own and in the layout that its commands leave it in.
pub proof fn a_capture_binds_what_it_reads_and_writes()
    ensures
        capture_bindings().len() == 2,
        capture_bindings()[0].binding == 0,
        capture_bindings()[0].image is ResampleSource,
        capture_bindings()[0].descriptor_type == 1,
        capture_bindings()[0].layout == 5,
        capture_bindings()[1].binding == 1,
        capture_bindings()[1].image is Color,
        capture_bindings()[1].descriptor_type == 3,
        capture_bindings()[1].layout == 1,
{
}

} // verus!
