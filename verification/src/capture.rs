//! Taking the game's image.

use vstd::prelude::*;

use crate::config::JitterMode;
use crate::vk::Extent2D;

pub mod record;

verus! {

pub const COLOR_SPACE_SRGB_NONLINEAR: i32 = 0;

pub const FORMAT_R8G8B8A8_UNORM: i32 = 37;

pub const FORMAT_R8G8B8A8_SRGB: i32 = 43;

pub const FORMAT_B8G8R8A8_UNORM: i32 = 44;

pub const FORMAT_B8G8R8A8_SRGB: i32 = 50;

pub const FORMAT_R16G16B16A16_SFLOAT: i32 = 97;

/// The formats that can be captured, in the one color space that is known.
pub open spec fn capturable(format: i32, space: i32) -> bool {
    space == COLOR_SPACE_SRGB_NONLINEAR && (format == FORMAT_R8G8B8A8_UNORM || format
        == FORMAT_B8G8R8A8_UNORM || format == FORMAT_R8G8B8A8_SRGB || format
        == FORMAT_B8G8R8A8_SRGB || format == FORMAT_R16G16B16A16_SFLOAT)
}

pub fn supported_format(format: i32, space: i32) -> (supported: bool)
    ensures
        supported == capturable(format, space),
{
    space == COLOR_SPACE_SRGB_NONLINEAR && (format == FORMAT_R8G8B8A8_UNORM || format
        == FORMAT_B8G8R8A8_UNORM || format == FORMAT_R8G8B8A8_SRGB || format
        == FORMAT_B8G8R8A8_SRGB || format == FORMAT_R16G16B16A16_SFLOAT)
}

pub fn requires_scaling(source: Extent2D, destination: Extent2D) -> (scaling: bool)
    ensures
        scaling == (source != destination),
{
    source != destination
}

/// How many samples a sequence of jitter has before it starts again.
pub const JITTER_PHASES: u32 = 8;

/// A place within a pixel, off its centre: eighths of a pixel across, and
/// eighteenths of a pixel down.
#[derive(Debug, Clone, Copy, PartialEq, Eq, Structural)]
pub struct JitterOffset {
    pub x_eighths: i32,
    pub y_eighteenths: i32,
}

impl JitterOffset {
    pub open spec fn centre() -> JitterOffset {
        JitterOffset { x_eighths: 0, y_eighteenths: 0 }
    }

    /// The same distance on the other side of the centre.
    pub open spec fn mirrored(self) -> JitterOffset {
        JitterOffset {
            x_eighths: (-self.x_eighths) as i32,
            y_eighteenths: (-self.y_eighteenths) as i32,
        }
    }
}

/// The digits of an index in a base, read backwards behind the point: a
/// numerator and a denominator. The last digit weighs most, and what is left
/// of the index comes behind it.
pub open spec fn radical_inverse(index: nat, base: nat) -> (nat, nat)
    decreases index,
{
    if index == 0 || base < 2 {
        (0, 1)
    } else {
        proof {
            assert(index / base < index) by (nonlinear_arith)
                requires
                    index > 0,
                    base >= 2,
            ;
        }
        let (numerator, denominator) = radical_inverse(index / base, base);
        ((index % base) * denominator + numerator, denominator * base)
    }
}

proof fn lemma_inverse_step(index: nat, base: nat)
    requires
        index > 0,
        base >= 2,
    ensures
        ({
            let (numerator, denominator) = radical_inverse(index / base, base);
            radical_inverse(index, base) == (
                (index % base) * denominator + numerator,
                denominator * base,
            )
        }),
{
}

/// One element of a Halton sequence as a fraction.
pub fn halton(index: u32, base: u32) -> (fraction: (u64, u64))
    requires
        base >= 2,
    ensures
        (fraction.0 as nat, fraction.1 as nat) == radical_inverse(index as nat, base as nat),
{
    let mut numerator: u64 = 0;
    let mut denominator: u64 = 1;
    let mut left: u32 = index;
    while left != 0
        invariant
            base >= 2,
            left <= index,
            denominator >= 1,
            numerator < denominator,
            denominator * left <= index,
            ({
                let (rest_numerator, rest_denominator) = radical_inverse(
                    left as nat,
                    base as nat,
                );
                radical_inverse(index as nat, base as nat) == (
                    (numerator * rest_denominator + rest_numerator) as nat,
                    (denominator * rest_denominator) as nat,
                )
            }),
        decreases left,
    {
        let digit: u32 = left % base;
        let rest: u32 = left / base;
        let ghost b = base as int;
        let ghost n = numerator as int;
        let ghost d = denominator as int;
        proof {
            lemma_inverse_step(left as nat, base as nat);
            let (q, w) = radical_inverse(rest as nat, base as nat);
            let qi = q as int;
            let wi = w as int;
            let g = digit as int;
            assert(n * (wi * b) + (g * wi + qi) == (n * b + g) * wi + qi) by (nonlinear_arith);
            assert(d * (wi * b) == (d * b) * wi) by (nonlinear_arith);
            let l = left as int;
            let r = rest as int;
            let i = index as int;
            assert(l == r * b + g) by (nonlinear_arith)
                requires
                    b >= 2,
                    r == l / b,
                    g == l % b,
            ;
            assert((d * b) * r <= i) by (nonlinear_arith)
                requires
                    d >= 1,
                    l == r * b + g,
                    g >= 0,
                    d * l <= i,
            ;
            assert(d <= i) by (nonlinear_arith)
                requires
                    d >= 1,
                    l >= 1,
                    d * l <= i,
            ;
            assert(d * b <= i * b) by (nonlinear_arith)
                requires
                    d <= i,
                    b >= 2,
            ;
            assert(i * b <= 0xffff_ffff * 0xffff_ffff) by (nonlinear_arith)
                requires
                    0 <= i <= 0xffff_ffff,
                    2 <= b <= 0xffff_ffff,
            ;
            assert(n * b + g < d * b) by (nonlinear_arith)
                requires
                    n < d,
                    0 <= g < b,
                    b >= 2,
            ;
            assert(n * b <= n * b + g);
            assert(n * b >= 0) by (nonlinear_arith)
                requires
                    n >= 0,
                    b >= 2,
            ;
            assert(d * b >= 1) by (nonlinear_arith)
                requires
                    d >= 1,
                    b >= 2,
            ;
            assert(r < l) by (nonlinear_arith)
                requires
                    b >= 2,
                    l >= 1,
                    r == l / b,
            ;
        }
        numerator = numerator * (base as u64) + digit as u64;
        denominator = denominator * (base as u64);
        left = rest;
    }
    proof {
        let (q, w) = radical_inverse(0, base as nat);
        assert(q == 0 && w == 1);
        assert(numerator * 1 + 0 == numerator);
        assert(denominator * 1 == denominator);
    }
    (numerator, denominator)
}

/// The first four elements of the sequence around the centre of a pixel, and
/// then the same four on the other side of it.
pub open spec fn halton_offset(phase: u32) -> JitterOffset {
    let place = match phase % 4 {
        0 => JitterOffset { x_eighths: 0, y_eighteenths: -3i32 },
        1 => JitterOffset { x_eighths: -2i32, y_eighteenths: 3 },
        2 => JitterOffset { x_eighths: 2, y_eighteenths: -7i32 },
        _ => JitterOffset { x_eighths: -3i32, y_eighteenths: -1i32 },
    };
    if phase % JITTER_PHASES < 4 {
        place
    } else {
        place.mirrored()
    }
}

proof fn lemma_first_elements()
    ensures
        radical_inverse(1, 2) == (1nat, 2nat),
        radical_inverse(2, 2) == (1nat, 4nat),
        radical_inverse(3, 2) == (3nat, 4nat),
        radical_inverse(4, 2) == (1nat, 8nat),
        radical_inverse(1, 3) == (1nat, 3nat),
        radical_inverse(2, 3) == (2nat, 3nat),
        radical_inverse(3, 3) == (1nat, 9nat),
        radical_inverse(4, 3) == (4nat, 9nat),
{
    assert(radical_inverse(0, 2) == (0nat, 1nat));
    assert(radical_inverse(0, 3) == (0nat, 1nat));
    lemma_inverse_step(1, 2);
    lemma_inverse_step(2, 2);
    lemma_inverse_step(3, 2);
    lemma_inverse_step(4, 2);
    lemma_inverse_step(1, 3);
    lemma_inverse_step(2, 3);
    lemma_inverse_step(3, 3);
    lemma_inverse_step(4, 3);
}

/// The offsets are those of the Halton sequence in the bases two and three,
/// less one half.
pub proof fn offsets_follow_the_sequence(phase: u32)
    requires
        phase < 4,
    ensures
        ({
            let (x, across) = radical_inverse((phase + 1) as nat, 2);
            let (y, down) = radical_inverse((phase + 1) as nat, 3);
            &&& halton_offset(phase).x_eighths * across == 8 * x - 4 * across
            &&& halton_offset(phase).y_eighteenths * down == 18 * y - 9 * down
        }),
{
    lemma_first_elements();
    assert(phase == 0 || phase == 1 || phase == 2 || phase == 3);
}

/// The offset of a phase.
pub fn halton8(phase: u32) -> (offset: JitterOffset)
    ensures
        offset == halton_offset(phase),
{
    let index: u32 = phase % 4 + 1;
    let (x, across): (u64, u64) = halton(index, 2);
    let (y, down): (u64, u64) = halton(index, 3);
    proof {
        lemma_first_elements();
        assert(index == 1 || index == 2 || index == 3 || index == 4);
    }
    let x_eighths: i32 = (8 * x / across) as i32 - 4;
    let y_eighteenths: i32 = (18 * y / down) as i32 - 9;
    if phase % JITTER_PHASES < 4 {
        JitterOffset { x_eighths, y_eighteenths }
    } else {
        JitterOffset { x_eighths: -x_eighths, y_eighteenths: -y_eighteenths }
    }
}

/// Where the samples of a frame are taken.
#[derive(Debug, Clone, Copy, PartialEq, Eq, Structural)]
pub struct JitterSample {
    pub current: JitterOffset,
    pub previous: JitterOffset,
    pub phase: u32,
    /// The offset was chosen here, so that what it did to the image is only
    /// estimated; else the samples are at the centres.
    pub estimated: bool,
}

impl JitterSample {
    pub open spec fn none() -> JitterSample {
        JitterSample {
            current: JitterOffset::centre(),
            previous: JitterOffset::centre(),
            phase: 0,
            estimated: false,
        }
    }
}

impl Default for JitterSample {
    fn default() -> (sample: Self)
        ensures
            sample == JitterSample::none(),
    {
        let centre: JitterOffset = JitterOffset { x_eighths: 0, y_eighteenths: 0 };
        JitterSample { current: centre, previous: centre, phase: 0, estimated: false }
    }
}

/// Steps through the offsets, frame by frame.
#[derive(Debug, Clone, Copy, PartialEq, Eq, Structural)]
pub struct JitterState {
    mode: JitterMode,
    phase: u32,
    current: JitterOffset,
    phase_restart: bool,
}

pub struct JitterModel {
    pub mode: JitterMode,
    pub phase: u32,
    pub current: JitterOffset,
    pub phase_restart: bool,
}

impl JitterModel {
    pub open spec fn fresh(mode: JitterMode) -> JitterModel {
        JitterModel { mode, phase: 0, current: JitterOffset::centre(), phase_restart: false }
    }

    pub open spec fn wf(self) -> bool {
        self.phase < JITTER_PHASES
    }

    /// The state after one more frame.
    pub open spec fn stepped(self) -> JitterModel {
        if self.mode == JitterMode::Off {
            JitterModel::fresh(self.mode)
        } else {
            JitterModel {
                mode: self.mode,
                phase: ((self.phase + 1) % (JITTER_PHASES as int)) as u32,
                current: halton_offset(self.phase),
                phase_restart: self.phase == 0 && self.current != JitterOffset::centre(),
            }
        }
    }

    /// The sample of the next frame.
    pub open spec fn next_sample(self) -> JitterSample {
        if self.mode == JitterMode::Off {
            JitterSample::none()
        } else {
            JitterSample {
                current: halton_offset(self.phase),
                previous: self.current,
                phase: self.phase,
                estimated: true,
            }
        }
    }
}

impl View for JitterState {
    type V = JitterModel;

    closed spec fn view(&self) -> JitterModel {
        JitterModel {
            mode: self.mode,
            phase: self.phase,
            current: self.current,
            phase_restart: self.phase_restart,
        }
    }
}

impl JitterState {
    pub fn new(mode: JitterMode) -> (state: Self)
        ensures
            state@ == JitterModel::fresh(mode),
    {
        JitterState {
            mode,
            phase: 0,
            current: JitterOffset { x_eighths: 0, y_eighteenths: 0 },
            phase_restart: false,
        }
    }

    pub fn mode(self) -> (mode: JitterMode)
        ensures
            mode == self@.mode,
    {
        self.mode
    }

    /// Another mode starts from the beginning; the same one goes on.
    pub fn set_mode(&mut self, mode: JitterMode) -> (changed: bool)
        ensures
            changed == (old(self)@.mode != mode),
            final(self)@ == (if changed {
                JitterModel::fresh(mode)
            } else {
                old(self)@
            }),
    {
        if self.mode == mode {
            return false;
        }
        self.mode = mode;
        self.reset();
        true
    }

    pub fn reset(&mut self)
        ensures
            final(self)@ == JitterModel::fresh(old(self)@.mode),
    {
        self.phase = 0;
        self.current = JitterOffset { x_eighths: 0, y_eighteenths: 0 };
        self.phase_restart = false;
    }

    /// Tells once that the sequence started again.
    pub fn take_phase_restart(&mut self) -> (restarted: bool)
        ensures
            restarted == old(self)@.phase_restart,
            final(self)@ == (JitterModel { phase_restart: false, ..old(self)@ }),
    {
        let restarted: bool = self.phase_restart;
        self.phase_restart = false;
        restarted
    }

    pub fn sample(&mut self) -> (sample: JitterSample)
        requires
            old(self)@.wf(),
        ensures
            final(self)@.wf(),
            sample == old(self)@.next_sample(),
            final(self)@ == old(self)@.stepped(),
    {
        if self.mode == JitterMode::Off {
            self.reset();
            return JitterSample::default();
        }
        let phase: u32 = self.phase;
        let previous: JitterOffset = self.current;
        let current: JitterOffset = halton8(phase);
        self.phase_restart =
        phase == 0 && !(previous.x_eighths == 0 && previous.y_eighteenths == 0);
        self.current = current;
        self.phase = (phase + 1) % JITTER_PHASES;
        JitterSample { current, previous, phase, estimated: true }
    }
}

impl Default for JitterState {
    fn default() -> (state: Self)
        ensures
            state@ == JitterModel::fresh(JitterMode::Off),
    {
        JitterState::new(JitterMode::Off)
    }
}

/// Over one sequence the offsets cancel out: each has its mirror image.
pub proof fn the_offsets_have_no_mean()
    ensures
        halton_offset(0).x_eighths + halton_offset(1).x_eighths + halton_offset(2).x_eighths
            + halton_offset(3).x_eighths + halton_offset(4).x_eighths + halton_offset(5).x_eighths
            + halton_offset(6).x_eighths + halton_offset(7).x_eighths == 0,
        halton_offset(0).y_eighteenths + halton_offset(1).y_eighteenths + halton_offset(
            2,
        ).y_eighteenths + halton_offset(3).y_eighteenths + halton_offset(4).y_eighteenths
            + halton_offset(5).y_eighteenths + halton_offset(6).y_eighteenths + halton_offset(
            7,
        ).y_eighteenths == 0,
        forall|phase: u32| phase < 4 ==> halton_offset((phase + 4) as u32) == #[trigger]
            halton_offset(phase).mirrored(),
{
}

/// The offsets come round after eight phases, and stay within the pixel.
pub proof fn the_offsets_come_round(phase: u32)
    requires
        phase + JITTER_PHASES <= u32::MAX,
    ensures
        halton_offset((phase + JITTER_PHASES) as u32) == halton_offset(phase),
        -4 <= halton_offset(phase).x_eighths <= 4,
        -9 <= halton_offset(phase).y_eighteenths <= 9,
{
}

/// Without jitter every frame is sampled at the centres, and nothing is left
/// of the samples before.
pub proof fn no_jitter_leaves_no_trace(state: JitterModel)
    requires
        state.mode == JitterMode::Off,
    ensures
        state.next_sample() == JitterSample::none(),
        state.stepped() == JitterModel::fresh(JitterMode::Off),
{
}

/// Each sample says where the one before it was.
pub proof fn samples_follow_one_another(state: JitterModel)
    requires
        state.wf(),
        state.mode != JitterMode::Off,
    ensures
        state.stepped().next_sample().previous == state.next_sample().current,
        state.stepped().next_sample().phase == (state.phase + 1) % (JITTER_PHASES as int),
{
}

/// Images with eight bits for each of four colours, or with half floats, can be
/// captured, in the standard colour space and in no other.
pub proof fn standard_images_can_be_captured(format: i32, space: i32)
    ensures
        capturable(format, space) <==> space == 0 && (format == 37 || format == 43 || format == 44
            || format == 50 || format == 97),
{
}

/// With jitter every frame is sampled at the place of its phase, and the phase
/// comes round after eight frames. The round that begins is told of, except for
/// the very first.
pub proof fn jittered_frames_step_through_the_phases(state: JitterModel)
    requires
        state.wf(),
        state.mode != JitterMode::Off,
    ensures
        state.next_sample().estimated,
        state.next_sample().phase == state.phase,
        state.next_sample().current == halton_offset(state.phase),
        state.next_sample().previous == state.current,
        state.stepped().mode == state.mode,
        state.stepped().current == state.next_sample().current,
        state.phase < 7 ==> state.stepped().phase == state.phase + 1,
        state.phase == 7 ==> state.stepped().phase == 0,
        state.stepped().phase_restart <==> state.phase == 0 && (state.current.x_eighths != 0
            || state.current.y_eighteenths != 0),
{
}

} // verus!
