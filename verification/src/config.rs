//! What the user can set.

use vstd::prelude::*;
use vstd::string::StringExecFns;

verus! {

#[derive(Debug, Clone, Copy, PartialEq, Eq, Structural)]
pub enum MotionQuality {
    High,
    Ultra,
    Balanced,
    Performance,
}

impl Default for MotionQuality {
    fn default() -> (quality: Self)
        ensures
            quality == MotionQuality::Ultra,
    {
        MotionQuality::Ultra
    }
}

#[derive(Debug, Clone, Copy, PartialEq, Eq, Structural)]
pub enum JitterMode {
    Off,
    ExperimentalHalton8,
}

impl Default for JitterMode {
    fn default() -> (mode: Self)
        ensures
            mode == JitterMode::Off,
    {
        JitterMode::Off
    }
}

#[derive(Debug, Clone, Copy, PartialEq, Eq, Structural)]
pub enum DebugView {
    Original,
    Luminance,
    Motion,
    Confidence,
    Reconstructed,
    History,
    Reactive,
    Disocclusion,
    Depth,
    Composition,
    Exposure,
}

impl Default for DebugView {
    fn default() -> (view: Self)
        ensures
            view == DebugView::Original,
    {
        DebugView::Original
    }
}

impl DebugView {
    /// The number that the shaders know the view by.
    pub open spec fn number(self) -> u32 {
        match self {
            DebugView::Original => 0,
            DebugView::Luminance => 1,
            DebugView::Motion => 2,
            DebugView::Confidence => 3,
            DebugView::Reconstructed => 4,
            DebugView::History => 5,
            DebugView::Reactive => 6,
            DebugView::Disocclusion => 7,
            DebugView::Depth => 8,
            DebugView::Composition => 9,
            DebugView::Exposure => 10,
        }
    }

    pub fn index(self) -> (number: u32)
        ensures
            number == self.number(),
    {
        match self {
            DebugView::Original => 0,
            DebugView::Luminance => 1,
            DebugView::Motion => 2,
            DebugView::Confidence => 3,
            DebugView::Reconstructed => 4,
            DebugView::History => 5,
            DebugView::Reactive => 6,
            DebugView::Disocclusion => 7,
            DebugView::Depth => 8,
            DebugView::Composition => 9,
            DebugView::Exposure => 10,
        }
    }
}

/// The extent that the output takes.
#[derive(Debug, Clone, Copy, PartialEq, Eq, Structural)]
pub enum OutputResolution {
    Native,
    Swapchain,
    Fixed { width: u32, height: u32 },
}

impl Default for OutputResolution {
    fn default() -> (resolution: Self)
        ensures
            resolution == OutputResolution::Native,
    {
        OutputResolution::Native
    }
}

#[derive(Debug, Clone, Copy, PartialEq, Eq, Structural)]
pub enum OutputResolutionError {
    /// Neither a name nor two numbers around an `x`.
    Shape,
    /// A side that is not a number in range.
    Number,
    /// A side that is zero.
    NotPositive,
}

impl OutputResolutionError {
    pub open spec fn text(self) -> Seq<char> {
        match self {
            OutputResolutionError::Shape => {
                "output resolution must be native, swapchain, or WIDTHxHEIGHT"@
            },
            OutputResolutionError::Number => "output resolution dimensions must be numbers"@,
            OutputResolutionError::NotPositive => "output resolution dimensions must be positive"@,
        }
    }

    pub fn message(self) -> (text: &'static str)
        ensures
            text@ == self.text(),
    {
        match self {
            OutputResolutionError::Shape => {
                "output resolution must be native, swapchain, or WIDTHxHEIGHT"
            },
            OutputResolutionError::Number => "output resolution dimensions must be numbers",
            OutputResolutionError::NotPositive => "output resolution dimensions must be positive",
        }
    }
}

pub open spec fn is_digit(c: char) -> bool {
    '0' <= c && c <= '9'
}

/// The value of decimal digits.
pub open spec fn decimal(digits: Seq<char>) -> int
    decreases digits.len(),
{
    if digits.len() == 0 {
        0
    } else {
        10 * decimal(digits.drop_last()) + (digits.last() as int - '0' as int)
    }
}

/// The digits of a number behind its optional plus sign.
pub open spec fn unsigned_part(text: Seq<char>) -> Seq<char> {
    if text.len() > 0 && text[0] == '+' {
        text.skip(1)
    } else {
        text
    }
}

/// A number of 32 bits: digits, at least one, behind an optional plus sign.
pub open spec fn number(text: Seq<char>) -> Option<u32> {
    let digits = unsigned_part(text);
    if digits.len() > 0 && (forall|i: int| 0 <= i < digits.len() ==> is_digit(#[trigger] digits[i]))
        && decimal(digits) <= u32::MAX {
        Some(decimal(digits) as u32)
    } else {
        None
    }
}

proof fn lemma_decimal_bounds(digits: Seq<char>, count: int)
    requires
        forall|i: int| 0 <= i < digits.len() ==> is_digit(#[trigger] digits[i]),
        0 <= count <= digits.len(),
    ensures
        0 <= decimal(digits.take(count)) <= decimal(digits),
    decreases digits.len(),
{
    if digits.len() > 0 {
        let front = digits.drop_last();
        assert forall|i: int| 0 <= i < front.len() implies is_digit(#[trigger] front[i]) by {
            assert(front[i] == digits[i]);
        }
        assert(is_digit(digits[digits.len() - 1]));
        if count < digits.len() {
            lemma_decimal_bounds(front, count);
            assert(front.take(count) == digits.take(count));
        } else {
            lemma_decimal_bounds(front, front.len() as int);
            assert(front.take(front.len() as int) == front);
            assert(digits.take(count) == digits);
        }
    } else {
        assert(digits.take(count) == digits);
    }
}

fn parse_number(text: &[char]) -> (value: Option<u32>)
    ensures
        value == number(text@),
{
    let start: usize = if text.len() > 0 && text[0] == '+' {
        1
    } else {
        0
    };
    let ghost digits = unsigned_part(text@);
    assert(digits == text@.skip(start as int));
    if text.len() == start {
        return None;
    }
    let mut value: u64 = 0;
    let mut index: usize = start;
    while index < text.len()
        invariant
            start <= index <= text.len(),
            digits == unsigned_part(text@),
            digits == text@.skip(start as int),
            digits.len() > 0,
            forall|i: int| 0 <= i < index - start ==> is_digit(#[trigger] digits[i]),
            value == decimal(digits.take(index - start)),
            value <= u32::MAX,
        decreases text.len() - index,
    {
        let c: char = text[index];
        assert(digits[index - start] == c);
        if !('0' <= c && c <= '9') {
            assert(!is_digit(digits[index - start]));
            return None;
        }
        let ghost more = digits.take(index - start + 1);
        assert(more.drop_last() == digits.take(index - start));
        assert(more.last() == c);
        value = value * 10 + (c as u64 - '0' as u64);
        if value > u32::MAX as u64 {
            proof {
                if forall|i: int| 0 <= i < digits.len() ==> is_digit(#[trigger] digits[i]) {
                    lemma_decimal_bounds(digits, index - start + 1);
                }
            }
            return None;
        }
        index = index + 1;
    }
    assert(digits.take(digits.len() as int) == digits);
    Some(value as u32)
}

/// The place of the first `x`, if there is one.
pub open spec fn first_x(text: Seq<char>) -> Option<int>
    decreases text.len(),
{
    if text.len() == 0 {
        None
    } else if text[0] == 'x' {
        Some(0)
    } else {
        match first_x(text.drop_first()) {
            Some(at) => Some(at + 1),
            None => None,
        }
    }
}

fn find_x(text: &[char]) -> (found: Option<usize>)
    ensures
        match found {
            Some(at) => first_x(text@) == Some(at as int) && at < text@.len(),
            None => first_x(text@) is None,
        },
{
    let mut index: usize = 0;
    assert(text@.skip(0) == text@);
    while index < text.len()
        invariant
            index <= text.len(),
            first_x(text@) == (match first_x(text@.skip(index as int)) {
                Some(at) => Some(at + index),
                None => None,
            }),
        decreases text.len() - index,
    {
        assert(text@.skip(index as int)[0] == text@[index as int]);
        if text[index] == 'x' {
            return Some(index);
        }
        assert(text@.skip(index as int).drop_first() == text@.skip(index + 1));
        index = index + 1;
    }
    None
}

/// What a setting's text means: a name, or two positive numbers around the
/// first `x`.
pub open spec fn resolution_of(text: Seq<char>) -> Result<OutputResolution, OutputResolutionError> {
    if text == "native"@ {
        Ok(OutputResolution::Native)
    } else if text == "swapchain"@ {
        Ok(OutputResolution::Swapchain)
    } else {
        match first_x(text) {
            None => Err(OutputResolutionError::Shape),
            Some(at) => match (number(text.take(at)), number(text.skip(at + 1))) {
                (Some(width), Some(height)) => if width == 0 || height == 0 {
                    Err(OutputResolutionError::NotPositive)
                } else {
                    Ok(OutputResolution::Fixed { width, height })
                },
                _ => Err(OutputResolutionError::Number),
            },
        }
    }
}

fn characters(text: &str) -> (list: Vec<char>)
    ensures
        list@ == text@,
{
    let mut list: Vec<char> = Vec::new();
    let count: usize = text.unicode_len();
    let mut index: usize = 0;
    while index < count
        invariant
            count == text@.len(),
            index <= count,
            list@ == text@.take(index as int),
        decreases count - index,
    {
        list.push(text.get_char(index));
        assert(list@ =~= text@.take(index + 1));
        index = index + 1;
    }
    assert(list@ =~= text@);
    list
}

fn same_characters(left: &[char], right: &str) -> (same: bool)
    ensures
        same == (left@ == right@),
{
    let other: Vec<char> = characters(right);
    if left.len() != other.len() {
        return false;
    }
    let mut index: usize = 0;
    while index < left.len()
        invariant
            index <= left.len(),
            left.len() == other.len(),
            other@ == right@,
            forall|i: int| 0 <= i < index ==> left@[i] == other@[i],
        decreases left.len() - index,
    {
        if left[index] != other[index] {
            assert(left@[index as int] != right@[index as int]);
            return false;
        }
        index = index + 1;
    }
    assert(left@ =~= right@);
    true
}

fn copy_range(text: &[char], from: usize, to: usize) -> (part: Vec<char>)
    requires
        from <= to <= text@.len(),
    ensures
        part@ == text@.subrange(from as int, to as int),
{
    let mut part: Vec<char> = Vec::new();
    let mut index: usize = from;
    while index < to
        invariant
            from <= index <= to <= text@.len(),
            part@ == text@.subrange(from as int, index as int),
        decreases to - index,
    {
        part.push(text[index]);
        assert(part@ =~= text@.subrange(from as int, index + 1));
        index = index + 1;
    }
    part
}

impl OutputResolution {
    pub fn parse(text: &str) -> (result: Result<Self, OutputResolutionError>)
        ensures
            result == resolution_of(text@),
    {
        let list: Vec<char> = characters(text);
        if same_characters(list.as_slice(), "native") {
            return Ok(OutputResolution::Native);
        }
        if same_characters(list.as_slice(), "swapchain") {
            return Ok(OutputResolution::Swapchain);
        }
        let at: usize = match find_x(list.as_slice()) {
            None => {
                return Err(OutputResolutionError::Shape);
            },
            Some(at) => at,
        };
        let width_text: Vec<char> = copy_range(list.as_slice(), 0, at);
        let height_text: Vec<char> = copy_range(list.as_slice(), at + 1, list.len());
        assert(width_text@ =~= text@.take(at as int));
        assert(height_text@ =~= text@.skip(at + 1));
        let width: u32 = match parse_number(width_text.as_slice()) {
            Some(width) => width,
            None => {
                return Err(OutputResolutionError::Number);
            },
        };
        let height: u32 = match parse_number(height_text.as_slice()) {
            Some(height) => height,
            None => {
                return Err(OutputResolutionError::Number);
            },
        };
        if width == 0 || height == 0 {
            return Err(OutputResolutionError::NotPositive);
        }
        Ok(OutputResolution::Fixed { width, height })
    }
}

fn same_text(left: &str, right: &str) -> (same: bool)
    ensures
        same == (left@ == right@),
{
    let list: Vec<char> = characters(left);
    same_characters(list.as_slice(), right)
}

/// The quality that a settings file calls by this name.
pub open spec fn quality_named(name: Seq<char>) -> Option<MotionQuality> {
    if name == "high"@ {
        Some(MotionQuality::High)
    } else if name == "ultra"@ {
        Some(MotionQuality::Ultra)
    } else if name == "balanced"@ {
        Some(MotionQuality::Balanced)
    } else if name == "performance"@ {
        Some(MotionQuality::Performance)
    } else {
        None
    }
}

impl MotionQuality {
    pub open spec fn text(self) -> Seq<char> {
        match self {
            MotionQuality::High => "high"@,
            MotionQuality::Ultra => "ultra"@,
            MotionQuality::Balanced => "balanced"@,
            MotionQuality::Performance => "performance"@,
        }
    }

    /// The name that a settings file writes.
    pub fn name(self) -> (name: &'static str)
        ensures
            name@ == self.text(),
    {
        match self {
            MotionQuality::High => "high",
            MotionQuality::Ultra => "ultra",
            MotionQuality::Balanced => "balanced",
            MotionQuality::Performance => "performance",
        }
    }

    pub fn from_name(name: &str) -> (found: Option<Self>)
        ensures
            found == quality_named(name@),
    {
        if same_text(name, "high") {
            Some(MotionQuality::High)
        } else if same_text(name, "ultra") {
            Some(MotionQuality::Ultra)
        } else if same_text(name, "balanced") {
            Some(MotionQuality::Balanced)
        } else if same_text(name, "performance") {
            Some(MotionQuality::Performance)
        } else {
            None
        }
    }
}

/// The mode that a settings file calls by this name.
pub open spec fn jitter_mode_named(name: Seq<char>) -> Option<JitterMode> {
    if name == "off"@ {
        Some(JitterMode::Off)
    } else if name == "experimental_halton8"@ {
        Some(JitterMode::ExperimentalHalton8)
    } else {
        None
    }
}

impl JitterMode {
    pub open spec fn text(self) -> Seq<char> {
        match self {
            JitterMode::Off => "off"@,
            JitterMode::ExperimentalHalton8 => "experimental_halton8"@,
        }
    }

    /// The name that a settings file writes.
    pub fn name(self) -> (name: &'static str)
        ensures
            name@ == self.text(),
    {
        match self {
            JitterMode::Off => "off",
            JitterMode::ExperimentalHalton8 => "experimental_halton8",
        }
    }

    pub fn from_name(name: &str) -> (found: Option<Self>)
        ensures
            found == jitter_mode_named(name@),
    {
        if same_text(name, "off") {
            Some(JitterMode::Off)
        } else if same_text(name, "experimental_halton8") {
            Some(JitterMode::ExperimentalHalton8)
        } else {
            None
        }
    }
}

/// The view that a settings file calls by this name.
pub open spec fn debug_view_named(name: Seq<char>) -> Option<DebugView> {
    if name == "original"@ {
        Some(DebugView::Original)
    } else if name == "luminance"@ {
        Some(DebugView::Luminance)
    } else if name == "motion"@ {
        Some(DebugView::Motion)
    } else if name == "confidence"@ {
        Some(DebugView::Confidence)
    } else if name == "reconstructed"@ {
        Some(DebugView::Reconstructed)
    } else if name == "history"@ {
        Some(DebugView::History)
    } else if name == "reactive"@ {
        Some(DebugView::Reactive)
    } else if name == "disocclusion"@ {
        Some(DebugView::Disocclusion)
    } else if name == "depth"@ {
        Some(DebugView::Depth)
    } else if name == "composition"@ {
        Some(DebugView::Composition)
    } else if name == "exposure"@ {
        Some(DebugView::Exposure)
    } else {
        None
    }
}

impl DebugView {
    pub open spec fn text(self) -> Seq<char> {
        match self {
            DebugView::Original => "original"@,
            DebugView::Luminance => "luminance"@,
            DebugView::Motion => "motion"@,
            DebugView::Confidence => "confidence"@,
            DebugView::Reconstructed => "reconstructed"@,
            DebugView::History => "history"@,
            DebugView::Reactive => "reactive"@,
            DebugView::Disocclusion => "disocclusion"@,
            DebugView::Depth => "depth"@,
            DebugView::Composition => "composition"@,
            DebugView::Exposure => "exposure"@,
        }
    }

    /// The name that a settings file writes.
    pub fn name(self) -> (name: &'static str)
        ensures
            name@ == self.text(),
    {
        match self {
            DebugView::Original => "original",
            DebugView::Luminance => "luminance",
            DebugView::Motion => "motion",
            DebugView::Confidence => "confidence",
            DebugView::Reconstructed => "reconstructed",
            DebugView::History => "history",
            DebugView::Reactive => "reactive",
            DebugView::Disocclusion => "disocclusion",
            DebugView::Depth => "depth",
            DebugView::Composition => "composition",
            DebugView::Exposure => "exposure",
        }
    }

    pub fn from_name(name: &str) -> (found: Option<Self>)
        ensures
            found == debug_view_named(name@),
    {
        if same_text(name, "original") {
            Some(DebugView::Original)
        } else if same_text(name, "luminance") {
            Some(DebugView::Luminance)
        } else if same_text(name, "motion") {
            Some(DebugView::Motion)
        } else if same_text(name, "confidence") {
            Some(DebugView::Confidence)
        } else if same_text(name, "reconstructed") {
            Some(DebugView::Reconstructed)
        } else if same_text(name, "history") {
            Some(DebugView::History)
        } else if same_text(name, "reactive") {
            Some(DebugView::Reactive)
        } else if same_text(name, "disocclusion") {
            Some(DebugView::Disocclusion)
        } else if same_text(name, "depth") {
            Some(DebugView::Depth)
        } else if same_text(name, "composition") {
            Some(DebugView::Composition)
        } else if same_text(name, "exposure") {
            Some(DebugView::Exposure)
        } else {
            None
        }
    }
}

/// What a line of a settings file sets.
#[derive(Debug, Clone, Copy, PartialEq, Eq, Structural)]
pub enum SettingKey {
    Enabled,
    Quality,
    ToggleKey,
    DebugView,
    JitterMode,
    MotionQuality,
    OutputResolution,
    GuidanceScale,
    SceneDistanceThreshold,
    SceneConsistencyThreshold,
}

/// The setting behind a key. The guidance scale has two older keys.
pub open spec fn setting_named(name: Seq<char>) -> Option<SettingKey> {
    if name == "enabled"@ {
        Some(SettingKey::Enabled)
    } else if name == "quality"@ {
        Some(SettingKey::Quality)
    } else if name == "toggle_key"@ {
        Some(SettingKey::ToggleKey)
    } else if name == "debug_view"@ {
        Some(SettingKey::DebugView)
    } else if name == "jitter_mode"@ {
        Some(SettingKey::JitterMode)
    } else if name == "motion_quality"@ {
        Some(SettingKey::MotionQuality)
    } else if name == "output_resolution"@ {
        Some(SettingKey::OutputResolution)
    } else if name == "guidance_scale"@ || name == "processing_scale"@ || name == "render_scale"@ {
        Some(SettingKey::GuidanceScale)
    } else if name == "scene_distance_threshold"@ {
        Some(SettingKey::SceneDistanceThreshold)
    } else if name == "scene_consistency_threshold"@ {
        Some(SettingKey::SceneConsistencyThreshold)
    } else {
        None
    }
}

impl SettingKey {
    pub open spec fn text(self) -> Seq<char> {
        match self {
            SettingKey::Enabled => "enabled"@,
            SettingKey::Quality => "quality"@,
            SettingKey::ToggleKey => "toggle_key"@,
            SettingKey::DebugView => "debug_view"@,
            SettingKey::JitterMode => "jitter_mode"@,
            SettingKey::MotionQuality => "motion_quality"@,
            SettingKey::OutputResolution => "output_resolution"@,
            SettingKey::GuidanceScale => "guidance_scale"@,
            SettingKey::SceneDistanceThreshold => "scene_distance_threshold"@,
            SettingKey::SceneConsistencyThreshold => "scene_consistency_threshold"@,
        }
    }

    pub fn name(self) -> (name: &'static str)
        ensures
            name@ == self.text(),
    {
        match self {
            SettingKey::Enabled => "enabled",
            SettingKey::Quality => "quality",
            SettingKey::ToggleKey => "toggle_key",
            SettingKey::DebugView => "debug_view",
            SettingKey::JitterMode => "jitter_mode",
            SettingKey::MotionQuality => "motion_quality",
            SettingKey::OutputResolution => "output_resolution",
            SettingKey::GuidanceScale => "guidance_scale",
            SettingKey::SceneDistanceThreshold => "scene_distance_threshold",
            SettingKey::SceneConsistencyThreshold => "scene_consistency_threshold",
        }
    }

    /// The setting behind a key; other keys set nothing.
    pub fn from_name(name: &str) -> (found: Option<Self>)
        ensures
            found == setting_named(name@),
    {
        if same_text(name, "enabled") {
            Some(SettingKey::Enabled)
        } else if same_text(name, "quality") {
            Some(SettingKey::Quality)
        } else if same_text(name, "toggle_key") {
            Some(SettingKey::ToggleKey)
        } else if same_text(name, "debug_view") {
            Some(SettingKey::DebugView)
        } else if same_text(name, "jitter_mode") {
            Some(SettingKey::JitterMode)
        } else if same_text(name, "motion_quality") {
            Some(SettingKey::MotionQuality)
        } else if same_text(name, "output_resolution") {
            Some(SettingKey::OutputResolution)
        } else if same_text(name, "guidance_scale") || same_text(name, "processing_scale") || same_text(name, "render_scale") {
            Some(SettingKey::GuidanceScale)
        } else if same_text(name, "scene_distance_threshold") {
            Some(SettingKey::SceneDistanceThreshold)
        } else if same_text(name, "scene_consistency_threshold") {
            Some(SettingKey::SceneConsistencyThreshold)
        } else {
            None
        }
    }
}

/// Every quality is read back from its name.
pub proof fn qualities_are_read_back(quality: MotionQuality)
    ensures
        quality_named(quality.text()) == Some(quality),
{
    reveal_strlit("high");
    reveal_strlit("ultra");
    reveal_strlit("balanced");
    reveal_strlit("performance");
    assert("high"@.len() == 4);
    assert("ultra"@.len() == 5);
    assert("balanced"@.len() == 8);
    assert("performance"@.len() == 11);
}

/// Every jitter mode is read back from its name.
pub proof fn jitter_modes_are_read_back(mode: JitterMode)
    ensures
        jitter_mode_named(mode.text()) == Some(mode),
{
    reveal_strlit("off");
    reveal_strlit("experimental_halton8");
    assert("off"@.len() == 3);
    assert("experimental_halton8"@.len() == 20);
}

/// Every debug view is read back from its name.
pub proof fn debug_views_are_read_back(view: DebugView)
    ensures
        debug_view_named(view.text()) == Some(view),
{
    reveal_strlit("original");
    reveal_strlit("luminance");
    reveal_strlit("motion");
    reveal_strlit("confidence");
    reveal_strlit("reconstructed");
    reveal_strlit("history");
    reveal_strlit("reactive");
    reveal_strlit("disocclusion");
    reveal_strlit("depth");
    reveal_strlit("composition");
    reveal_strlit("exposure");
    assert("original"@.len() == 8);
    assert("luminance"@.len() == 9);
    assert("motion"@.len() == 6);
    assert("confidence"@.len() == 10);
    assert("reconstructed"@.len() == 13);
    assert("history"@.len() == 7);
    assert("reactive"@.len() == 8);
    assert("disocclusion"@.len() == 12);
    assert("depth"@.len() == 5);
    assert("composition"@.len() == 11);
    assert("exposure"@.len() == 8);
    assert("original"@[0] != "reactive"@[0]);
    assert("original"@[0] != "exposure"@[0]);
    assert("reactive"@[0] != "exposure"@[0]);
}

/// Every setting is read back from its key.
pub proof fn settings_are_read_back(key: SettingKey)
    ensures
        setting_named(key.text()) == Some(key),
{
    reveal_strlit("enabled");
    reveal_strlit("quality");
    reveal_strlit("toggle_key");
    reveal_strlit("debug_view");
    reveal_strlit("jitter_mode");
    reveal_strlit("motion_quality");
    reveal_strlit("output_resolution");
    reveal_strlit("guidance_scale");
    reveal_strlit("processing_scale");
    reveal_strlit("render_scale");
    reveal_strlit("scene_distance_threshold");
    reveal_strlit("scene_consistency_threshold");
    assert("enabled"@.len() == 7);
    assert("quality"@.len() == 7);
    assert("toggle_key"@.len() == 10);
    assert("debug_view"@.len() == 10);
    assert("jitter_mode"@.len() == 11);
    assert("motion_quality"@.len() == 14);
    assert("output_resolution"@.len() == 17);
    assert("guidance_scale"@.len() == 14);
    assert("processing_scale"@.len() == 16);
    assert("render_scale"@.len() == 12);
    assert("scene_distance_threshold"@.len() == 24);
    assert("scene_consistency_threshold"@.len() == 27);
    assert("enabled"@[0] != "quality"@[0]);
    assert("toggle_key"@[0] != "debug_view"@[0]);
    assert("motion_quality"@[0] != "guidance_scale"@[0]);
}

/// The bit pattern of a 32-bit float. Among patterns without the sign bit the
/// order of the numbers is the order of the floats, up to infinity; patterns
/// above that are no numbers.
pub type FloatBits = u32;

pub const ONE_BITS: u32 = 0x3f80_0000;

pub const HALF_BITS: u32 = 0x3f00_0000;

pub const TWO_BITS: u32 = 0x4000_0000;

pub const NEGATIVE_ZERO_BITS: u32 = 0x8000_0000;

/// The pattern of the float nearest to one fifth.
pub const FIFTH_BITS: u32 = 0x3e4c_cccd;

/// The settings. Scales and thresholds are bit patterns of 32-bit floats.
#[derive(Debug, PartialEq, Eq)]
pub struct Config {
    pub enabled: bool,
    pub quality: String,
    pub toggle_key: String,
    pub debug_view: DebugView,
    pub jitter_mode: JitterMode,
    pub motion_quality: MotionQuality,
    pub output_resolution: OutputResolution,
    pub guidance_scale: FloatBits,
    pub scene_distance_threshold: FloatBits,
    pub scene_consistency_threshold: FloatBits,
}

impl Default for Config {
    fn default() -> (config: Self)
        ensures
            config.enabled,
            config.quality@ == "balanced"@,
            config.toggle_key@ == "Insert"@,
            config.debug_view == DebugView::Original,
            config.jitter_mode == JitterMode::Off,
            config.motion_quality == MotionQuality::Ultra,
            config.output_resolution == OutputResolution::Native,
            config.guidance_scale == ONE_BITS,
            config.scene_distance_threshold == HALF_BITS,
            config.scene_consistency_threshold == FIFTH_BITS,
            config.thresholds_valid(),
    {
        Config {
            enabled: true,
            quality: String::from_str("balanced"),
            toggle_key: String::from_str("Insert"),
            debug_view: DebugView::Original,
            jitter_mode: JitterMode::Off,
            motion_quality: MotionQuality::Ultra,
            output_resolution: OutputResolution::Native,
            guidance_scale: ONE_BITS,
            scene_distance_threshold: HALF_BITS,
            scene_consistency_threshold: FIFTH_BITS,
        }
    }
}

#[derive(Debug, Clone, Copy, PartialEq, Eq, Structural)]
pub enum ConfigError {
    InvalidThresholds,
}

impl ConfigError {
    pub fn message(self) -> (text: &'static str)
        ensures
            text@
                == "guidance scale must be finite in [0.5, 1.0] and scene thresholds must be valid"@,
    {
        "guidance scale must be finite in [0.5, 1.0] and scene thresholds must be valid"
    }
}

impl Config {
    /// The guidance scale is from a half to one, the distance threshold above
    /// zero and at most two, the consistency threshold from zero to one. Zero
    /// counts with either sign where it is allowed.
    pub open spec fn thresholds_valid(self) -> bool {
        &&& HALF_BITS <= self.guidance_scale <= ONE_BITS
        &&& 0 < self.scene_distance_threshold <= TWO_BITS
        &&& self.scene_consistency_threshold <= ONE_BITS || self.scene_consistency_threshold
            == NEGATIVE_ZERO_BITS
    }

    /// Accepts settings whose scale and thresholds are in range.
    pub fn validated(self) -> (result: Result<Self, ConfigError>)
        ensures
            match result {
                Ok(config) => self.thresholds_valid() && config == self,
                Err(error) => !self.thresholds_valid() && error == ConfigError::InvalidThresholds,
            },
    {
        let guidance_valid: bool = HALF_BITS <= self.guidance_scale && self.guidance_scale
            <= ONE_BITS;
        let distance_valid: bool = 0 < self.scene_distance_threshold
            && self.scene_distance_threshold <= TWO_BITS;
        let consistency_valid: bool = self.scene_consistency_threshold <= ONE_BITS
            || self.scene_consistency_threshold == NEGATIVE_ZERO_BITS;
        if guidance_valid && distance_valid && consistency_valid {
            Ok(self)
        } else {
            Err(ConfigError::InvalidThresholds)
        }
    }
}

/// The names of the two resolutions that are no numbers are read as they are
/// written.
pub proof fn resolutions_have_names()
    ensures
        resolution_of("native"@) == Ok::<OutputResolution, OutputResolutionError>(
            OutputResolution::Native,
        ),
        resolution_of("swapchain"@) == Ok::<OutputResolution, OutputResolutionError>(
            OutputResolution::Swapchain,
        ),
{
    reveal_strlit("native");
    reveal_strlit("swapchain");
    assert("native"@.len() != "swapchain"@.len());
}

/// The first `x` is an `x`, and none stands before it.
pub proof fn the_first_x_is_found(text: Seq<char>)
    ensures
        first_x(text) is None <==> forall|i: int| 0 <= i < text.len() ==> text[i] != 'x',
        first_x(text) matches Some(at) ==> 0 <= at < text.len() && text[at] == 'x' && forall|i: int|
            0 <= i < at ==> text[i] != 'x',
    decreases text.len(),
{
    if text.len() > 0 && text[0] != 'x' {
        let rest = text.drop_first();
        the_first_x_is_found(rest);
        assert forall|i: int| 0 <= i < rest.len() implies rest[i] == #[trigger] text[i + 1] by {
        }
        match first_x(rest) {
            Some(at) => {
                assert(text[at + 1] == rest[at]);
                assert forall|i: int| 0 <= i < at + 1 implies text[i] != 'x' by {
                    if i > 0 {
                        assert(rest[i - 1] == text[i]);
                    }
                }
            },
            None => {
                assert forall|i: int| 0 <= i < text.len() implies text[i] != 'x' by {
                    if i > 0 {
                        assert(rest[i - 1] == text[i]);
                    }
                }
            },
        }
    }
}

/// Digits weigh ten times as much with every place to the left.
pub proof fn digits_are_decimal(digits: Seq<char>, next: char)
    ensures
        decimal(Seq::empty()) == 0,
        '0' <= next && next <= '9' ==> decimal(digits.push(next)) == 10 * decimal(digits) + (
        next as int - 48),
        is_digit(next) <==> 48 <= next as int <= 57,
{
    assert(digits.push(next).drop_last() =~= digits);
}

/// A number is digits and nothing else, at least one of them, behind a plus sign
/// or not, and fits thirty-two bits.
pub proof fn numbers_are_digits(text: Seq<char>, digits: Seq<char>)
    requires
        digits == (if text.len() > 0 && text[0] == '+' {
            text.skip(1)
        } else {
            text
        }),
    ensures
        number(text) is Some <==> digits.len() > 0 && decimal(digits) <= 0xffff_ffff && forall|
            i: int,
        |
            0 <= i < digits.len() ==> 48 <= #[trigger] digits[i] as int <= 57,
        number(text) matches Some(value) ==> value == decimal(digits),
{
    assert(digits == unsigned_part(text));
    if forall|i: int| 0 <= i < digits.len() ==> 48 <= #[trigger] digits[i] as int <= 57 {
        assert forall|i: int| 0 <= i < digits.len() implies is_digit(#[trigger] digits[i]) by {
            assert(48 <= digits[i] as int <= 57);
        }
        lemma_decimal_bounds(digits, digits.len() as int);
        assert(digits.take(digits.len() as int) == digits);
    }
    if number(text) is Some {
        assert forall|i: int| 0 <= i < digits.len() implies 48 <= #[trigger] digits[i] as int
            <= 57 by {
            assert(is_digit(digits[i]));
        }
    }
}

/// A fixed resolution is read from its two sides, the width before the first
/// `x` and the height behind it, and from nothing else; neither side is zero.
pub proof fn a_fixed_resolution_is_two_sides(text: Seq<char>, at: int)
    requires
        text != "native"@,
        text != "swapchain"@,
    ensures
        resolution_of(text) matches Ok(resolution) ==> {
            &&& resolution matches OutputResolution::Fixed { width, height }
            &&& width > 0
            &&& height > 0
        },
        0 <= at < text.len() && text[at] == 'x' && (forall|i: int| 0 <= i < at ==> text[i] != 'x')
            ==> {
            let width = number(text.take(at));
            let height = number(text.skip(at + 1));
            &&& width is None || height is None ==> resolution_of(text) == Err::<
                OutputResolution,
                OutputResolutionError,
            >(OutputResolutionError::Number)
            &&& width is Some && height is Some && (width.unwrap() == 0 || height.unwrap() == 0)
                ==> resolution_of(text) == Err::<OutputResolution, OutputResolutionError>(
                OutputResolutionError::NotPositive,
            )
            &&& width is Some && height is Some && width.unwrap() > 0 && height.unwrap() > 0
                ==> resolution_of(text) == Ok::<OutputResolution, OutputResolutionError>(
                OutputResolution::Fixed { width: width.unwrap(), height: height.unwrap() },
            )
        },
        (forall|i: int| 0 <= i < text.len() ==> text[i] != 'x') ==> resolution_of(text) == Err::<
            OutputResolution,
            OutputResolutionError,
        >(OutputResolutionError::Shape),
{
    the_first_x_is_found(text);
    if 0 <= at < text.len() && text[at] == 'x' && (forall|i: int| 0 <= i < at ==> text[i] != 'x') {
        let found = first_x(text).unwrap();
        assert(found == at) by {
            if found < at {
                assert(text[found] != 'x');
            }
            if at < found {
                assert(text[at] != 'x');
            }
        }
    }
}

/// Settings are valid where the guidance scale lies between a half and one, the
/// distance threshold above zero and up to two, and the consistency threshold
/// between zero and one, by the bit patterns of these numbers.
pub proof fn thresholds_lie_in_their_ranges(config: Config)
    ensures
        config.thresholds_valid() <==> {
            &&& 0x3f00_0000 <= config.guidance_scale <= 0x3f80_0000
            &&& 0 < config.scene_distance_threshold <= 0x4000_0000
            &&& config.scene_consistency_threshold <= 0x3f80_0000
                || config.scene_consistency_threshold == 0x8000_0000
        },
{
}

/// The shaders know each view by its own number, below eleven.
pub proof fn each_view_has_its_number(view: DebugView, other: DebugView)
    ensures
        view.number() < 11,
        view.number() == other.number() <==> view == other,
        DebugView::Original.number() == 0,
        DebugView::Motion.number() == 2,
        DebugView::Reconstructed.number() == 4,
        DebugView::Exposure.number() == 10,
{
}

} // verus!
