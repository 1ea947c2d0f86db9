//! The state of a renderer between frames.

use crate::geometry::{DevicePixels, Size};
use vstd::prelude::*;
use vstd::string::StringExecFns;

verus! {

/// What shows through where a window paints nothing.
#[derive(Clone, Copy, Debug, PartialEq, Eq, Structural)]
pub enum WindowBackgroundAppearance {
    /// Nothing.
    Opaque,
    /// What is behind the window.
    Transparent,
    /// What is behind the window, blurred.
    Blurred,
    /// The system's own backdrop.
    System,
}

/// The colour that a frame starts from: all channels full, or all empty.
#[derive(Clone, Copy, Debug, PartialEq, Eq, Structural)]
pub enum ClearColor {
    Full,
    Empty,
}

/// What a renderer does with a frame.
#[derive(Clone, Copy, Debug, PartialEq, Eq, Structural)]
pub enum FramePlan {
    /// Nothing: the textures that the frame needs were lost with the device.
    Skip,
    /// Draw it, from this colour.
    Draw(ClearColor),
}

/// The state of a renderer between frames.
#[derive(Clone, Copy, Debug, PartialEq, Eq, Structural)]
pub struct RendererState {
    pub width: u32,
    pub height: u32,
    /// Whether frames are skipped, since the device was lost in the middle of
    /// one.
    pub skip_draws: bool,
    pub has_devices: bool,
    pub has_resources: bool,
    /// Whether the window is composed with what is behind it.
    pub has_composition: bool,
}

/// The length of a window that is asked to have the given length.
pub open spec fn window_length(length: i32) -> u32 {
    if length < 1 {
        1
    } else {
        length as u32
    }
}

impl RendererState {
    /// A renderer that has just been created.
    pub fn new(disable_direct_composition: bool) -> (result: Self)
        ensures
            result == (RendererState {
                width: 1,
                height: 1,
                skip_draws: false,
                has_devices: true,
                has_resources: true,
                has_composition: !disable_direct_composition,
            }),
    {
        RendererState {
            width: 1,
            height: 1,
            skip_draws: false,
            has_devices: true,
            has_resources: true,
            has_composition: !disable_direct_composition,
        }
    }

    /// What to do with a frame.
    pub fn draw(&self, background_appearance: WindowBackgroundAppearance) -> (result: FramePlan)
        ensures
            result == (if self.skip_draws {
                FramePlan::Skip
            } else if background_appearance == WindowBackgroundAppearance::Opaque {
                FramePlan::Draw(ClearColor::Full)
            } else {
                FramePlan::Draw(ClearColor::Empty)
            }),
    {
        if self.skip_draws {
            return FramePlan::Skip;
        }
        match background_appearance {
            WindowBackgroundAppearance::Opaque => FramePlan::Draw(ClearColor::Full),
            _ => FramePlan::Draw(ClearColor::Empty),
        }
    }

    /// Draws frames again.
    pub fn mark_drawable(&mut self)
        ensures
            *final(self) == (RendererState { skip_draws: false, ..*old(self) }),
    {
        self.skip_draws = false;
    }

    /// Takes on another size, never without extent, and says whether the
    /// buffers have to follow.
    pub fn resize(&mut self, new_size: Size<DevicePixels>) -> (result: bool)
        ensures
            *final(self) == (RendererState {
                width: window_length(new_size.width.0),
                height: window_length(new_size.height.0),
                ..*old(self)
            }),
            result == (*final(self) != *old(self)),
    {
        let width: u32 = if new_size.width.0 < 1 {
            1
        } else {
            new_size.width.0 as u32
        };
        let height: u32 = if new_size.height.0 < 1 {
            1
        } else {
            new_size.height.0 as u32
        };
        if self.width == width && self.height == height {
            return false;
        }
        self.width = width;
        self.height = height;
        true
    }

    /// Lets go of everything that lived on a lost device, and says whether the
    /// new one goes without composition: it does where the lost one did.
    pub fn begin_recovery(&mut self) -> (disable_direct_composition: bool)
        ensures
            disable_direct_composition == !old(self).has_composition,
            *final(self) == (RendererState {
                has_devices: false,
                has_resources: false,
                has_composition: false,
                ..*old(self)
            }),
    {
        let disable_direct_composition = !self.has_composition;
        self.has_resources = false;
        self.has_composition = false;
        self.has_devices = false;
        disable_direct_composition
    }

    /// Takes up what was created on a new device. The frame that the loss fell
    /// into is skipped.
    pub fn finish_recovery(&mut self, disable_direct_composition: bool)
        ensures
            *final(self) == (RendererState {
                has_devices: true,
                has_resources: true,
                has_composition: !disable_direct_composition,
                skip_draws: true,
                ..*old(self)
            }),
    {
        self.has_devices = true;
        self.has_resources = true;
        self.has_composition = !disable_direct_composition;
        self.skip_draws = true;
    }
}

/// The messages that were given, each of which is given once.
#[derive(Debug)]
pub struct AdvisoryLog {
    pub seen: Vec<String>,
}

/// What a list of texts holds.
pub open spec fn texts(list: Seq<String>) -> Seq<Seq<char>> {
    Seq::new(list.len(), |i: int| list[i]@)
}

impl View for AdvisoryLog {
    type V = Seq<Seq<char>>;

    open spec fn view(&self) -> Seq<Seq<char>> {
        texts(self.seen@)
    }
}

/// The messages given so far, once another one was to be given.
pub open spec fn advised(given: Seq<Seq<char>>, message: Seq<char>) -> Seq<Seq<char>> {
    if given.contains(message) {
        given
    } else {
        given.push(message)
    }
}

/// The messages given so far, once some others were to be given.
pub open spec fn advised_all(given: Seq<Seq<char>>, messages: Seq<Seq<char>>) -> Seq<Seq<char>>
    decreases messages.len(),
{
    if messages.len() == 0 {
        given
    } else {
        advised(advised_all(given, messages.drop_last()), messages.last())
    }
}

impl AdvisoryLog {
    /// A log in which nothing was said.
    pub fn new() -> (result: Self)
        ensures
            result@ == Seq::<Seq<char>>::empty(),
    {
        let result = AdvisoryLog { seen: Vec::new() };
        assert(result@ =~= Seq::<Seq<char>>::empty());
        result
    }

    /// Whether a message is to be given now: only if it was not given before.
    pub fn effects_advisory(&mut self, message: &str) -> (result: bool)
        ensures
            result == !old(self)@.contains(message@),
            final(self)@ == advised(old(self)@, message@),
    {
        let text = String::from_str(message);
        let mut index: usize = 0;
        while index < self.seen.len()
            invariant
                index <= self.seen.len(),
                self@ == old(self)@,
                text@ == message@,
                forall|i: int| 0 <= i < index ==> (#[trigger] self@[i]) != message@,
            decreases self.seen.len() - index,
        {
            if self.seen[index] == text {
                assert(self@[index as int] == message@);
                return false;
            }
            index = index + 1;
        }
        proof {
            assert(!old(self)@.contains(message@));
        }
        self.seen.push(text);
        assert(self@ =~= old(self)@.push(message@));
        true
    }
}

/// Law: a message that was to be given, and so was given, is never given again,
/// whatever else is to be given in between; and no message is given twice.
pub proof fn lemma_advisory_is_given_once(
    given: Seq<Seq<char>>,
    message: Seq<char>,
    others: Seq<Seq<char>>,
)
    ensures
        advised_all(advised(given, message), others).contains(message),
        given.no_duplicates() ==> advised_all(advised(given, message), others).no_duplicates(),
    decreases others.len(),
{
    if others.len() == 0 {
        if !given.contains(message) {
            assert(given.push(message)[given.len() as int] == message);
        }
    } else {
        lemma_advisory_is_given_once(given, message, others.drop_last());
        let before = advised_all(advised(given, message), others.drop_last());
        let i = choose|i: int| 0 <= i < before.len() && before[i] == message;
        assert(advised(before, others.last())[i] == message);
    }
}

/// Law: a window has the length that it is asked to have, but never none.
pub proof fn lemma_window_length_is_as_asked(length: i32)
    ensures
        window_length(length) >= 1,
        length >= 1 ==> window_length(length) == length,
        length < 1 ==> window_length(length) == 1,
{
}

/// Law: the messages given are those that were given and the one that was to be given;
/// what was given stays where it is.
pub proof fn lemma_advised_adds_one_message(
    given: Seq<Seq<char>>,
    message: Seq<char>,
    other: Seq<char>,
)
    ensures
        advised(given, message).contains(other) <==> given.contains(other) || other == message,
        given.is_prefix_of(advised(given, message)),
        advised(given, message).len() == given.len() + (if given.contains(message) {
            0int
        } else {
            1int
        }),
{
    if !given.contains(message) {
        let after = given.push(message);
        assert(after[given.len() as int] == message);
        if given.contains(other) {
            let i = choose|i: int| 0 <= i < given.len() && given[i] == other;
            assert(after[i] == other);
        }
        if after.contains(other) && other != message {
            let i = choose|i: int| 0 <= i < after.len() && after[i] == other;
            assert(given[i] == other);
        }
    }
}

/// Law: the log holds the texts of its messages, each in its place.
pub proof fn lemma_log_shows_its_messages(log: AdvisoryLog)
    ensures
        log@.len() == log.seen@.len(),
        forall|i: int| 0 <= i < log.seen@.len() ==> #[trigger] log@[i] == log.seen@[i]@,
{
}

} // verus!
