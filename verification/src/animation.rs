//! Facing directions and the frame clock of an animation.
//!
//! Times are whole nanoseconds.

use vstd::prelude::*;
use vstd::arithmetic::div_mod::{lemma_add_mod_noop_right, lemma_mod_self_0, lemma_small_mod};
use crate::region::Region;

verus! {

/// The four cardinal facings of an entity.
#[derive(Clone, Copy, PartialEq, Eq, Structural, Hash, Debug)]
pub enum Direction {
    Up,
    Down,
    Left,
    Right,
}

/// The direction an entity faced last.
#[derive(Clone, Copy, PartialEq, Eq, Structural, Debug)]
pub struct LastDirection(pub Direction);

/// The facing that selects which clip of an entity is shown.
#[derive(Clone, Copy, PartialEq, Eq, Structural, Debug)]
pub struct EntityAnimation {
    pub direction: Direction,
}

/// Names of the four clips of a character.
#[derive(Clone, Copy, PartialEq, Eq, Structural, Hash, Debug)]
pub enum AnimationKey {
    PlayerUp,
    PlayerDown,
    PlayerLeft,
    PlayerRight,
}

impl AnimationKey {
    /// The facing whose clip the key names.
    pub open spec fn spec_direction(self) -> Direction {
        match self {
            AnimationKey::PlayerUp => Direction::Up,
            AnimationKey::PlayerDown => Direction::Down,
            AnimationKey::PlayerLeft => Direction::Left,
            AnimationKey::PlayerRight => Direction::Right,
        }
    }

    /// The facing whose clip the key names.
    pub fn direction(self) -> (d: Direction)
        ensures
            d == self.spec_direction(),
    {
        match self {
            AnimationKey::PlayerUp => Direction::Up,
            AnimationKey::PlayerDown => Direction::Down,
            AnimationKey::PlayerLeft => Direction::Left,
            AnimationKey::PlayerRight => Direction::Right,
        }
    }

    /// The key of the clip for a facing.
    pub fn for_direction(direction: Direction) -> (key: AnimationKey)
        ensures
            key.spec_direction() == direction,
    {
        match direction {
            Direction::Up => AnimationKey::PlayerUp,
            Direction::Down => AnimationKey::PlayerDown,
            Direction::Left => AnimationKey::PlayerLeft,
            Direction::Right => AnimationKey::PlayerRight,
        }
    }
}

/// One looping clip: its frames and the clock that steps through them.
#[derive(Debug)]
pub struct Anim {
    pub frames: Vec<Region>,
    /// How long a frame is shown.
    pub frame_duration: u64,
    /// How long the current frame has been shown.
    pub time_elapsed: u64,
    pub frame_index: usize,
}

/// An [`Anim`] as a mathematical value.
pub struct AnimView {
    pub frames: Seq<Region>,
    pub frame_duration: nat,
    pub time_elapsed: nat,
    pub frame_index: nat,
}

impl View for Anim {
    type V = AnimView;

    open spec fn view(&self) -> AnimView {
        AnimView {
            frames: self.frames@,
            frame_duration: self.frame_duration as nat,
            time_elapsed: self.time_elapsed as nat,
            frame_index: self.frame_index as nat,
        }
    }
}

impl AnimView {
    /// Whether the clock points at one of its frames.
    pub open spec fn has_frame(self) -> bool {
        self.frame_index < self.frames.len()
    }

    /// Whether `dt` more makes the time in the current frame exceed the
    /// frame's duration.
    pub open spec fn rolls_over(self, dt: nat) -> bool {
        self.time_elapsed + dt > self.frame_duration
    }

    /// The index after the current one, back at 0 past the last frame.
    pub open spec fn next_index(self) -> nat {
        if self.frame_index + 1 < self.frames.len() {
            self.frame_index + 1
        } else {
            0
        }
    }

    /// The clock after `dt` more: where that exceeds the frame's duration the
    /// next frame starts afresh, else the time is added to the current frame.
    pub open spec fn advanced(self, dt: nat) -> AnimView {
        if self.rolls_over(dt) {
            AnimView { time_elapsed: 0, frame_index: self.next_index(), ..self }
        } else {
            AnimView { time_elapsed: self.time_elapsed + dt, ..self }
        }
    }

    /// The clock after one advance for each of `dts` in turn.
    pub open spec fn advanced_by(self, dts: Seq<nat>) -> AnimView
        decreases dts.len(),
    {
        if dts.len() == 0 {
            self
        } else {
            self.advanced_by(dts.drop_last()).advanced(dts.last())
        }
    }

    /// How many of the advances by `dts` start a new frame.
    pub open spec fn rollovers(self, dts: Seq<nat>) -> nat
        decreases dts.len(),
    {
        if dts.len() == 0 {
            0
        } else {
            self.rollovers(dts.drop_last()) + (if self.advanced_by(dts.drop_last()).rolls_over(
                dts.last(),
            ) {
                1nat
            } else {
                0nat
            })
        }
    }
}

/// The sum of `dts`.
pub open spec fn total_time(dts: Seq<nat>) -> nat
    decreases dts.len(),
{
    if dts.len() == 0 {
        0
    } else {
        total_time(dts.drop_last()) + dts.last()
    }
}

impl Clone for Anim {
    fn clone(&self) -> (copy: Self)
        ensures
            copy@ == self@,
    {
        Anim::restore(
            self.frames.as_slice(),
            self.frame_duration,
            self.time_elapsed,
            self.frame_index,
        )
    }
}

impl Anim {
    /// A clip over copies of `frames` with the given clock.
    fn restore(frames: &[Region], frame_duration: u64, time_elapsed: u64, frame_index: usize) -> (anim:
        Anim)
        ensures
            anim@ == (AnimView {
                frames: frames@,
                frame_duration: frame_duration as nat,
                time_elapsed: time_elapsed as nat,
                frame_index: frame_index as nat,
            }),
    {
        let mut copy: Vec<Region> = Vec::new();
        let mut i: usize = 0;
        while i < frames.len()
            invariant
                i <= frames.len(),
                copy@ == frames@.take(i as int),
            decreases frames.len() - i,
        {
            copy.push(frames[i]);
            i += 1;
        }
        assert(frames@.take(frames.len() as int) =~= frames@);
        Anim { frames: copy, frame_duration, time_elapsed, frame_index }
    }

    /// A clip over `frames` that shows each for `frame_duration`, at the
    /// start of its first frame.
    pub fn new(frames: &[Region], frame_duration: u64) -> (anim: Anim)
        ensures
            anim@ == (AnimView {
                frames: frames@,
                frame_duration: frame_duration as nat,
                time_elapsed: 0,
                frame_index: 0,
            }),
    {
        Anim::restore(frames, frame_duration, 0, 0)
    }

    /// Lets `delta_time` pass. Where the time in the current frame then
    /// exceeds the frame's duration, the next frame starts with no time
    /// spent in it, the first one after the last; else the time is added to
    /// the current frame.
    pub fn advance(&mut self, delta_time: u64)
        ensures
            final(self)@ == old(self)@.advanced(delta_time as nat),
    {
        let elapsed: u128 = self.time_elapsed as u128 + delta_time as u128;
        if elapsed > self.frame_duration as u128 {
            self.time_elapsed = 0;
            if self.frames.len() > 0 && self.frame_index < self.frames.len() - 1 {
                self.frame_index = self.frame_index + 1;
            } else {
                self.frame_index = 0;
            }
        } else {
            self.time_elapsed = elapsed as u64;
        }
    }

    /// The frame that the clock points at.
    pub fn get_current_frame(&self) -> (frame: Region)
        requires
            self@.has_frame(),
        ensures
            frame == self@.frames[self@.frame_index as int],
    {
        self.frames[self.frame_index]
    }

    /// The frame that the clock points at; `None` for a clip without frames
    /// and for an index past the last frame.
    pub fn current_frame(&self) -> (frame: Option<Region>)
        ensures
            frame == (if self@.has_frame() {
                Some(self@.frames[self@.frame_index as int])
            } else {
                None
            }),
    {
        if self.frame_index < self.frames.len() {
            Some(self.frames[self.frame_index])
        } else {
            None
        }
    }
}

/// The four clips of a character, one for each facing.
#[derive(Debug)]
pub struct AnimationData {
    pub left: Anim,
    pub right: Anim,
    pub up: Anim,
    pub down: Anim,
}

/// An [`AnimationData`] as a mathematical value.
pub struct AnimationDataView {
    pub left: AnimView,
    pub right: AnimView,
    pub up: AnimView,
    pub down: AnimView,
}

impl View for AnimationData {
    type V = AnimationDataView;

    open spec fn view(&self) -> AnimationDataView {
        AnimationDataView {
            left: self.left@,
            right: self.right@,
            up: self.up@,
            down: self.down@,
        }
    }
}

impl AnimationDataView {
    /// The clip for a facing.
    pub open spec fn clip(self, direction: Direction) -> AnimView {
        match direction {
            Direction::Up => self.up,
            Direction::Down => self.down,
            Direction::Left => self.left,
            Direction::Right => self.right,
        }
    }

    /// These clips after `dt` more on the clip for `direction`; the other
    /// three stand still.
    pub open spec fn advanced(self, direction: Direction, dt: nat) -> AnimationDataView {
        match direction {
            Direction::Up => AnimationDataView { up: self.up.advanced(dt), ..self },
            Direction::Down => AnimationDataView { down: self.down.advanced(dt), ..self },
            Direction::Left => AnimationDataView { left: self.left.advanced(dt), ..self },
            Direction::Right => AnimationDataView { right: self.right.advanced(dt), ..self },
        }
    }
}

impl Clone for AnimationData {
    fn clone(&self) -> (copy: Self)
        ensures
            copy@ == self@,
    {
        AnimationData {
            left: self.left.clone(),
            right: self.right.clone(),
            up: self.up.clone(),
            down: self.down.clone(),
        }
    }
}

impl AnimationData {
    /// The clip for a facing.
    pub fn clip(&self, direction: Direction) -> (anim: &Anim)
        ensures
            anim@ == self@.clip(direction),
    {
        match direction {
            Direction::Up => &self.up,
            Direction::Down => &self.down,
            Direction::Left => &self.left,
            Direction::Right => &self.right,
        }
    }

    /// The clip that a key names.
    pub fn get(&self, key: AnimationKey) -> (anim: &Anim)
        ensures
            anim@ == self@.clip(key.spec_direction()),
    {
        self.clip(key.direction())
    }

    /// Lets `delta_time` pass on the clip for `direction` and on no other.
    pub fn advance(&mut self, direction: Direction, delta_time: u64)
        ensures
            final(self)@ == old(self)@.advanced(direction, delta_time as nat),
    {
        match direction {
            Direction::Up => self.up.advance(delta_time),
            Direction::Down => self.down.advance(delta_time),
            Direction::Left => self.left.advance(delta_time),
            Direction::Right => self.right.advance(delta_time),
        }
    }
}

/// A run of advances changes neither the frames nor the frame duration, and
/// leaves the clock pointing at a frame if it did before.
pub proof fn lemma_run_keeps_clip(clock: AnimView, dts: Seq<nat>)
    ensures
        clock.advanced_by(dts).frames == clock.frames,
        clock.advanced_by(dts).frame_duration == clock.frame_duration,
        clock.has_frame() ==> clock.advanced_by(dts).has_frame(),
        clock.time_elapsed <= clock.frame_duration ==> clock.advanced_by(dts).time_elapsed
            <= clock.frame_duration,
    decreases dts.len(),
{
    if dts.len() > 0 {
        lemma_run_keeps_clip(clock, dts.drop_last());
    }
}

/// After a run of advances the frame index is the index at the start moved
/// on by the number of frames that the run started, counted around the clip.
pub proof fn lemma_index_after_run(clock: AnimView, dts: Seq<nat>)
    requires
        clock.has_frame(),
    ensures
        clock.advanced_by(dts).frame_index == (clock.frame_index + clock.rollovers(dts))
            % clock.frames.len(),
    decreases dts.len(),
{
    let n = clock.frames.len() as int;
    let start = clock.frame_index as int;
    if dts.len() == 0 {
        lemma_small_mod(clock.frame_index, n as nat);
    } else {
        let before = clock.advanced_by(dts.drop_last());
        let r = clock.rollovers(dts.drop_last()) as int;
        lemma_index_after_run(clock, dts.drop_last());
        lemma_run_keeps_clip(clock, dts.drop_last());
        let j = before.frame_index as int;
        if before.rolls_over(dts.last()) {
            lemma_add_mod_noop_right(1, start + r, n);
            if j + 1 < n {
                lemma_small_mod((1 + j) as nat, n as nat);
            } else {
                lemma_mod_self_0(n);
            }
        } else {
        }
    }
}

/// Full loops return to the start: a run of advances whose time sums to a
/// whole number of frame durations, and which starts a whole number of
/// clip lengths of new frames, leaves the frame index where it was.
pub proof fn lemma_full_loops_return_to_start(clock: AnimView, dts: Seq<nat>, n: nat)
    requires
        clock.has_frame(),
        total_time(dts) == n * clock.frame_duration,
        clock.rollovers(dts) % clock.frames.len() == 0,
    ensures
        clock.advanced_by(dts).frame_index == clock.frame_index,
{
    let len = clock.frames.len() as int;
    lemma_index_after_run(clock, dts);
    lemma_add_mod_noop_right(clock.frame_index as int, clock.rollovers(dts) as int, len);
    lemma_small_mod(clock.frame_index, len as nat);
}

} // verus!
