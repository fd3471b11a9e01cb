use vstd::prelude::*;

use crate::clock::{GameTick, tick_diff};
use crate::render::game_sprites::GameSpriteKind;
use crate::render::layer::Layer;

verus! {

/// A sprite animation played once at a place.
#[derive(Copy, Clone, Debug)]
pub struct Animation {
    pub kind: GameSpriteKind,
    pub duration: u32,
    pub last_update_tick: GameTick,
    pub remaining_ticks: u32,
    pub current_frame: u16,
    pub frame_start: u16,
    pub frame_end: u16,
    pub position: [i32; 2],
    pub layer: Layer,
}

/// The animations playing now.
pub struct AnimationRenderer {
    pub animations: Vec<Animation>,
    pub last_update_tick: GameTick,
}

/// `ticks` minus `delta`, kept within the range of `u32`.
pub open spec fn sub_signed_clamped(ticks: u32, delta: i32) -> u32 {
    let v = ticks - delta;
    if v < 0 { 0 } else if v > u32::MAX { u32::MAX } else { v as u32 }
}

/// The ticks an animation has left at `tick`.
pub open spec fn ticks_left(a: Animation, tick: GameTick) -> u32 {
    sub_signed_clamped(a.remaining_ticks, tick_diff(tick.value, a.last_update_tick.value))
}

/// An animation that plays on at `tick` has frames to show.
pub open spec fn frames_ok(a: Animation, tick: GameTick) -> bool {
    ticks_left(a, tick) > 0 ==> a.frame_end > a.frame_start && a.duration / ((a.frame_end - a.frame_start) as u32) > 0
}

/// An animation after an update at `tick`, when it plays on.
pub open spec fn advanced(a: Animation, tick: GameTick) -> Animation {
    let left = ticks_left(a, tick);
    let frames = (a.frame_end - a.frame_start) as int;
    let per_frame = a.duration / (frames as u32);
    let elapsed: u32 = if a.duration > left { (a.duration - left) as u32 } else { 0 };
    let step = (elapsed / per_frame) as u16;
    Animation {
        remaining_ticks: left,
        current_frame: (a.frame_start + if step < frames - 1 { step as int } else { frames - 1 }) as u16,
        last_update_tick: if tick_diff(tick.value, a.last_update_tick.value) > 0 { tick } else { a.last_update_tick },
        ..a
    }
}

/// The animations from position `i` on after an update at `tick`: each
/// runs down, and those that are done are dropped.
pub open spec fn updated_from(anims: Seq<Animation>, tick: GameTick, i: int) -> Seq<Animation>
    decreases anims.len() - i,
{
    if i < 0 || i >= anims.len() {
        anims
    } else if ticks_left(anims[i], tick) == 0 {
        updated_from(anims.update(i, anims.last()).drop_last(), tick, i)
    } else {
        updated_from(anims.update(i, advanced(anims[i], tick)), tick, i + 1)
    }
}

/// The frame shown at `tick_value` of an animation of `frames` frames that
/// takes `duration` ticks and repeats.
pub open spec fn animation_index(tick_value: u32, frames: usize, duration: usize) -> usize {
    ((tick_value as usize / (duration / frames)) % frames) as usize
}

pub fn get_animation_index(tick_value: u32, frames: usize, duration: usize) -> (r: usize)
    requires
        frames > 0,
        duration / frames > 0,
    ensures
        r == animation_index(tick_value, frames, duration),
{
    let ticks_per_frame = duration / frames;
    let ticks = tick_value as usize;
    (ticks / ticks_per_frame) % frames
}

impl AnimationRenderer {
    pub fn new() -> (r: AnimationRenderer)
        ensures
            r.animations@.len() == 0,
            r.last_update_tick.value == 0,
    {
        AnimationRenderer { animations: Vec::new(), last_update_tick: GameTick::empty() }
    }

    pub fn clear(&mut self)
        ensures
            final(self).animations@.len() == 0,
            final(self).last_update_tick == old(self).last_update_tick,
    {
        self.animations.clear();
    }

    /// Runs the animations to `current_tick`: each advances its frame, and
    /// those that are done are dropped. Nothing happens when the tick has
    /// not moved.
    pub fn update(&mut self, current_tick: GameTick)
        requires
            forall|i: int| 0 <= i < old(self).animations@.len() ==> frames_ok(#[trigger] old(self).animations@[i], current_tick),
        ensures
            old(self).last_update_tick == current_tick ==> *final(self) == *old(self),
            old(self).last_update_tick != current_tick ==> {
                &&& final(self).animations@ == updated_from(old(self).animations@, current_tick, 0)
                &&& final(self).last_update_tick == current_tick
            },
    {
        if self.last_update_tick == current_tick {
            return;
        }
        let ghost a0 = self.animations@;
        let mut index: usize = 0;
        while index < self.animations.len()
            invariant
                index <= self.animations@.len(),
                updated_from(a0, current_tick, 0) == updated_from(self.animations@, current_tick, index as int),
                forall|i: int| index <= i < self.animations@.len() ==> frames_ok(#[trigger] self.animations@[i], current_tick),
            decreases self.animations@.len() - index,
        {
            let animation = self.animations[index];
            let ghost a = animation;
            let diff = current_tick.diff(&animation.last_update_tick);
            let left: u32 = if diff >= 0 {
                let d = diff as u32;
                if animation.remaining_ticks > d { animation.remaining_ticks - d } else { 0 }
            } else {
                let d = (0i64 - diff as i64) as u32;
                if animation.remaining_ticks > u32::MAX - d { u32::MAX } else { animation.remaining_ticks + d }
            };
            assert(left == ticks_left(a, current_tick));
            if left == 0 {
                let ghost before = self.animations@;
                self.animations.swap_remove(index);
                proof {
                    assert forall|i: int| index <= i < self.animations@.len() implies frames_ok(#[trigger] self.animations@[i], current_tick) by {
                        if i == index as int {
                            assert(self.animations@[i] == before[before.len() - 1]);
                        } else {
                            assert(self.animations@[i] == before[i]);
                        }
                    }
                }
                continue;
            }
            let frame_count = (animation.frame_end - animation.frame_start) as u32;
            let ticks_per_frame = animation.duration / frame_count;
            let tick_count = if animation.duration > left { animation.duration - left } else { 0 };
            let step = (tick_count / ticks_per_frame) as u16;
            let last = (frame_count - 1) as u16;
            let offset = if step < last { step } else { last };
            let mut next = animation;
            next.remaining_ticks = left;
            next.current_frame = animation.frame_start + offset;
            if diff > 0 {
                next.last_update_tick = current_tick;
            }
            let ghost before = self.animations@;
            self.animations.set(index, next);
            proof {
                assert(next == advanced(a, current_tick));
            }
            index = index + 1;
        }
        self.last_update_tick = current_tick;
    }

    /// Starts an animation of frames `frame_start` to `frame_end` at a place.
    pub fn add(
        &mut self,
        kind: GameSpriteKind,
        start_tick: GameTick,
        frame_start: usize,
        frame_end: usize,
        duration: u32,
        x_pixels: i32,
        y_pixels: i32,
        layer: Layer,
    )
        ensures
            final(self).animations@ == old(self).animations@.push(Animation {
                kind,
                duration,
                last_update_tick: start_tick,
                remaining_ticks: duration,
                current_frame: frame_start as u16,
                frame_start: frame_start as u16,
                frame_end: frame_end as u16,
                position: [x_pixels, y_pixels],
                layer,
            }),
            final(self).last_update_tick == old(self).last_update_tick,
    {
        self.animations.push(Animation {
            kind,
            duration,
            last_update_tick: start_tick,
            remaining_ticks: duration,
            current_frame: frame_start as u16,
            frame_start: frame_start as u16,
            frame_end: frame_end as u16,
            position: [x_pixels, y_pixels],
            layer,
        });
    }
}


/// The frame shown lies within the animation's frames.
pub open spec fn frame_in_range(a: Animation) -> bool {
    a.frame_start <= a.current_frame < a.frame_end
}

/// An animation that plays on: time left, and a frame within its frames.
pub open spec fn kept_playing(a: Animation) -> bool {
    a.remaining_ticks > 0 && frame_in_range(a)
}

proof fn lemma_updated_in_range(anims: Seq<Animation>, tick: GameTick, i: int)
    requires
        0 <= i,
        forall|j: int| 0 <= j < i && j < anims.len() ==> kept_playing(#[trigger] anims[j]),
        forall|j: int| i <= j < anims.len() ==> frames_ok(#[trigger] anims[j], tick),
    ensures
        forall|j: int| 0 <= j < updated_from(anims, tick, i).len() ==> kept_playing(#[trigger] updated_from(anims, tick, i)[j]),
    decreases anims.len() - i,
{
    if i < anims.len() {
        if ticks_left(anims[i], tick) == 0 {
            let t = anims.update(i, anims.last()).drop_last();
            assert forall|j: int| i <= j < t.len() implies frames_ok(#[trigger] t[j], tick) by {
                if j == i {
                    assert(t[j] == anims[anims.len() - 1]);
                } else {
                    assert(t[j] == anims[j]);
                }
            }
            assert forall|j: int| 0 <= j < i && j < t.len() implies kept_playing(#[trigger] t[j]) by {
                assert(t[j] == anims[j]);
            }
            lemma_updated_in_range(t, tick, i);
            assert(updated_from(anims, tick, i) == updated_from(t, tick, i));
        } else {
            let t = anims.update(i, advanced(anims[i], tick));
            assert(frames_ok(anims[i], tick));
            assert(kept_playing(advanced(anims[i], tick)));
            assert forall|j: int| i + 1 <= j < t.len() implies frames_ok(#[trigger] t[j], tick) by {
                assert(t[j] == anims[j]);
            }
            assert forall|j: int| 0 <= j < i + 1 && j < t.len() implies kept_playing(#[trigger] t[j]) by {
                if j < i {
                    assert(t[j] == anims[j]);
                }
            }
            lemma_updated_in_range(t, tick, i + 1);
            assert(updated_from(anims, tick, i) == updated_from(t, tick, i + 1));
        }
    } else {
        assert(updated_from(anims, tick, i) == anims);
    }
}

/// After an update every animation kept has time left and shows a frame
/// within its own frames; those whose time ran out are gone.
pub proof fn lemma_update_frames_in_range(anims: Seq<Animation>, tick: GameTick)
    requires
        forall|j: int| 0 <= j < anims.len() ==> frames_ok(#[trigger] anims[j], tick),
    ensures
        forall|j: int| 0 <= j < updated_from(anims, tick, 0).len() ==> kept_playing(#[trigger] updated_from(anims, tick, 0)[j]),
{
    lemma_updated_in_range(anims, tick, 0);
}

} // verus!
