//! Sprite-animation bookkeeping: timed frame sequences, the per-entity
//! animation components, the system that stores live components under
//! integer handles, the registry of named animations, and the sprite-sheet
//! metadata that maps frame names to texture rectangles.
//!
//! Times are in whole milliseconds. Rendering itself (building texture
//! fraction rectangles and draw calls) belongs to the game shell; this
//! module owns the state and the frame-advance rules.

use vstd::prelude::*;

verus! {

/// First match in an association list, searched front to back.
pub open spec fn assoc_lookup<T>(entries: Seq<(String, T)>, key: Seq<char>) -> Option<T>
    decreases entries.len(),
{
    if entries.len() == 0 {
        None
    } else if entries[0].0@ == key {
        Some(entries[0].1)
    } else {
        assoc_lookup(entries.drop_first(), key)
    }
}

/// A named sequence of sprite-sheet frames, each shown for
/// `time_per_frame` milliseconds, optionally looping.
#[derive(Debug, PartialEq)]
pub struct SpriteAnimation {
    pub frames: Vec<String>,
    pub time_per_frame: u32,
    pub loop_anim: bool,
}

/// Two animations with the same frame names, timing and looping flag. The
/// backing vectors may be distinct allocations, which is as close to
/// equality as a clone can get.
pub open spec fn anim_like(a: SpriteAnimation, b: SpriteAnimation) -> bool {
    &&& a.frames@ == b.frames@
    &&& a.time_per_frame == b.time_per_frame
    &&& a.loop_anim == b.loop_anim
}

impl Clone for SpriteAnimation {
    fn clone(&self) -> (r: Self)
        ensures
            anim_like(*self, r),
    {
        let frames = self.frames.clone();
        proof {
            assert(frames@ =~= self.frames@);
        }
        SpriteAnimation { frames, time_per_frame: self.time_per_frame, loop_anim: self.loop_anim }
    }
}

/// One playing animation: the animation data plus the playhead.
#[derive(Clone, Debug, PartialEq)]
pub struct SpriteAnimationComponent {
    pub animation: SpriteAnimation,
    pub current_time: u32,
    pub current_frame: usize,
    pub finished: bool,
}

/// A freshly started playback of `a`: at the first frame, zero elapsed
/// time, not finished.
pub open spec fn spec_component_new(a: SpriteAnimation) -> SpriteAnimationComponent {
    SpriteAnimationComponent { animation: a, current_time: 0, current_frame: 0, finished: false }
}

/// Componentwise agreement of two playbacks, with [`anim_like`] on the
/// animation data.
pub open spec fn component_like(a: SpriteAnimationComponent, b: SpriteAnimationComponent) -> bool {
    &&& anim_like(a.animation, b.animation)
    &&& a.current_time == b.current_time
    &&& a.current_frame == b.current_frame
    &&& a.finished == b.finished
}

/// The playhead after `tick` more milliseconds: a finished animation stays
/// put; otherwise, once the accumulated time would pass the per-frame time,
/// the timer resets and the playhead advances, wraps (for a looping
/// animation), or marks the animation finished.
pub open spec fn component_ticked(c: SpriteAnimationComponent, tick: u32) -> SpriteAnimationComponent {
    if c.finished {
        c
    } else if c.current_time + tick > c.animation.time_per_frame {
        if c.current_frame + 1 < c.animation.frames.len() {
            SpriteAnimationComponent {
                animation: c.animation,
                current_time: 0,
                current_frame: ((c.current_frame + 1) as usize),
                finished: false,
            }
        } else if c.animation.loop_anim {
            SpriteAnimationComponent {
                animation: c.animation,
                current_time: 0,
                current_frame: 0,
                finished: false,
            }
        } else {
            SpriteAnimationComponent {
                animation: c.animation,
                current_time: 0,
                current_frame: c.current_frame,
                finished: true,
            }
        }
    } else {
        SpriteAnimationComponent {
            animation: c.animation,
            current_time: ((c.current_time + tick) as u32),
            current_frame: c.current_frame,
            finished: c.finished,
        }
    }
}

impl SpriteAnimationComponent {
    /// The playhead always points at a frame, except that an animation
    /// without frames keeps it parked at zero.
    pub open spec fn wf(&self) -> bool {
        self.current_frame < self.animation.frames.len() || (self.current_frame == 0
            && self.animation.frames.len() == 0)
    }

    pub fn new(animation: &SpriteAnimation) -> (c: SpriteAnimationComponent)
        ensures
            component_like(c, spec_component_new(*animation)),
            c.wf(),
    {
        SpriteAnimationComponent {
            animation: animation.clone(),
            current_time: 0,
            current_frame: 0,
            finished: false,
        }
    }

    /// Advance the playhead by `tick` milliseconds.
    pub fn time_tick(&mut self, tick: u32)
        requires
            old(self).wf(),
        ensures
            final(self).wf(),
            *final(self) == component_ticked(*old(self), tick),
    {
        if !self.finished {
            if self.current_time as u64 + tick as u64 > self.animation.time_per_frame as u64 {
                self.current_time = 0;
                if self.current_frame + 1 < self.animation.frames.len() {
                    self.current_frame = self.current_frame + 1;
                } else if self.animation.loop_anim {
                    self.current_frame = 0;
                } else {
                    self.finished = true;
                }
            } else {
                self.current_time = self.current_time + tick;
            }
        }
    }

    /// The frame the playhead currently rests on.
    pub fn get_frame(&self) -> (r: &String)
        requires
            self.wf(),
            self.animation.frames.len() > 0,
        ensures
            *r == self.animation.frames[self.current_frame as int],
    {
        &self.animation.frames[self.current_frame]
    }
}

/// Live animation components, addressed by the index they were added at.
/// Removing a component shifts every later handle down by one, exactly as
/// removing from the underlying vector does.
#[derive(Debug, PartialEq)]
pub struct SpriteAnimationSystem {
    store: Vec<SpriteAnimationComponent>,
}

impl View for SpriteAnimationSystem {
    type V = Seq<SpriteAnimationComponent>;

    closed spec fn view(&self) -> Seq<SpriteAnimationComponent> {
        self.store@
    }
}

impl SpriteAnimationSystem {
    pub open spec fn wf(&self) -> bool {
        forall|i: int| 0 <= i < self@.len() ==> (#[trigger] self@[i]).wf()
    }

    pub fn new() -> (s: SpriteAnimationSystem)
        ensures
            s@ =~= Seq::<SpriteAnimationComponent>::empty(),
            s.wf(),
    {
        SpriteAnimationSystem { store: Vec::new() }
    }

    /// Store a component and hand back its handle.
    pub fn add_anim(&mut self, anim: SpriteAnimationComponent) -> (handle: usize)
        requires
            old(self).wf(),
            anim.wf(),
        ensures
            final(self).wf(),
            final(self)@ == old(self)@.push(anim),
            handle == old(self)@.len(),
    {
        self.store.push(anim);
        proof {
            assert forall|i: int| 0 <= i < self@.len() implies (#[trigger] self@[i]).wf() by {
                if i < old(self)@.len() {
                    assert(old(self)@[i].wf());
                }
            }
        }
        self.store.len() - 1
    }

    /// Start a playback of the registry animation stored under
    /// `registry_key`, if there is one, and hand back its handle.
    pub fn add_registered_anim(
        &mut self,
        registry_key: String,
        registry: &SpriteAnimationRegistry,
    ) -> (r: Option<usize>)
        requires
            old(self).wf(),
        ensures
            final(self).wf(),
            match assoc_lookup(registry@, registry_key@) {
                Some(anim) => r == Some(old(self)@.len() as usize) && final(self)@.len() == old(
                    self,
                )@.len() + 1 && final(self)@.subrange(0, old(self)@.len() as int) == old(self)@
                    && component_like(
                    final(self)@[old(self)@.len() as int],
                    spec_component_new(anim),
                ),
                None => r is None && final(self)@ == old(self)@,
            },
    {
        if let Some(anim) = registry.get_anim(registry_key) {
            Some(self.add_anim(SpriteAnimationComponent::new(anim)))
        } else {
            None
        }
    }

    /// Drop the component stored at `handle`; later handles shift down.
    pub fn remove_anim(&mut self, anim_handle: usize)
        requires
            old(self).wf(),
            anim_handle < old(self)@.len(),
        ensures
            final(self).wf(),
            final(self)@ == old(self)@.remove(anim_handle as int),
    {
        self.store.remove(anim_handle);
        proof {
            assert forall|i: int| 0 <= i < self@.len() implies (#[trigger] self@[i]).wf() by {
                if i < anim_handle {
                    assert(self@[i] == old(self)@[i]);
                } else {
                    assert(self@[i] == old(self)@[i + 1]);
                }
            }
        }
    }

    /// Advance every stored component by `tick` milliseconds.
    pub fn time_tick(&mut self, tick: u32)
        requires
            old(self).wf(),
        ensures
            final(self).wf(),
            final(self)@.len() == old(self)@.len(),
            forall|i: int|
                0 <= i < old(self)@.len() ==> final(self)@[i] == component_ticked(
                    old(self)@[i],
                    tick,
                ),
    {
        let ghost orig = self@;
        let n = self.store.len();
        let mut i: usize = 0;
        while i < n
            invariant
                n == self@.len(),
                i <= n,
                orig.len() == n,
                forall|j: int| 0 <= j < orig.len() ==> (#[trigger] orig[j]).wf(),
                forall|j: int| i <= j < n ==> #[trigger] self@[j] == orig[j],
                forall|j: int| 0 <= j < i ==> #[trigger] self@[j] == component_ticked(orig[j], tick),
            decreases n - i,
        {
            self.store[i].time_tick(tick);
            i = i + 1;
        }
    }

    /// The component stored at `handle`, if the handle is live.
    pub fn get_anim(&self, anim_handle: usize) -> (r: Option<&SpriteAnimationComponent>)
        ensures
            match r {
                Some(c) => anim_handle < self@.len() && *c == self@[anim_handle as int],
                None => anim_handle >= self@.len(),
            },
    {
        if anim_handle < self.store.len() {
            Some(&self.store[anim_handle])
        } else {
            None
        }
    }

    /// The frame that the component at `handle` currently shows.
    pub fn get_frame(&self, anim_handle: usize) -> (r: Option<&String>)
        requires
            self.wf(),
            anim_handle < self@.len() ==> self@[anim_handle as int].animation.frames.len() > 0,
        ensures
            match r {
                Some(s) => anim_handle < self@.len() && *s
                    == self@[anim_handle as int].animation.frames[self@[anim_handle as int].current_frame as int],
                None => anim_handle >= self@.len(),
            },
    {
        if anim_handle < self.store.len() {
            Some(self.store[anim_handle].get_frame())
        } else {
            None
        }
    }

    /// Whether the component at `handle` exists and has finished playing.
    pub fn anim_finished(&self, anim_handle: usize) -> (r: bool)
        ensures
            r == (anim_handle < self@.len() && self@[anim_handle as int].finished),
    {
        if anim_handle < self.store.len() {
            self.store[anim_handle].finished
        } else {
            false
        }
    }
}

/// Named animations an entity can start a playback of. Adding an animation
/// under an existing name shadows the old entry.
#[derive(Debug, PartialEq)]
pub struct SpriteAnimationRegistry {
    entries: Vec<(String, SpriteAnimation)>,
}

impl View for SpriteAnimationRegistry {
    type V = Seq<(String, SpriteAnimation)>;

    closed spec fn view(&self) -> Seq<(String, SpriteAnimation)> {
        self.entries@
    }
}

impl SpriteAnimationRegistry {
    pub fn new() -> (r: SpriteAnimationRegistry)
        ensures
            r@ =~= Seq::<(String, SpriteAnimation)>::empty(),
    {
        SpriteAnimationRegistry { entries: Vec::new() }
    }

    /// Register `anim` under `anim_key`; a previous entry under the same
    /// key is shadowed, every other key is untouched.
    pub fn add_anim(&mut self, anim_key: String, anim: SpriteAnimation)
        ensures
            assoc_lookup(final(self)@, anim_key@) == Some(anim),
            forall|q: Seq<char>|
                q != anim_key@ ==> assoc_lookup(final(self)@, q) == assoc_lookup(old(self)@, q),
    {
        self.entries.insert(0, (anim_key, anim));
        proof {
            assert(self@.drop_first() =~= old(self)@);
        }
    }

    /// The animation registered under `anim_key`, if any.
    pub fn get_anim(&self, anim_key: String) -> (r: Option<&SpriteAnimation>)
        ensures
            match r {
                Some(a) => assoc_lookup(self@, anim_key@) == Some(*a),
                None => assoc_lookup(self@, anim_key@) is None,
            },
    {
        let n = self.entries.len();
        let mut i: usize = 0;
        proof {
            assert(self@.subrange(0, n as int) =~= self@);
        }
        while i < n
            invariant
                n == self@.len(),
                i <= n,
                assoc_lookup(self@, anim_key@) == assoc_lookup(
                    self@.subrange(i as int, n as int),
                    anim_key@,
                ),
            decreases n - i,
        {
            if self.entries[i].0 == anim_key {
                proof {
                    assert(self@.subrange(i as int, n as int)[0] == self@[i as int]);
                }
                return Some(&self.entries[i].1);
            }
            proof {
                assert(self@.subrange(i as int, n as int).drop_first() =~= self@.subrange(
                    i as int + 1,
                    n as int,
                ));
            }
            i = i + 1;
        }
        proof {
            assert(self@.subrange(n as int, n as int) =~= Seq::<(String, SpriteAnimation)>::empty());
        }
        None
    }
}

/// An axis-aligned rectangle on the sprite sheet, in whole pixels.
#[derive(Clone, Copy, Debug, PartialEq, Eq, Structural, Default)]
pub struct RectU32 {
    pub x: u32,
    pub y: u32,
    pub w: u32,
    pub h: u32,
}

/// A width/height pair in whole pixels.
#[derive(Clone, Copy, Debug, PartialEq, Eq, Structural, Default)]
pub struct SizeU32 {
    pub w: u32,
    pub h: u32,
}

/// Placement of one named sprite on the sheet.
#[derive(Clone, Copy, Debug, PartialEq, Eq, Structural)]
pub struct SpriteData {
    pub frame: RectU32,
    pub rotated: bool,
    pub trimmed: bool,
    pub sprite_source_size: RectU32,
    pub source_size: SizeU32,
}

/// Descriptive header of a sprite sheet.
#[derive(Clone, Debug, PartialEq)]
pub struct SpriteSheetMeta {
    pub app: String,
    pub version: String,
    pub image: String,
    pub format: String,
    pub size: SizeU32,
    pub scale: String,
    pub smart_update: String,
}

/// The sheet's frame table: sprite placements by frame name, plus the
/// header. The renderer turns a placement and the sheet size into texture
/// fractions; looking the placement up happens here.
#[derive(Debug, PartialEq)]
pub struct SpriteSheetData {
    pub frames: Vec<(String, SpriteData)>,
    pub meta: SpriteSheetMeta,
}

impl SpriteSheetData {
    pub open spec fn spec_frames(&self) -> Seq<(String, SpriteData)> {
        self.frames@
    }

    pub fn new(meta: SpriteSheetMeta) -> (d: SpriteSheetData)
        ensures
            d.spec_frames() =~= Seq::<(String, SpriteData)>::empty(),
            d.meta == meta,
    {
        SpriteSheetData { frames: Vec::new(), meta }
    }

    /// Record where the sprite named `key` sits on the sheet; an earlier
    /// entry under the same name is shadowed.
    pub fn add_frame(&mut self, key: String, data: SpriteData)
        ensures
            final(self).meta == old(self).meta,
            assoc_lookup(final(self).spec_frames(), key@) == Some(data),
            forall|q: Seq<char>|
                q != key@ ==> assoc_lookup(final(self).spec_frames(), q) == assoc_lookup(
                    old(self).spec_frames(),
                    q,
                ),
    {
        self.frames.insert(0, (key, data));
        proof {
            assert(self.spec_frames().drop_first() =~= old(self).spec_frames());
        }
    }

    /// The placement of the sprite named `key`, if the sheet has one.
    pub fn get_sprite(&self, sprite_sheet_key: String) -> (r: Option<&SpriteData>)
        ensures
            match r {
                Some(d) => assoc_lookup(self.spec_frames(), sprite_sheet_key@) == Some(*d),
                None => assoc_lookup(self.spec_frames(), sprite_sheet_key@) is None,
            },
    {
        let n = self.frames.len();
        let mut i: usize = 0;
        proof {
            assert(self.spec_frames().subrange(0, n as int) =~= self.spec_frames());
        }
        while i < n
            invariant
                n == self.spec_frames().len(),
                i <= n,
                assoc_lookup(self.spec_frames(), sprite_sheet_key@) == assoc_lookup(
                    self.spec_frames().subrange(i as int, n as int),
                    sprite_sheet_key@,
                ),
            decreases n - i,
        {
            if self.frames[i].0 == sprite_sheet_key {
                proof {
                    assert(self.spec_frames().subrange(i as int, n as int)[0] == self.spec_frames()[i as int]);
                }
                return Some(&self.frames[i].1);
            }
            proof {
                assert(self.spec_frames().subrange(i as int, n as int).drop_first()
                    =~= self.spec_frames().subrange(i as int + 1, n as int));
            }
            i = i + 1;
        }
        proof {
            assert(self.spec_frames().subrange(n as int, n as int) =~= Seq::<(
                String,
                SpriteData,
            )>::empty());
        }
        None
    }
}

} // verus!
