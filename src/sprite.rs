use vstd::prelude::*;
use crate::geometry::Vec2u;
use crate::settings::TIME_LIMIT;

verus! {

/// The kinds of sprite sheets the catalog holds, in catalog order.
#[derive(Clone, Copy, Debug, PartialEq, Eq, Hash, Structural)]
pub enum Sprite {
    ManWalk,
    ManIdle,
    Tree,
    TreeStump,
    Reticle,
    Apple,
    AxeIdle,
    AxeCutting,
    Log,
}

/// Number of sprite kinds.
pub const SPRITE_COUNT: usize = 9;

/// Position of a sprite kind in the catalog.
pub open spec fn sprite_index(s: Sprite) -> nat {
    match s {
        Sprite::ManWalk => 0,
        Sprite::ManIdle => 1,
        Sprite::Tree => 2,
        Sprite::TreeStump => 3,
        Sprite::Reticle => 4,
        Sprite::Apple => 5,
        Sprite::AxeIdle => 6,
        Sprite::AxeCutting => 7,
        Sprite::Log => 8,
    }
}

/// Base name of the asset files of a sprite kind.
pub open spec fn sprite_file_name(s: Sprite) -> Seq<char> {
    match s {
        Sprite::ManWalk => "man_walk"@,
        Sprite::ManIdle => "man_idle"@,
        Sprite::Tree => "tree"@,
        Sprite::TreeStump => "tree_stump"@,
        Sprite::Reticle => "reticle"@,
        Sprite::Apple => "apple"@,
        Sprite::AxeIdle => "axe_idle"@,
        Sprite::AxeCutting => "axe_cutting"@,
        Sprite::Log => "log"@,
    }
}

impl Sprite {
    pub fn to_filename(self) -> (r: &'static str)
        ensures
            r@ == sprite_file_name(self),
    {
        match self {
            Sprite::ManWalk => "man_walk",
            Sprite::ManIdle => "man_idle",
            Sprite::Tree => "tree",
            Sprite::TreeStump => "tree_stump",
            Sprite::Reticle => "reticle",
            Sprite::Apple => "apple",
            Sprite::AxeIdle => "axe_idle",
            Sprite::AxeCutting => "axe_cutting",
            Sprite::Log => "log",
        }
    }

    pub fn index(self) -> (r: usize)
        ensures
            r == sprite_index(self),
            r < SPRITE_COUNT,
    {
        match self {
            Sprite::ManWalk => 0,
            Sprite::ManIdle => 1,
            Sprite::Tree => 2,
            Sprite::TreeStump => 3,
            Sprite::Reticle => 4,
            Sprite::Apple => 5,
            Sprite::AxeIdle => 6,
            Sprite::AxeCutting => 7,
            Sprite::Log => 8,
        }
    }

    /// Every sprite kind, in catalog order.
    pub fn all() -> (r: Vec<Sprite>)
        ensures
            r@.len() == SPRITE_COUNT,
            forall|i: int| 0 <= i < SPRITE_COUNT ==> sprite_index(#[trigger] r@[i]) == i,
    {
        vec![
            Sprite::ManWalk,
            Sprite::ManIdle,
            Sprite::Tree,
            Sprite::TreeStump,
            Sprite::Reticle,
            Sprite::Apple,
            Sprite::AxeIdle,
            Sprite::AxeCutting,
            Sprite::Log,
        ]
    }
}

/// One animation frame: where it sits in the sheet and how long it shows.
#[derive(Clone, Copy, Debug, PartialEq, Eq, Structural)]
pub struct Frame {
    pub sample_position: Vec2u,
    /// Display time, in the unit of the animator's clock (microseconds).
    pub duration: u64,
}

/// A frame as a sprite sheet describes it: its rectangle and duration.
#[derive(Clone, Copy, Debug, PartialEq, Eq, Structural)]
pub struct SheetFrame {
    pub x: u32,
    pub y: u32,
    pub w: u32,
    pub h: u32,
    pub duration: u64,
}

/// The frame sequence and nominal size of one sprite kind.
#[derive(Debug)]
pub struct SpriteData {
    pub frames: Vec<Frame>,
    pub size: Vec2u,
}

/// The size a sheet gives a sprite: that of its first frame with a size
/// other than zero by zero, or zero by zero if there is none.
pub open spec fn sheet_size(frames: Seq<SheetFrame>) -> Vec2u
    decreases frames.len(),
{
    if frames.len() == 0 {
        Vec2u { x: 0, y: 0 }
    } else if frames[0].w != 0 || frames[0].h != 0 {
        Vec2u { x: frames[0].w, y: frames[0].h }
    } else {
        sheet_size(frames.drop_first())
    }
}

pub open spec fn sheet_frame(f: SheetFrame) -> Frame {
    Frame { sample_position: Vec2u { x: f.x, y: f.y }, duration: f.duration }
}

impl SpriteData {
    /// Builds the frame sequence of a sprite from the frames of its sheet.
    pub fn from_sheet(sheet: &Vec<SheetFrame>) -> (r: SpriteData)
        ensures
            r.frames@.len() == sheet@.len(),
            forall|i: int| 0 <= i < sheet@.len() ==> r.frames@[i] == sheet_frame(#[trigger] sheet@[i]),
            r.size == sheet_size(sheet@),
    {
        let mut frames: Vec<Frame> = Vec::new();
        let mut size = Vec2u { x: 0, y: 0 };
        let mut i: usize = 0;
        assert(sheet@.subrange(0, sheet@.len() as int) =~= sheet@);
        while i < sheet.len()
            invariant
                i <= sheet@.len(),
                frames@.len() == i,
                forall|j: int| 0 <= j < i ==> frames@[j] == sheet_frame(#[trigger] sheet@[j]),
                (size.x == 0 && size.y == 0) ==> sheet_size(sheet@) == sheet_size(sheet@.subrange(i as int, sheet@.len() as int)),
                (size.x != 0 || size.y != 0) ==> sheet_size(sheet@) == size,
            decreases sheet@.len() - i,
        {
            let f = sheet[i];
            frames.push(Frame { sample_position: Vec2u { x: f.x, y: f.y }, duration: f.duration });
            let ghost rest = sheet@.subrange(i as int, sheet@.len() as int);
            assert(rest.drop_first() =~= sheet@.subrange(i + 1, sheet@.len() as int));
            if size.x == 0 && size.y == 0 {
                size = Vec2u { x: f.w, y: f.h };
            }
            i = i + 1;
        }
        assert(sheet@.subrange(i as int, sheet@.len() as int).len() == 0);
        SpriteData { frames, size }
    }
}

/// The sprite catalog holds one entry per kind, in catalog order, each with
/// at least one frame (and a count that fits in 32 bits), and with durations
/// the animator clock can reach.
pub open spec fn catalog_wf(sprites: Seq<SpriteData>) -> bool {
    &&& sprites.len() == SPRITE_COUNT
    &&& forall|k: int|
        0 <= k < SPRITE_COUNT ==> 0 < (#[trigger] sprites[k]).frames@.len() <= u32::MAX
    &&& forall|k: int, j: int|
        0 <= k < SPRITE_COUNT && 0 <= j < sprites[k].frames@.len()
            ==> (#[trigger] sprites[k].frames@[j]).duration <= TIME_LIMIT
}

} // verus!

verus! {

/// A cursor into the frame sequence of one sprite kind.
#[derive(Clone, Copy, Debug, PartialEq, Eq, Structural)]
pub struct SpriteAnimator {
    pub sprite: Sprite,
    pub current_frame: usize,
    /// Time spent in the current frame, in microseconds.
    pub current_time: u64,
    /// Render scale, in thousandths.
    pub scale: u64,
}

/// The animator after switching to sprite kind `s`: a different kind starts
/// from its first frame, the same kind carries on undisturbed.
pub open spec fn switched(a: SpriteAnimator, s: Sprite) -> SpriteAnimator {
    if a.sprite != s {
        SpriteAnimator { sprite: s, current_frame: 0, current_time: 0, ..a }
    } else {
        a
    }
}

/// The frame the animator shows in a sequence of `n > 0` frames; a cursor
/// past the end (after the catalog shrank) is clamped to the last frame.
pub open spec fn clamped_frame(a: SpriteAnimator, n: int) -> int {
    if a.current_frame < n {
        a.current_frame as int
    } else {
        n - 1
    }
}

/// The animator after `dt` more time: at most one frame is advanced per step.
pub open spec fn stepped(a: SpriteAnimator, frames: Seq<Frame>, dt: int) -> SpriteAnimator {
    let n = frames.len() as int;
    let i = clamped_frame(a, n);
    let t = a.current_time + dt;
    if t >= frames[i].duration {
        SpriteAnimator { current_frame: ((i + 1) % n) as usize, current_time: 0, ..a }
    } else {
        SpriteAnimator { current_frame: i as usize, current_time: t as u64, ..a }
    }
}

impl SpriteAnimator {
    /// A fresh animator: first frame, no time spent, unit scale.
    pub open spec fn spec_new(sprite: Sprite) -> SpriteAnimator {
        SpriteAnimator { sprite, current_frame: 0, current_time: 0, scale: 1000 }
    }

    pub fn new(sprite: Sprite) -> (r: SpriteAnimator)
        ensures
            r == SpriteAnimator::spec_new(sprite),
    {
        SpriteAnimator { sprite, current_frame: 0, current_time: 0, scale: 1000 }
    }

    pub fn set_sprite(&mut self, sprite: Sprite)
        ensures
            *final(self) == switched(*old(self), sprite),
            old(self).sprite == sprite ==> *final(self) == *old(self),
            old(self).sprite != sprite ==> final(self).sprite == sprite && final(self).current_frame == 0
                && final(self).current_time == 0 && final(self).scale == old(self).scale,
    {
        if self.sprite != sprite {
            self.current_frame = 0;
            self.current_time = 0;
        }
        self.sprite = sprite;
    }

    pub fn get_sprite(&self) -> (r: Sprite)
        ensures
            r == self.sprite,
    {
        self.sprite
    }

    pub fn step(&mut self, sprites: &[SpriteData], dt: u64)
        requires
            catalog_wf(sprites@),
            old(self).current_time + dt <= u64::MAX,
        ensures
            *final(self) == stepped(*old(self), sprites@[sprite_index(old(self).sprite) as int].frames@, dt as int),
            final(self).current_time <= TIME_LIMIT,
    {
        let data = &sprites[self.sprite.index()];
        let n = data.frames.len();
        assert(n > 0);
        let i: usize = if self.current_frame < n { self.current_frame } else { n - 1 };
        assert(data.frames@[i as int].duration <= TIME_LIMIT);
        let t: u64 = self.current_time + dt;
        if t >= data.frames[i].duration {
            self.current_time = 0;
            self.current_frame = (i + 1) % n;
        } else {
            self.current_time = t;
            self.current_frame = i;
        }
    }

    pub fn randomize_frame(&mut self, sprites: &[SpriteData])
        requires
            catalog_wf(sprites@),
        ensures
            final(self).current_frame < sprites@[sprite_index(old(self).sprite) as int].frames@.len(),
            *final(self) == (SpriteAnimator { current_frame: final(self).current_frame, ..*old(self) }),
    {
        let n = sprites[self.sprite.index()].frames.len();
        assert(n > 0);
        let k: i64 = crate::random::random_in(0, n as i64);
        self.current_frame = k as usize;
    }
}

} // verus!
