//! Sprite-sheet lookup: maps a named animation-frame key to a source
//! rectangle and its trim offset, decoupling state-machine frame names from
//! pixel geometry.

use vstd::prelude::*;

verus! {

/// A rectangle as recorded in a sprite sheet's frame map.
#[derive(Clone, Copy, Debug, PartialEq, Eq, Structural)]
pub struct SheetRect {
    pub x: i16,
    pub y: i16,
    pub w: i16,
    pub h: i16,
}

/// One named frame: its source rectangle in the sheet (`frame`) and its trim
/// offset within the canonical sprite size (`sprite_source_size`).
#[derive(Clone, Copy, Debug, PartialEq, Eq, Structural)]
pub struct Cell {
    pub frame: SheetRect,
    pub sprite_source_size: SheetRect,
}

/// The animation a character state displays.
#[derive(Clone, Copy, Debug, PartialEq, Eq, Structural)]
pub enum AnimationName {
    Idle,
    Run,
    Slide,
    Jump,
    Dead,
}

/// A frame key: either one step of a named character animation (the
/// one-based frame index within that animation) or a numbered terrain tile.
#[derive(Clone, Copy, Debug, PartialEq, Eq, Structural)]
pub enum FrameKey {
    Animation(AnimationName, u8),
    Tile(u16),
}

/// One entry of a sheet's frame map.
#[derive(Clone, Copy, Debug, PartialEq, Eq, Structural)]
pub struct SpriteEntry {
    pub key: FrameKey,
    pub cell: Cell,
}

/// A sprite sheet's frame map: frame key to cell.
#[derive(Debug)]
pub struct Sheet {
    pub frames: Vec<SpriteEntry>,
}

/// The cell of the first entry with the given key, if any.
pub open spec fn find_in(entries: Seq<SpriteEntry>, key: FrameKey) -> Option<Cell>
    decreases entries.len(),
{
    if entries.len() == 0 {
        None
    } else if entries[0].key == key {
        Some(entries[0].cell)
    } else {
        find_in(entries.drop_first(), key)
    }
}

impl Sheet {
    pub fn new() -> (r: Sheet)
        ensures
            r.frames@ =~= Seq::<SpriteEntry>::empty(),
    {
        Sheet { frames: Vec::new() }
    }

    /// Add one entry to the frame map.
    pub fn push_frame(&mut self, key: FrameKey, cell: Cell)
        ensures
            final(self).frames@ == old(self).frames@.push(SpriteEntry { key, cell }),
    {
        self.frames.push(SpriteEntry { key, cell });
    }

    /// The cell recorded for `key`, or `None` when the sheet has no such
    /// frame.
    pub fn get(&self, key: FrameKey) -> (r: Option<Cell>)
        ensures
            r == find_in(self.frames@, key),
    {
        let n = self.frames.len();
        let mut i: usize = 0;
        while i < n
            invariant
                n == self.frames@.len(),
                0 <= i <= n,
                forall|j: int| 0 <= j < i ==> self.frames@[j].key != key,
            decreases n - i,
        {
            let entry = self.frames[i];
            if entry.key == key {
                proof {
                    lemma_find_in_prefix(self.frames@, key, i as int);
                }
                return Some(entry.cell);
            }
            i = i + 1;
        }
        proof {
            lemma_find_in_none(self.frames@, key);
        }
        None
    }
}

/// If every entry before `i` misses and entry `i` matches, the first match
/// is entry `i`.
proof fn lemma_find_in_prefix(entries: Seq<SpriteEntry>, key: FrameKey, i: int)
    requires
        0 <= i < entries.len(),
        forall|j: int| 0 <= j < i ==> entries[j].key != key,
        entries[i].key == key,
    ensures
        find_in(entries, key) == Some(entries[i].cell),
    decreases i,
{
    if i > 0 {
        lemma_find_in_prefix(entries.drop_first(), key, i - 1);
    }
}

/// If no entry matches, the lookup misses.
proof fn lemma_find_in_none(entries: Seq<SpriteEntry>, key: FrameKey)
    requires
        forall|j: int| 0 <= j < entries.len() ==> entries[j].key != key,
    ensures
        find_in(entries, key) is None,
    decreases entries.len(),
{
    if entries.len() > 0 {
        lemma_find_in_none(entries.drop_first(), key);
    }
}

} // verus!
