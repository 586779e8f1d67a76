//! Obstacles and their collision consequences: a barrier knocks the
//! character out on any overlap; a platform lands a character that falls
//! onto it from above and knocks it out otherwise.

use vstd::prelude::*;
use vstd::pervasive::VecAdditionalExecFns;
use crate::boy::RedHatBoy;
use crate::boy::cue_seq;
use crate::character::Event;
use crate::character::HEIGHT;
use crate::character::spec_transition;
use crate::geometry::Point;
use crate::geometry::Rect;
use crate::sprites::Cell;
use crate::sprites::FrameKey;
use crate::sprites::Sheet;
use crate::sprites::SpriteEntry;
use crate::sprites::find_in;

verus! {

/// A box an obstacle may occupy: world coordinates stay well within `i16`,
/// sizes are screen-scale, so every edge sum fits.
pub open spec fn wf_obstacle_rect(r: Rect) -> bool {
    &&& -20000 <= r.position.x <= 20000
    &&& -20000 <= r.position.y <= 20000
    &&& 0 <= r.width <= 2000
    &&& 0 <= r.height <= 2000
}

/// A static image with a bounding box; the pixels live with the renderer,
/// the box is what the simulation reads.
#[derive(Clone, Copy, Debug, PartialEq, Eq, Structural)]
pub struct Image {
    pub bounding_box: Rect,
}

impl Image {
    pub open spec fn wf(self) -> bool {
        wf_obstacle_rect(self.bounding_box)
    }

    /// An image of the given size placed at `position`.
    pub fn new(position: Point, width: i16, height: i16) -> (r: Image)
        ensures
            r.bounding_box == (Rect { position, width, height }),
    {
        Image { bounding_box: Rect { position, width, height } }
    }

    pub fn bounding_box(&self) -> (r: Rect)
        ensures
            r == self.bounding_box,
    {
        self.bounding_box
    }

    pub fn move_horizontally(&mut self, distance: i16)
        requires
            i16::MIN <= old(self).bounding_box.left() + distance <= i16::MAX,
        ensures
            final(self).bounding_box == (Rect {
                position: Point {
                    x: (old(self).bounding_box.position.x + distance) as i16,
                    y: old(self).bounding_box.position.y,
                },
                ..old(self).bounding_box
            }),
    {
        self.bounding_box.add_x(distance);
    }

    pub fn set_x(&mut self, x: i16)
        ensures
            final(self).bounding_box == (Rect {
                position: Point { x, y: old(self).bounding_box.position.y },
                ..old(self).bounding_box
            }),
    {
        self.bounding_box.set_x(x);
    }

    pub fn right(&self) -> (r: i16)
        requires
            i16::MIN <= self.bounding_box.spec_right() <= i16::MAX,
        ensures
            r as int == self.bounding_box.spec_right(),
    {
        self.bounding_box.right()
    }
}

/// A single static barrier: any overlap knocks the character out.
#[derive(Clone, Copy, Debug, PartialEq, Eq, Structural)]
pub struct Barrier {
    pub image: Image,
}

impl Barrier {
    pub fn new(image: Image) -> (r: Barrier)
        ensures
            r.image == image,
    {
        Barrier { image }
    }
}

/// The cells of `keys` that `entries` holds, in key order; keys the sheet
/// lacks are skipped.
pub open spec fn resolve_sprites(entries: Seq<SpriteEntry>, keys: Seq<FrameKey>) -> Seq<Cell>
    decreases keys.len(),
{
    if keys.len() == 0 {
        Seq::empty()
    } else {
        match find_in(entries, keys[0]) {
            Some(cell) => seq![cell] + resolve_sprites(entries, keys.drop_first()),
            None => resolve_sprites(entries, keys.drop_first()),
        }
    }
}

/// `boxes` shifted so that box-local coordinates become world coordinates
/// anchored at `anchor`.
pub open spec fn translate_boxes(boxes: Seq<Rect>, anchor: Point) -> Seq<Rect> {
    boxes.map(
        |i: int, b: Rect|
            Rect {
                position: Point {
                    x: (b.position.x + anchor.x) as i16,
                    y: (b.position.y + anchor.y) as i16,
                },
                ..b
            },
    )
}

/// An ordered row of sprite cells anchored at `position`, each sub-box
/// owning its own post-placement bounding box.
#[derive(Debug)]
pub struct Platform {
    pub sprites: Vec<Cell>,
    pub bounding_boxes: Vec<Rect>,
    pub position: Point,
}

impl Platform {
    /// Sub-boxes sit in the playfield (so their tops are legal landing
    /// coordinates) and everything stays within world bounds.
    pub open spec fn wf(self) -> bool {
        &&& -20000 <= self.position.x <= 20000
        &&& -20000 <= self.position.y <= 20000
        &&& forall|i: int|
            0 <= i < self.bounding_boxes@.len() ==> wf_obstacle_rect(#[trigger] self.bounding_boxes@[i])
                && 0 <= self.bounding_boxes@[i].top() <= HEIGHT
    }

    /// Build a platform from a sheet, the tile keys it draws, sub-boxes in
    /// platform-local coordinates, and the anchor to place it at.
    pub fn new(
        sheet: &Sheet,
        sprite_keys: &Vec<FrameKey>,
        bounding_boxes: &Vec<Rect>,
        position: Point,
    ) -> (r: Platform)
        requires
            -18000 <= position.x <= 18000,
            0 <= position.y <= 500,
            forall|i: int|
                0 <= i < bounding_boxes@.len() ==> {
                    &&& 0 <= (#[trigger] bounding_boxes@[i]).position.x <= 2000
                    &&& 0 <= bounding_boxes@[i].position.y <= 100
                    &&& 0 <= bounding_boxes@[i].width <= 2000
                    &&& 0 <= bounding_boxes@[i].height <= 2000
                },
        ensures
            r.sprites@ == resolve_sprites(sheet.frames@, sprite_keys@),
            r.bounding_boxes@ == translate_boxes(bounding_boxes@, position),
            r.position == position,
            r.wf(),
    {
        let mut sprites: Vec<Cell> = Vec::new();
        let mut i: usize = 0;
        proof {
            assert(sprite_keys@.skip(0) =~= sprite_keys@);
            assert(Seq::<Cell>::empty() + resolve_sprites(sheet.frames@, sprite_keys@)
                =~= resolve_sprites(sheet.frames@, sprite_keys@));
        }
        while i < sprite_keys.len()
            invariant
                0 <= i <= sprite_keys@.len(),
                resolve_sprites(sheet.frames@, sprite_keys@) == sprites@ + resolve_sprites(
                    sheet.frames@,
                    sprite_keys@.skip(i as int),
                ),
            decreases sprite_keys@.len() - i,
        {
            proof {
                assert(sprite_keys@.skip(i as int).drop_first() =~= sprite_keys@.skip(i as int + 1));
            }
            match sheet.get(sprite_keys[i]) {
                Some(cell) => {
                    proof {
                        assert(sprites@.push(cell) + resolve_sprites(
                            sheet.frames@,
                            sprite_keys@.skip(i as int + 1),
                        ) =~= sprites@ + resolve_sprites(sheet.frames@, sprite_keys@.skip(i as int)));
                    }
                    sprites.push(cell);
                },
                None => {},
            }
            i = i + 1;
        }
        proof {
            assert(sprite_keys@.skip(sprite_keys@.len() as int) =~= Seq::<FrameKey>::empty());
            assert(sprites@ + Seq::<Cell>::empty() =~= sprites@);
        }
        let mut placed: Vec<Rect> = Vec::new();
        let mut j: usize = 0;
        while j < bounding_boxes.len()
            invariant
                0 <= j <= bounding_boxes@.len(),
                placed@ == translate_boxes(bounding_boxes@, position).take(j as int),
                -18000 <= position.x <= 18000,
                0 <= position.y <= 500,
                forall|k: int|
                    0 <= k < bounding_boxes@.len() ==> {
                        &&& 0 <= (#[trigger] bounding_boxes@[k]).position.x <= 2000
                        &&& 0 <= bounding_boxes@[k].position.y <= 100
                        &&& 0 <= bounding_boxes@[k].width <= 2000
                        &&& 0 <= bounding_boxes@[k].height <= 2000
                    },
            decreases bounding_boxes@.len() - j,
        {
            let b = bounding_boxes[j];
            let placed_box = Rect::new_from_x_y(
                b.position.x + position.x,
                b.position.y + position.y,
                b.width,
                b.height,
            );
            placed.push(placed_box);
            proof {
                assert(placed@ =~= translate_boxes(bounding_boxes@, position).take(j as int + 1));
            }
            j = j + 1;
        }
        proof {
            assert(placed@ =~= translate_boxes(bounding_boxes@, position));
        }
        Platform { sprites, bounding_boxes: placed, position }
    }
}

/// A polymorphic obstacle: the closed set of obstacle kinds the game places.
#[derive(Debug)]
pub enum Obstacle {
    Barrier(Barrier),
    Platform(Platform),
}

/// The first of the platform's sub-boxes the given collision box overlaps.
pub open spec fn first_intersecting_box(boxes: Seq<Rect>, probe: Rect) -> Option<Rect>
    decreases boxes.len(),
{
    if boxes.len() == 0 {
        None
    } else if probe.spec_intersects(boxes[0]) {
        Some(boxes[0])
    } else {
        first_intersecting_box(boxes.drop_first(), probe)
    }
}

/// The event an obstacle applies to a character in state `machine` drawn
/// from the frame map `entries`: a barrier knocks out on any overlap; a
/// platform lands a character that is falling and above its anchor, and
/// knocks out otherwise.
pub open spec fn obstacle_event_on(
    ob: Obstacle,
    entries: Seq<crate::sprites::SpriteEntry>,
    machine: crate::character::RedHatBoyStateMachine,
) -> Option<Event> {
    let probe = crate::boy::bounding_box_of(entries, machine);
    match ob {
        Obstacle::Barrier(b) => if probe.spec_intersects(b.image.bounding_box) {
            Some(Event::KnockOut)
        } else {
            None
        },
        Obstacle::Platform(p) => match first_intersecting_box(p.bounding_boxes@, probe) {
            Some(hit) => if machine.ctx().velocity.y > 0 && machine.ctx().position.y
                < p.position.y {
                Some(Event::Land(hit.position.y))
            } else {
                Some(Event::KnockOut)
            },
            None => None,
        },
    }
}

/// The event an obstacle applies to the character.
pub open spec fn obstacle_event(ob: Obstacle, boy: RedHatBoy) -> Option<Event> {
    obstacle_event_on(ob, boy.sprite_sheet.frames@, boy.state_machine)
}

/// A box the search returns came out of the sequence.
proof fn lemma_first_intersecting_box_member(boxes: Seq<Rect>, probe: Rect)
    requires
        first_intersecting_box(boxes, probe) is Some,
    ensures
        boxes.contains(first_intersecting_box(boxes, probe).unwrap()),
    decreases boxes.len(),
{
    if boxes.len() > 0 && !probe.spec_intersects(boxes[0]) {
        lemma_first_intersecting_box_member(boxes.drop_first(), probe);
        let hit = first_intersecting_box(boxes, probe).unwrap();
        let k = choose|k: int| 0 <= k < boxes.drop_first().len() && boxes.drop_first()[k] == hit;
        assert(boxes[k + 1] == hit);
    }
}

/// If every box before `i` misses and box `i` overlaps, the first hit is
/// box `i`.
proof fn lemma_first_hit_prefix(boxes: Seq<Rect>, probe: Rect, i: int)
    requires
        0 <= i < boxes.len(),
        forall|j: int| 0 <= j < i ==> !probe.spec_intersects(#[trigger] boxes[j]),
        probe.spec_intersects(boxes[i]),
    ensures
        first_intersecting_box(boxes, probe) == Some(boxes[i]),
    decreases i,
{
    if i > 0 {
        lemma_first_hit_prefix(boxes.drop_first(), probe, i - 1);
    }
}

/// If no box overlaps, the search misses.
proof fn lemma_first_hit_none(boxes: Seq<Rect>, probe: Rect)
    requires
        forall|j: int| 0 <= j < boxes.len() ==> !probe.spec_intersects(#[trigger] boxes[j]),
    ensures
        first_intersecting_box(boxes, probe) is None,
    decreases boxes.len(),
{
    if boxes.len() > 0 {
        lemma_first_hit_none(boxes.drop_first(), probe);
    }
}

/// The first of `boxes` that `probe` overlaps, if any.
fn find_first_hit(boxes: &Vec<Rect>, probe: Rect) -> (r: Option<Rect>)
    requires
        probe.edges_fit(),
        forall|i: int| 0 <= i < boxes@.len() ==> wf_obstacle_rect(#[trigger] boxes@[i]),
    ensures
        r == first_intersecting_box(boxes@, probe),
{
    let n = boxes.len();
    let mut i: usize = 0;
    while i < n
        invariant
            0 <= i <= n,
            n == boxes@.len(),
            probe.edges_fit(),
            forall|k: int| 0 <= k < n ==> wf_obstacle_rect(#[trigger] boxes@[k]),
            forall|j: int| 0 <= j < i ==> !probe.spec_intersects(#[trigger] boxes@[j]),
        decreases n - i,
    {
        let b = boxes[i];
        if probe.intersects(&b) {
            proof {
                lemma_first_hit_prefix(boxes@, probe, i as int);
            }
            return Some(b);
        }
        i = i + 1;
    }
    proof {
        lemma_first_hit_none(boxes@, probe);
    }
    None
}

impl Obstacle {
    pub open spec fn wf(self) -> bool {
        match self {
            Obstacle::Barrier(b) => b.image.wf(),
            Obstacle::Platform(p) => p.wf(),
        }
    }

    /// The rightmost extent, used for culling and placement: a barrier's
    /// box edge, a platform's last sub-box edge (or zero with no sub-box).
    pub open spec fn spec_right(self) -> int {
        match self {
            Obstacle::Barrier(b) => b.image.bounding_box.spec_right(),
            Obstacle::Platform(p) => if p.bounding_boxes@.len() > 0 {
                p.bounding_boxes@.last().spec_right()
            } else {
                0
            },
        }
    }

    pub fn right(&self) -> (r: i16)
        requires
            self.wf(),
        ensures
            r as int == self.spec_right(),
    {
        match self {
            Obstacle::Barrier(b) => b.image.right(),
            Obstacle::Platform(p) => {
                let n = p.bounding_boxes.len();
                if n > 0 {
                    p.bounding_boxes[n - 1].right()
                } else {
                    0
                }
            },
        }
    }

    /// Scroll the obstacle horizontally by `x` (negative moves left).
    pub fn move_horizontally(&mut self, x: i16)
        requires
            old(self).wf(),
            -100 <= x <= 100,
            *old(self) matches Obstacle::Barrier(b) ==> -19000 <= b.image.bounding_box.left() + x
                <= 19000,
            *old(self) matches Obstacle::Platform(p) ==> -19000 <= p.position.x + x <= 19000
                && forall|i: int|
                0 <= i < p.bounding_boxes@.len() ==> -19000 <= (
                #[trigger] p.bounding_boxes@[i]).left() + x <= 19000,
        ensures
            final(self).wf(),
            *old(self) matches Obstacle::Barrier(b) ==> *final(self) == Obstacle::Barrier(
                Barrier {
                    image: Image {
                        bounding_box: Rect {
                            position: Point {
                                x: (b.image.bounding_box.position.x + x) as i16,
                                y: b.image.bounding_box.position.y,
                            },
                            ..b.image.bounding_box
                        },
                    },
                },
            ),
            *old(self) matches Obstacle::Platform(p) ==> (*final(self) matches Obstacle::Platform(q)
                && q.sprites@ == p.sprites@ && q.position == (Point {
                x: (p.position.x + x) as i16,
                y: p.position.y,
            }) && q.bounding_boxes@ == translate_boxes(p.bounding_boxes@, Point { x, y: 0 })),
    {
        match self {
            Obstacle::Barrier(b) => {
                b.image.move_horizontally(x);
            },
            Obstacle::Platform(p) => {
                p.position.x = p.position.x + x;
                let ghost orig = p.bounding_boxes@;
                let ghost moved_position = p.position;
                let ghost kept_sprites = p.sprites@;
                let n = p.bounding_boxes.len();
                let mut i: usize = 0;
                while i < n
                    invariant
                        0 <= i <= n,
                        n == p.bounding_boxes@.len(),
                        orig.len() == n,
                        p.position == moved_position,
                        p.sprites@ == kept_sprites,
                        -100 <= x <= 100,
                        forall|k: int|
                            0 <= k < n ==> wf_obstacle_rect(#[trigger] orig[k]) && 0 <= orig[k].top()
                                <= HEIGHT && -19000 <= orig[k].left() + x <= 19000,
                        forall|k: int|
                            i <= k < n ==> #[trigger] p.bounding_boxes@[k] == orig[k],
                        forall|k: int|
                            0 <= k < i ==> #[trigger] p.bounding_boxes@[k] == (Rect {
                                position: Point {
                                    x: (orig[k].position.x + x) as i16,
                                    y: orig[k].position.y,
                                },
                                ..orig[k]
                            }),
                    decreases n - i,
                {
                    let b = p.bounding_boxes[i];
                    p.bounding_boxes.set(
                        i,
                        Rect {
                            position: Point { x: b.position.x + x, y: b.position.y },
                            ..b
                        },
                    );
                    i = i + 1;
                }
                proof {
                    assert(p.bounding_boxes@ =~= translate_boxes(orig, Point { x, y: 0 }));
                }
            },
        }
    }

    /// Test the obstacle against the character and apply the consequence:
    /// the event `obstacle_event` names, or nothing on no overlap. The
    /// obstacle itself never changes.
    pub fn check_intersection(&self, boy: &mut RedHatBoy)
        requires
            self.wf(),
            old(boy).wf(),
        ensures
            final(boy).wf(),
            final(boy).sprite_sheet == old(boy).sprite_sheet,
            match obstacle_event(*self, *old(boy)) {
                Some(event) => final(boy).state_machine == spec_transition(
                    old(boy).state_machine,
                    event,
                ).0 && final(boy).sound_cues@ == old(boy).sound_cues@ + cue_seq(
                    spec_transition(old(boy).state_machine, event).1,
                ),
                None => *final(boy) == *old(boy),
            },
    {
        proof {
            boy.lemma_bounding_box_fits();
        }
        let boy_box = boy.bounding_box();
        match self {
            Obstacle::Barrier(b) => {
                if boy_box.intersects(&b.image.bounding_box) {
                    boy.knock_out();
                }
            },
            Obstacle::Platform(p) => {
                let hit = find_first_hit(&p.bounding_boxes, boy_box);
                match hit {
                    Some(box_to_land_on) => {
                        proof {
                            lemma_first_intersecting_box_member(p.bounding_boxes@, boy_box);
                            let k = choose|k: int|
                                0 <= k < p.bounding_boxes@.len() && p.bounding_boxes@[k]
                                    == box_to_land_on;
                            assert(0 <= p.bounding_boxes@[k].top() <= HEIGHT);
                        }
                        if boy.velocity_y() > 0 && boy.pos_y() < p.position.y {
                            boy.land_on(box_to_land_on.y());
                        } else {
                            boy.knock_out();
                        }
                    },
                    None => {},
                }
            },
        }
    }
}

} // verus!
