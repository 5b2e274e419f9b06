//! The decisions of a run on one device: reach the map spot, open the
//! backpack, clear one kind of goods out of it, and close the game's pop-up.
//!
//! Each run is a state machine. A step takes what the caller observed (a
//! template match, a pixel, a text read from the screen) and returns a plan:
//! the operations to carry out through adb, and what to observe next.
use vstd::prelude::*;
use crate::adb::Op;
use crate::random::random_in;
use crate::text::parsed_u32;
use crate::text::parse_u32;

verus! {

broadcast use vstd::string::group_string_axioms;

/// What to do now, and what the run waits for afterwards.
pub struct Plan<W> {
    pub ops: Vec<Op>,
    pub next: W,
}

/// Where the map button is.
pub open spec fn map_button() -> Op {
    Op::Tap { x: 1267, y: 61 }
}

/// Where the backpack button is.
pub open spec fn backpack_button() -> Op {
    Op::Tap { x: 1245, y: 255 }
}

// ---------------------------------------------------------------------------
// Reaching the spot on the map
// ---------------------------------------------------------------------------

/// The marker pixel shows that the spot is reached: bright yellow.
pub open spec fn marker_reached(r: u8, g: u8, b: u8) -> bool {
    r > 240 && g > 240 && b < 10
}

/// Only a bright yellow pixel marks the spot: red and green above 240 and
/// blue below 10; a pixel that misses any of these is no marker.
pub proof fn lemma_marker_is_bright_yellow(r: u8, g: u8, b: u8)
    ensures
        r <= 240 ==> !marker_reached(r, g, b),
        g <= 240 ==> !marker_reached(r, g, b),
        b >= 10 ==> !marker_reached(r, g, b),
        r > 240 && g > 240 && b < 10 ==> marker_reached(r, g, b),
{
}

/// What the run to the map spot waits for.
#[derive(Clone, Copy, Debug, PartialEq, Eq, Structural)]
pub enum MapWait {
    /// A screenshot, and whether the opened map's template matches in it
    /// (difference below 13).
    MapProbe,
    /// The colour of the target pixel in the screenshot of the last map probe.
    MarkerProbe,
    /// The spot is reached.
    Arrived,
}

/// The run that taps the map until the character stands on the spot.
pub struct MapPosition {
    /// The spot's column, where the marker pixel is read.
    pub target_x: u32,
    /// The spot's row, where the marker pixel is read.
    pub target_y: u32,
    /// The spot's column as configured; the tap hands it to adb as it is.
    pub map_x: String,
    /// The spot's row as configured; the tap hands it to adb as it is.
    pub map_y: String,
}

impl MapPosition {
    /// The run towards the configured spot; `None` when a coordinate is not
    /// a number (where the run cannot start).
    pub fn new(map_x: &str, map_y: &str) -> (r: Option<MapPosition>)
        ensures
            match (parsed_u32(map_x@), parsed_u32(map_y@)) {
                (Some(x), Some(y)) => r matches Some(run) && run.target_x == x && run.target_y == y
                    && run.map_x@ == map_x@ && run.map_y@ == map_y@,
                _ => r is None,
            },
    {
        match (parse_u32(map_x), parse_u32(map_y)) {
            (Some(x), Some(y)) => Some(
                MapPosition {
                    target_x: x,
                    target_y: y,
                    map_x: map_x.to_string(),
                    map_y: map_y.to_string(),
                },
            ),
            _ => None,
        }
    }

    fn open_map() -> (p: Plan<MapWait>)
        ensures
            p.ops@ == seq![map_button(), Op::Sleep { ms: 3500 }],
            p.next == MapWait::MapProbe,
    {
        let mut ops: Vec<Op> = Vec::new();
        ops.push(Op::Tap { x: 1267, y: 61 });
        ops.push(Op::Sleep { ms: 3500 });
        assert(ops@ =~= seq![map_button(), Op::Sleep { ms: 3500 }]);
        Plan { ops, next: MapWait::MapProbe }
    }

    /// Opens the map.
    pub fn start(&self) -> (p: Plan<MapWait>)
        ensures
            p.ops@ == seq![map_button(), Op::Sleep { ms: 3500 }],
            p.next == MapWait::MapProbe,
    {
        Self::open_map()
    }

    /// After a map probe: on the open map, tap the spot as configured and
    /// look at its pixel; otherwise open the map again.
    pub fn on_map_probe(&self, map_open: bool) -> (p: Plan<MapWait>)
        ensures
            map_open ==> p.ops@ == seq![
                Op::TapText { x: self.map_x, y: self.map_y },
                Op::Sleep { ms: 2500 },
            ] && p.next == MapWait::MarkerProbe,
            !map_open ==> p.ops@ == seq![map_button(), Op::Sleep { ms: 3500 }] && p.next
                == MapWait::MapProbe,
    {
        if map_open {
            let mut ops: Vec<Op> = Vec::new();
            ops.push(Op::TapText { x: self.map_x.clone(), y: self.map_y.clone() });
            ops.push(Op::Sleep { ms: 2500 });
            assert(ops@ =~= seq![
                Op::TapText { x: self.map_x, y: self.map_y },
                Op::Sleep { ms: 2500 },
            ]);
            Plan { ops, next: MapWait::MarkerProbe }
        } else {
            Self::open_map()
        }
    }

    /// After reading the marker pixel: the run ends when the marker shows;
    /// otherwise it opens the map again.
    pub fn on_marker(&self, r: u8, g: u8, b: u8) -> (p: Plan<MapWait>)
        ensures
            marker_reached(r, g, b) ==> p.ops@.len() == 0 && p.next == MapWait::Arrived,
            !marker_reached(r, g, b) ==> p.ops@ == seq![map_button(), Op::Sleep { ms: 3500 }]
                && p.next == MapWait::MapProbe,
    {
        if r > 240 && g > 240 && b < 10 {
            Plan { ops: Vec::new(), next: MapWait::Arrived }
        } else {
            Self::open_map()
        }
    }
}

// ---------------------------------------------------------------------------
// Opening the backpack
// ---------------------------------------------------------------------------

/// What the run that opens the backpack waits for.
#[derive(Clone, Copy, Debug, PartialEq, Eq, Structural)]
pub enum OpenWait {
    /// A screenshot, and whether the backpack's template matches in it
    /// (difference at most 18).
    Probe,
    /// The backpack is open, where the last probe found it.
    Opened,
    /// Ten taps with three probes each found no backpack.
    GaveUp,
}

/// The run that taps the backpack button up to ten times, looking three
/// times after each tap.
pub struct BackpackOpen {
    /// Taps so far.
    pub taps: u32,
    /// Failed probes since the last tap.
    pub probes: u32,
}

impl BackpackOpen {
    /// The counters are in range.
    pub open spec fn wf(&self) -> bool {
        1 <= self.taps <= 10 && self.probes < 3
    }

    /// How many more failed probes the run takes before it gives up.
    pub open spec fn probes_left(&self) -> int {
        (10 - self.taps) * 3 + (3 - self.probes)
    }

    fn tap_and_wait() -> (p: Plan<OpenWait>)
        ensures
            p.ops@ == seq![backpack_button(), Op::Sleep { ms: 2500 }],
            p.next == OpenWait::Probe,
    {
        let mut ops: Vec<Op> = Vec::new();
        ops.push(Op::Tap { x: 1245, y: 255 });
        ops.push(Op::Sleep { ms: 2500 });
        assert(ops@ =~= seq![backpack_button(), Op::Sleep { ms: 2500 }]);
        Plan { ops, next: OpenWait::Probe }
    }

    /// Starts the run: taps the backpack button. The run has 30 probes.
    pub fn new() -> (r: (BackpackOpen, Plan<OpenWait>))
        ensures
            r.0.wf(),
            r.0.taps == 1 && r.0.probes == 0,
            r.0.probes_left() == 30,
            r.1.ops@ == seq![backpack_button(), Op::Sleep { ms: 2500 }],
            r.1.next == OpenWait::Probe,
    {
        (BackpackOpen { taps: 1, probes: 0 }, Self::tap_and_wait())
    }

    /// After a probe. A match ends the run with the backpack open. A miss
    /// uses up one probe: the run looks again, taps again after three misses,
    /// and gives up when no probe is left.
    pub fn on_probe(&mut self, open: bool) -> (p: Plan<OpenWait>)
        requires
            old(self).wf(),
        ensures
            open ==> *final(self) == *old(self) && p.ops@ == seq![Op::Sleep { ms: 600 }]
                && p.next == OpenWait::Opened,
            !open ==> final(self).probes_left() == old(self).probes_left() - 1,
            !open && old(self).probes + 1 < 3 ==> final(self).taps == old(self).taps
                && final(self).probes == old(self).probes + 1 && p.ops@ == seq![
                Op::Sleep { ms: 2500 },
            ] && p.next == OpenWait::Probe,
            !open && old(self).probes + 1 == 3 && old(self).taps < 10 ==> final(self).taps
                == old(self).taps + 1 && final(self).probes == 0 && p.ops@ == seq![
                backpack_button(),
                Op::Sleep { ms: 2500 },
            ] && p.next == OpenWait::Probe,
            p.next == OpenWait::GaveUp <==> !open && old(self).probes_left() == 1,
            !open && old(self).probes + 1 == 3 && old(self).taps == 10 ==> *final(self) == (
            BackpackOpen { taps: 10, probes: 3 }) && p.ops@.len() == 0 && p.next
                == OpenWait::GaveUp,
            p.next == OpenWait::Probe ==> final(self).wf(),
    {
        if open {
            let mut ops: Vec<Op> = Vec::new();
            ops.push(Op::Sleep { ms: 600 });
            assert(ops@ =~= seq![Op::Sleep { ms: 600 }]);
            return Plan { ops, next: OpenWait::Opened };
        }
        if self.probes + 1 < 3 {
            self.probes = self.probes + 1;
            let mut ops: Vec<Op> = Vec::new();
            ops.push(Op::Sleep { ms: 2500 });
            assert(ops@ =~= seq![Op::Sleep { ms: 2500 }]);
            Plan { ops, next: OpenWait::Probe }
        } else if self.taps < 10 {
            self.taps = self.taps + 1;
            self.probes = 0;
            Self::tap_and_wait()
        } else {
            self.probes = self.probes + 1;
            Plan { ops: Vec::new(), next: OpenWait::GaveUp }
        }
    }
}

// ---------------------------------------------------------------------------
// Closing the pop-up window
// ---------------------------------------------------------------------------

/// What the run that closes the pop-up waits for.
#[derive(Clone, Copy, Debug, PartialEq, Eq, Structural)]
pub enum CloseWait {
    /// Whether the close button's template is missing (difference above
    /// 13): from the screenshot already taken, or from a new one when
    /// `fresh`.
    Recheck { fresh: bool },
    /// A check found the button's template (difference 13 or less), which
    /// ends the run.
    Matched,
    /// No pop-up was found.
    NotFound,
}

/// After the first look for the close button (difference below 13 when
/// found): tap it and check again, or stop.
pub fn close_window_on_probe(found: bool, x: u32, y: u32) -> (p: Plan<CloseWait>)
    ensures
        found ==> p.ops@ == seq![Op::Tap { x, y }] && p.next == (CloseWait::Recheck { fresh: false }),
        !found ==> p.ops@.len() == 0 && p.next == CloseWait::NotFound,
{
    if found {
        let mut ops: Vec<Op> = Vec::new();
        ops.push(Op::Tap { x, y });
        assert(ops@ =~= seq![Op::Tap { x, y }]);
        Plan { ops, next: CloseWait::Recheck { fresh: false } }
    } else {
        Plan { ops: Vec::new(), next: CloseWait::NotFound }
    }
}

/// After a check: while the button's template is missing from the
/// screenshot, wait and check a new screenshot; the run ends once it matches.
pub fn close_window_on_recheck(not_matched: bool) -> (p: Plan<CloseWait>)
    ensures
        not_matched ==> p.ops@ == seq![Op::Sleep { ms: 500 }] && p.next == (CloseWait::Recheck {
            fresh: true,
        }),
        !not_matched ==> p.ops@.len() == 0 && p.next == CloseWait::Matched,
{
    if not_matched {
        let mut ops: Vec<Op> = Vec::new();
        ops.push(Op::Sleep { ms: 500 });
        assert(ops@ =~= seq![Op::Sleep { ms: 500 }]);
        Plan { ops, next: CloseWait::Recheck { fresh: true } }
    } else {
        Plan { ops: Vec::new(), next: CloseWait::Matched }
    }
}

// ---------------------------------------------------------------------------
// The backpack's layout
// ---------------------------------------------------------------------------

/// The offset of backpack cell `k` (8 to a row, 5 rows), measured back from
/// where the backpack's template matches.
pub open spec fn cell_offset(k: int) -> (u32, u32) {
    let c = k % 8;
    let r = k / 8;
    let x: int = if c < 7 {
        792 - 279 - 73 * c
    } else {
        792 - 756
    };
    let y: int = if r == 0 {
        563 - 192
    } else if r == 1 {
        563 - 272
    } else if r == 2 {
        563 - 345
    } else if r == 3 {
        563 - 419
    } else {
        563 - 485
    };
    (x as u32, y as u32)
}

/// The offsets of the 40 backpack cells, row by row.
pub fn backpack_rows() -> (rows: Vec<(u32, u32)>)
    ensures
        rows@.len() == 40,
        forall|k: int| 0 <= k < 40 ==> #[trigger] rows@[k] == cell_offset(k),
{
    let ys: [u32; 5] = [371, 291, 218, 144, 78];
    let mut rows: Vec<(u32, u32)> = Vec::new();
    let mut r: usize = 0;
    while r < 5
        invariant
            0 <= r <= 5,
            ys@ == seq![371u32, 291, 218, 144, 78],
            rows@.len() == 8 * r,
            forall|k: int| 0 <= k < rows@.len() ==> #[trigger] rows@[k] == cell_offset(k),
        decreases 5 - r,
    {
        let mut c: usize = 0;
        while c < 8
            invariant
                0 <= r < 5,
                0 <= c <= 8,
                ys@ == seq![371u32, 291, 218, 144, 78],
                rows@.len() == 8 * r + c,
                forall|k: int| 0 <= k < rows@.len() ==> #[trigger] rows@[k] == cell_offset(k),
            decreases 8 - c,
        {
            let x: u32 = if c < 7 {
                513 - 73 * (c as u32)
            } else {
                36
            };
            let ghost k = rows@.len() as int;
            assert(k % 8 == c as int && k / 8 == r as int) by (nonlinear_arith)
                requires
                    k == 8 * r + c,
                    c < 8,
            ;
            rows.push((x, ys[r]));
            assert(rows@[k] == cell_offset(k));
            c = c + 1;
        }
        r = r + 1;
    }
    rows
}

/// The backpack's 40 cells form a grid of 5 rows of 8: cells of one row share
/// their height and lie further left (a larger offset back) as the column
/// grows, rows lie higher up (a smaller offset back) as the row grows, and
/// so no two cells share an offset.
pub proof fn lemma_backpack_grid(k1: int, k2: int)
    requires
        0 <= k1 < 40,
        0 <= k2 < 40,
    ensures
        k1 / 8 == k2 / 8 ==> cell_offset(k1).1 == cell_offset(k2).1,
        k1 / 8 < k2 / 8 ==> cell_offset(k1).1 > cell_offset(k2).1,
        k1 % 8 == k2 % 8 ==> cell_offset(k1).0 == cell_offset(k2).0,
        k1 % 8 < k2 % 8 ==> cell_offset(k1).0 > cell_offset(k2).0,
        k1 != k2 ==> cell_offset(k1) != cell_offset(k2),
{
    vstd::arithmetic::div_mod::lemma_fundamental_div_mod(k1, 8);
    vstd::arithmetic::div_mod::lemma_fundamental_div_mod(k2, 8);
    assert(0 <= k1 / 8 < 5 && 0 <= k2 / 8 < 5) by (nonlinear_arith)
        requires
            0 <= k1 < 40,
            0 <= k2 < 40,
    ;
}

/// The size of the goods' name tag shown beside a cell.
pub fn goods_size() -> (s: (u32, u32))
    ensures
        s == ((413 - 256) as u32, (226 - 145) as u32),
{
    (157, 81)
}

// ---------------------------------------------------------------------------
// Clearing the goods out of the backpack
// ---------------------------------------------------------------------------

/// What the clearing run waits for.
#[derive(Clone, Copy, Debug, PartialEq, Eq, Structural)]
pub enum DiscardWait {
    /// The run moves on to its current cell (see `enter_cell`).
    NextCell,
    /// The text read from the `w` by `h` crop of a new screenshot at
    /// `(x, y)`: `None` when reading failed.
    Scan { x: u32, y: u32, w: u32, h: u32 },
    /// Where the first confirm button's template matches best in a new
    /// screenshot, and whether it matches (difference at most 13).
    ConfirmFirst,
    /// The same for the second confirm button.
    ConfirmSecond,
    /// The run is over.
    Done,
}

/// The run that walks the backpack's cells, reads each cell's name tag, and
/// drags the configured goods out, confirming the drop.
pub struct GoodsDiscard {
    /// Where the backpack's template matched.
    pub origin_x: u32,
    pub origin_y: u32,
    /// The cells' offsets back from the origin.
    pub rows: Vec<(u32, u32)>,
    /// The size of a name tag.
    pub goods_w: u32,
    pub goods_h: u32,
    /// The name of the goods to drop.
    pub goods_name: String,
    /// Where goods are dragged to be dropped.
    pub discard_x: u32,
    pub discard_y: u32,
    /// The current cell, and where it is on the screen.
    pub cell: usize,
    pub click_x: u32,
    pub click_y: u32,
    /// Failed reads of the current cell.
    pub scans: u32,
    /// The last cell could not be read at all.
    pub unreadable: bool,
    /// Cells given up early because the cell before could not be read.
    pub misses: u32,
    /// Confirm rounds done for the current drop, and whether the second
    /// confirm button was tapped in one of them.
    pub rounds: u32,
    pub confirmed: bool,
    /// What the run waits for.
    pub wait: DiscardWait,
}

/// The text read from a name tag shows a name: at least two lines were read.
pub open spec fn readable(lines: Option<Vec<String>>) -> bool {
    lines matches Some(v) && v@.len() >= 2
}

/// The first line of a readable tag is the goods' name.
pub open spec fn names_goods(lines: Option<Vec<String>>, name: Seq<char>) -> bool {
    lines matches Some(v) && v@.len() >= 2 && v@[0]@ == name
}

impl GoodsDiscard {
    /// The counters are in range, and the wait matches the state.
    pub open spec fn wf(&self) -> bool {
        &&& self.cell <= self.rows@.len()
        &&& self.scans < 6
        &&& self.rounds < 12
        &&& self.misses <= 4
        &&& self.wait is Scan ==> {
            &&& self.misses <= 3
            &&& self.cell < self.rows@.len()
            &&& self.wait == (DiscardWait::Scan {
                x: self.click_x,
                y: self.click_y,
                w: self.goods_w,
                h: self.goods_h,
            })
        }
        &&& (self.wait is ConfirmFirst || self.wait is ConfirmSecond) ==> self.cell
            < self.rows@.len()
    }

    /// A bound on the steps the run still takes: each cell takes at most one
    /// move, six reads, and the twelve confirm rounds of one drop.
    pub open spec fn steps_left(&self) -> int {
        (self.rows@.len() - self.cell) * 40 + match self.wait {
            DiscardWait::NextCell => 31,
            DiscardWait::Scan { .. } => 30 - self.scans,
            DiscardWait::ConfirmFirst => 24 - 2 * self.rounds,
            DiscardWait::ConfirmSecond => 23 - 2 * self.rounds,
            DiscardWait::Done => 0,
        }
    }

    /// Cell `k` can be found on the screen: its offset is no larger than the
    /// origin.
    pub open spec fn cell_fits(&self, k: int) -> bool {
        self.rows@[k].0 <= self.origin_x && self.rows@[k].1 <= self.origin_y
    }

    /// Starts the run at the backpack found at `(origin_x, origin_y)`: taps
    /// the sort button, and places the drop point 120 pixels right of the
    /// origin (at x = 100 when that is past 1200).
    pub fn new(
        origin_x: u32,
        origin_y: u32,
        rows: Vec<(u32, u32)>,
        goods_w: u32,
        goods_h: u32,
        goods_name: String,
    ) -> (r: (GoodsDiscard, Plan<DiscardWait>))
        requires
            792 <= origin_x + 732 <= u32::MAX,
            origin_y + 572 <= u32::MAX,
        ensures
            r.0.wf(),
            r.0.origin_x == origin_x && r.0.origin_y == origin_y,
            r.0.rows == rows && r.0.goods_w == goods_w && r.0.goods_h == goods_h,
            r.0.goods_name == goods_name,
            r.0.discard_x == if origin_x + 120 > 1200 {
                100
            } else {
                origin_x + 120
            },
            r.0.discard_y == origin_y,
            r.0.cell == 0 && r.0.misses == 0 && !r.0.unreadable,
            r.0.wait == DiscardWait::NextCell && r.1.next == DiscardWait::NextCell,
            r.1.ops@ == seq![
                Op::Sleep { ms: 300 },
                Op::Tap { x: (origin_x + 732 - 792) as u32, y: (origin_y + 572 - 563) as u32 },
                Op::Sleep { ms: 500 },
            ],
    {
        let mut ops: Vec<Op> = Vec::new();
        ops.push(Op::Sleep { ms: 300 });
        ops.push(Op::Tap { x: origin_x + 732 - 792, y: origin_y + 572 - 563 });
        ops.push(Op::Sleep { ms: 500 });
        assert(ops@ =~= seq![
            Op::Sleep { ms: 300 },
            Op::Tap { x: (origin_x + 732 - 792) as u32, y: (origin_y + 572 - 563) as u32 },
            Op::Sleep { ms: 500 },
        ]);
        let discard_x = if origin_x + 120 > 1200 {
            100
        } else {
            origin_x + 120
        };
        let state = GoodsDiscard {
            origin_x,
            origin_y,
            rows,
            goods_w,
            goods_h,
            goods_name,
            discard_x,
            discard_y: origin_y,
            cell: 0,
            click_x: 0,
            click_y: 0,
            scans: 0,
            unreadable: false,
            misses: 0,
            rounds: 0,
            confirmed: false,
            wait: DiscardWait::NextCell,
        };
        (state, Plan { ops, next: DiscardWait::NextCell })
    }

    /// Moves to the current cell: taps it, then stops when four cells were
    /// given up, or starts reading its name tag. Past the last cell the run
    /// is over.
    pub fn enter_cell(&mut self) -> (p: Plan<DiscardWait>)
        requires
            old(self).wf(),
            old(self).wait == DiscardWait::NextCell,
            old(self).cell < old(self).rows@.len() ==> old(self).cell_fits(old(self).cell as int),
        ensures
            final(self).wf(),
            0 <= final(self).steps_left() < old(self).steps_left(),
            p.next == final(self).wait,
            old(self).cell == old(self).rows@.len() ==> p.ops@.len() == 0 && *final(self) == (
            GoodsDiscard { wait: DiscardWait::Done, ..*old(self) }),
            old(self).cell < old(self).rows@.len() ==> {
                let cx = (old(self).origin_x - old(self).rows@[old(self).cell as int].0) as u32;
                let cy = (old(self).origin_y - old(self).rows@[old(self).cell as int].1) as u32;
                &&& old(self).misses > 3 ==> p.ops@ == seq![Op::Tap { x: cx, y: cy }] && *final(self) == (GoodsDiscard {
                    click_x: cx,
                    click_y: cy,
                    wait: DiscardWait::Done,
                    ..*old(self)
                })
                &&& old(self).misses <= 3 ==> p.ops@ == seq![
                    Op::Tap { x: cx, y: cy },
                    Op::Sleep { ms: 1000 },
                ] && *final(self) == (GoodsDiscard {
                    click_x: cx,
                    click_y: cy,
                    scans: 0,
                    wait: DiscardWait::Scan {
                        x: cx,
                        y: cy,
                        w: old(self).goods_w,
                        h: old(self).goods_h,
                    },
                    ..*old(self)
                })
            },
    {
        if self.cell >= self.rows.len() {
            self.wait = DiscardWait::Done;
            return Plan { ops: Vec::new(), next: DiscardWait::Done };
        }
        let (rx, ry) = self.rows[self.cell];
        let cx = self.origin_x - rx;
        let cy = self.origin_y - ry;
        self.click_x = cx;
        self.click_y = cy;
        let mut ops: Vec<Op> = Vec::new();
        ops.push(Op::Tap { x: cx, y: cy });
        if self.misses > 3 {
            assert(ops@ =~= seq![Op::Tap { x: cx, y: cy }]);
            self.wait = DiscardWait::Done;
            return Plan { ops, next: DiscardWait::Done };
        }
        ops.push(Op::Sleep { ms: 1000 });
        assert(ops@ =~= seq![Op::Tap { x: cx, y: cy }, Op::Sleep { ms: 1000 }]);
        self.scans = 0;
        let next = DiscardWait::Scan { x: cx, y: cy, w: self.goods_w, h: self.goods_h };
        self.wait = next;
        Plan { ops, next }
    }

    /// After reading the current cell's name tag. A readable tag that names
    /// the goods starts a drop: drag the goods to the drop point (taking 300
    /// to 2000 ms, at random), type the quantity, and start the first of 12
    /// confirm rounds. Another readable tag moves on to the next cell. An
    /// unreadable tag is read again after a second, up to six times; after
    /// six failures the cell counts as unreadable, and after a cell that was
    /// unreadable, four failures give the cell up.
    pub fn on_scan(&mut self, lines: Option<Vec<String>>) -> (p: Plan<DiscardWait>)
        requires
            old(self).wf(),
            old(self).wait is Scan,
        ensures
            final(self).wf(),
            0 <= final(self).steps_left() < old(self).steps_left(),
            p.next == final(self).wait,
            // a drop starts exactly when the tag names the goods
            (p.next == DiscardWait::ConfirmFirst) == names_goods(lines, old(self).goods_name@),
            names_goods(lines, old(self).goods_name@) ==> {
                &&& p.ops@.len() == 5
                &&& p.ops@[0] matches Op::Swipe { x, y, to_x, to_y, duration_ms } && x
                    == old(self).click_x && y == old(self).click_y && to_x == old(self).discard_x
                    && to_y == old(self).discard_y && 300 <= duration_ms <= 2000
                &&& p.ops@.drop_first() == seq![
                    Op::Sleep { ms: 3500 },
                    Op::InputText,
                    Op::Sleep { ms: 500 },
                    Op::Sleep { ms: 1800 },
                ]
                &&& *final(self) == (GoodsDiscard {
                    unreadable: false,
                    rounds: 0,
                    confirmed: false,
                    wait: DiscardWait::ConfirmFirst,
                    ..*old(self)
                })
            },
            readable(lines) && !names_goods(lines, old(self).goods_name@) ==> p.ops@.len() == 0
                && *final(self) == (GoodsDiscard {
                unreadable: false,
                cell: (old(self).cell + 1) as usize,
                wait: DiscardWait::NextCell,
                ..*old(self)
            }),
            !readable(lines) ==> {
                let tries = old(self).scans + 1;
                &&& tries == 6 ==> p.ops@.len() == 0 && *final(self) == (GoodsDiscard {
                    unreadable: true,
                    scans: 0,
                    cell: (old(self).cell + 1) as usize,
                    wait: DiscardWait::NextCell,
                    ..*old(self)
                })
                &&& tries < 6 && old(self).unreadable && tries == 4 ==> p.ops@.len() == 0
                    && *final(self) == (GoodsDiscard {
                    misses: (old(self).misses + 1) as u32,
                    scans: 0,
                    cell: (old(self).cell + 1) as usize,
                    wait: DiscardWait::NextCell,
                    ..*old(self)
                })
                &&& tries < 6 && !(old(self).unreadable && tries == 4) ==> p.ops@ == seq![
                    Op::Sleep { ms: 1000 },
                ] && *final(self) == (GoodsDiscard { scans: tries as u32, ..*old(self) })
            },
    {
        let n_cells: usize = self.rows.len();
        assert(self.cell < n_cells);
        let is_readable = match &lines {
            Some(v) => v.len() >= 2,
            None => false,
        };
        if is_readable {
            let v = lines.unwrap();
            self.unreadable = false;
            if v[0] == self.goods_name {
                let ms = random_in(300, 2001) as u32;
                let mut ops: Vec<Op> = Vec::new();
                ops.push(
                    Op::Swipe {
                        x: self.click_x,
                        y: self.click_y,
                        to_x: self.discard_x,
                        to_y: self.discard_y,
                        duration_ms: ms,
                    },
                );
                ops.push(Op::Sleep { ms: 3500 });
                ops.push(Op::InputText);
                ops.push(Op::Sleep { ms: 500 });
                ops.push(Op::Sleep { ms: 1800 });
                assert(ops@.drop_first() =~= seq![
                    Op::Sleep { ms: 3500 },
                    Op::InputText,
                    Op::Sleep { ms: 500 },
                    Op::Sleep { ms: 1800 },
                ]);
                self.rounds = 0;
                self.confirmed = false;
                self.wait = DiscardWait::ConfirmFirst;
                return Plan { ops, next: DiscardWait::ConfirmFirst };
            }
            self.cell = self.cell + 1;
            self.wait = DiscardWait::NextCell;
            return Plan { ops: Vec::new(), next: DiscardWait::NextCell };
        }
        self.scans = self.scans + 1;
        if self.scans == 6 {
            self.unreadable = true;
            self.scans = 0;
            self.cell = self.cell + 1;
            self.wait = DiscardWait::NextCell;
            Plan { ops: Vec::new(), next: DiscardWait::NextCell }
        } else if self.unreadable && self.scans == 4 {
            self.misses = self.misses + 1;
            self.scans = 0;
            self.cell = self.cell + 1;
            self.wait = DiscardWait::NextCell;
            Plan { ops: Vec::new(), next: DiscardWait::NextCell }
        } else {
            let mut ops: Vec<Op> = Vec::new();
            ops.push(Op::Sleep { ms: 1000 });
            assert(ops@ =~= seq![Op::Sleep { ms: 1000 }]);
            Plan { ops, next: self.wait }
        }
    }

    /// After looking for the first confirm button: when it matches right of
    /// x = 749, tap just below its match and wait; then look for the second.
    pub fn on_confirm_first(&mut self, found: bool, x: u32, y: u32) -> (p: Plan<DiscardWait>)
        requires
            old(self).wf(),
            old(self).wait == DiscardWait::ConfirmFirst,
            found && x > 749 ==> y + 5 <= u32::MAX,
        ensures
            final(self).wf(),
            0 <= final(self).steps_left() < old(self).steps_left(),
            p.next == final(self).wait,
            *final(self) == (GoodsDiscard { wait: DiscardWait::ConfirmSecond, ..*old(self) }),
            found && x > 749 ==> p.ops@ == seq![
                Op::Tap { x, y: (y + 5) as u32 },
                Op::Sleep { ms: 1800 },
            ],
            !(found && x > 749) ==> p.ops@.len() == 0,
    {
        self.wait = DiscardWait::ConfirmSecond;
        if found && x > 749 {
            let mut ops: Vec<Op> = Vec::new();
            ops.push(Op::Tap { x, y: y + 5 });
            ops.push(Op::Sleep { ms: 1800 });
            assert(ops@ =~= seq![Op::Tap { x, y: (y + 5) as u32 }, Op::Sleep { ms: 1800 }]);
            Plan { ops, next: DiscardWait::ConfirmSecond }
        } else {
            Plan { ops: Vec::new(), next: DiscardWait::ConfirmSecond }
        }
    }

    /// After looking for the second confirm button: when it matches left of
    /// x = 749, tap just below its match, and the drop counts as confirmed.
    /// After the twelfth round the run moves on to the next cell.
    pub fn on_confirm_second(&mut self, found: bool, x: u32, y: u32) -> (p: Plan<DiscardWait>)
        requires
            old(self).wf(),
            old(self).wait == DiscardWait::ConfirmSecond,
            found && x < 749 ==> y + 5 <= u32::MAX,
        ensures
            final(self).wf(),
            0 <= final(self).steps_left() < old(self).steps_left(),
            p.next == final(self).wait,
            ({
                let tap = if found && x < 749 {
                    seq![Op::Tap { x, y: (y + 5) as u32 }]
                } else {
                    Seq::<Op>::empty()
                };
                let confirmed = old(self).confirmed || (found && x < 749);
                if old(self).rounds + 1 < 12 {
                    &&& p.ops@ == tap.push(Op::Sleep { ms: 1800 })
                    &&& *final(self) == (GoodsDiscard {
                        confirmed,
                        rounds: (old(self).rounds + 1) as u32,
                        wait: DiscardWait::ConfirmFirst,
                        ..*old(self)
                    })
                } else {
                    &&& p.ops@ == tap
                    &&& *final(self) == (GoodsDiscard {
                        confirmed,
                        rounds: 0,
                        cell: (old(self).cell + 1) as usize,
                        wait: DiscardWait::NextCell,
                        ..*old(self)
                    })
                }
            }),
    {
        let n_cells: usize = self.rows.len();
        assert(self.cell < n_cells);
        let mut ops: Vec<Op> = Vec::new();
        if found && x < 749 {
            ops.push(Op::Tap { x, y: y + 5 });
            self.confirmed = true;
        }
        self.rounds = self.rounds + 1;
        if self.rounds < 12 {
            ops.push(Op::Sleep { ms: 1800 });
            self.wait = DiscardWait::ConfirmFirst;
            Plan { ops, next: DiscardWait::ConfirmFirst }
        } else {
            self.rounds = 0;
            self.cell = self.cell + 1;
            self.wait = DiscardWait::NextCell;
            Plan { ops, next: DiscardWait::NextCell }
        }
    }
}

} // verus!
