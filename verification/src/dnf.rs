//! Keyboard and mouse scripts for the game window.
//!
//! Each method returns the script it stands for; a driver of the virtual
//! keyboard and mouse plays it. Random pauses and click offsets are drawn
//! here, so every script states what holds whatever was drawn.
use vstd::prelude::*;
use crate::random::random_in;

verus! {

broadcast use vstd::string::group_string_axioms;

/// How a key is sent.
#[derive(Clone, Copy, Debug, PartialEq, Eq, Structural)]
pub enum UpOrDown {
    Down,
    Up,
    DownAndUp,
}

/// One instruction for the keyboard and mouse driver.
#[derive(Debug, PartialEq, Eq)]
pub enum Instruction {
    /// Send a key (named as the driver names keys, such as `"left"` or `"f2"`).
    Key { key: String, mode: UpOrDown },
    /// Move the mouse to a point and click.
    Click { x: u32, y: u32 },
    /// Wait for `ms` milliseconds.
    Sleep { ms: u64 },
}

/// A script, and whether its player stops at the first failed key.
pub struct Script {
    pub steps: Vec<Instruction>,
    pub stop_on_error: bool,
}

/// What one step of a script must be.
pub enum StepShape {
    /// This key, sent this way.
    Key { key: Seq<char>, mode: UpOrDown },
    /// A click less than six pixels right of and below `(x, y)`.
    ClickNear { x: u32, y: u32 },
    /// A pause of at least `lo` and less than `hi` milliseconds.
    SleepBetween { lo: u64, hi: u64 },
    /// A pause of exactly `ms` milliseconds.
    Sleep { ms: u64 },
}

/// The instruction has the shape.
pub open spec fn fits(ins: Instruction, shape: StepShape) -> bool {
    match shape {
        StepShape::Key { key, mode } => ins matches Instruction::Key { key: k, mode: m } && k@
            == key && m == mode,
        StepShape::ClickNear { x, y } => ins matches Instruction::Click { x: cx, y: cy } && x
            <= cx < x + 6 && y <= cy < y + 6,
        StepShape::SleepBetween { lo, hi } => ins matches Instruction::Sleep { ms } && lo <= ms
            < hi,
        StepShape::Sleep { ms } => ins matches Instruction::Sleep { ms: m } && m == ms,
    }
}

/// The script has exactly the given shapes, step by step.
pub open spec fn follows(steps: Seq<Instruction>, shapes: Seq<StepShape>) -> bool {
    &&& steps.len() == shapes.len()
    &&& forall|i: int| 0 <= i < steps.len() ==> #[trigger] fits(steps[i], shapes[i])
}

proof fn lemma_follows_push(steps: Seq<Instruction>, shapes: Seq<StepShape>, ins: Instruction, shape: StepShape)
    requires
        follows(steps, shapes),
        fits(ins, shape),
    ensures
        follows(steps.push(ins), shapes.push(shape)),
{
    assert forall|i: int| 0 <= i < steps.len() + 1 implies #[trigger] fits(
        steps.push(ins)[i],
        shapes.push(shape)[i],
    ) by {
        if i < steps.len() {
            assert(steps.push(ins)[i] == steps[i]);
            assert(shapes.push(shape)[i] == shapes[i]);
        }
    }
}

/// A script being written, with the shapes of what it holds so far.
struct Writer {
    steps: Vec<Instruction>,
    shapes: Ghost<Seq<StepShape>>,
}

impl Writer {
    fn new() -> (w: Writer)
        ensures
            w.steps@ == Seq::<Instruction>::empty(),
            w.shapes@ == Seq::<StepShape>::empty(),
            follows(w.steps@, w.shapes@),
    {
        Writer { steps: Vec::new(), shapes: Ghost(Seq::empty()) }
    }

    fn key(&mut self, key: &str, mode: UpOrDown)
        requires
            follows(old(self).steps@, old(self).shapes@),
        ensures
            follows(final(self).steps@, final(self).shapes@),
            final(self).shapes@ == old(self).shapes@.push(StepShape::Key { key: key@, mode }),
    {
        let ins = Instruction::Key { key: key.to_string(), mode };
        proof {
            lemma_follows_push(self.steps@, self.shapes@, ins, StepShape::Key { key: key@, mode });
        }
        self.steps.push(ins);
        self.shapes = Ghost(self.shapes@.push(StepShape::Key { key: key@, mode }));
    }

    fn pause_between(&mut self, lo: u64, hi: u64)
        requires
            lo < hi,
            follows(old(self).steps@, old(self).shapes@),
        ensures
            follows(final(self).steps@, final(self).shapes@),
            final(self).shapes@ == old(self).shapes@.push(StepShape::SleepBetween { lo, hi }),
    {
        let ins = Instruction::Sleep { ms: random_in(lo, hi) };
        proof {
            lemma_follows_push(self.steps@, self.shapes@, ins, StepShape::SleepBetween { lo, hi });
        }
        self.steps.push(ins);
        self.shapes = Ghost(self.shapes@.push(StepShape::SleepBetween { lo, hi }));
    }

    fn pause(&mut self, ms: u64)
        requires
            follows(old(self).steps@, old(self).shapes@),
        ensures
            follows(final(self).steps@, final(self).shapes@),
            final(self).shapes@ == old(self).shapes@.push(StepShape::Sleep { ms }),
    {
        let ins = Instruction::Sleep { ms };
        proof {
            lemma_follows_push(self.steps@, self.shapes@, ins, StepShape::Sleep { ms });
        }
        self.steps.push(ins);
        self.shapes = Ghost(self.shapes@.push(StepShape::Sleep { ms }));
    }

    fn click_near(&mut self, x: u32, y: u32)
        requires
            x + 6 <= u32::MAX,
            y + 6 <= u32::MAX,
            follows(old(self).steps@, old(self).shapes@),
        ensures
            follows(final(self).steps@, final(self).shapes@),
            final(self).shapes@ == old(self).shapes@.push(StepShape::ClickNear { x, y }),
    {
        let cx = random_in(x as u64, x as u64 + 6) as u32;
        let cy = random_in(y as u64, y as u64 + 6) as u32;
        let ins = Instruction::Click { x: cx, y: cy };
        proof {
            lemma_follows_push(self.steps@, self.shapes@, ins, StepShape::ClickNear { x, y });
        }
        self.steps.push(ins);
        self.shapes = Ghost(self.shapes@.push(StepShape::ClickNear { x, y }));
    }
}

/// The key that moves along x: `"left"` when the target lies to the left.
pub open spec fn x_key(left: bool) -> Seq<char> {
    if left {
        "left"@
    } else {
        "right"@
    }
}

/// The key that moves along y: `"up"` when the target lies above.
pub open spec fn y_key(up: bool) -> Seq<char> {
    if up {
        "up"@
    } else {
        "down"@
    }
}

/// A pause of `ms` milliseconds, left out when it is zero.
pub open spec fn pause_if(ms: int) -> Seq<StepShape> {
    if ms > 0 {
        seq![StepShape::Sleep { ms: ms as u64 }]
    } else {
        seq![]
    }
}

/// The pauses of a move fit in `u64`: 3 ms per step along y, 2 ms per step
/// along x.
pub open spec fn move_fits(x_mov: u64, y_mov: u64) -> bool {
    if x_mov > y_mov {
        y_mov * 3 <= u64::MAX && (x_mov - y_mov) * 2 <= u64::MAX
    } else {
        x_mov * 2 <= u64::MAX && (y_mov - x_mov) * 3 <= u64::MAX
    }
}

/// The shape of a move of `x_mov` steps along x and `y_mov` along y.
pub open spec fn move_shape(left: bool, up: bool, x_mov: u64, y_mov: u64) -> Seq<StepShape> {
    let xk = x_key(left);
    let yk = y_key(up);
    seq![
        StepShape::Key { key: xk, mode: UpOrDown::DownAndUp },
        StepShape::Key { key: xk, mode: UpOrDown::Up },
        StepShape::SleepBetween { lo: 50, hi: 130 },
        StepShape::Key { key: yk, mode: UpOrDown::Down },
        StepShape::SleepBetween { lo: 50, hi: 130 },
    ] + if x_mov > y_mov {
        pause_if(y_mov * 3) + seq![StepShape::Key { key: yk, mode: UpOrDown::Up }] + pause_if(
            (x_mov - y_mov) * 2,
        ) + seq![StepShape::Key { key: xk, mode: UpOrDown::Up }]
    } else {
        pause_if(x_mov * 2) + seq![StepShape::Key { key: xk, mode: UpOrDown::Up }] + pause_if(
            (y_mov - x_mov) * 3,
        ) + seq![StepShape::Key { key: yk, mode: UpOrDown::Up }]
    }
}

/// Two instructions do the same: the same key sent the same way, a click at
/// the same point, or a pause of the same length.
pub open spec fn same_instruction(a: Instruction, b: Instruction) -> bool {
    match a {
        Instruction::Key { key, mode } => b matches Instruction::Key { key: k, mode: m } && k@
            == key@ && m == mode,
        Instruction::Click { x, y } => b matches Instruction::Click { x: bx, y: by } && bx == x
            && by == y,
        Instruction::Sleep { ms } => b matches Instruction::Sleep { ms: m } && m == ms,
    }
}

/// Every step of the shapes is a fixed key or a fixed pause.
spec fn all_fixed(shapes: Seq<StepShape>) -> bool {
    forall|i: int| 0 <= i < shapes.len() ==> #[trigger] shapes[i] is Key || shapes[i] is Sleep
}

proof fn lemma_all_fixed_add(a: Seq<StepShape>, b: Seq<StepShape>)
    requires
        all_fixed(a),
        all_fixed(b),
    ensures
        all_fixed(a + b),
{
    assert forall|i: int| 0 <= i < (a + b).len() implies #[trigger] (a + b)[i] is Key || (a
        + b)[i] is Sleep by {
        if i < a.len() {
            assert((a + b)[i] == a[i]);
        } else {
            assert((a + b)[i] == b[i - a.len()]);
        }
    }
}

proof fn lemma_move_tail_fixed(left: bool, up: bool, x_mov: u64, y_mov: u64)
    ensures
        move_shape(left, up, x_mov, y_mov).len() >= 5,
        all_fixed(move_shape(left, up, x_mov, y_mov).skip(5)),
{
    let xk = x_key(left);
    let yk = y_key(up);
    let head = seq![
        StepShape::Key { key: xk, mode: UpOrDown::DownAndUp },
        StepShape::Key { key: xk, mode: UpOrDown::Up },
        StepShape::SleepBetween { lo: 50, hi: 130 },
        StepShape::Key { key: yk, mode: UpOrDown::Down },
        StepShape::SleepBetween { lo: 50, hi: 130 },
    ];
    let (first, second) = if x_mov > y_mov {
        ((y_mov * 3) as int, ((x_mov - y_mov) * 2) as int)
    } else {
        ((x_mov * 2) as int, ((y_mov - x_mov) * 3) as int)
    };
    let (k1, k2) = if x_mov > y_mov {
        (yk, xk)
    } else {
        (xk, yk)
    };
    let key1 = seq![StepShape::Key { key: k1, mode: UpOrDown::Up }];
    let key2 = seq![StepShape::Key { key: k2, mode: UpOrDown::Up }];
    let tail = pause_if(first) + key1 + pause_if(second) + key2;
    assert(move_shape(left, up, x_mov, y_mov) == head + tail);
    assert((head + tail).skip(5) =~= tail);
    assert(all_fixed(pause_if(first)));
    assert(all_fixed(pause_if(second)));
    assert(all_fixed(key1));
    assert(all_fixed(key2));
    lemma_all_fixed_add(pause_if(first), key1);
    lemma_all_fixed_add(pause_if(first) + key1, pause_if(second));
    lemma_all_fixed_add(pause_if(first) + key1 + pause_if(second), key2);
}

/// A move is repeatable: any two scripts of `on_mov` for the same target
/// press the same keys the same way at the same steps and hold the same
/// fixed pauses; they differ only in the two short random pauses (steps 2
/// and 4), which both lie between 50 and 130 milliseconds.
pub proof fn lemma_on_mov_repeatable(
    left: bool,
    up: bool,
    x_mov: u64,
    y_mov: u64,
    a: Seq<Instruction>,
    b: Seq<Instruction>,
)
    requires
        follows(a, move_shape(left, up, x_mov, y_mov)),
        follows(b, move_shape(left, up, x_mov, y_mov)),
    ensures
        a.len() == b.len(),
        forall|i: int| 0 <= i < a.len() && i != 2 && i != 4 ==> #[trigger] same_instruction(a[i], b[i]),
        a[2] matches Instruction::Sleep { ms } && 50 <= ms < 130,
        a[4] matches Instruction::Sleep { ms } && 50 <= ms < 130,
        b[2] matches Instruction::Sleep { ms } && 50 <= ms < 130,
        b[4] matches Instruction::Sleep { ms } && 50 <= ms < 130,
{
    let shapes = move_shape(left, up, x_mov, y_mov);
    lemma_move_tail_fixed(left, up, x_mov, y_mov);
    assert(fits(a[2], shapes[2]) && fits(b[2], shapes[2]));
    assert(fits(a[4], shapes[4]) && fits(b[4], shapes[4]));
    assert forall|i: int| 0 <= i < a.len() && i != 2 && i != 4 implies #[trigger] same_instruction(
        a[i],
        b[i],
    ) by {
        assert(fits(a[i], shapes[i]) && fits(b[i], shapes[i]));
        if i >= 5 {
            assert(shapes.skip(5)[i - 5] == shapes[i]);
            assert(shapes[i] is Key || shapes[i] is Sleep);
        }
    }
}

/// Every step is a fixed pause.
pub open spec fn all_pauses(shapes: Seq<StepShape>) -> bool {
    forall|i: int| 0 <= i < shapes.len() ==> #[trigger] shapes[i] is Sleep
}

/// The milliseconds that the fixed pauses among the steps add up to.
pub open spec fn pause_total(shapes: Seq<StepShape>) -> int
    decreases shapes.len(),
{
    if shapes.len() == 0 {
        0
    } else {
        pause_total(shapes.drop_last()) + match shapes.last() {
            StepShape::Sleep { ms } => ms as int,
            _ => 0,
        }
    }
}

proof fn lemma_pause_if_total(ms: int)
    requires
        0 <= ms <= u64::MAX,
    ensures
        all_pauses(pause_if(ms)),
        pause_total(pause_if(ms)) == ms,
{
    if ms > 0 {
        let p = pause_if(ms);
        assert(p.drop_last() =~= Seq::<StepShape>::empty());
        assert(pause_total(p.drop_last()) == 0);
        assert(p.last() == StepShape::Sleep { ms: ms as u64 });
    } else {
        assert(pause_if(ms) =~= Seq::<StepShape>::empty());
    }
}

/// The hold times of a move. After the dash and the two short random
/// pauses, the key of the shorter axis is released first and the key of the
/// longer axis last, each after fixed pauses only: when the target is
/// further along x, the y key is held `3 * y_mov` ms and then the x key
/// `2 * (x_mov - y_mov)` ms more; otherwise the x key is held `2 * x_mov` ms
/// and then the y key `3 * (y_mov - x_mov)` ms more.
pub proof fn lemma_on_mov_hold_times(left: bool, up: bool, x_mov: u64, y_mov: u64)
    requires
        move_fits(x_mov, y_mov),
    ensures
        ({
            let sh = move_shape(left, up, x_mov, y_mov);
            let n = sh.len() as int;
            let (first_key, last_key, first_ms, then_ms) = if x_mov > y_mov {
                (y_key(up), x_key(left), 3 * y_mov, 2 * (x_mov - y_mov))
            } else {
                (x_key(left), y_key(up), 2 * x_mov, 3 * (y_mov - x_mov))
            };
            &&& n >= 7
            &&& sh[0] == StepShape::Key { key: x_key(left), mode: UpOrDown::DownAndUp }
            &&& sh[3] == StepShape::Key { key: y_key(up), mode: UpOrDown::Down }
            &&& sh[n - 1] == StepShape::Key { key: last_key, mode: UpOrDown::Up }
            &&& exists|j: int|
                5 <= j < n - 1 && #[trigger] sh[j] == (StepShape::Key {
                    key: first_key,
                    mode: UpOrDown::Up,
                }) && all_pauses(sh.subrange(5, j)) && pause_total(sh.subrange(5, j)) == first_ms
                    && all_pauses(sh.subrange(j + 1, n - 1)) && pause_total(
                    sh.subrange(j + 1, n - 1),
                ) == then_ms
        }),
{
    let xk = x_key(left);
    let yk = y_key(up);
    let head = seq![
        StepShape::Key { key: xk, mode: UpOrDown::DownAndUp },
        StepShape::Key { key: xk, mode: UpOrDown::Up },
        StepShape::SleepBetween { lo: 50, hi: 130 },
        StepShape::Key { key: yk, mode: UpOrDown::Down },
        StepShape::SleepBetween { lo: 50, hi: 130 },
    ];
    let (first, second) = if x_mov > y_mov {
        ((y_mov * 3) as int, ((x_mov - y_mov) * 2) as int)
    } else {
        ((x_mov * 2) as int, ((y_mov - x_mov) * 3) as int)
    };
    let (k1, k2) = if x_mov > y_mov {
        (yk, xk)
    } else {
        (xk, yk)
    };
    let p1 = pause_if(first);
    let p2 = pause_if(second);
    let key1 = StepShape::Key { key: k1, mode: UpOrDown::Up };
    let key2 = StepShape::Key { key: k2, mode: UpOrDown::Up };
    let sh = move_shape(left, up, x_mov, y_mov);
    assert(sh == head + (p1 + seq![key1] + p2 + seq![key2]));
    lemma_pause_if_total(first);
    lemma_pause_if_total(second);
    let n = sh.len() as int;
    let j: int = 5 + p1.len() as int;
    assert(sh[j] == key1);
    assert(sh[n - 1] == key2);
    assert(sh.subrange(5, j) =~= p1);
    assert(sh.subrange(j + 1, n - 1) =~= p2);
}

/// The driver for the game's virtual keyboard and mouse.
pub struct DNFVirtual {}

impl DNFVirtual {
    pub fn new() -> (d: DNFVirtual)
        ensures
            d == (DNFVirtual {}),
    {
        DNFVirtual {}
    }

    fn pause_if(w: &mut Writer, ms: u64)
        requires
            follows(old(w).steps@, old(w).shapes@),
        ensures
            follows(final(w).steps@, final(w).shapes@),
            final(w).shapes@ == old(w).shapes@ + pause_if(ms as int),
    {
        if ms > 0 {
            w.pause(ms);
            assert(pause_if(ms as int) =~= seq![StepShape::Sleep { ms }]);
            assert(old(w).shapes@.push(StepShape::Sleep { ms }) =~= old(w).shapes@ + seq![
                StepShape::Sleep { ms },
            ]);
        } else {
            assert(old(w).shapes@ + pause_if(ms as int) =~= old(w).shapes@);
        }
    }

    /// The script that moves the character: a dash along x, then the
    /// direction keys held for a time that grows with the distance.
    /// `left` and `up` say on which side the target lies, `x_mov` and `y_mov`
    /// how far it is along each axis. The player stops at the first key
    /// that fails.
    pub fn on_mov(&self, left: bool, up: bool, x_mov: u64, y_mov: u64) -> (s: Script)
        requires
            move_fits(x_mov, y_mov),
        ensures
            s.stop_on_error,
            follows(s.steps@, move_shape(left, up, x_mov, y_mov)),
    {
        let xk = if left {
            "left"
        } else {
            "right"
        };
        let yk = if up {
            "up"
        } else {
            "down"
        };
        let mut w = Writer::new();
        w.key(xk, UpOrDown::DownAndUp);
        w.key(xk, UpOrDown::Up);
        w.pause_between(50, 130);
        w.key(yk, UpOrDown::Down);
        w.pause_between(50, 130);
        if x_mov > y_mov {
            Self::pause_if(&mut w, y_mov * 3);
            w.key(yk, UpOrDown::Up);
            Self::pause_if(&mut w, (x_mov - y_mov) * 2);
            w.key(xk, UpOrDown::Up);
        } else {
            Self::pause_if(&mut w, x_mov * 2);
            w.key(xk, UpOrDown::Up);
            Self::pause_if(&mut w, (y_mov - x_mov) * 3);
            w.key(yk, UpOrDown::Up);
        }
        assert(w.shapes@ =~= move_shape(left, up, x_mov, y_mov));
        Script { steps: w.steps, stop_on_error: true }
    }

    /// The script that collects the daily task rewards.
    pub fn task_collection(&self) -> (s: Script)
        ensures
            !s.stop_on_error,
            follows(
                s.steps@,
                seq![
                    StepShape::Key { key: "f2"@, mode: UpOrDown::DownAndUp },
                    StepShape::SleepBetween { lo: 1500, hi: 2500 },
                    StepShape::ClickNear { x: 356, y: 226 },
                    StepShape::SleepBetween { lo: 500, hi: 2500 },
                    StepShape::ClickNear { x: 360, y: 290 },
                    StepShape::SleepBetween { lo: 500, hi: 1500 },
                    StepShape::ClickNear { x: 361, y: 359 },
                    StepShape::SleepBetween { lo: 500, hi: 1500 },
                    StepShape::ClickNear { x: 358, y: 439 },
                    StepShape::SleepBetween { lo: 500, hi: 1500 },
                    StepShape::ClickNear { x: 359, y: 163 },
                    StepShape::SleepBetween { lo: 500, hi: 1100 },
                    StepShape::ClickNear { x: 359, y: 160 },
                    StepShape::SleepBetween { lo: 500, hi: 2500 },
                    StepShape::Key { key: "f2"@, mode: UpOrDown::DownAndUp },
                    StepShape::SleepBetween { lo: 1500, hi: 2500 },
                ],
            ),
    {
        let mut w = Writer::new();
        w.key("f2", UpOrDown::DownAndUp);
        w.pause_between(1500, 2500);
        w.click_near(356, 226);
        w.pause_between(500, 2500);
        w.click_near(360, 290);
        w.pause_between(500, 1500);
        w.click_near(361, 359);
        w.pause_between(500, 1500);
        w.click_near(358, 439);
        w.pause_between(500, 1500);
        w.click_near(359, 163);
        w.pause_between(500, 1100);
        w.click_near(359, 160);
        w.pause_between(500, 2500);
        w.key("f2", UpOrDown::DownAndUp);
        w.pause_between(1500, 2500);
        assert(w.shapes@ =~= seq![
                    StepShape::Key { key: "f2"@, mode: UpOrDown::DownAndUp },
                    StepShape::SleepBetween { lo: 1500, hi: 2500 },
                    StepShape::ClickNear { x: 356, y: 226 },
                    StepShape::SleepBetween { lo: 500, hi: 2500 },
                    StepShape::ClickNear { x: 360, y: 290 },
                    StepShape::SleepBetween { lo: 500, hi: 1500 },
                    StepShape::ClickNear { x: 361, y: 359 },
                    StepShape::SleepBetween { lo: 500, hi: 1500 },
                    StepShape::ClickNear { x: 358, y: 439 },
                    StepShape::SleepBetween { lo: 500, hi: 1500 },
                    StepShape::ClickNear { x: 359, y: 163 },
                    StepShape::SleepBetween { lo: 500, hi: 1100 },
                    StepShape::ClickNear { x: 359, y: 160 },
                    StepShape::SleepBetween { lo: 500, hi: 2500 },
                    StepShape::Key { key: "f2"@, mode: UpOrDown::DownAndUp },
                    StepShape::SleepBetween { lo: 1500, hi: 2500 },
                ]);
        Script { steps: w.steps, stop_on_error: false }
    }

    /// The script that opens the menu to change the character.
    pub fn change_character(&self) -> (s: Script)
        ensures
            !s.stop_on_error,
            follows(
                s.steps@,
                seq![
                    StepShape::Key { key: "esc"@, mode: UpOrDown::DownAndUp },
                    StepShape::SleepBetween { lo: 1500, hi: 2500 },
                    StepShape::ClickNear { x: 374, y: 489 },
                    StepShape::SleepBetween { lo: 1000, hi: 2500 },
                ],
            ),
    {
        let mut w = Writer::new();
        w.key("esc", UpOrDown::DownAndUp);
        w.pause_between(1500, 2500);
        w.click_near(374, 489);
        w.pause_between(1000, 2500);
        assert(w.shapes@ =~= seq![
                    StepShape::Key { key: "esc"@, mode: UpOrDown::DownAndUp },
                    StepShape::SleepBetween { lo: 1500, hi: 2500 },
                    StepShape::ClickNear { x: 374, y: 489 },
                    StepShape::SleepBetween { lo: 1000, hi: 2500 },
                ]);
        Script { steps: w.steps, stop_on_error: false }
    }

    /// The script that picks the next character and starts with it.
    pub fn select_character(&self) -> (s: Script)
        ensures
            !s.stop_on_error,
            follows(
                s.steps@,
                seq![
                    StepShape::SleepBetween { lo: 1000, hi: 2500 },
                    StepShape::Key { key: "left"@, mode: UpOrDown::Down },
                    StepShape::SleepBetween { lo: 70, hi: 80 },
                    StepShape::Key { key: "left"@, mode: UpOrDown::Up },
                    StepShape::SleepBetween { lo: 70, hi: 80 },
                    StepShape::Key { key: "space"@, mode: UpOrDown::Down },
                    StepShape::SleepBetween { lo: 100, hi: 500 },
                    StepShape::Key { key: "space"@, mode: UpOrDown::Up },
                    StepShape::SleepBetween { lo: 1000, hi: 3500 },
                ],
            ),
    {
        let mut w = Writer::new();
        w.pause_between(1000, 2500);
        w.key("left", UpOrDown::Down);
        w.pause_between(70, 80);
        w.key("left", UpOrDown::Up);
        w.pause_between(70, 80);
        w.key("space", UpOrDown::Down);
        w.pause_between(100, 500);
        w.key("space", UpOrDown::Up);
        w.pause_between(1000, 3500);
        assert(w.shapes@ =~= seq![
                    StepShape::SleepBetween { lo: 1000, hi: 2500 },
                    StepShape::Key { key: "left"@, mode: UpOrDown::Down },
                    StepShape::SleepBetween { lo: 70, hi: 80 },
                    StepShape::Key { key: "left"@, mode: UpOrDown::Up },
                    StepShape::SleepBetween { lo: 70, hi: 80 },
                    StepShape::Key { key: "space"@, mode: UpOrDown::Down },
                    StepShape::SleepBetween { lo: 100, hi: 500 },
                    StepShape::Key { key: "space"@, mode: UpOrDown::Up },
                    StepShape::SleepBetween { lo: 1000, hi: 3500 },
                ]);
        Script { steps: w.steps, stop_on_error: false }
    }

    fn dash(key: &str) -> (s: Script)
        ensures
            !s.stop_on_error,
            follows(
                s.steps@,
                seq![
                    StepShape::Key { key: key@, mode: UpOrDown::Down },
                    StepShape::SleepBetween { lo: 70, hi: 80 },
                    StepShape::Key { key: key@, mode: UpOrDown::Up },
                    StepShape::SleepBetween { lo: 70, hi: 80 },
                    StepShape::Key { key: key@, mode: UpOrDown::Down },
                ],
            ),
    {
        let mut w = Writer::new();
        w.key(key, UpOrDown::Down);
        w.pause_between(70, 80);
        w.key(key, UpOrDown::Up);
        w.pause_between(70, 80);
        w.key(key, UpOrDown::Down);
        assert(w.shapes@ =~= seq![
                    StepShape::Key { key: key@, mode: UpOrDown::Down },
                    StepShape::SleepBetween { lo: 70, hi: 80 },
                    StepShape::Key { key: key@, mode: UpOrDown::Up },
                    StepShape::SleepBetween { lo: 70, hi: 80 },
                    StepShape::Key { key: key@, mode: UpOrDown::Down },
                ]);
        Script { steps: w.steps, stop_on_error: false }
    }

    /// The script that starts a quick run to the left (the key stays down).
    pub fn skip_left(&self) -> (s: Script)
        ensures
            !s.stop_on_error,
            follows(
                s.steps@,
                seq![
                    StepShape::Key { key: "left"@, mode: UpOrDown::Down },
                    StepShape::SleepBetween { lo: 70, hi: 80 },
                    StepShape::Key { key: "left"@, mode: UpOrDown::Up },
                    StepShape::SleepBetween { lo: 70, hi: 80 },
                    StepShape::Key { key: "left"@, mode: UpOrDown::Down },
                ],
            ),
    {
        Self::dash("left")
    }

    /// The script that starts a quick run to the right (the key stays down).
    pub fn skip_right(&self) -> (s: Script)
        ensures
            !s.stop_on_error,
            follows(
                s.steps@,
                seq![
                    StepShape::Key { key: "right"@, mode: UpOrDown::Down },
                    StepShape::SleepBetween { lo: 70, hi: 80 },
                    StepShape::Key { key: "right"@, mode: UpOrDown::Up },
                    StepShape::SleepBetween { lo: 70, hi: 80 },
                    StepShape::Key { key: "right"@, mode: UpOrDown::Down },
                ],
            ),
    {
        Self::dash("right")
    }

    /// The script that presses and releases one key; the player stops when
    /// the key fails.
    pub fn on(&self, keys: &str) -> (s: Script)
        ensures
            s.stop_on_error,
            follows(s.steps@, seq![StepShape::Key { key: keys@, mode: UpOrDown::DownAndUp }]),
    {
        let mut w = Writer::new();
        w.key(keys, UpOrDown::DownAndUp);
        assert(w.shapes@ =~= seq![StepShape::Key { key: keys@, mode: UpOrDown::DownAndUp }]);
        Script { steps: w.steps, stop_on_error: true }
    }

    /// The script that clicks near `(x, y)`: the click lands less than six
    /// pixels right of and below the point, at random.
    pub fn mouse_mov_click(&self, x: u32, y: u32) -> (s: Script)
        requires
            x + 6 <= u32::MAX,
            y + 6 <= u32::MAX,
        ensures
            !s.stop_on_error,
            follows(s.steps@, seq![StepShape::ClickNear { x, y }]),
    {
        let mut w = Writer::new();
        w.click_near(x, y);
        assert(w.shapes@ =~= seq![StepShape::ClickNear { x, y }]);
        Script { steps: w.steps, stop_on_error: false }
    }
}

} // verus!
