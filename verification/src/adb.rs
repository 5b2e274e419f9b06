//! Command lines for the Android debug bridge, and reading what they print:
//! the device list and the screenshot.
//!
//! The library only builds the command lines; running them is the caller's
//! part. Every command line starts with the program to run, `cmd`.
use vstd::prelude::*;
use crate::raster::{decode_png_rgba, png_rgba, RgbaPixels};
use crate::text::{chars_of, format_u32, string_from_chars, string_views, decimal};

verus! {

broadcast use vstd::string::group_string_axioms;

/// One device that commands are sent to.
pub struct AdbCmd {
    pub device_ip: String,
}

/// One step of a device script: an input sent through adb, or a pause.
#[derive(Clone, Debug, PartialEq, Eq)]
pub enum Op {
    /// Tap the screen at a point.
    Tap { x: u32, y: u32 },
    /// Tap the screen at a point given as text, handed to adb as it is.
    TapText { x: String, y: String },
    /// Swipe from one point to another, taking `duration_ms` milliseconds.
    Swipe { x: u32, y: u32, to_x: u32, to_y: u32, duration_ms: u32 },
    /// Type the quantity text into the focused field.
    InputText,
    /// Wait for `ms` milliseconds.
    Sleep { ms: u64 },
}

/// The text typed by `Op::InputText`.
pub open spec fn quantity_text() -> Seq<char> {
    "999999999"@
}

/// The start of every command line sent to one device.
pub open spec fn device_prefix(ip: Seq<char>) -> Seq<Seq<char>> {
    seq!["cmd"@, "/C"@, "adb.exe"@, "-s"@, ip]
}

fn device_command(ip: &String) -> (r: Vec<String>)
    ensures
        string_views(r@) == device_prefix(ip@),
{
    let mut r: Vec<String> = Vec::new();
    r.push("cmd".to_string());
    r.push("/C".to_string());
    r.push("adb.exe".to_string());
    r.push("-s".to_string());
    r.push(ip.clone());
    assert(string_views(r@) =~= device_prefix(ip@));
    r
}

fn push_str(r: &mut Vec<String>, s: &str)
    ensures
        string_views(final(r)@) == string_views(old(r)@).push(s@),
{
    let ghost before = string_views(r@);
    r.push(s.to_string());
    assert(string_views(r@) =~= before.push(s@));
}

impl AdbCmd {
    /// The command line that captures the screen as PNG bytes on stdout.
    pub fn screencap_device(&self) -> (r: Vec<String>)
        ensures
            string_views(r@) == device_prefix(self.device_ip@) + seq![
                "exec-out"@,
                "screencap"@,
                "-p"@,
            ],
    {
        let mut r = device_command(&self.device_ip);
        push_str(&mut r, "exec-out");
        push_str(&mut r, "screencap");
        push_str(&mut r, "-p");
        assert(string_views(r@) =~= device_prefix(self.device_ip@) + seq![
            "exec-out"@,
            "screencap"@,
            "-p"@,
        ]);
        r
    }

    /// The command line that taps the screen at `(x, y)`.
    pub fn adb_click(&self, x: &str, y: &str) -> (r: Vec<String>)
        ensures
            string_views(r@) == device_prefix(self.device_ip@) + seq![
                "shell"@,
                "input"@,
                "tap"@,
                x@,
                y@,
            ],
    {
        let mut r = device_command(&self.device_ip);
        push_str(&mut r, "shell");
        push_str(&mut r, "input");
        push_str(&mut r, "tap");
        push_str(&mut r, x);
        push_str(&mut r, y);
        assert(string_views(r@) =~= device_prefix(self.device_ip@) + seq![
            "shell"@,
            "input"@,
            "tap"@,
            x@,
            y@,
        ]);
        r
    }

    /// The command line that swipes from `(x, y)` to `(to_x, to_y)` in `ms`
    /// milliseconds.
    pub fn adb_move(&self, x: &str, y: &str, to_x: &str, to_y: &str, ms: &str) -> (r: Vec<
        String,
    >)
        ensures
            string_views(r@) == device_prefix(self.device_ip@) + seq![
                "shell"@,
                "input"@,
                "swipe"@,
                x@,
                y@,
                to_x@,
                to_y@,
                ms@,
            ],
    {
        let mut r = device_command(&self.device_ip);
        push_str(&mut r, "shell");
        push_str(&mut r, "input");
        push_str(&mut r, "swipe");
        push_str(&mut r, x);
        push_str(&mut r, y);
        push_str(&mut r, to_x);
        push_str(&mut r, to_y);
        push_str(&mut r, ms);
        assert(string_views(r@) =~= device_prefix(self.device_ip@) + seq![
            "shell"@,
            "input"@,
            "swipe"@,
            x@,
            y@,
            to_x@,
            to_y@,
            ms@,
        ]);
        r
    }

    /// The command line that types the quantity text.
    pub fn adb_input(&self) -> (r: Vec<String>)
        ensures
            string_views(r@) == device_prefix(self.device_ip@) + seq![
                "shell"@,
                "input"@,
                "text"@,
                quantity_text(),
            ],
    {
        let mut r = device_command(&self.device_ip);
        push_str(&mut r, "shell");
        push_str(&mut r, "input");
        push_str(&mut r, "text");
        push_str(&mut r, "999999999");
        assert(string_views(r@) =~= device_prefix(self.device_ip@) + seq![
            "shell"@,
            "input"@,
            "text"@,
            quantity_text(),
        ]);
        r
    }

    /// The command line that carries out one script step, numbers written in
    /// decimal; a pause needs no command.
    pub fn command_for(&self, op: &Op) -> (r: Option<Vec<String>>)
        ensures
            match *op {
                Op::Tap { x, y } => r matches Some(c) && string_views(c@) == device_prefix(
                    self.device_ip@,
                ) + seq!["shell"@, "input"@, "tap"@, decimal(x as nat), decimal(y as nat)],
                Op::TapText { x, y } => r matches Some(c) && string_views(c@) == device_prefix(
                    self.device_ip@,
                ) + seq!["shell"@, "input"@, "tap"@, x@, y@],
                Op::Swipe { x, y, to_x, to_y, duration_ms } => r matches Some(c) && string_views(c@)
                    == device_prefix(self.device_ip@) + seq![
                    "shell"@,
                    "input"@,
                    "swipe"@,
                    decimal(x as nat),
                    decimal(y as nat),
                    decimal(to_x as nat),
                    decimal(to_y as nat),
                    decimal(duration_ms as nat),
                ],
                Op::InputText => r matches Some(c) && string_views(c@) == device_prefix(
                    self.device_ip@,
                ) + seq!["shell"@, "input"@, "text"@, quantity_text()],
                Op::Sleep { .. } => r is None,
            },
    {
        match op {
            Op::Tap { x, y } => {
                let xs = format_u32(*x);
                let ys = format_u32(*y);
                Some(self.adb_click(xs.as_str(), ys.as_str()))
            },
            Op::TapText { x, y } => Some(self.adb_click(x.as_str(), y.as_str())),
            Op::Swipe { x, y, to_x, to_y, duration_ms } => {
                let xs = format_u32(*x);
                let ys = format_u32(*y);
                let txs = format_u32(*to_x);
                let tys = format_u32(*to_y);
                let mss = format_u32(*duration_ms);
                Some(self.adb_move(xs.as_str(), ys.as_str(), txs.as_str(), tys.as_str(), mss.as_str()))
            },
            Op::InputText => Some(self.adb_input()),
            Op::Sleep { .. } => None,
        }
    }
}

/// The screenshot in the output of the `screencap_device` command line,
/// which is a PNG image: `None` when the bytes are no PNG image, or when the
/// decoded bytes are not exactly four per pixel.
pub fn screenshot_from_output(stdout: &Vec<u8>) -> (r: Option<RgbaPixels>)
    ensures
        match r {
            Some(p) => p.wf() && png_rgba(stdout@) == Some((p.width, p.height, p.data@)),
            None => match png_rgba(stdout@) {
                Some(t) => t.2.len() != (t.0 as int) * (t.1 as int) * 4,
                None => true,
            },
        },
{
    let decoded = decode_png_rgba(stdout);
    match decoded {
        Some((w, h, data)) => {
            let n_bytes: usize = data.len();
            let expected = (w as usize).checked_mul(h as usize);
            match expected {
                Some(n) => match n.checked_mul(4) {
                    Some(len) => {
                        if len == n_bytes {
                            Some(RgbaPixels { width: w, height: h, data })
                        } else {
                            None
                        }
                    },
                    None => None,
                },
                None => {
                    assert((w as int) * (h as int) * 4 > usize::MAX) by (nonlinear_arith)
                        requires
                            (w as int) * (h as int) > usize::MAX,
                    ;
                    None
                },
            }
        },
        None => None,
    }
}

/// The command line that lists the attached devices.
pub fn devices_command() -> (r: Vec<String>)
    ensures
        string_views(r@) == seq!["cmd"@, "/C"@, "adb.exe"@, "devices"@],
{
    let mut r: Vec<String> = Vec::new();
    push_str(&mut r, "cmd");
    push_str(&mut r, "/C");
    push_str(&mut r, "adb.exe");
    push_str(&mut r, "devices");
    assert(string_views(r@) =~= seq!["cmd"@, "/C"@, "adb.exe"@, "devices"@]);
    r
}

// ---------------------------------------------------------------------------
// The device list
// ---------------------------------------------------------------------------

/// The pieces of `rest` between `"\r\n"` separators, given that `cur` holds
/// the piece already begun; empty pieces count, as with std's `str::split`.
pub open spec fn crlf_pieces_from(rest: Seq<char>, cur: Seq<char>) -> Seq<Seq<char>>
    decreases rest.len(),
{
    if rest.len() == 0 {
        seq![cur]
    } else if rest.len() >= 2 && rest[0] == '\r' && rest[1] == '\n' {
        seq![cur] + crlf_pieces_from(rest.skip(2), seq![])
    } else {
        crlf_pieces_from(rest.drop_first(), cur.push(rest[0]))
    }
}

/// The text before the first tab (all of it when there is none).
pub open spec fn before_tab(p: Seq<char>) -> Seq<char>
    decreases p.len(),
{
    if p.len() == 0 {
        p
    } else if p[0] == '\t' {
        seq![]
    } else {
        seq![p[0]] + before_tab(p.drop_first())
    }
}

/// What one piece of the list contributes: a line that holds a tab names the
/// device before the tab; other lines name none.
pub open spec fn device_of(p: Seq<char>) -> Seq<Seq<char>> {
    if p.len() > 0 && p.contains('\t') {
        seq![before_tab(p)]
    } else {
        seq![]
    }
}

/// The devices that a sequence of pieces names, in order.
pub open spec fn devices_of(pieces: Seq<Seq<char>>) -> Seq<Seq<char>>
    decreases pieces.len(),
{
    if pieces.len() == 0 {
        seq![]
    } else {
        device_of(pieces[0]) + devices_of(pieces.drop_first())
    }
}

/// The devices that the output of `adb devices` names.
pub open spec fn listed_devices(message: Seq<char>) -> Seq<Seq<char>> {
    devices_of(crlf_pieces_from(message, seq![]))
}

proof fn lemma_devices_cons(p: Seq<char>, rest: Seq<Seq<char>>)
    ensures
        devices_of(seq![p] + rest) == device_of(p) + devices_of(rest),
{
    assert((seq![p] + rest).drop_first() =~= rest);
    assert((seq![p] + rest)[0] == p);
}

proof fn lemma_before_tab_prefix(p: Seq<char>, j: int)
    requires
        0 <= j <= p.len(),
        forall|k: int| 0 <= k < j ==> p[k] != '\t',
        j == p.len() || p[j] == '\t',
    ensures
        before_tab(p) == p.take(j),
    decreases j,
{
    if j == 0 {
        assert(p.take(0) =~= Seq::<char>::empty());
    } else {
        let q = p.drop_first();
        assert forall|k: int| 0 <= k < j - 1 implies q[k] != '\t' by {
            assert(q[k] == p[k + 1]);
        }
        if j - 1 < q.len() {
            assert(q[j - 1] == p[j]);
        }
        lemma_before_tab_prefix(q, j - 1);
        assert(seq![p[0]] + q.take(j - 1) =~= p.take(j));
    }
}

fn device_entry(p: &Vec<char>) -> (r: Option<String>)
    ensures
        match r {
            Some(name) => device_of(p@) == seq![name@],
            None => device_of(p@) == Seq::<Seq<char>>::empty(),
        },
{
    let mut j: usize = 0;
    while j < p.len() && p[j] != '\t'
        invariant
            0 <= j <= p.len(),
            forall|k: int| 0 <= k < j ==> p@[k] != '\t',
        decreases p.len() - j,
    {
        j = j + 1;
    }
    if j == p.len() {
        assert(!p@.contains('\t'));
        return None;
    }
    assert(p@.contains('\t')) by {
        assert(p@[j as int] == '\t');
    }
    proof {
        lemma_before_tab_prefix(p@, j as int);
    }
    let mut name: Vec<char> = Vec::new();
    let mut k: usize = 0;
    while k < j
        invariant
            0 <= k <= j < p.len(),
            name@ == p@.take(k as int),
        decreases j - k,
    {
        name.push(p[k]);
        assert(p@.take(k + 1) =~= p@.take(k as int).push(p@[k as int]));
        k = k + 1;
    }
    Some(string_from_chars(&name))
}

/// Reads the device names out of the output of `adb devices`: the text is
/// split at `"\r\n"`, and each piece that holds a tab names the device
/// written before its first tab.
pub fn parse_device_list(message: &str) -> (r: Vec<String>)
    ensures
        string_views(r@) == listed_devices(message@),
{
    let chars = chars_of(message);
    let mut out: Vec<String> = Vec::new();
    let mut cur: Vec<char> = Vec::new();
    let mut i: usize = 0;
    assert(chars@.skip(0) =~= chars@);
    assert(string_views(out@) =~= Seq::<Seq<char>>::empty());
    assert(string_views(out@) + listed_devices(message@) =~= listed_devices(message@));
    while i < chars.len()
        invariant
            0 <= i <= chars.len(),
            chars@ == message@,
            string_views(out@) + devices_of(crlf_pieces_from(chars@.skip(i as int), cur@))
                == listed_devices(message@),
        decreases chars.len() - i,
    {
        let ghost rest = chars@.skip(i as int);
        if i + 1 < chars.len() && chars[i] == '\r' && chars[i + 1] == '\n' {
            assert(rest.skip(2) =~= chars@.skip(i + 2));
            proof {
                lemma_devices_cons(cur@, crlf_pieces_from(rest.skip(2), seq![]));
            }
            let ghost before = string_views(out@);
            match device_entry(&cur) {
                Some(name) => {
                    out.push(name);
                    assert(string_views(out@) =~= before + device_of(cur@));
                },
                None => {
                    assert(string_views(out@) =~= before + device_of(cur@));
                },
            }
            cur = Vec::new();
            i = i + 2;
        } else {
            assert(rest.drop_first() =~= chars@.skip(i + 1));
            cur.push(chars[i]);
            i = i + 1;
        }
    }
    assert(chars@.skip(i as int) =~= Seq::<char>::empty());
    proof {
        lemma_devices_cons(cur@, seq![]);
        assert(seq![cur@] + Seq::<Seq<char>>::empty() =~= seq![cur@]);
    }
    let ghost before = string_views(out@);
    match device_entry(&cur) {
        Some(name) => {
            out.push(name);
            assert(string_views(out@) =~= before + device_of(cur@));
        },
        None => {
            assert(string_views(out@) =~= before + device_of(cur@));
        },
    }
    assert(devices_of(Seq::<Seq<char>>::empty()) == Seq::<Seq<char>>::empty());
    out
}

/// The devices to work on: the configured addresses when any are configured,
/// else the devices that adb found.
pub fn select_devices(found: Vec<String>, configured: &Vec<String>) -> (r: Vec<String>)
    ensures
        string_views(r@) == if configured@.len() != 0 {
            string_views(configured@)
        } else {
            string_views(found@)
        },
{
    if configured.len() != 0 {
        let mut r: Vec<String> = Vec::new();
        let mut i: usize = 0;
        while i < configured.len()
            invariant
                0 <= i <= configured.len(),
                string_views(r@) == string_views(configured@.take(i as int)),
            decreases configured.len() - i,
        {
            let ghost before = string_views(r@);
            r.push(configured[i].clone());
            assert(string_views(r@) =~= before.push(configured@[i as int]@));
            assert(string_views(configured@.take(i + 1)) =~= string_views(
                configured@.take(i as int),
            ).push(configured@[i as int]@));
            i = i + 1;
        }
        assert(configured@.take(i as int) =~= configured@);
        r
    } else {
        found
    }
}

} // verus!
