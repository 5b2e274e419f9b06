//! Plain text helpers: characters, line splitting and decimal numbers.
use vstd::prelude::*;

verus! {

broadcast use vstd::string::group_string_axioms;

/// Builds a `String` from characters, in order.
///
/// Calls std's `String::from_iter` over the characters; the contract claims
/// what its documentation says: the string holds exactly these characters.
#[verifier::external_body]
pub(crate) fn string_from_chars(chars: &Vec<char>) -> (s: String)
    ensures
        s@ == chars@,
{
    String::from_iter(chars.iter())
}

/// Collects the characters of a string slice, in order.
pub fn chars_of(s: &str) -> (r: Vec<char>)
    ensures
        r@ == s@,
{
    let mut r: Vec<char> = Vec::new();
    for c in it: s.chars()
        invariant
            it.seq() == s@,
            r@ == it.seq().take(it.index()),
    {
        r.push(c);
    }
    r
}

// ---------------------------------------------------------------------------
// Lines
// ---------------------------------------------------------------------------

/// A line without its terminator: a `'\r'` that stood right before the
/// `'\n'` is part of the terminator.
pub open spec fn strip_cr(line: Seq<char>) -> Seq<char> {
    if line.len() > 0 && line.last() == '\r' {
        line.drop_last()
    } else {
        line
    }
}

/// The lines of `rest`, given that `cur` holds the characters of the line
/// that is already open. A line ends at `'\n'` (or `"\r\n"`); a last line
/// with no terminator counts when it is not empty.
pub open spec fn lines_from(rest: Seq<char>, cur: Seq<char>) -> Seq<Seq<char>>
    decreases rest.len(),
{
    if rest.len() == 0 {
        if cur.len() == 0 {
            seq![]
        } else {
            seq![cur]
        }
    } else if rest[0] == '\n' {
        seq![strip_cr(cur)] + lines_from(rest.drop_first(), seq![])
    } else {
        lines_from(rest.drop_first(), cur.push(rest[0]))
    }
}

/// The lines of a text, as std's `str::lines` documents them.
pub open spec fn lines_of(text: Seq<char>) -> Seq<Seq<char>> {
    lines_from(text, seq![])
}

/// The views of a sequence of strings.
pub open spec fn string_views(v: Seq<String>) -> Seq<Seq<char>> {
    v.map_values(|s: String| s@)
}

/// Splits a text into its lines: at `'\n'` or `"\r\n"`, terminators dropped,
/// with no empty line after a final terminator.
pub fn split_lines(text: &str) -> (lines: Vec<String>)
    ensures
        string_views(lines@) == lines_of(text@),
{
    let chars = chars_of(text);
    let mut lines: Vec<String> = Vec::new();
    let mut cur: Vec<char> = Vec::new();
    let mut i: usize = 0;
    assert(chars@.skip(0) =~= chars@);
    assert(string_views(lines@) =~= Seq::<Seq<char>>::empty());
    assert(string_views(lines@) + lines_from(chars@, cur@) =~= lines_from(chars@, cur@));
    while i < chars.len()
        invariant
            0 <= i <= chars.len(),
            chars@ == text@,
            string_views(lines@) + lines_from(chars@.skip(i as int), cur@) == lines_of(text@),
        decreases chars.len() - i,
    {
        let ghost rest = chars@.skip(i as int);
        assert(rest.drop_first() =~= chars@.skip(i + 1));
        let c = chars[i];
        if c == '\n' {
            let mut line = cur.clone();
            let n = line.len();
            if n > 0 && line[n - 1] == '\r' {
                line.pop();
            }
            assert(line@ == strip_cr(cur@));
            let ghost before = string_views(lines@);
            lines.push(string_from_chars(&line));
            assert(string_views(lines@) =~= before.push(strip_cr(cur@)));
            assert(lines_from(rest, cur@) == seq![strip_cr(cur@)] + lines_from(
                rest.drop_first(),
                seq![],
            ));
            assert(before + lines_from(rest, cur@) =~= string_views(lines@) + lines_from(
                rest.drop_first(),
                seq![],
            ));
            cur = Vec::new();
        } else {
            cur.push(c);
        }
        i = i + 1;
    }
    assert(chars@.skip(i as int) =~= Seq::<char>::empty());
    if cur.len() > 0 {
        let ghost before = string_views(lines@);
        lines.push(string_from_chars(&cur));
        assert(string_views(lines@) =~= before.push(cur@));
    } else {
        assert(string_views(lines@) + seq![] =~= string_views(lines@));
    }
    lines
}

// ---------------------------------------------------------------------------
// Decimal numbers
// ---------------------------------------------------------------------------

/// The value of an ASCII decimal digit.
pub open spec fn digit_value(c: char) -> Option<nat> {
    if c == '0' {
        Some(0)
    } else if c == '1' {
        Some(1)
    } else if c == '2' {
        Some(2)
    } else if c == '3' {
        Some(3)
    } else if c == '4' {
        Some(4)
    } else if c == '5' {
        Some(5)
    } else if c == '6' {
        Some(6)
    } else if c == '7' {
        Some(7)
    } else if c == '8' {
        Some(8)
    } else if c == '9' {
        Some(9)
    } else {
        None
    }
}

/// The ASCII digit of a value below ten.
pub open spec fn digit_char(d: nat) -> char {
    if d == 0 {
        '0'
    } else if d == 1 {
        '1'
    } else if d == 2 {
        '2'
    } else if d == 3 {
        '3'
    } else if d == 4 {
        '4'
    } else if d == 5 {
        '5'
    } else if d == 6 {
        '6'
    } else if d == 7 {
        '7'
    } else if d == 8 {
        '8'
    } else {
        '9'
    }
}

/// Every character is an ASCII decimal digit.
pub open spec fn all_digits(d: Seq<char>) -> bool {
    forall|i: int| 0 <= i < d.len() ==> (#[trigger] digit_value(d[i])) is Some
}

/// The value of a sequence of decimal digits, most significant first.
pub open spec fn digits_value(d: Seq<char>) -> nat
    decreases d.len(),
{
    if d.len() == 0 {
        0
    } else {
        digits_value(d.drop_last()) * 10 + match digit_value(d.last()) {
            Some(v) => v,
            None => 0,
        }
    }
}

/// The digits of an unsigned number: one leading `'+'` is allowed.
pub open spec fn unsigned_digits(s: Seq<char>) -> Seq<char> {
    if s.len() > 0 && s[0] == '+' {
        s.drop_first()
    } else {
        s
    }
}

/// What std's `str::parse::<u32>` gives: the number when the text is an
/// optional `'+'` followed by at least one ASCII digit and the value fits.
pub open spec fn parsed_u32(s: Seq<char>) -> Option<u32> {
    let d = unsigned_digits(s);
    if d.len() > 0 && all_digits(d) && digits_value(d) <= u32::MAX {
        Some(digits_value(d) as u32)
    } else {
        None
    }
}

/// The shortest decimal writing of a number.
pub open spec fn decimal(n: nat) -> Seq<char>
    decreases n,
{
    if n < 10 {
        seq![digit_char(n)]
    } else {
        decimal(n / 10).push(digit_char(n % 10))
    }
}

fn digit_of(c: char) -> (r: Option<u32>)
    ensures
        match digit_value(c) {
            Some(v) => r == Some(v as u32),
            None => r is None,
        },
{
    match c {
        '0' => Some(0),
        '1' => Some(1),
        '2' => Some(2),
        '3' => Some(3),
        '4' => Some(4),
        '5' => Some(5),
        '6' => Some(6),
        '7' => Some(7),
        '8' => Some(8),
        '9' => Some(9),
        _ => None,
    }
}

fn char_of_digit(d: u32) -> (c: char)
    requires
        d < 10,
    ensures
        c == digit_char(d as nat),
{
    if d == 0 {
        '0'
    } else if d == 1 {
        '1'
    } else if d == 2 {
        '2'
    } else if d == 3 {
        '3'
    } else if d == 4 {
        '4'
    } else if d == 5 {
        '5'
    } else if d == 6 {
        '6'
    } else if d == 7 {
        '7'
    } else if d == 8 {
        '8'
    } else {
        '9'
    }
}

proof fn lemma_digits_prefix_bound(d: Seq<char>, j: int)
    requires
        0 <= j <= d.len(),
    ensures
        digits_value(d.take(j)) <= digits_value(d),
    decreases d.len() - j,
{
    if j < d.len() {
        lemma_digits_prefix_bound(d, j + 1);
        assert(d.take(j + 1).drop_last() =~= d.take(j));
    } else {
        assert(d.take(j) =~= d);
    }
}

/// Reads an unsigned decimal number as std's `str::parse::<u32>` does.
pub fn parse_u32(s: &str) -> (r: Option<u32>)
    ensures
        r == parsed_u32(s@),
{
    let chars = chars_of(s);
    let mut start: usize = 0;
    if chars.len() > 0 && chars[0] == '+' {
        start = 1;
    }
    let ghost d = unsigned_digits(s@);
    assert(d =~= chars@.skip(start as int));
    if start >= chars.len() {
        return None;
    }
    let mut acc: u64 = 0;
    let mut i: usize = start;
    while i < chars.len()
        invariant
            chars@ == s@,
            start <= i <= chars.len(),
            d =~= chars@.skip(start as int),
            d == unsigned_digits(s@),
            all_digits(d.take(i - start)),
            acc == digits_value(d.take(i - start)),
            acc <= u32::MAX,
        decreases chars.len() - i,
    {
        let k: Ghost<int> = Ghost(i - start);
        assert(d.take(k@ + 1).drop_last() =~= d.take(k@));
        assert(d[k@] == chars@[i as int]);
        assert(d.take(k@ + 1).last() == chars@[i as int]);
        match digit_of(chars[i]) {
            None => {
                assert(!all_digits(d)) by {
                    assert(digit_value(d[k@]) is None);
                }
                return None;
            },
            Some(v) => {
                let next = acc * 10 + v as u64;
                if next > u32::MAX as u64 {
                    proof {
                        lemma_digits_prefix_bound(d, k@ + 1);
                    }
                    return None;
                }
                acc = next;
                assert(all_digits(d.take(k@ + 1))) by {
                    assert forall|t: int| 0 <= t < k@ + 1 implies (#[trigger] digit_value(
                        d.take(k@ + 1)[t],
                    )) is Some by {
                        if t < k@ {
                            assert(d.take(k@ + 1)[t] == d.take(k@)[t]);
                        }
                    }
                }
            },
        }
        i = i + 1;
    }
    assert(d.take(i - start) =~= d);
    Some(acc as u32)
}

fn push_decimal(n: u32, out: &mut Vec<char>)
    ensures
        final(out)@ == old(out)@ + decimal(n as nat),
    decreases n,
{
    if n >= 10 {
        push_decimal(n / 10, out);
    }
    out.push(char_of_digit(n % 10));
    assert(decimal(n as nat) == if n < 10 {
        seq![digit_char(n as nat)]
    } else {
        decimal((n / 10) as nat).push(digit_char((n % 10) as nat))
    });
}

/// Writes a number in decimal, as std's `u32::to_string` does.
pub fn format_u32(n: u32) -> (s: String)
    ensures
        s@ == decimal(n as nat),
{
    let mut out: Vec<char> = Vec::new();
    push_decimal(n, &mut out);
    assert(out@ =~= decimal(n as nat));
    string_from_chars(&out)
}

proof fn lemma_digit_round_trip(d: nat)
    requires
        d < 10,
    ensures
        digit_value(digit_char(d)) == Some(d),
{
}

proof fn lemma_decimal_digits(n: nat)
    ensures
        decimal(n).len() > 0,
        all_digits(decimal(n)),
        decimal(n)[0] != '+',
        digits_value(decimal(n)) == n,
    decreases n,
{
    if n >= 10 {
        lemma_decimal_digits(n / 10);
        vstd::arithmetic::div_mod::lemma_fundamental_div_mod(n as int, 10);
        let p = decimal(n / 10);
        let q = p.push(digit_char(n % 10));
        assert(q.drop_last() =~= p);
        lemma_digit_round_trip(n % 10);
        assert(decimal(n) == q);
        assert(digits_value(q) == digits_value(p) * 10 + n % 10);
        assert forall|i: int| 0 <= i < q.len() implies (#[trigger] digit_value(q[i])) is Some by {
            if i < p.len() {
                assert(q[i] == p[i]);
            }
        }
    } else {
        lemma_digit_round_trip(n);
        let q = decimal(n);
        assert(q == seq![digit_char(n)]);
        assert(q.drop_last() =~= Seq::<char>::empty());
        assert(digits_value(q.drop_last()) == 0);
        assert(q.last() == digit_char(n));
    }
}

/// Digits are the ASCII characters `'0'` to `'9'` (codes 48 to 57): the digit
/// of a value below ten has code 48 plus the value, and a character has a
/// digit value exactly when its code lies in that range, the value being the
/// code less 48.
pub proof fn lemma_digits_are_ascii(d: nat, c: char)
    ensures
        d < 10 ==> digit_char(d) as int == 48 + d,
        digit_value(c) is Some <==> 48 <= c as int <= 57,
        digit_value(c) matches Some(v) ==> v == c as int - 48,
{
}

/// The decimal writing of a number is made of ASCII digits only, starts
/// with a non-zero digit unless the number is zero, and reads back as the
/// number.
pub proof fn lemma_decimal_is_ascii(n: nat)
    ensures
        decimal(n).len() > 0,
        forall|i: int| 0 <= i < decimal(n).len() ==> 48 <= #[trigger] decimal(n)[i] as int <= 57,
        n > 0 ==> decimal(n)[0] != '0',
        digits_value(decimal(n)) == n,
    decreases n,
{
    lemma_decimal_digits(n);
    if n >= 10 {
        lemma_decimal_is_ascii(n / 10);
        let p = decimal(n / 10);
        let q = p.push(digit_char(n % 10));
        assert(decimal(n) == q);
        assert forall|i: int| 0 <= i < q.len() implies 48 <= #[trigger] q[i] as int <= 57 by {
            if i < p.len() {
                assert(q[i] == p[i]);
            } else {
                lemma_digits_are_ascii(n % 10, q[i]);
            }
        }
        assert(q[0] == p[0]);
    } else {
        lemma_digits_are_ascii(n, digit_char(n));
    }
}

/// Reading back what `format_u32` wrote gives the number again.
pub proof fn lemma_parse_format_round_trip(n: u32)
    ensures
        parsed_u32(decimal(n as nat)) == Some(n),
{
    lemma_decimal_digits(n as nat);
}

} // verus!
