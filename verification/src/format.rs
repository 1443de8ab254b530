//! Rendering of log records: decimal numbers, zero-padded calendar fields,
//! the level tag padded to five columns, and the full record line
//! `YYYY-MM-DD HH:MM:SS.ffffff LEVEL [module] message\n`.

use vstd::prelude::*;
use vstd::string::StringExecFns;
use crate::clock::Timestamp;
use crate::level::Level;

verus! {

/// One record as the host hands it in: a severity, the originating module
/// or context tag, and the already-rendered message text.
pub struct Record {
    pub level: Level,
    pub module: String,
    pub message: String,
}

/// The character for one decimal digit.
pub open spec fn spec_digit(d: nat) -> char {
    if d == 0 {
        '0'
    } else if d == 1 {
        '1'
    } else if d == 2 {
        '2'
    } else if d == 3 {
        '3'
    } else if d == 4 {
        '4'
    } else if d == 5 {
        '5'
    } else if d == 6 {
        '6'
    } else if d == 7 {
        '7'
    } else if d == 8 {
        '8'
    } else {
        '9'
    }
}

/// The decimal rendering of `n`, most significant digit first, with no
/// leading zeroes (a single `0` for zero).
pub open spec fn spec_dec(n: nat) -> Seq<char>
    decreases n,
{
    if n < 10 {
        seq![spec_digit(n)]
    } else {
        spec_dec(n / 10).push(spec_digit(n % 10))
    }
}

/// `k` zero characters.
pub open spec fn spec_zeroes(k: nat) -> Seq<char> {
    Seq::new(k, |i: int| '0')
}

/// The decimal rendering of `n`, left-padded with zeroes to `width`
/// characters; wider renderings are kept whole.
pub open spec fn spec_padded_dec(n: nat, width: nat) -> Seq<char> {
    if spec_dec(n).len() >= width {
        spec_dec(n)
    } else {
        spec_zeroes((width - spec_dec(n).len()) as nat) + spec_dec(n)
    }
}

/// Powers of ten.
pub open spec fn pow10(k: nat) -> nat
    decreases k,
{
    if k == 0 {
        1
    } else {
        10 * pow10((k - 1) as nat)
    }
}

/// Below `10^k`, a decimal rendering has at most `k` digits.
proof fn lemma_dec_len_le(n: nat, k: nat)
    requires
        k >= 1,
        n < pow10(k),
    ensures
        1 <= spec_dec(n).len() <= k,
    decreases k,
{
    assert(pow10(1) == 10 * pow10(0));
    if n < 10 {
    } else {
        assert(k >= 2) by {
            if k == 1 {
                assert(pow10(1) == 10);
            }
        }
        assert(n / 10 < pow10((k - 1) as nat)) by (nonlinear_arith)
            requires
                n < pow10(k),
                pow10(k) == 10 * pow10((k - 1) as nat),
                n >= 10,
        ;
        lemma_dec_len_le(n / 10, (k - 1) as nat);
    }
}

/// `10^20` written out, which is above `u64::MAX`.
proof fn lemma_pow10_20()
    ensures
        pow10(20) == 100000000000000000000,
{
    assert(pow10(0) == 1);
    assert(pow10(1) == 10);
    assert(pow10(2) == 100);
    assert(pow10(3) == 1000);
    assert(pow10(4) == 10000);
    assert(pow10(5) == 100000);
    assert(pow10(6) == 1000000);
    assert(pow10(7) == 10000000);
    assert(pow10(8) == 100000000);
    assert(pow10(9) == 1000000000);
    assert(pow10(10) == 10000000000);
    assert(pow10(11) == 100000000000);
    assert(pow10(12) == 1000000000000);
    assert(pow10(13) == 10000000000000);
    assert(pow10(14) == 100000000000000);
    assert(pow10(15) == 1000000000000000);
    assert(pow10(16) == 10000000000000000);
    assert(pow10(17) == 100000000000000000);
    assert(pow10(18) == 1000000000000000000);
    assert(pow10(19) == 10000000000000000000);
    assert(pow10(20) == 100000000000000000000);
}

/// The string for one decimal digit.
fn digit_str(d: u64) -> (r: &'static str)
    requires
        d < 10,
    ensures
        r@ == seq![spec_digit(d as nat)],
{
    match d {
        0 => {
            proof {
                reveal_strlit("0");
                assert("0"@ =~= seq![spec_digit(0)]);
            }
            "0"
        },
        1 => {
            proof {
                reveal_strlit("1");
                assert("1"@ =~= seq![spec_digit(1)]);
            }
            "1"
        },
        2 => {
            proof {
                reveal_strlit("2");
                assert("2"@ =~= seq![spec_digit(2)]);
            }
            "2"
        },
        3 => {
            proof {
                reveal_strlit("3");
                assert("3"@ =~= seq![spec_digit(3)]);
            }
            "3"
        },
        4 => {
            proof {
                reveal_strlit("4");
                assert("4"@ =~= seq![spec_digit(4)]);
            }
            "4"
        },
        5 => {
            proof {
                reveal_strlit("5");
                assert("5"@ =~= seq![spec_digit(5)]);
            }
            "5"
        },
        6 => {
            proof {
                reveal_strlit("6");
                assert("6"@ =~= seq![spec_digit(6)]);
            }
            "6"
        },
        7 => {
            proof {
                reveal_strlit("7");
                assert("7"@ =~= seq![spec_digit(7)]);
            }
            "7"
        },
        8 => {
            proof {
                reveal_strlit("8");
                assert("8"@ =~= seq![spec_digit(8)]);
            }
            "8"
        },
        _ => {
            proof {
                reveal_strlit("9");
                assert("9"@ =~= seq![spec_digit(9)]);
            }
            "9"
        },
    }
}

/// Renders `n` in decimal, without padding.
pub fn dec_u64(n: u64) -> (r: String)
    ensures
        r@ == spec_dec(n as nat),
    decreases n,
{
    if n < 10 {
        let mut s = String::new();
        s.append(digit_str(n));
        proof {
            assert(s@ =~= spec_dec(n as nat));
        }
        s
    } else {
        let mut s = dec_u64(n / 10);
        s.append(digit_str(n % 10));
        proof {
            assert(s@ =~= spec_dec(n as nat));
        }
        s
    }
}

/// The number of digits `dec_u64` renders for `n`.
pub fn num_digits(n: u64) -> (r: usize)
    ensures
        r == spec_dec(n as nat).len(),
    decreases n,
{
    proof {
        lemma_pow10_20();
        lemma_dec_len_le(n as nat, 20);
    }
    if n < 10 {
        1
    } else {
        let d = num_digits(n / 10);
        d + 1
    }
}

/// Renders `n` in decimal, left-padded with zeroes to `width` characters.
pub fn dec_padded(n: u64, width: usize) -> (r: String)
    ensures
        r@ == spec_padded_dec(n as nat, width as nat),
{
    let nd = num_digits(n);
    let mut s = String::new();
    if nd < width {
        let zeroes_needed = width - nd;
        let mut k: usize = 0;
        while k < zeroes_needed
            invariant
                k <= zeroes_needed,
                s@ =~= spec_zeroes(k as nat),
            decreases zeroes_needed - k,
        {
            s.append("0");
            k += 1;
            proof {
                reveal_strlit("0");
                assert(s@ =~= spec_zeroes(k as nat));
            }
        }
    }
    let d = dec_u64(n);
    s.append(d.as_str());
    proof {
        assert(s@ =~= spec_padded_dec(n as nat, width as nat));
    }
    s
}

/// The level's tag, left-aligned and padded to five columns.
pub open spec fn spec_level_name(l: Level) -> Seq<char> {
    match l {
        Level::Error => seq!['E', 'R', 'R', 'O', 'R'],
        Level::Warn => seq!['W', 'A', 'R', 'N', ' '],
        Level::Info => seq!['I', 'N', 'F', 'O', ' '],
        Level::Debug => seq!['D', 'E', 'B', 'U', 'G'],
        Level::Trace => seq!['T', 'R', 'A', 'C', 'E'],
    }
}

/// The level's tag, left-aligned and padded to five columns.
pub fn level_name(l: Level) -> (r: &'static str)
    ensures
        r@ == spec_level_name(l),
{
    match l {
        Level::Error => {
            proof {
                reveal_strlit("ERROR");
                assert("ERROR"@ =~= spec_level_name(Level::Error));
            }
            "ERROR"
        },
        Level::Warn => {
            proof {
                reveal_strlit("WARN ");
                assert("WARN "@ =~= spec_level_name(Level::Warn));
            }
            "WARN "
        },
        Level::Info => {
            proof {
                reveal_strlit("INFO ");
                assert("INFO "@ =~= spec_level_name(Level::Info));
            }
            "INFO "
        },
        Level::Debug => {
            proof {
                reveal_strlit("DEBUG");
                assert("DEBUG"@ =~= spec_level_name(Level::Debug));
            }
            "DEBUG"
        },
        Level::Trace => {
            proof {
                reveal_strlit("TRACE");
                assert("TRACE"@ =~= spec_level_name(Level::Trace));
            }
            "TRACE"
        },
    }
}

/// The timestamp part of a record line: `YYYY-MM-DD HH:MM:SS.ffffff`.
pub open spec fn spec_timestamp_chars(t: Timestamp) -> Seq<char> {
    spec_padded_dec(t.year as nat, 4) + seq!['-'] + spec_padded_dec(t.month as nat, 2) + seq!['-']
        + spec_padded_dec(t.day as nat, 2) + seq![' '] + spec_padded_dec(t.hour as nat, 2)
        + seq![':'] + spec_padded_dec(t.minute as nat, 2) + seq![':'] + spec_padded_dec(
        t.second as nat,
        2,
    ) + seq!['.'] + spec_padded_dec(t.micros as nat, 6)
}

/// Renders the timestamp part of a record line.
pub fn format_timestamp(t: &Timestamp) -> (r: String)
    ensures
        r@ == spec_timestamp_chars(*t),
{
    let mut s = dec_padded(t.year as u64, 4);
    s.append("-");
    let month = dec_padded(t.month as u64, 2);
    s.append(month.as_str());
    s.append("-");
    let day = dec_padded(t.day as u64, 2);
    s.append(day.as_str());
    s.append(" ");
    let hour = dec_padded(t.hour as u64, 2);
    s.append(hour.as_str());
    s.append(":");
    let minute = dec_padded(t.minute as u64, 2);
    s.append(minute.as_str());
    s.append(":");
    let second = dec_padded(t.second as u64, 2);
    s.append(second.as_str());
    s.append(".");
    let micros = dec_padded(t.micros as u64, 6);
    s.append(micros.as_str());
    proof {
        reveal_strlit("-");
        reveal_strlit(" ");
        reveal_strlit(":");
        reveal_strlit(".");
        assert(s@ =~= spec_timestamp_chars(*t));
    }
    s
}

/// Everything of a record line that comes before the message.
pub open spec fn spec_record_prefix(ts: Timestamp, level: Level, module: Seq<char>) -> Seq<char> {
    spec_timestamp_chars(ts) + seq![' '] + spec_level_name(level) + seq![' ', '['] + module + seq![
        ']',
        ' ',
    ]
}

/// One full record line: timestamp, padded level, bracketed module tag,
/// the message verbatim, and a closing newline.
pub open spec fn spec_format_line(
    ts: Timestamp,
    level: Level,
    module: Seq<char>,
    message: Seq<char>,
) -> Seq<char> {
    spec_record_prefix(ts, level, module) + message + seq!['\n']
}

/// The line a record is rendered to.
pub open spec fn spec_format_record(ts: Timestamp, rec: Record) -> Seq<char> {
    spec_format_line(ts, rec.level, rec.module@, rec.message@)
}

/// Renders one full record line.
pub fn format_record(ts: &Timestamp, rec: &Record) -> (r: String)
    ensures
        r@ == spec_format_record(*ts, *rec),
{
    let mut s = format_timestamp(ts);
    s.append(" ");
    s.append(level_name(rec.level));
    s.append(" [");
    s.append(rec.module.as_str());
    s.append("] ");
    s.append(rec.message.as_str());
    s.append("\n");
    proof {
        reveal_strlit(" ");
        reveal_strlit(" [");
        reveal_strlit("] ");
        reveal_strlit("\n");
        assert(s@ =~= spec_format_record(*ts, *rec));
    }
    s
}

/// Whether `needle` occurs as a contiguous slice of `haystack`.
pub open spec fn spec_contains(haystack: Seq<char>, needle: Seq<char>) -> bool {
    exists|i: int|
        0 <= i && i + needle.len() <= haystack.len() && #[trigger] haystack.subrange(
            i,
            i + needle.len(),
        ) == needle
}

/// Law: a formatted record carries its message verbatim — the message text
/// is a contiguous slice of the formatted line, whatever the timestamp,
/// level and module are.
pub proof fn lemma_format_contains_message(
    ts: Timestamp,
    level: Level,
    module: Seq<char>,
    message: Seq<char>,
)
    ensures
        spec_contains(spec_format_line(ts, level, module, message), message),
{
    let line = spec_format_line(ts, level, module, message);
    let pre = spec_record_prefix(ts, level, module);
    let i = pre.len() as int;
    assert(line.subrange(i, i + message.len()) =~= message);
}

/// Containment survives prefixing: whatever occurs in `b` occurs in
/// `a + b`.
pub proof fn lemma_contains_concat_left(a: Seq<char>, b: Seq<char>, needle: Seq<char>)
    requires
        spec_contains(b, needle),
    ensures
        spec_contains(a + b, needle),
{
    let i = choose|i: int|
        0 <= i && i + needle.len() <= b.len() && #[trigger] b.subrange(i, i + needle.len())
            == needle;
    assert((a + b).subrange(a.len() + i, a.len() + i + needle.len()) =~= b.subrange(
        i,
        i + needle.len(),
    ));
}

} // verus!
