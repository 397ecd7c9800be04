//! Log rendering: the full multi-line form (header, author, date, indented
//! message body) and the one-line topology form (short id, decorations,
//! summary). The renderer only produces lines; where they go is the
//! caller's business.

use crate::color::{spec_paint, ColorConfig, Style};
use crate::decorations::{spec_format_decorations, format_decorations};
use crate::strutil::{spec_dec, spec_find, dec_u64};
use vstd::prelude::*;

verus! {

/// The rendered date of a unix timestamp in UTC, in git's log format.
/// Computed only by the date formatter; the same timestamp always renders
/// the same way.
pub uninterp spec fn time_display_of(seconds: int) -> Seq<char>;

/// Whether the date formatter can render a timestamp: it refuses exactly
/// the seconds outside its representable date range, a function of the
/// seconds alone.
pub uninterp spec fn time_display_ok(seconds: int) -> bool;

/// Relies on chrono::DateTime::from_timestamp and its `%a %b %e %H:%M:%S
/// %Y %z` formatter: the rendered UTC date is a function of the timestamp
/// alone, and rendering succeeds exactly when the timestamp lies in
/// chrono's representable range, which depends on nothing else.
#[verifier::external_body]
fn format_timestamp(seconds: i64) -> (r: Option<String>)
    ensures
        r matches Some(s) ==> s@ == time_display_of(seconds as int),
        r is Some <==> time_display_ok(seconds as int),
{
    chrono::DateTime::from_timestamp(seconds, 0)
        .map(|d| d.format("%a %b %e %H:%M:%S %Y %z").to_string())
}

/// The decimal rendering of a signed number.
pub open spec fn spec_dec_signed(n: int) -> Seq<char> {
    if n < 0 {
        seq!['-'] + spec_dec(-n)
    } else {
        spec_dec(n)
    }
}

/// Render a signed number in decimal.
pub fn dec_i64(n: i64) -> (r: String)
    ensures
        r@ == spec_dec_signed(n as int),
{
    if n >= 0 {
        let r = dec_u64(n as u64);
        r
    } else {
        let mag: u64 = (-(n + 1)) as u64 + 1;
        proof {
            reveal_strlit("-");
            assert("-"@ =~= seq!['-']);
        }
        let mut out = String::from_str("-");
        out.append(dec_u64(mag).as_str());
        out
    }
}

/// What the date line of a commit shows: the formatted timestamp when the
/// formatter can render it, the raw seconds in decimal otherwise.
pub open spec fn spec_format_time(seconds: int) -> Seq<char> {
    if time_display_ok(seconds) {
        time_display_of(seconds)
    } else {
        spec_dec_signed(seconds)
    }
}

/// Render the date line content of a commit.
pub fn format_time(seconds: i64) -> (r: String)
    ensures
        r@ == spec_format_time(seconds as int),
{
    match format_timestamp(seconds) {
        Some(s) => s,
        None => dec_i64(seconds),
    }
}

/// The lowercase hex digit of a value below sixteen.
pub open spec fn spec_hex_digit(d: int) -> char {
    if d == 0 {
        '0'
    } else if d == 1 {
        '1'
    } else if d == 2 {
        '2'
    } else if d == 3 {
        '3'
    } else if d == 4 {
        '4'
    } else if d == 5 {
        '5'
    } else if d == 6 {
        '6'
    } else if d == 7 {
        '7'
    } else if d == 8 {
        '8'
    } else if d == 9 {
        '9'
    } else if d == 10 {
        'a'
    } else if d == 11 {
        'b'
    } else if d == 12 {
        'c'
    } else if d == 13 {
        'd'
    } else if d == 14 {
        'e'
    } else {
        'f'
    }
}

/// The lowercase hex rendering of a byte string, two digits per byte.
pub open spec fn spec_hex(bytes: Seq<u8>) -> Seq<char>
    decreases bytes.len(),
{
    if bytes.len() == 0 {
        Seq::empty()
    } else {
        spec_hex(bytes.drop_last()) + seq![
            spec_hex_digit(bytes.last() as int / 16),
            spec_hex_digit(bytes.last() as int % 16),
        ]
    }
}

/// Hex has two digits per byte.
pub proof fn lemma_hex_len(bytes: Seq<u8>)
    ensures
        spec_hex(bytes).len() == 2 * bytes.len(),
    decreases bytes.len(),
{
    if bytes.len() > 0 {
        lemma_hex_len(bytes.drop_last());
    }
}

fn hex_digit_str(d: u8) -> (r: &'static str)
    requires
        d < 16,
    ensures
        r@ == seq![spec_hex_digit(d as int)],
{
    if d == 0 {
        proof {
            reveal_strlit("0");
        }
        "0"
    } else if d == 1 {
        proof {
            reveal_strlit("1");
        }
        "1"
    } else if d == 2 {
        proof {
            reveal_strlit("2");
        }
        "2"
    } else if d == 3 {
        proof {
            reveal_strlit("3");
        }
        "3"
    } else if d == 4 {
        proof {
            reveal_strlit("4");
        }
        "4"
    } else if d == 5 {
        proof {
            reveal_strlit("5");
        }
        "5"
    } else if d == 6 {
        proof {
            reveal_strlit("6");
        }
        "6"
    } else if d == 7 {
        proof {
            reveal_strlit("7");
        }
        "7"
    } else if d == 8 {
        proof {
            reveal_strlit("8");
        }
        "8"
    } else if d == 9 {
        proof {
            reveal_strlit("9");
        }
        "9"
    } else if d == 10 {
        proof {
            reveal_strlit("a");
        }
        "a"
    } else if d == 11 {
        proof {
            reveal_strlit("b");
        }
        "b"
    } else if d == 12 {
        proof {
            reveal_strlit("c");
        }
        "c"
    } else if d == 13 {
        proof {
            reveal_strlit("d");
        }
        "d"
    } else if d == 14 {
        proof {
            reveal_strlit("e");
        }
        "e"
    } else {
        proof {
            reveal_strlit("f");
        }
        "f"
    }
}

/// Render a byte string (such as an object id) in lowercase hex.
pub fn hex_of(bytes: &Vec<u8>) -> (r: String)
    ensures
        r@ == spec_hex(bytes@),
{
    let n: usize = bytes.len();
    let mut out = String::new();
    let mut k: usize = 0;
    while k < n
        invariant
            n == bytes@.len(),
            0 <= k <= n,
            out@ == spec_hex(bytes@.take(k as int)),
        decreases n - k,
    {
        let b = bytes[k];
        out.append(hex_digit_str(b / 16));
        out.append(hex_digit_str(b % 16));
        proof {
            assert(bytes@.take(k + 1).drop_last() =~= bytes@.take(k as int));
            assert(bytes@.take(k + 1).last() == bytes@[k as int]);
            assert(out@ =~= spec_hex(bytes@.take(k + 1)));
        }
        k = k + 1;
    }
    proof {
        assert(bytes@.take(n as int) =~= bytes@);
    }
    out
}

/// The first seven hex digits of an object id, as shown in one-line logs.
pub fn short_hex_of(bytes: &Vec<u8>) -> (r: String)
    requires
        bytes@.len() >= 4,
    ensures
        r@ == spec_hex(bytes@).take(7),
{
    let full = hex_of(bytes);
    proof {
        lemma_hex_len(bytes@);
    }
    let short = full.as_str().substring_char(0, 7);
    proof {
        assert(short@ =~= spec_hex(bytes@).take(7));
    }
    String::from_str(short)
}

/// One line of a message body: up to the next newline, with a trailing
/// carriage return removed.
pub open spec fn spec_strip_cr(l: Seq<char>) -> Seq<char> {
    if l.len() > 0 && l.last() == '\r' {
        l.drop_last()
    } else {
        l
    }
}

/// The lines of a message body, split on newlines, without a final empty
/// line for a trailing newline.
pub open spec fn spec_lines(s: Seq<char>) -> Seq<Seq<char>>
    decreases s.len(),
{
    if s.len() == 0 {
        Seq::empty()
    } else {
        let p = spec_find(s, '\n', 0);
        if 0 <= p < s.len() {
            seq![spec_strip_cr(s.take(p))] + spec_lines(s.skip(p + 1))
        } else {
            seq![spec_strip_cr(s)]
        }
    }
}

/// Split a message body into its lines.
pub fn split_lines(s: &str) -> (r: Vec<String>)
    ensures
        r.deep_view() == spec_lines(s@),
    decreases s@.len(),
{
    let n = s.unicode_len();
    if n == 0 {
        return Vec::new();
    }
    let p = first_newline(s);
    let mut out: Vec<String> = Vec::new();
    if p < n {
        let head = s.substring_char(0, p);
        proof {
            assert(head@ =~= s@.take(p as int));
        }
        out.push(strip_cr(head));
        let rest = s.substring_char(p + 1, n);
        proof {
            assert(rest@ =~= s@.skip(p + 1));
        }
        let mut tail = split_lines(rest);
        let ghost pre = out.deep_view();
        let ghost tv = tail.deep_view();
        let tn: usize = tail.len();
        let mut k: usize = 0;
        while k < tn
            invariant
                tn == tail@.len(),
                tv == tail.deep_view(),
                0 <= k <= tn,
                out.deep_view() == pre + tv.take(k as int),
            decreases tn - k,
        {
            let ghost mid = out.deep_view();
            out.push(tail[k].clone());
            proof {
                assert(out.deep_view() =~= mid.push(tv[k as int]));
                assert(pre + tv.take(k + 1) =~= (pre + tv.take(k as int)).push(tv[k as int]));
            }
            k = k + 1;
        }
        proof {
            assert(tv.take(tn as int) =~= tv);
            assert(out.deep_view() =~= spec_lines(s@));
        }
    } else {
        out.push(strip_cr(s));
        proof {
            assert(out.deep_view() =~= seq![spec_strip_cr(s@)]);
        }
    }
    out
}

/// The position of the first newline, or the length.
fn first_newline(s: &str) -> (r: usize)
    ensures
        r == spec_find(s@, '\n', 0),
        r <= s@.len(),
{
    crate::strutil::find_from(s, '\n', 0)
}

/// Remove one trailing carriage return.
fn strip_cr(l: &str) -> (r: String)
    ensures
        r@ == spec_strip_cr(l@),
{
    let n = l.unicode_len();
    if n > 0 && l.get_char(n - 1) == '\r' {
        let head = l.substring_char(0, n - 1);
        proof {
            assert(head@ =~= l@.drop_last());
        }
        String::from_str(head)
    } else {
        String::from_str(l)
    }
}

/// The plain fields of one commit, as the log renders it.
pub struct CommitDisplay {
    pub id: Vec<u8>,
    pub author_name: String,
    pub author_email: String,
    pub seconds: i64,
    pub message: String,
    pub summary: String,
}

/// The full log form of one commit: a header with the painted id and the
/// decorations, the author, the date, and the message body indented four
/// spaces, with one empty line around the body.
pub fn format_full_lines(c: &CommitDisplay, refs: &Vec<String>, colors: &ColorConfig) -> (r: Vec<
    String,
>)
    ensures
        r@.len() == 4 + spec_lines(c.message@).len(),
        r@[0]@ == seq!['c', 'o', 'm', 'm', 'i', 't', ' '] + spec_paint(
            colors.enabled,
            Style::Yellow,
            spec_hex(c.id@),
        ) + spec_format_decorations(colors.enabled, refs.deep_view()),
        r@[1]@ == seq!['A', 'u', 't', 'h', 'o', 'r', ':', ' '] + c.author_name@ + seq![
            ' ',
            '<',
        ] + c.author_email@ + seq!['>'],
        r@[2]@ == seq!['D', 'a', 't', 'e', ':', ' ', ' ', ' '] + spec_format_time(
            c.seconds as int,
        ),
        r@[3]@ == Seq::<char>::empty(),
        forall|i: int|
            0 <= i < spec_lines(c.message@).len() ==> r@[4 + i]@ == seq![' ', ' ', ' ', ' ']
                + spec_lines(c.message@)[i],
{
    proof {
        reveal_strlit("commit ");
        reveal_strlit("Author: ");
        reveal_strlit(" <");
        reveal_strlit(">");
        reveal_strlit("Date:   ");
        reveal_strlit("    ");
        assert("commit "@ =~= seq!['c', 'o', 'm', 'm', 'i', 't', ' ']);
        assert("Author: "@ =~= seq!['A', 'u', 't', 'h', 'o', 'r', ':', ' ']);
        assert(" <"@ =~= seq![' ', '<']);
        assert(">"@ =~= seq!['>']);
        assert("Date:   "@ =~= seq!['D', 'a', 't', 'e', ':', ' ', ' ', ' ']);
        assert("    "@ =~= seq![' ', ' ', ' ', ' ']);
    }
    let mut out: Vec<String> = Vec::new();
    let styled_id = colors.paint(&Style::Yellow, hex_of(&c.id).as_str());
    let deco = format_decorations(refs, colors);
    let mut header = String::from_str("commit ");
    header.append(styled_id.as_str());
    header.append(deco.as_str());
    out.push(header);
    let mut author = String::from_str("Author: ");
    author.append(c.author_name.as_str());
    author.append(" <");
    author.append(c.author_email.as_str());
    author.append(">");
    out.push(author);
    let mut date = String::from_str("Date:   ");
    date.append(format_time(c.seconds).as_str());
    out.push(date);
    out.push(String::new());
    let body = split_lines(c.message.as_str());
    let bn: usize = body.len();
    let mut k: usize = 0;
    while k < bn
        invariant
            bn == body@.len(),
            body.deep_view() == spec_lines(c.message@),
            "    "@ == seq![' ', ' ', ' ', ' '],
            0 <= k <= bn,
            out@.len() == 4 + k,
            out@[0]@ == seq!['c', 'o', 'm', 'm', 'i', 't', ' '] + spec_paint(
                colors.enabled,
                Style::Yellow,
                spec_hex(c.id@),
            ) + spec_format_decorations(colors.enabled, refs.deep_view()),
            out@[1]@ == seq!['A', 'u', 't', 'h', 'o', 'r', ':', ' '] + c.author_name@ + seq![
                ' ',
                '<',
            ] + c.author_email@ + seq!['>'],
            out@[2]@ == seq!['D', 'a', 't', 'e', ':', ' ', ' ', ' '] + spec_format_time(
                c.seconds as int,
            ),
            out@[3]@ == Seq::<char>::empty(),
            forall|i: int|
                0 <= i < k ==> out@[4 + i]@ == seq![' ', ' ', ' ', ' '] + spec_lines(c.message@)[i],
        decreases bn - k,
    {
        let mut line = String::from_str("    ");
        line.append(body[k].as_str());
        proof {
            assert(body.deep_view()[k as int] == body@[k as int]@);
        }
        out.push(line);
        k = k + 1;
    }
    out
}

/// The one-line log form of one commit: the painted short id, the
/// decorations, one space and the summary.
pub fn format_oneline(c: &CommitDisplay, refs: &Vec<String>, colors: &ColorConfig) -> (r: String)
    requires
        c.id@.len() >= 4,
    ensures
        r@ == spec_paint(colors.enabled, Style::Yellow, spec_hex(c.id@).take(7))
            + spec_format_decorations(colors.enabled, refs.deep_view()) + seq![' '] + c.summary@,
{
    proof {
        reveal_strlit(" ");
        assert(" "@ =~= seq![' ']);
    }
    let styled_id = colors.paint(&Style::Yellow, short_hex_of(&c.id).as_str());
    let deco = format_decorations(refs, colors);
    let mut out = styled_id;
    out.append(deco.as_str());
    out.append(" ");
    out.append(c.summary.as_str());
    out
}

} // verus!
