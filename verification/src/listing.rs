//! Parsing the storage listing.  Each line of the listing reports a
//! date, a time, a size and an object name, separated by blanks; the
//! date and time are the store's own metadata for the object.  A line
//! that does not fit this grammar is skipped, never fatal: a corrupt or
//! foreign entry in the store must not block rotation of the artifacts
//! that are understood.

use vstd::prelude::*;
use vstd::string::*;
use crate::artifact::{Artifact, ArtifactModel, views_of};
use crate::timestamp::Timestamp;

verus! {

/// A field separator in a listing line.
pub open spec fn is_blank(c: char) -> bool {
    c == ' ' || c == '\t'
}

/// A decimal digit.
pub open spec fn is_digit(c: char) -> bool {
    48 <= c as u32 <= 57
}

/// The value of a decimal digit.
pub open spec fn digit_val(c: char) -> u32 {
    (c as u32 - 48) as u32
}

/// Splitting on blanks, one character at a time: `cur` is the field
/// being read, `acc` the fields already read.
pub open spec fn split_blanks_rec(
    s: Seq<char>,
    i: int,
    cur: Seq<char>,
    acc: Seq<Seq<char>>,
) -> Seq<Seq<char>>
    decreases s.len() - i,
{
    if i < 0 || i >= s.len() {
        if cur.len() > 0 {
            acc.push(cur)
        } else {
            acc
        }
    } else if is_blank(s[i]) {
        if cur.len() > 0 {
            split_blanks_rec(s, i + 1, Seq::empty(), acc.push(cur))
        } else {
            split_blanks_rec(s, i + 1, Seq::empty(), acc)
        }
    } else {
        split_blanks_rec(s, i + 1, cur.push(s[i]), acc)
    }
}

/// The blank-separated fields of a line.
pub open spec fn split_blanks(s: Seq<char>) -> Seq<Seq<char>> {
    split_blanks_rec(s, 0, Seq::empty(), Seq::empty())
}

/// A line's trailing carriage return, if any, is not part of it.
pub open spec fn strip_cr(l: Seq<char>) -> Seq<char> {
    if l.len() > 0 && l.last() == '\r' {
        l.drop_last()
    } else {
        l
    }
}

/// Splitting a text into lines, one character at a time: a line ends at
/// each line feed, which also takes a carriage return just before it;
/// a last line without a line ending still counts, an empty one not.
pub open spec fn split_lines_rec(
    s: Seq<char>,
    i: int,
    cur: Seq<char>,
    acc: Seq<Seq<char>>,
) -> Seq<Seq<char>>
    decreases s.len() - i,
{
    if i < 0 || i >= s.len() {
        if cur.len() > 0 {
            acc.push(cur)
        } else {
            acc
        }
    } else if s[i] == '\n' {
        split_lines_rec(s, i + 1, Seq::empty(), acc.push(strip_cr(cur)))
    } else {
        split_lines_rec(s, i + 1, cur.push(s[i]), acc)
    }
}

/// The lines of a text.
pub open spec fn spec_lines(s: Seq<char>) -> Seq<Seq<char>> {
    split_lines_rec(s, 0, Seq::empty(), Seq::empty())
}

/// Whether the year is a leap year in the Gregorian calendar.
pub open spec fn is_leap_year(y: u32) -> bool {
    y % 4 == 0 && (y % 100 != 0 || y % 400 == 0)
}

/// The number of days of a month.
pub open spec fn days_in_month(y: u32, m: u32) -> u32 {
    if m == 2 {
        if is_leap_year(y) {
            29
        } else {
            28
        }
    } else if m == 4 || m == 6 || m == 9 || m == 11 {
        30
    } else {
        31
    }
}

/// The value of the two digits of `s` at `i`.
pub open spec fn two_digit_val(s: Seq<char>, i: int) -> u32 {
    (digit_val(s[i]) * 10 + digit_val(s[i + 1])) as u32
}

/// A date field: `YYYY-MM-DD`, zero-padded, a valid calendar date.
pub open spec fn spec_parse_date(s: Seq<char>) -> Option<(u32, u32, u32)> {
    if s.len() == 10 && is_digit(s[0]) && is_digit(s[1]) && is_digit(s[2]) && is_digit(s[3])
        && s[4] == '-' && is_digit(s[5]) && is_digit(s[6]) && s[7] == '-' && is_digit(s[8])
        && is_digit(s[9]) {
        let y = (two_digit_val(s, 0) * 100 + two_digit_val(s, 2)) as u32;
        let m = two_digit_val(s, 5);
        let d = two_digit_val(s, 8);
        if 1 <= m <= 12 && 1 <= d <= days_in_month(y, m) {
            Some((y, m, d))
        } else {
            None
        }
    } else {
        None
    }
}

/// A time field: `HH:MM:SS`, zero-padded, on the 24-hour clock.
pub open spec fn spec_parse_time(s: Seq<char>) -> Option<(u32, u32, u32)> {
    if s.len() == 8 && is_digit(s[0]) && is_digit(s[1]) && s[2] == ':' && is_digit(s[3])
        && is_digit(s[4]) && s[5] == ':' && is_digit(s[6]) && is_digit(s[7]) {
        let h = two_digit_val(s, 0);
        let mi = two_digit_val(s, 3);
        let sec = two_digit_val(s, 6);
        if h <= 23 && mi <= 59 && sec <= 59 {
            Some((h, mi, sec))
        } else {
            None
        }
    } else {
        None
    }
}

/// The artifact a listing line describes: the first field is the date,
/// the second the time, the fourth the object name.  A line with fewer
/// than four fields, or whose date or time does not parse, describes
/// nothing.
pub open spec fn spec_parse_line(s: Seq<char>) -> Option<ArtifactModel> {
    let f = split_blanks(s);
    if f.len() < 4 {
        None
    } else {
        match spec_parse_date(f[0]) {
            None => None,
            Some((y, mo, d)) => match spec_parse_time(f[1]) {
                None => None,
                Some((h, mi, sec)) => Some(
                    ArtifactModel {
                        name: f[3],
                        created_at: Timestamp {
                            year: y,
                            month: mo,
                            day: d,
                            hour: h,
                            minute: mi,
                            second: sec,
                        },
                    },
                ),
            },
        }
    }
}

/// The artifacts of the lines that parse, in listing order.
pub open spec fn valid_entries(lines: Seq<Seq<char>>) -> Seq<ArtifactModel>
    decreases lines.len(),
{
    if lines.len() == 0 {
        Seq::empty()
    } else {
        let rest = valid_entries(lines.drop_last());
        match spec_parse_line(lines.last()) {
            Some(a) => rest.push(a),
            None => rest,
        }
    }
}

/// The character sequences of a vector of lines.
pub open spec fn line_views(lines: Seq<String>) -> Seq<Seq<char>> {
    lines.map_values(|l: String| l@)
}

/// Relies on `String::push`: appends one character at the end.
#[verifier::external_body]
fn push_char(s: &mut String, c: char)
    ensures
        final(s)@ == old(s)@.push(c),
{
    s.push(c);
}

/// Splits a line into its blank-separated fields.
pub fn split_fields(s: &str) -> (fields: Vec<String>)
    ensures
        fields@.map_values(|f: String| f@) == split_blanks(s@),
{
    let n = s.unicode_len();
    let mut fields: Vec<String> = Vec::new();
    let mut cur = String::new();
    let mut i: usize = 0;
    proof {
        assert(fields@.map_values(|f: String| f@) =~= Seq::<Seq<char>>::empty());
    }
    while i < n
        invariant
            n == s@.len(),
            i <= n,
            split_blanks(s@) == split_blanks_rec(
                s@,
                i as int,
                cur@,
                fields@.map_values(|f: String| f@),
            ),
        decreases n - i,
    {
        let ghost pre_fields = fields@.map_values(|f: String| f@);
        let ghost pre_cur = cur@;
        let c = s.get_char(i);
        if c == ' ' || c == '\t' {
            if !cur.as_str().is_empty() {
                assert(cur@.len() > 0);
                fields.push(cur);
                cur = String::new();
                assert(fields@.map_values(|f: String| f@) =~= pre_fields.push(
                    fields@.last()@,
                ));
            }
        } else {
            push_char(&mut cur, c);
        }
        proof {
            if is_blank(s@[i as int]) {
                if pre_cur.len() > 0 {
                    assert(split_blanks_rec(s@, i as int, pre_cur, pre_fields)
                        == split_blanks_rec(s@, i + 1, Seq::empty(), pre_fields.push(pre_cur)));
                    assert(fields@.map_values(|f: String| f@) =~= pre_fields.push(pre_cur));
                } else {
                    assert(pre_cur =~= Seq::<char>::empty());
                    assert(split_blanks_rec(s@, i as int, pre_cur, pre_fields)
                        == split_blanks_rec(s@, i + 1, Seq::empty(), pre_fields));
                }
                assert(cur@ =~= Seq::<char>::empty());
            } else {
                assert(split_blanks_rec(s@, i as int, pre_cur, pre_fields)
                    == split_blanks_rec(s@, i + 1, pre_cur.push(s@[i as int]), pre_fields));
            }
        }
        i = i + 1;
    }
    if !cur.as_str().is_empty() {
        assert(cur@.len() > 0);
        let ghost pre_fields = fields@.map_values(|f: String| f@);
        fields.push(cur);
        assert(fields@.map_values(|f: String| f@) =~= pre_fields.push(fields@.last()@));
    }
    fields
}

/// Builds a string out of a vector of characters.
fn chars_to_string(v: &Vec<char>) -> (r: String)
    ensures
        r@ == v@,
{
    let mut s = String::new();
    let mut i: usize = 0;
    assert(s@ =~= v@.subrange(0, 0));
    while i < v.len()
        invariant
            i <= v@.len(),
            s@ == v@.subrange(0, i as int),
        decreases v@.len() - i,
    {
        push_char(&mut s, v[i]);
        assert(s@ =~= v@.subrange(0, i + 1));
        i = i + 1;
    }
    assert(v@.subrange(0, v@.len() as int) =~= v@);
    s
}

/// Splits the raw text of a storage listing into its lines.
pub fn split_listing_lines(text: &str) -> (lines: Vec<String>)
    ensures
        lines@.map_values(|l: String| l@) == spec_lines(text@),
{
    let n = text.unicode_len();
    let mut lines: Vec<String> = Vec::new();
    let mut cur: Vec<char> = Vec::new();
    let mut i: usize = 0;
    proof {
        assert(lines@.map_values(|l: String| l@) =~= Seq::<Seq<char>>::empty());
    }
    while i < n
        invariant
            n == text@.len(),
            i <= n,
            spec_lines(text@) == split_lines_rec(
                text@,
                i as int,
                cur@,
                lines@.map_values(|l: String| l@),
            ),
        decreases n - i,
    {
        let ghost pre_cur = cur@;
        let ghost pre_lines = lines@.map_values(|l: String| l@);
        let c = text.get_char(i);
        if c == '\n' {
            if cur.len() > 0 && cur[cur.len() - 1] == '\r' {
                cur.pop();
                assert(cur@ =~= strip_cr(pre_cur));
            }
            let piece = chars_to_string(&cur);
            assert(piece@ == strip_cr(pre_cur));
            lines.push(piece);
            cur.clear();
            assert(lines@.map_values(|l: String| l@) =~= pre_lines.push(strip_cr(pre_cur)));
        } else {
            cur.push(c);
        }
        proof {
            if text@[i as int] == '\n' {
                assert(split_lines_rec(text@, i as int, pre_cur, pre_lines)
                    == split_lines_rec(text@, i + 1, Seq::empty(), pre_lines.push(
                    strip_cr(pre_cur),
                )));
                assert(cur@ =~= Seq::<char>::empty());
            } else {
                assert(split_lines_rec(text@, i as int, pre_cur, pre_lines)
                    == split_lines_rec(text@, i + 1, pre_cur.push(text@[i as int]), pre_lines));
            }
        }
        i = i + 1;
    }
    if cur.len() > 0 {
        let ghost pre_lines = lines@.map_values(|l: String| l@);
        let piece = chars_to_string(&cur);
        lines.push(piece);
        assert(lines@.map_values(|l: String| l@) =~= pre_lines.push(cur@));
    }
    lines
}

/// Reads the digit at `i` of `s`, if it is one.
fn char_digit(s: &str, i: usize) -> (r: Option<u32>)
    requires
        i < s@.len(),
    ensures
        r is Some <==> is_digit(s@[i as int]),
        r matches Some(d) ==> d == digit_val(s@[i as int]),
{
    let c = s.get_char(i);
    let v = c as u32;
    if 48 <= v && v <= 57 {
        Some(v - 48)
    } else {
        None
    }
}

/// Reads the two-digit number at `i` of `s`, if both are digits.
fn two_digits(s: &str, i: usize) -> (r: Option<u32>)
    requires
        i + 2 <= s@.len() <= usize::MAX,
    ensures
        r is Some <==> is_digit(s@[i as int]) && is_digit(s@[i as int + 1]),
        r matches Some(v) ==> v == two_digit_val(s@, i as int) && v <= 99,
{
    let hi = match char_digit(s, i) {
        Some(d) => d,
        None => {
            return None;
        },
    };
    let lo = match char_digit(s, i + 1) {
        Some(d) => d,
        None => {
            return None;
        },
    };
    Some(hi * 10 + lo)
}

/// Parses a `YYYY-MM-DD` date field.
pub fn parse_date(s: &str) -> (r: Option<(u32, u32, u32)>)
    ensures
        r == spec_parse_date(s@),
{
    if s.unicode_len() != 10 {
        return None;
    }
    if s.get_char(4) != '-' || s.get_char(7) != '-' {
        return None;
    }
    let hi = match two_digits(s, 0) {
        Some(v) => v,
        None => {
            return None;
        },
    };
    let lo = match two_digits(s, 2) {
        Some(v) => v,
        None => {
            return None;
        },
    };
    let y = hi * 100 + lo;
    let m = match two_digits(s, 5) {
        Some(v) => v,
        None => {
            return None;
        },
    };
    let d = match two_digits(s, 8) {
        Some(v) => v,
        None => {
            return None;
        },
    };
    if m < 1 || m > 12 {
        return None;
    }
    let dim = if m == 2 {
        if y % 4 == 0 && (y % 100 != 0 || y % 400 == 0) {
            29
        } else {
            28
        }
    } else if m == 4 || m == 6 || m == 9 || m == 11 {
        30
    } else {
        31
    };
    if d < 1 || d > dim {
        return None;
    }
    Some((y, m, d))
}

/// Parses an `HH:MM:SS` time field.
pub fn parse_time(s: &str) -> (r: Option<(u32, u32, u32)>)
    ensures
        r == spec_parse_time(s@),
{
    if s.unicode_len() != 8 {
        return None;
    }
    if s.get_char(2) != ':' || s.get_char(5) != ':' {
        return None;
    }
    let h = match two_digits(s, 0) {
        Some(v) => v,
        None => {
            return None;
        },
    };
    let mi = match two_digits(s, 3) {
        Some(v) => v,
        None => {
            return None;
        },
    };
    let sec = match two_digits(s, 6) {
        Some(v) => v,
        None => {
            return None;
        },
    };
    if h > 23 || mi > 59 || sec > 59 {
        return None;
    }
    Some((h, mi, sec))
}

/// Parses one listing line into the artifact it describes, if any.  The
/// timestamp of a parsed artifact is always well-formed.
pub fn parse_listing_line(line: &str) -> (r: Option<Artifact>)
    ensures
        r matches Some(a) ==> spec_parse_line(line@) == Some(a@) && a.created_at.wf(),
        r is None ==> spec_parse_line(line@) is None,
{
    let mut fields = split_fields(line);
    if fields.len() < 4 {
        return None;
    }
    let (y, mo, d) = match parse_date(fields[0].as_str()) {
        Some(v) => v,
        None => {
            return None;
        },
    };
    let (h, mi, sec) = match parse_time(fields[1].as_str()) {
        Some(v) => v,
        None => {
            return None;
        },
    };
    let name = fields.remove(3);
    let t = Timestamp { year: y, month: mo, day: d, hour: h, minute: mi, second: sec };
    Some(Artifact { name, created_at: t })
}

/// Parses a whole listing: the artifacts of the lines that parse, in
/// listing order, and the number of lines that were skipped.
pub fn parse_listing(lines: &Vec<String>) -> (r: (Vec<Artifact>, usize))
    ensures
        views_of(r.0@) == valid_entries(line_views(lines@)),
        r.0@.len() + r.1 == lines@.len(),
{
    let mut arts: Vec<Artifact> = Vec::new();
    let mut skipped: usize = 0;
    let mut i: usize = 0;
    while i < lines.len()
        invariant
            i <= lines@.len(),
            views_of(arts@) == valid_entries(line_views(lines@.subrange(0, i as int))),
            arts@.len() + skipped == i,
        decreases lines@.len() - i,
    {
        let ghost pre = line_views(lines@.subrange(0, i as int));
        let ghost pre_arts = views_of(arts@);
        match parse_listing_line(lines[i].as_str()) {
            Some(a) => {
                arts.push(a);
            },
            None => {
                skipped = skipped + 1;
            },
        }
        proof {
            assert(line_views(lines@.subrange(0, i + 1)) =~= pre.push(lines@[i as int]@));
            assert(line_views(lines@.subrange(0, i + 1)).drop_last() =~= pre);
            if spec_parse_line(lines@[i as int]@) is Some {
                assert(views_of(arts@) =~= pre_arts.push(arts@.last()@));
            } else {
                assert(views_of(arts@) =~= pre_arts);
            }
        }
        i = i + 1;
    }
    assert(lines@.subrange(0, lines@.len() as int) =~= lines@);
    (arts, skipped)
}

} // verus!
