//! The snapshot namer: a deterministic name for each backup artifact,
//! embedding its timestamp with zero-padded fields so that the
//! lexicographic order of names matches the chronological order of
//! timestamps.

use vstd::prelude::*;
use vstd::string::*;
use crate::timestamp::Timestamp;

verus! {

/// The character of one decimal digit.
pub open spec fn digit_char(d: u32) -> char {
    if d == 0 {
        '0'
    } else if d == 1 {
        '1'
    } else if d == 2 {
        '2'
    } else if d == 3 {
        '3'
    } else if d == 4 {
        '4'
    } else if d == 5 {
        '5'
    } else if d == 6 {
        '6'
    } else if d == 7 {
        '7'
    } else if d == 8 {
        '8'
    } else {
        '9'
    }
}

/// Two-digit zero-padded decimal form of `n < 100`.
pub open spec fn pad2(n: u32) -> Seq<char> {
    seq![digit_char(n / 10), digit_char(n % 10)]
}

/// Four-digit zero-padded decimal form of `n < 10000`.
pub open spec fn pad4(n: u32) -> Seq<char> {
    pad2(n / 100) + pad2(n % 100)
}

/// The name of the snapshot taken at `t`:
/// `mysql-YYYY-MM-DD:HH:MM:SS.gz`.
pub open spec fn spec_name_for(t: Timestamp) -> Seq<char> {
    seq!['m', 'y', 's', 'q', 'l', '-'] + pad4(t.year) + seq!['-'] + pad2(t.month) + seq!['-']
        + pad2(t.day) + seq![':'] + pad2(t.hour) + seq![':'] + pad2(t.minute) + seq![':'] + pad2(
        t.second,
    ) + seq!['.', 'g', 'z']
}

/// Strict lexicographic order on character sequences, by code point.
pub open spec fn lex_lt(a: Seq<char>, b: Seq<char>) -> bool
    decreases a.len(),
{
    if b.len() == 0 {
        false
    } else if a.len() == 0 {
        true
    } else if a[0] != b[0] {
        (a[0] as u32) < (b[0] as u32)
    } else {
        lex_lt(a.drop_first(), b.drop_first())
    }
}

/// The sequences agree before position `k` and `a` has the smaller
/// character there.
pub open spec fn seq_lt_at(a: Seq<char>, b: Seq<char>, k: int) -> bool {
    &&& (forall|j: int| 0 <= j < k ==> a[j] == b[j])
    &&& (a[k] as u32) < (b[k] as u32)
}

/// One decimal digit, as a one-character string slice.
fn digit_str(d: u32) -> (r: &'static str)
    requires
        d <= 9,
    ensures
        r@ == seq![digit_char(d)],
{
    let r: &'static str = if d == 0 {
        "0"
    } else if d == 1 {
        "1"
    } else if d == 2 {
        "2"
    } else if d == 3 {
        "3"
    } else if d == 4 {
        "4"
    } else if d == 5 {
        "5"
    } else if d == 6 {
        "6"
    } else if d == 7 {
        "7"
    } else if d == 8 {
        "8"
    } else {
        "9"
    };
    proof {
        reveal_strlit("0");
        reveal_strlit("1");
        reveal_strlit("2");
        reveal_strlit("3");
        reveal_strlit("4");
        reveal_strlit("5");
        reveal_strlit("6");
        reveal_strlit("7");
        reveal_strlit("8");
        reveal_strlit("9");
        assert(r@ =~= seq![digit_char(d)]);
    }
    r
}

/// Appends the two-digit form of `n`.
fn append_pad2(s: &mut String, n: u32)
    requires
        n <= 99,
    ensures
        final(s)@ == old(s)@ + pad2(n),
{
    s.append(digit_str(n / 10));
    s.append(digit_str(n % 10));
    assert(final(s)@ =~= old(s)@ + pad2(n));
}

/// Appends the four-digit form of `n`.
fn append_pad4(s: &mut String, n: u32)
    requires
        n <= 9999,
    ensures
        final(s)@ == old(s)@ + pad4(n),
{
    append_pad2(s, n / 100);
    append_pad2(s, n % 100);
    assert(final(s)@ =~= old(s)@ + pad4(n));
}

/// Produces the name of the snapshot taken at `t`.  Total over
/// well-formed timestamps; no side effects.
pub fn name_for(t: Timestamp) -> (r: String)
    requires
        t.wf(),
    ensures
        r@ == spec_name_for(t),
{
    let mut s = String::new();
    s.append("mysql-");
    proof {
        reveal_strlit("mysql-");
        assert(s@ =~= seq!['m', 'y', 's', 'q', 'l', '-']);
    }
    append_pad4(&mut s, t.year);
    s.append("-");
    append_pad2(&mut s, t.month);
    s.append("-");
    append_pad2(&mut s, t.day);
    s.append(":");
    append_pad2(&mut s, t.hour);
    s.append(":");
    append_pad2(&mut s, t.minute);
    s.append(":");
    append_pad2(&mut s, t.second);
    s.append(".gz");
    proof {
        reveal_strlit("-");
        reveal_strlit(":");
        reveal_strlit(".gz");
        assert("-"@ =~= seq!['-']);
        assert(":"@ =~= seq![':']);
        assert(".gz"@ =~= seq!['.', 'g', 'z']);
        assert(s@ =~= spec_name_for(t));
    }
    s
}

/// The code point of a digit character is 48 plus the digit.
proof fn lemma_digit_char_value(d: u32)
    requires
        d <= 9,
    ensures
        digit_char(d) as u32 == 48 + d,
{
}

/// A first difference at position `i` decides the lexicographic order.
proof fn lemma_lex_from_diff(a: Seq<char>, b: Seq<char>, i: int)
    requires
        a.len() == b.len(),
        0 <= i < a.len(),
        forall|j: int| 0 <= j < i ==> a[j] == b[j],
        (a[i] as u32) < (b[i] as u32),
    ensures
        lex_lt(a, b),
    decreases i,
{
    if i == 0 {
        assert(a[0] != b[0]);
    } else {
        assert(a[0] == b[0]);
        assert forall|j: int| 0 <= j < i - 1 implies a.drop_first()[j] == b.drop_first()[j] by {
            assert(a.drop_first()[j] == a[j + 1]);
        }
        assert(a.drop_first()[i - 1] == a[i]);
        assert(b.drop_first()[i - 1] == b[i]);
        lemma_lex_from_diff(a.drop_first(), b.drop_first(), i - 1);
    }
}

/// Two-digit forms of distinct numbers differ first at a position where
/// the smaller number has the smaller digit.
proof fn lemma_pad2_order(n1: u32, n2: u32)
    requires
        n1 < n2 <= 99,
    ensures
        exists|k: int| 0 <= k < 2 && #[trigger] seq_lt_at(pad2(n1), pad2(n2), k),
{
    lemma_digit_char_value(n1 / 10);
    lemma_digit_char_value(n2 / 10);
    lemma_digit_char_value(n1 % 10);
    lemma_digit_char_value(n2 % 10);
    if n1 / 10 < n2 / 10 {
        assert(seq_lt_at(pad2(n1), pad2(n2), 0));
    } else {
        assert(n1 / 10 == n2 / 10);
        assert(n1 % 10 < n2 % 10);
        assert(seq_lt_at(pad2(n1), pad2(n2), 1));
    }
}

/// The same, for four-digit forms.
proof fn lemma_pad4_order(n1: u32, n2: u32)
    requires
        n1 < n2 <= 9999,
    ensures
        exists|k: int| 0 <= k < 4 && #[trigger] seq_lt_at(pad4(n1), pad4(n2), k),
{
    if n1 / 100 < n2 / 100 {
        lemma_pad2_order(n1 / 100, n2 / 100);
        let k = choose|k: int| 0 <= k < 2 && #[trigger] seq_lt_at(pad2(n1 / 100), pad2(n2 / 100), k);
        assert(seq_lt_at(pad4(n1), pad4(n2), k));
    } else {
        assert(n1 / 100 == n2 / 100);
        assert(n1 % 100 < n2 % 100);
        lemma_pad2_order(n1 % 100, n2 % 100);
        let k = choose|k: int| 0 <= k < 2 && #[trigger] seq_lt_at(pad2(n1 % 100), pad2(n2 % 100), k);
        assert(pad4(n1)[2 + k] == pad2(n1 % 100)[k]);
        assert(pad4(n2)[2 + k] == pad2(n2 % 100)[k]);
        assert forall|j: int| 0 <= j < 2 + k implies pad4(n1)[j] == pad4(n2)[j] by {
            if j < 2 {
                assert(pad4(n1)[j] == pad2(n1 / 100)[j]);
                assert(pad4(n2)[j] == pad2(n2 / 100)[j]);
            } else {
                assert(pad4(n1)[j] == pad2(n1 % 100)[j - 2]);
                assert(pad4(n2)[j] == pad2(n2 % 100)[j - 2]);
            }
        }
        assert(seq_lt_at(pad4(n1), pad4(n2), 2 + k));
    }
}

/// Where each character of `spec_name_for` comes from.
proof fn lemma_name_index(t: Timestamp)
    ensures
        spec_name_for(t).len() == 28,
        forall|k: int|
            0 <= k < 6 ==> spec_name_for(t)[k] == seq!['m', 'y', 's', 'q', 'l', '-'][k],
        forall|k: int| 0 <= k < 4 ==> spec_name_for(t)[6 + k] == pad4(t.year)[k],
        spec_name_for(t)[10] == '-',
        forall|k: int| 0 <= k < 2 ==> spec_name_for(t)[11 + k] == pad2(t.month)[k],
        spec_name_for(t)[13] == '-',
        forall|k: int| 0 <= k < 2 ==> spec_name_for(t)[14 + k] == pad2(t.day)[k],
        spec_name_for(t)[16] == ':',
        forall|k: int| 0 <= k < 2 ==> spec_name_for(t)[17 + k] == pad2(t.hour)[k],
        spec_name_for(t)[19] == ':',
        forall|k: int| 0 <= k < 2 ==> spec_name_for(t)[20 + k] == pad2(t.minute)[k],
        spec_name_for(t)[22] == ':',
        forall|k: int| 0 <= k < 2 ==> spec_name_for(t)[23 + k] == pad2(t.second)[k],
        forall|k: int| 25 <= k < 28 ==> spec_name_for(t)[k] == seq!['.', 'g', 'z'][k - 25],
{
}

/// The namer's critical invariant: lexicographic order of names matches
/// chronological order of timestamps.  For all well-formed timestamps
/// `t1` strictly before `t2`, the name for `t1` sorts strictly before
/// the name for `t2`.
pub proof fn lemma_name_for_monotone(t1: Timestamp, t2: Timestamp)
    requires
        t1.wf(),
        t2.wf(),
        t1.lt(t2),
    ensures
        lex_lt(spec_name_for(t1), spec_name_for(t2)),
{
    let a = spec_name_for(t1);
    let b = spec_name_for(t2);
    lemma_name_index(t1);
    lemma_name_index(t2);
    if t1.year != t2.year {
        lemma_pad4_order(t1.year, t2.year);
        let k = choose|k: int| 0 <= k < 4 && #[trigger] seq_lt_at(pad4(t1.year), pad4(t2.year), k);
        assert forall|j: int| 0 <= j < 6 + k implies a[j] == b[j] by {
            if j >= 6 {
                assert(pad4(t1.year)[j - 6] == pad4(t2.year)[j - 6]);
            }
        }
        lemma_lex_from_diff(a, b, 6 + k);
    } else if t1.month != t2.month {
        lemma_pad2_order(t1.month, t2.month);
        let k = choose|k: int|
            0 <= k < 2 && #[trigger] seq_lt_at(pad2(t1.month), pad2(t2.month), k);
        assert forall|j: int| 0 <= j < 11 + k implies a[j] == b[j] by {
            if 6 <= j < 10 {
                assert(a[j] == pad4(t1.year)[j - 6]);
                assert(b[j] == pad4(t2.year)[j - 6]);
            } else if 11 <= j {
                assert(pad2(t1.month)[j - 11] == pad2(t2.month)[j - 11]);
            }
        }
        lemma_lex_from_diff(a, b, 11 + k);
    } else if t1.day != t2.day {
        lemma_pad2_order(t1.day, t2.day);
        let k = choose|k: int| 0 <= k < 2 && #[trigger] seq_lt_at(pad2(t1.day), pad2(t2.day), k);
        assert forall|j: int| 0 <= j < 14 + k implies a[j] == b[j] by {
            if 6 <= j < 10 {
                assert(a[j] == pad4(t1.year)[j - 6]);
                assert(b[j] == pad4(t2.year)[j - 6]);
            } else if 11 <= j < 13 {
                assert(a[j] == pad2(t1.month)[j - 11]);
                assert(b[j] == pad2(t2.month)[j - 11]);
            } else if 14 <= j {
                assert(pad2(t1.day)[j - 14] == pad2(t2.day)[j - 14]);
            }
        }
        lemma_lex_from_diff(a, b, 14 + k);
    } else if t1.hour != t2.hour {
        lemma_pad2_order(t1.hour, t2.hour);
        let k = choose|k: int| 0 <= k < 2 && #[trigger] seq_lt_at(pad2(t1.hour), pad2(t2.hour), k);
        assert forall|j: int| 0 <= j < 17 + k implies a[j] == b[j] by {
            if 6 <= j < 10 {
                assert(a[j] == pad4(t1.year)[j - 6]);
                assert(b[j] == pad4(t2.year)[j - 6]);
            } else if 11 <= j < 13 {
                assert(a[j] == pad2(t1.month)[j - 11]);
                assert(b[j] == pad2(t2.month)[j - 11]);
            } else if 14 <= j < 16 {
                assert(a[j] == pad2(t1.day)[j - 14]);
                assert(b[j] == pad2(t2.day)[j - 14]);
            } else if 17 <= j {
                assert(pad2(t1.hour)[j - 17] == pad2(t2.hour)[j - 17]);
            }
        }
        lemma_lex_from_diff(a, b, 17 + k);
    } else if t1.minute != t2.minute {
        lemma_pad2_order(t1.minute, t2.minute);
        let k = choose|k: int|
            0 <= k < 2 && #[trigger] seq_lt_at(pad2(t1.minute), pad2(t2.minute), k);
        assert forall|j: int| 0 <= j < 20 + k implies a[j] == b[j] by {
            if 6 <= j < 10 {
                assert(a[j] == pad4(t1.year)[j - 6]);
                assert(b[j] == pad4(t2.year)[j - 6]);
            } else if 11 <= j < 13 {
                assert(a[j] == pad2(t1.month)[j - 11]);
                assert(b[j] == pad2(t2.month)[j - 11]);
            } else if 14 <= j < 16 {
                assert(a[j] == pad2(t1.day)[j - 14]);
                assert(b[j] == pad2(t2.day)[j - 14]);
            } else if 17 <= j < 19 {
                assert(a[j] == pad2(t1.hour)[j - 17]);
                assert(b[j] == pad2(t2.hour)[j - 17]);
            } else if 20 <= j {
                assert(pad2(t1.minute)[j - 20] == pad2(t2.minute)[j - 20]);
            }
        }
        lemma_lex_from_diff(a, b, 20 + k);
    } else {
        assert(t1.second < t2.second);
        lemma_pad2_order(t1.second, t2.second);
        let k = choose|k: int|
            0 <= k < 2 && #[trigger] seq_lt_at(pad2(t1.second), pad2(t2.second), k);
        assert forall|j: int| 0 <= j < 23 + k implies a[j] == b[j] by {
            if 6 <= j < 10 {
                assert(a[j] == pad4(t1.year)[j - 6]);
                assert(b[j] == pad4(t2.year)[j - 6]);
            } else if 11 <= j < 13 {
                assert(a[j] == pad2(t1.month)[j - 11]);
                assert(b[j] == pad2(t2.month)[j - 11]);
            } else if 14 <= j < 16 {
                assert(a[j] == pad2(t1.day)[j - 14]);
                assert(b[j] == pad2(t2.day)[j - 14]);
            } else if 17 <= j < 19 {
                assert(a[j] == pad2(t1.hour)[j - 17]);
                assert(b[j] == pad2(t2.hour)[j - 17]);
            } else if 20 <= j < 22 {
                assert(a[j] == pad2(t1.minute)[j - 20]);
                assert(b[j] == pad2(t2.minute)[j - 20]);
            } else if 23 <= j {
                assert(pad2(t1.second)[j - 23] == pad2(t2.second)[j - 23]);
            }
        }
        lemma_lex_from_diff(a, b, 23 + k);
    }
}

} // verus!
