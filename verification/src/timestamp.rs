//! Timestamp extraction from the head of a trace line.
//!
//! The candidate timestamp is the text up to the third space boundary when
//! the third field is a meridiem marker (`AM`/`PM`), else the text up to
//! the second space boundary. The candidate is parsed as
//! `day/month/year hour:minute:second`, with the meridiem marker appended
//! in the 12-hour case, and interpreted as UTC.

use vstd::prelude::*;

use crate::text::str_eq;

verus! {

/// Number of space characters in `s`.
pub open spec fn count_spaces(s: Seq<char>) -> nat
    decreases s.len(),
{
    if s.len() == 0 {
        0
    } else {
        count_spaces(s.drop_last()) + (if s.last() == ' ' {
            1nat
        } else {
            0nat
        })
    }
}

/// Position of the `n`-th space of `s`, counting from zero, or `s.len()`
/// when `s` holds no more than `n` spaces.
pub open spec fn nth_space(s: Seq<char>, n: nat) -> nat
    decreases s.len(),
{
    if s.len() == 0 {
        0
    } else if s[0] == ' ' {
        if n == 0 {
            0
        } else {
            1 + nth_space(s.subrange(1, s.len() as int), (n - 1) as nat)
        }
    } else {
        1 + nth_space(s.subrange(1, s.len() as int), n)
    }
}

/// The space count decomposes at the front.
proof fn lemma_count_spaces_front(u: Seq<char>)
    requires
        u.len() > 0,
    ensures
        count_spaces(u) == (if u[0] == ' ' {
            1nat
        } else {
            0nat
        }) + count_spaces(u.drop_first()),
    decreases u.len(),
{
    if u.len() == 1 {
        assert(u.drop_last() =~= Seq::<char>::empty());
        assert(u.drop_first() =~= Seq::<char>::empty());
    } else {
        lemma_count_spaces_front(u.drop_last());
        assert(u.drop_last().drop_first() =~= u.drop_first().drop_last());
        assert(u.drop_first().last() == u.last());
    }
}

/// The position `p` holds the `n`-th space exactly when `p` is a space with
/// `n` spaces before it.
pub proof fn lemma_nth_space_at(s: Seq<char>, n: nat, p: int)
    requires
        0 <= p < s.len(),
        s[p] == ' ',
        count_spaces(s.subrange(0, p)) == n,
    ensures
        nth_space(s, n) == p,
    decreases p,
{
    if p == 0 {
        assert(s.subrange(0, 0) =~= Seq::<char>::empty());
    } else {
        let u = s.subrange(0, p);
        let t = s.subrange(1, s.len() as int);
        lemma_count_spaces_front(u);
        assert(u.drop_first() =~= t.subrange(0, p - 1));
        if s[0] == ' ' {
            lemma_nth_space_at(t, (n - 1) as nat, p - 1);
        } else {
            lemma_nth_space_at(t, n, p - 1);
        }
    }
}

/// A prefix never holds more spaces than the whole.
pub proof fn lemma_count_spaces_prefix_le(s: Seq<char>, p: int)
    requires
        0 <= p <= s.len(),
    ensures
        count_spaces(s.subrange(0, p)) <= count_spaces(s),
    decreases s.len() - p,
{
    if p == s.len() {
        assert(s.subrange(0, p) =~= s);
    } else {
        assert(s.subrange(0, p + 1).drop_last() =~= s.subrange(0, p));
        lemma_count_spaces_prefix_le(s, p + 1);
    }
}

/// The 12-hour pattern: date, 12-hour time, meridiem marker.
pub open spec fn fmt_12h() -> Seq<char> {
    "%d/%m/%Y %I:%M:%S %P"@
}

/// The 24-hour pattern: date and time only.
pub open spec fn fmt_24h() -> Seq<char> {
    "%d/%m/%Y %H:%M:%S"@
}

/// What chrono's strftime parser yields for a date-time text under a
/// format, as epoch milliseconds UTC; nothing when the text does not match
/// the format.
pub uninterp spec fn utc_millis(s: Seq<char>, fmt: Seq<char>) -> Option<i64>;

/// Relies on chrono's `NaiveDateTime::parse_from_str`, reached through the
/// re-export of the usiem crate: the parse of a date-time text under a
/// strftime format is a function of the text and the format alone.
/// `and_utc` and `timestamp_millis` only convert the parsed value to epoch
/// milliseconds UTC.
#[verifier::external_body]
fn parse_utc_millis(s: &str, fmt: &str) -> (r: Option<i64>)
    ensures
        r == utc_millis(s@, fmt@),
{
    match usiem::chrono::NaiveDateTime::parse_from_str(s, fmt) {
        Ok(t) => Some(t.and_utc().timestamp_millis()),
        Err(_) => None,
    }
}

/// Whether the third space-delimited field of `s` is a meridiem marker.
pub open spec fn has_meridiem(s: Seq<char>) -> bool
    recommends
        count_spaces(s) >= 3,
{
    let p1 = nth_space(s, 1);
    let p2 = nth_space(s, 2);
    s.subrange(p1 as int + 1, p2 as int) == "AM"@ || s.subrange(p1 as int + 1, p2 as int) == "PM"@
}

/// Where the line's text resumes after the date fields: the third space
/// boundary when the third field is a meridiem marker, else the position
/// after the second space; nothing when `s` has fewer than three spaces.
pub open spec fn spec_date_boundary(s: Seq<char>) -> Option<nat> {
    if count_spaces(s) < 3 {
        None
    } else if has_meridiem(s) {
        Some(nth_space(s, 2))
    } else {
        Some((nth_space(s, 1) + 1) as nat)
    }
}

/// The timestamp of the head segment and the position where the rest of
/// the line begins: under the 12-hour pattern including the meridiem
/// marker when the third field is one, else under the 24-hour pattern up
/// to the second space; nothing when there are fewer than three spaces or
/// the chosen pattern does not match.
pub open spec fn spec_extract_date(s: Seq<char>) -> Option<(i64, nat)> {
    if count_spaces(s) < 3 {
        None
    } else {
        let p1 = nth_space(s, 1);
        let p2 = nth_space(s, 2);
        if has_meridiem(s) {
            match utc_millis(s.subrange(0, p2 as int), fmt_12h()) {
                Some(ms) => Some((ms, (p2 + 1) as nat)),
                None => None,
            }
        } else {
            match utc_millis(s.subrange(0, p1 as int), fmt_24h()) {
                Some(ms) => Some((ms, (p1 + 1) as nat)),
                None => None,
            }
        }
    }
}

/// Finds where the line's text resumes after the date fields: the third
/// space boundary when the third field is `AM` or `PM`, else the position
/// after the second space. Nothing when the segment has fewer than three
/// spaces.
pub fn get_date_message(message: &str) -> (r: Option<usize>)
    ensures
        (match spec_date_boundary(message@) {
            Some(p) => r == Some(p as usize),
            None => r is None,
        }),
{
    let n = message.unicode_len();
    let mut whitespaces: usize = 0;
    let mut last_whitespace: usize = 0;
    let mut i: usize = 0;
    proof {
        assert(message@.subrange(0, 0) =~= Seq::<char>::empty());
    }
    while i < n
        invariant
            n == message@.len(),
            i <= n,
            whitespaces == count_spaces(message@.subrange(0, i as int)),
            whitespaces <= 2,
            whitespaces >= 1 ==> 1 <= last_whitespace <= i && nth_space(
                message@,
                (whitespaces - 1) as nat,
            ) == last_whitespace - 1,
            whitespaces == 0 ==> last_whitespace == 0,
        decreases n - i,
    {
        let c = message.get_char(i);
        proof {
            assert(message@.subrange(0, i + 1).drop_last() =~= message@.subrange(0, i as int));
        }
        if c == ' ' {
            if whitespaces == 2 {
                proof {
                    lemma_nth_space_at(message@, 2, i as int);
                    lemma_count_spaces_prefix_le(message@, i + 1);
                }
                let sub = message.substring_char(last_whitespace, i);
                if str_eq(sub, "AM") || str_eq(sub, "PM") {
                    return Some(i);
                } else {
                    return Some(last_whitespace);
                }
            } else {
                proof {
                    lemma_nth_space_at(message@, whitespaces as nat, i as int);
                }
                last_whitespace = i + 1;
                whitespaces += 1;
            }
        }
        i += 1;
    }
    proof {
        assert(message@.subrange(0, n as int) =~= message@);
    }
    None
}

/// Extracts the timestamp of the head segment as epoch milliseconds UTC,
/// with the position where the rest of the line begins. The text up to the
/// third space boundary is parsed under the 12-hour pattern when the third
/// field is `AM` or `PM`; else the text up to the second space is parsed
/// under the 24-hour pattern. Nothing when there are fewer than three
/// spaces or the chosen pattern does not match.
pub fn extract_date(message: &str) -> (r: Option<(i64, usize)>)
    ensures
        (match spec_extract_date(message@) {
            Some(t) => r == Some((t.0, t.1 as usize)) && t.1 <= message@.len(),
            None => r is None,
        }),
{
    let n = message.unicode_len();
    let mut whitespaces: usize = 0;
    let mut last_whitespace: usize = 0;
    let mut i: usize = 0;
    proof {
        assert(message@.subrange(0, 0) =~= Seq::<char>::empty());
    }
    while i < n
        invariant
            n == message@.len(),
            i <= n,
            whitespaces == count_spaces(message@.subrange(0, i as int)),
            whitespaces <= 2,
            whitespaces >= 1 ==> last_whitespace < i && nth_space(
                message@,
                (whitespaces - 1) as nat,
            ) == last_whitespace,
            whitespaces == 0 ==> last_whitespace == 0,
        decreases n - i,
    {
        let c = message.get_char(i);
        proof {
            assert(message@.subrange(0, i + 1).drop_last() =~= message@.subrange(0, i as int));
        }
        if c == ' ' {
            if whitespaces == 2 {
                proof {
                    lemma_nth_space_at(message@, 2, i as int);
                    lemma_count_spaces_prefix_le(message@, i + 1);
                }
                let sub = message.substring_char(last_whitespace + 1, i);
                if str_eq(sub, "AM") || str_eq(sub, "PM") {
                    let head = message.substring_char(0, i);
                    match parse_utc_millis(head, "%d/%m/%Y %I:%M:%S %P") {
                        Some(ms) => {
                            return Some((ms, i + 1));
                        },
                        None => {
                            return None;
                        },
                    }
                } else {
                    let head = message.substring_char(0, last_whitespace);
                    match parse_utc_millis(head, "%d/%m/%Y %H:%M:%S") {
                        Some(ms) => {
                            return Some((ms, last_whitespace + 1));
                        },
                        None => {
                            return None;
                        },
                    }
                }
            } else {
                proof {
                    lemma_nth_space_at(message@, whitespaces as nat, i as int);
                }
                last_whitespace = i;
                whitespaces += 1;
            }
        }
        i += 1;
    }
    proof {
        assert(message@.subrange(0, n as int) =~= message@);
    }
    None
}

} // verus!
