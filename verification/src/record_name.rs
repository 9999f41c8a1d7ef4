//! Decoding of the length-prefixed record-name notation: each label is
//! preceded by its decimal length in parentheses and the name is closed by a
//! zero-length root marker, as in `(12)somecomputer(6)domain(3)com(0)`.
//!
//! The decoder is a two-state scan — literal text, or inside a length
//! marker. An opening parenthesis enters the marker state and clears the
//! digit buffer, a closing one leaves the marker; characters inside a
//! marker accumulate in the buffer, and on leaving a marker a separator
//! dot is appended exactly when the buffer differs from `0` and some text
//! was already emitted — so the zero-length root marker never introduces a
//! separator. Stray parentheses are never rejected; they simply toggle the
//! state.

use vstd::prelude::*;

verus! {

/// Relies on std's `String::push`: appends the given character to the end
/// of the string.
pub assume_specification[ String::push ](s: &mut String, ch: char)
    ensures
        final(s)@ == old(s)@.push(ch),
;

/// State of the record-name scan: whether the scan stands inside a length
/// marker, the accumulated digit buffer, and the name emitted so far.
pub struct NameDecodeState {
    pub inside_marker: bool,
    pub digits: Seq<char>,
    pub name: Seq<char>,
}

/// The scan starts outside any marker, with the digit buffer primed to `0`
/// and nothing emitted.
pub open spec fn initial_decode_state() -> NameDecodeState {
    NameDecodeState { inside_marker: false, digits: seq!['0'], name: Seq::empty() }
}

/// The transition table of the scan, for one character.
pub open spec fn decode_step(st: NameDecodeState, c: char) -> NameDecodeState {
    if c == '(' {
        NameDecodeState { inside_marker: true, digits: Seq::empty(), name: st.name }
    } else if c == ')' {
        if st.digits != seq!['0'] && st.name.len() > 0 {
            NameDecodeState {
                inside_marker: false,
                digits: Seq::empty(),
                name: st.name.push('.'),
            }
        } else {
            NameDecodeState { inside_marker: false, digits: st.digits, name: st.name }
        }
    } else if st.inside_marker {
        NameDecodeState { inside_marker: st.inside_marker, digits: st.digits.push(c), name: st.name }
    } else {
        NameDecodeState { inside_marker: st.inside_marker, digits: st.digits, name: st.name.push(c) }
    }
}

/// The state after running the scan over `s`, starting from `st`.
pub open spec fn decode_run(st: NameDecodeState, s: Seq<char>) -> NameDecodeState
    decreases s.len(),
{
    if s.len() == 0 {
        st
    } else {
        decode_step(decode_run(st, s.drop_last()), s.last())
    }
}

/// The name that the scan of `s` emits, from the initial state.
pub open spec fn decoded_name(s: Seq<char>) -> Seq<char> {
    decode_run(initial_decode_state(), s).name
}

/// Decodes a length-prefixed record-name segment into the dot-separated
/// domain name.
pub fn parse_record_name(record: &str) -> (r: String)
    ensures
        r@ == decoded_name(record@),
{
    let n = record.unicode_len();
    let mut is_counter = false;
    let mut ret = String::new();
    let mut to_check: Vec<char> = Vec::new();
    to_check.push('0');
    let mut i: usize = 0;
    proof {
        assert(record@.subrange(0, 0) =~= Seq::<char>::empty());
        assert(to_check@ =~= seq!['0']);
    }
    while i < n
        invariant
            n == record@.len(),
            i <= n,
            is_counter == decode_run(
                initial_decode_state(),
                record@.subrange(0, i as int),
            ).inside_marker,
            to_check@ == decode_run(initial_decode_state(), record@.subrange(0, i as int)).digits,
            ret@ == decode_run(initial_decode_state(), record@.subrange(0, i as int)).name,
        decreases n - i,
    {
        let c = record.get_char(i);
        proof {
            assert(record@.subrange(0, i + 1).drop_last() =~= record@.subrange(0, i as int));
        }
        if c == '(' {
            is_counter = true;
            to_check = Vec::new();
        } else if c == ')' {
            is_counter = false;
            let is_zero = to_check.len() == 1 && to_check[0] == '0';
            proof {
                if is_zero {
                    assert(to_check@ =~= seq!['0']);
                }
            }
            if !is_zero && !ret.as_str().is_empty() {
                ret.push('.');
                to_check = Vec::new();
            }
        } else if !is_counter {
            ret.push(c);
        } else {
            to_check.push(c);
        }
        i += 1;
    }
    proof {
        assert(record@.subrange(0, n as int) =~= record@);
    }
    ret
}

/// Running the scan over a concatenation is running it over the parts in
/// turn.
pub proof fn lemma_decode_run_concat(st: NameDecodeState, a: Seq<char>, b: Seq<char>)
    ensures
        decode_run(st, a + b) == decode_run(decode_run(st, a), b),
    decreases b.len(),
{
    if b.len() == 0 {
        assert(a + b =~= a);
    } else {
        assert((a + b).drop_last() =~= a + b.drop_last());
        lemma_decode_run_concat(st, a, b.drop_last());
        assert((a + b).last() == b.last());
    }
}

/// Running the scan over a single character is one transition.
proof fn lemma_decode_run_one(st: NameDecodeState, c: char)
    ensures
        decode_run(st, seq![c]) == decode_step(st, c),
{
    assert(seq![c].len() == 1);
    assert(seq![c].drop_last() =~= Seq::<char>::empty());
    assert(decode_run(st, seq![c].drop_last()) == st);
    assert(seq![c].last() == c);
}

/// Outside a marker, a run of text without parentheses is emitted verbatim.
proof fn lemma_decode_literal(st: NameDecodeState, l: Seq<char>)
    requires
        !st.inside_marker,
        forall|j: int| 0 <= j < l.len() ==> l[j] != '(' && l[j] != ')',
    ensures
        decode_run(st, l) == (NameDecodeState {
            inside_marker: false,
            digits: st.digits,
            name: st.name + l,
        }),
    decreases l.len(),
{
    if l.len() == 0 {
        assert(st.name + l =~= st.name);
    } else {
        lemma_decode_literal(st, l.drop_last());
        assert((st.name + l.drop_last()).push(l.last()) =~= st.name + l);
    }
}

/// Inside a marker, a run of text without parentheses accumulates in the
/// digit buffer.
proof fn lemma_decode_marker_text(st: NameDecodeState, d: Seq<char>)
    requires
        st.inside_marker,
        forall|j: int| 0 <= j < d.len() ==> d[j] != '(' && d[j] != ')',
    ensures
        decode_run(st, d) == (NameDecodeState {
            inside_marker: true,
            digits: st.digits + d,
            name: st.name,
        }),
    decreases d.len(),
{
    if d.len() == 0 {
        assert(st.digits + d =~= st.digits);
    } else {
        lemma_decode_marker_text(st, d.drop_last());
        assert((st.digits + d.drop_last()).push(d.last()) =~= st.digits + d);
    }
}

/// The decimal digit for a value below ten.
pub open spec fn digit_char(d: nat) -> char {
    if d == 0 {
        '0'
    } else if d == 1 {
        '1'
    } else if d == 2 {
        '2'
    } else if d == 3 {
        '3'
    } else if d == 4 {
        '4'
    } else if d == 5 {
        '5'
    } else if d == 6 {
        '6'
    } else if d == 7 {
        '7'
    } else if d == 8 {
        '8'
    } else {
        '9'
    }
}

/// The decimal digit sequence of `n`, most significant digit first.
pub open spec fn dec_digits(n: nat) -> Seq<char>
    decreases n,
{
    if n < 10 {
        seq![digit_char(n)]
    } else {
        dec_digits(n / 10).push(digit_char(n % 10))
    }
}

/// Decimal digit sequences are non-empty, hold no parenthesis, and differ
/// from `0` for every positive value.
proof fn lemma_dec_digits_wf(n: nat)
    ensures
        dec_digits(n).len() >= 1,
        forall|j: int|
            0 <= j < dec_digits(n).len() ==> dec_digits(n)[j] != '(' && dec_digits(n)[j] != ')',
        n >= 1 ==> dec_digits(n) != seq!['0'],
    decreases n,
{
    if n < 10 {
        if n >= 1 && dec_digits(n) == seq!['0'] {
            assert(dec_digits(n)[0] == digit_char(n));
        }
    } else {
        lemma_dec_digits_wf(n / 10);
    }
}

/// The encoding of a label list: each label preceded by its parenthesized
/// decimal length, closed by the zero-length root marker.
pub open spec fn encode_labels(ls: Seq<Seq<char>>) -> Seq<char>
    decreases ls.len(),
{
    if ls.len() == 0 {
        seq!['(', '0', ')']
    } else {
        seq!['('] + dec_digits(ls[0].len()) + seq![')'] + ls[0] + encode_labels(ls.drop_first())
    }
}

/// The labels joined by single dots, with no leading or trailing dot.
pub open spec fn dot_join(ls: Seq<Seq<char>>) -> Seq<char>
    decreases ls.len(),
{
    if ls.len() == 0 {
        Seq::empty()
    } else if ls.len() == 1 {
        ls[0]
    } else {
        ls[0] + seq!['.'] + dot_join(ls.drop_first())
    }
}

/// Labels fit for the encoding: non-empty and free of parentheses.
pub open spec fn labels_wf(ls: Seq<Seq<char>>) -> bool {
    forall|k: int|
        0 <= k < ls.len() ==> ls[k].len() > 0 && forall|j: int|
            0 <= j < ls[k].len() ==> ls[k][j] != '(' && ls[k][j] != ')'
}

/// One encoded label moves the scan from a resting state to a resting
/// state: when text was already emitted, a single dot and the label are
/// appended and the digit buffer is cleared; before any text, the label
/// alone is appended and the buffer holds the length digits.
proof fn lemma_decode_one_label(st: NameDecodeState, l: Seq<char>)
    requires
        !st.inside_marker,
        l.len() > 0,
        forall|j: int| 0 <= j < l.len() ==> l[j] != '(' && l[j] != ')',
    ensures
        decode_run(st, seq!['('] + dec_digits(l.len()) + seq![')'] + l) == (if st.name.len() > 0 {
            NameDecodeState {
                inside_marker: false,
                digits: Seq::empty(),
                name: st.name + seq!['.'] + l,
            }
        } else {
            NameDecodeState {
                inside_marker: false,
                digits: dec_digits(l.len()),
                name: st.name + l,
            }
        }),
{
    let d = dec_digits(l.len());
    lemma_dec_digits_wf(l.len());
    let s1 = seq!['('];
    let s2 = s1 + d;
    let s3 = s2 + seq![')'];
    let enc = s3 + l;
    lemma_decode_run_concat(st, s3, l);
    lemma_decode_run_concat(st, s2, seq![')']);
    lemma_decode_run_concat(st, s1, d);
    lemma_decode_run_one(st, '(');
    let st1 = decode_step(st, '(');
    lemma_decode_marker_text(st1, d);
    let st2 = decode_run(st1, d);
    lemma_decode_run_one(st2, ')');
    let st3 = decode_step(st2, ')');
    // After entering the marker the buffer holds exactly the length
    // digits, which for a positive length are never "0".
    assert(st2.digits =~= d);
    if st.name.len() > 0 {
        lemma_decode_literal(st3, l);
        assert(st.name.push('.') + l =~= st.name + seq!['.'] + l);
    } else {
        lemma_decode_literal(st3, l);
    }
}

/// From a resting state with text already emitted, the remaining encoded
/// labels append a dot-prefixed dot-join of themselves, and the closing
/// root marker appends nothing.
proof fn lemma_decode_labels(st: NameDecodeState, ls: Seq<Seq<char>>)
    requires
        !st.inside_marker,
        st.name.len() > 0,
        labels_wf(ls),
    ensures
        decode_run(st, encode_labels(ls)).name == st.name + (if ls.len() == 0 {
            Seq::<char>::empty()
        } else {
            seq!['.'] + dot_join(ls)
        }),
    decreases ls.len(),
{
    if ls.len() == 0 {
        let s1 = seq!['('];
        let s2 = s1 + seq!['0'];
        lemma_decode_run_concat(st, s2, seq![')']);
        lemma_decode_run_concat(st, s1, seq!['0']);
        lemma_decode_run_one(st, '(');
        let st1 = decode_step(st, '(');
        lemma_decode_marker_text(st1, seq!['0']);
        let st2 = decode_run(st1, seq!['0']);
        lemma_decode_run_one(st2, ')');
        assert(Seq::<char>::empty() + seq!['0'] =~= seq!['0']);
        assert(s2 + seq![')'] =~= encode_labels(ls));
        assert(st.name + Seq::<char>::empty() =~= st.name);
    } else {
        let l = ls[0];
        let rest = ls.drop_first();
        let head = seq!['('] + dec_digits(l.len()) + seq![')'] + l;
        lemma_decode_run_concat(st, head, encode_labels(rest));
        lemma_decode_one_label(st, l);
        let st1 = decode_run(st, head);
        lemma_decode_labels(st1, rest);
        if rest.len() == 0 {
            assert(st.name + seq!['.'] + l =~= st.name + (seq!['.'] + dot_join(ls)));
        } else {
            assert(st.name + seq!['.'] + l + (seq!['.'] + dot_join(rest)) =~= st.name + (seq!['.']
                + dot_join(ls)));
        }
    }
}

/// Round trip of the record-name encoding: a list of parenthesis-free,
/// non-empty labels, encoded with their decimal lengths and closed by the
/// root marker, decodes back to the labels joined by single dots, and the
/// root marker introduces no leading or trailing separator.
pub proof fn lemma_record_name_round_trip(ls: Seq<Seq<char>>)
    requires
        labels_wf(ls),
    ensures
        decoded_name(encode_labels(ls)) == dot_join(ls),
{
    let init = initial_decode_state();
    if ls.len() == 0 {
        let s1 = seq!['('];
        let s2 = s1 + seq!['0'];
        lemma_decode_run_concat(init, s2, seq![')']);
        lemma_decode_run_concat(init, s1, seq!['0']);
        lemma_decode_run_one(init, '(');
        let st1 = decode_step(init, '(');
        lemma_decode_marker_text(st1, seq!['0']);
        let st2 = decode_run(st1, seq!['0']);
        lemma_decode_run_one(st2, ')');
        assert(s2 + seq![')'] =~= encode_labels(ls));
    } else {
        let l = ls[0];
        let rest = ls.drop_first();
        let head = seq!['('] + dec_digits(l.len()) + seq![')'] + l;
        lemma_decode_run_concat(init, head, encode_labels(rest));
        lemma_decode_one_label(init, l);
        let st1 = decode_run(init, head);
        assert(st1.name =~= l);
        lemma_decode_labels(st1, rest);
        if rest.len() == 0 {
            assert(l + Seq::<char>::empty() =~= dot_join(ls));
        } else {
            assert(l + (seq!['.'] + dot_join(rest)) =~= dot_join(ls));
        }
    }
}

} // verus!
