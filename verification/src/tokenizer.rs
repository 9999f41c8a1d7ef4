//! Whitespace tokenizer for one segment of a trace line.
//!
//! A segment is cut into maximal runs of non-space characters; runs of
//! spaces act as a single delimiter and never produce empty tokens, except
//! that one final token is always appended for the text after the last
//! space, and that token is empty exactly when the segment is empty or ends
//! in a space. Callers that index fixed positions ignore that final empty
//! token.

use vstd::prelude::*;

use crate::text::first_index_of;
use crate::text::lemma_first_index_at;

verus! {

/// Index of the first space character of `s`, or `s.len()` when `s` has
/// none.
pub open spec fn first_space(s: Seq<char>) -> nat {
    first_index_of(s, ' ')
}

/// The token sequence of a segment: every maximal non-empty run of
/// non-space characters, in order of appearance, followed by one token for
/// the text after the last space (empty when the segment is empty or ends
/// in a space).
pub open spec fn fields_of(s: Seq<char>) -> Seq<Seq<char>>
    decreases s.len(),
{
    let i = first_space(s);
    if i >= s.len() {
        seq![s]
    } else if i == 0 {
        fields_of(s.subrange(1, s.len() as int))
    } else {
        seq![s.subrange(0, i as int)] + fields_of(s.subrange(i as int + 1, s.len() as int))
    }
}

/// One or more tokens joined back into a segment by single spaces.
pub open spec fn join_tokens(ts: Seq<Seq<char>>) -> Seq<char>
    decreases ts.len(),
{
    if ts.len() == 0 {
        Seq::empty()
    } else if ts.len() == 1 {
        ts[0]
    } else {
        ts[0] + seq![' '] + join_tokens(ts.drop_first())
    }
}

/// Tokenization is idempotent: a whitespace-normalized segment — one or
/// more non-empty, space-free tokens joined by single spaces — tokenizes
/// back to exactly those tokens.
pub proof fn lemma_tokenize_idempotent(ts: Seq<Seq<char>>)
    requires
        ts.len() > 0,
        forall|k: int| 0 <= k < ts.len() ==> ts[k].len() > 0,
        forall|k: int, j: int| 0 <= k < ts.len() && 0 <= j < ts[k].len() ==> ts[k][j] != ' ',
    ensures
        fields_of(join_tokens(ts)) == ts,
    decreases ts.len(),
{
    let w = join_tokens(ts);
    if ts.len() == 1 {
        assert(forall|j: int| 0 <= j < w.len() ==> w[j] == ts[0][j] && w[j] != ' ');
        lemma_first_index_at(w, ' ', w.len() as int);
        assert(fields_of(w) =~= ts);
    } else {
        let t0 = ts[0];
        let rest = ts.drop_first();
        let rj = join_tokens(rest);
        assert(forall|j: int| 0 <= j < t0.len() ==> w[j] == t0[j] && w[j] != ' ');
        assert(w[t0.len() as int] == ' ');
        lemma_first_index_at(w, ' ', t0.len() as int);
        assert(w.subrange(0, t0.len() as int) =~= t0);
        assert(w.subrange(t0.len() as int + 1, w.len() as int) =~= rj);
        lemma_tokenize_idempotent(rest);
        assert(seq![t0] + rest =~= ts);
    }
}

/// Splits a text segment into whitespace-delimited tokens, returned as
/// views into the segment. Runs of spaces collapse into one delimiter; a
/// final token for the text after the last space is always present and is
/// empty exactly when the segment is empty or ends in a space.
pub fn extract_fields<'a>(message: &'a str) -> (r: Vec<&'a str>)
    ensures
        r.deep_view() == fields_of(message@),
{
    let n = message.unicode_len();
    let mut field_map: Vec<&'a str> = Vec::new();
    let mut start_field: usize = 0;
    let mut i: usize = 0;
    proof {
        assert(message@.subrange(0, n as int) =~= message@);
        assert(field_map.deep_view() + fields_of(message@) =~= fields_of(message@));
    }
    while i < n
        invariant
            n == message@.len(),
            0 <= start_field <= i <= n,
            forall|j: int| start_field <= j < i ==> message@[j] != ' ',
            fields_of(message@) == field_map.deep_view() + fields_of(
                message@.subrange(start_field as int, n as int),
            ),
        decreases n - i,
    {
        let c = message.get_char(i);
        if c == ' ' {
            let ghost u = message@.subrange(start_field as int, n as int);
            let ghost rest = message@.subrange(i + 1, n as int);
            if start_field < i {
                let tok = message.substring_char(start_field, i);
                let ghost pre = field_map.deep_view();
                proof {
                    lemma_first_index_at(u, ' ', i - start_field);
                    assert(u.subrange(0, i - start_field) =~= tok@);
                    assert(u.subrange(i - start_field + 1, u.len() as int) =~= rest);
                    assert(fields_of(u) == seq![tok@] + fields_of(rest));
                }
                field_map.push(tok);
                proof {
                    assert(field_map.deep_view() =~= pre + seq![tok@]);
                    assert((pre + seq![tok@]) + fields_of(rest) =~= pre + (seq![tok@] + fields_of(
                        rest,
                    )));
                }
            } else {
                proof {
                    lemma_first_index_at(u, ' ', 0);
                    assert(u.subrange(1, u.len() as int) =~= rest);
                }
            }
            start_field = i + 1;
        }
        i += 1;
    }
    let tok = message.substring_char(start_field, n);
    let ghost pre = field_map.deep_view();
    proof {
        let u = message@.subrange(start_field as int, n as int);
        lemma_first_index_at(u, ' ', n - start_field);
    }
    field_map.push(tok);
    proof {
        assert(field_map.deep_view() =~= pre + seq![tok@]);
    }
    field_map
}

} // verus!
