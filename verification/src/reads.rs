//! Read descriptions and their compact string encoding.
//!
//! A run consists of ordered reads; each is a number of cycles plus a flag
//! telling whether the read is an index (barcode) read.  The encoding writes
//! each read as its cycle count followed by `B` (index) or `T` (template),
//! for example `76T8B8B76T`.

use vstd::prelude::*;
use crate::digits::{
    lemma_dec_value_nonneg, lemma_dec_value_prefix, lemma_run_len_bounds, lemma_run_len_char,
    lemma_run_len_concat, lemma_run_len_shift, lemma_udec_value, push_udec, spec_all_digits,
    spec_dec_value, spec_digit_run_len, spec_is_digit, spec_udec,
};

verus! {

/// One read of a run, as the manifests describe it.
#[derive(Clone, Copy, PartialEq, Eq, Structural, Debug)]
pub struct ReadDescription {
    /// One-based position of the read in the run.
    pub number: i32,
    /// How many chemistry cycles the read spans.
    pub num_cycles: i32,
    /// Whether the read is an index (barcode) read.
    pub is_index: bool,
}

/// What the encoding preserves of a read: its cycle count and index flag.
#[derive(Clone, Copy, PartialEq, Eq, Structural, Debug)]
pub struct ReadPair {
    /// How many chemistry cycles the read spans.
    pub num_cycles: i32,
    /// Whether the read is an index (barcode) read.
    pub is_index: bool,
}

/// Every read of the sequence has a non-negative cycle count.
pub open spec fn spec_reads_wf(reads: Seq<ReadDescription>) -> bool {
    forall|i: int| 0 <= i < reads.len() ==> (#[trigger] reads[i]).num_cycles >= 0
}

/// The token one read contributes to the encoding: its cycle count followed
/// by `B` or `T`.
pub open spec fn spec_read_token(r: ReadDescription) -> Seq<char> {
    spec_udec(r.num_cycles as nat) + seq![if r.is_index { 'B' } else { 'T' }]
}

/// The whole encoding: the reads' tokens in order.
pub open spec fn spec_description(reads: Seq<ReadDescription>) -> Seq<char>
    decreases reads.len(),
{
    if reads.len() == 0 {
        Seq::empty()
    } else {
        spec_read_token(reads[0]) + spec_description(reads.drop_first())
    }
}

/// Appending one read appends its token to the encoding.
pub proof fn lemma_description_push(reads: Seq<ReadDescription>, r: ReadDescription)
    ensures
        spec_description(reads.push(r)) == spec_description(reads) + spec_read_token(r),
    decreases reads.len(),
{
    if reads.len() == 0 {
        let p = reads.push(r);
        assert(p[0] == r);
        assert(p.drop_first() =~= Seq::<ReadDescription>::empty());
        assert(spec_description(Seq::<ReadDescription>::empty()) == Seq::<char>::empty());
        assert(spec_description(p) == spec_read_token(r) + spec_description(p.drop_first()));
        assert(spec_description(p) =~= spec_description(reads) + spec_read_token(r));
    } else {
        lemma_description_push(reads.drop_first(), r);
        assert(reads.push(r).drop_first() =~= reads.drop_first().push(r));
        assert(reads.push(r)[0] == reads[0]);
        assert(spec_description(reads.push(r)) =~= spec_description(reads) + spec_read_token(r));
    }
}

/// Encode the reads, in order, as `<cycles>B` / `<cycles>T` tokens.
pub fn string_description(read_descs: &Vec<ReadDescription>) -> (r: String)
    requires
        spec_reads_wf(read_descs@),
    ensures
        r@ == spec_description(read_descs@),
{
    let mut out = String::new();
    let mut i: usize = 0;
    while i < read_descs.len()
        invariant
            0 <= i <= read_descs.len(),
            spec_reads_wf(read_descs@),
            out@ == spec_description(read_descs@.take(i as int)),
        decreases read_descs.len() - i,
    {
        let rd = read_descs[i];
        push_udec(&mut out, rd.num_cycles as u32);
        if rd.is_index {
            proof {
                reveal_strlit("B");
            }
            out.append("B");
        } else {
            proof {
                reveal_strlit("T");
            }
            out.append("T");
        }
        proof {
            lemma_description_push(read_descs@.take(i as int), rd);
            assert(read_descs@.take(i + 1) =~= read_descs@.take(i as int).push(rd));
            if rd.is_index {
                assert("B"@ =~= seq!['B']);
            } else {
                assert("T"@ =~= seq!['T']);
            }
            assert(out@ =~= spec_description(read_descs@.take(i + 1)));
        }
        i += 1;
    }
    proof {
        assert(read_descs@.take(read_descs@.len() as int) =~= read_descs@);
    }
    out
}

/// Parse the encoding from position `i` on: a maximal digit run, then `B` or
/// `T`, repeated to the end of the string.  `None` when the text in front of
/// the cursor is not of that shape.
pub open spec fn spec_parse_from(s: Seq<char>, i: int) -> Option<Seq<(int, bool)>>
    decreases s.len() - i when 0 <= i <= s.len()
{
    if i == s.len() {
        Some(Seq::empty())
    } else {
        let k = i + spec_digit_run_len(s, i);
        if k == i || k >= s.len() {
            None
        } else if s[k] == 'B' || s[k] == 'T' {
            match spec_parse_from(s, k + 1) {
                None => None,
                Some(rest) => Some(seq![(spec_dec_value(s.subrange(i, k)), s[k] == 'B')] + rest),
            }
        } else {
            None
        }
    }
}

/// Parse a whole encoded description into `(num_cycles, is_index)` pairs.
pub open spec fn spec_parse_description(s: Seq<char>) -> Option<Seq<(int, bool)>> {
    spec_parse_from(s, 0)
}

/// Parsing after a prefix of the text sees only the suffix.
proof fn lemma_parse_from_shift(u: Seq<char>, v: Seq<char>, j: int)
    requires
        0 <= j <= v.len(),
    ensures
        spec_parse_from(u + v, u.len() + j) == spec_parse_from(v, j),
    decreases v.len() - j,
{
    let s = u + v;
    if j == v.len() {
    } else {
        lemma_run_len_shift(u, v, j);
        let run = spec_digit_run_len(v, j);
        let k = j + run;
        lemma_run_len_bounds(v, j);
        if run == 0 || k >= v.len() {
        } else {
            assert(s[u.len() + k] == v[k]);
            if v[k] == 'B' || v[k] == 'T' {
                lemma_parse_from_shift(u, v, k + 1);
                assert(s.subrange(u.len() + j, u.len() + k) =~= v.subrange(j, k));
            }
        }
    }
}

/// The pairs the encoding is meant to preserve.
pub open spec fn spec_read_pairs(reads: Seq<ReadDescription>) -> Seq<(int, bool)> {
    reads.map_values(|r: ReadDescription| (r.num_cycles as int, r.is_index))
}

/// Round trip: parsing the encoding of any well-formed read sequence gives
/// back exactly the `(num_cycles, is_index)` pairs that went in.
pub proof fn lemma_description_round_trip(reads: Seq<ReadDescription>)
    requires
        spec_reads_wf(reads),
    ensures
        spec_parse_description(spec_description(reads)) == Some(spec_read_pairs(reads)),
    decreases reads.len(),
{
    if reads.len() == 0 {
        assert(spec_parse_description(spec_description(reads)) == Some(Seq::<(int, bool)>::empty()));
        assert(spec_read_pairs(reads) =~= Seq::<(int, bool)>::empty());
    } else {
        let r0 = reads[0];
        let tail = reads.drop_first();
        assert(spec_reads_wf(tail)) by {
            assert(forall|m: int| 0 <= m < tail.len() ==> #[trigger] tail[m] == reads[m + 1]);
        }
        lemma_description_round_trip(tail);
        let num = spec_udec(r0.num_cycles as nat);
        let letter = if r0.is_index { 'B' } else { 'T' };
        let rest_desc = spec_description(tail);
        let s = spec_description(reads);
        lemma_udec_value(r0.num_cycles as nat);
        assert(s =~= num + (seq![letter] + rest_desc));
        lemma_run_len_concat(num, seq![letter] + rest_desc);
        assert((seq![letter] + rest_desc)[0] == letter);
        assert(spec_digit_run_len(seq![letter] + rest_desc, 0) == 0);
        let k = spec_digit_run_len(s, 0) as int;
        assert(k == num.len());
        assert(s[k] == letter) by {
            assert((num + (seq![letter] + rest_desc))[num.len() as int] == letter);
        }
        assert(k < s.len());
        let token = num + seq![letter];
        assert(s =~= token + rest_desc);
        lemma_parse_from_shift(token, rest_desc, 0);
        assert(token.len() == k + 1);
        assert(spec_parse_from(s, k + 1) == spec_parse_description(rest_desc));
        assert(s.subrange(0, k) =~= num);
        assert(spec_dec_value(s.subrange(0, k)) == r0.num_cycles as int);
        assert((s[k] == 'B') == r0.is_index);
        assert(spec_parse_description(s) == Some(
            seq![(r0.num_cycles as int, r0.is_index)] + spec_read_pairs(tail),
        ));
        assert(seq![(r0.num_cycles as int, r0.is_index)] + spec_read_pairs(tail)
            =~= spec_read_pairs(reads));
    }
}

/// Parse an encoded description back into its pairs.  `None` exactly when
/// the text is not a well-formed encoding or a cycle count does not fit.
pub fn parse_description(s: &str) -> (r: Option<Vec<ReadPair>>)
    ensures
        r matches Some(v) ==> spec_parse_description(s@) == Some(
            v@.map_values(|p: ReadPair| (p.num_cycles as int, p.is_index)),
        ),
        r is None ==> match spec_parse_description(s@) {
            None => true,
            Some(ps) => exists|t: int| 0 <= t < ps.len() && (#[trigger] ps[t]).0 > i32::MAX,
        },
{
    let n = s.unicode_len();
    let mut out: Vec<ReadPair> = Vec::new();
    let mut i: usize = 0;
    while i < n
        invariant
            0 <= i <= n,
            n == s@.len(),
            match spec_parse_from(s@, i as int) {
                None => spec_parse_description(s@) is None,
                Some(q) => spec_parse_description(s@) matches Some(ps)
                    && ps == out@.map_values(|p: ReadPair| (p.num_cycles as int, p.is_index)) + q
                    && out@.len() + q.len() == ps.len(),
            },
        decreases n - i,
    {
        // Scan the maximal digit run from `i`, accumulating its value.
        let ghost run = spec_digit_run_len(s@, i as int);
        let ghost k = i + run;
        proof {
            lemma_run_len_bounds(s@, i as int);
        }
        let mut j: usize = i;
        let mut acc: u64 = 0;
        let mut too_big = false;
        while j < n
            invariant_except_break
                i <= j <= n,
                n == s@.len(),
                spec_all_digits(s@.subrange(i as int, j as int)),
                !too_big ==> acc == spec_dec_value(s@.subrange(i as int, j as int))
                    && acc <= i32::MAX,
                too_big ==> spec_dec_value(s@.subrange(i as int, j as int)) > i32::MAX,
            ensures
                i <= j <= n,
                n == s@.len(),
                spec_all_digits(s@.subrange(i as int, j as int)),
                !too_big ==> acc == spec_dec_value(s@.subrange(i as int, j as int))
                    && acc <= i32::MAX,
                too_big ==> spec_dec_value(s@.subrange(i as int, j as int)) > i32::MAX,
                j == n || !spec_is_digit(s@[j as int]),
            decreases n - j,
        {
            let c = s.get_char(j);
            if c < '0' || c > '9' {
                break;
            }
            let d: u64 = c as u64 - 48;
            proof {
                assert(s@.subrange(i as int, j + 1).drop_last() =~= s@.subrange(
                    i as int,
                    j as int,
                ));
                assert(s@.subrange(i as int, j + 1).last() == s@[j as int]);
                if !too_big {
                    lemma_dec_value_nonneg(s@.subrange(i as int, j as int));
                }
            }
            if !too_big {
                let next: u64 = acc * 10 + d;
                if next > i32::MAX as u64 {
                    too_big = true;
                    proof {
                        lemma_dec_value_nonneg(s@.subrange(i as int, j as int));
                    }
                } else {
                    acc = next;
                }
            } else {
                proof {
                    lemma_dec_value_nonneg(s@.subrange(i as int, j as int));
                }
            }
            j += 1;
        }
        proof {
            assert forall|m: int| i <= m < j implies spec_is_digit(#[trigger] s@[m]) by {
                assert(s@[m] == s@.subrange(i as int, j as int)[m - (i as int)]);
            };
            lemma_run_len_char(s@, i as int, j as int);
            assert(k == j);
        }
        if j == i {
            // No digits in front of the cursor: not an encoding.
            return None;
        }
        if j == n {
            // Digits run to the end of the text: the letter is missing.
            return None;
        }
        let c = s.get_char(j);
        if c != 'B' && c != 'T' {
            return None;
        }
        if too_big {
            proof {
                if spec_parse_from(s@, i as int) matches Some(q) {
                    lemma_dec_value_prefix(
                        s@.subrange(i as int, k as int),
                        j - i,
                    );
                    assert(s@.subrange(i as int, k as int).take(j - i) =~= s@.subrange(
                        i as int,
                        j as int,
                    ));
                    let ghost ps = spec_parse_description(s@).unwrap();
                    assert(ps[out@.len() as int].0 > i32::MAX);
                }
            }
            return None;
        }
        let pair = ReadPair { num_cycles: acc as i32, is_index: c == 'B' };
        proof {
            let ghost old_map = out@.map_values(|p: ReadPair| (p.num_cycles as int, p.is_index));
            assert(out@.push(pair).map_values(|p: ReadPair| (p.num_cycles as int, p.is_index))
                =~= old_map + seq![(pair.num_cycles as int, pair.is_index)]);
            if let Some(q2) = spec_parse_from(s@, k + 1) {
                assert(old_map + (seq![(spec_dec_value(s@.subrange(i as int, k as int)), s@[
                    k as int] == 'B')] + q2) =~= (old_map + seq![(pair.num_cycles as int,
                    pair.is_index)]) + q2);
            }
        }
        out.push(pair);
        i = j + 1;
    }
    proof {
        assert(spec_parse_from(s@, n as int) == Some(Seq::<(int, bool)>::empty()));
        assert(out@.map_values(|p: ReadPair| (p.num_cycles as int, p.is_index))
            + Seq::<(int, bool)>::empty() =~= out@.map_values(
            |p: ReadPair| (p.num_cycles as int, p.is_index),
        ));
    }
    Some(out)
}

} // verus!
