//! Character-sequence utilities shared by the path and call modules:
//! truncation at an embedded terminator, separator splitting and joining,
//! and decimal rendering of integers.

use vstd::prelude::*;

verus! {

/// The input truncated at its first NUL character, if any.
pub open spec fn trunc_nul(s: Seq<char>) -> Seq<char>
    decreases s.len(),
{
    if s.len() == 0 {
        Seq::empty()
    } else if s[0] == '\0' {
        Seq::empty()
    } else {
        seq![s[0]] + trunc_nul(s.subrange(1, s.len() as int))
    }
}

pub proof fn lemma_trunc_nul_no_nul(s: Seq<char>)
    ensures
        forall|k: int| 0 <= k < trunc_nul(s).len() ==> trunc_nul(s)[k] != '\0',
        trunc_nul(s).len() <= s.len(),
    decreases s.len(),
{
    if s.len() > 0 && s[0] != '\0' {
        lemma_trunc_nul_no_nul(s.subrange(1, s.len() as int));
    }
}

/// If no character before `i` is NUL, and `i` is the length or a NUL position,
/// then truncation keeps exactly the first `i` characters.
pub proof fn lemma_trunc_nul_at(s: Seq<char>, i: int)
    requires
        0 <= i <= s.len(),
        forall|k: int| 0 <= k < i ==> s[k] != '\0',
        i < s.len() ==> s[i] == '\0',
    ensures
        trunc_nul(s) == s.subrange(0, i),
    decreases s.len(),
{
    if s.len() == 0 {
        assert(trunc_nul(s) =~= s.subrange(0, i));
    } else if i == 0 {
        assert(trunc_nul(s) =~= s.subrange(0, 0));
    } else {
        let t = s.subrange(1, s.len() as int);
        lemma_trunc_nul_at(t, i - 1);
        assert(t.subrange(0, i - 1) =~= s.subrange(1, i));
        assert(trunc_nul(s) =~= s.subrange(0, i));
    }
}

/// Splitting at every occurrence of `sep`, dropping empty segments;
/// `cur` is the segment accumulated so far.
pub open spec fn split_acc(s: Seq<char>, sep: char, cur: Seq<char>) -> Seq<Seq<char>>
    decreases s.len(),
{
    if s.len() == 0 {
        if cur.len() > 0 {
            seq![cur]
        } else {
            Seq::empty()
        }
    } else if s[0] == sep {
        let done = if cur.len() > 0 {
            seq![cur]
        } else {
            Seq::<Seq<char>>::empty()
        };
        done + split_acc(s.subrange(1, s.len() as int), sep, Seq::empty())
    } else {
        split_acc(s.subrange(1, s.len() as int), sep, cur.push(s[0]))
    }
}

/// The non-empty segments of `s`, in order, split at `sep`.
pub open spec fn split_ne(s: Seq<char>, sep: char) -> Seq<Seq<char>> {
    split_acc(s, sep, Seq::empty())
}

pub proof fn lemma_split_acc_bound(s: Seq<char>, sep: char, cur: Seq<char>)
    ensures
        split_acc(s, sep, cur).len() <= s.len() + if cur.len() > 0 { 1int } else { 0int },
    decreases s.len(),
{
    if s.len() > 0 {
        if s[0] == sep {
            lemma_split_acc_bound(s.subrange(1, s.len() as int), sep, Seq::empty());
        } else {
            lemma_split_acc_bound(s.subrange(1, s.len() as int), sep, cur.push(s[0]));
        }
    }
}

/// A well-formed segment: non-empty, free of the separator and of the two
/// excluded characters.
pub open spec fn seg_ok(seg: Seq<char>, sep: char, c1: char, c2: char) -> bool {
    seg.len() > 0 && (forall|k: int|
        0 <= k < seg.len() ==> seg[k] != sep && seg[k] != c1 && seg[k] != c2)
}

/// Every segment the split yields is non-empty and free of the separator,
/// and is free of any characters that neither `s` nor `cur` holds.
pub proof fn lemma_split_acc_segments(s: Seq<char>, sep: char, cur: Seq<char>, c1: char, c2: char)
    requires
        forall|k: int| 0 <= k < cur.len() ==> cur[k] != sep && cur[k] != c1 && cur[k] != c2,
        forall|k: int| 0 <= k < s.len() ==> s[k] != c1 && s[k] != c2,
    ensures
        forall|j: int|
            0 <= j < split_acc(s, sep, cur).len() ==> seg_ok(
                #[trigger] split_acc(s, sep, cur)[j],
                sep,
                c1,
                c2,
            ),
    decreases s.len(),
{
    if s.len() == 0 {
        if cur.len() > 0 {
            assert(split_acc(s, sep, cur)[0] == cur);
        }
    } else if s[0] == sep {
        let t = s.subrange(1, s.len() as int);
        lemma_split_acc_segments(t, sep, Seq::empty(), c1, c2);
        let done = if cur.len() > 0 {
            seq![cur]
        } else {
            Seq::<Seq<char>>::empty()
        };
        assert forall|j: int| 0 <= j < split_acc(s, sep, cur).len() implies seg_ok(
            split_acc(s, sep, cur)[j],
            sep,
            c1,
            c2,
        ) by {
            if j < done.len() {
                assert(split_acc(s, sep, cur)[j] == cur);
            } else {
                assert(split_acc(s, sep, cur)[j] == split_acc(t, sep, Seq::<char>::empty())[j
                    - done.len()]);
            }
        }
    } else {
        let t = s.subrange(1, s.len() as int);
        assert(s[0] != c1 && s[0] != c2);
        assert(forall|k: int| 0 <= k < t.len() ==> t[k] != c1 && t[k] != c2);
        lemma_split_acc_segments(t, sep, cur.push(s[0]), c1, c2);
        assert(split_acc(s, sep, cur) == split_acc(t, sep, cur.push(s[0])));
    }
}

/// Consuming a separator-free block accumulates it onto `cur` unchanged.
pub proof fn lemma_split_acc_prefix(seg: Seq<char>, s: Seq<char>, sep: char, cur: Seq<char>)
    requires
        forall|k: int| 0 <= k < seg.len() ==> seg[k] != sep,
    ensures
        split_acc(seg + s, sep, cur) == split_acc(s, sep, cur + seg),
    decreases seg.len(),
{
    if seg.len() == 0 {
        assert(seg + s =~= s);
        assert(cur + seg =~= cur);
    } else {
        let t = seg + s;
        assert(t[0] == seg[0]);
        let segr = seg.subrange(1, seg.len() as int);
        assert(t.subrange(1, t.len() as int) =~= segr + s);
        lemma_split_acc_prefix(segr, s, sep, cur.push(seg[0]));
        assert(cur.push(seg[0]) + segr =~= cur + seg);
    }
}

/// All segments are non-empty and free of the separator.
pub open spec fn segs_ok(segs: Seq<Seq<char>>, sep: char) -> bool {
    forall|j: int|
        0 <= j < segs.len() ==> (#[trigger] segs[j]).len() > 0 && (forall|k: int|
            0 <= k < segs[j].len() ==> segs[j][k] != sep)
}

/// Splitting a join of well-formed segments yields the segments back.
pub proof fn lemma_split_join(segs: Seq<Seq<char>>, sep: char)
    requires
        segs_ok(segs, sep),
    ensures
        split_ne(join_sep(segs, sep), sep) == segs,
    decreases segs.len(),
{
    if segs.len() == 0 {
        assert(split_ne(join_sep(segs, sep), sep) =~= segs);
    } else if segs.len() == 1 {
        lemma_split_acc_prefix(segs[0], Seq::empty(), sep, Seq::empty());
        assert(segs[0] + Seq::<char>::empty() =~= segs[0]);
        assert(Seq::<char>::empty() + segs[0] =~= segs[0]);
        assert(split_ne(join_sep(segs, sep), sep) =~= segs);
    } else {
        let rest = segs.subrange(1, segs.len() as int);
        let jr = join_sep(rest, sep);
        let t = seq![sep] + jr;
        assert(join_sep(segs, sep) == segs[0] + seq![sep] + jr);
        assert(segs[0] + seq![sep] + jr =~= segs[0] + t);
        lemma_split_acc_prefix(segs[0], t, sep, Seq::empty());
        assert(Seq::<char>::empty() + segs[0] =~= segs[0]);
        assert(t[0] == sep);
        assert(t.subrange(1, t.len() as int) =~= jr);
        assert(forall|j: int| 0 <= j < rest.len() ==> rest[j] == segs[j + 1]);
        lemma_split_join(rest, sep);
        assert(split_ne(join_sep(segs, sep), sep) =~= seq![segs[0]] + rest);
        assert(seq![segs[0]] + rest =~= segs);
    }
}

/// No character of the join is one of the excluded characters, when no
/// segment holds one and the separator is not one.
pub proof fn lemma_join_chars(segs: Seq<Seq<char>>, sep: char, c1: char, c2: char)
    requires
        sep != c1,
        sep != c2,
        forall|j: int| 0 <= j < segs.len() ==> seg_ok(#[trigger] segs[j], sep, c1, c2),
    ensures
        forall|k: int|
            0 <= k < join_sep(segs, sep).len() ==> join_sep(segs, sep)[k] != c1 && join_sep(
                segs,
                sep,
            )[k] != c2,
    decreases segs.len(),
{
    if segs.len() <= 1 {
    } else {
        let rest = segs.subrange(1, segs.len() as int);
        lemma_join_chars(rest, sep, c1, c2);
        let j0 = segs[0];
        let jr = join_sep(rest, sep);
        assert forall|k: int| 0 <= k < join_sep(segs, sep).len() implies join_sep(segs, sep)[k]
            != c1 && join_sep(segs, sep)[k] != c2 by {
            if k < j0.len() {
                assert(join_sep(segs, sep)[k] == j0[k]);
            } else if k == j0.len() {
                assert(join_sep(segs, sep)[k] == sep);
            } else {
                assert(join_sep(segs, sep)[k] == jr[k - j0.len() - 1]);
            }
        }
    }
}

/// Appending one segment to a join adds a separator and the segment.
pub proof fn lemma_join_push(segs: Seq<Seq<char>>, sep: char, seg: Seq<char>)
    ensures
        segs.len() == 0 ==> join_sep(segs.push(seg), sep) == seg,
        segs.len() > 0 ==> join_sep(segs.push(seg), sep) == join_sep(segs, sep) + seq![sep] + seg,
    decreases segs.len(),
{
    if segs.len() == 0 {
        assert(join_sep(segs.push(seg), sep) == segs.push(seg)[0]);
    } else if segs.len() == 1 {
        let p = segs.push(seg);
        assert(p.subrange(1, p.len() as int) =~= seq![seg]);
        assert(join_sep(p, sep) == p[0] + seq![sep] + join_sep(seq![seg], sep));
        assert(join_sep(segs, sep) == segs[0]);
        assert(p[0] == segs[0]);
    } else {
        let rest = segs.subrange(1, segs.len() as int);
        lemma_join_push(rest, sep, seg);
        let p = segs.push(seg);
        assert(p.subrange(1, p.len() as int) =~= rest.push(seg));
        assert(join_sep(p, sep) == p[0] + seq![sep] + join_sep(rest.push(seg), sep));
        assert(p[0] == segs[0]);
        assert(segs[0] + seq![sep] + (join_sep(rest, sep) + seq![sep] + seg) =~= (segs[0]
            + seq![sep] + join_sep(rest, sep)) + seq![sep] + seg);
    }
}

/// The prefix before `c` never holds `c`, holds no character `s` lacks, and
/// is no longer than `s`.
pub proof fn lemma_prefix_chars(s: Seq<char>, c: char, d: char)
    requires
        forall|k: int| 0 <= k < s.len() ==> s[k] != d,
    ensures
        forall|k: int|
            0 <= k < prefix_before(s, c).len() ==> prefix_before(s, c)[k] != c && prefix_before(
                s,
                c,
            )[k] != d,
        prefix_before(s, c).len() <= s.len(),
    decreases s.len(),
{
    if s.len() > 0 && s[0] != c {
        lemma_prefix_chars(s.subrange(1, s.len() as int), c, d);
    }
}

/// The suffix after `c` holds no character `s` lacks, and is shorter than
/// `s` when `s` is non-empty.
pub proof fn lemma_suffix_chars(s: Seq<char>, c: char, d: char)
    requires
        forall|k: int| 0 <= k < s.len() ==> s[k] != d,
    ensures
        forall|k: int| 0 <= k < suffix_after(s, c).len() ==> suffix_after(s, c)[k] != d,
        suffix_after(s, c).len() <= s.len(),
    decreases s.len(),
{
    if s.len() > 0 && s[0] != c {
        lemma_suffix_chars(s.subrange(1, s.len() as int), c, d);
    }
}

/// Segments joined with a single separator between consecutive segments.
pub open spec fn join_sep(segs: Seq<Seq<char>>, sep: char) -> Seq<char>
    decreases segs.len(),
{
    if segs.len() == 0 {
        Seq::empty()
    } else if segs.len() == 1 {
        segs[0]
    } else {
        segs[0] + seq![sep] + join_sep(segs.subrange(1, segs.len() as int), sep)
    }
}

/// Pieces joined with a separator sequence between consecutive pieces.
pub open spec fn join_strs(segs: Seq<Seq<char>>, sep: Seq<char>) -> Seq<char>
    decreases segs.len(),
{
    if segs.len() == 0 {
        Seq::empty()
    } else if segs.len() == 1 {
        segs[0]
    } else {
        segs[0] + sep + join_strs(segs.subrange(1, segs.len() as int), sep)
    }
}

/// Appending one piece to a join adds a separator and the piece.
pub proof fn lemma_join_strs_push(segs: Seq<Seq<char>>, sep: Seq<char>, seg: Seq<char>)
    ensures
        segs.len() == 0 ==> join_strs(segs.push(seg), sep) == seg,
        segs.len() > 0 ==> join_strs(segs.push(seg), sep) == join_strs(segs, sep) + sep + seg,
    decreases segs.len(),
{
    if segs.len() == 0 {
        assert(join_strs(segs.push(seg), sep) == segs.push(seg)[0]);
    } else if segs.len() == 1 {
        let p = segs.push(seg);
        assert(p.subrange(1, p.len() as int) =~= seq![seg]);
        assert(join_strs(p, sep) == p[0] + sep + join_strs(seq![seg], sep));
        assert(join_strs(segs, sep) == segs[0]);
        assert(p[0] == segs[0]);
    } else {
        let rest = segs.subrange(1, segs.len() as int);
        lemma_join_strs_push(rest, sep, seg);
        let p = segs.push(seg);
        assert(p.subrange(1, p.len() as int) =~= rest.push(seg));
        assert(join_strs(p, sep) == p[0] + sep + join_strs(rest.push(seg), sep));
        assert(p[0] == segs[0]);
        assert(segs[0] + sep + (join_strs(rest, sep) + sep + seg) =~= (segs[0] + sep + join_strs(
            rest,
            sep,
        )) + sep + seg);
    }
}

/// Prefix of `s` before its first occurrence of `c` (all of `s` if absent).
pub open spec fn prefix_before(s: Seq<char>, c: char) -> Seq<char>
    decreases s.len(),
{
    if s.len() == 0 {
        Seq::empty()
    } else if s[0] == c {
        Seq::empty()
    } else {
        seq![s[0]] + prefix_before(s.subrange(1, s.len() as int), c)
    }
}

/// Suffix of `s` after its first occurrence of `c` (empty if absent).
pub open spec fn suffix_after(s: Seq<char>, c: char) -> Seq<char>
    decreases s.len(),
{
    if s.len() == 0 {
        Seq::empty()
    } else if s[0] == c {
        s.subrange(1, s.len() as int)
    } else {
        suffix_after(s.subrange(1, s.len() as int), c)
    }
}

/// Characterizes `prefix_before` and `suffix_after` by the index of the
/// first occurrence of `c`.
pub proof fn lemma_prefix_suffix_at(s: Seq<char>, c: char, i: int)
    requires
        0 <= i <= s.len(),
        forall|k: int| 0 <= k < i ==> s[k] != c,
        i < s.len() ==> s[i] == c,
    ensures
        prefix_before(s, c) == s.subrange(0, i),
        i < s.len() ==> suffix_after(s, c) == s.subrange(i + 1, s.len() as int),
        i == s.len() ==> suffix_after(s, c) == Seq::<char>::empty(),
    decreases s.len(),
{
    if s.len() == 0 {
        assert(prefix_before(s, c) =~= s.subrange(0, i));
    } else if i == 0 {
        if s.len() > 0 && s[0] == c {
            assert(prefix_before(s, c) =~= s.subrange(0, 0));
        } else {
            assert(prefix_before(s, c) =~= s.subrange(0, 0));
        }
    } else {
        let t = s.subrange(1, s.len() as int);
        lemma_prefix_suffix_at(t, c, i - 1);
        assert(t.subrange(0, i - 1) =~= s.subrange(1, i));
        assert(prefix_before(s, c) =~= s.subrange(0, i));
        if i < s.len() {
            assert(t.subrange(i, t.len() as int) =~= s.subrange(i + 1, s.len() as int));
        }
    }
}

/// The digit character for one decimal digit.
pub open spec fn digit_char(d: int) -> char {
    if d == 0 { '0' }
    else if d == 1 { '1' }
    else if d == 2 { '2' }
    else if d == 3 { '3' }
    else if d == 4 { '4' }
    else if d == 5 { '5' }
    else if d == 6 { '6' }
    else if d == 7 { '7' }
    else if d == 8 { '8' }
    else { '9' }
}

/// Decimal rendering of a non-negative integer, most significant digit first.
pub open spec fn dec_rep(n: int) -> Seq<char>
    decreases n,
{
    if n < 10 {
        seq![digit_char(n)]
    } else {
        dec_rep(n / 10) + seq![digit_char(n % 10)]
    }
}

/// Decimal rendering of a signed integer.
pub open spec fn dec_rep_signed(n: int) -> Seq<char> {
    if n >= 0 {
        dec_rep(n)
    } else {
        seq!['-'] + dec_rep(-n)
    }
}

fn push_digit(d: u64, out: &mut String)
    requires
        d < 10,
    ensures
        final(out)@ == old(out)@ + seq![digit_char(d as int)],
{
    if d == 0 { out.append("0"); }
    else if d == 1 { out.append("1"); }
    else if d == 2 { out.append("2"); }
    else if d == 3 { out.append("3"); }
    else if d == 4 { out.append("4"); }
    else if d == 5 { out.append("5"); }
    else if d == 6 { out.append("6"); }
    else if d == 7 { out.append("7"); }
    else if d == 8 { out.append("8"); }
    else { out.append("9"); }
    proof {
        reveal_strlit("0");
        reveal_strlit("1");
        reveal_strlit("2");
        reveal_strlit("3");
        reveal_strlit("4");
        reveal_strlit("5");
        reveal_strlit("6");
        reveal_strlit("7");
        reveal_strlit("8");
        reveal_strlit("9");
        assert(out@ =~= old(out)@ + seq![digit_char(d as int)]);
    }
}

/// Appends the decimal form of `n` to `out`.
pub fn push_dec_u64(n: u64, out: &mut String)
    ensures
        final(out)@ == old(out)@ + dec_rep(n as int),
    decreases n,
{
    if n >= 10 {
        push_dec_u64(n / 10, out);
    }
    push_digit(n % 10, out);
    proof {
        assert(out@ =~= old(out)@ + dec_rep(n as int));
    }
}

/// Appends the decimal form of a signed integer to `out`.
pub fn push_dec_i64(n: i64, out: &mut String)
    ensures
        final(out)@ == old(out)@ + dec_rep_signed(n as int),
{
    if n < 0 {
        out.append("-");
        let mag: u64 = if n == i64::MIN {
            9223372036854775808u64
        } else {
            (-n) as u64
        };
        push_dec_u64(mag, out);
        proof {
            reveal_strlit("-");
            assert(out@ =~= old(out)@ + dec_rep_signed(n as int));
        }
    } else {
        push_dec_u64(n as u64, out);
    }
}

} // verus!
