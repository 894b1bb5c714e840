//! The format in which sequence pairs are kept in a file.
//!
//! A file of sequence pairs is a text of lines. Its lines come in pairs:
//! the first line of a pair is `>` followed by the first sequence, and the
//! second is `<` followed by the second sequence. A line that is left over
//! at the end is not looked at; the empty line after a last line end is
//! such a line.

use vstd::prelude::*;
use crate::seqs::lemma_take_push;

verus! {

/// The byte that ends a line.
pub const NEWLINE: u8 = 10;

/// The byte with which the first line of a pair starts: `>`.
pub const FIRST_MARKER: u8 = 62;

/// The byte with which the second line of a pair starts: `<`.
pub const SECOND_MARKER: u8 = 60;

/// The position of the first line end in `data`, or the length of `data`
/// if no line ends in it.
pub open spec fn first_newline(data: Seq<u8>) -> int
    decreases data.len(),
{
    if data.len() == 0 || data[0] == NEWLINE {
        0
    } else {
        1 + first_newline(data.drop_first())
    }
}

/// The lines of `data`: what stands between its line ends, before the
/// first and after the last of them.
pub open spec fn lines(data: Seq<u8>) -> Seq<Seq<u8>>
    decreases data.len(),
{
    let n = first_newline(data);
    if 0 <= n < data.len() {
        seq![data.take(n)] + lines(data.skip(n + 1))
    } else {
        seq![data]
    }
}

/// The byte with which line `k` starts if it is well formed.
pub open spec fn marker(k: int) -> u8 {
    if k % 2 == 0 {
        FIRST_MARKER
    } else {
        SECOND_MARKER
    }
}

/// Line `k` starts with its marker.
pub open spec fn line_ok(lines: Seq<Seq<u8>>, k: int) -> bool {
    lines[k].len() > 0 && lines[k][0] == marker(k)
}

/// The sequence pair that the lines `2 * j` and `2 * j + 1` hold.
pub open spec fn pair_at(lines: Seq<Seq<u8>>, j: int) -> (Seq<u8>, Seq<u8>) {
    (lines[2 * j].skip(1), lines[2 * j + 1].skip(1))
}

/// The sequences that pairs of byte vectors hold.
pub open spec fn pair_views(pairs: Seq<(Vec<u8>, Vec<u8>)>) -> Seq<(Seq<u8>, Seq<u8>)> {
    pairs.map_values(|p: (Vec<u8>, Vec<u8>)| (p.0@, p.1@))
}

/// A line of a pair that does not start with its marker.
#[derive(Clone, Copy, Debug, PartialEq, Eq, Structural)]
pub struct SeqFileError {
    /// The number of the line, counted from 0.
    pub line: usize,
}

/// Where the first line end is, given a position before which none is.
proof fn lemma_first_newline(data: Seq<u8>, k: int)
    requires
        0 <= k <= data.len(),
        forall|i: int| 0 <= i < k ==> data[i] != NEWLINE,
        k < data.len() ==> data[k] == NEWLINE,
    ensures
        first_newline(data) == k,
    decreases k,
{
    if k > 0 {
        let rest = data.drop_first();
        assert forall|i: int| 0 <= i < k - 1 implies rest[i] != NEWLINE by {
            assert(rest[i] == data[i + 1]);
        }
        lemma_first_newline(rest, k - 1);
    }
}

/// Where each line of `data` starts and ends.
fn split_lines(data: &[u8]) -> (ranges: Vec<(usize, usize)>)
    ensures
        ranges.len() == lines(data@).len(),
        forall|k: int|
            0 <= k < ranges.len() ==> {
                let (start, end) = #[trigger] ranges[k];
                start <= end <= data.len() && data@.subrange(start as int, end as int) == lines(
                    data@,
                )[k]
            },
{
    let mut ranges: Vec<(usize, usize)> = Vec::new();
    let mut start: usize = 0;
    let mut i: usize = 0;
    let ghost done: Seq<Seq<u8>> = Seq::empty();
    assert(data@.skip(0) == data@);
    while i < data.len()
        invariant
            start <= i <= data.len(),
            forall|j: int| start <= j < i ==> data[j] != NEWLINE,
            ranges.len() == done.len(),
            lines(data@) == done + lines(data@.skip(start as int)),
            forall|k: int|
                0 <= k < ranges.len() ==> {
                    let (s, e) = #[trigger] ranges[k];
                    s <= e <= data.len() && data@.subrange(s as int, e as int) == done[k]
                },
        decreases data.len() - i,
    {
        if data[i] == NEWLINE {
            proof {
                let rest = data@.skip(start as int);
                lemma_first_newline(rest, i - start);
                assert(rest.take(i - start) == data@.subrange(start as int, i as int));
                assert(rest.skip(i - start + 1) == data@.skip(i + 1));
                assert(done + (seq![rest.take(i - start)] + lines(data@.skip(i + 1))) =~= done.push(
                    rest.take(i - start),
                ) + lines(data@.skip(i + 1)));
                done = done.push(rest.take(i - start));
            }
            ranges.push((start, i));
            start = i + 1;
        }
        i = i + 1;
    }
    proof {
        let rest = data@.skip(start as int);
        lemma_first_newline(rest, data.len() - start);
        assert(rest == data@.subrange(start as int, data.len() as int));
        assert(done + seq![rest] =~= done.push(rest));
    }
    ranges.push((start, data.len()));
    ranges
}

/// Copies the bytes of `data` from `start` to `end`.
fn copy_range(data: &[u8], start: usize, end: usize) -> (r: Vec<u8>)
    requires
        start <= end <= data.len(),
    ensures
        r@ == data@.subrange(start as int, end as int),
{
    let mut r: Vec<u8> = Vec::new();
    let mut i: usize = start;
    while i < end
        invariant
            start <= i <= end <= data.len(),
            r@ == data@.subrange(start as int, i as int),
        decreases end - i,
    {
        r.push(data[i]);
        assert(data@.subrange(start as int, i + 1) =~= data@.subrange(start as int, i as int).push(
            data@[i as int],
        ));
        i = i + 1;
    }
    r
}

/// Reads the sequence pairs of a file.
///
/// The lines are taken two at a time, and each pair of lines gives a
/// sequence pair. The first line of a pair that does not start with its
/// marker is an error.
pub fn parse_seq_file(data: &[u8]) -> (r: Result<Vec<(Vec<u8>, Vec<u8>)>, SeqFileError>)
    ensures
        ({
            let lines = lines(data@);
            let count = lines.len() as int / 2;
            match r {
                Ok(pairs) => {
                    &&& forall|k: int| 0 <= k < 2 * count ==> line_ok(lines, k)
                    &&& pairs.len() == count
                    &&& forall|j: int|
                        0 <= j < count ==> #[trigger] pair_views(pairs@)[j] == pair_at(lines, j)
                },
                Err(e) => {
                    &&& e.line < 2 * count
                    &&& !line_ok(lines, e.line as int)
                    &&& forall|k: int| 0 <= k < e.line ==> line_ok(lines, k)
                },
            }
        }),
{
    let ranges = split_lines(data);
    let ghost lines = lines(data@);
    let count = ranges.len() / 2;
    let mut pairs: Vec<(Vec<u8>, Vec<u8>)> = Vec::new();
    let mut j: usize = 0;
    while j < count
        invariant
            j <= count,
            count == ranges.len() / 2,
            lines == crate::seq_file::lines(data@),
            ranges.len() == lines.len(),
            forall|k: int|
                0 <= k < ranges.len() ==> {
                    let (start, end) = #[trigger] ranges[k];
                    start <= end <= data.len() && data@.subrange(start as int, end as int)
                        == lines[k]
                },
            forall|k: int| 0 <= k < 2 * j ==> line_ok(lines, k),
            pairs.len() == j,
            forall|i: int| 0 <= i < j ==> #[trigger] pair_views(pairs@)[i] == pair_at(lines, i),
        decreases count - j,
    {
        let (a_start, a_end) = ranges[2 * j];
        let (b_start, b_end) = ranges[2 * j + 1];
        proof {
            assert(data@.subrange(a_start as int, a_end as int) == lines[2 * j]);
            assert(data@.subrange(b_start as int, b_end as int) == lines[2 * j + 1]);
        }
        if a_start == a_end || data[a_start] != FIRST_MARKER {
            proof {
                if a_start < a_end {
                    assert(lines[2 * j][0] == data@[a_start as int]);
                }
            }
            return Err(SeqFileError { line: 2 * j });
        }
        if b_start == b_end || data[b_start] != SECOND_MARKER {
            proof {
                assert(lines[2 * j][0] == data@[a_start as int]);
                if b_start < b_end {
                    assert(lines[2 * j + 1][0] == data@[b_start as int]);
                }
            }
            return Err(SeqFileError { line: 2 * j + 1 });
        }
        let a = copy_range(data, a_start + 1, a_end);
        let b = copy_range(data, b_start + 1, b_end);
        proof {
            assert(lines[2 * j][0] == data@[a_start as int]);
            assert(lines[2 * j + 1][0] == data@[b_start as int]);
            assert(a@ =~= lines[2 * j].skip(1));
            assert(b@ =~= lines[2 * j + 1].skip(1));
        }
        let ghost before = pairs@;
        pairs.push((a, b));
        proof {
            assert forall|i: int| 0 <= i < j + 1 implies #[trigger] pair_views(pairs@)[i]
                == pair_at(lines, i) by {
                if i < j {
                    assert(pair_views(pairs@)[i] == pair_views(before)[i]);
                }
            }
        }
        j = j + 1;
    }
    Ok(pairs)
}

/// The length of the longest sequence among the first `n` of `pairs`,
/// and 0 if there is none.
pub open spec fn longest(pairs: Seq<(Seq<u8>, Seq<u8>)>, n: nat) -> nat
    decreases n,
{
    if n == 0 {
        0
    } else {
        let before = longest(pairs, (n - 1) as nat);
        let (a, b) = pairs[n - 1];
        if a.len() >= b.len() && a.len() >= before {
            a.len()
        } else if b.len() >= before {
            b.len()
        } else {
            before
        }
    }
}

/// The length of the longest sequence of `pairs`, and 0 if there is none.
pub fn max_len(pairs: &Vec<(Vec<u8>, Vec<u8>)>) -> (m: usize)
    ensures
        m == longest(pair_views(pairs@), pairs.len() as nat),
{
    let mut m: usize = 0;
    let mut i: usize = 0;
    while i < pairs.len()
        invariant
            i <= pairs.len(),
            m == longest(pair_views(pairs@), i as nat),
        decreases pairs.len() - i,
    {
        let a = pairs[i].0.len();
        let b = pairs[i].1.len();
        assert(pair_views(pairs@)[i as int] == (pairs@[i as int].0@, pairs@[i as int].1@));
        if a >= b && a >= m {
            m = a;
        } else if b >= m {
            m = b;
        }
        i = i + 1;
    }
    m
}

/// The two lines that hold a sequence pair, each with its line end.
pub open spec fn pair_text(pair: (Seq<u8>, Seq<u8>)) -> Seq<u8> {
    seq![FIRST_MARKER] + pair.0 + seq![NEWLINE] + (seq![SECOND_MARKER] + pair.1 + seq![NEWLINE])
}

/// The text of a file that holds `pairs`.
pub open spec fn file_text(pairs: Seq<(Seq<u8>, Seq<u8>)>) -> Seq<u8>
    decreases pairs.len(),
{
    if pairs.len() == 0 {
        Seq::empty()
    } else {
        pair_text(pairs[0]) + file_text(pairs.drop_first())
    }
}

/// No sequence of `pairs` holds a line end.
pub open spec fn on_one_line(pairs: Seq<(Seq<u8>, Seq<u8>)>) -> bool {
    &&& forall|j: int, i: int|
        0 <= j < pairs.len() && 0 <= i < pairs[j].0.len() ==> #[trigger] pairs[j].0[i] != NEWLINE
    &&& forall|j: int, i: int|
        0 <= j < pairs.len() && 0 <= i < pairs[j].1.len() ==> #[trigger] pairs[j].1[i] != NEWLINE
}

/// The text of pairs with one more pair at their end.
proof fn lemma_file_text_push(pairs: Seq<(Seq<u8>, Seq<u8>)>, pair: (Seq<u8>, Seq<u8>))
    ensures
        file_text(pairs.push(pair)) == file_text(pairs) + pair_text(pair),
    decreases pairs.len(),
{
    if pairs.len() == 0 {
        assert(pairs.push(pair).drop_first() =~= pairs);
        assert(file_text(pairs.push(pair)) =~= file_text(pairs) + pair_text(pair));
    } else {
        lemma_file_text_push(pairs.drop_first(), pair);
        assert(pairs.push(pair).drop_first() =~= pairs.drop_first().push(pair));
        assert(file_text(pairs.push(pair)) =~= file_text(pairs) + pair_text(pair));
    }
}

/// Writes `bytes` behind `data`.
fn push_all(data: &mut Vec<u8>, bytes: &Vec<u8>)
    ensures
        final(data)@ == old(data)@ + bytes@,
{
    let mut i: usize = 0;
    while i < bytes.len()
        invariant
            i <= bytes.len(),
            data@ == old(data)@ + bytes@.take(i as int),
        decreases bytes.len() - i,
    {
        data.push(bytes[i]);
        assert(old(data)@ + bytes@.take(i + 1) =~= (old(data)@ + bytes@.take(i as int)).push(
            bytes@[i as int],
        ));
        i = i + 1;
    }
    assert(bytes@.take(bytes.len() as int) == bytes@);
}

/// Writes sequence pairs as the text of a file: for each pair a line
/// with `>` and the first sequence, and a line with `<` and the second.
pub fn write_seq_file(pairs: &Vec<(Vec<u8>, Vec<u8>)>) -> (data: Vec<u8>)
    ensures
        data@ == file_text(pair_views(pairs@)),
{
    let mut data: Vec<u8> = Vec::new();
    let mut j: usize = 0;
    assert(pair_views(pairs@).take(0) =~= Seq::empty());
    while j < pairs.len()
        invariant
            j <= pairs.len(),
            data@ == file_text(pair_views(pairs@).take(j as int)),
        decreases pairs.len() - j,
    {
        let ghost before = data@;
        data.push(FIRST_MARKER);
        push_all(&mut data, &pairs[j].0);
        data.push(NEWLINE);
        data.push(SECOND_MARKER);
        push_all(&mut data, &pairs[j].1);
        data.push(NEWLINE);
        proof {
            let views = pair_views(pairs@);
            assert(views[j as int] == (pairs@[j as int].0@, pairs@[j as int].1@));
            assert(data@ =~= before + pair_text(views[j as int]));
            lemma_take_push(views, j as int);
            lemma_file_text_push(views.take(j as int), views[j as int]);
        }
        j = j + 1;
    }
    assert(pair_views(pairs@).take(pairs.len() as int) == pair_views(pairs@));
    data
}

/// The lines of a line without a line end, its line end and a text are
/// the line and the lines of the text.
proof fn lemma_lines_after_line(line: Seq<u8>, rest: Seq<u8>)
    requires
        forall|i: int| 0 <= i < line.len() ==> line[i] != NEWLINE,
    ensures
        lines(line + seq![NEWLINE] + rest) == seq![line] + lines(rest),
{
    let data = line + seq![NEWLINE] + rest;
    lemma_first_newline(data, line.len() as int);
    assert(data.take(line.len() as int) =~= line);
    assert(data.skip(line.len() as int + 1) =~= rest);
}

/// What was written is read back. The text of sequence pairs that hold no
/// line end has two lines for each pair and an empty line at its end,
/// each line of a pair starts with its marker, and the pairs of lines
/// hold the sequence pairs.
pub proof fn lemma_written_pairs_read_back(pairs: Seq<(Seq<u8>, Seq<u8>)>)
    requires
        on_one_line(pairs),
    ensures
        lines(file_text(pairs)).len() == 2 * pairs.len() + 1,
        forall|k: int| 0 <= k < 2 * pairs.len() ==> line_ok(lines(file_text(pairs)), k),
        forall|j: int|
            0 <= j < pairs.len() ==> #[trigger] pair_at(lines(file_text(pairs)), j) == pairs[j],
    decreases pairs.len(),
{
    if pairs.len() == 0 {
        lemma_first_newline(file_text(pairs), 0);
    } else {
        let (a, b) = pairs[0];
        let rest = pairs.drop_first();
        assert(on_one_line(rest)) by {
            assert forall|j: int, i: int|
                0 <= j < rest.len() && 0 <= i < rest[j].0.len() implies #[trigger] rest[j].0[i]
                != NEWLINE by {
                assert(pairs[j + 1].0[i] != NEWLINE);
            }
            assert forall|j: int, i: int|
                0 <= j < rest.len() && 0 <= i < rest[j].1.len() implies #[trigger] rest[j].1[i]
                != NEWLINE by {
                assert(pairs[j + 1].1[i] != NEWLINE);
            }
        }
        lemma_written_pairs_read_back(rest);
        let first = seq![FIRST_MARKER] + a;
        let second = seq![SECOND_MARKER] + b;
        let tail = file_text(rest);
        assert forall|i: int| 0 <= i < first.len() implies first[i] != NEWLINE by {
            if i > 0 {
                assert(first[i] == pairs[0].0[i - 1]);
            }
        }
        assert forall|i: int| 0 <= i < second.len() implies second[i] != NEWLINE by {
            if i > 0 {
                assert(second[i] == pairs[0].1[i - 1]);
            }
        }
        assert(file_text(pairs) =~= first + seq![NEWLINE] + (second + seq![NEWLINE] + tail));
        lemma_lines_after_line(first, second + seq![NEWLINE] + tail);
        lemma_lines_after_line(second, tail);
        let all = lines(file_text(pairs));
        let later = lines(tail);
        assert(all =~= seq![first, second] + later);
        assert(first.skip(1) =~= a);
        assert(second.skip(1) =~= b);
        assert forall|k: int| 0 <= k < 2 * pairs.len() implies line_ok(all, k) by {
            if k >= 2 {
                assert(all[k] == later[k - 2]);
                assert(line_ok(later, k - 2));
            }
        }
        assert forall|j: int| 0 <= j < pairs.len() implies #[trigger] pair_at(all, j)
            == pairs[j] by {
            if j >= 1 {
                assert(all[2 * j] == later[2 * (j - 1)]);
                assert(all[2 * j + 1] == later[2 * (j - 1) + 1]);
                assert(pair_at(later, j - 1) == rest[j - 1]);
            }
        }
    }
}

} // verus!
