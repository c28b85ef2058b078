//! Line-boundary records over a byte buffer.
//!
//! Both diagnostic rendering and structural filtering need to know, for each
//! line of a file, where the line starts, where its trimmed content begins and
//! where it ends, so that markers point at code rather than indentation.

use vstd::prelude::*;

verus! {

/// One line of a byte buffer: `start` is the offset of the line's first byte,
/// `end` the offset of its terminating newline, and `begin` the offset of its
/// first non-whitespace byte (`start` when the line holds none).
#[derive(Debug, PartialEq, Eq, Structural, Clone, Copy)]
pub struct LineSlice {
    pub start: usize,
    pub begin: usize,
    pub end: usize,
}

/// Whitespace that may precede a line's content: space, tab, carriage return.
pub open spec fn is_blank(b: u8) -> bool {
    b == 32 || b == 9 || b == 13
}

/// Offset of the first non-whitespace byte of `s` in `[from, end)`, or `end`
/// when the range holds none.
pub open spec fn first_content(s: Seq<u8>, from: int, end: int) -> int
    decreases end - from,
{
    if from >= end {
        end
    } else if !is_blank(s[from]) {
        from
    } else {
        first_content(s, from + 1, end)
    }
}

/// Where a line's trimmed content begins: its first non-whitespace byte, or
/// the line's own start when the line is all whitespace.
pub open spec fn begin_of(s: Seq<u8>, start: int, end: int) -> int {
    if first_content(s, start, end) == end {
        start
    } else {
        first_content(s, start, end)
    }
}

/// Index of the last newline byte of `s`, or `-1` when there is none.
pub open spec fn last_newline(s: Seq<u8>) -> int
    decreases s.len(),
{
    if s.len() == 0 {
        -1
    } else if s[s.len() - 1] == 10 {
        s.len() - 1
    } else {
        last_newline(s.drop_last())
    }
}

/// The line records of `s`: one per newline byte, in order. Bytes after the
/// last newline belong to no record.
pub open spec fn line_slices(s: Seq<u8>) -> Seq<LineSlice>
    decreases s.len(),
{
    if s.len() == 0 {
        Seq::empty()
    } else if s[s.len() - 1] != 10 {
        line_slices(s.drop_last())
    } else {
        let start = last_newline(s.drop_last()) + 1;
        line_slices(s.drop_last()).push(
            LineSlice {
                start: start as usize,
                begin: begin_of(s, start, s.len() - 1) as usize,
                end: (s.len() - 1) as usize,
            },
        )
    }
}

/// `first_content` only reads the bytes of `[from, end)`.
proof fn lemma_first_content_frame(s1: Seq<u8>, s2: Seq<u8>, from: int, end: int)
    requires
        0 <= from <= end,
        end <= s1.len(),
        end <= s2.len(),
        forall|k: int| from <= k < end ==> s1[k] == s2[k],
    ensures
        first_content(s1, from, end) == first_content(s2, from, end),
    decreases end - from,
{
    if from < end && is_blank(s1[from]) {
        lemma_first_content_frame(s1, s2, from + 1, end);
    }
}

/// How `first_content` grows when one more byte comes into view.
proof fn lemma_first_content_extend(s: Seq<u8>, from: int, end: int)
    requires
        0 <= from <= end < s.len(),
    ensures
        first_content(s, from, end + 1) == (if first_content(s, from, end) < end {
            first_content(s, from, end)
        } else if !is_blank(s[end]) {
            end
        } else {
            end + 1
        }),
    decreases end - from,
{
    if from == end {
        assert(first_content(s, end + 1, end + 1) == end + 1);
    } else if is_blank(s[from]) {
        lemma_first_content_extend(s, from + 1, end);
    }
}

/// `first_content` stays within the range it searches.
proof fn lemma_first_content_bounds(s: Seq<u8>, from: int, end: int)
    requires
        0 <= from <= end,
    ensures
        from <= first_content(s, from, end) <= end,
    decreases end - from,
{
    if from < end && is_blank(s[from]) {
        lemma_first_content_bounds(s, from + 1, end);
    }
}

proof fn lemma_last_newline_bounds(s: Seq<u8>)
    ensures
        -1 <= last_newline(s) < s.len(),
    decreases s.len(),
{
    if s.len() > 0 && s[s.len() - 1] != 10 {
        lemma_last_newline_bounds(s.drop_last());
    }
}

/// Every record's offsets are ordered and lie inside the buffer.
pub proof fn lemma_line_slices_bounds(s: Seq<u8>)
    requires
        s.len() <= usize::MAX,
    ensures
        forall|j: int|
            0 <= j < line_slices(s).len() ==> {
                let ls = #[trigger] line_slices(s)[j];
                ls.start <= ls.begin && ls.begin <= ls.end && ls.end < s.len()
            },
    decreases s.len(),
{
    if s.len() == 0 {
    } else if s[s.len() - 1] != 10 {
        lemma_line_slices_bounds(s.drop_last());
        assert(line_slices(s) == line_slices(s.drop_last()));
        assert forall|j: int| 0 <= j < line_slices(s).len() implies {
            let ls = #[trigger] line_slices(s)[j];
            ls.start <= ls.begin && ls.begin <= ls.end && ls.end < s.len()
        } by {
            assert(line_slices(s)[j] == line_slices(s.drop_last())[j]);
        }
    } else {
        lemma_line_slices_bounds(s.drop_last());
        lemma_last_newline_bounds(s.drop_last());
        let start = last_newline(s.drop_last()) + 1;
        lemma_first_content_bounds(s, start, s.len() - 1);
        let earlier = line_slices(s.drop_last());
        let rec = LineSlice {
            start: start as usize,
            begin: begin_of(s, start, s.len() - 1) as usize,
            end: (s.len() - 1) as usize,
        };
        assert(line_slices(s) == earlier.push(rec));
        assert(rec.start <= rec.begin && rec.begin <= rec.end && rec.end < s.len());
        assert forall|j: int| 0 <= j < line_slices(s).len() implies {
            let ls = #[trigger] line_slices(s)[j];
            ls.start <= ls.begin && ls.begin <= ls.end && ls.end < s.len()
        } by {
            if j < earlier.len() {
                assert(line_slices(s)[j] == earlier[j]);
            } else {
                assert(line_slices(s)[j] == rec);
            }
        }
    }
}

impl LineSlice {
    /// Scan `slice` byte by byte and record, for each newline-terminated line,
    /// its start offset, the offset of its first non-whitespace byte and the
    /// offset of its newline.
    pub fn build(slice: &[u8]) -> (lines: Vec<LineSlice>)
        ensures
            lines@ == line_slices(slice@),
    {
        let n: usize = slice.len();
        let mut start: usize = 0;
        let mut begin: usize = 0;
        let mut pre: bool = true;
        let mut lines: Vec<LineSlice> = Vec::new();
        let mut i: usize = 0;
        while i < n
            invariant
                n == slice@.len(),
                i <= n,
                start <= i,
                lines@ == line_slices(slice@.take(i as int)),
                start as int == last_newline(slice@.take(i as int)) + 1,
                pre <==> first_content(slice@, start as int, i as int) == i,
                !pre ==> begin as int == first_content(slice@, start as int, i as int),
            decreases n - i,
        {
            proof {
                assert(slice@.take(i as int + 1).drop_last() =~= slice@.take(i as int));
                assert(slice@.take(i as int + 1)[i as int] == slice@[i as int]);
                lemma_first_content_bounds(slice@, start as int, i as int);
            }
            let b = slice[i];
            if b == 10 {
                let line_begin: usize = if pre {
                    start
                } else {
                    begin
                };
                proof {
                    lemma_first_content_frame(
                        slice@.take(i as int + 1),
                        slice@,
                        start as int,
                        i as int,
                    );
                }
                lines.push(
                    LineSlice {
                        start,
                        begin: line_begin,
                        end: i,
                    },
                );
                start = i + 1;
                pre = true;
            } else {
                proof {
                    lemma_first_content_extend(slice@, start as int, i as int);
                }
                if pre && !(b == 32 || b == 9 || b == 13) {
                    pre = false;
                    begin = i;
                }
            }
            i = i + 1;
        }
        proof {
            assert(slice@.take(n as int) =~= slice@);
        }
        lines
    }
}

} // verus!
