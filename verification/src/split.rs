//! Splitting a template into its front matter and its body.
//!
//! A template is a sequence of bytes, read as lines: a line ends with its
//! first line feed, or at the end of the input. The first line must be the
//! separator `---`. The block of front matter is what stands between that
//! line and the next line that is the separator; the body is what follows
//! that second line, untouched.

use vstd::prelude::*;

use crate::frontmatter::FrontMatterError;

verus! {

/// The byte that ends a line.
pub const LINE_FEED: u8 = 0x0a;

/// The byte that may stand before the line feed.
pub const CARRIAGE_RETURN: u8 = 0x0d;

/// The byte `-`.
pub const DASH: u8 = 0x2d;

/// The separator, `---`.
pub open spec fn separator() -> Seq<u8> {
    seq![DASH, DASH, DASH]
}

/// The index just behind the line that starts at `start`: behind its line
/// feed, or the end of the input.
pub open spec fn line_end(s: Seq<u8>, start: int) -> int
    decreases s.len() - start,
{
    if start >= s.len() {
        s.len() as int
    } else if s[start] == LINE_FEED {
        start + 1
    } else {
        line_end(s, start + 1)
    }
}

/// A line without its terminator: without one trailing line feed, and
/// without the carriage return where one stands before that line feed.
pub open spec fn strip_terminator(line: Seq<u8>) -> Seq<u8> {
    if line.len() >= 2 && line[line.len() - 2] == CARRIAGE_RETURN && line[line.len() - 1]
        == LINE_FEED {
        line.take(line.len() - 2)
    } else if line.len() >= 1 && line[line.len() - 1] == LINE_FEED {
        line.take(line.len() - 1)
    } else {
        line
    }
}

/// Whether the line that starts at `start` is the separator and nothing
/// else.
pub open spec fn is_separator_line(s: Seq<u8>, start: int) -> bool
    recommends
        0 <= start <= s.len(),
{
    start < s.len() && strip_terminator(s.subrange(start, line_end(s, start))) == separator()
}

/// Whether a line starts at `p`: at the start of the input or behind a line
/// feed.
pub open spec fn is_line_start(s: Seq<u8>, p: int) -> bool {
    0 <= p <= s.len() && (p == 0 || s[p - 1] == LINE_FEED)
}

/// The start of the first separator line among the lines from `start` on,
/// where `start` is the start of a line.
pub open spec fn closing_line(s: Seq<u8>, start: int) -> Option<int>
    decreases s.len() - start,
{
    if start < 0 || start >= s.len() {
        None
    } else if is_separator_line(s, start) {
        Some(start)
    } else {
        proof {
            lemma_line_end(s, start);
        }
        closing_line(s, line_end(s, start))
    }
}

/// Where the parts of a template stand in its bytes.
#[derive(PartialEq, Eq, Structural, Clone, Copy, Debug)]
pub struct Frame {
    /// The block of front matter starts here, behind the first line.
    pub block_start: usize,
    /// The block ends here, where the closing separator line starts.
    pub block_end: usize,
    /// The body starts here, behind the closing separator line.
    pub body_start: usize,
}

/// The frame of the template `s`, or why it has none.
pub open spec fn frame_of(s: Seq<u8>) -> Result<Frame, FrontMatterError> {
    if !is_separator_line(s, 0) {
        Err(FrontMatterError::InvalidFirstLine)
    } else {
        match closing_line(s, line_end(s, 0)) {
            None => Err(FrontMatterError::MissingEndSeparator),
            Some(close) => Ok(
                Frame {
                    block_start: line_end(s, 0) as usize,
                    block_end: close as usize,
                    body_start: line_end(s, close) as usize,
                },
            ),
        }
    }
}

/// A line ends behind its start and within the input; it holds no line feed
/// but, at most, as its last byte.
pub proof fn lemma_line_end(s: Seq<u8>, start: int)
    requires
        0 <= start <= s.len(),
    ensures
        start <= line_end(s, start) <= s.len(),
        start < s.len() ==> start < line_end(s, start),
        forall|j: int| start <= j < line_end(s, start) - 1 ==> s[j] != LINE_FEED,
        line_end(s, start) < s.len() ==> s[line_end(s, start) - 1] == LINE_FEED,
        is_line_start(s, start) ==> is_line_start(s, line_end(s, start)) || line_end(s, start)
            == s.len(),
    decreases s.len() - start,
{
    if start < s.len() && s[start] != LINE_FEED {
        lemma_line_end(s, start + 1);
    }
}

/// The closing separator line, where there is one: it starts a line at or
/// behind `start`, it is the separator, and no line between `start` and it
/// is.
pub proof fn lemma_closing_line(s: Seq<u8>, start: int)
    requires
        is_line_start(s, start),
    ensures
        closing_line(s, start) matches Some(close) ==> {
            &&& start <= close < s.len()
            &&& is_line_start(s, close)
            &&& is_separator_line(s, close)
            &&& forall|p: int|
                start <= p < close && #[trigger] is_line_start(s, p) ==> !is_separator_line(s, p)
        },
        closing_line(s, start).is_none() ==> forall|p: int|
            start <= p < s.len() && #[trigger] is_line_start(s, p) ==> !is_separator_line(s, p),
    decreases s.len() - start,
{
    if start < s.len() && !is_separator_line(s, start) {
        lemma_line_end(s, start);
        let next = line_end(s, start);
        if next < s.len() {
            lemma_closing_line(s, next);
        }
        assert forall|p: int| start < p < next implies !is_line_start(s, p) by {
            assert(s[p - 1] != LINE_FEED);
        }
    }
}

/// Of a template that has a frame: the first line is the separator; the
/// block stands between that line and the first later line that is the
/// separator, so that no line of the block is the separator; and the body
/// starts behind that line, so that the bytes from there on are the input's
/// own.
pub proof fn lemma_frame(s: Seq<u8>)
    requires
        s.len() <= usize::MAX,
    ensures
        frame_of(s) == Err::<Frame, FrontMatterError>(FrontMatterError::InvalidFirstLine)
            <==> !is_separator_line(s, 0),
        frame_of(s) == Err::<Frame, FrontMatterError>(FrontMatterError::MissingEndSeparator)
            <==> is_separator_line(s, 0) && forall|p: int|
            line_end(s, 0) <= p < s.len() && #[trigger] is_line_start(s, p) ==> !is_separator_line(
                s,
                p,
            ),
        frame_of(s) matches Ok(frame) ==> {
            &&& is_separator_line(s, 0)
            &&& frame.block_start == line_end(s, 0)
            &&& 0 < frame.block_start <= frame.block_end < frame.body_start <= s.len()
            &&& is_line_start(s, frame.block_end as int)
            &&& is_separator_line(s, frame.block_end as int)
            &&& frame.body_start == line_end(s, frame.block_end as int)
            &&& forall|p: int|
                frame.block_start <= p < frame.block_end && #[trigger] is_line_start(s, p)
                    ==> !is_separator_line(s, p)
        },
{
    if is_separator_line(s, 0) {
        lemma_line_end(s, 0);
        let first = line_end(s, 0);
        if first < s.len() {
            lemma_closing_line(s, first);
        }
        match closing_line(s, first) {
            Some(close) => {
                lemma_line_end(s, close);
                assert(is_separator_line(s, close));
                assert(is_line_start(s, close));
            },
            None => {},
        }
    }
}

/// The index just behind the line that starts at `start`; the end of the
/// input where `start` is not within it.
pub fn find_line_end(input: &[u8], start: usize) -> (end: usize)
    ensures
        end == line_end(input@, start as int),
        end <= input@.len(),
        start <= input@.len() ==> start <= end,
{
    if start > input.len() {
        return input.len();
    }
    let mut i: usize = start;
    while i < input.len()
        invariant
            start <= i <= input@.len(),
            line_end(input@, start as int) == line_end(input@, i as int),
        decreases input@.len() - i,
    {
        if input[i] == LINE_FEED {
            return i + 1;
        }
        i += 1;
    }
    i
}

/// Whether the line from `start` to `end` is the separator and nothing else.
fn is_separator_at(input: &[u8], start: usize, end: usize) -> (r: bool)
    requires
        start <= end <= input@.len(),
        end == line_end(input@, start as int),
    ensures
        r == is_separator_line(input@, start as int),
{
    let ghost line = input@.subrange(start as int, end as int);
    let content_end: usize = if end - start >= 2 && input[end - 2] == CARRIAGE_RETURN && input[end
        - 1] == LINE_FEED {
        end - 2
    } else if end - start >= 1 && input[end - 1] == LINE_FEED {
        end - 1
    } else {
        end
    };
    proof {
        assert(strip_terminator(line) =~= input@.subrange(start as int, content_end as int));
    }
    if content_end - start != 3 {
        return false;
    }
    let r = input[start] == DASH && input[start + 1] == DASH && input[start + 2] == DASH;
    proof {
        let content = input@.subrange(start as int, content_end as int);
        if r {
            assert(content =~= separator());
        } else {
            assert(content[0] == input@[start as int]);
            assert(content[1] == input@[start + 1]);
            assert(content[2] == input@[start + 2]);
        }
    }
    r
}

/// Finds the front matter and the body of a template.
///
/// Fails with `InvalidFirstLine` where the first line is not the separator,
/// and with `MissingEndSeparator` where no later line is.
pub fn split_front_matter(input: &[u8]) -> (r: Result<Frame, FrontMatterError>)
    ensures
        r == frame_of(input@),
        r matches Ok(frame) ==> frame.block_start <= frame.block_end < frame.body_start
            <= input@.len(),
{
    let first_end = find_line_end(input, 0);
    if !is_separator_at(input, 0, first_end) {
        return Err(FrontMatterError::InvalidFirstLine);
    }
    let mut pos: usize = first_end;
    while pos < input.len()
        invariant
            first_end <= pos <= input@.len(),
            first_end == line_end(input@, 0),
            is_separator_line(input@, 0),
            closing_line(input@, first_end as int) == closing_line(input@, pos as int),
        decreases input@.len() - pos,
    {
        let end = find_line_end(input, pos);
        proof {
            lemma_line_end(input@, pos as int);
        }
        if is_separator_at(input, pos, end) {
            return Ok(Frame { block_start: first_end, block_end: pos, body_start: end });
        }
        pos = end;
    }
    Err(FrontMatterError::MissingEndSeparator)
}

} // verus!
