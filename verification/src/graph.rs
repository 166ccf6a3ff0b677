//! What the history graph draws for a widget size and a day range.

use vstd::prelude::*;
use vstd::string::StringSliceAdditionalSpecFns;

use crate::text::{split_bytes, split_seq, views};

verus! {

/// Byte that ends a line.
pub const LINE_FEED: u8 = 10;

/// Byte of a carriage return.
pub const CARRIAGE_RETURN: u8 = 13;

/// The message that the graph shows when its day range is empty.
pub const GRAPH_RANGE_ERROR: &'static str =
    "The range for from(days before) and to(days before) doesn't match. \n Error: 'to' must be less than 'from'";

/// The length in bytes of a line: a line that a line feed ends loses a carriage
/// return at its end; the last line keeps it.
pub open spec fn line_length(piece: Seq<u8>, ended: bool) -> nat {
    if ended && piece.len() > 0 && piece.last() == CARRIAGE_RETURN {
        (piece.len() - 1) as nat
    } else {
        piece.len()
    }
}

/// The greatest line length among the first `n` pieces of `pieces`, of which
/// all but the last are ended by a line feed.
pub open spec fn max_piece_length(pieces: Seq<Seq<u8>>, n: int) -> nat
    decreases n,
{
    if n <= 0 {
        0
    } else {
        let prev = max_piece_length(pieces, n - 1);
        let len = line_length(pieces[n - 1], n - 1 < pieces.len() - 1);
        if len > prev { len } else { prev }
    }
}

/// The length in bytes of the longest line of `text`.
pub open spec fn max_line_length(text: Seq<u8>) -> nat {
    let pieces = split_seq(text, LINE_FEED);
    max_piece_length(pieces, pieces.len() as int)
}

/// The length in bytes of the longest line of `text`.
pub fn longest_line(text: &str) -> (len: usize)
    ensures
        len as nat == max_line_length(text.spec_bytes()),
{
    let pieces = split_bytes(text.as_bytes(), LINE_FEED);
    let ghost ps = split_seq(text.spec_bytes(), LINE_FEED);
    let mut best: usize = 0;
    let mut i: usize = 0;
    while i < pieces.len()
        invariant
            views(pieces@) == ps,
            i <= pieces.len(),
            best as nat == max_piece_length(ps, i as int),
        decreases pieces.len() - i,
    {
        assert(pieces@[i as int]@ == ps[i as int]);
        let piece = &pieces[i];
        let mut len = piece.len();
        if i + 1 < pieces.len() && len > 0 && piece[len - 1] == CARRIAGE_RETURN {
            len = len - 1;
        }
        if len > best {
            best = len;
        }
        i = i + 1;
    }
    best
}

/// The length in bytes of the longest line of the range message.
pub fn range_error_width() -> (len: usize)
    ensures
        len as nat == max_line_length(GRAPH_RANGE_ERROR.spec_bytes()),
{
    longest_line(GRAPH_RANGE_ERROR)
}

/// What the graph draws.
#[derive(Debug, Clone, Copy, PartialEq, Eq, Structural)]
pub enum GraphPlan {
    /// Nothing: the widget has no area.
    Nothing,
    /// The range message, placed at `(x, y)`.
    RangeError { x: i32, y: i32 },
    /// The history from `start_day` days ago to `end_day` days ago.
    History { start_day: i64, end_day: i64 },
}

/// Half of `d` read as a 32-bit signed number, rounded toward zero.
pub open spec fn half_as_i32(d: nat) -> int {
    if d < 0x8000_0000 {
        (d / 2) as int
    } else {
        -(((0x1_0000_0000 - d) / 2) as int)
    }
}

/// What the graph draws in a `width` by `height` area for the range from
/// `start_day` days ago to `end_day` days ago, where the widest line of the
/// range message is `message_width` bytes: nothing in an empty area; the
/// message, centred by the width of its widest line, where the range ends no
/// later than it starts; the history otherwise.
pub open spec fn graph_plan(width: u32, height: u32, start_day: i64, end_day: i64, message_width: nat) -> GraphPlan {
    if width == 0 || height == 0 {
        GraphPlan::Nothing
    } else if end_day >= start_day {
        GraphPlan::RangeError {
            x: half_as_i32((width - message_width) as nat) as i32,
            y: (height / 2) as i32,
        }
    } else {
        GraphPlan::History { start_day, end_day }
    }
}

/// Decides what the graph draws; the range message must fit in the width.
pub fn plan_graph(width: u32, height: u32, start_day: i64, end_day: i64) -> (plan: GraphPlan)
    requires
        width > 0 && height > 0 && end_day >= start_day ==> width >= max_line_length(
            GRAPH_RANGE_ERROR.spec_bytes(),
        ),
    ensures
        plan == graph_plan(width, height, start_day, end_day, max_line_length(GRAPH_RANGE_ERROR.spec_bytes())),
{
    if width == 0 || height == 0 {
        return GraphPlan::Nothing;
    }
    if end_day >= start_day {
        let message_width = range_error_width();
        let d: u32 = width - message_width as u32;
        let x: i64 = if d < 0x8000_0000 {
            (d / 2) as i64
        } else {
            -(((0x1_0000_0000u64 - d as u64) / 2) as i64)
        };
        GraphPlan::RangeError { x: x as i32, y: (height / 2) as i32 }
    } else {
        GraphPlan::History { start_day, end_day }
    }
}

} // verus!
