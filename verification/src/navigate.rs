//! Motions across the lines of a buffer.
//!
//! A motion first looks for its target on the line of the caret, from the
//! caret's column. If that line holds none, the motion goes on line by line
//! in its direction and takes the first target that a line offers. It stops
//! at the last line it can reach, the sentinel row, where it settles for the
//! edge of the line if the line holds no target either.
//!
//! Rows are counted from 1, columns are byte offsets counted from 0.

use vstd::prelude::*;
use crate::index::{
    covered, first_end_of_WORD, first_end_of_word, first_start_of_WORD, first_start_of_word,
    index_first_end_of_WORD, index_first_end_of_word, index_first_start_of_WORD,
    index_first_start_of_word, index_last_end_of_WORD, index_last_end_of_word,
    index_last_start_of_WORD, index_last_start_of_word, index_next_end_of_WORD,
    index_next_end_of_word, index_next_start_of_WORD, index_next_start_of_word,
    index_prev_end_of_WORD, index_prev_end_of_word, index_prev_start_of_WORD,
    index_prev_start_of_word, last_end_of_WORD, last_end_of_word, last_start_of_WORD,
    last_start_of_word, next_end_of_WORD, next_end_of_word, next_start_of_WORD,
    next_start_of_word, prev_end_of_WORD, prev_end_of_word, prev_start_of_WORD,
    prev_start_of_word,
};
use crate::token::ParsedToken;

verus! {

/// The way a motion travels through the buffer.
#[derive(Debug, PartialEq, Eq, Clone, Copy, Structural)]
pub enum Direction {
    /// Towards the first line.
    Backward,
    /// Towards the last line.
    Forward,
}

/// The eight word motions.
#[derive(Debug, PartialEq, Eq, Clone, Copy, Structural)]
pub enum Motion {
    /// `b`: back to the start of a word.
    WordBackward,
    /// `B`: back to the start of a WORD.
    BigWordBackward,
    /// `ge`: back to the end of a word.
    WordEndBackward,
    /// `gE`: back to the end of a WORD.
    BigWordEndBackward,
    /// `w`: on to the start of a word.
    WordForward,
    /// `W`: on to the start of a WORD.
    BigWordForward,
    /// `e`: on to the end of a word.
    WordEndForward,
    /// `E`: on to the end of a WORD.
    BigWordEndForward,
}

/// What a motion does after it has looked at a line.
#[derive(Debug, PartialEq, Eq, Clone, Copy, Structural)]
pub enum Step {
    /// The motion lands on this position.
    Arrived { row: usize, col: usize },
    /// The line held no target: the motion goes on to this row.
    Visit { row: usize },
}

impl Motion {
    /// The way the motion travels.
    pub open spec fn direction(self) -> Direction {
        match self {
            Motion::WordBackward
            | Motion::BigWordBackward
            | Motion::WordEndBackward
            | Motion::BigWordEndBackward => Direction::Backward,
            Motion::WordForward
            | Motion::BigWordForward
            | Motion::WordEndForward
            | Motion::BigWordEndForward => Direction::Forward,
        }
    }

    /// The target on the line of the caret, looked for from column `col`.
    pub open spec fn primary(self, tokens: Seq<ParsedToken>, col: int) -> Option<usize> {
        match self {
            Motion::WordBackward => prev_start_of_word(tokens, col),
            Motion::BigWordBackward => prev_start_of_WORD(tokens, col),
            Motion::WordEndBackward => prev_end_of_word(tokens, col),
            Motion::BigWordEndBackward => prev_end_of_WORD(tokens, col),
            Motion::WordForward => next_start_of_word(tokens, col),
            Motion::BigWordForward => next_start_of_WORD(tokens, col),
            Motion::WordEndForward => next_end_of_word(tokens, col),
            Motion::BigWordEndForward => next_end_of_WORD(tokens, col),
        }
    }

    /// The target on a line that the motion comes to from another line: the
    /// one nearest to the edge by which the motion enters.
    pub open spec fn secondary(self, tokens: Seq<ParsedToken>) -> Option<usize> {
        match self {
            Motion::WordBackward => last_start_of_word(tokens),
            Motion::BigWordBackward => last_start_of_WORD(tokens),
            Motion::WordEndBackward => last_end_of_word(tokens),
            Motion::BigWordEndBackward => last_end_of_WORD(tokens),
            Motion::WordForward => first_start_of_word(tokens),
            Motion::BigWordForward => first_start_of_WORD(tokens),
            Motion::WordEndForward => first_end_of_word(tokens),
            Motion::BigWordEndForward => first_end_of_WORD(tokens),
        }
    }

    /// The way the motion travels.
    pub fn travels(&self) -> (direction: Direction)
        ensures
            direction == self.direction(),
    {
        match self {
            Motion::WordBackward
            | Motion::BigWordBackward
            | Motion::WordEndBackward
            | Motion::BigWordEndBackward => Direction::Backward,
            Motion::WordForward
            | Motion::BigWordForward
            | Motion::WordEndForward
            | Motion::BigWordEndForward => Direction::Forward,
        }
    }

    /// Looks for the target on the line of the caret, from column `col`.
    pub fn find_from(&self, tokens: &[ParsedToken], col: usize) -> (found: Option<usize>)
        requires
            tokens@.len() == 0 || covered(tokens@, col as int),
        ensures
            found == self.primary(tokens@, col as int),
    {
        match self {
            Motion::WordBackward => index_prev_start_of_word(tokens, col),
            Motion::BigWordBackward => index_prev_start_of_WORD(tokens, col),
            Motion::WordEndBackward => index_prev_end_of_word(tokens, col),
            Motion::BigWordEndBackward => index_prev_end_of_WORD(tokens, col),
            Motion::WordForward => index_next_start_of_word(tokens, col),
            Motion::BigWordForward => index_next_start_of_WORD(tokens, col),
            Motion::WordEndForward => index_next_end_of_word(tokens, col),
            Motion::BigWordEndForward => index_next_end_of_WORD(tokens, col),
        }
    }

    /// Looks for the target on a line that the motion comes to from another
    /// line.
    pub fn find_on(&self, tokens: &[ParsedToken]) -> (found: Option<usize>)
        ensures
            found == self.secondary(tokens@),
    {
        match self {
            Motion::WordBackward => index_last_start_of_word(tokens),
            Motion::BigWordBackward => index_last_start_of_WORD(tokens),
            Motion::WordEndBackward => index_last_end_of_word(tokens),
            Motion::BigWordEndBackward => index_last_end_of_WORD(tokens),
            Motion::WordForward => index_first_start_of_word(tokens),
            Motion::BigWordForward => index_first_start_of_WORD(tokens),
            Motion::WordEndForward => index_first_end_of_word(tokens),
            Motion::BigWordEndForward => index_first_end_of_WORD(tokens),
        }
    }
}

/// The row beyond which a motion cannot go: the first row for a motion
/// backward, the last row of the buffer for a motion forward.
pub open spec fn sentinel_row(direction: Direction, row_count: int) -> int {
    match direction {
        Direction::Backward => 1,
        Direction::Forward => row_count,
    }
}

/// The row after `row` in the direction of travel.
pub open spec fn next_row(direction: Direction, row: int) -> int {
    match direction {
        Direction::Backward => row - 1,
        Direction::Forward => row + 1,
    }
}

/// The number of rows between `row` and the sentinel row.
pub open spec fn rows_left(direction: Direction, row_count: int, row: int) -> int {
    match direction {
        Direction::Backward => row - 1,
        Direction::Forward => row_count - row,
    }
}

/// The column a motion settles for on the sentinel row when that row holds
/// no target: where the first token starts for a motion backward, where the
/// last token ends for a motion forward, and 0 on a line without tokens. A
/// boundary mark ends one byte before its offset, or at 0 if it sits there.
pub open spec fn default_col(direction: Direction, tokens: Seq<ParsedToken>) -> usize {
    if tokens.len() == 0 {
        0
    } else {
        match direction {
            Direction::Backward => tokens.first().start_byte_index,
            Direction::Forward => if tokens.last().end() < 0 {
                0
            } else {
                tokens.last().end() as usize
            },
        }
    }
}

/// What a motion does on a row that holds the target `found`, or none.
pub open spec fn step_on(
    direction: Direction,
    row_count: int,
    row: usize,
    tokens: Seq<ParsedToken>,
    found: Option<usize>,
) -> Step {
    match found {
        Some(col) => Step::Arrived { row, col },
        None => if row == sentinel_row(direction, row_count) {
            Step::Arrived { row, col: default_col(direction, tokens) }
        } else {
            Step::Visit { row: next_row(direction, row as int) as usize }
        },
    }
}

/// What `motion` does on the row of the caret, whose tokens are `tokens`.
pub open spec fn first_step(
    motion: Motion,
    row_count: int,
    row: usize,
    col: usize,
    tokens: Seq<ParsedToken>,
) -> Step {
    step_on(motion.direction(), row_count, row, tokens, motion.primary(tokens, col as int))
}

/// What `motion` does on a row that it has come to from another row.
pub open spec fn later_step(
    motion: Motion,
    row_count: int,
    row: usize,
    tokens: Seq<ParsedToken>,
) -> Step {
    step_on(motion.direction(), row_count, row, tokens, motion.secondary(tokens))
}

/// The column a motion settles for on the sentinel row.
pub fn final_col_default(direction: Direction, parsed_tokens: &[ParsedToken]) -> (col: usize)
    ensures
        col == default_col(direction, parsed_tokens@),
{
    if parsed_tokens.len() == 0 {
        0
    } else {
        match direction {
            Direction::Backward => parsed_tokens[0].start_byte_index,
            Direction::Forward => {
                let last = parsed_tokens[parsed_tokens.len() - 1];
                if !last.zero_width {
                    last.end_byte_index
                } else if last.start_byte_index > 0 {
                    last.start_byte_index - 1
                } else {
                    0
                }
            },
        }
    }
}

fn step_with(
    direction: Direction,
    row_count: usize,
    row: usize,
    tokens: &[ParsedToken],
    found: Option<usize>,
) -> (step: Step)
    requires
        1 <= row <= row_count,
    ensures
        step == step_on(direction, row_count as int, row, tokens@, found),
        step matches Step::Visit { row: next } ==> {
            &&& 1 <= next <= row_count
            &&& next == next_row(direction, row as int)
            &&& rows_left(direction, row_count as int, next as int) < rows_left(
                direction,
                row_count as int,
                row as int,
            )
        },
{
    match found {
        Some(col) => Step::Arrived { row, col },
        None => match direction {
            Direction::Backward => if row == 1 {
                Step::Arrived { row, col: final_col_default(direction, tokens) }
            } else {
                Step::Visit { row: row - 1 }
            },
            Direction::Forward => if row == row_count {
                Step::Arrived { row, col: final_col_default(direction, tokens) }
            } else {
                Step::Visit { row: row + 1 }
            },
        },
    }
}

/// The first step of `motion` in a buffer of `row_count` rows, from the
/// caret at `cursor_pos`, a row and a column: what the motion does once it
/// has seen the tokens of the caret's row.
///
/// The row must be a row of the buffer, and the column must lie on a token
/// of the row, unless the row has none.
pub fn begin(motion: Motion, row_count: usize, cursor_pos: (usize, usize), tokens: &[ParsedToken]) -> (step:
    Step)
    requires
        1 <= cursor_pos.0 <= row_count,
        tokens@.len() == 0 || covered(tokens@, cursor_pos.1 as int),
    ensures
        step == first_step(motion, row_count as int, cursor_pos.0, cursor_pos.1, tokens@),
        step matches Step::Visit { row } ==> {
            &&& 1 <= row <= row_count
            &&& row == next_row(motion.direction(), cursor_pos.0 as int)
        },
{
    let (row, col) = cursor_pos;
    let found = motion.find_from(tokens, col);
    step_with(motion.travels(), row_count, row, tokens, found)
}

/// A later step of `motion`: what the motion does once it has seen the
/// tokens of `row`, to which an earlier step has sent it.
pub fn proceed(motion: Motion, row_count: usize, row: usize, tokens: &[ParsedToken]) -> (step: Step)
    requires
        1 <= row <= row_count,
    ensures
        step == later_step(motion, row_count as int, row, tokens@),
        step matches Step::Visit { row: next } ==> {
            &&& 1 <= next <= row_count
            &&& next == next_row(motion.direction(), row as int)
        },
{
    let found = motion.find_on(tokens);
    step_with(motion.travels(), row_count, row, tokens, found)
}

/// The tokens of each row.
pub open spec fn rows_of(buffer: Seq<Vec<ParsedToken>>) -> Seq<Seq<ParsedToken>> {
    buffer.map_values(|row: Vec<ParsedToken>| row@)
}

/// Where `motion` lands once it has left the row of the caret and comes to
/// `row`: on the first target that a row offers, from `row` on in the
/// direction of travel, or on the edge of the sentinel row.
pub open spec fn landing(motion: Motion, rows: Seq<Seq<ParsedToken>>, row: int) -> (usize, usize)
    decreases rows_left(motion.direction(), rows.len() as int, row),
{
    if 1 <= row <= rows.len() {
        match motion.secondary(rows[row - 1]) {
            Some(col) => (row as usize, col),
            None => if row == sentinel_row(motion.direction(), rows.len() as int) {
                (row as usize, default_col(motion.direction(), rows[row - 1]))
            } else {
                landing(motion, rows, next_row(motion.direction(), row))
            },
        }
    } else {
        (0, 0)
    }
}

/// Where `motion` lands from the caret at row `row` and column `col`: on the
/// target that the row of the caret holds, if it holds one; on the edge of
/// that row, if it is the sentinel row; and else where the motion lands
/// from the next row.
pub open spec fn destination(
    motion: Motion,
    rows: Seq<Seq<ParsedToken>>,
    row: int,
    col: int,
) -> (usize, usize) {
    match motion.primary(rows[row - 1], col) {
        Some(col) => (row as usize, col),
        None => if row == sentinel_row(motion.direction(), rows.len() as int) {
            (row as usize, default_col(motion.direction(), rows[row - 1]))
        } else {
            landing(motion, rows, next_row(motion.direction(), row))
        },
    }
}

/// Where `motion` takes the caret from `cursor_pos`, a row and a column, in
/// a buffer whose rows hold the tokens `buffer`.
///
/// The row must be a row of the buffer, and the column must lie on a token
/// of the row, unless the row has none. The motion visits no row twice and
/// never leaves the rows between the caret and the sentinel row.
pub fn navigate(motion: Motion, buffer: &[Vec<ParsedToken>], cursor_pos: (usize, usize)) -> (landed:
    (usize, usize))
    requires
        1 <= cursor_pos.0 <= buffer@.len(),
        buffer@[cursor_pos.0 - 1]@.len() == 0 || covered(
            buffer@[cursor_pos.0 - 1]@,
            cursor_pos.1 as int,
        ),
    ensures
        landed == destination(motion, rows_of(buffer@), cursor_pos.0 as int, cursor_pos.1 as int),
        1 <= landed.0 <= buffer@.len(),
        motion.direction() == Direction::Backward ==> landed.0 <= cursor_pos.0,
        motion.direction() == Direction::Forward ==> landed.0 >= cursor_pos.0,
{
    let ghost rows = rows_of(buffer@);
    let row_count: usize = buffer.len();
    let mut row: usize = match begin(
        motion,
        row_count,
        cursor_pos,
        buffer[cursor_pos.0 - 1].as_slice(),
    ) {
        Step::Arrived { row, col } => {
            return (row, col);
        },
        Step::Visit { row } => row,
    };
    loop
        invariant
            rows == rows_of(buffer@),
            row_count == buffer@.len(),
            1 <= row <= row_count,
            motion.direction() == Direction::Backward ==> row <= cursor_pos.0,
            motion.direction() == Direction::Forward ==> row >= cursor_pos.0,
            landing(motion, rows, row as int) == destination(
                motion,
                rows,
                cursor_pos.0 as int,
                cursor_pos.1 as int,
            ),
        decreases rows_left(motion.direction(), row_count as int, row as int),
    {
        match proceed(motion, row_count, row, buffer[row - 1].as_slice()) {
            Step::Arrived { row, col } => {
                return (row, col);
            },
            Step::Visit { row: next } => {
                row = next;
            },
        }
    }
}

} // verus!
