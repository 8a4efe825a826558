//! A cooperative multi-window document workspace: four fixed-grid windows,
//! each with its own bounded file directory, a line/cursor editor, and a
//! tick-driven program runner, multiplexed by a round-robin scheduler with a
//! global file-creation modal. All drawing goes to an in-memory character
//! grid that a host may copy to a real display.

use vstd::prelude::*;

pub mod doc;
pub mod manager;
pub mod interp;
pub mod screen;
pub mod storage;

verus! {

/// Width of the whole character grid, in columns.
pub const SCREEN_WIDTH: usize = 80;
/// Height of the whole character grid, in rows.
pub const SCREEN_HEIGHT: usize = 25;
/// Columns on the right reserved for the per-window tick counters.
pub const TASK_MANAGER_WIDTH: usize = 10;
/// Columns available to the four windows.
pub const WIN_REGION_WIDTH: usize = SCREEN_WIDTH - TASK_MANAGER_WIDTH;
/// Columns of text inside one window.
pub const WINDOW_WIDTH: usize = (WIN_REGION_WIDTH - 3) / 2;
/// Rows of text inside one window.
pub const WINDOW_HEIGHT: usize = 10;

/// Top-left text cell of the first window.
pub const WINDOW_1_START_COL: usize = 1;
pub const WINDOW_1_START_ROW: usize = 2;
/// Top-left text cell of the second window.
pub const WINDOW_2_START_COL: usize = 36;
pub const WINDOW_2_START_ROW: usize = 2;
/// Top-left text cell of the third window.
pub const WINDOW_3_START_COL: usize = 1;
pub const WINDOW_3_START_ROW: usize = 14;
/// Top-left text cell of the fourth window.
pub const WINDOW_4_START_COL: usize = 36;
pub const WINDOW_4_START_ROW: usize = 14;

/// Most files any one directory can hold.
pub const MAX_FILES_STORED: usize = 31;
/// Longest stored filename, in bytes (the last byte stays a terminator).
pub const MAX_FILENAME_BYTES: usize = 10;
/// Largest stored file, in bytes.
pub const MAX_FILE_BYTES: usize = 16384;

/// Adds two numbers and wraps the sum around `LIMIT`.
pub fn safe_add<const LIMIT: usize>(a: usize, b: usize) -> (r: usize)
    requires
        LIMIT > 0,
        a + b <= usize::MAX,
    ensures
        r == (a + b) % (LIMIT as int),
{
    mod_floor_usize(a + b, LIMIT)
}

/// Adds one and wraps around `LIMIT`.
pub fn add1<const LIMIT: usize>(value: usize) -> (r: usize)
    requires
        LIMIT > 0,
        value < usize::MAX,
    ensures
        r == (value + 1) % (LIMIT as int),
{
    safe_add::<LIMIT>(value, 1)
}

/// Relies on num's `Integer::mod_floor`: on an unsigned type the floored
/// modulus is the plain remainder, and the call panics only on a zero
/// modulus, which the precondition rules out.
#[verifier::external_body]
fn mod_floor_usize(a: usize, m: usize) -> (r: usize)
    requires
        m > 0,
    ensures
        r == a % m,
{
    num::Integer::mod_floor(&a, &m)
}

} // verus!
