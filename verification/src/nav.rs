//! Cursor motion over a list of rows.
//!
//! Every tab owns one or more cursors.  A cursor over a list of `len`
//! rows stays in `[0, len - 1]`, and sits at 0 when the list is empty.

use vstd::prelude::*;

verus! {

/// The cursor invariant: inside the list, or 0 when the list is empty.
pub open spec fn cursor_ok(cursor: int, len: int) -> bool {
    if len <= 0 {
        cursor == 0
    } else {
        0 <= cursor < len
    }
}

/// One cursor motion.
#[derive(Clone, Copy, Debug, PartialEq, Eq, Structural)]
pub enum NavOp {
    Up,
    Down,
    Top,
    Bottom,
}

/// Where one motion sends a cursor over `len` rows.
pub open spec fn nav_step(cursor: int, len: int, op: NavOp) -> int {
    match op {
        NavOp::Up => if cursor > 0 { cursor - 1 } else { 0 },
        NavOp::Down => if cursor + 1 < len { cursor + 1 } else { cursor },
        NavOp::Top => 0,
        NavOp::Bottom => if len > 0 { len - 1 } else { 0 },
    }
}

/// Where a whole sequence of motions, applied left to right, sends a cursor.
pub open spec fn nav_run(cursor: int, len: int, ops: Seq<NavOp>) -> int
    decreases ops.len(),
{
    if ops.len() == 0 {
        cursor
    } else {
        nav_run(nav_step(cursor, len, ops[0]), len, ops.skip(1))
    }
}

/// Move one row down, staying on the last row.
pub fn cursor_down(cursor: usize, len: usize) -> (r: usize)
    ensures
        r == nav_step(cursor as int, len as int, NavOp::Down),
{
    if cursor < len.saturating_sub(1) {
        cursor + 1
    } else {
        cursor
    }
}

/// Move one row up, staying on the first row.
pub fn cursor_up(cursor: usize) -> (r: usize)
    ensures
        r == nav_step(cursor as int, 0, NavOp::Up),
{
    cursor.saturating_sub(1)
}

/// Jump to the first row.
pub fn cursor_top() -> (r: usize)
    ensures
        r == nav_step(0, 0, NavOp::Top),
{
    0
}

/// Jump to the last row (0 when the list is empty).
pub fn cursor_bottom(len: usize) -> (r: usize)
    ensures
        r == nav_step(0, len as int, NavOp::Bottom),
{
    len.saturating_sub(1)
}

/// Where a cursor lands when its list is replaced by one of length
/// `len`: unchanged while still inside, else on the last row, or 0 for
/// an empty list.
pub open spec fn spec_clamp(cursor: int, len: int) -> int {
    if len <= 0 {
        0
    } else if cursor < len {
        cursor
    } else {
        len - 1
    }
}

/// Re-clamp a cursor after its list changed size.
pub fn clamp_cursor(cursor: usize, len: usize) -> (r: usize)
    ensures
        r == spec_clamp(cursor as int, len as int),
        cursor_ok(r as int, len as int),
{
    if len == 0 {
        0
    } else if cursor < len {
        cursor
    } else {
        len - 1
    }
}

/// One motion keeps the cursor invariant.
pub proof fn lemma_nav_step_ok(cursor: int, len: int, op: NavOp)
    requires
        cursor_ok(cursor, len),
    ensures
        cursor_ok(nav_step(cursor, len, op), len),
{
}

/// A cursor that starts inside its list stays inside it under any
/// sequence of up/down/top/bottom motions: it remains in `[0, len - 1]`,
/// or at 0 when the list is empty.
pub proof fn lemma_nav_run_ok(cursor: int, len: int, ops: Seq<NavOp>)
    requires
        cursor_ok(cursor, len),
    ensures
        cursor_ok(nav_run(cursor, len, ops), len),
    decreases ops.len(),
{
    if ops.len() > 0 {
        lemma_nav_step_ok(cursor, len, ops[0]);
        lemma_nav_run_ok(nav_step(cursor, len, ops[0]), len, ops.skip(1));
    }
}

} // verus!
