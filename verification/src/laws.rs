//! Laws that relate several grid operations, stated over the same spec
//! functions that the operations' contracts use.

use vstd::prelude::*;
use crate::universe::{pos_of, toggled_at, Cell, Universe};

verus! {

/// Law: the next generation is a function of the current cell sequence and
/// the dimensions alone, so two grids in the same state step to the same
/// next state.
pub proof fn lemma_step_deterministic(a: Universe, b: Universe)
    requires
        a.width == b.width,
        a.height == b.height,
        a.cells@ == b.cells@,
    ensures
        a.step_spec() == b.step_spec(),
{
}

/// Law: the stepped grid holds, at every position, exactly the rule table
/// applied to that cell and its live-neighbor count in the pre-step
/// snapshot — the per-cell reading of what `tick` ensures, and the reason
/// no in-place, partially updated evaluation order could change a result.
pub proof fn lemma_step_pointwise(u: Universe, row: int, col: int)
    requires
        u.well_formed(),
        u.in_bounds(row, col),
    ensures
        u.step_spec()[pos_of(row, col, u.width as int)] == crate::universe::next_cell(
            u.cell_at(row, col),
            u.neighbor_count_spec(row, col),
        ),
{
    crate::universe::lemma_pos_in_range(row, col, u.width as int, u.height as int);
    vstd::arithmetic::div_mod::lemma_fundamental_div_mod_converse(
        pos_of(row, col, u.width as int),
        u.width as int,
        row,
        col,
    );
}

/// Law: toggling the same position twice restores the original state.
/// The two premises are exactly what `toggle_cell` ensures of each call.
pub proof fn lemma_toggle_cell_twice(u0: Universe, u1: Universe, u2: Universe, row: int, col: int)
    requires
        u0.well_formed(),
        u0.in_bounds(row, col),
        u1.width == u0.width,
        u1.height == u0.height,
        u1.cells@ == toggled_at(u0.cells@, pos_of(row, col, u0.width as int)),
        u2.width == u1.width,
        u2.height == u1.height,
        u2.cells@ == toggled_at(u1.cells@, pos_of(row, col, u1.width as int)),
    ensures
        u2.width == u0.width,
        u2.height == u0.height,
        u2.cells@ == u0.cells@,
{
    crate::universe::lemma_pos_in_range(row, col, u0.width as int, u0.height as int);
    assert(u2.cells@ =~= u0.cells@);
}

/// Law: forcing the same position alive twice is the same as doing it
/// once. The two premises are exactly what `set_alive_cell` ensures of
/// each call.
pub proof fn lemma_set_alive_cell_idempotent(
    u0: Universe,
    u1: Universe,
    u2: Universe,
    row: int,
    col: int,
)
    requires
        u0.well_formed(),
        u0.in_bounds(row, col),
        u1.width == u0.width,
        u1.height == u0.height,
        u1.cells@ == u0.cells@.update(pos_of(row, col, u0.width as int), Cell::Alive),
        u2.width == u1.width,
        u2.height == u1.height,
        u2.cells@ == u1.cells@.update(pos_of(row, col, u1.width as int), Cell::Alive),
    ensures
        u2.width == u1.width,
        u2.height == u1.height,
        u2.cells@ == u1.cells@,
{
    crate::universe::lemma_pos_in_range(row, col, u0.width as int, u0.height as int);
    assert(u2.cells@ =~= u1.cells@);
}

} // verus!
