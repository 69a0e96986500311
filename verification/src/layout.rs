//! Wave layout: validation of the level grids, the deterministic mapping
//! from grid cells to screen positions, and the seeding of the entity store
//! for a wave.

use vstd::prelude::*;
use crate::collision::value_sum;
use crate::entities::{alien_from_symbol, kind_of_symbol, Alien, AlienKind, Cannon, LayoutError};
use crate::formation::{alien_pos_bounded, aliens_bounded};
use crate::store::Store;
use crate::MAX_SCREEN_DIM;

verus! {

/// Most rows a level grid may have; larger grids cannot be placed on screen
/// coordinates and are rejected as malformed.
pub const MAX_GRID_ROWS: usize = 100;

/// Most columns a level grid row may have.
pub const MAX_GRID_COLS: usize = 100;

/// Most wave definitions a level list may have.
pub const MAX_LEVELS: usize = 100_000;

/// The grids of a level list, as mathematical sequences.
pub open spec fn grids_of(levels: Seq<Vec<Vec<char>>>) -> Seq<Seq<Seq<char>>> {
    levels.map_values(|g: Vec<Vec<char>>| g@.map_values(|row: Vec<char>| row@))
}

/// The rows of one grid, as mathematical sequences.
pub open spec fn grid_of(grid: Seq<Vec<char>>) -> Seq<Seq<char>> {
    grid.map_values(|row: Vec<char>| row@)
}

/// A well-formed grid: within the size caps, every symbol recognized.
pub open spec fn grid_ok(g: Seq<Seq<char>>) -> bool {
    &&& g.len() <= MAX_GRID_ROWS
    &&& forall|r: int| 0 <= r < g.len() ==> (#[trigger] g[r]).len() <= MAX_GRID_COLS
    &&& forall|r: int, c: int|
        0 <= r < g.len() && 0 <= c < g[r].len() ==> kind_of_symbol(#[trigger] g[r][c]) is Ok
}

/// A well-formed level list: nonempty, within the level cap, every grid
/// well-formed.
pub open spec fn levels_ok(ls: Seq<Seq<Seq<char>>>) -> bool {
    &&& 1 <= ls.len() <= MAX_LEVELS
    &&& forall|i: int| 0 <= i < ls.len() ==> grid_ok(#[trigger] ls[i])
}

/// Horizontal screen position of a grid column: columns are spread by the
/// pad and centered around the screen midline.
pub open spec fn cell_x(col: int, cols: int, pad: int) -> int {
    (col - cols / 2) * pad
}

/// Vertical screen position of a grid row: row zero sits just under the top
/// margin, and rows descend by the pad.
pub open spec fn cell_y(row: int, pad: int, screen_h: int) -> int {
    screen_h / 2 - screen_h / 30 - row * pad
}

/// Horizontal spacing between adjacent formation cells.
pub open spec fn pad_of(screen_w: int) -> int {
    screen_w / 10
}

/// Vertical start position of the cannon: just above the bottom margin.
pub open spec fn cannon_start_y(screen_h: int) -> int {
    -(screen_h / 2) + screen_h / 30
}

/// One formation cell worth occupying: an alien kind and its screen
/// position.
pub ghost struct Placement {
    pub kind: AlienKind,
    pub x: int,
    pub y: int,
}

/// The placements a grid row yields from column `col` on, in column order;
/// empty cells yield nothing.
pub open spec fn row_placements_from(
    row: Seq<char>,
    row_idx: int,
    col: int,
    screen_w: int,
    screen_h: int,
) -> Seq<Placement>
    decreases row.len() - col,
{
    if col < 0 || col >= row.len() {
        Seq::empty()
    } else {
        let rest = row_placements_from(row, row_idx, col + 1, screen_w, screen_h);
        match kind_of_symbol(row[col]) {
            Ok(Some(k)) => seq![
                Placement {
                    kind: k,
                    x: cell_x(col, row.len() as int, pad_of(screen_w)),
                    y: cell_y(row_idx, pad_of(screen_w), screen_h),
                },
            ] + rest,
            _ => rest,
        }
    }
}

/// The placements a grid yields from row `row` on, row-major.
pub open spec fn grid_placements_from(
    g: Seq<Seq<char>>,
    row: int,
    screen_w: int,
    screen_h: int,
) -> Seq<Placement>
    decreases g.len() - row,
{
    if row < 0 || row >= g.len() {
        Seq::empty()
    } else {
        row_placements_from(g[row], row, 0, screen_w, screen_h) + grid_placements_from(
            g,
            row + 1,
            screen_w,
            screen_h,
        )
    }
}

/// Every placement a grid yields, row-major: one per non-empty cell, at the
/// deterministic position of its cell.
pub open spec fn wave_placements(g: Seq<Seq<char>>, screen_w: int, screen_h: int) -> Seq<
    Placement,
> {
    grid_placements_from(g, 0, screen_w, screen_h)
}

/// The aliens realize the placements, one to one and in order.
pub open spec fn aliens_match_placements(aliens: Seq<Alien>, pls: Seq<Placement>) -> bool {
    &&& aliens.len() == pls.len()
    &&& forall|i: int|
        0 <= i < pls.len() ==> {
            &&& (#[trigger] aliens[i]).kind == pls[i].kind
            &&& aliens[i].x == pls[i].x
            &&& aliens[i].y == pls[i].y
        }
}

/// How many cells of the row, from column `col` on, hold an alien symbol.
pub open spec fn row_live_cells_from(row: Seq<char>, col: int) -> nat
    decreases row.len() - col,
{
    if col < 0 || col >= row.len() {
        0
    } else {
        (match kind_of_symbol(row[col]) {
            Ok(Some(k)) => 1nat,
            _ => 0nat,
        }) + row_live_cells_from(row, col + 1)
    }
}

/// How many cells of the grid, from row `row` on, hold an alien symbol.
pub open spec fn grid_live_cells_from(g: Seq<Seq<char>>, row: int) -> nat
    decreases g.len() - row,
{
    if row < 0 || row >= g.len() {
        0
    } else {
        row_live_cells_from(g[row], 0) + grid_live_cells_from(g, row + 1)
    }
}

/// The alien kinds a grid row denotes from column `col` on, in column order.
pub open spec fn row_kinds_from(row: Seq<char>, col: int) -> Seq<AlienKind>
    decreases row.len() - col,
{
    if col < 0 || col >= row.len() {
        Seq::empty()
    } else {
        let rest = row_kinds_from(row, col + 1);
        match kind_of_symbol(row[col]) {
            Ok(Some(k)) => seq![k] + rest,
            _ => rest,
        }
    }
}

/// The alien kinds a grid denotes from row `row` on, row-major.
pub open spec fn grid_kinds_from(g: Seq<Seq<char>>, row: int) -> Seq<AlienKind>
    decreases g.len() - row,
{
    if row < 0 || row >= g.len() {
        Seq::empty()
    } else {
        row_kinds_from(g[row], 0) + grid_kinds_from(g, row + 1)
    }
}

proof fn lemma_row_placements_kinds(row: Seq<char>, row_idx: int, col: int, w: int, h: int)
    ensures
        row_placements_from(row, row_idx, col, w, h).map_values(|p: Placement| p.kind)
            == row_kinds_from(row, col),
    decreases row.len() - col,
{
    let f = |p: Placement| p.kind;
    if col < 0 || col >= row.len() {
        assert(row_placements_from(row, row_idx, col, w, h).map_values(f) =~= Seq::<
            AlienKind,
        >::empty());
    } else {
        lemma_row_placements_kinds(row, row_idx, col + 1, w, h);
        let rest = row_placements_from(row, row_idx, col + 1, w, h);
        match kind_of_symbol(row[col]) {
            Ok(Some(k)) => {
                let pl = Placement {
                    kind: k,
                    x: cell_x(col, row.len() as int, pad_of(w)),
                    y: cell_y(row_idx, pad_of(w), h),
                };
                assert((seq![pl] + rest).map_values(f) =~= seq![k] + rest.map_values(f));
            },
            _ => {},
        }
    }
}

proof fn lemma_grid_placements_kinds(g: Seq<Seq<char>>, row: int, w: int, h: int)
    ensures
        grid_placements_from(g, row, w, h).map_values(|p: Placement| p.kind) == grid_kinds_from(
            g,
            row,
        ),
    decreases g.len() - row,
{
    let f = |p: Placement| p.kind;
    if row < 0 || row >= g.len() {
        assert(grid_placements_from(g, row, w, h).map_values(f) =~= Seq::<AlienKind>::empty());
    } else {
        lemma_row_placements_kinds(g[row], row, 0, w, h);
        lemma_grid_placements_kinds(g, row + 1, w, h);
        let rp = row_placements_from(g[row], row, 0, w, h);
        let gp = grid_placements_from(g, row + 1, w, h);
        assert((rp + gp).map_values(f) =~= rp.map_values(f) + gp.map_values(f));
    }
}

/// The kinds of a grid's placements are exactly the kinds its symbols
/// denote, row-major: the screen positions add nothing and drop nothing.
pub proof fn lemma_wave_placements_kinds(g: Seq<Seq<char>>, w: int, h: int)
    ensures
        wave_placements(g, w, h).map_values(|p: Placement| p.kind) == grid_kinds_from(g, 0),
{
    lemma_grid_placements_kinds(g, 0, w, h);
}

proof fn lemma_row_placements_len(row: Seq<char>, row_idx: int, col: int, w: int, h: int)
    ensures
        row_placements_from(row, row_idx, col, w, h).len() == row_live_cells_from(row, col),
    decreases row.len() - col,
{
    if !(col < 0 || col >= row.len()) {
        lemma_row_placements_len(row, row_idx, col + 1, w, h);
    }
}

proof fn lemma_grid_placements_len(g: Seq<Seq<char>>, row: int, w: int, h: int)
    ensures
        grid_placements_from(g, row, w, h).len() == grid_live_cells_from(g, row),
    decreases g.len() - row,
{
    if !(row < 0 || row >= g.len()) {
        lemma_row_placements_len(g[row], row, 0, w, h);
        lemma_grid_placements_len(g, row + 1, w, h);
    }
}

/// A grid yields exactly one placement per cell holding an alien symbol.
pub proof fn lemma_wave_placements_count(g: Seq<Seq<char>>, w: int, h: int)
    ensures
        wave_placements(g, w, h).len() == grid_live_cells_from(g, 0),
{
    lemma_grid_placements_len(g, 0, w, h);
}

proof fn lemma_row_live_cells_bound(row: Seq<char>, col: int)
    requires
        0 <= col <= row.len(),
    ensures
        row_live_cells_from(row, col) <= row.len() - col,
    decreases row.len() - col,
{
    if col < row.len() {
        lemma_row_live_cells_bound(row, col + 1);
    }
}

proof fn lemma_grid_live_cells_bound(g: Seq<Seq<char>>, row: int)
    requires
        forall|r: int| 0 <= r < g.len() ==> (#[trigger] g[r]).len() <= MAX_GRID_COLS,
        0 <= row <= g.len(),
    ensures
        grid_live_cells_from(g, row) <= (g.len() - row) * MAX_GRID_COLS,
    decreases g.len() - row,
{
    if row < g.len() {
        lemma_row_live_cells_bound(g[row], 0);
        lemma_grid_live_cells_bound(g, row + 1);
        assert((g.len() - row) * MAX_GRID_COLS == (g.len() - row - 1) * MAX_GRID_COLS
            + MAX_GRID_COLS) by (nonlinear_arith);
    }
}

/// A well-formed grid yields at most `MAX_GRID_ROWS * MAX_GRID_COLS`
/// placements.
pub proof fn lemma_wave_placements_bound(g: Seq<Seq<char>>, w: int, h: int)
    requires
        grid_ok(g),
    ensures
        wave_placements(g, w, h).len() <= MAX_GRID_ROWS * MAX_GRID_COLS,
{
    lemma_wave_placements_count(g, w, h);
    lemma_grid_live_cells_bound(g, 0);
    assert(g.len() * MAX_GRID_COLS <= MAX_GRID_ROWS * MAX_GRID_COLS) by (nonlinear_arith)
        requires
            g.len() <= MAX_GRID_ROWS,
    ;
}

/// The total point value of aliens is at most fifty per alien.
pub proof fn lemma_value_sum_bound(s: Seq<Alien>)
    ensures
        value_sum(s) <= 50 * s.len(),
    decreases s.len(),
{
    if s.len() > 0 {
        lemma_value_sum_bound(s.drop_first());
    }
}

/// Checks the level list: `Ok` exactly on a well-formed list; an empty list
/// is a level-index error, anything else malformed is a load error.
pub fn validate_levels(levels: &Vec<Vec<Vec<char>>>) -> (r: Result<(), LayoutError>)
    ensures
        r is Ok <==> levels_ok(grids_of(levels@)),
        r == Err::<(), LayoutError>(LayoutError::IndexOutOfRange) <==> levels@.len() == 0,
{
    let n = levels.len();
    if n == 0 {
        return Err(LayoutError::IndexOutOfRange);
    }
    if n > MAX_LEVELS {
        return Err(LayoutError::LoadError);
    }
    let ghost ls = grids_of(levels@);
    let mut i: usize = 0;
    while i < n
        invariant
            ls == grids_of(levels@),
            n == levels@.len(),
            1 <= n <= MAX_LEVELS,
            i <= n,
            forall|k: int| 0 <= k < i ==> grid_ok(#[trigger] ls[k]),
        decreases n - i,
    {
        let grid = &levels[i];
        let rows = grid.len();
        if rows > MAX_GRID_ROWS {
            proof {
                assert(ls[i as int] == grid_of(grid@));
                assert(ls[i as int].len() > MAX_GRID_ROWS);
                assert(!grid_ok(ls[i as int]));
            }
            return Err(LayoutError::LoadError);
        }
        let ghost gv = grid_of(grid@);
        let mut r: usize = 0;
        while r < rows
            invariant
                ls == grids_of(levels@),
                n == levels@.len(),
                1 <= n,
                i < n,
                gv == grid_of(grid@),
                gv == ls[i as int],
                grid == levels@[i as int],
                rows == grid@.len(),
                rows <= MAX_GRID_ROWS,
                r <= rows,
                forall|k: int| 0 <= k < r ==> (#[trigger] gv[k]).len() <= MAX_GRID_COLS,
                forall|k: int, c: int|
                    0 <= k < r && 0 <= c < gv[k].len() ==> kind_of_symbol(
                        #[trigger] gv[k][c],
                    ) is Ok,
            decreases rows - r,
        {
            let row = &grid[r];
            let cols = row.len();
            if cols > MAX_GRID_COLS {
                proof {
                    assert(gv[r as int] == row@);
                    assert(!grid_ok(ls[i as int]));
                }
                return Err(LayoutError::LoadError);
            }
            let mut c: usize = 0;
            while c < cols
                invariant
                    ls == grids_of(levels@),
                    n == levels@.len(),
                    1 <= n,
                    i < n,
                    gv == grid_of(grid@),
                    gv == ls[i as int],
                    grid == levels@[i as int],
                    r < grid@.len(),
                    row == grid@[r as int],
                    cols == row@.len(),
                    c <= cols,
                    forall|m: int|
                        0 <= m < c ==> kind_of_symbol(#[trigger] row@[m]) is Ok,
                decreases cols - c,
            {
                let sym = row[c];
                if alien_from_symbol(sym).is_err() {
                    proof {
                        assert(gv[r as int] == row@);
                        assert(gv[r as int][c as int] == sym);
                        assert(!grid_ok(ls[i as int]));
                    }
                    return Err(LayoutError::LoadError);
                }
                c += 1;
            }
            proof {
                assert(gv[r as int] == row@);
            }
            r += 1;
        }
        i += 1;
    }
    Ok(())
}

/// Clears the store and seeds it for one wave: the cannon at its start
/// position with the given lives and score, and one alien per non-empty
/// grid cell, at the cell's position, in row-major order; no projectiles
/// survive into the new wave.
pub fn seed_wave(
    store: &mut Store,
    grid: &Vec<Vec<char>>,
    screen_w: i32,
    screen_h: i32,
    lives: u32,
    score: u64,
)
    requires
        0 < screen_w <= MAX_SCREEN_DIM,
        0 < screen_h <= MAX_SCREEN_DIM,
        grid_ok(grid_of(grid@)),
    ensures
        final(store).cannon == Some(
            Cannon { x: 0, y: (cannon_start_y(screen_h as int) as i32), lives, score },
        ),
        final(store).projectiles@ =~= Seq::<crate::entities::Projectile>::empty(),
        aliens_match_placements(
            final(store).aliens@,
            wave_placements(grid_of(grid@), screen_w as int, screen_h as int),
        ),
        aliens_bounded(final(store).aliens@),
{
    let ghost gv = grid_of(grid@);
    let ghost w = screen_w as int;
    let ghost h = screen_h as int;
    let ghost wave = wave_placements(gv, w, h);

    store.despawn_all();
    let bottom = -(screen_h / 2) + screen_h / 30;
    store.place_cannon(Cannon { x: 0, y: bottom, lives, score });

    let pad = screen_w / 10;
    let rows = grid.len();
    let ghost mut done: Seq<Placement> = Seq::empty();
    let mut r: usize = 0;
    proof {
        assert(done + grid_placements_from(gv, 0, w, h) =~= wave);
    }
    while r < rows
        invariant
            gv == grid_of(grid@),
            w == screen_w as int,
            h == screen_h as int,
            wave == wave_placements(gv, w, h),
            0 < screen_w <= MAX_SCREEN_DIM,
            0 < screen_h <= MAX_SCREEN_DIM,
            pad == w / 10,
            grid_ok(gv),
            rows == grid@.len(),
            r <= rows,
            store.cannon == Some(
                Cannon { x: 0, y: (cannon_start_y(h) as i32), lives, score },
            ),
            store.projectiles@ =~= Seq::<crate::entities::Projectile>::empty(),
            done + grid_placements_from(gv, r as int, w, h) == wave,
            aliens_match_placements(store.aliens@, done),
            aliens_bounded(store.aliens@),
        decreases rows - r,
    {
        let row = &grid[r];
        let cols = row.len();
        let ghost rowv = row@;
        let mut c: usize = 0;
        proof {
            assert(gv[r as int] == rowv);
            assert(grid_placements_from(gv, r as int, w, h) == row_placements_from(
                rowv,
                r as int,
                0,
                w,
                h,
            ) + grid_placements_from(gv, r as int + 1, w, h));
            assert((done + (row_placements_from(rowv, r as int, 0, w, h)
                + grid_placements_from(gv, r as int + 1, w, h))) =~= (done
                + row_placements_from(rowv, r as int, 0, w, h)) + grid_placements_from(
                gv,
                r as int + 1,
                w,
                h,
            ));
        }
        while c < cols
            invariant
                gv == grid_of(grid@),
                w == screen_w as int,
                h == screen_h as int,
                wave == wave_placements(gv, w, h),
                0 < screen_w <= MAX_SCREEN_DIM,
                0 < screen_h <= MAX_SCREEN_DIM,
                pad == w / 10,
                grid_ok(gv),
                rows == grid@.len(),
                r < rows,
                rowv == row@,
                rowv == gv[r as int],
                cols == row@.len(),
                c <= cols,
                store.cannon == Some(
                    Cannon { x: 0, y: (cannon_start_y(h) as i32), lives, score },
                ),
                store.projectiles@ =~= Seq::<crate::entities::Projectile>::empty(),
                (done + row_placements_from(rowv, r as int, c as int, w, h))
                    + grid_placements_from(gv, r as int + 1, w, h) == wave,
                aliens_match_placements(store.aliens@, done),
                aliens_bounded(store.aliens@),
            decreases cols - c,
        {
            let sym = row[c];
            proof {
                assert(kind_of_symbol(gv[r as int][c as int]) is Ok);
                assert(rowv[c as int] == sym);
            }
            let decoded = match alien_from_symbol(sym) {
                Ok(d) => d,
                Err(_) => unreached(),
            };
            match decoded {
                Some(kind) => {
                    proof {
                        assert(rowv.len() <= MAX_GRID_COLS);
                        assert(gv.len() <= MAX_GRID_ROWS);
                        let d = c as int - (cols as int) / 2;
                        assert(-100 <= d <= 100);
                        assert(-10_000_000 <= d * (pad as int) <= 10_000_000)
                            by (nonlinear_arith)
                            requires
                                -100 <= d <= 100,
                                0 <= pad as int <= 100_000,
                        ;
                        assert(0 <= (r as int) * (pad as int) <= 10_000_000)
                            by (nonlinear_arith)
                            requires
                                0 <= r as int <= 100,
                                0 <= pad as int <= 100_000,
                        ;
                    }
                    let x = (c as i32 - (cols as i32) / 2) * pad;
                    let y = screen_h / 2 - screen_h / 30 - (r as i32) * pad;
                    let ghost pl = Placement { kind, x: x as int, y: y as int };
                    proof {
                        assert(alien_pos_bounded(
                            Alien { id: store.next_id, kind, x, y },
                        ));
                        assert(x as int == cell_x(c as int, rowv.len() as int, pad_of(w)));
                        assert(y as int == cell_y(r as int, pad_of(w), h));
                        assert(row_placements_from(rowv, r as int, c as int, w, h) == seq![pl]
                            + row_placements_from(rowv, r as int, c as int + 1, w, h));
                        assert((done + row_placements_from(rowv, r as int, c as int, w, h))
                            =~= (done.push(pl) + row_placements_from(
                            rowv,
                            r as int,
                            c as int + 1,
                            w,
                            h,
                        )));
                        done = done.push(pl);
                    }
                    store.spawn_alien(kind, x, y);
                },
                None => {
                    proof {
                        assert(row_placements_from(rowv, r as int, c as int, w, h)
                            == row_placements_from(rowv, r as int, c as int + 1, w, h));
                    }
                },
            }
            c += 1;
        }
        proof {
            assert(row_placements_from(rowv, r as int, cols as int, w, h) =~= Seq::<
                Placement,
            >::empty());
            assert((done + Seq::<Placement>::empty()) =~= done);
        }
        r += 1;
    }
    proof {
        assert(grid_placements_from(gv, rows as int, w, h) =~= Seq::<Placement>::empty());
        assert((done + Seq::<Placement>::empty()) =~= done);
    }
}

} // verus!
