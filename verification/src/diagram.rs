//! Box diagrams of a tab's arrangement, one string per line.
//!
//! The tree is first cut into a grid of cells, each cell holding the number
//! of the pane drawn there; walls are then the *boundaries* between cells
//! that belong to different panes. Drawing walls inside cells instead gives
//! wrong corners: a wall that starts halfway along a row has no junction to
//! hang from. Cutting the grid follows the split ratios Herdr reports, which
//! are floating point, so the caller does it; the drawing from the grid is
//! here.
use vstd::prelude::*;

use crate::layout::{string_views, Shape, Side, Tree};
use crate::term::{geometry_of, join_panels, joined_row, tallest, Geometry, SMALLEST_BOX, blank_box, centre, centred, cols, columns, columns_of, empty_box, line_views, outline_spec, stack, stacked_spec, title, titled, widest_line, Panel, HIGHLIGHT};
use crate::text::{chars_of, push_char, same_text, string_of};

verus! {

// ---------------------------------------------------------------------------
// Numbering the panes
// ---------------------------------------------------------------------------

/// The panes in the order the grid numbers them: of each split, the branch
/// drawn first (left or top) first.
pub open spec fn drawn_order(t: Tree) -> Seq<Seq<char>>
    decreases t,
{
    match t {
        Tree::Leaf(id) => seq![id],
        Tree::Node(side, _, a, b) => if side == Side::Left || side == Side::Up {
            drawn_order(*b) + drawn_order(*a)
        } else {
            drawn_order(*a) + drawn_order(*b)
        },
    }
}

/// `i` is where `id` first appears in `s`.
pub open spec fn first_at(s: Seq<Seq<char>>, id: Seq<char>, i: int) -> bool {
    &&& 0 <= i < s.len()
    &&& s[i] == id
    &&& forall|j: int| 0 <= j < i ==> s[j] != id
}

/// The number the grid gives pane `id`: one more than where it first
/// appears in drawing order; none for a pane not in the tree.
pub open spec fn cell_number(t: Tree, id: Seq<char>) -> Option<nat> {
    if exists|i: int| first_at(drawn_order(t), id, i) {
        Some((choose|i: int| first_at(drawn_order(t), id, i)) as nat + 1)
    } else {
        None
    }
}

proof fn lemma_first_unique(s: Seq<Seq<char>>, id: Seq<char>, i: int, k: int)
    requires
        first_at(s, id, i),
        first_at(s, id, k),
    ensures
        i == k,
{
}

fn drawn_ids(shape: &Shape) -> (r: Vec<String>)
    ensures
        string_views(r@) == drawn_order(shape@),
    decreases shape,
{
    match shape {
        Shape::Pane(id) => {
            let mut v: Vec<String> = Vec::new();
            v.push(id.clone());
            proof {
                assert(string_views(v@) =~= seq![id@]);
            }
            v
        },
        Shape::Split { side, first, second, .. } => {
            let flipped = match side {
                Side::Left | Side::Up => true,
                Side::Right | Side::Down => false,
            };
            let (mut out, mut rest) = if flipped {
                (drawn_ids(second), drawn_ids(first))
            } else {
                (drawn_ids(first), drawn_ids(second))
            };
            let ghost a = out@;
            let ghost b = rest@;
            out.append(&mut rest);
            proof {
                assert(out@ == a + b);
                assert(string_views(out@) =~= string_views(a) + string_views(b));
            }
            out
        },
    }
}

/// The number the grid gives pane `id`, as `cell_number` says.
pub fn find(shape: &Shape, id: &str) -> (r: Option<usize>)
    ensures
        match r {
            Some(n) => cell_number(shape@, id@) == Some(n as nat),
            None => cell_number(shape@, id@) is None,
        },
{
    let order = drawn_ids(shape);
    let ghost s = drawn_order(shape@);
    let mut i: usize = 0;
    while i < order.len()
        invariant
            string_views(order@) == s,
            s == drawn_order(shape@),
            i <= order@.len(),
            forall|j: int| 0 <= j < i ==> s[j] != id@,
        decreases order@.len() - i,
    {
        proof {
            assert(s[i as int] == order@[i as int]@);
        }
        if same_text(order[i].as_str(), id) {
            proof {
                assert(s[i as int] == order@[i as int]@);
                assert(first_at(s, id@, i as int));
                let k = choose|k: int| first_at(s, id@, k);
                lemma_first_unique(s, id@, i as int, k);
            }
            return Some(i + 1);
        }
        i = i + 1;
    }
    None
}

// ---------------------------------------------------------------------------
// Walls
// ---------------------------------------------------------------------------

/// The box-drawing character where walls meet, from which of the four
/// directions a wall arrives.
pub open spec fn junction_of(up: bool, down: bool, left: bool, right: bool) -> char {
    if up && down {
        if left && right { '┼' } else if left { '┤' } else if right { '├' } else { '│' }
    } else if up {
        if left && right { '┴' } else if left { '┘' } else if right { '└' } else { '│' }
    } else if down {
        if left && right { '┬' } else if left { '┐' } else if right { '┌' } else { '│' }
    } else {
        if left || right { '─' } else { ' ' }
    }
}

pub fn junction(up: bool, down: bool, left: bool, right: bool) -> (r: char)
    ensures
        r == junction_of(up, down, left, right),
{
    match (up, down, left, right) {
        (true, true, true, true) => '┼',
        (true, true, true, false) => '┤',
        (true, true, false, true) => '├',
        (true, true, false, false) => '│',
        (true, false, true, true) => '┴',
        (true, false, true, false) => '┘',
        (true, false, false, true) => '└',
        (false, true, true, true) => '┬',
        (false, true, true, false) => '┐',
        (false, true, false, true) => '┌',
        (false, false, true, true) => '─',
        (true, false, false, false) | (false, true, false, false) => '│',
        (false, false, true, false) | (false, false, false, true) => '─',
        (false, false, false, false) => ' ',
    }
}

/// The grid as numbers: row by row, each cell the number of its pane.
pub open spec fn cells(grid: Seq<Vec<usize>>) -> Seq<Seq<usize>> {
    grid.map_values(|row: Vec<usize>| row@)
}

/// Every row `w` cells wide, with at least one row and one column.
pub open spec fn rectangular(g: Seq<Seq<usize>>, w: nat) -> bool {
    &&& g.len() >= 1
    &&& w >= 1
    &&& forall|y: int| 0 <= y < g.len() ==> (#[trigger] g[y]).len() == w
}

/// A vertical wall stands left of cell `x` in row `y`: at either edge, or
/// where two different panes meet.
pub open spec fn vwall(g: Seq<Seq<usize>>, w: int, x: int, y: int) -> bool {
    x == 0 || x == w || g[y][x - 1] != g[y][x]
}

/// A horizontal wall stands above cell `x` of row `y`.
pub open spec fn hwall(g: Seq<Seq<usize>>, x: int, y: int) -> bool {
    y == 0 || y == g.len() || g[y - 1][x] != g[y][x]
}

/// The cell belongs to a shaded pane.
pub open spec fn shaded(g: Seq<Seq<usize>>, m: Seq<usize>, x: int, y: int) -> bool {
    m.contains(g[y][x])
}

/// The gap left of cell `x` lies inside one shaded pane.
pub open spec fn gap_h(g: Seq<Seq<usize>>, m: Seq<usize>, w: int, x: int, y: int) -> bool {
    0 < x < w && !vwall(g, w, x, y) && shaded(g, m, x - 1, y) && shaded(g, m, x, y)
}

/// The gap above cell `x` lies inside one shaded pane.
pub open spec fn gap_v(g: Seq<Seq<usize>>, m: Seq<usize>, x: int, y: int) -> bool {
    0 < y < g.len() && !hwall(g, x, y) && shaded(g, m, x, y - 1) && shaded(g, m, x, y)
}

/// The `i`-th character of the boundary line above row `y` (`y` may be the
/// row count, for the bottom edge): corners at even positions, the walls
/// between them at odd ones. Inside a shaded pane even corners are shaded.
pub open spec fn rule_char(g: Seq<Seq<usize>>, m: Seq<usize>, w: int, y: int, i: int) -> char {
    let h = g.len() as int;
    let x = i / 2;
    if i % 2 == 0 {
        let up = y > 0 && vwall(g, w, x, y - 1);
        let down = y < h && vwall(g, w, x, y);
        let left = x > 0 && hwall(g, x - 1, y);
        let right = x < w && hwall(g, x, y);
        let corner = junction_of(up, down, left, right);
        if corner == ' ' && gap_v(g, m, if x < w - 1 { x } else { w - 1 }, y) && gap_h(
            g,
            m,
            w,
            x,
            if y < h - 1 { y } else { h - 1 },
        ) {
            HIGHLIGHT
        } else {
            corner
        }
    } else if hwall(g, x, y) {
        '─'
    } else if gap_v(g, m, x, y) {
        HIGHLIGHT
    } else {
        ' '
    }
}

/// The `i`-th character of the line through row `y`: walls at even
/// positions, the cells at odd ones.
pub open spec fn cell_char(g: Seq<Seq<usize>>, m: Seq<usize>, w: int, y: int, i: int) -> char {
    let x = i / 2;
    if i % 2 == 0 {
        if vwall(g, w, x, y) {
            '│'
        } else if gap_h(g, m, w, x, y) {
            HIGHLIGHT
        } else {
            ' '
        }
    } else if shaded(g, m, x, y) {
        HIGHLIGHT
    } else {
        ' '
    }
}

/// Line `k` of the drawing: boundary lines and cell lines alternate, each
/// `2w + 1` characters.
pub open spec fn drawn_line(g: Seq<Seq<usize>>, m: Seq<usize>, w: int, k: int) -> Seq<char> {
    Seq::new(
        (2 * w + 1) as nat,
        |i: int|
            if k % 2 == 0 {
                rule_char(g, m, w, k / 2, i)
            } else {
                cell_char(g, m, w, k / 2, i)
            },
    )
}

fn vwall_at(grid: &Vec<Vec<usize>>, w: usize, x: usize, y: usize) -> (r: bool)
    requires
        rectangular(cells(grid@), w as nat),
        x <= w,
        y < grid@.len(),
    ensures
        r == vwall(cells(grid@), w as int, x as int, y as int),
{
    proof {
        assert(cells(grid@)[y as int] == grid@[y as int]@);
    }
    x == 0 || x == w || grid[y][x - 1] != grid[y][x]
}

fn hwall_at(grid: &Vec<Vec<usize>>, w: usize, x: usize, y: usize) -> (r: bool)
    requires
        rectangular(cells(grid@), w as nat),
        x < w,
        y <= grid@.len(),
    ensures
        r == hwall(cells(grid@), x as int, y as int),
{
    if y == 0 || y == grid.len() {
        true
    } else {
        proof {
            assert(cells(grid@)[y as int] == grid@[y as int]@);
            assert(cells(grid@)[y - 1] == grid@[y - 1]@);
        }
        grid[y - 1][x] != grid[y][x]
    }
}

fn contains(marked: &Vec<usize>, c: usize) -> (r: bool)
    ensures
        r == marked@.contains(c),
{
    let mut i: usize = 0;
    while i < marked.len()
        invariant
            i <= marked@.len(),
            forall|j: int| 0 <= j < i ==> marked@[j] != c,
        decreases marked@.len() - i,
    {
        if marked[i] == c {
            return true;
        }
        i = i + 1;
    }
    false
}

fn shaded_at(grid: &Vec<Vec<usize>>, marked: &Vec<usize>, w: usize, x: usize, y: usize) -> (r: bool)
    requires
        rectangular(cells(grid@), w as nat),
        x < w,
        y < grid@.len(),
    ensures
        r == shaded(cells(grid@), marked@, x as int, y as int),
{
    proof {
        assert(cells(grid@)[y as int] == grid@[y as int]@);
    }
    contains(marked, grid[y][x])
}

fn gap_h_at(grid: &Vec<Vec<usize>>, marked: &Vec<usize>, w: usize, x: usize, y: usize) -> (r: bool)
    requires
        rectangular(cells(grid@), w as nat),
        x <= w,
        y < grid@.len(),
    ensures
        r == gap_h(cells(grid@), marked@, w as int, x as int, y as int),
{
    0 < x && x < w && !vwall_at(grid, w, x, y) && shaded_at(grid, marked, w, x - 1, y) && shaded_at(
        grid,
        marked,
        w,
        x,
        y,
    )
}

fn gap_v_at(grid: &Vec<Vec<usize>>, marked: &Vec<usize>, w: usize, x: usize, y: usize) -> (r: bool)
    requires
        rectangular(cells(grid@), w as nat),
        x < w,
        y <= grid@.len(),
    ensures
        r == gap_v(cells(grid@), marked@, x as int, y as int),
{
    0 < y && y < grid.len() && !hwall_at(grid, w, x, y) && shaded_at(grid, marked, w, x, y - 1)
        && shaded_at(grid, marked, w, x, y)
}

fn rule_at(grid: &Vec<Vec<usize>>, marked: &Vec<usize>, w: usize, y: usize, i: usize) -> (r: char)
    requires
        rectangular(cells(grid@), w as nat),
        y <= grid@.len(),
        i <= 2 * w,
    ensures
        r == rule_char(cells(grid@), marked@, w as int, y as int, i as int),
{
    let h = grid.len();
    let x = i / 2;
    if i % 2 == 0 {
        let up = y > 0 && vwall_at(grid, w, x, y - 1);
        let down = y < h && vwall_at(grid, w, x, y);
        let left = x > 0 && hwall_at(grid, w, x - 1, y);
        let right = x < w && hwall_at(grid, w, x, y);
        let corner = junction(up, down, left, right);
        let cx = if x < w - 1 { x } else { w - 1 };
        let cy = if y < h - 1 { y } else { h - 1 };
        if corner == ' ' && gap_v_at(grid, marked, w, cx, y) && gap_h_at(grid, marked, w, x, cy) {
            HIGHLIGHT
        } else {
            corner
        }
    } else if hwall_at(grid, w, x, y) {
        '─'
    } else if gap_v_at(grid, marked, w, x, y) {
        HIGHLIGHT
    } else {
        ' '
    }
}

fn cell_at(grid: &Vec<Vec<usize>>, marked: &Vec<usize>, w: usize, y: usize, i: usize) -> (r: char)
    requires
        rectangular(cells(grid@), w as nat),
        y < grid@.len(),
        i <= 2 * w,
    ensures
        r == cell_char(cells(grid@), marked@, w as int, y as int, i as int),
{
    let x = i / 2;
    if i % 2 == 0 {
        if vwall_at(grid, w, x, y) {
            '│'
        } else if gap_h_at(grid, marked, w, x, y) {
            HIGHLIGHT
        } else {
            ' '
        }
    } else if shaded_at(grid, marked, w, x, y) {
        HIGHLIGHT
    } else {
        ' '
    }
}

/// The box diagram of a grid `w` cells wide, with the cells numbered in
/// `marked` shaded: `2h + 1` lines of `2w + 1` characters.
pub fn draw(grid: &Vec<Vec<usize>>, w: usize, marked: &Vec<usize>) -> (r: Vec<String>)
    requires
        rectangular(cells(grid@), w as nat),
        2 * w + 1 <= usize::MAX,
        2 * grid@.len() + 1 <= usize::MAX,
    ensures
        r@.len() == 2 * grid@.len() + 1,
        forall|k: int| 0 <= k < r@.len() ==> (#[trigger] r@[k])@ == drawn_line(cells(grid@), marked@, w as int, k),
{
    let h = grid.len();
    let ghost g = cells(grid@);
    let mut out: Vec<String> = Vec::new();
    let mut k: usize = 0;
    while k <= 2 * h
        invariant
            g == cells(grid@),
            h == grid@.len(),
            rectangular(g, w as nat),
            2 * w + 1 <= usize::MAX,
            2 * h + 1 <= usize::MAX,
            k <= 2 * h + 1,
            out@.len() == k,
            forall|j: int| 0 <= j < k ==> (#[trigger] out@[j])@ == drawn_line(g, marked@, w as int, j),
        decreases 2 * h + 1 - k,
    {
        let mut line = String::new();
        let mut i: usize = 0;
        while i <= 2 * w
            invariant
                g == cells(grid@),
                h == grid@.len(),
                rectangular(g, w as nat),
                2 * w + 1 <= usize::MAX,
                k <= 2 * h,
                i <= 2 * w + 1,
                line@.len() == i,
                forall|j: int| 0 <= j < i ==> line@[j] == drawn_line(g, marked@, w as int, k as int)[j],
            decreases 2 * w + 1 - i,
        {
            let c = if k % 2 == 0 {
                rule_at(grid, marked, w, k / 2, i)
            } else {
                cell_at(grid, marked, w, k / 2, i)
            };
            push_char(&mut line, c);
            i = i + 1;
        }
        proof {
            assert(line@ =~= drawn_line(g, marked@, w as int, k as int));
        }
        out.push(line);
        k = k + 1;
    }
    out
}


/// The numbers of the panes to shade, in the order they were asked for;
/// a pane not in the tree shades nothing.
pub open spec fn marked_of(t: Tree, hs: Seq<Seq<char>>) -> Seq<usize>
    decreases hs.len(),
{
    if hs.len() == 0 {
        seq![]
    } else {
        marked_of(t, hs.drop_last()) + match cell_number(t, hs.last()) {
            Some(n) => seq![n as usize],
            None => seq![],
        }
    }
}

pub fn marked_cells(shape: &Shape, highlight: &[String]) -> (r: Vec<usize>)
    ensures
        r@ == marked_of(shape@, string_views(highlight@)),
{
    let ghost hs = string_views(highlight@);
    let mut out: Vec<usize> = Vec::new();
    let mut i: usize = 0;
    while i < highlight.len()
        invariant
            hs == string_views(highlight@),
            i <= highlight@.len(),
            out@ == marked_of(shape@, hs.take(i as int)),
        decreases highlight@.len() - i,
    {
        proof {
            assert(hs.take(i + 1).drop_last() =~= hs.take(i as int));
            assert(hs.take(i + 1).last() == highlight@[i as int]@);
        }
        match find(shape, highlight[i].as_str()) {
            Some(n) => {
                out.push(n);
            },
            None => {},
        }
        proof {
            assert(out@ =~= marked_of(shape@, hs.take(i + 1)));
        }
        i = i + 1;
    }
    proof {
        assert(hs.take(highlight@.len() as int) =~= hs);
    }
    out
}

/// The diagram with the panes named in `highlight` shaded.
pub fn diagram_marking(grid: &Vec<Vec<usize>>, w: usize, shape: &Shape, highlight: &[String]) -> (r: Vec<String>)
    requires
        rectangular(cells(grid@), w as nat),
        2 * w + 1 <= usize::MAX,
        2 * grid@.len() + 1 <= usize::MAX,
    ensures
        r@.len() == 2 * grid@.len() + 1,
        forall|k: int|
            0 <= k < r@.len() ==> (#[trigger] r@[k])@ == drawn_line(
                cells(grid@),
                marked_of(shape@, string_views(highlight@)),
                w as int,
                k,
            ),
{
    let marked = marked_cells(shape, highlight);
    draw(grid, w, &marked)
}

// ---------------------------------------------------------------------------
// Labels
// ---------------------------------------------------------------------------

/// Cell `(x, y)` belongs to pane number `id`.
pub open spec fn holds(g: Seq<Seq<usize>>, id: usize, x: int, y: int) -> bool {
    0 <= y < g.len() && 0 <= x < g[y].len() && g[y][x] == id
}

/// `b` is `(left, right, top, bottom)`: the smallest rectangle holding
/// every cell of pane `id`, each edge touching one of them.
pub open spec fn is_box(g: Seq<Seq<usize>>, id: usize, b: (int, int, int, int)) -> bool {
    &&& exists|y: int| holds(g, id, b.0, y)
    &&& exists|y: int| holds(g, id, b.1, y)
    &&& exists|x: int| holds(g, id, x, b.2)
    &&& exists|x: int| holds(g, id, x, b.3)
    &&& forall|x: int, y: int| #[trigger] holds(g, id, x, y) ==> b.0 <= x <= b.1 && b.2 <= y <= b.3
}

/// Where pane `id` was drawn; none when the grid left it no cell.
pub open spec fn box_of(g: Seq<Seq<usize>>, id: usize) -> Option<(int, int, int, int)> {
    if exists|b: (int, int, int, int)| is_box(g, id, b) {
        Some(choose|b: (int, int, int, int)| is_box(g, id, b))
    } else {
        None
    }
}

proof fn lemma_box_unique(g: Seq<Seq<usize>>, id: usize, a: (int, int, int, int), b: (int, int, int, int))
    requires
        is_box(g, id, a),
        is_box(g, id, b),
    ensures
        a == b,
{
    let y0 = choose|y: int| holds(g, id, a.0, y);
    let y1 = choose|y: int| holds(g, id, a.1, y);
    let x2 = choose|x: int| holds(g, id, x, a.2);
    let x3 = choose|x: int| holds(g, id, x, a.3);
    let v0 = choose|y: int| holds(g, id, b.0, y);
    let v1 = choose|y: int| holds(g, id, b.1, y);
    let u2 = choose|x: int| holds(g, id, x, b.2);
    let u3 = choose|x: int| holds(g, id, x, b.3);
    assert(holds(g, id, a.0, y0) && holds(g, id, a.1, y1) && holds(g, id, x2, a.2) && holds(g, id, x3, a.3));
    assert(holds(g, id, b.0, v0) && holds(g, id, b.1, v1) && holds(g, id, u2, b.2) && holds(g, id, u3, b.3));
}

/// The cell `(x, y)` comes before the scan position `(sx, sy)`, row by row.
pub open spec fn scanned(x: int, y: int, sx: int, sy: int) -> bool {
    y < sy || (y == sy && x < sx)
}

fn bounds(grid: &Vec<Vec<usize>>, w: usize, id: usize) -> (r: Option<(usize, usize, usize, usize)>)
    requires
        rectangular(cells(grid@), w as nat),
    ensures
        match r {
            Some(b) => box_of(cells(grid@), id) == Some((b.0 as int, b.1 as int, b.2 as int, b.3 as int))
                && b.0 <= b.1 < w && b.2 <= b.3 < grid@.len(),
            None => box_of(cells(grid@), id) is None,
        },
{
    let ghost g = cells(grid@);
    let h = grid.len();
    let mut found = false;
    let mut min_x: usize = w;
    let mut max_x: usize = 0;
    let mut min_y: usize = h;
    let mut max_y: usize = 0;
    let ghost mut wy0: int = 0;
    let ghost mut wy1: int = 0;
    let ghost mut wx2: int = 0;
    let ghost mut wx3: int = 0;
    let mut y: usize = 0;
    while y < h
        invariant
            g == cells(grid@),
            h == g.len(),
            rectangular(g, w as nat),
            y <= h,
            !found ==> forall|x: int, yy: int| #[trigger] holds(g, id, x, yy) ==> !scanned(x, yy, 0, y as int),
            found ==> {
                &&& holds(g, id, min_x as int, wy0) && holds(g, id, max_x as int, wy1)
                &&& holds(g, id, wx2, min_y as int) && holds(g, id, wx3, max_y as int)
                &&& forall|x: int, yy: int| #[trigger] holds(g, id, x, yy) && scanned(x, yy, 0, y as int)
                    ==> min_x <= x <= max_x && min_y <= yy <= max_y
            },
        decreases h - y,
    {
        let row = &grid[y];
        proof {
            assert(g[y as int] == row@);
        }
        let mut x: usize = 0;
        while x < w
            invariant
                g == cells(grid@),
                h == g.len(),
                rectangular(g, w as nat),
                y < h,
                x <= w,
                row@ == g[y as int],
                !found ==> forall|xx: int, yy: int| #[trigger] holds(g, id, xx, yy) ==> !scanned(xx, yy, x as int, y as int),
                found ==> {
                    &&& holds(g, id, min_x as int, wy0) && holds(g, id, max_x as int, wy1)
                    &&& holds(g, id, wx2, min_y as int) && holds(g, id, wx3, max_y as int)
                    &&& forall|xx: int, yy: int| #[trigger] holds(g, id, xx, yy) && scanned(xx, yy, x as int, y as int)
                        ==> min_x <= xx <= max_x && min_y <= yy <= max_y
                },
            decreases w - x,
        {
            if row[x] == id {
                proof {
                    assert(holds(g, id, x as int, y as int));
                }
                if !found || x < min_x {
                    min_x = x;
                    proof {
                        wy0 = y as int;
                    }
                }
                if !found || x > max_x {
                    max_x = x;
                    proof {
                        wy1 = y as int;
                    }
                }
                if !found || y < min_y {
                    min_y = y;
                    proof {
                        wx2 = x as int;
                    }
                }
                if !found || y > max_y {
                    max_y = y;
                    proof {
                        wx3 = x as int;
                    }
                }
                found = true;
            }
            x = x + 1;
        }
        y = y + 1;
    }
    if !found {
        proof {
            assert forall|b: (int, int, int, int)| !is_box(g, id, b) by {
                if is_box(g, id, b) {
                    let y0 = choose|yy: int| holds(g, id, b.0, yy);
                    assert(holds(g, id, b.0, y0));
                }
            }
        }
        None
    } else {
        proof {
            let b = (min_x as int, max_x as int, min_y as int, max_y as int);
            assert(holds(g, id, b.0, wy0));
            assert(holds(g, id, b.1, wy1));
            assert(holds(g, id, wx2, b.2));
            assert(holds(g, id, wx3, b.3));
            assert forall|x: int, yy: int| #[trigger] holds(g, id, x, yy) implies b.0 <= x <= b.1 && b.2 <= yy <= b.3 by {
                assert(scanned(x, yy, 0, h as int));
            }
            assert(is_box(g, id, b));
            let c = choose|c: (int, int, int, int)| is_box(g, id, c);
            lemma_box_unique(g, id, b, c);
        }
        Some((min_x, max_x, min_y, max_y))
    }
}

/// One pane's name written into the top row of its box, after a dot that
/// is filled for a shaded pane. A name that does not fit the box is left
/// out rather than cut: half an identifier is not a shorter identifier.
pub open spec fn label_step(
    lines: Seq<Seq<char>>,
    g: Seq<Seq<usize>>,
    t: Tree,
    hs: Seq<Seq<char>>,
    pane: Seq<char>,
    label: Seq<char>,
) -> Seq<Seq<char>> {
    match cell_number(t, pane) {
        None => lines,
        Some(id) => match box_of(g, id as usize) {
            None => lines,
            Some(b) => {
                let available = 2 * (b.1 - b.0 + 1) - 1;
                let text = seq![if hs.contains(pane) { '●' } else { '○' }] + label;
                let used = cols(text);
                let row = 2 * b.2 + 1;
                let start = 2 * b.0 + 1;
                if used > available || start + used > lines[row].len() {
                    lines
                } else {
                    lines.update(row, lines[row].take(start) + text + lines[row].skip(start + used))
                }
            },
        },
    }
}

/// Every label written in turn.
pub open spec fn labeled(
    lines: Seq<Seq<char>>,
    g: Seq<Seq<usize>>,
    t: Tree,
    hs: Seq<Seq<char>>,
    labels: Seq<(Seq<char>, Seq<char>)>,
) -> Seq<Seq<char>>
    decreases labels.len(),
{
    if labels.len() == 0 {
        lines
    } else {
        let prev = labeled(lines, g, t, hs, labels.drop_last());
        label_step(prev, g, t, hs, labels.last().0, labels.last().1)
    }
}

pub open spec fn pair_views(v: Seq<(String, String)>) -> Seq<(Seq<char>, Seq<char>)> {
    v.map_values(|p: (String, String)| (p.0@, p.1@))
}

fn listed(names: &[String], name: &str) -> (r: bool)
    ensures
        r == string_views(names@).contains(name@),
{
    let mut i: usize = 0;
    while i < names.len()
        invariant
            i <= names@.len(),
            forall|j: int| 0 <= j < i ==> string_views(names@)[j] != name@,
        decreases names@.len() - i,
    {
        if same_text(names[i].as_str(), name) {
            proof {
                assert(string_views(names@)[i as int] == name@);
            }
            return true;
        }
        i = i + 1;
    }
    false
}

fn write_label(
    lines: &mut Vec<String>,
    grid: &Vec<Vec<usize>>,
    w: usize,
    shape: &Shape,
    highlight: &[String],
    pane: &str,
    label: &str,
)
    requires
        rectangular(cells(grid@), w as nat),
        2 * w + 1 <= usize::MAX,
        2 * grid@.len() + 1 <= usize::MAX,
        old(lines)@.len() == 2 * grid@.len() + 1,
    ensures
        final(lines)@.len() == old(lines)@.len(),
        string_views(final(lines)@) == label_step(
            string_views(old(lines)@),
            cells(grid@),
            shape@,
            string_views(highlight@),
            pane@,
            label@,
        ),
{
    let ghost before = string_views(lines@);
    let id = match find(shape, pane) {
        Some(id) => id,
        None => return,
    };
    let (min_x, max_x, min_y, _max_y) = match bounds(grid, w, id) {
        Some(b) => b,
        None => return,
    };
    let available = 2 * (max_x - min_x + 1) - 1;
    let mut text = String::new();
    push_char(&mut text, if listed(highlight, pane) { '●' } else { '○' });
    crate::text::push_str(&mut text, label);
    let used = columns(text.as_str());
    if used > available {
        return;
    }
    let row = 2 * min_y + 1;
    let start = 2 * min_x + 1;
    proof {
        assert(before[row as int] == lines@[row as int]@);
    }
    let line = chars_of(lines[row].as_str());
    if start + used > line.len() {
        return;
    }
    let tc = chars_of(text.as_str());
    let mut out: Vec<char> = Vec::new();
    let mut i: usize = 0;
    while i < start
        invariant
            i <= start <= line@.len(),
            out@ == line@.take(i as int),
        decreases start - i,
    {
        out.push(line[i]);
        proof {
            assert(line@.take(i + 1) =~= line@.take(i as int).push(line@[i as int]));
        }
        i = i + 1;
    }
    let mut j: usize = 0;
    while j < tc.len()
        invariant
            j <= tc@.len(),
            out@ == line@.take(start as int) + tc@.take(j as int),
        decreases tc@.len() - j,
    {
        out.push(tc[j]);
        proof {
            assert(tc@.take(j + 1) =~= tc@.take(j as int).push(tc@[j as int]));
        }
        j = j + 1;
    }
    let mut k: usize = start + used;
    while k < line.len()
        invariant
            start + used <= k <= line@.len(),
            out@ == line@.take(start as int) + tc@ + line@.subrange((start + used) as int, k as int),
        decreases line@.len() - k,
    {
        out.push(line[k]);
        proof {
            assert(line@.subrange((start + used) as int, k + 1) =~= line@.subrange((start + used) as int, k as int).push(
                line@[k as int],
            ));
        }
        k = k + 1;
    }
    proof {
        assert(tc@.take(tc@.len() as int) =~= tc@);
        assert(line@.subrange((start + used) as int, line@.len() as int) =~= line@.skip((start + used) as int));
    }
    let new_line = string_of(&out);
    lines.set(row, new_line);
    proof {
        assert(string_views(lines@) =~= before.update(row as int, before[row as int].take(start as int) + tc@ + before[row as int].skip(
            (start + used) as int,
        )));
    }
}

/// The shaded diagram with each pane's name written at the top of its box,
/// as `labels` pairs panes with names.
pub fn diagram_marking_labeled(
    grid: &Vec<Vec<usize>>,
    w: usize,
    shape: &Shape,
    highlight: &[String],
    labels: &[(String, String)],
) -> (r: Vec<String>)
    requires
        rectangular(cells(grid@), w as nat),
        2 * w + 1 <= usize::MAX,
        2 * grid@.len() + 1 <= usize::MAX,
    ensures
        string_views(r@) == labeled(
            Seq::new((2 * grid@.len() + 1) as nat, |k: int| drawn_line(
                cells(grid@),
                marked_of(shape@, string_views(highlight@)),
                w as int,
                k,
            )),
            cells(grid@),
            shape@,
            string_views(highlight@),
            pair_views(labels@),
        ),
{
    let mut lines = diagram_marking(grid, w, shape, highlight);
    let ghost start = string_views(lines@);
    let ghost ls = pair_views(labels@);
    proof {
        assert(start =~= Seq::new((2 * grid@.len() + 1) as nat, |k: int| drawn_line(
            cells(grid@),
            marked_of(shape@, string_views(highlight@)),
            w as int,
            k,
        )));
    }
    let mut i: usize = 0;
    while i < labels.len()
        invariant
            rectangular(cells(grid@), w as nat),
            2 * w + 1 <= usize::MAX,
            2 * grid@.len() + 1 <= usize::MAX,
            lines@.len() == 2 * grid@.len() + 1,
            i <= labels@.len(),
            ls == pair_views(labels@),
            string_views(lines@) == labeled(start, cells(grid@), shape@, string_views(highlight@), ls.take(i as int)),
        decreases labels@.len() - i,
    {
        proof {
            assert(ls.take(i + 1).drop_last() =~= ls.take(i as int));
        }
        write_label(&mut lines, grid, w, shape, highlight, labels[i].0.as_str(), labels[i].1.as_str());
        i = i + 1;
    }
    proof {
        assert(ls.take(labels@.len() as int) =~= ls);
    }
    lines
}


// ---------------------------------------------------------------------------
// Whole pictures
// ---------------------------------------------------------------------------

/// The pane numbers that got at least one cell.
pub open spec fn drawn_numbers(g: Seq<Seq<usize>>) -> Set<usize> {
    Set::new(|c: usize| c > 0 && exists|x: int, y: int| #[trigger] holds(g, c, x, y))
}

/// Whether every one of `panes` panes got a cell: below that size panes
/// vanish from a picture that still looks complete.
pub fn renders(grid: &Vec<Vec<usize>>, w: usize, panes: usize) -> (r: bool)
    requires
        rectangular(cells(grid@), w as nat),
    ensures
        drawn_numbers(cells(grid@)).finite(),
        r == (drawn_numbers(cells(grid@)).len() == panes),
{
    let ghost g = cells(grid@);
    let mut seen: Vec<usize> = Vec::new();
    let mut y: usize = 0;
    while y < grid.len()
        invariant
            g == cells(grid@),
            rectangular(g, w as nat),
            y <= g.len(),
            seen@.no_duplicates(),
            forall|c: usize| #[trigger] seen@.contains(c) <==> (c > 0 && exists|x: int, yy: int| holds(g, c, x, yy) && yy < y),
        decreases g.len() - y,
    {
        let row = &grid[y];
        proof {
            assert(g[y as int] == row@);
        }
        let mut x: usize = 0;
        while x < w
            invariant
                g == cells(grid@),
                rectangular(g, w as nat),
                y < g.len(),
                x <= w,
                row@ == g[y as int],
                seen@.no_duplicates(),
                forall|c: usize| #[trigger] seen@.contains(c) <==> (c > 0 && exists|xx: int, yy: int| holds(g, c, xx, yy)
                    && scanned(xx, yy, x as int, y as int)),
            decreases w - x,
        {
            let c = row[x];
            proof {
                assert(holds(g, c, x as int, y as int));
            }
            if c > 0 && !contains(&seen, c) {
                let ghost before = seen@;
                seen.push(c);
                proof {
                    assert forall|i: int, j: int| 0 <= i < seen@.len() && 0 <= j < seen@.len() && i != j implies seen@[i] != seen@[j] by {
                        if i == before.len() as int {
                            assert(!before.contains(c));
                            assert(seen@[j] == before[j]);
                        } else if j == before.len() as int {
                            assert(!before.contains(c));
                            assert(seen@[i] == before[i]);
                        }
                    }
                    assert forall|d: usize| #[trigger] seen@.contains(d) <==> (d > 0 && exists|xx: int, yy: int| holds(g, d, xx, yy)
                        && scanned(xx, yy, x + 1, y as int)) by {
                        if seen@.contains(d) {
                            let i = choose|i: int| 0 <= i < seen@.len() && seen@[i] == d;
                            if i < before.len() {
                                assert(before.contains(d));
                            } else {
                                assert(holds(g, d, x as int, y as int) && scanned(x as int, y as int, x + 1, y as int));
                            }
                        }
                        if d > 0 && exists|xx: int, yy: int| holds(g, d, xx, yy) && scanned(xx, yy, x + 1, y as int) {
                            let (xx, yy) = choose|xx: int, yy: int| holds(g, d, xx, yy) && scanned(xx, yy, x + 1, y as int);
                            if scanned(xx, yy, x as int, y as int) {
                                assert(before.contains(d));
                                let i = choose|i: int| 0 <= i < before.len() && before[i] == d;
                                assert(seen@[i] == d);
                            } else {
                                assert(d == c);
                                assert(seen@[before.len() as int] == d);
                            }
                        }
                    }
                }
            } else {
                proof {
                    assert forall|d: usize| #[trigger] seen@.contains(d) <==> (d > 0 && exists|xx: int, yy: int| holds(g, d, xx, yy)
                        && scanned(xx, yy, x + 1, y as int)) by {
                        if d > 0 && exists|xx: int, yy: int| holds(g, d, xx, yy) && scanned(xx, yy, x + 1, y as int) {
                            let (xx, yy) = choose|xx: int, yy: int| holds(g, d, xx, yy) && scanned(xx, yy, x + 1, y as int);
                            if !scanned(xx, yy, x as int, y as int) {
                                assert(d == c);
                            }
                        }
                        if seen@.contains(d) {
                            let (xx, yy) = choose|xx: int, yy: int| holds(g, d, xx, yy) && scanned(xx, yy, x as int, y as int);
                            assert(scanned(xx, yy, x + 1, y as int));
                        }
                    }
                }
            }
            x = x + 1;
        }
        proof {
            assert forall|c: usize| #[trigger] seen@.contains(c) <==> (c > 0 && exists|xx: int, yy: int| holds(g, c, xx, yy)
                && yy < y + 1) by {
                if c > 0 && exists|xx: int, yy: int| holds(g, c, xx, yy) && yy < y + 1 {
                    let (xx, yy) = choose|xx: int, yy: int| holds(g, c, xx, yy) && yy < y + 1;
                    assert(scanned(xx, yy, w as int, y as int));
                }
                if seen@.contains(c) {
                    let (xx, yy) = choose|xx: int, yy: int| holds(g, c, xx, yy) && scanned(xx, yy, w as int, y as int);
                    assert(yy < y + 1);
                }
            }
        }
        y = y + 1;
    }
    proof {
        assert forall|c: usize| #[trigger] seen@.to_set().contains(c) <==> drawn_numbers(g).contains(c) by {
            if drawn_numbers(g).contains(c) {
                let (xx, yy) = choose|xx: int, yy: int| #[trigger] holds(g, c, xx, yy);
                assert(yy < g.len());
            }
        }
        assert(seen@.to_set() =~= drawn_numbers(g));
        seen@.unique_seq_to_set();
    }
    seen.len() == panes
}


/// `a` or 2, whichever is larger: the smallest box a diagram is drawn in.
pub open spec fn at_least_two(a: nat) -> nat {
    if a < 2 { 2 } else { a }
}

/// A box with `text` written across its middle line.
pub open spec fn box_saying(cells_w: nat, cells_h: nat, text: Seq<char>) -> Seq<Seq<char>> {
    let b = outline_spec(cells_w, cells_h, '─', '│');
    b.update((b.len() / 2) as int, centred(b[(b.len() / 2) as int], text))
}

/// What a panel's frame holds at this size: the diagram when every pane
/// gets a cell of `g`, the pane count when they would not all fit, `?` for
/// a tab that could not be read, an empty dashed box when there is no tab.
pub open spec fn panel_body(p: Panel, cells_w: nat, cells_h: nat, g: Seq<Seq<usize>>) -> Seq<Seq<char>> {
    match p.shape {
        Some(shape) => {
            let n = crate::layout::leaves(shape@).len();
            if drawn_numbers(g).len() != n {
                box_saying(cells_w, cells_h, decimal_of(n) + " panes"@)
            } else {
                labeled(
                    Seq::new((2 * g.len() + 1) as nat, |k: int| drawn_line(
                        g,
                        marked_of(shape@, string_views(p.marked@)),
                        at_least_two(cells_w) as int,
                        k,
                    )),
                    g,
                    shape@,
                    string_views(p.marked@),
                    pair_views(p.labels@),
                )
            }
        },
        None => if p.unreadable {
            box_saying(cells_w, cells_h, "?"@)
        } else {
            outline_spec(cells_w, cells_h, '╌', '╎')
        },
    }
}

pub open spec fn decimal_of(n: nat) -> Seq<char> {
    crate::text::decimal(n)
}

/// The widest of `lines` from `i` on, in display columns.
pub open spec fn widest_view(lines: Seq<Seq<char>>, i: int) -> nat
    decreases lines.len() - i,
{
    if i < 0 || i >= lines.len() {
        0
    } else {
        let rest = widest_view(lines, i + 1);
        let w = columns_of(lines[i]);
        if w > rest { w } else { rest }
    }
}

proof fn lemma_widest_view(lines: Seq<String>, i: int)
    ensures
        widest_line(lines, i) == widest_view(line_views(lines), i),
    decreases lines.len() - i,
{
    if 0 <= i < lines.len() {
        lemma_widest_view(lines, i + 1);
    }
}

/// A panel as drawn: its frame's contents, its caption written into the
/// top border, and the sheet behind when it is stacked.
pub open spec fn panel_drawn(p: Panel, cells_w: nat, cells_h: nat, g: Seq<Seq<usize>>) -> Seq<Seq<char>> {
    let body = panel_body(p, cells_w, cells_h, g);
    let framed = if p.caption@.len() == 0 || body.len() == 0 { body } else { body.update(0, titled(body[0], p.caption@)) };
    if p.stacked {
        stacked_spec(framed, crate::label::opt_view(p.behind), widest_view(framed, 0))
    } else {
        framed
    }
}

/// One panel at `cells_w` by `cells_h`; `grid` is its tab cut into cells at
/// that size (at least two each way), which only a panel with a shape needs.
pub fn draw_panel(panel: &Panel, cells_w: usize, cells_h: usize, grid: &Vec<Vec<usize>>) -> (r: Vec<String>)
    requires
        cells_w < usize::MAX / 4,
        cells_h < usize::MAX / 4,
        panel.shape is Some ==> rectangular(cells(grid@), at_least_two(cells_w as nat)) && grid@.len() == at_least_two(
            cells_h as nat,
        ),
    ensures
        line_views(r@) == panel_drawn(*panel, cells_w as nat, cells_h as nat, cells(grid@)),
{
    let body: Vec<String> = match &panel.shape {
        Some(shape) => {
            let w = if cells_w < 2 { 2 } else { cells_w };
            let ids = shape.pane_ids();
            let n = ids.len();
            proof {
                assert(crate::layout::leaves(shape@).len() == n) by {
                    assert(string_views(ids@).len() == ids@.len());
                }
            }
            if !renders(grid, w, n) {
                let mut text = crate::text::decimal_string(n);
                crate::text::push_str(&mut text, " panes");
                let framed = blank_box(cells_w, cells_h);
                let ghost b = line_views(framed@);
                let r = centre(framed, text.as_str());
                proof {
                    assert(line_views(r@) =~= b.update((b.len() / 2) as int, centred(b[(b.len() / 2) as int], text@)));
                }
                r
            } else {
                let r = diagram_marking_labeled(grid, w, shape, panel.marked.as_slice(), panel.labels.as_slice());
                proof {
                    assert(line_views(r@) == string_views(r@));
                }
                r
            }
        },
        None => {
            if panel.unreadable {
                let framed = blank_box(cells_w, cells_h);
                let ghost b = line_views(framed@);
                let r = centre(framed, "?");
                proof {
                    assert(line_views(r@) =~= b.update((b.len() / 2) as int, centred(b[(b.len() / 2) as int], "?"@)));
                }
                r
            } else {
                empty_box(cells_w, cells_h)
            }
        },
    };
    let ghost bv = line_views(body@);
    proof {
        assert(bv == panel_body(*panel, cells_w as nat, cells_h as nat, cells(grid@)));
    }
    let framed = title(body, panel.caption.as_str());
    let ghost fv = line_views(framed@);
    proof {
        if panel.caption@.len() == 0 || bv.len() == 0 {
            assert(fv == bv);
        } else {
            assert(fv =~= bv.update(0, titled(bv[0], panel.caption@)));
        }
        lemma_widest_view(framed@, 0);
    }
    if panel.stacked {
        stack(framed, match &panel.behind {
            Some(b) => Some(b.as_str()),
            None => None,
        })
    } else {
        framed
    }
}


/// The panels drawn at one size, side by side. `grids[i]` is panel `i`'s
/// tab cut into cells, as `draw_panel` takes it.
pub fn draw_panels(panels: &Vec<Panel>, cells_w: usize, cells_h: usize, grids: &Vec<Vec<Vec<usize>>>) -> (r: Vec<String>)
    requires
        cells_w < usize::MAX / 4,
        cells_h < usize::MAX / 4,
        grids@.len() == panels@.len(),
        forall|i: int| 0 <= i < panels@.len() && (#[trigger] panels@[i]).shape is Some ==> rectangular(
            cells(grids@[i]@),
            at_least_two(cells_w as nat),
        ) && grids@[i]@.len() == at_least_two(cells_h as nat),
    ensures
        exists|d: Seq<Vec<String>>| {
            &&& d.len() == panels@.len()
            &&& forall|i: int| 0 <= i < d.len() ==> line_views((#[trigger] d[i])@) == panel_drawn(
                panels@[i],
                cells_w as nat,
                cells_h as nat,
                cells(grids@[i]@),
            )
            &&& r@.len() == tallest(d)
            &&& forall|row: int| 0 <= row < r@.len() ==> (#[trigger] r@[row])@ == joined_row(d, row, tallest(d) as int / 2, d.len() as int)
        },
{
    let mut drawn: Vec<Vec<String>> = Vec::new();
    let mut i: usize = 0;
    while i < panels.len()
        invariant
            cells_w < usize::MAX / 4,
            cells_h < usize::MAX / 4,
            grids@.len() == panels@.len(),
            forall|i: int| 0 <= i < panels@.len() && (#[trigger] panels@[i]).shape is Some ==> rectangular(
                cells(grids@[i]@),
                at_least_two(cells_w as nat),
            ) && grids@[i]@.len() == at_least_two(cells_h as nat),
            i <= panels@.len(),
            drawn@.len() == i,
            forall|j: int| 0 <= j < i ==> line_views((#[trigger] drawn@[j])@) == panel_drawn(
                panels@[j],
                cells_w as nat,
                cells_h as nat,
                cells(grids@[j]@),
            ),
        decreases panels@.len() - i,
    {
        let one = draw_panel(&panels[i], cells_w, cells_h, &grids[i]);
        drawn.push(one);
        i = i + 1;
    }
    let r = join_panels(&drawn);
    proof {
        assert(drawn@.len() == panels@.len());
    }
    r
}

proof fn lemma_labeled_len(
    lines: Seq<Seq<char>>,
    g: Seq<Seq<usize>>,
    t: Tree,
    hs: Seq<Seq<char>>,
    labels: Seq<(Seq<char>, Seq<char>)>,
)
    requires
        lines.len() == 2 * g.len() + 1,
    ensures
        labeled(lines, g, t, hs, labels).len() == lines.len(),
    decreases labels.len(),
{
    if labels.len() > 0 {
        lemma_labeled_len(lines, g, t, hs, labels.drop_last());
        match cell_number(t, labels.last().0) {
            Some(id) => match box_of(g, id as usize) {
                Some(b) => {
                    assert(is_box(g, id as usize, b));
                    let x = choose|x: int| #[trigger] holds(g, id as usize, x, b.2);
                    assert(holds(g, id as usize, x, b.2));
                },
                None => {},
            },
            None => {},
        }
    }
}

proof fn lemma_outline_len(cells_w: nat, cells_h: nat, horizontal: char, vertical: char)
    ensures
        outline_spec(cells_w, cells_h, horizontal, vertical).len() == 2 * at_least_two(cells_h) + 1,
{
}

/// A panel is its box's height, one line more with the sheet behind.
proof fn lemma_panel_height(p: Panel, cells_w: nat, cells_h: nat, g: Seq<Seq<usize>>)
    requires
        p.shape is Some ==> g.len() == at_least_two(cells_h),
    ensures
        panel_drawn(p, cells_w, cells_h, g).len() <= 2 * at_least_two(cells_h) + 1 + (if p.stacked { 1nat } else { 0nat }),
{
    lemma_outline_len(cells_w, cells_h, '─', '│');
    lemma_outline_len(cells_w, cells_h, '╌', '╎');
    match p.shape {
        Some(shape) => {
            let n = crate::layout::leaves(shape@).len();
            if drawn_numbers(g).len() == n {
                lemma_labeled_len(
                    Seq::new((2 * g.len() + 1) as nat, |k: int| drawn_line(
                        g,
                        marked_of(shape@, string_views(p.marked@)),
                        at_least_two(cells_w) as int,
                        k,
                    )),
                    g,
                    shape@,
                    string_views(p.marked@),
                    pair_views(p.labels@),
                );
            }
        },
        None => {},
    }
}

proof fn lemma_tallest_at_most(d: Seq<Vec<String>>, bound: nat)
    requires
        forall|i: int| 0 <= i < d.len() ==> (#[trigger] d[i])@.len() <= bound,
    ensures
        tallest(d) <= bound,
    decreases d.len(),
{
    if d.len() > 0 {
        assert forall|i: int| 0 <= i < d.drop_last().len() implies (#[trigger] d.drop_last()[i])@.len() <= bound by {
            assert(d.drop_last()[i] == d[i]);
        }
        lemma_tallest_at_most(d.drop_last(), bound);
    }
}

/// **Law.** A preview fits the lines it is given. Drawn at the size
/// [`geometry_of`] picks for `room` lines (at least the five of the smallest
/// box), with a sheet behind only where that size keeps one, the tallest
/// panel together with the legend lines the size keeps takes at most `room`
/// lines; the legend is never longer than the one given.
pub proof fn lemma_preview_fits(
    geometry: Geometry,
    any_stacked: bool,
    legend_len: nat,
    count: nat,
    room: nat,
    width: nat,
    panels: Seq<Panel>,
    grids: Seq<Vec<Vec<usize>>>,
    d: Seq<Vec<String>>,
)
    requires
        geometry == geometry_of(any_stacked, legend_len, count, room, width),
        SMALLEST_BOX <= room <= u16::MAX,
        legend_len <= usize::MAX,
        panels.len() == grids.len(),
        d.len() == panels.len(),
        forall|i: int| 0 <= i < panels.len() ==> (#[trigger] panels[i]).stacked ==> geometry.stacked,
        forall|i: int| 0 <= i < panels.len() ==> (#[trigger] panels[i]).shape is Some ==> grids[i]@.len() == at_least_two(
            geometry.cells_h as nat,
        ),
        forall|i: int| 0 <= i < d.len() ==> line_views((#[trigger] d[i])@) == panel_drawn(
            panels[i],
            geometry.cells_w as nat,
            geometry.cells_h as nat,
            cells(grids[i]@),
        ),
    ensures
        tallest(d) + geometry.legend <= room,
        geometry.legend <= legend_len,
{
    let ch = geometry.cells_h as nat;
    let reserved: nat = if geometry.stacked { 1 } else { 0 };
    assert(ch >= 2);
    assert(2 * ch + 1 + reserved + geometry.legend <= room);
    assert forall|i: int| 0 <= i < d.len() implies (#[trigger] d[i])@.len() <= 2 * ch + 1 + reserved by {
        assert(cells(grids[i]@).len() == grids[i]@.len());
        lemma_panel_height(panels[i], geometry.cells_w as nat, ch, cells(grids[i]@));
        assert(line_views(d[i]@).len() == d[i]@.len());
    }
    lemma_tallest_at_most(d, 2 * ch + 1 + reserved);
}

} // verus!
