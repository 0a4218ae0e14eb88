//! Target arrangements for the panes of one tab, as plans: the pane left in
//! place, then each other pane with the pane it splits and on which side.
use vstd::prelude::*;

use crate::layout::{anchors_placed, placed_before, plan_panes, string_views, Placement, Plan, Side, Step};
use vstd::multiset::Multiset;
use crate::term::sat_sub;
use crate::text::{keyword, keyword_of, spells};

verus! {

/// The arrangements Layout Tools offers.
#[derive(Debug, Clone, Copy, PartialEq, Eq, Structural)]
pub enum Arrangement {
    /// All panes side by side in one row.
    Columns,
    /// All panes stacked in one column.
    Rows,
    /// A balanced grid: roughly square, filled column by column.
    Grid,
    /// The focused pane down the left, everyone else stacked on the right.
    MainLeft,
    /// The focused pane down the right, everyone else stacked on the left.
    MainRight,
    /// The focused pane across the top, everyone else in a row below.
    MainTop,
}

pub open spec fn arrangement_named(raw: Seq<char>) -> Option<Arrangement> {
    let k = keyword(raw);
    if k == "columns"@ || k == "column"@ {
        Some(Arrangement::Columns)
    } else if k == "rows"@ || k == "row"@ {
        Some(Arrangement::Rows)
    } else if k == "grid"@ {
        Some(Arrangement::Grid)
    } else if k == "main-left"@ || k == "main_left"@ {
        Some(Arrangement::MainLeft)
    } else if k == "main-right"@ || k == "main_right"@ {
        Some(Arrangement::MainRight)
    } else if k == "main-top"@ || k == "main_top"@ {
        Some(Arrangement::MainTop)
    } else {
        None
    }
}

impl Arrangement {
    pub fn title(self) -> (r: &'static str)
        ensures
            r@ == match self {
                Arrangement::Columns => "Columns"@,
                Arrangement::Rows => "Rows"@,
                Arrangement::Grid => "Grid"@,
                Arrangement::MainLeft => "Main Left"@,
                Arrangement::MainRight => "Main Right"@,
                Arrangement::MainTop => "Main Top"@,
            },
    {
        match self {
            Arrangement::Columns => "Columns",
            Arrangement::Rows => "Rows",
            Arrangement::Grid => "Grid",
            Arrangement::MainLeft => "Main Left",
            Arrangement::MainRight => "Main Right",
            Arrangement::MainTop => "Main Top",
        }
    }

    pub fn description(self) -> (r: &'static str)
        ensures
            r@ == match self {
                Arrangement::Columns => "すべての Pane を横一列に"@,
                Arrangement::Rows => "すべての Pane を縦一列に"@,
                Arrangement::Grid => "だいたい正方形の格子に"@,
                Arrangement::MainLeft => "現在の Pane を左、残りを右へ積む"@,
                Arrangement::MainRight => "現在の Pane を右、残りを左へ積む"@,
                Arrangement::MainTop => "現在の Pane を上、残りを下へ並べる"@,
            },
    {
        match self {
            Arrangement::Columns => "すべての Pane を横一列に",
            Arrangement::Rows => "すべての Pane を縦一列に",
            Arrangement::Grid => "だいたい正方形の格子に",
            Arrangement::MainLeft => "現在の Pane を左、残りを右へ積む",
            Arrangement::MainRight => "現在の Pane を右、残りを左へ積む",
            Arrangement::MainTop => "現在の Pane を上、残りを下へ並べる",
        }
    }

    pub fn hotkey(self) -> (r: &'static str)
        ensures
            r@ == match self {
                Arrangement::Columns => "c"@,
                Arrangement::Rows => "r"@,
                Arrangement::Grid => "g"@,
                Arrangement::MainLeft => "h"@,
                Arrangement::MainRight => "l"@,
                Arrangement::MainTop => "t"@,
            },
    {
        match self {
            Arrangement::Columns => "c",
            Arrangement::Rows => "r",
            Arrangement::Grid => "g",
            Arrangement::MainLeft => "h",
            Arrangement::MainRight => "l",
            Arrangement::MainTop => "t",
        }
    }

    /// Read an arrangement from a flag, ignoring case and surrounding space.
    pub fn parse(raw: &str) -> (r: Option<Self>)
        ensures
            r == arrangement_named(raw@),
    {
        let k = keyword_of(raw);
        if spells(&k, "columns") || spells(&k, "column") {
            Some(Arrangement::Columns)
        } else if spells(&k, "rows") || spells(&k, "row") {
            Some(Arrangement::Rows)
        } else if spells(&k, "grid") {
            Some(Arrangement::Grid)
        } else if spells(&k, "main-left") || spells(&k, "main_left") {
            Some(Arrangement::MainLeft)
        } else if spells(&k, "main-right") || spells(&k, "main_right") {
            Some(Arrangement::MainRight)
        } else if spells(&k, "main-top") || spells(&k, "main_top") {
            Some(Arrangement::MainTop)
        } else {
            None
        }
    }

    /// Every arrangement, in the order the menu lists them.
    pub fn all() -> (r: [Arrangement; 6])
        ensures
            r@ == seq![
                Arrangement::Grid,
                Arrangement::Columns,
                Arrangement::Rows,
                Arrangement::MainLeft,
                Arrangement::MainRight,
                Arrangement::MainTop,
            ],
    {
        let r = [
            Arrangement::Grid,
            Arrangement::Columns,
            Arrangement::Rows,
            Arrangement::MainLeft,
            Arrangement::MainRight,
            Arrangement::MainTop,
        ];
        assert(r@ =~= seq![
            Arrangement::Grid,
            Arrangement::Columns,
            Arrangement::Rows,
            Arrangement::MainLeft,
            Arrangement::MainRight,
            Arrangement::MainTop,
        ]);
        r
    }
}

// ---------------------------------------------------------------------------
// The plans, as mathematics
// ---------------------------------------------------------------------------

/// Each pane hangs off the previous one.
pub open spec fn chain_steps(p: Seq<Seq<char>>, side: Side) -> Seq<Step> {
    Seq::new((p.len() - 1) as nat, |i: int| Step { pane: p[i + 1], anchor: p[i], side })
}

/// The pane that takes the large slot: the one asked for when it is among
/// the panes, else the first.
pub open spec fn main_pick(p: Seq<Seq<char>>, main: Option<Seq<char>>) -> Seq<char> {
    match main {
        Some(m) => if p.contains(m) { m } else { p[0] },
        None => p[0],
    }
}

/// The panes other than `m`, in order.
pub open spec fn others_of(p: Seq<Seq<char>>, m: Seq<char>) -> Seq<Seq<char>>
    decreases p.len(),
{
    if p.len() == 0 {
        seq![]
    } else if p.last() == m {
        others_of(p.drop_last(), m)
    } else {
        others_of(p.drop_last(), m).push(p.last())
    }
}

/// `m` takes one whole side; the rest stack along `stack` on the other.
pub open spec fn main_steps(p: Seq<Seq<char>>, m: Seq<char>, split: Side, stack: Side) -> Seq<Step> {
    let o = others_of(p, m);
    seq![Step { pane: o[0], anchor: m, side: split }] + chain_steps(o, stack)
}

/// Main on the right, built the other way round: the stack's head anchors
/// the tab, main is split off it first so it spans the full height, and the
/// stack is subdivided after.
pub open spec fn mirrored(anchor: Seq<char>, steps: Seq<Step>) -> (Seq<char>, Seq<Step>) {
    (steps[0].pane, seq![Step { pane: anchor, anchor: steps[0].pane, side: Side::Right }] + steps.skip(1))
}

/// The least `c >= from` with `c * c >= n`.
pub open spec fn ceil_sqrt_from(n: nat, c: nat) -> nat
    decreases n - c,
{
    if c * c >= n || c >= n {
        c
    } else {
        ceil_sqrt_from(n, c + 1)
    }
}

/// How many panes column `j` of a grid of `n` in `c` columns takes: the
/// shortfall is spread over the rightmost columns.
pub open spec fn column_take(n: nat, c: nat, rows: nat, j: nat) -> nat {
    if j < n % c || n % c == 0 { rows } else { sat_sub(rows, 1) }
}

/// The columns of a grid, as index ranges, from column `j` starting at
/// index `start`; empty columns are left out.
pub open spec fn chunks_from(n: nat, c: nat, rows: nat, j: nat, start: nat) -> Seq<(int, int)>
    decreases c - j,
{
    if j >= c {
        seq![]
    } else {
        let t = start + column_take(n, c, rows, j);
        let end: nat = if t < n { t } else { n };
        let rest = chunks_from(n, c, rows, j + 1, end);
        if start < end {
            seq![(start as int, end as int)] + rest
        } else {
            rest
        }
    }
}

/// A grid's columns: `ceil(sqrt(n))` of them, each `ceil(n / columns)` tall
/// at most.
pub open spec fn grid_chunks(n: nat) -> Seq<(int, int)> {
    let c = ceil_sqrt_from(n, 1);
    let rows = n / c + if n % c != 0 { 1nat } else { 0nat };
    chunks_from(n, c, rows, 0, 0)
}

/// The head of each column split off the head of the one before.
pub open spec fn head_steps(p: Seq<Seq<char>>, b: Seq<(int, int)>) -> Seq<Step> {
    Seq::new((b.len() - 1) as nat, |i: int| Step { pane: p[b[i + 1].0], anchor: p[b[i].0], side: Side::Right })
}

/// Inside each column, each pane split below the one above it.
pub open spec fn tail_steps(p: Seq<Seq<char>>, b: Seq<(int, int)>) -> Seq<Step>
    decreases b.len(),
{
    if b.len() == 0 {
        seq![]
    } else {
        let (s, e) = b.last();
        tail_steps(p, b.drop_last()) + Seq::new(
            (e - s - 1) as nat,
            |k: int| Step { pane: p[s + k + 1], anchor: p[s + k], side: Side::Down },
        )
    }
}

/// A grid: every column exists before any column is subdivided, since a
/// column head split downwards first would only span half its column.
pub open spec fn grid_steps(p: Seq<Seq<char>>) -> Seq<Step> {
    let b = grid_chunks(p.len());
    head_steps(p, b) + tail_steps(p, b)
}

/// The plan an arrangement makes for `p`, with `main` as the pane asked to
/// take the large slot: the anchor and the steps.
pub open spec fn arranged(a: Arrangement, p: Seq<Seq<char>>, main: Option<Seq<char>>) -> (Seq<char>, Seq<Step>) {
    match a {
        Arrangement::Columns => (p[0], chain_steps(p, Side::Right)),
        Arrangement::Rows => (p[0], chain_steps(p, Side::Down)),
        Arrangement::Grid => (p[0], grid_steps(p)),
        Arrangement::MainLeft => (main_pick(p, main), main_steps(p, main_pick(p, main), Side::Right, Side::Down)),
        Arrangement::MainRight => mirrored(
            main_pick(p, main),
            main_steps(p, main_pick(p, main), Side::Right, Side::Down),
        ),
        Arrangement::MainTop => (main_pick(p, main), main_steps(p, main_pick(p, main), Side::Down, Side::Right)),
    }
}

/// Whether an arrangement can be made without running out of panes: the
/// Main arrangements need a pane other than the main one.
pub open spec fn makeable(a: Arrangement, p: Seq<Seq<char>>, main: Option<Seq<char>>) -> bool {
    match a {
        Arrangement::MainLeft | Arrangement::MainRight | Arrangement::MainTop =>
            others_of(p, main_pick(p, main)).len() > 0,
        _ => true,
    }
}

// ---------------------------------------------------------------------------
// Building the plans
// ---------------------------------------------------------------------------

fn place(pane: &String, anchor: &String, side: Side) -> (r: Placement)
    ensures
        crate::layout::step_of(r) == (Step { pane: pane@, anchor: anchor@, side }),
{
    Placement { pane_id: pane.clone(), anchor: anchor.clone(), side }
}

fn chain(panes: &[String], side: Side) -> (r: Plan)
    requires
        panes@.len() >= 1,
    ensures
        r.anchor@ == string_views(panes@)[0],
        r.steps() == chain_steps(string_views(panes@), side),
{
    let ghost p = string_views(panes@);
    let mut placements: Vec<Placement> = Vec::new();
    let mut i: usize = 1;
    while i < panes.len()
        invariant
            1 <= i <= panes@.len(),
            p == string_views(panes@),
            crate::layout::steps_of(placements@) == chain_steps(p, side).take((i - 1) as int),
        decreases panes@.len() - i,
    {
        let ghost prev = placements@;
        placements.push(place(&panes[i], &panes[i - 1], side));
        proof {
            assert(crate::layout::steps_of(placements@) =~= crate::layout::steps_of(prev).push(
                Step { pane: p[i as int], anchor: p[i - 1], side },
            ));
            assert(chain_steps(p, side).take(i as int) =~= chain_steps(p, side).take((i - 1) as int).push(
                Step { pane: p[i as int], anchor: p[i - 1], side },
            ));
        }
        i = i + 1;
    }
    proof {
        assert(chain_steps(p, side).take((panes@.len() - 1) as int) =~= chain_steps(p, side));
    }
    Plan { anchor: panes[0].clone(), placements }
}

fn contains_pane(panes: &[String], id: &str) -> (r: bool)
    ensures
        r == string_views(panes@).contains(id@),
{
    let mut i: usize = 0;
    while i < panes.len()
        invariant
            i <= panes@.len(),
            forall|k: int| 0 <= k < i ==> panes@[k]@ != id@,
        decreases panes@.len() - i,
    {
        if crate::text::same_text(panes[i].as_str(), id) {
            assert(string_views(panes@)[i as int] == id@);
            return true;
        }
        i = i + 1;
    }
    proof {
        if string_views(panes@).contains(id@) {
            let k = choose|k: int| 0 <= k < panes@.len() && string_views(panes@)[k] == id@;
            assert(panes@[k]@ == id@);
        }
    }
    false
}

fn main_split(panes: &[String], main: Option<&str>, split: Side, stack: Side) -> (r: Plan)
    requires
        panes@.len() >= 1,
        others_of(string_views(panes@), main_pick(string_views(panes@), match main { Some(m) => Some(m@), None => None })).len() > 0,
    ensures
        ({
            let p = string_views(panes@);
            let m = main_pick(p, match main { Some(m) => Some(m@), None => None });
            &&& r.anchor@ == m
            &&& r.steps() == main_steps(p, m, split, stack)
        }),
{
    let ghost p = string_views(panes@);
    let m: String = match main {
        Some(x) => if contains_pane(panes, x) { crate::text::owned(x) } else { panes[0].clone() },
        None => panes[0].clone(),
    };
    let mut others: Vec<String> = Vec::new();
    let mut i: usize = 0;
    while i < panes.len()
        invariant
            i <= panes@.len(),
            p == string_views(panes@),
            string_views(others@) == others_of(p.take(i as int), m@),
        decreases panes@.len() - i,
    {
        proof {
            assert(p.take(i + 1).drop_last() =~= p.take(i as int));
        }
        if !crate::text::same_text(panes[i].as_str(), m.as_str()) {
            let ghost prev = others@;
            others.push(panes[i].clone());
            proof {
                assert(string_views(others@) =~= string_views(prev).push(p[i as int]));
            }
        }
        i = i + 1;
    }
    proof {
        assert(p.take(p.len() as int) =~= p);
    }
    let ghost o = string_views(others@);
    let mut placements: Vec<Placement> = vec![place(&others[0], &m, split)];
    proof {
        assert(crate::layout::steps_of(placements@) =~= seq![Step { pane: o[0], anchor: m@, side: split }]);
    }
    let mut k: usize = 1;
    while k < others.len()
        invariant
            1 <= k <= others@.len(),
            o == string_views(others@),
            crate::layout::steps_of(placements@) == seq![Step { pane: o[0], anchor: m@, side: split }]
                + chain_steps(o, stack).take((k - 1) as int),
        decreases others@.len() - k,
    {
        let ghost prev = placements@;
        placements.push(place(&others[k], &others[k - 1], stack));
        proof {
            assert(crate::layout::steps_of(placements@) =~= crate::layout::steps_of(prev).push(
                Step { pane: o[k as int], anchor: o[k - 1], side: stack },
            ));
            assert(chain_steps(o, stack).take(k as int) =~= chain_steps(o, stack).take((k - 1) as int).push(
                Step { pane: o[k as int], anchor: o[k - 1], side: stack },
            ));
        }
        k = k + 1;
    }
    proof {
        assert(chain_steps(o, stack).take((o.len() - 1) as int) =~= chain_steps(o, stack));
    }
    Plan { anchor: m, placements }
}

fn mirror(plan: Plan) -> (r: Plan)
    requires
        plan.placements@.len() > 0,
    ensures
        (r.anchor@, r.steps()) == mirrored(plan.anchor@, plan.steps()),
{
    let ghost s = plan.steps();
    let first_other = plan.placements[0].pane_id.clone();
    let mut placements: Vec<Placement> = Vec::new();
    placements.push(place(&plan.anchor, &first_other, Side::Right));
    let mut i: usize = 1;
    while i < plan.placements.len()
        invariant
            1 <= i <= plan.placements@.len(),
            s == plan.steps(),
            crate::layout::steps_of(placements@) == seq![Step { pane: plan.anchor@, anchor: s[0].pane, side: Side::Right }]
                + s.skip(1).take((i - 1) as int),
        decreases plan.placements@.len() - i,
    {
        let ghost prev = placements@;
        placements.push(plan.placements[i].duplicate());
        proof {
            assert(crate::layout::steps_of(placements@) =~= crate::layout::steps_of(prev).push(s[i as int]));
            assert(s.skip(1).take(i as int) =~= s.skip(1).take((i - 1) as int).push(s[i as int]));
        }
        i = i + 1;
    }
    proof {
        assert(s.skip(1).take((s.len() - 1) as int) =~= s.skip(1));
    }
    Plan { anchor: first_other, placements }
}

fn ceil_sqrt(n: usize) -> (r: usize)
    requires
        n >= 1,
    ensures
        r == ceil_sqrt_from(n as nat, 1),
        1 <= r <= n,
{
    let mut c: usize = 1;
    while c < n && square_below(c, n)
        invariant
            1 <= c <= n,
            ceil_sqrt_from(n as nat, c as nat) == ceil_sqrt_from(n as nat, 1),
        decreases n - c,
    {
        c = c + 1;
    }
    c
}

/// Whether `c * c < n`, computed without overflow.
fn square_below(c: usize, n: usize) -> (r: bool)
    ensures
        r == (c * c < n),
{
    let cc = c as u128;
    proof {
        assert(cc * cc <= 0xffff_ffff_ffff_ffff_u128 * 0xffff_ffff_ffff_ffff_u128) by (nonlinear_arith)
            requires cc <= 0xffff_ffff_ffff_ffff_u128;
        assert(0xffff_ffff_ffff_ffff_u128 * 0xffff_ffff_ffff_ffff_u128 < 0xffff_ffff_ffff_ffff_ffff_ffff_ffff_ffff_u128)
            by (nonlinear_arith);
    }
    cc * cc < (n as u128)
}

fn grid(panes: &[String]) -> (r: Plan)
    requires
        panes@.len() >= 2,
    ensures
        r.anchor@ == string_views(panes@)[0],
        r.steps() == grid_steps(string_views(panes@)),
{
    let ghost p = string_views(panes@);
    let n = panes.len();
    let columns = ceil_sqrt(n);
    proof {
        vstd::arithmetic::div_mod::lemma_div_is_ordered_by_denominator(n as int, 1, columns as int);
        vstd::arithmetic::div_mod::lemma_div_basics(n as int);
        if n % columns != 0 && columns == 1 {
            vstd::arithmetic::div_mod::lemma_mod_bound(n as int, 1);
        }
        if columns > 1 {
            vstd::arithmetic::div_mod::lemma_div_decreases(n as int, columns as int);
        }
        lemma_rows_positive(n as nat, columns as nat);
    }
    let rows = n / columns + if n % columns != 0 { 1 } else { 0 };
    let ghost whole = chunks_from(n as nat, columns as nat, rows as nat, 0, 0);
    let mut chunks: Vec<(usize, usize)> = Vec::new();
    let mut start: usize = 0;
    let mut column: usize = 0;
    while column < columns
        invariant
            column <= columns,
            start <= n,
            columns >= 1,
            chunk_views(chunks@) + chunks_from(n as nat, columns as nat, rows as nat, column as nat, start as nat) == whole,
            forall|k: int| 0 <= k < chunks@.len() ==> (#[trigger] chunks@[k]).0 < chunks@[k].1 <= n,
        decreases columns - column,
    {
        let take = if column < n % columns || n % columns == 0 { rows } else { if rows > 0 { rows - 1 } else { 0 } };
        let end = if take < n - start { start + take } else { n };
        let ghost prev = chunks@;
        if start < end {
            chunks.push((start, end));
            proof {
                assert(chunk_views(chunks@) =~= chunk_views(prev).push((start as int, end as int)));
                assert(chunk_views(prev).push((start as int, end as int)) + chunks_from(n as nat, columns as nat, rows as nat, (column + 1) as nat, end as nat)
                    =~= chunk_views(prev) + (seq![(start as int, end as int)] + chunks_from(n as nat, columns as nat, rows as nat, (column + 1) as nat, end as nat)));
            }
        }
        start = end;
        column = column + 1;
    }
    proof {
        assert(chunk_views(chunks@) =~= whole);
    }
    let ghost b = whole;
    let mut placements: Vec<Placement> = Vec::new();
    let mut i: usize = 1;
    while i < chunks.len()
        invariant
            b == chunk_views(chunks@),
            p == string_views(panes@),
            n == panes@.len(),
            forall|k: int| 0 <= k < chunks@.len() ==> (#[trigger] chunks@[k]).0 < chunks@[k].1 <= n,
            1 <= i <= chunks@.len() || chunks@.len() == 0,
            crate::layout::steps_of(placements@) == head_steps(p, b).take((i - 1) as int),
        decreases chunks@.len() - i,
    {
        let ghost prev = placements@;
        placements.push(place(&panes[chunks[i].0], &panes[chunks[i - 1].0], Side::Right));
        proof {
            assert(crate::layout::steps_of(placements@) =~= crate::layout::steps_of(prev).push(
                Step { pane: p[b[i as int].0], anchor: p[b[i - 1].0], side: Side::Right },
            ));
            assert(head_steps(p, b).take(i as int) =~= head_steps(p, b).take((i - 1) as int).push(
                Step { pane: p[b[i as int].0], anchor: p[b[i - 1].0], side: Side::Right },
            ));
        }
        i = i + 1;
    }
    proof {
        if chunks@.len() > 0 {
            assert(head_steps(p, b).take((b.len() - 1) as int) =~= head_steps(p, b));
        } else {
            assert(head_steps(p, b) =~= Seq::<Step>::empty());
            assert(crate::layout::steps_of(placements@) =~= Seq::<Step>::empty());
        }
    }
    let ghost heads = crate::layout::steps_of(placements@);
    let mut c: usize = 0;
    while c < chunks.len()
        invariant
            c <= chunks@.len(),
            b == chunk_views(chunks@),
            p == string_views(panes@),
            n == panes@.len(),
            forall|k: int| 0 <= k < chunks@.len() ==> (#[trigger] chunks@[k]).0 < chunks@[k].1 <= n,
            crate::layout::steps_of(placements@) == heads + tail_steps(p, b.take(c as int)),
        decreases chunks@.len() - c,
    {
        let (s, e) = chunks[c];
        let ghost before = crate::layout::steps_of(placements@);
        let mut k: usize = s;
        while k + 1 < e
            invariant
                s <= k < e <= n,
                n == panes@.len(),
                p == string_views(panes@),
                crate::layout::steps_of(placements@) == before + Seq::new(
                    (k - s) as nat,
                    |m: int| Step { pane: p[s + m + 1], anchor: p[s + m], side: Side::Down },
                ),
            decreases e - k,
        {
            let ghost prev = placements@;
            placements.push(place(&panes[k + 1], &panes[k], Side::Down));
            proof {
                assert(crate::layout::steps_of(placements@) =~= crate::layout::steps_of(prev).push(
                    Step { pane: p[k + 1], anchor: p[k as int], side: Side::Down },
                ));
                assert(crate::layout::steps_of(placements@) =~= before + Seq::new(
                    (k + 1 - s) as nat,
                    |m: int| Step { pane: p[s + m + 1], anchor: p[s + m], side: Side::Down },
                ));
            }
            k = k + 1;
        }
        proof {
            assert(b.take(c + 1).drop_last() =~= b.take(c as int));
            assert(b.take(c + 1).last() == (s as int, e as int));
            assert(crate::layout::steps_of(placements@) =~= heads + tail_steps(p, b.take(c + 1)));
        }
        c = c + 1;
    }
    proof {
        assert(b.take(b.len() as int) =~= b);
        lemma_first_chunk(n as nat, columns as nat, rows as nat);
    }
    Plan { anchor: panes[0].clone(), placements }
}

pub open spec fn chunk_views(v: Seq<(usize, usize)>) -> Seq<(int, int)> {
    v.map_values(|c: (usize, usize)| (c.0 as int, c.1 as int))
}

/// The first column of a grid starts at the first pane.
proof fn lemma_first_chunk(n: nat, c: nat, rows: nat)
    requires
        n >= 2,
        c >= 1,
        rows >= 1,
    ensures
        chunks_from(n, c, rows, 0, 0).len() > 0,
        chunks_from(n, c, rows, 0, 0)[0].0 == 0,
{
    let t = column_take(n, c, rows, 0);
    assert(t == rows);
    lemma_chunks_start(n, c, rows, 0, 0);
}

proof fn lemma_chunks_start(n: nat, c: nat, rows: nat, j: nat, start: nat)
    requires
        start <= n,
    ensures
        chunks_from(n, c, rows, j, start).len() > 0 ==> chunks_from(n, c, rows, j, start)[0].0 >= start,
    decreases c - j,
{
    if j < c {
        let t = start + column_take(n, c, rows, j);
        let end: nat = if t < n { t } else { n };
        lemma_chunks_start(n, c, rows, j + 1, end);
    }
}

impl Arrangement {
    /// The plan for `panes` (in current layout order), with `main` as the
    /// pane that should get the large slot in the Main arrangements. `None`
    /// when there is nothing to arrange: fewer than two panes. The others
    /// keep their relative order, so a rearrangement does not shuffle
    /// unrelated panes.
    pub fn plan(self, panes: &[String], main: Option<&str>) -> (r: Option<Plan>)
        requires
            panes@.len() >= 2 ==> makeable(self, string_views(panes@), match main { Some(m) => Some(m@), None => None }),
        ensures
            panes@.len() < 2 ==> r is None,
            panes@.len() >= 2 ==> (r matches Some(plan) && (plan.anchor@, plan.steps()) == arranged(
                self,
                string_views(panes@),
                match main { Some(m) => Some(m@), None => None },
            )),
    {
        if panes.len() < 2 {
            return None;
        }
        match self {
            Arrangement::Columns => Some(chain(panes, Side::Right)),
            Arrangement::Rows => Some(chain(panes, Side::Down)),
            Arrangement::Grid => Some(grid(panes)),
            Arrangement::MainLeft => Some(main_split(panes, main, Side::Right, Side::Down)),
            Arrangement::MainRight => {
                let plan = main_split(panes, main, Side::Right, Side::Down);
                proof {
                    assert(plan.steps().len() > 0);
                }
                Some(mirror(plan))
            },
            Arrangement::MainTop => Some(main_split(panes, main, Side::Down, Side::Right)),
        }
    }
}

// ---------------------------------------------------------------------------
// What every plan promises
// ---------------------------------------------------------------------------

proof fn lemma_chain_anchors(p: Seq<Seq<char>>, side: Side)
    requires
        p.len() >= 1,
    ensures
        anchors_placed(p[0], chain_steps(p, side)),
        plan_panes(p[0], chain_steps(p, side)) == p,
{
    let s = chain_steps(p, side);
    assert(plan_panes(p[0], s) =~= p);
    assert forall|i: int| 0 <= i < s.len() implies #[trigger] placed_before(p[0], s, i).contains(s[i].anchor) by {
        assert(placed_before(p[0], s, i)[i] == p[i]);
    }
}

/// Every placement anchors on a pane placed before it, whichever
/// arrangement is asked for.
pub proof fn lemma_plan_anchors_on_placed_panes(a: Arrangement, p: Seq<Seq<char>>, main: Option<Seq<char>>)
    requires
        p.len() >= 2,
        makeable(a, p, main),
    ensures
        anchors_placed(arranged(a, p, main).0, arranged(a, p, main).1),
{
    match a {
        Arrangement::Columns => lemma_chain_anchors(p, Side::Right),
        Arrangement::Rows => lemma_chain_anchors(p, Side::Down),
        Arrangement::Grid => lemma_grid_anchors(p),
        Arrangement::MainLeft => lemma_main_anchors(p, main_pick(p, main), Side::Right, Side::Down),
        Arrangement::MainTop => lemma_main_anchors(p, main_pick(p, main), Side::Down, Side::Right),
        Arrangement::MainRight => {
            let m = main_pick(p, main);
            lemma_main_anchors(p, m, Side::Right, Side::Down);
            lemma_mirror_anchors(m, main_steps(p, m, Side::Right, Side::Down));
        },
    }
}

proof fn lemma_main_anchors(p: Seq<Seq<char>>, m: Seq<char>, split: Side, stack: Side)
    requires
        others_of(p, m).len() > 0,
    ensures
        anchors_placed(m, main_steps(p, m, split, stack)),
        plan_panes(m, main_steps(p, m, split, stack)) == seq![m] + others_of(p, m),
{
    let o = others_of(p, m);
    let s = main_steps(p, m, split, stack);
    assert(plan_panes(m, s) =~= seq![m] + o);
    assert forall|i: int| 0 <= i < s.len() implies #[trigger] placed_before(m, s, i).contains(s[i].anchor) by {
        if i == 0 {
            assert(placed_before(m, s, 0)[0] == m);
        } else {
            assert(placed_before(m, s, i)[i] == o[i - 1]);
        }
    }
}

proof fn lemma_mirror_anchors(anchor: Seq<char>, steps: Seq<Step>)
    requires
        steps.len() > 0,
        anchors_placed(anchor, steps),
        steps[0].anchor == anchor,
    ensures
        anchors_placed(mirrored(anchor, steps).0, mirrored(anchor, steps).1),
{
    let (a2, s2) = mirrored(anchor, steps);
    assert forall|i: int| 0 <= i < s2.len() implies #[trigger] placed_before(a2, s2, i).contains(s2[i].anchor) by {
        if i == 0 {
            assert(placed_before(a2, s2, 0)[0] == a2);
        } else {
            assert(s2[i] == steps[i]);
            assert(placed_before(anchor, steps, i).contains(steps[i].anchor));
            let j = choose|j: int| 0 <= j < placed_before(anchor, steps, i).len() && placed_before(anchor, steps, i)[j] == steps[i].anchor;
            if j == 0 {
                assert(placed_before(a2, s2, i)[1] == anchor);
            } else if j == 1 {
                assert(placed_before(a2, s2, i)[0] == steps[0].pane);
            } else {
                assert(placed_before(a2, s2, i)[j] == steps[j - 1].pane);
            }
        }
    }
}

/// The heads of a grid's columns, left to right.
pub open spec fn heads_of(p: Seq<Seq<char>>, b: Seq<(int, int)>) -> Seq<Seq<char>> {
    b.map_values(|r: (int, int)| p[r.0])
}

/// Steps that chain a run of panes downwards from a head that is already
/// placed keep every anchor placed.
proof fn lemma_append_run(anchor: Seq<char>, steps: Seq<Step>, p: Seq<Seq<char>>, s: int, e: int)
    requires
        anchors_placed(anchor, steps),
        0 <= s < e <= p.len(),
        plan_panes(anchor, steps).contains(p[s]),
    ensures
        anchors_placed(anchor, steps + Seq::new((e - s - 1) as nat, |k: int| Step { pane: p[s + k + 1], anchor: p[s + k], side: Side::Down })),
        plan_panes(anchor, steps).is_prefix_of(plan_panes(anchor, steps + Seq::new((e - s - 1) as nat, |k: int| Step { pane: p[s + k + 1], anchor: p[s + k], side: Side::Down }))),
{
    let t = Seq::new((e - s - 1) as nat, |k: int| Step { pane: p[s + k + 1], anchor: p[s + k], side: Side::Down });
    let all = steps + t;
    let pp = plan_panes(anchor, steps);
    let qq = plan_panes(anchor, all);
    assert(qq.len() == pp.len() + t.len());
    assert forall|i: int| 0 <= i < pp.len() implies qq[i] == pp[i] by {
        if i > 0 {
            assert(all[i - 1] == steps[i - 1]);
        }
    }
    assert(pp.is_prefix_of(qq)) by {
        assert(qq.take(pp.len() as int) =~= pp);
    }
    assert forall|i: int| 0 <= i < all.len() implies #[trigger] placed_before(anchor, all, i).contains(all[i].anchor) by {
        if i < steps.len() {
            assert(all[i] == steps[i]);
            assert(placed_before(anchor, steps, i).contains(steps[i].anchor));
            let j = choose|j: int| 0 <= j < placed_before(anchor, steps, i).len() && placed_before(anchor, steps, i)[j] == steps[i].anchor;
            assert(placed_before(anchor, all, i)[j] == qq[j]);
        } else {
            let k = i - steps.len();
            assert(all[i] == t[k]);
            if k == 0 {
                let j = choose|j: int| 0 <= j < pp.len() && pp[j] == p[s];
                assert(placed_before(anchor, all, i)[j] == qq[j]);
            } else {
                assert(qq[i] == all[i - 1].pane);
                assert(all[i - 1] == t[k - 1]);
                assert(placed_before(anchor, all, i)[i] == qq[i]);
            }
        }
    }
}

proof fn lemma_tails_anchor(p: Seq<Seq<char>>, b: Seq<(int, int)>, head: Seq<Step>, j: int)
    requires
        0 <= j <= b.len(),
        b.len() > 0,
        forall|k: int| 0 <= k < b.len() ==> 0 <= (#[trigger] b[k]).0 < b[k].1 <= p.len(),
        anchors_placed(p[b[0].0], head),
        plan_panes(p[b[0].0], head) == heads_of(p, b),
    ensures
        anchors_placed(p[b[0].0], head + tail_steps(p, b.take(j))),
        heads_of(p, b).is_prefix_of(plan_panes(p[b[0].0], head + tail_steps(p, b.take(j)))),
    decreases j,
{
    let a = p[b[0].0];
    if j == 0 {
        assert(tail_steps(p, b.take(0)) =~= Seq::<Step>::empty());
        assert(head + tail_steps(p, b.take(0)) =~= head);
        assert(heads_of(p, b).take(heads_of(p, b).len() as int) =~= heads_of(p, b));
    } else {
        lemma_tails_anchor(p, b, head, j - 1);
        let prev = head + tail_steps(p, b.take(j - 1));
        let (s, e) = b[j - 1];
        assert(b.take(j).drop_last() =~= b.take(j - 1));
        assert(b.take(j).last() == b[j - 1]);
        let t = Seq::new((e - s - 1) as nat, |k: int| Step { pane: p[s + k + 1], anchor: p[s + k], side: Side::Down });
        assert(tail_steps(p, b.take(j)) == tail_steps(p, b.take(j - 1)) + t);
        assert(head + tail_steps(p, b.take(j)) =~= prev + t);
        assert(heads_of(p, b)[j - 1] == p[s]);
        assert(plan_panes(a, prev)[j - 1] == p[s]);
        lemma_append_run(a, prev, p, s, e);
        let qq = plan_panes(a, prev + t);
        assert(heads_of(p, b).is_prefix_of(qq)) by {
            assert forall|i: int| 0 <= i < heads_of(p, b).len() implies qq[i] == heads_of(p, b)[i] by {
                assert(plan_panes(a, prev)[i] == heads_of(p, b)[i]);
            }
            assert(qq.take(heads_of(p, b).len() as int) =~= heads_of(p, b));
        }
    }
}

proof fn lemma_grid_anchors(p: Seq<Seq<char>>)
    requires
        p.len() >= 2,
    ensures
        anchors_placed(p[0], grid_steps(p)),
{
    let n = p.len();
    let c = ceil_sqrt_from(n, 1);
    lemma_ceil_sqrt_bounds(n, 1);
    let rows = n / c + if n % c != 0 { 1nat } else { 0nat };
    lemma_rows_positive(n, c);
    let b = grid_chunks(n);
    lemma_first_chunk(n, c, rows);
    lemma_chunks_bounded(n, c, rows, 0, 0);
    let h = heads_of(p, b);
    assert(head_steps(p, b) =~= chain_steps(h, Side::Right));
    lemma_chain_anchors(h, Side::Right);
    assert(h[0] == p[0]);
    lemma_tails_anchor(p, b, head_steps(p, b), b.len() as int);
    assert(b.take(b.len() as int) =~= b);
}

proof fn lemma_ceil_sqrt_bounds(n: nat, c: nat)
    requires
        1 <= c,
        c <= n,
    ensures
        1 <= ceil_sqrt_from(n, c) <= n,
    decreases n - c,
{
    if !(c * c >= n || c >= n) {
        lemma_ceil_sqrt_bounds(n, c + 1);
    }
}

proof fn lemma_rows_positive(n: nat, c: nat)
    requires
        1 <= c <= n,
    ensures
        n / c + (if n % c != 0 { 1nat } else { 0nat }) >= 1,
{
    vstd::arithmetic::div_mod::lemma_div_is_ordered_by_denominator(n as int, 1, c as int);
    vstd::arithmetic::div_mod::lemma_div_basics(n as int);
    vstd::arithmetic::div_mod::lemma_div_is_ordered(c as int, n as int, c as int);
    vstd::arithmetic::div_mod::lemma_div_basics(c as int);
}

proof fn lemma_chunks_bounded(n: nat, c: nat, rows: nat, j: nat, start: nat)
    ensures
        forall|k: int| 0 <= k < chunks_from(n, c, rows, j, start).len() ==>
            start <= (#[trigger] chunks_from(n, c, rows, j, start)[k]).0 < chunks_from(n, c, rows, j, start)[k].1 <= n,
    decreases c - j,
{
    if j < c {
        let t = start + column_take(n, c, rows, j);
        let end: nat = if t < n { t } else { n };
        lemma_chunks_bounded(n, c, rows, j + 1, end);
        let rest = chunks_from(n, c, rows, j + 1, end);
        if start < end {
            assert forall|k: int| 0 <= k < chunks_from(n, c, rows, j, start).len() implies
                start <= (#[trigger] chunks_from(n, c, rows, j, start)[k]).0 < chunks_from(n, c, rows, j, start)[k].1 <= n by {
                if k > 0 {
                    assert(chunks_from(n, c, rows, j, start)[k] == rest[k - 1]);
                }
            }
        }
    }
}


// ---------------------------------------------------------------------------
// Every pane is placed exactly once
// ---------------------------------------------------------------------------

/// The panes a list of steps places, in order.
pub open spec fn step_panes(steps: Seq<Step>) -> Seq<Seq<char>> {
    steps.map_values(|st: Step| st.pane)
}

/// With distinct panes, leaving `p[k]` out is removing index `k`.
proof fn lemma_others_remove(p: Seq<Seq<char>>, k: int)
    requires
        p.no_duplicates(),
        0 <= k < p.len(),
    ensures
        others_of(p, p[k]) == p.remove(k),
    decreases p.len(),
{
    let m = p[k];
    if k == p.len() - 1 {
        lemma_others_absent(p.drop_last(), m);
        assert(p.remove(k) =~= p.drop_last());
    } else {
        assert(p.drop_last().no_duplicates());
        lemma_others_remove(p.drop_last(), k);
        assert(p.drop_last()[k] == m);
        assert(p.last() != m);
        assert(p.remove(k) =~= p.drop_last().remove(k).push(p.last()));
    }
}

proof fn lemma_others_absent(p: Seq<Seq<char>>, m: Seq<char>)
    requires
        !p.contains(m),
    ensures
        others_of(p, m) == p,
    decreases p.len(),
{
    if p.len() > 0 {
        assert(!p.drop_last().contains(m)) by {
            if p.drop_last().contains(m) {
                let i = choose|i: int| 0 <= i < p.drop_last().len() && p.drop_last()[i] == m;
                assert(p[i] == m);
            }
        }
        lemma_others_absent(p.drop_last(), m);
        assert(p.last() != m) by {
            assert(p[p.len() - 1] == p.last());
        }
        assert(p.drop_last().push(p.last()) =~= p);
    }
}

proof fn lemma_main_permutes(p: Seq<Seq<char>>, m: Seq<char>)
    requires
        p.no_duplicates(),
        p.contains(m),
    ensures
        (seq![m] + others_of(p, m)).to_multiset() == p.to_multiset(),
{
    broadcast use vstd::seq_lib::group_to_multiset_ensures;
    let k = choose|k: int| 0 <= k < p.len() && p[k] == m;
    lemma_others_remove(p, k);
    vstd::seq_lib::to_multiset_remove(p, k);
    vstd::seq_lib::lemma_multiset_commutative(seq![m], p.remove(k));
    assert(seq![m].to_multiset() =~= Multiset::<Seq<char>>::empty().insert(m)) by {
        vstd::seq_lib::to_multiset_build(Seq::<Seq<char>>::empty(), m);
        assert(Seq::<Seq<char>>::empty().push(m) =~= seq![m]);
        assert(Seq::<Seq<char>>::empty().to_multiset() =~= Multiset::<Seq<char>>::empty());
    }
    assert(p.to_multiset().count(m) > 0);
    assert((seq![m] + p.remove(k)).to_multiset() =~= p.to_multiset());
}

proof fn lemma_mirror_permutes(m: Seq<char>, steps: Seq<Step>)
    requires
        steps.len() > 0,
    ensures
        plan_panes(mirrored(m, steps).0, mirrored(m, steps).1).to_multiset() == plan_panes(m, steps).to_multiset(),
{
    let (a2, s2) = mirrored(m, steps);
    let o0 = steps[0].pane;
    let rest = step_panes(steps.skip(1));
    assert(plan_panes(a2, s2) =~= seq![o0] + seq![m] + rest);
    assert(plan_panes(m, steps) =~= seq![m] + seq![o0] + rest);
    vstd::seq_lib::lemma_multiset_commutative(seq![o0] + seq![m], rest);
    vstd::seq_lib::lemma_multiset_commutative(seq![m] + seq![o0], rest);
    vstd::seq_lib::lemma_seq_union_to_multiset_commutative(seq![o0], seq![m]);
}

/// Whichever arrangement is asked for, its plan places every pane exactly
/// once: the panes it places are the panes it was given, rearranged.
pub proof fn lemma_plan_places_every_pane_once(a: Arrangement, p: Seq<Seq<char>>, main: Option<Seq<char>>)
    requires
        p.len() >= 2,
        p.no_duplicates(),
        makeable(a, p, main),
    ensures
        plan_panes(arranged(a, p, main).0, arranged(a, p, main).1).to_multiset() == p.to_multiset(),
{
    let m = main_pick(p, main);
    assert(p.contains(m)) by {
        assert(p[0] == p[0]);
    }
    match a {
        Arrangement::Columns => lemma_chain_anchors(p, Side::Right),
        Arrangement::Rows => lemma_chain_anchors(p, Side::Down),
        Arrangement::Grid => lemma_grid_permutes(p),
        Arrangement::MainLeft => {
            lemma_main_anchors(p, m, Side::Right, Side::Down);
            lemma_main_permutes(p, m);
        },
        Arrangement::MainTop => {
            lemma_main_anchors(p, m, Side::Down, Side::Right);
            lemma_main_permutes(p, m);
        },
        Arrangement::MainRight => {
            lemma_main_anchors(p, m, Side::Right, Side::Down);
            lemma_main_permutes(p, m);
            lemma_mirror_permutes(m, main_steps(p, m, Side::Right, Side::Down));
        },
    }
}

/// How many panes the columns from `j` on take between them.
pub open spec fn remaining(n: nat, c: nat, rows: nat, j: nat) -> nat
    decreases c - j,
{
    if j >= c { 0 } else { column_take(n, c, rows, j) + remaining(n, c, rows, j + 1) }
}

/// Columns contiguous from `s` to `e`.
pub open spec fn contiguous(b: Seq<(int, int)>, s: int, e: int) -> bool {
    &&& b.len() > 0
    &&& b[0].0 == s
    &&& b.last().1 == e
    &&& forall|i: int| 0 <= i < b.len() ==> (#[trigger] b[i]).0 < b[i].1
    &&& forall|i: int| 0 <= i < b.len() - 1 ==> (#[trigger] b[i]).1 == b[i + 1].0
}

proof fn lemma_chunks_empty_at_end(n: nat, c: nat, rows: nat, j: nat)
    ensures
        chunks_from(n, c, rows, j, n).len() == 0,
    decreases c - j,
{
    if j < c {
        lemma_chunks_empty_at_end(n, c, rows, j + 1);
    }
}

proof fn lemma_chunks_cover(n: nat, c: nat, rows: nat, j: nat, start: nat)
    requires
        start < n,
        start + remaining(n, c, rows, j) >= n,
    ensures
        contiguous(chunks_from(n, c, rows, j, start), start as int, n as int),
    decreases c - j,
{
    let t = start + column_take(n, c, rows, j);
    let end: nat = if t < n { t } else { n };
    let rest = chunks_from(n, c, rows, j + 1, end);
    let b = chunks_from(n, c, rows, j, start);
    if end == n {
        lemma_chunks_empty_at_end(n, c, rows, j + 1);
        assert(b =~= seq![(start as int, n as int)]);
    } else if start == end {
        lemma_chunks_cover(n, c, rows, j + 1, start);
    } else {
        lemma_chunks_cover(n, c, rows, j + 1, end);
        assert(b == seq![(start as int, end as int)] + rest);
        assert forall|i: int| 0 <= i < b.len() - 1 implies (#[trigger] b[i]).1 == b[i + 1].0 by {
            if i > 0 {
                assert(b[i] == rest[i - 1]);
                assert(b[i + 1] == rest[i]);
            }
        }
        assert forall|i: int| 0 <= i < b.len() implies (#[trigger] b[i]).0 < b[i].1 by {
            if i > 0 {
                assert(b[i] == rest[i - 1]);
            }
        }
    }
}

proof fn lemma_remaining_total(n: nat, c: nat)
    requires
        1 <= c <= n,
    ensures
        remaining(n, c, n / c + if n % c != 0 { 1nat } else { 0nat }, 0) >= n,
{
    let q = n / c;
    let r = n % c;
    let rows = q + if r != 0 { 1nat } else { 0nat };
    vstd::arithmetic::div_mod::lemma_fundamental_div_mod(n as int, c as int);
    vstd::arithmetic::div_mod::lemma_mod_bound(n as int, c as int);
    lemma_remaining_closed(n, c, rows, 0);
    if r == 0 {
        assert(remaining(n, c, rows, 0) == c * q);
        assert(c * q == q * c) by (nonlinear_arith);
    } else {
        assert(remaining(n, c, rows, 0) == r * (q + 1) + (c - r) * q);
        assert(r * (q + 1) + (c - r) * q == c * q + r) by (nonlinear_arith)
            requires r <= c;
        assert(c * q == q * c) by (nonlinear_arith);
    }
}

proof fn lemma_remaining_closed(n: nat, c: nat, rows: nat, j: nat)
    requires
        1 <= c,
        j <= c,
        rows == n / c + if n % c != 0 { 1nat } else { 0nat },
    ensures
        n % c == 0 ==> remaining(n, c, rows, j) == (c - j) * (n / c),
        n % c != 0 && j <= n % c ==> remaining(n, c, rows, j) == (n % c - j) * (n / c + 1) + (c - n % c) * (n / c),
        n % c != 0 && j > n % c ==> remaining(n, c, rows, j) == (c - j) * (n / c),
    decreases c - j,
{
    let q = n / c;
    let r = n % c;
    vstd::arithmetic::div_mod::lemma_mod_bound(n as int, c as int);
    if j == c {
        assert((c - j) * q == 0) by (nonlinear_arith)
            requires j == c;
    }
    if j < c {
        lemma_remaining_closed(n, c, rows, j + 1);
        let rest = remaining(n, c, rows, j + 1);
        if r == 0 {
            assert(column_take(n, c, rows, j) == q);
            assert(q + (c - (j + 1)) * q == (c - j) * q) by (nonlinear_arith)
                requires j < c;
        } else if j < r {
            assert(column_take(n, c, rows, j) == q + 1);
            assert((q + 1) + (r - (j + 1)) * (q + 1) + (c - r) * q == (r - j) * (q + 1) + (c - r) * q)
                by (nonlinear_arith) requires j < r;
        } else if j == r {
            assert(column_take(n, c, rows, j) == q);
            assert(q + (c - (j + 1)) * q == (c - j) * q) by (nonlinear_arith)
                requires j < c;
        } else {
            assert(column_take(n, c, rows, j) == q);
            assert(q + (c - (j + 1)) * q == (c - j) * q) by (nonlinear_arith)
                requires j < c;
        }
    }
}

/// The panes a list of columns places, heads first then the rest of each
/// column, gathered back into column order, are exactly the panes the columns
/// span.
proof fn lemma_ms4(a: Seq<Seq<char>>, x: Seq<char>, t: Seq<Seq<char>>, y: Seq<Seq<char>>)
    ensures
        (a.push(x) + (t + y)).to_multiset() == (a + t).to_multiset().add((seq![x] + y).to_multiset()),
{
    broadcast use vstd::seq_lib::group_to_multiset_ensures;
    vstd::seq_lib::lemma_multiset_commutative(a.push(x), t + y);
    vstd::seq_lib::lemma_multiset_commutative(t, y);
    vstd::seq_lib::lemma_multiset_commutative(a, t);
    vstd::seq_lib::lemma_multiset_commutative(seq![x], y);
    vstd::seq_lib::lemma_multiset_commutative(a, seq![x]);
    assert(a.push(x) =~= a + seq![x]);
    assert((a.push(x) + (t + y)).to_multiset() =~= (a + t).to_multiset().add((seq![x] + y).to_multiset()));
}

proof fn lemma_ms_split(p: Seq<Seq<char>>, s: int, m: int, e: int)
    requires
        0 <= s <= m <= e <= p.len(),
    ensures
        p.subrange(s, e).to_multiset() == p.subrange(s, m).to_multiset().add(p.subrange(m, e).to_multiset()),
{
    assert(p.subrange(s, m) + p.subrange(m, e) =~= p.subrange(s, e));
    vstd::seq_lib::lemma_multiset_commutative(p.subrange(s, m), p.subrange(m, e));
}

/// The panes a list of columns places, heads first then the rest of each
/// column, are exactly the panes the columns span.
proof fn lemma_columns_multiset(p: Seq<Seq<char>>, b: Seq<(int, int)>, s: int, e: int)
    requires
        contiguous(b, s, e),
        0 <= s,
        e <= p.len(),
    ensures
        (heads_of(p, b) + step_panes(tail_steps(p, b))).to_multiset() == p.subrange(s, e).to_multiset(),
    decreases b.len(),
{
    lemma_contiguous_order(b, s, e);
    let (s1, e1) = b.last();
    assert(b[b.len() - 1] == b.last());
    let run = Seq::new((e1 - s1 - 1) as nat, |k: int| Step { pane: p[s1 + k + 1], anchor: p[s1 + k], side: Side::Down });
    assert(step_panes(run) =~= p.subrange(s1 + 1, e1));
    assert(tail_steps(p, b) == tail_steps(p, b.drop_last()) + run);
    let b2 = b.drop_last();
    assert(heads_of(p, b) =~= heads_of(p, b2).push(p[s1]));
    assert(step_panes(tail_steps(p, b)) =~= step_panes(tail_steps(p, b2)) + p.subrange(s1 + 1, e1));
    assert(seq![p[s1]] + p.subrange(s1 + 1, e1) =~= p.subrange(s1, e1));
    lemma_ms4(heads_of(p, b2), p[s1], step_panes(tail_steps(p, b2)), p.subrange(s1 + 1, e1));
    assert(heads_of(p, b) + step_panes(tail_steps(p, b))
        =~= heads_of(p, b2).push(p[s1]) + (step_panes(tail_steps(p, b2)) + p.subrange(s1 + 1, e1)));
    if b.len() == 1 {
        assert(tail_steps(p, b2) =~= Seq::<Step>::empty());
        assert(heads_of(p, b2) + step_panes(tail_steps(p, b2)) =~= p.subrange(s, s1));
    } else {
        assert(contiguous(b2, s, s1)) by {
            assert(b2.last() == b[b.len() - 2]);
            assert(b[b.len() - 2].1 == b[b.len() - 1].0);
            assert forall|i: int| 0 <= i < b2.len() implies (#[trigger] b2[i]).0 < b2[i].1 by {
                assert(b2[i] == b[i]);
            }
            assert forall|i: int| 0 <= i < b2.len() - 1 implies (#[trigger] b2[i]).1 == b2[i + 1].0 by {
                assert(b2[i] == b[i]);
                assert(b2[i + 1] == b[i + 1]);
            }
        }
        lemma_columns_multiset(p, b2, s, s1);
    }
    lemma_ms_split(p, s, s1, e1);
}

proof fn lemma_contiguous_order(b: Seq<(int, int)>, s: int, e: int)
    requires
        contiguous(b, s, e),
    ensures
        forall|i: int| 0 <= i < b.len() ==> s <= (#[trigger] b[i]).0 && b[i].1 <= e,
{
    assert forall|i: int| 0 <= i < b.len() implies s <= (#[trigger] b[i]).0 && b[i].1 <= e by {
        lemma_contiguous_up(b, s, e, i);
        lemma_contiguous_down(b, s, e, i);
    }
}

proof fn lemma_contiguous_up(b: Seq<(int, int)>, s: int, e: int, i: int)
    requires
        contiguous(b, s, e),
        0 <= i < b.len(),
    ensures
        s <= b[i].0,
    decreases i,
{
    if i > 0 {
        lemma_contiguous_up(b, s, e, i - 1);
        assert(b[i - 1].1 == b[i].0);
        assert(b[i - 1].0 < b[i - 1].1);
    }
}

proof fn lemma_contiguous_down(b: Seq<(int, int)>, s: int, e: int, i: int)
    requires
        contiguous(b, s, e),
        0 <= i < b.len(),
    ensures
        b[i].1 <= e,
    decreases b.len() - i,
{
    if i < b.len() - 1 {
        lemma_contiguous_down(b, s, e, i + 1);
        assert(b[i].1 == b[i + 1].0);
        assert(b[i + 1].0 < b[i + 1].1);
    }
}

proof fn lemma_grid_permutes(p: Seq<Seq<char>>)
    requires
        p.len() >= 2,
    ensures
        plan_panes(p[0], grid_steps(p)).to_multiset() == p.to_multiset(),
{
    let n = p.len();
    let c = ceil_sqrt_from(n, 1);
    lemma_ceil_sqrt_bounds(n, 1);
    let rows = n / c + if n % c != 0 { 1nat } else { 0nat };
    let b = grid_chunks(n);
    lemma_remaining_total(n, c);
    lemma_chunks_cover(n, c, rows, 0, 0);
    lemma_columns_multiset(p, b, 0, n as int);
    let h = heads_of(p, b);
    assert(head_steps(p, b) =~= chain_steps(h, Side::Right));
    lemma_chain_anchors(h, Side::Right);
    assert(h[0] == p[0]);
    assert(plan_panes(p[0], grid_steps(p)) =~= plan_panes(p[0], head_steps(p, b)) + step_panes(tail_steps(p, b)));
    assert(p.subrange(0, n as int) =~= p);
}

} // verus!
