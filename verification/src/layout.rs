//! Split trees, and how to rebuild one out of Herdr calls.
//!
//! Herdr has no "reshape this tab" operation, so the only non-destructive
//! route is to place panes one at a time, each splitting a pane that is
//! already in position. Splitting pane `X` replaces it with
//! `(direction X new)`: the new pane becomes `X`'s sibling and `X` keeps the
//! first branch. Everything here follows from that one rule.
use vstd::prelude::*;

use crate::model::Direction;
use crate::text::{keyword, keyword_of, push_char, spells};

verus! {

// ---------------------------------------------------------------------------
// Sides
// ---------------------------------------------------------------------------

/// Where a pane goes relative to another, as the user thinks of it.
///
/// Herdr only splits right and down; Left and Up are produced by splitting
/// the other way and then swapping the two panes.
#[derive(Debug, Clone, Copy, PartialEq, Eq, Structural)]
pub enum Side {
    Left,
    Right,
    Up,
    Down,
}

pub open spec fn side_name(s: Side) -> Seq<char> {
    match s {
        Side::Left => "left"@,
        Side::Right => "right"@,
        Side::Up => "up"@,
        Side::Down => "down"@,
    }
}

/// The side a raw word names, as `Side::parse` reads it.
pub open spec fn side_named(raw: Seq<char>) -> Option<Side> {
    let k = keyword(raw);
    if k == "left"@ || k == "h"@ {
        Some(Side::Left)
    } else if k == "right"@ || k == "r"@ || k == "l"@ {
        Some(Side::Right)
    } else if k == "up"@ || k == "k"@ {
        Some(Side::Up)
    } else if k == "down"@ || k == "d"@ || k == "j"@ {
        Some(Side::Down)
    } else {
        None
    }
}

pub open spec fn side_split(s: Side) -> Direction {
    match s {
        Side::Left | Side::Right => Direction::Right,
        Side::Up | Side::Down => Direction::Down,
    }
}

pub open spec fn side_swaps(s: Side) -> bool {
    s == Side::Left || s == Side::Up
}

pub open spec fn side_letter(s: Side) -> char {
    match s {
        Side::Left => 'l',
        Side::Right => 'r',
        Side::Up => 'u',
        Side::Down => 'd',
    }
}

impl Side {
    /// The split Herdr can actually perform for this side.
    pub fn split(self) -> (r: Direction)
        ensures
            r == side_split(self),
    {
        match self {
            Side::Left | Side::Right => Direction::Right,
            Side::Up | Side::Down => Direction::Down,
        }
    }

    /// Whether the placed pane has to be swapped with its anchor afterwards.
    pub fn needs_swap(self) -> (r: bool)
        ensures
            r == side_swaps(self),
    {
        match self {
            Side::Left | Side::Up => true,
            _ => false,
        }
    }

    pub fn as_str(self) -> (r: &'static str)
        ensures
            r@ == side_name(self),
    {
        match self {
            Side::Left => "left",
            Side::Right => "right",
            Side::Up => "up",
            Side::Down => "down",
        }
    }

    pub fn hotkey(self) -> (r: char)
        ensures
            r == (match self {
                Side::Left => 'h',
                Side::Right => 'l',
                Side::Up => 'k',
                Side::Down => 'j',
            }),
    {
        match self {
            Side::Left => 'h',
            Side::Right => 'l',
            Side::Up => 'k',
            Side::Down => 'j',
        }
    }

    pub fn parse(raw: &str) -> (r: Option<Self>)
        ensures
            r == side_named(raw@),
    {
        let k = keyword_of(raw);
        if spells(&k, "left") || spells(&k, "h") {
            Some(Side::Left)
        } else if spells(&k, "right") || spells(&k, "r") || spells(&k, "l") {
            Some(Side::Right)
        } else if spells(&k, "up") || spells(&k, "k") {
            Some(Side::Up)
        } else if spells(&k, "down") || spells(&k, "d") || spells(&k, "j") {
            Some(Side::Down)
        } else {
            None
        }
    }

    /// Every side, in the order the direction picker lists them.
    pub fn all() -> (r: [Side; 4])
        ensures
            r@ == seq![Side::Right, Side::Down, Side::Left, Side::Up],
    {
        [Side::Right, Side::Down, Side::Left, Side::Up]
    }

    /// The side on the far side of a split.
    pub fn opposite(self) -> (r: Side)
        ensures
            r == opposite_side(self),
    {
        match self {
            Side::Right => Side::Left,
            Side::Left => Side::Right,
            Side::Down => Side::Up,
            Side::Up => Side::Down,
        }
    }
}

pub open spec fn opposite_side(s: Side) -> Side {
    match s {
        Side::Right => Side::Left,
        Side::Left => Side::Right,
        Side::Down => Side::Up,
        Side::Up => Side::Down,
    }
}

/// A word with no surrounding whitespace and no upper-case letters is its
/// own keyword.
pub proof fn lemma_keyword_plain(s: Seq<char>)
    requires
        s.len() > 0,
        !crate::text::is_space(s[0]),
        !crate::text::is_space(s[s.len() - 1]),
        forall|k: int| 0 <= k < s.len() ==> !('A' <= #[trigger] s[k] && s[k] <= 'Z'),
    ensures
        keyword(s) == s,
{
    assert(crate::text::lead_end(s, 0) == 0);
    assert(crate::text::trail_start(s, 0, s.len() as int) == s.len());
    assert(crate::text::trim(s) =~= s);
    assert(crate::text::ascii_lower(s) =~= s);
}

/// Every side reads back from its own name.
pub proof fn lemma_side_round_trip(side: Side)
    ensures
        side_named(side_name(side)) == Some(side),
{
    reveal_strlit("left");
    reveal_strlit("right");
    reveal_strlit("up");
    reveal_strlit("down");
    reveal_strlit("h");
    reveal_strlit("r");
    reveal_strlit("l");
    reveal_strlit("k");
    reveal_strlit("d");
    reveal_strlit("j");
    let s = side_name(side);
    assert(!('A' <= s[0] && s[0] <= 'Z'));
    lemma_keyword_plain(s);
    assert("left"@.len() == 4 && "h"@.len() == 1 && "right"@.len() == 5 && "r"@.len() == 1);
    assert("l"@.len() == 1 && "up"@.len() == 2 && "k"@.len() == 1 && "down"@.len() == 4);
    assert("down"@[0] != "left"@[0]);
}

// ---------------------------------------------------------------------------
// Display width
// ---------------------------------------------------------------------------

/// Rough East-Asian-width rule: how many screen columns a character takes.
pub open spec fn width_of(ch: char) -> nat {
    let c = ch as u32;
    if (0x1100 <= c <= 0x115F) || (0x2E80 <= c <= 0xA4CF) || (0xAC00 <= c <= 0xD7A3) || (0xF900
        <= c <= 0xFAFF) || (0xFE30 <= c <= 0xFE6F) || (0xFF00 <= c <= 0xFF60) || (0xFFE0 <= c
        <= 0xFFE6) || (0x1F300 <= c <= 0x1FAFF) {
        2
    } else {
        1
    }
}

/// How many screen columns a character takes.
///
/// Both the diagrams and the picker need it, and they must agree: a label
/// measured one way and a line padded the other is how a wall ends up in the
/// wrong column.
pub fn char_width(ch: char) -> (r: usize)
    ensures
        r == width_of(ch),
{
    let c = ch as u32;
    let wide = (0x1100 <= c && c <= 0x115F) || (0x2E80 <= c && c <= 0xA4CF) || (0xAC00 <= c && c
        <= 0xD7A3) || (0xF900 <= c && c <= 0xFAFF) || (0xFE30 <= c && c <= 0xFE6F) || (0xFF00 <= c
        && c <= 0xFF60) || (0xFFE0 <= c && c <= 0xFFE6) || (0x1F300 <= c && c <= 0x1FAFF);
    if wide {
        2
    } else {
        1
    }
}

// ---------------------------------------------------------------------------
// The exported split tree
// ---------------------------------------------------------------------------

/// A tab's split tree, as returned by `layout.export`.
///
/// `ratio` is the bit pattern of the `f32` share Herdr reports for the first
/// branch.
#[derive(Debug)]
pub enum LayoutNode {
    Pane { pane_id: Option<String> },
    Split { direction: String, ratio: u32, first: Box<LayoutNode>, second: Box<LayoutNode> },
}

/// Pane ids of an exported tree, in layout order (leaves without an id are
/// skipped).
pub open spec fn node_ids(n: LayoutNode) -> Seq<Seq<char>>
    decreases n,
{
    match n {
        LayoutNode::Pane { pane_id } => match pane_id {
            Some(id) => seq![id@],
            None => Seq::empty(),
        },
        LayoutNode::Split { first, second, .. } => node_ids(*first) + node_ids(*second),
    }
}

pub open spec fn node_leaves(n: LayoutNode) -> nat
    decreases n,
{
    match n {
        LayoutNode::Pane { .. } => 1,
        LayoutNode::Split { first, second, .. } => node_leaves(*first) + node_leaves(*second),
    }
}

/// One split of an exported tree: the branch choices that reach it
/// (`false` = first, `true` = second), the leaves of its first branch, and
/// all its leaves.
pub struct SplitInfo {
    pub path: Seq<bool>,
    pub first: nat,
    pub total: nat,
}

/// Every split, parent first, as `layout.set_split_ratio` addresses them.
pub open spec fn node_splits(n: LayoutNode, path: Seq<bool>) -> Seq<SplitInfo>
    decreases n,
{
    match n {
        LayoutNode::Pane { .. } => Seq::empty(),
        LayoutNode::Split { first, second, .. } => seq![
            SplitInfo { path, first: node_leaves(*first), total: node_leaves(n) },
        ] + node_splits(*first, path.push(false)) + node_splits(*second, path.push(true)),
    }
}

pub open spec fn string_views(v: Seq<String>) -> Seq<Seq<char>> {
    v.map_values(|s: String| s@)
}

pub open spec fn split_views(v: Seq<(Vec<bool>, usize, usize)>) -> Seq<SplitInfo> {
    v.map_values(
        |t: (Vec<bool>, usize, usize)| SplitInfo { path: t.0@, first: t.1 as nat, total: t.2 as nat },
    )
}

impl LayoutNode {
    /// Pane ids in left-to-right, top-to-bottom order.
    pub fn pane_ids(&self) -> (r: Vec<String>)
        ensures
            string_views(r@) == node_ids(*self),
    {
        let mut out: Vec<String> = Vec::new();
        self.collect(&mut out);
        proof {
            assert(string_views(out@) =~= Seq::<Seq<char>>::empty() + node_ids(*self));
        }
        out
    }

    fn collect(&self, out: &mut Vec<String>)
        ensures
            string_views(final(out)@) == string_views(old(out)@) + node_ids(*self),
        decreases self,
    {
        match self {
            LayoutNode::Pane { pane_id } => {
                match pane_id {
                    Some(id) => {
                        out.push(id.clone());
                        proof {
                            assert(string_views(out@) =~= string_views(old(out)@) + seq![id@]);
                        }
                    },
                    None => {
                        proof {
                            assert(string_views(out@) =~= string_views(old(out)@) + Seq::<
                                Seq<char>,
                            >::empty());
                        }
                    },
                }
            },
            LayoutNode::Split { first, second, .. } => {
                first.collect(out);
                second.collect(out);
                proof {
                    assert(string_views(out@) =~= string_views(old(out)@) + (node_ids(**first)
                        + node_ids(**second)));
                }
            },
        }
    }

    /// Number of leaves. The count of a real tree always fits a `usize`.
    pub fn leaf_count(&self) -> (r: usize)
        requires
            node_leaves(*self) <= usize::MAX,
        ensures
            r == node_leaves(*self),
        decreases self,
    {
        match self {
            LayoutNode::Pane { .. } => 1,
            LayoutNode::Split { first, second, .. } => first.leaf_count() + second.leaf_count(),
        }
    }

    /// Every split in the tree, as `(path, first_leaves, total_leaves)`.
    pub fn splits(&self) -> (r: Vec<(Vec<bool>, usize, usize)>)
        requires
            node_leaves(*self) <= usize::MAX,
        ensures
            split_views(r@) == node_splits(*self, Seq::empty()),
    {
        let mut out: Vec<(Vec<bool>, usize, usize)> = Vec::new();
        let mut path: Vec<bool> = Vec::new();
        self.walk_splits(&mut path, &mut out);
        proof {
            assert(split_views(out@) =~= Seq::<SplitInfo>::empty() + node_splits(*self, Seq::empty()));
        }
        out
    }

    fn walk_splits(&self, path: &mut Vec<bool>, out: &mut Vec<(Vec<bool>, usize, usize)>)
        requires
            node_leaves(*self) <= usize::MAX,
        ensures
            final(path)@ == old(path)@,
            split_views(final(out)@) == split_views(old(out)@) + node_splits(*self, old(path)@),
        decreases self,
    {
        match self {
            LayoutNode::Pane { .. } => {
                proof {
                    assert(split_views(out@) =~= split_views(old(out)@) + Seq::<SplitInfo>::empty());
                }
            },
            LayoutNode::Split { first, second, .. } => {
                let total = self.leaf_count();
                let firsts = first.leaf_count();
                let here = path.clone();
                out.push((here, firsts, total));
                let ghost mid = out@;
                proof {
                    assert(split_views(mid) =~= split_views(old(out)@) + seq![
                        SplitInfo { path: old(path)@, first: node_leaves(**first), total: node_leaves(*self) },
                    ]);
                }
                path.push(false);
                first.walk_splits(path, out);
                path.pop();
                proof {
                    assert(path@ =~= old(path)@);
                }
                path.push(true);
                second.walk_splits(path, out);
                path.pop();
                proof {
                    assert(path@ =~= old(path)@);
                    assert(split_views(out@) =~= split_views(old(out)@) + node_splits(
                        *self,
                        old(path)@,
                    ));
                }
            },
        }
    }
}

// ---------------------------------------------------------------------------
// Shapes
// ---------------------------------------------------------------------------

/// Bit pattern of `0.5f32`, the ratio of a split nobody asked to be uneven.
pub const EVEN: u32 = 0x3f00_0000u32;

/// Bit pattern of `0.6f32`: the first branch keeps sixty percent.
pub const SIXTY_FORTY: u32 = 0x3f19_999au32;

/// Bit pattern of `0.4f32`: the first branch keeps forty percent.
pub const FORTY_SIXTY: u32 = 0x3ecc_cccdu32;

/// How a split shares its space: the bits of the `f32` share the first
/// branch keeps. Only the three offered shares are ever named.
#[derive(Debug, Clone, Copy, PartialEq, Eq, Structural)]
pub struct Ratio(pub u32);

pub open spec fn ratio_label(bits: u32) -> Seq<char> {
    if bits == SIXTY_FORTY {
        "60:40"@
    } else if bits == FORTY_SIXTY {
        "40:60"@
    } else {
        "50:50"@
    }
}

pub open spec fn ratio_named(raw: Seq<char>) -> Option<u32> {
    let t = crate::text::trim(raw);
    if t == "50:50"@ || t == "even"@ || t == "50"@ {
        Some(EVEN)
    } else if t == "60:40"@ || t == "60"@ {
        Some(SIXTY_FORTY)
    } else if t == "40:60"@ || t == "40"@ {
        Some(FORTY_SIXTY)
    } else {
        None
    }
}

impl Ratio {
    /// How the share is written: `60:40`, `40:60`, else `50:50`.
    pub fn label(self) -> (r: &'static str)
        ensures
            r@ == ratio_label(self.0),
    {
        if self.0 == SIXTY_FORTY {
            "60:40"
        } else if self.0 == FORTY_SIXTY {
            "40:60"
        } else {
            "50:50"
        }
    }

    /// Read a share as it is written, ignoring surrounding space.
    pub fn parse(raw: &str) -> (r: Option<Ratio>)
        ensures
            match ratio_named(raw@) {
                Some(b) => r == Some(Ratio(b)),
                None => r is None,
            },
    {
        let t = crate::text::trimmed(raw);
        let cs = crate::text::chars_of(t.as_str());
        if crate::text::spells(&cs, "50:50") || crate::text::spells(&cs, "even") || crate::text::spells(&cs, "50") {
            Some(Ratio(EVEN))
        } else if crate::text::spells(&cs, "60:40") || crate::text::spells(&cs, "60") {
            Some(Ratio(SIXTY_FORTY))
        } else if crate::text::spells(&cs, "40:60") || crate::text::spells(&cs, "40") {
            Some(Ratio(FORTY_SIXTY))
        } else {
            None
        }
    }

    /// The three shares offered, even first.
    pub fn all() -> (r: [Ratio; 3])
        ensures
            r@ == seq![Ratio(EVEN), Ratio(SIXTY_FORTY), Ratio(FORTY_SIXTY)],
    {
        let r = [Ratio(EVEN), Ratio(SIXTY_FORTY), Ratio(FORTY_SIXTY)];
        assert(r@ =~= seq![Ratio(EVEN), Ratio(SIXTY_FORTY), Ratio(FORTY_SIXTY)]);
        r
    }
}

impl Default for Ratio {
    fn default() -> (r: Self)
        ensures
            r == Ratio(EVEN),
    {
        Ratio(EVEN)
    }
}

/// Every offered share reads back from its own label.
pub proof fn lemma_ratio_round_trip(bits: u32)
    requires
        bits == EVEN || bits == SIXTY_FORTY || bits == FORTY_SIXTY,
    ensures
        ratio_named(ratio_label(bits)) == Some(bits),
{
    reveal_strlit("50:50");
    reveal_strlit("60:40");
    reveal_strlit("40:60");
    reveal_strlit("even");
    reveal_strlit("50");
    reveal_strlit("60");
    reveal_strlit("40");
    let l = ratio_label(bits);
    assert(crate::text::lead_end(l, 0) == 0);
    assert(crate::text::trail_start(l, 0, l.len() as int) == l.len());
    assert(crate::text::trim(l) =~= l);
    assert("60:40"@[0] != "50:50"@[0] && "40:60"@[0] != "50:50"@[0] && "40:60"@[0] != "60:40"@[0]);
    assert("even"@.len() == 4 && "50"@.len() == 2 && "60"@.len() == 2 && "40"@.len() == 2);
}

/// A split tree, reduced to the parts that decide whether two layouts match.
///
/// `ratio` is the bit pattern of the `f32` share the `first` branch keeps, as
/// Herdr reports it. A split this code invents rather than reads is [`EVEN`].
#[derive(Debug, PartialEq)]
pub enum Shape {
    Pane(String),
    Split { side: Side, ratio: u32, first: Box<Shape>, second: Box<Shape> },
}

/// The mathematical value of a shape: leaves are pane ids as character
/// sequences.
#[verifier::ext_equal]
pub enum Tree {
    Leaf(Seq<char>),
    Node(Side, u32, Box<Tree>, Box<Tree>),
}

pub open spec fn tree_of(s: Shape) -> Tree
    decreases s,
{
    match s {
        Shape::Pane(id) => Tree::Leaf(id@),
        Shape::Split { side, ratio, first, second } => Tree::Node(
            side,
            ratio,
            Box::new(tree_of(*first)),
            Box::new(tree_of(*second)),
        ),
    }
}

impl View for Shape {
    type V = Tree;

    open spec fn view(&self) -> Tree {
        tree_of(*self)
    }
}

/// Pane ids in layout order.
pub open spec fn leaves(t: Tree) -> Seq<Seq<char>>
    decreases t,
{
    match t {
        Tree::Leaf(id) => seq![id],
        Tree::Node(_, _, a, b) => leaves(*a) + leaves(*b),
    }
}

/// Leftmost/topmost pane: the one a subtree is grown from.
pub open spec fn first_leaf(t: Tree) -> Seq<char>
    decreases t,
{
    match t {
        Tree::Leaf(id) => id,
        Tree::Node(_, _, a, _) => first_leaf(*a),
    }
}

/// `t` with every leaf named `x` replaced by `r`.
pub open spec fn subst(t: Tree, x: Seq<char>, r: Tree) -> Tree
    decreases t,
{
    match t {
        Tree::Leaf(id) => if id == x {
            r
        } else {
            t
        },
        Tree::Node(side, ratio, a, b) => Tree::Node(
            side,
            ratio,
            Box::new(subst(*a, x, r)),
            Box::new(subst(*b, x, r)),
        ),
    }
}

/// The two-pane split that placing `new` beside `target` creates.
pub open spec fn pair(side: Side, target: Seq<char>, new: Seq<char>) -> Tree {
    Tree::Node(side, EVEN, Box::new(Tree::Leaf(target)), Box::new(Tree::Leaf(new)))
}

/// Splitting pane `target` to put `new` on `side` of it.
pub open spec fn split_tree(t: Tree, target: Seq<char>, new: Seq<char>, side: Side) -> Tree {
    subst(t, target, pair(side, target, new))
}

/// The tree with every ratio even: what a rebuild produces, since Herdr
/// makes every new split even.
pub open spec fn skeleton(t: Tree) -> Tree
    decreases t,
{
    match t {
        Tree::Leaf(_) => t,
        Tree::Node(side, _, a, b) => Tree::Node(
            side,
            EVEN,
            Box::new(skeleton(*a)),
            Box::new(skeleton(*b)),
        ),
    }
}

/// `t` without the pane `x`, closing the split it was half of; `None` when
/// nothing would be left.
pub open spec fn without_tree(t: Tree, x: Seq<char>) -> Option<Tree>
    decreases t,
{
    match t {
        Tree::Leaf(id) => if id == x {
            None
        } else {
            Some(t)
        },
        Tree::Node(side, ratio, a, b) => match (without_tree(*a, x), without_tree(*b, x)) {
            (None, Some(rest)) => Some(rest),
            (Some(rest), None) => Some(rest),
            (Some(p), Some(q)) => Some(Tree::Node(side, ratio, Box::new(p), Box::new(q))),
            (None, None) => None,
        },
    }
}

/// Compact text form `(r p1 (d p2 p3))`: the arrangement without the sizes.
pub open spec fn signature_of(t: Tree) -> Seq<char>
    decreases t,
{
    match t {
        Tree::Leaf(id) => id,
        Tree::Node(side, _, a, b) => seq!['(', side_letter(side), ' '] + signature_of(*a) + seq![' ']
            + signature_of(*b) + seq![')'],
    }
}

/// Whether the tree names no pane twice.
pub open spec fn distinct_leaves(t: Tree) -> bool {
    leaves(t).no_duplicates()
}

/// One placement as a mathematical value.
pub struct Step {
    pub pane: Seq<char>,
    pub anchor: Seq<char>,
    pub side: Side,
}

/// Apply placements in order, each splitting its anchor.
pub open spec fn replay(t: Tree, steps: Seq<Step>) -> Tree
    decreases steps.len(),
{
    if steps.len() == 0 {
        t
    } else {
        replay(split_tree(t, steps[0].anchor, steps[0].pane, steps[0].side), steps.drop_first())
    }
}

/// The placements that rebuild `t`, parent first: each split adds the first
/// pane of its second branch beside the first pane of its first branch.
pub open spec fn emit(t: Tree) -> Seq<Step>
    decreases t,
{
    match t {
        Tree::Leaf(_) => Seq::empty(),
        Tree::Node(side, _, a, b) => seq![
            Step { pane: first_leaf(*b), anchor: first_leaf(*a), side },
        ] + emit(*a) + emit(*b),
    }
}

// ----- lemmas on trees -----

pub proof fn lemma_first_in_leaves(t: Tree)
    ensures
        leaves(t).len() > 0,
        leaves(t)[0] == first_leaf(t),
    decreases t,
{
    match t {
        Tree::Leaf(_) => {},
        Tree::Node(_, _, a, b) => {
            lemma_first_in_leaves(*a);
            lemma_first_in_leaves(*b);
        },
    }
}

pub proof fn lemma_skeleton(t: Tree)
    ensures
        leaves(skeleton(t)) == leaves(t),
        first_leaf(skeleton(t)) == first_leaf(t),
        signature_of(skeleton(t)) == signature_of(t),
    decreases t,
{
    match t {
        Tree::Leaf(_) => {},
        Tree::Node(_, _, a, b) => {
            lemma_skeleton(*a);
            lemma_skeleton(*b);
        },
    }
}

proof fn lemma_subst_absent(t: Tree, x: Seq<char>, r: Tree)
    requires
        !leaves(t).contains(x),
    ensures
        subst(t, x, r) == t,
    decreases t,
{
    match t {
        Tree::Leaf(id) => {
            assert(leaves(t)[0] == id);
        },
        Tree::Node(_, _, a, b) => {
            if leaves(*a).contains(x) {
                let i = choose|i: int| 0 <= i < leaves(*a).len() && leaves(*a)[i] == x;
                assert(leaves(t)[i] == x);
            }
            if leaves(*b).contains(x) {
                let i = choose|i: int| 0 <= i < leaves(*b).len() && leaves(*b)[i] == x;
                assert(leaves(t)[leaves(*a).len() + i] == x);
            }
            lemma_subst_absent(*a, x, r);
            lemma_subst_absent(*b, x, r);
        },
    }
}

proof fn lemma_subst_self(t: Tree, x: Seq<char>)
    ensures
        subst(t, x, Tree::Leaf(x)) == t,
    decreases t,
{
    match t {
        Tree::Leaf(id) => {},
        Tree::Node(_, _, a, b) => {
            lemma_subst_self(*a, x);
            lemma_subst_self(*b, x);
        },
    }
}

/// Replacing `x` twice is replacing it once with the replaced replacement.
proof fn lemma_subst_twice(t: Tree, x: Seq<char>, r1: Tree, r2: Tree)
    ensures
        subst(subst(t, x, r1), x, r2) == subst(t, x, subst(r1, x, r2)),
    decreases t,
{
    match t {
        Tree::Leaf(id) => {},
        Tree::Node(_, _, a, b) => {
            lemma_subst_twice(*a, x, r1, r2);
            lemma_subst_twice(*b, x, r1, r2);
        },
    }
}

/// Replacing a pane that only the first replacement introduced.
proof fn lemma_subst_then_other(t: Tree, x: Seq<char>, r1: Tree, y: Seq<char>, r2: Tree)
    requires
        forall|k: Seq<char>| leaves(t).contains(k) ==> k == x || k != y,
        x != y,
    ensures
        subst(subst(t, x, r1), y, r2) == subst(t, x, subst(r1, y, r2)),
    decreases t,
{
    match t {
        Tree::Leaf(id) => {
            assert(leaves(t)[0] == id);
            assert(leaves(t).contains(id));
        },
        Tree::Node(_, _, a, b) => {
            assert forall|k: Seq<char>| leaves(*a).contains(k) implies k == x || k != y by {
                let i = choose|i: int| 0 <= i < leaves(*a).len() && leaves(*a)[i] == k;
                assert(leaves(t)[i] == k);
                assert(leaves(t).contains(k));
            }
            assert forall|k: Seq<char>| leaves(*b).contains(k) implies k == x || k != y by {
                let i = choose|i: int| 0 <= i < leaves(*b).len() && leaves(*b)[i] == k;
                assert(leaves(t)[leaves(*a).len() + i] == k);
                assert(leaves(t).contains(k));
            }
            lemma_subst_then_other(*a, x, r1, y, r2);
            lemma_subst_then_other(*b, x, r1, y, r2);
        },
    }
}

/// Every pane of a substituted tree came from the tree (and was not the one
/// replaced) or from the replacement.
proof fn lemma_subst_leaves(t: Tree, x: Seq<char>, r: Tree)
    ensures
        forall|k: Seq<char>| #[trigger]
            leaves(subst(t, x, r)).contains(k) ==> (leaves(t).contains(k) && k != x)
                || leaves(r).contains(k),
    decreases t,
{
    match t {
        Tree::Leaf(id) => {
            if id != x {
                assert forall|k: Seq<char>| #[trigger]
                    leaves(subst(t, x, r)).contains(k) implies (leaves(t).contains(k) && k != x)
                    || leaves(r).contains(k) by {
                    assert(leaves(subst(t, x, r)) == seq![id]);
                }
            }
        },
        Tree::Node(_, _, a, b) => {
            lemma_subst_leaves(*a, x, r);
            lemma_subst_leaves(*b, x, r);
            let sa = subst(*a, x, r);
            let sb = subst(*b, x, r);
            assert forall|k: Seq<char>| #[trigger]
                leaves(subst(t, x, r)).contains(k) implies (leaves(t).contains(k) && k != x)
                || leaves(r).contains(k) by {
                let s = leaves(subst(t, x, r));
                assert(s == leaves(sa) + leaves(sb));
                let i = choose|i: int| 0 <= i < s.len() && s[i] == k;
                if i < leaves(sa).len() {
                    assert(leaves(sa)[i] == k);
                    assert(leaves(sa).contains(k));
                    if leaves(*a).contains(k) {
                        let j = choose|j: int| 0 <= j < leaves(*a).len() && leaves(*a)[j] == k;
                        assert(leaves(t)[j] == k);
                    }
                } else {
                    assert(leaves(sb)[i - leaves(sa).len()] == k);
                    assert(leaves(sb).contains(k));
                    if leaves(*b).contains(k) {
                        let j = choose|j: int| 0 <= j < leaves(*b).len() && leaves(*b)[j] == k;
                        assert(leaves(t)[leaves(*a).len() + j] == k);
                    }
                }
            }
        },
    }
}

proof fn lemma_replay_concat(t: Tree, a: Seq<Step>, b: Seq<Step>)
    ensures
        replay(t, a + b) == replay(replay(t, a), b),
    decreases a.len(),
{
    if a.len() == 0 {
        assert(a + b =~= b);
    } else {
        assert((a + b).drop_first() =~= a.drop_first() + b);
        assert((a + b)[0] == a[0]);
        lemma_replay_concat(
            split_tree(t, a[0].anchor, a[0].pane, a[0].side),
            a.drop_first(),
            b,
        );
    }
}

pub proof fn lemma_replay_push(t: Tree, a: Seq<Step>, s: Step)
    ensures
        replay(t, a.push(s)) == split_tree(replay(t, a), s.anchor, s.pane, s.side),
{
    assert(a.push(s) =~= a + seq![s]);
    lemma_replay_concat(t, a, seq![s]);
    let x = replay(t, a);
    assert(seq![s].drop_first() =~= Seq::<Step>::empty());
    assert(replay(split_tree(x, s.anchor, s.pane, s.side), Seq::<Step>::empty()) == split_tree(
        x,
        s.anchor,
        s.pane,
        s.side,
    ));
}

proof fn lemma_split_leaves(t: Tree)
    requires
        t is Node,
        distinct_leaves(t),
    ensures
        distinct_leaves(*t->Node_2),
        distinct_leaves(*t->Node_3),
        forall|k: Seq<char>|
            leaves(*t->Node_2).contains(k) ==> !leaves(*t->Node_3).contains(k),
{
    let a = *t->Node_2;
    let b = *t->Node_3;
    let la = leaves(a);
    let lb = leaves(b);
    assert(leaves(t) == la + lb);
    assert forall|i: int, j: int| 0 <= i < la.len() && 0 <= j < la.len() && i != j implies la[i]
        != la[j] by {
        assert(leaves(t)[i] == la[i]);
        assert(leaves(t)[j] == la[j]);
    }
    assert forall|i: int, j: int| 0 <= i < lb.len() && 0 <= j < lb.len() && i != j implies lb[i]
        != lb[j] by {
        assert(leaves(t)[la.len() + i] == lb[i]);
        assert(leaves(t)[la.len() + j] == lb[j]);
    }
    assert forall|k: Seq<char>| la.contains(k) implies !lb.contains(k) by {
        let i = choose|i: int| 0 <= i < la.len() && la[i] == k;
        if lb.contains(k) {
            let j = choose|j: int| 0 <= j < lb.len() && lb[j] == k;
            assert(leaves(t)[i] == k);
            assert(leaves(t)[la.len() + j] == k);
        }
    }
}

/// Replaying the placements of `t` inside a tree that holds its first pane
/// grows that pane into (the even-ratio copy of) `t`.
proof fn lemma_replay_emit(host: Tree, t: Tree)
    requires
        distinct_leaves(t),
        forall|k: Seq<char>| leaves(host).contains(k) ==> k == first_leaf(t) || !leaves(t).contains(k),
    ensures
        replay(host, emit(t)) == subst(host, first_leaf(t), skeleton(t)),
    decreases t,
{
    match t {
        Tree::Leaf(f) => {
            lemma_subst_self(host, f);
        },
        Tree::Node(side, ratio, a, b) => {
            let a = *a;
            let b = *b;
            lemma_split_leaves(t);
            lemma_first_in_leaves(a);
            lemma_first_in_leaves(b);
            lemma_skeleton(a);
            lemma_skeleton(b);
            let f = first_leaf(a);
            let g = first_leaf(b);
            assert(leaves(a).contains(f));
            assert(leaves(b).contains(g));
            assert(f != g);
            let p = Step { pane: g, anchor: f, side };
            let steps = seq![p] + emit(a) + emit(b);
            assert(emit(t) == steps);
            lemma_replay_concat(host, seq![p] + emit(a), emit(b));
            lemma_replay_concat(host, seq![p], emit(a));
            assert(seq![p].drop_first() =~= Seq::<Step>::empty());
            let t1 = split_tree(host, f, g, side);
            assert(replay(t1, Seq::<Step>::empty()) == t1);
            assert(replay(host, seq![p]) == t1);
            // panes of t1 meet a only at f
            lemma_subst_leaves(host, f, pair(side, f, g));
            assert forall|k: Seq<char>| leaves(t1).contains(k) implies k == f || !leaves(a).contains(
                k,
            ) by {
                if leaves(host).contains(k) && k != f {
                    assert(!leaves(t).contains(k));
                    if leaves(a).contains(k) {
                        let i = choose|i: int| 0 <= i < leaves(a).len() && leaves(a)[i] == k;
                        assert(leaves(t)[i] == k);
                    }
                } else {
                    let lp = leaves(pair(side, f, g));
                    assert(leaves(Tree::Leaf(f)) == seq![f]);
                    assert(leaves(Tree::Leaf(g)) == seq![g]);
                    assert(lp =~= seq![f, g]);
                    assert(lp.contains(k));
                    let i = choose|i: int| 0 <= i < lp.len() && lp[i] == k;
                    assert(k == f || k == g);
                }
            }
            lemma_replay_emit(t1, a);
            lemma_subst_twice(host, f, pair(side, f, g), skeleton(a));
            let mid = Tree::Node(side, EVEN, Box::new(skeleton(a)), Box::new(Tree::Leaf(g)));
            assert(!leaves(Tree::Leaf(g)).contains(f)) by {
                assert(leaves(Tree::Leaf(g)) == seq![g]);
            }
            lemma_subst_absent(Tree::Leaf(g), f, skeleton(a));
            assert(subst(Tree::Leaf(f), f, skeleton(a)) == skeleton(a));
            assert(subst(Tree::Leaf(g), f, skeleton(a)) == Tree::Leaf(g));
            assert(subst(pair(side, f, g), f, skeleton(a)) == mid);
            let t2 = subst(host, f, mid);
            assert(replay(t1, emit(a)) == t2);
            // panes of t2 meet b only at g
            lemma_subst_leaves(host, f, mid);
            assert forall|k: Seq<char>| leaves(t2).contains(k) implies k == g || !leaves(b).contains(
                k,
            ) by {
                if leaves(host).contains(k) && k != f {
                    assert(!leaves(t).contains(k));
                    if leaves(b).contains(k) {
                        let i = choose|i: int| 0 <= i < leaves(b).len() && leaves(b)[i] == k;
                        assert(leaves(t)[leaves(a).len() + i] == k);
                    }
                } else {
                    assert(leaves(mid) == leaves(a) + seq![g]);
                    let s = leaves(mid);
                    let i = choose|i: int| 0 <= i < s.len() && s[i] == k;
                    if i < leaves(a).len() {
                        assert(leaves(a)[i] == k);
                        assert(leaves(a).contains(k));
                    } else {
                        assert(k == g);
                    }
                }
            }
            lemma_replay_emit(t2, b);
            // g is not in host
            assert forall|k: Seq<char>| leaves(host).contains(k) implies k == f || k != g by {
                if k == g {
                    assert(leaves(t)[leaves(a).len() as int] == g);
                    assert(leaves(t).contains(g));
                }
            }
            lemma_subst_then_other(host, f, mid, g, skeleton(b));
            assert(!leaves(skeleton(a)).contains(g));
            lemma_subst_absent(skeleton(a), g, skeleton(b));
            assert(subst(Tree::Leaf(g), g, skeleton(b)) == skeleton(b));
            assert(subst(mid, g, skeleton(b)) == skeleton(t));
        },
    }
}

/// **Law.** The plan read off a shape rebuilds that shape: replaying
/// [`Plan::from_shape`] with [`Plan::simulate`] gives back the same
/// arrangement, every split at the even ratio a rebuild produces. Holds for
/// every tree that names each pane once, which is every tree Herdr reports.
pub proof fn lemma_plan_rebuilds_shape(t: Tree)
    requires
        distinct_leaves(t),
    ensures
        replay(Tree::Leaf(first_leaf(t)), emit(t)) == skeleton(t),
        signature_of(replay(Tree::Leaf(first_leaf(t)), emit(t))) == signature_of(t),
{
    lemma_first_in_leaves(t);
    assert forall|k: Seq<char>| leaves(Tree::Leaf(first_leaf(t))).contains(k) implies k
        == first_leaf(t) || !leaves(t).contains(k) by {
        assert(leaves(Tree::Leaf(first_leaf(t))) == seq![first_leaf(t)]);
    }
    lemma_replay_emit(Tree::Leaf(first_leaf(t)), t);
    lemma_skeleton(t);
}

/// The panes placed before step `i`: the anchor and every earlier step's
/// pane.
pub open spec fn placed_before(anchor: Seq<char>, steps: Seq<Step>, i: int) -> Seq<Seq<char>> {
    plan_panes(anchor, steps).take(i + 1)
}

/// Every placement anchors on a pane placed before it.
pub open spec fn anchors_placed(anchor: Seq<char>, steps: Seq<Step>) -> bool {
    forall|i: int| 0 <= i < steps.len() ==> #[trigger] placed_before(anchor, steps, i).contains(steps[i].anchor)
}

proof fn lemma_emit_places(t: Tree)
    ensures
        plan_panes(first_leaf(t), emit(t)).to_multiset() == leaves(t).to_multiset(),
        anchors_placed(first_leaf(t), emit(t)),
    decreases t,
{
    broadcast use vstd::seq_lib::lemma_multiset_commutative;
    broadcast use vstd::multiset::group_multiset_axioms;

    match t {
        Tree::Leaf(id) => {
            assert(plan_panes(id, emit(t)) =~= seq![id]);
            assert(leaves(t) == seq![id]);
        },
        Tree::Node(side, _, a, b) => {
            let a = *a;
            let b = *b;
            lemma_emit_places(a);
            lemma_emit_places(b);
            let f = first_leaf(a);
            let g = first_leaf(b);
            let ea = emit(a);
            let eb = emit(b);
            let s = emit(t);
            assert(s == seq![Step { pane: g, anchor: f, side }] + ea + eb);
            let pa = plan_panes(f, ea);
            let pb = plan_panes(g, eb);
            let pt = plan_panes(f, s);
            assert(pa =~= seq![f] + pa.drop_first());
            assert(pb =~= seq![g] + pb.drop_first());
            assert(pt =~= seq![f] + seq![g] + pa.drop_first() + pb.drop_first());
            assert(leaves(t) == leaves(a) + leaves(b));
            assert(pt.to_multiset() =~= leaves(t).to_multiset());
            assert forall|i: int| 0 <= i < s.len() implies #[trigger] placed_before(f, s, i).contains(
                s[i].anchor,
            ) by {
                let here = placed_before(f, s, i);
                if i == 0 {
                    assert(here[0] == f);
                } else if i < 1 + ea.len() {
                    let k = i - 1;
                    assert(s[i] == ea[k]);
                    assert(placed_before(f, ea, k).contains(ea[k].anchor));
                    let w = placed_before(f, ea, k);
                    let j = choose|j: int| 0 <= j < w.len() && w[j] == ea[k].anchor;
                    if j == 0 {
                        assert(here[0] == f);
                    } else {
                        assert(here[j + 1] == pa[j]);
                    }
                } else {
                    let k = i - 1 - ea.len();
                    assert(s[i] == eb[k]);
                    assert(placed_before(g, eb, k).contains(eb[k].anchor));
                    let w = placed_before(g, eb, k);
                    let j = choose|j: int| 0 <= j < w.len() && w[j] == eb[k].anchor;
                    if j == 0 {
                        assert(here[1] == g);
                    } else {
                        assert(here[1 + ea.len() + j] == pb[j]);
                    }
                }
            }
        },
    }
}

/// **Law.** The plan read off a shape places each of the shape's panes
/// exactly once: the anchor and the placed panes are the shape's panes with
/// none twice, and every placement splits the anchor or a pane placed
/// earlier. Holds for every tree that names each pane once.
pub proof fn lemma_plan_places_each_pane_once(t: Tree)
    requires
        distinct_leaves(t),
    ensures
        plan_panes(first_leaf(t), emit(t)).to_multiset() == leaves(t).to_multiset(),
        plan_panes(first_leaf(t), emit(t)).no_duplicates(),
        anchors_placed(first_leaf(t), emit(t)),
{
    broadcast use vstd::multiset::group_multiset_axioms;

    lemma_emit_places(t);
    let p = plan_panes(first_leaf(t), emit(t));
    leaves(t).lemma_multiset_has_no_duplicates();
    p.lemma_multiset_has_no_duplicates_conv();
}

// ----- executable shapes -----

impl Clone for Shape {
    fn clone(&self) -> (r: Self)
        ensures
            r@ == self@,
    {
        self.duplicate()
    }
}

impl Shape {
    pub fn pane(id: &str) -> (r: Self)
        ensures
            r@ == Tree::Leaf(id@),
    {
        Shape::Pane(crate::text::owned(id))
    }

    /// A deep copy.
    pub fn duplicate(&self) -> (r: Self)
        ensures
            r@ == self@,
        decreases self,
    {
        match self {
            Shape::Pane(id) => Shape::Pane(id.clone()),
            Shape::Split { side, ratio, first, second } => Shape::Split {
                side: *side,
                ratio: *ratio,
                first: Box::new(first.duplicate()),
                second: Box::new(second.duplicate()),
            },
        }
    }

    /// The tree with `target` split to put `new_pane` on `side` of it.
    pub fn splitted(&self, target: &str, new_pane: &str, side: Side) -> (r: Self)
        ensures
            r@ == split_tree(self@, target@, new_pane@, side),
        decreases self,
    {
        match self {
            Shape::Pane(id) => {
                if crate::text::same_text(id.as_str(), target) {
                    let a = Shape::Pane(crate::text::owned(target));
                    let b = Shape::Pane(crate::text::owned(new_pane));
                    assert(a@ == Tree::Leaf(target@));
                    assert(b@ == Tree::Leaf(new_pane@));
                    let r = Shape::Split { side, ratio: EVEN, first: Box::new(a), second: Box::new(b) };
                    assert(r@ == pair(side, target@, new_pane@));
                    r
                } else {
                    Shape::Pane(id.clone())
                }
            },
            Shape::Split { side: s, ratio, first, second } => Shape::Split {
                side: *s,
                ratio: *ratio,
                first: Box::new(first.splitted(target, new_pane, side)),
                second: Box::new(second.splitted(target, new_pane, side)),
            },
        }
    }

    /// Split pane `target`, putting `new_pane` on `side` of it at an even
    /// ratio. A tree without `target` is left as it is.
    pub fn split(&mut self, target: &str, new_pane: &str, side: Side)
        ensures
            final(self)@ == split_tree(old(self)@, target@, new_pane@, side),
    {
        let next = self.splitted(target, new_pane, side);
        *self = next;
    }

    /// Take `id` out of the tree, closing the split it was half of.
    ///
    /// Returns `None` when that pane was all there was.
    pub fn without(&self, id: &str) -> (r: Option<Shape>)
        ensures
            match r {
                Some(s) => without_tree(self@, id@) == Some(s@),
                None => without_tree(self@, id@) is None,
            },
        decreases self,
    {
        match self {
            Shape::Pane(pane) => {
                if crate::text::same_text(pane.as_str(), id) {
                    None
                } else {
                    Some(Shape::Pane(pane.clone()))
                }
            },
            Shape::Split { side, ratio, first, second } => {
                match (first.without(id), second.without(id)) {
                    (None, Some(rest)) => Some(rest),
                    (Some(rest), None) => Some(rest),
                    (Some(a), Some(b)) => Some(
                        Shape::Split { side: *side, ratio: *ratio, first: Box::new(a), second: Box::new(b) },
                    ),
                    (None, None) => None,
                }
            },
        }
    }

    /// Leftmost/topmost pane: the one a subtree is grown from.
    pub fn first_pane(&self) -> (r: &str)
        ensures
            r@ == first_leaf(self@),
        decreases self,
    {
        match self {
            Shape::Pane(id) => id.as_str(),
            Shape::Split { first, .. } => first.first_pane(),
        }
    }

    /// Pane ids in layout order.
    pub fn pane_ids(&self) -> (r: Vec<String>)
        ensures
            string_views(r@) == leaves(self@),
        decreases self,
    {
        match self {
            Shape::Pane(id) => {
                let mut v: Vec<String> = Vec::new();
                v.push(id.clone());
                proof {
                    assert(string_views(v@) =~= seq![id@]);
                }
                v
            },
            Shape::Split { first, second, .. } => {
                let mut out = first.pane_ids();
                let mut rest = second.pane_ids();
                let ghost a = out@;
                let ghost b = rest@;
                out.append(&mut rest);
                proof {
                    assert(out@ == a + b);
                    assert(string_views(out@) =~= string_views(a) + string_views(b));
                }
                out
            },
        }
    }

    /// Compact form for assertions and debugging: `(r p1 (d p2 p3))`.
    pub fn signature(&self) -> (r: String)
        ensures
            r@ == signature_of(self@),
        decreases self,
    {
        match self {
            Shape::Pane(id) => id.clone(),
            Shape::Split { side, first, second, .. } => {
                let mut out = String::new();
                push_char(&mut out, '(');
                let letter = match side {
                    Side::Left => 'l',
                    Side::Right => 'r',
                    Side::Up => 'u',
                    Side::Down => 'd',
                };
                push_char(&mut out, letter);
                push_char(&mut out, ' ');
                let a = first.signature();
                out.append(a.as_str());
                push_char(&mut out, ' ');
                let b = second.signature();
                out.append(b.as_str());
                push_char(&mut out, ')');
                proof {
                    assert(out@ =~= signature_of(self@));
                }
                out
            },
        }
    }

    /// The shape of a live tab, as reported by `layout.export`.
    ///
    /// `None` when a leaf carries no pane id or a split names a direction
    /// that is not a side.
    pub fn from_layout(node: &LayoutNode) -> (r: Option<Self>)
        ensures
            r == layout_shape(*node),
        decreases node,
    {
        match node {
            LayoutNode::Pane { pane_id } => match pane_id {
                Some(id) => Some(Shape::Pane(id.clone())),
                None => None,
            },
            LayoutNode::Split { direction, ratio, first, second } => {
                let side = match Side::parse(direction.as_str()) {
                    Some(s) => s,
                    None => return None,
                };
                let a = match Shape::from_layout(first) {
                    Some(a) => a,
                    None => return None,
                };
                let b = match Shape::from_layout(second) {
                    Some(b) => b,
                    None => return None,
                };
                Some(Shape::Split { side, ratio: *ratio, first: Box::new(a), second: Box::new(b) })
            },
        }
    }
}

/// The shape an exported tree describes, when it describes one.
pub open spec fn layout_shape(n: LayoutNode) -> Option<Shape>
    decreases n,
{
    match n {
        LayoutNode::Pane { pane_id } => match pane_id {
            Some(id) => Some(Shape::Pane(id)),
            None => None,
        },
        LayoutNode::Split { direction, ratio, first, second } => match (
            side_named(direction@),
            layout_shape(*first),
            layout_shape(*second),
        ) {
            (Some(side), Some(a), Some(b)) => Some(
                Shape::Split { side, ratio, first: Box::new(a), second: Box::new(b) },
            ),
            _ => None,
        },
    }
}

// ---------------------------------------------------------------------------
// Plans
// ---------------------------------------------------------------------------

/// One pane's placement relative to a pane already in the tab.
#[derive(Debug, Clone, PartialEq, Eq)]
pub struct Placement {
    pub pane_id: String,
    /// Pane to split. Always a pane placed earlier in the plan.
    pub anchor: String,
    pub side: Side,
}

pub open spec fn step_of(p: Placement) -> Step {
    Step { pane: p.pane_id@, anchor: p.anchor@, side: p.side }
}

pub open spec fn steps_of(v: Seq<Placement>) -> Seq<Step> {
    v.map_values(|p: Placement| step_of(p))
}

/// An arrangement: the pane that is already in place, then everyone else in
/// the order they must be added.
#[derive(Debug, Clone, PartialEq, Eq)]
pub struct Plan {
    pub anchor: String,
    pub placements: Vec<Placement>,
}

/// The panes a plan places, anchor first.
pub open spec fn plan_panes(anchor: Seq<char>, steps: Seq<Step>) -> Seq<Seq<char>> {
    seq![anchor] + steps.map_values(|s: Step| s.pane)
}

impl Placement {
    pub fn duplicate(&self) -> (r: Placement)
        ensures
            step_of(r) == step_of(*self),
    {
        Placement { pane_id: self.pane_id.clone(), anchor: self.anchor.clone(), side: self.side }
    }
}

impl Plan {
    /// The plan as mathematical values: the anchor and its steps.
    pub open spec fn steps(&self) -> Seq<Step> {
        steps_of(self.placements@)
    }

    /// Panes in the order they are placed, anchor first.
    pub fn pane_ids(&self) -> (r: Vec<String>)
        ensures
            string_views(r@) == plan_panes(self.anchor@, self.steps()),
    {
        let mut out: Vec<String> = Vec::new();
        out.push(self.anchor.clone());
        let mut i: usize = 0;
        while i < self.placements.len()
            invariant
                i <= self.placements@.len(),
                string_views(out@) == plan_panes(
                    self.anchor@,
                    self.steps().subrange(0, i as int),
                ),
            decreases self.placements@.len() - i,
        {
            let ghost before = out@;
            out.push(self.placements[i].pane_id.clone());
            proof {
                assert(string_views(out@) =~= string_views(before).push(
                    self.placements@[i as int].pane_id@,
                ));
                assert(self.steps().subrange(0, i + 1) =~= self.steps().subrange(0, i as int).push(
                    self.steps()[i as int],
                ));
                assert(string_views(out@) =~= plan_panes(
                    self.anchor@,
                    self.steps().subrange(0, i + 1),
                ));
            }
            i = i + 1;
        }
        proof {
            assert(self.steps().subrange(0, self.placements@.len() as int) =~= self.steps());
        }
        out
    }

    /// The split tree this plan produces.
    ///
    /// Simulating lets a caller skip a rebuild that would change nothing.
    pub fn simulate(&self) -> (r: Shape)
        ensures
            r@ == replay(Tree::Leaf(self.anchor@), self.steps()),
    {
        let mut tree = Shape::Pane(self.anchor.clone());
        let mut i: usize = 0;
        while i < self.placements.len()
            invariant
                i <= self.placements@.len(),
                tree@ == replay(Tree::Leaf(self.anchor@), self.steps().subrange(0, i as int)),
            decreases self.placements@.len() - i,
        {
            let p = &self.placements[i];
            tree.split(p.anchor.as_str(), p.pane_id.as_str(), p.side);
            proof {
                assert(self.steps().subrange(0, i + 1) =~= self.steps().subrange(0, i as int).push(
                    self.steps()[i as int],
                ));
                lemma_replay_push(
                    Tree::Leaf(self.anchor@),
                    self.steps().subrange(0, i as int),
                    self.steps()[i as int],
                );
            }
            i = i + 1;
        }
        proof {
            assert(self.steps().subrange(0, self.placements@.len() as int) =~= self.steps());
        }
        tree
    }

    /// The plan that reproduces `shape`: the inverse of [`Plan::simulate`].
    pub fn from_shape(shape: &Shape) -> (r: Self)
        ensures
            r.anchor@ == first_leaf(shape@),
            r.steps() == emit(shape@),
    {
        let mut placements: Vec<Placement> = Vec::new();
        emit_into(shape, &mut placements);
        proof {
            assert(steps_of(placements@) =~= Seq::<Step>::empty() + emit(shape@));
        }
        Plan { anchor: crate::text::owned(shape.first_pane()), placements }
    }
}

/// Walk a tree parent-first, recording the split that created each node.
fn emit_into(node: &Shape, out: &mut Vec<Placement>)
    ensures
        steps_of(final(out)@) == steps_of(old(out)@) + emit(node@),
    decreases node,
{
    match node {
        Shape::Pane(_) => {
            proof {
                assert(steps_of(out@) =~= steps_of(old(out)@) + Seq::<Step>::empty());
            }
        },
        Shape::Split { side, first, second, .. } => {
            let p = Placement {
                pane_id: crate::text::owned(second.first_pane()),
                anchor: crate::text::owned(first.first_pane()),
                side: *side,
            };
            out.push(p);
            proof {
                assert(steps_of(out@) =~= steps_of(old(out)@) + seq![
                    Step { pane: first_leaf(second@), anchor: first_leaf(first@), side: *side },
                ]);
            }
            let ghost mid = steps_of(out@);
            emit_into(first, out);
            emit_into(second, out);
            proof {
                assert(steps_of(out@) =~= steps_of(old(out)@) + emit(node@));
            }
        },
    }
}

} // verus!
