//! What a picker screen holds, and the text arithmetic behind drawing it.
//!
//! The terminal itself is driven elsewhere; this module owns the rows, the
//! display-width rules, truncation, scrolling and the frames drawn around
//! previews, so that they can be proved rather than eyeballed.
use vstd::prelude::*;

use crate::layout::{char_width, string_views, width_of, Shape, Tree};
use crate::text::{chars_of, push_char, string_of, string_of_range};

verus! {

// ---------------------------------------------------------------------------
// Screen model
// ---------------------------------------------------------------------------

/// A key press reduced to what the pickers care about.
#[derive(Debug, Clone, Copy, PartialEq, Eq, Structural)]
pub enum Key {
    Char(char),
    Enter,
    /// Enter with Shift held, where the terminal can report it.
    ShiftEnter,
    /// Enter with Alt (Option on a Mac) held.
    AltEnter,
    Up,
    Down,
    Tab,
    /// Shift+Tab.
    BackTab,
    Backspace,
    Esc,
    /// Left click on the rendered row at this index.
    Click(usize),
    /// Wheel movement: -1 up, 1 down.
    Scroll(i8),
    /// Ctrl+C / Ctrl+D, treated as Cancel everywhere.
    Interrupt,
    Other,
}

#[derive(Debug, Clone, Copy, PartialEq, Eq, Structural)]
pub enum RowKind {
    Header,
    Item,
    Separator,
    Note,
}

/// The terminal colours the pickers use.
#[derive(Debug, Clone, Copy, PartialEq, Eq, Structural)]
pub enum Color {
    Reset,
    Green,
    Yellow,
    Cyan,
    DarkGrey,
    Red,
}

/// One entry of a view's tab strip.
#[derive(Debug, Clone)]
pub struct Chip {
    pub label: String,
    pub active: bool,
}

impl Chip {
    pub fn new(label: &str, active: bool) -> (r: Self)
        ensures
            r.label@ == label@,
            r.active == active,
    {
        Chip { label: crate::text::owned(label), active }
    }
}

/// One captioned diagram inside a preview.
#[derive(Debug, Clone)]
pub struct Panel {
    pub caption: String,
    /// `None` draws the caption over an explicit "nothing left" box.
    pub shape: Option<Shape>,
    /// The tab's arrangement could not be read.
    pub unreadable: bool,
    pub marked: Vec<String>,
    /// Short identifiers written into the panes, e.g. `1`, `2`, `3`.
    pub labels: Vec<(String, String)>,
    /// Draw a second sheet behind the diagram.
    pub stacked: bool,
    /// Name written into the sheet behind.
    pub behind: Option<String>,
}

impl Panel {
    pub fn new(caption: &str, shape: Shape) -> (r: Self)
        ensures
            r.caption@ == caption@,
            r.shape == Some(shape),
            !r.unreadable,
            r.marked@.len() == 0,
            r.labels@.len() == 0,
            !r.stacked,
            r.behind is None,
    {
        Panel {
            caption: crate::text::owned(caption),
            shape: Some(shape),
            unreadable: false,
            marked: Vec::new(),
            labels: Vec::new(),
            stacked: false,
            behind: None,
        }
    }

    /// A panel for a tab whose arrangement Herdr would not report.
    pub fn unreadable(caption: &str) -> (r: Self)
        ensures
            r.caption@ == caption@,
            r.shape is None,
            r.unreadable,
            r.marked@.len() == 0,
            r.labels@.len() == 0,
            !r.stacked,
            r.behind is None,
    {
        let mut p = Panel::gone(caption);
        p.unreadable = true;
        p
    }

    /// A panel for something that will not exist afterwards.
    pub fn gone(caption: &str) -> (r: Self)
        ensures
            r.caption@ == caption@,
            r.shape is None,
            !r.unreadable,
            r.marked@.len() == 0,
            r.labels@.len() == 0,
            !r.stacked,
            r.behind is None,
    {
        Panel {
            caption: crate::text::owned(caption),
            shape: None,
            unreadable: false,
            marked: Vec::new(),
            labels: Vec::new(),
            stacked: false,
            behind: None,
        }
    }

    pub fn marking(self, marked: Vec<String>) -> (r: Self)
        ensures
            r == (Panel { marked, ..self }),
    {
        Panel { marked, ..self }
    }

    /// Draw the diagram as the front of a stack of two sheets.
    pub fn stacked(self) -> (r: Self)
        ensures
            r == (Panel { stacked: true, ..self }),
    {
        Panel { stacked: true, ..self }
    }

    /// Stack, and name the sheet behind.
    pub fn behind(self, caption: &str) -> (r: Self)
        ensures
            r.stacked,
            r.behind is Some && r.behind->0@ == caption@,
            r.caption == self.caption,
            r.shape == self.shape,
            r.unreadable == self.unreadable,
            r.marked == self.marked,
            r.labels == self.labels,
    {
        Panel { stacked: true, behind: Some(crate::text::owned(caption)), ..self }
    }

    /// Put compact identifiers inside panes in the diagram.
    pub fn labeling(self, labels: Vec<(String, String)>) -> (r: Self)
        ensures
            r == (Panel { labels, ..self }),
    {
        Panel { labels, ..self }
    }
}

/// Label pairs as values: pane id and the text written into its box.
pub open spec fn label_views(v: Seq<(String, String)>) -> Seq<(Seq<char>, Seq<char>)> {
    v.map_values(|p: (String, String)| (p.0@, p.1@))
}

/// A single-sheet panel captioned `caption` that draws `tree`, fills
/// `marked` and writes `labels` into the boxes.
pub open spec fn panel_is(p: Panel, caption: Seq<char>, tree: Tree, marked: Seq<Seq<char>>, labels: Seq<(Seq<char>, Seq<char>)>) -> bool {
    &&& p.caption@ == caption
    &&& p.shape matches Some(s) && s@ == tree
    &&& !p.unreadable
    &&& string_views(p.marked@) == marked
    &&& label_views(p.labels@) == labels
    &&& !p.stacked
    &&& p.behind is None
}

/// A panel that says the tab's arrangement could not be read.
pub open spec fn unreadable_panel(p: Panel, caption: Seq<char>) -> bool {
    &&& p.caption@ == caption
    &&& p.shape is None
    &&& p.unreadable
    &&& p.marked@.len() == 0
    &&& p.labels@.len() == 0
    &&& !p.stacked
    &&& p.behind is None
}

/// What an operation would leave behind, drawn.
#[derive(Debug, Clone)]
pub struct Preview {
    pub panels: Vec<Panel>,
    /// Lines printed under the boxes, naming what is in them.
    pub legend: Vec<String>,
}

impl Preview {
    pub fn new(panels: Vec<Panel>) -> (r: Self)
        ensures
            r.panels == panels,
            r.legend@.len() == 0,
    {
        Preview { panels, legend: Vec::new() }
    }
}

/// One line (or two, with a detail line) of a picker.
#[derive(Debug, Clone)]
pub struct Row {
    pub kind: RowKind,
    /// Hotkey shown in the left gutter, e.g. `1`, `n`, `m`.
    pub hotkey: Option<String>,
    /// Agent state glyph.
    pub glyph: Option<char>,
    pub glyph_color: Color,
    pub primary: String,
    /// Dimmed trailing detail on the same line.
    pub secondary: Option<String>,
    /// Dimmed line underneath, e.g. the terminal title.
    pub detail: Option<String>,
    /// The layout to draw in the preview area when this row is highlighted.
    pub preview: Option<Preview>,
    /// Dimmed text pinned to the right edge of the line.
    pub trailing: Option<String>,
}

impl Row {
    pub fn item(primary: &str) -> (r: Self)
        ensures
            r.kind == RowKind::Item,
            r.primary@ == primary@,
            r.hotkey is None,
            r.glyph is None,
            r.glyph_color == Color::Reset,
            r.secondary is None,
            r.detail is None,
            r.preview is None,
            r.trailing is None,
    {
        Row {
            kind: RowKind::Item,
            hotkey: None,
            glyph: None,
            glyph_color: Color::Reset,
            primary: crate::text::owned(primary),
            secondary: None,
            detail: None,
            preview: None,
            trailing: None,
        }
    }

    pub fn header(text: &str) -> (r: Self)
        ensures
            r.kind == RowKind::Header,
            r.primary@ == text@,
            r.hotkey is None,
            r.secondary is None,
            r.detail is None,
    {
        Row { kind: RowKind::Header, ..Row::item(text) }
    }

    pub fn note(text: &str) -> (r: Self)
        ensures
            r.kind == RowKind::Note,
            r.primary@ == text@,
            r.hotkey is None,
            r.secondary is None,
            r.detail is None,
    {
        Row { kind: RowKind::Note, ..Row::item(text) }
    }

    pub fn separator() -> (r: Self)
        ensures
            r.kind == RowKind::Separator,
            r.primary@.len() == 0,
            r.hotkey is None,
            r.secondary is None,
            r.detail is None,
    {
        proof {
            reveal_strlit("");
        }
        Row { kind: RowKind::Separator, ..Row::item("") }
    }

    /// Give the row a single-key shortcut.
    pub fn hotkey(self, key: &str) -> (r: Self)
        ensures
            r.hotkey is Some && r.hotkey->0@ == key@,
            r.kind == self.kind,
            r.primary == self.primary,
            r.secondary == self.secondary,
            r.detail == self.detail,
            r.glyph == self.glyph,
            r.glyph_color == self.glyph_color,
            r.preview == self.preview,
            r.trailing == self.trailing,
    {
        Row { hotkey: Some(crate::text::owned(key)), ..self }
    }

    pub fn glyph(self, glyph: char, color: Color) -> (r: Self)
        ensures
            r == (Row { glyph: Some(glyph), glyph_color: color, ..self }),
    {
        Row { glyph: Some(glyph), glyph_color: color, ..self }
    }

    pub fn secondary(self, text: &str) -> (r: Self)
        ensures
            r.secondary is Some && r.secondary->0@ == text@,
            r.kind == self.kind,
            r.primary == self.primary,
            r.hotkey == self.hotkey,
            r.detail == self.detail,
            r.glyph == self.glyph,
            r.glyph_color == self.glyph_color,
            r.preview == self.preview,
            r.trailing == self.trailing,
    {
        Row { secondary: Some(crate::text::owned(text)), ..self }
    }

    pub fn detail(self, text: Option<String>) -> (r: Self)
        ensures
            r == (Row { detail: text, ..self }),
    {
        Row { detail: text, ..self }
    }

    /// One diagram with the given panes shaded.
    pub fn preview(self, shape: Shape, marked: Vec<String>) -> (r: Self)
        ensures
            r.preview matches Some(p) && p.panels@.len() == 1 && p.legend@.len() == 0,
            r.preview->0.panels@[0].shape == Some(shape),
            r.preview->0.panels@[0].marked == marked,
            r.preview->0.panels@[0].caption@.len() == 0,
            r.kind == self.kind,
            r.primary == self.primary,
            r.hotkey == self.hotkey,
            r.secondary == self.secondary,
            r.detail == self.detail,
            r.glyph == self.glyph,
            r.glyph_color == self.glyph_color,
            r.trailing == self.trailing,
    {
        proof {
            reveal_strlit("");
        }
        let mut panels: Vec<Panel> = Vec::new();
        panels.push(Panel::new("", shape).marking(marked));
        Row { preview: Some(Preview::new(panels)), ..self }
    }

    /// The same, for callers whose preview may not exist.
    pub fn preview_of(self, preview: Option<(Shape, Vec<String>)>) -> (r: Self)
        ensures
            r.preview is Some <==> preview is Some,
            r.kind == self.kind,
            r.primary == self.primary,
    {
        let p = match preview {
            Some((shape, marked)) => {
                let mut panels: Vec<Panel> = Vec::new();
                panels.push(Panel::new("", shape).marking(marked));
                Some(Preview::new(panels))
            },
            None => None,
        };
        Row { preview: p, ..self }
    }

    /// Several captioned diagrams, drawn side by side.
    pub fn panels(self, panels: Vec<Panel>) -> (r: Self)
        ensures
            r.preview is Some <==> panels@.len() > 0,
            r.preview matches Some(p) ==> p.panels == panels,
            r.kind == self.kind,
            r.primary == self.primary,
            r.hotkey == self.hotkey,
            r.secondary == self.secondary,
            r.detail == self.detail,
            r.glyph == self.glyph,
            r.glyph_color == self.glyph_color,
            r.trailing == self.trailing,
    {
        let p = if panels.len() > 0 {
            Some(Preview::new(panels))
        } else {
            None
        };
        Row { preview: p, ..self }
    }

    /// Name what the boxes hold, under the picture.
    pub fn legend(self, lines: Vec<String>) -> (r: Self)
        ensures
            r.preview is Some <==> self.preview is Some,
            r.preview matches Some(p) ==> p.legend == lines && p.panels == self.preview->0.panels,
            r.kind == self.kind,
            r.primary == self.primary,
            r.hotkey == self.hotkey,
            r.secondary == self.secondary,
            r.detail == self.detail,
            r.glyph == self.glyph,
            r.glyph_color == self.glyph_color,
            r.trailing == self.trailing,
    {
        let p = match self.preview {
            Some(pr) => Some(Preview { panels: pr.panels, legend: lines }),
            None => None,
        };
        Row { preview: p, ..self }
    }

    pub fn trailing(self, text: &str) -> (r: Self)
        ensures
            r.trailing is Some && r.trailing->0@ == text@,
            r.kind == self.kind,
            r.primary == self.primary,
    {
        Row { trailing: Some(crate::text::owned(text)), ..self }
    }
}

/// A whole picker screen.
#[derive(Debug, Clone)]
pub struct Screen {
    pub title: String,
    pub subtitle: Option<String>,
    /// Tab strip drawn under the subtitle. Empty hides the line.
    pub tabs: Vec<Chip>,
    pub rows: Vec<Row>,
    pub footer: Option<String>,
    /// Index into `rows` currently under the arrow-key cursor.
    pub cursor: Option<usize>,
    pub accent: Color,
    /// Fixed block drawn just above the footer.
    pub preview: Option<Preview>,
    /// Keep room for a preview even on rows that have none.
    pub reserve_preview: bool,
    /// Shown in the preview area for rows with nothing to draw.
    pub no_preview: String,
    /// Current filter text, shown as a prompt line.
    pub query: Option<String>,
    /// How many entries survive the filter, shown beside the prompt.
    pub match_count: Option<usize>,
}

impl Screen {
    pub fn new(title: &str) -> (r: Self)
        ensures
            r.title@ == title@,
            r.subtitle is None,
            r.tabs@.len() == 0,
            r.rows@.len() == 0,
            r.footer is None,
            r.cursor is None,
            r.accent == Color::Cyan,
            r.preview is None,
            !r.reserve_preview,
            r.no_preview@.len() == 0,
            r.query is None,
            r.match_count is None,
    {
        Screen {
            title: crate::text::owned(title),
            subtitle: None,
            tabs: Vec::new(),
            rows: Vec::new(),
            footer: None,
            cursor: None,
            accent: Color::Cyan,
            preview: None,
            reserve_preview: false,
            no_preview: String::new(),
            query: None,
            match_count: None,
        }
    }

    pub fn tabs(self, tabs: Vec<Chip>) -> (r: Self)
        ensures
            r == (Screen { tabs, ..self }),
    {
        Screen { tabs, ..self }
    }

    pub fn subtitle(self, text: &str) -> (r: Self)
        ensures
            r.subtitle is Some && r.subtitle->0@ == text@,
            r.rows == self.rows,
            r.title == self.title,
            r.footer == self.footer,
            r.tabs == self.tabs,
    {
        Screen { subtitle: Some(crate::text::owned(text)), ..self }
    }

    pub fn rows(self, rows: Vec<Row>) -> (r: Self)
        ensures
            r == (Screen { rows, ..self }),
    {
        Screen { rows, ..self }
    }

    pub fn footer(self, text: &str) -> (r: Self)
        ensures
            r.footer is Some && r.footer->0@ == text@,
            r.rows == self.rows,
            r.title == self.title,
            r.subtitle == self.subtitle,
            r.tabs == self.tabs,
    {
        Screen { footer: Some(crate::text::owned(text)), ..self }
    }

    pub fn accent(self, color: Color) -> (r: Self)
        ensures
            r == (Screen { accent: color, ..self }),
    {
        Screen { accent: color, ..self }
    }
}

// ---------------------------------------------------------------------------
// Display width and truncation
// ---------------------------------------------------------------------------

/// Display width of a character sequence, counting CJK as two columns.
pub open spec fn cols(s: Seq<char>) -> nat
    decreases s.len(),
{
    if s.len() == 0 {
        0
    } else {
        cols(s.drop_last()) + width_of(s.last())
    }
}

/// The width `columns` reports: the display width, saturating at
/// `usize::MAX` (no real string comes near it).
pub open spec fn columns_of(s: Seq<char>) -> nat {
    if cols(s) <= usize::MAX {
        cols(s)
    } else {
        usize::MAX as nat
    }
}

proof fn lemma_cols_push(s: Seq<char>, c: char)
    ensures
        cols(s.push(c)) == cols(s) + width_of(c),
{
    assert(s.push(c).drop_last() =~= s);
}

/// Display width of a prefix never exceeds that of a longer prefix.
proof fn lemma_cols_prefix(s: Seq<char>, i: int, j: int)
    requires
        0 <= i <= j <= s.len(),
    ensures
        cols(s.take(i)) <= cols(s.take(j)),
    decreases j - i,
{
    if i < j {
        lemma_cols_prefix(s, i, j - 1);
        assert(s.take(j).drop_last() =~= s.take(j - 1));
    }
}

/// Display width, counting CJK as two columns.
pub fn columns(text: &str) -> (r: usize)
    ensures
        r == columns_of(text@),
{
    let cs = chars_of(text);
    let mut used: usize = 0;
    let mut i: usize = 0;
    while i < cs.len()
        invariant
            cs@ == text@,
            i <= cs@.len(),
            used == columns_of(cs@.take(i as int)),
        decreases cs@.len() - i,
    {
        let w = char_width(cs[i]);
        proof {
            assert(cs@.take(i + 1) =~= cs@.take(i as int).push(cs@[i as int]));
            lemma_cols_push(cs@.take(i as int), cs@[i as int]);
        }
        if used > usize::MAX - w {
            used = usize::MAX;
        } else {
            used = used + w;
        }
        i = i + 1;
    }
    proof {
        assert(cs@.take(cs@.len() as int) =~= cs@);
    }
    used
}

/// Length of the longest prefix of `s` (starting the search at `i`) whose
/// display width fits in `w`.
pub open spec fn fit_len(s: Seq<char>, w: nat, i: int) -> int
    decreases s.len() - i,
{
    if 0 <= i < s.len() && cols(s.take(i + 1)) <= w {
        fit_len(s, w, i + 1)
    } else {
        i
    }
}

/// Step back from prefix length `k` until an ellipsis also fits in `w`.
pub open spec fn back_off(s: Seq<char>, w: nat, k: int) -> int
    decreases k,
{
    if k > 0 && cols(s.take(k)) + 1 > w {
        back_off(s, w, k - 1)
    } else {
        k
    }
}

/// `text` cut to `w` display columns; when it has to be cut, the ellipsis
/// itself occupies a column and replaces trailing characters.
pub open spec fn truncated(s: Seq<char>, w: nat) -> Seq<char> {
    let k = fit_len(s, w, 0);
    if k >= s.len() {
        s
    } else {
        let m = back_off(s, w, k);
        if cols(s.take(m)) + 1 > w {
            Seq::empty()
        } else {
            s.take(m).push('…')
        }
    }
}

proof fn lemma_fit_len(s: Seq<char>, w: nat, i: int)
    requires
        0 <= i <= s.len(),
        cols(s.take(i)) <= w,
    ensures
        i <= fit_len(s, w, i) <= s.len(),
        cols(s.take(fit_len(s, w, i))) <= w,
        fit_len(s, w, i) < s.len() ==> cols(s.take(fit_len(s, w, i) + 1)) > w,
    decreases s.len() - i,
{
    if 0 <= i < s.len() && cols(s.take(i + 1)) <= w {
        lemma_fit_len(s, w, i + 1);
    }
}

proof fn lemma_back_off(s: Seq<char>, w: nat, k: int)
    requires
        0 <= k <= s.len(),
    ensures
        0 <= back_off(s, w, k) <= k,
        back_off(s, w, k) > 0 ==> cols(s.take(back_off(s, w, k))) + 1 <= w,
    decreases k,
{
    if k > 0 && cols(s.take(k)) + 1 > w {
        lemma_back_off(s, w, k - 1);
    }
}

/// **Law.** Truncated text never runs wider than asked, and text that
/// already fits comes back unchanged.
pub proof fn lemma_truncate_fits(s: Seq<char>, w: nat)
    ensures
        cols(truncated(s, w)) <= w,
        cols(s) <= w ==> truncated(s, w) == s,
{
    assert(s.take(0) =~= Seq::<char>::empty());
    lemma_fit_len(s, w, 0);
    let k = fit_len(s, w, 0);
    if k >= s.len() {
        assert(s.take(k) =~= s);
    } else {
        lemma_cols_prefix(s, k + 1, s.len() as int);
        assert(s.take(s.len() as int) =~= s);
        lemma_back_off(s, w, k);
        let m = back_off(s, w, k);
        if cols(s.take(m)) + 1 <= w {
            lemma_cols_push(s.take(m), '…');
            assert(width_of('…') == 1);
        }
    }
}

/// Truncate to `width` display columns, counting CJK characters as two.
/// The ellipsis itself occupies a column, so it replaces trailing characters
/// rather than being appended past `width`.
pub fn truncate(text: &str, width: usize) -> (r: String)
    ensures
        r@ == truncated(text@, width as nat),
{
    let cs = chars_of(text);
    proof {
        assert(cs@.take(0) =~= Seq::<char>::empty());
    }
    let mut k: usize = 0;
    let mut used: usize = 0;
    while k < cs.len()
        invariant
            cs@ == text@,
            k <= cs@.len(),
            used == cols(cs@.take(k as int)),
            used <= width,
            fit_len(cs@, width as nat, k as int) == fit_len(cs@, width as nat, 0),
        ensures
            fit_len(cs@, width as nat, 0) == k as int,
            k <= cs@.len(),
            used == cols(cs@.take(k as int)),
            used <= width,
        decreases cs@.len() - k,
    {
        let w = char_width(cs[k]);
        proof {
            assert(cs@.take(k + 1) =~= cs@.take(k as int).push(cs@[k as int]));
            lemma_cols_push(cs@.take(k as int), cs@[k as int]);
        }
        if w > width - used {
            proof {
                assert(cols(cs@.take(k + 1)) > width);
                assert(fit_len(cs@, width as nat, k as int) == k);
            }
            break;
        }
        used = used + w;
        k = k + 1;
    }
    if k >= cs.len() {
        proof {
            assert(cs@.take(k as int) =~= cs@);
        }
        return string_of(&cs);
    }
    let mut m: usize = k;
    while m > 0 && used >= width
        invariant
            cs@ == text@,
            m <= k < cs@.len(),
            used == cols(cs@.take(m as int)),
            used <= width,
            back_off(cs@, width as nat, m as int) == back_off(cs@, width as nat, k as int),
        decreases m,
    {
        let w = char_width(cs[m - 1]);
        proof {
            assert(cs@.take(m as int) =~= cs@.take(m - 1).push(cs@[m - 1]));
            lemma_cols_push(cs@.take(m - 1), cs@[m - 1]);
        }
        used = used - w;
        m = m - 1;
    }
    proof {
        assert(back_off(cs@, width as nat, m as int) == m);
    }
    if used >= width {
        proof {
            assert(truncated(cs@, width as nat) == Seq::<char>::empty());
        }
        return String::new();
    }
    let mut out = string_of_range(&cs, 0, m);
    push_char(&mut out, '…');
    proof {
        assert(cs@.subrange(0, m as int) =~= cs@.take(m as int));
        assert(truncated(cs@, width as nat) == cs@.take(m as int).push('…'));
    }
    out
}

// ---------------------------------------------------------------------------
// Scrolling
// ---------------------------------------------------------------------------

/// Sum of `h[from..to]`.
pub open spec fn span(h: Seq<usize>, from: int, to: int) -> nat
    decreases to - from,
{
    if from >= to {
        0
    } else {
        span(h, from, to - 1) + h[to - 1] as nat
    }
}

/// Sum of `h[i..]`, built from the bottom.
pub open spec fn tail_from(h: Seq<usize>, i: int) -> nat
    decreases h.len() - i,
{
    if i >= h.len() || i < 0 {
        0
    } else {
        h[i] as nat + tail_from(h, i + 1)
    }
}

/// The last start that still fills the window: walking up from the bottom,
/// the highest row whose rows-below still fit in `budget` (the last row when
/// even it does not).
pub open spec fn max_start_from(h: Seq<usize>, budget: nat, index: int, best: int) -> int
    decreases index + 1,
{
    if index < 0 {
        best
    } else if tail_from(h, index) > budget {
        best
    } else {
        max_start_from(h, budget, index - 1, index)
    }
}

/// The earliest row that can open a window ending on `cursor`.
pub open spec fn earliest_from(h: Seq<usize>, budget: nat, cursor: int, index: int, best: int) -> int
    decreases index + 1,
{
    if index < 0 {
        best
    } else if span(h, index, cursor + 1) > budget {
        best
    } else {
        earliest_from(h, budget, cursor, index - 1, index)
    }
}

/// Where the visible window should start.
pub open spec fn scroll_spec(current: nat, cursor: Option<usize>, h: Seq<usize>, budget: nat) -> int {
    if span(h, 0, h.len() as int) <= budget || h.len() == 0 {
        0
    } else {
        let max_start = max_start_from(h, budget, h.len() - 1, h.len() - 1);
        let base = if current < max_start {
            current as int
        } else {
            max_start
        };
        let scroll = match cursor {
            Some(c) => {
                let c = if c < h.len() - 1 {
                    c as int
                } else {
                    h.len() - 1
                };
                if c < base {
                    c
                } else {
                    let earliest = earliest_from(h, budget, c, c, c);
                    if base < earliest {
                        earliest
                    } else {
                        base
                    }
                }
            },
            None => base,
        };
        if scroll < max_start {
            scroll
        } else {
            max_start
        }
    }
}

proof fn lemma_span_step(h: Seq<usize>, from: int, to: int)
    requires
        0 <= from < to <= h.len(),
    ensures
        span(h, from, to) == h[from] as nat + span(h, from + 1, to),
    decreases to - from,
{
    if from + 1 < to {
        lemma_span_step(h, from, to - 1);
        assert(span(h, from + 1, to) == span(h, from + 1, to - 1) + h[to - 1] as nat);
    } else {
        assert(span(h, from, from) == 0);
        assert(span(h, from + 1, to) == 0);
    }
}

proof fn lemma_tail_is_span(h: Seq<usize>, i: int)
    requires
        0 <= i <= h.len(),
    ensures
        tail_from(h, i) == span(h, i, h.len() as int),
    decreases h.len() - i,
{
    if i < h.len() {
        lemma_tail_is_span(h, i + 1);
        lemma_span_step(h, i, h.len() as int);
    }
}

proof fn lemma_max_start_bounds(h: Seq<usize>, budget: nat, index: int, best: int)
    requires
        -1 <= index < h.len(),
        0 <= best < h.len(),
    ensures
        0 <= max_start_from(h, budget, index, best) < h.len(),
    decreases index + 1,
{
    if index >= 0 && tail_from(h, index) <= budget {
        lemma_max_start_bounds(h, budget, index - 1, index);
    }
}

proof fn lemma_earliest_bounds(h: Seq<usize>, budget: nat, cursor: int, index: int, best: int)
    requires
        -1 <= index <= cursor < h.len(),
        0 <= best <= cursor,
    ensures
        0 <= earliest_from(h, budget, cursor, index, best) <= cursor,
    decreases index + 1,
{
    if index >= 0 && span(h, index, cursor + 1) <= budget {
        lemma_earliest_bounds(h, budget, cursor, index - 1, index);
    }
}

proof fn lemma_span_shorter_start(h: Seq<usize>, a: int, b: int, end: int)
    requires
        0 <= a <= b <= end <= h.len(),
    ensures
        span(h, b, end) <= span(h, a, end),
    decreases b - a,
{
    if a < b {
        lemma_span_step(h, a, end);
        lemma_span_shorter_start(h, a + 1, b, end);
    }
}

proof fn lemma_span_shorter_end(h: Seq<usize>, start: int, e1: int, e2: int)
    requires
        0 <= start <= e1 <= e2 <= h.len(),
    ensures
        span(h, start, e1) <= span(h, start, e2),
    decreases e2 - e1,
{
    if e1 < e2 {
        lemma_span_shorter_end(h, start, e1, e2 - 1);
    }
}

proof fn lemma_max_start_fits(h: Seq<usize>, budget: nat, index: int, best: int)
    requires
        -1 <= index < h.len(),
        best == h.len() - 1 || tail_from(h, best) <= budget,
    ensures
        ({
            let r = max_start_from(h, budget, index, best);
            r == h.len() - 1 || tail_from(h, r) <= budget
        }),
    decreases index + 1,
{
    if index >= 0 && tail_from(h, index) <= budget {
        lemma_max_start_fits(h, budget, index - 1, index);
    }
}

proof fn lemma_earliest_fits(h: Seq<usize>, budget: nat, cursor: int, index: int, best: int)
    requires
        -1 <= index <= cursor < h.len(),
        best == cursor || span(h, best, cursor + 1) <= budget,
    ensures
        ({
            let r = earliest_from(h, budget, cursor, index, best);
            r == cursor || span(h, r, cursor + 1) <= budget
        }),
    decreases index + 1,
{
    if index >= 0 && span(h, index, cursor + 1) <= budget {
        lemma_earliest_fits(h, budget, cursor, index - 1, index);
    }
}

/// **Law.** The row under the cursor is always in view: the window starts at
/// or above it, and either starts on it or the rows from its start down to
/// the cursor's fit in the lines the window has. A cursor past the end counts
/// as the last row.
pub proof fn lemma_cursor_in_view(current: nat, cursor: usize, h: Seq<usize>, budget: nat)
    requires
        h.len() > 0,
    ensures
        ({
            let s = scroll_spec(current, Some(cursor), h, budget);
            let c: int = if cursor < h.len() - 1 { cursor as int } else { h.len() - 1 };
            0 <= s <= c && (s == c || span(h, s, c + 1) <= budget)
        }),
{
    let n = h.len() as int;
    let c: int = if cursor < h.len() - 1 { cursor as int } else { n - 1 };
    if span(h, 0, n) <= budget {
        lemma_span_shorter_end(h, 0, c + 1, n);
    } else {
        let max_start = max_start_from(h, budget, n - 1, n - 1);
        lemma_max_start_bounds(h, budget, n - 1, n - 1);
        lemma_max_start_fits(h, budget, n - 1, n - 1);
        let base = if current < max_start { current as int } else { max_start };
        let e = earliest_from(h, budget, c, c, c);
        lemma_earliest_bounds(h, budget, c, c, c);
        lemma_earliest_fits(h, budget, c, c, c);
        let scroll = if c < base { c } else if base < e { e } else { base };
        if scroll >= max_start && max_start < c {
            lemma_tail_is_span(h, max_start);
            lemma_span_shorter_end(h, max_start, c + 1, n);
        }
        if scroll < max_start && !(c < base) && !(base < e) && base != c {
            lemma_span_shorter_start(h, e, base, c + 1);
        }
    }
}

/// Where the visible window should start.
///
/// Keeps the previous position unless the cursor has moved out of view, so
/// the list stays still while the reader is looking at it and only slides
/// when it has to. `heights` is each row's height in lines; `budget` is how
/// many lines the window has.
pub fn scroll_for(current: usize, cursor: Option<usize>, heights: &[usize], budget: usize) -> (r: usize)
    ensures
        r == scroll_spec(current as nat, cursor, heights@, budget as nat),
{
    let n = heights.len();
    // Total, saturating: anything past the budget is "too much".
    let mut total: usize = 0;
    let mut i: usize = 0;
    let mut over = false;
    while i < n
        invariant
            n == heights@.len(),
            i <= n,
            !over ==> total == span(heights@, 0, i as int),
            over ==> span(heights@, 0, i as int) > budget,
            total <= budget,
        decreases n - i,
    {
        if !over {
            if heights[i] > budget - total {
                over = true;
            } else {
                total = total + heights[i];
            }
        }
        i = i + 1;
    }
    if !over || n == 0 {
        return 0;
    }
    // The last start that still fills the window.
    let mut max_start: usize = n - 1;
    let mut tail: usize = 0;
    let mut index: usize = n;
    proof {
        lemma_tail_is_span(heights@, n as int);
    }
    while index > 0
        invariant
            n == heights@.len(),
            n > 0,
            index <= n,
            tail == tail_from(heights@, index as int),
            tail <= budget,
            max_start < n,
            max_start_from(heights@, budget as nat, index - 1, max_start as int) == max_start_from(
                heights@,
                budget as nat,
                n - 1,
                n - 1,
            ),
        ensures
            max_start as int == max_start_from(heights@, budget as nat, n - 1, n - 1),
            max_start < n,
        decreases index,
    {
        let h = heights[index - 1];
        proof {
            assert(tail_from(heights@, index - 1) == h as nat + tail_from(heights@, index as int));
        }
        if h > budget - tail {
            proof {
                assert(max_start_from(heights@, budget as nat, index - 1, max_start as int)
                    == max_start as int);
            }
            break;
        }
        tail = tail + h;
        max_start = index - 1;
        index = index - 1;
    }
    let base = if current < max_start {
        current
    } else {
        max_start
    };
    let mut scroll = base;
    match cursor {
        Some(c) => {
            let c = if c < n - 1 {
                c
            } else {
                n - 1
            };
            if c < scroll {
                scroll = c;
            } else {
                let mut used: usize = 0;
                let mut earliest: usize = c;
                let mut j: usize = c + 1;
                while j > 0
                    invariant
                        n == heights@.len(),
                        c < n,
                        j <= c + 1,
                        used == span(heights@, j as int, c + 1),
                        used <= budget,
                        earliest <= c,
                        earliest_from(heights@, budget as nat, c as int, j - 1, earliest as int)
                            == earliest_from(heights@, budget as nat, c as int, c as int, c as int),
                    ensures
                        earliest as int == earliest_from(heights@, budget as nat, c as int, c as int, c as int),
                        earliest <= c,
                    decreases j,
                {
                    let h = heights[j - 1];
                    proof {
                        lemma_span_step(heights@, j - 1, c + 1);
                    }
                    if h > budget - used {
                        proof {
                            assert(earliest_from(heights@, budget as nat, c as int, j - 1, earliest as int)
                                == earliest as int);
                        }
                        break;
                    }
                    used = used + h;
                    earliest = j - 1;
                    j = j - 1;
                }
                if scroll < earliest {
                    scroll = earliest;
                }
            }
        },
        None => {},
    }
    if scroll < max_start {
        scroll
    } else {
        max_start
    }
}

/// The column every row's secondary text starts at: the widest name among
/// item rows with a description, or 0 when that would take more than a
/// third of the width.
pub open spec fn widest_from(rows: Seq<Row>, i: int) -> nat
    decreases rows.len() - i,
{
    if i < 0 || i >= rows.len() {
        0
    } else {
        let rest = widest_from(rows, i + 1);
        if rows[i].kind == RowKind::Item && rows[i].secondary is Some {
            let w = columns_of(rows[i].primary@);
            if w > rest {
                w
            } else {
                rest
            }
        } else {
            rest
        }
    }
}

pub open spec fn secondary_column_spec(rows: Seq<Row>, width: nat) -> nat {
    let widest = widest_from(rows, 0);
    if widest > width / 3 {
        0
    } else {
        widest
    }
}

proof fn lemma_widest_bound(rows: Seq<Row>, i: int)
    ensures
        widest_from(rows, i) <= usize::MAX,
    decreases rows.len() - i,
{
    if 0 <= i < rows.len() {
        lemma_widest_bound(rows, i + 1);
    }
}

/// The column every row's secondary text starts at.
///
/// Alignment is abandoned when the longest name takes more than a third of
/// the width, which would open a gutter wider than the text beside it.
pub fn secondary_column(rows: &[Row], width: usize) -> (r: usize)
    ensures
        r == secondary_column_spec(rows@, width as nat),
{
    let mut widest: usize = 0;
    let mut i: usize = rows.len();
    while i > 0
        invariant
            i <= rows@.len(),
            widest == widest_from(rows@, i as int),
        decreases i,
    {
        let row = &rows[i - 1];
        if row.kind == RowKind::Item && row.secondary.is_some() {
            let w = columns(row.primary.as_str());
            if w > widest {
                widest = w;
            }
        }
        i = i - 1;
    }
    if widest > width / 3 {
        0
    } else {
        widest
    }
}

/// Box-drawing characters that bound a pane in a diagram.
pub open spec fn wall_char(ch: char) -> bool {
    ch == '│' || ch == '─' || ch == '┌' || ch == '┐' || ch == '└' || ch == '┘' || ch == '├'
        || ch == '┤' || ch == '┬' || ch == '┴' || ch == '┼' || ch == '╎' || ch == '╌'
}

pub fn is_wall(ch: char) -> (r: bool)
    ensures
        r == wall_char(ch),
{
    ch == '│' || ch == '─' || ch == '┌' || ch == '┐' || ch == '└' || ch == '┘' || ch == '├'
        || ch == '┤' || ch == '┬' || ch == '┴' || ch == '┼' || ch == '╎' || ch == '╌'
}

// ---------------------------------------------------------------------------
// Frames
// ---------------------------------------------------------------------------

pub open spec fn repeat(c: char, n: nat) -> Seq<char> {
    Seq::new(n, |i: int| c)
}

fn push_repeat(s: &mut String, c: char, n: usize)
    ensures
        final(s)@ == old(s)@ + repeat(c, n as nat),
{
    let mut i: usize = 0;
    while i < n
        invariant
            i <= n,
            s@ == old(s)@ + repeat(c, i as nat),
        decreases n - i,
    {
        push_char(s, c);
        proof {
            assert(old(s)@ + repeat(c, (i + 1) as nat) =~= (old(s)@ + repeat(c, i as nat)).push(c));
        }
        i = i + 1;
    }
}

/// `text` padded with spaces to `width` display columns.
pub fn pad(text: &str, width: usize) -> (r: String)
    ensures
        r@ == text@ + repeat(' ', if columns_of(text@) < width { (width - columns_of(text@)) as nat } else { 0 }),
{
    let used = columns(text);
    let mut out = crate::text::owned(text);
    let fill = if used < width {
        width - used
    } else {
        0
    };
    push_repeat(&mut out, ' ', fill);
    out
}

/// Outline of a box `cells_w` by `cells_h` cells (at least two each): a top
/// bar, walls, a bottom bar.
pub open spec fn outline_spec(cells_w: nat, cells_h: nat, horizontal: char, vertical: char) -> Seq<
    Seq<char>,
> {
    let width = 2 * (if cells_w < 2 { 2 } else { cells_w }) + 1;
    let height = 2 * (if cells_h < 2 { 2 } else { cells_h }) + 1;
    let bar = repeat(horizontal, (width - 2) as nat);
    let middle = seq![vertical] + repeat(' ', (width - 2) as nat) + seq![vertical];
    seq![seq!['┌'] + bar + seq!['┐']] + Seq::new((height - 2) as nat, |i: int| middle) + seq![
        seq!['└'] + bar + seq!['┘'],
    ]
}

pub open spec fn line_views(v: Seq<String>) -> Seq<Seq<char>> {
    v.map_values(|s: String| s@)
}

/// An empty box drawn with the given edges.
pub fn outline(cells_w: usize, cells_h: usize, horizontal: char, vertical: char) -> (r: Vec<String>)
    requires
        cells_w < usize::MAX / 2,
        cells_h < usize::MAX / 2,
    ensures
        line_views(r@) == outline_spec(cells_w as nat, cells_h as nat, horizontal, vertical),
{
    let cw = if cells_w < 2 {
        2
    } else {
        cells_w
    };
    let ch = if cells_h < 2 {
        2
    } else {
        cells_h
    };
    let width = 2 * cw + 1;
    let height = 2 * ch + 1;
    let ghost bar = repeat(horizontal, (width - 2) as nat);
    let ghost middle = seq![vertical] + repeat(' ', (width - 2) as nat) + seq![vertical];
    let mut out: Vec<String> = Vec::new();
    let mut top = String::new();
    push_char(&mut top, '┌');
    push_repeat(&mut top, horizontal, width - 2);
    push_char(&mut top, '┐');
    proof {
        assert(top@ =~= seq!['┌'] + bar + seq!['┐']);
    }
    out.push(top);
    proof {
        assert(line_views(out@) =~= seq![seq!['┌'] + bar + seq!['┐']] + Seq::new(
            0,
            |k: int| middle,
        ));
    }
    let mut i: usize = 1;
    while i < height - 1
        invariant
            cw >= 2,
            bar == repeat(horizontal, (width - 2) as nat),
            width == 2 * cw + 1,
            height == 2 * ch + 1,
            ch >= 2,
            1 <= i <= height - 1,
            middle == seq![vertical] + repeat(' ', (width - 2) as nat) + seq![vertical],
            line_views(out@) == seq![seq!['┌'] + bar + seq!['┐']] + Seq::new(
                (i - 1) as nat,
                |k: int| middle,
            ),
        decreases height - 1 - i,
    {
        let mut line = String::new();
        push_char(&mut line, vertical);
        push_repeat(&mut line, ' ', width - 2);
        push_char(&mut line, vertical);
        proof {
            assert(line@ =~= middle);
        }
        let ghost before = out@;
        out.push(line);
        proof {
            assert(line_views(out@) =~= line_views(before).push(middle));
            assert(seq![seq!['┌'] + bar + seq!['┐']] + Seq::new(i as nat, |k: int| middle) =~= (seq![
                seq!['┌'] + bar + seq!['┐'],
            ] + Seq::new((i - 1) as nat, |k: int| middle)).push(middle));
        }
        i = i + 1;
    }
    let mut bottom = String::new();
    push_char(&mut bottom, '└');
    push_repeat(&mut bottom, horizontal, width - 2);
    push_char(&mut bottom, '┘');
    proof {
        assert(bottom@ =~= seq!['└'] + bar + seq!['┘']);
    }
    let ghost before = out@;
    out.push(bottom);
    proof {
        assert(line_views(out@) =~= line_views(before).push(seq!['└'] + bar + seq!['┘']));
        assert(line_views(out@) =~= outline_spec(cells_w as nat, cells_h as nat, horizontal, vertical));
    }
    out
}

/// A dashed outline, for a tab that will not be there afterwards.
pub fn empty_box(cells_w: usize, cells_h: usize) -> (r: Vec<String>)
    requires
        cells_w < usize::MAX / 2,
        cells_h < usize::MAX / 2,
    ensures
        line_views(r@) == outline_spec(cells_w as nat, cells_h as nat, '╌', '╎'),
{
    outline(cells_w, cells_h, '╌', '╎')
}

/// A solid outline with nothing in it, for a tab that stays but cannot be
/// drawn.
pub fn blank_box(cells_w: usize, cells_h: usize) -> (r: Vec<String>)
    requires
        cells_w < usize::MAX / 2,
        cells_h < usize::MAX / 2,
    ensures
        line_views(r@) == outline_spec(cells_w as nat, cells_h as nat, '─', '│'),
{
    outline(cells_w, cells_h, '─', '│')
}

/// A border with `name` written over its dashes, three cells in from the
/// corner; the name is cut to the dashes available so every line keeps its
/// width.
pub open spec fn titled(border: Seq<char>, name: Seq<char>) -> Seq<char> {
    let room: int = if border.len() >= 5 { border.len() - 5 } else { 0 };
    if room < 3 {
        border
    } else {
        let t = truncated(name, room as nat);
        let n = cols(t);
        if n == 0 {
            border
        } else {
            border.take(3) + t + border.skip(3 + n as int)
        }
    }
}

/// Overwrite a border's dashes with the name, three cells in from the
/// corner.
pub fn write_title(border: &str, name: &str) -> (r: String)
    ensures
        r@ == titled(border@, name@),
{
    let cells = chars_of(border);
    let room: usize = if cells.len() >= 5 {
        cells.len() - 5
    } else {
        0
    };
    if room < 3 {
        return string_of(&cells);
    }
    let text = truncate(name, room);
    proof {
        lemma_truncate_fits(name@, room as nat);
    }
    let n = columns(text.as_str());
    if n == 0 {
        return string_of(&cells);
    }
    let mut out = string_of_range(&cells, 0, 3);
    out.append(text.as_str());
    let rest = string_of_range(&cells, 3 + n, cells.len());
    out.append(rest.as_str());
    proof {
        assert(cells@.subrange(0, 3) =~= cells@.take(3));
        assert(cells@.subrange((3 + n) as int, cells@.len() as int) =~= cells@.skip(3 + n));
    }
    out
}

/// Write a panel's name into its own top border.
pub fn title(lines: Vec<String>, caption: &str) -> (r: Vec<String>)
    ensures
        caption@.len() == 0 || lines@.len() == 0 ==> r@ == lines@,
        caption@.len() > 0 && lines@.len() > 0 ==> r@.len() == lines@.len() && r@[0]@ == titled(
            lines@[0]@,
            caption@,
        ) && forall|i: int| 1 <= i < lines@.len() ==> r@[i] == lines@[i],
{
    if chars_of(caption).len() == 0 || lines.len() == 0 {
        return lines;
    }
    let mut lines = lines;
    let top = write_title(lines[0].as_str(), caption);
    lines.set(0, top);
    lines
}

/// The widest of `lines`, in display columns; `None` for no lines.
pub open spec fn widest_line(lines: Seq<String>, i: int) -> nat
    decreases lines.len() - i,
{
    if i < 0 || i >= lines.len() {
        0
    } else {
        let rest = widest_line(lines, i + 1);
        let w = columns_of(lines[i]@);
        if w > rest {
            w
        } else {
            rest
        }
    }
}

/// The left edge of the sheet behind, beside row `row` of `len` rows.
pub open spec fn back_edge(row: int, len: int) -> char {
    if row == len - 1 {
        ' '
    } else if row + 1 == len - 1 {
        '└'
    } else {
        '│'
    }
}

/// A second sheet behind a diagram, offset up and to the left; diagrams
/// under three lines or columns are left alone.
pub open spec fn stacked_spec(front: Seq<Seq<char>>, behind: Option<Seq<char>>, width: nat) -> Seq<
    Seq<char>,
> {
    if front.len() == 0 || front.len() < 3 || width < 3 {
        front
    } else {
        let back = seq!['┌'] + repeat('─', (width - 2) as nat) + seq!['┐'];
        let first = match behind {
            Some(name) => titled(back, name),
            None => back,
        };
        seq![first] + Seq::new(front.len(), |r: int| seq![back_edge(r, front.len() as int)] + front[r])
    }
}

/// Put a second sheet behind a diagram, offset up and to the left.
pub fn stack(front: Vec<String>, behind: Option<&str>) -> (r: Vec<String>)
    ensures
        line_views(r@) == stacked_spec(
            line_views(front@),
            match behind {
                Some(b) => Some(b@),
                None => None,
            },
            widest_line(front@, 0),
        ),
{
    let mut width: usize = 0;
    let mut i: usize = front.len();
    while i > 0
        invariant
            i <= front@.len(),
            width == widest_line(front@, i as int),
        decreases i,
    {
        let w = columns(front[i - 1].as_str());
        if w > width {
            width = w;
        }
        i = i - 1;
    }
    if front.len() == 0 || front.len() < 3 || width < 3 {
        return front;
    }
    let mut back = String::new();
    push_char(&mut back, '┌');
    push_repeat(&mut back, '─', width - 2);
    push_char(&mut back, '┐');
    proof {
        assert(back@ =~= seq!['┌'] + repeat('─', (width - 2) as nat) + seq!['┐']);
    }
    let first = match behind {
        Some(name) => write_title(back.as_str(), name),
        None => back,
    };
    let ghost fv = line_views(front@);
    let ghost spec_lines = stacked_spec(
        fv,
        match behind {
            Some(b) => Some(b@),
            None => None,
        },
        width as nat,
    );
    let ghost rest = Seq::new(
        front@.len(),
        |r: int| seq![back_edge(r, front@.len() as int)] + fv[r],
    );
    proof {
        assert(spec_lines =~= seq![spec_lines[0]] + rest);
    }
    let mut out: Vec<String> = Vec::new();
    out.push(first);
    proof {
        assert(line_views(out@)[0] == spec_lines[0]);
    }
    let last = front.len() - 1;
    let mut row: usize = 0;
    while row < front.len()
        invariant
            last == front@.len() - 1,
            front@.len() >= 3,
            width >= 3,
            row <= front@.len(),
            fv == line_views(front@),
            out@.len() == row + 1,
            spec_lines.len() == front@.len() + 1,
            spec_lines =~= seq![spec_lines[0]] + rest,
            rest == Seq::new(
                front@.len(),
                |r: int| seq![back_edge(r, front@.len() as int)] + fv[r],
            ),
            forall|k: int| 0 <= k <= row ==> #[trigger] line_views(out@)[k] == spec_lines[k],
        decreases front@.len() - row,
    {
        let edge = if row == last {
            ' '
        } else if row + 1 == last {
            '└'
        } else {
            '│'
        };
        let mut line = String::new();
        push_char(&mut line, edge);
        line.append(front[row].as_str());
        let ghost before = out@;
        proof {
            assert(edge == back_edge(row as int, front@.len() as int));
            assert(line@ =~= seq![back_edge(row as int, front@.len() as int)] + fv[row as int]);
            assert(spec_lines[row + 1] == rest[row as int]);
        }
        out.push(line);
        proof {
            assert forall|k: int| 0 <= k <= row + 1 implies #[trigger] line_views(out@)[k]
                == spec_lines[k] by {
                if k <= row {
                    assert(line_views(out@)[k] == line_views(before)[k]);
                }
            }
        }
        row = row + 1;
    }
    proof {
        assert(line_views(out@) =~= spec_lines);
    }
    out
}

/// Write one short string in the middle of a drawn box.
pub open spec fn centred(line: Seq<char>, text: Seq<char>) -> Seq<char> {
    let width = columns_of(line);
    let tw = columns_of(text);
    let start: int = if width >= tw { (width - tw) / 2 } else { 0 };
    if start < line.len() {
        let resume: int = if text.len() > 0 { start + text.len() } else { start + 1 };
        let resume: int = if resume < line.len() { resume } else { line.len() as int };
        line.take(start) + text + line.skip(resume)
    } else {
        line
    }
}

/// Write one short string in the middle row of a drawn box.
pub fn centre(lines: Vec<String>, text: &str) -> (r: Vec<String>)
    ensures
        r@.len() == lines@.len(),
        lines@.len() > 0 ==> r@[(lines@.len() / 2) as int]@ == centred(
            lines@[(lines@.len() / 2) as int]@,
            text@,
        ),
        forall|i: int| 0 <= i < lines@.len() && i != lines@.len() / 2 ==> r@[i] == lines@[i],
{
    if lines.len() == 0 {
        return lines;
    }
    let row = lines.len() / 2;
    let cs = chars_of(lines[row].as_str());
    let tc = chars_of(text);
    let width = columns(lines[row].as_str());
    let tw = columns(text);
    let start = if width >= tw {
        (width - tw) / 2
    } else {
        0
    };
    let line = if start < cs.len() {
        let resume = if tc.len() > 0 {
            if tc.len() <= cs.len() - start {
                start + tc.len()
            } else {
                cs.len()
            }
        } else {
            start + 1
        };
        let mut out = string_of_range(&cs, 0, start);
        out.append(text);
        let rest = string_of_range(&cs, resume, cs.len());
        out.append(rest.as_str());
        proof {
            assert(cs@.subrange(0, start as int) =~= cs@.take(start as int));
            assert(cs@.subrange(resume as int, cs@.len() as int) =~= cs@.skip(resume as int));
        }
        out
    } else {
        string_of(&cs)
    };
    let mut lines = lines;
    lines.set(row, line);
    lines
}


// ---------------------------------------------------------------------------
// Laying out a screen
// ---------------------------------------------------------------------------

/// Lines the preview keeps for itself, so a long list cannot squeeze it away.
pub const PREVIEW_MIN: usize = 6;

/// Lines a list row takes: two when it carries a detail line.
pub open spec fn row_height(r: Row) -> usize {
    if r.detail is Some { 2 } else { 1 }
}

pub open spec fn heights_of(rows: Seq<Row>) -> Seq<usize> {
    rows.map_values(|r: Row| row_height(r))
}

/// Each row's height in lines.
pub fn row_heights(rows: &[Row]) -> (r: Vec<usize>)
    ensures
        r@ == heights_of(rows@),
{
    let mut out: Vec<usize> = Vec::new();
    let mut i: usize = 0;
    while i < rows.len()
        invariant
            i <= rows@.len(),
            out@ == heights_of(rows@).take(i as int),
        decreases rows@.len() - i,
    {
        out.push(if rows[i].detail.is_some() { 2 } else { 1 });
        proof {
            assert(out@ =~= heights_of(rows@).take(i + 1));
        }
        i = i + 1;
    }
    proof {
        assert(heights_of(rows@).take(rows@.len() as int) =~= heights_of(rows@));
    }
    out
}

/// Lines left for the list once the header lines above it, the footer and,
/// when kept, the preview's floor are taken out.
pub open spec fn list_room(height: nat, line: nat, reserve_preview: bool) -> nat {
    let below = if height > line + 1 { (height - line - 1) as nat } else { 0 };
    let reserved: nat = if reserve_preview { (PREVIEW_MIN + 1) as nat } else { 0 };
    if below > reserved { (below - reserved) as nat } else { 0 }
}

pub fn available_lines(height: u16, line: u16, reserve_preview: bool) -> (r: usize)
    ensures
        r == list_room(height as nat, line as nat, reserve_preview),
{
    let below: usize = if height > line { (height - line - 1) as usize } else { 0 };
    let reserved: usize = if reserve_preview { PREVIEW_MIN + 1 } else { 0 };
    if below > reserved { below - reserved } else { 0 }
}

/// How many rows from `i` fit in what is left of `budget` after `used`.
pub open spec fn shown_from(h: Seq<usize>, i: int, used: nat, budget: nat) -> nat
    decreases h.len() - i,
{
    if i < 0 || i >= h.len() || used + h[i] > budget {
        0
    } else {
        1 + shown_from(h, i + 1, (used + h[i]) as nat, budget)
    }
}

/// Which rows of a list are drawn.
#[derive(Debug, Clone, Copy, PartialEq, Eq, Structural)]
pub struct Window {
    /// Index of the first row drawn.
    pub scroll: usize,
    /// How many rows are drawn from there.
    pub shown: usize,
    /// Lines the rows may use.
    pub budget: usize,
    /// Whether the list is longer than the room, so a line goes to saying so.
    pub overflowing: bool,
}

pub open spec fn window_of(h: Seq<usize>, cursor: Option<usize>, available: nat, scroll: nat) -> Window {
    let overflowing = span(h, 0, h.len() as int) > available;
    let budget: nat = if overflowing { if available > 0 { (available - 1) as nat } else { 0 } } else { available };
    let start = scroll_spec(scroll, cursor, h, budget);
    Window {
        scroll: start as usize,
        shown: shown_from(h, start, 0, budget) as usize,
        budget: budget as usize,
        overflowing,
    }
}

/// The rows to draw in `available` lines, keeping the previous `scroll`
/// unless the cursor would leave the window. When the list overflows, one
/// line goes to the marker saying how many rows are hidden.
pub fn list_window(rows: &[Row], cursor: Option<usize>, available: usize, scroll: usize) -> (r: Window)
    ensures
        r == window_of(heights_of(rows@), cursor, available as nat, scroll as nat),
        r.scroll + r.shown <= rows@.len(),
{
    let h = row_heights(rows);
    let n = h.len();
    assert forall|k: int| 0 <= k < h@.len() implies h@[k] <= 2 by {
        assert(h@[k] == row_height(rows@[k]));
    }
    let mut total: usize = 0;
    let mut i: usize = 0;
    let mut over = false;
    while i < n
        invariant
            n == h@.len(),
            i <= n,
            over ==> span(h@, 0, n as int) > available,
            !over ==> total == span(h@, 0, i as int) && total <= available,
            forall|k: int| 0 <= k < h@.len() ==> h@[k] <= 2,
        decreases n - i,
    {
        if !over {
            if h[i] > available - total {
                over = true;
                proof {
                    lemma_span_grows(h@, i + 1, n as int);
                }
            } else {
                total = total + h[i];
            }
        }
        i = i + 1;
    }
    let budget = if over { if available > 0 { available - 1 } else { 0 } } else { available };
    let start = scroll_for(scroll, cursor, h.as_slice(), budget);
    proof {
        lemma_scroll_in_range(scroll as nat, cursor, h@, budget as nat);
    }
    let mut shown: usize = 0;
    let mut used: usize = 0;
    let mut k: usize = start;
    while k < n && h[k] <= budget - used
        invariant
            n == h@.len(),
            start <= k <= n,
            shown == k - start,
            used <= budget,
            shown_from(h@, start as int, 0, budget as nat) == shown + shown_from(h@, k as int, used as nat, budget as nat),
            forall|m: int| 0 <= m < h@.len() ==> h@[m] <= 2,
        decreases n - k,
    {
        used = used + h[k];
        shown = shown + 1;
        k = k + 1;
    }
    Window { scroll: start, shown, budget, overflowing: over }
}

proof fn lemma_span_grows(h: Seq<usize>, i: int, n: int)
    requires
        0 <= i <= n <= h.len(),
    ensures
        span(h, 0, i) <= span(h, 0, n),
    decreases n - i,
{
    if i < n {
        lemma_span_grows(h, i, n - 1);
    }
}

/// A scroll position is always a row of the list (or zero for an empty one).
proof fn lemma_scroll_in_range(current: nat, cursor: Option<usize>, h: Seq<usize>, budget: nat)
    ensures
        0 <= scroll_spec(current, cursor, h, budget),
        h.len() > 0 ==> scroll_spec(current, cursor, h, budget) < h.len(),
        h.len() == 0 ==> scroll_spec(current, cursor, h, budget) == 0,
{
    if !(span(h, 0, h.len() as int) <= budget || h.len() == 0) {
        lemma_max_start_range(h, budget, h.len() - 1, h.len() - 1);
        match cursor {
            Some(c) => {
                let c2 = if c < h.len() - 1 { c as int } else { h.len() - 1 };
                lemma_earliest_range(h, budget, c2, c2, c2);
            },
            None => {},
        }
    }
}

proof fn lemma_max_start_range(h: Seq<usize>, budget: nat, index: int, best: int)
    requires
        -1 <= index < h.len(),
        0 <= best < h.len(),
    ensures
        0 <= max_start_from(h, budget, index, best) < h.len(),
    decreases index + 1,
{
    if index >= 0 && tail_from(h, index) <= budget {
        lemma_max_start_range(h, budget, index - 1, index);
    }
}

proof fn lemma_earliest_range(h: Seq<usize>, budget: nat, cursor: int, index: int, best: int)
    requires
        -1 <= index < h.len(),
        0 <= best < h.len(),
    ensures
        0 <= earliest_from(h, budget, cursor, index, best) < h.len(),
    decreases index + 1,
{
    if index >= 0 && span(h, index, cursor + 1) <= budget {
        lemma_earliest_range(h, budget, cursor, index - 1, index);
    }
}

/// The line saying how much of the list is out of view.
pub open spec fn marker_of(above: nat, below: nat) -> Seq<char> {
    if above == 0 && below == 0 {
        seq![]
    } else if above == 0 {
        "  ↓ "@ + crate::text::decimal(below) + " more"@
    } else if below == 0 {
        "  ↑ "@ + crate::text::decimal(above) + " more"@
    } else {
        "  ↑ "@ + crate::text::decimal(above) + "   ↓ "@ + crate::text::decimal(below)
    }
}

/// The marker for a window over `total` rows.
pub fn overflow_marker(window: Window, total: usize) -> (r: String)
    requires
        window.scroll + window.shown <= total,
    ensures
        r@ == marker_of(window.scroll as nat, (total - window.scroll - window.shown) as nat),
{
    let above = window.scroll;
    let below = total - window.scroll - window.shown;
    let mut out = String::new();
    if above == 0 && below == 0 {
        return out;
    }
    if above == 0 {
        crate::text::push_str(&mut out, "  ↓ ");
        crate::text::push_decimal(&mut out, below);
        crate::text::push_str(&mut out, " more");
    } else if below == 0 {
        crate::text::push_str(&mut out, "  ↑ ");
        crate::text::push_decimal(&mut out, above);
        crate::text::push_str(&mut out, " more");
    } else {
        crate::text::push_str(&mut out, "  ↑ ");
        crate::text::push_decimal(&mut out, above);
        crate::text::push_str(&mut out, "   ↓ ");
        crate::text::push_decimal(&mut out, below);
    }
    out
}

pub open spec fn sat_sub(a: nat, b: nat) -> nat {
    if a > b { (a - b) as nat } else { 0 }
}

pub open spec fn sat_add(a: nat, b: nat) -> nat {
    if a + b <= usize::MAX { a + b } else { usize::MAX as nat }
}

/// An item's text before it is fitted: the name, then, when there is a
/// description, padding to the shared column and the description.
pub open spec fn item_text(r: Row, align: nat) -> Seq<char> {
    match r.secondary {
        Some(s) => r.primary@ + repeat(' ', sat_sub(align, columns_of(r.primary@))) + "  "@ + s@,
        None => r.primary@,
    }
}

/// Columns an item's text may use: the width less the cursor column, the
/// hotkey field, the glyph when there is one, and one spare column.
pub open spec fn item_room(r: Row, width: nat) -> nat {
    sat_sub(width, 2 + 3 + (if r.glyph is Some { 2nat } else { 0nat }) + 1)
}

/// Columns kept for the trailing value and the gap before it.
pub open spec fn trailing_room(r: Row) -> nat {
    match r.trailing {
        Some(t) => sat_add(columns_of(t@), 2),
        None => 0,
    }
}

/// The text an item line shows, and the spaces before its trailing value.
/// The trailing value's room is reserved before the body is cut, so a long
/// body never pushes it off the line.
pub open spec fn item_body_of(r: Row, width: nat, align: nat) -> (Seq<char>, nat) {
    let room = item_room(r, width);
    let body = truncated(item_text(r, align), sat_sub(room, trailing_room(r)));
    let trailing: nat = match r.trailing { Some(t) => columns_of(t@), None => 0 };
    (body, sat_sub(room, sat_add(columns_of(body), trailing)))
}

/// Fit an item row into a line of `width` columns, descriptions aligned at
/// `align`.
pub fn item_body(row: &Row, width: usize, align: usize) -> (r: (String, usize))
    ensures
        (r.0@, r.1 as nat) == item_body_of(*row, width as nat, align as nat),
{
    let mut text = row.primary.clone();
    match &row.secondary {
        Some(secondary) => {
            let used = columns(text.as_str());
            let fill = if align > used { align - used } else { 0 };
            push_repeat(&mut text, ' ', fill);
            crate::text::push_str(&mut text, "  ");
            crate::text::push_str(&mut text, secondary.as_str());
        },
        None => {},
    }
    let glyph: usize = if row.glyph.is_some() { 2 } else { 0 };
    let used: usize = 2 + 3 + glyph + 1;
    let room = if width > used { width - used } else { 0 };
    let reserved = match &row.trailing {
        Some(t) => columns(t.as_str()).saturating_add(2),
        None => 0,
    };
    let body = truncate(text.as_str(), if room > reserved { room - reserved } else { 0 });
    let trailing = match &row.trailing {
        Some(t) => columns(t.as_str()),
        None => 0,
    };
    let taken = columns(body.as_str()).saturating_add(trailing);
    let pad = if room > taken { room - taken } else { 0 };
    (body, pad)
}

/// The hotkey column: the key padded to two characters, then a space, or
/// three spaces when the row has none.
pub open spec fn hotkey_field_of(hotkey: Option<String>) -> Seq<char> {
    match hotkey {
        Some(h) => h@ + repeat(' ', sat_sub(2, h@.len())) + " "@,
        None => "   "@,
    }
}

pub fn hotkey_field(hotkey: &Option<String>) -> (r: String)
    ensures
        r@ == hotkey_field_of(*hotkey),
{
    match hotkey {
        Some(h) => {
            let mut out = h.clone();
            let n = crate::text::chars_of(h.as_str()).len();
            push_repeat(&mut out, ' ', if n < 2 { 2 - n } else { 0 });
            crate::text::push_str(&mut out, " ");
            out
        },
        None => crate::text::owned("   "),
    }
}

/// How many chips of a tab strip fit: each takes its label and a space
/// either side, and the strip stops at the first that would run past the
/// width.
pub open spec fn chips_from(tabs: Seq<Chip>, width: nat, i: int, column: nat) -> nat
    decreases tabs.len() - i,
{
    if i < 0 || i >= tabs.len() || column + tabs[i].label@.len() + 2 > width {
        0
    } else {
        1 + chips_from(tabs, width, i + 1, column + tabs[i].label@.len() + 2)
    }
}

pub fn chips_fitting(tabs: &[Chip], width: usize) -> (r: usize)
    ensures
        r == chips_from(tabs@, width as nat, 0, 0),
{
    let mut column: usize = 0;
    let mut i: usize = 0;
    while i < tabs.len()
        invariant
            i <= tabs@.len(),
            column <= width,
            chips_from(tabs@, width as nat, 0, 0) == i + chips_from(tabs@, width as nat, i as int, column as nat),
        decreases tabs@.len() - i,
    {
        let len = crate::text::chars_of(tabs[i].label.as_str()).len();
        if len > width || column > width - len || width - len - column < 2 {
            return i;
        }
        column = column + len + 2;
        i = i + 1;
    }
    i
}

/// The row a click on screen line `line` lands on: the last drawn row whose
/// first line is at or above it, so a click on a detail line counts for its
/// row. `row_lines` pairs each drawn row's first line with its index.
pub open spec fn clicked_from(row_lines: Seq<(u16, usize)>, line: u16, i: int) -> Option<usize>
    decreases i + 1,
{
    if i < 0 || i >= row_lines.len() {
        None
    } else if row_lines[i].0 <= line {
        Some(row_lines[i].1)
    } else {
        clicked_from(row_lines, line, i - 1)
    }
}

pub fn clicked_row(row_lines: &[(u16, usize)], line: u16) -> (r: Option<usize>)
    ensures
        r == clicked_from(row_lines@, line, row_lines@.len() - 1),
{
    let mut i: usize = row_lines.len();
    while i > 0
        invariant
            i <= row_lines@.len(),
            clicked_from(row_lines@, line, row_lines@.len() - 1) == clicked_from(row_lines@, line, i - 1),
        decreases i,
    {
        if row_lines[i - 1].0 <= line {
            return Some(row_lines[i - 1].1);
        }
        i = i - 1;
    }
    None
}

/// The fill character of a highlighted pane.
pub const HIGHLIGHT: char = '░';

/// Which characters of a preview line belong to a filled pane: from a fill
/// character up to the next wall, so a name written inside a filled pane
/// takes the fill's colour while one next door stays dim.
pub open spec fn in_fill(line: Seq<char>) -> Seq<bool>
    decreases line.len(),
{
    if line.len() == 0 {
        seq![]
    } else {
        let before = in_fill(line.drop_last());
        let prev = if before.len() > 0 { before.last() } else { false };
        let c = line.last();
        before.push(if wall_char(c) { false } else if c == HIGHLIGHT { true } else { prev })
    }
}

pub fn fill_mask(line: &str) -> (r: Vec<bool>)
    ensures
        r@ == in_fill(line@),
{
    let cs = crate::text::chars_of(line);
    let mut out: Vec<bool> = Vec::new();
    let mut state = false;
    let mut i: usize = 0;
    while i < cs.len()
        invariant
            cs@ == line@,
            i <= cs@.len(),
            out@ == in_fill(line@.take(i as int)),
            out@.len() == i,
            state == if i > 0 { out@.last() } else { false },
        decreases cs@.len() - i,
    {
        let c = cs[i];
        if is_wall(c) {
            state = false;
        } else if c == HIGHLIGHT {
            state = true;
        }
        out.push(state);
        proof {
            assert(line@.take(i + 1).drop_last() =~= line@.take(i as int));
            assert(line@.take(i + 1).last() == c);
        }
        i = i + 1;
    }
    proof {
        assert(line@.take(line@.len() as int) =~= line@);
    }
    out
}

/// The arrow between two diagrams.
pub const ARROW: &'static str = "  →  ";

/// The sizes a preview is drawn at.
#[derive(Debug, Clone, Copy, PartialEq, Eq, Structural)]
pub struct Geometry {
    /// Whether sheets marked as stacked get their sheet behind.
    pub stacked: bool,
    /// How many legend lines fit.
    pub legend: usize,
    /// Cells across and down each diagram.
    pub cells_w: usize,
    pub cells_h: usize,
}

/// The smallest box a diagram is drawn as: two cells each way.
pub const SMALLEST_CELLS: usize = 2;
pub const SMALLEST_BOX: usize = 5;

pub open spec fn geometry_of(any_stacked: bool, legend_len: nat, panels: nat, room: nat, width: nat) -> Geometry {
    let stacked = any_stacked && room > SMALLEST_BOX;
    let reserved: nat = if stacked { 1 } else { 0 };
    let spare = sat_sub(sat_sub(room, reserved), SMALLEST_BOX as nat);
    let legend = if legend_len < spare { legend_len } else { spare };
    let left = sat_sub(sat_sub(room, reserved), legend);
    let half = sat_sub(left, 1) / 2;
    let cells_h: nat = if half > SMALLEST_CELLS { half } else { SMALLEST_CELLS as nat };
    let rows = 2 * cells_h + 1;
    let count: nat = if panels > 1 { panels } else { 1 };
    let budget = sat_sub(sat_sub(width, 4), ((count - 1) * 5) as nat);
    let across = if rows * 32 / 9 < budget / count { rows * 32 / 9 } else { budget / count };
    Geometry {
        stacked,
        legend: legend as usize,
        cells_w: (sat_sub(across, 1) / 2) as usize,
        cells_h: cells_h as usize,
    }
}

/// How big the diagrams of a preview are drawn in `room` lines and `width`
/// columns. The sheet behind and the legend come off the top first; in the
/// very shortest pane the sheet behind is what gives way, and the legend is
/// dropped before a box would shrink below its smallest size. Boxes keep a
/// screen's proportions rather than stretching across the pane.
#[verifier::spinoff_prover]
#[verifier::rlimit(40)]
pub fn preview_geometry(any_stacked: bool, legend_len: usize, panels: usize, room: u16, width: usize) -> (r: Geometry)
    requires
        panels <= 0xffff,
    ensures
        r == geometry_of(any_stacked, legend_len as nat, panels as nat, room as nat, width as nat),
{
    let room = room as usize;
    let stacked = any_stacked && room > SMALLEST_BOX;
    let reserved: usize = if stacked { 1 } else { 0 };
    let a = if room > reserved { room - reserved } else { 0 };
    let spare = if a > SMALLEST_BOX { a - SMALLEST_BOX } else { 0 };
    let legend = if legend_len < spare { legend_len } else { spare };
    let left = if a > legend { a - legend } else { 0 };
    let half = (if left > 1 { left - 1 } else { 0 }) / 2;
    let cells_h = if half > SMALLEST_CELLS { half } else { SMALLEST_CELLS };
    let rows = 2 * cells_h + 1;
    let count = if panels > 1 { panels } else { 1 };
    let w = if width > 4 { width - 4 } else { 0 };
    let arrows = (count - 1) * 5;
    let budget = if w > arrows { w - arrows } else { 0 };
    let tall = rows * 32 / 9;
    let across = if tall < budget / count { tall } else { budget / count };
    let cells_w = (if across > 1 { across - 1 } else { 0 }) / 2;
    Geometry { stacked, legend, cells_w, cells_h }
}


/// A separator row: an indented rule, at most forty columns long.
pub fn separator_line(width: usize) -> (r: String)
    ensures
        r@ == "  "@ + repeat('─', if sat_sub(width as nat, 4) < 40 { sat_sub(width as nat, 4) } else { 40 }),
{
    let w = if width > 4 { width - 4 } else { 0 };
    let mut out = crate::text::owned("  ");
    push_repeat(&mut out, '─', if w < 40 { w } else { 40 });
    out
}

/// The dimmed line under a row, indented under its text.
pub fn detail_line(detail: &str, width: usize) -> (r: String)
    ensures
        r@ == "       "@ + truncated(detail@, sat_sub(width as nat, 9)),
{
    let mut out = crate::text::owned("       ");
    let body = truncate(detail, if width > 9 { width - 9 } else { 0 });
    crate::text::push_str(&mut out, body.as_str());
    out
}

/// The count shown beside the filter prompt.
pub fn match_count_text(count: Option<usize>) -> (r: String)
    ensures
        r@ == match count {
            Some(n) => "   "@ + crate::text::decimal(n as nat),
            None => seq![],
        },
{
    match count {
        Some(n) => {
            let mut out = crate::text::owned("   ");
            crate::text::push_decimal(&mut out, n);
            out
        },
        None => String::new(),
    }
}

pub open spec fn widest(lines: Seq<String>) -> nat
    decreases lines.len(),
{
    if lines.len() == 0 {
        0
    } else {
        let w = widest(lines.drop_last());
        let c = columns_of(lines.last()@);
        if c > w { c } else { w }
    }
}

fn widest_of(lines: &Vec<String>) -> (r: usize)
    ensures
        r == widest(lines@),
{
    let mut best: usize = 0;
    let mut i: usize = 0;
    while i < lines.len()
        invariant
            i <= lines@.len(),
            best == widest(lines@.take(i as int)),
        decreases lines@.len() - i,
    {
        proof {
            assert(lines@.take(i + 1).drop_last() =~= lines@.take(i as int));
        }
        let c = columns(lines[i].as_str());
        if c > best {
            best = c;
        }
        i = i + 1;
    }
    proof {
        assert(lines@.take(lines@.len() as int) =~= lines@);
    }
    best
}

/// Line `row` of diagram `k`, padded to the diagram's widest line; a
/// diagram shorter than the others contributes blank space.
pub open spec fn padded_cell(d: Seq<Vec<String>>, k: int, row: int) -> Seq<char> {
    let text = if row < d[k]@.len() { d[k]@[row]@ } else { seq![] };
    let w = widest(d[k]@);
    text + repeat(' ', if columns_of(text) < w { (w - columns_of(text)) as nat } else { 0 })
}

/// Line `row` of the first `k` diagrams side by side: the arrow between
/// them on the middle line, as many spaces elsewhere.
pub open spec fn joined_row(d: Seq<Vec<String>>, row: int, middle: int, k: int) -> Seq<char>
    decreases k,
{
    if k <= 0 {
        seq![]
    } else {
        joined_row(d, row, middle, k - 1) + (if k - 1 > 0 {
            if row == middle { ARROW@ } else { "     "@ }
        } else {
            seq![]
        }) + padded_cell(d, k - 1, row)
    }
}

/// Diagrams side by side: each padded to its own widest line, joined by the
/// arrow on the middle line and by spaces elsewhere.
pub fn join_panels(drawn: &Vec<Vec<String>>) -> (r: Vec<String>)
    ensures
        r@.len() == tallest(drawn@),
        forall|row: int| 0 <= row < r@.len() ==> (#[trigger] r@[row])@ == joined_row(
            drawn@,
            row,
            tallest(drawn@) as int / 2,
            drawn@.len() as int,
        ),
{
    let mut widths: Vec<usize> = Vec::new();
    let mut height: usize = 0;
    let mut i: usize = 0;
    while i < drawn.len()
        invariant
            i <= drawn@.len(),
            widths@.len() == i,
            forall|j: int| 0 <= j < i ==> widths@[j] == widest(#[trigger] drawn@[j]@),
            height == tallest(drawn@.take(i as int)),
        decreases drawn@.len() - i,
    {
        proof {
            assert(drawn@.take(i + 1).drop_last() =~= drawn@.take(i as int));
        }
        widths.push(widest_of(&drawn[i]));
        if drawn[i].len() > height {
            height = drawn[i].len();
        }
        i = i + 1;
    }
    proof {
        assert(drawn@.take(drawn@.len() as int) =~= drawn@);
    }
    let middle = height / 2;
    let mut out: Vec<String> = Vec::new();
    let mut row: usize = 0;
    while row < height
        invariant
            row <= height,
            height == tallest(drawn@),
            middle == height / 2,
            out@.len() == row,
            widths@.len() == drawn@.len(),
            forall|j: int| 0 <= j < drawn@.len() ==> widths@[j] == widest(#[trigger] drawn@[j]@),
            forall|j: int| 0 <= j < row ==> (#[trigger] out@[j])@ == joined_row(drawn@, j, middle as int, drawn@.len() as int),
        decreases height - row,
    {
        let mut line = String::new();
        let mut k: usize = 0;
        while k < drawn.len()
            invariant
                k <= drawn@.len(),
                widths@.len() == drawn@.len(),
                forall|j: int| 0 <= j < drawn@.len() ==> widths@[j] == widest(#[trigger] drawn@[j]@),
                line@ == joined_row(drawn@, row as int, middle as int, k as int),
            decreases drawn@.len() - k,
        {
            let ghost before = line@;
            if k > 0 {
                if row == middle {
                    crate::text::push_str(&mut line, ARROW);
                } else {
                    crate::text::push_str(&mut line, "     ");
                }
            }
            let cell = if row < drawn[k].len() {
                pad(drawn[k][row].as_str(), widths[k])
            } else {
                proof {
                    reveal_strlit("");
                }
                pad("", widths[k])
            };
            proof {
                assert(widths@[k as int] == widest(drawn@[k as int]@));
                if row < drawn@[k as int]@.len() {
                    assert(drawn@[k as int]@[row as int] == drawn[k as int][row as int]);
                }
                assert(cell@ == padded_cell(drawn@, k as int, row as int));
            }
            crate::text::push_str(&mut line, cell.as_str());
            k = k + 1;
        }
        out.push(line);
        row = row + 1;
    }
    out
}

/// No line of the diagrams is wider than a `usize` can count.
pub open spec fn countable(d: Seq<Vec<String>>) -> bool {
    forall|k: int, row: int| 0 <= k < d.len() && 0 <= row < d[k]@.len() ==> cols(#[trigger] d[k]@[row]@) <= usize::MAX
}

/// The width of the first `k` diagrams side by side: each as wide as its
/// widest line, five columns between neighbours.
pub open spec fn joined_width(d: Seq<Vec<String>>, k: int) -> nat
    decreases k,
{
    if k <= 0 {
        0
    } else if k == 1 {
        widest(d[0]@)
    } else {
        joined_width(d, k - 1) + 5 + widest(d[k - 1]@)
    }
}

proof fn lemma_cols_concat(a: Seq<char>, b: Seq<char>)
    ensures
        cols(a + b) == cols(a) + cols(b),
    decreases b.len(),
{
    if b.len() > 0 {
        lemma_cols_concat(a, b.drop_last());
        assert((a + b).drop_last() =~= a + b.drop_last());
    } else {
        assert(a + b =~= a);
    }
}

proof fn lemma_cols_spaces(n: nat)
    ensures
        cols(repeat(' ', n)) == n,
    decreases n,
{
    if n > 0 {
        lemma_cols_spaces((n - 1) as nat);
        assert(repeat(' ', n).drop_last() =~= repeat(' ', (n - 1) as nat));
    } else {
        assert(repeat(' ', n) =~= Seq::<char>::empty());
    }
}

proof fn lemma_widest_covers(lines: Seq<String>, row: int)
    requires
        0 <= row < lines.len(),
    ensures
        columns_of(lines[row]@) <= widest(lines),
    decreases lines.len(),
{
    if row < lines.len() - 1 {
        lemma_widest_covers(lines.drop_last(), row);
        assert(lines.drop_last()[row] == lines[row]);
    }
}

proof fn lemma_padded_cell_width(d: Seq<Vec<String>>, k: int, row: int)
    requires
        0 <= k < d.len(),
        0 <= row,
        countable(d),
    ensures
        cols(padded_cell(d, k, row)) == widest(d[k]@),
{
    let text = if row < d[k]@.len() { d[k]@[row]@ } else { seq![] };
    let w = widest(d[k]@);
    if row < d[k]@.len() {
        lemma_widest_covers(d[k]@, row);
        assert(cols(d[k]@[row]@) <= usize::MAX);
    } else {
        assert(cols(text) == 0);
    }
    let n: nat = if columns_of(text) < w { (w - columns_of(text)) as nat } else { 0 };
    lemma_cols_concat(text, repeat(' ', n));
    lemma_cols_spaces(n);
}

proof fn lemma_joined_row_width(d: Seq<Vec<String>>, row: int, middle: int, k: int)
    requires
        0 <= k <= d.len(),
        0 <= row,
        countable(d),
    ensures
        cols(joined_row(d, row, middle, k)) == joined_width(d, k),
    decreases k,
{
    if k > 0 {
        lemma_joined_row_width(d, row, middle, k - 1);
        lemma_padded_cell_width(d, k - 1, row);
        let gap: Seq<char> = if k - 1 > 0 {
            if row == middle { ARROW@ } else { "     "@ }
        } else {
            seq![]
        };
        reveal_strlit("  →  ");
        reveal_strlit("     ");
        assert(cols(gap) == if k - 1 > 0 { 5nat } else { 0nat }) by {
            reveal_with_fuel(cols, 6);
            assert(width_of('→') == 1);
        }
        lemma_cols_concat(joined_row(d, row, middle, k - 1), gap);
        lemma_cols_concat(joined_row(d, row, middle, k - 1) + gap, padded_cell(d, k - 1, row));
    }
}

/// **Law.** Diagrams joined side by side give lines of one width, the arrow
/// line and the blank lines alike, so the walls of every box line up: each
/// line is as wide as the diagrams' widest lines together plus the gaps.
pub proof fn lemma_joined_rows_same_width(d: Seq<Vec<String>>, middle: int)
    requires
        countable(d),
    ensures
        forall|row: int| 0 <= row ==> #[trigger] cols(joined_row(d, row, middle, d.len() as int)) == joined_width(
            d,
            d.len() as int,
        ),
{
    assert forall|row: int| 0 <= row implies #[trigger] cols(joined_row(d, row, middle, d.len() as int))
        == joined_width(d, d.len() as int) by {
        lemma_joined_row_width(d, row, middle, d.len() as int);
    }
}

pub open spec fn tallest(d: Seq<Vec<String>>) -> nat
    decreases d.len(),
{
    if d.len() == 0 {
        0
    } else {
        let t = tallest(d.drop_last());
        if d.last()@.len() > t { d.last()@.len() } else { t }
    }
}

} // verus!
