//! Keyboard-driven single-choice list, with an optional type-to-filter mode.
//!
//! Hotkey menus pick an entry with a single key; filter pickers narrow a
//! long list as the user types. The terminal loop lives with the caller: it
//! asks [`Menu::frame`] what to draw and hands each key to [`Menu::press`].
use vstd::prelude::*;

use crate::term::{Key, Row, RowKind, Screen};
use crate::text::{
    ascii_lower_char, blank, chars_of, decimal, is_blank, is_space, lower_char, lowercase_of,
    push_char, push_decimal, push_str, space, str_to_lowercase, string_of, trim, trimmed,
};

verus! {

/// Result of a caller-supplied key handler.
#[derive(Debug, Clone, Copy, PartialEq, Eq, Structural)]
pub enum Interrupt {
    /// The handler consumed the key; redraw and keep waiting.
    Redraw,
    /// The handler wants the menu to close with no selection.
    Close,
    /// The handler ignored the key; fall through to normal handling.
    Unhandled,
}

/// What a key press did to the menu.
#[derive(Debug, Clone, Copy, PartialEq, Eq, Structural)]
pub enum Step {
    /// Keep going with this cursor.
    Stay(usize),
    /// Close with no selection.
    Cancel,
    /// Close, selecting the value of this row.
    Choose(usize),
}

// ---------------------------------------------------------------------------
// Text matching
// ---------------------------------------------------------------------------

/// Whether every non-space character of `q` appears in `h`, in order, each
/// found by scanning forward from just after the previous match.
pub open spec fn scan(q: Seq<char>, h: Seq<char>) -> bool
    decreases q.len(), h.len(),
{
    if q.len() == 0 {
        true
    } else if is_space(q[0]) {
        scan(q.drop_first(), h)
    } else if h.len() == 0 {
        false
    } else if h[0] == q[0] {
        scan(q.drop_first(), h.drop_first())
    } else {
        scan(q, h.drop_first())
    }
}

/// The characters of a query that must be found: all but the spaces.
pub open spec fn needles(q: Seq<char>) -> Seq<char>
    decreases q.len(),
{
    if q.len() == 0 {
        seq![]
    } else if is_space(q[0]) {
        needles(q.drop_first())
    } else {
        seq![q[0]] + needles(q.drop_first())
    }
}

/// `at` places each character of `p` at its own position of `h`, holding
/// that character, the positions strictly increasing.
pub open spec fn placed_in(at: Seq<int>, p: Seq<char>, h: Seq<char>) -> bool {
    &&& at.len() == p.len()
    &&& forall|k: int| 0 <= k < at.len() ==> 0 <= #[trigger] at[k] < h.len() && h[at[k]] == p[k]
    &&& forall|k: int, l: int| 0 <= k < l < at.len() ==> #[trigger] at[k] < #[trigger] at[l]
}

/// `p` can be read off `h` in order, each haystack character used once.
pub open spec fn embeds(p: Seq<char>, h: Seq<char>) -> bool {
    exists|at: Seq<int>| placed_in(at, p, h)
}

proof fn lemma_embeds_later(p: Seq<char>, h: Seq<char>)
    requires
        h.len() > 0,
        embeds(p, h.drop_first()),
    ensures
        embeds(p, h),
{
    let at = choose|at: Seq<int>| placed_in(at, p, h.drop_first());
    let moved = at.map_values(|x: int| x + 1);
    assert(placed_in(moved, p, h)) by {
        assert forall|k: int| 0 <= k < moved.len() implies 0 <= #[trigger] moved[k] < h.len() && h[moved[k]] == p[k] by {
            assert(0 <= at[k] < h.drop_first().len());
        }
        assert forall|k: int, l: int| 0 <= k < l < moved.len() implies #[trigger] moved[k] < #[trigger] moved[l] by {
            assert(at[k] < at[l]);
        }
    }
}

proof fn lemma_embeds_skip(p: Seq<char>, h: Seq<char>)
    requires
        h.len() > 0,
        embeds(p, h),
        p.len() == 0 || p[0] != h[0],
    ensures
        embeds(p, h.drop_first()),
{
    let at = choose|at: Seq<int>| placed_in(at, p, h);
    let moved = at.map_values(|x: int| x - 1);
    if p.len() > 0 {
        assert(at[0] != 0) by {
            assert(h[at[0]] == p[0]);
        }
    }
    assert(placed_in(moved, p, h.drop_first())) by {
        assert forall|k: int| 0 <= k < moved.len() implies 0 <= #[trigger] moved[k] < h.drop_first().len()
            && h.drop_first()[moved[k]] == p[k] by {
            assert(0 <= at[k] < h.len() && h[at[k]] == p[k]);
            if k > 0 {
                assert(at[0] < at[k]);
            }
        }
        assert forall|k: int, l: int| 0 <= k < l < moved.len() implies #[trigger] moved[k] < #[trigger] moved[l] by {
            assert(at[k] < at[l]);
        }
    }
}

proof fn lemma_embeds_take(c: char, p: Seq<char>, h: Seq<char>)
    requires
        h.len() > 0,
        h[0] == c,
    ensures
        embeds(seq![c] + p, h) <==> embeds(p, h.drop_first()),
{
    let cp = seq![c] + p;
    if embeds(p, h.drop_first()) {
        let at = choose|at: Seq<int>| placed_in(at, p, h.drop_first());
        let moved = seq![0int] + at.map_values(|x: int| x + 1);
        assert(placed_in(moved, cp, h)) by {
            assert forall|k: int| 0 <= k < moved.len() implies 0 <= #[trigger] moved[k] < h.len() && h[moved[k]] == cp[k] by {
                if k > 0 {
                    assert(moved[k] == at[k - 1] + 1);
                    assert(0 <= at[k - 1] < h.drop_first().len());
                }
            }
            assert forall|k: int, l: int| 0 <= k < l < moved.len() implies #[trigger] moved[k] < #[trigger] moved[l] by {
                if k > 0 {
                    assert(at[k - 1] < at[l - 1]);
                } else {
                    assert(0 <= at[l - 1]);
                }
            }
        }
    }
    if embeds(cp, h) {
        let at = choose|at: Seq<int>| placed_in(at, cp, h);
        let rest = at.drop_first().map_values(|x: int| x - 1);
        assert(placed_in(rest, p, h.drop_first())) by {
            assert forall|k: int| 0 <= k < rest.len() implies 0 <= #[trigger] rest[k] < h.drop_first().len()
                && h.drop_first()[rest[k]] == p[k] by {
                assert(at[0] < at[k + 1]);
                assert(0 <= at[0]);
                assert(0 <= at[k + 1] < h.len() && h[at[k + 1]] == cp[k + 1]);
            }
            assert forall|k: int, l: int| 0 <= k < l < rest.len() implies #[trigger] rest[k] < #[trigger] rest[l] by {
                assert(at[k + 1] < at[l + 1]);
            }
        }
    }
}

/// **Law.** A query matches a haystack exactly when its non-space
/// characters can be read off the haystack in order, each at a position of
/// its own: a matched haystack character is used up, so a query asking for a
/// character more often than the haystack holds it does not match.
pub proof fn lemma_scan_embeds(q: Seq<char>, h: Seq<char>)
    ensures
        scan(q, h) == embeds(needles(q), h),
    decreases q.len(), h.len(),
{
    if q.len() == 0 {
        assert(placed_in(Seq::<int>::empty(), needles(q), h));
    } else if is_space(q[0]) {
        lemma_scan_embeds(q.drop_first(), h);
    } else if h.len() == 0 {
        if embeds(needles(q), h) {
            let at = choose|at: Seq<int>| placed_in(at, needles(q), h);
            assert(0 <= at[0] < h.len());
        }
    } else if h[0] == q[0] {
        lemma_scan_embeds(q.drop_first(), h.drop_first());
        lemma_embeds_take(q[0], needles(q.drop_first()), h);
    } else {
        lemma_scan_embeds(q, h.drop_first());
        if embeds(needles(q), h) {
            lemma_embeds_skip(needles(q), h);
        }
        if embeds(needles(q), h.drop_first()) {
            lemma_embeds_later(needles(q), h);
        }
    }
}

/// Whether every character of `query` appears in `haystack`, in order.
///
/// Deliberately loose: `gsmb` finds `goose · mushi-battle`. Whitespace in
/// the query is ignored.
pub fn subsequence(query: &str, haystack: &str) -> (r: bool)
    ensures
        r == scan(query@, haystack@),
        r == embeds(needles(query@), haystack@),
{
    proof {
        lemma_scan_embeds(query@, haystack@);
    }
    let q = chars_of(query);
    let h = chars_of(haystack);
    let mut i: usize = 0;
    let mut j: usize = 0;
    proof {
        assert(q@.skip(0) =~= q@);
        assert(h@.skip(0) =~= h@);
    }
    while i < q.len()
        invariant
            q@ == query@,
            h@ == haystack@,
            i <= q@.len(),
            j <= h@.len(),
            scan(q@.skip(i as int), h@.skip(j as int)) == scan(query@, haystack@),
            scan(query@, haystack@) == embeds(needles(query@), haystack@),
        decreases q@.len() - i, h@.len() - j,
    {
        proof {
            assert(q@.skip(i as int).drop_first() =~= q@.skip(i + 1));
            if j < h@.len() {
                assert(h@.skip(j as int).drop_first() =~= h@.skip(j + 1));
            }
        }
        if space(q[i]) {
            i = i + 1;
        } else if j >= h.len() {
            return false;
        } else if h[j] == q[i] {
            i = i + 1;
            j = j + 1;
        } else {
            j = j + 1;
        }
    }
    proof {
        assert(q@.skip(i as int).len() == 0);
    }
    true
}

/// `s` with every non-overlapping occurrence of `pat` replaced by `rep`,
/// scanning left to right (`str::replace`).
pub open spec fn replace_all(s: Seq<char>, pat: Seq<char>, rep: Seq<char>) -> Seq<char>
    decreases s.len(),
{
    if s.len() == 0 {
        s
    } else if pat.len() > 0 && pat.len() <= s.len() && s.take(pat.len() as int) == pat {
        rep + replace_all(s.skip(pat.len() as int), pat, rep)
    } else if pat.len() == 0 {
        // An empty pattern is not used by this crate; keep the text as is.
        s
    } else {
        seq![s[0]] + replace_all(s.drop_first(), pat, rep)
    }
}

fn starts_at(s: &Vec<char>, at: usize, pat: &Vec<char>) -> (r: bool)
    requires
        at <= s@.len(),
    ensures
        r == (pat@.len() <= s@.len() - at && s@.skip(at as int).take(pat@.len() as int) == pat@),
{
    if pat.len() > s.len() - at {
        return false;
    }
    let slen = s.len();
    let mut k: usize = 0;
    while k < pat.len()
        invariant
            slen == s@.len(),
            at <= s@.len(),
            pat@.len() <= s@.len() - at,
            k <= pat@.len(),
            forall|m: int| 0 <= m < k ==> s@[at + m] == pat@[m],
        decreases pat@.len() - k,
    {
        if s[at + k] != pat[k] {
            proof {
                assert(s@.skip(at as int).take(pat@.len() as int)[k as int] != pat@[k as int]);
            }
            return false;
        }
        k = k + 1;
    }
    proof {
        assert(s@.skip(at as int).take(pat@.len() as int) =~= pat@);
    }
    true
}

/// `str::replace` on views.
pub fn replace(text: &str, pat: &str, rep: &str) -> (r: String)
    ensures
        r@ == replace_all(text@, pat@, rep@),
{
    let s = chars_of(text);
    let p = chars_of(pat);
    let mut out = String::new();
    if p.len() == 0 {
        return string_of(&s);
    }
    let mut i: usize = 0;
    proof {
        assert(s@.skip(0) =~= s@);
        assert(out@ + replace_all(s@.skip(0), pat@, rep@) =~= replace_all(text@, pat@, rep@));
    }
    while i < s.len()
        invariant
            s@ == text@,
            p@ == pat@,
            p@.len() > 0,
            i <= s@.len(),
            out@ + replace_all(s@.skip(i as int), pat@, rep@) == replace_all(text@, pat@, rep@),
        decreases s@.len() - i,
    {
        let ghost rest = s@.skip(i as int);
        if starts_at(&s, i, &p) {
            proof {
                assert(rest.skip(p@.len() as int) =~= s@.skip(i + p@.len()));
                assert(out@ + rep@ + replace_all(s@.skip(i + p@.len()), pat@, rep@) =~= out@ + (rep@
                    + replace_all(rest.skip(p@.len() as int), pat@, rep@)));
            }
            out.append(rep);
            i = i + p.len();
        } else {
            proof {
                assert(rest.drop_first() =~= s@.skip(i + 1));
                assert(out@.push(s@[i as int]) + replace_all(s@.skip(i + 1), pat@, rep@) =~= out@ + (
                seq![rest[0]] + replace_all(rest.drop_first(), pat@, rep@)));
            }
            push_char(&mut out, s[i]);
            i = i + 1;
        }
    }
    proof {
        assert(s@.skip(i as int).len() == 0);
        assert(out@ + replace_all(s@.skip(i as int), pat@, rep@) =~= out@);
    }
    out
}

// ---------------------------------------------------------------------------
// The menu
// ---------------------------------------------------------------------------

/// Lowercased text of a row, for filtering: name, description and detail.
pub open spec fn searchable_spec(row: Row) -> Seq<char> {
    let a = lowercase_of(row.primary@);
    let b = match row.secondary {
        Some(s) => a + seq![' '] + lowercase_of(s@),
        None => a,
    };
    match row.detail {
        Some(d) => b + seq![' '] + lowercase_of(d@),
        None => b,
    }
}

/// Lowercased text of a row, for filtering.
pub fn searchable(row: &Row) -> (r: String)
    ensures
        r@ == searchable_spec(*row),
{
    let mut text = str_to_lowercase(row.primary.as_str());
    match &row.secondary {
        Some(secondary) => {
            push_char(&mut text, ' ');
            let l = str_to_lowercase(secondary.as_str());
            text.append(l.as_str());
        },
        None => {},
    }
    match &row.detail {
        Some(detail) => {
            push_char(&mut text, ' ');
            let l = str_to_lowercase(detail.as_str());
            text.append(l.as_str());
        },
        None => {},
    }
    text
}

/// A list where some rows carry a value and some are decoration.
pub struct Menu<T> {
    pub screen: Screen,
    /// Parallel to the rows: the value a row selects, if any.
    pub values: Vec<Option<T>>,
    /// Parallel to the rows: lowercase text the filter matches against.
    pub haystacks: Vec<String>,
    /// Parallel to the rows: rows that survive every filter.
    pub pinned: Vec<bool>,
    /// When set, printable keys build a query instead of picking by hotkey.
    pub filter: Option<String>,
    /// Number the first nine selectable rows on screen.
    pub numbered: bool,
}

/// A one-character hotkey that is a single byte, as `str::len() == 1` sees it.
pub open spec fn single_key(h: Option<String>) -> Option<char> {
    match h {
        Some(s) => if s@.len() == 1 && (s@[0] as u32) < 0x80 {
            Some(s@[0])
        } else {
            None
        },
        None => None,
    }
}

fn single_key_of(h: &Option<String>) -> (r: Option<char>)
    ensures
        r == single_key(*h),
{
    match h {
        Some(s) => {
            let cs = chars_of(s.as_str());
            if cs.len() == 1 && (cs[0] as u32) < 0x80 {
                Some(cs[0])
            } else {
                None
            }
        },
        None => None,
    }
}

impl<T> Menu<T> {
    /// The parallel lists line up.
    pub open spec fn wf(&self) -> bool {
        &&& self.values@.len() == self.screen.rows@.len()
        &&& self.haystacks@.len() == self.screen.rows@.len()
        &&& self.pinned@.len() == self.screen.rows@.len()
    }

    pub open spec fn len(&self) -> nat {
        self.values@.len()
    }

    /// The query a filter is applying, lowercased; `None` when nothing is
    /// being filtered.
    pub open spec fn active_query(&self) -> Option<Seq<char>> {
        match self.filter {
            Some(q) => if q@.len() > 0 {
                Some(lowercase_of(q@))
            } else {
                None
            },
            None => None,
        }
    }

    /// Whether row `i` survives the current query.
    pub open spec fn shows(&self, i: int) -> bool {
        match self.active_query() {
            None => true,
            Some(q) => self.values@[i] is Some && (self.pinned@[i] || scan(q, self.haystacks@[i]@)),
        }
    }

    /// Visible row indices among the first `n`.
    pub open spec fn visible_upto(&self, n: int) -> Seq<usize>
        decreases n,
    {
        if n <= 0 {
            Seq::empty()
        } else if self.shows(n - 1) {
            self.visible_upto(n - 1).push((n - 1) as usize)
        } else {
            self.visible_upto(n - 1)
        }
    }

    /// Row indices that survive the current query, decoration included when
    /// nothing is filtered.
    pub open spec fn visible_spec(&self) -> Seq<usize> {
        self.visible_upto(self.len() as int)
    }

    /// Whether row `i` can be chosen.
    pub open spec fn choosable(&self, i: int) -> bool {
        self.values@[i] is Some
    }

    /// The row a single-key hotkey picks: the first selectable row whose
    /// one-byte hotkey matches `needle` case-insensitively.
    pub open spec fn hotkey_row_from(&self, needle: char, i: int) -> Option<usize>
        decreases self.len() - i,
    {
        if i < 0 || i >= self.len() {
            None
        } else if single_key(self.screen.rows@[i].hotkey) matches Some(k) && ascii_lower_char(k)
            == needle && self.values@[i] is Some {
            Some(i as usize)
        } else {
            self.hotkey_row_from(needle, i + 1)
        }
    }

    pub open spec fn claims(&self, needle: char) -> bool {
        self.hotkey_row_from(needle, 0) is Some
    }

    /// `j` and `k` may be bound by rows only as a pair.
    pub open spec fn by_hotkey_spec(&self, ch: char) -> Option<usize> {
        let needle = ascii_lower_char(ch);
        if (needle == 'j' || needle == 'k') && !(self.claims('j') && self.claims('k')) {
            None
        } else {
            self.hotkey_row_from(needle, 0)
        }
    }
}

impl<T> Menu<T> {
    /// Every visible index names a row.
    pub proof fn lemma_visible_bounded(&self, n: int)
        ensures
            forall|k: int| 0 <= k < self.visible_upto(n).len() ==> self.visible_upto(n)[k] < n,
        decreases n,
    {
        if n > 0 {
            self.lemma_visible_bounded(n - 1);
            let prev = self.visible_upto(n - 1);
            if self.shows(n - 1) {
                assert(self.visible_upto(n) == prev.push((n - 1) as usize));
                assert forall|k: int| 0 <= k < self.visible_upto(n).len() implies self.visible_upto(
                    n,
                )[k] < n by {
                    if k < prev.len() {
                        assert(self.visible_upto(n)[k] == prev[k]);
                    }
                }
            } else {
                assert(self.visible_upto(n) == prev);
            }
        }
    }

    pub fn new(title: &str) -> (r: Self)
        ensures
            r.wf(),
            r.len() == 0,
            r.filter is None,
            !r.numbered,
            r.screen.title@ == title@,
            r.screen.tabs@.len() == 0,
            r.screen.subtitle is None,
            r.screen.footer is None,
    {
        Menu {
            screen: Screen::new(title),
            values: Vec::new(),
            haystacks: Vec::new(),
            pinned: Vec::new(),
            filter: None,
            numbered: false,
        }
    }

    pub fn subtitle(self, text: &str) -> (r: Self)
        requires
            self.wf(),
        ensures
            r.wf(),
            r.screen.subtitle is Some && r.screen.subtitle->0@ == text@,
            r.screen.title == self.screen.title,
            r.screen.footer == self.screen.footer,
            r.values == self.values,
            r.filter == self.filter,
            r.screen.tabs == self.screen.tabs,
            r.numbered == self.numbered,
    {
        Menu { screen: self.screen.subtitle(text), ..self }
    }

    pub fn footer(self, text: &str) -> (r: Self)
        requires
            self.wf(),
        ensures
            r.wf(),
            r.screen.footer is Some && r.screen.footer->0@ == text@,
            r.screen.title == self.screen.title,
            r.screen.subtitle == self.screen.subtitle,
            r.values == self.values,
            r.filter == self.filter,
            r.screen.tabs == self.screen.tabs,
            r.numbered == self.numbered,
    {
        Menu { screen: self.screen.footer(text), ..self }
    }

    /// Switch to type-to-filter mode.
    pub fn filterable(self) -> (r: Self)
        requires
            self.wf(),
        ensures
            r.wf(),
            r.filter is Some && r.filter->0@.len() == 0,
            r.values == self.values,
            r.screen == self.screen,
            r.numbered == self.numbered,
    {
        Menu { filter: Some(String::new()), ..self }
    }

    /// Number the first nine selectable rows so `1`-`9` pick them.
    pub fn numbered(self) -> (r: Self)
        requires
            self.wf(),
        ensures
            r.wf(),
            r.numbered,
            r.values == self.values,
            r.filter == self.filter,
            r.screen == self.screen,
    {
        Menu { numbered: true, ..self }
    }

    fn push(&mut self, row: Row, value: Option<T>, haystack: String)
        requires
            old(self).wf(),
        ensures
            final(self).wf(),
            final(self).values@ == old(self).values@.push(value),
            final(self).haystacks@ == old(self).haystacks@.push(haystack),
            final(self).pinned@ == old(self).pinned@.push(false),
            final(self).screen.rows@ == old(self).screen.rows@.push(row),
            final(self).filter == old(self).filter,
            final(self).numbered == old(self).numbered,
            final(self).screen.title == old(self).screen.title,
            final(self).screen.subtitle == old(self).screen.subtitle,
            final(self).screen.footer == old(self).screen.footer,
            final(self).screen.tabs == old(self).screen.tabs,
    {
        self.screen.rows.push(row);
        self.values.push(value);
        self.haystacks.push(haystack);
        self.pinned.push(false);
    }

    /// Add a decorative row (header, separator, note).
    pub fn row(&mut self, row: Row)
        requires
            old(self).wf(),
        ensures
            final(self).wf(),
            final(self).values@ == old(self).values@.push(None),
            final(self).haystacks@.last()@.len() == 0,
            final(self).pinned@ == old(self).pinned@.push(false),
            final(self).screen.rows@ == old(self).screen.rows@.push(row),
            final(self).numbered == old(self).numbered,
            final(self).filter == old(self).filter,
            final(self).screen.title == old(self).screen.title,
            final(self).screen.subtitle == old(self).screen.subtitle,
            final(self).screen.footer == old(self).screen.footer,
            final(self).screen.tabs == old(self).screen.tabs,
    {
        self.push(row, None, String::new());
    }

    /// Add a selectable row.
    pub fn item(&mut self, row: Row, value: T)
        requires
            old(self).wf(),
        ensures
            final(self).wf(),
            final(self).values@ == old(self).values@.push(Some(value)),
            final(self).haystacks@.last()@ == searchable_spec(row),
            final(self).pinned@ == old(self).pinned@.push(false),
            final(self).screen.rows@ == old(self).screen.rows@.push(row),
            final(self).numbered == old(self).numbered,
            final(self).filter == old(self).filter,
            final(self).screen.title == old(self).screen.title,
            final(self).screen.subtitle == old(self).screen.subtitle,
            final(self).screen.footer == old(self).screen.footer,
            final(self).screen.tabs == old(self).screen.tabs,
    {
        let haystack = searchable(&row);
        self.push(row, Some(value), haystack);
    }

    /// Add a selectable row with extra text the filter should match, such as
    /// a workspace name shown in a group header rather than the row.
    pub fn item_matching(&mut self, row: Row, value: T, extra: &str)
        requires
            old(self).wf(),
        ensures
            final(self).wf(),
            final(self).values@ == old(self).values@.push(Some(value)),
            final(self).haystacks@.last()@ == searchable_spec(row) + seq![' '] + lowercase_of(extra@),
            final(self).pinned@ == old(self).pinned@.push(false),
            final(self).screen.rows@ == old(self).screen.rows@.push(row),
            final(self).numbered == old(self).numbered,
            final(self).filter == old(self).filter,
            final(self).screen.title == old(self).screen.title,
            final(self).screen.subtitle == old(self).screen.subtitle,
            final(self).screen.footer == old(self).screen.footer,
            final(self).screen.tabs == old(self).screen.tabs,
    {
        let mut haystack = searchable(&row);
        push_char(&mut haystack, ' ');
        let l = str_to_lowercase(extra);
        haystack.append(l.as_str());
        self.push(row, Some(value), haystack);
    }

    /// Add a row that is always offered, whatever the filter says.
    ///
    /// Occurrences of `{query}` in its text are replaced with the current
    /// query when it is drawn.
    pub fn item_pinned(&mut self, row: Row, value: T)
        requires
            old(self).wf(),
        ensures
            final(self).wf(),
            final(self).values@ == old(self).values@.push(Some(value)),
            final(self).haystacks@.last()@ == searchable_spec(row),
            final(self).pinned@ == old(self).pinned@.push(true),
            final(self).screen.rows@ == old(self).screen.rows@.push(row),
            final(self).numbered == old(self).numbered,
            final(self).filter == old(self).filter,
            final(self).screen.title == old(self).screen.title,
            final(self).screen.subtitle == old(self).screen.subtitle,
            final(self).screen.footer == old(self).screen.footer,
            final(self).screen.tabs == old(self).screen.tabs,
    {
        let haystack = searchable(&row);
        self.push(row, Some(value), haystack);
        let last = self.pinned.len() - 1;
        self.pinned.set(last, true);
    }

    /// Text the user has typed, for callers that use it as a default name.
    pub fn query(&self) -> (r: &str)
        ensures
            r@ == match self.filter {
                Some(q) => q@,
                None => Seq::<char>::empty(),
            },
    {
        match &self.filter {
            Some(q) => q.as_str(),
            None => {
                proof {
                    reveal_strlit("");
                }
                ""
            },
        }
    }

    /// Whether no row can be chosen.
    pub fn is_empty(&self) -> (r: bool)
        ensures
            r == forall|i: int| 0 <= i < self.values@.len() ==> self.values@[i] is None,
    {
        let mut i: usize = 0;
        while i < self.values.len()
            invariant
                i <= self.values@.len(),
                forall|k: int| 0 <= k < i ==> self.values@[k] is None,
            decreases self.values@.len() - i,
        {
            if self.values[i].is_some() {
                return false;
            }
            i = i + 1;
        }
        true
    }

    fn current_query(&self) -> (r: Option<String>)
        ensures
            match r {
                Some(q) => self.active_query() == Some(q@),
                None => self.active_query() is None,
            },
    {
        match &self.filter {
            Some(q) => {
                if chars_of(q.as_str()).len() == 0 {
                    None
                } else {
                    Some(str_to_lowercase(q.as_str()))
                }
            },
            None => None,
        }
    }

    /// Row indices that survive the current query, decoration included so
    /// group headers stay attached to the rows underneath them.
    pub fn visible(&self) -> (r: Vec<usize>)
        requires
            self.wf(),
        ensures
            r@ == self.visible_spec(),
    {
        let query = self.current_query();
        let mut keep: Vec<usize> = Vec::new();
        let mut i: usize = 0;
        while i < self.values.len()
            invariant
                self.wf(),
                i <= self.values@.len(),
                keep@ == self.visible_upto(i as int),
                match query {
                    Some(q) => self.active_query() == Some(q@),
                    None => self.active_query() is None,
                },
            decreases self.values@.len() - i,
        {
            let shows = match &query {
                None => true,
                Some(q) => self.values[i].is_some() && (self.pinned[i] || subsequence(
                    q.as_str(),
                    self.haystacks[i].as_str(),
                )),
            };
            if shows {
                keep.push(i);
            }
            i = i + 1;
        }
        keep
    }

    /// Among `visible`, the rows that can be chosen.
    pub fn selectable(&self, visible: &Vec<usize>) -> (r: Vec<usize>)
        requires
            self.wf(),
            forall|k: int| 0 <= k < visible@.len() ==> visible@[k] < self.len(),
        ensures
            r@ == visible@.filter(|i: usize| self.values@[i as int] is Some),
    {
        let mut out: Vec<usize> = Vec::new();
        let mut k: usize = 0;
        while k < visible.len()
            invariant
                self.wf(),
                forall|m: int| 0 <= m < visible@.len() ==> visible@[m] < self.len(),
                k <= visible@.len(),
                out@ == visible@.take(k as int).filter(|i: usize| self.values@[i as int] is Some),
            decreases visible@.len() - k,
        {
            proof {
                reveal_with_fuel(Seq::filter, 1);
                assert(visible@.take(k + 1).drop_last() =~= visible@.take(k as int));
            }
            if self.values[visible[k]].is_some() {
                out.push(visible[k]);
            }
            k = k + 1;
        }
        proof {
            assert(visible@.take(visible@.len() as int) =~= visible@);
        }
        out
    }

    fn hotkey_row(&self, needle: char) -> (r: Option<usize>)
        requires
            self.wf(),
        ensures
            r == self.hotkey_row_from(needle, 0),
    {
        let mut i: usize = 0;
        while i < self.values.len()
            invariant
                self.wf(),
                i <= self.values@.len(),
                self.hotkey_row_from(needle, i as int) == self.hotkey_row_from(needle, 0),
            decreases self.values@.len() - i,
        {
            let key = single_key_of(&self.screen.rows[i].hotkey);
            match key {
                Some(k) => {
                    if lower_char(k) == needle && self.values[i].is_some() {
                        return Some(i);
                    }
                },
                None => {},
            }
            i = i + 1;
        }
        None
    }

    /// Whether a selectable row binds the given (lowercase) key.
    pub fn claims_vim_key(&self, needle: char) -> (r: bool)
        requires
            self.wf(),
        ensures
            r == self.claims(needle),
    {
        self.hotkey_row(needle).is_some()
    }

    /// Whether a row claims `j` and a row claims `k`.
    pub fn claims_both_vim_keys(&self) -> (r: bool)
        requires
            self.wf(),
        ensures
            r == (self.claims('j') && self.claims('k')),
    {
        self.claims_vim_key('j') && self.claims_vim_key('k')
    }

    /// Whether exactly one of the pair is bound, which is always a mistake.
    pub fn half_binds_vim_keys(&self) -> (r: bool)
        requires
            self.wf(),
        ensures
            r == (self.claims('j') != self.claims('k')),
    {
        self.claims_vim_key('j') != self.claims_vim_key('k')
    }

    /// Index of the row whose hotkey matches `ch`, case-insensitively.
    ///
    /// `j` and `k` are shared between the list and its rows: a menu may
    /// claim both or neither, and a half-bound pair dispatches nothing.
    pub fn by_hotkey(&self, ch: char) -> (r: Option<usize>)
        requires
            self.wf(),
        ensures
            r == self.by_hotkey_spec(ch),
    {
        let needle = lower_char(ch);
        if (needle == 'j' || needle == 'k') && !self.claims_both_vim_keys() {
            return None;
        }
        self.hotkey_row(needle)
    }

    /// The name a pinned row gives the query: `...` for none, else quoted.
    pub open spec fn query_name(&self) -> Seq<char> {
        let q = trim(
            match self.filter {
                Some(f) => f@,
                None => Seq::empty(),
            },
        );
        if q.len() == 0 {
            seq!['.', '.', '.']
        } else {
            seq!['"'] + q + seq!['"']
        }
    }

    /// Fill `{query}` placeholders in a pinned row.
    pub fn render_pinned(&self, row: &Row) -> (r: Row)
        ensures
            r.primary@ == replace_all(row.primary@, "{query}"@, self.query_name()),
            r.kind == row.kind,
            r.hotkey == row.hotkey,
            r.secondary == row.secondary,
            r.detail == row.detail,
    {
        let q = trimmed(self.query());
        let mut named = String::new();
        if chars_of(q.as_str()).len() == 0 {
            push_str(&mut named, "...");
            proof {
                reveal_strlit("...");
                assert(named@ =~= seq!['.', '.', '.']);
            }
        } else {
            push_char(&mut named, '"');
            named.append(q.as_str());
            push_char(&mut named, '"');
            proof {
                assert(named@ =~= seq!['"'] + q@ + seq!['"']);
            }
        }
        assert(named@ == self.query_name());
        let primary = replace(row.primary.as_str(), "{query}", named.as_str());
        Row {
            kind: row.kind,
            hotkey: row.hotkey.clone(),
            glyph: row.glyph,
            glyph_color: row.glyph_color,
            primary,
            secondary: row.secondary.clone(),
            detail: row.detail.clone(),
            preview: None,
            trailing: row.trailing.clone(),
        }
    }
}

/// The cursor after moving `delta` rows in a wrapping list of `len`.
pub open spec fn stepped(cursor: int, delta: int, len: int) -> int {
    if len == 0 {
        cursor
    } else {
        (cursor + delta) % len
    }
}

/// Move a cursor `delta` rows through a list of `len` selectable rows,
/// wrapping at both ends. A cursor is always inside the list.
pub fn step_cursor(cursor: usize, delta: i8, len: usize) -> (r: usize)
    requires
        len == 0 || cursor < len,
    ensures
        r == stepped(cursor as int, delta as int, len as int),
        len > 0 ==> r < len,
{
    if len == 0 {
        return cursor;
    }
    let ghost c = cursor as int;
    let ghost m = len as int;
    if delta >= 0 {
        let d = (delta as usize) % len;
        proof {
            vstd::arithmetic::div_mod::lemma_add_mod_noop_right(c, delta as int, m);
        }
        if cursor >= len - d {
            proof {
                vstd::arithmetic::div_mod::lemma_mod_sub_multiples_vanish(c + d, m);
                vstd::arithmetic::div_mod::lemma_small_mod((c + d - m) as nat, m as nat);
            }
            cursor - (len - d)
        } else {
            proof {
                vstd::arithmetic::div_mod::lemma_small_mod((c + d) as nat, m as nat);
            }
            cursor + d
        }
    } else {
        let d = ((-(delta as i16)) as usize) % len;
        proof {
            vstd::arithmetic::div_mod::lemma_sub_mod_noop_right(c, -(delta as int), m);
            assert(c - (-(delta as int)) == c + delta as int);
        }
        if cursor >= d {
            proof {
                vstd::arithmetic::div_mod::lemma_small_mod((c - d) as nat, m as nat);
            }
            cursor - d
        } else {
            proof {
                vstd::arithmetic::div_mod::lemma_mod_add_multiples_vanish(c - d, m);
                vstd::arithmetic::div_mod::lemma_small_mod((m + c - d) as nat, m as nat);
            }
            cursor + (len - d)
        }
    }
}

/// What `press` does, as a function of the state before the key.
pub open spec fn press_spec<T>(m: Menu<T>, key: Key, cursor: usize) -> (Step, Option<Seq<char>>) {
    let visible = m.visible_spec();
    let selectable = visible.filter(|i: usize| m.values@[i as int] is Some);
    let n = selectable.len();
    let c: int = if n == 0 {
        0
    } else if cursor < n {
        cursor as int
    } else {
        n - 1
    };
    let filter = match m.filter {
        Some(f) => Some(f@),
        None => None,
    };
    match key {
        Key::Esc | Key::Interrupt => (Step::Cancel, filter),
        Key::Up => (Step::Stay(stepped(c, -1, n as int) as usize), filter),
        Key::Down => (Step::Stay(stepped(c, 1, n as int) as usize), filter),
        Key::Scroll(d) => (Step::Stay(stepped(c, d as int, n as int) as usize), filter),
        Key::Enter => if c < n {
            (Step::Choose(selectable[c]), filter)
        } else {
            (Step::Stay(c as usize), filter)
        },
        Key::Backspace => match filter {
            Some(f) => (Step::Stay(0), Some(if f.len() > 0 { f.drop_last() } else { f })),
            None => (Step::Stay(c as usize), filter),
        },
        Key::Click(row) => if row < visible.len() {
            let position = visible[row as int];
            match find_from(selectable, position, 0) {
                Some(index) => if index == c {
                    (Step::Choose(position), filter)
                } else {
                    (Step::Stay(index as usize), filter)
                },
                None => (Step::Stay(c as usize), filter),
            }
        } else {
            (Step::Stay(c as usize), filter)
        },
        Key::Char(ch) => {
            let hit = m.by_hotkey_spec(ch);
            if hit is Some && (('0' <= ch && ch <= '9') || filter is None) {
                (Step::Choose(hit->0), filter)
            } else {
                match filter {
                    Some(f) => (Step::Stay(0), Some(f.push(ch))),
                    None => if ch == 'j' {
                        (Step::Stay(stepped(c, 1, n as int) as usize), filter)
                    } else if ch == 'k' {
                        (Step::Stay(stepped(c, -1, n as int) as usize), filter)
                    } else if ch == 'q' {
                        (Step::Cancel, filter)
                    } else {
                        (Step::Stay(c as usize), filter)
                    },
                }
            }
        },
        _ => (Step::Stay(c as usize), filter),
    }
}

/// Where `x` first occurs in `s` at or after `i`.
pub open spec fn find_from(s: Seq<usize>, x: usize, i: int) -> Option<int>
    decreases s.len() - i,
{
    if i < 0 || i >= s.len() {
        None
    } else if s[i] == x {
        Some(i)
    } else {
        find_from(s, x, i + 1)
    }
}

fn position_in(v: &Vec<usize>, x: usize) -> (r: Option<usize>)
    ensures
        match r {
            Some(i) => find_from(v@, x, 0) == Some(i as int),
            None => find_from(v@, x, 0) is None,
        },
{
    let mut i: usize = 0;
    while i < v.len()
        invariant
            i <= v@.len(),
            find_from(v@, x, i as int) == find_from(v@, x, 0),
        decreases v@.len() - i,
    {
        if v[i] == x {
            return Some(i);
        }
        i = i + 1;
    }
    None
}

impl<T> Menu<T> {
    /// Handle one key press with the cursor at `cursor`.
    ///
    /// Digits pick by position even while filtering: a number is almost never
    /// what someone is searching for, and losing 1-9 would break Quick Move.
    pub fn press(&mut self, key: Key, cursor: usize) -> (r: Step)
        requires
            old(self).wf(),
        ensures
            final(self).wf(),
            (r, match final(self).filter {
                Some(f) => Some(f@),
                None => None,
            }) == press_spec(*old(self), key, cursor),
            final(self).values == old(self).values,
            final(self).screen.rows == old(self).screen.rows,
            final(self).haystacks == old(self).haystacks,
            final(self).pinned == old(self).pinned,
    {
        let visible = self.visible();
        proof {
            self.lemma_visible_bounded(self.len() as int);
        }
        let selectable = self.selectable(&visible);
        let n = selectable.len();
        let c = if n == 0 {
            0
        } else if cursor < n {
            cursor
        } else {
            n - 1
        };
        match key {
            Key::Esc | Key::Interrupt => Step::Cancel,
            Key::Up => Step::Stay(step_cursor(c, -1, n)),
            Key::Down => Step::Stay(step_cursor(c, 1, n)),
            Key::Scroll(d) => Step::Stay(step_cursor(c, d, n)),
            Key::Enter => {
                if c < n {
                    Step::Choose(selectable[c])
                } else {
                    Step::Stay(c)
                }
            },
            Key::Backspace => {
                match &self.filter {
                    Some(f) => {
                        let mut cs = chars_of(f.as_str());
                        if cs.len() > 0 {
                            cs.pop();
                        }
                        let next = string_of(&cs);
                        self.filter = Some(next);
                        Step::Stay(0)
                    },
                    None => Step::Stay(c),
                }
            },
            Key::Click(row) => {
                if row < visible.len() {
                    let position = visible[row];
                    match position_in(&selectable, position) {
                        Some(index) => {
                            if index == c {
                                Step::Choose(position)
                            } else {
                                Step::Stay(index)
                            }
                        },
                        None => Step::Stay(c),
                    }
                } else {
                    Step::Stay(c)
                }
            },
            Key::Char(ch) => {
                let hit = self.by_hotkey(ch);
                let digit = '0' <= ch && ch <= '9';
                match hit {
                    Some(index) => {
                        if digit || self.filter.is_none() {
                            return Step::Choose(index);
                        }
                    },
                    None => {},
                }
                match &self.filter {
                    Some(f) => {
                        let mut next = f.clone();
                        push_char(&mut next, ch);
                        self.filter = Some(next);
                        Step::Stay(0)
                    },
                    None => {
                        if ch == 'j' {
                            Step::Stay(step_cursor(c, 1, n))
                        } else if ch == 'k' {
                            Step::Stay(step_cursor(c, -1, n))
                        } else if ch == 'q' {
                            Step::Cancel
                        } else {
                            Step::Stay(c)
                        }
                    },
                }
            },
            _ => Step::Stay(c),
        }
    }
}


/// What one frame of a menu shows: which rows, their numbers, and where the
/// cursor is.
#[derive(Debug)]
pub struct Frame {
    /// Row indices on screen, in order: the rows that survive the filter.
    pub shown: Vec<usize>,
    /// The digit each shown row is numbered with, when the menu is numbered:
    /// the first nine selectable rows on screen, so `1`-`9` always match the
    /// digits the reader can see.
    pub numbers: Vec<Option<usize>>,
    /// The cursor, clamped into the selectable rows.
    pub cursor: usize,
    /// Which shown row the cursor is on.
    pub highlighted: Option<usize>,
    /// How many selectable rows survive the filter, when filtering.
    pub match_count: Option<usize>,
}

/// How many of `shown` carry a value.
pub open spec fn chosen_count<T>(values: Seq<Option<T>>, shown: Seq<usize>) -> nat
    decreases shown.len(),
{
    if shown.len() == 0 {
        0
    } else {
        chosen_count(values, shown.drop_last()) + if values[shown.last() as int] is Some { 1nat } else { 0nat }
    }
}

/// The numbers given to `shown`.
pub open spec fn numbering<T>(values: Seq<Option<T>>, shown: Seq<usize>, numbered: bool) -> Seq<Option<usize>>
    decreases shown.len(),
{
    if shown.len() == 0 {
        seq![]
    } else {
        let c = chosen_count(values, shown.drop_last());
        numbering(values, shown.drop_last(), numbered).push(
            if numbered && values[shown.last() as int] is Some && c < 9 {
                Some((c + 1) as usize)
            } else {
                None
            },
        )
    }
}

impl<T> Menu<T> {
    /// The frame drawn with the cursor at `cursor`.
    pub fn frame(&self, cursor: usize) -> (r: Frame)
        requires
            self.wf(),
        ensures
            ({
                let visible = self.visible_spec();
                let selectable = visible.filter(|i: usize| self.values@[i as int] is Some);
                let n = selectable.len();
                let c: int = if n == 0 { 0 } else if cursor < n { cursor as int } else { n - 1 };
                &&& r.shown@ == visible
                &&& r.numbers@ == numbering(self.values@, visible, self.numbered)
                &&& r.cursor == c
                &&& r.highlighted == if c < n {
                    match find_from(visible, selectable[c], 0) {
                        Some(k) => Some(k as usize),
                        None => None,
                    }
                } else {
                    None
                }
                &&& r.match_count == if self.filter is Some { Some(n as usize) } else { None }
            }),
    {
        let visible = self.visible();
        proof {
            self.lemma_visible_bounded(self.len() as int);
        }
        let selectable = self.selectable(&visible);
        let n = selectable.len();
        let c = if n == 0 {
            0
        } else if cursor < n {
            cursor
        } else {
            n - 1
        };
        let mut numbers: Vec<Option<usize>> = Vec::new();
        let mut count: usize = 0;
        let mut p: usize = 0;
        while p < visible.len()
            invariant
                self.wf(),
                forall|k: int| 0 <= k < visible@.len() ==> visible@[k] < self.len(),
                p <= visible@.len(),
                count == chosen_count(self.values@, visible@.take(p as int)),
                count <= p,
                numbers@ == numbering(self.values@, visible@.take(p as int), self.numbered),
            decreases visible@.len() - p,
        {
            proof {
                assert(visible@.take(p + 1).drop_last() =~= visible@.take(p as int));
                assert(visible@.take(p + 1).last() == visible@[p as int]);
            }
            let some = self.values[visible[p]].is_some();
            if self.numbered && some && count < 9 {
                numbers.push(Some(count + 1));
            } else {
                numbers.push(None);
            }
            if some {
                count = count + 1;
            }
            p = p + 1;
        }
        proof {
            assert(visible@.take(visible@.len() as int) =~= visible@);
        }
        let highlighted = if c < n {
            position_in(&visible, selectable[c])
        } else {
            None
        };
        let match_count = match &self.filter {
            Some(_) => Some(n),
            None => None,
        };
        Frame { shown: visible, numbers, cursor: c, highlighted, match_count }
    }
}

} // verus!
