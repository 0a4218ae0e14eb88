//! The command palette: every plugin action in one list, narrowed by a facet
//! that Tab walks round.
use vstd::prelude::*;

use crate::gather::text_lt;
use crate::gather::text_less;
use crate::model::{InstalledPlugin, PluginAction};
use crate::place::copy_strings;
use crate::term::Chip;
use crate::text::owned;

verus! {

/// The palette's own plugin id; its own entry is never offered.
pub const PLUGIN_ID: &'static str = "command-palette";

/// Which plugin the list is narrowed to.
#[derive(Debug, PartialEq)]
pub enum Facet {
    /// Every plugin's actions, grouped under their plugin's name.
    All,
    /// One plugin's actions.
    Only(String),
}

/// A facet as a value: `None` for every plugin, else the plugin's id.
pub open spec fn key(f: Facet) -> Option<Seq<char>> {
    match f {
        Facet::All => None,
        Facet::Only(id) => Some(id@),
    }
}

pub open spec fn keys(v: Seq<Facet>) -> Seq<Option<Seq<char>>> {
    v.map_values(|f: Facet| key(f))
}

/// The facets for a list of actions: every plugin, then each plugin with an
/// action, in the order the list shows them.
pub open spec fn facets_upto(actions: Seq<PluginAction>, n: int) -> Seq<Option<Seq<char>>>
    decreases n,
{
    if n <= 0 {
        seq![None]
    } else {
        let prev = facets_upto(actions, n - 1);
        let k = Some(actions[n - 1].plugin_id@);
        if prev.contains(k) {
            prev
        } else {
            prev.push(k)
        }
    }
}

/// No value occurs twice.
pub open spec fn distinct(s: Seq<Option<Seq<char>>>) -> bool {
    forall|i: int, j: int| 0 <= i < j < s.len() ==> s[i] != s[j]
}

/// Index of the first `k` in `s`.
pub open spec fn index_from(s: Seq<Option<Seq<char>>>, k: Option<Seq<char>>, i: int) -> Option<int>
    decreases s.len() - i,
{
    if 0 <= i < s.len() {
        if s[i] == k {
            Some(i)
        } else {
            index_from(s, k, i + 1)
        }
    } else {
        None
    }
}

/// Where the current facet is in the list, or the first slot when it is not.
pub open spec fn here(s: Seq<Option<Seq<char>>>, k: Option<Seq<char>>) -> int {
    match index_from(s, k, 0) {
        Some(i) => i,
        None => 0,
    }
}

/// The facet after `k`, wrapping round; every plugin when the list is empty.
pub open spec fn next_key(s: Seq<Option<Seq<char>>>, k: Option<Seq<char>>) -> Option<Seq<char>> {
    if s.len() == 0 {
        None
    } else {
        s[(here(s, k) + 1) % (s.len() as int)]
    }
}

/// The facet before `k`, wrapping round.
pub open spec fn previous_key(s: Seq<Option<Seq<char>>>, k: Option<Seq<char>>) -> Option<Seq<char>> {
    let h = here(s, k);
    if h == 0 {
        s[s.len() - 1]
    } else {
        s[h - 1]
    }
}

fn same_facet(a: &Facet, b: &Facet) -> (r: bool)
    ensures
        r == (key(*a) == key(*b)),
{
    match (a, b) {
        (Facet::All, Facet::All) => true,
        (Facet::Only(x), Facet::Only(y)) => crate::text::same_text(x.as_str(), y.as_str()),
        _ => false,
    }
}

impl Facet {
    pub fn duplicate(&self) -> (r: Facet)
        ensures
            key(r) == key(*self),
    {
        match self {
            Facet::All => Facet::All,
            Facet::Only(id) => Facet::Only(id.clone()),
        }
    }

    /// `All`, then one facet per plugin with actions, in the order the list
    /// shows them.
    pub fn all(actions: &[PluginAction]) -> (r: Vec<Facet>)
        ensures
            keys(r@) == facets_upto(actions@, actions@.len() as int),
            distinct(keys(r@)),
    {
        let mut out: Vec<Facet> = vec![Facet::All];
        proof {
            assert(keys(out@) =~= seq![None::<Seq<char>>]);
        }
        let mut i: usize = 0;
        while i < actions.len()
            invariant
                i <= actions@.len(),
                keys(out@) == facets_upto(actions@, i as int),
                distinct(keys(out@)),
            decreases actions@.len() - i,
        {
            let facet = Facet::Only(actions[i].plugin_id.clone());
            let mut found = false;
            let mut j: usize = 0;
            while j < out.len()
                invariant
                    j <= out@.len(),
                    found == exists|m: int| 0 <= m < j && #[trigger] keys(out@)[m] == key(facet),
                decreases out@.len() - j,
            {
                assert(keys(out@)[j as int] == key(out@[j as int]));
                if same_facet(&out[j], &facet) {
                    found = true;
                }
                proof {
                    if found {
                        if keys(out@)[j as int] != key(facet) {
                            let m = choose|m: int| 0 <= m < j && #[trigger] keys(out@)[m] == key(facet);
                            assert(0 <= m < j + 1 && keys(out@)[m] == key(facet));
                        }
                    } else {
                        assert forall|m: int| 0 <= m < j + 1 implies #[trigger] keys(out@)[m] != key(facet) by {
                            if m < j {
                            }
                        }
                    }
                }
                j = j + 1;
            }
            let ghost prev = keys(out@);
            proof {
                if found {
                    let m = choose|m: int| 0 <= m < j && keys(out@)[m] == key(facet);
                    assert(prev.contains(key(facet)));
                } else {
                    assert(!prev.contains(key(facet)));
                }
            }
            if !found {
                out.push(facet);
                proof {
                    assert(keys(out@) =~= prev.push(Some(actions@[i as int].plugin_id@)));
                }
            }
            i = i + 1;
        }
        out
    }

    /// Whether this facet shows `action`.
    pub fn holds(&self, action: &PluginAction) -> (r: bool)
        ensures
            r == match key(*self) {
                None => true,
                Some(id) => action.plugin_id@ == id,
            },
    {
        match self {
            Facet::All => true,
            Facet::Only(plugin_id) => crate::text::same_text(action.plugin_id.as_str(), plugin_id.as_str()),
        }
    }

    /// The name on the facet's chip: the plugin's name where it is known,
    /// else its id.
    pub fn name(&self, names: &[(String, String)]) -> (r: String)
        ensures
            r@ == match key(*self) {
                None => "All"@,
                Some(id) => named(names@, id),
            },
    {
        match self {
            Facet::All => owned("All"),
            Facet::Only(plugin_id) => name_of(names, plugin_id.as_str()),
        }
    }
}

/// The last entry before `n` of a plugin-name list naming `id`. Later
/// entries win, as they do when the pairs are gathered into a map.
pub open spec fn name_before(names: Seq<(String, String)>, id: Seq<char>, n: int) -> Option<int>
    decreases n,
{
    if 0 < n <= names.len() {
        if names[n - 1].0@ == id {
            Some(n - 1)
        } else {
            name_before(names, id, n - 1)
        }
    } else {
        None
    }
}

/// A plugin's name where the list of names has it (the last pair for its id),
/// else its id.
pub open spec fn named(names: Seq<(String, String)>, id: Seq<char>) -> Seq<char> {
    match name_before(names, id, names.len() as int) {
        Some(k) => names[k].1@,
        None => id,
    }
}

/// The name the list gives plugin `id`, else the id itself.
pub fn name_of(names: &[(String, String)], id: &str) -> (r: String)
    ensures
        r@ == named(names@, id@),
{
    let mut i: usize = names.len();
    while i > 0
        invariant
            i <= names@.len(),
            name_before(names@, id@, names@.len() as int) == name_before(names@, id@, i as int),
        decreases i,
    {
        if crate::text::same_text(names[i - 1].0.as_str(), id) {
            return names[i - 1].1.clone();
        }
        i = i - 1;
    }
    owned(id)
}

fn position(current: &Facet, facets: &[Facet]) -> (r: usize)
    ensures
        r == here(keys(facets@), key(*current)),
        facets@.len() > 0 ==> r < facets@.len(),
{
    let ghost s = keys(facets@);
    let mut i: usize = 0;
    while i < facets.len()
        invariant
            i <= facets@.len(),
            s == keys(facets@),
            index_from(s, key(*current), 0) == index_from(s, key(*current), i as int),
        decreases facets@.len() - i,
    {
        if same_facet(&facets[i], current) {
            assert(s[i as int] == key(*current));
            return i;
        }
        i = i + 1;
    }
    0
}

/// The facet after `current`, wrapping round: on the last plugin the useful
/// answer is every plugin, not nowhere.
pub fn next_facet(current: &Facet, facets: &[Facet]) -> (r: Facet)
    ensures
        key(r) == next_key(keys(facets@), key(*current)),
{
    let h = position(current, facets);
    if facets.len() == 0 {
        return Facet::All;
    }
    let n = facets.len();
    let k = if h + 1 < n { h + 1 } else { 0 };
    proof {
        let m = n as int;
        if h + 1 < n {
            vstd::arithmetic::div_mod::lemma_small_mod((h + 1) as nat, m as nat);
        } else {
            vstd::arithmetic::div_mod::lemma_mod_self_0(m);
        }
    }
    facets[k].duplicate()
}

/// The facet before `current`, wrapping round. The list is never empty:
/// every plugin is always a facet.
pub fn previous_facet(current: &Facet, facets: &[Facet]) -> (r: Facet)
    requires
        facets@.len() > 0,
    ensures
        key(r) == previous_key(keys(facets@), key(*current)),
{
    let h = position(current, facets);
    let back = if h == 0 { facets.len() } else { h };
    facets[back - 1].duplicate()
}

/// Walking the facets forward then back, or back then forward, returns to
/// where it started.
pub proof fn lemma_facet_walk_inverse(s: Seq<Option<Seq<char>>>, k: Option<Seq<char>>)
    requires
        distinct(s),
        s.contains(k),
    ensures
        previous_key(s, next_key(s, k)) == k,
        next_key(s, previous_key(s, k)) == k,
{
    let h = here(s, k);
    lemma_index_of_distinct(s, k);
    let n = s.len() as int;
    let j = (h + 1) % n;
    if h + 1 < n {
        vstd::arithmetic::div_mod::lemma_small_mod((h + 1) as nat, n as nat);
    } else {
        vstd::arithmetic::div_mod::lemma_mod_self_0(n);
    }
    lemma_index_of_distinct(s, s[j]);
    let p = if h == 0 { n - 1 } else { h - 1 };
    lemma_index_of_distinct(s, s[p]);
    if p + 1 < n {
        vstd::arithmetic::div_mod::lemma_small_mod((p + 1) as nat, n as nat);
    } else {
        vstd::arithmetic::div_mod::lemma_mod_self_0(n);
    }
}

/// The facet reached after `m` presses of Tab.
pub open spec fn walk(s: Seq<Option<Seq<char>>>, k: Option<Seq<char>>, m: nat) -> Option<Seq<char>>
    decreases m,
{
    if m == 0 {
        k
    } else {
        next_key(s, walk(s, k, (m - 1) as nat))
    }
}

/// Tab walks the facets in order: `m` presses from the first facet land on
/// the facet `m` places on, going round.
pub proof fn lemma_facet_walk(s: Seq<Option<Seq<char>>>, m: nat)
    requires
        distinct(s),
        s.len() > 0,
    ensures
        walk(s, s[0], m) == s[(m as int) % (s.len() as int)],
    decreases m,
{
    let n = s.len() as int;
    if m == 0 {
        vstd::arithmetic::div_mod::lemma_small_mod(0, n as nat);
    } else {
        lemma_facet_walk(s, (m - 1) as nat);
        let i = ((m - 1) as int) % n;
        vstd::arithmetic::div_mod::lemma_mod_bound((m - 1) as int, n);
        assert(s.contains(s[i]));
        lemma_index_of_distinct(s, s[i]);
        if n == 1 {
            vstd::arithmetic::div_mod::lemma_mod_bound(i + 1, n);
            vstd::arithmetic::div_mod::lemma_mod_bound(m as int, n);
        } else {
            vstd::arithmetic::div_mod::lemma_small_mod(1, n as nat);
            vstd::arithmetic::div_mod::lemma_small_mod(i as nat, n as nat);
            vstd::arithmetic::div_mod::lemma_add_mod_noop((m - 1) as int, 1, n);
        }
    }
}

/// As many presses of Tab as there are facets come back to where the walk
/// started.
pub proof fn lemma_facet_cycle(s: Seq<Option<Seq<char>>>)
    requires
        distinct(s),
        s.len() > 0,
    ensures
        walk(s, s[0], s.len()) == s[0],
{
    lemma_facet_walk(s, s.len());
    vstd::arithmetic::div_mod::lemma_mod_self_0(s.len() as int);
}

proof fn lemma_index_of_distinct(s: Seq<Option<Seq<char>>>, k: Option<Seq<char>>)
    requires
        distinct(s),
        s.contains(k),
    ensures
        0 <= here(s, k) < s.len(),
        s[here(s, k)] == k,
{
    let j = choose|j: int| 0 <= j < s.len() && s[j] == k;
    lemma_index_from_finds(s, k, 0, j);
}

proof fn lemma_index_from_finds(s: Seq<Option<Seq<char>>>, k: Option<Seq<char>>, i: int, j: int)
    requires
        0 <= i <= j < s.len(),
        s[j] == k,
    ensures
        index_from(s, k, i) matches Some(x) && 0 <= x <= j && s[x] == k,
    decreases j - i,
{
    if s[i] != k {
        lemma_index_from_finds(s, k, i + 1, j);
    }
}

/// The chips across the top: the hint for the key, then one per facet with
/// the current one lit.
pub fn chips(current: &Facet, facets: &[Facet], names: &[(String, String)]) -> (r: Vec<Chip>)
    ensures
        r@.len() == facets@.len() + 1,
        r@[0].label@ == "Tab ▸"@,
        !r@[0].active,
        forall|i: int| 0 <= i < facets@.len() ==> (#[trigger] r@[i + 1]).active == (key(facets@[i]) == key(*current)),
        forall|i: int| 0 <= i < facets@.len() ==> (#[trigger] r@[i + 1]).label@ == match key(facets@[i]) {
            None => "All"@,
            Some(id) => named(names@, id),
        },
{
    let mut out: Vec<Chip> = Vec::new();
    out.push(Chip::new("Tab ▸", false));
    let mut i: usize = 0;
    while i < facets.len()
        invariant
            i <= facets@.len(),
            out@.len() == i + 1,
            out@[0].label@ == "Tab ▸"@,
            !out@[0].active,
            forall|m: int| 0 <= m < i ==> (#[trigger] out@[m + 1]).active == (key(facets@[m]) == key(*current)),
            forall|m: int| 0 <= m < i ==> (#[trigger] out@[m + 1]).label@ == match key(facets@[m]) {
                None => "All"@,
                Some(id) => named(names@, id),
            },
        decreases facets@.len() - i,
    {
        let label = facets[i].name(names);
        let active = same_facet(&facets[i], current);
        out.push(Chip { label, active });
        i = i + 1;
    }
    out
}

// ---------------------------------------------------------------------------
// Which actions are offered
// ---------------------------------------------------------------------------

pub open spec fn enabled_ids(installed: Seq<InstalledPlugin>) -> Seq<Seq<char>>
    decreases installed.len(),
{
    if installed.len() == 0 {
        seq![]
    } else if installed.last().enabled {
        enabled_ids(installed.drop_last()).push(installed.last().plugin_id@)
    } else {
        enabled_ids(installed.drop_last())
    }
}

/// Whether an action is worth offering: not the palette's own, and from a
/// plugin that is enabled.
pub open spec fn offered(a: PluginAction, enabled: Seq<Seq<char>>) -> bool {
    a.plugin_id@ != PLUGIN_ID@ && enabled.contains(a.plugin_id@)
}

pub open spec fn offered_upto(actions: Seq<PluginAction>, enabled: Seq<Seq<char>>, n: int) -> Seq<PluginAction>
    decreases n,
{
    if n <= 0 {
        seq![]
    } else if offered(actions[n - 1], enabled) {
        offered_upto(actions, enabled, n - 1).push(actions[n - 1])
    } else {
        offered_upto(actions, enabled, n - 1)
    }
}

/// Where a stable insertion by plugin id puts `x`.
pub open spec fn slot_for(s: Seq<PluginAction>, x: PluginAction, i: int) -> int
    decreases s.len() - i,
{
    if i < 0 || i >= s.len() {
        s.len() as int
    } else if text_lt(x.plugin_id@, s[i].plugin_id@) {
        i
    } else {
        slot_for(s, x, i + 1)
    }
}

/// Stable sort by plugin id: a plugin's actions stay in their declared order.
pub open spec fn by_plugin(s: Seq<PluginAction>) -> Seq<PluginAction>
    decreases s.len(),
{
    if s.len() == 0 {
        s
    } else {
        let t = by_plugin(s.drop_last());
        t.insert(slot_for(t, s.last(), 0), s.last())
    }
}

fn copy_opt(o: &Option<String>) -> (r: Option<String>)
    ensures
        r == *o,
{
    match o {
        Some(s) => Some(s.clone()),
        None => None,
    }
}

impl PluginAction {
    /// An exact copy.
    pub fn duplicate(&self) -> (r: PluginAction)
        ensures
            r.plugin_id == self.plugin_id,
            r.action_id == self.action_id,
            r.title == self.title,
            r.description == self.description,
            r.contexts@ == self.contexts@,
    {
        PluginAction {
            plugin_id: self.plugin_id.clone(),
            action_id: self.action_id.clone(),
            title: self.title.clone(),
            description: copy_opt(&self.description),
            contexts: copy_strings(self.contexts.as_slice()),
        }
    }
}

fn contains_text(v: &Vec<String>, x: &str) -> (r: bool)
    ensures
        r == crate::layout::string_views(v@).contains(x@),
{
    let mut i: usize = 0;
    while i < v.len()
        invariant
            i <= v@.len(),
            forall|k: int| 0 <= k < i ==> v@[k]@ != x@,
        decreases v@.len() - i,
    {
        if crate::text::same_text(v[i].as_str(), x) {
            assert(crate::layout::string_views(v@)[i as int] == x@);
            return true;
        }
        i = i + 1;
    }
    proof {
        if crate::layout::string_views(v@).contains(x@) {
            let k = choose|k: int| 0 <= k < v@.len() && crate::layout::string_views(v@)[k] == x@;
            assert(v@[k]@ == x@);
        }
    }
    false
}

/// Actions worth offering, grouped by plugin with each plugin's declared
/// order kept: everything from an enabled plugin except the palette's own
/// entry, which would only reopen the window already open.
pub fn visible_actions(installed: &[InstalledPlugin], actions: &[PluginAction]) -> (r: Vec<PluginAction>)
    ensures
        r@.len() == by_plugin(offered_upto(actions@, enabled_ids(installed@), actions@.len() as int)).len(),
        forall|i: int| 0 <= i < r@.len() ==> {
            let want = #[trigger] by_plugin(offered_upto(actions@, enabled_ids(installed@), actions@.len() as int))[i];
            &&& r@[i].plugin_id == want.plugin_id
            &&& r@[i].action_id == want.action_id
            &&& r@[i].title == want.title
            &&& r@[i].description == want.description
            &&& r@[i].contexts@ == want.contexts@
        },
{
    let mut enabled: Vec<String> = Vec::new();
    let mut i: usize = 0;
    while i < installed.len()
        invariant
            i <= installed@.len(),
            crate::layout::string_views(enabled@) == enabled_ids(installed@.take(i as int)),
        decreases installed@.len() - i,
    {
        proof {
            assert(installed@.take(i + 1).drop_last() =~= installed@.take(i as int));
        }
        if installed[i].enabled {
            let ghost prev = enabled@;
            enabled.push(installed[i].plugin_id.clone());
            proof {
                assert(crate::layout::string_views(enabled@) =~= crate::layout::string_views(prev).push(installed@[i as int].plugin_id@));
            }
        }
        i = i + 1;
    }
    proof {
        assert(installed@.take(installed@.len() as int) =~= installed@);
    }
    let ghost en = enabled_ids(installed@);
    let mut out: Vec<PluginAction> = Vec::new();
    let mut i: usize = 0;
    while i < actions.len()
        invariant
            i <= actions@.len(),
            crate::layout::string_views(enabled@) == en,
            out@.len() == by_plugin(offered_upto(actions@, en, i as int)).len(),
            forall|k: int| 0 <= k < out@.len() ==> {
                let want = #[trigger] by_plugin(offered_upto(actions@, en, i as int))[k];
                &&& out@[k].plugin_id == want.plugin_id
                &&& out@[k].action_id == want.action_id
                &&& out@[k].title == want.title
                &&& out@[k].description == want.description
                &&& out@[k].contexts@ == want.contexts@
            },
        decreases actions@.len() - i,
    {
        let a = &actions[i];
        if !crate::text::same_text(a.plugin_id.as_str(), PLUGIN_ID) && contains_text(&enabled, a.plugin_id.as_str()) {
            let ghost t = by_plugin(offered_upto(actions@, en, i as int));
            let mut at: usize = 0;
            while at < out.len() && !text_less(a.plugin_id.as_str(), out[at].plugin_id.as_str())
                invariant
                    i < actions@.len(),
                    *a == actions@[i as int],
                    out@.len() == t.len(),
                    forall|k: int| 0 <= k < out@.len() ==> (#[trigger] out@[k]).plugin_id == t[k].plugin_id,
                    at <= t.len(),
                    slot_for(t, actions@[i as int], at as int) == slot_for(t, actions@[i as int], 0),
                decreases t.len() - at,
            {
                at = at + 1;
            }
            proof {
                assert(slot_for(t, actions@[i as int], at as int) == at);
                let w = offered_upto(actions@, en, i + 1);
                assert(w == offered_upto(actions@, en, i as int).push(actions@[i as int]));
                assert(w.drop_last() =~= offered_upto(actions@, en, i as int));
            }
            let ghost before = out@;
            out.insert(at, a.duplicate());
            proof {
                let u = by_plugin(offered_upto(actions@, en, i + 1));
                assert(u == t.insert(at as int, actions@[i as int]));
                assert forall|k: int| 0 <= k < out@.len() implies {
                    let want = #[trigger] u[k];
                    &&& out@[k].plugin_id == want.plugin_id
                    &&& out@[k].action_id == want.action_id
                    &&& out@[k].title == want.title
                    &&& out@[k].description == want.description
                &&& out@[k].contexts@ == want.contexts@
                } by {
                    if k < at {
                        assert(out@[k] == before[k]);
                    } else if k > at {
                        assert(out@[k] == before[k - 1]);
                    }
                }
            }
        } else {
            proof {
                let w = offered_upto(actions@, en, i + 1);
                assert(w == offered_upto(actions@, en, i as int));
            }
        }
        i = i + 1;
    }
    out
}

} // verus!
