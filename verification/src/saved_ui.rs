//! Layout Tools' screens for saved layouts: the focused list that applies
//! one, the naming screen that saves the tab's shape, and the list that
//! deletes one.
use vstd::prelude::*;

use crate::layout::{string_views, Shape};
use crate::menu::Menu;
use crate::template::{describe_of, slots_of, Template};
use crate::term::{Row, RowKind};
use crate::tools_ui::{item_row, saved_note, saved_preview, saved_row, saved_values, tree_of_opt, Choice, PreviewPane};
use crate::text::owned;

verus! {

/// The values of the Saved Layouts screen: the settings warning, a note
/// when nothing is saved, the saved layouts (one that needs another pane
/// count only a note), then Save, Delete when there is something to delete,
/// and Cancel.
pub open spec fn saved_screen_values(saved: Seq<(String, Template)>, n: nat, warned: bool) -> Seq<Option<Choice>> {
    (if warned { seq![None] } else { seq![] }) + (if saved.len() == 0 { seq![None] } else { seq![] })
        + saved_values(saved, n) + seq![None, Some(Choice::Save)] + (if saved.len() > 0 {
        seq![Some(Choice::Forget)]
    } else {
        seq![]
    }) + seq![Some(Choice::Cancel)]
}

/// Where the saved layouts' rows start on that screen.
pub open spec fn saved_start(saved: nat, warned: bool) -> int {
    (if warned { 1int } else { 0int }) + (if saved == 0 { 1int } else { 0int })
}

/// The Saved Layouts screen: apply a saved shape to this tab. `pane_ids`
/// are the tab's panes in layout order, `panes` their names, `current` the
/// tab's shape, `saved` the saved layouts by name, `warning` why the saved
/// file was ignored, if it was.
pub fn saved_menu(
    pane_ids: &[String],
    panes: &[PreviewPane],
    source_id: &str,
    current: Option<&Shape>,
    saved: &[(String, Template)],
    warning: Option<&str>,
) -> (r: Menu<Choice>)
    requires
        forall|k: int| 0 <= k < saved@.len() ==> slots_of((#[trigger] saved@[k]).1) <= usize::MAX,
        crate::template::in_name_order(saved@),
    ensures
        r.wf(),
        r.screen.title@ == "Saved Layouts"@,
        r.screen.subtitle matches Some(t) && t@ == "保存した形をこの Tab に適用します"@,
        r.screen.no_preview@ == "この項目は Pane の配置を変えません"@,
        r.values@ == saved_screen_values(saved@, pane_ids@.len(), warning is Some),
        warning matches Some(w) ==> r.screen.rows@[0].kind == RowKind::Note && r.screen.rows@[0].primary@ == w@,
        saved@.len() == 0 ==> r.screen.rows@[saved_start(0, warning is Some) - 1].kind == RowKind::Note
            && r.screen.rows@[saved_start(0, warning is Some) - 1].primary@ == "保存済みレイアウトはありません"@,
        forall|k: int| 0 <= k < saved@.len() ==> saved_row(
            #[trigger] r.screen.rows@[saved_start(saved@.len(), warning is Some) + k],
            saved@[k],
            string_views(pane_ids@),
            tree_of_opt(current),
            panes@,
            source_id@,
        ),
        ({
            let s = saved_start(saved@.len(), warning is Some) + saved@.len();
            &&& r.screen.rows@[s].kind == RowKind::Separator
            &&& item_row(r.screen.rows@[s + 1], "Save this layout"@, Some("s"@), None)
            &&& saved@.len() > 0 ==> item_row(r.screen.rows@[s + 2], "Delete a saved layout"@, Some("d"@), None)
            &&& item_row(r.screen.rows@.last(), "Cancel"@, Some("q"@), None)
        }),
{
    let mut menu: Menu<Choice> = Menu::new("Saved Layouts").subtitle("保存した形をこの Tab に適用します");
    let ghost warned = warning is Some;
    let ghost n = pane_ids@.len();
    let ghost want = saved_screen_values(saved@, n, warned);
    match warning {
        Some(w) => menu.row(Row::note(w)),
        None => {},
    }
    if saved.len() == 0 {
        menu.row(Row::note("保存済みレイアウトはありません"));
    }
    let ghost base = saved_start(saved@.len(), warned);
    proof {
        assert(menu.values@ =~= want.take(base));
    }
    let mut k: usize = 0;
    while k < saved.len()
        invariant
            k <= saved@.len(),
            forall|i: int| 0 <= i < saved@.len() ==> slots_of((#[trigger] saved@[i]).1) <= usize::MAX,
            warned == (warning is Some),
            n == pane_ids@.len(),
            want == saved_screen_values(saved@, n, warned),
            base == saved_start(saved@.len(), warned),
            menu.wf(),
            menu.screen.title@ == "Saved Layouts"@,
            menu.screen.subtitle matches Some(t) && t@ == "保存した形をこの Tab に適用します"@,
            menu.values@ == want.take(base + k),
            warning matches Some(w) ==> menu.screen.rows@[0].kind == RowKind::Note && menu.screen.rows@[0].primary@ == w@,
            saved@.len() == 0 ==> menu.screen.rows@[base - 1].kind == RowKind::Note
                && menu.screen.rows@[base - 1].primary@ == "保存済みレイアウトはありません"@,
            forall|i: int| 0 <= i < k ==> saved_row(
                #[trigger] menu.screen.rows@[base + i],
                saved@[i],
                string_views(pane_ids@),
                tree_of_opt(current),
                panes@,
                source_id@,
            ),
        decreases saved@.len() - k,
    {
        let (name, layout) = (&saved[k].0, &saved[k].1);
        let note = saved_note(layout, pane_ids.len());
        if layout.slots() != pane_ids.len() {
            menu.row(Row::note(name.as_str()).secondary(note.as_str()));
        } else {
            let after = saved_preview(layout, pane_ids, source_id);
            let row = crate::tools_ui::picture_row(
                Row::item(name.as_str()).secondary(note.as_str()),
                current,
                after,
                panes,
                source_id,
                "実行後",
            );
            menu.item(row, Choice::Apply(name.clone()));
        }
        proof {
            assert(want.take(base + k + 1) =~= want.take(base + k).push(saved_values(saved@, n)[k as int]));
        }
        k = k + 1;
    }
    menu.row(Row::separator());
    menu.item(Row::item("Save this layout").hotkey("s"), Choice::Save);
    if saved.len() > 0 {
        menu.item(Row::item("Delete a saved layout").hotkey("d"), Choice::Forget);
    }
    menu.item(Row::item("Cancel").hotkey("q"), Choice::Cancel);
    proof {
        assert(menu.values@ =~= want);
    }
    menu.screen.no_preview = owned("この項目は Pane の配置を変えません");
    menu
}

/// The naming screen: type a new name, or pick an existing layout to
/// replace. The row for a typed name carries the empty value, meaning
/// "use what was typed".
pub fn name_menu(existing: &[(String, Template)]) -> (r: Menu<String>)
    requires
        forall|k: int| 0 <= k < existing@.len() ==> slots_of((#[trigger] existing@[k]).1) <= usize::MAX,
        crate::template::in_name_order(existing@),
    ensures
        r.wf(),
        r.filter matches Some(q) && q@.len() == 0,
        r.screen.title@ == "Save this layout as"@,
        r.screen.subtitle matches Some(t) && t@ == "この Tab の分割の形を、名前を付けて覚えます"@,
        r.values@.len() >= 1,
        r.values@[0] matches Some(v) && v@.len() == 0,
        r.values@.skip(1) == (if existing@.len() > 0 {
            seq![None, None] + existing@.map_values(|e: (String, Template)| Some(e.0))
        } else {
            seq![]
        }),
        r.pinned@[0],
        item_row(r.screen.rows@[0], "Save as {query}"@, Some("↵"@), None),
        existing@.len() > 0 ==> r.screen.rows@[2].kind == RowKind::Header
            && r.screen.rows@[2].primary@ == "Replace an existing one"@,
        forall|k: int| 0 <= k < existing@.len() ==> item_row(
            #[trigger] r.screen.rows@[3 + k],
            existing@[k].0@,
            None,
            Some(describe_of(existing@[k].1)),
        ),
{
    let mut menu: Menu<String> = Menu::new("Save this layout as").subtitle("この Tab の分割の形を、名前を付けて覚えます").filterable();
    menu.item_pinned(Row::item("Save as {query}").hotkey("↵"), String::new());
    let ghost tail = existing@.map_values(|e: (String, Template)| Some(e.0));
    if existing.len() > 0 {
        menu.row(Row::separator());
        menu.row(Row::header("Replace an existing one"));
        let ghost head = menu.values@;
        let mut k: usize = 0;
        while k < existing.len()
            invariant
                k <= existing@.len(),
                tail == existing@.map_values(|e: (String, Template)| Some(e.0)),
                forall|i: int| 0 <= i < existing@.len() ==> slots_of((#[trigger] existing@[i]).1) <= usize::MAX,
                head.len() == 3,
                head[0] matches Some(v) && v@.len() == 0,
                head.skip(1) =~= seq![None, None],
                menu.wf(),
                menu.filter matches Some(q) && q@.len() == 0,
                menu.screen.title@ == "Save this layout as"@,
                menu.screen.subtitle matches Some(t) && t@ == "この Tab の分割の形を、名前を付けて覚えます"@,
                menu.values@ == head + tail.take(k as int),
                menu.pinned@[0],
                item_row(menu.screen.rows@[0], "Save as {query}"@, Some("↵"@), None),
                menu.screen.rows@[2].kind == RowKind::Header && menu.screen.rows@[2].primary@ == "Replace an existing one"@,
                forall|i: int| 0 <= i < k ==> item_row(
                    #[trigger] menu.screen.rows@[3 + i],
                    existing@[i].0@,
                    None,
                    Some(describe_of(existing@[i].1)),
                ),
            decreases existing@.len() - k,
        {
            let (name, layout) = (&existing[k].0, &existing[k].1);
            let note = layout.describe();
            menu.item(Row::item(name.as_str()).secondary(note.as_str()), name.clone());
            proof {
                assert(tail.take(k + 1) =~= tail.take(k as int).push(Some(*name)));
            }
            k = k + 1;
        }
        proof {
            assert(tail.take(existing@.len() as int) =~= tail);
            assert(menu.values@.skip(1) =~= seq![None, None] + tail);
        }
    } else {
        proof {
            assert(menu.values@.skip(1) =~= Seq::<Option<String>>::empty());
        }
    }
    menu
}

/// The list that deletes a saved layout, numbered.
pub fn delete_menu(saved: &[(String, Template)]) -> (r: Menu<String>)
    requires
        forall|k: int| 0 <= k < saved@.len() ==> slots_of((#[trigger] saved@[k]).1) <= usize::MAX,
        crate::template::in_name_order(saved@),
    ensures
        r.wf(),
        r.numbered,
        r.screen.title@ == "Delete a saved layout"@,
        r.screen.subtitle matches Some(t) && t@ == "選んだ保存済みレイアウトを削除します。今の画面は変わりません"@,
        r.values@ == saved@.map_values(|e: (String, Template)| Some(e.0)),
        forall|k: int| 0 <= k < saved@.len() ==> item_row(
            #[trigger] r.screen.rows@[k],
            saved@[k].0@,
            None,
            Some(describe_of(saved@[k].1)),
        ),
{
    let mut menu: Menu<String> = Menu::new("Delete a saved layout").subtitle(
        "選んだ保存済みレイアウトを削除します。今の画面は変わりません",
    ).numbered();
    let ghost all = saved@.map_values(|e: (String, Template)| Some(e.0));
    let mut k: usize = 0;
    while k < saved.len()
        invariant
            k <= saved@.len(),
            all == saved@.map_values(|e: (String, Template)| Some(e.0)),
            forall|i: int| 0 <= i < saved@.len() ==> slots_of((#[trigger] saved@[i]).1) <= usize::MAX,
            menu.wf(),
            menu.numbered,
            menu.screen.title@ == "Delete a saved layout"@,
            menu.screen.subtitle matches Some(t) && t@ == "選んだ保存済みレイアウトを削除します。今の画面は変わりません"@,
            menu.values@ == all.take(k as int),
            forall|i: int| 0 <= i < k ==> item_row(
                #[trigger] menu.screen.rows@[i],
                saved@[i].0@,
                None,
                Some(describe_of(saved@[i].1)),
            ),
        decreases saved@.len() - k,
    {
        let (name, layout) = (&saved[k].0, &saved[k].1);
        let note = layout.describe();
        menu.item(Row::item(name.as_str()).secondary(note.as_str()), name.clone());
        proof {
            assert(all.take(k + 1) =~= all.take(k as int).push(Some(*name)));
        }
        k = k + 1;
    }
    proof {
        assert(all.take(saved@.len() as int) =~= all);
    }
    menu
}

} // verus!
