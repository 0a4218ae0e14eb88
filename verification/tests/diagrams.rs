use herdr_kit::diagram::{diagram_marking, diagram_marking_labeled, draw, find, junction};
use herdr_kit::layout::{char_width, Shape, Side, EVEN};
use herdr_kit::term::HIGHLIGHT;

// ----- cutting a shape into cells, as the caller does -----

fn cut_cells(total: usize, share: f32) -> usize {
    if total <= 1 {
        return total.saturating_sub(1);
    }
    let share = if share.is_finite() { share.clamp(0.0, 1.0) } else { 0.5 };
    ((total as f32 * share).round() as usize).clamp(1, total - 1)
}

fn rasterise(shape: &Shape, grid: &mut [Vec<usize>], x: usize, y: usize, w: usize, h: usize, next: &mut usize) {
    match shape {
        Shape::Pane(_) => {
            *next += 1;
            let id = *next;
            for row in grid.iter_mut().skip(y).take(h) {
                for cell in row.iter_mut().skip(x).take(w) {
                    *cell = id;
                }
            }
        }
        Shape::Split { side, ratio, first, second } => {
            let ratio = f32::from_bits(*ratio);
            let (a, b, share) = match side {
                Side::Left | Side::Up => (second, first, 1.0 - ratio),
                Side::Right | Side::Down => (first, second, ratio),
            };
            match side {
                Side::Left | Side::Right => {
                    let cut = cut_cells(w, share);
                    rasterise(a, grid, x, y, cut, h, next);
                    rasterise(b, grid, x + cut, y, w - cut, h, next);
                }
                Side::Up | Side::Down => {
                    let cut = cut_cells(h, share);
                    rasterise(a, grid, x, y, w, cut, next);
                    rasterise(b, grid, x, y + cut, w, h - cut, next);
                }
            }
        }
    }
}

fn grid_of(shape: &Shape, w: usize, h: usize) -> Vec<Vec<usize>> {
    let mut grid = vec![vec![0usize; w]; h];
    let mut next = 0usize;
    rasterise(shape, &mut grid, 0, 0, w, h, &mut next);
    grid
}

fn art(shape: &Shape, w: usize, h: usize) -> Vec<String> {
    diagram_with(shape, w, h, None)
}

fn diagram_with(shape: &Shape, w: usize, h: usize, highlight: Option<&str>) -> Vec<String> {
    let (w, h) = (w.max(2), h.max(2));
    let marked: Vec<String> = highlight.into_iter().map(str::to_string).collect();
    diagram_marking(&grid_of(shape, w, h), w, shape, &marked)
}

fn labeled(shape: &Shape, w: usize, h: usize, highlight: &[&str], labels: &[(&str, &str)]) -> Vec<String> {
    let (w, h) = (w.max(2), h.max(2));
    let marked: Vec<String> = highlight.iter().map(|s| s.to_string()).collect();
    let labels: Vec<(String, String)> = labels.iter().map(|(a, b)| (a.to_string(), b.to_string())).collect();
    diagram_marking_labeled(&grid_of(shape, w, h), w, shape, &marked, &labels)
}

fn split(side: Side, first: Shape, second: Shape) -> Shape {
    Shape::Split { side, ratio: EVEN, first: Box::new(first), second: Box::new(second) }
}

fn width(line: &str) -> usize {
    line.chars().map(char_width).sum()
}

// ----- walls -----

#[test]
fn a_lone_pane_is_an_empty_box() {
    assert_eq!(art(&Shape::pane("a"), 3, 2), ["┌─────┐", "│     │", "│     │", "│     │", "└─────┘"]);
}

#[test]
fn a_side_by_side_split_gets_a_wall_with_proper_corners() {
    let shape = split(Side::Right, Shape::pane("a"), Shape::pane("b"));
    assert_eq!(art(&shape, 2, 2), ["┌─┬─┐", "│ │ │", "│ │ │", "│ │ │", "└─┴─┘"]);
}

#[test]
fn a_wall_that_starts_halfway_hangs_off_a_tee() {
    // One pane down the left, two stacked on the right. The horizontal
    // wall exists only on the right, so the left edge stays `│` and the
    // junction in the middle is a `├`.
    let shape = split(Side::Right, Shape::pane("a"), split(Side::Down, Shape::pane("b"), Shape::pane("c")));
    assert_eq!(art(&shape, 4, 2), ["┌───┬───┐", "│   │   │", "│   ├───┤", "│   │   │", "└───┴───┘"]);
}

#[test]
fn the_highlighted_pane_is_the_only_one_filled() {
    let shape = split(Side::Right, Shape::pane("old"), Shape::pane("new"));
    let lines = diagram_with(&shape, 2, 2, Some("new"));
    let filled: usize = lines.iter().map(|l| l.matches(HIGHLIGHT).count()).sum();
    // One cell wide. A diagram is `2 * height + 1` lines tall, so a
    // two-row box has three shaded rows once the gap between them is
    // filled in as well.
    assert_eq!(filled, 3, "{lines:?}");
    // And it is on the right, where `Right` puts it.
    assert!(lines[1].ends_with("░│"), "{}", lines[1]);
}

#[test]
fn the_shaded_pane_is_a_solid_rectangle() {
    // The gaps between cells belong to the pane too. Leaving them blank
    // turns a filled rectangle into a field of dots.
    let shape = split(Side::Right, Shape::pane("old"), Shape::pane("new"));
    let lines = diagram_with(&shape, 6, 2, Some("new"));
    for line in &lines[1..lines.len() - 1] {
        let chars: Vec<char> = line.chars().collect();
        let start = chars.iter().position(|c| *c == HIGHLIGHT);
        let end = chars.iter().rposition(|c| *c == HIGHLIGHT);
        let (Some(start), Some(end)) = (start, end) else {
            panic!("nothing shaded in {line}");
        };
        assert!(chars[start..=end].iter().all(|c| *c == HIGHLIGHT), "{line} has gaps");
    }
}

#[test]
fn highlighting_a_pane_that_is_not_there_shades_nothing() {
    let shape = split(Side::Right, Shape::pane("a"), Shape::pane("b"));
    let lines = diagram_with(&shape, 2, 2, Some("absent"));
    assert!(lines.iter().all(|l| !l.contains(HIGHLIGHT)));
}

#[test]
fn every_junction_has_its_own_glyph() {
    assert_eq!(junction(true, true, true, true), '┼');
    assert_eq!(junction(true, true, false, true), '├');
    assert_eq!(junction(false, true, true, false), '┐');
    assert_eq!(junction(true, false, false, true), '└');
    assert_eq!(junction(false, false, true, false), '─');
    assert_eq!(junction(false, false, false, false), ' ');
}

#[test]
fn a_grid_given_cell_by_cell_is_drawn_as_given() {
    // Two panes, the second taking the bottom-right cell only.
    let grid = vec![vec![1, 1], vec![1, 2]];
    assert_eq!(draw(&grid, 2, &vec![2]), ["┌───┐", "│   │", "│ ┌─┤", "│ │░│", "└─┴─┘"]);
}

// ----- numbering -----

#[test]
fn panes_are_numbered_in_drawing_order() {
    // `Left` draws its second branch first.
    let shape = split(Side::Left, Shape::pane("a"), split(Side::Down, Shape::pane("b"), Shape::pane("c")));
    assert_eq!(find(&shape, "b"), Some(1));
    assert_eq!(find(&shape, "c"), Some(2));
    assert_eq!(find(&shape, "a"), Some(3));
    assert_eq!(find(&shape, "z"), None);
}

// ----- labels -----

#[test]
fn labels_identify_each_pane_inside_their_own_regions() {
    let shape = split(Side::Right, Shape::pane("left"), Shape::pane("right"));
    let lines = labeled(&shape, 6, 2, &["left"], &[("left", "1"), ("right", "2")]);
    assert!(lines[1].contains("●1"), "{lines:?}");
    assert!(lines[1].contains("○2"), "{lines:?}");
    assert!(lines[1].find('1') < lines[1].find('2'), "{lines:?}");
}

#[test]
fn a_wide_label_does_not_push_the_walls_out_of_line() {
    let mut shape = Shape::pane("a");
    shape.split("a", "b", Side::Right);
    let lines = labeled(&shape, 8, 3, &[], &[("a", "相手"), ("b", "p1")]);
    let expected = width(&lines[0]);
    for (row, line) in lines.iter().enumerate() {
        assert_eq!(width(line), expected, "row {row}: {line}");
    }
    assert!(lines.iter().any(|line| line.contains("相手")));
}

#[test]
fn a_label_too_wide_for_its_pane_is_left_out_rather_than_cut() {
    // Half an identifier is not a shorter identifier.
    let shape = Shape::pane("a");
    let plain = labeled(&shape, 3, 2, &[], &[]);
    let long = labeled(&shape, 3, 2, &[], &[("a", "日本語のとても長いタイトル")]);
    assert_eq!(plain, long);
}

#[test]
fn a_label_never_overwrites_the_wall_of_a_narrow_pane() {
    // A pane one cell wide has one column of interior. `p9` needs two, so
    // it is left out; writing it took the right-hand wall with it.
    let mut shape = Shape::pane("a");
    for n in 1..6 {
        shape.split(&format!("p{}", n - 1), &format!("p{n}"), Side::Right);
    }
    let labels: Vec<(String, String)> = (0..6).map(|n| (format!("p{n}"), format!("p{n}"))).collect();
    let refs: Vec<(&str, &str)> = labels.iter().map(|(a, b)| (a.as_str(), b.as_str())).collect();
    let lines = labeled(&shape, 6, 2, &[], &refs);
    let walls = lines[0].chars().filter(|c| "\u{252c}\u{250c}\u{2510}".contains(*c)).count();
    for line in &lines[1..lines.len() - 1] {
        assert_eq!(line.chars().filter(|c| *c == '\u{2502}').count(), walls, "{line}");
    }
}

#[test]
fn a_label_for_a_pane_with_no_cells_is_skipped() {
    // Every cell is pane 1, so pane 2 has no box to write in.
    let shape = split(Side::Right, Shape::pane("a"), Shape::pane("b"));
    let grid = vec![vec![1, 1, 1], vec![1, 1, 1]];
    let plain = diagram_marking_labeled(&grid, 3, &shape, &[], &[]);
    let named = diagram_marking_labeled(&grid, 3, &shape, &[], &[("b".to_string(), "b".to_string())]);
    assert_eq!(plain, named);
}

// ----- whole panels -----

use herdr_kit::diagram::{draw_panel, draw_panels, renders};
use herdr_kit::term::Panel;

#[test]
fn a_picture_renders_only_when_every_pane_has_a_cell() {
    assert!(renders(&vec![vec![1, 2], vec![1, 2]], 2, 2));
    assert!(!renders(&vec![vec![1, 1], vec![1, 1]], 2, 2));
}

#[test]
fn a_panel_carries_its_caption_in_its_top_border() {
    let shape = split(Side::Right, Shape::pane("a"), Shape::pane("b"));
    let grid = grid_of(&shape, 8, 2);
    let lines = draw_panel(&Panel::new("Tab 2", shape), 8, 2, &grid);
    assert_eq!(lines.len(), 5);
    assert!(lines[0].contains("Tab 2"), "{lines:?}");
    assert!(lines[1].starts_with('│'));
}

#[test]
fn a_tab_too_busy_for_its_box_is_counted_rather_than_drawn() {
    let shape = split(Side::Right, Shape::pane("a"), Shape::pane("b"));
    let crowded = vec![vec![1, 1], vec![1, 1]];
    let lines = draw_panel(&Panel::new("", shape), 2, 2, &crowded);
    assert!(lines[2].contains("2 panes"), "{lines:?}");
}

#[test]
fn an_unreadable_tab_is_a_question_mark_and_no_tab_is_a_dashed_box() {
    let lines = draw_panel(&Panel::unreadable(""), 3, 2, &Vec::new());
    assert!(lines[2].contains('?'), "{lines:?}");
    let gone = draw_panel(&Panel::gone(""), 3, 2, &Vec::new());
    assert!(gone[0].contains('╌'), "{gone:?}");
}

#[test]
fn panels_are_joined_by_an_arrow_on_the_middle_line() {
    let a = Shape::pane("a");
    let b = split(Side::Right, Shape::pane("a"), Shape::pane("b"));
    let grids = vec![grid_of(&a, 2, 2), grid_of(&b, 2, 2)];
    let lines = draw_panels(&vec![Panel::new("", a), Panel::new("", b)], 2, 2, &grids);
    assert_eq!(lines.len(), 5);
    assert!(lines[2].contains('→'), "{lines:?}");
    assert!(!lines[0].contains('→'));
}

// ----- sheets and names -----

use herdr_kit::term::{columns, preview_geometry, stack, title};

#[test]
fn a_stacked_panel_shows_a_second_sheet_behind_the_first() {
    let shape = Shape::pane("p1");
    let front = labeled(&shape, 8, 3, &["p1"], &[("p1", "p1")]);
    let width = front.iter().map(|l| columns(l)).max().unwrap();
    let stacked = stack(front.clone(), None);

    assert_eq!(stacked.len(), front.len() + 1);
    assert_eq!(columns(&stacked[0]), width);
    assert!(stacked[0].starts_with('\u{250c}') && stacked[0].ends_with('\u{2510}'));
    for (row, line) in front.iter().enumerate() {
        assert!(stacked[row + 1].ends_with(line.as_str()), "row {row}");
    }
    assert!(stacked[stacked.len() - 2].starts_with('\u{2514}'));
    assert!(stacked[stacked.len() - 1].starts_with(' '));
}

fn boxed() -> Vec<String> {
    labeled(&Shape::pane("p1"), 9, 3, &[], &[])
}

#[test]
fn a_name_is_written_into_the_top_border() {
    let lines = title(boxed(), "herdr-plugins");
    assert!(lines[0].starts_with("\u{250c}\u{2500}\u{2500}herdr-plugins"));
    assert!(lines[0].ends_with('\u{2510}'));
    let width = columns(&lines[0]);
    assert!(lines.iter().all(|line| columns(line) == width));
}

#[test]
fn a_name_too_long_for_the_frame_is_cut_rather_than_widening_it() {
    let plain = boxed();
    let lines = title(plain.clone(), "a-very-long-project-name-indeed");
    assert_eq!(columns(&lines[0]), columns(&plain[0]));
    assert!(lines[0].ends_with('\u{2510}'));
}

#[test]
fn two_stacked_sheets_each_carry_their_own_name() {
    let lines = stack(title(boxed(), "dotfiles"), Some("herdr-plugins"));
    assert!(lines[0].contains("herdr-plugins"));
    assert!(lines[1].contains("dotfiles"));
    assert!(!lines[0].contains("dotfiles"));
}

#[test]
fn an_unnamed_sheet_behind_is_plain_depth() {
    let lines = stack(title(boxed(), "dotfiles"), None);
    assert!(lines[0].chars().all(|ch| "\u{250c}\u{2500}\u{2510}".contains(ch)));
}

// ----- crowding -----

fn many(panes: usize) -> Shape {
    let mut shape = Shape::pane("p0");
    for n in 1..panes {
        shape.split(
            &format!("p{}", n - 1),
            &format!("p{n}"),
            if n % 2 == 0 { Side::Down } else { Side::Right },
        );
    }
    shape
}

#[test]
fn a_tab_with_more_panes_than_the_space_holds_says_so() {
    let shape = many(10);
    let grids = vec![grid_of(&shape, 12, 3)];
    let panel = Panel::new("busy", shape);
    let lines = draw_panels(&vec![panel], 12, 3, &grids);
    assert!(lines.iter().any(|line| line.contains("10 panes")));
    assert!(lines[0].contains("busy"));
}

#[test]
fn a_crowded_preview_keeps_every_line_the_same_width() {
    for cells_h in 2..8 {
        let shape = many(10);
        let grids = vec![grid_of(&shape, 12, cells_h)];
        let panel = Panel::new("busy", shape)
            .labeling((0..10).map(|n| (format!("p{n}"), format!("p{n}"))).collect());
        let lines = draw_panels(&vec![panel], 12, cells_h, &grids);
        let width = columns(&lines[0]);
        for line in &lines {
            assert_eq!(columns(line), width, "cells_h {cells_h}: {line}");
        }
    }
}

/// The preview area as the menu lays it out: the boxes at the size the room
/// allows, each panel's sheet behind only where that size keeps one, then
/// the legend lines that fit.
fn preview_lines(panels: Vec<Panel>, legend: &[String], room: u16, width: usize) -> Vec<String> {
    let any_stacked = panels.iter().any(|p| p.stacked);
    let geometry = preview_geometry(any_stacked, legend.len(), panels.len(), room, width);
    let panels: Vec<Panel> = panels
        .into_iter()
        .map(|mut p| {
            p.stacked = p.stacked && geometry.stacked;
            p
        })
        .collect();
    let grids: Vec<Vec<Vec<usize>>> = panels
        .iter()
        .map(|p| match &p.shape {
            Some(shape) => grid_of(shape, geometry.cells_w.max(2), geometry.cells_h.max(2)),
            None => Vec::new(),
        })
        .collect();
    let mut lines = draw_panels(&panels, geometry.cells_w, geometry.cells_h, &grids);
    lines.extend(legend.iter().take(geometry.legend).cloned());
    lines
}

#[test]
fn a_preview_never_uses_more_rows_than_it_was_given() {
    for panes in [1usize, 2, 4, 10] {
        for legend in 0..6 {
            for stacked in [false, true] {
                for room in 5..24u16 {
                    let mut panel = Panel::new("tab", many(panes));
                    if stacked {
                        panel = panel.behind("other");
                    }
                    let legend: Vec<String> = (0..legend).map(|n| format!("p{n}: something")).collect();
                    let lines = preview_lines(vec![panel], &legend, room, 80);
                    assert!(
                        lines.len() <= room as usize,
                        "{panes} panes, legend {}, stacked {stacked}, room {room}: {} lines",
                        legend.len(),
                        lines.len()
                    );
                    for line in &lines {
                        assert!(columns(line) <= 80, "too wide: {line}");
                    }
                }
            }
        }
    }
}

#[test]
fn a_preview_in_the_smallest_room_keeps_the_box_and_drops_the_rest() {
    let geometry = preview_geometry(true, 3, 1, 5, 80);
    assert!(!geometry.stacked);
    assert_eq!(geometry.legend, 0);
    assert_eq!(geometry.cells_h, 2);
    let roomy = preview_geometry(true, 3, 1, 12, 80);
    assert!(roomy.stacked);
    assert_eq!(roomy.legend, 3);
    assert_eq!(roomy.cells_h, 3);
}
