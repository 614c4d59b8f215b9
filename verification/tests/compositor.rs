use term_journal::ansi::{encode, encode_patch};
use term_journal::compositor::{diff, Compositor, Frame, Patch, Update};
use term_journal::style::{Cell, ColorType, Span, Style, Token};
use term_journal::window::{Rect, Window};

fn span(text: &str, attrs: &[ColorType]) -> Span {
    Span::from_tokens(vec![Token::new(text, attrs.to_vec())])
}

fn text_of(patch: &Patch) -> String {
    patch.cells.iter().map(|c| c.map(|c| c.ch).unwrap_or('.')).collect()
}

fn cell_count(update: &Update) -> usize {
    update.patches.iter().map(|p| p.cells.len()).sum()
}

fn places(update: &Update) -> Vec<(u16, u16, usize)> {
    update.patches.iter().map(|p| (p.x, p.y, p.cells.len())).collect()
}

fn name(s: &str) -> String {
    String::from(s)
}

#[test]
fn bordered_window_is_painted_and_then_blanked() {
    let mut c = Compositor::new();
    let mut w = Window::new((0, 0), 0, (10, 3));
    w.bordered();
    c.add_window(w, name("A"), vec![]);
    let first = c.render((80, 24));
    assert!(first.clear);
    assert_eq!(places(&first), vec![(0, 0, 10), (0, 1, 10), (0, 2, 10)]);
    assert_eq!(cell_count(&first), 30);
    assert_eq!(text_of(&first.patches[0]), "┌────────┐");
    assert_eq!(text_of(&first.patches[1]), "│        │");
    assert_eq!(text_of(&first.patches[2]), "└────────┘");
    assert!(c.remove_window(name("A")).is_some());
    let second = c.render((80, 24));
    assert!(!second.clear);
    assert_eq!(places(&second), vec![(0, 0, 10), (0, 1, 10), (0, 2, 10)]);
    assert_eq!(cell_count(&second), 30);
    assert!(second.patches.iter().all(|p| p.cells.iter().all(|c| c.is_none())));
    let third = c.render((80, 24));
    assert!(!third.clear);
    assert!(third.patches.is_empty());
}

#[test]
fn second_render_writes_nothing() {
    let mut c = Compositor::new();
    let mut a = Window::new((2, 1), 0, (12, 4));
    a.bordered();
    a.add_line(span("hello", &[ColorType::Red]));
    let mut b = Window::new((8, 3), 1, (6, 3));
    b.add_line(span("over", &[]));
    c.add_window(a, name("a"), vec![]);
    c.add_window(b, name("b"), vec![name("Pop Up")]);
    let first = c.render((40, 10));
    assert!(cell_count(&first) > 0);
    let second = c.render((40, 10));
    assert!(!second.clear);
    assert!(second.patches.is_empty());
    // The same lines again change nothing either.
    c.get_window_mut(name("a")).unwrap().try_update_lines(vec![span("hello", &[ColorType::Red])]);
    assert!(c.render((40, 10)).patches.is_empty());
}

#[test]
fn moved_window_changes_the_cells_it_leaves_and_the_cells_it_comes_to() {
    let mut c = Compositor::new();
    let mut w = Window::new((0, 0), 0, (10, 3));
    w.bordered();
    w.add_line(span("note", &[]));
    c.add_window(w, name("w"), vec![]);
    c.render((80, 24));
    c.get_window_mut(name("w")).unwrap().move_to((5, 5));
    let update = c.render((80, 24));
    assert!(!update.clear);
    assert_eq!(places(&update), vec![
        (0, 0, 10),
        (0, 1, 10),
        (0, 2, 10),
        (5, 5, 10),
        (5, 6, 10),
        (5, 7, 10)
    ]);
    assert_eq!(cell_count(&update), 60);
    assert_eq!(text_of(&update.patches[0]), "..........");
    assert_eq!(text_of(&update.patches[4]), "│note    │");
}

#[test]
fn moved_window_that_overlaps_its_old_place() {
    // A blank window shows the same in every cell, so where the old and the
    // new place overlap nothing changes.
    let mut c = Compositor::new();
    c.add_window(Window::new((0, 0), 0, (4, 4)), name("w"), vec![]);
    c.render((20, 10));
    c.get_window_mut(name("w")).unwrap().move_to((2, 2));
    let update = c.render((20, 10));
    assert_eq!(places(&update), vec![
        (0, 0, 4),
        (0, 1, 4),
        (0, 2, 2),
        (4, 2, 2),
        (0, 3, 2),
        (4, 3, 2),
        (2, 4, 4),
        (2, 5, 4)
    ]);
    assert_eq!(cell_count(&update), 24);
}

#[test]
fn higher_priority_shows_and_the_last_added_wins_a_tie() {
    let mut c = Compositor::new();
    let mut low = Window::new((0, 0), 1, (3, 1));
    low.add_line(span("aaa", &[]));
    let mut high = Window::new((1, 0), 5, (3, 1));
    high.add_line(span("bbb", &[]));
    let mut tie = Window::new((3, 0), 5, (3, 1));
    tie.add_line(span("ccc", &[]));
    c.add_window(high, name("high"), vec![]);
    c.add_window(low, name("low"), vec![]);
    c.add_window(tie, name("tie"), vec![]);
    let update = c.render((10, 2));
    assert_eq!(places(&update), vec![(0, 0, 6)]);
    assert_eq!(text_of(&update.patches[0]), "abbccc");
}

#[test]
fn window_is_cut_at_the_edge_of_the_terminal() {
    let mut c = Compositor::new();
    let mut w = Window::new((3, 1), 0, (10, 5));
    w.bordered();
    c.add_window(w, name("w"), vec![]);
    let update = c.render((6, 3));
    assert_eq!(places(&update), vec![(3, 1, 3), (3, 2, 3)]);
    assert_eq!(text_of(&update.patches[0]), "┌──");
    assert_eq!(text_of(&update.patches[1]), "│  ");
    let mut out = Compositor::new();
    out.add_window(Window::new((50, 50), 0, (2, 2)), name("far"), vec![]);
    assert!(out.render((6, 3)).patches.is_empty());
}

#[test]
fn change_of_size_clears_the_screen() {
    let mut c = Compositor::new();
    let mut w = Window::new((0, 0), 0, (2, 1));
    w.add_line(span("ok", &[]));
    c.add_window(w, name("w"), vec![]);
    assert!(c.render((10, 5)).clear);
    let again = c.render((12, 5));
    assert!(again.clear);
    assert_eq!(places(&again), vec![(0, 0, 2)]);
    assert!(!c.render((12, 5)).clear);
    assert_eq!(c.frame.width, 12);
    assert_eq!(c.frame.height, 5);
    assert_eq!(c.frame.get(0, 0), Some(Cell { ch: 'o', style: Style::plain() }));
    assert_eq!(c.frame.get(2, 0), None);
}

#[test]
fn render_counts_the_windows_as_drawn() {
    let mut c = Compositor::new();
    c.add_window(Window::new((0, 0), 0, (2, 1)), name("w"), vec![]);
    assert!(c.get_window(name("w")).unwrap().is_dirty());
    c.render((10, 5));
    assert!(!c.get_window(name("w")).unwrap().is_dirty());
}

#[test]
fn changed_line_is_written_alone() {
    let mut c = Compositor::new();
    let mut w = Window::new((1, 1), 0, (8, 3));
    w.from_lines(vec![span("first", &[]), span("second", &[]), span("third", &[])]);
    c.add_window(w, name("w"), vec![]);
    c.render((20, 6));
    c.get_window_mut(name("w")).unwrap().try_update_lines(vec![
        span("first", &[]),
        span("sEcoNd", &[]),
        span("third", &[]),
    ]);
    let update = c.render((20, 6));
    assert_eq!(places(&update), vec![(2, 2, 1), (5, 2, 1)]);
    assert_eq!(text_of(&update.patches[0]), "E");
    assert_eq!(text_of(&update.patches[1]), "N");
}

#[test]
fn names_are_unique() {
    let mut c = Compositor::new();
    assert!(!c.contains_window(name("w")));
    assert!(c.get_window_mut(name("w")).is_none());
    assert!(c.get_window(name("w")).is_none());
    assert!(c.remove_window(name("w")).is_none());
    c.add_window(Window::new((0, 0), 0, (2, 1)), name("w"), vec![]);
    c.add_window(Window::new((0, 0), 0, (3, 3)), name("v"), vec![]);
    c.add_window(Window::new((7, 7), 2, (5, 5)), name("w"), vec![name("tag")]);
    assert_eq!(c.len(), 2);
    assert!(c.contains_window(name("w")));
    assert_eq!(c.get_window(name("w")).unwrap().rect(), Rect { x: 7, y: 7, width: 5, height: 5 });
    assert_eq!(c.entries[0].name, "w");
    assert_eq!(c.entries[0].tags, vec![name("tag")]);
    let removed = c.remove_window(name("w")).unwrap();
    assert_eq!(removed.priority, 2);
    assert!(!c.contains_window(name("w")));
    assert!(c.contains_window(name("v")));
    assert_eq!(c.len(), 1);
}

#[test]
fn diff_of_frames() {
    let blank = Frame::blank(5, 2);
    assert!(diff(&blank, &Frame::blank(5, 2)).is_empty());
    let mut other = Frame::blank(5, 2);
    let x = Some(Cell { ch: 'x', style: Style::plain() });
    other.rows[0][0] = x;
    other.rows[0][1] = x;
    other.rows[0][4] = x;
    other.rows[1][2] = x;
    let patches = diff(&blank, &other);
    let at: Vec<(u16, u16, usize)> = patches.iter().map(|p| (p.x, p.y, p.cells.len())).collect();
    assert_eq!(at, vec![(0, 0, 2), (4, 0, 1), (2, 1, 1)]);
    let back = diff(&other, &blank);
    assert_eq!(back.len(), 3);
    assert!(back.iter().all(|p| p.cells.iter().all(|c| c.is_none())));
    assert!(diff(&Frame::blank(0, 0), &Frame::blank(0, 0)).is_empty());
}

#[test]
fn patch_is_written_as_control_sequences() {
    let bold_red = Style::plain().with(ColorType::Bold).with(ColorType::Red);
    let patch = Patch {
        x: 0,
        y: 0,
        cells: vec![
            Some(Cell { ch: 'a', style: Style::plain() }),
            Some(Cell { ch: 'b', style: bold_red }),
            Some(Cell { ch: 'c', style: bold_red }),
            None,
        ],
    };
    assert_eq!(encode_patch(&patch), "\x1b[1;1H\x1b[0ma\x1b[0;31;1mbc\x1b[0m \x1b[0m");
    let far = Patch { x: 79, y: 23, cells: vec![Some(Cell { ch: '─', style: Style::plain().with(ColorType::OnBrightWhite) })] };
    assert_eq!(encode_patch(&far), "\x1b[24;80H\x1b[0;107m─\x1b[0m");
    let update = Update { clear: true, patches: vec![patch, far] };
    assert_eq!(
        encode(&update),
        "\x1b[2J\x1b[1;1H\x1b[0ma\x1b[0;31;1mbc\x1b[0m \x1b[0m\x1b[24;80H\x1b[0;107m─\x1b[0m"
    );
    assert_eq!(encode(&Update { clear: false, patches: vec![] }), "");
    assert_eq!(encode(&Update { clear: true, patches: vec![] }), "\x1b[2J");
}
