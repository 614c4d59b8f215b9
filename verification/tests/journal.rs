use term_journal::creator::CreationField;
use term_journal::decoder::Parser;
use term_journal::entries::{Date, Log, Logs, Mood, WeekDay};
use term_journal::events::{KeyParser, MouseEvent, MouseEventType, MouseState};
use term_journal::journal::App;
use term_journal::style::{ColorType, Span, Style};
use term_journal::window::Rect;

const DAY: Date = Date { weekday: WeekDay::Friday, day: 2, month: 1, year: 2026 };

fn journal(titles: &[&str]) -> App {
    let mut logs = Logs::new();
    for title in titles {
        logs.push(Log::dated(String::from(*title), String::from("text"), DAY));
    }
    let mut app = App::new(logs);
    app.start((120, 40));
    app
}

fn mouse(event_type: MouseEventType, x: u16, y: u16, state: MouseState) -> KeyParser {
    let mut keys = KeyParser::new();
    keys.mouse_event = Some(MouseEvent { event_type, position: (x, y), state });
    keys
}

fn release(x: u16, y: u16) -> KeyParser {
    mouse(MouseEventType::Left, x, y, MouseState::Release)
}

fn name(s: &str) -> String {
    String::from(s)
}

fn styled(attrs: &[ColorType]) -> Style {
    Style::from_attrs(&attrs.to_vec())
}

fn shown(line: &Span) -> Vec<(String, Style)> {
    line.tokens.iter().map(|t| (t.text.clone(), t.style)).collect()
}

fn pair(text: &str, attrs: &[ColorType]) -> (String, Style) {
    (String::from(text), styled(attrs))
}

#[test]
fn new_journal_has_nothing_open() {
    let app = journal(&["a", "b"]);
    assert_eq!(app.area, Rect { x: 0, y: 0, width: 120, height: 40 });
    assert_eq!(app.scrolled, 0);
    assert_eq!(app.selected, None);
    assert!(app.creator_button.is_none());
    assert_eq!(app.editing_index, None);
    assert_eq!(app.renderer.len(), 0);
    assert_eq!(app.logs.len(), 2);
}

#[test]
fn start_shows_the_end_of_the_list() {
    let titles: Vec<String> = (0..30).map(|i| format!("entry {}", i)).collect();
    let refs: Vec<&str> = titles.iter().map(|s| s.as_str()).collect();
    let mut app = journal(&refs);
    assert_eq!(app.scrolled, 11);
    app.start((120, 10));
    assert_eq!(app.scrolled, 26);
    app.start((120, 1));
    assert_eq!(app.scrolled, 30);
    app.start((120, 100));
    assert_eq!(app.scrolled, 0);
    app.resize((80, 24));
    assert_eq!(app.area, Rect { x: 0, y: 0, width: 80, height: 24 });
    assert_eq!(app.scrolled, 0);
}

#[test]
fn list_shows_two_lines_to_an_entry() {
    let mut app = journal(&["a", "b", "c"]);
    app.scrolled = 1;
    app.selected = Some(2);
    let lines = app.list_text();
    assert_eq!(lines.len(), 4);
    let blanks = " ".repeat(70);
    assert_eq!(shown(&lines[0]), vec![
        pair(" ", &[]),
        pair("b", &[ColorType::BrightWhite, ColorType::Bold]),
        pair(&blanks, &[])
    ]);
    assert_eq!(shown(&lines[1]), vec![
        pair("    ", &[]),
        pair("Friday, the 2nd of January, 2026", &[ColorType::White, ColorType::Italic]),
        pair(&blanks, &[])
    ]);
    let dark = [ColorType::OnBrightBlack];
    assert_eq!(shown(&lines[2]), vec![
        pair(" ", &dark),
        pair("c", &[ColorType::BrightWhite, ColorType::Bold, ColorType::OnBrightBlack]),
        pair(&blanks, &dark)
    ]);
    assert_eq!(shown(&lines[3])[1], pair(
        "Friday, the 2nd of January, 2026",
        &[ColorType::White, ColorType::Italic, ColorType::OnBrightBlack]
    ));
    app.scrolled = 3;
    assert!(app.list_text().is_empty());
    app.scrolled = 7;
    assert!(app.list_text().is_empty());
}

#[test]
fn render_logs_makes_and_updates_the_list() {
    let mut app = journal(&["a", "b"]);
    app.render_logs();
    assert_eq!(app.renderer.len(), 1);
    let list = app.renderer.get_window(name("Logs")).unwrap();
    assert_eq!(list.rect(), Rect { x: 1, y: 1, width: 50, height: 40 });
    assert_eq!(list.priority, 0);
    assert!(list.border);
    assert_eq!(list.lines.len(), 4);
    app.renderer.render((120, 40));
    app.resize((120, 30));
    app.logs.push(Log::dated(String::from("c"), String::new(), DAY));
    app.render_logs();
    let list = app.renderer.get_window(name("Logs")).unwrap();
    assert_eq!(list.rect(), Rect { x: 1, y: 1, width: 50, height: 30 });
    assert_eq!(list.lines.len(), 6);
    assert_eq!(app.renderer.len(), 1);
}

#[test]
fn release_over_the_list_opens_and_closes_an_entry() {
    let mut app = journal(&["a", "b", "c"]);
    app.render_logs();
    app.render_log_creation();
    // Rows 2 and 3 show the first entry, rows 4 and 5 the second.
    assert!(!app.mouse(&release(10, 4), DAY));
    assert_eq!(app.selected, Some(1));
    app.render_logs();
    assert!(app.renderer.contains_window(name("LogView")));
    assert!(app.renderer.contains_window(name("EditButton")));
    assert!(app.renderer.contains_window(name("DelButton")));
    let view = app.renderer.get_window(name("LogView")).unwrap();
    assert_eq!(view.rect(), Rect { x: 50, y: 1, width: 71, height: 40 });
    assert!(view.border);
    assert_eq!(view.lines.len(), 3);
    assert_eq!(shown(&view.lines[1])[1].0, "b");
    assert_eq!(app.renderer.get_window(name("EditButton")).unwrap().rect(), Rect { x: 109, y: 2, width: 10, height: 3 });
    assert_eq!(app.renderer.get_window(name("DelButton")).unwrap().rect(), Rect { x: 98, y: 2, width: 10, height: 3 });
    assert_eq!(shown(&app.renderer.get_window(name("EditButton")).unwrap().lines[0]), vec![pair(
        "  Edit  ",
        &[ColorType::Bold, ColorType::BrightWhite]
    )]);
    assert_eq!(shown(&app.renderer.get_window(name("DelButton")).unwrap().lines[0])[0].0, " Delete ");
    // Another entry.
    app.mouse(&release(49, 2), DAY);
    assert_eq!(app.selected, Some(0));
    app.render_logs();
    assert_eq!(shown(&app.renderer.get_window(name("LogView")).unwrap().lines[1])[1].0, "a");
    // The same entry again closes it.
    app.mouse(&release(0, 3), DAY);
    assert_eq!(app.selected, None);
    assert!(!app.renderer.contains_window(name("LogView")));
    assert!(!app.renderer.contains_window(name("EditButton")));
    assert!(!app.renderer.contains_window(name("DelButton")));
    assert!(app.renderer.contains_window(name("Logs")));
    assert!(app.renderer.contains_window(name("Create")));
}

#[test]
fn rows_without_an_entry_and_presses_do_nothing() {
    let mut app = journal(&["a", "b"]);
    app.mouse(&release(10, 0), DAY);
    assert_eq!(app.selected, None);
    app.mouse(&release(10, 1), DAY);
    assert_eq!(app.selected, None);
    app.mouse(&release(10, 6), DAY);
    assert_eq!(app.selected, None);
    app.mouse(&mouse(MouseEventType::Left, 10, 2, MouseState::Press), DAY);
    assert_eq!(app.selected, None);
    app.mouse(&mouse(MouseEventType::Right, 10, 2, MouseState::Release), DAY);
    assert_eq!(app.selected, None);
    app.mouse(&KeyParser::new(), DAY);
    assert_eq!(app.selected, None);
    app.scrolled = 1;
    app.mouse(&release(10, 1), DAY);
    assert_eq!(app.selected, Some(0));
    app.mouse(&release(10, 2), DAY);
    assert_eq!(app.selected, Some(1));
}

#[test]
fn button_opens_and_closes_the_form() {
    let mut app = journal(&["a"]);
    app.render_log_creation();
    let create = app.renderer.get_window(name("Create")).unwrap();
    assert_eq!(create.rect(), Rect { x: 104, y: 37, width: 15, height: 3 });
    assert_eq!(create.priority, 1);
    assert!(create.border);
    assert_eq!(create.color, styled(&[ColorType::OnBrightBlack]));
    assert_eq!(shown(&create.lines[0]), vec![pair(
        "  New Entry    ",
        &[ColorType::White, ColorType::OnBrightBlack]
    )]);
    assert!(!app.renderer.contains_window(name("CreatorMenu")));
    for (x, y) in [(103, 38), (110, 36), (110, 40)] {
        app.mouse(&release(x, y), DAY);
        assert!(app.creator_button.is_none());
    }
    app.mouse(&mouse(MouseEventType::Left, 110, 38, MouseState::Press), DAY);
    assert!(app.creator_button.is_none());
    assert!(!app.mouse(&release(104, 37), DAY));
    assert!(app.creator_button.is_some());
    assert_eq!(app.editing_index, None);
    app.render_log_creation();
    let menu = app.renderer.get_window(name("CreatorMenu")).unwrap();
    assert_eq!(menu.rect(), Rect { x: 25, y: 5, width: 70, height: 30 });
    assert_eq!(menu.priority, 2);
    assert!(menu.border);
    assert_eq!(menu.color, styled(&[ColorType::Bold]));
    assert_eq!(shown(menu.title.as_ref().unwrap()), vec![pair(
        "Create New Entry",
        &[ColorType::Bold, ColorType::BrightWhite]
    )]);
    assert_eq!(menu.lines.len(), 28);
    assert_eq!(app.renderer.entries.iter().find(|e| e.name == "CreatorMenu").unwrap().tags, vec![name("Pop Up")]);
    // The button again closes the form.
    app.mouse(&release(119, 39), DAY);
    assert!(app.creator_button.is_none());
    assert!(!app.renderer.contains_window(name("CreatorMenu")));
}

#[test]
fn form_takes_clicks_and_keys() {
    let mut app = journal(&["a"]);
    app.mouse(&release(110, 38), DAY);
    app.render_log_creation();
    // A click on the title inside the form.
    app.mouse(&release(60, 8), DAY);
    assert_eq!(app.creator_button.as_ref().unwrap().selected_field, Some(CreationField::Title));
    let mut keys = KeyParser::new();
    let mut parser = Parser::new();
    keys.feed(&mut parser, b"Hello");
    assert!(!app.handle_keys(&keys));
    assert_eq!(app.creator_button.as_ref().unwrap().title, "Hello");
    app.render_log_creation();
    let menu = app.renderer.get_window(name("CreatorMenu")).unwrap();
    assert_eq!(shown(&menu.lines[2])[1], pair("Hello", &[ColorType::White, ColorType::Underline]));
    // The mood by the held mouse.
    app.mouse(&mouse(MouseEventType::Left, 66, 18, MouseState::Hold), DAY);
    assert_eq!(app.creator_button.as_ref().unwrap().mood_quality, 8);
    // The button that makes the entry.
    assert!(!app.mouse(&release(85, 32), DAY));
    assert!(app.creator_button.as_ref().unwrap().dead);
    assert_eq!(app.logs.len(), 2);
    assert_eq!(app.logs.get(1).entry_title, "Hello");
    assert_eq!(app.logs.get(1).entry_date, "Friday, the 2nd of January, 2026");
    assert_eq!(app.logs.get(1).mood.as_ref().unwrap().quality, 8);
    // The next keys, whatever they are, close the form that is done with.
    assert!(app.handle_keys(&KeyParser::new()));
    assert!(app.creator_button.is_none());
    assert!(!app.renderer.contains_window(name("CreatorMenu")));
    assert!(!app.handle_keys(&KeyParser::new()));
}

#[test]
fn escape_leaves_the_form() {
    let mut app = journal(&["a"]);
    app.mouse(&release(110, 38), DAY);
    app.render_log_creation();
    let mut keys = KeyParser::new();
    let mut parser = Parser::new();
    keys.feed(&mut parser, &[0x1B]);
    assert!(app.handle_keys(&keys));
    assert!(app.creator_button.is_none());
    assert_eq!(app.editing_index, None);
    assert!(!app.renderer.contains_window(name("CreatorMenu")));
    assert_eq!(app.logs.len(), 1);
}

#[test]
fn edit_fills_the_form_from_the_open_entry() {
    let mut app = journal(&["a", "b"]);
    let mut full = Log::dated(String::from("full"), String::from("words"), DAY);
    full.add_event(String::from("walk"));
    full.add_food(String::from("soup"));
    full.mood = Some(Mood {
        quality: 9,
        description: String::from("bright"),
        reason: Some(String::from("sun")),
    });
    app.logs.set(1, full);
    // Without an open entry there is no button to click.
    app.mouse(&release(110, 3), DAY);
    assert!(app.creator_button.is_none());
    app.mouse(&release(10, 4), DAY);
    app.render_logs();
    app.mouse(&release(97, 3), DAY);
    assert!(app.creator_button.is_none());
    assert_eq!(app.logs.len(), 2);
    assert!(!app.mouse(&release(109, 2), DAY));
    let form = app.creator_button.as_ref().unwrap();
    assert_eq!(app.editing_index, Some(1));
    assert_eq!(form.title, "full");
    assert_eq!(form.text, "words");
    assert_eq!(form.events, vec![name("walk")]);
    assert_eq!(form.food, vec![name("soup")]);
    assert_eq!(form.mood_quality, 9);
    assert_eq!(form.mood_description, "bright");
    assert_eq!(form.mood_reason, "sun");
    assert_eq!(form.cursors, [4, 5, 0, 0, 6, 3]);
    assert_eq!(form.selected_field, None);
    app.render_log_creation();
    let menu = app.renderer.get_window(name("CreatorMenu")).unwrap();
    assert_eq!(shown(menu.title.as_ref().unwrap())[0].0, " Editing Entry ");
    // While an entry is changed the button at the lower right does nothing.
    app.mouse(&release(110, 38), DAY);
    assert!(app.creator_button.is_some());
    // The button of the form puts the entry back in its place.
    app.creator_button.as_mut().unwrap().title = name("changed");
    app.mouse(&release(85, 32), DAY);
    assert_eq!(app.logs.len(), 2);
    assert_eq!(app.logs.get(1).entry_title, "changed");
    assert_eq!(app.logs.get(1).events, Some(vec![name("walk")]));
    assert!(app.handle_keys(&KeyParser::new()));
    assert_eq!(app.editing_index, None);
}

#[test]
fn delete_takes_the_open_entry_out() {
    let mut app = journal(&["a", "b", "c"]);
    app.scrolled = 1;
    app.mouse(&release(10, 2), DAY);
    assert_eq!(app.selected, Some(1));
    // Without the button on the screen nothing is deleted.
    assert!(!app.mouse(&release(99, 3), DAY));
    assert_eq!(app.logs.len(), 3);
    app.render_logs();
    assert!(!app.mouse(&release(97, 3), DAY));
    assert!(!app.mouse(&release(99, 1), DAY));
    assert!(!app.mouse(&release(99, 5), DAY));
    assert_eq!(app.logs.len(), 3);
    assert!(app.mouse(&release(98, 2), DAY));
    assert_eq!(app.logs.len(), 2);
    assert_eq!(app.logs.get(0).entry_title, "a");
    assert_eq!(app.logs.get(1).entry_title, "c");
    assert_eq!(app.selected, None);
    assert_eq!(app.scrolled, 0);
    assert!(!app.renderer.contains_window(name("LogView")));
    assert!(!app.renderer.contains_window(name("DelButton")));
    assert!(!app.renderer.contains_window(name("EditButton")));
}

#[test]
fn wheel_scrolls_the_list() {
    let titles: Vec<String> = (0..30).map(|i| format!("entry {}", i)).collect();
    let refs: Vec<&str> = titles.iter().map(|s| s.as_str()).collect();
    let mut app = journal(&refs);
    app.scrolled = 10;
    let mut down = mouse(MouseEventType::Down, 10, 10, MouseState::Press);
    down.scroll_accumulate = 1;
    app.mouse(&down, DAY);
    assert_eq!(app.scrolled, 14);
    down.scroll_accumulate = 3;
    app.mouse(&down, DAY);
    assert_eq!(app.scrolled, 26);
    app.mouse(&down, DAY);
    assert_eq!(app.scrolled, 29);
    down.scroll_accumulate = -2;
    app.mouse(&down, DAY);
    assert_eq!(app.scrolled, 29);
    let mut up = mouse(MouseEventType::Up, 49, 0, MouseState::Press);
    up.scroll_accumulate = -2;
    app.mouse(&up, DAY);
    assert_eq!(app.scrolled, 21);
    up.scroll_accumulate = 1;
    app.mouse(&up, DAY);
    assert_eq!(app.scrolled, 21);
    up.scroll_accumulate = i64::MIN;
    app.mouse(&up, DAY);
    assert_eq!(app.scrolled, 0);
    let mut aside = mouse(MouseEventType::Down, 50, 0, MouseState::Press);
    aside.scroll_accumulate = 5;
    app.mouse(&aside, DAY);
    assert_eq!(app.scrolled, 0);
    down.scroll_accumulate = i64::MAX;
    app.mouse(&down, DAY);
    assert_eq!(app.scrolled, 29);
    let mut empty = journal(&[]);
    down.scroll_accumulate = 1;
    empty.mouse(&down, DAY);
    assert_eq!(empty.scrolled, 0);
}

#[test]
fn mouse_and_keys_of_one_tick() {
    let mut app = journal(&["a"]);
    app.render_logs();
    app.render_log_creation();
    let mut keys = release(110, 38);
    assert!(!app.handle_events(&keys));
    assert!(app.creator_button.is_some());
    keys = KeyParser::new();
    let mut parser = Parser::new();
    keys.feed(&mut parser, &[0x1B]);
    assert!(app.handle_events(&keys));
    assert!(app.creator_button.is_none());
    // An entry made by the clock.
    app.handle_mouse_events(&release(110, 38));
    assert!(!app.handle_mouse_events(&release(85, 32)));
    assert_eq!(app.logs.len(), 2);
    assert!(app.logs.get(1).entry_date.contains(" of "));
}

#[test]
fn whole_screen_is_drawn_once() {
    let mut app = journal(&["a", "b"]);
    app.render_logs();
    app.render_log_creation();
    let first = app.renderer.render((120, 40));
    assert!(first.clear);
    assert!(!first.patches.is_empty());
    app.render_logs();
    app.render_log_creation();
    let second = app.renderer.render((120, 40));
    assert!(!second.clear);
    assert!(second.patches.is_empty());
    app.mouse(&release(5, 2), DAY);
    app.render_logs();
    app.render_log_creation();
    let third = app.renderer.render((120, 40));
    assert!(!third.patches.is_empty());
    // The list changes on the two rows of the open entry, inside its border.
    let rows: Vec<u16> = third.patches.iter().filter(|p| p.x < 50).map(|p| p.y).collect();
    assert_eq!(rows, vec![2, 3]);
    app.render_logs();
    app.render_log_creation();
    assert!(app.renderer.render((120, 40)).patches.is_empty());
}
