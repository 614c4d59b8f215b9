use term_journal::creator::{CreationField, CreatorButton};
use term_journal::decoder::Parser;
use term_journal::entries::{Date, Log, Logs, WeekDay};
use term_journal::events::{KeyParser, MouseEvent, MouseEventType, MouseState};
use term_journal::style::{ColorType, Span, Style};
use term_journal::window::Rect;

const DAY: Date = Date { weekday: WeekDay::Friday, day: 2, month: 1, year: 2026 };
const AREA: Rect = Rect { x: 0, y: 0, width: 120, height: 40 };

fn keys(bytes: &[u8]) -> KeyParser {
    let mut keys = KeyParser::new();
    let mut parser = Parser::new();
    keys.feed(&mut parser, bytes);
    keys
}

fn at(x: u16, y: u16) -> MouseEvent {
    MouseEvent { event_type: MouseEventType::Left, position: (x, y), state: MouseState::Release }
}

fn click(form: &mut CreatorButton, x: u16, y: u16) {
    let mut logs = Logs::new();
    form.click(&at(x, y), &AREA, &mut logs, None, DAY);
    assert_eq!(logs.len(), 0);
}

fn styled(attrs: &[ColorType]) -> Style {
    Style::from_attrs(&attrs.to_vec())
}

fn shown(line: &Span) -> Vec<(String, Style)> {
    line.tokens.iter().map(|t| (t.text.clone(), t.style)).collect()
}

fn pair(text: &str, attrs: &[ColorType]) -> (String, Style) {
    (String::from(text), styled(attrs))
}

fn blanks(n: usize) -> (String, Style) {
    (" ".repeat(n), Style::plain())
}

#[test]
fn new_form_is_empty() {
    let form = CreatorButton::new();
    assert_eq!(form.selected_field, None);
    assert_eq!(form.title, "");
    assert_eq!(form.text, "");
    assert_eq!(form.cursors, [0; 6]);
    assert!(!form.dead);
    assert!(form.events.is_empty() && form.food.is_empty());
    assert_eq!(form.mood_quality, 5);
    assert_eq!(form.mood_description, "");
    assert_eq!(form.mood_reason, "");
}

#[test]
fn update_cursors_puts_them_at_the_ends() {
    let mut form = CreatorButton::new();
    form.title = String::from("tïtle");
    form.text = String::from("ab");
    form.mood_description = String::from("good");
    form.mood_reason = String::from("r");
    form.cursors = [9, 9, 9, 9, 9, 9];
    form.update_cursors();
    assert_eq!(form.cursors, [5, 2, 0, 0, 4, 1]);
}

#[test]
fn typing_goes_in_at_the_cursor() {
    let mut form = CreatorButton::new();
    form.selected_field = Some(CreationField::Title);
    form.handle_events(&keys(b"ab"));
    assert_eq!(form.title, "ab");
    assert_eq!(form.cursors[0], 2);
    form.handle_events(&keys(b"\x1b[D"));
    assert_eq!(form.cursors[0], 1);
    form.handle_events(&keys("é".as_bytes()));
    assert_eq!(form.title, "aéb");
    assert_eq!(form.cursors[0], 2);
    form.handle_events(&keys(&[0x7F]));
    assert_eq!(form.title, "ab");
    assert_eq!(form.cursors[0], 1);
    form.handle_events(&keys(b"\x1b[C"));
    assert_eq!(form.cursors[0], 2);
    form.handle_events(&keys(b"\x1b[C"));
    assert_eq!(form.cursors[0], 2);
    assert_eq!(form.text, "");
    assert_eq!(form.cursors[1], 0);
}

#[test]
fn delete_at_the_start_ends_the_tick() {
    let mut form = CreatorButton::new();
    form.selected_field = Some(CreationField::Text);
    form.text = String::from("ab");
    form.cursors[1] = 0;
    // Delete with nothing before the cursor: Right in the same tick is lost.
    form.handle_events(&keys(b"\x7f\x1b[C"));
    assert_eq!(form.text, "ab");
    assert_eq!(form.cursors[1], 0);
    form.handle_events(&keys(b"\x1b[D"));
    assert_eq!(form.cursors[1], 0);
    // Typed text, Delete and Left in one tick.
    form.handle_events(&keys(b"xy\x7f\x1b[D"));
    assert_eq!(form.text, "xab");
    assert_eq!(form.cursors[1], 0);
    let mut empty = CreatorButton::new();
    empty.selected_field = Some(CreationField::MoodReason);
    empty.handle_events(&keys(&[0x7F]));
    assert_eq!(empty.mood_reason, "");
    assert_eq!(empty.cursors[5], 0);
}

#[test]
fn modifier_keeps_text_from_being_typed() {
    let mut form = CreatorButton::new();
    form.selected_field = Some(CreationField::MoodDescription);
    form.handle_events(&keys(b"\x1bx"));
    assert_eq!(form.mood_description, "");
    form.handle_events(&keys(&[0x01]));
    assert_eq!(form.mood_description, "");
    form.handle_events(&keys(b"ok"));
    assert_eq!(form.mood_description, "ok");
    assert_eq!(form.cursors[4], 2);
}

#[test]
fn without_a_field_nothing_is_typed() {
    let mut form = CreatorButton::new();
    form.handle_events(&keys(b"abc\x7f"));
    assert_eq!(form.title, "");
    assert_eq!(form.text, "");
    assert_eq!(form.cursors, [0; 6]);
    assert!(!form.dead);
}

#[test]
fn return_and_escape() {
    let mut form = CreatorButton::new();
    form.selected_field = Some(CreationField::Title);
    form.handle_events(&keys(&[0x0D]));
    assert_eq!(form.selected_field, None);
    assert!(!form.dead);
    form.selected_field = Some(CreationField::Text);
    form.handle_events(&keys(&[0x1B]));
    assert_eq!(form.selected_field, None);
    assert!(!form.dead);
    form.handle_events(&keys(&[0x1B]));
    assert!(form.dead);
    // Return lets go of the field, and Escape in the same tick leaves.
    let mut both = CreatorButton::new();
    both.selected_field = Some(CreationField::Title);
    let mut k = keys(&[0x0D]);
    let mut parser = Parser::new();
    k.feed(&mut parser, &[0x1B]);
    both.handle_events(&k);
    assert!(both.dead);
}

#[test]
fn items_of_lists_are_typed_at_their_end() {
    let mut form = CreatorButton::new();
    form.events = vec![String::from("one"), String::from("two")];
    form.selected_field = Some(CreationField::Events);
    form.cursors[2] = 1;
    form.handle_events(&keys(b"!"));
    assert_eq!(form.events, vec![String::from("one"), String::from("two!")]);
    form.handle_events(&keys(b"ab\x7f"));
    assert_eq!(form.events[1], "two!a");
    form.cursors[2] = 2;
    form.handle_events(&keys(b"lost"));
    assert_eq!(form.events, vec![String::from("one"), String::from("two!a")]);
    form.food = vec![String::new()];
    form.selected_field = Some(CreationField::Foods);
    form.cursors[3] = 0;
    form.handle_events(&keys(&[0x7F]));
    assert_eq!(form.food, vec![String::new()]);
    form.handle_events(&keys(b"tea"));
    assert_eq!(form.food, vec![String::from("tea")]);
}

#[test]
fn clicks_select_the_fields() {
    let mut form = CreatorButton::new();
    click(&mut form, 60, 8);
    assert_eq!(form.selected_field, Some(CreationField::Title));
    click(&mut form, 65, 8);
    assert_eq!(form.selected_field, None);
    click(&mut form, 66, 8);
    assert_eq!(form.selected_field, None);
    click(&mut form, 55, 11);
    assert_eq!(form.selected_field, Some(CreationField::Text));
    click(&mut form, 60, 8);
    assert_eq!(form.selected_field, Some(CreationField::Title));
    click(&mut form, 54, 11);
    assert_eq!(form.selected_field, None);
    form.title = String::from("a long title of thirty letters");
    click(&mut form, 40, 8);
    assert_eq!(form.selected_field, Some(CreationField::Title));
    click(&mut form, 39, 8);
    assert_eq!(form.selected_field, None);
    click(&mut form, 60, 21);
    assert_eq!(form.selected_field, Some(CreationField::MoodDescription));
    click(&mut form, 66, 21);
    assert_eq!(form.selected_field, None);
    click(&mut form, 65, 24);
    assert_eq!(form.selected_field, Some(CreationField::MoodReason));
    click(&mut form, 5, 5);
    assert_eq!(form.selected_field, None);
}

#[test]
fn clicks_add_and_select_events_and_food() {
    let mut form = CreatorButton::new();
    click(&mut form, 50, 13);
    assert_eq!(form.selected_field, Some(CreationField::Events));
    assert_eq!(form.events, vec![String::new()]);
    assert_eq!(form.cursors[2], 0);
    click(&mut form, 70, 13);
    assert_eq!(form.events.len(), 2);
    assert_eq!(form.cursors[2], 1);
    click(&mut form, 71, 13);
    assert_eq!(form.events.len(), 2);
    assert_eq!(form.selected_field, None);
    click(&mut form, 60, 14);
    assert_eq!(form.selected_field, Some(CreationField::Events));
    assert_eq!(form.cursors[2], 0);
    click(&mut form, 65, 15);
    assert_eq!(form.cursors[2], 1);
    click(&mut form, 66, 15);
    assert_eq!(form.selected_field, None);
    // With two events the food starts two rows lower.
    click(&mut form, 60, 17);
    assert_eq!(form.selected_field, Some(CreationField::Foods));
    assert_eq!(form.food, vec![String::new()]);
    assert_eq!(form.cursors[3], 0);
    click(&mut form, 60, 17);
    assert_eq!(form.food.len(), 2);
    assert_eq!(form.cursors[3], 1);
    click(&mut form, 60, 18);
    assert_eq!(form.cursors[3], 0);
    click(&mut form, 60, 19);
    assert_eq!(form.cursors[3], 1);
    // Two events and two foods: the mood lies four rows lower.
    click(&mut form, 60, 25);
    assert_eq!(form.selected_field, Some(CreationField::MoodDescription));
    click(&mut form, 60, 28);
    assert_eq!(form.selected_field, Some(CreationField::MoodReason));
}

#[test]
fn click_on_create_makes_an_entry() {
    let mut form = CreatorButton::new();
    form.title = String::from("T");
    form.text = String::from("X");
    form.events = vec![String::from("e1"), String::from("e2")];
    form.mood_quality = 8;
    form.mood_description = String::from("glad");
    let mut logs = Logs::new();
    logs.push(Log::dated(String::from("old"), String::new(), DAY));
    for (x, y) in [(81, 31), (94, 31), (82, 30), (82, 35)] {
        form.click(&at(x, y), &AREA, &mut logs, None, DAY);
        assert!(!form.dead);
        assert_eq!(logs.len(), 1);
    }
    form.click(&at(82, 31), &AREA, &mut logs, None, DAY);
    assert!(form.dead);
    assert_eq!(logs.len(), 2);
    let made = logs.get(1);
    assert_eq!(made.entry_date, "Friday, the 2nd of January, 2026");
    assert_eq!(made.entry_title, "T");
    assert_eq!(made.entry_text, "X");
    assert_eq!(made.events, Some(vec![String::from("e1"), String::from("e2")]));
    assert_eq!(made.food, None);
    let mood = made.mood.as_ref().unwrap();
    assert_eq!(mood.quality, 8);
    assert_eq!(mood.description, "glad");
    assert_eq!(mood.reason, None);
    assert_eq!(logs.get(0).entry_title, "old");
}

#[test]
fn click_on_create_changes_the_entry_that_is_edited() {
    let mut form = CreatorButton::new();
    form.title = String::from("new");
    form.food = vec![String::from("rice")];
    form.mood_reason = String::from("why");
    let mut logs = Logs::new();
    logs.push(Log::dated(String::from("a"), String::new(), DAY));
    logs.push(Log::dated(String::from("b"), String::new(), DAY));
    form.click(&at(93, 34), &AREA, &mut logs, Some(0), DAY);
    assert!(form.dead);
    assert_eq!(logs.len(), 2);
    assert_eq!(logs.get(0).entry_title, "new");
    assert_eq!(logs.get(0).food, Some(vec![String::from("rice")]));
    assert_eq!(logs.get(0).events, None);
    assert_eq!(logs.get(0).mood.as_ref().unwrap().reason, Some(String::from("why")));
    assert_eq!(logs.get(1).entry_title, "b");
}

#[test]
fn entry_made_by_the_clock() {
    let mut form = CreatorButton::new();
    form.title = String::from("now");
    let mut logs = Logs::new();
    form.handle_mouse_events_for_creator(&KeyParser::new(), &at(85, 33), &AREA, &mut logs, None);
    assert!(form.dead);
    assert_eq!(logs.len(), 1);
    assert_eq!(logs.get(0).entry_title, "now");
    assert!(logs.get(0).entry_date.contains(", the "));
    let mut other = CreatorButton::new();
    other.handle_mouse_events_for_creator(&KeyParser::new(), &at(60, 8), &AREA, &mut logs, None);
    assert_eq!(other.selected_field, Some(CreationField::Title));
    assert_eq!(logs.len(), 1);
}

#[test]
fn held_mouse_sets_the_mood() {
    let mut form = CreatorButton::new();
    let mut logs = Logs::new();
    let k = KeyParser::new();
    let hold = |x, y| MouseEvent {
        event_type: MouseEventType::Left,
        position: (x, y),
        state: MouseState::Hold,
    };
    form.handle_held_mouse(&k, &hold(50, 18), &AREA, &mut logs, None);
    assert_eq!(form.mood_quality, 1);
    form.handle_held_mouse(&k, &hold(56, 18), &AREA, &mut logs, None);
    assert_eq!(form.mood_quality, 3);
    form.handle_held_mouse(&k, &hold(70, 18), &AREA, &mut logs, None);
    assert_eq!(form.mood_quality, 10);
    form.handle_held_mouse(&k, &hold(71, 18), &AREA, &mut logs, None);
    assert_eq!(form.mood_quality, 10);
    form.handle_held_mouse(&k, &hold(60, 17), &AREA, &mut logs, None);
    assert_eq!(form.mood_quality, 10);
    form.events.push(String::new());
    form.handle_held_mouse(&k, &hold(60, 18), &AREA, &mut logs, None);
    assert_eq!(form.mood_quality, 10);
    form.handle_held_mouse(&k, &hold(60, 19), &AREA, &mut logs, None);
    assert_eq!(form.mood_quality, 5);
    assert_eq!(logs.len(), 0);
}

#[test]
fn window_text_of_an_empty_form() {
    let form = CreatorButton::new();
    let lines = form.get_window_text(&AREA);
    assert_eq!(lines.len(), 28);
    let label = [ColorType::Italic, ColorType::BrightWhite];
    let blank = vec![pair("", &[])];
    assert_eq!(shown(&lines[0]), blank);
    assert_eq!(shown(&lines[1]), vec![blanks(32), pair("*Title*", &label)]);
    assert_eq!(shown(&lines[2]), vec![blanks(27), pair("-- Title Here --", &[ColorType::White])]);
    assert_eq!(shown(&lines[3]), blank);
    assert_eq!(shown(&lines[4]), vec![blanks(29), pair("*Entry Text*", &label)]);
    assert_eq!(shown(&lines[5]), vec![blanks(28), pair("-- Text Here --", &[ColorType::White])]);
    assert_eq!(shown(&lines[7]), vec![blanks(30), pair("*Add Events*", &label)]);
    assert_eq!(shown(&lines[8]), blank);
    assert_eq!(shown(&lines[9]), vec![blanks(30), pair("*Add Foods*", &label)]);
    assert_eq!(shown(&lines[10]), blank);
    assert_eq!(shown(&lines[11]), vec![blanks(29), pair("*Mood (1-10)*", &label)]);
    assert_eq!(shown(&lines[12]), vec![
        blanks(25),
        pair("========", &[ColorType::OnWhite, ColorType::BrightBlack]),
        pair("=5", &[ColorType::Black, ColorType::OnBrightWhite]),
        pair("==========", &[ColorType::OnWhite, ColorType::BrightBlack])
    ]);
    assert_eq!(shown(&lines[13]), blank);
    assert_eq!(shown(&lines[14]), vec![blanks(26), pair("*Mood Description*", &label)]);
    assert_eq!(shown(&lines[15]), vec![blanks(28), pair("-- Text Here --", &[ColorType::White])]);
    assert_eq!(shown(&lines[17]), vec![blanks(29), pair("*Mood Reason*", &label)]);
    assert_eq!(shown(&lines[18]), vec![blanks(28), pair("-- Text Here --", &[ColorType::White])]);
    assert_eq!(shown(&lines[19]), blank);
    assert_eq!(shown(&lines[25]), vec![blanks(57), pair("┌────────┐", &[])]);
    assert_eq!(shown(&lines[26]), vec![blanks(57), pair("│ Create │", &[])]);
    assert_eq!(shown(&lines[27]), vec![blanks(57), pair("└────────┘", &[])]);
}

#[test]
fn window_text_of_a_filled_form() {
    let mut form = CreatorButton::new();
    form.title = String::from("My day");
    form.events = vec![String::from("walk"), String::new()];
    form.food = vec![String::from("soup")];
    form.mood_quality = 10;
    form.selected_field = Some(CreationField::Events);
    form.cursors[2] = 1;
    let lines = form.get_window_text(&AREA);
    let under = [ColorType::White, ColorType::Underline];
    assert_eq!(shown(&lines[2]), vec![blanks(32), pair("My day", &[ColorType::White])]);
    assert_eq!(shown(&lines[8]), vec![blanks(33), pair("walk", &[ColorType::White])]);
    assert_eq!(shown(&lines[9]), vec![blanks(28), pair("-- Text Here --", &under)]);
    assert_eq!(shown(&lines[11])[1].0, "*Add Foods*");
    assert_eq!(shown(&lines[12]), vec![blanks(33), pair("soup", &[ColorType::White])]);
    assert_eq!(shown(&lines[14])[1].0, "*Mood (1-10)*");
    assert_eq!(shown(&lines[15]), vec![
        blanks(25),
        pair("==================", &[ColorType::OnWhite, ColorType::BrightBlack]),
        pair("10", &[ColorType::Black, ColorType::OnBrightWhite]),
        pair("", &[ColorType::OnWhite, ColorType::BrightBlack])
    ]);
    form.selected_field = Some(CreationField::Title);
    assert_eq!(shown(&form.get_window_text(&AREA)[2])[1], pair("My day", &under));
    form.selected_field = Some(CreationField::Foods);
    form.cursors[3] = 0;
    assert_eq!(shown(&form.get_window_text(&AREA)[12])[1], pair("soup", &under));
    assert_eq!(shown(&form.get_window_text(&AREA)[9])[1], pair("-- Text Here --", &[ColorType::White]));
}

#[test]
fn window_text_in_a_small_terminal() {
    let form = CreatorButton::new();
    assert!(form.get_window_text(&Rect::sized(80, 12)).is_empty());
    assert!(form.get_window_text(&Rect::sized(80, 3)).is_empty());
    let two = form.get_window_text(&Rect::sized(80, 14));
    assert_eq!(two.len(), 2);
    assert_eq!(shown(&two[1])[1].0, "*Title*");
    let five = form.get_window_text(&Rect::sized(60, 17));
    assert_eq!(five.len(), 5);
    assert_eq!(shown(&five[1]), vec![blanks(2), pair("*Title*", &[ColorType::Italic, ColorType::BrightWhite])]);
    assert_eq!(shown(&five[2]), vec![blanks(0), pair("┌────────┐", &[])]);
    assert_eq!(shown(&five[4]), vec![blanks(0), pair("└────────┘", &[])]);
    let narrow = form.get_window_text(&Rect::sized(40, 17));
    assert_eq!(shown(&narrow[1])[0], blanks(0));
}

#[test]
fn center_padding_is_half_the_room_less_half_the_text() {
    assert_eq!(CreatorButton::center_padding(&AREA, 7).text, " ".repeat(32));
    assert_eq!(CreatorButton::center_padding(&AREA, 0).text, " ".repeat(35));
    assert_eq!(CreatorButton::center_padding(&AREA, 70).text, "");
    assert_eq!(CreatorButton::center_padding(&AREA, 200).text, "");
    assert_eq!(CreatorButton::center_padding(&Rect::sized(10, 10), 2).text, "");
    assert_eq!(CreatorButton::center_padding(&AREA, 7).style, Style::plain());
}
