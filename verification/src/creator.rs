//! The entry form: the fields of an entry that is being written or changed,
//! how keys and clicks change them, and how the form is shown.
//!
//! Positions in a text are counted in characters. The form lies in a window
//! whose corner is at column 25, row 5 of the screen, with a border; the rows
//! that a click is tested against are rows of the screen.

use vstd::prelude::*;
use crate::entries::{
    both, date_text, just, line, plain, strings_view, tok, token, Date, Log, LogView, Logs,
    Mood, MoodView,
};
use crate::events::{EventSet, KeyCode, KeyParser, MouseEvent};
use crate::style::{ColorType, Span, TokenView};
use crate::text::{
    char_len, decimal, digits, from_chars, insert_at, inserted, remove_at, repeat, repeated,
    without_last,
};
use crate::window::{lines_view, Rect};

verus! {

/// A field of the form that can take the keys.
#[derive(Clone, Copy, PartialEq, Eq, Structural, Debug)]
pub enum CreationField {
    Title,
    Text,
    Events,
    Foods,
    MoodDescription,
    MoodReason,
}

/// The form.
#[derive(Debug)]
pub struct CreatorButton {
    pub selected_field: Option<CreationField>,
    pub title: String,
    pub text: String,
    /// Where the next character goes in the title, in the text, in the lists
    /// of events and of food (there: which item), in the description of the
    /// mood and in its reason.
    pub cursors: [usize; 6],
    /// The form is done with: it was left, or the entry was made.
    pub dead: bool,
    pub events: Vec<String>,
    pub food: Vec<String>,
    pub mood_quality: usize,
    pub mood_description: String,
    pub mood_reason: String,
}

/// What a form is.
pub struct FormView {
    pub selected: Option<CreationField>,
    pub title: Seq<char>,
    pub text: Seq<char>,
    pub cursors: Seq<usize>,
    pub dead: bool,
    pub events: Seq<Seq<char>>,
    pub food: Seq<Seq<char>>,
    pub mood_quality: usize,
    pub mood_description: Seq<char>,
    pub mood_reason: Seq<char>,
}

impl View for CreatorButton {
    type V = FormView;

    open spec fn view(&self) -> FormView {
        FormView {
            selected: self.selected_field,
            title: self.title@,
            text: self.text@,
            cursors: self.cursors@,
            dead: self.dead,
            events: strings_view(self.events@),
            food: strings_view(self.food@),
            mood_quality: self.mood_quality,
            mood_description: self.mood_description@,
            mood_reason: self.mood_reason@,
        }
    }
}

/// What is typed in a tick: the characters in the order in which they came,
/// unless a modifier was held.
pub open spec fn typed_text(keys: EventSet) -> Seq<char> {
    if keys.mods.is_none() {
        keys.chars
    } else {
        Seq::empty()
    }
}

/// A text and the cursor in it after a tick: what is typed goes in at the
/// cursor, which moves past it. Delete then takes out the character before
/// the cursor; with no such character the tick ends there. Left and Right
/// then move the cursor by one, as far as the text goes.
pub open spec fn edited(text: Seq<char>, cursor: int, keys: EventSet) -> (Seq<char>, int) {
    let typed = typed_text(keys);
    let t1 = inserted(text, cursor, typed);
    let c1 = cursor + typed.len();
    if keys.keys.contains(KeyCode::Delete) && (t1.len() == 0 || c1 == 0) {
        (t1, c1)
    } else {
        let (t2, c2) = if keys.keys.contains(KeyCode::Delete) {
            (t1.remove(c1 - 1), c1 - 1)
        } else {
            (t1, c1)
        };
        let c3 = if keys.keys.contains(KeyCode::Left) && c2 > 0 {
            c2 - 1
        } else {
            c2
        };
        let c4 = if keys.keys.contains(KeyCode::Right) && c3 < t2.len() {
            c3 + 1
        } else {
            c3
        };
        (t2, c4)
    }
}

/// An item of a list after a tick: what is typed goes to its end, and Delete
/// then takes its last character off.
pub open spec fn item_edited(item: Seq<char>, keys: EventSet) -> Seq<char> {
    let longer = item + typed_text(keys);
    if keys.keys.contains(KeyCode::Delete) && longer.len() > 0 {
        longer.drop_last()
    } else {
        longer
    }
}

impl FormView {
    /// Whether each cursor in a text lies in the text or at its end.
    pub open spec fn wf(self) -> bool {
        &&& self.cursors.len() == 6
        &&& self.cursors[0] <= self.title.len()
        &&& self.cursors[1] <= self.text.len()
        &&& self.cursors[4] <= self.mood_description.len()
        &&& self.cursors[5] <= self.mood_reason.len()
    }

    /// The form after Return and Escape: Return lets go of the field that
    /// has the keys; Escape does so too, and leaves the form where no field
    /// has them.
    pub open spec fn dismissed(self, keys: EventSet) -> FormView {
        let a = if keys.keys.contains(KeyCode::Return) {
            FormView { selected: None, ..self }
        } else {
            self
        };
        if keys.keys.contains(KeyCode::Escape) {
            match a.selected {
                Some(_) => FormView { selected: None, ..a },
                None => FormView { dead: true, ..a },
            }
        } else {
            a
        }
    }

    /// The form after the keys of a tick.
    pub open spec fn after_keys(self, keys: EventSet) -> FormView {
        let f = self.dismissed(keys);
        match f.selected {
            Some(CreationField::Title) => {
                let (t, c) = edited(f.title, f.cursors[0] as int, keys);
                FormView { title: t, cursors: f.cursors.update(0, c as usize), ..f }
            },
            Some(CreationField::Text) => {
                let (t, c) = edited(f.text, f.cursors[1] as int, keys);
                FormView { text: t, cursors: f.cursors.update(1, c as usize), ..f }
            },
            Some(CreationField::Events) => if f.cursors[2] < f.events.len() {
                FormView {
                    events: f.events.update(
                        f.cursors[2] as int,
                        item_edited(f.events[f.cursors[2] as int], keys),
                    ),
                    ..f
                }
            } else {
                f
            },
            Some(CreationField::Foods) => if f.cursors[3] < f.food.len() {
                FormView {
                    food: f.food.update(
                        f.cursors[3] as int,
                        item_edited(f.food[f.cursors[3] as int], keys),
                    ),
                    ..f
                }
            } else {
                f
            },
            Some(CreationField::MoodDescription) => {
                let (t, c) = edited(f.mood_description, f.cursors[4] as int, keys);
                FormView { mood_description: t, cursors: f.cursors.update(4, c as usize), ..f }
            },
            Some(CreationField::MoodReason) => {
                let (t, c) = edited(f.mood_reason, f.cursors[5] as int, keys);
                FormView { mood_reason: t, cursors: f.cursors.update(5, c as usize), ..f }
            },
            None => f,
        }
    }

    /// The row of the screen on which the mood is set.
    pub open spec fn mood_row(self) -> int {
        18 + self.events.len() as int + self.food.len() as int
    }

    /// The form after the mouse moved over (`x`, `y`) with the button held:
    /// on the row of the mood, within ten columns of the middle, the mood is
    /// set by the column, from 1 at the left to 10 at the right.
    pub open spec fn after_hold(self, x: int, y: int, width: int) -> FormView {
        let half = width / 2;
        if y == self.mood_row() && half - 10 <= x <= half + 10 {
            let q = (x - (half - 10)) / 2;
            FormView {
                mood_quality: if q < 1 {
                    1usize
                } else {
                    q as usize
                },
                ..self
            }
        } else {
            self
        }
    }

    /// The entry that the form makes on the date given: title and text, the
    /// events and the food where any are listed, and the mood with its
    /// reason where one is given.
    pub open spec fn to_log(self, date: Date) -> LogView {
        LogView {
            date: date_text(date),
            title: self.title,
            text: self.text,
            events: if self.events.len() > 0 {
                Some(self.events)
            } else {
                None
            },
            food: if self.food.len() > 0 {
                Some(self.food)
            } else {
                None
            },
            mood: Some(
                MoodView {
                    quality: self.mood_quality,
                    description: self.mood_description,
                    reason: if self.mood_reason.len() == 0 {
                        None
                    } else {
                        Some(self.mood_reason)
                    },
                },
            ),
        }
    }

    /// Whether (`x`, `y`) is on the button that makes the entry.
    pub open spec fn on_create(x: int, y: int, area: Rect) -> bool {
        area.width - 38 <= x < area.width - 26 && area.height - 9 <= y <= area.height - 6
    }

    /// Whether column `x` is within `reach` columns of the middle.
    pub open spec fn near_middle(x: int, width: int, reach: int) -> bool {
        width / 2 - reach <= x <= width / 2 + reach
    }

    /// The field with the keys toggled: `field` gets them, unless it has
    /// them, in which case no field has them.
    pub open spec fn toggled(self, field: CreationField) -> FormView {
        FormView {
            selected: if self.selected == Some(field) {
                None
            } else {
                Some(field)
            },
            ..self
        }
    }

    /// The form after a click at (`x`, `y`) that is not on the button that
    /// makes the entry. From the top: the title and the text are toggled;
    /// the button below them adds an event and selects it; an event is
    /// selected by a click on it; the same for the food; the description and
    /// the reason of the mood are selected; a click elsewhere lets go of the
    /// field that has the keys.
    pub open spec fn after_click(self, x: int, y: int, width: int) -> FormView {
        let e = self.events.len() as int;
        let f = self.food.len() as int;
        if y == 8 && Self::near_middle(x, width, self.title.len() as int / 2 + 5) {
            self.toggled(CreationField::Title)
        } else if y == 11 && Self::near_middle(x, width, self.text.len() as int / 2 + 5) {
            self.toggled(CreationField::Text)
        } else if y == 13 && Self::near_middle(x, width, 10) {
            FormView {
                selected: Some(CreationField::Events),
                cursors: self.cursors.update(2, self.events.len() as usize),
                events: self.events.push(Seq::empty()),
                ..self
            }
        } else if 13 < y <= 13 + e && Self::near_middle(
            x,
            width,
            5 + self.events[y - 14].len() as int / 2,
        ) {
            FormView {
                selected: Some(CreationField::Events),
                cursors: self.cursors.update(2, (y - 14) as usize),
                ..self
            }
        } else if y == 15 + e && Self::near_middle(x, width, 10) {
            FormView {
                selected: Some(CreationField::Foods),
                cursors: self.cursors.update(3, self.food.len() as usize),
                food: self.food.push(Seq::empty()),
                ..self
            }
        } else if 15 + e < y <= 15 + e + f && Self::near_middle(
            x,
            width,
            5 + self.food[y - 16 - e].len() as int / 2,
        ) {
            FormView {
                selected: Some(CreationField::Foods),
                cursors: self.cursors.update(3, (y - 16 - e) as usize),
                ..self
            }
        } else if y == 21 + e + f && Self::near_middle(
            x,
            width,
            self.mood_description.len() as int + 5,
        ) {
            FormView { selected: Some(CreationField::MoodDescription), ..self }
        } else if y == 24 + e + f && Self::near_middle(x, width, self.mood_reason.len() as int + 5) {
            FormView { selected: Some(CreationField::MoodReason), ..self }
        } else {
            FormView { selected: None, ..self }
        }
    }

    /// Whether a click at (`x`, `y`) makes the entry: it is on the button,
    /// and neither on the title nor on the text, which come first.
    pub open spec fn creates(self, x: int, y: int, area: Rect) -> bool {
        &&& !(y == 8 && Self::near_middle(x, area.width as int, self.title.len() as int / 2 + 5))
        &&& !(y == 11 && Self::near_middle(x, area.width as int, self.text.len() as int / 2 + 5))
        &&& Self::on_create(x, y, area)
    }

    /// The text that a field shows: its own, or `hint` where it is empty.
    pub open spec fn shown(text: Seq<char>, hint: Seq<char>) -> Seq<char> {
        if text.len() == 0 {
            hint
        } else {
            text
        }
    }

    /// The blanks that centre a text of `len` characters in the window.
    pub open spec fn padding(width: int, len: int) -> TokenView {
        let center = (if width > 50 {
            width - 50
        } else {
            0
        }) / 2;
        let offset = if center > len / 2 {
            center - len / 2
        } else {
            0
        };
        tok(repeated(" "@, offset as nat), Seq::empty())
    }

    /// A heading, centred by the length given.
    pub open spec fn label(width: int, text: Seq<char>, len: int) -> Seq<TokenView> {
        seq![Self::padding(width, len), tok(text, seq![ColorType::BrightWhite, ColorType::Italic])]
    }

    /// A field, centred, underlined where it has the keys.
    pub open spec fn field(width: int, text: Seq<char>, active: bool) -> Seq<TokenView> {
        seq![
            Self::padding(width, text.len() as int),
            tok(
                text,
                if active {
                    seq![ColorType::White, ColorType::Underline]
                } else {
                    seq![ColorType::White]
                },
            ),
        ]
    }

    /// The number of the mood as the slider shows it: two characters, a
    /// number of one digit after `=`.
    pub open spec fn mood_number(q: usize) -> Seq<char> {
        if q < 10 {
            "="@ + digits(q as nat)
        } else {
            digits(q as nat)
        }
    }

    /// The slider of the mood: twenty columns, the number where the mood is.
    pub open spec fn slider(self, width: int) -> Seq<TokenView> {
        let q = self.mood_quality;
        let left = if q > 1 {
            q - 1
        } else {
            0
        };
        let right = if q < 10 {
            10 - q
        } else {
            0
        };
        seq![
            Self::padding(width, 20),
            tok(repeated("=="@, left as nat), seq![ColorType::OnWhite, ColorType::BrightBlack]),
            tok(Self::mood_number(q), seq![ColorType::Black, ColorType::OnBrightWhite]),
            tok(repeated("=="@, right as nat), seq![ColorType::OnWhite, ColorType::BrightBlack]),
        ]
    }

    /// A line of the button that makes the entry.
    pub open spec fn button_line(width: int, text: Seq<char>) -> Seq<TokenView> {
        seq![
            tok(
                repeated(
                    " "@,
                    (if width > 63 {
                        width - 63
                    } else {
                        0
                    }) as nat,
                ),
                Seq::empty(),
            ),
            tok(text, Seq::empty()),
        ]
    }

    /// Line `i` of the `n` lines that show the form.
    ///
    /// The last three lines are the button that makes the entry. Above it,
    /// from the top: the title and the text, each under its heading; the
    /// events, one to a line under theirs; the food likewise; the mood with
    /// its slider, its description and its reason. A line between holds one
    /// empty token.
    pub open spec fn form_line(self, area: Rect, n: int, i: int) -> Seq<TokenView> {
        let width = area.width as int;
        let e = self.events.len() as int;
        let f = self.food.len() as int;
        let hint = "-- Text Here --"@;
        if n >= 3 && i == n - 3 {
            Self::button_line(width, "┌────────┐"@)
        } else if n >= 3 && i == n - 2 {
            Self::button_line(width, "│ Create │"@)
        } else if n >= 3 && i == n - 1 {
            Self::button_line(width, "└────────┘"@)
        } else if i == 1 {
            seq![
                Self::padding(width, 7),
                tok("*Title*"@, seq![ColorType::Italic, ColorType::BrightWhite]),
            ]
        } else if i == 2 {
            Self::field(
                width,
                Self::shown(self.title, "-- Title Here --"@),
                self.selected == Some(CreationField::Title),
            )
        } else if i == 4 {
            seq![
                Self::padding(width, 12),
                tok("*Entry Text*"@, seq![ColorType::Italic, ColorType::BrightWhite]),
            ]
        } else if i == 5 {
            Self::field(
                width,
                Self::shown(self.text, hint),
                self.selected == Some(CreationField::Text),
            )
        } else if i == 7 {
            Self::label(width, "*Add Events*"@, 11)
        } else if 8 <= i < 8 + e {
            Self::field(
                width,
                Self::shown(self.events[i - 8], hint),
                self.selected == Some(CreationField::Events) && self.cursors[2] == i - 8,
            )
        } else if i == 9 + e {
            Self::label(width, "*Add Foods*"@, 11)
        } else if 10 + e <= i < 10 + e + f {
            Self::field(
                width,
                Self::shown(self.food[i - 10 - e], hint),
                self.selected == Some(CreationField::Foods) && self.cursors[3] == i - 10 - e,
            )
        } else if i == 11 + e + f {
            Self::label(width, "*Mood (1-10)*"@, 13)
        } else if i == 12 + e + f {
            self.slider(width)
        } else if i == 14 + e + f {
            Self::label(width, "*Mood Description*"@, 18)
        } else if i == 15 + e + f {
            Self::field(
                width,
                Self::shown(self.mood_description, hint),
                self.selected == Some(CreationField::MoodDescription),
            )
        } else if i == 17 + e + f {
            Self::label(width, "*Mood Reason*"@, 13)
        } else if i == 18 + e + f {
            Self::field(
                width,
                Self::shown(self.mood_reason, hint),
                self.selected == Some(CreationField::MoodReason),
            )
        } else {
            seq![tok(Seq::empty(), Seq::empty())]
        }
    }
}

/// Computes [`edited`].
fn edit(text: &String, cursor: usize, typed: &String, keys: &KeyParser) -> (r: (String, usize))
    requires
        cursor <= text@.len(),
        typed@ == typed_text(keys@),
    ensures
        (r.0@, r.1 as int) == edited(text@, cursor as int, keys@),
        r.1 <= r.0@.len(),
{
    let mut t = insert_at(text.as_str(), cursor, typed.as_str());
    let n1 = char_len(t.as_str());
    let typed_len = char_len(typed.as_str());
    assert(t@.len() == text@.len() + typed@.len());
    let mut c = cursor + typed_len;
    if keys.contains_key(KeyCode::Delete) {
        if n1 == 0 || c == 0 {
            return (t, c);
        }
        t = remove_at(t.as_str(), c - 1);
        c = c - 1;
    }
    if keys.contains_key(KeyCode::Left) && c > 0 {
        c = c - 1;
    }
    if keys.contains_key(KeyCode::Right) {
        let n2 = char_len(t.as_str());
        if c < n2 {
            c = c + 1;
        }
    }
    (t, c)
}

/// Computes [`item_edited`].
fn edit_item(item: &String, typed: &String, keys: &KeyParser) -> (r: String)
    requires
        typed@ == typed_text(keys@),
    ensures
        r@ == item_edited(item@, keys@),
{
    let mut longer = item.clone();
    longer.append(typed.as_str());
    if keys.contains_key(KeyCode::Delete) {
        without_last(longer.as_str())
    } else {
        longer
    }
}

/// Whether column `x` is within `reach` columns of the middle of `width`.
fn is_near_middle(x: u16, width: u16, reach: u128) -> (b: bool)
    requires
        reach <= 0xFFFF_FFFF_FFFF_FFFF_FFFF,
    ensures
        b == FormView::near_middle(x as int, width as int, reach as int),
{
    let half: u128 = (width / 2) as u128;
    let x: u128 = x as u128;
    half <= x + reach && x <= half + reach
}

/// The token of the blanks that centre a text of `len` characters.
fn padding_token(width: u16, len: usize) -> (t: crate::style::Token)
    ensures
        t@ == FormView::padding(width as int, len as int),
{
    let center: usize = (if width > 50 {
        width - 50
    } else {
        0
    }) as usize / 2;
    let offset: usize = if center > len / 2 {
        center - len / 2
    } else {
        0
    };
    let blanks = repeat(" ", offset);
    token(blanks.as_str(), plain())
}

fn label_line(width: u16, text: &str, len: usize) -> (s: Span)
    ensures
        s@ == FormView::label(width as int, text@, len as int),
{
    let s = line(
        vec![padding_token(width, len), token(text, both(ColorType::BrightWhite, ColorType::Italic))],
    );
    assert(s@ =~= FormView::label(width as int, text@, len as int));
    s
}

fn field_line(width: u16, text: &String, hint: &str, active: bool) -> (s: Span)
    ensures
        s@ == FormView::field(width as int, FormView::shown(text@, hint@), active),
{
    let n = char_len(text.as_str());
    let shown: &str = if n == 0 {
        hint
    } else {
        text.as_str()
    };
    let attrs = if active {
        both(ColorType::White, ColorType::Underline)
    } else {
        just(ColorType::White)
    };
    let len = char_len(shown);
    let s = line(vec![padding_token(width, len), token(shown, attrs)]);
    assert(s@ =~= FormView::field(width as int, FormView::shown(text@, hint@), active));
    s
}

fn button_span(width: u16, text: &str) -> (s: Span)
    ensures
        s@ == FormView::button_line(width as int, text@),
{
    let blanks = repeat(
        " ",
        (if width > 63 {
            width - 63
        } else {
            0
        }) as usize,
    );
    let s = line(vec![token(blanks.as_str(), plain()), token(text, plain())]);
    assert(s@ =~= FormView::button_line(width as int, text@));
    s
}

impl CreatorButton {
    /// An empty form: no field has the keys, and the mood is in the middle.
    pub fn new() -> (form: CreatorButton)
        ensures
            form@.wf(),
            form@ == (FormView {
                selected: None,
                title: Seq::empty(),
                text: Seq::empty(),
                cursors: seq![0usize, 0usize, 0usize, 0usize, 0usize, 0usize],
                dead: false,
                events: Seq::empty(),
                food: Seq::empty(),
                mood_quality: 5,
                mood_description: Seq::empty(),
                mood_reason: Seq::empty(),
            }),
    {
        let form = CreatorButton {
            selected_field: None,
            title: String::new(),
            text: String::new(),
            cursors: [0usize, 0usize, 0usize, 0usize, 0usize, 0usize],
            dead: false,
            events: Vec::new(),
            food: Vec::new(),
            mood_quality: 5,
            mood_description: String::new(),
            mood_reason: String::new(),
        };
        proof {
            assert(form@.cursors =~= seq![0usize, 0usize, 0usize, 0usize, 0usize, 0usize]);
            assert(form@.events =~= Seq::empty());
            assert(form@.food =~= Seq::empty());
        }
        form
    }

    /// Puts the cursor at the end of each text, and on the first item of
    /// each list.
    pub fn update_cursors(&mut self)
        ensures
            final(self)@.wf(),
            final(self)@ == (FormView {
                cursors: seq![
                    old(self)@.title.len() as usize,
                    old(self)@.text.len() as usize,
                    0usize,
                    0usize,
                    old(self)@.mood_description.len() as usize,
                    old(self)@.mood_reason.len() as usize,
                ],
                ..old(self)@
            }),
    {
        self.cursors = [
            char_len(self.title.as_str()),
            char_len(self.text.as_str()),
            0,
            0,
            char_len(self.mood_description.as_str()),
            char_len(self.mood_reason.as_str()),
        ];
        proof {
            assert(self@.cursors =~= seq![
                old(self)@.title.len() as usize,
                old(self)@.text.len() as usize,
                0usize,
                0usize,
                old(self)@.mood_description.len() as usize,
                old(self)@.mood_reason.len() as usize,
            ]);
        }
    }

    fn set_cursor(&mut self, i: usize, value: usize)
        requires
            i < 6,
        ensures
            final(self)@ == (FormView {
                cursors: old(self)@.cursors.update(i as int, value),
                ..old(self)@
            }),
    {
        self.cursors[i] = value;
    }

    /// Takes the keys of a tick: Return and Escape first, then what is typed
    /// and the keys that edit, in the field that has the keys.
    pub fn handle_events(&mut self, key_parser: &KeyParser)
        requires
            old(self)@.wf(),
        ensures
            final(self)@.wf(),
            final(self)@ == old(self)@.after_keys(key_parser@),
    {
        if key_parser.contains_key(KeyCode::Return) {
            self.selected_field = None;
        }
        if key_parser.contains_key(KeyCode::Escape) {
            match self.selected_field {
                Some(_) => {
                    self.selected_field = None;
                },
                None => {
                    self.dead = true;
                },
            }
        }
        assert(self@ == old(self)@.dismissed(key_parser@));
        let typed = if key_parser.key_modifiers.is_empty() {
            from_chars(&key_parser.char_events)
        } else {
            String::new()
        };
        match self.selected_field {
            Some(CreationField::Title) => {
                let (t, c) = edit(&self.title, self.cursors[0], &typed, key_parser);
                self.title = t;
                self.set_cursor(0, c);
            },
            Some(CreationField::Text) => {
                let (t, c) = edit(&self.text, self.cursors[1], &typed, key_parser);
                self.text = t;
                self.set_cursor(1, c);
            },
            Some(CreationField::Events) => {
                let at = self.cursors[2];
                if at < self.events.len() {
                    let ghost held = strings_view(self.events@);
                    let item = edit_item(&self.events[at], &typed, key_parser);
                    self.events.set(at, item);
                    assert(strings_view(self.events@) =~= held.update(at as int, item@));
                }
            },
            Some(CreationField::Foods) => {
                let at = self.cursors[3];
                if at < self.food.len() {
                    let ghost held = strings_view(self.food@);
                    let item = edit_item(&self.food[at], &typed, key_parser);
                    self.food.set(at, item);
                    assert(strings_view(self.food@) =~= held.update(at as int, item@));
                }
            },
            Some(CreationField::MoodDescription) => {
                let (t, c) = edit(&self.mood_description, self.cursors[4], &typed, key_parser);
                self.mood_description = t;
                self.set_cursor(4, c);
            },
            Some(CreationField::MoodReason) => {
                let (t, c) = edit(&self.mood_reason, self.cursors[5], &typed, key_parser);
                self.mood_reason = t;
                self.set_cursor(5, c);
            },
            None => {},
        }
    }

    /// Takes the mouse moved with the button held: on the row of the mood
    /// the mood is set by the column.
    pub fn handle_held_mouse(
        &mut self,
        _key_parser: &KeyParser,
        event: &MouseEvent,
        area: &Rect,
        _logs: &mut Logs,
        _index: Option<usize>,
    )
        ensures
            final(self)@ == old(self)@.after_hold(
                event.position.0 as int,
                event.position.1 as int,
                area.width as int,
            ),
            *final(_logs) == *old(_logs),
    {
        let x = event.position.0;
        let y: u128 = event.position.1 as u128;
        let row: u128 = 18u128 + self.events.len() as u128 + self.food.len() as u128;
        if y == row && is_near_middle(x, area.width, 10) {
            let half: u32 = (area.width / 2) as u32;
            let q: u32 = (x as u32 + 10 - half) / 2;
            self.mood_quality = if q < 1 {
                1
            } else {
                q as usize
            };
        }
    }

    /// The entry that the form makes on the date given.
    pub fn make_log(&self, date: Date) -> (log: Log)
        ensures
            log@ == self@.to_log(date),
    {
        let mut log = Log::dated(self.title.clone(), self.text.clone(), date);
        let mut i: usize = 0;
        while i < self.events.len()
            invariant
                i <= self.events.len(),
                log@ == (LogView {
                    events: if i > 0 {
                        Some(strings_view(self.events@).take(i as int))
                    } else {
                        None
                    },
                    food: None,
                    mood: None,
                    ..self@.to_log(date)
                }),
            decreases self.events.len() - i,
        {
            log.add_event(self.events[i].clone());
            proof {
                let all = strings_view(self.events@);
                assert(all.take(i as int + 1) =~= all.take(i as int).push(all[i as int]));
                assert(all.take(1) =~= seq![all[0]]);
            }
            i += 1;
        }
        proof {
            let all = strings_view(self.events@);
            assert(all.take(all.len() as int) =~= all);
        }
        let mut j: usize = 0;
        while j < self.food.len()
            invariant
                j <= self.food.len(),
                log@ == (LogView {
                    food: if j > 0 {
                        Some(strings_view(self.food@).take(j as int))
                    } else {
                        None
                    },
                    mood: None,
                    ..self@.to_log(date)
                }),
            decreases self.food.len() - j,
        {
            log.add_food(self.food[j].clone());
            proof {
                let all = strings_view(self.food@);
                assert(all.take(j as int + 1) =~= all.take(j as int).push(all[j as int]));
                assert(all.take(1) =~= seq![all[0]]);
            }
            j += 1;
        }
        proof {
            let all = strings_view(self.food@);
            assert(all.take(all.len() as int) =~= all);
        }
        let reason = if char_len(self.mood_reason.as_str()) == 0 {
            None
        } else {
            Some(self.mood_reason.clone())
        };
        log.mood = Some(
            Mood {
                quality: self.mood_quality,
                description: self.mood_description.clone(),
                reason,
            },
        );
        log
    }

    /// Takes a click at the place of `event`, with today's date at hand.
    ///
    /// A click on the button that makes the entry puts the entry that the
    /// form makes in the place of entry `index` of `logs`, or at the end of
    /// `logs` where `index` is nothing, and the form is done with. Any other
    /// click changes the form alone.
    pub fn click(
        &mut self,
        event: &MouseEvent,
        area: &Rect,
        logs: &mut Logs,
        index: Option<usize>,
        date: Date,
    )
        requires
            index matches Some(i) ==> i < old(logs)@.len(),
        ensures
            ({
                let x = event.position.0 as int;
                let y = event.position.1 as int;
                if old(self)@.creates(x, y, *area) {
                    &&& final(self)@ == (FormView { dead: true, ..old(self)@ })
                    &&& final(logs)@ == (match index {
                        Some(i) => old(logs)@.update(i as int, old(self)@.to_log(date)),
                        None => old(logs)@.push(old(self)@.to_log(date)),
                    })
                } else {
                    &&& final(self)@ == old(self)@.after_click(x, y, area.width as int)
                    &&& final(logs)@ == old(logs)@
                }
            }),
    {
        let x = event.position.0;
        let y = event.position.1;
        let width = area.width;
        let title_len = char_len(self.title.as_str());
        let text_len = char_len(self.text.as_str());
        if y == 8 && is_near_middle(x, width, title_len as u128 / 2 + 5) {
            self.selected_field = match self.selected_field {
                Some(CreationField::Title) => None,
                _ => Some(CreationField::Title),
            };
            return ;
        }
        if y == 11 && is_near_middle(x, width, text_len as u128 / 2 + 5) {
            self.selected_field = match self.selected_field {
                Some(CreationField::Text) => None,
                _ => Some(CreationField::Text),
            };
            return ;
        }
        if x as u32 + 38 >= width as u32 && (x as u32) + 26 < width as u32 && y as u32 + 6
            <= area.height as u32 && y as u32 + 9 >= area.height as u32 {
            let log = self.make_log(date);
            match index {
                Some(i) => {
                    logs.set(i, log);
                },
                None => {
                    logs.push(log);
                },
            }
            self.dead = true;
            return ;
        }
        let e = self.events.len();
        let f = self.food.len();
        let row: u128 = y as u128;
        if y == 13 && is_near_middle(x, width, 10) {
            self.selected_field = Some(CreationField::Events);
            self.set_cursor(2, e);
            let ghost held = strings_view(self.events@);
            self.events.push(String::new());
            assert(strings_view(self.events@) =~= held.push(Seq::empty()));
            return ;
        }
        if row > 13 && row <= 13 + e as u128 {
            let at = (y - 14) as usize;
            assert(strings_view(self.events@)[at as int] == self.events@[at as int]@);
            if is_near_middle(x, width, 5 + char_len(self.events[at].as_str()) as u128 / 2) {
                self.selected_field = Some(CreationField::Events);
                self.set_cursor(2, at);
                return ;
            }
        }
        if row == 15 + e as u128 && is_near_middle(x, width, 10) {
            self.selected_field = Some(CreationField::Foods);
            self.set_cursor(3, f);
            let ghost held = strings_view(self.food@);
            self.food.push(String::new());
            assert(strings_view(self.food@) =~= held.push(Seq::empty()));
            return ;
        }
        if row > 15 + e as u128 && row <= 15 + e as u128 + f as u128 {
            let at = (row - 16 - e as u128) as usize;
            assert(strings_view(self.food@)[at as int] == self.food@[at as int]@);
            if is_near_middle(x, width, 5 + char_len(self.food[at].as_str()) as u128 / 2) {
                self.selected_field = Some(CreationField::Foods);
                self.set_cursor(3, at);
                return ;
            }
        }
        let description_len = char_len(self.mood_description.as_str());
        let reason_len = char_len(self.mood_reason.as_str());
        if row == 21 + e as u128 + f as u128 && is_near_middle(
            x,
            width,
            description_len as u128 + 5,
        ) {
            self.selected_field = Some(CreationField::MoodDescription);
            return ;
        }
        if row == 24 + e as u128 + f as u128 && is_near_middle(x, width, reason_len as u128 + 5) {
            self.selected_field = Some(CreationField::MoodReason);
            return ;
        }
        self.selected_field = None;
    }

    /// Takes a click at the place of `event`. The entry that a click on the
    /// button makes is of today, by the clock.
    pub fn handle_mouse_events_for_creator(
        &mut self,
        _key_parser: &KeyParser,
        event: &MouseEvent,
        area: &Rect,
        logs: &mut Logs,
        index: Option<usize>,
    )
        requires
            index matches Some(i) ==> i < old(logs)@.len(),
        ensures
            ({
                let x = event.position.0 as int;
                let y = event.position.1 as int;
                if old(self)@.creates(x, y, *area) {
                    &&& final(self)@ == (FormView { dead: true, ..old(self)@ })
                    &&& exists|date: Date|
                        #![trigger old(self)@.to_log(date)]
                        date.valid() && final(logs)@ == (match index {
                            Some(i) => old(logs)@.update(i as int, old(self)@.to_log(date)),
                            None => old(logs)@.push(old(self)@.to_log(date)),
                        })
                } else {
                    &&& final(self)@ == old(self)@.after_click(x, y, area.width as int)
                    &&& final(logs)@ == old(logs)@
                }
            }),
    {
        let date = crate::entries::today();
        self.click(event, area, logs, index, date);
        proof {
            let _ = old(self)@.to_log(date);
        }
    }

    fn slider_line(&self, width: u16) -> (s: Span)
        ensures
            s@ == self@.slider(width as int),
    {
        let q = self.mood_quality;
        let left: usize = if q > 1 {
            q - 1
        } else {
            0
        };
        let right: usize = if q < 10 {
            10 - q
        } else {
            0
        };
        let number = if q < 10 {
            let mut n = String::from_str("=");
            n.append(decimal(q as u64).as_str());
            n
        } else {
            decimal(q as u64)
        };
        let s = line(
            vec![
                padding_token(width, 20),
                token(repeat("==", left).as_str(), both(ColorType::OnWhite, ColorType::BrightBlack)),
                token(number.as_str(), both(ColorType::Black, ColorType::OnBrightWhite)),
                token(repeat("==", right).as_str(), both(ColorType::OnWhite, ColorType::BrightBlack)),
            ],
        );
        assert(s@ =~= self@.slider(width as int));
        s
    }

    /// Line `i` of the `n` lines that show the form.
    fn line_at(&self, area: &Rect, n: usize, i: usize) -> (s: Span)
        requires
            i < n,
        ensures
            s@ == self@.form_line(*area, n as int, i as int),
    {
        let width = area.width;
        let e = self.events.len();
        let f = self.food.len();
        let hint = "-- Text Here --";
        if n >= 3 && i == n - 3 {
            return button_span(width, "┌────────┐");
        }
        if n >= 3 && i == n - 2 {
            return button_span(width, "│ Create │");
        }
        if n >= 3 && i == n - 1 {
            return button_span(width, "└────────┘");
        }
        if i == 1 {
            let s = line(
                vec![
                    padding_token(width, 7),
                    token("*Title*", both(ColorType::Italic, ColorType::BrightWhite)),
                ],
            );
            assert(s@ =~= self@.form_line(*area, n as int, i as int));
            return s;
        }
        if i == 2 {
            return field_line(
                width,
                &self.title,
                "-- Title Here --",
                match self.selected_field {
                    Some(CreationField::Title) => true,
                    _ => false,
                },
            );
        }
        if i == 4 {
            let s = line(
                vec![
                    padding_token(width, 12),
                    token("*Entry Text*", both(ColorType::Italic, ColorType::BrightWhite)),
                ],
            );
            assert(s@ =~= self@.form_line(*area, n as int, i as int));
            return s;
        }
        if i == 5 {
            return field_line(
                width,
                &self.text,
                hint,
                match self.selected_field {
                    Some(CreationField::Text) => true,
                    _ => false,
                },
            );
        }
        if i == 7 {
            return label_line(width, "*Add Events*", 11);
        }
        if i < 8 {
            let s = line(vec![token("", plain())]);
            proof {
                reveal_strlit("");
                assert(""@ =~= Seq::<char>::empty());
                assert(s@ =~= seq![tok(Seq::empty(), Seq::empty())]);
            }
            return s;
        }
        let below: usize = i - 8;
        if below < e {
            assert(strings_view(self.events@)[below as int] == self.events@[below as int]@);
            return field_line(
                width,
                &self.events[below],
                hint,
                match self.selected_field {
                    Some(CreationField::Events) => self.cursors[2] == below,
                    _ => false,
                },
            );
        }
        let below: usize = below - e;
        if below == 1 {
            return label_line(width, "*Add Foods*", 11);
        }
        if below >= 2 && below - 2 < f {
            let at: usize = below - 2;
            assert(strings_view(self.food@)[at as int] == self.food@[at as int]@);
            return field_line(
                width,
                &self.food[at],
                hint,
                match self.selected_field {
                    Some(CreationField::Foods) => self.cursors[3] == at,
                    _ => false,
                },
            );
        }
        if below >= 2 && below - 2 >= f {
            let below: usize = below - 2 - f;
            if below == 1 {
                return label_line(width, "*Mood (1-10)*", 13);
            }
            if below == 2 {
                return self.slider_line(width);
            }
            if below == 4 {
                return label_line(width, "*Mood Description*", 18);
            }
            if below == 5 {
                return field_line(
                    width,
                    &self.mood_description,
                    hint,
                    match self.selected_field {
                        Some(CreationField::MoodDescription) => true,
                        _ => false,
                    },
                );
            }
            if below == 7 {
                return label_line(width, "*Mood Reason*", 13);
            }
            if below == 8 {
                return field_line(
                    width,
                    &self.mood_reason,
                    hint,
                    match self.selected_field {
                        Some(CreationField::MoodReason) => true,
                        _ => false,
                    },
                );
            }
        }
        let s = line(vec![token("", plain())]);
        proof {
            reveal_strlit("");
            assert(""@ =~= Seq::<char>::empty());
            assert(s@ =~= seq![tok(Seq::empty(), Seq::empty())]);
        }
        s
    }

    /// The lines that show the form in a terminal of the size of `area`:
    /// twelve fewer than the terminal has rows, each as
    /// [`FormView::form_line`] says.
    pub fn get_window_text(&self, area: &Rect) -> (lines: Vec<Span>)
        ensures
            lines@.len() == (if area.height > 12 {
                area.height - 12
            } else {
                0
            }),
            forall|i: int|
                0 <= i < lines@.len() ==> (#[trigger] lines_view(lines@)[i]) == self@.form_line(
                    *area,
                    lines@.len() as int,
                    i,
                ),
    {
        let n: usize = (if area.height > 12 {
            area.height - 12
        } else {
            0
        }) as usize;
        let mut lines: Vec<Span> = Vec::new();
        let mut i: usize = 0;
        while i < n
            invariant
                i <= n,
                lines@.len() == i,
                forall|k: int|
                    0 <= k < i ==> (#[trigger] lines@[k])@ == self@.form_line(*area, n as int, k),
            decreases n - i,
        {
            lines.push(self.line_at(area, n, i));
            i += 1;
        }
        lines
    }

    /// The blanks that centre a text of `text_size` characters in the
    /// window, as a token.
    pub fn center_padding(area: &Rect, text_size: usize) -> (t: crate::style::Token)
        ensures
            t@ == FormView::padding(area.width as int, text_size as int),
    {
        padding_token(area.width, text_size)
    }
}

} // verus!
