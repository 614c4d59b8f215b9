//! The journal on the screen: the list of entries, the entry that is open,
//! the buttons and the entry form, and what the mouse and the keys do to
//! them.
//!
//! The windows go by fixed names: "Logs" is the list, "LogView" the open
//! entry with "EditButton" and "DelButton" over it, "Create" the button that
//! opens the form, and "CreatorMenu" the form.

use vstd::prelude::*;
use crate::compositor::{Compositor, CompositorView};
use crate::creator::{CreatorButton, FormView};
use crate::entries::{
    both, copy_list, copy_string, just, line, plain, render_text, today, tok, token, Date, Log,
    LogView, Logs,
};
use crate::events::{EventSet, KeyParser, MouseEventType, MouseState};
use crate::style::{ColorType, Span, TokenView};
use crate::text::{repeat, repeated};
use crate::window::{lines_view, Rect, Window, WindowView};

verus! {

/// How many lines of the list one notch of the wheel moves.
pub const SCROLL_LINES: u8 = 4;

/// The journal as it stands on the screen.
#[derive(Debug)]
pub struct App {
    pub renderer: Compositor,
    /// The size of the terminal.
    pub area: Rect,
    pub logs: Logs,
    /// The entry at the top of the list.
    pub scrolled: usize,
    /// The entry that is open.
    pub selected: Option<usize>,
    /// The entry form, while it is open.
    pub creator_button: Option<CreatorButton>,
    /// The entry that the form changes; nothing while it writes a new one.
    pub editing_index: Option<usize>,
}

/// What the journal is, but for its windows.
pub struct Journal {
    pub area: Rect,
    pub logs: Seq<LogView>,
    pub scrolled: usize,
    pub selected: Option<usize>,
    pub creator: Option<FormView>,
    pub editing: Option<usize>,
}

/// What the mouse does in a tick.
pub struct MouseOutcome {
    /// The journal after it.
    pub journal: Journal,
    /// The windows that are taken away.
    pub removed: Set<Seq<char>>,
    /// Whether the journal is to be saved.
    pub save: bool,
}

/// The form filled from an entry, the cursors at the ends of the texts.
pub open spec fn form_of(log: LogView) -> FormView {
    let description = match log.mood {
        Some(m) => m.description,
        None => Seq::empty(),
    };
    let reason = match log.mood {
        Some(m) => match m.reason {
            Some(r) => r,
            None => Seq::empty(),
        },
        None => Seq::empty(),
    };
    FormView {
        selected: None,
        title: log.title,
        text: log.text,
        cursors: seq![
            log.title.len() as usize,
            log.text.len() as usize,
            0usize,
            0usize,
            description.len() as usize,
            reason.len() as usize,
        ],
        dead: false,
        events: match log.events {
            Some(list) => list,
            None => Seq::empty(),
        },
        food: match log.food {
            Some(list) => list,
            None => Seq::empty(),
        },
        mood_quality: match log.mood {
            Some(m) => m.quality,
            None => 5,
        },
        mood_description: description,
        mood_reason: reason,
    }
}

/// The names of the windows of the open entry.
pub open spec fn entry_windows() -> Set<Seq<char>> {
    set!["LogView"@, "EditButton"@, "DelButton"@]
}

impl Journal {
    /// Whether the journal is in order: the open entry and the entry that is
    /// changed exist, an entry is changed only while the form is open, and
    /// the form is in order.
    pub open spec fn wf(self) -> bool {
        &&& self.selected matches Some(i) ==> i < self.logs.len()
        &&& self.editing matches Some(i) ==> i < self.logs.len() && self.creator is Some
        &&& self.creator matches Some(form) ==> form.wf()
    }

    /// Whether (`x`, `y`) lies inside the form.
    pub open spec fn in_form(self, x: int, y: int) -> bool {
        self.creator is Some && 25 < x < self.area.width - 25 && 5 < y < self.area.height - 5
    }

    /// Whether (`x`, `y`) lies on the button that opens the form.
    pub open spec fn on_create(self, x: int, y: int) -> bool {
        self.area.width - 16 <= x < self.area.width && self.area.height - 3 <= y
            < self.area.height
    }

    /// The entry of the list that row `y` shows.
    pub open spec fn row_entry(self, y: int) -> int {
        y / 2 + self.scrolled - 1
    }

    /// The top of the list after the wheel turned down with `scroll` notches
    /// to its account: further down by four lines a notch, and no further
    /// than the last entry.
    pub open spec fn scrolled_down(self, scroll: int) -> int {
        let target = self.scrolled + (if scroll > 0 {
            scroll * SCROLL_LINES
        } else {
            0
        });
        let last = if self.logs.len() > 0 {
            self.logs.len() - 1
        } else {
            0
        };
        if target < last {
            target
        } else {
            last
        }
    }

    /// The top of the list after the wheel turned up with `scroll` notches
    /// to its account: further up by four lines a notch, and no further than
    /// the first entry.
    pub open spec fn scrolled_up(self, scroll: int) -> int {
        let target = self.scrolled - (if scroll < 0 {
            -scroll * SCROLL_LINES
        } else {
            0
        });
        if target > 0 {
            target
        } else {
            0
        }
    }

    /// What the mouse does in a tick, on the date given, where a window goes
    /// by the name "EditButton" if `has_edit` and one by "DelButton" if
    /// `has_delete`.
    ///
    /// The left button inside the form belongs to the form. Released over
    /// the list, it opens the entry under it, or closes it if it is open.
    /// Released on the button at the lower right, it opens the form for a
    /// new entry, or closes the form. Released on "Edit", it opens the form
    /// for the open entry; on "Delete", it deletes the open entry. The wheel
    /// over the list scrolls the list.
    pub open spec fn after_mouse(
        self,
        keys: EventSet,
        date: Date,
        has_edit: bool,
        has_delete: bool,
    ) -> MouseOutcome {
        let idle = MouseOutcome { journal: self, removed: Set::empty(), save: false };
        match keys.mouse {
            None => idle,
            Some(event) => {
                let x = event.position.0 as int;
                let y = event.position.1 as int;
                let width = self.area.width as int;
                let released = event.state == MouseState::Release;
                if event.event_type == MouseEventType::Left {
                    if self.in_form(x, y) {
                        let form = self.creator->0;
                        if released {
                            if form.creates(x, y, self.area) {
                                MouseOutcome {
                                    journal: Journal {
                                        creator: Some(FormView { dead: true, ..form }),
                                        logs: match self.editing {
                                            Some(i) => self.logs.update(i as int, form.to_log(date)),
                                            None => self.logs.push(form.to_log(date)),
                                        },
                                        ..self
                                    },
                                    ..idle
                                }
                            } else {
                                MouseOutcome {
                                    journal: Journal {
                                        creator: Some(form.after_click(x, y, width)),
                                        ..self
                                    },
                                    ..idle
                                }
                            }
                        } else {
                            MouseOutcome {
                                journal: Journal {
                                    creator: Some(form.after_hold(x, y, width)),
                                    ..self
                                },
                                ..idle
                            }
                        }
                    } else if x < 50 {
                        let index = self.row_entry(y);
                        if released && 0 <= index < self.logs.len() {
                            if self.selected == Some(index as usize) {
                                MouseOutcome {
                                    journal: Journal { selected: None, ..self },
                                    removed: entry_windows(),
                                    save: false,
                                }
                            } else {
                                MouseOutcome {
                                    journal: Journal { selected: Some(index as usize), ..self },
                                    ..idle
                                }
                            }
                        } else {
                            idle
                        }
                    } else if !released {
                        idle
                    } else if self.on_create(x, y) && self.editing is None {
                        if self.creator is None {
                            MouseOutcome {
                                journal: Journal {
                                    creator: Some(form_of(LogView {
                                        date: Seq::empty(),
                                        title: Seq::empty(),
                                        text: Seq::empty(),
                                        events: None,
                                        food: None,
                                        mood: None,
                                    })),
                                    ..self
                                },
                                ..idle
                            }
                        } else {
                            MouseOutcome {
                                journal: Journal { creator: None, ..self },
                                removed: set!["CreatorMenu"@],
                                save: false,
                            }
                        }
                    } else if x >= width - 11 && y <= width - 2 && 1 < y < 5 && self.creator is None
                        && has_edit {
                        match self.selected {
                            Some(i) => MouseOutcome {
                                journal: Journal {
                                    creator: Some(form_of(self.logs[i as int])),
                                    editing: Some(i),
                                    ..self
                                },
                                ..idle
                            },
                            None => idle,
                        }
                    } else if x >= width - 22 && y <= width - 13 && 1 < y < 5 && self.creator is None
                        && has_delete {
                        match self.selected {
                            Some(i) => MouseOutcome {
                                journal: Journal {
                                    logs: self.logs.remove(i as int),
                                    selected: None,
                                    scrolled: if self.scrolled > 0 {
                                        (self.scrolled - 1) as usize
                                    } else {
                                        0
                                    },
                                    ..self
                                },
                                removed: entry_windows(),
                                save: true,
                            },
                            None => idle,
                        }
                    } else {
                        idle
                    }
                } else if x < 50 {
                    if event.event_type == MouseEventType::Down {
                        MouseOutcome {
                            journal: Journal {
                                scrolled: self.scrolled_down(keys.scroll) as usize,
                                ..self
                            },
                            ..idle
                        }
                    } else if event.event_type == MouseEventType::Up {
                        MouseOutcome {
                            journal: Journal {
                                scrolled: self.scrolled_up(keys.scroll) as usize,
                                ..self
                            },
                            ..idle
                        }
                    } else {
                        idle
                    }
                } else {
                    idle
                }
            },
        }
    }

    /// What the keys do in a tick: they go to the form, and a form that is
    /// done with is closed, which ends the change of an entry.
    pub open spec fn after_keys(self, keys: EventSet) -> MouseOutcome {
        match self.creator {
            Some(form) => {
                let next = form.after_keys(keys);
                if next.dead {
                    MouseOutcome {
                        journal: Journal { creator: None, editing: None, ..self },
                        removed: set!["CreatorMenu"@],
                        save: true,
                    }
                } else {
                    MouseOutcome {
                        journal: Journal { creator: Some(next), ..self },
                        removed: Set::empty(),
                        save: false,
                    }
                }
            },
            None => MouseOutcome { journal: self, removed: Set::empty(), save: false },
        }
    }
}

/// Whether two windows that may be missing show the same: both are missing,
/// or both are there and differ at most in what they take as changed.
pub open spec fn same_window(a: Option<WindowView>, b: Option<WindowView>) -> bool {
    match (a, b) {
        (Some(v), Some(w)) => v.same_picture(w),
        (None, None) => true,
        _ => false,
    }
}

/// Whether the windows of `after` are those of `before` without the ones
/// named in `removed`, each showing what it showed.
pub open spec fn windows_kept(
    before: CompositorView,
    after: CompositorView,
    removed: Set<Seq<char>>,
) -> bool {
    forall|n: Seq<char>|
        #![trigger after.lookup(n)]
        if removed.contains(n) {
            after.lookup(n) is None
        } else {
            same_window(after.lookup(n), before.lookup(n))
        }
}

/// The line of an entry in the list: where it starts, the text in its
/// attributes, and blanks to the edge; on a dark ground where the entry is
/// open.
pub open spec fn list_line(
    indent: Seq<char>,
    text: Seq<char>,
    attrs: Seq<ColorType>,
    open: bool,
) -> Seq<TokenView> {
    if open {
        seq![
            tok(indent, seq![ColorType::OnBrightBlack]),
            tok(text, attrs.push(ColorType::OnBrightBlack)),
            tok(repeated(" "@, 70), seq![ColorType::OnBrightBlack]),
        ]
    } else {
        seq![tok(indent, Seq::empty()), tok(text, attrs), tok(repeated(" "@, 70), Seq::empty())]
    }
}

/// Line `k` of the list that starts at entry `from`: two lines to an entry,
/// its title and under it its date.
pub open spec fn list_line_at(
    logs: Seq<LogView>,
    from: int,
    selected: Option<usize>,
    k: int,
) -> Seq<TokenView> {
    let index = from + k / 2;
    let open = selected == Some(index as usize);
    if k % 2 == 0 {
        list_line(
            " "@,
            logs[index].title,
            seq![ColorType::BrightWhite, ColorType::Bold],
            open,
        )
    } else {
        list_line("    "@, logs[index].date, seq![ColorType::White, ColorType::Italic], open)
    }
}

/// The lines of the list that starts at entry `from`.
pub open spec fn list_lines(logs: Seq<LogView>, from: int, selected: Option<usize>) -> Seq<
    Seq<TokenView>,
> {
    Seq::new(
        (if from < logs.len() {
            2 * (logs.len() - from)
        } else {
            0
        }) as nat,
        |k: int| list_line_at(logs, from, selected, k),
    )
}

/// The difference of `a` and `b`, or 0 where `b` is the larger.
pub open spec fn minus(a: u16, b: u16) -> u16 {
    if a > b {
        (a - b) as u16
    } else {
        0
    }
}

fn less(a: u16, b: u16) -> (r: u16)
    ensures
        r == minus(a, b),
{
    if a > b {
        a - b
    } else {
        0
    }
}

fn name(text: &str) -> (s: String)
    ensures
        s@ == text@,
{
    String::from_str(text)
}

fn list_tokens(indent: &str, text: &String, attrs: Vec<ColorType>, open: bool) -> (s: Span)
    ensures
        s@ == list_line(indent@, text@, attrs@, open),
{
    let blanks = repeat(" ", 70);
    let s = if open {
        let mut lit = attrs;
        lit.push(ColorType::OnBrightBlack);
        line(
            vec![
                token(indent, just(ColorType::OnBrightBlack)),
                token(text.as_str(), lit),
                token(blanks.as_str(), just(ColorType::OnBrightBlack)),
            ],
        )
    } else {
        line(vec![token(indent, plain()), token(text.as_str(), attrs), token(blanks.as_str(), plain())])
    };
    assert(s@ =~= list_line(indent@, text@, attrs@, open));
    s
}

/// The window with one line on a border that serves as a button.
fn button_window(position: (u16, u16), text: &str) -> (w: Window)
    ensures
        w@.rect == (Rect { x: position.0, y: position.1, width: 10, height: 3 }),
        w@.priority == 1,
        w@.bordered,
        w@.lines == seq![seq![tok(text@, seq![ColorType::Bold, ColorType::BrightWhite])]],
{
    let mut w = Window::new(position, 1, (10, 3));
    w.bordered();
    let label = line(vec![token(text, both(ColorType::Bold, ColorType::BrightWhite))]);
    assert(label@ =~= seq![tok(text@, seq![ColorType::Bold, ColorType::BrightWhite])]);
    w.add_line(label);
    assert(w@.lines =~= seq![label@]);
    w
}

/// Takes the whole window of that name as changed, if there is one.
fn touch(renderer: &mut Compositor, window: &str)
    requires
        old(renderer)@.wf(),
    ensures
        final(renderer)@.wf(),
        final(renderer)@.frame == old(renderer)@.frame,
        final(renderer)@.lookup(window@) == (match old(renderer)@.lookup(window@) {
            Some(w) => Some(w.touched()),
            None => None,
        }),
        forall|n: Seq<char>|
            n != window@ ==> (#[trigger] final(renderer)@.lookup(n)) == old(renderer)@.lookup(n),
        windows_kept(old(renderer)@, final(renderer)@, Set::empty()),
{
    match renderer.get_window_mut(name(window)) {
        Some(w) => {
            w.update_all();
        },
        None => {},
    }
}

/// A window that may be missing, put at `position`: one that moves counts
/// as changed as a whole.
pub open spec fn moved(window: Option<WindowView>, position: (u16, u16)) -> Option<
    WindowView,
> {
    match window {
        Some(w) => Some(
            WindowView {
                rect: Rect { x: position.0, y: position.1, ..w.rect },
                all_dirty: w.all_dirty || position.0 != w.rect.x || position.1 != w.rect.y,
                ..w
            },
        ),
        None => None,
    }
}

/// Whether `window` is a button at `position` that reads `text`.
pub open spec fn is_button(window: Option<WindowView>, position: (u16, u16), text: Seq<char>) -> bool {
    window matches Some(w) && w.rect == (Rect {
        x: position.0,
        y: position.1,
        width: 10,
        height: 3,
    }) && w.priority == 1 && w.bordered && w.lines == seq![
        seq![tok(text, seq![ColorType::Bold, ColorType::BrightWhite])],
    ]
}

/// Puts the window of that name at `position`, if there is one.
fn place(renderer: &mut Compositor, window: &str, position: (u16, u16))
    requires
        old(renderer)@.wf(),
    ensures
        final(renderer)@.wf(),
        final(renderer)@.frame == old(renderer)@.frame,
        final(renderer)@.lookup(window@) == moved(old(renderer)@.lookup(window@), position),
        forall|n: Seq<char>|
            n != window@ ==> (#[trigger] final(renderer)@.lookup(n)) == old(renderer)@.lookup(n),
{
    match renderer.get_window_mut(name(window)) {
        Some(w) => {
            w.move_to(position);
        },
        None => {},
    }
}

/// Takes the windows of the open entry away.
fn close_entry(renderer: &mut Compositor)
    requires
        old(renderer)@.wf(),
    ensures
        final(renderer)@.wf(),
        final(renderer)@.frame == old(renderer)@.frame,
        windows_kept(old(renderer)@, final(renderer)@, entry_windows()),
{
    let _ = renderer.remove_window(name("LogView"));
    let _ = renderer.remove_window(name("EditButton"));
    let _ = renderer.remove_window(name("DelButton"));
}

/// The form filled from an entry.
fn form_from(log: &Log) -> (form: CreatorButton)
    ensures
        form@ == form_of(log@),
        form@.wf(),
{
    let mut form = CreatorButton::new();
    form.title = copy_string(&log.entry_title);
    form.text = copy_string(&log.entry_text);
    match &log.events {
        Some(list) => {
            form.events = copy_list(list);
        },
        None => {},
    }
    match &log.food {
        Some(list) => {
            form.food = copy_list(list);
        },
        None => {},
    }
    match &log.mood {
        Some(m) => {
            form.mood_quality = m.quality;
            form.mood_description = copy_string(&m.description);
            match &m.reason {
                Some(r) => {
                    form.mood_reason = copy_string(r);
                },
                None => {},
            }
        },
        None => {},
    }
    form.update_cursors();
    proof {
        assert(form@.cursors =~= form_of(log@).cursors);
        assert(form@.events =~= form_of(log@).events);
        assert(form@.food =~= form_of(log@).food);
    }
    form
}

impl View for App {
    type V = Journal;

    open spec fn view(&self) -> Journal {
        Journal {
            area: self.area,
            logs: self.logs@,
            scrolled: self.scrolled,
            selected: self.selected,
            creator: match self.creator_button {
                Some(form) => Some(form@),
                None => None,
            },
            editing: self.editing_index,
        }
    }
}

impl App {
    /// Whether the journal and its windows are in order.
    pub open spec fn wf(&self) -> bool {
        self@.wf() && self.renderer@.wf()
    }

    /// The journal with the entries given: nothing is open, and there is no
    /// window yet.
    pub fn new(logs: Logs) -> (app: App)
        ensures
            app.wf(),
            app@ == (Journal {
                area: Rect { x: 0, y: 0, width: 0, height: 0 },
                logs: logs@,
                scrolled: 0,
                selected: None,
                creator: None,
                editing: None,
            }),
            app.renderer@.names.len() == 0,
    {
        App {
            renderer: Compositor::new(),
            area: Rect::sized(0, 0),
            logs,
            scrolled: 0,
            selected: None,
            creator_button: None,
            editing_index: None,
        }
    }

    /// Takes the size of the terminal, and shows the end of the list: the
    /// list starts as many entries before its end as fit in half the rows,
    /// less one.
    pub fn start(&mut self, size: (u16, u16))
        ensures
            final(self)@ == (Journal {
                area: Rect { x: 0, y: 0, width: size.0, height: size.1 },
                scrolled: ({
                    let room = if size.1 >= 2 {
                        size.1 as int / 2 - 1
                    } else {
                        0
                    };
                    if old(self)@.logs.len() > room {
                        (old(self)@.logs.len() - room) as usize
                    } else {
                        0usize
                    }
                }),
                ..old(self)@
            }),
            final(self).renderer == old(self).renderer,
    {
        self.area = Rect::sized(size.0, size.1);
        let room: usize = if size.1 >= 2 {
            (size.1 / 2 - 1) as usize
        } else {
            0
        };
        let n = self.logs.len();
        self.scrolled = if n > room {
            n - room
        } else {
            0
        };
    }

    /// Takes the size of the terminal.
    pub fn resize(&mut self, size: (u16, u16))
        ensures
            final(self)@ == (Journal {
                area: Rect { x: 0, y: 0, width: size.0, height: size.1 },
                ..old(self)@
            }),
            final(self).renderer == old(self).renderer,
    {
        self.area = Rect::sized(size.0, size.1);
    }

    /// Takes the keys of a tick. Says whether the journal is to be saved.
    pub fn handle_keys(&mut self, key_parser: &KeyParser) -> (save: bool)
        requires
            old(self).wf(),
        ensures
            final(self).wf(),
            final(self)@ == old(self)@.after_keys(key_parser@).journal,
            save == old(self)@.after_keys(key_parser@).save,
            windows_kept(
                old(self).renderer@,
                final(self).renderer@,
                old(self)@.after_keys(key_parser@).removed,
            ),
    {
        match self.creator_button.take() {
            Some(mut form) => {
                form.handle_events(key_parser);
                if form.dead {
                    let _ = self.renderer.remove_window(name("CreatorMenu"));
                    self.editing_index = None;
                    true
                } else {
                    self.creator_button = Some(form);
                    false
                }
            },
            None => false,
        }
    }

    /// Takes the mouse of a tick, with today's date at hand. Says whether
    /// the journal is to be saved.
    pub fn mouse(&mut self, key_parser: &KeyParser, date: Date) -> (save: bool)
        requires
            old(self).wf(),
        ensures
            final(self).wf(),
            ({
                let outcome = old(self)@.after_mouse(
                    key_parser@,
                    date,
                    old(self).renderer@.has("EditButton"@),
                    old(self).renderer@.has("DelButton"@),
                );
                &&& final(self)@ == outcome.journal
                &&& save == outcome.save
                &&& windows_kept(old(self).renderer@, final(self).renderer@, outcome.removed)
            }),
    {
        let event = match key_parser.mouse_event {
            Some(event) => event,
            None => {
                return false;
            },
        };
        let x = event.position.0;
        let y = event.position.1;
        let width = self.area.width;
        let height = self.area.height;
        let released = match event.state {
            MouseState::Release => true,
            _ => false,
        };
        let left = match event.event_type {
            MouseEventType::Left => true,
            _ => false,
        };
        if left {
            let in_form = self.creator_button.is_some() && x > 25 && y > 5 && (x as u32) + 25 < (
            width as u32) && (y as u32) + 5 < (height as u32);
            if in_form {
                match self.creator_button.take() {
                    Some(mut form) => {
                        if released {
                            form.click(&event, &self.area, &mut self.logs, self.editing_index, date);
                        } else {
                            form.handle_held_mouse(
                                key_parser,
                                &event,
                                &self.area,
                                &mut self.logs,
                                self.editing_index,
                            );
                        }
                        proof {
                            assert(form@.wf());
                        }
                        self.creator_button = Some(form);
                    },
                    None => {},
                }
                return false;
            }
            if x < 50 {
                if !released {
                    return false;
                }
                let at: u128 = (y / 2) as u128 + self.scrolled as u128;
                if at >= 1 && at - 1 < self.logs.len() as u128 {
                    let index: usize = (at - 1) as usize;
                    if self.creator_button.is_some() {
                        touch(&mut self.renderer, "CreatorMenu");
                    }
                    let open = match self.selected {
                        Some(i) => i == index,
                        None => false,
                    };
                    if open {
                        self.selected = None;
                        close_entry(&mut self.renderer);
                    } else {
                        if self.selected.is_some() {
                            touch(&mut self.renderer, "EditButton");
                            touch(&mut self.renderer, "DelButton");
                            touch(&mut self.renderer, "Create");
                        }
                        self.selected = Some(index);
                    }
                }
                return false;
            }
            if !released {
                return false;
            }
            let has_edit = self.renderer.contains_window(name("EditButton"));
            let has_delete = self.renderer.contains_window(name("DelButton"));
            if (x as u32) + 16 >= (width as u32) && x < width && (y as u32) + 3 >= (height as u32)
                && y < height && self.editing_index.is_none() {
                if self.creator_button.is_none() {
                    let form = CreatorButton::new();
                    proof {
                        assert(form@.cursors =~= form_of(
                            LogView {
                                date: Seq::empty(),
                                title: Seq::empty(),
                                text: Seq::empty(),
                                events: None,
                                food: None,
                                mood: None,
                            },
                        ).cursors);
                    }
                    self.creator_button = Some(form);
                } else {
                    let _ = self.renderer.remove_window(name("CreatorMenu"));
                    self.creator_button = None;
                }
                return false;
            }
            if (x as u32) + 11 >= (width as u32) && (y as u32) + 2 <= (width as u32) && y > 1 && y
                < 5 && self.creator_button.is_none() && has_edit {
                match self.selected {
                    Some(i) => {
                        self.editing_index = Some(i);
                        self.creator_button = Some(form_from(self.logs.get(i)));
                    },
                    None => {},
                }
                return false;
            }
            if (x as u32) + 22 >= (width as u32) && (y as u32) + 13 <= (width as u32) && y > 1 && y
                < 5 && self.creator_button.is_none() && has_delete {
                match self.selected {
                    Some(i) => {
                        let _ = self.logs.remove(i);
                        self.selected = None;
                        close_entry(&mut self.renderer);
                        self.scrolled = if self.scrolled > 0 {
                            self.scrolled - 1
                        } else {
                            0
                        };
                        return true;
                    },
                    None => {},
                }
                return false;
            }
            return false;
        }
        if x < 50 {
            let scroll: i128 = key_parser.scroll_accumulate as i128;
            match event.event_type {
                MouseEventType::Down => {
                    let step: i128 = if scroll > 0 {
                        scroll * 4
                    } else {
                        0
                    };
                    let target: i128 = self.scrolled as i128 + step;
                    let n = self.logs.len();
                    let last: usize = if n > 0 {
                        n - 1
                    } else {
                        0
                    };
                    self.scrolled = if target < last as i128 {
                        target as usize
                    } else {
                        last
                    };
                },
                MouseEventType::Up => {
                    let step: i128 = if scroll < 0 {
                        -scroll * 4
                    } else {
                        0
                    };
                    let target: i128 = self.scrolled as i128 - step;
                    self.scrolled = if target > 0 {
                        target as usize
                    } else {
                        0
                    };
                },
                _ => {},
            }
        }
        false
    }

    /// Takes the mouse of a tick. An entry that the form makes is of today,
    /// by the clock. Says whether the journal is to be saved.
    pub fn handle_mouse_events(&mut self, key_parser: &KeyParser) -> (save: bool)
        requires
            old(self).wf(),
        ensures
            final(self).wf(),
            exists|date: Date|
                #![trigger date.valid()]
                {
                    let outcome = old(self)@.after_mouse(
                        key_parser@,
                        date,
                        old(self).renderer@.has("EditButton"@),
                        old(self).renderer@.has("DelButton"@),
                    );
                    &&& date.valid()
                    &&& final(self)@ == outcome.journal
                    &&& save == outcome.save
                    &&& windows_kept(old(self).renderer@, final(self).renderer@, outcome.removed)
                },
    {
        let date = today();
        let save = self.mouse(key_parser, date);
        assert(date.valid());
        save
    }

    /// Takes the mouse and then the keys of a tick. Says whether the journal
    /// is to be saved.
    pub fn handle_events(&mut self, key_parser: &KeyParser) -> (save: bool)
        requires
            old(self).wf(),
        ensures
            final(self).wf(),
            exists|date: Date|
                #![trigger date.valid()]
                {
                    let by_mouse = old(self)@.after_mouse(
                        key_parser@,
                        date,
                        old(self).renderer@.has("EditButton"@),
                        old(self).renderer@.has("DelButton"@),
                    );
                    let by_keys = by_mouse.journal.after_keys(key_parser@);
                    &&& date.valid()
                    &&& final(self)@ == by_keys.journal
                    &&& save == (by_mouse.save || by_keys.save)
                    &&& windows_kept(
                        old(self).renderer@,
                        final(self).renderer@,
                        by_mouse.removed + by_keys.removed,
                    )
                },
    {
        let by_mouse = self.handle_mouse_events(key_parser);
        let ghost between = self.renderer@;
        let ghost middle = self@;
        let by_keys = self.handle_keys(key_parser);
        proof {
            let date = choose|date: Date|
                #![trigger date.valid()]
                {
                    let outcome = old(self)@.after_mouse(
                        key_parser@,
                        date,
                        old(self).renderer@.has("EditButton"@),
                        old(self).renderer@.has("DelButton"@),
                    );
                    &&& date.valid()
                    &&& middle == outcome.journal
                    &&& by_mouse == outcome.save
                    &&& windows_kept(old(self).renderer@, between, outcome.removed)
                };
            let first = old(self)@.after_mouse(
                key_parser@,
                date,
                old(self).renderer@.has("EditButton"@),
                old(self).renderer@.has("DelButton"@),
            );
            let second = first.journal.after_keys(key_parser@);
            assert(windows_kept(between, self.renderer@, second.removed));
            assert forall|n: Seq<char>|
                #![trigger self.renderer@.lookup(n)]
                if (first.removed + second.removed).contains(n) {
                    self.renderer@.lookup(n) is None
                } else {
                    same_window(self.renderer@.lookup(n), old(self).renderer@.lookup(n))
                } by {
                let _ = between.lookup(n);
            }
            assert(date.valid());
        }
        by_mouse || by_keys
    }

    /// The lines of the list from the entry at the top on.
    pub fn list_text(&self) -> (lines: Vec<Span>)
        ensures
            lines_view(lines@) == list_lines(self@.logs, self@.scrolled as int, self@.selected),
    {
        let mut lines: Vec<Span> = Vec::new();
        let n = self.logs.len();
        let mut index = self.scrolled;
        while index < n
            invariant
                n == self@.logs.len(),
                self.scrolled <= index,
                index <= n || lines@.len() == 0,
                lines@.len() == (if self.scrolled < n {
                    2 * (index - self.scrolled)
                } else {
                    0
                }),
                forall|k: int|
                    0 <= k < lines@.len() ==> (#[trigger] lines@[k])@ == list_line_at(
                        self@.logs,
                        self.scrolled as int,
                        self@.selected,
                        k,
                    ),
            decreases n - index,
        {
            let log = self.logs.get(index);
            let open = match self.selected {
                Some(i) => i == index,
                None => false,
            };
            let title = list_tokens(
                " ",
                &log.entry_title,
                both(ColorType::BrightWhite, ColorType::Bold),
                open,
            );
            let date = list_tokens(
                "    ",
                &log.entry_date,
                both(ColorType::White, ColorType::Italic),
                open,
            );
            proof {
                let k = 2 * (index - self.scrolled);
                assert(k / 2 == index - self.scrolled && k % 2 == 0);
                assert((k + 1) / 2 == index - self.scrolled && (k + 1) % 2 == 1);
                assert(open == (self@.selected == Some(index)));
            }
            lines.push(title);
            lines.push(date);
            index += 1;
        }
        proof {
            assert(lines_view(lines@) =~= list_lines(
                self@.logs,
                self@.scrolled as int,
                self@.selected,
            ));
        }
        lines
    }

    /// Brings the list and the open entry up to date.
    ///
    /// The window "Logs" shows the list, fifty columns wide and as high as
    /// the terminal. Where an entry is open, "LogView" shows it to the right
    /// of the list, with "EditButton" and "DelButton" over its upper right
    /// corner.
    pub fn render_logs(&mut self)
        requires
            old(self).wf(),
        ensures
            final(self).wf(),
            final(self)@ == old(self)@,
            final(self).renderer@.lookup("Logs"@) matches Some(w) && w.lines == list_lines(
                old(self)@.logs,
                old(self)@.scrolled as int,
                old(self)@.selected,
            ) && w.rect.width == 50 && w.rect.height == old(self)@.area.height,
            old(self).renderer@.lookup("Logs"@) is None ==> (final(self).renderer@.lookup("Logs"@)
                matches Some(w) && w.rect.x == 1 && w.rect.y == 1 && w.priority == 0 && w.bordered),
            old(self)@.selected matches Some(i) ==> (final(self).renderer@.lookup("LogView"@)
                matches Some(w) && w.lines == render_text(old(self)@.logs[i as int]) && w.rect.width
                == minus(old(self)@.area.width, 49) && w.rect.height == old(self)@.area.height),
            old(self)@.selected is Some ==> (if old(self).renderer@.lookup("LogView"@) is None {
                &&& is_button(
                    final(self).renderer@.lookup("EditButton"@),
                    (minus(old(self)@.area.width, 11), 2),
                    "  Edit  "@,
                )
                &&& is_button(
                    final(self).renderer@.lookup("DelButton"@),
                    (minus(old(self)@.area.width, 22), 2),
                    " Delete "@,
                )
                &&& final(self).renderer@.lookup("LogView"@) matches Some(w) && w.rect.x == 50
                    && w.rect.y == 1 && w.priority == 0 && w.bordered
            } else {
                &&& final(self).renderer@.lookup("EditButton"@) == moved(
                    old(self).renderer@.lookup("EditButton"@),
                    (minus(old(self)@.area.width, 11), 2),
                )
                &&& final(self).renderer@.lookup("DelButton"@) == moved(
                    old(self).renderer@.lookup("DelButton"@),
                    (minus(old(self)@.area.width, 22), 2),
                )
            }),
            old(self)@.selected is None ==> forall|n: Seq<char>|
                n != "Logs"@ ==> (#[trigger] final(self).renderer@.lookup(n)) == old(self).renderer@.lookup(n),
            forall|n: Seq<char>|
                n != "Logs"@ && n != "LogView"@ && n != "EditButton"@ && n != "DelButton"@
                    ==> same_window(
                    #[trigger] final(self).renderer@.lookup(n),
                    old(self).renderer@.lookup(n),
                ),
    {
        proof {
            lemma_names_differ();
        }
        let width = self.area.width;
        let height = self.area.height;
        let list = self.list_text();
        match self.renderer.get_window_mut(name("Logs")) {
            Some(w) => {
                w.resize((50, height));
                w.try_update_lines(list);
            },
            None => {
                let mut window = Window::new((1, 1), 0, (50, height));
                window.from_lines(list);
                window.bordered();
                self.renderer.add_window(window, name("Logs"), Vec::new());
            },
        }
        let index = match self.selected {
            Some(i) => i,
            None => {
                return ;
            },
        };
        let text = self.logs.get(index).get_render_text();
        let open = self.renderer.contains_window(name("LogView"));
        if open {
            match self.renderer.get_window_mut(name("LogView")) {
                Some(w) => {
                    w.try_update_lines(text);
                    w.resize((less(width, 49), height));
                },
                None => {},
            }
            place(&mut self.renderer, "EditButton", (less(width, 11), 2));
            place(&mut self.renderer, "DelButton", (less(width, 22), 2));
        } else {
            let mut window = Window::new((50, 1), 0, (less(width, 49), height));
            window.bordered();
            window.from_lines(text);
            self.renderer.add_window(window, name("LogView"), Vec::new());
            self.renderer.add_window(
                button_window((less(width, 11), 2), "  Edit  "),
                name("EditButton"),
                Vec::new(),
            );
            self.renderer.add_window(
                button_window((less(width, 22), 2), " Delete "),
                name("DelButton"),
                Vec::new(),
            );
            touch(&mut self.renderer, "Create");
            if self.creator_button.is_some() {
                touch(&mut self.renderer, "CreatorMenu");
            }
        }
    }

    /// Brings the button that opens the form, and the form while it is open,
    /// up to date.
    ///
    /// The window "Create" lies in the lower right corner of the terminal.
    /// The window "CreatorMenu" shows the form, twenty-five columns and five
    /// rows in from the edges of the terminal.
    pub fn render_log_creation(&mut self)
        requires
            old(self).wf(),
        ensures
            final(self).wf(),
            final(self)@ == old(self)@,
            final(self).renderer@.lookup("Create"@) matches Some(w) && w.rect == (Rect {
                x: minus(old(self)@.area.width, 16),
                y: minus(old(self)@.area.height, 3),
                width: 15,
                height: 3,
            }),
            old(self).renderer@.lookup("Create"@) is None ==> (final(self).renderer@.lookup(
                "Create"@,
            ) matches Some(w) && w.priority == 1 && w.bordered && w.lines == seq![
                seq![tok("  New Entry    "@, seq![ColorType::White, ColorType::OnBrightBlack])],
            ]),
            old(self)@.creator matches Some(form) ==> (final(self).renderer@.lookup("CreatorMenu"@)
                matches Some(w) && w.rect.width == minus(old(self)@.area.width, 50) && w.rect.height
                == minus(old(self)@.area.height, 10) && w.lines.len() == minus(
                old(self)@.area.height,
                12,
            ) && forall|i: int|
                0 <= i < w.lines.len() ==> (#[trigger] w.lines[i]) == form.form_line(
                    old(self)@.area,
                    w.lines.len() as int,
                    i,
                )),
            old(self).renderer@.lookup("CreatorMenu"@) is None && old(self)@.creator is Some
                ==> (final(self).renderer@.lookup("CreatorMenu"@) matches Some(w) && w.rect.x == 25
                && w.rect.y == 5 && w.priority == 2 && w.bordered && w.title == Some(
                seq![
                    tok(
                        if old(self)@.editing is Some {
                            " Editing Entry "@
                        } else {
                            "Create New Entry"@
                        },
                        seq![ColorType::Bold, ColorType::BrightWhite],
                    ),
                ],
            )),
            forall|n: Seq<char>|
                n != "Create"@ && n != "CreatorMenu"@ ==> (#[trigger] final(self).renderer@.lookup(
                    n,
                )) == old(self).renderer@.lookup(n),
    {
        proof {
            lemma_names_differ();
        }
        let width = self.area.width;
        let height = self.area.height;
        match self.renderer.get_window_mut(name("Create")) {
            Some(w) => {
                w.resize((15, 3));
                w.move_to((less(width, 16), less(height, 3)));
            },
            None => {
                let mut window = Window::new((less(width, 16), less(height, 3)), 1, (15, 3));
                let label = line(
                    vec![token("  New Entry    ", both(ColorType::White, ColorType::OnBrightBlack))],
                );
                assert(label@ =~= seq![
                    tok("  New Entry    "@, seq![ColorType::White, ColorType::OnBrightBlack]),
                ]);
                window.add_line(label);
                assert(window@.lines =~= seq![label@]);
                window.bordered();
                window.colorize(ColorType::OnBrightBlack);
                self.renderer.add_window(window, name("Create"), Vec::new());
            },
        }
        match &self.creator_button {
            Some(form) => {
                let text = form.get_window_text(&self.area);
                match self.renderer.get_window_mut(name("CreatorMenu")) {
                    Some(w) => {
                        w.resize((less(width, 50), less(height, 10)));
                        w.try_update_lines(text);
                    },
                    None => {
                        let mut window = Window::new(
                            (25, 5),
                            2,
                            (less(width, 50), less(height, 10)),
                        );
                        window.bordered();
                        window.colorize(ColorType::Bold);
                        let heading = match self.editing_index {
                            Some(_) => " Editing Entry ",
                            None => "Create New Entry",
                        };
                        let title = line(
                            vec![token(heading, both(ColorType::Bold, ColorType::BrightWhite))],
                        );
                        assert(title@ =~= seq![
                            tok(heading@, seq![ColorType::Bold, ColorType::BrightWhite]),
                        ]);
                        window.titled(title);
                        window.from_lines(text);
                        let mut tags: Vec<String> = Vec::new();
                        tags.push(name("Pop Up"));
                        self.renderer.add_window(window, name("CreatorMenu"), tags);
                    },
                }
            },
            None => {},
        }
    }
}

/// The names of the windows are six different names.
pub proof fn lemma_names_differ()
    ensures
        "Logs"@ != "LogView"@,
        "Logs"@ != "EditButton"@,
        "Logs"@ != "DelButton"@,
        "Logs"@ != "Create"@,
        "Logs"@ != "CreatorMenu"@,
        "LogView"@ != "EditButton"@,
        "LogView"@ != "DelButton"@,
        "LogView"@ != "Create"@,
        "LogView"@ != "CreatorMenu"@,
        "EditButton"@ != "DelButton"@,
        "EditButton"@ != "Create"@,
        "EditButton"@ != "CreatorMenu"@,
        "DelButton"@ != "Create"@,
        "DelButton"@ != "CreatorMenu"@,
        "Create"@ != "CreatorMenu"@,
{
    reveal_strlit("Logs");
    reveal_strlit("LogView");
    reveal_strlit("EditButton");
    reveal_strlit("DelButton");
    reveal_strlit("Create");
    reveal_strlit("CreatorMenu");
    assert("Logs"@.len() == 4);
    assert("LogView"@.len() == 7);
    assert("EditButton"@.len() == 10);
    assert("DelButton"@.len() == 9);
    assert("Create"@.len() == 6);
    assert("CreatorMenu"@.len() == 11);
}

} // verus!
