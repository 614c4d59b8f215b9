//! The journal's records: entries with a date, a title, a text, and what
//! happened, what was eaten and how the day felt.

use vstd::prelude::*;
use crate::style::{fold_bits, ColorType, Span, Style, Token, TokenView};
use crate::text::{decimal, digits, signed_decimal, signed_digits};
use crate::window::lines_view;

verus! {

/// A day of the week.
#[derive(Clone, Copy, PartialEq, Eq, Structural, Debug)]
pub enum WeekDay {
    Sunday,
    Monday,
    Tuesday,
    Wednesday,
    Thursday,
    Friday,
    Saturday,
}

/// A calendar date with its day of the week.
#[derive(Clone, Copy, PartialEq, Eq, Structural, Debug)]
pub struct Date {
    pub weekday: WeekDay,
    /// The day of the month, from 1.
    pub day: u32,
    /// The month, from 1.
    pub month: u32,
    pub year: i32,
}

impl Date {
    /// Whether day and month are in the range of a calendar.
    pub open spec fn valid(self) -> bool {
        1 <= self.day <= 31 && 1 <= self.month <= 12
    }
}

/// The name of the day of the week.
pub open spec fn weekday_name(w: WeekDay) -> Seq<char> {
    match w {
        WeekDay::Sunday => "Sunday"@,
        WeekDay::Monday => "Monday"@,
        WeekDay::Tuesday => "Tuesday"@,
        WeekDay::Wednesday => "Wednesday"@,
        WeekDay::Thursday => "Thursday"@,
        WeekDay::Friday => "Friday"@,
        WeekDay::Saturday => "Saturday"@,
    }
}

/// The ending of the ordinal of a day of the month: "st" for 1, 21 and 31,
/// "nd" for 2 and 22, "rd" for 3 and 23, and "th" for the rest.
pub open spec fn day_suffix(day: u32) -> Seq<char> {
    if day == 1 || day == 21 || day == 31 {
        "st"@
    } else if day == 2 || day == 22 {
        "nd"@
    } else if day == 3 || day == 23 {
        "rd"@
    } else {
        "th"@
    }
}

/// The day of the month as an ordinal: "1st", "12th".
pub open spec fn day_text(day: u32) -> Seq<char> {
    digits(day as nat) + day_suffix(day)
}

/// The name of the month. A number that is no month from 1 to 11 reads as
/// December.
pub open spec fn month_name(month: u32) -> Seq<char> {
    if month == 1 {
        "January"@
    } else if month == 2 {
        "February"@
    } else if month == 3 {
        "March"@
    } else if month == 4 {
        "April"@
    } else if month == 5 {
        "May"@
    } else if month == 6 {
        "June"@
    } else if month == 7 {
        "July"@
    } else if month == 8 {
        "August"@
    } else if month == 9 {
        "September"@
    } else if month == 10 {
        "October"@
    } else if month == 11 {
        "November"@
    } else {
        "December"@
    }
}

/// The date as an entry shows it: "Monday, the 3rd of March, 2025".
pub open spec fn date_text(d: Date) -> Seq<char> {
    weekday_name(d.weekday) + ", the "@ + day_text(d.day) + " of "@ + month_name(d.month)
        + ", "@ + signed_digits(d.year as int)
}

/// `chrono::Local::now` and `chrono::DateTime::date_naive`: the calendar
/// date of this moment in the local time zone. Nothing is claimed of it: it
/// is whatever day the clock says.
#[verifier::external_body]
fn local_today() -> (date: chrono::NaiveDate) {
    chrono::Local::now().date_naive()
}

/// `chrono::Datelike::weekday` of a `chrono::NaiveDate`: the day of the
/// week, which may be any.
#[verifier::external_body]
fn weekday_of(date: &chrono::NaiveDate) -> (w: WeekDay) {
    match chrono::Datelike::weekday(date) {
        chrono::Weekday::Sun => WeekDay::Sunday,
        chrono::Weekday::Mon => WeekDay::Monday,
        chrono::Weekday::Tue => WeekDay::Tuesday,
        chrono::Weekday::Wed => WeekDay::Wednesday,
        chrono::Weekday::Thu => WeekDay::Thursday,
        chrono::Weekday::Fri => WeekDay::Friday,
        chrono::Weekday::Sat => WeekDay::Saturday,
    }
}

/// `chrono::Datelike::day` of a `chrono::NaiveDate`: the day of the month,
/// which ranges from 1 to 31.
#[verifier::external_body]
fn day_of(date: &chrono::NaiveDate) -> (day: u32)
    ensures
        1 <= day <= 31,
{
    chrono::Datelike::day(date)
}

/// `chrono::Datelike::month` of a `chrono::NaiveDate`: the month, which
/// ranges from 1 to 12.
#[verifier::external_body]
fn month_of(date: &chrono::NaiveDate) -> (month: u32)
    ensures
        1 <= month <= 12,
{
    chrono::Datelike::month(date)
}

/// `chrono::Datelike::year` of a `chrono::NaiveDate`: the year, which may be
/// any.
#[verifier::external_body]
fn year_of(date: &chrono::NaiveDate) -> (year: i32) {
    chrono::Datelike::year(date)
}

/// A calendar date of the `chrono` crate.
#[verifier::external_type_specification]
#[verifier::external_body]
pub struct ExNaiveDate(chrono::NaiveDate);

/// Today's date by the local clock.
pub fn today() -> (d: Date)
    ensures
        d.valid(),
{
    let date = local_today();
    Date {
        weekday: weekday_of(&date),
        day: day_of(&date),
        month: month_of(&date),
        year: year_of(&date),
    }
}

/// How a day felt.
#[derive(Debug)]
pub struct Mood {
    /// From 1, the worst, to 10, the best.
    pub quality: usize,
    pub description: String,
    pub reason: Option<String>,
}

/// What a mood is.
pub struct MoodView {
    pub quality: usize,
    pub description: Seq<char>,
    pub reason: Option<Seq<char>>,
}

impl View for Mood {
    type V = MoodView;

    open spec fn view(&self) -> MoodView {
        MoodView {
            quality: self.quality,
            description: self.description@,
            reason: match self.reason {
                Some(r) => Some(r@),
                None => None,
            },
        }
    }
}

/// What a list of strings is: the characters of each.
pub open spec fn strings_view(list: Seq<String>) -> Seq<Seq<char>> {
    Seq::new(list.len(), |i: int| list[i]@)
}

/// What a list of strings that may be missing is.
pub open spec fn list_view(list: Option<Vec<String>>) -> Option<Seq<Seq<char>>> {
    match list {
        Some(v) => Some(strings_view(v@)),
        None => None,
    }
}

/// One entry of the journal.
#[derive(Debug)]
pub struct Log {
    pub entry_date: String,
    pub entry_title: String,
    pub entry_text: String,
    pub events: Option<Vec<String>>,
    pub food: Option<Vec<String>>,
    pub mood: Option<Mood>,
}

/// What an entry is.
pub struct LogView {
    pub date: Seq<char>,
    pub title: Seq<char>,
    pub text: Seq<char>,
    pub events: Option<Seq<Seq<char>>>,
    pub food: Option<Seq<Seq<char>>>,
    pub mood: Option<MoodView>,
}

impl View for Log {
    type V = LogView;

    open spec fn view(&self) -> LogView {
        LogView {
            date: self.entry_date@,
            title: self.entry_title@,
            text: self.entry_text@,
            events: list_view(self.events),
            food: list_view(self.food),
            mood: match self.mood {
                Some(m) => Some(m@),
                None => None,
            },
        }
    }
}

/// The token that shows `text` with the attributes listed.
pub open spec fn tok(text: Seq<char>, attrs: Seq<ColorType>) -> TokenView {
    TokenView { text, style: Style { bits: fold_bits(attrs) } }
}

/// The lines that list `items`, one to a line after a bullet.
pub open spec fn bullet_lines(items: Seq<Seq<char>>) -> Seq<Seq<TokenView>> {
    Seq::new(
        items.len(),
        |i: int|
            seq![
                tok("  * "@, seq![ColorType::White, ColorType::Italic]),
                tok(items[i], seq![ColorType::White]),
            ],
    )
}

/// A blank line, a heading and the items, where there are items; nothing
/// where there are none.
pub open spec fn section(heading: Seq<char>, items: Option<Seq<Seq<char>>>) -> Seq<
    Seq<TokenView>,
> {
    match items {
        Some(list) => if list.len() > 0 {
            seq![
                Seq::<TokenView>::empty(),
                seq![tok(heading, seq![ColorType::White, ColorType::Italic])],
            ] + bullet_lines(list)
        } else {
            Seq::empty()
        },
        None => Seq::empty(),
    }
}

/// The face that stands for a mood of the quality given.
pub open spec fn mood_icon(quality: usize) -> Seq<char> {
    if quality == 1 || quality == 2 {
        "😞"@
    } else if quality == 3 || quality == 4 {
        "😕"@
    } else if quality == 5 || quality == 6 {
        "😐"@
    } else if quality == 7 || quality == 8 {
        "🙂"@
    } else if quality == 9 || quality == 10 {
        "😄"@
    } else {
        "❓"@
    }
}

/// The line that shows the mood: its face, its quality out of ten and its
/// description.
pub open spec fn mood_line(m: MoodView) -> Seq<TokenView> {
    seq![
        tok(" * "@, Seq::empty()),
        tok(mood_icon(m.quality), seq![ColorType::White]),
        tok(" ("@ + digits(m.quality as nat) + "/10)"@, seq![ColorType::White]),
        tok(" "@, Seq::empty()),
        tok(m.description, seq![ColorType::White]),
    ]
}

/// The lines about the mood: a blank line, a heading, the mood, and the
/// reason where one is given; nothing where no mood is recorded.
pub open spec fn mood_lines(mood: Option<MoodView>) -> Seq<Seq<TokenView>> {
    match mood {
        Some(m) => {
            let head = seq![
                Seq::<TokenView>::empty(),
                seq![tok(" Mood:"@, seq![ColorType::White, ColorType::Italic])],
                mood_line(m),
            ];
            match m.reason {
                Some(r) => head.push(
                    seq![
                        tok(" * Reason: "@, seq![ColorType::White, ColorType::Italic]),
                        tok(r, seq![ColorType::White]),
                    ],
                ),
                None => head,
            }
        },
        None => Seq::empty(),
    }
}

/// The lines that show an entry: date, title and text, then the events, the
/// food and the mood, each as far as recorded.
pub open spec fn render_text(log: LogView) -> Seq<Seq<TokenView>> {
    seq![
        seq![tok("  - "@, Seq::empty()), tok(log.date, seq![ColorType::White, ColorType::Bold])],
        seq![
            tok(" *"@, Seq::empty()),
            tok(log.title, seq![ColorType::White, ColorType::Italic]),
            tok("*"@, Seq::empty()),
        ],
        seq![tok(log.text, seq![ColorType::White])],
    ] + section(" Events:"@, log.events) + section(" Food:"@, log.food) + mood_lines(log.mood)
}

/// The token that shows `text` with the attributes listed.
pub fn token(text: &str, attrs: Vec<ColorType>) -> (t: Token)
    ensures
        t@ == tok(text@, attrs@),
{
    Token::new(text, attrs)
}

/// No attribute.
pub fn plain() -> (v: Vec<ColorType>)
    ensures
        v@ == Seq::<ColorType>::empty(),
{
    Vec::new()
}

/// The attribute given, alone.
pub fn just(a: ColorType) -> (v: Vec<ColorType>)
    ensures
        v@ == seq![a],
{
    let mut v = Vec::new();
    v.push(a);
    assert(v@ =~= seq![a]);
    v
}

/// The two attributes given.
pub fn both(a: ColorType, b: ColorType) -> (v: Vec<ColorType>)
    ensures
        v@ == seq![a, b],
{
    let mut v = Vec::new();
    v.push(a);
    v.push(b);
    assert(v@ =~= seq![a, b]);
    v
}

/// The line of the tokens given.
pub fn line(tokens: Vec<Token>) -> (s: Span)
    ensures
        s@.len() == tokens@.len(),
        forall|i: int| 0 <= i < tokens@.len() ==> s@[i] == (#[trigger] tokens@[i])@,
{
    Span::from_tokens(tokens)
}

/// A copy of the string.
pub fn copy_string(s: &String) -> (r: String)
    ensures
        r@ == s@,
{
    s.clone()
}

/// A copy of the list.
pub fn copy_list(list: &Vec<String>) -> (r: Vec<String>)
    ensures
        strings_view(r@) == strings_view(list@),
{
    let mut r: Vec<String> = Vec::new();
    let mut i: usize = 0;
    while i < list.len()
        invariant
            i <= list.len(),
            r@.len() == i,
            forall|k: int| 0 <= k < i ==> (#[trigger] r@[k])@ == list@[k]@,
        decreases list.len() - i,
    {
        r.push(list[i].clone());
        i += 1;
    }
    assert(strings_view(r@) =~= strings_view(list@));
    r
}

fn push_section(out: &mut Vec<Span>, heading: &str, items: &Option<Vec<String>>)
    ensures
        lines_view(final(out)@) == lines_view(old(out)@) + section(heading@, list_view(*items)),
{
    let ghost start = lines_view(out@);
    match items {
        Some(list) => {
            if list.len() > 0 {
                let blank = line(Vec::new());
                let head = line(vec![token(heading, both(ColorType::White, ColorType::Italic))]);
                out.push(blank);
                out.push(head);
                let ghost base = lines_view(out@);
                proof {
                    assert(blank@ =~= Seq::<TokenView>::empty());
                    assert(head@ =~= seq![
                        tok(heading@, seq![ColorType::White, ColorType::Italic]),
                    ]);
                    assert(base =~= start + seq![blank@, head@]);
                }
                let mut i: usize = 0;
                while i < list.len()
                    invariant
                        i <= list.len(),
                        lines_view(out@) == base + bullet_lines(strings_view(list@)).take(
                            i as int,
                        ),
                    decreases list.len() - i,
                {
                    let ghost before = lines_view(out@);
                    let item = line(
                        vec![
                            token("  * ", both(ColorType::White, ColorType::Italic)),
                            token(list[i].as_str(), just(ColorType::White)),
                        ],
                    );
                    out.push(item);
                    proof {
                        let all = bullet_lines(strings_view(list@));
                        assert(item@ =~= all[i as int]);
                        assert(lines_view(out@) =~= before.push(item@));
                        assert(all.take(i as int + 1) =~= all.take(i as int).push(all[i as int]));
                    }
                    i += 1;
                }
                proof {
                    let all = bullet_lines(strings_view(list@));
                    assert(all.take(list@.len() as int) =~= all);
                    assert(lines_view(out@) =~= start + section(heading@, list_view(*items)));
                }
            } else {
                assert(lines_view(out@) =~= start + section(heading@, list_view(*items)));
            }
        },
        None => {
            assert(lines_view(out@) =~= start + section(heading@, list_view(*items)));
        },
    }
}

fn icon_for(quality: usize) -> (s: &'static str)
    ensures
        s@ == mood_icon(quality),
{
    if quality == 1 || quality == 2 {
        "😞"
    } else if quality == 3 || quality == 4 {
        "😕"
    } else if quality == 5 || quality == 6 {
        "😐"
    } else if quality == 7 || quality == 8 {
        "🙂"
    } else if quality == 9 || quality == 10 {
        "😄"
    } else {
        "❓"
    }
}

fn push_mood(out: &mut Vec<Span>, mood: &Option<Mood>)
    ensures
        lines_view(final(out)@) == lines_view(old(out)@) + mood_lines(
            match *mood {
                Some(m) => Some(m@),
                None => None,
            },
        ),
{
    let ghost start = lines_view(out@);
    match mood {
        Some(m) => {
            let blank = line(Vec::new());
            let head = line(vec![token(" Mood:", both(ColorType::White, ColorType::Italic))]);
            let mut score = String::from_str(" (");
            let number = decimal(m.quality as u64);
            score.append(number.as_str());
            score.append("/10)");
            let what = line(
                vec![
                    token(" * ", plain()),
                    token(icon_for(m.quality), just(ColorType::White)),
                    token(score.as_str(), just(ColorType::White)),
                    token(" ", plain()),
                    token(m.description.as_str(), just(ColorType::White)),
                ],
            );
            proof {
                assert(blank@ =~= Seq::<TokenView>::empty());
                assert(head@ =~= seq![tok(" Mood:"@, seq![ColorType::White, ColorType::Italic])]);
                assert(what@ =~= mood_line(m@));
            }
            out.push(blank);
            out.push(head);
            out.push(what);
            match &m.reason {
                Some(r) => {
                    let why = line(
                        vec![
                            token(" * Reason: ", both(ColorType::White, ColorType::Italic)),
                            token(r.as_str(), just(ColorType::White)),
                        ],
                    );
                    proof {
                        assert(why@ =~= seq![
                            tok(" * Reason: "@, seq![ColorType::White, ColorType::Italic]),
                            tok(r@, seq![ColorType::White]),
                        ]);
                    }
                    out.push(why);
                    assert(lines_view(out@) =~= start + mood_lines(Some(m@)));
                },
                None => {
                    assert(lines_view(out@) =~= start + mood_lines(Some(m@)));
                },
            }
        },
        None => {
            assert(lines_view(out@) =~= start + mood_lines(None));
        },
    }
}

impl Log {
    /// The name of the day of the week.
    pub fn get_week_day(weekday: WeekDay) -> (s: String)
        ensures
            s@ == weekday_name(weekday),
    {
        String::from_str(
            match weekday {
                WeekDay::Sunday => "Sunday",
                WeekDay::Monday => "Monday",
                WeekDay::Tuesday => "Tuesday",
                WeekDay::Wednesday => "Wednesday",
                WeekDay::Thursday => "Thursday",
                WeekDay::Friday => "Friday",
                WeekDay::Saturday => "Saturday",
            },
        )
    }

    /// The day of the month as an ordinal.
    pub fn get_day(day: u32) -> (s: String)
        ensures
            s@ == day_text(day),
    {
        let mut s = decimal(day as u64);
        s.append(
            if day == 1 || day == 21 || day == 31 {
                "st"
            } else if day == 2 || day == 22 {
                "nd"
            } else if day == 3 || day == 23 {
                "rd"
            } else {
                "th"
            },
        );
        s
    }

    /// The name of the month.
    pub fn get_month(month: u32) -> (s: String)
        ensures
            s@ == month_name(month),
    {
        String::from_str(
            if month == 1 {
                "January"
            } else if month == 2 {
                "February"
            } else if month == 3 {
                "March"
            } else if month == 4 {
                "April"
            } else if month == 5 {
                "May"
            } else if month == 6 {
                "June"
            } else if month == 7 {
                "July"
            } else if month == 8 {
                "August"
            } else if month == 9 {
                "September"
            } else if month == 10 {
                "October"
            } else if month == 11 {
                "November"
            } else {
                "December"
            },
        )
    }

    /// The year in digits.
    pub fn get_year(year: i32) -> (s: String)
        ensures
            s@ == signed_digits(year as int),
    {
        signed_decimal(year as i64)
    }

    /// A new entry of the date given, with a title and a text and nothing
    /// else recorded.
    pub fn dated(entry_title: String, entry_text: String, date: Date) -> (log: Log)
        ensures
            log@ == (LogView {
                date: date_text(date),
                title: entry_title@,
                text: entry_text@,
                events: None,
                food: None,
                mood: None,
            }),
    {
        let mut entry_date = Log::get_week_day(date.weekday);
        entry_date.append(", the ");
        entry_date.append(Log::get_day(date.day).as_str());
        entry_date.append(" of ");
        entry_date.append(Log::get_month(date.month).as_str());
        entry_date.append(", ");
        entry_date.append(Log::get_year(date.year).as_str());
        Log { entry_date, entry_title, entry_text, events: None, food: None, mood: None }
    }

    /// A new entry of today's date, with a title and a text and nothing else
    /// recorded. Which day today is the clock decides.
    pub fn new(entry_title: String, entry_text: String) -> (log: Log)
        ensures
            exists|date: Date|
                #![trigger date_text(date)]
                date.valid() && log@ == (LogView {
                    date: date_text(date),
                    title: entry_title@,
                    text: entry_text@,
                    events: None,
                    food: None,
                    mood: None,
                }),
    {
        let date = today();
        let log = Log::dated(entry_title, entry_text, date);
        assert(date.valid() && log@.date == date_text(date));
        log
    }

    /// The lines that show the entry.
    pub fn get_render_text(&self) -> (lines: Vec<Span>)
        ensures
            lines_view(lines@) == render_text(self@),
    {
        let date_span = line(
            vec![
                token("  - ", plain()),
                token(self.entry_date.as_str(), both(ColorType::White, ColorType::Bold)),
            ],
        );
        let title_span = line(
            vec![
                token(" *", plain()),
                token(self.entry_title.as_str(), both(ColorType::White, ColorType::Italic)),
                token("*", plain()),
            ],
        );
        let text_span = line(vec![token(self.entry_text.as_str(), just(ColorType::White))]);
        let mut lines: Vec<Span> = Vec::new();
        lines.push(date_span);
        lines.push(title_span);
        lines.push(text_span);
        proof {
            assert(date_span@ =~= seq![
                tok("  - "@, Seq::empty()),
                tok(self@.date, seq![ColorType::White, ColorType::Bold]),
            ]);
            assert(title_span@ =~= seq![
                tok(" *"@, Seq::empty()),
                tok(self@.title, seq![ColorType::White, ColorType::Italic]),
                tok("*"@, Seq::empty()),
            ]);
            assert(text_span@ =~= seq![tok(self@.text, seq![ColorType::White])]);
            assert(lines_view(lines@) =~= seq![date_span@, title_span@, text_span@]);
        }
        push_section(&mut lines, " Events:", &self.events);
        push_section(&mut lines, " Food:", &self.food);
        push_mood(&mut lines, &self.mood);
        lines
    }

    /// The title.
    pub fn get_title(&self) -> (s: String)
        ensures
            s@ == self@.title,
    {
        self.entry_title.clone()
    }

    /// The date, as the entry shows it.
    pub fn get_date(&self) -> (s: String)
        ensures
            s@ == self@.date,
    {
        self.entry_date.clone()
    }

    /// Records one more thing that happened.
    pub fn add_event(&mut self, event: String)
        ensures
            final(self)@ == (LogView {
                events: Some(
                    match old(self)@.events {
                        Some(list) => list.push(event@),
                        None => seq![event@],
                    },
                ),
                ..old(self)@
            }),
    {
        let ghost before = self@;
        match self.events.take() {
            Some(mut list) => {
                let ghost held = strings_view(list@);
                list.push(event);
                assert(strings_view(list@) =~= held.push(event@));
                self.events = Some(list);
            },
            None => {
                let mut list: Vec<String> = Vec::new();
                list.push(event);
                assert(strings_view(list@) =~= seq![event@]);
                self.events = Some(list);
            },
        }
    }

    /// Records one more thing that was eaten.
    pub fn add_food(&mut self, item: String)
        ensures
            final(self)@ == (LogView {
                food: Some(
                    match old(self)@.food {
                        Some(list) => list.push(item@),
                        None => seq![item@],
                    },
                ),
                ..old(self)@
            }),
    {
        let ghost before = self@;
        match self.food.take() {
            Some(mut list) => {
                let ghost held = strings_view(list@);
                list.push(item);
                assert(strings_view(list@) =~= held.push(item@));
                self.food = Some(list);
            },
            None => {
                let mut list: Vec<String> = Vec::new();
                list.push(item);
                assert(strings_view(list@) =~= seq![item@]);
                self.food = Some(list);
            },
        }
    }
}

/// The entries of the journal, oldest first.
#[derive(Debug)]
pub struct Logs(pub Vec<Log>);

impl View for Logs {
    type V = Seq<LogView>;

    open spec fn view(&self) -> Seq<LogView> {
        Seq::new(self.0@.len(), |i: int| self.0@[i]@)
    }
}

impl Logs {
    /// How many entries there are.
    pub fn len(&self) -> (n: usize)
        ensures
            n == self@.len(),
    {
        self.0.len()
    }

    /// Adds an entry at the end.
    pub fn push(&mut self, item: Log)
        ensures
            final(self)@ == old(self)@.push(item@),
    {
        self.0.push(item);
        assert(self@ =~= old(self)@.push(item@));
    }

    /// A journal without entries.
    pub fn new() -> (logs: Logs)
        ensures
            logs@ == Seq::<LogView>::empty(),
    {
        let logs = Logs(Vec::new());
        assert(logs@ =~= Seq::<LogView>::empty());
        logs
    }

    /// Takes the entry at `index` out and hands it back.
    pub fn remove(&mut self, index: usize) -> (log: Log)
        requires
            index < old(self)@.len(),
        ensures
            log@ == old(self)@[index as int],
            final(self)@ == old(self)@.remove(index as int),
    {
        let log = self.0.remove(index);
        assert(self@ =~= old(self)@.remove(index as int));
        log
    }

    /// The entry at `index`.
    pub fn get(&self, index: usize) -> (log: &Log)
        requires
            index < self@.len(),
        ensures
            log@ == self@[index as int],
    {
        &self.0[index]
    }

    /// Puts `log` in the place of the entry at `index`.
    pub fn set(&mut self, index: usize, log: Log)
        requires
            index < old(self)@.len(),
        ensures
            final(self)@ == old(self)@.update(index as int, log@),
    {
        self.0.set(index, log);
        assert(self@ =~= old(self)@.update(index as int, log@));
    }
}

} // verus!
