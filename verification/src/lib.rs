//! A terminal journal: the decoder that turns raw terminal input into key and
//! mouse events, the compositor that lays named windows over one another and
//! works out the fewest writes that bring the screen up to date, and the
//! journal's own records and entry form on top of the two.

pub mod ansi;
pub mod compositor;
pub mod creator;
pub mod decoder;
pub mod entries;
pub mod events;
pub mod journal;
pub mod style;
pub mod text;
pub mod window;
