//! What is written to the terminal: an update of the screen as a string of
//! control sequences and text.
//!
//! A patch is written as a move of the cursor to its first cell and then its
//! cells from left to right. The attributes are set before the first cell
//! and wherever they change from one cell to the next, and reset after the
//! last.

use vstd::prelude::*;
use crate::compositor::{Patch, PatchView, Update};
use crate::style::{Cell, ColorType, Style, ATTRIBUTE_COUNT};
use crate::text::{decimal, digits, push_char};

verus! {

/// The sequence that clears the screen.
pub open spec fn clear_screen() -> Seq<char> {
    "\x1b[2J"@
}

/// The sequence that puts the cursor on column `x` of row `y`, both counted
/// from 0; the terminal counts from 1, and names the row first.
pub open spec fn cursor_to(x: u16, y: u16) -> Seq<char> {
    "\x1b["@ + digits((y + 1) as nat) + ";"@ + digits((x + 1) as nat) + "H"@
}

/// The numbers that select the attributes of `style` among the first `upto`
/// attributes, each after a semicolon.
pub open spec fn codes(style: Style, upto: int) -> Seq<char>
    decreases upto,
{
    if upto <= 0 {
        Seq::empty()
    } else {
        let attr = ColorType::at(upto - 1);
        codes(style, upto - 1) + (if style.has(attr) {
            ";"@ + digits(attr.sgr() as nat)
        } else {
            Seq::empty()
        })
    }
}

/// The sequence that sets the attributes to those of `style` and no others.
pub open spec fn set_style(style: Style) -> Seq<char> {
    "\x1b[0"@ + codes(style, ATTRIBUTE_COUNT as int) + "m"@
}

/// The attributes in which a cell is written: its own, or none for a cell
/// that holds nothing.
pub open spec fn style_of(cell: Option<Cell>) -> Style {
    match cell {
        Some(c) => c.style,
        None => Style { bits: 0 },
    }
}

/// The character that is written for a cell: its own, or a blank for a cell
/// that holds nothing.
pub open spec fn char_of(cell: Option<Cell>) -> char {
    match cell {
        Some(c) => c.ch,
        None => ' ',
    }
}

/// What is written for the first `n` of the cells.
pub open spec fn cells_text(cells: Seq<Option<Cell>>, n: int) -> Seq<char>
    decreases n,
{
    if n <= 0 {
        Seq::empty()
    } else {
        let before = cells_text(cells, n - 1);
        let cell = cells[n - 1];
        let fresh = n == 1 || style_of(cells[n - 2]) != style_of(cell);
        (if fresh {
            before + set_style(style_of(cell))
        } else {
            before
        }).push(char_of(cell))
    }
}

/// What is written for a patch.
pub open spec fn patch_text(p: PatchView) -> Seq<char> {
    cursor_to(p.x, p.y) + cells_text(p.cells, p.cells.len() as int) + "\x1b[0m"@
}

/// What is written for the first `n` of the patches.
pub open spec fn patches_text(patches: Seq<Patch>, n: int) -> Seq<char>
    decreases n,
{
    if n <= 0 {
        Seq::empty()
    } else {
        patches_text(patches, n - 1) + patch_text(patches[n - 1]@)
    }
}

/// What is written for an update.
pub open spec fn update_text(clear: bool, patches: Seq<Patch>) -> Seq<char> {
    (if clear {
        clear_screen()
    } else {
        Seq::empty()
    }) + patches_text(patches, patches.len() as int)
}

fn append_style(out: &mut String, style: Style)
    ensures
        final(out)@ == old(out)@ + set_style(style),
{
    let ghost start = out@;
    out.append("\x1b[0");
    let mut i: u8 = 0;
    while i < ATTRIBUTE_COUNT
        invariant
            i <= ATTRIBUTE_COUNT,
            out@ == start + "\x1b[0"@ + codes(style, i as int),
        decreases ATTRIBUTE_COUNT - i,
    {
        match ColorType::from_index(i) {
            Some(attr) => {
                if style.contains(attr) {
                    out.append(";");
                    out.append(decimal(attr.sgr_code() as u64).as_str());
                }
            },
            None => {},
        }
        proof {
            let next = codes(style, i as int + 1);
            assert(out@ =~= start + "\x1b[0"@ + next);
        }
        i += 1;
    }
    out.append("m");
    proof {
        assert(out@ =~= start + set_style(style));
    }
}

/// What is written for a patch: computes [`patch_text`].
pub fn encode_patch(patch: &Patch) -> (s: String)
    ensures
        s@ == patch_text(patch@),
{
    let mut s = String::from_str("\x1b[");
    s.append(decimal(patch.y as u64 + 1).as_str());
    s.append(";");
    s.append(decimal(patch.x as u64 + 1).as_str());
    s.append("H");
    let ghost head = s@;
    assert(head =~= cursor_to(patch.x, patch.y));
    let mut i: usize = 0;
    let mut last = Style::plain();
    while i < patch.cells.len()
        invariant
            i <= patch.cells.len(),
            s@ == head + cells_text(patch.cells@, i as int),
            i > 0 ==> last == style_of(patch.cells@[i - 1]),
        decreases patch.cells.len() - i,
    {
        let cell = patch.cells[i];
        let (ch, style) = match cell {
            Some(c) => (c.ch, c.style),
            None => (' ', Style::plain()),
        };
        let ghost before = s@;
        if i == 0 || !(style == last) {
            append_style(&mut s, style);
        }
        push_char(&mut s, ch);
        proof {
            assert(s@ =~= head + cells_text(patch.cells@, i as int + 1));
        }
        last = style;
        i += 1;
    }
    s.append("\x1b[0m");
    proof {
        assert(s@ =~= patch_text(patch@));
    }
    s
}

/// What is written for an update: computes [`update_text`].
pub fn encode(update: &Update) -> (s: String)
    ensures
        s@ == update_text(update.clear, update.patches@),
{
    let mut s = String::new();
    if update.clear {
        s.append("\x1b[2J");
    }
    let ghost head = s@;
    let mut i: usize = 0;
    while i < update.patches.len()
        invariant
            i <= update.patches.len(),
            s@ == head + patches_text(update.patches@, i as int),
        decreases update.patches.len() - i,
    {
        s.append(encode_patch(&update.patches[i]).as_str());
        proof {
            assert(s@ =~= head + patches_text(update.patches@, i as int + 1));
        }
        i += 1;
    }
    proof {
        assert(s@ =~= update_text(update.clear, update.patches@));
    }
    s
}

} // verus!
