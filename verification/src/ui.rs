//! The prompt box: a fixed-size box centred on the terminal, drawn with
//! cursor-positioning escape sequences.
//!
//! The functions here produce the text to write; writing it is left to the
//! caller.

use vstd::prelude::*;
use vstd::string::*;

verus! {

/// Width of the box, borders included, in terminal cells.
pub const BOX_WIDTH: usize = 60;

/// Height of the box, borders included, in terminal rows.
pub const BOX_HEIGHT: usize = 5;

/// The box's title line.
pub open spec fn title_text() -> Seq<char> {
    "[toomuch] Time limit exceeded."@
}

/// The line that names the two choices.
pub open spec fn options_text() -> Seq<char> {
    "(c) close | (r) resume"@
}

/// The marker after which the answer is typed.
pub open spec fn input_marker() -> Seq<char> {
    "> "@
}

/// First line of the guidance shown when the command resumes.
pub open spec fn resuming_text() -> Seq<char> {
    "[toomuch] Resuming..."@
}

/// Second line of the guidance shown when the command resumes.
pub open spec fn rerender_text() -> Seq<char> {
    "Press Ctrl-L to rerender your editor."@
}

/// The notice written when the command was killed on request.
pub open spec fn kill_notice_text() -> Seq<char> {
    "\r\n[toomuch] Process killed."@
}

/// The text of one decimal digit.
pub open spec fn digit(d: nat) -> Seq<char>
    recommends
        d < 10,
{
    if d == 0 {
        "0"@
    } else if d == 1 {
        "1"@
    } else if d == 2 {
        "2"@
    } else if d == 3 {
        "3"@
    } else if d == 4 {
        "4"@
    } else if d == 5 {
        "5"@
    } else if d == 6 {
        "6"@
    } else if d == 7 {
        "7"@
    } else if d == 8 {
        "8"@
    } else {
        "9"@
    }
}

/// `n` in decimal, without leading zeros.
pub open spec fn decimal(n: nat) -> Seq<char>
    decreases n,
{
    if n < 10 {
        digit(n)
    } else {
        decimal(n / 10) + digit(n % 10)
    }
}

/// `piece` written `count` times in a row.
pub open spec fn repeated(piece: Seq<char>, count: nat) -> Seq<char>
    decreases count,
{
    if count == 0 {
        Seq::empty()
    } else {
        repeated(piece, (count - 1) as nat) + piece
    }
}

/// The escape sequence that moves the cursor to `row` and `col`.
pub open spec fn cursor_to(row: nat, col: nat) -> Seq<char> {
    "\x1b["@ + decimal(row) + ";"@ + decimal(col) + "H"@
}

/// Row of the box's top border on a terminal `height` rows high: the box is
/// centred, and stays at row 0 where the terminal is too small for that.
pub open spec fn box_top(height: u16) -> nat {
    if height as nat / 2 >= BOX_HEIGHT as nat / 2 {
        (height as nat / 2 - BOX_HEIGHT as nat / 2) as nat
    } else {
        0
    }
}

/// Column of the box's left border on a terminal `width` cells wide.
pub open spec fn box_left(width: u16) -> nat {
    if width as nat / 2 >= BOX_WIDTH as nat / 2 {
        (width as nat / 2 - BOX_WIDTH as nat / 2) as nat
    } else {
        0
    }
}

/// Column at which a text of `len` characters starts so that it is centred
/// in a box whose left border is at `left`.
pub open spec fn centred_col(left: nat, len: nat) -> nat
    recommends
        len <= BOX_WIDTH,
{
    (left + BOX_WIDTH as nat / 2 - len / 2) as nat
}

/// Rows `top + first` up to, not including, `top + first + count`: each is
/// the cursor moved to column `col`, then `edge`, the box's interior blanked,
/// and `edge` again.
pub open spec fn blank_rows(top: nat, col: nat, first: nat, count: nat, edge: Seq<char>) -> Seq<
    char,
>
    decreases count,
{
    if count == 0 {
        Seq::empty()
    } else {
        blank_rows(top, col, first, (count - 1) as nat, edge) + cursor_to(
            top + first + (count - 1) as nat,
            col,
        ) + edge + repeated(" "@, (BOX_WIDTH - 2) as nat) + edge
    }
}

/// The whole prompt on a terminal of the given size: the screen cleared, the
/// box drawn, then the title in bold red, the choices, and the input marker
/// with the cursor left behind it.
pub open spec fn prompt_frame(width: u16, height: u16) -> Seq<char> {
    let top = box_top(height);
    let left = box_left(width);
    "\x1b[2J"@ + cursor_to(top, left) + "┌"@ + repeated("─"@, (BOX_WIDTH - 2) as nat) + "┐"@
        + blank_rows(top, left, 1, (BOX_HEIGHT - 2) as nat, "│"@) + cursor_to(
        top + (BOX_HEIGHT - 1) as nat,
        left,
    ) + "└"@ + repeated("─"@, (BOX_WIDTH - 2) as nat) + "┘"@ + cursor_to(
        top + 1,
        centred_col(left, title_text().len()),
    ) + "\x1b[31;1m"@ + title_text() + "\x1b[0m"@ + cursor_to(
        top + 2,
        centred_col(left, options_text().len()),
    ) + options_text() + cursor_to(top + 3, centred_col(left, input_marker().len()))
        + input_marker()
}

/// The guidance that replaces the prompt when the command resumes: the box's
/// interior blanked, borders untouched, then the two lines, the first in
/// green.
pub open spec fn guide_frame(width: u16, height: u16) -> Seq<char> {
    let top = box_top(height);
    let left = box_left(width);
    blank_rows(top, left + 1, 1, (BOX_HEIGHT - 2) as nat, Seq::empty()) + cursor_to(
        top + 1,
        centred_col(left, resuming_text().len()),
    ) + "\x1b[32m"@ + resuming_text() + "\x1b[0m"@ + cursor_to(
        top + 2,
        centred_col(left, rerender_text().len()),
    ) + rerender_text()
}

fn digit_str(d: usize) -> (text: &'static str)
    requires
        d < 10,
    ensures
        text@ == digit(d as nat),
{
    if d == 0 {
        "0"
    } else if d == 1 {
        "1"
    } else if d == 2 {
        "2"
    } else if d == 3 {
        "3"
    } else if d == 4 {
        "4"
    } else if d == 5 {
        "5"
    } else if d == 6 {
        "6"
    } else if d == 7 {
        "7"
    } else if d == 8 {
        "8"
    } else {
        "9"
    }
}

fn push_decimal(out: &mut String, n: usize)
    ensures
        final(out)@ == old(out)@ + decimal(n as nat),
    decreases n,
{
    if n >= 10 {
        push_decimal(out, n / 10);
    }
    out.append(digit_str(n % 10));
}

fn push_repeated(out: &mut String, piece: &str, count: usize)
    ensures
        final(out)@ == old(out)@ + repeated(piece@, count as nat),
{
    let mut done: usize = 0;
    while done < count
        invariant
            done <= count,
            out@ == old(out)@ + repeated(piece@, done as nat),
        decreases count - done,
    {
        out.append(piece);
        done = done + 1;
    }
}

fn push_cursor(out: &mut String, row: usize, col: usize)
    ensures
        final(out)@ == old(out)@ + cursor_to(row as nat, col as nat),
{
    out.append("\x1b[");
    push_decimal(out, row);
    out.append(";");
    push_decimal(out, col);
    out.append("H");
}

fn push_blank_rows(out: &mut String, top: usize, col: usize, first: usize, count: usize, edge: &str)
    requires
        top + first + count <= usize::MAX,
    ensures
        final(out)@ == old(out)@ + blank_rows(
            top as nat,
            col as nat,
            first as nat,
            count as nat,
            edge@,
        ),
{
    let mut done: usize = 0;
    while done < count
        invariant
            done <= count,
            top + first + count <= usize::MAX,
            out@ == old(out)@ + blank_rows(
                top as nat,
                col as nat,
                first as nat,
                done as nat,
                edge@,
            ),
        decreases count - done,
    {
        push_cursor(out, top + first + done, col);
        out.append(edge);
        push_repeated(out, " ", BOX_WIDTH - 2);
        out.append(edge);
        done = done + 1;
    }
}

/// Top-left corner of the box on a terminal of the given size, as
/// `(row, column)`.
pub fn box_origin(width: u16, height: u16) -> (origin: (usize, usize))
    ensures
        origin.0 == box_top(height),
        origin.1 == box_left(width),
{
    let half_height: usize = (height / 2) as usize;
    let half_width: usize = (width / 2) as usize;
    let top: usize = if half_height >= BOX_HEIGHT / 2 {
        half_height - BOX_HEIGHT / 2
    } else {
        0
    };
    let left: usize = if half_width >= BOX_WIDTH / 2 {
        half_width - BOX_WIDTH / 2
    } else {
        0
    };
    (top, left)
}

/// The text that draws the prompt on a terminal whose size is `size`, given
/// as `(width, height)`. Where the size is not known nothing is drawn.
pub fn draw_centered_prompt(size: Option<(u16, u16)>) -> (text: String)
    ensures
        text@ == match size {
            Some((width, height)) => prompt_frame(width, height),
            None => Seq::empty(),
        },
{
    let mut out = String::new();
    if let Some((width, height)) = size {
        let (top, left) = box_origin(width, height);
        proof {
            reveal_strlit("[toomuch] Time limit exceeded.");
            reveal_strlit("(c) close | (r) resume");
            reveal_strlit("> ");
        }
        out.append("\x1b[2J");
        push_cursor(&mut out, top, left);
        out.append("┌");
        push_repeated(&mut out, "─", BOX_WIDTH - 2);
        out.append("┐");
        push_blank_rows(&mut out, top, left, 1, BOX_HEIGHT - 2, "│");
        push_cursor(&mut out, top + (BOX_HEIGHT - 1), left);
        out.append("└");
        push_repeated(&mut out, "─", BOX_WIDTH - 2);
        out.append("┘");
        push_cursor(&mut out, top + 1, left + BOX_WIDTH / 2 - 15);
        out.append("\x1b[31;1m");
        out.append("[toomuch] Time limit exceeded.");
        out.append("\x1b[0m");
        push_cursor(&mut out, top + 2, left + BOX_WIDTH / 2 - 11);
        out.append("(c) close | (r) resume");
        push_cursor(&mut out, top + 3, left + BOX_WIDTH / 2 - 1);
        out.append("> ");
        assert(out@ =~= prompt_frame(width, height));
    }
    out
}

/// The text that replaces the prompt with the resume guidance on a terminal
/// whose size is `size`. Where the size is not known nothing is drawn.
pub fn update_prompt_with_guide(size: Option<(u16, u16)>) -> (text: String)
    ensures
        text@ == match size {
            Some((width, height)) => guide_frame(width, height),
            None => Seq::empty(),
        },
{
    let mut out = String::new();
    if let Some((width, height)) = size {
        let (top, left) = box_origin(width, height);
        proof {
            reveal_strlit("[toomuch] Resuming...");
            reveal_strlit("Press Ctrl-L to rerender your editor.");
            reveal_strlit("");
        }
        push_blank_rows(&mut out, top, left + 1, 1, BOX_HEIGHT - 2, "");
        push_cursor(&mut out, top + 1, left + BOX_WIDTH / 2 - 10);
        out.append("\x1b[32m");
        out.append("[toomuch] Resuming...");
        out.append("\x1b[0m");
        push_cursor(&mut out, top + 2, left + BOX_WIDTH / 2 - 18);
        out.append("Press Ctrl-L to rerender your editor.");
        assert(""@ =~= Seq::<char>::empty());
        assert(out@ =~= guide_frame(width, height));
    }
    out
}

/// The notice to write on the error stream once the command was killed.
pub fn kill_notice() -> (text: String)
    ensures
        text@ == kill_notice_text(),
{
    let mut out = String::new();
    out.append("\r\n[toomuch] Process killed.");
    assert(out@ =~= kill_notice_text());
    out
}

} // verus!
