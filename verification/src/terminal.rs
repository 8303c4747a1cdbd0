//! The built-in SSH terminal: the top bar's tabs, the bytes each key sends
//! to the shell, the answers to the shell's terminal queries, pasting, and
//! the screen state with scrollback and mouse selection.

use vstd::prelude::*;
use vstd::utf8::encode_utf8;

use crate::input::{KeyCode, KeyEvent};
use crate::picker::{least, minus};
use crate::text::{chars_of, decimal, decimal_bytes, push_decimal_bytes, string_of};

verus! {

broadcast use vstd::string::group_string_axioms;

/// Scrollback kept by the screen, in lines.
pub const SCROLLBACK: usize = 1000;

/// The widest terminal the emulator is given: a tab moves the column to the
/// next multiple of 8 in `u16`, which must not overflow.
pub const MAX_COLS: u16 = 65527;

/// Lines moved by one mouse-wheel step.
pub const SCROLL_STEP: usize = 3;

/// Label of the terminal tab in the top bar.
pub const TAB_F1: &'static str = " F1 Terminal ";

/// Space between the two tabs.
pub const TAB_GAP: &'static str = " ";

/// Label of the file tab in the top bar.
pub const TAB_F2: &'static str = " F2 Dosya ";

/// The clickable tabs of the top bar.
#[derive(Clone, Copy, PartialEq, Eq, Debug, Structural)]
pub enum Tab {
    Terminal,
    Files,
}

/// The tab under (`col`, `row`): the bar is row 0 from column 0, the
/// terminal tab first, then a gap, then the file tab.
pub open spec fn tab_at(col: int, row: int) -> Option<Tab> {
    let f1 = TAB_F1@.len() as int;
    let f2_start = f1 + TAB_GAP@.len();
    let f2_end = f2_start + TAB_F2@.len();
    if row != 0 {
        None
    } else if col < f1 {
        Some(Tab::Terminal)
    } else if f2_start <= col < f2_end {
        Some(Tab::Files)
    } else {
        None
    }
}

/// The tab under (`col`, `row`), if any.
pub fn hit_tab(col: u16, row: u16) -> (r: Option<Tab>)
    ensures
        r == tab_at(col as int, row as int),
{
    proof {
        reveal_strlit(" F1 Terminal ");
        reveal_strlit(" ");
        reveal_strlit(" F2 Dosya ");
    }
    if row != 0 {
        return None;
    }
    let f1_w = chars_of(TAB_F1).len() as u16;
    let gap_w = chars_of(TAB_GAP).len() as u16;
    let f2_w = chars_of(TAB_F2).len() as u16;
    let f2_start = f1_w + gap_w;
    if col < f1_w {
        Some(Tab::Terminal)
    } else if col >= f2_start && col < f2_start + f2_w {
        Some(Tab::Files)
    } else {
        None
    }
}

/// `c` upper-cased as ASCII (other characters unchanged), as a code point.
pub open spec fn ascii_upper(c: char) -> u32 {
    if 'a' <= c && c <= 'z' {
        (c as u32 - 32) as u32
    } else {
        c as u32
    }
}

/// The bytes a key sends to the shell; `None` for keys that are not sent
/// (F1 and F2 switch screens; unknown keys). Ctrl with a letter sends its
/// control byte (Ctrl+C is 3, Ctrl+@ is 0); Alt puts ESC before the bytes.
pub open spec fn key_bytes(k: KeyEvent) -> Option<Seq<u8>> {
    let base: Option<Seq<u8>> = match k.code {
        KeyCode::Char(c) => if k.modifiers.ctrl {
            let up = ascii_upper(c);
            if 0x40 <= up < 0x80 {
                Some(seq![(up % 32) as u8])
            } else {
                None
            }
        } else {
            Some(encode_utf8(seq![c]))
        },
        KeyCode::Enter => Some(seq![13u8]),
        KeyCode::Backspace => Some(seq![127u8]),
        KeyCode::Tab => Some(seq![9u8]),
        KeyCode::BackTab => Some(seq![27u8, 91, 90]),
        KeyCode::Esc => Some(seq![27u8]),
        KeyCode::Up => Some(seq![27u8, 91, 65]),
        KeyCode::Down => Some(seq![27u8, 91, 66]),
        KeyCode::Right => Some(seq![27u8, 91, 67]),
        KeyCode::Left => Some(seq![27u8, 91, 68]),
        KeyCode::Home => Some(seq![27u8, 91, 72]),
        KeyCode::End => Some(seq![27u8, 91, 70]),
        KeyCode::PageUp => Some(seq![27u8, 91, 53, 126]),
        KeyCode::PageDown => Some(seq![27u8, 91, 54, 126]),
        KeyCode::Insert => Some(seq![27u8, 91, 50, 126]),
        KeyCode::Delete => Some(seq![27u8, 91, 51, 126]),
        KeyCode::F(n) => if n == 3 {
            Some(seq![27u8, 79, 82])
        } else if n == 4 {
            Some(seq![27u8, 79, 83])
        } else if n == 5 {
            Some(seq![27u8, 91, 49, 53, 126])
        } else if n == 6 {
            Some(seq![27u8, 91, 49, 55, 126])
        } else if n == 7 {
            Some(seq![27u8, 91, 49, 56, 126])
        } else if n == 8 {
            Some(seq![27u8, 91, 49, 57, 126])
        } else if n == 9 {
            Some(seq![27u8, 91, 50, 48, 126])
        } else if n == 10 {
            Some(seq![27u8, 91, 50, 49, 126])
        } else if n == 11 {
            Some(seq![27u8, 91, 50, 51, 126])
        } else if n == 12 {
            Some(seq![27u8, 91, 50, 52, 126])
        } else {
            None
        },
        _ => None,
    };
    match base {
        Some(b) => if k.modifiers.alt {
            Some(seq![27u8] + b)
        } else {
            Some(b)
        },
        None => None,
    }
}

/// The UTF-8 bytes of one character.
fn char_bytes(c: char) -> (v: Vec<u8>)
    ensures
        v@ == encode_utf8(seq![c]),
{
    let mut s = String::new();
    crate::text::push_char(&mut s, c);
    let b = s.as_str().as_bytes();
    let mut v: Vec<u8> = Vec::new();
    let mut i: usize = 0;
    while i < b.len()
        invariant
            i <= b@.len(),
            v@ == b@.take(i as int),
        decreases b@.len() - i,
    {
        v.push(b[i]);
        i = i + 1;
        assert(v@ =~= b@.take(i as int));
    }
    assert(b@.take(b@.len() as int) =~= b@);
    assert(s@ =~= seq![c]);
    v
}

/// The bytes a key sends to the shell (see `key_bytes`).
pub fn encode_key(k: &KeyEvent) -> (r: Option<Vec<u8>>)
    ensures
        match r {
            Some(v) => key_bytes(*k) == Some(v@),
            None => key_bytes(*k) is None,
        },
{
    let base: Option<Vec<u8>> = match k.code {
        KeyCode::Char(c) => {
            if k.modifiers.ctrl {
                let up: u32 = if 'a' <= c && c <= 'z' {
                    (c as u32) - 32
                } else {
                    c as u32
                };
                if 0x40 <= up && up < 0x80 {
                    Some(vec![(up % 32) as u8])
                } else {
                    None
                }
            } else {
                Some(char_bytes(c))
            }
        },
        KeyCode::Enter => Some(vec![13u8]),
        KeyCode::Backspace => Some(vec![127u8]),
        KeyCode::Tab => Some(vec![9u8]),
        KeyCode::BackTab => Some(vec![27u8, 91, 90]),
        KeyCode::Esc => Some(vec![27u8]),
        KeyCode::Up => Some(vec![27u8, 91, 65]),
        KeyCode::Down => Some(vec![27u8, 91, 66]),
        KeyCode::Right => Some(vec![27u8, 91, 67]),
        KeyCode::Left => Some(vec![27u8, 91, 68]),
        KeyCode::Home => Some(vec![27u8, 91, 72]),
        KeyCode::End => Some(vec![27u8, 91, 70]),
        KeyCode::PageUp => Some(vec![27u8, 91, 53, 126]),
        KeyCode::PageDown => Some(vec![27u8, 91, 54, 126]),
        KeyCode::Insert => Some(vec![27u8, 91, 50, 126]),
        KeyCode::Delete => Some(vec![27u8, 91, 51, 126]),
        KeyCode::F(n) => {
            if n == 3 {
                Some(vec![27u8, 79, 82])
            } else if n == 4 {
                Some(vec![27u8, 79, 83])
            } else if n == 5 {
                Some(vec![27u8, 91, 49, 53, 126])
            } else if n == 6 {
                Some(vec![27u8, 91, 49, 55, 126])
            } else if n == 7 {
                Some(vec![27u8, 91, 49, 56, 126])
            } else if n == 8 {
                Some(vec![27u8, 91, 49, 57, 126])
            } else if n == 9 {
                Some(vec![27u8, 91, 50, 48, 126])
            } else if n == 10 {
                Some(vec![27u8, 91, 50, 49, 126])
            } else if n == 11 {
                Some(vec![27u8, 91, 50, 51, 126])
            } else if n == 12 {
                Some(vec![27u8, 91, 50, 52, 126])
            } else {
                None
            }
        },
        _ => None,
    };
    match base {
        Some(mut out) => {
            if k.modifiers.alt {
                let mut prefixed: Vec<u8> = vec![27u8];
                prefixed.append(&mut out);
                Some(prefixed)
            } else {
                Some(out)
            }
        },
        None => None,
    }
}

} // verus!

verus! {

/// A byte that may stand among a control sequence's parameters: a digit,
/// `;`, `?` or `>`.
pub open spec fn param_byte(b: u8) -> bool {
    (48 <= b && b <= 57) || b == 59 || b == 63 || b == 62
}

/// The first position at or after `j` that does not hold a parameter byte.
pub open spec fn params_end(b: Seq<u8>, j: int) -> int
    decreases b.len() - j,
{
    if j < 0 || j >= b.len() || !param_byte(b[j]) {
        j
    } else {
        params_end(b, j + 1)
    }
}

/// Where the parameters of a query end, and that they are all parameter bytes.
pub proof fn lemma_params_end(b: Seq<u8>, j: int)
    requires
        0 <= j,
    ensures
        j <= params_end(b, j),
        params_end(b, j) <= b.len() || params_end(b, j) == j,
        forall|k: int| j <= k < params_end(b, j) ==> param_byte(#[trigger] b[k]),
        params_end(b, j) < b.len() ==> !param_byte(b[params_end(b, j)]),
    decreases b.len() - j,
{
    if j < b.len() && param_byte(b[j]) {
        lemma_params_end(b, j + 1);
    }
}

/// The answer to one query (`ESC [` parameters final-byte), the cursor being
/// at 0-based (`row`, `col`): cursor position (`6n`) as 1-based
/// `ESC [ row ; col R`, status (`5n`) as `ESC [ 0 n`, primary device
/// attributes (`c` or `0c`) as a VT100's `ESC [ ? 1 ; 2 c`; nothing else is
/// answered.
pub open spec fn query_reply(params: Seq<u8>, last: u8, row: u16, col: u16) -> Seq<u8> {
    if last == 110 && params == seq![54u8] {
        seq![27u8, 91] + decimal_bytes((row + 1) as nat) + seq![59u8] + decimal_bytes(
            (col + 1) as nat,
        ) + seq![82u8]
    } else if last == 110 && params == seq![53u8] {
        seq![27u8, 91, 48, 110]
    } else if last == 99 && (params.len() == 0 || params == seq![48u8]) {
        seq![27u8, 91, 63, 49, 59, 50, 99]
    } else {
        Seq::empty()
    }
}

/// The answers to the queries found in `b` from position `i` on. A query
/// split between two reads is not seen (a rare case).
pub open spec fn replies_from(b: Seq<u8>, i: int, row: u16, col: u16) -> Seq<u8>
    decreases b.len() - i,
{
    if i < 0 || i + 1 >= b.len() {
        Seq::empty()
    } else if b[i] == 27 && b[i + 1] == 91 {
        let j = params_end(b, i + 2);
        proof {
            lemma_params_end(b, i + 2);
        }
        if j < b.len() {
            query_reply(b.subrange(i + 2, j), b[j], row, col) + replies_from(b, j + 1, row, col)
        } else {
            replies_from(b, i + 1, row, col)
        }
    } else {
        replies_from(b, i + 1, row, col)
    }
}

/// Appends the answer to the query whose parameters are `bytes[ps..j]` and
/// whose final byte is `bytes[j]`.
fn push_reply(bytes: &[u8], ps: usize, j: usize, row: u16, col: u16, out: &mut Vec<u8>)
    requires
        ps <= j < bytes@.len(),
    ensures
        final(out)@ == old(out)@ + query_reply(bytes@.subrange(ps as int, j as int), bytes@[j as int], row, col),
{
    let ghost p = bytes@.subrange(ps as int, j as int);
    let last = bytes[j];
    let n = j - ps;
    if n == 1 {
        assert(p[0] == bytes@[ps as int]);
    }
    if last == 110 && n == 1 && bytes[ps] == 54 {
        assert(p =~= seq![54u8]);
        out.push(27);
        out.push(91);
        push_decimal_bytes(out, row as u64 + 1);
        out.push(59);
        push_decimal_bytes(out, col as u64 + 1);
        out.push(82);
        assert(out@ =~= old(out)@ + (seq![27u8, 91] + decimal_bytes((row + 1) as nat) + seq![59u8]
            + decimal_bytes((col + 1) as nat) + seq![82u8]));
    } else if last == 110 && n == 1 && bytes[ps] == 53 {
        assert(p =~= seq![53u8]);
        assert(p != seq![54u8]) by {
            assert(p[0] != seq![54u8][0]);
        }
        out.push(27);
        out.push(91);
        out.push(48);
        out.push(110);
        assert(out@ =~= old(out)@ + seq![27u8, 91, 48, 110]);
    } else if last == 99 && (n == 0 || (n == 1 && bytes[ps] == 48)) {
        if n == 1 {
            assert(p =~= seq![48u8]);
        } else {
            assert(p =~= Seq::<u8>::empty());
        }
        out.push(27);
        out.push(91);
        out.push(63);
        out.push(49);
        out.push(59);
        out.push(50);
        out.push(99);
        assert(out@ =~= old(out)@ + seq![27u8, 91, 63, 49, 59, 50, 99]);
    } else {
        assert(query_reply(p, last, row, col) =~= Seq::<u8>::empty()) by {
            if p == seq![54u8] || p == seq![53u8] || p == seq![48u8] {
                assert(p.len() == 1 && p[0] == bytes@[ps as int]);
            }
        }
        assert(out@ =~= old(out)@ + Seq::<u8>::empty());
    }
}

/// Appends the answers to the terminal queries in `bytes` to `out`. Some
/// shells wait about a second for these answers and then redraw, so a
/// terminal must give them.
pub fn scan_queries(bytes: &[u8], cursor: (u16, u16), out: &mut Vec<u8>)
    ensures
        final(out)@ == old(out)@ + replies_from(bytes@, 0, cursor.0, cursor.1),
{
    let ghost b = bytes@;
    let ghost start = out@;
    let (row, col) = cursor;
    let mut i: usize = 0;
    while i < bytes.len() && i + 1 < bytes.len()
        invariant
            b == bytes@,
            i <= bytes@.len(),
            start + replies_from(b, 0, row, col) == out@ + replies_from(b, i as int, row, col),
        decreases bytes@.len() - i,
    {
        if bytes[i] == 27 && bytes[i + 1] == 91 {
            let ps = i + 2;
            let mut j = ps;
            while j < bytes.len() && ((48 <= bytes[j] && bytes[j] <= 57) || bytes[j] == 59
                || bytes[j] == 63 || bytes[j] == 62)
                invariant
                    b == bytes@,
                    ps <= j <= bytes@.len(),
                    params_end(b, ps as int) == params_end(b, j as int),
                decreases bytes@.len() - j,
            {
                j = j + 1;
            }
            if j < bytes.len() {
                let ghost before = out@;
                push_reply(bytes, ps, j, row, col, out);
                proof {
                    assert(out@ + replies_from(b, j + 1, row, col) =~= before + replies_from(
                        b,
                        i as int,
                        row,
                        col,
                    ));
                }
                i = j + 1;
                continue;
            }
        }
        i = i + 1;
    }
    assert(out@ =~= out@ + Seq::<u8>::empty());
}

} // verus!

verus! {

#[verifier::external_type_specification]
#[verifier::external_body]
pub struct ExParser(vt100::Parser);

#[verifier::external_type_specification]
#[verifier::external_body]
pub struct ExScreen(vt100::Screen);

/// The screen an emulator holds (what `vt100::Parser::screen` returns).
pub uninterp spec fn shown_screen(p: vt100::Parser) -> vt100::Screen;

/// How many lines back into its history an emulator's view is (what
/// `vt100::Screen::scrollback` returns; 0 is the live screen).
pub uninterp spec fn view_offset(p: vt100::Parser) -> usize;

/// How many lines of history the emulator's current grid holds (the length
/// `set_scrollback` clamps to).
pub uninterp spec fn history_len(p: vt100::Parser) -> usize;

/// The emulator's size as (rows, columns), as it was made or last resized.
pub uninterp spec fn emulator_size(p: vt100::Parser) -> (u16, u16);

/// The emulator after it processed `bytes` (`vt100::Parser::process`).
pub uninterp spec fn processed(p: vt100::Parser, bytes: Seq<u8>) -> vt100::Parser;

/// The emulator resized to `rows` x `cols` (`vt100::Parser::set_size`).
pub uninterp spec fn resized(p: vt100::Parser, rows: u16, cols: u16) -> vt100::Parser;

/// The emulator's cursor as (row, column), 0-based
/// (`vt100::Screen::cursor_position`).
pub uninterp spec fn cursor_of(p: vt100::Parser) -> (u16, u16);

/// Whether the program in the shell asked for bracketed paste
/// (`vt100::Screen::bracketed_paste`).
pub uninterp spec fn bracketed_mode(p: vt100::Parser) -> bool;

/// The text between two cells of the view
/// (`vt100::Screen::contents_between`).
pub uninterp spec fn text_between(p: vt100::Parser, start_row: u16, start_col: u16, end_row: u16, end_col: u16) -> Seq<char>;

/// The emulator's screen, for drawing (`vt100::Parser::screen`). Claimed:
/// it is the screen the parser holds, `shown_screen(p)`.
#[verifier::external_body]
fn screen_of<'a>(p: &'a vt100::Parser) -> (r: &'a vt100::Screen)
    ensures
        *r == shown_screen(*p),
{
    p.screen()
}

/// A new terminal emulator (`vt100::Parser::new`) of `rows` x `cols`
/// keeping `scrollback` lines of history. Claimed: it has that size and
/// shows the live screen. `rows` must not be 0 (the parser subtracts one
/// from it).
#[verifier::external_body]
fn new_parser(rows: u16, cols: u16, scrollback: usize) -> (p: vt100::Parser)
    requires
        rows >= 1,
    ensures
        emulator_size(p) == (rows, cols),
        view_offset(p) == 0,
{
    vt100::Parser::new(rows, cols, scrollback)
}

/// Feeds shell output to the emulator (`vt100::Parser::process`). Claimed:
/// the result is `processed(p, bytes)`, and processing never changes the
/// size (only `set_size` does). The emulator keeps its cursor inside the
/// grid (every move is clamped, escape parameters default to 1, the column
/// may reach the width only as a pending wrap), and its unchecked
/// arithmetic relies on that and on: at least one row; at least two
/// columns (it subtracts a character's width, up to 2, from the width);
/// and a width below `MAX_COLS + 1` (a tab adds 8 to the column in `u16`).
#[verifier::external_body]
fn parser_process(p: &mut vt100::Parser, bytes: &[u8])
    requires
        emulator_size(*old(p)).0 >= 1,
        emulator_size(*old(p)).1 >= 2,
        emulator_size(*old(p)).1 <= MAX_COLS,
    ensures
        *final(p) == processed(*old(p), bytes@),
        emulator_size(*final(p)) == emulator_size(*old(p)),
{
    p.process(bytes)
}

/// Resizes the emulator (`vt100::Parser::set_size`). Claimed: the result is
/// `resized(p, rows, cols)` and has that size. Neither may be 0 (the
/// emulator subtracts one from each).
#[verifier::external_body]
fn parser_set_size(p: &mut vt100::Parser, rows: u16, cols: u16)
    requires
        rows >= 1,
        cols >= 1,
    ensures
        *final(p) == resized(*old(p), rows, cols),
        emulator_size(*final(p)) == (rows, cols),
{
    p.set_size(rows, cols)
}

/// Scrolls the view into the history (`vt100::Parser::set_scrollback`).
/// Claimed: the offset becomes `lines` clamped to the history's length;
/// the history, the size and the bracketed-paste mode stay.
#[verifier::external_body]
fn parser_set_scrollback(p: &mut vt100::Parser, lines: usize)
    ensures
        view_offset(*final(p)) == least(lines as int, history_len(*old(p)) as int),
        history_len(*final(p)) == history_len(*old(p)),
        emulator_size(*final(p)) == emulator_size(*old(p)),
        bracketed_mode(*final(p)) == bracketed_mode(*old(p)),
{
    p.set_scrollback(lines)
}

/// The emulator's cursor (`vt100::Screen::cursor_position`). Claimed: it is
/// `cursor_of(p)`.
#[verifier::external_body]
fn cursor_position(p: &vt100::Parser) -> (r: (u16, u16))
    ensures
        r == cursor_of(*p),
{
    p.screen().cursor_position()
}

/// Whether the shell's program asked for bracketed paste
/// (`vt100::Screen::bracketed_paste`). Claimed: it is `bracketed_mode(p)`.
#[verifier::external_body]
fn bracketed_paste(p: &vt100::Parser) -> (r: bool)
    ensures
        r == bracketed_mode(*p),
{
    p.screen().bracketed_paste()
}

/// How many lines back into the history the view is (0: the live screen)
/// (`vt100::Screen::scrollback`). Claimed: it is `view_offset(p)`.
#[verifier::external_body]
fn scrollback_offset(p: &vt100::Parser) -> (r: usize)
    ensures
        r == view_offset(*p),
{
    p.screen().scrollback()
}

/// The text between two cells of the view (`vt100::Screen::contents_between`):
/// the rest of the start row, the rows between, the end row up to
/// `end_col`. Claimed: it is `text_between(p, ..)`. The emulator subtracts
/// `start_col` from its width and the scrollback offset from its height
/// (when it picks the visible rows), so neither may exceed them.
#[verifier::external_body]
fn contents_between(p: &vt100::Parser, start_row: u16, start_col: u16, end_row: u16, end_col: u16) -> (r: String)
    requires
        start_col <= emulator_size(*p).1,
        view_offset(*p) <= emulator_size(*p).0,
    ensures
        r@ == text_between(*p, start_row, start_col, end_row, end_col),
{
    p.screen().contents_between(start_row, start_col, end_row, end_col)
}

/// A mouse selection on the terminal grid: where the drag began and where
/// it is now, as (row, column).
#[derive(Clone, Copy, Debug)]
pub struct Selection {
    pub anchor: (u16, u16),
    pub head: (u16, u16),
}

/// `a` comes no later than `b` in reading order.
pub open spec fn cell_le(a: (u16, u16), b: (u16, u16)) -> bool {
    a.0 < b.0 || (a.0 == b.0 && a.1 <= b.1)
}

/// The selected range in reading order as (first row, first column, last
/// row, column after the last one), or none for a mere click.
pub open spec fn span_of(s: Option<Selection>, cols: u16) -> Option<(u16, u16, u16, u16)> {
    match s {
        None => None,
        Some(sel) => if sel.anchor == sel.head {
            None
        } else {
            let (start, end) = if cell_le(sel.anchor, sel.head) {
                (sel.anchor, sel.head)
            } else {
                (sel.head, sel.anchor)
            };
            let end_col = if end.1 + 1 <= cols {
                (end.1 + 1) as u16
            } else {
                cols
            };
            Some((start.0, start.1, end.0, end_col))
        },
    }
}

/// Text pasted into the shell: line ends become the carriage return a shell
/// expects (`\r\n` and a lone `\n` both become `\r`).
pub open spec fn paste_text(s: Seq<char>) -> Seq<char>
    decreases s.len(),
{
    if s.len() == 0 {
        s
    } else if s.len() >= 2 && s[0] == '\r' && s[1] == '\n' {
        seq!['\r'] + paste_text(s.skip(2))
    } else if s[0] == '\n' {
        seq!['\r'] + paste_text(s.drop_first())
    } else {
        seq![s[0]] + paste_text(s.drop_first())
    }
}

/// `ESC [ 200 ~`, opening a bracketed paste.
pub open spec fn paste_open() -> Seq<u8> {
    seq![27u8, 91, 50, 48, 48, 126]
}

/// `ESC [ 201 ~`, closing a bracketed paste.
pub open spec fn paste_close() -> Seq<u8> {
    seq![27u8, 91, 50, 48, 49, 126]
}

/// The bytes sent for a paste: the text with shell line ends, wrapped in
/// the bracketed-paste markers when the program asked for them (so `vim` or
/// `bash` tell pasting from typing).
pub open spec fn paste_bytes(s: Seq<char>, bracketed: bool) -> Seq<u8> {
    let body = encode_utf8(paste_text(s));
    if bracketed {
        paste_open() + body + paste_close()
    } else {
        body
    }
}

/// The text has a line end (a burst with one is a paste).
pub open spec fn multiline(s: Seq<char>) -> bool {
    s.contains('\r') || s.contains('\n')
}

/// The line-end conversion of `paste_text`.
pub fn paste_body(text: &str) -> (r: String)
    ensures
        r@ == paste_text(text@),
{
    let cs = chars_of(text);
    let mut out: Vec<char> = Vec::new();
    let mut i: usize = 0;
    assert(cs@.skip(0) =~= cs@);
    assert(out@ + paste_text(cs@) =~= paste_text(cs@));
    while i < cs.len()
        invariant
            i <= cs@.len(),
            cs@ == text@,
            paste_text(text@) == out@ + paste_text(cs@.skip(i as int)),
        decreases cs@.len() - i,
    {
        let ghost rest = cs@.skip(i as int);
        if i + 1 < cs.len() && cs[i] == '\r' && cs[i + 1] == '\n' {
            out.push('\r');
            proof {
                assert(rest.skip(2) =~= cs@.skip(i + 2));
                assert(out@ + paste_text(cs@.skip(i + 2)) =~= (out@.drop_last() + seq!['\r'])
                    + paste_text(rest.skip(2)));
            }
            i = i + 2;
        } else {
            let c = cs[i];
            out.push(if c == '\n' {
                '\r'
            } else {
                c
            });
            proof {
                assert(rest.drop_first() =~= cs@.skip(i + 1));
                assert(out@ + paste_text(cs@.skip(i + 1)) =~= (out@.drop_last() + seq![
                    out@.last(),
                ]) + paste_text(rest.drop_first()));
            }
            i = i + 1;
        }
    }
    proof {
        assert(cs@.skip(i as int) =~= Seq::<char>::empty());
        assert(out@ + Seq::<char>::empty() =~= out@);
    }
    string_of(out.as_slice())
}

/// The UTF-8 bytes of a string.
fn utf8_bytes(s: &str) -> (v: Vec<u8>)
    ensures
        v@ == encode_utf8(s@),
{
    let b = s.as_bytes();
    let mut v: Vec<u8> = Vec::new();
    let mut i: usize = 0;
    while i < b.len()
        invariant
            i <= b@.len(),
            v@ == b@.take(i as int),
        decreases b@.len() - i,
    {
        v.push(b[i]);
        i = i + 1;
        assert(v@ =~= b@.take(i as int));
    }
    assert(b@.take(b@.len() as int) =~= b@);
    v
}

/// Whether the text holds a line end.
pub fn has_line_end(s: &str) -> (b: bool)
    ensures
        b == multiline(s@),
{
    let cs = chars_of(s);
    let mut i: usize = 0;
    while i < cs.len()
        invariant
            i <= cs@.len(),
            cs@ == s@,
            forall|k: int| 0 <= k < i ==> cs@[k] != '\r' && cs@[k] != '\n',
        decreases cs@.len() - i,
    {
        if cs[i] == '\r' || cs[i] == '\n' {
            assert(s@[i as int] == cs@[i as int]);
            return true;
        }
        i = i + 1;
    }
    false
}

/// The note in the top bar: the last copy or clipboard message, else while
/// looking at the history how far back the view is.
pub open spec fn top_note_text(copy_note: Option<Seq<char>>, scrolled: usize) -> Option<Seq<char>> {
    match copy_note {
        Some(n) => Some(n),
        None => if scrolled > 0 {
            Some("⇡ "@ + decimal(scrolled as nat) + " satır geride (Enter/yazınca canlıya döner)"@)
        } else {
            None
        },
    }
}

/// What became of a clipboard request.
#[derive(Clone, Copy, PartialEq, Eq, Debug, Structural)]
pub enum Clipboard {
    /// The clipboard took (or gave) the text.
    Done,
    /// The clipboard exists but refused.
    Failed,
    /// There is no clipboard.
    Missing,
}

/// The note after copying `n` characters.
pub open spec fn copy_note_text(outcome: Clipboard, n: nat) -> Seq<char> {
    match outcome {
        Clipboard::Done => "✓ "@ + decimal(n) + " karakter kopyalandı"@,
        Clipboard::Failed => "⚠ pano erişilemedi"@,
        Clipboard::Missing => "⚠ pano yok"@,
    }
}

} // verus!

verus! {

/// A short message shown in the top bar until the next key.
#[derive(Clone, Copy, PartialEq, Eq, Debug, Structural)]
pub enum Notice {
    /// This many characters went to the clipboard.
    Copied(usize),
    /// The clipboard refused the text.
    CopyFailed,
    /// There is no clipboard.
    NoClipboard,
    /// The clipboard held nothing to paste.
    EmptyClipboard,
}

/// The text of a notice.
pub open spec fn notice_text(n: Notice) -> Seq<char> {
    match n {
        Notice::Copied(k) => copy_note_text(Clipboard::Done, k as nat),
        Notice::CopyFailed => copy_note_text(Clipboard::Failed, 0),
        Notice::NoClipboard => copy_note_text(Clipboard::Missing, 0),
        Notice::EmptyClipboard => "⚠ pano boş"@,
    }
}

/// The screen state of the interactive shell: the emulator fed with its
/// output, its size, answers owed to the shell's queries, the mouse
/// selection and the note shown in the top bar. Sending bytes is the
/// caller's part; the methods say what to send.
pub struct TermSession {
    /// The terminal emulator (drawn by the caller).
    pub parser: vt100::Parser,
    pub rows: u16,
    pub cols: u16,
    /// The shell has ended.
    pub closed: bool,
    /// Answers to terminal queries not yet sent.
    pub pending_reply: Vec<u8>,
    pub selection: Option<Selection>,
    /// Message about the last copy or paste.
    pub copy_note: Option<String>,
}

impl TermSession {
    /// Everything but the emulator, the selection and the note is as in
    /// `old`.
    pub open spec fn same_but_view(self, old: TermSession) -> bool {
        &&& self.rows == old.rows
        &&& self.cols == old.cols
        &&& self.closed == old.closed
        &&& self.pending_reply == old.pending_reply
    }

    /// The emulator has the session's size, at least one row and from two
    /// columns (room for a wide character) up to `MAX_COLS`.
    pub open spec fn wf(self) -> bool {
        &&& emulator_size(self.parser) == (self.rows, self.cols)
        &&& self.rows >= 1
        &&& self.cols >= 2
        &&& self.cols <= MAX_COLS
    }

    /// The cell (`row`, `col`) moved inside the grid.
    pub open spec fn clamped(self, row: u16, col: u16) -> (u16, u16) {
        (
            least(row as int, minus(self.rows as int, 1)) as u16,
            least(col as int, minus(self.cols as int, 1)) as u16,
        )
    }

    /// A session showing a `rows` x `cols` terminal with `SCROLLBACK` lines
    /// of history.
    pub fn new(rows: u16, cols: u16) -> (t: TermSession)
        requires
            rows >= 1,
            2 <= cols <= MAX_COLS,
        ensures
            t.wf(),
            view_offset(t.parser) == 0,
            t.rows == rows,
            t.cols == cols,
            !t.closed,
            t.pending_reply@.len() == 0,
            t.selection is None,
            t.copy_note is None,
    {
        TermSession {
            parser: new_parser(rows, cols, SCROLLBACK),
            rows,
            cols,
            closed: false,
            pending_reply: Vec::new(),
            selection: None,
            copy_note: None,
        }
    }

    /// The cell moved inside the grid.
    pub fn clamp(&self, row: u16, col: u16) -> (r: (u16, u16))
        ensures
            r == self.clamped(row, col),
    {
        let last_row: u16 = if self.rows >= 1 {
            self.rows - 1
        } else {
            0
        };
        let last_col: u16 = if self.cols >= 1 {
            self.cols - 1
        } else {
            0
        };
        (
            if row <= last_row {
                row
            } else {
                last_row
            },
            if col <= last_col {
                col
            } else {
                last_col
            },
        )
    }

    /// Starts a selection at a grid cell (left button pressed).
    pub fn sel_start(&mut self, row: u16, col: u16)
        ensures
            final(self).same_but_view(*old(self)),
            final(self).parser == old(self).parser,
            (final(self).selection matches Some(s) && s.anchor == old(self).clamped(row, col)
                && s.head == s.anchor),
            final(self).copy_note is None,
    {
        let p = self.clamp(row, col);
        self.selection = Some(Selection { anchor: p, head: p });
        self.copy_note = None;
    }

    /// Moves the loose end of the selection (mouse dragged).
    pub fn sel_update(&mut self, row: u16, col: u16)
        ensures
            final(self).same_but_view(*old(self)),
            final(self).parser == old(self).parser,
            final(self).copy_note == old(self).copy_note,
            match old(self).selection {
                Some(s) => (final(self).selection matches Some(t) && t.anchor == s.anchor && t.head
                    == old(self).clamped(row, col)),
                None => final(self).selection is None,
            },
    {
        let p = self.clamp(row, col);
        match self.selection {
            Some(s) => {
                self.selection = Some(Selection { anchor: s.anchor, head: p });
            },
            None => {},
        }
    }

    /// Drops the selection and the note (a key was pressed).
    pub fn clear_selection(&mut self)
        ensures
            final(self).same_but_view(*old(self)),
            final(self).parser == old(self).parser,
            final(self).selection is None,
            final(self).copy_note is None,
    {
        self.selection = None;
        self.copy_note = None;
    }

    /// The selected range (see `span_of`).
    pub fn selection_span(&self) -> (r: Option<(u16, u16, u16, u16)>)
        ensures
            r == span_of(self.selection, self.cols),
    {
        match self.selection {
            None => None,
            Some(s) => {
                if s.anchor.0 == s.head.0 && s.anchor.1 == s.head.1 {
                    return None;
                }
                let a_first = s.anchor.0 < s.head.0 || (s.anchor.0 == s.head.0 && s.anchor.1
                    <= s.head.1);
                let (start, end) = if a_first {
                    (s.anchor, s.head)
                } else {
                    (s.head, s.anchor)
                };
                let end_col: u16 = if (end.1 as u32) + 1 <= self.cols as u32 {
                    end.1 + 1
                } else {
                    self.cols
                };
                Some((start.0, start.1, end.0, end_col))
            },
        }
    }

    /// The text a finished drag copies: the selected span's text when the
    /// span starts inside the grid, the view is scrolled back no further
    /// than the screen is tall (the emulator cannot read rows above that),
    /// and the text is not empty.
    pub open spec fn copied_text(self) -> Option<Seq<char>> {
        match span_of(self.selection, self.cols) {
            Some((sr, sc, er, ec)) => if sc > self.cols || view_offset(self.parser) > self.rows {
                None
            } else {
                let t = text_between(self.parser, sr, sc, er, ec);
                if t.len() > 0 {
                    Some(t)
                } else {
                    None
                }
            },
            None => None,
        }
    }

    /// Ends the selection (mouse released). A mere click drops it and
    /// copies nothing; otherwise the selected text, when there is any, is
    /// returned for the clipboard. A selection that a resize left wider
    /// than the screen copies nothing.
    pub fn sel_finish(&mut self) -> (r: Option<String>)
        requires
            old(self).wf(),
        ensures
            match old(self).selection {
                None => *final(self) == *old(self) && r is None,
                Some(s) => if s.anchor == s.head {
                    final(self).same_but_view(*old(self)) && final(self).parser == old(self).parser
                        && final(self).copy_note == old(self).copy_note && final(self).selection is None
                        && r is None
                } else {
                    *final(self) == *old(self) && crate::config::opt_view(r) == old(self).copied_text()
                },
            },
    {
        let s = match self.selection {
            Some(s) => s,
            None => {
                return None;
            },
        };
        if s.anchor.0 == s.head.0 && s.anchor.1 == s.head.1 {
            self.selection = None;
            return None;
        }
        let text = match self.selection_span() {
            Some((sr, sc, er, ec)) => {
                if sc > self.cols || scrollback_offset(&self.parser) > self.rows as usize {
                    return None;
                }
                contents_between(&self.parser, sr, sc, er, ec)
            },
            None => String::new(),
        };
        if text.as_str().unicode_len() > 0 {
            Some(text)
        } else {
            None
        }
    }

    /// Shows a notice in the top bar.
    pub fn notify(&mut self, n: Notice)
        ensures
            final(self).same_but_view(*old(self)),
            final(self).parser == old(self).parser,
            final(self).selection == old(self).selection,
            (final(self).copy_note matches Some(t) && t@ == notice_text(n)),
    {
        let text = match n {
            Notice::Copied(k) => {
                let mut t = String::from_str("✓ ");
                crate::text::push_decimal(&mut t, k as u64);
                t.append(" karakter kopyalandı");
                t
            },
            Notice::CopyFailed => String::from_str("⚠ pano erişilemedi"),
            Notice::NoClipboard => String::from_str("⚠ pano yok"),
            Notice::EmptyClipboard => String::from_str("⚠ pano boş"),
        };
        self.copy_note = Some(text);
    }

    /// The emulator's screen, for drawing.
    pub fn screen(&self) -> (r: &vt100::Screen)
        ensures
            *r == shown_screen(self.parser),
    {
        screen_of(&self.parser)
    }

    /// How many lines back into the history the view is (0: live).
    pub fn scrollback(&self) -> (r: usize)
        ensures
            r == view_offset(self.parser),
    {
        scrollback_offset(&self.parser)
    }

    /// Scrolls the view to `target` lines back (clamped by the emulator to
    /// its history). The selection is dropped: its cells would move.
    fn set_scroll(&mut self, target: usize)
        ensures
            final(self).same_but_view(*old(self)),
            view_offset(final(self).parser) == least(target as int, history_len(old(self).parser) as int),
            history_len(final(self).parser) == history_len(old(self).parser),
            emulator_size(final(self).parser) == emulator_size(old(self).parser),
            bracketed_mode(final(self).parser) == bracketed_mode(old(self).parser),
            final(self).selection is None,
            final(self).copy_note is None,
    {
        parser_set_scrollback(&mut self.parser, target);
        self.selection = None;
        self.copy_note = None;
    }

    /// Scrolls `lines` back into the history (wheel up, Shift+PgUp).
    pub fn scroll_up(&mut self, lines: usize)
        ensures
            final(self).same_but_view(*old(self)),
            view_offset(final(self).parser) == least(
                view_offset(old(self).parser) + lines,
                history_len(old(self).parser) as int,
            ),
            history_len(final(self).parser) == history_len(old(self).parser),
            old(self).wf() ==> final(self).wf(),
            final(self).selection is None,
            final(self).copy_note is None,
    {
        let target = self.scrollback().saturating_add(lines);
        self.set_scroll(target);
    }

    /// Scrolls `lines` towards the live screen (wheel down, Shift+PgDn).
    pub fn scroll_down(&mut self, lines: usize)
        ensures
            final(self).same_but_view(*old(self)),
            view_offset(final(self).parser) == least(
                minus(view_offset(old(self).parser) as int, lines as int),
                history_len(old(self).parser) as int,
            ),
            history_len(final(self).parser) == history_len(old(self).parser),
            old(self).wf() ==> final(self).wf(),
            final(self).selection is None,
            final(self).copy_note is None,
    {
        let target = self.scrollback().saturating_sub(lines);
        self.set_scroll(target);
    }

    /// Back to the live screen; nothing changes when already there.
    /// Otherwise the selection and the note go (their cells moved).
    pub fn scroll_reset(&mut self)
        ensures
            final(self).same_but_view(*old(self)),
            view_offset(final(self).parser) == 0,
            history_len(final(self).parser) == history_len(old(self).parser),
            emulator_size(final(self).parser) == emulator_size(old(self).parser),
            bracketed_mode(final(self).parser) == bracketed_mode(old(self).parser),
            view_offset(old(self).parser) == 0 ==> *final(self) == *old(self),
            view_offset(old(self).parser) != 0 ==> final(self).selection is None
                && final(self).copy_note is None,
    {
        if self.scrollback() != 0 {
            self.set_scroll(0);
        }
    }

    /// Feeds shell output to the emulator and prepares the answers to the
    /// terminal queries in it, for the cursor where the emulator puts it.
    pub fn feed(&mut self, bytes: &[u8])
        requires
            old(self).wf(),
        ensures
            final(self).wf(),
            final(self).parser == processed(old(self).parser, bytes@),
            final(self).pending_reply@ == old(self).pending_reply@ + replies_from(
                bytes@,
                0,
                cursor_of(final(self).parser).0,
                cursor_of(final(self).parser).1,
            ),
            final(self).rows == old(self).rows,
            final(self).cols == old(self).cols,
            final(self).closed == old(self).closed,
            final(self).selection == old(self).selection,
            final(self).copy_note == old(self).copy_note,
    {
        parser_process(&mut self.parser, bytes);
        let cursor = cursor_position(&self.parser);
        scan_queries(bytes, cursor, &mut self.pending_reply);
    }

    /// Takes the answers owed to the shell, if any.
    pub fn take_reply(&mut self) -> (r: Option<Vec<u8>>)
        ensures
            old(self).pending_reply@.len() == 0 ==> r is None && *final(self) == *old(self),
            old(self).pending_reply@.len() > 0 ==> (r matches Some(v) && v == old(self).pending_reply),
            old(self).pending_reply@.len() > 0 ==> final(self).pending_reply@.len() == 0,
            final(self).parser == old(self).parser,
            final(self).rows == old(self).rows,
            final(self).cols == old(self).cols,
            final(self).closed == old(self).closed,
            final(self).selection == old(self).selection,
            final(self).copy_note == old(self).copy_note,
    {
        if self.pending_reply.len() == 0 {
            None
        } else {
            let mut v: Vec<u8> = Vec::new();
            std::mem::swap(&mut v, &mut self.pending_reply);
            Some(v)
        }
    }

    /// Takes a new terminal size. Returns whether it changed (then the
    /// shell must be told); a zero size or the same size changes nothing.
    pub fn resize(&mut self, rows: u16, cols: u16) -> (changed: bool)
        requires
            old(self).wf(),
            cols == 0 || 2 <= cols <= MAX_COLS,
        ensures
            final(self).wf(),
            changed ==> final(self).parser == resized(old(self).parser, rows, cols),
            changed == !(rows == 0 || cols == 0 || (rows == old(self).rows && cols == old(
                self,
            ).cols)),
            !changed ==> *final(self) == *old(self),
            changed ==> final(self).rows == rows && final(self).cols == cols && final(self).closed
                == old(self).closed && final(self).pending_reply == old(self).pending_reply
                && final(self).selection == old(self).selection && final(self).copy_note == old(
                self,
            ).copy_note,
    {
        if rows == 0 || cols == 0 || (rows == self.rows && cols == self.cols) {
            return false;
        }
        self.rows = rows;
        self.cols = cols;
        parser_set_size(&mut self.parser, rows, cols);
        true
    }

    /// The bytes a key sends. Typing drops the selection and, as real
    /// terminals do, returns the view to the live screen.
    pub fn key_bytes(&mut self, k: &KeyEvent) -> (r: Option<Vec<u8>>)
        ensures
            match r {
                Some(v) => key_bytes(*k) == Some(v@),
                None => key_bytes(*k) is None,
            },
            final(self).same_but_view(*old(self)),
            final(self).selection is None,
            final(self).copy_note is None,
            view_offset(final(self).parser) == 0,
            old(self).wf() ==> final(self).wf(),
    {
        self.clear_selection();
        self.scroll_reset();
        encode_key(k)
    }

    /// The bytes for pasting `text` (see `paste_bytes`); drops the selection
    /// and returns to the live screen.
    pub fn paste(&mut self, text: &str) -> (r: Vec<u8>)
        ensures
            r@ == paste_bytes(text@, bracketed_mode(old(self).parser)),
            final(self).same_but_view(*old(self)),
            final(self).selection is None,
            final(self).copy_note is None,
            view_offset(final(self).parser) == 0,
            old(self).wf() ==> final(self).wf(),
    {
        let bracketed = bracketed_paste(&self.parser);
        self.clear_selection();
        self.scroll_reset();
        let body = paste_body(text);
        let bytes = utf8_bytes(body.as_str());
        if bracketed {
            let mut b: Vec<u8> = vec![27u8, 91, 50, 48, 48, 126];
            let mut mid = bytes;
            b.append(&mut mid);
            let mut close: Vec<u8> = vec![27u8, 91, 50, 48, 49, 126];
            b.append(&mut close);
            assert(paste_bytes(text@, true) == b@);
            b
        } else {
            assert(paste_bytes(text@, false) == bytes@);
            bytes
        }
    }

    /// The bytes for a burst of typed characters collected at once. Only a
    /// burst with a line end is a paste and is sent as one: sent plainly a
    /// held-down key (`jjjj` in `vim`) would be pasted as text.
    pub fn burst(&mut self, text: &str) -> (r: Vec<u8>)
        ensures
            multiline(text@) ==> r@ == paste_bytes(text@, bracketed_mode(old(self).parser)),
            !multiline(text@) ==> r@ == encode_utf8(text@),
            final(self).same_but_view(*old(self)),
            final(self).selection is None,
            final(self).copy_note is None,
            view_offset(final(self).parser) == 0,
            old(self).wf() ==> final(self).wf(),
    {
        if has_line_end(text) {
            self.paste(text)
        } else {
            self.clear_selection();
            self.scroll_reset();
            utf8_bytes(text)
        }
    }

    /// The note for the top bar (see `top_note_text`).
    pub fn top_note(&self) -> (r: Option<String>)
        ensures
            top_note_text(crate::config::opt_view(self.copy_note), view_offset(self.parser))
                == crate::config::opt_view(r),
    {
        match &self.copy_note {
            Some(n) => {
                let r = Some(n.clone());
                assert(top_note_text(crate::config::opt_view(self.copy_note), 0) == crate::config::opt_view(r));
                r
            },
            None => {
                let s = self.scrollback();
                if s > 0 {
                    let mut t = String::from_str("⇡ ");
                    crate::text::push_decimal(&mut t, s as u64);
                    t.append(" satır geride (Enter/yazınca canlıya döner)");
                    let r = Some(t);
                    assert(top_note_text(crate::config::opt_view(self.copy_note), s) == crate::config::opt_view(r));
                    r
                } else {
                    let r: Option<String> = None;
                    assert(top_note_text(crate::config::opt_view(self.copy_note), s) == crate::config::opt_view(r));
                    r
                }
            },
        }
    }
}

} // verus!

verus! {

/// Pasted text reaches the shell with carriage returns only: no line feed
/// is left in it.
pub proof fn law_paste_has_no_line_feed(s: Seq<char>)
    ensures
        !paste_text(s).contains('\n'),
    decreases s.len(),
{
    if s.len() > 0 {
        if s.len() >= 2 && s[0] == '\r' && s[1] == '\n' {
            law_paste_has_no_line_feed(s.skip(2));
            let t = paste_text(s.skip(2));
            assert forall|i: int| 0 <= i < paste_text(s).len() implies paste_text(s)[i] != '\n' by {
                if i > 0 {
                    assert(paste_text(s)[i] == t[i - 1]);
                }
            }
        } else {
            law_paste_has_no_line_feed(s.drop_first());
            let t = paste_text(s.drop_first());
            assert forall|i: int| 0 <= i < paste_text(s).len() implies paste_text(s)[i] != '\n' by {
                if i > 0 {
                    assert(paste_text(s)[i] == t[i - 1]);
                }
            }
        }
    }
}

/// The final byte of the ANSI cursor sequence for an arrow key: `A` up,
/// `B` down, `C` right, `D` left.
pub open spec fn arrow_letter(code: KeyCode) -> u8 {
    match code {
        KeyCode::Up => 'A' as u8,
        KeyCode::Down => 'B' as u8,
        KeyCode::Right => 'C' as u8,
        _ => 'D' as u8,
    }
}

/// Without Alt an arrow key sends the ANSI cursor sequence `ESC [` and its
/// direction letter, so the four arrows send four different sequences.
pub proof fn law_arrows_send_cursor_sequences(k: KeyEvent, j: KeyEvent)
    requires
        !k.modifiers.alt,
        !j.modifiers.alt,
        k.code == KeyCode::Up || k.code == KeyCode::Down || k.code == KeyCode::Right || k.code
            == KeyCode::Left,
        j.code == KeyCode::Up || j.code == KeyCode::Down || j.code == KeyCode::Right || j.code
            == KeyCode::Left,
    ensures
        key_bytes(k) == Some(seq![0x1bu8, '[' as u8, arrow_letter(k.code)]),
        k.code == KeyCode::Left ==> key_bytes(k) == Some(seq![0x1bu8, 0x5bu8, 0x44u8]),
        k.code != j.code ==> key_bytes(k) != key_bytes(j),
{
    if k.code != j.code {
        assert(key_bytes(k)->0[2] != key_bytes(j)->0[2]);
    }
}

/// Alt (Meta) sends ESC followed by what the key sends without Alt.
pub proof fn law_alt_prefixes_escape(k: KeyEvent)
    requires
        k.modifiers.alt,
    ensures
        key_bytes(k) == match key_bytes(
            KeyEvent { modifiers: crate::input::Modifiers { alt: false, ..k.modifiers }, ..k },
        ) {
            Some(b) => Some(seq![27u8] + b),
            None => None,
        },
{
}

/// Ctrl with a letter sends one control byte: the letter's position in the
/// alphabet (Ctrl+A is 1, Ctrl+C is 3), whatever its case.
pub proof fn law_ctrl_letter_sends_control_byte(k: KeyEvent, c: char)
    requires
        k.code == KeyCode::Char(c),
        k.modifiers.ctrl,
        !k.modifiers.alt,
        ('a' <= c && c <= 'z') || ('A' <= c && c <= 'Z'),
    ensures
        key_bytes(k) == Some(seq![(ascii_upper(c) - 64) as u8]),
        1 <= ascii_upper(c) - 64 <= 26,
{
}

} // verus!

verus! {

/// The columns `[from, to)` of grid row `r` that the selection span
/// (`sr`, `sc`)–(`er`, `ec`) covers on a grid `cols` wide: within one row
/// from `sc` to `ec`; else the first row from `sc` to the end, the last
/// from the start to `ec`, rows between whole.
pub open spec fn row_cover(sr: u16, sc: u16, er: u16, ec: u16, r: u16, cols: u16) -> (u16, u16) {
    let (c0, c1) = if sr == er {
        (sc, ec)
    } else if r == sr {
        (sc, cols)
    } else if r == er {
        (0u16, ec)
    } else {
        (0u16, cols)
    };
    (c0, if c1 <= cols {
        c1
    } else {
        cols
    })
}

/// The highlighted columns of row `r` (see `row_cover`).
pub fn row_highlight(sr: u16, sc: u16, er: u16, ec: u16, r: u16, cols: u16) -> (c: (u16, u16))
    ensures
        c == row_cover(sr, sc, er, ec, r, cols),
{
    let (c0, c1) = if sr == er {
        (sc, ec)
    } else if r == sr {
        (sc, cols)
    } else if r == er {
        (0u16, ec)
    } else {
        (0u16, cols)
    };
    (c0, if c1 <= cols {
        c1
    } else {
        cols
    })
}

} // verus!
