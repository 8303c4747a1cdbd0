//! The opening screen: the connection manager. It lists the servers of
//! `config.json`, filters them by a search query, and adds, edits, copies,
//! deletes and reorders them. Every change is saved at once (the caller
//! writes the file when `save_pending` is set); nothing is written while the
//! edit form is open.

use vstd::prelude::*;

use crate::config::{ServerConfig, ServerSpec};
use crate::geometry::Rect;
use crate::text::{
    chars_of, concat2, contains_chars, contains_seq, decimal, decimal_string, owned, push_char,
    string_of, string_of_range, trim, trimmed, is_space, lemma_trimmed_noop,
};
use crate::app::{fold, lowercase};

verus! {

broadcast use vstd::string::group_string_axioms;

/// Toolbar actions (also reachable by shortcut keys).
#[derive(Clone, Copy, PartialEq, Eq, Debug, Structural)]
pub enum Action {
    New,
    Edit,
    Copy,
    Delete,
    MoveUp,
    MoveDown,
}

/// A server matches an already lower-cased query when the query occurs in
/// its lower-cased name, host or user name (so "root" or "10.0" find it too).
pub open spec fn server_matches(s: ServerSpec, q: Seq<char>) -> bool {
    ||| contains_seq(lowercase(s.name), q)
    ||| contains_seq(lowercase(s.host), q)
    ||| contains_seq(lowercase(s.user), q)
}

/// Whether `text`, lower-cased, contains `q`.
fn folded_contains(text: &str, q: &Vec<char>) -> (b: bool)
    ensures
        b == contains_seq(lowercase(text@), q@),
{
    let f = fold(text);
    let fv = chars_of(f.as_str());
    contains_chars(&fv, q)
}

/// Whether the server matches the (lower-case) search text `q`.
pub fn eslesir(s: &ServerConfig, q: &str) -> (b: bool)
    ensures
        b == server_matches(s@, q@),
{
    let qv = chars_of(q);
    folded_contains(s.name.as_str(), &qv) || folded_contains(s.host.as_str(), &qv)
        || folded_contains(s.user.as_str(), &qv)
}

/// `s` cut to at most `n` characters; a cut text ends in `…`.
pub open spec fn clipped(s: Seq<char>, n: nat) -> Seq<char> {
    if s.len() <= n {
        s
    } else if n == 0 {
        seq!['…']
    } else {
        s.take(n - 1).push('…')
    }
}

/// Shortens `s` to at most `n` characters (an overflow ends in `…`).
pub fn kirp(s: &str, n: usize) -> (r: String)
    ensures
        r@ == clipped(s@, n as nat),
{
    let cs = chars_of(s);
    if cs.len() <= n {
        return owned(s);
    }
    let keep: usize = if n == 0 {
        0
    } else {
        n - 1
    };
    let mut r = string_of_range(&cs, 0, keep);
    push_char(&mut r, '…');
    assert(cs@.subrange(0, keep as int) =~= s@.take(keep as int));
    r
}

/// The rectangle fits on a screen of `u16` coordinates.
pub open spec fn fits(r: Rect) -> bool {
    r.x + r.width <= u16::MAX && r.y + r.height <= u16::MAX
}

/// A box of at most `width` x `height` centred in `area`.
pub open spec fn centered_box(area: Rect, width: u16, height: u16) -> Rect {
    let w = if width <= area.width {
        width
    } else {
        area.width
    };
    let h = if height <= area.height {
        height
    } else {
        area.height
    };
    Rect {
        x: (area.x + (area.width - w) / 2) as u16,
        y: (area.y + (area.height - h) / 2) as u16,
        width: w,
        height: h,
    }
}

/// Centres a box of at most `width` x `height` in `area`.
pub fn ortala(area: Rect, width: u16, height: u16) -> (r: Rect)
    requires
        fits(area),
    ensures
        r == centered_box(area, width, height),
        fits(r),
{
    let w = if width <= area.width {
        width
    } else {
        area.width
    };
    let h = if height <= area.height {
        height
    } else {
        area.height
    };
    Rect { x: area.x + (area.width - w) / 2, y: area.y + (area.height - h) / 2, width: w, height: h }
}

} // verus!

verus! {

/// Whether `c` is an ASCII digit.
pub open spec fn is_digit(c: char) -> bool {
    '0' <= c && c <= '9'
}

/// The number written by the decimal digits `d`.
pub open spec fn digits_value(d: Seq<char>) -> nat
    decreases d.len(),
{
    if d.len() == 0 {
        0
    } else {
        digits_value(d.drop_last()) * 10 + (d.last() as nat - 48) as nat
    }
}

/// Every character of `d` is a digit.
pub open spec fn all_digits(d: Seq<char>) -> bool {
    forall|i: int| 0 <= i < d.len() ==> is_digit(#[trigger] d[i])
}

/// What `str::parse::<u16>` accepts: an optional `+`, then at least one
/// digit, for a value of at most 65535.
pub open spec fn parse_u16_spec(s: Seq<char>) -> Option<u16> {
    let d = if s.len() > 0 && s[0] == '+' {
        s.drop_first()
    } else {
        s
    };
    if d.len() > 0 && all_digits(d) && digits_value(d) <= u16::MAX {
        Some(digits_value(d) as u16)
    } else {
        None
    }
}

proof fn lemma_digits_prefix(d: Seq<char>, i: int)
    requires
        0 <= i <= d.len(),
        all_digits(d),
    ensures
        digits_value(d.take(i)) <= digits_value(d),
    decreases d.len() - i,
{
    if i < d.len() {
        lemma_digits_prefix(d, i + 1);
        assert(d.take(i + 1).drop_last() =~= d.take(i));
        assert(d.take(i + 1).last() == d[i]);
        assert(is_digit(d[i]));
    } else {
        assert(d.take(i) =~= d);
    }
}

/// Parses a port number the way `str::parse::<u16>` does.
pub fn parse_u16(s: &str) -> (r: Option<u16>)
    ensures
        r == parse_u16_spec(s@),
{
    let cs = chars_of(s);
    let start: usize = if cs.len() > 0 && cs[0] == '+' {
        1
    } else {
        0
    };
    let ghost d = if s@.len() > 0 && s@[0] == '+' {
        s@.drop_first()
    } else {
        s@
    };
    assert(d =~= s@.skip(start as int));
    if start == cs.len() {
        return None;
    }
    let mut acc: u32 = 0;
    let mut i: usize = start;
    assert(d.take(0) =~= Seq::<char>::empty());
    while i < cs.len()
        invariant
            cs@ == s@,
            d == s@.skip(start as int),
            d == (if s@.len() > 0 && s@[0] == '+' {
                s@.drop_first()
            } else {
                s@
            }),
            start <= i <= cs@.len(),
            forall|k: int| 0 <= k < i - start ==> is_digit(#[trigger] d[k]),
            acc == digits_value(d.take(i - start)),
            acc <= u16::MAX,
        decreases cs@.len() - i,
    {
        let c = cs[i];
        assert(c == d[i - start]);
        if !('0' <= c && c <= '9') {
            assert(!is_digit(d[i - start]));
            assert(!all_digits(d));
            assert(parse_u16_spec(s@) is None);
            return None;
        }
        let digit: u32 = (c as u32) - 48;
        assert(d.take(i + 1 - start).drop_last() =~= d.take(i - start));
        assert(d.take(i + 1 - start).last() == c);
        assert(digits_value(d.take(i + 1 - start)) == acc * 10 + digit);
        let next: u32 = acc * 10 + digit;
        if next > 65535 {
            proof {
                if all_digits(d) {
                    lemma_digits_prefix(d, i + 1 - start);
                    assert(digits_value(d) > u16::MAX);
                }
                assert(parse_u16_spec(s@) is None);
            }
            return None;
        }
        acc = next;
        i = i + 1;
    }
    assert(d.take(i - start) =~= d);
    Some(acc as u16)
}

} // verus!

verus! {

/// Number of form fields.
pub const FIELD_COUNT: usize = 7;

pub const F_NAME: usize = 0;

pub const F_HOST: usize = 1;

pub const F_PORT: usize = 2;

pub const F_USER: usize = 3;

pub const F_PASS: usize = 4;

pub const F_KEY: usize = 5;

pub const F_KEYPASS: usize = 6;

/// Fields shown masked unless secrets are revealed: the two passwords.
pub open spec fn secret_field(i: int) -> bool {
    i == F_PASS || i == F_KEYPASS
}

/// The texts of the fields.
pub open spec fn texts(v: Seq<String>) -> Seq<Seq<char>> {
    Seq::new(v.len(), |i: int| v[i]@)
}

/// The edit form of one connection.
pub struct Form {
    /// `None`: a new connection; `Some(i)`: editing `servers[i]`.
    pub target: Option<usize>,
    pub fields: Vec<String>,
    /// Focused field.
    pub cur: usize,
    /// Cursor in the focused field, in characters (not bytes).
    pub cursor: usize,
    /// Horizontal scroll of the focused value box, in characters.
    pub scroll: usize,
    /// Passwords shown in clear (F9).
    pub show_secrets: bool,
    pub error: Option<String>,
    /// Where each value box was laid out (for mouse hits).
    pub field_areas: Vec<Rect>,
    pub save_area: Rect,
    pub cancel_area: Rect,
    pub reveal_area: Rect,
    /// Screen position of the text cursor, computed by the layout.
    pub cursor_at: Option<(u16, u16)>,
}

/// The initial field texts for a server: the port in decimal, a missing key
/// or key passphrase as empty text.
pub open spec fn initial_texts(s: ServerSpec) -> Seq<Seq<char>> {
    seq![
        s.name,
        s.host,
        decimal(s.port as nat),
        s.user,
        s.password,
        match s.key {
            Some(k) => k,
            None => Seq::empty(),
        },
        match s.key_passphrase {
            Some(k) => k,
            None => Seq::empty(),
        },
    ]
}

/// Text of an optional string, empty when missing.
fn text_or_empty(o: &Option<String>) -> (r: String)
    ensures
        r@ == (match *o {
            Some(k) => k@,
            None => Seq::empty(),
        }),
{
    match o {
        Some(k) => k.clone(),
        None => String::new(),
    }
}

/// `s` with `c` inserted before position `k`.
fn insert_char(s: &String, k: usize, c: char) -> (r: String)
    requires
        k <= s@.len(),
    ensures
        r@ == s@.take(k as int).push(c) + s@.skip(k as int),
        r@.len() <= usize::MAX,
{
    let mut v = chars_of(s.as_str());
    v.insert(k, c);
    let _n = v.len();
    assert(v@ =~= s@.take(k as int).push(c) + s@.skip(k as int));
    string_of(v.as_slice())
}

/// `s` without the character at position `k`.
fn remove_char(s: &String, k: usize) -> (r: String)
    requires
        k < s@.len(),
    ensures
        r@ == s@.take(k as int) + s@.skip(k + 1),
{
    let mut v = chars_of(s.as_str());
    v.remove(k);
    assert(v@ =~= s@.take(k as int) + s@.skip(k + 1));
    string_of(v.as_slice())
}

/// Why a form does not make a valid entry: the host is missing.
pub open spec fn host_missing_msg() -> Seq<char> {
    "Sunucu (host) boş olamaz."@
}

/// The user name is missing.
pub open spec fn user_missing_msg() -> Seq<char> {
    "Kullanıcı adı boş olamaz."@
}

/// The port is not a number from 1 to 65535.
pub open spec fn port_invalid_msg() -> Seq<char> {
    "Port 1–65535 arasında bir sayı olmalı."@
}

/// The entry a form makes, or why it makes none. Host, user, port, name and
/// key path are trimmed; an empty port means 22; an empty name takes the
/// host; an empty key path or key passphrase means none. Passwords are kept
/// exactly as typed: surrounding spaces may belong to them.
pub open spec fn build_spec(f: Seq<Seq<char>>) -> Result<ServerSpec, Seq<char>> {
    let host = trimmed(f[F_HOST as int]);
    let user = trimmed(f[F_USER as int]);
    let port_txt = trimmed(f[F_PORT as int]);
    let port: Option<u16> = if port_txt.len() == 0 {
        Some(22u16)
    } else {
        parse_u16_spec(port_txt)
    };
    if host.len() == 0 {
        Err(host_missing_msg())
    } else if user.len() == 0 {
        Err(user_missing_msg())
    } else if port is None || port == Some(0u16) {
        Err(port_invalid_msg())
    } else {
        let name = trimmed(f[F_NAME as int]);
        let key = trimmed(f[F_KEY as int]);
        Ok(
            ServerSpec {
                name: if name.len() == 0 {
                    host
                } else {
                    name
                },
                host: host,
                port: port.unwrap(),
                user: user,
                password: f[F_PASS as int],
                key: if key.len() == 0 {
                    None
                } else {
                    Some(key)
                },
                key_passphrase: if f[F_KEYPASS as int].len() == 0 {
                    None
                } else {
                    Some(f[F_KEYPASS as int])
                },
            },
        )
    }
}

impl Form {
    /// Seven fields and areas, the focus on a field and the cursor inside it.
    pub open spec fn wf(self) -> bool {
        &&& self.fields@.len() == FIELD_COUNT
        &&& self.field_areas@.len() == FIELD_COUNT
        &&& self.cur < FIELD_COUNT
        &&& self.cursor <= self.fields@[self.cur as int]@.len()
    }

    /// The texts of the fields.
    pub open spec fn values(self) -> Seq<Seq<char>> {
        texts(self.fields@)
    }

    /// A new form for `s`: its texts, focus on the name with the cursor at
    /// its end, nothing scrolled, revealed or laid out, no error.
    pub open spec fn fresh(self, target: Option<usize>, s: ServerSpec) -> bool {
        &&& self.wf()
        &&& self.target == target
        &&& self.values() == initial_texts(s)
        &&& self.cur == 0
        &&& self.cursor == s.name.len()
        &&& self.scroll == 0
        &&& !self.show_secrets
        &&& self.error is None
        &&& self.cursor_at is None
        &&& forall|i: int| 0 <= i < FIELD_COUNT ==> self.field_areas@[i] == Rect::zero_spec()
        &&& self.save_area == Rect::zero_spec()
        &&& self.cancel_area == Rect::zero_spec()
        &&& self.reveal_area == Rect::zero_spec()
    }

    /// A form for `s`, focused on the name with the cursor at its end.
    pub fn new(target: Option<usize>, s: &ServerConfig) -> (f: Form)
        ensures
            f.fresh(target, s@),
    {
        let mut fields: Vec<String> = Vec::new();
        fields.push(s.name.clone());
        fields.push(s.host.clone());
        fields.push(decimal_string(s.port as u64));
        fields.push(s.user.clone());
        fields.push(s.password.clone());
        fields.push(text_or_empty(&s.key));
        fields.push(text_or_empty(&s.key_passphrase));
        let mut areas: Vec<Rect> = Vec::new();
        let mut i: usize = 0;
        while i < FIELD_COUNT
            invariant
                i <= FIELD_COUNT,
                areas@.len() == i,
                forall|k: int| 0 <= k < i ==> areas@[k] == Rect::zero_spec(),
            decreases FIELD_COUNT - i,
        {
            areas.push(Rect::zero());
            i = i + 1;
        }
        let cursor = chars_of(fields[0].as_str()).len();
        let f = Form {
            target,
            fields,
            cur: 0,
            cursor,
            scroll: 0,
            show_secrets: false,
            error: None,
            field_areas: areas,
            save_area: Rect::zero(),
            cancel_area: Rect::zero(),
            reveal_area: Rect::zero(),
            cursor_at: None,
        };
        assert(f.values() =~= initial_texts(s@));
        f
    }

    /// The focused field's text.
    pub fn value(&self) -> (r: &str)
        requires
            self.wf(),
        ensures
            r@ == self.values()[self.cur as int],
    {
        self.fields[self.cur].as_str()
    }

    /// `self` is `old` focused on field `i`, the cursor at the end of its text.
    pub open spec fn focused(self, old: Form, i: int) -> bool {
        &&& self.wf()
        &&& self == (Form { cur: i as usize, cursor: old.values()[i].len() as usize, ..old })
    }

    /// `self` is `old` focused on the next field (after the last, the first).
    pub open spec fn focused_next(self, old: Form) -> bool {
        self.focused(old, (old.cur + 1) % FIELD_COUNT as int)
    }

    /// `self` is `old` focused on the previous field (before the first, the
    /// last).
    pub open spec fn focused_prev(self, old: Form) -> bool {
        self.focused(old, (old.cur + FIELD_COUNT - 1) % FIELD_COUNT as int)
    }

    /// Only the focused field's text and the cursor may have changed.
    pub open spec fn edited(self, old: Form, text: Seq<char>, cursor: int) -> bool {
        &&& self.wf()
        &&& self.values() == old.values().update(old.cur as int, text)
        &&& self.cursor == cursor
        &&& self == (Form { fields: self.fields, cursor: self.cursor, ..old })
    }

    /// Backspace: the character before the cursor is gone (nothing happens
    /// at the start of the text).
    pub open spec fn backspaced(self, old: Form) -> bool {
        let t = old.values()[old.cur as int];
        if old.cursor == 0 {
            self == old
        } else {
            self.edited(old, t.take(old.cursor - 1) + t.skip(old.cursor as int), old.cursor - 1)
        }
    }

    /// Delete: the character under the cursor is gone (nothing happens at
    /// the end of the text).
    pub open spec fn deleted(self, old: Form) -> bool {
        let t = old.values()[old.cur as int];
        if old.cursor >= t.len() {
            self == old
        } else {
            self.edited(old, t.take(old.cursor as int) + t.skip(old.cursor + 1), old.cursor as int)
        }
    }

    /// `c` typed at the cursor; in the port field only digits are taken.
    pub open spec fn typed(self, old: Form, c: char) -> bool {
        let t = old.values()[old.cur as int];
        if old.cur == F_PORT && !is_digit(c) {
            self == old
        } else {
            self.edited(old, t.take(old.cursor as int).push(c) + t.skip(old.cursor as int), old.cursor + 1)
        }
    }

    /// Moves the focus to field `i`, the cursor to the end of its text.
    fn focus(&mut self, i: usize)
        requires
            old(self).wf(),
            i < FIELD_COUNT,
        ensures
            final(self).focused(*old(self), i as int),
    {
        self.cur = i;
        self.cursor = chars_of(self.fields[i].as_str()).len();
    }

    /// Focuses the next field (wrapping around).
    pub fn next_field(&mut self)
        requires
            old(self).wf(),
        ensures
            final(self).focused_next(*old(self)),
    {
        self.focus((self.cur + 1) % FIELD_COUNT);
    }

    /// Focuses the previous field (wrapping around).
    pub fn prev_field(&mut self)
        requires
            old(self).wf(),
        ensures
            final(self).focused_prev(*old(self)),
    {
        self.focus((self.cur + FIELD_COUNT - 1) % FIELD_COUNT);
    }

    /// Deletes the character before the cursor.
    pub fn backspace(&mut self)
        requires
            old(self).wf(),
        ensures
            final(self).backspaced(*old(self)),
    {
        if self.cursor == 0 {
            return;
        }
        let ghost before = self.values();
        let s = remove_char(&self.fields[self.cur], self.cursor - 1);
        self.fields[self.cur] = s;
        self.cursor = self.cursor - 1;
        assert(self.values() =~= before.update(self.cur as int, s@));
    }

    /// Deletes the character under the cursor.
    pub fn delete(&mut self)
        requires
            old(self).wf(),
        ensures
            final(self).deleted(*old(self)),
    {
        let n = chars_of(self.fields[self.cur].as_str()).len();
        if self.cursor >= n {
            return;
        }
        let ghost before = self.values();
        let s = remove_char(&self.fields[self.cur], self.cursor);
        self.fields[self.cur] = s;
        assert(self.values() =~= before.update(self.cur as int, s@));
    }

    /// Types `c` at the cursor. The port field takes digits only; anything
    /// else typed there is dropped.
    pub fn insert(&mut self, c: char)
        requires
            old(self).wf(),
        ensures
            final(self).typed(*old(self), c),
    {
        if self.cur == F_PORT && !('0' <= c && c <= '9') {
            return;
        }
        let ghost before = self.values();
        let s = insert_char(&self.fields[self.cur], self.cursor, c);
        self.fields[self.cur] = s;
        self.cursor = self.cursor + 1;
        assert(self.values() =~= before.update(self.cur as int, s@));
    }

    /// The server entry the form describes, or the message saying why it
    /// describes none.
    pub fn build(&self) -> (r: Result<ServerConfig, String>)
        requires
            self.fields@.len() == FIELD_COUNT,
        ensures
            match r {
                Ok(sc) => build_spec(self.values()) == Ok::<ServerSpec, Seq<char>>(sc@),
                Err(e) => build_spec(self.values()) == Err::<ServerSpec, Seq<char>>(e@),
            },
    {
        let host = trim(self.fields[F_HOST].as_str());
        if chars_of(host.as_str()).len() == 0 {
            return Err(String::from_str("Sunucu (host) boş olamaz."));
        }
        let user = trim(self.fields[F_USER].as_str());
        if chars_of(user.as_str()).len() == 0 {
            return Err(String::from_str("Kullanıcı adı boş olamaz."));
        }
        let port_txt = trim(self.fields[F_PORT].as_str());
        let port: u16 = if chars_of(port_txt.as_str()).len() == 0 {
            22
        } else {
            match parse_u16(port_txt.as_str()) {
                Some(p) => p,
                None => {
                    return Err(String::from_str("Port 1–65535 arasında bir sayı olmalı."));
                },
            }
        };
        if port == 0 {
            return Err(String::from_str("Port 1–65535 arasında bir sayı olmalı."));
        }
        let n = trim(self.fields[F_NAME].as_str());
        let name = if chars_of(n.as_str()).len() == 0 {
            host.clone()
        } else {
            n
        };
        let k = trim(self.fields[F_KEY].as_str());
        let key = if chars_of(k.as_str()).len() == 0 {
            None
        } else {
            Some(k)
        };
        let key_passphrase = if chars_of(self.fields[F_KEYPASS].as_str()).len() == 0 {
            None
        } else {
            Some(self.fields[F_KEYPASS].clone())
        };
        Ok(
            ServerConfig {
                name,
                host,
                port,
                user,
                password: self.fields[F_PASS].clone(),
                key,
                key_passphrase,
            },
        )
    }
}

} // verus!

verus! {

/// Which layer of the screen is open.
pub enum Mode {
    /// The list (the default).
    List,
    /// The edit form.
    Form(Box<Form>),
    /// "Delete this connection?"; `index` is the position in `servers`.
    Confirm { index: usize, name: String },
}

/// The whole state of the connection manager.
pub struct Manager {
    pub servers: Vec<ServerConfig>,
    /// Where the list is saved.
    pub path: String,
    /// Positions in `servers` of the entries that match the query, in order.
    pub view: Vec<usize>,
    pub query: String,
    /// Position inside `view` (not in `servers`).
    pub selected: usize,
    pub offset: usize,
    /// Inner list area of the last drawing.
    pub list_area: Rect,
    /// Where the toolbar buttons were last drawn (for mouse hits).
    pub buttons: Vec<(Rect, Action)>,
    pub status: String,
    pub mode: Mode,
    /// The user gave up: leave without connecting.
    pub quit: bool,
    /// The list changed since it was last written to `path`.
    pub save_pending: bool,
}

/// The server is listed for the search query as typed: the query is empty,
/// or its lower-case form matches the server.
pub open spec fn listed(s: ServerSpec, query: Seq<char>) -> bool {
    query.len() == 0 || server_matches(s, lowercase(query))
}

/// Positions (in order) of the listed servers among the first `n`.
pub open spec fn matching_upto(servers: Seq<ServerConfig>, query: Seq<char>, n: int) -> Seq<usize>
    decreases n,
{
    if n <= 0 {
        Seq::empty()
    } else {
        let prev = matching_upto(servers, query, n - 1);
        if listed(servers[n - 1]@, query) {
            prev.push((n - 1) as usize)
        } else {
            prev
        }
    }
}

/// Positions of all listed servers, in order.
pub open spec fn matching(servers: Seq<ServerConfig>, query: Seq<char>) -> Seq<usize> {
    matching_upto(servers, query, servers.len() as int)
}

/// `a - b`, not below zero.
pub open spec fn minus(a: int, b: int) -> int {
    if a >= b {
        a - b
    } else {
        0
    }
}

/// The smaller of two numbers.
pub open spec fn least(a: int, b: int) -> int {
    if a <= b {
        a
    } else {
        b
    }
}

/// The list's scroll offset: the window of `h` rows (at least one) is moved
/// just enough to show `selected`, and never starts past the last full page.
pub open spec fn list_offset(selected: int, offset: int, h: int, n: int) -> int {
    let hh = if h < 1 {
        1
    } else {
        h
    };
    let o = if selected < offset {
        selected
    } else if selected >= offset + hh {
        selected + 1 - hh
    } else {
        offset
    };
    least(o, minus(n, hh))
}

/// The position of `k` in `view` (meaningful when `view` holds it once).
pub open spec fn index_of(view: Seq<usize>, k: usize) -> int {
    choose|p: int| 0 <= p < view.len() && view[p] == k
}

/// Where a rebuilt list puts the selection: on the entry at `prev` when it
/// is still listed, else at the top.
pub open spec fn sel_after(view: Seq<usize>, prev: Option<usize>) -> int {
    match prev {
        Some(k) if view.contains(k) => index_of(view, k),
        _ => 0,
    }
}

/// The entry under position `sel` of `view`, if any.
pub open spec fn entry_at(view: Seq<usize>, sel: int) -> Option<usize> {
    if 0 <= sel < view.len() {
        Some(view[sel])
    } else {
        None
    }
}

/// Every server position, in order.
pub open spec fn all_positions(n: nat) -> Seq<usize> {
    Seq::new(n, |i: int| i as usize)
}

proof fn lemma_matching_all(servers: Seq<ServerConfig>, n: int)
    requires
        0 <= n <= servers.len(),
        servers.len() <= usize::MAX,
    ensures
        matching_upto(servers, Seq::<char>::empty(), n) =~= all_positions(n as nat),
    decreases n,
{
    if n > 0 {
        lemma_matching_all(servers, n - 1);
    }
}

/// With an empty query every server is listed, in file order.
pub proof fn law_empty_query_lists_all(servers: Seq<ServerConfig>)
    requires
        servers.len() <= usize::MAX,
    ensures
        matching(servers, Seq::<char>::empty()) == all_positions(servers.len()),
{
    lemma_matching_all(servers, servers.len() as int);
}

proof fn lemma_index_of_unique(view: Seq<usize>, k: usize, p: int)
    requires
        forall|i: int, j: int| 0 <= i < j < view.len() ==> view[i] < view[j],
        0 <= p < view.len(),
        view[p] == k,
    ensures
        index_of(view, k) == p,
{
    let q = index_of(view, k);
    assert(0 <= q < view.len() && view[q] == k);
    if q < p {
        assert(view[q] < view[p]);
    } else if p < q {
        assert(view[p] < view[q]);
    }
}

proof fn lemma_index_of_all(n: nat, k: usize)
    requires
        k < n,
        n <= usize::MAX,
    ensures
        index_of(all_positions(n), k) == k,
{
    assert forall|i: int, j: int| 0 <= i < j < all_positions(n).len() implies all_positions(n)[i]
        < all_positions(n)[j] by {}
    lemma_index_of_unique(all_positions(n), k, k as int);
}

proof fn lemma_matching_upto(servers: Seq<ServerConfig>, query: Seq<char>, n: int)
    requires
        0 <= n <= servers.len(),
        servers.len() <= usize::MAX,
    ensures
        matching_upto(servers, query, n).len() <= n,
        forall|i: int, j: int|
            0 <= i < j < matching_upto(servers, query, n).len() ==> matching_upto(
                servers,
                query,
                n,
            )[i] < matching_upto(servers, query, n)[j],
        forall|t: int|
            0 <= t < matching_upto(servers, query, n).len() ==> matching_upto(servers, query, n)[t]
                < n,
        forall|k: usize|
            matching_upto(servers, query, n).contains(k) <==> (k < n && listed(
                servers[k as int]@,
                query,
            )),
    decreases n,
{
    if n > 0 {
        lemma_matching_upto(servers, query, n - 1);
        let prev = matching_upto(servers, query, n - 1);
        let cur = matching_upto(servers, query, n);
        if listed(servers[n - 1]@, query) {
            assert(cur == prev.push((n - 1) as usize));
            assert forall|k: usize| cur.contains(k) <==> (k < n && listed(
                servers[k as int]@,
                query,
            )) by {
                if cur.contains(k) {
                    let t = choose|t: int| 0 <= t < cur.len() && cur[t] == k;
                    if t < prev.len() {
                        assert(prev[t] == k);
                        assert(prev.contains(k));
                    }
                }
                if k < n && listed(servers[k as int]@, query) {
                    if k < n - 1 {
                        assert(prev.contains(k));
                        let t = choose|t: int| 0 <= t < prev.len() && prev[t] == k;
                        assert(cur[t] == k);
                    } else {
                        assert(cur[cur.len() - 1] == k);
                    }
                }
            }
        } else {
            assert forall|k: usize| cur.contains(k) <==> (k < n && listed(
                servers[k as int]@,
                query,
            )) by {
                if k == n - 1 {
                    assert(!prev.contains(k));
                }
            }
        }
    }
}

impl Manager {
    /// The position in `servers` under the selection.
    pub open spec fn current_index(self) -> Option<usize> {
        if self.selected < self.view@.len() {
            Some(self.view@[self.selected as int])
        } else {
            None
        }
    }

    /// The view is the search result over the servers, the selection lies
    /// in it (or is 0 when it is empty), and an open form or confirmation
    /// refers to an existing entry.
    pub open spec fn wf(self) -> bool {
        &&& self.view@ == matching(self.servers@, self.query@)
        &&& self.selected <= minus(self.view@.len() as int, 1)
        &&& match self.mode {
            Mode::List => true,
            Mode::Form(f) => f.wf() && (f.target matches Some(i) ==> i < self.servers@.len()),
            Mode::Confirm { index, .. } => index < self.servers@.len(),
        }
    }

    /// Everything but the list position and the scroll offset is unchanged.
    pub open spec fn same_list(self, old: Manager) -> bool {
        &&& self.servers == old.servers
        &&& self.path == old.path
        &&& self.view == old.view
        &&& self.query == old.query
        &&& self.list_area == old.list_area
        &&& self.buttons == old.buttons
        &&& self.status == old.status
        &&& self.mode == old.mode
        &&& self.quit == old.quit
        &&& self.save_pending == old.save_pending
    }

    /// `self` is the list rebuilt for `servers` and `query`, keeping the
    /// selection on the entry at `prev` when it is still listed (else going
    /// to the top) and scrolling from `offset` to show it.
    pub open spec fn relisted(
        self,
        servers: Seq<ServerConfig>,
        query: Seq<char>,
        prev: Option<usize>,
        offset: int,
    ) -> bool {
        &&& self.servers@ == servers
        &&& self.query@ == query
        &&& self.view@ == matching(servers, query)
        &&& self.selected == sel_after(self.view@, prev)
        &&& self.offset == list_offset(
            self.selected as int,
            offset,
            self.list_area.height as int,
            self.view@.len() as int,
        )
    }

    /// The rest of the state (besides the list) is as in `old`.
    pub open spec fn rest_same(self, old: Manager) -> bool {
        &&& self.path == old.path
        &&& self.list_area == old.list_area
        &&& self.buttons == old.buttons
        &&& self.status == old.status
        &&& self.mode == old.mode
        &&& self.quit == old.quit
        &&& self.save_pending == old.save_pending
    }

    /// The position in `servers` of the selected entry.
    pub fn current(&self) -> (r: Option<usize>)
        ensures
            r == self.current_index(),
    {
        if self.selected < self.view.len() {
            Some(self.view[self.selected])
        } else {
            None
        }
    }

    /// Scrolls the list just enough to show the selection.
    pub fn clamp_scroll(&mut self)
        ensures
            final(self).same_list(*old(self)),
            final(self).selected == old(self).selected,
            final(self).offset == list_offset(
                old(self).selected as int,
                old(self).offset as int,
                old(self).list_area.height as int,
                old(self).view@.len() as int,
            ),
    {
        let h: usize = if self.list_area.height == 0 {
            1
        } else {
            self.list_area.height as usize
        };
        if self.selected < self.offset {
            self.offset = self.selected;
        } else if self.selected - self.offset >= h {
            self.offset = self.selected - (h - 1);
        }
        let n = self.view.len();
        let max_offset: usize = if n >= h {
            n - h
        } else {
            0
        };
        if self.offset > max_offset {
            self.offset = max_offset;
        }
    }

    /// Moves the selection to `idx` (at most the last entry) and scrolls.
    pub fn select(&mut self, idx: usize)
        ensures
            final(self).same_list(*old(self)),
            final(self).selected == least(idx as int, minus(old(self).view@.len() as int, 1)),
            final(self).offset == list_offset(
                final(self).selected as int,
                old(self).offset as int,
                old(self).list_area.height as int,
                old(self).view@.len() as int,
            ),
    {
        let n = self.view.len();
        let last: usize = if n >= 1 {
            n - 1
        } else {
            0
        };
        self.selected = if idx <= last {
            idx
        } else {
            last
        };
        self.clamp_scroll();
    }

    /// Rebuilds the view from the query. The selection stays on the same
    /// server while it is still listed (so deleting letters of the query
    /// does not make the cursor jump).
    pub fn refilter(&mut self)
        ensures
            final(self).relisted(
                old(self).servers@,
                old(self).query@,
                old(self).current_index(),
                old(self).offset as int,
            ),
            final(self).servers == old(self).servers,
            final(self).query == old(self).query,
            final(self).rest_same(*old(self)),
    {
        let onceki = self.current();
        let q = fold(self.query.as_str());
        let qs = q.as_str();
        let qv = chars_of(qs);
        let mut view: Vec<usize> = Vec::new();
        let mut i: usize = 0;
        while i < self.servers.len()
            invariant
                i <= self.servers@.len(),
                q@ == lowercase(self.query@),
                qs@ == q@,
                qv@ == q@,
                (qv@.len() == 0) == (self.query@.len() == 0),
                view@ == matching_upto(self.servers@, self.query@, i as int),
            decreases self.servers@.len() - i,
        {
            if qv.len() == 0 || eslesir(&self.servers[i], qs) {
                view.push(i);
            }
            i = i + 1;
        }
        let mut sel: usize = 0;
        if let Some(k) = onceki {
            let mut p: usize = 0;
            while p < view.len() && view[p] != k
                invariant
                    p <= view@.len(),
                    forall|t: int| 0 <= t < p ==> view@[t] != k,
                decreases view@.len() - p,
            {
                p = p + 1;
            }
            if p < view.len() {
                sel = p;
                proof {
                    lemma_matching_upto(self.servers@, self.query@, self.servers@.len() as int);
                    lemma_index_of_unique(view@, k, p as int);
                }
            }
        }
        proof {
            lemma_matching_upto(self.servers@, self.query@, self.servers@.len() as int);
        }
        self.view = view;
        self.selected = sel;
        self.clamp_scroll();
    }
}

} // verus!

verus! {

/// The entry of an empty "new connection" form.
pub open spec fn empty_server() -> ServerSpec {
    ServerSpec {
        name: Seq::empty(),
        host: Seq::empty(),
        port: 22,
        user: Seq::empty(),
        password: Seq::empty(),
        key: None,
        key_passphrase: None,
    }
}

/// A copy of an entry, its name marked as a copy.
pub open spec fn copied(s: ServerSpec) -> ServerSpec {
    ServerSpec { name: s.name + " (kopya)"@, ..s }
}

/// The opening status line: how to add a first connection, or how to use the
/// list; both name the file.
pub open spec fn greeting(empty: bool, path: Seq<char>) -> Seq<char> {
    if empty {
        "Henüz bağlantı yok — [+ Yeni] (F5) ile ekleyin. Dosya: "@ + path
    } else {
        "Enter / tıkla: bağlan · yaz: ara · Esc: çık · "@ + path
    }
}

impl Manager {
    /// Only the status line changed, to `msg`.
    pub open spec fn only_status(self, old: Manager, msg: Seq<char>) -> bool {
        &&& self.status@ == msg
        &&& self == (Manager { status: self.status, ..old })
    }

    /// Only the mode changed.
    pub open spec fn only_mode(self, old: Manager) -> bool {
        self == (Manager { mode: self.mode, ..old })
    }

    /// `self` is `old` with a copy of entry `i` inserted after it: the search
    /// is cleared and the copy selected, and the list waits to be saved.
    pub open spec fn copied_from(self, old: Manager, i: int) -> bool {
        let n = old.servers@.len() as int;
        let h = old.list_area.height as int;
        &&& self.servers@.len() == n + 1
        &&& self.servers@.remove(i + 1) == old.servers@
        &&& self.servers@[i + 1]@ == copied(old.servers@[i]@)
        &&& self.query@.len() == 0
        &&& self.view@ == all_positions((n + 1) as nat)
        &&& self.selected == i + 1
        &&& self.offset == list_offset(i + 1, list_offset(i, old.offset as int, h, n + 1), h, n + 1)
        &&& self.save_pending
        &&& self.path == old.path
        &&& self.list_area == old.list_area
        &&& self.buttons == old.buttons
        &&& self.status == old.status
        &&& self.mode == old.mode
        &&& self.quit == old.quit
    }

    /// The effect of moving the selected entry one place up or down. It is
    /// refused while a search is active (the visible neighbour need not be
    /// the real one) and does nothing at either end of the list.
    pub open spec fn reordered(self, old: Manager, up: bool) -> bool {
        let n = old.servers@.len() as int;
        let h = old.list_area.height as int;
        if old.query@.len() > 0 {
            self.only_status(old, "Sıralama için önce aramayı temizleyin (Esc)."@)
        } else {
            match old.current_index() {
                None => self == old,
                Some(i) => if (up && i == 0) || (!up && i + 1 >= n) {
                    self == old
                } else {
                    let j: int = if up {
                        i - 1
                    } else {
                        i + 1
                    };
                    &&& self.servers@ == old.servers@.update(i as int, old.servers@[j]).update(
                        j,
                        old.servers@[i as int],
                    )
                    &&& self.query == old.query
                    &&& self.view@ == all_positions(n as nat)
                    &&& self.selected == j
                    &&& self.offset == list_offset(j, list_offset(i as int, old.offset as int, h, n), h, n)
                    &&& self.save_pending
                    &&& self.path == old.path
                    &&& self.list_area == old.list_area
                    &&& self.buttons == old.buttons
                    &&& self.status == old.status
                    &&& self.mode == old.mode
                    &&& self.quit == old.quit
                },
            }
        }
    }

    /// The effect of a toolbar action (or its shortcut).
    pub open spec fn act_effect(self, old: Manager, a: Action) -> bool {
        match a {
            Action::New => self.only_mode(old) && (self.mode matches Mode::Form(f) && f.fresh(
                None,
                empty_server(),
            )),
            Action::Edit => match old.current_index() {
                Some(i) => self.only_mode(old) && (self.mode matches Mode::Form(f) && f.fresh(
                    Some(i),
                    old.servers@[i as int]@,
                )),
                None => self.only_status(old, "Düzenlenecek bağlantı yok."@),
            },
            Action::Copy => match old.current_index() {
                Some(i) => self.copied_from(old, i as int),
                None => self.only_status(old, "Kopyalanacak bağlantı yok."@),
            },
            Action::Delete => match old.current_index() {
                Some(i) => self.only_mode(old) && (self.mode matches Mode::Confirm { index, name }
                    && index == i && name == old.servers@[i as int].name),
                None => self.only_status(old, "Silinecek bağlantı yok."@),
            },
            Action::MoveUp => self.reordered(old, true),
            Action::MoveDown => self.reordered(old, false),
        }
    }

    /// The manager for `servers`, saved to `path`, showing the whole list.
    pub fn new(servers: Vec<ServerConfig>, path: String) -> (m: Manager)
        requires
            servers@.len() <= usize::MAX,
        ensures
            m.wf(),
            m.servers == servers,
            m.path == path,
            m.query@.len() == 0,
            m.view@ == all_positions(servers@.len()),
            m.selected == 0,
            m.offset == 0,
            m.list_area == Rect::zero_spec(),
            m.buttons@.len() == 0,
            m.status@ == greeting(servers@.len() == 0, path@),
            m.mode is List,
            !m.quit,
            !m.save_pending,
    {
        let status = if servers.len() == 0 {
            concat2("Henüz bağlantı yok — [+ Yeni] (F5) ile ekleyin. Dosya: ", path.as_str())
        } else {
            concat2("Enter / tıkla: bağlan · yaz: ara · Esc: çık · ", path.as_str())
        };
        let mut m = Manager {
            servers,
            path,
            view: Vec::new(),
            query: String::new(),
            selected: 0,
            offset: 0,
            list_area: Rect::zero(),
            buttons: Vec::new(),
            status,
            mode: Mode::List,
            quit: false,
            save_pending: false,
        };
        m.refilter();
        proof {
            law_empty_query_lists_all(m.servers@);
            lemma_matching_upto(m.servers@, m.query@, m.servers@.len() as int);
        }
        m
    }

    /// Records the outcome of writing the list to `path`: saved, or the
    /// error text.
    pub fn saved(&mut self, error: Option<String>)
        ensures
            *final(self) == (Manager { status: final(self).status, save_pending: false, ..*old(self) }),
            final(self).status@ == match error {
                None => "Kaydedildi → "@ + old(self).path@,
                Some(e) => "KAYDEDİLEMEDİ: "@ + e@,
            },
    {
        self.status = match error {
            None => concat2("Kaydedildi → ", self.path.as_str()),
            Some(e) => concat2("KAYDEDİLEMEDİ: ", e.as_str()),
        };
        self.save_pending = false;
    }

    /// Moves the selected entry one place up or down (see `reordered`).
    pub fn reorder(&mut self, up: bool)
        requires
            old(self).wf(),
        ensures
            final(self).wf(),
            final(self).reordered(*old(self), up),
    {
        if chars_of(self.query.as_str()).len() > 0 {
            self.status = String::from_str("Sıralama için önce aramayı temizleyin (Esc).");
            return;
        }
        let _len = self.servers.len();
        proof {
            lemma_matching_upto(self.servers@, self.query@, self.servers@.len() as int);
        }
        let i = match self.current() {
            Some(i) => i,
            None => {
                return;
            },
        };
        let n = self.servers.len();
        let j: usize = if up {
            if i == 0 {
                return;
            }
            i - 1
        } else {
            if i + 1 >= n {
                return;
            }
            i + 1
        };
        let ghost before = *self;
        let a = self.servers[i].duplicate();
        let b = self.servers[j].duplicate();
        self.servers[i] = b;
        self.servers[j] = a;
        proof {
            law_empty_query_lists_all(before.servers@);
            lemma_index_of_all(n as nat, i);
        }
        self.refilter();
        proof {
            law_empty_query_lists_all(self.servers@);
            lemma_index_of_all(n as nat, i);
            lemma_matching_upto(self.servers@, self.query@, self.servers@.len() as int);
            assert(self.query@ =~= Seq::<char>::empty());
            assert(self.view@[i as int] == i);
            assert(self.view@.contains(i));
            assert(self.selected == i);
        }
        self.select(j);
        self.save_pending = true;
    }

    /// Applies a toolbar action (see `act_effect`).
    pub fn act(&mut self, a: Action)
        requires
            old(self).wf(),
        ensures
            final(self).wf(),
            final(self).act_effect(*old(self), a),
    {
        let _len = self.servers.len();
        proof {
            lemma_matching_upto(self.servers@, self.query@, self.servers@.len() as int);
        }
        match a {
            Action::New => {
                let ghost before = *self;
                let d = ServerConfig::default();
                let f = Form::new(None, &d);
                self.mode = Mode::Form(Box::new(f));
            },
            Action::Edit => match self.current() {
                Some(i) => {
                    self.mode = Mode::Form(Box::new(Form::new(Some(i), &self.servers[i])));
                },
                None => {
                    self.status = String::from_str("Düzenlenecek bağlantı yok.");
                },
            },
            Action::Copy => match self.current() {
                Some(i) => {
                    let ghost before = *self;
                    let mut kopya = self.servers[i].duplicate();
                    kopya.name = concat2(kopya.name.as_str(), " (kopya)");
                    self.servers.insert(i + 1, kopya);
                    let n = self.servers.len();
                    self.query = String::new();
                    proof {
                        assert(self.servers@.remove(i + 1) =~= before.servers@);
                    }
                    let ghost mid_offset = self.offset;
                    self.refilter();
                    proof {
                        law_empty_query_lists_all(self.servers@);
                        lemma_index_of_all(n as nat, i);
                        lemma_index_of_all(n as nat, (i + 1) as usize);
                        assert(self.view@[i as int] == i);
                        assert(self.view@.contains(i));
                        assert(self.selected == i);
                    }
                    self.select(i + 1);
                    self.save_pending = true;
                },
                None => {
                    self.status = String::from_str("Kopyalanacak bağlantı yok.");
                },
            },
            Action::Delete => match self.current() {
                Some(i) => {
                    self.mode = Mode::Confirm { index: i, name: self.servers[i].name.clone() };
                },
                None => {
                    self.status = String::from_str("Silinecek bağlantı yok.");
                },
            },
            Action::MoveUp => self.reorder(true),
            Action::MoveDown => self.reorder(false),
        }
    }
}

} // verus!

verus! {

/// The page size for PageUp/PageDown: the list height, at least one row.
pub open spec fn page(h: u16) -> int {
    if h == 0 {
        1
    } else {
        h as int
    }
}

/// The first toolbar button drawn over (`col`, `row`), searching from `i`.
pub open spec fn button_at(buttons: Seq<(Rect, Action)>, col: int, row: int, i: int) -> Option<Action>
    decreases buttons.len() - i,
{
    if i < 0 || i >= buttons.len() {
        None
    } else if buttons[i].0.has(col, row) {
        Some(buttons[i].1)
    } else {
        button_at(buttons, col, row, i + 1)
    }
}

/// The first form field whose value box holds (`col`, `row`), from `i` on.
pub open spec fn field_at(areas: Seq<Rect>, col: int, row: int, i: int) -> Option<int>
    decreases areas.len() - i,
{
    if i < 0 || i >= areas.len() {
        None
    } else if areas[i].has(col, row) {
        Some(i)
    } else {
        field_at(areas, col, row, i + 1)
    }
}

/// The effect of a form key that edits the form (it stays open).
pub open spec fn form_edit(g: Form, f: Form, k: crate::input::KeyEvent) -> bool {
    let len = f.values()[f.cur as int].len();
    match k.code {
        crate::input::KeyCode::F(9) => g == Form { show_secrets: !f.show_secrets, ..f },
        crate::input::KeyCode::Tab => if k.modifiers.shift {
            g.focused_prev(f)
        } else {
            g.focused_next(f)
        },
        crate::input::KeyCode::BackTab => g.focused_prev(f),
        crate::input::KeyCode::Down => g.focused_next(f),
        crate::input::KeyCode::Up => g.focused_prev(f),
        crate::input::KeyCode::Left => g == Form { cursor: minus(f.cursor as int, 1) as usize, ..f },
        crate::input::KeyCode::Right => g == Form {
            cursor: least(f.cursor + 1, len as int) as usize,
            ..f
        },
        crate::input::KeyCode::Home => g == Form { cursor: 0, ..f },
        crate::input::KeyCode::End => g == Form { cursor: len as usize, ..f },
        crate::input::KeyCode::Backspace => g.backspaced(f),
        crate::input::KeyCode::Delete => g.deleted(f),
        crate::input::KeyCode::Char(c) if !k.modifiers.ctrl => g.typed(f, c),
        _ => g == f,
    }
}

impl Manager {
    /// `self` is `old` with the selection moved to `idx` (at most the last
    /// entry) and scrolled to show it.
    pub open spec fn selected_to(self, old: Manager, idx: int) -> bool {
        &&& self.same_list(old)
        &&& self.selected == least(idx, minus(old.view@.len() as int, 1))
        &&& self.offset == list_offset(
            self.selected as int,
            old.offset as int,
            old.list_area.height as int,
            old.view@.len() as int,
        )
    }

    /// The list rebuilt for a new query, the rest unchanged.
    pub open spec fn searched(self, old: Manager, query: Seq<char>) -> bool {
        &&& self.relisted(old.servers@, query, old.current_index(), old.offset as int)
        &&& self.servers == old.servers
        &&& self.rest_same(old)
    }

    /// The effect of confirming the form: an invalid form stays open with
    /// the reason shown in it; a valid one replaces (or, for a new
    /// connection, appends) its entry, closes, and the list shows and selects
    /// the entry, clearing the search if that hid it. The list then waits to
    /// be saved.
    pub open spec fn committed(self, old: Manager, form: Form) -> bool {
        match build_spec(form.values()) {
            Err(e) => {
                &&& self.only_mode(old)
                &&& self.mode matches Mode::Form(g) && (g.error matches Some(m) && m@ == e) && *g == (
                Form { error: g.error, ..form })
            },
            Ok(sc) => {
                let n = old.servers@.len() as int;
                let h = old.list_area.height as int;
                let idx: int = match form.target {
                    Some(i) => i as int,
                    None => n,
                };
                let len: int = match form.target {
                    Some(_) => n,
                    None => n + 1,
                };
                let v1 = matching(self.servers@, old.query@);
                let s1 = sel_after(v1, old.current_index());
                let o1 = list_offset(s1, old.offset as int, h, v1.len() as int);
                &&& self.servers@.len() == len
                &&& forall|k: int| 0 <= k < n && k != idx ==> self.servers@[k] == old.servers@[k]
                &&& self.servers@[idx]@ == sc
                &&& if v1.contains(idx as usize) {
                    &&& self.query == old.query
                    &&& self.view@ == v1
                    &&& self.selected == index_of(v1, idx as usize)
                    &&& self.offset == list_offset(self.selected as int, o1, h, v1.len() as int)
                } else {
                    let v2 = all_positions(len as nat);
                    let s2 = sel_after(v2, entry_at(v1, s1));
                    let o2 = list_offset(s2, o1, h, len);
                    &&& self.query@.len() == 0
                    &&& self.view@ == v2
                    &&& self.selected == idx
                    &&& self.offset == list_offset(idx, o2, h, len)
                }
                &&& self.mode is List
                &&& self.save_pending
                &&& self.path == old.path
                &&& self.list_area == old.list_area
                &&& self.buttons == old.buttons
                &&& self.status == old.status
                &&& self.quit == old.quit
            },
        }
    }

    /// The effect of a key on the list. `r` is the server to connect to.
    pub open spec fn list_key_effect(self, old: Manager, k: crate::input::KeyEvent, r: Option<
        usize,
    >) -> bool {
        let ctrl = k.modifiers.ctrl;
        let alt = k.modifiers.alt;
        let last = minus(old.view@.len() as int, 1);
        let quit = self == (Manager { quit: true, ..old });
        if k.code == crate::input::KeyCode::Enter {
            r == old.current_index() && self == old
        } else {
            &&& r is None
            &&& match k.code {
                crate::input::KeyCode::Char(c) if ctrl && (c == 'q' || c == 'Q') => quit,
                crate::input::KeyCode::F(10) => quit,
                crate::input::KeyCode::Esc => if old.query@.len() == 0 {
                    quit
                } else {
                    self.searched(old, Seq::empty())
                },
                crate::input::KeyCode::F(5) => self.act_effect(old, Action::New),
                crate::input::KeyCode::Insert => self.act_effect(old, Action::New),
                crate::input::KeyCode::F(4) => self.act_effect(old, Action::Edit),
                crate::input::KeyCode::F(6) => self.act_effect(old, Action::Copy),
                crate::input::KeyCode::F(8) => self.act_effect(old, Action::Delete),
                crate::input::KeyCode::Delete => self.act_effect(old, Action::Delete),
                crate::input::KeyCode::Up if alt => self.act_effect(old, Action::MoveUp),
                crate::input::KeyCode::Down if alt => self.act_effect(old, Action::MoveDown),
                crate::input::KeyCode::Backspace => self.searched(
                    old,
                    if old.query@.len() == 0 {
                        old.query@
                    } else {
                        old.query@.drop_last()
                    },
                ),
                crate::input::KeyCode::Char(c) if !ctrl && !alt => self.searched(
                    old,
                    old.query@.push(c),
                ),
                crate::input::KeyCode::Down => self.selected_to(old, old.selected + 1),
                crate::input::KeyCode::Up => self.selected_to(old, minus(old.selected as int, 1)),
                crate::input::KeyCode::Home => self.selected_to(old, 0),
                crate::input::KeyCode::End => self.selected_to(old, last),
                crate::input::KeyCode::PageDown => self.selected_to(
                    old,
                    old.selected + page(old.list_area.height),
                ),
                crate::input::KeyCode::PageUp => self.selected_to(
                    old,
                    minus(old.selected as int, page(old.list_area.height)),
                ),
                _ => self == old,
            }
        }
    }

    /// The effect of confirming (or leaving) the form, as `commit_form` does.
    pub open spec fn form_closed_by_commit(self, old: Manager) -> bool {
        match old.mode {
            Mode::Form(f) => self.committed(old, *f),
            _ => self.only_mode(old) && self.mode is List,
        }
    }

    /// The effect of a key while the form is open (`f` is the form).
    pub open spec fn form_key_effect(self, old: Manager, f: Form, k: crate::input::KeyEvent) -> bool {
        match k.code {
            crate::input::KeyCode::Esc => self.only_mode(old) && self.mode is List,
            crate::input::KeyCode::Enter => self.committed(old, f),
            crate::input::KeyCode::F(10) => self.committed(old, f),
            crate::input::KeyCode::Char(c) if c == 's' && k.modifiers.ctrl => self.committed(old, f),
            _ => self.only_mode(old) && (self.mode matches Mode::Form(g) && form_edit(*g, f, k)),
        }
    }

    /// The effect of a key press on the manager. `r` is the server to
    /// connect to. In the delete confirmation `e`, `E` or Enter deletes the
    /// entry and any other key cancels.
    pub open spec fn key_effect(self, old: Manager, k: crate::input::KeyEvent, r: Option<usize>) -> bool {
        match old.mode {
            Mode::Form(f) => r is None && self.form_key_effect(old, *f, k),
            Mode::Confirm { index, .. } => {
                &&& r is None
                &&& if k.code == crate::input::KeyCode::Char('e') || k.code == crate::input::KeyCode::Char('E')
                    || k.code == crate::input::KeyCode::Enter {
                    &&& self.relisted(
                        old.servers@.remove(index as int),
                        old.query@,
                        old.current_index(),
                        old.offset as int,
                    )
                    &&& self.mode is List
                    &&& self.save_pending
                    &&& self.path == old.path
                    &&& self.list_area == old.list_area
                    &&& self.buttons == old.buttons
                    &&& self.status == old.status
                    &&& self.quit == old.quit
                } else {
                    self.only_mode(old) && self.mode is List
                }
            },
            Mode::List => self.list_key_effect(old, k, r),
        }
    }
}

} // verus!

verus! {

/// Where `k` stands in the increasing sequence `view`.
fn position(view: &Vec<usize>, k: usize) -> (r: Option<usize>)
    requires
        forall|i: int, j: int| 0 <= i < j < view@.len() ==> view@[i] < view@[j],
    ensures
        match r {
            Some(p) => p < view@.len() && view@[p as int] == k && p == index_of(view@, k),
            None => !view@.contains(k),
        },
{
    let mut p: usize = 0;
    while p < view.len() && view[p] != k
        invariant
            p <= view@.len(),
            forall|t: int| 0 <= t < p ==> view@[t] != k,
        decreases view@.len() - p,
    {
        p = p + 1;
    }
    if p < view.len() {
        proof {
            lemma_index_of_unique(view@, k, p as int);
        }
        Some(p)
    } else {
        None
    }
}

impl Manager {
    /// Confirms `form` (see `committed`).
    #[verifier::rlimit(40)]
    pub fn commit(&mut self, form: Form)
        requires
            old(self).wf(),
            form.wf(),
            build_spec(form.values()) is Ok ==> (form.target matches Some(i) ==> i < old(self).servers@.len()),
        ensures
            final(self).committed(*old(self), form),
            build_spec(form.values()) is Ok || (form.target matches Some(i) ==> i < old(self).servers@.len())
                ==> final(self).wf(),
    {
        let sc = match form.build() {
            Ok(sc) => sc,
            Err(e) => {
                let mut f = form;
                f.error = Some(e);
                self.mode = Mode::Form(Box::new(f));
                return;
            },
        };
        let ghost before = *self;
        let idx: usize = match form.target {
            Some(i) => {
                self.servers[i] = sc;
                i
            },
            None => {
                self.servers.push(sc);
                self.servers.len() - 1
            },
        };
        let n = self.servers.len();
        self.mode = Mode::List;
        let ghost o0 = self.offset;
        self.refilter();
        proof {
            lemma_matching_upto(self.servers@, self.query@, self.servers@.len() as int);
        }
        let ghost v1 = self.view@;
        let ghost s1 = self.selected;
        let ghost o1 = self.offset;
        let found = position(&self.view, idx);
        if found.is_none() {
            self.query = String::new();
            self.refilter();
            proof {
                law_empty_query_lists_all(self.servers@);
                lemma_matching_upto(self.servers@, self.query@, self.servers@.len() as int);
                assert(self.view@[idx as int] == idx);
            }
        }
        match position(&self.view, idx) {
            Some(pos) => self.select(pos),
            None => {},
        }
        self.save_pending = true;
        proof {
            assert(self.servers@.len() == n);
            if !v1.contains(idx) {
                lemma_index_of_all(n as nat, idx);
            }
        }
    }

    /// Takes the open form out of the mode and confirms it.
    pub fn commit_form(&mut self)
        requires
            old(self).wf(),
        ensures
            final(self).form_closed_by_commit(*old(self)),
            final(self).wf(),
    {
        let mut mode = Mode::List;
        std::mem::swap(&mut mode, &mut self.mode);
        match mode {
            Mode::Form(b) => {
                let f = *b;
                self.commit(f);
            },
            _ => {},
        }
    }
}

} // verus!

verus! {

impl Manager {
    /// Sets the query and rebuilds the list.
    fn search(&mut self, q: String)
        requires
            old(self).wf(),
        ensures
            final(self).searched(*old(self), q@),
            final(self).wf(),
    {
        self.query = q;
        self.refilter();
        let _len = self.servers.len();
        proof {
            lemma_matching_upto(self.servers@, self.query@, self.servers@.len() as int);
        }
    }

    /// Moves the selection (see `selected_to`).
    fn select_checked(&mut self, idx: usize)
        requires
            old(self).wf(),
        ensures
            final(self).selected_to(*old(self), idx as int),
            final(self).wf(),
    {
        self.select(idx);
    }

    /// A key on the list; returns the server to connect to.
    pub fn list_key(&mut self, k: &crate::input::KeyEvent) -> (r: Option<usize>)
        requires
            old(self).wf(),
            old(self).mode is List,
        ensures
            final(self).list_key_effect(*old(self), *k, r),
            final(self).wf(),
    {
        let ctrl = k.modifiers.ctrl;
        let alt = k.modifiers.alt;
        let n = self.view.len();
        let last: usize = if n >= 1 {
            n - 1
        } else {
            0
        };
        let h = self.list_area.height;
        let pg: usize = if h == 0 {
            1
        } else {
            h as usize
        };
        match k.code {
            crate::input::KeyCode::Char(c) if ctrl && (c == 'q' || c == 'Q') => {
                self.quit = true;
            },
            crate::input::KeyCode::F(10) => {
                self.quit = true;
            },
            crate::input::KeyCode::Esc => {
                if chars_of(self.query.as_str()).len() == 0 {
                    self.quit = true;
                } else {
                    self.search(String::new());
                }
            },
            crate::input::KeyCode::Enter => {
                return self.current();
            },
            crate::input::KeyCode::F(5) | crate::input::KeyCode::Insert => self.act(Action::New),
            crate::input::KeyCode::F(4) => self.act(Action::Edit),
            crate::input::KeyCode::F(6) => self.act(Action::Copy),
            crate::input::KeyCode::F(8) | crate::input::KeyCode::Delete => self.act(Action::Delete),
            crate::input::KeyCode::Up if alt => self.act(Action::MoveUp),
            crate::input::KeyCode::Down if alt => self.act(Action::MoveDown),
            crate::input::KeyCode::Backspace => {
                let mut cs = chars_of(self.query.as_str());
                if cs.len() > 0 {
                    cs.pop();
                }
                let q = string_of(cs.as_slice());
                self.search(q);
            },
            crate::input::KeyCode::Char(c) if !ctrl && !alt => {
                let mut q = self.query.clone();
                push_char(&mut q, c);
                self.search(q);
            },
            crate::input::KeyCode::Down => self.select_checked(self.selected + 1),
            crate::input::KeyCode::Up => self.select_checked(
                if self.selected >= 1 {
                    self.selected - 1
                } else {
                    0
                },
            ),
            crate::input::KeyCode::Home => self.select_checked(0),
            crate::input::KeyCode::End => self.select_checked(last),
            crate::input::KeyCode::PageDown => {
                let t = self.selected.saturating_add(pg);
                self.select_checked(t);
            },
            crate::input::KeyCode::PageUp => {
                let t: usize = if self.selected >= pg {
                    self.selected - pg
                } else {
                    0
                };
                self.select_checked(t);
            },
            _ => {},
        }
        None
    }

    /// A key while the form is open.
    fn form_key(&mut self, k: &crate::input::KeyEvent)
        requires
            old(self).wf(),
            old(self).mode is Form,
        ensures
            final(self).form_key_effect(*old(self), *old(self).mode->Form_0, *k),
            final(self).wf(),
    {
        let ctrl = k.modifiers.ctrl;
        let shift = k.modifiers.shift;
        match k.code {
            crate::input::KeyCode::Esc => {
                self.mode = Mode::List;
                return;
            },
            crate::input::KeyCode::Enter | crate::input::KeyCode::F(10) => {
                self.commit_form();
                return;
            },
            crate::input::KeyCode::Char(c) if c == 's' && ctrl => {
                self.commit_form();
                return;
            },
            _ => {},
        }
        let mut mode = Mode::List;
        std::mem::swap(&mut mode, &mut self.mode);
        let mut f = match mode {
            Mode::Form(b) => *b,
            _ => {
                return;
            },
        };
        let len = chars_of(f.fields[f.cur].as_str()).len();
        match k.code {
            crate::input::KeyCode::F(9) => {
                f.show_secrets = !f.show_secrets;
            },
            crate::input::KeyCode::Tab => {
                if shift {
                    f.prev_field();
                } else {
                    f.next_field();
                }
            },
            crate::input::KeyCode::BackTab => f.prev_field(),
            crate::input::KeyCode::Down => f.next_field(),
            crate::input::KeyCode::Up => f.prev_field(),
            crate::input::KeyCode::Left => {
                if f.cursor >= 1 {
                    f.cursor = f.cursor - 1;
                }
            },
            crate::input::KeyCode::Right => {
                if f.cursor < len {
                    f.cursor = f.cursor + 1;
                }
            },
            crate::input::KeyCode::Home => {
                f.cursor = 0;
            },
            crate::input::KeyCode::End => {
                f.cursor = len;
            },
            crate::input::KeyCode::Backspace => f.backspace(),
            crate::input::KeyCode::Delete => f.delete(),
            crate::input::KeyCode::Char(c) if !ctrl => f.insert(c),
            _ => {},
        }
        self.mode = Mode::Form(Box::new(f));
    }

    /// A key press; returns the server to connect to.
    pub fn on_key(&mut self, k: &crate::input::KeyEvent) -> (r: Option<usize>)
        requires
            old(self).wf(),
        ensures
            final(self).key_effect(*old(self), *k, r),
            final(self).wf(),
    {
        let onay: Option<usize> = match &self.mode {
            Mode::Form(_) => {
                self.form_key(k);
                return None;
            },
            Mode::Confirm { index, .. } => Some(*index),
            Mode::List => None,
        };
        match onay {
            Some(index) => {
                match k.code {
                    crate::input::KeyCode::Char('e') | crate::input::KeyCode::Char('E')
                    | crate::input::KeyCode::Enter => {
                        self.servers.remove(index);
                        self.mode = Mode::List;
                        self.refilter();
                        let _len = self.servers.len();
                        proof {
                            lemma_matching_upto(self.servers@, self.query@, self.servers@.len() as int);
                        }
                        self.save_pending = true;
                    },
                    _ => {
                        self.mode = Mode::List;
                    },
                }
                None
            },
            None => self.list_key(k),
        }
    }
}

} // verus!

verus! {

/// The list row under (`col`, `row`) as a position in `view`, if any.
pub open spec fn list_hit(m: Manager, col: int, row: int) -> Option<usize> {
    if !m.list_area.has(col, row) {
        None
    } else {
        let idx = m.offset + (row - m.list_area.y);
        if idx < m.view@.len() {
            Some(idx as usize)
        } else {
            None
        }
    }
}

impl Manager {
    /// The effect of a left click on the open form `f`: the buttons save,
    /// cancel or toggle the password display; a click in a value box focuses
    /// that field with the cursor at the clicked column (at most at the end
    /// of its text).
    pub open spec fn form_clicked(self, old: Manager, f: Form, col: int, row: int) -> bool {
        if f.save_area.has(col, row) {
            self.committed(old, f)
        } else if f.cancel_area.has(col, row) {
            self.only_mode(old) && self.mode is List
        } else if f.reveal_area.has(col, row) {
            self.only_mode(old) && (self.mode matches Mode::Form(g) && *g == Form {
                show_secrets: !f.show_secrets,
                ..f
            })
        } else {
            match field_at(f.field_areas@, col, row, 0) {
                Some(i) => self.only_mode(old) && (self.mode matches Mode::Form(g) && *g == Form {
                    cur: i as usize,
                    cursor: least(
                        col - f.field_areas@[i].x + f.scroll,
                        f.values()[i].len() as int,
                    ) as usize,
                    ..f
                }),
                None => self == old,
            }
        }
    }

    /// The effect of a mouse event; `r` is the server to connect to. On the
    /// list a click on a toolbar button runs its action, and a click on an
    /// entry connects to it at once (editing goes through the toolbar).
    pub open spec fn mouse_effect(self, old: Manager, m: crate::input::MouseEvent, r: Option<usize>) -> bool {
        let col = m.column as int;
        let row = m.row as int;
        let left = m.kind == crate::input::MouseKind::Down(crate::input::MouseButton::Left);
        match old.mode {
            Mode::Confirm { .. } => r is None && self == old,
            Mode::Form(f) => r is None && if left {
                self.form_clicked(old, *f, col, row)
            } else {
                self == old
            },
            Mode::List => if left && button_at(old.buttons@, col, row, 0) is Some {
                r is None && self.act_effect(old, button_at(old.buttons@, col, row, 0).unwrap())
            } else {
                match list_hit(old, col, row) {
                    None => r is None && self == old,
                    Some(idx) => match m.kind {
                        crate::input::MouseKind::Down(crate::input::MouseButton::Left) => r == Some(
                            old.view@[idx as int],
                        ) && self == old,
                        crate::input::MouseKind::Moved => r is None && self.selected_to(
                            old,
                            idx as int,
                        ),
                        crate::input::MouseKind::ScrollDown => r is None && self.selected_to(
                            old,
                            old.selected + 1,
                        ),
                        crate::input::MouseKind::ScrollUp => r is None && self.selected_to(
                            old,
                            minus(old.selected as int, 1),
                        ),
                        _ => r is None && self == old,
                    },
                }
            },
        }
    }

    /// The list position under (`col`, `row`).
    pub fn hit(&self, col: u16, row: u16) -> (r: Option<usize>)
        ensures
            r == list_hit(*self, col as int, row as int),
    {
        if !self.list_area.contains(col, row) {
            return None;
        }
        let rel = (row - self.list_area.y) as usize;
        if self.offset <= self.view.len() && rel < self.view.len() - self.offset {
            Some(self.offset + rel)
        } else {
            None
        }
    }

    /// The toolbar button under (`col`, `row`).
    fn button_under(&self, col: u16, row: u16) -> (r: Option<Action>)
        ensures
            r == button_at(self.buttons@, col as int, row as int, 0),
    {
        let mut i: usize = 0;
        while i < self.buttons.len()
            invariant
                i <= self.buttons@.len(),
                button_at(self.buttons@, col as int, row as int, 0) == button_at(
                    self.buttons@,
                    col as int,
                    row as int,
                    i as int,
                ),
            decreases self.buttons@.len() - i,
        {
            let (r, a) = self.buttons[i];
            if r.contains(col, row) {
                return Some(a);
            }
            i = i + 1;
        }
        None
    }

    /// A left click while the form is open.
    fn form_click(&mut self, col: u16, row: u16)
        requires
            old(self).wf(),
            old(self).mode is Form,
        ensures
            final(self).form_clicked(*old(self), *old(self).mode->Form_0, col as int, row as int),
            final(self).wf(),
    {
        let (save, cancel, reveal) = match &self.mode {
            Mode::Form(f) => (f.save_area, f.cancel_area, f.reveal_area),
            _ => {
                return;
            },
        };
        if save.contains(col, row) {
            self.commit_form();
            return;
        }
        if cancel.contains(col, row) {
            self.mode = Mode::List;
            return;
        }
        let mut mode = Mode::List;
        std::mem::swap(&mut mode, &mut self.mode);
        let mut f = match mode {
            Mode::Form(b) => *b,
            _ => {
                return;
            },
        };
        if reveal.contains(col, row) {
            f.show_secrets = !f.show_secrets;
        } else {
            let mut i: usize = 0;
            let mut found: Option<usize> = None;
            while i < FIELD_COUNT && found.is_none()
                invariant
                    f.wf(),
                    i <= FIELD_COUNT,
                    match found {
                        None => field_at(f.field_areas@, col as int, row as int, 0) == field_at(
                            f.field_areas@,
                            col as int,
                            row as int,
                            i as int,
                        ),
                        Some(k) => k < FIELD_COUNT && field_at(f.field_areas@, col as int, row as int, 0)
                            == Some(k as int) && f.field_areas@[k as int].has(col as int, row as int),
                    },
                decreases FIELD_COUNT - i,
            {
                if f.field_areas[i].contains(col, row) {
                    found = Some(i);
                }
                i = i + 1;
            }
            if let Some(k) = found {
                let r = f.field_areas[k];
                let len = chars_of(f.fields[k].as_str()).len();
                let rel = ((col - r.x) as usize).saturating_add(f.scroll);
                f.cur = k;
                f.cursor = if rel <= len {
                    rel
                } else {
                    len
                };
            }
        }
        self.mode = Mode::Form(Box::new(f));
    }

    /// A mouse event; returns the server to connect to.
    pub fn on_mouse(&mut self, m: &crate::input::MouseEvent) -> (r: Option<usize>)
        requires
            old(self).wf(),
        ensures
            final(self).mouse_effect(*old(self), *m, r),
            final(self).wf(),
    {
        let left = m.kind == crate::input::MouseKind::Down(crate::input::MouseButton::Left);
        match &self.mode {
            Mode::Confirm { .. } => {
                return None;
            },
            Mode::Form(_) => {
                if left {
                    self.form_click(m.column, m.row);
                }
                return None;
            },
            Mode::List => {},
        }
        if left {
            match self.button_under(m.column, m.row) {
                Some(a) => {
                    self.act(a);
                    return None;
                },
                None => {},
            }
        }
        let idx = match self.hit(m.column, m.row) {
            Some(i) => i,
            None => {
                return None;
            },
        };
        match m.kind {
            crate::input::MouseKind::Down(crate::input::MouseButton::Left) => {
                return Some(self.view[idx]);
            },
            crate::input::MouseKind::Moved => self.select(idx),
            crate::input::MouseKind::ScrollDown => {
                let _n = self.view.len();
                self.select(self.selected + 1);
            },
            crate::input::MouseKind::ScrollUp => self.select(
                if self.selected >= 1 {
                    self.selected - 1
                } else {
                    0
                },
            ),
            _ => {},
        }
        None
    }

    /// Records where the list was drawn and scrolls to keep the selection
    /// in it.
    pub fn set_list_area(&mut self, area: Rect)
        requires
            old(self).wf(),
        ensures
            final(self).wf(),
            *final(self) == (Manager {
                list_area: area,
                offset: list_offset(
                    old(self).selected as int,
                    old(self).offset as int,
                    area.height as int,
                    old(self).view@.len() as int,
                ) as usize,
                ..*old(self)
            }),
    {
        self.list_area = area;
        self.clamp_scroll();
    }
}

} // verus!

verus! {

/// Label of the form's save button.
pub const SAVE_LABEL: &'static str = " Kaydet (Enter) ";

/// Label of the form's cancel button.
pub const CANCEL_LABEL: &'static str = " Vazgeç (Esc) ";

/// Label of the password toggle while passwords are shown.
pub const HIDE_LABEL: &'static str = " Parolayı gizle (F9) ";

/// Label of the password toggle while passwords are masked.
pub const SHOW_LABEL: &'static str = " Parolayı göster (F9) ";

/// The label of the password toggle.
pub open spec fn reveal_label(shown: bool) -> Seq<char> {
    if shown {
        HIDE_LABEL@
    } else {
        SHOW_LABEL@
    }
}

/// The password toggle's label for the form's state.
pub fn reveal_text(shown: bool) -> (r: &'static str)
    ensures
        r@ == reveal_label(shown),
{
    if shown {
        HIDE_LABEL
    } else {
        SHOW_LABEL
    }
}

proof fn lemma_form_label_widths()
    ensures
        SAVE_LABEL@.len() == 16,
        CANCEL_LABEL@.len() == 14,
        HIDE_LABEL@.len() == 21,
        SHOW_LABEL@.len() == 22,
{
    reveal_strlit(" Kaydet (Enter) ");
    reveal_strlit(" Vazgeç (Esc) ");
    reveal_strlit(" Parolayı gizle (F9) ");
    reveal_strlit(" Parolayı göster (F9) ");
}

/// Width of the label column: 18, but at most half the inner width so a
/// value box always keeps room.
pub open spec fn label_width(inner: Rect) -> int {
    least(18, inner.width as int / 2)
}

/// The value box of field `i`: right of the labels on row `i`, or empty
/// when that row is not inside `inner` or no column is left for it.
pub open spec fn value_box(inner: Rect, i: int) -> Rect {
    let lw = label_width(inner);
    let vw = inner.width - lw;
    if i >= inner.height || vw == 0 {
        Rect::zero_spec()
    } else {
        Rect { x: (inner.x + lw) as u16, y: (inner.y + i) as u16, width: vw as u16, height: 1 }
    }
}

/// The row of the form's buttons: below the fields, a blank row, the error
/// row and another blank row.
pub open spec fn button_row(inner: Rect) -> int {
    inner.y + FIELD_COUNT + 3
}

/// A button of width `w` at column `x` on the button row, or empty when it
/// does not fit inside `inner`.
pub open spec fn button_box(inner: Rect, x: int, w: int) -> Rect {
    if button_row(inner) >= inner.y + inner.height || x + w > inner.x + inner.width {
        Rect::zero_spec()
    } else {
        Rect { x: x as u16, y: button_row(inner) as u16, width: w as u16, height: 1 }
    }
}

/// The column after a button (two columns of space) or `x` itself when the
/// button was not drawn.
pub open spec fn after_button(inner: Rect, x: int, w: int) -> int {
    if button_box(inner, x, w) == Rect::zero_spec() {
        x
    } else {
        x + w + 2
    }
}

/// A button of width `w` at column `x` (if it fits).
fn place_button(inner: Rect, x: u32, w: u32) -> (r: (Rect, u32))
    requires
        fits(inner),
        w > 0,
        x <= u16::MAX + 3,
        w <= 100,
    ensures
        r.0 == button_box(inner, x as int, w as int),
        r.1 == after_button(inner, x as int, w as int),
{
    let y: u32 = inner.y as u32 + 10;
    if y >= inner.y as u32 + inner.height as u32 || x + w > inner.x as u32 + inner.width as u32 {
        (Rect::zero(), x)
    } else {
        (Rect { x: x as u16, y: y as u16, width: w as u16, height: 1 }, x + w + 2)
    }
}

impl Form {
    /// Lays the form out in `inner` (inside its frame): the value boxes,
    /// the buttons, the horizontal scroll that keeps the cursor visible in
    /// the focused box, and the screen position of the cursor. When the
    /// focused row does not fit, scroll and cursor position stay as they were.
    pub fn layout(&mut self, inner: Rect)
        requires
            old(self).wf(),
            fits(inner),
        ensures
            final(self).wf(),
            forall|i: int| 0 <= i < FIELD_COUNT ==> final(self).field_areas@[i] == value_box(inner, i),
            final(self).save_area == button_box(inner, inner.x + 1, SAVE_LABEL@.len() as int),
            final(self).cancel_area == button_box(
                inner,
                after_button(inner, inner.x + 1, SAVE_LABEL@.len() as int),
                CANCEL_LABEL@.len() as int,
            ),
            final(self).reveal_area == button_box(
                inner,
                after_button(
                    inner,
                    after_button(inner, inner.x + 1, SAVE_LABEL@.len() as int),
                    CANCEL_LABEL@.len() as int,
                ),
                reveal_label(old(self).show_secrets).len() as int,
            ),
            ({
                let b = value_box(inner, old(self).cur as int);
                if b == Rect::zero_spec() {
                    final(self).scroll == old(self).scroll && final(self).cursor_at
                        == old(self).cursor_at
                } else {
                    &&& final(self).scroll == minus(old(self).cursor as int, b.width - 1)
                    &&& final(self).cursor_at == Some(
                        (
                            least(
                                b.x + old(self).cursor - final(self).scroll,
                                b.x + b.width - 1,
                            ) as u16,
                            b.y,
                        ),
                    )
                }
            }),
            *final(self) == (Form {
                field_areas: final(self).field_areas,
                save_area: final(self).save_area,
                cancel_area: final(self).cancel_area,
                reveal_area: final(self).reveal_area,
                scroll: final(self).scroll,
                cursor_at: final(self).cursor_at,
                ..*old(self)
            }),
    {
        proof {
            lemma_form_label_widths();
        }
        let lw: u16 = if inner.width / 2 < 18 {
            inner.width / 2
        } else {
            18
        };
        let vw: u16 = inner.width - lw;
        let mut i: usize = 0;
        let ghost before = *self;
        while i < FIELD_COUNT
            invariant
                before.wf(),
                fits(inner),
                lw == label_width(inner),
                vw == inner.width - lw,
                i <= FIELD_COUNT,
                self.wf(),
                self.field_areas@.len() == FIELD_COUNT,
                forall|k: int| 0 <= k < i ==> self.field_areas@[k] == value_box(inner, k),
                ({
                    let b = value_box(inner, before.cur as int);
                    if b == Rect::zero_spec() || before.cur >= i {
                        self.scroll == before.scroll && self.cursor_at == before.cursor_at
                    } else {
                        &&& self.scroll == minus(before.cursor as int, b.width - 1)
                        &&& self.cursor_at == Some(
                            (least(b.x + before.cursor - self.scroll, b.x + b.width - 1) as u16, b.y),
                        )
                    }
                }),
                *self == (Form {
                    field_areas: self.field_areas,
                    scroll: self.scroll,
                    cursor_at: self.cursor_at,
                    ..before
                }),
            decreases FIELD_COUNT - i,
        {
            if i as u32 >= inner.height as u32 || vw == 0 {
                self.field_areas[i] = Rect::zero();
            } else {
                let y: u16 = inner.y + i as u16;
                let bx: u16 = inner.x + lw;
                self.field_areas[i] = Rect { x: bx, y, width: vw, height: 1 };
                if i == self.cur {
                    let genislik: usize = (vw - 1) as usize;
                    let k: usize = if self.cursor >= genislik {
                        self.cursor - genislik
                    } else {
                        0
                    };
                    self.scroll = k;
                    let cx: u32 = bx as u32 + (self.cursor - k) as u32;
                    let right: u32 = bx as u32 + vw as u32 - 1;
                    let px: u16 = if cx <= right {
                        cx as u16
                    } else {
                        right as u16
                    };
                    self.cursor_at = Some((px, y));
                }
            }
            i = i + 1;
        }
        let x0: u32 = inner.x as u32 + 1;
        let (save, x1) = place_button(inner, x0, 16);
        let (cancel, x2) = place_button(inner, x1, 14);
        let rw: u32 = if self.show_secrets {
            21
        } else {
            22
        };
        let (reveal, _x3) = place_button(inner, x2, rw);
        self.save_area = save;
        self.cancel_area = cancel;
        self.reveal_area = reveal;
    }
}

} // verus!

verus! {

/// Number of toolbar buttons.
pub const TOOLBAR_LEN: usize = 6;

/// Text of toolbar button `i`: its label and shortcut.
pub open spec fn toolbar_label(i: int) -> Seq<char> {
    if i == 0 {
        " + Yeni (F5) "@
    } else if i == 1 {
        " Düzenle (F4) "@
    } else if i == 2 {
        " Kopyala (F6) "@
    } else if i == 3 {
        " Sil (F8) "@
    } else if i == 4 {
        " ↑ (Alt+↑) "@
    } else {
        " ↓ (Alt+↓) "@
    }
}

/// The action of toolbar button `i`.
pub open spec fn toolbar_action(i: int) -> Action {
    if i == 0 {
        Action::New
    } else if i == 1 {
        Action::Edit
    } else if i == 2 {
        Action::Copy
    } else if i == 3 {
        Action::Delete
    } else if i == 4 {
        Action::MoveUp
    } else {
        Action::MoveDown
    }
}

/// The text drawn on the button for action `a`.
pub fn button_text(a: Action) -> (r: &'static str)
    ensures
        r@ == toolbar_label(
            match a {
                Action::New => 0,
                Action::Edit => 1,
                Action::Copy => 2,
                Action::Delete => 3,
                Action::MoveUp => 4,
                Action::MoveDown => 5,
            },
        ),
{
    match a {
        Action::New => " + Yeni (F5) ",
        Action::Edit => " Düzenle (F4) ",
        Action::Copy => " Kopyala (F6) ",
        Action::Delete => " Sil (F8) ",
        Action::MoveUp => " ↑ (Alt+↑) ",
        Action::MoveDown => " ↓ (Alt+↓) ",
    }
}

proof fn lemma_toolbar_widths()
    ensures
        toolbar_label(0).len() == 13,
        toolbar_label(1).len() == 14,
        toolbar_label(2).len() == 14,
        toolbar_label(3).len() == 10,
        toolbar_label(4).len() == 11,
        toolbar_label(5).len() == 11,
{
    reveal_strlit(" + Yeni (F5) ");
    reveal_strlit(" Düzenle (F4) ");
    reveal_strlit(" Kopyala (F6) ");
    reveal_strlit(" Sil (F8) ");
    reveal_strlit(" ↑ (Alt+↑) ");
    reveal_strlit(" ↓ (Alt+↓) ");
}

/// The buttons from `i` on, laid out from column `x` one column apart,
/// until one no longer fits in `area`.
pub open spec fn toolbar_from(area: Rect, x: int, i: int) -> Seq<(Rect, Action)>
    decreases TOOLBAR_LEN - i,
{
    if i < 0 || i >= TOOLBAR_LEN {
        Seq::empty()
    } else {
        let w = toolbar_label(i).len() as int;
        if x + w > area.x + area.width {
            Seq::empty()
        } else {
            seq![
                (Rect { x: x as u16, y: area.y, width: w as u16, height: 1 }, toolbar_action(i)),
            ] + toolbar_from(area, x + w + 1, i + 1)
        }
    }
}

/// The toolbar laid out in `area` (nothing in an area without room).
pub open spec fn toolbar(area: Rect) -> Seq<(Rect, Action)> {
    if area.height == 0 || area.width == 0 {
        Seq::empty()
    } else {
        toolbar_from(area, area.x as int, 0)
    }
}

/// Action of toolbar button `i`.
fn action_of(i: usize) -> (a: Action)
    ensures
        a == toolbar_action(i as int),
{
    if i == 0 {
        Action::New
    } else if i == 1 {
        Action::Edit
    } else if i == 2 {
        Action::Copy
    } else if i == 3 {
        Action::Delete
    } else if i == 4 {
        Action::MoveUp
    } else {
        Action::MoveDown
    }
}

/// Width of toolbar button `i`.
fn width_of(i: usize) -> (w: u32)
    requires
        i < TOOLBAR_LEN,
    ensures
        w == toolbar_label(i as int).len(),
        0 < w <= 14,
{
    proof {
        lemma_toolbar_widths();
    }
    if i == 0 {
        13
    } else if i == 1 || i == 2 {
        14
    } else if i == 3 {
        10
    } else {
        11
    }
}

impl Manager {
    /// Lays the toolbar out in `area` and remembers where each button went.
    pub fn set_toolbar(&mut self, area: Rect)
        requires
            fits(area),
        ensures
            final(self).buttons@ == toolbar(area),
            *final(self) == (Manager { buttons: final(self).buttons, ..*old(self) }),
    {
        let mut b: Vec<(Rect, Action)> = Vec::new();
        if area.height == 0 || area.width == 0 {
            self.buttons = b;
            return;
        }
        let right: u32 = area.x as u32 + area.width as u32;
        let mut x: u32 = area.x as u32;
        let mut i: usize = 0;
        let mut stopped = false;
        while i < TOOLBAR_LEN && !stopped
            invariant
                i <= TOOLBAR_LEN,
                fits(area),
                right == area.x + area.width,
                x <= right + 1,
                stopped ==> toolbar_from(area, x as int, i as int) == Seq::<(Rect, Action)>::empty(),
                toolbar(area) == b@ + toolbar_from(area, x as int, i as int),
            decreases TOOLBAR_LEN - i + (if stopped {
                0int
            } else {
                1int
            }),
        {
            let w = width_of(i);
            if x + w > right {
                stopped = true;
            } else {
                b.push((Rect { x: x as u16, y: area.y, width: w as u16, height: 1 }, action_of(i)));
                x = x + w + 1;
                i = i + 1;
            }
        }
        proof {
            if !stopped {
                assert(toolbar_from(area, x as int, i as int) == Seq::<(Rect, Action)>::empty());
            }
            assert(b@ + Seq::<(Rect, Action)>::empty() =~= b@);
        }
        self.buttons = b;
    }
}

} // verus!

verus! {

/// `t` with every character replaced by a bullet.
pub open spec fn masked(t: Seq<char>) -> Seq<char> {
    Seq::new(t.len(), |k: int| '•')
}

/// What a value box of width `w` shows of field `i`: passwords masked
/// unless revealed, the focused field scrolled by `scroll`, cut to the box.
pub open spec fn shown_value(f: Form, i: int, w: int) -> Seq<char> {
    let t = f.values()[i];
    let m = if secret_field(i) && !f.show_secrets {
        masked(t)
    } else {
        t
    };
    let k = if i == f.cur {
        least(f.scroll as int, m.len() as int)
    } else {
        0
    };
    let n = if w <= 0 {
        1
    } else {
        w
    };
    m.skip(k).take(least(n, m.len() - k))
}

/// The number of matching servers and the query, or the status message.
pub open spec fn status_text(m: Manager) -> Seq<char> {
    if m.query@.len() == 0 {
        " "@ + m.status@ + " "@
    } else {
        " ara: "@ + m.query@ + "   ("@ + decimal(m.view@.len()) + " eşleşme) "@
    }
}

/// The longest name among the first `n` servers, in characters.
pub open spec fn longest_name(servers: Seq<ServerConfig>, n: int) -> int
    decreases n,
{
    if n <= 0 {
        0
    } else {
        let rest = longest_name(servers, n - 1);
        let l = servers[n - 1].name@.len() as int;
        if l > rest {
            l
        } else {
            rest
        }
    }
}

/// Width of the name column: the longest name, but at most half the list
/// width (and never forced below 8), so one long name cannot squeeze the
/// address column.
pub open spec fn name_column(m: Manager) -> int {
    let half = m.list_area.width as int / 2;
    least(longest_name(m.servers@, m.servers@.len() as int), if half < 8 {
        8
    } else {
        half
    })
}

impl Form {
    /// The text shown in the value box of field `i`, `w` columns wide.
    pub fn shown_text(&self, i: usize, w: u16) -> (r: String)
        requires
            self.wf(),
            i < FIELD_COUNT,
        ensures
            r@ == shown_value(*self, i as int, w as int),
    {
        let t = chars_of(self.fields[i].as_str());
        let mut m: Vec<char> = Vec::new();
        if (i == F_PASS || i == F_KEYPASS) && !self.show_secrets {
            let mut j: usize = 0;
            while j < t.len()
                invariant
                    j <= t@.len(),
                    m@ == Seq::new(j as nat, |k: int| '•'),
                decreases t@.len() - j,
            {
                m.push('•');
                j = j + 1;
                assert(m@ =~= Seq::new(j as nat, |k: int| '•'));
            }
            assert(m@ =~= masked(t@));
        } else {
            m = t;
        }
        let k: usize = if i == self.cur {
            if self.scroll <= m.len() {
                self.scroll
            } else {
                m.len()
            }
        } else {
            0
        };
        let n: usize = if w == 0 {
            1
        } else {
            w as usize
        };
        let end: usize = if n <= m.len() - k {
            k + n
        } else {
            m.len()
        };
        let r = string_of_range(&m, k, end);
        assert(r@ =~= m@.skip(k as int).take(end - k));
        r
    }
}

impl Manager {
    /// The status line: the message, or while searching the query and the
    /// number of matches.
    pub fn status_line(&self) -> (r: String)
        ensures
            r@ == status_text(*self),
    {
        if chars_of(self.query.as_str()).len() == 0 {
            crate::text::concat3(" ", self.status.as_str(), " ")
        } else {
            let mut r = concat2(" ara: ", self.query.as_str());
            r.append("   (");
            crate::text::push_decimal(&mut r, self.view.len() as u64);
            r.append(" eşleşme) ");
            r
        }
    }

    /// Width of the name column (see `name_column`).
    pub fn name_width(&self) -> (r: usize)
        ensures
            r == name_column(*self),
    {
        let mut longest: usize = 0;
        let mut i: usize = 0;
        while i < self.servers.len()
            invariant
                i <= self.servers@.len(),
                longest == longest_name(self.servers@, i as int),
            decreases self.servers@.len() - i,
        {
            let l = chars_of(self.servers[i].name.as_str()).len();
            if l > longest {
                longest = l;
            }
            i = i + 1;
        }
        let half: usize = (self.list_area.width / 2) as usize;
        let cap: usize = if half < 8 {
            8
        } else {
            half
        };
        if longest <= cap {
            longest
        } else {
            cap
        }
    }

    /// The list positions shown in a window of the list height from the
    /// scroll offset.
    pub fn shown_rows(&self) -> (r: Vec<usize>)
        requires
            self.offset <= self.view@.len(),
        ensures
            r@ == self.view@.subrange(
                self.offset as int,
                least(self.offset + self.list_area.height, self.view@.len() as int),
            ),
    {
        let h = self.list_area.height as usize;
        let n = self.view.len();
        let end: usize = if h <= n - self.offset {
            self.offset + h
        } else {
            n
        };
        let mut r: Vec<usize> = Vec::new();
        let mut i: usize = self.offset;
        while i < end
            invariant
                self.offset <= i <= end,
                end <= self.view@.len(),
                r@ == self.view@.subrange(self.offset as int, i as int),
            decreases end - i,
        {
            r.push(self.view[i]);
            i = i + 1;
            assert(r@ =~= self.view@.subrange(self.offset as int, i as int));
        }
        r
    }
}

} // verus!

verus! {

/// The view lists exactly the servers that match the search, each once, in
/// file order.
pub proof fn law_search_lists_matching_servers(servers: Seq<ServerConfig>, query: Seq<char>)
    requires
        servers.len() <= usize::MAX,
    ensures
        forall|i: int, j: int|
            0 <= i < j < matching(servers, query).len() ==> matching(servers, query)[i]
                < matching(servers, query)[j],
        forall|k: usize|
            matching(servers, query).contains(k) <==> (k < servers.len() && listed(
                servers[k as int]@,
                query,
            )),
{
    lemma_matching_upto(servers, query, servers.len() as int);
}

/// Rebuilding the list keeps the selection on the same server whenever that
/// server is still listed.
pub proof fn law_search_keeps_selected_server(
    servers: Seq<ServerConfig>,
    query: Seq<char>,
    i: usize,
)
    requires
        servers.len() <= usize::MAX,
        matching(servers, query).contains(i),
    ensures
        entry_at(matching(servers, query), sel_after(matching(servers, query), Some(i))) == Some(
            i,
        ),
{
    lemma_matching_upto(servers, query, servers.len() as int);
    let v = matching(servers, query);
    let p = choose|p: int| 0 <= p < v.len() && v[p] == i;
    lemma_index_of_unique(v, i, p);
}

/// Moving an entry up or down never adds, drops or alters a connection.
pub proof fn law_reorder_keeps_connections(new: Manager, old: Manager, up: bool)
    requires
        old.wf(),
        old.servers@.len() <= usize::MAX,
        new.reordered(old, up),
    ensures
        new.servers@.to_multiset() == old.servers@.to_multiset(),
{
    broadcast use vstd::seq_lib::to_multiset_update;
    broadcast use vstd::seq_lib::to_multiset_contains;
    broadcast use vstd::multiset::group_multiset_axioms;

    lemma_matching_upto(old.servers@, old.query@, old.servers@.len() as int);
    if old.query@.len() == 0 {
        if let Some(i) = old.current_index() {
            let n = old.servers@.len() as int;
            if !((up && i == 0) || (!up && i + 1 >= n)) {
                let j: int = if up {
                    i - 1
                } else {
                    i + 1
                };
                let s = old.servers@;
                let s1 = s.update(i as int, s[j]);
                assert(s1[j] == s[j]);
                assert(s1.to_multiset() == s.to_multiset().insert(s[j]).remove(s[i as int]));
                assert(s1.update(j, s[i as int]).to_multiset() == s1.to_multiset().insert(
                    s[i as int],
                ).remove(s[j]));
                let m = s.to_multiset();
                assert(s.contains(s[i as int]));
                assert(s.contains(s[j]));
                assert(m.count(s[i as int]) > 0);
                assert(m.count(s[j]) > 0);
                assert(m.insert(s[j]).remove(s[i as int]).insert(s[i as int]).remove(s[j]) =~= m);
                assert(s1.update(j, s[i as int]).to_multiset() =~= s.to_multiset());
            }
        }
    }
}

/// While a search is active the order cannot be changed: the visible
/// neighbour need not be the real one.
pub proof fn law_no_reorder_while_searching(new: Manager, old: Manager, up: bool)
    requires
        new.reordered(old, up),
        old.query@.len() > 0,
    ensures
        new.servers == old.servers,
        new.view == old.view,
        new.selected == old.selected,
{
}

/// Typing a character and then pressing Backspace gives the field back as
/// it was, with the cursor where it was.
pub proof fn law_backspace_undoes_typing(f: Form, g: Form, h: Form, c: char)
    requires
        f.wf(),
        !(f.cur == F_PORT && !is_digit(c)),
        g.typed(f, c),
        h.backspaced(g),
    ensures
        h.values() == f.values(),
        h.cursor == f.cursor,
        h.cur == f.cur,
{
    let t = f.values()[f.cur as int];
    let u = t.take(f.cursor as int).push(c) + t.skip(f.cursor as int);
    assert(u.take(f.cursor as int) =~= t.take(f.cursor as int));
    assert(u.skip(f.cursor + 1) =~= t.skip(f.cursor as int));
    assert(u.take(f.cursor as int) + u.skip(f.cursor + 1) =~= t);
    assert(h.values() =~= f.values());
}

/// A valid form always names a host and a user and a port from 1 to
/// 65535 (22 when left empty); passwords are kept exactly as typed while
/// every other text is trimmed.
pub proof fn law_valid_form_entry(f: Seq<Seq<char>>)
    requires
        f.len() == FIELD_COUNT,
        build_spec(f) is Ok,
    ensures
        ({
            let sc = build_spec(f)->Ok_0;
            &&& sc.host == trimmed(f[F_HOST as int]) && sc.host.len() > 0
            &&& sc.user == trimmed(f[F_USER as int]) && sc.user.len() > 0
            &&& sc.port >= 1
            &&& trimmed(f[F_PORT as int]).len() == 0 ==> sc.port == 22
            &&& sc.password == f[F_PASS as int]
            &&& sc.name.len() > 0
            &&& sc.key matches Some(k) ==> k == trimmed(f[F_KEY as int]) && k.len() > 0
            &&& sc.key_passphrase matches Some(p) ==> p == f[F_KEYPASS as int]
        }),
{
}

proof fn lemma_decimal_parses(n: nat)
    ensures
        all_digits(decimal(n)),
        digits_value(decimal(n)) == n,
        decimal(n).len() > 0,
    decreases n,
{
    if n >= 10 {
        lemma_decimal_parses(n / 10);
        let d = decimal(n / 10);
        let e = decimal(n);
        assert(e.drop_last() =~= d);
        let r = (n % 10) as nat;
        assert(e.last() == crate::text::digit_char(r));
        assert((crate::text::digit_char(r) as nat - 48) as nat == r);
        assert(n == (n / 10) * 10 + r);
        assert forall|i: int| 0 <= i < e.len() implies is_digit(#[trigger] e[i]) by {
            if i < d.len() {
                assert(e[i] == d[i]);
            }
        }
        assert(digits_value(e) == digits_value(d) * 10 + r);
        assert(digits_value(d) == n / 10);
        assert(digits_value(e) == n);
    } else {
        let e = decimal(n);
        assert(e.drop_last() =~= Seq::<char>::empty());
        assert(e.last() == crate::text::digit_char(n));
        assert((crate::text::digit_char(n) as nat - 48) as nat == n);
        assert(digits_value(e.drop_last()) == 0);
        assert(digits_value(e) == n);
    }
}

/// An entry that the form could have produced itself.
pub open spec fn form_made(s: ServerSpec) -> bool {
    let edge_clean = |t: Seq<char>| t.len() > 0 && !is_space(t[0]) && !is_space(t.last());
    &&& edge_clean(s.name)
    &&& edge_clean(s.host)
    &&& edge_clean(s.user)
    &&& s.port >= 1
    &&& s.key matches Some(k) ==> edge_clean(k)
    &&& s.key_passphrase matches Some(p) ==> p.len() > 0
}

/// Opening an entry in the form and saving it unchanged gives the same
/// entry back.
pub proof fn law_unchanged_form_keeps_entry(s: ServerSpec)
    requires
        form_made(s),
    ensures
        build_spec(initial_texts(s)) == Ok::<ServerSpec, Seq<char>>(s),
{
    let f = initial_texts(s);
    lemma_trimmed_noop(s.name);
    lemma_trimmed_noop(s.host);
    lemma_trimmed_noop(s.user);
    lemma_decimal_parses(s.port as nat);
    let p = decimal(s.port as nat);
    assert(is_digit(p[0]));
    assert(is_digit(p.last()));
    lemma_trimmed_noop(p);
    match s.key {
        Some(k) => lemma_trimmed_noop(k),
        None => {
            assert(trimmed(Seq::<char>::empty()) =~= Seq::<char>::empty());
        },
    }
    assert(f[F_KEY as int] == match s.key {
        Some(k) => k,
        None => Seq::<char>::empty(),
    });
}

} // verus!

verus! {

/// The byte offset of character `ci` in `s` (the length of `s` in bytes
/// when `ci` is past its end), for editing UTF-8 text by characters.
pub fn bayt(s: &str, ci: usize) -> (r: usize)
    ensures
        r == vstd::utf8::encode_utf8(s@.take(least(ci as int, s@.len() as int))).len(),
{
    let cs = chars_of(s);
    let k: usize = if ci <= cs.len() {
        ci
    } else {
        cs.len()
    };
    let head = string_of_range(&cs, 0, k);
    assert(head@ =~= s@.take(k as int));
    head.as_str().as_bytes().len()
}

} // verus!
