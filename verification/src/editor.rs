//! F4 — editing a file in the `fresh` editor: the install plan, safe names
//! for the temporary copy of a remote file, and the content digest that
//! tells whether the editor changed the file.

use vstd::prelude::*;

use crate::geometry::Rect;
use crate::text::{chars_of, concat2, concat3, decimal, has_prefix, owned, push_decimal, same_text, starts_with, string_of_range};

verus! {

broadcast use vstd::string::group_string_axioms;

/// crates.io package name (for installing).
pub const CRATE: &'static str = "fresh-editor";

/// Name of the executable (differs from the package name).
pub const BIN: &'static str = "fresh";

/// Largest remote file opened for editing: it is downloaded and uploaded
/// back, so a huge log file should not be pulled by mistake.
pub const MAX_EDIT_BYTES: u64 = 64 * 1024 * 1024;

/// Prefix of the temporary directories this program creates.
pub const TEMP_PREFIX: &'static str = "tfs-edit-";

/// State after an installation attempt.
pub enum Installed {
    /// `fresh` can now be found, at this path.
    Found(String),
    /// Installation was tried but `fresh` is still missing.
    Failed(String),
}

/// The commands shown (and run) to install the editor: with
/// `cargo-binstall` one command; with only `cargo`, install binstall first
/// and fall back to building from source; without cargo nothing.
pub open spec fn install_plan_spec(has_binstall: bool, has_cargo: bool) -> Seq<Seq<char>> {
    if has_binstall {
        seq!["cargo binstall --no-confirm "@ + CRATE@]
    } else if has_cargo {
        seq![
            "cargo install cargo-binstall"@,
            "cargo binstall --no-confirm "@ + CRATE@,
            "(gerekirse) cargo install --locked "@ + CRATE@,
        ]
    } else {
        Seq::empty()
    }
}

/// The install plan shown in the confirmation box.
pub fn install_plan(has_binstall: bool, has_cargo: bool) -> (v: Vec<String>)
    ensures
        v@.map_values(|s: String| s@) == install_plan_spec(has_binstall, has_cargo),
{
    let mut v: Vec<String> = Vec::new();
    if has_binstall {
        v.push(concat2("cargo binstall --no-confirm ", CRATE));
    } else if has_cargo {
        v.push(owned("cargo install cargo-binstall"));
        v.push(concat2("cargo binstall --no-confirm ", CRATE));
        v.push(concat2("(gerekirse) cargo install --locked ", CRATE));
    }
    assert(v@.map_values(|s: String| s@) =~= install_plan_spec(has_binstall, has_cargo));
    v
}

/// The install order, spelled out: with `cargo-binstall` the prebuilt
/// binary is fetched; with only `cargo`, `cargo-binstall` is installed
/// first and building from source is the last resort; without `cargo`
/// nothing can be run.
pub proof fn law_install_order(has_binstall: bool, has_cargo: bool)
    ensures
        has_binstall ==> install_plan_spec(has_binstall, has_cargo) == seq![
            "cargo binstall --no-confirm fresh-editor"@,
        ],
        !has_binstall && has_cargo ==> install_plan_spec(has_binstall, has_cargo) == seq![
            "cargo install cargo-binstall"@,
            "cargo binstall --no-confirm fresh-editor"@,
            "(gerekirse) cargo install --locked fresh-editor"@,
        ],
        !has_binstall && !has_cargo ==> install_plan_spec(has_binstall, has_cargo).len() == 0,
{
    reveal_strlit("fresh-editor");
    reveal_strlit("cargo binstall --no-confirm ");
    reveal_strlit("cargo binstall --no-confirm fresh-editor");
    reveal_strlit("(gerekirse) cargo install --locked ");
    reveal_strlit("(gerekirse) cargo install --locked fresh-editor");
    assert("cargo binstall --no-confirm "@ + CRATE@ =~= "cargo binstall --no-confirm fresh-editor"@);
    assert("(gerekirse) cargo install --locked "@ + CRATE@
        =~= "(gerekirse) cargo install --locked fresh-editor"@);
}

/// The part of `s` after its last `/` or `\` (all of `s` when there is none).
pub open spec fn last_segment(s: Seq<char>) -> Seq<char>
    decreases s.len(),
{
    if s.len() == 0 {
        s
    } else if s.last() == '/' || s.last() == '\\' {
        Seq::empty()
    } else {
        last_segment(s.drop_last()).push(s.last())
    }
}

/// A name from the remote side reduced to a plain file name: a "name" with
/// path separators or `..` must not write outside the temporary directory.
pub open spec fn safe_file_name_spec(name: Seq<char>) -> Seq<char> {
    let base = last_segment(name);
    if base.len() == 0 || base == "."@ || base == ".."@ {
        "dosya"@
    } else {
        base
    }
}

/// Reduces a remote name to a safe file name.
pub fn safe_file_name(name: &str) -> (r: String)
    ensures
        r@ == safe_file_name_spec(name@),
{
    let cs = chars_of(name);
    let mut i: usize = cs.len();
    assert(cs@.take(i as int) =~= name@);
    assert(last_segment(name@) + cs@.subrange(i as int, cs@.len() as int) =~= last_segment(name@));
    while i > 0 && cs[i - 1] != '/' && cs[i - 1] != '\\'
        invariant
            i <= cs@.len(),
            cs@ == name@,
            last_segment(name@) == last_segment(cs@.take(i as int)) + cs@.subrange(
                i as int,
                cs@.len() as int,
            ),
        decreases i,
    {
        proof {
            let t = cs@.take(i as int);
            assert(t.drop_last() =~= cs@.take(i - 1));
            assert(last_segment(t) == last_segment(t.drop_last()).push(t.last()));
            assert(last_segment(cs@.take(i - 1)) + cs@.subrange(i - 1, cs@.len() as int)
                =~= last_segment(t) + cs@.subrange(i as int, cs@.len() as int));
        }
        i = i - 1;
    }
    proof {
        if i > 0 {
            assert(last_segment(cs@.take(i as int)) =~= Seq::<char>::empty());
        } else {
            assert(cs@.take(0) =~= Seq::<char>::empty());
        }
        assert(last_segment(name@) =~= cs@.subrange(i as int, cs@.len() as int));
    }
    let base = string_of_range(&cs, i, cs.len());
    if base.as_str().unicode_len() == 0 || same_text(base.as_str(), ".") || same_text(
        base.as_str(),
        "..",
    ) {
        owned("dosya")
    } else {
        base
    }
}

/// Only directories this program opened are ever deleted.
pub fn is_own_temp_dir(dir_name: &str) -> (b: bool)
    ensures
        b == has_prefix(dir_name@, TEMP_PREFIX@),
{
    starts_with(dir_name, TEMP_PREFIX)
}

/// FNV-1a 64-bit offset basis.
pub const FNV_OFFSET: u64 = 0xcbf2_9ce4_8422_2325;

/// FNV-1a 64-bit prime.
pub const FNV_PRIME: u64 = 0x0000_0100_0000_01b3;

/// One FNV-1a step: xor the byte in, multiply by the prime modulo 2^64.
pub open spec fn fnv_step(h: u64, b: u8) -> u64 {
    (((h ^ (b as u64)) as nat * FNV_PRIME as nat) % 0x1_0000_0000_0000_0000nat) as u64
}

/// FNV-1a digest of `bytes`, starting from `h`.
pub open spec fn fnv1a(h: u64, bytes: Seq<u8>) -> u64
    decreases bytes.len(),
{
    if bytes.len() == 0 {
        h
    } else {
        fnv1a(fnv_step(h, bytes[0]), bytes.drop_first())
    }
}

/// The digest of a whole file: FNV-1a from the offset basis.
pub open spec fn content_digest(bytes: Seq<u8>) -> u64 {
    fnv1a(FNV_OFFSET, bytes)
}

proof fn lemma_fnv1a_push(h: u64, bytes: Seq<u8>, b: u8)
    ensures
        fnv1a(h, bytes.push(b)) == fnv_step(fnv1a(h, bytes), b),
    decreases bytes.len(),
{
    if bytes.len() > 0 {
        assert(bytes.push(b).drop_first() =~= bytes.drop_first().push(b));
        assert(bytes.push(b)[0] == bytes[0]);
        lemma_fnv1a_push(fnv_step(h, bytes[0]), bytes.drop_first(), b);
    } else {
        assert(bytes.push(b).drop_first() =~= Seq::<u8>::empty());
        assert(bytes.push(b)[0] == b);
        assert(fnv1a(fnv_step(h, b), Seq::<u8>::empty()) == fnv_step(h, b));
    }
}

/// Feeds a chunk of file content into a running FNV-1a digest.
pub fn fnv1a_update(h: u64, chunk: &[u8]) -> (r: u64)
    ensures
        r == fnv1a(h, chunk@),
{
    let mut acc = h;
    let mut i: usize = 0;
    while i < chunk.len()
        invariant
            i <= chunk@.len(),
            acc == fnv1a(h, chunk@.take(i as int)),
        decreases chunk@.len() - i,
    {
        proof {
            lemma_fnv1a_push(h, chunk@.take(i as int), chunk@[i as int]);
            assert(chunk@.take(i + 1) =~= chunk@.take(i as int).push(chunk@[i as int]));
        }
        acc = (acc ^ chunk[i] as u64).wrapping_mul(FNV_PRIME);
        i = i + 1;
    }
    assert(chunk@.take(chunk@.len() as int) =~= chunk@);
    acc
}

/// Reading a file chunk by chunk gives the same digest as reading it at
/// once: the digest of `a` then `b` continues from the digest of `a`.
pub proof fn law_digest_by_chunks(h: u64, a: Seq<u8>, b: Seq<u8>)
    ensures
        fnv1a(fnv1a(h, a), b) == fnv1a(h, a + b),
    decreases a.len(),
{
    if a.len() > 0 {
        assert((a + b).drop_first() =~= a.drop_first() + b);
        law_digest_by_chunks(fnv_step(h, a[0]), a.drop_first(), b);
    } else {
        assert(a + b =~= b);
    }
}

/// The status text when a remote file is too large to edit (the limit is
/// for our download and upload, not the editor's): sizes in whole MiB.
pub open spec fn too_big_note(name: Seq<char>, size: u64) -> Seq<char> {
    name + " çok büyük ("@ + decimal((size / 1048576u64) as nat) + " MiB) — düzenleme için sınır "@
        + decimal((MAX_EDIT_BYTES / 1048576u64) as nat) + " MiB."@
}

/// Refuses editing a remote file above `MAX_EDIT_BYTES`; `None` means it
/// may be edited.
pub fn edit_size_check(name: &str, size: u64) -> (r: Option<String>)
    ensures
        size > MAX_EDIT_BYTES ==> (r matches Some(s) && s@ == too_big_note(name@, size)),
        size <= MAX_EDIT_BYTES ==> r is None,
{
    if size <= MAX_EDIT_BYTES {
        return None;
    }
    let mut s = concat2(name, " çok büyük (");
    push_decimal(&mut s, size / (1024 * 1024));
    s.append(" MiB) — düzenleme için sınır ");
    push_decimal(&mut s, MAX_EDIT_BYTES / (1024 * 1024));
    s.append(" MiB.");
    Some(s)
}

/// What follows the editor, given the digests before and after it ran
/// (`None`: the file could not be read).
#[derive(Clone, Copy, PartialEq, Eq, Debug, Structural)]
pub enum AfterEdit {
    /// The file is gone or unreadable: do not upload.
    Unreadable,
    /// Same content: no upload needed.
    Unchanged,
    /// The content changed: upload it back.
    Upload,
}

/// Decides whether an edited copy goes back to the server: only when it can
/// still be read and its content differs (timestamps are not trusted: an
/// editor may save without changes, or not save at all).
pub fn after_edit(before: Option<u64>, after: Option<u64>) -> (r: AfterEdit)
    ensures
        after is None ==> r == AfterEdit::Unreadable,
        after is Some && before == after ==> r == AfterEdit::Unchanged,
        after is Some && before != after ==> r == AfterEdit::Upload,
{
    match after {
        None => AfterEdit::Unreadable,
        Some(a) => match before {
            Some(b) => if a == b {
                AfterEdit::Unchanged
            } else {
                AfterEdit::Upload
            },
            None => AfterEdit::Upload,
        },
    }
}

/// A box of the given width percentage and height, centred in `area`; the
/// width is kept between 20 columns and the area's width.
pub open spec fn centered_spec(area: Rect, percent_x: u16, height: u16) -> Rect {
    let raw = area.width as int * percent_x as int / 100;
    let width = if raw < 20 {
        20
    } else if raw > area.width {
        area.width as int
    } else {
        raw
    };
    Rect {
        x: (area.x + (area.width - width) / 2) as u16,
        y: (area.y + sat_sub_u16(area.height as int, height as int) / 2) as u16,
        width: width as u16,
        height: if height <= area.height {
            height
        } else {
            area.height
        },
    }
}

/// `a - b`, not below zero.
pub open spec fn sat_sub_u16(a: int, b: int) -> int {
    if a >= b {
        a - b
    } else {
        0
    }
}

/// Centres the install box. The area must be at least 20 columns wide.
pub fn centered(area: Rect, percent_x: u16, height: u16) -> (r: Rect)
    requires
        area.width >= 20,
        percent_x <= 100,
        area.x + area.width <= u16::MAX,
        area.y + area.height <= u16::MAX,
    ensures
        r == centered_spec(area, percent_x, height),
{
    assert(area.width as u32 * percent_x as u32 <= 6553500) by (nonlinear_arith)
        requires
            percent_x <= 100,
    ;
    assert(area.width as u32 * percent_x as u32 / 100 <= area.width) by (nonlinear_arith)
        requires
            percent_x <= 100,
    ;
    let raw = (area.width as u32 * percent_x as u32 / 100) as u16;
    let width = if raw < 20 {
        20
    } else if raw > area.width {
        area.width
    } else {
        raw
    };
    let x = area.x + (area.width - width) / 2;
    let dy = if area.height >= height {
        area.height - height
    } else {
        0
    };
    let y = area.y + dy / 2;
    Rect {
        x,
        y,
        width,
        height: if height <= area.height {
            height
        } else {
            area.height
        },
    }
}

} // verus!
