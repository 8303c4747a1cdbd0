//! Geometry of the file screen's overlays: the centred progress box and
//! the label that follows the mouse while dragging.

use vstd::prelude::*;

use crate::geometry::Rect;
use crate::picker::{fits, least, minus};
use crate::text::{chars_of, concat3};

verus! {

/// A box `percent_x` percent as wide as `area` and `height` rows high (at
/// most the area's height), centred in it.
pub open spec fn centered_rect_spec(area: Rect, percent_x: u16, height: u16) -> Rect {
    let width = area.width * percent_x / 100;
    Rect {
        x: (area.x + minus(area.width as int, width) / 2) as u16,
        y: (area.y + minus(area.height as int, height as int) / 2) as u16,
        width: width as u16,
        height: least(height as int, area.height as int) as u16,
    }
}

/// Centres a box in `area` (see `centered_rect_spec`). The width is
/// computed in `u16`, so the product of width and percentage must fit.
pub fn centered_rect(area: Rect, percent_x: u16, height: u16) -> (r: Rect)
    requires
        fits(area),
        area.width * percent_x <= u16::MAX,
    ensures
        r == centered_rect_spec(area, percent_x, height),
{
    let width: u16 = area.width * percent_x / 100;
    let free_w: u16 = if area.width >= width {
        area.width - width
    } else {
        0
    };
    let free_h: u16 = if area.height >= height {
        area.height - height
    } else {
        0
    };
    Rect {
        x: area.x + free_w / 2,
        y: area.y + free_h / 2,
        width,
        height: if height <= area.height {
            height
        } else {
            area.height
        },
    }
}

/// The label carried under the mouse while dragging an entry.
pub open spec fn drag_label_text(name: Seq<char>) -> Seq<char> {
    " ⇢ "@ + name + " "@
}

/// The label carried under the mouse while dragging `name`.
pub fn drag_label(name: &str) -> (r: String)
    ensures
        r@ == drag_label_text(name@),
{
    concat3(" ⇢ ", name, " ")
}

/// Where the drag label of `len` characters is drawn on a `width` x
/// `height` screen: at the mouse, but kept on the screen (one column is
/// left free at the right edge).
pub open spec fn ghost_area_spec(width: u16, height: u16, col: u16, row: u16, len: int) -> Rect {
    let w = least(len, minus(width as int, 1));
    Rect {
        x: least(col as int, minus(width as int, w)) as u16,
        y: least(row as int, minus(height as int, 1)) as u16,
        width: w as u16,
        height: 1,
    }
}

/// Where to draw the drag label (see `ghost_area_spec`).
pub fn ghost_area(width: u16, height: u16, col: u16, row: u16, label: &str) -> (r: Rect)
    ensures
        r == ghost_area_spec(width, height, col, row, label@.len() as int),
{
    let n = chars_of(label).len();
    let room: u16 = if width >= 1 {
        width - 1
    } else {
        0
    };
    let w: u16 = if n <= room as usize {
        n as u16
    } else {
        room
    };
    let max_x: u16 = width - w;
    let max_y: u16 = if height >= 1 {
        height - 1
    } else {
        0
    };
    Rect {
        x: if col <= max_x {
            col
        } else {
            max_x
        },
        y: if row <= max_y {
            row
        } else {
            max_y
        },
        width: w,
        height: 1,
    }
}

} // verus!

verus! {

/// The progress box's title: while a folder is copied it counts the files
/// (`37/412 dosya`); it always says how to cancel.
pub open spec fn transfer_title_text(files: Option<(u32, u32)>) -> Seq<char> {
    match files {
        Some((done, total)) => " Transfer — "@ + crate::text::decimal(done as nat) + "/"@
            + crate::text::decimal(total as nat) + " dosya — q/Esc: iptal "@,
        None => " Transfer — q/Esc: iptal "@,
    }
}

/// The title of the progress box (see `transfer_title_text`).
pub fn transfer_title(files: Option<(u32, u32)>) -> (r: String)
    ensures
        r@ == transfer_title_text(files),
{
    match files {
        Some((done, total)) => {
            let mut s = crate::text::owned(" Transfer — ");
            crate::text::push_decimal(&mut s, done as u64);
            s.append("/");
            crate::text::push_decimal(&mut s, total as u64);
            s.append(" dosya — q/Esc: iptal ");
            assert(s@ =~= transfer_title_text(files));
            s
        },
        None => crate::text::owned(" Transfer — q/Esc: iptal "),
    }
}

} // verus!
