//! Areas of the screen.

use ratatui::layout::{Constraint as Size, Layout, Rect};
use ratatui::widgets::{Block, Borders};
use vstd::prelude::*;

verus! {

/// An area of the screen, in columns and rows.
#[derive(Clone, Copy, PartialEq, Eq, Debug, Structural)]
pub struct Area {
    pub x: u16,
    pub y: u16,
    pub width: u16,
    pub height: u16,
}

/// How large a part of an area is to be.
#[derive(Clone, Copy, PartialEq, Eq, Debug, Structural)]
pub enum Constraint {
    Length(u16),
    Min(u16),
    Percentage(u16),
}

/// A line at the top.
pub const BORDER_TOP: u8 = 1;

/// A line on each of the four sides.
pub const BORDER_ALL: u8 = 15;

/// Whether `parts` may come out where `Layout::split` splits `area` into parts
/// of the sizes `constraints`, side by side or one below the other.
pub uninterp spec fn may_split(
    side_by_side: bool,
    area: Area,
    constraints: Seq<Constraint>,
    parts: Seq<Area>,
) -> bool;

/// `Layout::split` on a horizontal layout gives one part for each constraint;
/// all have the height of the area and its place from the top.
///
/// Where each part begins and how wide it is, is left unsaid: a solver finds it
/// that walks hash maps, so that the same constraints may be met in another way
/// where they leave a choice.
#[verifier::external_body]
pub(crate) fn split_columns(area: Area, constraints: &Vec<Constraint>) -> (r: Vec<Area>)
    ensures
        may_split(true, area, constraints@, r@),
        r@.len() == constraints@.len(),
        forall|i: int|
            0 <= i < r@.len() ==> (#[trigger] r@[i]).y == area.y && r@[i].height == area.height,
{
    let rect = Rect { x: area.x, y: area.y, width: area.width, height: area.height };
    let sizes = constraints.iter().map(|c| match c {
        Constraint::Length(n) => Size::Length(*n),
        Constraint::Min(n) => Size::Min(*n),
        Constraint::Percentage(n) => Size::Percentage(*n),
    });
    let parts = Layout::horizontal(sizes).split(rect);
    parts.iter().map(|p| Area { x: p.x, y: p.y, width: p.width, height: p.height }).collect()
}

/// `Layout::split` on a vertical layout gives one part for each constraint; all
/// have the width of the area and its place from the left.
///
/// Where each part begins and how high it is, is left unsaid: a solver finds it
/// that walks hash maps, so that the same constraints may be met in another way
/// where they leave a choice.
#[verifier::external_body]
pub(crate) fn split_rows(area: Area, constraints: &Vec<Constraint>) -> (r: Vec<Area>)
    ensures
        may_split(false, area, constraints@, r@),
        r@.len() == constraints@.len(),
        forall|i: int|
            0 <= i < r@.len() ==> (#[trigger] r@[i]).x == area.x && r@[i].width == area.width,
{
    let rect = Rect { x: area.x, y: area.y, width: area.width, height: area.height };
    let sizes = constraints.iter().map(|c| match c {
        Constraint::Length(n) => Size::Length(*n),
        Constraint::Min(n) => Size::Min(*n),
        Constraint::Percentage(n) => Size::Percentage(*n),
    });
    let parts = Layout::vertical(sizes).split(rect);
    parts.iter().map(|p| Area { x: p.x, y: p.y, width: p.width, height: p.height }).collect()
}

/// The place behind a border line: one further, but not beyond the end of a
/// stretch of `len` from `at`.
pub open spec fn behind(at: u16, len: u16) -> u16 {
    if len == 0 || at == u16::MAX {
        at
    } else {
        (at + 1) as u16
    }
}

/// `len` without `n`, or nothing where there is less.
pub open spec fn less(len: u16, n: u16) -> u16 {
    if len < n {
        0
    } else {
        (len - n) as u16
    }
}

/// What the borders leave of `area`.
pub open spec fn inner(area: Area, borders: u8) -> Area {
    if borders == BORDER_ALL {
        Area {
            x: behind(area.x, area.width),
            y: behind(area.y, area.height),
            width: less(area.width, 2),
            height: less(area.height, 2),
        }
    } else {
        Area { y: behind(area.y, area.height), height: less(area.height, 1), ..area }
    }
}

/// `Block::inner` gives what the borders of a block leave of an area. A title
/// takes no more than the line at the top.
#[verifier::external_body]
pub(crate) fn block_inner(area: Area, borders: u8) -> (r: Area)
    requires
        borders == BORDER_ALL || borders == BORDER_TOP,
    ensures
        r == inner(area, borders),
{
    let rect = Rect { x: area.x, y: area.y, width: area.width, height: area.height };
    let p = Block::new().borders(Borders::from_bits_truncate(borders)).inner(rect);
    Area { x: p.x, y: p.y, width: p.width, height: p.height }
}

/// The number of 16 bits that is left of `x` when the bits above are dropped.
pub open spec fn wrapped(x: int) -> u16 {
    (x % 0x1_0000) as u16
}

/// The area in the middle of `r` that takes `pct_w` percent of its width and
/// `pct_h` percent of its height. Products and places are counted without the
/// bits above the 16th.
pub open spec fn centered(pct_w: u16, pct_h: u16, r: Area) -> Area {
    let w = (wrapped(r.width * pct_w) / 100) as u16;
    let h = (wrapped(r.height * pct_h) / 100) as u16;
    Area {
        x: wrapped(r.x + less(r.width, w) / 2),
        y: wrapped(r.y + less(r.height, h) / 2),
        width: w,
        height: h,
    }
}

/// The area in the middle of `r` that takes `pct_w` percent of its width and
/// `pct_h` percent of its height.
pub fn centered_rect(pct_w: u16, pct_h: u16, r: Area) -> (c: Area)
    ensures
        c == centered(pct_w, pct_h, r),
{
    let w: u16 = r.width.wrapping_mul(pct_w) / 100;
    let h: u16 = r.height.wrapping_mul(pct_h) / 100;
    Area {
        x: r.x.wrapping_add(r.width.saturating_sub(w) / 2),
        y: r.y.wrapping_add(r.height.saturating_sub(h) / 2),
        width: w,
        height: h,
    }
}

/// A centered area stays within the area around it, as long as the products do
/// not exceed 16 bits.
pub proof fn centered_stays_inside(pct_w: u16, pct_h: u16, r: Area)
    requires
        pct_w <= 100,
        pct_h <= 100,
        r.width * pct_w <= u16::MAX,
        r.height * pct_h <= u16::MAX,
        r.x + r.width <= u16::MAX,
        r.y + r.height <= u16::MAX,
    ensures
        r.x <= centered(pct_w, pct_h, r).x,
        r.y <= centered(pct_w, pct_h, r).y,
        centered(pct_w, pct_h, r).x + centered(pct_w, pct_h, r).width <= r.x + r.width,
        centered(pct_w, pct_h, r).y + centered(pct_w, pct_h, r).height <= r.y + r.height,
{
    assert(r.width * pct_w <= r.width * 100) by (nonlinear_arith)
        requires
            pct_w <= 100,
            0 <= r.width,
    ;
    assert(r.height * pct_h <= r.height * 100) by (nonlinear_arith)
        requires
            pct_h <= 100,
            0 <= r.height,
    ;
    assert(0 <= r.width * pct_w) by (nonlinear_arith);
    assert(0 <= r.height * pct_h) by (nonlinear_arith);
}

/// A centered area has its share of the width and of the height, and as much room
/// before it as behind it, but for one column and one row; where a number exceeds 16
/// bits, what is above them is dropped.
pub proof fn centered_areas_have_their_share(pct_w: u16, pct_h: u16, r: Area)
    ensures
        ({
            let c = centered(pct_w, pct_h, r);
            let w = (r.width * pct_w) % 0x1_0000 / 100;
            let h = (r.height * pct_h) % 0x1_0000 / 100;
            let left = if w < r.width {
                (r.width - w) / 2
            } else {
                0
            };
            let above = if h < r.height {
                (r.height - h) / 2
            } else {
                0
            };
            &&& c.width == w
            &&& c.height == h
            &&& c.x == (r.x + left) % 0x1_0000
            &&& c.y == (r.y + above) % 0x1_0000
        }),
{
}

} // verus!
