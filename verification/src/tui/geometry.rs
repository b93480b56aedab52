use vstd::prelude::*;

verus! {

/// A rectangle of terminal cells.
#[derive(Clone, Copy, PartialEq, Eq, Structural, Debug)]
pub struct Area {
    pub x: u16,
    pub y: u16,
    pub width: u16,
    pub height: u16,
}

/// `a + b`, capped at `u16::MAX`.
pub open spec fn sat_add(a: u16, b: u16) -> u16 {
    if a + b > u16::MAX {
        u16::MAX
    } else {
        (a + b) as u16
    }
}

/// `a - b`, or 0 when `b` is larger.
pub open spec fn sat_sub(a: u16, b: u16) -> u16 {
    if a >= b {
        (a - b) as u16
    } else {
        0
    }
}

/// The smaller of two values.
pub open spec fn min16(a: u16, b: u16) -> u16 {
    if a <= b {
        a
    } else {
        b
    }
}

/// The area inside a block with borders on all four sides, as `Block::inner` computes it.
pub open spec fn bordered_inner(area: Area) -> Area {
    let x = min16(sat_add(area.x, 1), sat_add(area.x, area.width));
    let y = min16(sat_add(area.y, 1), sat_add(area.y, area.height));
    Area { x, y, width: sat_sub(sat_sub(area.width, 1), 1), height: sat_sub(sat_sub(area.height, 1), 1) }
}

/// Calls `ratatui::widgets::Block::inner` on a block with all borders: the area shrinks
/// by one cell on each side, as its source computes.
#[verifier::external_body]
pub(crate) fn block_inner(area: Area) -> (inner: Area)
    ensures
        inner == bordered_inner(area),
{
    let r = ratatui::widgets::Block::default().borders(ratatui::widgets::Borders::ALL).inner(
        ratatui::layout::Rect { x: area.x, y: area.y, width: area.width, height: area.height },
    );
    Area { x: r.x, y: r.y, width: r.width, height: r.height }
}

/// How long one part of a split is meant to be along the split direction.
#[derive(Clone, Copy, PartialEq, Eq, Structural, Debug)]
pub enum Extent {
    /// A fixed number of cells.
    Length(u16),
    /// A percentage of the whole.
    Percentage(u16),
}

/// Calls `ratatui::layout::Layout::split`, one `Length` or `Percentage` constraint per
/// extent. It gives one area per extent, each spanning the whole area across the split
/// direction and lying within the area along it. Where each area starts and ends along
/// the split is left unsaid: ratatui's solver settles it, and for extents that conflict
/// its own documentation calls the result indeterminate.
#[verifier::external_body]
pub(crate) fn split_area(area: Area, vertical: bool, extents: &Vec<Extent>) -> (parts: Vec<Area>)
    ensures
        parts@.len() == extents@.len(),
        forall|k: int|
            #![trigger parts@[k]]
            0 <= k < parts@.len() && vertical ==> {
                &&& parts@[k].x == area.x
                &&& parts@[k].width == area.width
                &&& area.y <= parts@[k].y
                &&& parts@[k].y + parts@[k].height <= sat_add(area.y, area.height)
            },
        forall|k: int|
            #![trigger parts@[k]]
            0 <= k < parts@.len() && !vertical ==> {
                &&& parts@[k].y == area.y
                &&& parts@[k].height == area.height
                &&& area.x <= parts@[k].x
                &&& parts@[k].x + parts@[k].width <= sat_add(area.x, area.width)
            },
{
    let constraints: Vec<ratatui::layout::Constraint> = extents.iter().map(|e| match e {
        Extent::Length(n) => ratatui::layout::Constraint::Length(*n),
        Extent::Percentage(p) => ratatui::layout::Constraint::Percentage(*p),
    }).collect();
    let direction = if vertical {
        ratatui::layout::Direction::Vertical
    } else {
        ratatui::layout::Direction::Horizontal
    };
    let rects = ratatui::layout::Layout::default().direction(direction).constraints(constraints).split(
        ratatui::layout::Rect { x: area.x, y: area.y, width: area.width, height: area.height },
    );
    rects.iter().map(|r| Area { x: r.x, y: r.y, width: r.width, height: r.height }).collect()
}

/// The lengths that center a span of `percent` percent of `total`: the margin before,
/// the span, the margin after.
pub open spec fn popup_spec(total: u16, percent: u16) -> (u16, u16, u16) {
    let margin = ((total * (100 - percent)) / 200) as u16;
    (margin, ((total * percent) / 100) as u16, margin)
}

/// The lengths that center a span of `percent` percent of `total`.
pub fn popup_lengths(total: u16, percent: u16) -> (res: (u16, u16, u16))
    requires
        percent <= 100,
        total * (100 - percent) <= u16::MAX,
        total * percent <= u16::MAX,
    ensures
        res == popup_spec(total, percent),
{
    let margin = (total * (100 - percent)) / 200;
    (margin, (total * percent) / 100, margin)
}

/// A rectangle of `percent_x` by `percent_y` percent of `r`, centered in it: the middle
/// part of `r` split across its height by the lengths `popup_lengths(r.height, percent_y)`,
/// then split across its width by `popup_lengths(r.width, percent_x)`. It lies inside `r`.
pub fn centered_rect(percent_x: u16, percent_y: u16, r: Area) -> (res: Area)
    requires
        percent_x <= 100,
        percent_y <= 100,
        r.height * (100 - percent_y) <= u16::MAX,
        r.height * percent_y <= u16::MAX,
        r.width * (100 - percent_x) <= u16::MAX,
        r.width * percent_x <= u16::MAX,
    ensures
        r.x <= res.x,
        res.x + res.width <= sat_add(r.x, r.width),
        r.y <= res.y,
        res.y + res.height <= sat_add(r.y, r.height),
{
    let (a, b, c) = popup_lengths(r.height, percent_y);
    let ys = vec![Extent::Length(a), Extent::Length(b), Extent::Length(c)];
    let rows = split_area(r, true, &ys);
    let row = rows[1];
    let (d, e, f) = popup_lengths(r.width, percent_x);
    let xs = vec![Extent::Length(d), Extent::Length(e), Extent::Length(f)];
    let cols = split_area(row, false, &xs);
    cols[1]
}

} // verus!
