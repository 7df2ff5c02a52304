//! The panel that lists the packages.

use crate::app::App;
use crate::details;
use crate::details::hdivider;
use crate::layout;
use crate::layout::{block_inner, Area, BORDER_ALL};
use crate::listing;
use crate::model::AppModel;
use crate::package::{PkgInfo, Reason};
use crate::rounding;
use crate::rounding::fmt_size;
use crate::style::{
    c_sel_bg, size_color, st_bold, st_mark, st_muted, st_orphan, Color, Style, C_MARK, C_MUTED,
    C_ORPHAN, C_SUCCESS, C_WHITE,
};
use crate::text;
use crate::text::{pad_left, pad_right, push_view, to_decimal, trunc, truncatable};
use crate::widget;
use crate::widget::{
    draw_at, line0, line1, nothing, rounded, span, span_of, Drawing, DrawingModel, Line, Row,
    RowModel, SpanModel, Widget, WidgetModel,
};
use vstd::prelude::*;
use vstd::string::StringExecFns;

verus! {

/// The width of the column of the versions.
pub const VERSION_WIDTH: usize = 13;

/// The width of the column of the sizes.
pub const SIZE_WIDTH: usize = 10;

/// The width of the column of the names in a list of the width `width`.
pub open spec fn name_width(width: u16) -> nat {
    let rest = details::minus(width as nat, 26);
    if rest < 24 {
        rest
    } else {
        24
    }
}

/// The title of the panel: how many packages are listed, how many there are, and
/// how many of them are orphans and how many marked.
pub open spec fn list_title(s: AppModel) -> Seq<SpanModel> {
    let orphans = listing::orphans(s.pkgs);
    let marked = s.marked.len();
    seq![
        widget::sp(" Packages "@, st_bold()),
        widget::sp(
            text::decimal(s.filtered.len()) + "/"@ + text::decimal(s.pkgs.len()) + " "@,
            st_muted(),
        ),
        if orphans > 0 {
            widget::sp(" ◆"@ + text::decimal(orphans) + " "@, st_orphan())
        } else {
            widget::sp(""@, Style::plain())
        },
        if marked > 0 {
            widget::sp(" ✓"@ + text::decimal(marked) + " "@, st_mark())
        } else {
            widget::sp(""@, Style::plain())
        },
    ]
}

fn title(app: &App) -> (r: Line)
    ensures
        r@ == list_title(app@),
{
    let orphans: usize = app.orphan_count();
    let marked: usize = app.marked.len();
    let counts = to_decimal(app.filtered.len() as u128).concat("/").concat(
        to_decimal(app.pkgs.len() as u128).as_str(),
    ).concat(" ");
    let orphan_part = if orphans > 0 {
        span_of(
            " ◆".to_owned().concat(to_decimal(orphans as u128).as_str()).concat(" "),
            st_orphan(),
        )
    } else {
        span("", Style::plain())
    };
    let marked_part = if marked > 0 {
        span_of(
            " ✓".to_owned().concat(to_decimal(marked as u128).as_str()).concat(" "),
            st_mark(),
        )
    } else {
        span("", Style::plain())
    };
    line0().and(span(" Packages ", st_bold())).and(span_of(counts, st_muted())).and(
        orphan_part,
    ).and(marked_part)
}

/// The names of the columns.
pub open spec fn column_names(name_w: nat) -> Seq<SpanModel> {
    seq![
        widget::sp("     "@, st_muted()),
        widget::sp(
            text::padded_right("NAME"@, name_w),
            Style::of(C_MUTED).bold().underlined(),
        ),
        widget::sp(" "@ + text::padded_right("VERSION"@, VERSION_WIDTH as nat), st_muted()),
        widget::sp(text::padded_left("SIZE"@, SIZE_WIDTH as nat), st_muted()),
    ]
}

fn columns(name_w: usize) -> (r: Line)
    ensures
        r@ == column_names(name_w as nat),
{
    line0().and(span("     ", st_muted())).and(
        span_of(pad_right("NAME", name_w), Style::of(C_MUTED).bold().underlined()),
    ).and(
        span_of(
            " ".to_owned().concat(pad_right("VERSION", VERSION_WIDTH).as_str()),
            st_muted(),
        ),
    ).and(span_of(pad_left("SIZE", SIZE_WIDTH), st_muted()))
}

/// The style of the name of a package.
pub open spec fn name_style(marked: bool, orphan: bool, selected: bool) -> Style {
    if marked {
        Style::of(C_MARK).bold()
    } else if orphan && selected {
        Style::of(C_ORPHAN).bold()
    } else if orphan {
        Style::of(C_ORPHAN)
    } else if selected {
        Style::of(C_WHITE).bold()
    } else {
        Style::of(C_WHITE)
    }
}

/// The row of a package.
pub open spec fn pkg_row(p: PkgInfo, marked: bool, selected: bool, name_w: nat) -> RowModel {
    RowModel {
        line: seq![
            if marked {
                widget::sp(" ✓ "@, st_mark())
            } else if p.orphan() {
                widget::sp(" ◆ "@, st_orphan())
            } else {
                widget::sp(" ○ "@, st_muted())
            },
            widget::sp(
                text::padded_right(text::truncated(p.name@, name_w), name_w),
                name_style(marked, p.orphan(), selected),
            ),
            widget::sp(
                " "@ + text::padded_right(
                    text::truncated(p.version@, VERSION_WIDTH as nat),
                    VERSION_WIDTH as nat,
                ),
                st_muted(),
            ),
            widget::sp(
                text::padded_left(rounding::size_text(p.size), SIZE_WIDTH as nat),
                Style::of(size_color(p.size)),
            ),
            widget::sp(" "@, Style::plain()),
            widget::sp(
                "·"@,
                if p.reason == Reason::Explicit {
                    Style::of(C_SUCCESS)
                } else {
                    st_muted()
                },
            ),
        ],
        bg: if selected {
            Some(c_sel_bg())
        } else {
            None
        },
    }
}

/// Whether the name and the version of a package can be shortened to their
/// columns without splitting a character.
pub open spec fn row_fits(p: PkgInfo, name_w: nat) -> bool {
    text::can_trunc(p.name@, name_w) && text::can_trunc(p.version@, VERSION_WIDTH as nat)
}

/// The row of a package, or nothing where the name or the version cannot be
/// shortened to its column.
pub fn package_row(p: &PkgInfo, marked: bool, selected: bool, name_w: usize) -> (r: Option<Row>)
    ensures
        r is Some <==> row_fits(*p, name_w as nat),
        r matches Some(row) ==> row@ == pkg_row(*p, marked, selected, name_w as nat),
{
    if !truncatable(p.name.as_str(), name_w) || !truncatable(p.version.as_str(), VERSION_WIDTH) {
        return None;
    }
    let orphan = p.is_orphan();
    let prefix = if marked {
        span(" ✓ ", st_mark())
    } else if orphan {
        span(" ◆ ", st_orphan())
    } else {
        span(" ○ ", st_muted())
    };
    let style = if marked {
        Style::of(C_MARK).bold()
    } else if orphan && selected {
        Style::of(C_ORPHAN).bold()
    } else if orphan {
        Style::of(C_ORPHAN)
    } else if selected {
        Style::of(C_WHITE).bold()
    } else {
        Style::of(C_WHITE)
    };
    let name = pad_right(trunc(p.name.as_str(), name_w).as_str(), name_w);
    let version = pad_right(trunc(p.version.as_str(), VERSION_WIDTH).as_str(), VERSION_WIDTH);
    let size = pad_left(fmt_size(p.size).as_str(), SIZE_WIDTH);
    let dot = match p.reason {
        Reason::Explicit => Style::of(C_SUCCESS),
        Reason::Depend => st_muted(),
    };
    let line = line0().and(prefix).and(span_of(name, style)).and(
        span_of(" ".to_owned().concat(version.as_str()), st_muted()),
    ).and(span_of(size, Style::of(size_color(p.size)))).and(span(" ", Style::plain())).and(
        span("·", dot),
    );
    let bg = if selected {
        Some(c_sel_bg())
    } else {
        None
    };
    assert(line@ =~= pkg_row(*p, marked, selected, name_w as nat).line);
    Some(Row { line, bg })
}

/// The rows of the list.
pub open spec fn list_rows(s: AppModel, name_w: nat) -> Seq<RowModel> {
    Seq::new(
        s.filtered.len(),
        |k: int|
            pkg_row(
                s.pkgs[s.filtered[k] as int],
                s.marked.contains(s.filtered[k]),
                k == s.cursor,
                name_w,
            ),
    )
}

/// Whether all listed packages can be shortened to their columns.
pub open spec fn rows_fit(s: AppModel, name_w: nat) -> bool {
    forall|k: int|
        0 <= k < s.filtered.len() ==> row_fits(s.pkgs[#[trigger] s.filtered[k] as int], name_w)
}

fn rows(app: &App, name_w: usize) -> (r: Option<Vec<Row>>)
    requires
        app@.wf(),
    ensures
        r is Some <==> rows_fit(app@, name_w as nat),
        r matches Some(v) ==> text::views(v@) == list_rows(app@, name_w as nat),
{
    let ghost all = list_rows(app@, name_w as nat);
    let mut r: Vec<Row> = nothing();
    let mut k: usize = 0;
    assert(text::views(r@) =~= all.take(0));
    while k < app.filtered.len()
        invariant
            k <= app.filtered@.len(),
            app@.wf(),
            all == list_rows(app@, name_w as nat),
            text::views(r@) == all.take(k as int),
            forall|l: int|
                0 <= l < k ==> row_fits(
                    app@.pkgs[#[trigger] app@.filtered[l] as int],
                    name_w as nat,
                ),
        decreases app.filtered@.len() - k,
    {
        proof {
            crate::laws::listed_packages_exist(app@, k as int);
        }
        let i: usize = app.filtered[k];
        match package_row(&app.pkgs[i], app.marked.contains(&i), k == app.cursor, name_w) {
            Some(row) => push_view(&mut r, row),
            None => {
                assert(!row_fits(app@.pkgs[app@.filtered[k as int] as int], name_w as nat));
                return None;
            },
        }
        assert(text::views(r@) =~= all.take(k as int + 1));
        k += 1;
    }
    assert(all.take(all.len() as int) =~= all);
    Some(r)
}

/// One row of `area`, `n` rows from its top.
pub open spec fn row_of(area: Area, n: int) -> Area {
    Area { x: area.x, y: layout::wrapped(area.y + n), width: area.width, height: 1 }
}

/// Whether the panel is too low for a list.
pub open spec fn too_low(area: Area) -> bool {
    layout::inner(area, BORDER_ALL).height < 3
}

/// Whether the panel can be drawn: it is too low for a list, or all that it lists
/// can be shortened to the columns.
pub open spec fn list_fits(s: AppModel, area: Area) -> bool {
    too_low(area) || rows_fit(s, name_width(layout::inner(area, BORDER_ALL).width))
}

/// What the panel shows.
pub open spec fn list_panel(s: AppModel, area: Area) -> Seq<DrawingModel> {
    let inside = layout::inner(area, BORDER_ALL);
    let name_w = name_width(inside.width);
    let frame = widget::at(
        area,
        WidgetModel::Frame(widget::round_frame(st_muted(), list_title(s))),
    );
    if too_low(area) {
        seq![frame]
    } else {
        seq![
            frame,
            widget::at(row_of(inside, 0), WidgetModel::Text(seq![column_names(name_w)])),
            widget::at(
                row_of(inside, 1),
                WidgetModel::Text(seq![seq![details::divider(inside.width)]]),
            ),
            widget::at(
                Area { height: (inside.height - 2) as u16, ..row_of(inside, 2) },
                WidgetModel::List(list_rows(s, name_w), s.cursor),
            ),
        ]
    }
}

fn one_line(line: Line) -> (r: Widget)
    ensures
        r@ == WidgetModel::Text(seq![line@]),
{
    let mut lines: Vec<Line> = nothing();
    push_view(&mut lines, line);
    Widget::Text(lines)
}

/// The panel that lists the packages, or nothing where a name or a version cannot
/// be shortened to its column.
pub fn draw_pkg_list(app: &App, area: Area) -> (r: Option<Vec<Drawing>>)
    requires
        app@.wf(),
    ensures
        r is Some <==> list_fits(app@, area),
        r matches Some(v) ==> text::views(v@) == list_panel(app@, area),
{
    let inside = block_inner(area, BORDER_ALL);
    let mut r: Vec<Drawing> = nothing();
    draw_at(&mut r, area, Widget::Frame(rounded(st_muted(), title(app))));
    if inside.height < 3 {
        return Some(r);
    }
    let rest: usize = (inside.width as usize).saturating_sub(26);
    let name_w: usize = if rest < 24 {
        rest
    } else {
        24
    };
    let items = match rows(app, name_w) {
        Some(items) => items,
        None => {
            return None;
        },
    };
    let first = Area { x: inside.x, y: inside.y, width: inside.width, height: 1 };
    let second = Area { y: inside.y.wrapping_add(1), ..first };
    let rest = Area { y: inside.y.wrapping_add(2), height: inside.height - 2, ..first };
    draw_at(&mut r, first, one_line(columns(name_w)));
    draw_at(&mut r, second, one_line(line1(hdivider(inside.width))));
    draw_at(&mut r, rest, Widget::List(items, app.cursor));
    Some(r)
}

/// The title tells how many packages are listed, how many there are, and, where there
/// are any, how many are orphans and how many are marked.
pub proof fn the_title_counts_packages(s: AppModel)
    ensures
        ({
            let t = list_title(s);
            let orphans = listing::orphans(s.pkgs);
            let marked = s.marked.len();
            let nothing = SpanModel { text: ""@, style: Style::plain() };
            &&& t.len() == 4
            &&& t[0] == (SpanModel { text: " Packages "@, style: Style::plain().bold() })
            &&& t[1] == (SpanModel {
                text: text::decimal(s.filtered.len()) + "/"@ + text::decimal(s.pkgs.len()) + " "@,
                style: Style::of(Color::DarkGray),
            })
            &&& t[2] == if orphans == 0 {
                nothing
            } else {
                SpanModel {
                    text: " ◆"@ + text::decimal(orphans) + " "@,
                    style: Style::of(Color::Magenta).bold(),
                }
            }
            &&& t[3] == if marked == 0 {
                nothing
            } else {
                SpanModel {
                    text: " ✓"@ + text::decimal(marked) + " "@,
                    style: Style::of(Color::Red).bold(),
                }
            }
        }),
{
}

/// A row tells, in order: whether the package is marked or an orphan, its name, its
/// version, its size, and by the colour of a dot whether it was asked for.
pub proof fn rows_tell_of_their_package(
    p: PkgInfo,
    marked: bool,
    selected: bool,
    name_w: nat,
)
    ensures
        ({
            let row = pkg_row(p, marked, selected, name_w);
            let orphan = p.reason == Reason::Depend && p.required_by@.len() == 0;
            let grey = Style::of(Color::DarkGray);
            let name = text::truncated(p.name@, name_w);
            let version = text::truncated(p.version@, 13);
            &&& row.line.len() == 6
            &&& row.line[0] == if marked {
                SpanModel { text: " ✓ "@, style: Style::of(Color::Red).bold() }
            } else if orphan {
                SpanModel { text: " ◆ "@, style: Style::of(Color::Magenta).bold() }
            } else {
                SpanModel { text: " ○ "@, style: grey }
            }
            &&& row.line[1].text == text::padded_right(name, name_w)
            &&& row.line[1].style.fg == Some(
                if marked {
                    Color::Red
                } else if orphan {
                    Color::Magenta
                } else {
                    Color::White
                },
            )
            &&& row.line[1].style.bold <==> marked || selected
            &&& row.line[1].style.bg is None && !row.line[1].style.underlined
            &&& row.line[2] == (SpanModel {
                text: " "@ + text::padded_right(version, 13),
                style: grey,
            })
            &&& row.line[3] == (SpanModel {
                text: text::padded_left(rounding::size_text(p.size), 10),
                style: Style::of(size_color(p.size)),
            })
            &&& row.line[4] == (SpanModel { text: " "@, style: Style::plain() })
            &&& row.line[5] == (SpanModel {
                text: "·"@,
                style: if p.reason == Reason::Explicit {
                    Style::of(Color::Green)
                } else {
                    grey
                },
            })
            &&& row.bg == if selected {
                Some(Color::Rgb(28, 50, 72))
            } else {
                None
            }
        }),
{
}

/// There is one row for each package of the list, in order, and the selected one
/// stands out.
pub proof fn every_listed_package_has_its_row(s: AppModel, name_w: nat, k: int)
    ensures
        list_rows(s, name_w).len() == s.filtered.len(),
        0 <= k < s.filtered.len() ==> list_rows(s, name_w)[k] == pkg_row(
            s.pkgs[s.filtered[k] as int],
            s.marked.contains(s.filtered[k]),
            k == s.cursor,
            name_w,
        ),
{
}

/// The names have the room that the other columns leave, but no more than 24 columns.
pub proof fn names_have_the_room_that_is_left(width: u16)
    ensures
        name_width(width) <= 24,
        width <= 26 ==> name_width(width) == 0,
        26 < width < 50 ==> name_width(width) == width - 26,
        50 <= width ==> name_width(width) == 24,
{
}

/// The panel has the names of the columns in its first row, a dividing line in the
/// second, and the list in all rows below. Where it has fewer than three rows, there is
/// the frame alone.
pub proof fn the_list_fills_the_panel(s: AppModel, area: Area)
    ensures
        ({
            let panel = list_panel(s, area);
            let inside = layout::inner(area, BORDER_ALL);
            let name_w = name_width(inside.width);
            let grey = Style::of(Color::DarkGray);
            let row = |n: int, height: int| Area {
                x: inside.x,
                y: ((inside.y + n) % 0x1_0000) as u16,
                width: inside.width,
                height: height as u16,
            };
            &&& panel[0].area == area
            &&& panel[0].widget == WidgetModel::Frame(widget::round_frame(grey, list_title(s)))
            &&& inside.height < 3 ==> panel.len() == 1
            &&& inside.height >= 3 ==> {
                &&& panel.len() == 4
                &&& panel[1].area == row(0, 1)
                &&& panel[1].widget == WidgetModel::Text(
                    seq![
                        seq![
                            SpanModel { text: "     "@, style: grey },
                            SpanModel {
                                text: text::padded_right("NAME"@, name_w),
                                style: grey.bold().underlined(),
                            },
                            SpanModel {
                                text: " "@ + text::padded_right("VERSION"@, 13),
                                style: grey,
                            },
                            SpanModel { text: text::padded_left("SIZE"@, 10), style: grey },
                        ],
                    ],
                )
                &&& panel[2].area == row(1, 1)
                &&& panel[2].widget == WidgetModel::Text(
                    seq![seq![details::divider(inside.width)]],
                )
                &&& panel[3].area == row(2, inside.height - 2)
                &&& panel[3].widget == WidgetModel::List(list_rows(s, name_w), s.cursor)
            }
        }),
{
}

/// The panel cannot be drawn exactly where it has room for the list and a listed
/// package has a name or a version that would have to be cut inside a character.
pub proof fn only_cuts_inside_characters_stop_the_list(s: AppModel, area: Area)
    ensures
        ({
            let inside = layout::inner(area, BORDER_ALL);
            let name_w = name_width(inside.width);
            !list_fits(s, area) <==> inside.height >= 3 && exists|k: int|
                0 <= k < s.filtered.len() && !(text::can_trunc(
                    s.pkgs[#[trigger] s.filtered[k] as int].name@,
                    name_w,
                ) && text::can_trunc(s.pkgs[s.filtered[k] as int].version@, 13))
        }),
{
}

} // verus!
