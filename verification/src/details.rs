//! The panel that describes the selected package.

use crate::app::App;
use crate::layout;
use crate::layout::{block_inner, Area, BORDER_ALL};
use crate::model::AppModel;
use crate::package::{PkgInfo, Reason};
use crate::rounding;
use crate::rounding::fmt_size;
use crate::style::{
    st_bold, st_mark, st_muted, st_orphan, Color, Style, C_ACCENT, C_MARK, C_ORPHAN,
    C_WHITE,
};
use crate::text;
use crate::text::{append_views, pad_right, push_view, repeat, rows_of, to_decimal, wrap};
use crate::widget;
use crate::widget::{
    bullets, draw_at, line0, line1, line2, nothing, rounded, span, span_of, Drawing, DrawingModel,
    Line, Span, SpanModel, Widget, WidgetModel,
};
use vstd::prelude::*;
use vstd::string::StringExecFns;

verus! {

/// A line across the whole width.
pub open spec fn divider(width: u16) -> SpanModel {
    widget::sp(text::repeated('─', width as nat), st_muted())
}

/// A line across the whole width.
pub fn hdivider(width: u16) -> (r: Span)
    ensures
        r@ == divider(width),
{
    span_of(repeat('─', width as usize), st_muted())
}

/// `a - b`, or nothing where `b` is larger.
pub open spec fn minus(a: nat, b: nat) -> nat {
    if a < b {
        0
    } else {
        (a - b) as nat
    }
}

/// A heading of the colour `col` in a line across the width.
pub open spec fn heading(width: u16, label: Seq<char>, col: Color) -> Seq<SpanModel> {
    let dash = text::repeated('─', 2);
    let rest = text::repeated('─', minus(width as nat, text::byte_len(label) + 9));
    seq![
        widget::sp("  "@ + dash + " "@, st_muted()),
        widget::sp(label, Style::of(col)),
        widget::sp(" "@ + dash + rest, st_muted()),
    ]
}

/// A heading of the colour `col` in a line across the width.
pub fn section_header_col(width: u16, label: &str, col: Color) -> (r: Line)
    ensures
        r@ == heading(width, label@, col),
{
    let dash = repeat('─', 2);
    let len: usize = label.as_bytes().len();
    let rest = repeat('─', (width as usize).saturating_sub(len.saturating_add(9)));
    line0().and(
        span_of("  ".to_owned().concat(dash.as_str()).concat(" "), st_muted()),
    ).and(span(label, Style::of(col))).and(
        span_of(" ".to_owned().concat(dash.as_str()).concat(rest.as_str()), st_muted()),
    )
}

/// A heading in a line across the width.
pub fn section_header(width: u16, label: &str) -> (r: Line)
    ensures
        r@ == heading(width, label@, C_ACCENT),
{
    section_header_col(width, label, C_ACCENT)
}

/// A label with a value.
pub open spec fn labelled(label: Seq<char>, value: Seq<char>) -> Seq<SpanModel> {
    seq![
        widget::sp("  "@ + text::padded_right(label, 11) + " "@, st_muted()),
        widget::sp(value, Style::of(C_WHITE)),
    ]
}

fn field(label: &str, value: String) -> (r: Line)
    ensures
        r@ == labelled(label@, value@),
{
    line2(
        span_of(
            "  ".to_owned().concat(pad_right(label, 11).as_str()).concat(" "),
            st_muted(),
        ),
        span_of(value, Style::of(C_WHITE)),
    )
}

/// Lines of text, each after two spaces.
pub open spec fn indented(lines: Seq<Seq<char>>, style: Style) -> Seq<Seq<SpanModel>> {
    widget::bulleted(widget::sp("  "@, Style::plain()), lines, style)
}

fn indent(lines: &Vec<String>, style: Style) -> (r: Vec<Line>)
    ensures
        text::views(r@) == indented(text::views(lines@), style),
{
    assert(text::views(lines@).subrange(0, lines@.len() as int) =~= text::views(lines@));
    bullets("  ", Style::plain(), lines, 0, lines.len(), style)
}

/// Why a package is installed, in words.
pub open spec fn reason_text(p: PkgInfo) -> Seq<char> {
    match p.reason {
        Reason::Explicit => "Explicit"@,
        Reason::Depend => if p.orphan() {
            "Dependency (ORPHAN)"@
        } else {
            "Dependency"@
        },
    }
}

/// The lines on the package itself.
pub open spec fn head_lines(p: PkgInfo, width: u16) -> Seq<Seq<SpanModel>> {
    seq![
        seq![
            widget::sp(" ◆ "@, Style::of(C_ACCENT).bold()),
            widget::sp(p.name@, Style::of(C_WHITE).bold()),
        ],
        seq![divider(width)],
        Seq::empty(),
        labelled("Version"@, p.version@),
        labelled("Size"@, rounding::size_text(p.size)),
        labelled("Reason"@, reason_text(p)),
        Seq::empty(),
    ]
}

fn head(p: &PkgInfo, width: u16) -> (r: Vec<Line>)
    ensures
        text::views(r@) == head_lines(*p, width),
{
    let reason = match p.reason {
        Reason::Explicit => "Explicit",
        Reason::Depend => if p.is_orphan() {
            "Dependency (ORPHAN)"
        } else {
            "Dependency"
        },
    };
    let mut r: Vec<Line> = nothing();
    push_view(
        &mut r,
        line2(
            span(" ◆ ", Style::of(C_ACCENT).bold()),
            span(p.name.as_str(), Style::of(C_WHITE).bold()),
        ),
    );
    push_view(&mut r, line1(hdivider(width)));
    push_view(&mut r, line0());
    push_view(&mut r, field("Version", p.version.clone()));
    push_view(&mut r, field("Size", fmt_size(p.size)));
    push_view(&mut r, field("Reason", reason.to_owned()));
    push_view(&mut r, line0());
    r
}

/// The lines of the description, set into lines of the width.
pub open spec fn desc_lines(p: PkgInfo, width: u16) -> Seq<Seq<SpanModel>> {
    if p.desc@.len() == 0 {
        Seq::empty()
    } else {
        indented(
            text::wrapped(text::words(p.desc@), minus(width as nat, 4)),
            st_muted(),
        ).push(Seq::empty())
    }
}

fn desc(p: &PkgInfo, width: u16) -> (r: Vec<Line>)
    ensures
        text::views(r@) == desc_lines(*p, width),
{
    if p.desc.as_str().is_empty() {
        return nothing();
    }
    let mut r = indent(
        &wrap(p.desc.as_str(), (width as usize).saturating_sub(4)),
        st_muted(),
    );
    push_view(&mut r, line0());
    r
}

/// The lines of a list of names under a heading, or none where there are none.
pub open spec fn names_lines(
    label: Seq<char>,
    names: Seq<Seq<char>>,
    width: u16,
    style: Style,
) -> Seq<Seq<SpanModel>> {
    if names.len() == 0 {
        Seq::empty()
    } else {
        (seq![heading(width, label, C_ACCENT)] + indented(
            text::name_rows(names, minus(width as nat, 4)),
            style,
        )).push(Seq::empty())
    }
}

fn names(label: &str, list: &Vec<String>, width: u16, style: Style) -> (r: Vec<Line>)
    ensures
        text::views(r@) == names_lines(label@, text::views(list@), width, style),
{
    let mut r: Vec<Line> = nothing();
    if list.is_empty() {
        return r;
    }
    push_view(&mut r, section_header(width, label));
    append_views(
        &mut r,
        indent(&rows_of(list, (width as usize).saturating_sub(4)), style),
    );
    push_view(&mut r, line0());
    r
}

/// The lines on what requires the package.
pub open spec fn required_lines(p: PkgInfo, width: u16) -> Seq<Seq<SpanModel>> {
    if p.required_by@.len() > 0 {
        names_lines(
            "Required By"@,
            text::views(p.required_by@),
            width,
            Style::of(C_ACCENT),
        )
    } else if p.orphan() {
        seq![
            heading(width, "Required By"@, C_ORPHAN),
            seq![
                widget::sp("  ◆ "@, st_orphan()),
                widget::sp("Nothing requires this package (safe to remove)"@, st_orphan()),
            ],
            Seq::empty(),
        ]
    } else {
        Seq::empty()
    }
}

fn required(p: &PkgInfo, width: u16) -> (r: Vec<Line>)
    ensures
        text::views(r@) == required_lines(*p, width),
{
    if !p.required_by.is_empty() {
        return names("Required By", &p.required_by, width, Style::of(C_ACCENT));
    }
    let mut r: Vec<Line> = nothing();
    if p.is_orphan() {
        push_view(&mut r, section_header_col(width, "Required By", C_ORPHAN));
        push_view(
            &mut r,
            line2(
                span("  ◆ ", st_orphan()),
                span("Nothing requires this package (safe to remove)", st_orphan()),
            ),
        );
        push_view(&mut r, line0());
    }
    r
}

/// The lines on the optional dependencies, of which the first four are named.
pub open spec fn optional_lines(p: PkgInfo, width: u16) -> Seq<Seq<SpanModel>> {
    let names = text::views(p.optdeps@);
    let head = seq![heading(width, "Optional"@, C_ACCENT)];
    let bullet = widget::sp("  + "@, st_muted());
    if names.len() == 0 {
        Seq::empty()
    } else if names.len() <= 4 {
        (head + widget::bulleted(bullet, names, st_muted())).push(Seq::empty())
    } else {
        (head + widget::bulleted(bullet, names.take(4), st_muted())).push(
            seq![
                widget::sp(
                    "  …"@ + text::decimal((names.len() - 4) as nat) + " more"@,
                    st_muted(),
                ),
            ],
        ).push(Seq::empty())
    }
}

fn optional(p: &PkgInfo, width: u16) -> (r: Vec<Line>)
    ensures
        text::views(r@) == optional_lines(*p, width),
{
    let ghost all = text::views(p.optdeps@);
    let mut r: Vec<Line> = nothing();
    let n: usize = p.optdeps.len();
    if n == 0 {
        return r;
    }
    push_view(&mut r, section_header(width, "Optional"));
    let shown: usize = if n < 4 {
        n
    } else {
        4
    };
    append_views(&mut r, bullets("  + ", st_muted(), &p.optdeps, 0, shown, st_muted()));
    assert(n <= 4 ==> all.subrange(0, n as int) =~= all);
    if n > 4 {
        push_view(
            &mut r,
            line1(
                span_of(
                    "  …".to_owned().concat(to_decimal((n - 4) as u128).as_str()).concat(" more"),
                    st_muted(),
                ),
            ),
        );
    }
    push_view(&mut r, line0());
    r
}

/// The lines that tell that the package is marked.
pub open spec fn marked_lines(width: u16) -> Seq<Seq<SpanModel>> {
    seq![
        heading(width, "Queued for removal"@, C_MARK),
        seq![
            widget::sp("  ✓ "@, st_mark()),
            widget::sp("Will be removed on [d]"@, st_mark()),
        ],
    ]
}

/// All lines on a package.
pub open spec fn details_lines(p: PkgInfo, marked: bool, width: u16) -> Seq<Seq<SpanModel>> {
    head_lines(p, width) + desc_lines(p, width) + names_lines(
        "Dependencies"@,
        text::views(p.depends@),
        width,
        st_muted(),
    ) + required_lines(p, width) + optional_lines(p, width) + if marked {
        marked_lines(width)
    } else {
        Seq::empty()
    }
}

/// All lines on a package.
pub fn describe(p: &PkgInfo, marked: bool, width: u16) -> (r: Vec<Line>)
    ensures
        text::views(r@) == details_lines(*p, marked, width),
{
    let mut r = head(p, width);
    append_views(&mut r, desc(p, width));
    append_views(&mut r, names("Dependencies", &p.depends, width, st_muted()));
    append_views(&mut r, required(p, width));
    append_views(&mut r, optional(p, width));
    let mut last: Vec<Line> = nothing();
    if marked {
        push_view(&mut last, section_header_col(width, "Queued for removal", C_MARK));
        push_view(
            &mut last,
            line2(span("  ✓ ", st_mark()), span("Will be removed on [d]", st_mark())),
        );
    }
    append_views(&mut r, last);
    r
}

/// What the panel shows of the package `p`.
pub open spec fn package_panel(p: PkgInfo, marked: bool, area: Area) -> Seq<DrawingModel> {
    let flag = if marked {
        widget::sp(" ✓ marked "@, st_mark())
    } else if p.orphan() {
        widget::sp(" ◆ orphan "@, st_orphan())
    } else {
        widget::sp(""@, Style::plain())
    };
    let style = if marked {
        Style::of(C_MARK)
    } else if p.orphan() {
        Style::of(C_ORPHAN)
    } else {
        st_muted()
    };
    let inside = layout::inner(area, BORDER_ALL);
    seq![
        widget::at(
            area,
            WidgetModel::Frame(
                widget::round_frame(style, seq![widget::sp(" Details "@, st_bold()), flag]),
            ),
        ),
        widget::at(inside, WidgetModel::Text(details_lines(p, marked, inside.width))),
    ]
}

/// What the panel shows.
pub open spec fn details_panel(s: AppModel, area: Area) -> Seq<DrawingModel> {
    if s.filtered.len() == 0 {
        seq![
            widget::at(
                area,
                WidgetModel::Frame(
                    widget::round_frame(st_muted(), seq![widget::sp(" Details "@, st_bold())]),
                ),
            ),
            widget::at(
                layout::inner(area, BORDER_ALL),
                WidgetModel::Text(
                    seq![seq![widget::sp("  No packages found."@, st_muted())]],
                ),
            ),
        ]
    } else {
        let i = s.filtered[s.cursor as int];
        package_panel(s.pkgs[i as int], s.marked.contains(i), area)
    }
}

/// The panel that describes the selected package.
pub fn draw_details(app: &App, area: Area) -> (r: Vec<Drawing>)
    requires
        app@.wf(),
    ensures
        text::views(r@) == details_panel(app@, area),
{
    let inside = block_inner(area, BORDER_ALL);
    let mut r: Vec<Drawing> = nothing();
    match app.selected_pkg() {
        None => {
            let title = line1(span(" Details ", st_bold()));
            draw_at(&mut r, area, Widget::Frame(rounded(st_muted(), title)));
            let mut lines: Vec<Line> = nothing();
            push_view(&mut lines, line1(span("  No packages found.", st_muted())));
            draw_at(&mut r, inside, Widget::Text(lines));
        },
        Some(p) => {
            let marked = app.marked.contains(&app.filtered[app.cursor]);
            let orphan = p.is_orphan();
            let flag = if marked {
                span(" ✓ marked ", st_mark())
            } else if orphan {
                span(" ◆ orphan ", st_orphan())
            } else {
                span("", Style::plain())
            };
            let style = if marked {
                Style::of(C_MARK)
            } else if orphan {
                Style::of(C_ORPHAN)
            } else {
                st_muted()
            };
            let title = line2(span(" Details ", st_bold()), flag);
            draw_at(&mut r, area, Widget::Frame(rounded(style, title)));
            draw_at(&mut r, inside, Widget::Text(describe(p, marked, inside.width)));
        },
    }
    r
}

/// A dividing line fills the width.
pub proof fn dividers_fill_the_width(width: u16, k: int)
    ensures
        divider(width).text.len() == width,
        0 <= k < width ==> divider(width).text[k] == '─',
        divider(width).style == Style::of(Color::DarkGray),
{
}

/// A heading is the label in its colour, with two dashes before it and dashes behind
/// it up to two columns before the end of the width, but no fewer than two.
pub proof fn headings_name_their_section(width: u16, label: Seq<char>, col: Color, k: int)
    ensures
        ({
            let h = heading(width, label, col);
            let used = text::byte_len(label) + 9;
            &&& h.len() == 3
            &&& h[0].text == "  ── "@
            &&& h[0].style == Style::of(Color::DarkGray)
            &&& h[1].text == label
            &&& h[1].style == Style::of(col)
            &&& h[2].style == Style::of(Color::DarkGray)
            &&& h[2].text.len() == 3 + if used < width {
                width - used
            } else {
                0
            }
            &&& h[2].text[0] == ' '
            &&& 0 < k < h[2].text.len() ==> h[2].text[k] == '─'
        }),
{
    reveal_strlit("  ── ");
    reveal_strlit("  ");
    reveal_strlit(" ");
    let h = heading(width, label, col);
    assert(h[0].text =~= "  ── "@);
}

/// The description of a package begins with its name, then its version, its size and
/// why it is installed.
pub proof fn details_begin_with_the_package(p: PkgInfo, marked: bool, width: u16)
    ensures
        ({
            let lines = details_lines(p, marked, width);
            let white = Style::of(Color::White);
            let grey = Style::of(Color::DarkGray);
            &&& lines.len() >= 7
            &&& lines[0] == seq![
                SpanModel { text: " ◆ "@, style: Style::of(Color::Cyan).bold() },
                SpanModel { text: p.name@, style: white.bold() },
            ]
            &&& lines[1] == seq![divider(width)]
            &&& lines[2] == Seq::<SpanModel>::empty()
            &&& lines[3] == seq![
                SpanModel { text: "  Version     "@, style: grey },
                SpanModel { text: p.version@, style: white },
            ]
            &&& lines[4] == seq![
                SpanModel { text: "  Size        "@, style: grey },
                SpanModel { text: rounding::size_text(p.size), style: white },
            ]
            &&& lines[5] == seq![
                SpanModel { text: "  Reason      "@, style: grey },
                SpanModel {
                    text: if p.reason == Reason::Explicit {
                        "Explicit"@
                    } else if p.required_by@.len() == 0 {
                        "Dependency (ORPHAN)"@
                    } else {
                        "Dependency"@
                    },
                    style: white,
                },
            ]
            &&& lines[6] == Seq::<SpanModel>::empty()
        }),
{
    lemma_label("Version"@, "  Version     "@, p.version@);
    lemma_label("Size"@, "  Size        "@, rounding::size_text(p.size));
    lemma_label("Reason"@, "  Reason      "@, reason_text(p));
}

proof fn lemma_label(label: Seq<char>, shown: Seq<char>, value: Seq<char>)
    requires
        (label == "Version"@ && shown == "  Version     "@) || (label == "Size"@ && shown
            == "  Size        "@) || (label == "Reason"@ && shown == "  Reason      "@),
    ensures
        labelled(label, value) == seq![
            SpanModel { text: shown, style: Style::of(Color::DarkGray) },
            SpanModel { text: value, style: Style::of(Color::White) },
        ],
{
    reveal_strlit("Version");
    reveal_strlit("  Version     ");
    reveal_strlit("Size");
    reveal_strlit("  Size        ");
    reveal_strlit("Reason");
    reveal_strlit("  Reason      ");
    reveal_strlit("  ");
    reveal_strlit(" ");
    assert("  "@ + text::padded_right(label, 11) + " "@ =~= shown);
}

/// Behind the beginning come the description, the dependencies, what requires the
/// package, and the optional dependencies; a mark adds two lines at the end, and
/// changes nothing else.
pub proof fn details_come_in_order(p: PkgInfo, width: u16)
    ensures
        details_lines(p, false, width).skip(7) == desc_lines(p, width) + names_lines(
            "Dependencies"@,
            text::views(p.depends@),
            width,
            Style::of(Color::DarkGray),
        ) + required_lines(p, width) + optional_lines(p, width),
        details_lines(p, true, width) == details_lines(p, false, width) + seq![
            heading(width, "Queued for removal"@, Color::Red),
            seq![
                SpanModel { text: "  ✓ "@, style: Style::of(Color::Red).bold() },
                SpanModel {
                    text: "Will be removed on [d]"@,
                    style: Style::of(Color::Red).bold(),
                },
            ],
        ],
{
    let head = head_lines(p, width);
    let rest = desc_lines(p, width) + names_lines(
        "Dependencies"@,
        text::views(p.depends@),
        width,
        st_muted(),
    ) + required_lines(p, width) + optional_lines(p, width);
    assert(head.len() == 7);
    assert(details_lines(p, false, width) =~= head + rest);
    assert(details_lines(p, false, width).skip(7) =~= rest);
    assert(details_lines(p, true, width) =~= details_lines(p, false, width) + marked_lines(width));
}

/// The description is set into lines that leave four columns free, each after two
/// spaces; a package without one has no such lines.
pub proof fn descriptions_are_set_into_lines(p: PkgInfo, width: u16, k: int)
    ensures
        ({
            let lines = desc_lines(p, width);
            let free: nat = if width < 4 {
                0
            } else {
                (width - 4) as nat
            };
            let set = text::wrapped(text::words(p.desc@), free);
            &&& p.desc@.len() == 0 ==> lines.len() == 0
            &&& p.desc@.len() > 0 ==> lines.len() == set.len() + 1 && lines.last() == Seq::<
                SpanModel,
            >::empty() && (0 <= k < set.len() ==> lines[k] == seq![
                SpanModel { text: "  "@, style: Style::plain() },
                SpanModel { text: set[k], style: Style::of(Color::DarkGray) },
            ])
        }),
{
}

/// Names under a heading are set into rows that leave four columns free, each after
/// two spaces; where there are none, there is no heading either.
pub proof fn names_are_set_into_rows(
    label: Seq<char>,
    names: Seq<Seq<char>>,
    width: u16,
    style: Style,
    k: int,
)
    ensures
        ({
            let lines = names_lines(label, names, width, style);
            let free: nat = if width < 4 {
                0
            } else {
                (width - 4) as nat
            };
            let set = text::name_rows(names, free);
            &&& names.len() == 0 ==> lines.len() == 0
            &&& names.len() > 0 ==> lines.len() == set.len() + 2 && lines[0] == heading(
                width,
                label,
                Color::Cyan,
            ) && lines.last() == Seq::<SpanModel>::empty() && (0 <= k < set.len() ==> lines[1 + k]
                == seq![
                SpanModel { text: "  "@, style: Style::plain() },
                SpanModel { text: set[k], style },
            ])
        }),
{
}

/// The packages that require one are named, all of them. Of an orphan it is said that
/// there are none; of a package that was asked for nothing is said.
pub proof fn what_requires_a_package_is_named(p: PkgInfo, width: u16)
    ensures
        p.required_by@.len() > 0 ==> required_lines(p, width) == names_lines(
            "Required By"@,
            text::views(p.required_by@),
            width,
            Style::of(Color::Cyan),
        ),
        p.required_by@.len() == 0 && p.reason == Reason::Explicit ==> required_lines(
            p,
            width,
        ).len() == 0,
        p.required_by@.len() == 0 && p.reason == Reason::Depend ==> required_lines(p, width)
            == seq![
            heading(width, "Required By"@, Color::Magenta),
            seq![
                SpanModel { text: "  ◆ "@, style: Style::of(Color::Magenta).bold() },
                SpanModel {
                    text: "Nothing requires this package (safe to remove)"@,
                    style: Style::of(Color::Magenta).bold(),
                },
            ],
            Seq::empty(),
        ],
{
}

/// The first four optional dependencies are named, and the others are counted.
pub proof fn optional_dependencies_are_named(p: PkgInfo, width: u16, k: int)
    ensures
        ({
            let lines = optional_lines(p, width);
            let n = p.optdeps@.len();
            let named: nat = if n < 4 {
                n
            } else {
                4
            };
            let grey = Style::of(Color::DarkGray);
            &&& n == 0 ==> lines.len() == 0
            &&& n > 0 ==> {
                &&& lines.len() == named + 2 + if n > 4 {
                    1int
                } else {
                    0
                }
                &&& lines[0] == heading(width, "Optional"@, Color::Cyan)
                &&& lines.last() == Seq::<SpanModel>::empty()
                &&& 0 <= k < named ==> lines[1 + k] == seq![
                    SpanModel { text: "  + "@, style: grey },
                    SpanModel { text: p.optdeps@[k]@, style: grey },
                ]
                &&& n > 4 ==> lines[5] == seq![
                    SpanModel {
                        text: "  …"@ + text::decimal((n - 4) as nat) + " more"@,
                        style: grey,
                    },
                ]
            }
        }),
{
}

/// Where something is listed, the panel describes the package on the selected row, in
/// full and from its name on, and tells of a mark exactly where that package is marked,
/// and of an orphan exactly where it is one that is not marked.
pub proof fn the_panel_describes_the_selected_row(s: AppModel, area: Area)
    requires
        s.wf(),
        s.filtered.len() > 0,
    ensures
        ({
            let i = s.filtered[s.cursor as int];
            let p = s.pkgs[i as int];
            let marked = s.marked.contains(i);
            let orphan = p.reason == Reason::Depend && p.required_by@.len() == 0;
            let inside = layout::inner(area, BORDER_ALL);
            let panel = details_panel(s, area);
            &&& panel.len() == 2
            &&& panel[0].area == area
            &&& panel[1].area == inside
            &&& panel[1].widget == WidgetModel::Text(details_lines(p, marked, inside.width))
            &&& details_lines(p, marked, inside.width)[0][1].text == p.name@
            &&& panel[0].widget matches WidgetModel::Frame(frame) && frame
                == widget::round_frame(frame.style, frame.title) && frame.title.len() == 2
                && frame.title[0] == (SpanModel {
                text: " Details "@,
                style: Style::plain().bold(),
            }) && frame.title[1] == (if marked {
                SpanModel { text: " ✓ marked "@, style: Style::of(Color::Red).bold() }
            } else if orphan {
                SpanModel { text: " ◆ orphan "@, style: Style::of(Color::Magenta).bold() }
            } else {
                SpanModel { text: ""@, style: Style::plain() }
            }) && frame.style == Style::of(
                if marked {
                    Color::Red
                } else if orphan {
                    Color::Magenta
                } else {
                    Color::DarkGray
                },
            )
        }),
{
    let i = s.filtered[s.cursor as int];
    details_begin_with_the_package(
        s.pkgs[i as int],
        s.marked.contains(i),
        layout::inner(area, BORDER_ALL).width,
    );
}

/// The panel depends on the package on the selected row and on its mark alone: not on
/// where the row stands, nor on the search, the filter, the order or the mode.
pub proof fn the_panel_depends_on_the_selected_row_alone(s: AppModel, t: AppModel, area: Area)
    requires
        s.filtered.len() > 0,
        t.filtered.len() > 0,
        s.pkgs[s.filtered[s.cursor as int] as int] == t.pkgs[t.filtered[t.cursor as int] as int],
        s.marked.contains(s.filtered[s.cursor as int]) == t.marked.contains(
            t.filtered[t.cursor as int],
        ),
    ensures
        details_panel(s, area) == details_panel(t, area),
{
}

/// Where nothing is listed, the panel says so.
pub proof fn an_empty_list_is_told(s: AppModel, area: Area)
    requires
        s.filtered.len() == 0,
    ensures
        ({
            let panel = details_panel(s, area);
            let inside = layout::inner(area, BORDER_ALL);
            &&& panel.len() == 2
            &&& panel[0].area == area
            &&& panel[0].widget == WidgetModel::Frame(
                widget::round_frame(
                    Style::of(Color::DarkGray),
                    seq![SpanModel { text: " Details "@, style: Style::plain().bold() }],
                ),
            )
            &&& panel[1].area == inside
            &&& panel[1].widget == WidgetModel::Text(
                seq![
                    seq![
                        SpanModel {
                            text: "  No packages found."@,
                            style: Style::of(Color::DarkGray),
                        },
                    ],
                ],
            )
        }),
{
}

} // verus!
