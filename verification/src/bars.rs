//! The boxes above the list and the bar below it.

use crate::app::App;
use crate::layout;
use crate::layout::{block_inner, split_columns, Area, Constraint, BORDER_ALL};
use crate::listing;
use crate::mode::{Mode, SortMode};
use crate::model::AppModel;
use crate::rounding;
use crate::rounding::fmt_size;
use crate::style::{
    c_bar_bg, st_accent, st_mark, st_muted, st_orphan, Color, Style, C_ACCENT, C_MUTED, C_ORPHAN,
    C_WARN, C_WHITE,
};
use crate::text;
use crate::text::to_decimal;
use crate::widget;
use crate::widget::{
    draw_at, line0, line1, line2, nothing, rounded, span, span_of, Drawing, DrawingModel, Frame,
    FrameModel, Line, Span, SpanModel, Widget, WidgetModel,
};
use vstd::prelude::*;
use vstd::string::StringExecFns;

verus! {

/// What stands in the search box: a hint, or what has been typed, with a cursor
/// behind it while the search is typed.
pub open spec fn search_line(s: AppModel) -> Seq<SpanModel> {
    if s.query.len() == 0 && !s.searching {
        seq![
            widget::sp(
                if s.show_orphans {
                    " 🔵 orphans only — /search or Esc"@
                } else {
                    "  type / to search…"@
                },
                st_muted(),
            ),
        ]
    } else if s.searching {
        seq![
            widget::sp(" ❯ "@, Style::of(C_ACCENT).bold()),
            widget::sp(s.query, Style::of(C_WHITE).bold()),
            widget::sp("▌"@, st_accent()),
        ]
    } else {
        seq![
            widget::sp(" ❯ "@, Style::of(C_ACCENT).bold()),
            widget::sp(s.query, Style::of(C_WHITE).bold()),
        ]
    }
}

fn typed(app: &App) -> (r: Line)
    ensures
        r@ == search_line(app@),
{
    if app.query.as_str().is_empty() && !app.searching {
        let hint = if app.show_orphans {
            " 🔵 orphans only — /search or Esc"
        } else {
            "  type / to search…"
        };
        return line1(span(hint, st_muted()));
    }
    let line = line2(
        span(" ❯ ", Style::of(C_ACCENT).bold()),
        span(app.query.as_str(), Style::of(C_WHITE).bold()),
    );
    if app.searching {
        line.and(span("▌", st_accent()))
    } else {
        line
    }
}

/// The style of the search box, and that of its name.
pub open spec fn search_styles(searching: bool) -> (Style, Style) {
    if searching {
        (st_accent(), Style::of(C_ACCENT).bold())
    } else {
        (st_muted(), st_muted())
    }
}

/// The frame of the search box.
pub open spec fn search_frame(s: AppModel) -> FrameModel {
    let (border, style) = search_styles(s.searching);
    if s.show_orphans {
        widget::round_frame(
            Style::of(C_ORPHAN),
            seq![widget::sp(" Search "@, style), widget::sp(" orphans "@, st_orphan())],
        )
    } else {
        widget::round_frame(border, seq![widget::sp(" Search "@, style)])
    }
}

fn search_box(app: &App) -> (r: Frame)
    ensures
        r@ == search_frame(app@),
{
    let (border, style) = if app.searching {
        (st_accent(), Style::of(C_ACCENT).bold())
    } else {
        (st_muted(), st_muted())
    };
    let name = span(" Search ", style);
    if app.show_orphans {
        rounded(Style::of(C_ORPHAN), line2(name, span(" orphans ", st_orphan())))
    } else {
        rounded(border, line1(name))
    }
}

/// The colour of the box of the order.
pub open spec fn sort_colour(sort: SortMode) -> Color {
    match sort {
        SortMode::Name => C_MUTED,
        SortMode::Size => C_WARN,
        SortMode::OrphansFirst => C_ORPHAN,
    }
}

/// The three boxes above the list: the search, the order and the removal mode.
pub open spec fn header_panel(s: AppModel, search: Area, sort: Area, mode: Area) -> Seq<
    DrawingModel,
> {
    seq![
        widget::at(search, WidgetModel::Framed(search_line(s), search_frame(s))),
        widget::at(
            sort,
            WidgetModel::Frame(
                widget::round_frame(
                    Style::of(sort_colour(s.sort_mode)),
                    seq![widget::sp(" Sort "@, st_muted())],
                ),
            ),
        ),
        widget::at(
            layout::inner(sort, BORDER_ALL),
            WidgetModel::Centered(
                seq![
                    widget::sp(
                        " "@ + s.sort_mode.label_text() + " "@,
                        Style::of(sort_colour(s.sort_mode)).bold(),
                    ),
                    widget::sp("[s]"@, st_muted()),
                ],
            ),
        ),
        widget::at(
            mode,
            WidgetModel::Frame(
                widget::round_frame(Style::of(s.mode.color()), seq![widget::sp(" Mode "@, st_muted())]),
            ),
        ),
        widget::at(
            layout::inner(mode, BORDER_ALL),
            WidgetModel::Centered(
                seq![
                    widget::sp(
                        " -"@ + s.mode.label_text() + " "@,
                        Style::of(s.mode.color()).bold(),
                    ),
                    widget::sp("1-4"@, st_muted()),
                ],
            ),
        ),
    ]
}

/// The three boxes above the list, each in its area.
pub fn header_in(app: &App, search: Area, sort: Area, mode: Area) -> (r: Vec<Drawing>)
    ensures
        text::views(r@) == header_panel(app@, search, sort, mode),
{
    let sort_col = match app.sort_mode {
        SortMode::Name => C_MUTED,
        SortMode::Size => C_WARN,
        SortMode::OrphansFirst => C_ORPHAN,
    };
    let mode_col = app.mode.color();
    let sort_line = line2(
        span_of(
            " ".to_owned().concat(app.sort_mode.label()).concat(" "),
            Style::of(sort_col).bold(),
        ),
        span("[s]", st_muted()),
    );
    let mode_line = line2(
        span_of(" -".to_owned().concat(app.mode.label()).concat(" "), Style::of(mode_col).bold()),
        span("1-4", st_muted()),
    );
    let mut r: Vec<Drawing> = nothing();
    draw_at(&mut r, search, Widget::Framed(typed(app), search_box(app)));
    draw_at(
        &mut r,
        sort,
        Widget::Frame(rounded(Style::of(sort_col), line1(span(" Sort ", st_muted())))),
    );
    draw_at(&mut r, block_inner(sort, BORDER_ALL), Widget::Centered(sort_line));
    draw_at(
        &mut r,
        mode,
        Widget::Frame(rounded(Style::of(mode_col), line1(span(" Mode ", st_muted())))),
    );
    draw_at(&mut r, block_inner(mode, BORDER_ALL), Widget::Centered(mode_line));
    r
}

/// The widths of the three boxes above the list.
pub open spec fn header_widths() -> Seq<Constraint> {
    seq![Constraint::Min(20), Constraint::Length(14), Constraint::Length(20)]
}

/// Whether `drawings` show the three boxes above the list side by side in `area`.
pub open spec fn is_header(s: AppModel, area: Area, drawings: Seq<DrawingModel>) -> bool {
    exists|h: Seq<Area>|
        h.len() == 3 && #[trigger] layout::may_split(true, area, header_widths(), h) && drawings
            == header_panel(s, h[0], h[1], h[2])
}

/// The three boxes above the list, side by side in `area`.
pub fn draw_header(app: &App, area: Area) -> (r: Vec<Drawing>)
    ensures
        is_header(app@, area, text::views(r@)),
{
    let widths = vec![Constraint::Min(20), Constraint::Length(14), Constraint::Length(20)];
    assert(widths@ =~= header_widths());
    let h = split_columns(area, &widths);
    header_in(app, h[0], h[1], h[2])
}

/// The name of a key.
pub open spec fn key_name(s: Seq<char>) -> SpanModel {
    widget::sp(" "@ + s, st_accent())
}

/// The name of a key.
pub fn kb(s: &str) -> (r: Span)
    ensures
        r@ == key_name(s@),
{
    span_of(" ".to_owned().concat(s), st_accent())
}

/// What a key does.
pub fn hint(s: &str) -> (r: Span)
    ensures
        r@ == widget::sp(s@, st_muted()),
{
    span(s, st_muted())
}

/// The keys and what they do.
pub open spec fn key_hints(s: AppModel) -> Seq<SpanModel> {
    seq![
        key_name("↑↓/jk"@),
        widget::sp(" Nav  "@, st_muted()),
        key_name("Spc"@),
        widget::sp(" Mark  "@, st_muted()),
        key_name("a"@),
        widget::sp(" All  "@, st_muted()),
        key_name("O"@),
        widget::sp(" MarkOrphans  "@, st_muted()),
        key_name("d"@),
        widget::sp(" Delete  "@, st_muted()),
        key_name("/"@),
        widget::sp(" Search  "@, st_muted()),
        key_name("o"@),
        widget::sp(
            if s.show_orphans {
                " Orphans✓  "@
            } else {
                " Orphans  "@
            },
            st_muted(),
        ),
        key_name("s"@),
        widget::sp(" "@ + s.sort_mode.label_text() + " Sort  "@, st_muted()),
        key_name("1-4/Tab"@),
        widget::sp(" "@ + s.mode.label_text() + "  "@, st_muted()),
        key_name("r"@),
        widget::sp(" Refresh  "@, st_muted()),
        key_name("?"@),
        widget::sp(" Help  "@, st_muted()),
        key_name("q"@),
        widget::sp(" Quit"@, st_muted()),
    ]
}

fn keys(app: &App) -> (r: Line)
    ensures
        r@ == key_hints(app@),
{
    let orphans = if app.show_orphans {
        " Orphans✓  "
    } else {
        " Orphans  "
    };
    let sort = " ".to_owned().concat(app.sort_mode.label()).concat(" Sort  ");
    let mode = " ".to_owned().concat(app.mode.label()).concat("  ");
    line0().and(kb("↑↓/jk")).and(hint(" Nav  ")).and(kb("Spc")).and(hint(" Mark  ")).and(
        kb("a"),
    ).and(hint(" All  ")).and(kb("O")).and(hint(" MarkOrphans  ")).and(kb("d")).and(
        hint(" Delete  "),
    ).and(kb("/")).and(hint(" Search  ")).and(kb("o")).and(hint(orphans)).and(kb("s")).and(
        hint(sort.as_str()),
    ).and(kb("1-4/Tab")).and(hint(mode.as_str())).and(kb("r")).and(hint(" Refresh  ")).and(
        kb("?"),
    ).and(hint(" Help  ")).and(kb("q")).and(hint(" Quit"))
}

/// How many orphans there are, where there are any.
pub open spec fn orphan_note(s: AppModel) -> Seq<SpanModel> {
    let n = listing::orphans(s.pkgs);
    if n == 0 {
        Seq::empty()
    } else {
        seq![
            widget::sp("    "@, Style::plain()),
            widget::sp(
                "◆ "@ + text::decimal(n) + " orphan"@ + if n == 1 {
                    ""@
                } else {
                    "s"@
                },
                st_orphan(),
            ),
        ]
    }
}

/// How many packages are marked and how large they are, where there are any.
pub open spec fn marked_note(s: AppModel) -> Seq<SpanModel> {
    if s.marked.len() == 0 {
        Seq::empty()
    } else {
        seq![
            widget::sp("    "@, Style::plain()),
            widget::sp(
                "✓ "@ + text::decimal(s.marked.len()) + "  "@ + rounding::size_text(
                    listing::wrapped(listing::size_sum(s.pkgs, s.marked, s.pkgs.len())) as i64,
                ) + "  queued"@,
                st_mark(),
            ),
        ]
    }
}

/// The bar below the list.
pub open spec fn status_panel(s: AppModel, area: Area) -> Seq<DrawingModel> {
    seq![
        widget::at(
            area,
            WidgetModel::Bar(key_hints(s) + orphan_note(s) + marked_note(s), c_bar_bg()),
        ),
    ]
}

/// The bar below the list.
pub fn draw_statusbar(app: &App, area: Area) -> (r: Vec<Drawing>)
    ensures
        text::views(r@) == status_panel(app@, area),
{
    let marked: usize = app.marked.len();
    let orphans: usize = app.orphan_count();
    let mut line = keys(app);
    if orphans > 0 {
        let plural = if orphans == 1 {
            ""
        } else {
            "s"
        };
        line = line.and(span("    ", Style::plain())).and(
            span_of(
                "◆ ".to_owned().concat(to_decimal(orphans as u128).as_str()).concat(
                    " orphan",
                ).concat(plural),
                st_orphan(),
            ),
        );
    }
    assert(line@ =~= key_hints(app@) + orphan_note(app@));
    if marked > 0 {
        line = line.and(span("    ", Style::plain())).and(
            span_of(
                "✓ ".to_owned().concat(to_decimal(marked as u128).as_str()).concat("  ").concat(
                    fmt_size(app.marked_size()).as_str(),
                ).concat("  queued"),
                st_mark(),
            ),
        );
    }
    assert(line@ =~= key_hints(app@) + orphan_note(app@) + marked_note(app@));
    let mut r: Vec<Drawing> = nothing();
    draw_at(&mut r, area, Widget::Bar(line, c_bar_bg()));
    r
}

/// The search box shows all that has been typed, with a cursor behind it while more
/// can be typed. Where nothing has been typed and nothing can be, it shows a hint.
pub proof fn the_search_box_shows_what_is_typed(s: AppModel)
    ensures
        ({
            let line = search_line(s);
            &&& s.query.len() > 0 || s.searching ==> {
                &&& line.len() == if s.searching {
                    3int
                } else {
                    2
                }
                &&& line[0] == (SpanModel { text: " ❯ "@, style: Style::of(Color::Cyan).bold() })
                &&& line[1] == (SpanModel {
                    text: s.query,
                    style: Style::of(Color::White).bold(),
                })
                &&& s.searching ==> line[2] == (SpanModel {
                    text: "▌"@,
                    style: Style::of(Color::Cyan),
                })
            }
            &&& s.query.len() == 0 && !s.searching ==> line == seq![
                SpanModel {
                    text: if s.show_orphans {
                        " 🔵 orphans only — /search or Esc"@
                    } else {
                        "  type / to search…"@
                    },
                    style: Style::of(Color::DarkGray),
                },
            ]
        }),
{
}

/// The frame of the search box tells of the orphan filter, and stands out while a
/// search is typed.
pub proof fn the_search_box_tells_of_the_filter(s: AppModel)
    ensures
        ({
            let f = search_frame(s);
            &&& f == widget::round_frame(f.style, f.title)
            &&& f.style == Style::of(
                if s.show_orphans {
                    Color::Magenta
                } else if s.searching {
                    Color::Cyan
                } else {
                    Color::DarkGray
                },
            )
            &&& f.title.len() == if s.show_orphans {
                2int
            } else {
                1
            }
            &&& f.title[0] == (SpanModel {
                text: " Search "@,
                style: if s.searching {
                    Style::of(Color::Cyan).bold()
                } else {
                    Style::of(Color::DarkGray)
                },
            })
            &&& s.show_orphans ==> f.title[1] == (SpanModel {
                text: " orphans "@,
                style: Style::of(Color::Magenta).bold(),
            })
        }),
{
}

/// The three boxes show the search, the order and the mode, each in its own area.
pub proof fn the_boxes_show_search_order_and_mode(
    s: AppModel,
    search: Area,
    sort: Area,
    mode: Area,
)
    ensures
        ({
            let d = header_panel(s, search, sort, mode);
            let grey = Style::of(Color::DarkGray);
            let order = match s.sort_mode {
                SortMode::Name => (" Name "@, Color::DarkGray),
                SortMode::Size => (" Size↓ "@, Color::Yellow),
                SortMode::OrphansFirst => (" Orphans↑ "@, Color::Magenta),
            };
            let removal = match s.mode {
                Mode::Simple => (" -R "@, Color::Green),
                Mode::Recursive => (" -Rs "@, Color::Cyan),
                Mode::Full => (" -Rns "@, Color::Yellow),
                Mode::Force => (" -Rdd ⚠ "@, Color::LightRed),
            };
            &&& d.len() == 5
            &&& d[0].area == search
            &&& d[0].widget == WidgetModel::Framed(search_line(s), search_frame(s))
            &&& d[1].area == sort
            &&& d[1].widget == WidgetModel::Frame(
                widget::round_frame(
                    Style::of(order.1),
                    seq![SpanModel { text: " Sort "@, style: grey }],
                ),
            )
            &&& d[2].area == layout::inner(sort, BORDER_ALL)
            &&& d[2].widget == WidgetModel::Centered(
                seq![
                    SpanModel { text: order.0, style: Style::of(order.1).bold() },
                    SpanModel { text: "[s]"@, style: grey },
                ],
            )
            &&& d[3].area == mode
            &&& d[3].widget == WidgetModel::Frame(
                widget::round_frame(
                    Style::of(removal.1),
                    seq![SpanModel { text: " Mode "@, style: grey }],
                ),
            )
            &&& d[4].area == layout::inner(mode, BORDER_ALL)
            &&& d[4].widget == WidgetModel::Centered(
                seq![
                    SpanModel { text: removal.0, style: Style::of(removal.1).bold() },
                    SpanModel { text: "1-4"@, style: grey },
                ],
            )
        }),
{
    lemma_sort_text(s.sort_mode);
    lemma_mode_text(s.mode);
}

proof fn lemma_sort_text(sort: SortMode)
    ensures
        " "@ + sort.label_text() + " "@ == match sort {
            SortMode::Name => " Name "@,
            SortMode::Size => " Size↓ "@,
            SortMode::OrphansFirst => " Orphans↑ "@,
        },
{
    reveal_strlit(" ");
    reveal_strlit("Name");
    reveal_strlit(" Name ");
    reveal_strlit("Size↓");
    reveal_strlit(" Size↓ ");
    reveal_strlit("Orphans↑");
    reveal_strlit(" Orphans↑ ");
    match sort {
        SortMode::Name => assert(" "@ + "Name"@ + " "@ =~= " Name "@),
        SortMode::Size => assert(" "@ + "Size↓"@ + " "@ =~= " Size↓ "@),
        SortMode::OrphansFirst => assert(" "@ + "Orphans↑"@ + " "@ =~= " Orphans↑ "@),
    }
}

proof fn lemma_mode_text(mode: Mode)
    ensures
        " -"@ + mode.label_text() + " "@ == match mode {
            Mode::Simple => " -R "@,
            Mode::Recursive => " -Rs "@,
            Mode::Full => " -Rns "@,
            Mode::Force => " -Rdd ⚠ "@,
        },
{
    reveal_strlit(" ");
    reveal_strlit(" -");
    reveal_strlit("R");
    reveal_strlit(" -R ");
    reveal_strlit("Rs");
    reveal_strlit(" -Rs ");
    reveal_strlit("Rns");
    reveal_strlit(" -Rns ");
    reveal_strlit("Rdd ⚠");
    reveal_strlit(" -Rdd ⚠ ");
    match mode {
        Mode::Simple => assert(" -"@ + "R"@ + " "@ =~= " -R "@),
        Mode::Recursive => assert(" -"@ + "Rs"@ + " "@ =~= " -Rs "@),
        Mode::Full => assert(" -"@ + "Rns"@ + " "@ =~= " -Rns "@),
        Mode::Force => assert(" -"@ + "Rdd ⚠"@ + " "@ =~= " -Rdd ⚠ "@),
    }
}

/// The bar names the keys and what they do, and behind them how many orphans there are
/// and how many packages of which size are marked, where there are any.
pub proof fn the_bar_counts_orphans_and_marks(s: AppModel, area: Area)
    ensures
        ({
            let orphans = listing::orphans(s.pkgs);
            let marked = s.marked.len();
            let gap = SpanModel { text: "    "@, style: Style::plain() };
            let d = status_panel(s, area);
            let first: int = 24;
            let second: int = if orphans > 0 {
                26
            } else {
                24
            };
            &&& d.len() == 1
            &&& d[0].area == area
            &&& d[0].widget matches WidgetModel::Bar(line, bg) && bg == Color::Rgb(15, 15, 22)
                && line.len() == second + (if marked > 0 {
                2int
            } else {
                0
            }) && line.take(first) == key_hints(s) && (orphans > 0 ==> line[first] == gap
                && line[first + 1] == (SpanModel {
                text: if orphans == 1 {
                    "◆ "@ + text::decimal(orphans) + " orphan"@
                } else {
                    "◆ "@ + text::decimal(orphans) + " orphan"@ + "s"@
                },
                style: Style::of(Color::Magenta).bold(),
            })) && (marked > 0 ==> line[second] == gap && line[second + 1] == (SpanModel {
                text: "✓ "@ + text::decimal(marked) + "  "@ + rounding::size_text(
                    listing::wrapped(listing::size_sum(s.pkgs, s.marked, s.pkgs.len())) as i64,
                ) + "  queued"@,
                style: Style::of(Color::Red).bold(),
            }))
        }),
{
    let orphans = listing::orphans(s.pkgs);
    reveal_strlit("");
    if orphans == 1 {
        assert("◆ "@ + text::decimal(orphans) + " orphan"@ + ""@ =~= "◆ "@ + text::decimal(orphans)
            + " orphan"@);
    }
    let line = key_hints(s) + orphan_note(s) + marked_note(s);
    assert(line.take(24) =~= key_hints(s));
}

/// Each key of the bar stands before what it does.
pub proof fn the_bar_names_the_keys(s: AppModel, k: int)
    requires
        0 <= k < 12,
    ensures
        ({
            let keys = seq![
                "↑↓/jk"@,
                "Spc"@,
                "a"@,
                "O"@,
                "d"@,
                "/"@,
                "o"@,
                "s"@,
                "1-4/Tab"@,
                "r"@,
                "?"@,
                "q"@,
            ];
            let hints = seq![
                " Nav  "@,
                " Mark  "@,
                " All  "@,
                " MarkOrphans  "@,
                " Delete  "@,
                " Search  "@,
                if s.show_orphans {
                    " Orphans✓  "@
                } else {
                    " Orphans  "@
                },
                " "@ + s.sort_mode.label_text() + " Sort  "@,
                " "@ + s.mode.label_text() + "  "@,
                " Refresh  "@,
                " Help  "@,
                " Quit"@,
            ];
            &&& key_hints(s).len() == 24
            &&& key_hints(s)[2 * k] == (SpanModel {
                text: " "@ + keys[k],
                style: Style::of(Color::Cyan),
            })
            &&& key_hints(s)[2 * k + 1] == (SpanModel {
                text: hints[k],
                style: Style::of(Color::DarkGray),
            })
        }),
{
}

} // verus!
