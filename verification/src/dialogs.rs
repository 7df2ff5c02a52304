//! The dialogs, and the screen that shows how a removal goes on.

use crate::details;
use crate::details::hdivider;
use crate::layout;
use crate::layout::{
    block_inner, centered_rect, split_rows, Area, Constraint, BORDER_ALL, BORDER_TOP,
};
use crate::rounding;
use crate::rounding::fmt_size;
use crate::style::{
    c_gauge_bg, c_mod_bg, st_accent, st_bold, st_danger, st_muted, st_warn, Color, Style,
    C_ACCENT, C_DANGER, C_SUCCESS, C_WARN, C_WHITE,
};
use crate::text;
use crate::text::{append_views, pad_right, push_view, same, to_decimal, trim};
use crate::widget;
use crate::widget::{
    bullets, draw_at, line0, line1, line2, nothing, span, span_of, BorderKind, Drawing,
    DrawingModel, Frame, FrameModel, Line, SpanModel, Widget, WidgetModel,
};
use vstd::prelude::*;
use vstd::string::StringExecFns;

verus! {

/// The frame of a dialog.
pub open spec fn dialog_frame(kind: BorderKind, style: Style, title: SpanModel) -> FrameModel {
    FrameModel { borders: BORDER_ALL, kind, style, bg: Some(c_mod_bg()), title: seq![title] }
}

fn framed(kind: BorderKind, style: Style, title: &str, title_style: Style) -> (r: Frame)
    ensures
        r@ == dialog_frame(kind, style, widget::sp(title@, title_style)),
{
    Frame {
        borders: BORDER_ALL,
        kind,
        style,
        bg: Some(c_mod_bg()),
        title: line1(span(title, title_style)),
    }
}

/// A dialog in front of what is on the screen: the lines in a frame.
pub open spec fn dialog(area: Area, frame: FrameModel, lines: Seq<Seq<SpanModel>>) -> Seq<
    DrawingModel,
> {
    seq![
        widget::at(area, WidgetModel::Clear),
        widget::at(area, WidgetModel::Frame(frame)),
        widget::at(layout::inner(area, BORDER_ALL), WidgetModel::Text(lines)),
    ]
}

fn open_dialog(area: Area, frame: Frame, lines: Vec<Line>) -> (r: Vec<Drawing>)
    ensures
        text::views(r@) == dialog(area, frame@, text::views(lines@)),
{
    let mut r: Vec<Drawing> = nothing();
    draw_at(&mut r, area, Widget::Clear);
    draw_at(&mut r, area, Widget::Frame(frame));
    draw_at(&mut r, block_inner(area, BORDER_ALL), Widget::Text(lines));
    r
}

/// The lines on the packages that are to be removed, each of which is named.
pub open spec fn target_lines(targets: Seq<Seq<char>>) -> Seq<Seq<SpanModel>> {
    let head = seq![
        Seq::empty(),
        seq![
            widget::sp("  The following packages will be "@, st_muted()),
            widget::sp("permanently removed:"@, Style::of(C_DANGER).bold()),
        ],
        Seq::empty(),
    ];
    let bullet = widget::sp("  ✗ "@, Style::of(C_DANGER));
    head + widget::bulleted(bullet, targets, Style::of(C_WHITE).bold())
}

fn list_targets(targets: &Vec<String>) -> (r: Vec<Line>)
    ensures
        text::views(r@) == target_lines(text::views(targets@)),
{
    let ghost all = text::views(targets@);
    let mut r: Vec<Line> = nothing();
    push_view(&mut r, line0());
    push_view(
        &mut r,
        line2(
            span("  The following packages will be ", st_muted()),
            span("permanently removed:", Style::of(C_DANGER).bold()),
        ),
    );
    push_view(&mut r, line0());
    append_views(
        &mut r,
        bullets(
            "  ✗ ",
            Style::of(C_DANGER),
            targets,
            0,
            targets.len(),
            Style::of(C_WHITE).bold(),
        ),
    );
    assert(all.subrange(0, all.len() as int) =~= all);
    r
}

/// The lines on how much a removal frees, and on its warnings.
pub open spec fn freed_lines(freed: i64, warnings: Seq<Seq<char>>, width: u16) -> Seq<
    Seq<SpanModel>,
> {
    let head = seq![
        Seq::empty(),
        seq![details::divider(width)],
        Seq::empty(),
        seq![
            widget::sp("  Total freed:  "@, st_muted()),
            widget::sp(rounding::size_text(freed), Style::of(C_SUCCESS).bold()),
        ],
    ];
    if warnings.len() == 0 {
        head
    } else {
        head.push(Seq::empty()) + widget::bulleted(
            widget::sp("  ⚠  "@, st_warn()),
            warnings,
            st_warn(),
        )
    }
}

fn list_warnings(freed: i64, warnings: &Vec<String>, width: u16) -> (r: Vec<Line>)
    ensures
        text::views(r@) == freed_lines(freed, text::views(warnings@), width),
{
    let ghost all = text::views(warnings@);
    let mut r: Vec<Line> = nothing();
    push_view(&mut r, line0());
    push_view(&mut r, line1(hdivider(width)));
    push_view(&mut r, line0());
    push_view(
        &mut r,
        line2(
            span("  Total freed:  ", st_muted()),
            span_of(fmt_size(freed), Style::of(C_SUCCESS).bold()),
        ),
    );
    if !warnings.is_empty() {
        push_view(&mut r, line0());
        append_views(
            &mut r,
            bullets("  ⚠  ", st_warn(), warnings, 0, warnings.len(), st_warn()),
        );
        assert(all.subrange(0, all.len() as int) =~= all);
    }
    r
}

/// The style of what has been typed.
pub open spec fn input_style(input: Seq<char>) -> Style {
    if text::trimmed(input) == "yes"@ {
        Style::of(C_SUCCESS).bold()
    } else {
        Style::of(C_ACCENT)
    }
}

/// The line on which the answer is typed.
pub open spec fn input_line(input: Seq<char>) -> Seq<SpanModel> {
    seq![
        widget::sp("  Type "@, st_muted()),
        widget::sp("yes"@, Style::of(C_DANGER).bold()),
        widget::sp(" to confirm: "@, st_muted()),
        widget::sp("[ "@ + input + "▌]"@, input_style(input)),
    ]
}

fn answer(input: &str) -> (r: Line)
    ensures
        r@ == input_line(input@),
{
    let style = if same(trim(input).as_str(), "yes") {
        Style::of(C_SUCCESS).bold()
    } else {
        Style::of(C_ACCENT)
    };
    assert(style == input_style(input@));
    line0().and(span("  Type ", st_muted())).and(span("yes", Style::of(C_DANGER).bold())).and(
        span(" to confirm: ", st_muted()),
    ).and(span_of("[ ".to_owned().concat(input).concat("▌]"), style))
}

/// The line on the two keys that close the dialog.
pub open spec fn choice_line() -> Seq<SpanModel> {
    seq![
        widget::sp("  Esc"@, st_accent()),
        widget::sp("  Cancel        "@, st_muted()),
        widget::sp("Enter"@, st_accent()),
        widget::sp("  Confirm"@, st_muted()),
    ]
}

fn choices() -> (r: Line)
    ensures
        r@ == choice_line(),
{
    line0().and(span("  Esc", st_accent())).and(span("  Cancel        ", st_muted())).and(
        span("Enter", st_accent()),
    ).and(span("  Confirm", st_muted()))
}

/// The lines on what has been typed, which stands out once it confirms the
/// removal.
pub open spec fn input_lines(input: Seq<char>, width: u16) -> Seq<Seq<SpanModel>> {
    seq![
        Seq::empty(),
        seq![details::divider(width)],
        Seq::empty(),
        input_line(input),
        Seq::empty(),
        choice_line(),
    ]
}

fn show_input(input: &str, width: u16) -> (r: Vec<Line>)
    ensures
        text::views(r@) == input_lines(input@, width),
{
    let mut r: Vec<Line> = nothing();
    push_view(&mut r, line0());
    push_view(&mut r, line1(hdivider(width)));
    push_view(&mut r, line0());
    push_view(&mut r, answer(input));
    push_view(&mut r, line0());
    push_view(&mut r, choices());
    r
}

/// The dialog in which a removal is confirmed, on a screen of the size `screen`.
pub open spec fn confirm_panel(
    screen: Area,
    targets: Seq<Seq<char>>,
    freed: i64,
    warnings: Seq<Seq<char>>,
    input: Seq<char>,
) -> Seq<DrawingModel> {
    let area = layout::centered(64, 72, screen);
    let width = layout::inner(area, BORDER_ALL).width;
    dialog(
        area,
        dialog_frame(
            BorderKind::Double,
            Style::of(C_WARN),
            widget::sp(" ⚠  CONFIRM REMOVAL "@, Style::of(C_WARN).bold()),
        ),
        target_lines(targets) + freed_lines(freed, warnings, width) + input_lines(input, width),
    )
}

/// The dialog in which a removal is confirmed.
pub fn draw_confirm(
    screen: Area,
    targets: &Vec<String>,
    freed: i64,
    warnings: &Vec<String>,
    input: &str,
) -> (r: Vec<Drawing>)
    ensures
        text::views(r@) == confirm_panel(
            screen,
            text::views(targets@),
            freed,
            text::views(warnings@),
            input@,
        ),
{
    let area = centered_rect(64, 72, screen);
    let width: u16 = block_inner(area, BORDER_ALL).width;
    let mut lines = list_targets(targets);
    append_views(&mut lines, list_warnings(freed, warnings, width));
    append_views(&mut lines, show_input(input, width));
    open_dialog(
        area,
        framed(
            BorderKind::Double,
            Style::of(C_WARN),
            " ⚠  CONFIRM REMOVAL ",
            Style::of(C_WARN).bold(),
        ),
        lines,
    )
}

/// The last lines of the log, as many as `height` rows hold.
pub open spec fn log_lines(log: Seq<Seq<char>>, height: u16) -> Seq<Seq<SpanModel>> {
    widget::bulleted(
        widget::sp("  → "@, st_accent()),
        log.skip(details::minus(log.len(), height as nat) as int),
        st_muted(),
    )
}

/// What the frame of a removal holds: the package, the progress bar and the log.
pub open spec fn progress_panel(
    progress: u8,
    current: Seq<char>,
    log: Seq<Seq<char>>,
    name: Area,
    bar: Area,
    rest: Area,
) -> Seq<DrawingModel> {
    let inside = layout::inner(rest, BORDER_TOP);
    seq![
        widget::at(
            name,
            WidgetModel::Text(
                seq![
                    seq![
                        widget::sp("  Removing: "@, st_muted()),
                        widget::sp(current, Style::of(C_WHITE).bold()),
                    ],
                ],
            ),
        ),
        widget::at(
            bar,
            WidgetModel::Gauge(
                Style::of(C_ACCENT).on(c_gauge_bg()),
                progress,
                " "@ + text::decimal(progress as nat) + "% "@,
            ),
        ),
        widget::at(
            rest,
            WidgetModel::Frame(
                FrameModel {
                    borders: BORDER_TOP,
                    kind: BorderKind::Plain,
                    style: st_muted(),
                    bg: None,
                    title: seq![widget::sp(" Log "@, st_muted())],
                },
            ),
        ),
        widget::at(inside, WidgetModel::Text(log_lines(log, inside.height))),
    ]
}

/// What the frame of a removal holds, each part in its area.
pub fn progress_in(
    progress: u8,
    current: &str,
    log: &Vec<String>,
    name: Area,
    bar: Area,
    rest: Area,
) -> (r: Vec<Drawing>)
    ensures
        text::views(r@) == progress_panel(
            progress,
            current@,
            text::views(log@),
            name,
            bar,
            rest,
        ),
{
    let inside = block_inner(rest, BORDER_TOP);
    let mut first: Vec<Line> = nothing();
    push_view(
        &mut first,
        line2(span("  Removing: ", st_muted()), span(current, Style::of(C_WHITE).bold())),
    );
    let n: usize = log.len();
    let from: usize = n.saturating_sub(inside.height as usize);
    assert(text::views(log@).skip(from as int) =~= text::views(log@).subrange(
        from as int,
        n as int,
    ));
    let lines = bullets("  → ", st_accent(), log, from, n, st_muted());
    let mut r: Vec<Drawing> = nothing();
    draw_at(&mut r, name, Widget::Text(first));
    draw_at(
        &mut r,
        bar,
        Widget::Gauge(
            Style::of(C_ACCENT).on(c_gauge_bg()),
            progress,
            " ".to_owned().concat(to_decimal(progress as u128).as_str()).concat("% "),
        ),
    );
    draw_at(
        &mut r,
        rest,
        Widget::Frame(
            Frame {
                borders: BORDER_TOP,
                kind: BorderKind::Plain,
                style: st_muted(),
                bg: None,
                title: line1(span(" Log ", st_muted())),
            },
        ),
    );
    draw_at(&mut r, inside, Widget::Text(lines));
    r
}

/// The heights of the parts of a removal's frame.
pub open spec fn removing_heights() -> Seq<Constraint> {
    seq![
        Constraint::Length(1),
        Constraint::Length(1),
        Constraint::Length(1),
        Constraint::Length(1),
        Constraint::Min(4),
    ]
}

/// The frame of a removal, over the whole screen.
pub open spec fn removing_frame() -> FrameModel {
    dialog_frame(
        BorderKind::Double,
        st_danger(),
        widget::sp(" ✗  REMOVING PACKAGES "@, Style::of(C_DANGER).bold()),
    )
}

/// Whether `drawings` show on `screen` how a removal goes on.
pub open spec fn is_removing(
    screen: Area,
    progress: u8,
    current: Seq<char>,
    log: Seq<Seq<char>>,
    drawings: Seq<DrawingModel>,
) -> bool {
    exists|v: Seq<Area>|
        v.len() == 5 && #[trigger] layout::may_split(
            false,
            layout::inner(screen, BORDER_ALL),
            removing_heights(),
            v,
        ) && drawings == seq![widget::at(screen, WidgetModel::Frame(removing_frame()))]
            + progress_panel(progress, current, log, v[0], v[2], v[4])
}

/// The screen that shows how a removal goes on.
pub fn draw_removing(screen: Area, progress: u8, current: &str, log: &Vec<String>) -> (r: Vec<
    Drawing,
>)
    ensures
        is_removing(screen, progress, current@, text::views(log@), text::views(r@)),
{
    let heights = vec![
        Constraint::Length(1),
        Constraint::Length(1),
        Constraint::Length(1),
        Constraint::Length(1),
        Constraint::Min(4),
    ];
    assert(heights@ =~= removing_heights());
    let v = split_rows(block_inner(screen, BORDER_ALL), &heights);
    let mut r: Vec<Drawing> = nothing();
    draw_at(
        &mut r,
        screen,
        Widget::Frame(
            framed(
                BorderKind::Double,
                st_danger(),
                " ✗  REMOVING PACKAGES ",
                Style::of(C_DANGER).bold(),
            ),
        ),
    );
    append_views(&mut r, progress_in(progress, current, log, v[0], v[2], v[4]));
    r
}

/// The title of the dialog that tells how something has ended, and its colour.
pub open spec fn outcome(success: bool) -> (Seq<char>, Color) {
    if success {
        (" ✓  DONE "@, C_SUCCESS)
    } else {
        (" ✗  ERROR "@, C_DANGER)
    }
}

/// The lines that tell how something has ended.
pub open spec fn finished_lines(message: Seq<char>) -> Seq<Seq<SpanModel>> {
    seq![
        Seq::empty(),
        seq![widget::sp("  "@, Style::plain()), widget::sp(message, st_muted())],
        Seq::empty(),
        seq![widget::sp("  Press any key to return."@, st_muted())],
    ]
}

fn tell(message: &str) -> (r: Vec<Line>)
    ensures
        text::views(r@) == finished_lines(message@),
{
    let mut r: Vec<Line> = nothing();
    push_view(&mut r, line0());
    push_view(&mut r, line2(span("  ", Style::plain()), span(message, st_muted())));
    push_view(&mut r, line0());
    push_view(&mut r, line1(span("  Press any key to return.", st_muted())));
    r
}

/// The dialog that tells how a removal or a dry run has ended.
pub open spec fn finished_panel(screen: Area, success: bool, message: Seq<char>) -> Seq<
    DrawingModel,
> {
    let (title, col) = outcome(success);
    dialog(
        layout::centered(54, 28, screen),
        dialog_frame(
            BorderKind::Rounded,
            Style::of(col),
            widget::sp(title, Style::of(col).bold()),
        ),
        finished_lines(message),
    )
}

/// The dialog that tells how a removal or a dry run has ended.
pub fn draw_finished(screen: Area, success: bool, message: &str) -> (r: Vec<Drawing>)
    ensures
        text::views(r@) == finished_panel(screen, success, message@),
{
    let (title, col) = if success {
        (" ✓  DONE ", C_SUCCESS)
    } else {
        (" ✗  ERROR ", C_DANGER)
    };
    assert((title@, col) == outcome(success));
    open_dialog(
        centered_rect(54, 28, screen),
        framed(BorderKind::Rounded, Style::of(col), title, Style::of(col).bold()),
        tell(message),
    )
}

/// A line of the help: a key and what it does.
pub open spec fn help_row(key: Seq<char>, desc: Seq<char>) -> Seq<SpanModel> {
    seq![
        widget::sp("  "@ + text::padded_right(key, 10), Style::of(C_ACCENT).bold()),
        widget::sp(desc, Style::of(C_WHITE)),
    ]
}

fn row(key: &str, desc: &str) -> (r: Line)
    ensures
        r@ == help_row(key@, desc@),
{
    line2(
        span_of(
            "  ".to_owned().concat(pad_right(key, 10).as_str()),
            Style::of(C_ACCENT).bold(),
        ),
        span(desc, Style::of(C_WHITE)),
    )
}

/// A heading of the help.
pub open spec fn help_heading(label: Seq<char>) -> Seq<SpanModel> {
    seq![widget::sp("  "@ + label, st_bold())]
}

fn section(label: &str) -> (r: Line)
    ensures
        r@ == help_heading(label@),
{
    line1(span_of("  ".to_owned().concat(label), st_bold()))
}

/// The help on moving and selecting.
pub open spec fn help_on_the_list() -> Seq<Seq<SpanModel>> {
    seq![
        Seq::empty(),
        help_heading("Navigation"@),
        help_row("↑↓ / j k"@, "Move selection"@),
        help_row("PgUp/PgDn"@, "Move 10 rows"@),
        help_row("g / Home"@, "Jump to top"@),
        help_row("G / End"@, "Jump to bottom"@),
        help_row("/"@, "Search packages"@),
        help_row("Esc"@, "Clear search / orphan filter"@),
        Seq::empty(),
        help_heading("Selection"@),
        help_row("Space"@, "Toggle mark on selected package"@),
        help_row("a"@, "Mark/unmark all visible packages"@),
        help_row("O"@, "Mark all orphans (quick cleanup)"@),
        Seq::empty(),
    ]
}

fn explain_list() -> (r: Vec<Line>)
    ensures
        text::views(r@) == help_on_the_list(),
{
    let mut r: Vec<Line> = nothing();
    push_view(&mut r, line0());
    push_view(&mut r, section("Navigation"));
    push_view(&mut r, row("↑↓ / j k", "Move selection"));
    push_view(&mut r, row("PgUp/PgDn", "Move 10 rows"));
    push_view(&mut r, row("g / Home", "Jump to top"));
    push_view(&mut r, row("G / End", "Jump to bottom"));
    push_view(&mut r, row("/", "Search packages"));
    push_view(&mut r, row("Esc", "Clear search / orphan filter"));
    push_view(&mut r, line0());
    push_view(&mut r, section("Selection"));
    push_view(&mut r, row("Space", "Toggle mark on selected package"));
    push_view(&mut r, row("a", "Mark/unmark all visible packages"));
    push_view(&mut r, row("O", "Mark all orphans (quick cleanup)"));
    push_view(&mut r, line0());
    r
}

/// The help on the rest.
pub open spec fn help_on_the_rest() -> Seq<Seq<SpanModel>> {
    seq![
        help_heading("View"@),
        help_row("o"@, "Toggle orphans-only filter"@),
        help_row("s"@, "Cycle sort mode"@),
        help_row("r"@, "Refresh package list"@),
        Seq::empty(),
        help_heading("Removal"@),
        help_row("1-4"@, "Set mode: R / Rs / Rns / Rdd"@),
        help_row("Tab"@, "Cycle removal mode"@),
        help_row("d"@, "Dry-run & open confirmation"@),
        Seq::empty(),
        help_heading("Other"@),
        help_row("?"@, "Toggle this help screen"@),
        help_row("q"@, "Quit"@),
        help_row("Ctrl+C"@, "Force quit"@),
        Seq::empty(),
        seq![widget::sp("  Press any key to close."@, st_muted())],
    ]
}

fn explain_rest() -> (r: Vec<Line>)
    ensures
        text::views(r@) == help_on_the_rest(),
{
    let mut r: Vec<Line> = nothing();
    push_view(&mut r, section("View"));
    push_view(&mut r, row("o", "Toggle orphans-only filter"));
    push_view(&mut r, row("s", "Cycle sort mode"));
    push_view(&mut r, row("r", "Refresh package list"));
    push_view(&mut r, line0());
    push_view(&mut r, section("Removal"));
    push_view(&mut r, row("1-4", "Set mode: R / Rs / Rns / Rdd"));
    push_view(&mut r, row("Tab", "Cycle removal mode"));
    push_view(&mut r, row("d", "Dry-run & open confirmation"));
    push_view(&mut r, line0());
    push_view(&mut r, section("Other"));
    push_view(&mut r, row("?", "Toggle this help screen"));
    push_view(&mut r, row("q", "Quit"));
    push_view(&mut r, row("Ctrl+C", "Force quit"));
    push_view(&mut r, line0());
    push_view(&mut r, line1(span("  Press any key to close.", st_muted())));
    r
}

/// The help.
pub open spec fn help_panel(screen: Area) -> Seq<DrawingModel> {
    dialog(
        layout::centered(60, 80, screen),
        dialog_frame(
            BorderKind::Rounded,
            st_accent(),
            widget::sp(" ?  HELP "@, Style::of(C_ACCENT).bold()),
        ),
        help_on_the_list() + help_on_the_rest(),
    )
}

/// The help.
pub fn draw_help(screen: Area) -> (r: Vec<Drawing>)
    ensures
        text::views(r@) == help_panel(screen),
{
    let mut lines = explain_list();
    append_views(&mut lines, explain_rest());
    open_dialog(
        centered_rect(60, 80, screen),
        framed(BorderKind::Rounded, st_accent(), " ?  HELP ", Style::of(C_ACCENT).bold()),
        lines,
    )
}

/// The dialog in which a removal is confirmed clears its area and has a frame and
/// lines in it. The lines name all packages, in order; then they tell what is freed;
/// then they hold all warnings, in order; and then what has been typed.
pub proof fn the_confirmation_tells_all(
    screen: Area,
    targets: Seq<Seq<char>>,
    freed: i64,
    warnings: Seq<Seq<char>>,
    input: Seq<char>,
    k: int,
)
    ensures
        ({
            let d = confirm_panel(screen, targets, freed, warnings, input);
            let area = layout::centered(64, 72, screen);
            let inside = layout::inner(area, BORDER_ALL);
            let n = targets.len() as int;
            let w = warnings.len() as int;
            let grey = Style::of(Color::DarkGray);
            let red = Style::of(Color::LightRed);
            let none = Seq::<SpanModel>::empty();
            let end: int = if w == 0 {
                n + 7
            } else {
                n + 8 + w
            };
            &&& d.len() == 3
            &&& d[0].area == area && d[0].widget == WidgetModel::Clear
            &&& d[1].area == area
            &&& d[1].widget == WidgetModel::Frame(
                FrameModel {
                    borders: BORDER_ALL,
                    kind: BorderKind::Double,
                    style: Style::of(Color::Yellow),
                    bg: Some(Color::Rgb(10, 10, 18)),
                    title: seq![
                        SpanModel {
                            text: " ⚠  CONFIRM REMOVAL "@,
                            style: Style::of(Color::Yellow).bold(),
                        },
                    ],
                },
            )
            &&& d[2].area == inside
            &&& d[2].widget matches WidgetModel::Text(lines) && ({
                &&& lines.len() == end + 6
                &&& lines[0] == none && lines[2] == none
                &&& lines[1] == seq![
                    SpanModel { text: "  The following packages will be "@, style: grey },
                    SpanModel { text: "permanently removed:"@, style: red.bold() },
                ]
                &&& 0 <= k < n ==> lines[3 + k] == seq![
                    SpanModel { text: "  ✗ "@, style: red },
                    SpanModel { text: targets[k], style: Style::of(Color::White).bold() },
                ]
                &&& lines[n + 3] == none && lines[n + 5] == none
                &&& lines[n + 4] == seq![details::divider(inside.width)]
                &&& lines[n + 6] == seq![
                    SpanModel { text: "  Total freed:  "@, style: grey },
                    SpanModel {
                        text: rounding::size_text(freed),
                        style: Style::of(Color::Green).bold(),
                    },
                ]
                &&& w > 0 ==> lines[n + 7] == none
                &&& 0 <= k < w ==> lines[n + 8 + k] == seq![
                    SpanModel { text: "  ⚠  "@, style: Style::of(Color::Yellow) },
                    SpanModel { text: warnings[k], style: Style::of(Color::Yellow) },
                ]
                &&& lines[end] == none && lines[end + 2] == none && lines[end + 4] == none
                &&& lines[end + 1] == seq![details::divider(inside.width)]
                &&& lines[end + 3] == seq![
                    SpanModel { text: "  Type "@, style: grey },
                    SpanModel { text: "yes"@, style: red.bold() },
                    SpanModel { text: " to confirm: "@, style: grey },
                    SpanModel {
                        text: "[ "@ + input + "▌]"@,
                        style: if text::trimmed(input) == "yes"@ {
                            Style::of(Color::Green).bold()
                        } else {
                            Style::of(Color::Cyan)
                        },
                    },
                ]
                &&& lines[end + 5] == seq![
                    SpanModel { text: "  Esc"@, style: Style::of(Color::Cyan) },
                    SpanModel { text: "  Cancel        "@, style: grey },
                    SpanModel { text: "Enter"@, style: Style::of(Color::Cyan) },
                    SpanModel { text: "  Confirm"@, style: grey },
                ]
            })
        }),
{
    let width = layout::inner(layout::centered(64, 72, screen), BORDER_ALL).width;
    let a = target_lines(targets);
    let b = freed_lines(freed, warnings, width);
    let c = input_lines(input, width);
    let lines = a + b + c;
    let n = targets.len() as int;
    let w = warnings.len() as int;
    assert(a.len() == n + 3);
    assert(b.len() == if w == 0 {
        4
    } else {
        5 + w
    });
    assert(c.len() == 6);
    if 0 <= k < n {
        assert(lines[3 + k] == a[3 + k]);
    }
    if 0 <= k < w {
        assert(lines[n + 8 + k] == b[5 + k]);
    }
    assert(confirm_panel(screen, targets, freed, warnings, input)[2].widget
        == WidgetModel::Text(lines));
}

/// The log shows its latest lines, as many as there are rows, the latest at the bottom.
pub proof fn the_log_shows_the_latest_lines(log: Seq<Seq<char>>, height: u16, k: int)
    ensures
        ({
            let lines = log_lines(log, height);
            &&& lines.len() == if log.len() < height {
                log.len() as int
            } else {
                height as int
            }
            &&& 0 <= k < lines.len() ==> lines[k] == seq![
                SpanModel { text: "  → "@, style: Style::of(Color::Cyan) },
                SpanModel {
                    text: log[log.len() - lines.len() + k],
                    style: Style::of(Color::DarkGray),
                },
            ]
        }),
{
}

/// A removal shows the package, the progress as a bar and as a number, and the log.
pub proof fn a_removal_shows_its_progress(
    progress: u8,
    current: Seq<char>,
    log: Seq<Seq<char>>,
    name: Area,
    bar: Area,
    rest: Area,
)
    ensures
        ({
            let d = progress_panel(progress, current, log, name, bar, rest);
            let inside = layout::inner(rest, BORDER_TOP);
            let grey = Style::of(Color::DarkGray);
            &&& d.len() == 4
            &&& d[0].area == name
            &&& d[0].widget == WidgetModel::Text(
                seq![
                    seq![
                        SpanModel { text: "  Removing: "@, style: grey },
                        SpanModel { text: current, style: Style::of(Color::White).bold() },
                    ],
                ],
            )
            &&& d[1].area == bar
            &&& d[1].widget == WidgetModel::Gauge(
                Style::of(Color::Cyan).on(Color::Rgb(30, 30, 30)),
                progress,
                " "@ + text::decimal(progress as nat) + "% "@,
            )
            &&& d[2].area == rest
            &&& d[2].widget == WidgetModel::Frame(
                FrameModel {
                    borders: BORDER_TOP,
                    kind: BorderKind::Plain,
                    style: grey,
                    bg: None,
                    title: seq![SpanModel { text: " Log "@, style: grey }],
                },
            )
            &&& d[3].area == inside
            &&& d[3].widget == WidgetModel::Text(log_lines(log, inside.height))
        }),
{
}

/// What is drawn of a removal: a frame round the whole screen, and below each other in
/// it the package, the progress bar and the log, each with a row between.
pub proof fn a_removal_fills_the_screen(
    screen: Area,
    progress: u8,
    current: Seq<char>,
    log: Seq<Seq<char>>,
    drawings: Seq<DrawingModel>,
)
    requires
        is_removing(screen, progress, current, log, drawings),
    ensures
        removing_heights() == seq![
            Constraint::Length(1),
            Constraint::Length(1),
            Constraint::Length(1),
            Constraint::Length(1),
            Constraint::Min(4),
        ],
        drawings.len() == 5,
        drawings[0].area == screen,
        drawings[0].widget == WidgetModel::Frame(
            FrameModel {
                borders: BORDER_ALL,
                kind: BorderKind::Double,
                style: Style::of(Color::LightRed).bold(),
                bg: Some(Color::Rgb(10, 10, 18)),
                title: seq![
                    SpanModel {
                        text: " ✗  REMOVING PACKAGES "@,
                        style: Style::of(Color::LightRed).bold(),
                    },
                ],
            },
        ),
        exists|v: Seq<Area>|
            v.len() == 5 && #[trigger] layout::may_split(
                false,
                layout::inner(screen, BORDER_ALL),
                removing_heights(),
                v,
            ) && drawings.skip(1) == progress_panel(progress, current, log, v[0], v[2], v[4]),
{
    let v = choose|v: Seq<Area>|
        v.len() == 5 && #[trigger] layout::may_split(
            false,
            layout::inner(screen, BORDER_ALL),
            removing_heights(),
            v,
        ) && drawings == seq![widget::at(screen, WidgetModel::Frame(removing_frame()))]
            + progress_panel(progress, current, log, v[0], v[2], v[4]);
    assert(drawings.skip(1) =~= progress_panel(progress, current, log, v[0], v[2], v[4]));
}

/// The dialog at the end shows the whole message, and by its title and its colour
/// whether all went well.
pub proof fn the_end_shows_the_message(screen: Area, success: bool, message: Seq<char>)
    ensures
        ({
            let d = finished_panel(screen, success, message);
            let area = layout::centered(54, 28, screen);
            let color = if success {
                Color::Green
            } else {
                Color::LightRed
            };
            let grey = Style::of(Color::DarkGray);
            &&& d.len() == 3
            &&& d[0].area == area && d[0].widget == WidgetModel::Clear
            &&& d[1].area == area
            &&& d[1].widget == WidgetModel::Frame(
                FrameModel {
                    borders: BORDER_ALL,
                    kind: BorderKind::Rounded,
                    style: Style::of(color),
                    bg: Some(Color::Rgb(10, 10, 18)),
                    title: seq![
                        SpanModel {
                            text: if success {
                                " ✓  DONE "@
                            } else {
                                " ✗  ERROR "@
                            },
                            style: Style::of(color).bold(),
                        },
                    ],
                },
            )
            &&& d[2].area == layout::inner(area, BORDER_ALL)
            &&& d[2].widget == WidgetModel::Text(
                seq![
                    Seq::empty(),
                    seq![
                        SpanModel { text: "  "@, style: Style::plain() },
                        SpanModel { text: message, style: grey },
                    ],
                    Seq::empty(),
                    seq![SpanModel { text: "  Press any key to return."@, style: grey }],
                ],
            )
        }),
{
    assert((outcome(success).0, outcome(success).1) == outcome(success));
}

/// The help has its dialog in the middle of the screen, and each of its rows names a
/// key, in a column of ten, and then what the key does.
pub proof fn the_help_explains_keys(screen: Area, key: Seq<char>, desc: Seq<char>)
    ensures
        ({
            let d = help_panel(screen);
            let area = layout::centered(60, 80, screen);
            &&& d.len() == 3
            &&& d[0].area == area && d[0].widget == WidgetModel::Clear
            &&& d[1].area == area
            &&& d[1].widget == WidgetModel::Frame(
                FrameModel {
                    borders: BORDER_ALL,
                    kind: BorderKind::Rounded,
                    style: Style::of(Color::Cyan),
                    bg: Some(Color::Rgb(10, 10, 18)),
                    title: seq![
                        SpanModel { text: " ?  HELP "@, style: Style::of(Color::Cyan).bold() },
                    ],
                },
            )
            &&& d[2].area == layout::inner(area, BORDER_ALL)
            &&& d[2].widget == WidgetModel::Text(help_on_the_list() + help_on_the_rest())
            &&& help_row(key, desc) == seq![
                SpanModel {
                    text: "  "@ + text::padded_right(key, 10),
                    style: Style::of(Color::Cyan).bold(),
                },
                SpanModel { text: desc, style: Style::of(Color::White) },
            ]
        }),
{
}

/// The help names every key, and says what it does.
pub proof fn the_help_names_every_key()
    ensures
        help_on_the_list().contains(help_row("↑↓ / j k"@, "Move selection"@)),
        help_on_the_list().contains(help_row("PgUp/PgDn"@, "Move 10 rows"@)),
        help_on_the_list().contains(help_row("g / Home"@, "Jump to top"@)),
        help_on_the_list().contains(help_row("G / End"@, "Jump to bottom"@)),
        help_on_the_list().contains(help_row("/"@, "Search packages"@)),
        help_on_the_list().contains(help_row("Esc"@, "Clear search / orphan filter"@)),
        help_on_the_list().contains(help_row("Space"@, "Toggle mark on selected package"@)),
        help_on_the_list().contains(help_row("a"@, "Mark/unmark all visible packages"@)),
        help_on_the_list().contains(help_row("O"@, "Mark all orphans (quick cleanup)"@)),
        help_on_the_rest().contains(help_row("o"@, "Toggle orphans-only filter"@)),
        help_on_the_rest().contains(help_row("s"@, "Cycle sort mode"@)),
        help_on_the_rest().contains(help_row("r"@, "Refresh package list"@)),
        help_on_the_rest().contains(help_row("1-4"@, "Set mode: R / Rs / Rns / Rdd"@)),
        help_on_the_rest().contains(help_row("Tab"@, "Cycle removal mode"@)),
        help_on_the_rest().contains(help_row("d"@, "Dry-run & open confirmation"@)),
        help_on_the_rest().contains(help_row("?"@, "Toggle this help screen"@)),
        help_on_the_rest().contains(help_row("q"@, "Quit"@)),
        help_on_the_rest().contains(help_row("Ctrl+C"@, "Force quit"@)),
        help_on_the_list().len() + help_on_the_rest().len() == 30,
        help_on_the_list()[1] == help_heading("Navigation"@),
        help_on_the_list()[9] == help_heading("Selection"@),
        help_on_the_rest()[0] == help_heading("View"@),
        help_on_the_rest()[5] == help_heading("Removal"@),
        help_on_the_rest()[10] == help_heading("Other"@),
        help_on_the_rest()[15] == seq![
            SpanModel {
                text: "  Press any key to close."@,
                style: Style::of(Color::DarkGray),
            },
        ],
        help_heading("Other"@) == seq![
            SpanModel { text: "  "@ + "Other"@, style: Style::plain().bold() },
        ],
{
    let a = help_on_the_list();
    let b = help_on_the_rest();
    assert(a.len() == 14 && b.len() == 16);
    assert(a[2] == help_row("↑↓ / j k"@, "Move selection"@));
    assert(a[3] == help_row("PgUp/PgDn"@, "Move 10 rows"@));
    assert(a[4] == help_row("g / Home"@, "Jump to top"@));
    assert(a[5] == help_row("G / End"@, "Jump to bottom"@));
    assert(a[6] == help_row("/"@, "Search packages"@));
    assert(a[7] == help_row("Esc"@, "Clear search / orphan filter"@));
    assert(a[10] == help_row("Space"@, "Toggle mark on selected package"@));
    assert(a[11] == help_row("a"@, "Mark/unmark all visible packages"@));
    assert(a[12] == help_row("O"@, "Mark all orphans (quick cleanup)"@));
    assert(b[1] == help_row("o"@, "Toggle orphans-only filter"@));
    assert(b[2] == help_row("s"@, "Cycle sort mode"@));
    assert(b[3] == help_row("r"@, "Refresh package list"@));
    assert(b[6] == help_row("1-4"@, "Set mode: R / Rs / Rns / Rdd"@));
    assert(b[7] == help_row("Tab"@, "Cycle removal mode"@));
    assert(b[8] == help_row("d"@, "Dry-run & open confirmation"@));
    assert(b[11] == help_row("?"@, "Toggle this help screen"@));
    assert(b[12] == help_row("q"@, "Quit"@));
    assert(b[13] == help_row("Ctrl+C"@, "Force quit"@));
}

} // verus!
