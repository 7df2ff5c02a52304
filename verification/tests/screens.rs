//! What is shown.

use apr::app::{App, Screen};
use apr::bars::{draw_header, draw_statusbar, header_in, hint, kb};
use apr::details::{describe, draw_details, hdivider, section_header, section_header_col};
use apr::dialogs::{draw_confirm, draw_finished, draw_help, draw_removing, progress_in};
use apr::layout::{centered_rect, Area, BORDER_ALL, BORDER_TOP};
use apr::mode::{Mode, SortMode};
use apr::package::{PkgInfo, Reason};
use apr::screen::{body_in, draw, draw_body, draw_main};
use apr::style::{
    c_bar_bg, c_gauge_bg, c_mod_bg, c_sel_bg, st_accent, st_bold, st_danger, st_mark, st_muted,
    st_orphan, st_success, st_warn, Color, Style,
};
use apr::table::{draw_pkg_list, package_row};
use apr::widget::{BorderKind, Drawing, Frame, Line, Widget};
use ratatui::layout::{Constraint, Layout, Rect};
use ratatui::widgets::{Block, Borders};

fn pkg(name: &str) -> PkgInfo {
    PkgInfo {
        name: name.to_string(),
        version: "1.0-1".to_string(),
        desc: String::new(),
        size: 2048,
        reason: Reason::Explicit,
        depends: Vec::new(),
        optdeps: Vec::new(),
        required_by: Vec::new(),
    }
}

fn orphan(name: &str) -> PkgInfo {
    PkgInfo { reason: Reason::Depend, ..pkg(name) }
}

fn app() -> App {
    App::new(vec![pkg("acl"), orphan("bash"), pkg("curl")])
}

fn area(x: u16, y: u16, width: u16, height: u16) -> Area {
    Area { x, y, width, height }
}

fn rect(a: Area) -> Rect {
    Rect { x: a.x, y: a.y, width: a.width, height: a.height }
}

fn from_rect(r: Rect) -> Area {
    area(r.x, r.y, r.width, r.height)
}

fn plain(line: &Line) -> String {
    line.spans.iter().map(|s| s.text.as_str()).collect()
}

fn styles(line: &Line) -> Vec<Style> {
    line.spans.iter().map(|s| s.style).collect()
}

fn frame(d: &Drawing) -> &Frame {
    match &d.widget {
        Widget::Frame(f) => f,
        Widget::Framed(_, f) => f,
        other => panic!("{:?}", other),
    }
}

fn lines(d: &Drawing) -> Vec<String> {
    match &d.widget {
        Widget::Text(lines) => lines.iter().map(plain).collect(),
        Widget::Centered(l) => vec![plain(l)],
        Widget::Framed(l, _) => vec![plain(l)],
        Widget::Bar(l, _) => vec![plain(l)],
        Widget::List(rows, _) => rows.iter().map(|r| plain(&r.line)).collect(),
        other => panic!("{:?}", other),
    }
}

fn strings(list: &[&str]) -> Vec<String> {
    list.iter().map(|s| s.to_string()).collect()
}

#[test]
fn named_styles() {
    let of = |fg: Option<Color>, bold: bool| Style { fg, bg: None, bold, underlined: false };
    assert_eq!(st_accent(), of(Some(Color::Cyan), false));
    assert_eq!(st_muted(), of(Some(Color::DarkGray), false));
    assert_eq!(st_danger(), of(Some(Color::LightRed), true));
    assert_eq!(st_warn(), of(Some(Color::Yellow), false));
    assert_eq!(st_bold(), of(None, true));
    assert_eq!(st_mark(), of(Some(Color::Red), true));
    assert_eq!(st_success(), of(Some(Color::Green), false));
    assert_eq!(st_orphan(), of(Some(Color::Magenta), true));
    assert_eq!(c_sel_bg(), Color::Rgb(28, 50, 72));
    assert_eq!(c_bar_bg(), Color::Rgb(15, 15, 22));
    assert_eq!(c_mod_bg(), Color::Rgb(10, 10, 18));
    assert_eq!(c_gauge_bg(), Color::Rgb(30, 30, 30));
    assert_eq!(Mode::Force.color(), Color::LightRed);
}

#[test]
fn centered_areas() {
    assert_eq!(centered_rect(64, 72, area(0, 0, 100, 50)), area(18, 7, 64, 36));
    assert_eq!(centered_rect(60, 80, area(10, 5, 33, 9)), area(17, 6, 19, 7));
    assert_eq!(centered_rect(50, 50, area(0, 0, 0, 1)), area(0, 0, 0, 0));
    assert_eq!(centered_rect(100, 100, area(3, 4, 5, 6)), area(3, 4, 5, 6));
}

#[test]
fn centered_areas_of_enormous_screens_wrap() {
    assert_eq!(centered_rect(100, 10, area(0, 0, 2000, 10)).width, (200_000 % 65_536 / 100) as u16);
}

#[test]
fn frames_leave_what_ratatui_says() {
    for a in [
        area(0, 0, 40, 20),
        area(3, 2, 2, 2),
        area(3, 2, 1, 1),
        area(5, 5, 0, 7),
        area(65_535, 65_535, 9, 9),
        area(9, 9, 7, 0),
    ] {
        let inner = Block::new().borders(Borders::ALL).inner(rect(a));
        let drawn = draw_details(&app(), a);
        assert_eq!(drawn[1].area, from_rect(inner));
        let top = Block::new().borders(Borders::TOP).title("Log").inner(rect(a));
        let progress = progress_in(0, "", &Vec::new(), a, a, a);
        assert_eq!(progress[3].area, from_rect(top));
    }
    assert_eq!(draw_details(&app(), area(1, 2, 30, 10))[1].area, area(2, 3, 28, 8));
}

#[test]
fn the_screen_is_split_as_ratatui_splits_it() {
    for a in [area(0, 0, 120, 40), area(2, 1, 80, 24), area(0, 0, 60, 12)] {
        let v = Layout::vertical([
            Constraint::Length(3),
            Constraint::Min(8),
            Constraint::Length(1),
        ])
        .split(rect(a));
        let head = Layout::horizontal([
            Constraint::Min(20),
            Constraint::Length(14),
            Constraint::Length(20),
        ])
        .split(v[0]);
        let body = Layout::horizontal([Constraint::Percentage(46), Constraint::Percentage(54)])
            .split(v[1]);
        let drawn = draw_main(&app(), a).unwrap();
        assert_eq!(drawn[0].area, from_rect(head[0]));
        assert_eq!(drawn[1].area, from_rect(head[1]));
        assert_eq!(drawn[3].area, from_rect(head[2]));
        assert_eq!(drawn[5].area, from_rect(body[0]));
        assert_eq!(drawn[9].area, from_rect(body[1]));
        assert_eq!(drawn.last().unwrap().area, from_rect(v[2]));
    }
}

#[test]
fn the_search_box() {
    let parts = |a: &App| {
        let d = header_in(a, area(0, 0, 30, 3), area(30, 0, 14, 3), area(44, 0, 20, 3));
        (lines(&d[0])[0].clone(), plain(&frame(&d[0]).title), frame(&d[0]).style)
    };
    let mut a = app();
    assert_eq!(
        parts(&a),
        ("  type / to search…".to_string(), " Search ".to_string(), st_muted())
    );
    a.searching = true;
    assert_eq!(parts(&a), (" ❯ ▌".to_string(), " Search ".to_string(), st_accent()));
    a.query = "gl".to_string();
    assert_eq!(parts(&a).0, " ❯ gl▌");
    a.searching = false;
    assert_eq!(parts(&a).0, " ❯ gl");
    a.query.clear();
    a.show_orphans = true;
    assert_eq!(
        parts(&a),
        (
            " 🔵 orphans only — /search or Esc".to_string(),
            " Search  orphans ".to_string(),
            Style::of(Color::Magenta)
        )
    );
}

#[test]
fn the_boxes_of_order_and_mode() {
    let mut a = app();
    a.sort_mode = SortMode::Size;
    a.mode = Mode::Force;
    let d = draw_header(&a, area(0, 0, 90, 3));
    assert_eq!(d.len(), 5);
    assert_eq!(plain(&frame(&d[1]).title), " Sort ");
    assert_eq!(frame(&d[1]).style, Style::of(Color::Yellow));
    assert_eq!(lines(&d[2]), vec![" Size↓ [s]"]);
    assert_eq!(plain(&frame(&d[3]).title), " Mode ");
    assert_eq!(frame(&d[3]).style, Style::of(Color::LightRed));
    assert_eq!(lines(&d[4]), vec![" -Rdd ⚠ 1-4"]);
    for (sort, color) in [
        (SortMode::Name, Color::DarkGray),
        (SortMode::Size, Color::Yellow),
        (SortMode::OrphansFirst, Color::Magenta),
    ] {
        a.sort_mode = sort;
        assert_eq!(frame(&draw_header(&a, area(0, 0, 90, 3))[1]).style, Style::of(color));
    }
}

#[test]
fn keys_and_hints() {
    assert_eq!((kb("d").text.as_str(), kb("d").style), (" d", st_accent()));
    assert_eq!((hint(" Nav").text.as_str(), hint(" Nav").style), (" Nav", st_muted()));
}

#[test]
fn the_status_bar() {
    let mut a = App::new(vec![pkg("acl"), pkg("curl")]);
    let keys = " ↑↓/jk Nav   Spc Mark   a All   O MarkOrphans   d Delete   / Search   o Orphans   \
                s Name Sort   1-4/Tab Rs   r Refresh   ? Help   q Quit";
    let bar = draw_statusbar(&a, area(0, 9, 80, 1));
    assert_eq!(bar.len(), 1);
    assert_eq!(bar[0].area, area(0, 9, 80, 1));
    assert_eq!(lines(&bar[0]), vec![keys]);
    match &bar[0].widget {
        Widget::Bar(_, color) => assert_eq!(*color, c_bar_bg()),
        other => panic!("{:?}", other),
    }
    a.pkgs[0].reason = Reason::Depend;
    assert_eq!(
        lines(&draw_statusbar(&a, area(0, 0, 80, 1))[0]),
        vec![format!("{}    ◆ 1 orphan", keys)]
    );
    a.pkgs[1].reason = Reason::Depend;
    a.marked.insert(0);
    a.marked.insert(1);
    assert_eq!(
        lines(&draw_statusbar(&a, area(0, 0, 80, 1))[0]),
        vec![format!("{}    ◆ 2 orphans    ✓ 2  4 KiB  queued", keys)]
    );
    a.show_orphans = true;
    assert!(lines(&draw_statusbar(&a, area(0, 0, 80, 1))[0])[0].contains(" o Orphans✓  "));
}

#[test]
fn the_list() {
    let mut a = app();
    a.marked.insert(2);
    let d = draw_pkg_list(&a, area(0, 3, 60, 12)).unwrap();
    assert_eq!(d.len(), 4);
    assert_eq!(plain(&frame(&d[0]).title), " Packages 3/3  ◆1  ✓1 ");
    assert_eq!(d[1].area, area(1, 4, 58, 1));
    assert_eq!(d[2].area, area(1, 5, 58, 1));
    assert_eq!(d[3].area, area(1, 6, 58, 8));
    assert_eq!(
        lines(&d[1]),
        vec![format!("     {:<24} {:<13}{:>10}", "NAME", "VERSION", "SIZE")]
    );
    assert_eq!(lines(&d[2]), vec!["─".repeat(58)]);
    let row = |mark: &str, name: &str| {
        format!(" {} {:<24} {:<13}{:>10} ·", mark, name, "1.0-1", "2 KiB")
    };
    assert_eq!(lines(&d[3]), vec![row("○", "acl"), row("◆", "bash"), row("✓", "curl")]);
    match &d[3].widget {
        Widget::List(rows, at) => {
            assert_eq!(*at, 0);
            assert_eq!(rows[0].bg, Some(c_sel_bg()));
            assert_eq!(rows[1].bg, None);
        }
        other => panic!("{:?}", other),
    }
}

#[test]
fn a_low_list_is_a_frame() {
    let d = draw_pkg_list(&app(), area(0, 0, 60, 4)).unwrap();
    assert_eq!(d.len(), 1);
    assert_eq!(draw_pkg_list(&app(), area(0, 0, 60, 5)).unwrap().len(), 4);
}

#[test]
fn rows_of_packages() {
    let mut p = orphan("a-name-that-is-far-too-long");
    p.version = "20240101.r123.gabcdef0-1".to_string();
    p.size = 600_000_000;
    let row = package_row(&p, false, true, 10).unwrap();
    assert_eq!(plain(&row.line), " ◆ a-name-th… 20240101.r12… 572.2 MiB ·");
    assert_eq!(
        styles(&row.line),
        vec![
            st_orphan(),
            st_orphan(),
            st_muted(),
            Style::of(Color::LightRed),
            Style::plain(),
            st_muted(),
        ]
    );
    assert_eq!(row.bg, Some(c_sel_bg()));
    let marked = package_row(&p, true, false, 10).unwrap();
    assert_eq!(marked.line.spans[0].text, " ✓ ");
    assert_eq!(marked.line.spans[1].style, st_mark());
    let other = package_row(&pkg("p"), false, false, 10).unwrap();
    assert_eq!(other.line.spans[0].text, " ○ ");
    assert_eq!(other.line.spans[1].style, Style::of(Color::White));
    assert_eq!(other.line.spans[5].style, Style::of(Color::Green));
    let selected = package_row(&pkg("p"), false, true, 10).unwrap();
    assert_eq!(selected.line.spans[1].style, Style::of(Color::White).bold());
    let unselected = package_row(&orphan("p"), false, false, 10).unwrap();
    assert_eq!(unselected.line.spans[1].style, Style::of(Color::Magenta));
}

#[test]
fn names_that_cannot_be_cut() {
    let long = pkg("ää-very-long-name-that-has-to-be-cut");
    assert!(package_row(&long, false, false, 4).is_none());
    assert!(package_row(&long, false, false, 5).is_some());
    let a = App::new(vec![pkg("acl"), long]);
    assert!(draw_pkg_list(&a, area(0, 0, 32, 10)).is_none());
    assert!(draw_pkg_list(&a, area(0, 0, 33, 10)).is_some());
    assert!(draw_pkg_list(&a, area(0, 0, 32, 4)).is_some());
    assert!(body_in(&a, area(0, 0, 32, 10), area(0, 0, 9, 9)).is_none());
    let b = App::new(vec![pkg(&"é".repeat(30))]);
    assert!(draw(&b, area(0, 0, 200, 40)).is_none());
    assert!(draw_body(&b, area(0, 0, 200, 40)).is_none());
}

#[test]
fn plain_packages_can_be_shown() {
    for w in 0..60 {
        for h in [0, 3, 9, 24] {
            assert!(draw(&app(), area(0, 0, w * 4, h)).is_some());
        }
    }
}

#[test]
fn dividers_and_headings() {
    assert_eq!(hdivider(4).text, "────");
    assert_eq!(hdivider(4).style, st_muted());
    assert_eq!(plain(&section_header(20, "Optional")), "  ── Optional ─────");
    assert_eq!(plain(&section_header(5, "Optional")), "  ── Optional ──");
    let l = section_header_col(30, "Größe", Color::Red);
    assert_eq!(plain(&l), format!("  ── Größe ──{}", "─".repeat(14)));
    assert_eq!(styles(&l), vec![st_muted(), Style::of(Color::Red), st_muted()]);
}

#[test]
fn details_of_a_package() {
    let mut p = pkg("vim");
    p.desc = "Vi Improved, a highly configurable editor".to_string();
    p.depends = strings(&["glibc", "acl", "gpm"]);
    p.required_by = strings(&["vim-airline"]);
    p.optdeps = strings(&["python", "ruby", "lua", "perl", "tcl", "gawk"]);
    let d: Vec<String> = describe(&p, true, 26).iter().map(plain).collect();
    assert_eq!(
        d,
        vec![
            " ◆ vim".to_string(),
            "─".repeat(26),
            String::new(),
            "  Version     1.0-1".to_string(),
            "  Size        2 KiB".to_string(),
            "  Reason      Explicit".to_string(),
            String::new(),
            "  Vi Improved, a highly".to_string(),
            "  configurable editor".to_string(),
            String::new(),
            plain(&section_header(26, "Dependencies")),
            "  glibc  acl  gpm  ".to_string(),
            String::new(),
            plain(&section_header(26, "Required By")),
            "  vim-airline  ".to_string(),
            String::new(),
            plain(&section_header(26, "Optional")),
            "  + python".to_string(),
            "  + ruby".to_string(),
            "  + lua".to_string(),
            "  + perl".to_string(),
            "  …2 more".to_string(),
            String::new(),
            plain(&section_header_col(26, "Queued for removal", Color::Red)),
            "  ✓ Will be removed on [d]".to_string(),
        ]
    );
}

#[test]
fn details_of_an_orphan() {
    let d = describe(&orphan("old"), false, 40);
    let told: Vec<String> = d.iter().map(plain).collect();
    assert_eq!(
        told,
        vec![
            " ◆ old".to_string(),
            "─".repeat(40),
            String::new(),
            "  Version     1.0-1".to_string(),
            "  Size        2 KiB".to_string(),
            "  Reason      Dependency (ORPHAN)".to_string(),
            String::new(),
            plain(&section_header(40, "Required By")),
            "  ◆ Nothing requires this package (safe to remove)".to_string(),
            String::new(),
        ]
    );
    assert_eq!(styles(&d[7])[1], Style::of(Color::Magenta));
    let mut p = orphan("lib");
    p.required_by = strings(&["x"]);
    assert_eq!(plain(&describe(&p, false, 40)[5]), "  Reason      Dependency");
    p.optdeps = strings(&["one"]);
    let told: Vec<String> = describe(&p, false, 40).iter().map(plain).collect();
    assert_eq!(told[told.len() - 2], "  + one");
}

#[test]
fn the_details_panel() {
    let mut a = app();
    let d = draw_details(&a, area(0, 0, 40, 20));
    assert_eq!(plain(&frame(&d[0]).title), " Details ");
    assert_eq!(frame(&d[0]).style, st_muted());
    assert_eq!(frame(&d[0]).kind, BorderKind::Rounded);
    assert_eq!(lines(&d[1])[0], " ◆ acl");
    a.cursor = 1;
    let d = draw_details(&a, area(0, 0, 40, 20));
    assert_eq!(plain(&frame(&d[0]).title), " Details  ◆ orphan ");
    assert_eq!(frame(&d[0]).style, Style::of(Color::Magenta));
    a.marked.insert(1);
    let d = draw_details(&a, area(0, 0, 40, 20));
    assert_eq!(plain(&frame(&d[0]).title), " Details  ✓ marked ");
    assert_eq!(frame(&d[0]).style, Style::of(Color::Red));
    let d = draw_details(&App::new(Vec::new()), area(0, 0, 40, 20));
    assert_eq!(d.len(), 2);
    assert_eq!(lines(&d[1]), vec!["  No packages found."]);
}

#[test]
fn the_confirmation() {
    let targets: Vec<String> = (0..14).map(|i| format!("p{}", i)).collect();
    let d = draw_confirm(area(0, 0, 100, 50), &targets, 5 << 20, &strings(&["danger"]), "ye");
    assert_eq!(d.len(), 3);
    assert!(matches!(d[0].widget, Widget::Clear));
    assert_eq!(d[0].area, area(18, 7, 64, 36));
    assert_eq!(plain(&frame(&d[1]).title), " ⚠  CONFIRM REMOVAL ");
    assert_eq!(frame(&d[1]).kind, BorderKind::Double);
    assert_eq!(frame(&d[1]).bg, Some(c_mod_bg()));
    assert_eq!(d[2].area, area(19, 8, 62, 34));
    let mut expected = vec![
        String::new(),
        "  The following packages will be permanently removed:".to_string(),
        String::new(),
    ];
    for t in &targets {
        expected.push(format!("  ✗ {}", t));
    }
    for l in [
        "",
        "─",
        "",
        "  Total freed:  5.0 MiB",
        "",
        "  ⚠  danger",
        "",
        "─",
        "",
        "  Type yes to confirm: [ ye▌]",
        "",
        "  Esc  Cancel        Enter  Confirm",
    ] {
        expected.push(if l == "─" { "─".repeat(62) } else { l.to_string() });
    }
    assert_eq!(lines(&d[2]), expected);
}

#[test]
fn the_answer_stands_out_once_it_confirms() {
    let style = |input: &str| {
        let d = draw_confirm(area(0, 0, 80, 40), &strings(&["p"]), 0, &Vec::new(), input);
        match &d[2].widget {
            Widget::Text(lines) => {
                assert_eq!(lines.len(), 14);
                lines[11].spans[3].style
            }
            other => panic!("{:?}", other),
        }
    };
    assert_eq!(style("ye"), Style::of(Color::Cyan));
    assert_eq!(style(" yes "), Style::of(Color::Green).bold());
}

#[test]
fn the_removal() {
    let log: Vec<String> = (0..20).map(|i| format!("line {}", i)).collect();
    let screen = area(0, 0, 60, 16);
    let d = draw_removing(screen, 45, "glibc", &log);
    let v = Layout::vertical([
        Constraint::Length(1),
        Constraint::Length(1),
        Constraint::Length(1),
        Constraint::Length(1),
        Constraint::Min(4),
    ])
    .split(Rect { x: 1, y: 1, width: 58, height: 14 });
    assert_eq!(d.len(), 5);
    assert_eq!(d[0].area, screen);
    assert_eq!(plain(&frame(&d[0]).title), " ✗  REMOVING PACKAGES ");
    assert_eq!(d[1].area, from_rect(v[0]));
    assert_eq!(lines(&d[1]), vec!["  Removing: glibc"]);
    assert_eq!(d[2].area, from_rect(v[2]));
    match &d[2].widget {
        Widget::Gauge(style, percent, label) => {
            assert_eq!(*style, Style::of(Color::Cyan).on(c_gauge_bg()));
            assert_eq!(*percent, 45);
            assert_eq!(label, " 45% ");
        }
        other => panic!("{:?}", other),
    }
    assert_eq!(d[3].area, from_rect(v[4]));
    assert_eq!(frame(&d[3]).borders, BORDER_TOP);
    assert_eq!(plain(&frame(&d[3]).title), " Log ");
    assert_eq!(d[4].area.height, v[4].height - 1);
    let shown = lines(&d[4]);
    assert_eq!(shown.len(), (v[4].height - 1) as usize);
    assert_eq!(shown.last().unwrap(), "  → line 19");
}

#[test]
fn a_short_log_is_shown_whole() {
    let a = area(0, 0, 9, 9);
    let d = progress_in(7, "p", &strings(&["x", "y"]), a, a, a);
    assert_eq!(lines(&d[3]), vec!["  → x", "  → y"]);
    let low = progress_in(7, "p", &strings(&["x", "y"]), a, a, area(0, 0, 9, 2));
    assert_eq!(lines(&low[3]), vec!["  → y"]);
}

#[test]
fn the_end() {
    let d = draw_finished(area(0, 0, 100, 50), true, "All gone.");
    assert_eq!(d[0].area, area(23, 18, 54, 14));
    assert_eq!(plain(&frame(&d[1]).title), " ✓  DONE ");
    assert_eq!(frame(&d[1]).style, Style::of(Color::Green));
    assert_eq!(frame(&d[1]).borders, BORDER_ALL);
    assert_eq!(lines(&d[2]), vec!["", "  All gone.", "", "  Press any key to return."]);
    let d = draw_finished(area(0, 0, 100, 50), false, "Why.");
    assert_eq!(plain(&frame(&d[1]).title), " ✗  ERROR ");
    assert_eq!(frame(&d[1]).style, Style::of(Color::LightRed));
}

#[test]
fn the_help() {
    let d = draw_help(area(0, 0, 100, 50));
    assert_eq!(d[0].area, area(20, 5, 60, 40));
    assert_eq!(plain(&frame(&d[1]).title), " ?  HELP ");
    let told = lines(&d[2]);
    assert_eq!(told.len(), 30);
    assert_eq!(told[1], "  Navigation");
    assert_eq!(told[2], "  ↑↓ / j k  Move selection");
    assert_eq!(told[3], "  PgUp/PgDn Move 10 rows");
    assert_eq!(told[12], "  O         Mark all orphans (quick cleanup)");
    assert_eq!(told[20], "  1-4       Set mode: R / Rs / Rns / Rdd");
    assert_eq!(told[27], "  Ctrl+C    Force quit");
    assert_eq!(told[29], "  Press any key to close.");
}

#[test]
fn the_help_names_every_key() {
    let told = lines(&draw_help(area(0, 0, 100, 50))[2]);
    for key in [
        "↑↓ / j k", "PgUp/PgDn", "g / Home", "G / End", "/", "Esc", "Space", "a", "O", "o", "s",
        "r", "1-4", "Tab", "d", "?", "q", "Ctrl+C",
    ] {
        let start = format!("  {:<10}", key);
        assert_eq!(told.iter().filter(|l| l.starts_with(&start)).count(), 1, "{}", key);
    }
}

#[test]
fn every_screen() {
    let screen = area(0, 0, 100, 40);
    let mut a = app();
    let main = draw_main(&a, screen).unwrap().len();
    let count = |a: &App| draw(a, screen).map(|d| d.len());
    assert_eq!(count(&a), Some(main));
    a.screen = Screen::Help;
    assert_eq!(count(&a), Some(main + 3));
    a.screen = Screen::Finished { success: true, message: String::new() };
    assert_eq!(count(&a), Some(main + 3));
    a.screen = Screen::Confirm {
        targets: Vec::new(),
        freed: 0,
        warnings: Vec::new(),
        input: String::new(),
        flags: Mode::Simple.flags(),
    };
    assert_eq!(count(&a), Some(main + 3));
    a.screen = Screen::Removing { progress: 100, current_pkg: String::new(), log: Vec::new() };
    assert_eq!(count(&a), Some(5));
    a.screen = Screen::Removing { progress: 101, current_pkg: String::new(), log: Vec::new() };
    assert_eq!(count(&a), None);
}

#[test]
fn the_dialog_names_every_package_of_a_report() {
    let mut a = app();
    let list: Vec<(String, i64)> = (0..40).map(|i| (format!("lib{}", i), i)).collect();
    a.process_message(apr::transaction::report(&list), None);
    let d = draw(&a, area(0, 0, 100, 40)).unwrap();
    let told = lines(d.last().unwrap());
    for (k, (name, _)) in list.iter().enumerate() {
        assert_eq!(told[3 + k], format!("  ✗ {}", name));
    }
}

#[test]
fn critical_packages_are_warned_of_in_the_dialog() {
    let mut a = app();
    let report = apr::transaction::report(&vec![("glibc".to_string(), 1), ("x".to_string(), 2)]);
    a.process_message(report, None);
    let d = draw(&a, area(0, 0, 100, 40)).unwrap();
    let told = lines(d.last().unwrap());
    assert!(told.contains(&"  ⚠  glibc  is a critical system package!".to_string()));
    assert_eq!(told.iter().filter(|l| l.contains("critical")).count(), 1);
}
