//! The whole screen.

use crate::app::{App, Screen};
use crate::bars;
use crate::bars::{draw_header, draw_statusbar};
use crate::details;
use crate::details::draw_details;
use crate::dialogs;
use crate::dialogs::{draw_confirm, draw_finished, draw_help, draw_removing};
use crate::layout;
use crate::layout::{split_columns, split_rows, Area, Constraint};
use crate::model::{AppModel, ScreenModel};
use crate::table;
use crate::table::draw_pkg_list;
use crate::text;
use crate::text::append_views;
use crate::widget::{Drawing, DrawingModel};
use vstd::prelude::*;

verus! {

/// The widths of the list and of the details.
pub open spec fn body_widths() -> Seq<Constraint> {
    seq![Constraint::Percentage(46), Constraint::Percentage(54)]
}

/// The list and the details, each in its area.
pub open spec fn body_panel(s: AppModel, list: Area, rest: Area) -> Seq<DrawingModel> {
    table::list_panel(s, list) + details::details_panel(s, rest)
}

/// The list and the details, each in its area, or nothing where the list cannot
/// be drawn in its area.
pub fn body_in(app: &App, list: Area, rest: Area) -> (r: Option<Vec<Drawing>>)
    requires
        app@.wf(),
    ensures
        r is Some <==> table::list_fits(app@, list),
        r matches Some(v) ==> text::views(v@) == body_panel(app@, list, rest),
{
    match draw_pkg_list(app, list) {
        Some(left) => {
            let mut r = left;
            append_views(&mut r, draw_details(app, rest));
            Some(r)
        },
        None => None,
    }
}

/// Whether `drawings` show the list and the details side by side in `area`.
pub open spec fn is_body(s: AppModel, area: Area, drawings: Seq<DrawingModel>) -> bool {
    exists|h: Seq<Area>|
        h.len() == 2 && #[trigger] layout::may_split(true, area, body_widths(), h)
            && table::list_fits(s, h[0]) && drawings == body_panel(s, h[0], h[1])
}

/// Whether `area` may be split so that the list cannot be drawn.
pub open spec fn body_fails(s: AppModel, area: Area) -> bool {
    exists|h: Seq<Area>|
        h.len() == 2 && #[trigger] layout::may_split(true, area, body_widths(), h)
            && !table::list_fits(s, h[0])
}

/// The list and the details side by side, or nothing where the list cannot be
/// drawn.
pub fn draw_body(app: &App, area: Area) -> (r: Option<Vec<Drawing>>)
    requires
        app@.wf(),
    ensures
        match r {
            Some(v) => is_body(app@, area, text::views(v@)),
            None => body_fails(app@, area),
        },
{
    let widths = vec![Constraint::Percentage(46), Constraint::Percentage(54)];
    assert(widths@ =~= body_widths());
    let h = split_columns(area, &widths);
    body_in(app, h[0], h[1])
}

/// The heights of the boxes, of the list and of the bar.
pub open spec fn main_heights() -> Seq<Constraint> {
    seq![Constraint::Length(3), Constraint::Min(8), Constraint::Length(1)]
}

/// Whether `drawings` show the boxes, the list with the details, and the bar,
/// one below the other.
pub open spec fn is_main(s: AppModel, screen: Area, drawings: Seq<DrawingModel>) -> bool {
    exists|v: Seq<Area>, head: Seq<DrawingModel>, body: Seq<DrawingModel>|
        v.len() == 3 && #[trigger] layout::may_split(false, screen, main_heights(), v)
            && #[trigger] bars::is_header(s, v[0], head) && #[trigger] is_body(s, v[1], body)
            && drawings == head + body + bars::status_panel(s, v[2])
}

/// Whether `screen` may be split so that the list cannot be drawn.
pub open spec fn main_fails(s: AppModel, screen: Area) -> bool {
    exists|v: Seq<Area>|
        v.len() == 3 && #[trigger] layout::may_split(false, screen, main_heights(), v)
            && body_fails(s, v[1])
}

/// The boxes, the list with the details, and the bar, or nothing where the list
/// cannot be drawn.
pub fn draw_main(app: &App, screen: Area) -> (r: Option<Vec<Drawing>>)
    requires
        app@.wf(),
    ensures
        match r {
            Some(v) => is_main(app@, screen, text::views(v@)),
            None => main_fails(app@, screen),
        },
{
    let heights = vec![Constraint::Length(3), Constraint::Min(8), Constraint::Length(1)];
    assert(heights@ =~= main_heights());
    let v = split_rows(screen, &heights);
    let mut r = draw_header(app, v[0]);
    let ghost head = text::views(r@);
    match draw_body(app, v[1]) {
        Some(body) => {
            let ghost middle = text::views(body@);
            append_views(&mut r, body);
            append_views(&mut r, draw_statusbar(app, v[2]));
            assert(layout::may_split(false, screen, main_heights(), v@) && bars::is_header(
                app@,
                v@[0],
                head,
            ) && is_body(app@, v@[1], middle));
            Some(r)
        },
        None => None,
    }
}

/// Whether `drawings` show the list with what is around it, and `front` before it.
pub open spec fn is_main_behind(
    s: AppModel,
    screen: Area,
    front: Seq<DrawingModel>,
    drawings: Seq<DrawingModel>,
) -> bool {
    exists|back: Seq<DrawingModel>|
        #[trigger] is_main(s, screen, back) && drawings == back + front
}

/// Whether `drawings` are what is to be seen on a screen of the size `screen`.
pub open spec fn is_shown(s: AppModel, screen: Area, drawings: Seq<DrawingModel>) -> bool {
    match s.screen {
        ScreenModel::Browse => is_main(s, screen, drawings),
        ScreenModel::Help => is_main_behind(s, screen, dialogs::help_panel(screen), drawings),
        ScreenModel::Confirm { targets, freed, warnings, input, .. } => is_main_behind(
            s,
            screen,
            dialogs::confirm_panel(screen, targets, freed, warnings, input),
            drawings,
        ),
        ScreenModel::Removing { progress, current_pkg, log } => progress <= 100
            && dialogs::is_removing(screen, progress, current_pkg, log, drawings),
        ScreenModel::Finished { success, message } => is_main_behind(
            s,
            screen,
            dialogs::finished_panel(screen, success, message),
            drawings,
        ),
    }
}

/// Whether there is something that cannot be drawn: more than the whole of a
/// removal, or a list with a text that would have to be cut inside a character.
pub open spec fn cannot_be_shown(s: AppModel, screen: Area) -> bool {
    match s.screen {
        ScreenModel::Removing { progress, .. } => progress > 100,
        _ => main_fails(s, screen),
    }
}

/// What is to be seen on a screen of the size `screen`, or nothing where there is
/// something that cannot be drawn.
pub fn draw(app: &App, screen: Area) -> (r: Option<Vec<Drawing>>)
    requires
        app@.wf(),
    ensures
        match r {
            Some(v) => is_shown(app@, screen, text::views(v@)),
            None => cannot_be_shown(app@, screen),
        },
{
    if let Screen::Removing { progress, current_pkg, log } = &app.screen {
        return if *progress <= 100 {
            Some(draw_removing(screen, *progress, current_pkg.as_str(), log))
        } else {
            None
        };
    }
    let mut r = match draw_main(app, screen) {
        Some(back) => back,
        None => {
            return None;
        },
    };
    let ghost back = text::views(r@);
    match &app.screen {
        Screen::Help => append_views(&mut r, draw_help(screen)),
        Screen::Confirm { targets, freed, warnings, input, .. } => append_views(
            &mut r,
            draw_confirm(screen, targets, *freed, warnings, input.as_str()),
        ),
        Screen::Finished { success, message } => append_views(
            &mut r,
            draw_finished(screen, *success, message.as_str()),
        ),
        _ => {},
    }
    assert(is_main(app@, screen, back));
    Some(r)
}

/// Whether `drawings` show, on a screen of the size `screen`, the boxes, the list and
/// the details side by side, and the bar, and then `front`.
pub open spec fn shows(
    s: AppModel,
    screen: Area,
    front: Seq<DrawingModel>,
    drawings: Seq<DrawingModel>,
) -> bool {
    exists|v: Seq<Area>, h: Seq<Area>, b: Seq<Area>|
        v.len() == 3 && h.len() == 3 && b.len() == 2 && #[trigger] layout::may_split(
            false,
            screen,
            main_heights(),
            v,
        ) && #[trigger] layout::may_split(
            true,
            v[0],
            bars::header_widths(),
            h,
        ) && #[trigger] layout::may_split(
            true,
            v[1],
            body_widths(),
            b,
        ) && drawings == bars::header_panel(s, h[0], h[1], h[2]) + table::list_panel(s, b[0])
            + details::details_panel(s, b[1]) + bars::status_panel(s, v[2]) + front
}

proof fn lemma_shows(
    s: AppModel,
    screen: Area,
    back: Seq<DrawingModel>,
    front: Seq<DrawingModel>,
)
    requires
        is_main(s, screen, back),
    ensures
        shows(s, screen, front, back + front),
{
    let (v, head, body) = choose|
        v: Seq<Area>,
        head: Seq<DrawingModel>,
        body: Seq<DrawingModel>,
    |
        v.len() == 3 && #[trigger] layout::may_split(false, screen, main_heights(), v)
            && #[trigger] bars::is_header(s, v[0], head) && #[trigger] is_body(s, v[1], body)
            && back == head + body + bars::status_panel(s, v[2]);
    let h = choose|h: Seq<Area>|
        h.len() == 3 && #[trigger] layout::may_split(true, v[0], bars::header_widths(), h)
            && head == bars::header_panel(s, h[0], h[1], h[2]);
    let b = choose|b: Seq<Area>|
        b.len() == 2 && #[trigger] layout::may_split(true, v[1], body_widths(), b)
            && table::list_fits(s, b[0]) && body == body_panel(s, b[0], b[1]);
    assert(back + front =~= bars::header_panel(s, h[0], h[1], h[2]) + table::list_panel(s, b[0])
        + details::details_panel(s, b[1]) + bars::status_panel(s, v[2]) + front);
    assert(layout::may_split(false, screen, main_heights(), v));
    assert(layout::may_split(true, v[0], bars::header_widths(), h));
    assert(layout::may_split(true, v[1], body_widths(), b));
}

/// The boxes have three rows and the bar has one; the order has 14 columns and the mode
/// 20; of the rest the list takes 46 percent and the details take 54.
pub proof fn the_screen_has_its_parts()
    ensures
        main_heights() == seq![Constraint::Length(3), Constraint::Min(8), Constraint::Length(1)],
        bars::header_widths() == seq![
            Constraint::Min(20),
            Constraint::Length(14),
            Constraint::Length(20),
        ],
        body_widths() == seq![Constraint::Percentage(46), Constraint::Percentage(54)],
{
}

/// Every screen but that of a removal shows the list with the details and the boxes and
/// the bar around it, and the help, the confirmation and the message at the end before
/// it. The confirmation shows what the state holds to be confirmed.
pub proof fn every_screen_shows_the_list(
    s: AppModel,
    screen: Area,
    drawings: Seq<DrawingModel>,
)
    requires
        is_shown(s, screen, drawings),
    ensures
        match s.screen {
            ScreenModel::Browse => shows(s, screen, Seq::empty(), drawings),
            ScreenModel::Help => shows(s, screen, dialogs::help_panel(screen), drawings),
            ScreenModel::Confirm { targets, freed, warnings, input, .. } => shows(
                s,
                screen,
                dialogs::confirm_panel(screen, targets, freed, warnings, input),
                drawings,
            ),
            ScreenModel::Finished { success, message } => shows(
                s,
                screen,
                dialogs::finished_panel(screen, success, message),
                drawings,
            ),
            ScreenModel::Removing { progress, current_pkg, log } => dialogs::is_removing(
                screen,
                progress,
                current_pkg,
                log,
                drawings,
            ),
        },
{
    let front = match s.screen {
        ScreenModel::Help => dialogs::help_panel(screen),
        ScreenModel::Confirm { targets, freed, warnings, input, .. } => dialogs::confirm_panel(
            screen,
            targets,
            freed,
            warnings,
            input,
        ),
        ScreenModel::Finished { success, message } => dialogs::finished_panel(
            screen,
            success,
            message,
        ),
        _ => Seq::empty(),
    };
    if s.screen is Browse {
        lemma_shows(s, screen, drawings, front);
        assert(drawings + front =~= drawings);
    } else if !(s.screen is Removing) {
        let back = choose|back: Seq<DrawingModel>| #[trigger]
            is_main(s, screen, back) && drawings == back + front;
        lemma_shows(s, screen, back, front);
    }
}

/// Nothing but two things stops the screen from being drawn: a progress beyond the
/// whole, and, wherever the list is shown, a name or a version in it that would have to
/// be cut inside a character.
pub proof fn only_two_things_stop_the_drawing(s: AppModel, screen: Area)
    requires
        cannot_be_shown(s, screen),
    ensures
        match s.screen {
            ScreenModel::Removing { progress, .. } => progress > 100,
            _ => exists|area: Area| !#[trigger] table::list_fits(s, area),
        },
{
    if !(s.screen is Removing) {
        let v = choose|v: Seq<Area>|
            v.len() == 3 && #[trigger] layout::may_split(false, screen, main_heights(), v)
                && body_fails(s, v[1]);
        let h = choose|h: Seq<Area>|
            h.len() == 2 && #[trigger] layout::may_split(true, v[1], body_widths(), h)
                && !table::list_fits(s, h[0]);
        assert(!table::list_fits(s, h[0]));
    }
}

} // verus!
