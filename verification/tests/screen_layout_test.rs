use ratatui::layout::{Constraint, Direction, Layout};
use termitype::geometry::{Padding, Rect};
use termitype::ui::layout::{create_layout, LayoutDims, ScreenLimits};
use termitype::ui::render::theme_preview_areas;

fn dims() -> LayoutDims {
    LayoutDims {
        top_area_height: 3,
        header_height: 1,
        action_bar_height: 2,
        mode_bar_height: 1,
        command_bar_height: 3,
        footer_height: 1,
        typing_area_width: 80,
    }
}

fn limits() -> ScreenLimits {
    ScreenLimits {
        min_width: 40,
        min_height: 12,
        small_width: 70,
        small_height: 20,
        min_footer_width: 50,
        small_results_width: 80,
        small_results_height: 25,
    }
}

fn to_ratatui(r: Rect) -> ratatui::layout::Rect {
    ratatui::layout::Rect::new(r.x, r.y, r.width, r.height)
}

fn from_ratatui(r: ratatui::layout::Rect) -> Rect {
    Rect { x: r.x, y: r.y, width: r.width, height: r.height }
}

fn split(direction: Direction, constraints: Vec<Constraint>, area: ratatui::layout::Rect) -> Vec<ratatui::layout::Rect> {
    Layout::default().direction(direction).constraints(constraints).split(area).to_vec()
}

#[test]
fn too_small_screens_get_empty_sections() {
    let area = Rect { x: 2, y: 3, width: 39, height: 30 };
    let layout = create_layout(area, 3, dims(), limits());
    assert!(layout.is_minimal());
    let empty = Rect { x: 2, y: 3, width: 0, height: 0 };
    assert_eq!(layout.section.header, empty);
    assert_eq!(layout.section.footer, empty);
    assert_eq!(layout.container_padding(), Padding { left: 0, right: 0, top: 0, bottom: 0 });
}

#[test]
fn sections_follow_the_layout_solver() {
    let area = Rect { x: 0, y: 0, width: 100, height: 30 };
    let layout = create_layout(area, 3, dims(), limits());
    assert!(!layout.is_minimal());
    let a = to_ratatui(area);
    let chunks = split(
        Direction::Vertical,
        vec![
            Constraint::Length(3),
            Constraint::Min(0),
            Constraint::Length(3),
            Constraint::Length(1),
            Constraint::Length(1),
        ],
        a,
    );
    let top = split(Direction::Vertical, vec![Constraint::Length(1), Constraint::Length(2)], chunks[0]);
    let mid_outer = split(
        Direction::Vertical,
        vec![Constraint::Min(0), Constraint::Length(4), Constraint::Min(0)],
        chunks[1],
    )[1];
    let mid = split(Direction::Vertical, vec![Constraint::Length(1), Constraint::Length(3)], mid_outer);
    let centered = |r| {
        split(
            Direction::Horizontal,
            vec![Constraint::Percentage(10), Constraint::Percentage(80), Constraint::Percentage(10)],
            r,
        )[1]
    };
    assert_eq!(layout.section.header, from_ratatui(top[0]));
    assert_eq!(layout.section.action_bar, from_ratatui(top[1]));
    assert_eq!(layout.section.mode_bar, from_ratatui(centered(mid[0])));
    assert_eq!(layout.section.typing_area, from_ratatui(centered(mid[1])));
    assert_eq!(layout.section.command_bar, from_ratatui(chunks[2]));
    assert_eq!(layout.section.footer, from_ratatui(chunks[4]));
    assert_eq!(layout.section.typing_area.height, 3);
    assert_eq!(layout.section.typing_area.width, 80);
    assert_eq!(layout.container_padding(), Padding { left: 2, right: 2, top: 1, bottom: 1 });
}

#[test]
fn screen_size_predicates() {
    let layout = create_layout(Rect { x: 0, y: 0, width: 60, height: 22 }, 3, dims(), limits());
    assert!(layout.is_small());
    assert!(layout.w_small());
    assert!(!layout.h_small());
    assert!(layout.show_footer());
    assert!(layout.show_small_results());
    assert_eq!(layout.container_padding(), Padding { left: 1, right: 1, top: 1, bottom: 1 });
}

#[test]
fn theme_preview_areas_follow_the_layout_solver() {
    let area = Rect { x: 10, y: 2, width: 60, height: 30 };
    let areas = theme_preview_areas(area);
    let block = ratatui::widgets::Block::default().borders(ratatui::widgets::Borders::ALL);
    let inner = block.inner(to_ratatui(area));
    let p = split(
        Direction::Vertical,
        vec![
            Constraint::Length(4),
            Constraint::Length(1),
            Constraint::Length(3),
            Constraint::Min(5),
            Constraint::Length(6),
        ],
        inner,
    );
    let h = split(Direction::Vertical, vec![Constraint::Length(1), Constraint::Length(1), Constraint::Min(0)], p[0]);
    let title = split(Direction::Horizontal, vec![Constraint::Length(2), Constraint::Min(10), Constraint::Min(0)], h[1])[1];
    let centered = |r| {
        split(
            Direction::Horizontal,
            vec![Constraint::Percentage(10), Constraint::Percentage(80), Constraint::Percentage(10)],
            r,
        )[1]
    };
    let t = split(Direction::Vertical, vec![Constraint::Length(2), Constraint::Min(3)], p[3]);
    let b = split(
        Direction::Vertical,
        vec![Constraint::Length(3), Constraint::Length(1), Constraint::Length(1), Constraint::Length(2)],
        p[4],
    );
    assert_eq!(areas.title, from_ratatui(title));
    assert_eq!(areas.action_bar, from_ratatui(centered(p[1])));
    assert_eq!(areas.language, from_ratatui(centered(t[0])));
    assert_eq!(areas.sample_text, from_ratatui(centered(t[1])));
    assert_eq!(areas.command_bar, from_ratatui(centered(b[2])));
    // every area lies inside the preview's borders
    for r in [areas.title, areas.action_bar, areas.language, areas.sample_text, areas.command_bar] {
        assert!(r.x >= 11 && r.x + r.width <= 69 && r.y >= 3 && r.y + r.height <= 31);
    }
}
