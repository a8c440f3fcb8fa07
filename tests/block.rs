use tui_charts::buffer::Buffer;
use tui_charts::layout::Rect;
use tui_charts::style::Style;
use tui_charts::widgets::{Block, BorderType, Borders};

fn r(x: u16, y: u16, width: u16, height: u16) -> Rect {
    Rect { x, y, width, height }
}

#[test]
fn inner_takes_into_account_the_borders() {
    // No borders
    assert_eq!(Block::default().inner(Rect::default()), r(0, 0, 0, 0), "no borders, width=0, height=0");
    assert_eq!(Block::default().inner(r(0, 0, 1, 1)), r(0, 0, 1, 1), "no borders, width=1, height=1");

    // Left border
    assert_eq!(Block::default().borders(Borders::left()).inner(r(0, 0, 0, 1)), r(0, 0, 0, 1), "left, width=0");
    assert_eq!(Block::default().borders(Borders::left()).inner(r(0, 0, 1, 1)), r(1, 0, 0, 1), "left, width=1");
    assert_eq!(Block::default().borders(Borders::left()).inner(r(0, 0, 2, 1)), r(1, 0, 1, 1), "left, width=2");

    // Top border
    assert_eq!(Block::default().borders(Borders::top()).inner(r(0, 0, 1, 0)), r(0, 0, 1, 0), "top, height=0");
    assert_eq!(Block::default().borders(Borders::top()).inner(r(0, 0, 1, 1)), r(0, 1, 1, 0), "top, height=1");
    assert_eq!(Block::default().borders(Borders::top()).inner(r(0, 0, 1, 2)), r(0, 1, 1, 1), "top, height=2");

    // Right border
    assert_eq!(Block::default().borders(Borders::right()).inner(r(0, 0, 0, 1)), r(0, 0, 0, 1), "right, width=0");
    assert_eq!(Block::default().borders(Borders::right()).inner(r(0, 0, 1, 1)), r(0, 0, 0, 1), "right, width=1");
    assert_eq!(Block::default().borders(Borders::right()).inner(r(0, 0, 2, 1)), r(0, 0, 1, 1), "right, width=2");

    // Bottom border
    assert_eq!(Block::default().borders(Borders::bottom()).inner(r(0, 0, 1, 0)), r(0, 0, 1, 0), "bottom, height=0");
    assert_eq!(Block::default().borders(Borders::bottom()).inner(r(0, 0, 1, 1)), r(0, 0, 1, 0), "bottom, height=1");
    assert_eq!(Block::default().borders(Borders::bottom()).inner(r(0, 0, 1, 2)), r(0, 0, 1, 1), "bottom, height=2");

    // All borders
    assert_eq!(Block::default().borders(Borders::all()).inner(Rect::default()), r(0, 0, 0, 0), "all borders, width=0, height=0");
    assert_eq!(Block::default().borders(Borders::all()).inner(r(0, 0, 1, 1)), r(1, 1, 0, 0), "all borders, width=1, height=1");
    assert_eq!(Block::default().borders(Borders::all()).inner(r(0, 0, 2, 2)), r(1, 1, 0, 0), "all borders, width=2, height=2");
    assert_eq!(Block::default().borders(Borders::all()).inner(r(0, 0, 3, 3)), r(1, 1, 1, 1), "all borders, width=3, height=3");
}

#[test]
fn inner_takes_into_account_the_title() {
    assert_eq!(Block::default().title("Test").inner(r(0, 0, 0, 1)), r(0, 1, 0, 0));
}

#[test]
fn inner_stays_inside_at_the_far_edge() {
    let area = r(65534, 65534, 1, 1);
    let inner = Block::default().borders(Borders::all()).title("T").inner(area);
    assert_eq!(inner, r(65535, 65535, 0, 0));
    assert!(inner.right() <= area.right());
    assert!(inner.bottom() <= area.bottom());
}

fn row(buf: &Buffer, y: u16, width: u16) -> String {
    (0..width).map(|x| buf.get(x, y).symbol).collect()
}

#[test]
fn all_borders_draw_four_corners() {
    let area = r(0, 0, 4, 3);
    let mut buf = Buffer::empty(area);
    Block::default().borders(Borders::all()).render(area, &mut buf);
    assert_eq!(row(&buf, 0, 4), "\u{250c}\u{2500}\u{2500}\u{2510}");
    assert_eq!(row(&buf, 1, 4), "\u{2502}  \u{2502}");
    assert_eq!(row(&buf, 2, 4), "\u{2514}\u{2500}\u{2500}\u{2518}");
}

#[test]
fn lone_right_border_has_no_corner() {
    let area = r(0, 0, 3, 3);
    let mut buf = Buffer::empty(area);
    Block::default().borders(Borders::right()).render(area, &mut buf);
    for y in 0..3 {
        assert_eq!(row(&buf, y, 3), "  \u{2502}");
    }
}

#[test]
fn right_and_bottom_meet_in_one_corner() {
    let area = r(0, 0, 3, 2);
    let mut buf = Buffer::empty(area);
    Block::default().borders(Borders::right().union(Borders::bottom())).border_type(BorderType::Double).render(area, &mut buf);
    assert_eq!(row(&buf, 0, 3), "  \u{2551}");
    assert_eq!(row(&buf, 1, 3), "\u{2550}\u{2550}\u{255d}");
}

#[test]
fn rounded_corners() {
    let area = r(0, 0, 2, 2);
    let mut buf = Buffer::empty(area);
    Block::default().borders(Borders::all()).border_type(BorderType::Rounded).render(area, &mut buf);
    assert_eq!(row(&buf, 0, 2), "\u{256d}\u{256e}");
    assert_eq!(row(&buf, 1, 2), "\u{2570}\u{256f}");
}

#[test]
fn title_sits_between_the_side_borders() {
    let area = r(0, 0, 6, 3);
    let mut buf = Buffer::empty(area);
    Block::default().borders(Borders::all()).title("Title!").render(area, &mut buf);
    assert_eq!(row(&buf, 0, 6), "\u{250c}Titl\u{2510}");
}

#[test]
fn title_without_borders_starts_at_the_left() {
    let area = r(0, 0, 4, 1);
    let mut buf = Buffer::empty(area);
    Block::default().title("ab").render(area, &mut buf);
    assert_eq!(row(&buf, 0, 4), "ab  ");
}

#[test]
fn wide_title_characters_take_two_cells() {
    let area = r(0, 0, 5, 1);
    let mut buf = Buffer::empty(area);
    Block::default().title("\u{4e16}\u{754c}\u{4e16}").render(area, &mut buf);
    assert_eq!(row(&buf, 0, 5), "\u{4e16} \u{754c}  ");
}

#[test]
fn empty_area_draws_nothing() {
    let buf_area = r(0, 0, 2, 2);
    let mut buf = Buffer::empty(buf_area);
    Block::default().borders(Borders::all()).title("x").render(r(0, 0, 0, 2), &mut buf);
    assert_eq!(row(&buf, 0, 2), "  ");
    assert_eq!(row(&buf, 1, 2), "  ");
}

#[test]
fn retitle_and_untitle() {
    let mut b = Block::default();
    b.retitle("a");
    assert_eq!(b.title, Some("a"));
    b.untitle();
    assert_eq!(b.title, None);
    b.set_borders(Borders::top());
    assert_eq!(b.borders, Borders::top());
}

#[test]
fn control_characters_in_a_title_are_skipped() {
    let area = r(0, 0, 3, 1);
    let mut buf = Buffer::empty(area);
    Block::default().title("\u{7}ab\n").render(area, &mut buf);
    assert_eq!(row(&buf, 0, 3), "ab ");
}

#[test]
fn borders_carry_the_border_style_over_the_block_style() {
    let area = r(0, 0, 3, 3);
    let mut buf = Buffer::empty(area);
    Block::default()
        .borders(Borders::all())
        .style(Style::default().bg(2))
        .border_style(Style::default().fg(5))
        .render(area, &mut buf);
    assert_eq!(buf.get(0, 0).style.fg, Some(5));
    assert_eq!(buf.get(0, 0).style.bg, Some(2));
    assert_eq!(buf.get(1, 2).style.fg, Some(5));
    assert_eq!(buf.get(1, 1).style.fg, None);
    assert_eq!(buf.get(1, 1).style.bg, Some(2));
}
