use tui_charts::buffer::Buffer;
use tui_charts::layout::Rect;
use tui_charts::widgets::{Block, Borders, Sparkline};

fn row(buf: &Buffer, y: u16, width: u16) -> String {
    (0..width).map(|x| buf.get(x, y).symbol).collect()
}

#[test]
fn it_does_not_panic_if_max_is_zero() {
    let mut widget = Sparkline::default().data(&[0, 0, 0]);
    let area = Rect::new(0, 0, 3, 1);
    let mut buffer = Buffer::empty(area);
    widget.render(area, &mut buffer);
    assert_eq!(row(&buffer, 0, 3), "   ");
}

#[test]
fn it_does_not_panic_if_max_is_set_to_zero() {
    let mut widget = Sparkline::default().data(&[0, 1, 2]).max(0);
    let area = Rect::new(0, 0, 3, 1);
    let mut buffer = Buffer::empty(area);
    widget.render(area, &mut buffer);
    assert_eq!(row(&buffer, 0, 3), "   ");
}

#[test]
fn one_row_sparkline_uses_eighths() {
    let mut widget = Sparkline::default().data(&[0, 1, 4, 7, 8, 9]).max(8);
    let area = Rect::new(0, 0, 6, 1);
    let mut buffer = Buffer::empty(area);
    widget.render(area, &mut buffer);
    assert_eq!(row(&buffer, 0, 6), " \u{2581}\u{2584}\u{2587}\u{2588}\u{2588}");
}

#[test]
fn columns_stack_over_rows() {
    // Max taken from the data: 4. Heights over 2 rows: v * 2 * 8 / 4.
    let mut widget = Sparkline::default().data(&[1, 2, 3, 4]);
    let area = Rect::new(0, 0, 4, 2);
    let mut buffer = Buffer::empty(area);
    widget.render(area, &mut buffer);
    assert_eq!(row(&buffer, 1, 4), "\u{2584}\u{2588}\u{2588}\u{2588}");
    assert_eq!(row(&buffer, 0, 4), "  \u{2584}\u{2588}");
}

#[test]
fn extra_points_are_dropped() {
    let mut widget = Sparkline::default().data(&[8, 8, 8, 8]).max(8);
    let area = Rect::new(0, 0, 2, 1);
    let mut buffer = Buffer::empty(Rect::new(0, 0, 4, 1));
    widget.render(area, &mut buffer);
    assert_eq!(row(&buffer, 0, 4), "\u{2588}\u{2588}  ");
}

#[test]
fn empty_data_draws_nothing() {
    let mut widget = Sparkline::default();
    let area = Rect::new(0, 0, 3, 2);
    let mut buffer = Buffer::empty(area);
    widget.render(area, &mut buffer);
    assert_eq!(row(&buffer, 0, 3), "   ");
    assert_eq!(row(&buffer, 1, 3), "   ");
}

#[test]
fn block_is_drawn_and_used_up() {
    let mut widget = Sparkline::default().block(Block::default().borders(Borders::all())).data(&[8]).max(8);
    let area = Rect::new(0, 0, 3, 3);
    let mut buffer = Buffer::empty(area);
    widget.render(area, &mut buffer);
    assert_eq!(row(&buffer, 0, 3), "\u{250c}\u{2500}\u{2510}");
    assert_eq!(row(&buffer, 1, 3), "\u{2502}\u{2588}\u{2502}");
    assert!(widget.block.is_none());
}
