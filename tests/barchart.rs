use tui_charts::buffer::Buffer;
use tui_charts::layout::Rect;
use tui_charts::style::Style;
use tui_charts::symbols::bar;
use tui_charts::widgets::{BarChart, Block, Borders};

fn row(buf: &Buffer, y: u16, width: u16) -> String {
    (0..width).map(|x| buf.get(x, y).symbol).collect()
}

const F: char = '\u{2588}';

fn full(n: usize) -> String {
    std::iter::repeat(F).take(n).collect()
}

#[test]
fn four_bars_in_five_rows() {
    let data = [("B0", 0), ("B1", 2), ("B2", 4), ("B3", 3)];
    let mut chart = BarChart::default().bar_width(3).bar_gap(1).data(&data).max(4);
    let area = Rect::new(0, 0, 16, 5);
    let mut buf = Buffer::empty(area);
    chart.render(area, &mut buf);
    assert_eq!(row(&buf, 0, 16), format!("        {}     ", full(3)));
    assert_eq!(row(&buf, 1, 16), format!("        {} {} ", full(3), full(3)));
    assert_eq!(row(&buf, 2, 16), format!("    {} {} {} ", full(3), full(3), full(3)));
    assert_eq!(row(&buf, 3, 16), format!("    {F}2{F} {F}4{F} {F}3{F} "));
    assert_eq!(row(&buf, 4, 16), "B0  B1  B2  B3  ");
}

#[test]
fn bars_that_do_not_fit_are_dropped() {
    let data = [("a", 1), ("b", 1), ("c", 1), ("d", 1)];
    let mut chart = BarChart::default().bar_width(3).bar_gap(1).data(&data).max(1);
    let area = Rect::new(0, 0, 15, 2);
    let mut buf = Buffer::empty(Rect::new(0, 0, 16, 2));
    chart.render(area, &mut buf);
    assert_eq!(row(&buf, 0, 16), format!("{F}1{F} {F}1{F} {F}1{F}     "));
    assert_eq!(row(&buf, 1, 16), "a   b   c       ");
}

#[test]
fn zero_width_and_gap_draw_no_bar() {
    let data = [("a", 5), ("b", 7)];
    let mut chart = BarChart::default().bar_width(0).bar_gap(0).data(&data);
    let area = Rect::new(0, 0, 4, 3);
    let mut buf = Buffer::empty(area);
    chart.render(area, &mut buf);
    for y in 0..3 {
        assert_eq!(row(&buf, y, 4), "    ");
    }
}

#[test]
fn value_as_wide_as_the_bar_is_not_written() {
    let data = [("x", 100), ("y", 50)];
    let mut chart = BarChart::default().bar_width(3).bar_gap(0).data(&data);
    let area = Rect::new(0, 0, 6, 2);
    let mut buf = Buffer::empty(area);
    chart.render(area, &mut buf);
    // Max is 100, one bar row: 100 * 8 / 100 = 8 and 50 * 8 / 100 = 4.
    // "100" is as wide as its bar and left out; "50" fits and is centred.
    assert_eq!(row(&buf, 0, 6), format!("{}50\u{2584}", full(3)));
    assert_eq!(row(&buf, 1, 6), "x  y  ");
}

#[test]
fn labels_are_cut_to_the_bar_width() {
    let data = [("LONGER", 0), ("Z", 0)];
    let mut chart = BarChart::default().bar_width(3).bar_gap(1).data(&data);
    let area = Rect::new(0, 0, 8, 2);
    let mut buf = Buffer::empty(area);
    chart.render(area, &mut buf);
    assert_eq!(row(&buf, 1, 8), "LON Z   ");
    assert_eq!(row(&buf, 0, 8), "        ");
}

#[test]
fn one_row_is_too_low_for_a_chart() {
    let data = [("a", 5)];
    let mut chart = BarChart::default().data(&data).style(Style::default().fg(3));
    let area = Rect::new(0, 0, 4, 1);
    let mut buf = Buffer::empty(area);
    chart.render(area, &mut buf);
    assert_eq!(row(&buf, 0, 4), "    ");
    assert_eq!(buf.get(0, 0).style.fg, Some(3));
}

#[test]
fn zero_max_and_zero_data_stay_empty() {
    let data = [("a", 0), ("b", 0)];
    let mut chart = BarChart::default().data(&data).max(0);
    let area = Rect::new(0, 0, 4, 3);
    let mut buf = Buffer::empty(area);
    chart.render(area, &mut buf);
    assert_eq!(row(&buf, 0, 4), "    ");
    assert_eq!(row(&buf, 1, 4), "    ");
    assert_eq!(row(&buf, 2, 4), "a b ");
}

#[test]
fn partial_glyphs_at_the_top_of_a_bar() {
    // Max 8 over two bar rows: heights v * 2 * 8 / 8 = 2v.
    let data = [("", 1), ("", 3), ("", 5), ("", 8)];
    let mut chart = BarChart::default().bar_width(1).bar_gap(0).data(&data).max(8);
    let area = Rect::new(0, 0, 4, 3);
    let mut buf = Buffer::empty(area);
    chart.render(area, &mut buf);
    assert_eq!(row(&buf, 0, 4), format!("  \u{2582}{F}"));
    assert_eq!(row(&buf, 1, 4), format!("\u{2582}\u{2586}{F}{F}"));
}

#[test]
fn block_frames_the_chart() {
    let data = [("a", 1)];
    let mut chart = BarChart::default()
        .block(Block::default().borders(Borders::all()).title("T"))
        .bar_width(2)
        .bar_gap(0)
        .data(&data)
        .bar_set(bar::three_levels());
    let area = Rect::new(0, 0, 4, 4);
    let mut buf = Buffer::empty(area);
    chart.render(area, &mut buf);
    assert_eq!(row(&buf, 0, 4), "\u{250c}T\u{2500}\u{2510}");
    assert_eq!(row(&buf, 1, 4), format!("\u{2502}1{F}\u{2502}"));
    assert_eq!(row(&buf, 2, 4), "\u{2502}a \u{2502}");
    assert!(chart.block.is_none());
}

#[test]
fn set_data_rebuilds_the_value_texts() {
    let first = [("a", 7), ("b", 12345)];
    let second = [("c", 0)];
    let mut chart = BarChart::default().data(&first);
    assert_eq!(chart.values, vec!["7".to_string(), "12345".to_string()]);
    chart.set_data(&second);
    assert_eq!(chart.values, vec!["0".to_string()]);
    assert_eq!(chart.data, &second[..]);
}

#[test]
fn labels_are_padded_in_the_label_style() {
    let data = [("a", 0)];
    let mut chart = BarChart::default().bar_width(3).bar_gap(0).data(&data).label_style(Style::default().fg(4));
    let area = Rect::new(0, 0, 3, 2);
    let mut buf = Buffer::empty(area);
    chart.render(area, &mut buf);
    assert_eq!(row(&buf, 1, 3), "a  ");
    assert_eq!(buf.get(2, 1).style.fg, Some(4));
    assert_eq!(buf.get(0, 0).style.fg, None);
}

#[test]
fn wide_label_characters_take_two_columns() {
    let data = [("\u{4e16}\u{754c}", 0)];
    let mut chart = BarChart::default().bar_width(3).bar_gap(0).data(&data);
    let area = Rect::new(0, 0, 3, 2);
    let mut buf = Buffer::empty(area);
    chart.render(area, &mut buf);
    assert_eq!(row(&buf, 1, 3), "\u{4e16}  ");
}

#[test]
fn bars_carry_the_bar_style_and_values_the_value_style() {
    let data = [("a", 9)];
    let mut chart = BarChart::default()
        .bar_width(3)
        .bar_gap(0)
        .data(&data)
        .bar_style(Style::default().fg(1))
        .value_style(Style::default().bg(7));
    let area = Rect::new(0, 0, 3, 3);
    let mut buf = Buffer::empty(area);
    chart.render(area, &mut buf);
    assert_eq!(row(&buf, 1, 3), format!("{F}9{F}"));
    assert_eq!(buf.get(1, 1).style.fg, Some(1));
    assert_eq!(buf.get(1, 1).style.bg, Some(7));
    assert_eq!(buf.get(0, 0).style.fg, Some(1));
    assert_eq!(buf.get(0, 0).style.bg, None);
}
