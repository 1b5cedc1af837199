use city_tiles_pos::services::receipt_bitmap::{encode_raster_stream, Canvas, ESC, GS, MARGIN_Y_ROWS,
    PRINT_WIDTH_PX, ROW_BYTES};

#[test]
fn raster_stream_header_is_valid() {
    let mut c = Canvas::new();
    c.push_blank(MARGIN_Y_ROWS * 2);
    let stream = encode_raster_stream(&c);
    assert_eq!(&stream[0..2], &[ESC, b'@']);
    assert_eq!(&stream[2..6], &[GS, b'v', b'0', 0]);
    assert_eq!(&stream[6..8], &(ROW_BYTES as u16).to_le_bytes());
    assert_eq!(&stream[8..10], &((MARGIN_Y_ROWS * 2) as u16).to_le_bytes());
    let expected_len = 2 + 8 + ROW_BYTES * (MARGIN_Y_ROWS * 2) + 3 + 3;
    assert_eq!(stream.len(), expected_len);
}

#[test]
fn canvas_set_px_bounds_safe() {
    let mut c = Canvas::new();
    c.push_blank(4);
    c.set_px(-1, 0);
    c.set_px(0, -1);
    c.set_px(PRINT_WIDTH_PX as i32, 0);
    c.set_px(0, 9999);
    c.set_px(0, 0);
    assert_eq!(c.rows[0][0], 0x80);
    c.set_px(7, 0);
    assert_eq!(c.rows[0][0], 0x81);
}

#[test]
fn raster_stream_splits_tall_canvases_into_bands() {
    let mut c = Canvas::new();
    c.push_blank(801);
    let stream = encode_raster_stream(&c);
    // init, two band headers, rows, feed, cut
    assert_eq!(stream.len(), 2 + 8 + 8 + ROW_BYTES * 801 + 3 + 3);
    assert_eq!(&stream[8..10], &800u16.to_le_bytes());
    let second = 2 + 8 + ROW_BYTES * 800;
    assert_eq!(&stream[second..second + 4], &[GS, b'v', b'0', 0]);
    assert_eq!(&stream[second + 6..second + 8], &1u16.to_le_bytes());
    assert_eq!(&stream[stream.len() - 6..], &[b'\n', b'\n', b'\n', GS, b'V', 1]);
}

#[test]
fn empty_canvas_is_init_feed_and_cut() {
    let c = Canvas::new();
    let stream = encode_raster_stream(&c);
    assert_eq!(stream, vec![ESC, b'@', b'\n', b'\n', b'\n', GS, b'V', 1]);
}

#[test]
fn dashed_rule_is_three_on_three_off() {
    let mut c = Canvas::new();
    c.dashed_rule();
    assert_eq!(c.rows.len(), 2);
    // pixels 24..=26 on, 27..=29 off: byte 3 holds pixels 24..31
    assert_eq!(c.rows[0][3], 0b1110_0011);
    assert_eq!(c.rows[1][3], 0b1110_0011);
    assert_eq!(c.rows[0][0], 0);
    assert_eq!(c.rows[0][ROW_BYTES - 1], 0);
}

#[test]
fn solid_rule_spans_the_margins() {
    let mut c = Canvas::new();
    c.solid_rule();
    assert_eq!(c.rows.len(), 2);
    assert_eq!(c.rows[0][2], 0);
    assert_eq!(c.rows[0][3], 0xFF);
    assert_eq!(c.rows[1][ROW_BYTES - 4], 0xFF);
    assert_eq!(c.rows[1][ROW_BYTES - 3], 0);
}

#[test]
fn plotting_a_dot_twice_is_plotting_it_once() {
    let mut once = Canvas::new();
    once.push_blank(3);
    once.set_px(13, 1);
    let mut twice = Canvas::new();
    twice.push_blank(3);
    twice.set_px(13, 1);
    twice.set_px(13, 1);
    assert_eq!(once.rows, twice.rows);
    assert_eq!(twice.rows[1][1], 0x04);
}
