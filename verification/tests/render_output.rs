use waveview::render::render_plot;

const BLACK: [u8; 4] = [0, 0, 0, 255];
const WHITE: [u8; 4] = [255, 255, 255, 255];
const GREEN: [u8; 4] = [0, 255, 0, 255];
const RED: [u8; 4] = [255, 0, 0, 255];

fn pixel(buf: &[u8], width: u32, x: u32, y: u32) -> [u8; 4] {
    let i = 4 * (y as usize * width as usize + x as usize);
    [buf[i], buf[i + 1], buf[i + 2], buf[i + 3]]
}

#[test]
fn empty_canvas_is_empty() {
    let history: Vec<(i32, i32)> = vec![];
    assert_eq!(render_plot(&history, 0, 0), Vec::<u8>::new());
}

#[test]
fn all_zero_history_draws_only_the_baseline() {
    let history: Vec<(i32, i32)> = vec![(0, 0), (0, 0), (0, 0)];
    let width = 4u32;
    let height = 4u32;
    let buf = render_plot(&history, width, height);
    assert_eq!(buf.len(), (4 * width * height) as usize);
    for y in 0..height {
        for x in 0..width {
            let expected = if y == height / 2 { WHITE } else { BLACK };
            assert_eq!(pixel(&buf, width, x, y), expected, "at ({x}, {y})");
        }
    }
}

#[test]
fn segments_are_normalized_and_clipped() {
    // One column: left deviation +100 (green, downwards to the clipped
    // bottom), right deviation -100 (red, upwards to the top).
    let history: Vec<(i32, i32)> = vec![(100, -100)];
    let width = 1u32;
    let height = 8u32;
    let buf = render_plot(&history, width, height);
    assert_eq!(buf.len(), 32);
    // center 4; scale by the largest magnitude 100: the left value maps to
    // row 8 (clipped to 7), the right one to row 0.
    for y in 0..4u32 {
        assert_eq!(pixel(&buf, width, 0, y), RED, "row {y}");
    }
    assert_eq!(pixel(&buf, width, 0, 4), WHITE);
    for y in 5..8u32 {
        assert_eq!(pixel(&buf, width, 0, y), GREEN, "row {y}");
    }
}

#[test]
fn red_draws_over_green() {
    // Both components positive and equal: the segments coincide and the
    // right channel's red wins.
    let history: Vec<(i32, i32)> = vec![(50, 50)];
    let width = 1u32;
    let height = 6u32;
    let buf = render_plot(&history, width, height);
    // center 3, both map to row 6, clipped to rows 4..=5.
    assert_eq!(pixel(&buf, width, 0, 3), WHITE);
    assert_eq!(pixel(&buf, width, 0, 4), RED);
    assert_eq!(pixel(&buf, width, 0, 5), RED);
    assert_eq!(pixel(&buf, width, 0, 0), BLACK);
}

#[test]
fn columns_stop_at_the_canvas_edge() {
    let history: Vec<(i32, i32)> = vec![(10, -10); 5];
    let width = 2u32;
    let height = 4u32;
    let buf = render_plot(&history, width, height);
    assert_eq!(buf.len(), 32);
    // Only the first two pairs are drawn; both columns show red above,
    // white baseline, green below.
    for x in 0..2u32 {
        assert_eq!(pixel(&buf, width, x, 2), WHITE, "column {x}");
        assert_eq!(pixel(&buf, width, x, 3), GREEN, "column {x}");
        assert_eq!(pixel(&buf, width, x, 0), RED, "column {x}");
        assert_eq!(pixel(&buf, width, x, 1), RED, "column {x}");
    }
}

#[test]
fn columns_past_the_history_stay_background() {
    let history: Vec<(i32, i32)> = vec![(10, -10)];
    let width = 3u32;
    let height = 4u32;
    let buf = render_plot(&history, width, height);
    for x in 1..3u32 {
        for y in 0..4u32 {
            let expected = if y == 2 { WHITE } else { BLACK };
            assert_eq!(pixel(&buf, width, x, y), expected, "at ({x}, {y})");
        }
    }
}
