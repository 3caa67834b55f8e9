use nanohat_feed::bitmap::Bitmap;
use nanohat_feed::compositor::{
    render_list, render_row, render_wrapped_text, stack_rows, Labeled, MAX_LINES, ROW_PIXELS,
};
use nanohat_feed::feed::FeedItem;
use nanohat_feed::pane::Pane;

fn row_of(value: u8) -> Bitmap {
    Bitmap::from_raw(128, 8, vec![value; 1024]).unwrap()
}

fn entries(n: u8) -> Pane<FeedItem> {
    Pane::new(
        (0..n)
            .map(|i| FeedItem::new(format!("entry {}", i), None, row_of(10 + i)).unwrap())
            .collect(),
    )
}

fn row_values(frame: &Bitmap) -> Vec<u8> {
    let pixels = frame.pixels();
    assert_eq!(pixels.len() % 1024, 0);
    pixels
        .chunks(1024)
        .map(|row| {
            assert!(row.iter().all(|p| *p == row[0]));
            row[0]
        })
        .collect()
}

#[test]
fn wrapping_32_ascii_characters_gives_one_line() {
    let text = "abcdefghijklmnopqrstuvwxyz012345";
    assert_eq!(text.len(), 32);
    assert_eq!(render_wrapped_text(text), vec![text.to_string()]);
}

#[test]
fn the_33rd_ascii_character_starts_a_second_line() {
    let text = "abcdefghijklmnopqrstuvwxyz0123456";
    assert_eq!(
        render_wrapped_text(text),
        vec!["abcdefghijklmnopqrstuvwxyz012345".to_string(), "6".to_string()]
    );
}

#[test]
fn wrapping_the_empty_text_gives_one_empty_line() {
    assert_eq!(render_wrapped_text(""), vec![String::new()]);
}

#[test]
fn wide_characters_take_eight_columns() {
    let sixteen = "あいうえおかきくけこさしすせそた";
    assert_eq!(sixteen.chars().count(), 16);
    assert_eq!(render_wrapped_text(sixteen), vec![sixteen.to_string()]);
    let seventeen = "あいうえおかきくけこさしすせそたち";
    assert_eq!(
        render_wrapped_text(seventeen),
        vec![sixteen.to_string(), "ち".to_string()]
    );
}

#[test]
fn a_wide_character_that_does_not_fit_moves_down_whole() {
    // 31 narrow characters leave four columns, too few for a wide one
    let text = "0123456789012345678901234567890あb";
    assert_eq!(
        render_wrapped_text(text),
        vec!["0123456789012345678901234567890".to_string(), "あb".to_string()]
    );
}

#[test]
fn only_the_first_eight_lines_are_kept() {
    let text = "x".repeat(32 * 8 + 1);
    let lines = render_wrapped_text(&text);
    assert_eq!(lines.len(), MAX_LINES);
    assert!(lines.iter().all(|line| line == &"x".repeat(32)));
    let exact = render_wrapped_text(&"y".repeat(32 * 8));
    assert_eq!(exact.len(), 8);
    let long = render_wrapped_text(&"z".repeat(5000));
    assert_eq!(long.len(), 8);
}

#[test]
fn lines_keep_the_order_of_the_text() {
    let text: String = (0..100).map(|i| char::from(b'a' + (i % 26) as u8)).collect();
    let lines = render_wrapped_text(&text);
    assert_eq!(lines.len(), 4);
    assert_eq!(lines.concat(), text);
    assert_eq!(lines[3].len(), 4);
}

#[test]
fn list_frame_stacks_the_window_and_inverts_the_selected_row() {
    let mut pane = entries(10);
    let frame = render_list(&pane);
    assert_eq!((frame.width(), frame.height()), (128, 64));
    assert_eq!(row_values(&frame), vec![245, 11, 12, 13, 14, 15, 16, 17]);
    for _ in 0..8 {
        pane.move_down();
    }
    // window 1..9, highlight on its last row
    let frame = render_list(&pane);
    assert_eq!(row_values(&frame), vec![11, 12, 13, 14, 15, 16, 17, 255 - 18]);
}

#[test]
fn list_frame_of_a_short_list_is_as_tall_as_the_list() {
    let mut pane = entries(3);
    pane.move_down();
    let frame = render_list(&pane);
    assert_eq!((frame.width(), frame.height()), (128, 24));
    assert_eq!(row_values(&frame), vec![10, 244, 12]);
    let empty = render_list(&entries(0));
    assert_eq!((empty.width(), empty.height()), (128, 0));
    assert!(empty.pixels().is_empty());
}

#[test]
fn list_frame_keeps_each_pixel_in_its_place() {
    let mut top = vec![0u8; ROW_PIXELS];
    top[5] = 200;
    top[128 * 7 + 127] = 100;
    let mut below = vec![0u8; ROW_PIXELS];
    below[128 * 3 + 9] = 50;
    let pane = Pane::new(vec![
        FeedItem::new("a".to_string(), None, Bitmap::from_raw(128, 8, top).unwrap()).unwrap(),
        FeedItem::new("b".to_string(), None, Bitmap::from_raw(128, 8, below).unwrap()).unwrap(),
    ]);
    let frame = render_list(&pane);
    // the first row is selected, so it is inverted
    assert_eq!(frame.get_pixel(5, 0), 55);
    assert_eq!(frame.get_pixel(127, 7), 155);
    assert_eq!(frame.get_pixel(0, 0), 255);
    assert_eq!(frame.get_pixel(9, 11), 50);
    assert_eq!(frame.get_pixel(9, 10), 0);
}

#[test]
fn row_images_come_plain_or_inverted() {
    let mut pane = entries(10);
    for _ in 0..9 {
        pane.move_down();
    }
    assert_eq!((pane.start(), pane.selected()), (2, 7));
    assert_eq!(row_values(&render_row(&pane, 0, false)), vec![12]);
    assert_eq!(row_values(&render_row(&pane, 7, true)), vec![255 - 19]);
    assert_eq!(row_values(pane.get(2).label()), vec![12]);
}

#[test]
fn text_rows_are_stacked_without_a_highlight() {
    let frame = stack_rows(&vec![row_of(1), row_of(2), row_of(3)]).unwrap();
    assert_eq!((frame.width(), frame.height()), (128, 24));
    assert_eq!(row_values(&frame), vec![1, 2, 3]);
    let none = stack_rows(&Vec::new()).unwrap();
    assert_eq!((none.width(), none.height()), (128, 0));
}

#[test]
fn rows_of_another_size_are_not_stacked() {
    assert!(stack_rows(&vec![row_of(1), Bitmap::new(128, 16)]).is_none());
    assert!(stack_rows(&vec![Bitmap::new(127, 8)]).is_none());
    let nine: Vec<Bitmap> = (0..9).map(row_of).collect();
    assert!(stack_rows(&nine).is_none());
    let eight: Vec<Bitmap> = (0..8).map(row_of).collect();
    assert!(stack_rows(&eight).is_some());
}

#[test]
fn bitmaps_are_built_only_with_one_byte_per_pixel() {
    assert!(Bitmap::from_raw(2, 2, vec![0; 4]).is_some());
    assert!(Bitmap::from_raw(2, 2, vec![0; 3]).is_none());
    assert!(Bitmap::from_raw(2, 2, vec![0; 5]).is_none());
    assert!(Bitmap::from_raw(0, 7, Vec::new()).is_some());
    let blank = Bitmap::new(3, 2);
    assert_eq!(blank.pixels(), &vec![0u8; 6]);
}

#[test]
fn invert_takes_each_pixel_to_its_complement() {
    let img = Bitmap::from_raw(2, 2, vec![0, 255, 1, 200]).unwrap();
    assert_eq!(img.invert().pixels(), &vec![255, 0, 254, 55]);
    assert_eq!(img.clone().pixels(), img.pixels());
}

#[test]
fn overlay_copies_what_lies_on_the_canvas() {
    let mut canvas = Bitmap::new(4, 3);
    let patch = Bitmap::from_raw(2, 2, vec![1, 2, 3, 4]).unwrap();
    canvas.overlay(&patch, 1, 1);
    assert_eq!(canvas.pixels(), &vec![0, 0, 0, 0, 0, 1, 2, 0, 0, 3, 4, 0]);
    // what sticks out to the right or below is cut off
    canvas.overlay(&patch, 3, 2);
    assert_eq!(canvas.pixels(), &vec![0, 0, 0, 0, 0, 1, 2, 0, 0, 3, 4, 1]);
    canvas.overlay(&patch, 4, 0);
    canvas.overlay(&patch, 0, 3);
    assert_eq!(canvas.pixels(), &vec![0, 0, 0, 0, 0, 1, 2, 0, 0, 3, 4, 1]);
}
