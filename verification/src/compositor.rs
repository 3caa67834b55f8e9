//! Building what the screens show: list frames with one highlighted row,
//! the two-row patch that moves a highlight, and wrapped text.

use crate::bitmap::{bitmap_views, Bitmap, BitmapView};
use crate::pane::{Pane, PaneView, PAGE_SIZE};
use vstd::prelude::*;
use vstd::std_specs::iter::IteratorSpec;

verus! {

broadcast use vstd::string::group_string_axioms;

/// Width of a row in pixels: the width of the panel.
pub const ROW_WIDTH: u32 = 128;

/// Height of a row in pixels: one page.
pub const ROW_HEIGHT: u32 = 8;

/// Pixels in a row.
pub const ROW_PIXELS: usize = 1024;

/// Most lines of text a screen holds.
pub const MAX_LINES: usize = 8;

/// Whether a raster has the size of one row.
pub open spec fn is_row(img: BitmapView) -> bool {
    &&& img.wf()
    &&& img.width == ROW_WIDTH
    &&& img.height == ROW_HEIGHT
}

/// A list entry that carries the raster of its text, one row in size.
pub trait Labeled {
    /// The raster of the entry's text.
    spec fn label_view(&self) -> BitmapView;

    /// The raster of the entry's text.
    fn label(&self) -> (img: &Bitmap)
        ensures
            img@ == self.label_view(),
            is_row(img@),
    ;
}

/// A row as it is drawn: as it is, or inverted when it is highlighted.
pub open spec fn drawn(row: BitmapView, highlighted: bool) -> BitmapView {
    if highlighted {
        row.inverted()
    } else {
        row
    }
}

/// The rows one below the other, the one at `highlight` inverted.
pub open spec fn stacked(rows: Seq<BitmapView>, highlight: Option<int>) -> BitmapView {
    BitmapView {
        width: ROW_WIDTH as nat,
        height: (ROW_HEIGHT * rows.len()) as nat,
        pixels: Seq::new(
            (ROW_PIXELS * rows.len()) as nat,
            |k: int|
                drawn(
                    rows[k / (ROW_PIXELS as int)],
                    highlight == Some(k / (ROW_PIXELS as int)),
                ).pixels[k % (ROW_PIXELS as int)],
        ),
    }
}

/// The rasters of the rows inside the window, top to bottom.
pub open spec fn window_labels<R: Labeled>(pane: PaneView<R>) -> Seq<BitmapView> {
    pane.window().map_values(|row: R| row.label_view())
}

/// The frame of a list: its visible rows from page 0 down, the selected
/// one inverted.
pub open spec fn list_frame<R: Labeled>(pane: PaneView<R>) -> BitmapView {
    stacked(window_labels(pane), Some(pane.selected as int))
}

/// The raster of the row at `position` of the window, inverted if asked.
pub open spec fn row_image<R: Labeled>(
    pane: PaneView<R>,
    position: int,
    highlighted: bool,
) -> BitmapView {
    drawn(pane.items[pane.start + position].label_view(), highlighted)
}

/// Pasting a row at page `position` of a frame of rows sets the pixels
/// of that row and leaves the others.
pub proof fn lemma_paste_row(frame: BitmapView, row: BitmapView, position: nat, k: int)
    requires
        frame.wf(),
        frame.width == ROW_WIDTH,
        is_row(row),
        ROW_HEIGHT * (position + 1) <= frame.height,
        0 <= k < frame.pixels.len(),
    ensures
        frame.overlaid(row, 0, (ROW_HEIGHT * position) as nat).pixels[k] == if k / (
        ROW_PIXELS as int) == position {
            row.pixels[k % (ROW_PIXELS as int)]
        } else {
            frame.pixels[k]
        },
{
    let x = k % 128;
    let y = k / 128;
    if k / 1024 == position {
    } else {
    }
}

/// Pastes `row` at page `position` of `frame`, inverted if asked.
fn paste_row(frame: &mut Bitmap, row: &Bitmap, position: u32, highlighted: bool)
    requires
        old(frame)@.wf(),
        old(frame)@.width == ROW_WIDTH,
        is_row(row@),
        ROW_HEIGHT * (position + 1) <= old(frame)@.height,
    ensures
        final(frame)@ == old(frame)@.overlaid(
            drawn(row@, highlighted),
            0,
            (ROW_HEIGHT * position) as nat,
        ),
        final(frame)@.wf(),
{
    if highlighted {
        let inverted = row.invert();
        frame.overlay(&inverted, 0, ROW_HEIGHT * position);
    } else {
        frame.overlay(row, 0, ROW_HEIGHT * position);
    }
}

/// Whether `frame` holds the first `done` of `rows` and is black below.
spec fn stacked_so_far(
    frame: BitmapView,
    rows: Seq<BitmapView>,
    highlight: Option<int>,
    done: int,
) -> bool {
    &&& frame.wf()
    &&& frame.width == ROW_WIDTH
    &&& frame.height == ROW_HEIGHT * rows.len()
    &&& forall|k: int|
        0 <= k < frame.pixels.len() ==> #[trigger] frame.pixels[k] == if k / (ROW_PIXELS as int)
            < done {
            stacked(rows, highlight).pixels[k]
        } else {
            0
        }
}

/// One more row of a frame under construction.
proof fn lemma_stack_step(
    before: BitmapView,
    after: BitmapView,
    rows: Seq<BitmapView>,
    highlight: Option<int>,
    done: int,
)
    requires
        0 <= done < rows.len(),
        is_row(rows[done]),
        stacked_so_far(before, rows, highlight, done),
        after == before.overlaid(
            drawn(rows[done], highlight == Some(done)),
            0,
            (ROW_HEIGHT * done) as nat,
        ),
    ensures
        stacked_so_far(after, rows, highlight, done + 1),
{
    let row = drawn(rows[done], highlight == Some(done));
    assert(before.pixels.len() == 1024 * rows.len()) by (nonlinear_arith)
        requires
            before.pixels.len() == before.width * before.height,
            before.width == 128,
            before.height == 8 * rows.len(),
    ;
    assert forall|k: int| 0 <= k < after.pixels.len() implies #[trigger] after.pixels[k] == if k
        / (ROW_PIXELS as int) < done + 1 {
        stacked(rows, highlight).pixels[k]
    } else {
        0
    } by {
        lemma_paste_row(before, row, done as nat, k);
    }
}

/// The frame of a list: its visible rows from page 0 down, the selected
/// one inverted.
pub fn render_list<R: Labeled>(pane: &Pane<R>) -> (frame: Bitmap)
    ensures
        frame@ == list_frame(pane@),
        frame@.wf(),
{
    let count = pane.visible_count();
    let selected = pane.selected();
    let mut frame = Bitmap::new(ROW_WIDTH, ROW_HEIGHT * count as u32);
    let ghost rows = window_labels(pane@);
    let ghost highlight = Some(selected as int);
    let mut i: usize = 0;
    while i < count
        invariant
            i <= count <= PAGE_SIZE,
            pane@.wf(),
            count == pane@.visible_count(),
            selected == pane@.selected,
            rows == window_labels(pane@),
            highlight == Some(selected as int),
            stacked_so_far(frame@, rows, highlight, i as int),
        decreases count - i,
    {
        let row = pane.visible(i).label();
        let ghost before = frame@;
        paste_row(&mut frame, row, i as u32, i == selected);
        proof {
            lemma_stack_step(before, frame@, rows, highlight, i as int);
        }
        i = i + 1;
    }
    assert(frame@.pixels =~= list_frame(pane@).pixels);
    frame
}

/// Whether `rows` are at most a screen of rasters of the size of a row.
pub open spec fn is_text_screen(rows: Seq<BitmapView>) -> bool {
    &&& rows.len() <= MAX_LINES
    &&& forall|i: int| 0 <= i < rows.len() ==> is_row(#[trigger] rows[i])
}

/// Up to a screen of rows one below the other, none highlighted, or nothing
/// if there are too many rows or one of them has not the size of a row.
pub fn stack_rows(rows: &Vec<Bitmap>) -> (frame: Option<Bitmap>)
    ensures
        frame is Some <==> is_text_screen(bitmap_views(rows@)),
        frame matches Some(f) ==> f@ == stacked(bitmap_views(rows@), None) && f@.wf(),
{
    let count = rows.len();
    if count > MAX_LINES {
        return None;
    }
    let mut frame = Bitmap::new(ROW_WIDTH, ROW_HEIGHT * count as u32);
    let ghost views = bitmap_views(rows@);
    let mut i: usize = 0;
    while i < count
        invariant
            i <= count <= MAX_LINES,
            count == rows@.len(),
            views == bitmap_views(rows@),
            forall|j: int| 0 <= j < i ==> is_row(#[trigger] views[j]),
            stacked_so_far(frame@, views, None, i as int),
        decreases count - i,
    {
        let row = &rows[i];
        assert(views[i as int] == row@);
        if row.width() != ROW_WIDTH || row.height() != ROW_HEIGHT {
            return None;
        }
        let ghost before = frame@;
        paste_row(&mut frame, row, i as u32, false);
        proof {
            lemma_stack_step(before, frame@, views, None, i as int);
        }
        i = i + 1;
    }
    assert(frame@.pixels =~= stacked(views, None).pixels);
    Some(frame)
}

/// The raster of the row at `position` of the window, inverted if asked.
pub fn render_row<R: Labeled>(pane: &Pane<R>, position: usize, highlighted: bool) -> (img: Bitmap)
    requires
        position < pane@.visible_count(),
    ensures
        img@ == row_image(pane@, position as int, highlighted),
        is_row(img@),
{
    let row = pane.visible(position).label();
    if highlighted {
        row.invert()
    } else {
        row.clone()
    }
}

/// Columns that a character takes: four in the ASCII range, eight beyond.
pub open spec fn char_width(c: char) -> nat {
    if (c as u32) < 128 {
        4
    } else {
        8
    }
}

/// Columns that a piece of text takes.
pub open spec fn text_width(text: Seq<char>) -> nat
    decreases text.len(),
{
    if text.len() == 0 {
        0
    } else {
        char_width(text[0]) + text_width(text.drop_first())
    }
}

/// Number of leading characters of `text` that fit in `budget` columns.
pub open spec fn line_len(text: Seq<char>, budget: int) -> nat
    decreases text.len(),
{
    if text.len() == 0 || char_width(text[0]) > budget {
        0
    } else {
        1 + line_len(text.drop_first(), budget - char_width(text[0]))
    }
}

/// `text` broken into lines, each taking as many characters as fit across
/// the panel. Text that fits in one line, the empty text too, is one line.
pub open spec fn wrapped(text: Seq<char>) -> Seq<Seq<char>>
    decreases text.len(),
{
    let n = line_len(text, ROW_WIDTH as int);
    if 0 < n < text.len() {
        seq![text.take(n as int)] + wrapped(text.skip(n as int))
    } else {
        seq![text]
    }
}

/// The lines of `text` that a screen shows: the first `MAX_LINES` of them.
pub open spec fn shown_lines(text: Seq<char>) -> Seq<Seq<char>> {
    if wrapped(text).len() > MAX_LINES {
        wrapped(text).take(MAX_LINES as int)
    } else {
        wrapped(text)
    }
}

/// The texts of a sequence of lines.
pub open spec fn line_views(lines: Seq<String>) -> Seq<Seq<char>> {
    lines.map_values(|line: String| line@)
}

/// Breaks `text` into the lines that a screen shows.
pub fn render_wrapped_text(text: &str) -> (lines: Vec<String>)
    ensures
        line_views(lines@) == shown_lines(text@),
{
    let n = text.unicode_len();
    let mut lines: Vec<String> = Vec::new();
    let mut it = text.chars();
    let mut i: usize = 0;
    let mut line_start: usize = 0;
    let mut width: u32 = 0;
    assert(text@.skip(0) =~= text@);
    loop
        invariant_except_break
            line_start <= i <= n,
            it.remaining() == text@.skip(i as int),
            lines@.len() < MAX_LINES,
            wrapped(text@) == line_views(lines@) + wrapped(
                text@.skip(line_start as int),
            ),
            line_len(text@.skip(line_start as int), ROW_WIDTH as int) == (i - line_start)
                + line_len(text@.skip(i as int), ROW_WIDTH - width),
        invariant
            n == text@.len(),
            it.obeys_prophetic_iter_laws(),
            width <= ROW_WIDTH,
            i == line_start ==> width == 0,
        ensures
            line_views(lines@) == shown_lines(text@),
        decreases n - i,
    {
        let ghost rest = text@.skip(line_start as int);
        match it.next() {
            None => {
                let line = text.substring_char(line_start, i).to_owned();
                lines.push(line);
                break;
            },
            Some(c) => {
                assert(text@.skip(i as int).drop_first() =~= text@.skip(i + 1));
                let w: u32 = if (c as u32) < 128 { 4 } else { 8 };
                if width + w > ROW_WIDTH {
                    let line = text.substring_char(line_start, i).to_owned();
                    lines.push(line);
                    proof {
                        let len = (i - line_start) as int;
                        assert(line@ =~= rest.take(len));
                        assert(rest.skip(len) =~= text@.skip(i as int));
                        assert(wrapped(text@) =~= line_views(lines@) + wrapped(
                            text@.skip(i as int),
                        ));
                    }
                    if lines.len() == MAX_LINES {
                        break;
                    }
                    line_start = i;
                    width = w;
                } else {
                    width = width + w;
                }
                i = i + 1;
            },
        }
    }
    lines
}

/// What `line_len` counts fits the budget, and where it stops short of the
/// end of the text the next character would not fit any more.
pub proof fn lemma_line_len(text: Seq<char>, budget: int)
    requires
        0 <= budget,
    ensures
        line_len(text, budget) <= text.len(),
        text_width(text.take(line_len(text, budget) as int)) <= budget,
        line_len(text, budget) < text.len() ==> text_width(
            text.take(line_len(text, budget) as int),
        ) + char_width(text[line_len(text, budget) as int]) > budget,
    decreases text.len(),
{
    if text.len() > 0 && char_width(text[0]) <= budget {
        let n = line_len(text, budget) as int;
        let rest = text.drop_first();
        lemma_line_len(rest, budget - char_width(text[0]));
        assert(text.take(n).drop_first() =~= rest.take(n - 1));
    }
}

/// No line is wider than the panel.
pub proof fn lemma_wrapped_lines_fit(text: Seq<char>)
    ensures
        wrapped(text).len() >= 1,
        forall|i: int|
            0 <= i < wrapped(text).len() ==> text_width(#[trigger] wrapped(text)[i]) <= ROW_WIDTH,
    decreases text.len(),
{
    let n = line_len(text, ROW_WIDTH as int) as int;
    lemma_line_len(text, ROW_WIDTH as int);
    if 0 < n < text.len() {
        lemma_wrapped_lines_fit(text.skip(n));
    } else {
        assert(text.take(text.len() as int) =~= text);
    }
}

/// The lines, one after the other, are the text: wrapping neither drops
/// nor adds nor reorders a character.
pub proof fn lemma_wrapped_keeps_text(text: Seq<char>)
    ensures
        wrapped(text).flatten() == text,
    decreases text.len(),
{
    let n = line_len(text, ROW_WIDTH as int) as int;
    lemma_line_len(text, ROW_WIDTH as int);
    let lines = wrapped(text);
    if 0 < n < text.len() {
        lemma_wrapped_keeps_text(text.skip(n));
        assert(lines.drop_first() =~= wrapped(text.skip(n)));
    } else {
        assert(lines.drop_first().flatten() =~= Seq::<char>::empty());
    }
}

/// Whether line `i` is full: the character that opens the next line would
/// not have fitted behind it.
pub open spec fn line_is_full(lines: Seq<Seq<char>>, i: int) -> bool {
    &&& lines[i + 1].len() > 0
    &&& text_width(lines[i]) + char_width(lines[i + 1][0]) > ROW_WIDTH
}

/// Every line but the last is full.
pub proof fn lemma_wrapped_is_greedy(text: Seq<char>)
    ensures
        forall|i: int|
            0 <= i < wrapped(text).len() - 1 ==> #[trigger] line_is_full(wrapped(text), i),
    decreases text.len(),
{
    let n = line_len(text, ROW_WIDTH as int) as int;
    lemma_line_len(text, ROW_WIDTH as int);
    if 0 < n < text.len() {
        let rest = text.skip(n);
        let lines = wrapped(text);
        let tail = wrapped(rest);
        lemma_wrapped_is_greedy(rest);
        lemma_line_len(rest, ROW_WIDTH as int);
        assert(tail[0].len() > 0 && tail[0][0] == text[n]);
        assert forall|i: int| 0 <= i < lines.len() - 1 implies #[trigger] line_is_full(
            lines,
            i,
        ) by {
            if i > 0 {
                assert(line_is_full(tail, i - 1));
            }
        }
    }
}

/// Thirty-two ASCII characters fill one line exactly, and a thirty-third
/// opens a second one.
pub proof fn lemma_ascii_line_holds_32(text: Seq<char>)
    requires
        text.len() == 33,
        forall|i: int| 0 <= i < text.len() ==> (#[trigger] text[i]) as u32 <= 0x7f,
    ensures
        text_width(text.take(32)) == ROW_WIDTH,
        wrapped(text.take(32)) == seq![text.take(32)],
        wrapped(text) == seq![text.take(32), seq![text[32]]],
{
    lemma_ascii_line_len(text, 32);
    lemma_ascii_line_len(text.take(32), 32);
    lemma_ascii_width(text.take(32));
    let last = text.skip(32);
    assert(last =~= seq![text[32]]);
    lemma_ascii_line_len(last, 32);
    assert(wrapped(last) == seq![last]);
}

/// A text of ASCII characters is four columns wide per character.
proof fn lemma_ascii_width(text: Seq<char>)
    requires
        forall|i: int| 0 <= i < text.len() ==> char_width(#[trigger] text[i]) == 4,
    ensures
        text_width(text) == 4 * text.len(),
    decreases text.len(),
{
    if text.len() > 0 {
        let rest = text.drop_first();
        lemma_ascii_width(rest);
    }
}

/// Of a text of ASCII characters as many fit in `4 * room` columns as there
/// is room for.
proof fn lemma_ascii_line_len(text: Seq<char>, room: nat)
    requires
        forall|i: int| 0 <= i < text.len() ==> char_width(#[trigger] text[i]) == 4,
    ensures
        line_len(text, 4 * (room as int)) == if text.len() <= room {
            text.len()
        } else {
            room
        },
    decreases text.len(),
{
    if text.len() > 0 && room > 0 {
        let rest = text.drop_first();
        lemma_ascii_line_len(rest, (room - 1) as nat);
    }
}

/// Moving a highlight by redrawing two rows gives the frame that a full
/// redraw gives: pasted into the frame of the list as it was with the
/// highlight at `previous`, the row at `previous` as it is and the selected
/// row inverted make the frame of the list as it is now.
pub proof fn lemma_highlight_patch<R: Labeled>(pane: PaneView<R>, previous: nat)
    requires
        pane.wf(),
        pane.items.len() > 0,
        previous < pane.visible_count(),
        forall|i: int|
            0 <= i < window_labels(pane).len() ==> is_row(#[trigger] window_labels(pane)[i]),
    ensures
        list_frame(PaneView { selected: previous, ..pane }).overlaid(
            row_image(pane, previous as int, false),
            0,
            (ROW_HEIGHT * previous) as nat,
        ).overlaid(
            row_image(pane, pane.selected as int, true),
            0,
            (ROW_HEIGHT * pane.selected) as nat,
        ) == list_frame(pane),
{
    let before = PaneView { selected: previous, ..pane };
    let rows = window_labels(pane);
    let old_frame = list_frame(before);
    let plain = row_image(pane, previous as int, false);
    let lit = row_image(pane, pane.selected as int, true);
    assert(rows[previous as int] == plain);
    assert(is_row(rows[pane.selected as int]));
    let mid = old_frame.overlaid(plain, 0, (ROW_HEIGHT * previous) as nat);
    let new_frame = mid.overlaid(lit, 0, (ROW_HEIGHT * pane.selected) as nat);
    assert(new_frame.pixels =~= list_frame(pane).pixels) by {
        assert forall|k: int| 0 <= k < new_frame.pixels.len() implies new_frame.pixels[k]
            == list_frame(pane).pixels[k] by {
            lemma_paste_row(old_frame, plain, previous, k);
            lemma_paste_row(mid, lit, pane.selected, k);
        }
    }
}

} // verus!
