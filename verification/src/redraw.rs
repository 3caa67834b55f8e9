//! Getting a screen onto the panel: the full redraw of a list or of a page
//! of text, and the two-row redraw that moves a highlight.
//!
//! Every redraw here asks the driver only for regions that lie on the
//! panel, so none of them can be refused.

use crate::bitmap::{bitmap_views, Bitmap, BitmapView};
use crate::compositor::{
    is_text_screen, list_frame, render_list, render_row, row_image, stack_rows, stacked, Labeled,
};
use crate::nanohat::oled::{
    clear_writes, image_writes, BusWriteView, NanoHatOLED, PANEL_PAGES, PANEL_WIDTH,
};
use crate::pane::{Pane, PaneView};
use vstd::prelude::*;

verus! {

/// What drawing `count` rows from page 0 down and blanking the pages below
/// them puts on the bus. With no rows nothing is drawn, with a full screen
/// nothing is blanked.
pub open spec fn screen_writes(frame: BitmapView, count: nat) -> Seq<BusWriteView> {
    (if count > 0 {
        image_writes(frame, 0, 0)
    } else {
        Seq::empty()
    }) + (if count < PANEL_PAGES {
        clear_writes(0, count as u8, PANEL_WIDTH, (PANEL_PAGES - count) as u8)
    } else {
        Seq::empty()
    })
}

/// What the full redraw of a list puts on the bus.
pub open spec fn list_writes<R: Labeled>(pane: PaneView<R>) -> Seq<BusWriteView> {
    screen_writes(list_frame(pane), pane.visible_count())
}

/// What moving the highlight from position `previous` of the window to the
/// selected one puts on the bus: the row that loses the highlight as it is,
/// then the row that gains it, inverted.
pub open spec fn highlight_writes<R: Labeled>(pane: PaneView<R>, previous: nat) -> Seq<
    BusWriteView,
> {
    image_writes(row_image(pane, previous as int, false), 0, previous as u8) + image_writes(
        row_image(pane, pane.selected as int, true),
        0,
        pane.selected as u8,
    )
}

/// What follows a move on the bus: a full redraw where the window
/// scrolled, the two rows where only the highlight moved, nothing where the
/// pane stayed as it was.
pub open spec fn move_writes<R: Labeled>(before: PaneView<R>, after: PaneView<R>) -> Seq<
    BusWriteView,
> {
    if after.start != before.start {
        list_writes(after)
    } else if after.selected != before.selected {
        highlight_writes(after, before.selected)
    } else {
        Seq::empty()
    }
}

/// What showing up to a screen of text rows puts on the bus.
pub open spec fn text_writes(rows: Seq<BitmapView>) -> Seq<BusWriteView> {
    screen_writes(stacked(rows, None), rows.len())
}

/// Draws `count` rows from page 0 down and blanks the pages below them.
fn draw_screen(display: &mut NanoHatOLED, frame: &Bitmap, count: usize)
    requires
        count <= PANEL_PAGES,
        frame@.wf(),
        frame@.width == PANEL_WIDTH,
        frame@.height == 8 * count,
    ensures
        final(display)@ == old(display)@ + screen_writes(frame@, count as nat),
{
    if count > 0 {
        let drawn = display.draw_image(frame, 0, 0);
        assert(drawn is Ok);
    }
    if count < PANEL_PAGES as usize {
        let cleared = display.clear(0, count as u8, PANEL_WIDTH, PANEL_PAGES - count as u8);
        assert(cleared is Ok);
    }
}

/// Redraws a list in full.
pub fn draw_list<R: Labeled>(display: &mut NanoHatOLED, pane: &Pane<R>)
    ensures
        final(display)@ == old(display)@ + list_writes(pane@),
{
    let count = pane.visible_count();
    let frame = render_list(pane);
    draw_screen(display, &frame, count);
}

/// Moves the highlight from position `previous` of the window to the
/// selected one by redrawing these two rows.
pub fn draw_highlight<R: Labeled>(display: &mut NanoHatOLED, pane: &Pane<R>, previous: usize)
    requires
        pane@.items.len() > 0,
        previous < pane@.visible_count(),
    ensures
        final(display)@ == old(display)@ + highlight_writes(pane@, previous as nat),
{
    let selected = pane.selected();
    let plain = render_row(pane, previous, false);
    let first = display.draw_image(&plain, 0, previous as u8);
    assert(first is Ok);
    let inverted = render_row(pane, selected, true);
    let second = display.draw_image(&inverted, 0, selected as u8);
    assert(second is Ok);
}

/// Brings the panel up to date after a move of `pane`, whose window began
/// at `start` and whose highlight stood at `selected` before it.
pub fn draw_move<R: Labeled>(
    display: &mut NanoHatOLED,
    pane: &Pane<R>,
    start: usize,
    selected: usize,
)
    requires
        pane@.items.len() > 0,
        start == pane@.start ==> selected < pane@.visible_count(),
    ensures
        final(display)@ == old(display)@ + move_writes(
            PaneView { start: start as nat, selected: selected as nat, ..pane@ },
            pane@,
        ),
{
    if pane.start() != start {
        draw_list(display, pane);
    } else if pane.selected() != selected {
        draw_highlight(display, pane, selected);
    }
}

/// Shows up to a screen of text rows, the first at the top, or nothing if
/// there are too many rows or one of them has not the size of a row.
pub fn draw_text(display: &mut NanoHatOLED, rows: &Vec<Bitmap>) -> (shown: bool)
    ensures
        shown <==> is_text_screen(bitmap_views(rows@)),
        final(display)@ == if shown {
            old(display)@ + text_writes(bitmap_views(rows@))
        } else {
            old(display)@
        },
{
    match stack_rows(rows) {
        None => false,
        Some(frame) => {
            draw_screen(display, &frame, rows.len());
            true
        },
    }
}

} // verus!
