//! The three screens and the moves between them.
//!
//! The controller decides; it fetches, draws glyphs and writes to the bus
//! through its caller. A press returns the outside work that the move
//! needs, if any, and the move is completed by handing in what that work
//! gave. What is to be written to the panel is queued in the driver that
//! the controller owns.

use crate::bitmap::{bitmap_views, Bitmap, BitmapView};
use crate::compositor::{
    is_text_screen, line_views, render_wrapped_text, shown_lines, Labeled,
};
use crate::feed::{FeedCategory, FeedItem, FetchError};
use crate::nanohat::oled::{
    all_fit_bus, command_write, init_sequence, write_views, BusWrite, BusWriteView, NanoHatOLED,
};
use crate::pane::{Move, Pane, PaneView};
use crate::redraw::{draw_list, draw_move, draw_text, list_writes, move_writes, text_writes};
use vstd::prelude::*;

verus! {

/// What a snapshot of the three buttons means.
#[derive(Clone, Copy, Debug, PartialEq, Eq, Structural)]
pub enum Gesture {
    /// The first button alone.
    Down,
    /// The second button alone.
    Select,
    /// The third button alone.
    Up,
    /// The first and the third button together, without the second.
    Back,
    /// Anything else, no button at all included.
    Ignored,
}

/// The meaning of a snapshot, the buttons in the order down, select, up.
pub open spec fn gesture_of(pressed: [bool; 3]) -> Gesture {
    if pressed[0] && !pressed[1] && !pressed[2] {
        Gesture::Down
    } else if !pressed[0] && pressed[1] && !pressed[2] {
        Gesture::Select
    } else if !pressed[0] && !pressed[1] && pressed[2] {
        Gesture::Up
    } else if pressed[0] && !pressed[1] && pressed[2] {
        Gesture::Back
    } else {
        Gesture::Ignored
    }
}

/// The meaning of a snapshot, the buttons in the order down, select, up.
pub fn gesture(pressed: [bool; 3]) -> (g: Gesture)
    ensures
        g == gesture_of(pressed),
{
    let down = pressed[0];
    let select = pressed[1];
    let up = pressed[2];
    if down && !select && !up {
        Gesture::Down
    } else if !down && select && !up {
        Gesture::Select
    } else if !down && !select && up {
        Gesture::Up
    } else if down && !select && up {
        Gesture::Back
    } else {
        Gesture::Ignored
    }
}

/// The screen that is shown. The title list and the text of one entry own
/// the entries of the feed that was fetched last.
#[derive(Debug)]
pub enum NavigationState {
    /// The list of categories.
    Categories,
    /// The titles of one category's feed.
    Titles { pane: Pane<FeedItem> },
    /// The description of the entry that is selected in `pane`.
    Details { pane: Pane<FeedItem> },
}

/// Mathematical model of the screen that is shown.
pub enum ScreenView {
    Categories,
    Titles { pane: PaneView<FeedItem> },
    Details { pane: PaneView<FeedItem> },
}

impl View for NavigationState {
    type V = ScreenView;

    open spec fn view(&self) -> ScreenView {
        match self {
            NavigationState::Categories => ScreenView::Categories,
            NavigationState::Titles { pane } => ScreenView::Titles { pane: pane@ },
            NavigationState::Details { pane } => ScreenView::Details { pane: pane@ },
        }
    }
}

/// Outside work that a press asks for.
#[derive(Debug)]
pub enum Action {
    /// Nothing.
    Idle,
    /// Fetch the feed at `url`, then call `fetch_done`.
    Fetch { url: String },
    /// Draw each of `lines` as one row, then call `text_ready`.
    Rasterize { lines: Vec<String> },
}

/// Mathematical model of the outside work that a press asks for.
pub enum ActionView {
    Idle,
    Fetch { url: Seq<char> },
    Rasterize { lines: Seq<Seq<char>> },
}

impl View for Action {
    type V = ActionView;

    open spec fn view(&self) -> ActionView {
        match self {
            Action::Idle => ActionView::Idle,
            Action::Fetch { url } => ActionView::Fetch { url: url@ },
            Action::Rasterize { lines } => ActionView::Rasterize { lines: line_views(lines@) },
        }
    }
}

/// Mathematical model of the controller: the category list, the screen
/// that is shown, and the writes that wait for the bus.
pub struct ControllerView {
    pub categories: PaneView<FeedCategory>,
    pub screen: ScreenView,
    pub pending: Seq<BusWriteView>,
}

impl ControllerView {
    /// The controller at start: the category list at its top, shown in
    /// full on a panel that was just switched on.
    pub open spec fn initial(categories: Seq<FeedCategory>) -> ControllerView {
        ControllerView {
            categories: PaneView::fresh(categories),
            screen: ScreenView::Categories,
            pending: seq![command_write(init_sequence())] + list_writes(
                PaneView::fresh(categories),
            ),
        }
    }

    /// The controller with the category list moved to `moved`.
    pub open spec fn with_categories(self, moved: PaneView<FeedCategory>) -> ControllerView {
        ControllerView {
            categories: moved,
            pending: self.pending + move_writes(self.categories, moved),
            ..self
        }
    }

    /// The controller with the title list moved from `pane` to `moved`.
    pub open spec fn with_titles(
        self,
        pane: PaneView<FeedItem>,
        moved: PaneView<FeedItem>,
    ) -> ControllerView {
        ControllerView {
            screen: ScreenView::Titles { pane: moved },
            pending: self.pending + move_writes(pane, moved),
            ..self
        }
    }

    /// The controller after a gesture. In a list, down and up move the
    /// highlight and redraw what changed. Back leaves the text of an entry
    /// for the titles and the titles for the categories, each redrawn in
    /// full where it was left. Select changes nothing by itself, and so
    /// does every gesture that the screen has no use for.
    pub open spec fn after_press(self, g: Gesture) -> ControllerView {
        match self.screen {
            ScreenView::Categories => match g {
                Gesture::Down => self.with_categories(self.categories.moved_down()),
                Gesture::Up => self.with_categories(self.categories.moved_up()),
                _ => self,
            },
            ScreenView::Titles { pane } => match g {
                Gesture::Down => self.with_titles(pane, pane.moved_down()),
                Gesture::Up => self.with_titles(pane, pane.moved_up()),
                Gesture::Back => ControllerView {
                    screen: ScreenView::Categories,
                    pending: self.pending + list_writes(self.categories),
                    ..self
                },
                _ => self,
            },
            ScreenView::Details { pane } => match g {
                Gesture::Back => ControllerView {
                    screen: ScreenView::Titles { pane },
                    pending: self.pending + list_writes(pane),
                    ..self
                },
                _ => self,
            },
        }
    }

    /// The outside work that a gesture asks for: the feed of the selected
    /// category, or the rows of the selected entry's description. An empty
    /// list has nothing to select.
    pub open spec fn action_on(self, g: Gesture) -> ActionView {
        match (self.screen, g) {
            (ScreenView::Categories, Gesture::Select) => if self.categories.items.len() > 0 {
                ActionView::Fetch {
                    url: self.categories.items[self.categories.current_index() as int]@.source_url,
                }
            } else {
                ActionView::Idle
            },
            (ScreenView::Titles { pane }, Gesture::Select) => if pane.items.len() > 0 {
                ActionView::Rasterize {
                    lines: shown_lines(
                        pane.items[pane.current_index() as int]@.description_text(),
                    ),
                }
            } else {
                ActionView::Idle
            },
            _ => ActionView::Idle,
        }
    }

    /// The controller after a fetch succeeded with `items`: from the
    /// category list the title list of the new entries is shown, at its
    /// top; on another screen the entries are dropped.
    pub open spec fn after_fetch(self, items: Seq<FeedItem>) -> ControllerView {
        match self.screen {
            ScreenView::Categories => ControllerView {
                screen: ScreenView::Titles { pane: PaneView::fresh(items) },
                pending: self.pending + list_writes(PaneView::fresh(items)),
                ..self
            },
            _ => self,
        }
    }

    /// Whether `rows` can be shown as the text of the selected entry.
    pub open spec fn accepts_text(self, rows: Seq<BitmapView>) -> bool {
        &&& self.screen is Titles
        &&& is_text_screen(rows)
    }

    /// The controller after the rows of a description came in.
    pub open spec fn after_text(self, rows: Seq<BitmapView>) -> ControllerView {
        match self.screen {
            ScreenView::Titles { pane } => ControllerView {
                screen: ScreenView::Details { pane },
                pending: self.pending + text_writes(rows),
                ..self
            },
            _ => self,
        }
    }
}

/// The navigation controller.
#[derive(Debug)]
pub struct NavigationController {
    categories: Pane<FeedCategory>,
    state: NavigationState,
    display: NanoHatOLED,
}

impl View for NavigationController {
    type V = ControllerView;

    closed spec fn view(&self) -> ControllerView {
        ControllerView {
            categories: self.categories@,
            screen: self.state@,
            pending: self.display@,
        }
    }
}

impl NavigationController {
    /// A controller that shows the list of `categories`.
    pub fn new(categories: Vec<FeedCategory>) -> (nav: Self)
        ensures
            nav@ == ControllerView::initial(categories@),
    {
        let pane = Pane::new(categories);
        let mut display = NanoHatOLED::open();
        draw_list(&mut display, &pane);
        NavigationController { categories: pane, state: NavigationState::Categories, display }
    }

    /// The screen that is shown.
    pub fn state(&self) -> (state: &NavigationState)
        ensures
            state@ == self@.screen,
    {
        &self.state
    }

    /// The category list.
    pub fn categories(&self) -> (pane: &Pane<FeedCategory>)
        ensures
            pane@ == self@.categories,
    {
        &self.categories
    }

    /// The writes that wait for the bus, oldest first; none wait afterwards.
    pub fn take_pending(&mut self) -> (writes: Vec<BusWrite>)
        ensures
            write_views(writes@) == old(self)@.pending,
            all_fit_bus(old(self)@.pending),
            final(self)@ == (ControllerView { pending: Seq::empty(), ..old(self)@ }),
    {
        self.display.take_pending()
    }

    /// Handles a snapshot of the buttons, in the order down, select, up.
    pub fn press(&mut self, pressed: [bool; 3]) -> (action: Action)
        ensures
            final(self)@ == old(self)@.after_press(gesture_of(pressed)),
            action@ == old(self)@.action_on(gesture_of(pressed)),
    {
        let g = gesture(pressed);
        match g {
            Gesture::Down => {
                self.step(Move::Down);
                Action::Idle
            },
            Gesture::Up => {
                self.step(Move::Up);
                Action::Idle
            },
            Gesture::Select => self.select(),
            Gesture::Back => {
                self.back();
                Action::Idle
            },
            Gesture::Ignored => Action::Idle,
        }
    }

    /// Moves the highlight of the list that is shown.
    fn step(&mut self, step: Move)
        ensures
            final(self)@ == old(self)@.after_press(
                match step {
                    Move::Down => Gesture::Down,
                    Move::Up => Gesture::Up,
                },
            ),
    {
        match &mut self.state {
            NavigationState::Categories => {
                move_pane(&mut self.display, &mut self.categories, step);
            },
            NavigationState::Titles { pane } => {
                move_pane(&mut self.display, pane, step);
            },
            NavigationState::Details { .. } => {},
        }
    }

    /// The outside work that selecting the highlighted row asks for.
    fn select(&self) -> (action: Action)
        ensures
            action@ == self@.action_on(Gesture::Select),
    {
        match &self.state {
            NavigationState::Categories => {
                if self.categories.is_empty() {
                    Action::Idle
                } else {
                    Action::Fetch { url: self.categories.current().source_url().clone() }
                }
            },
            NavigationState::Titles { pane } => {
                if pane.is_empty() {
                    Action::Idle
                } else {
                    let text = pane.current().description_text();
                    Action::Rasterize { lines: render_wrapped_text(text.as_str()) }
                }
            },
            NavigationState::Details { .. } => Action::Idle,
        }
    }

    /// Goes back one screen.
    fn back(&mut self)
        ensures
            final(self)@ == old(self)@.after_press(Gesture::Back),
    {
        let mut state = NavigationState::Categories;
        core::mem::swap(&mut state, &mut self.state);
        match state {
            NavigationState::Categories => {},
            NavigationState::Titles { pane } => {
                draw_list(&mut self.display, &self.categories);
            },
            NavigationState::Details { pane } => {
                draw_list(&mut self.display, &pane);
                self.state = NavigationState::Titles { pane };
            },
        }
    }

    /// Takes what fetching a feed gave. A failure is handed back and
    /// changes nothing.
    pub fn fetch_done(&mut self, outcome: Result<Vec<FeedItem>, FetchError>) -> (r: Result<
        (),
        FetchError,
    >)
        ensures
            match outcome {
                Ok(items) => r is Ok && final(self)@ == old(self)@.after_fetch(items@),
                Err(e) => r == Err::<(), FetchError>(e) && final(self)@ == old(self)@,
            },
    {
        match outcome {
            Err(e) => Err(e),
            Ok(items) => {
                match &self.state {
                    NavigationState::Categories => {
                        let pane = Pane::new(items);
                        draw_list(&mut self.display, &pane);
                        self.state = NavigationState::Titles { pane };
                    },
                    _ => {},
                }
                Ok(())
            },
        }
    }

    /// Takes the rows of the description that a press asked for and shows
    /// them. Rows that cannot be shown, and rows that come while no title
    /// list is shown, change nothing.
    pub fn text_ready(&mut self, rows: &Vec<Bitmap>) -> (shown: bool)
        ensures
            shown == old(self)@.accepts_text(bitmap_views(rows@)),
            final(self)@ == if shown {
                old(self)@.after_text(bitmap_views(rows@))
            } else {
                old(self)@
            },
    {
        let mut state = NavigationState::Categories;
        core::mem::swap(&mut state, &mut self.state);
        match state {
            NavigationState::Titles { pane } => {
                let shown = draw_text(&mut self.display, rows);
                if shown {
                    self.state = NavigationState::Details { pane };
                } else {
                    self.state = NavigationState::Titles { pane };
                }
                shown
            },
            other => {
                self.state = other;
                false
            },
        }
    }
}

/// Moves the highlight of `pane` by one step and redraws what changed.
fn move_pane<R: Labeled>(display: &mut NanoHatOLED, pane: &mut Pane<R>, step: Move)
    ensures
        final(pane)@ == old(pane)@.moved(step),
        final(display)@ == old(display)@ + move_writes(old(pane)@, final(pane)@),
{
    let start = pane.start();
    let selected = pane.selected();
    pane.step(step);
    if !pane.is_empty() {
        draw_move(display, pane, start, selected);
        assert(old(pane)@ == (PaneView {
            start: start as nat,
            selected: selected as nat,
            ..pane@
        }));
    }
}

} // verus!
