use nanohat_feed::pane::{Move, Pane, PAGE_SIZE};

fn numbered(n: usize) -> Pane<usize> {
    Pane::new((0..n).collect())
}

fn position(pane: &Pane<usize>) -> (usize, usize) {
    (pane.start(), pane.selected())
}

#[test]
fn fresh_pane_starts_at_the_top() {
    let pane = numbered(3);
    assert_eq!(position(&pane), (0, 0));
    assert_eq!(pane.len(), 3);
    assert!(!pane.is_empty());
    assert_eq!(pane.current_index(), 0);
    assert_eq!(*pane.current(), 0);
    assert_eq!(pane.visible_count(), 3);
    assert_eq!(PAGE_SIZE, 8);
}

#[test]
fn reset_replaces_the_rows_and_goes_back_to_the_top() {
    let mut pane = numbered(12);
    for _ in 0..10 {
        pane.move_down();
    }
    assert_eq!(position(&pane), (3, 7));
    pane.reset(vec![7, 8]);
    assert_eq!(position(&pane), (0, 0));
    assert_eq!(pane.len(), 2);
    assert_eq!(*pane.get(1), 8);
}

#[test]
fn move_down_at_the_bottom_of_the_window_scrolls() {
    let mut pane = numbered(10);
    for _ in 0..7 {
        pane.move_down();
    }
    assert_eq!(position(&pane), (0, 7));
    pane.move_down();
    assert_eq!(position(&pane), (1, 7));
    assert_eq!(pane.current_index(), 8);
}

#[test]
fn move_up_moves_the_highlight_before_it_scrolls() {
    let mut pane = numbered(10);
    for _ in 0..8 {
        pane.move_down();
    }
    assert_eq!(position(&pane), (1, 7));
    // the highlight is not at the top of the window, so it moves
    pane.move_up();
    assert_eq!(position(&pane), (1, 6));
    for _ in 0..6 {
        pane.move_up();
    }
    assert_eq!(position(&pane), (1, 0));
    // at the top of the window the window scrolls
    pane.move_up();
    assert_eq!(position(&pane), (0, 0));
    pane.move_up();
    assert_eq!(position(&pane), (0, 0));
}

#[test]
fn move_down_on_a_single_row_changes_nothing() {
    let mut pane = numbered(1);
    pane.move_down();
    assert_eq!(position(&pane), (0, 0));
    pane.move_up();
    assert_eq!(position(&pane), (0, 0));
}

#[test]
fn move_down_stops_at_the_last_row() {
    let mut short = numbered(3);
    for _ in 0..5 {
        short.move_down();
    }
    assert_eq!(position(&short), (0, 2));
    let mut long = numbered(10);
    for _ in 0..20 {
        long.move_down();
    }
    assert_eq!(position(&long), (2, 7));
    assert_eq!(long.current_index(), 9);
    assert_eq!(*long.current(), 9);
    assert_eq!(*long.visible(0), 2);
    assert_eq!(*long.visible(7), 9);
    assert_eq!(long.visible_count(), 8);
}

#[test]
fn moves_on_an_empty_pane_change_nothing() {
    let mut pane = numbered(0);
    assert!(pane.is_empty());
    pane.move_down();
    pane.move_up();
    assert_eq!(position(&pane), (0, 0));
    assert_eq!(pane.visible_count(), 0);
}

#[test]
fn exactly_one_page_never_scrolls() {
    let mut pane = numbered(8);
    for _ in 0..12 {
        pane.move_down();
    }
    assert_eq!(position(&pane), (0, 7));
}

#[test]
fn bounds_hold_after_any_walk() {
    for n in 1..20usize {
        let mut pane = numbered(n);
        let mut seed = 12345u32 + n as u32;
        for _ in 0..200 {
            seed = seed.wrapping_mul(1103515245).wrapping_add(12345);
            if (seed >> 16) & 3 == 0 {
                pane.step(Move::Up);
            } else {
                pane.step(Move::Down);
            }
            assert!(pane.selected() < PAGE_SIZE.min(n));
            assert!(pane.start() <= n.saturating_sub(PAGE_SIZE));
            assert!(pane.start() + pane.selected() < n);
            assert_eq!(pane.len(), n);
        }
    }
}
