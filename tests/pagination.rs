use parrot::cache::QueueDisplay;
use parrot::commands::remove;
use parrot::guild::GuildPlaybackState;
use parrot::queue::{
    build_nav_btns, build_single_nav_btn, calculate_num_pages, forget_queue_message, navigate,
    parse_nav_action, queue, NavAction, EMBED_PAGE_SIZE,
};
use parrot::stored_queue::QueryType;
use parrot::track_end::update_queue_messages;

#[test]
fn num_pages_counts_pending_tracks_only() {
    assert_eq!(EMBED_PAGE_SIZE, 6);
    assert_eq!(calculate_num_pages(0), 1);
    assert_eq!(calculate_num_pages(1), 1);
    assert_eq!(calculate_num_pages(2), 1);
    assert_eq!(calculate_num_pages(7), 1);
    assert_eq!(calculate_num_pages(8), 2);
    assert_eq!(calculate_num_pages(13), 2);
    assert_eq!(calculate_num_pages(14), 3);
}

#[test]
fn last_then_next_on_two_pages() {
    let len = 13;
    assert_eq!(calculate_num_pages(len), 2);
    let page = navigate(0, NavAction::Last, len);
    assert_eq!(page, 1);
    assert_eq!(navigate(page, NavAction::Next, len), 1);
    let btns = build_nav_btns(page, calculate_num_pages(len));
    assert!(btns[2].disabled);
    assert!(btns[3].disabled);
    assert!(!btns[0].disabled);
    assert!(!btns[1].disabled);
}

#[test]
fn navigation_clamps_to_the_pages() {
    assert_eq!(navigate(0, NavAction::Previous, 13), 0);
    assert_eq!(navigate(1, NavAction::Previous, 13), 0);
    assert_eq!(navigate(1, NavAction::First, 13), 0);
    assert_eq!(navigate(0, NavAction::Next, 13), 1);
    assert_eq!(navigate(5, NavAction::Previous, 13), 1);
    assert_eq!(navigate(5, NavAction::Next, 3), 0);
    assert_eq!(navigate(0, NavAction::Last, 0), 0);
}

#[test]
fn button_ids_parse_back() {
    assert_eq!(parse_nav_action("<<"), Some(NavAction::First));
    assert_eq!(parse_nav_action("<"), Some(NavAction::Previous));
    assert_eq!(parse_nav_action(">"), Some(NavAction::Next));
    assert_eq!(parse_nav_action(">>"), Some(NavAction::Last));
    assert_eq!(parse_nav_action("x"), None);
    assert_eq!(parse_nav_action(""), None);
    assert_eq!(parse_nav_action("<<<"), None);
}

#[test]
fn single_button_id_is_lower_case_label() {
    let b = build_single_nav_btn("Next PAGE", true);
    assert_eq!(b.custom_id, "next page");
    assert_eq!(b.label, "Next PAGE");
    assert!(b.disabled);
}

#[test]
fn nav_buttons_on_first_and_only_page() {
    let btns = build_nav_btns(0, 1);
    assert_eq!(btns.len(), 4);
    let labels: Vec<&str> = btns.iter().map(|b| b.label.as_str()).collect();
    assert_eq!(labels, vec!["<<", "<", ">", ">>"]);
    assert!(btns.iter().all(|b| b.disabled));
    let btns = build_nav_btns(0, 3);
    assert!(btns[0].disabled && btns[1].disabled);
    assert!(!btns[2].disabled && !btns[3].disabled);
}

fn state_with_pending(n: usize) -> GuildPlaybackState {
    let mut s = GuildPlaybackState::new(1);
    for i in 0..n {
        s.stored_queue.push(QueryType::Keywords(format!("song {}", i + 1)));
    }
    s
}

#[test]
fn shrinking_queue_clamps_cursors_down() {
    let mut s = state_with_pending(0);
    let btns = queue(&mut s, 10, 20);
    assert!(btns[0].disabled);
    assert!(!btns[3].disabled);
    queue(&mut s, 11, 20);
    assert_eq!(s.cache.navigate(10, NavAction::Last, 20), Some(3));
    assert_eq!(s.cache.navigate(11, NavAction::Next, 20), Some(1));
    assert_eq!(s.cache.navigate(12, NavAction::Next, 20), None);
    let shown = update_queue_messages(&mut s, 9);
    assert_eq!(
        shown,
        vec![QueueDisplay { message_id: 10, page: 1 }, QueueDisplay { message_id: 11, page: 1 }]
    );
    let shown = update_queue_messages(&mut s, 2);
    assert!(shown.iter().all(|d| d.page < calculate_num_pages(2)));
    assert_eq!(shown[0].page, 0);
}

#[test]
fn growing_queue_keeps_cursors() {
    let mut s = state_with_pending(0);
    queue(&mut s, 10, 20);
    s.cache.navigate(10, NavAction::Next, 20);
    let shown = update_queue_messages(&mut s, 40);
    assert_eq!(shown[0].page, 1);
}

#[test]
fn remove_clamps_open_displays() {
    let mut s = state_with_pending(12);
    queue(&mut s, 5, 13);
    s.cache.navigate(5, NavAction::Last, 13);
    assert_eq!(s.cache.queue_messages[0].page, 1);
    remove(&mut s, 13, 1, Some(6)).unwrap();
    assert_eq!(s.cache.queue_messages[0].page, 0);
}

#[test]
fn forgotten_display_is_gone() {
    let mut s = state_with_pending(0);
    queue(&mut s, 1, 3);
    queue(&mut s, 2, 3);
    queue(&mut s, 1, 3);
    forget_queue_message(&mut s, 1);
    assert_eq!(s.cache.queue_messages, vec![QueueDisplay { message_id: 2, page: 0 }]);
}
