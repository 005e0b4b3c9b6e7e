use shellbird::align::Align;
use shellbird::color::Color;
use shellbird::components::menus::{Queue, TrackMenu};
use shellbird::components::tag_menu::TagMenu;
use shellbird::event::{ComponentEvent, Event, MpdEvent};
use shellbird::track::Track;
use shellbird::GlobalState;

fn song(file: &str, artist: &str) -> Track {
    Track {
        file: file.to_string(),
        title: Some(file.to_string()),
        tags: vec![("Artist".to_string(), artist.to_string())],
        pos: None,
    }
}

fn state() -> GlobalState {
    GlobalState { style_tree: None, library: vec![song("a.mp3", "Alpha"), song("b.mp3", "Beta")] }
}

fn artists() -> TagMenu {
    TagMenu::new("Artists", Color::White, Color::Red, None, Align::Left, Align::Left, "Artist", None, None)
}

fn tag_update(e: &Event) -> Option<(String, Vec<usize>)> {
    match e {
        Event::ToAllComponents(ComponentEvent::TagMenuUpdated(n, ids)) => Some((n.clone(), ids.clone())),
        _ => None,
    }
}

#[test]
fn tag_menu_lists_all_then_values() {
    let st = state();
    let mut m = artists();
    let out = m.handle(&st, &ComponentEvent::Database);
    assert_eq!(m.menu.items, vec!["<All>", "Alpha", "Beta"]);
    assert_eq!(tag_update(&out[0]), Some(("Artists".to_string(), vec![0, 1])));
}

#[test]
fn backward_search_tells_children() {
    let st = state();
    let mut m = artists();
    m.handle(&st, &ComponentEvent::Database);
    m.handle(&st, &ComponentEvent::GoTo(2));
    let out = m.handle(&st, &ComponentEvent::SearchPrev("alp".to_string()));
    assert_eq!(m.menu.selection, 1);
    assert_eq!(out.len(), 2);
    assert_eq!(tag_update(&out[0]), Some(("Artists".to_string(), vec![0])));
}

#[test]
fn selecting_all_queues_every_song() {
    let st = state();
    let mut m = artists();
    m.handle(&st, &ComponentEvent::Database);
    let out = m.handle(&st, &ComponentEvent::Select);
    match &out[0] {
        Event::ToMpd(MpdEvent::AddToQueue(ts)) => {
            assert_eq!(ts.len(), 2);
            assert_eq!(ts[0].file, "a.mp3");
            assert_eq!(ts[1].file, "b.mp3");
        },
        _ => panic!("expected songs to queue"),
    }
    m.handle(&st, &ComponentEvent::GoTo(2));
    let out = m.handle(&st, &ComponentEvent::Select);
    assert!(matches!(&out[0], Event::ToMpd(MpdEvent::AddToQueue(ts)) if ts.len() == 1 && ts[0].file == "b.mp3"));
}

#[test]
fn track_menu_select_leaves_it_as_it_was() {
    let st = state();
    let mut m = TrackMenu::new("Songs", Color::White, Color::Red, None, Align::Left, Align::Left, Some("Artists".to_string()));
    let out = m.handle(&st, &ComponentEvent::TagMenuUpdated("Artists".to_string(), vec![0, 1, 7]));
    assert_eq!(out.len(), 1);
    assert_eq!(m.menu.items, vec!["a.mp3", "b.mp3"]);
    m.handle(&st, &ComponentEvent::GoTo(1));
    let out = m.handle(&st, &ComponentEvent::Select);
    assert!(matches!(&out[0], Event::ToMpd(MpdEvent::AddToQueue(ts)) if ts.len() == 1 && ts[0].file == "b.mp3"));
    assert_eq!(m.menu.selection, 1);
    assert_eq!(m.menu.items, vec!["a.mp3", "b.mp3"]);
    let out = m.handle(&st, &ComponentEvent::TagMenuUpdated("Other".to_string(), vec![0]));
    assert!(out.is_empty());
    assert_eq!(m.tracks.len(), 2);
    assert_eq!(m.menu.selection, 1);
}

#[test]
fn queue_select_plays_and_keeps_the_queue() {
    let st = state();
    let mut q = Queue::new("Queue", Color::White, Color::Red, None, Align::Left, Align::Left);
    q.handle(&st, &ComponentEvent::Queue(vec![1, 0]));
    q.handle(&st, &ComponentEvent::GoTo(1));
    let out = q.handle(&st, &ComponentEvent::Select);
    assert!(matches!(&out[0], Event::ToMpd(MpdEvent::PlayAt(t)) if t.file == "a.mp3"));
    assert_eq!(q.menu.selection, 1);
    assert_eq!(q.ids, vec![1, 0]);
    assert_eq!(q.menu.items, vec!["b.mp3", "a.mp3"]);
}
