use shellbird::client::{Action, Client};
use shellbird::components::Components;
use shellbird::event::{AppEvent, CommandLineEvent, ComponentEvent, Event, MpdEvent, ScreenEvent};
use shellbird::track::Track;

const SIZE: (u16, u16) = (80, 24);

const LAYOUT: &str = r#"[
    {
        "component": "HorizontalSplitter",
        "name": "Default",
        "borders": true,
        "children": [
            { "component": "Queue", "name": "queue", "size": "50%" },
            { "component": "TitleDisplay", "name": "title", "size": "Remainder" }
        ]
    },
    { "component": "PlaceHolder", "name": "Other", "color": "Red" }
]"#;

fn song(file: &str) -> Track {
    Track { file: file.to_string(), title: Some(file.to_string()), tags: vec![], pos: None }
}

fn step(c: &mut Client, e: Event) -> (Vec<Event>, Option<Action>) {
    assert!(c.can_step(&e, SIZE));
    let s = c.step(e, SIZE);
    (s.events, s.action)
}

#[test]
fn quit_is_an_action() {
    let mut c = Client::new(None);
    let (events, action) = step(&mut c, Event::ToApp(AppEvent::Quit));
    assert!(events.is_empty());
    assert!(matches!(action, Some(Action::Quit)));
}

#[test]
fn drawing_without_a_screen_clears() {
    let mut c = Client::new(None);
    let (events, _) = step(&mut c, Event::ToApp(AppEvent::DrawScreen));
    assert!(matches!(events[..], [Event::ToApp(AppEvent::ClearScreen)]));
}

#[test]
fn drawing_the_screen_draws_its_root() {
    let mut c = Client::new(Some(LAYOUT));
    let (events, _) = step(&mut c, Event::ToApp(AppEvent::DrawScreen));
    match &events[..] {
        [Event::ToComponent(n, ComponentEvent::Draw(1, 1, 80, 23, f))] => {
            assert_eq!(n, "Default");
            assert_eq!(f, "queue");
        },
        _ => panic!("unexpected {:?}", events),
    }
}

#[test]
fn splitter_draw_sends_panels_their_areas() {
    let mut c = Client::new(Some(LAYOUT));
    let (events, _) = step(
        &mut c,
        Event::ToComponent("Default".to_string(), ComponentEvent::Draw(1, 1, 80, 23, "queue".to_string())),
    );
    assert_eq!(events.len(), 2);
    assert!(matches!(&events[0], Event::ToComponent(n, ComponentEvent::Draw(2, 2, 39, 21, _)) if n == "queue"));
    assert!(matches!(&events[1], Event::ToComponent(n, ComponentEvent::Draw(42, 2, 38, 21, _)) if n == "title"));
}

#[test]
fn focus_moves_along_the_splitter() {
    let mut c = Client::new(Some(LAYOUT));
    let (events, _) = step(&mut c, Event::ToScreen(ScreenEvent::FocusNext));
    assert!(matches!(events[..], [Event::ToApp(AppEvent::DrawScreen)]));
    assert_eq!(c.screen.focus(&c.components), "title");
    step(&mut c, Event::ToScreen(ScreenEvent::FocusNext));
    assert_eq!(c.screen.focus(&c.components), "title");
    step(&mut c, Event::ToScreen(ScreenEvent::FocusPrev));
    assert_eq!(c.screen.focus(&c.components), "queue");
}

#[test]
fn switching_screens_redraws() {
    let mut c = Client::new(Some(LAYOUT));
    let (events, _) = step(&mut c, Event::ToApp(AppEvent::SwitchScreen("Other".to_string())));
    assert_eq!(c.screen.name(), "Other");
    assert!(matches!(events[..], [Event::ToApp(AppEvent::DrawScreen)]));
}

#[test]
fn redraw_only_for_components_on_screen() {
    let mut c = Client::new(Some(LAYOUT));
    let (events, _) = step(&mut c, Event::ToScreen(ScreenEvent::NeedsRedraw("title".to_string())));
    assert!(matches!(events[..], [Event::ToApp(AppEvent::DrawScreen)]));
    let (events, _) = step(&mut c, Event::ToScreen(ScreenEvent::NeedsRedraw("Other".to_string())));
    assert!(events.is_empty());
}

#[test]
fn errors_are_echoed() {
    let mut c = Client::new(None);
    let (events, _) = step(&mut c, Event::ToApp(AppEvent::Error("oops".to_string())));
    assert!(matches!(&events[..], [Event::ToCommandLine(CommandLineEvent::Echo(m))] if m == "oops"));
}

#[test]
fn tag_editor_with_outdated_ids_is_refused() {
    let mut c = Client::new(None);
    let (events, _) = step(&mut c, Event::ToApp(AppEvent::TagUI(vec![3])));
    assert!(matches!(&events[..], [Event::ToApp(AppEvent::Error(m))] if m == "Requst for TagUI contains outdated ids"));
    assert!(c.components.get("TagEditor").is_none());
}

#[test]
fn tag_editor_opens_and_goes_back() {
    let mut c = Client::new(Some(LAYOUT));
    step(&mut c, Event::ToApp(AppEvent::Database(vec![song("a.mp3"), song("b.mp3")])));
    let (events, _) = step(&mut c, Event::ToApp(AppEvent::TagUI(vec![1])));
    assert!(matches!(&events[..], [Event::ToApp(AppEvent::SwitchScreen(n))] if n == "TagEditor"));
    assert!(matches!(c.components.get("TagEditor"), Some(Components::TagEditor(_))));
    step(&mut c, Event::ToApp(AppEvent::SwitchScreen("TagEditor".to_string())));
    let (events, _) = step(&mut c, Event::ToApp(AppEvent::Back));
    assert!(matches!(&events[..], [Event::ToApp(AppEvent::SwitchScreen(n))] if n == "Default"));
    let (events, _) = step(&mut c, Event::ToApp(AppEvent::Back));
    assert!(events.is_empty());
}

#[test]
fn queue_songs_become_library_ids() {
    let mut c = Client::new(None);
    step(&mut c, Event::ToApp(AppEvent::Database(vec![song("a.mp3"), song("b.mp3"), song("c.mp3")])));
    let (events, _) = step(&mut c, Event::ToApp(AppEvent::Queue(vec![song("c.mp3"), song("a.mp3")])));
    assert!(matches!(&events[..], [Event::ToAllComponents(ComponentEvent::Queue(ids))] if ids == &vec![0, 2]));
}

#[test]
fn now_playing_becomes_a_library_id() {
    let mut c = Client::new(None);
    step(&mut c, Event::ToApp(AppEvent::Database(vec![song("a.mp3"), song("b.mp3")])));
    let (events, _) = step(&mut c, Event::ToApp(AppEvent::NowPlaying(Some(song("b.mp3")))));
    assert!(matches!(&events[..], [Event::ToAllComponents(ComponentEvent::NowPlaying(Some(1)))]));
    let (events, _) = step(&mut c, Event::ToApp(AppEvent::NowPlaying(None)));
    assert!(matches!(&events[..], [Event::ToAllComponents(ComponentEvent::NowPlaying(None))]));
}

#[test]
fn database_update_is_announced() {
    let mut c = Client::new(Some(LAYOUT));
    let (events, _) = step(&mut c, Event::ToAllComponents(ComponentEvent::Database));
    assert!(matches!(events.last(), Some(Event::ToCommandLine(CommandLineEvent::Echo(m))) if m == "Update Finished!"));
}

#[test]
fn player_requests_are_actions() {
    let mut c = Client::new(None);
    let (events, action) = step(&mut c, Event::ToMpd(MpdEvent::Next));
    assert!(events.is_empty());
    assert!(matches!(action, Some(Action::ToMpd(MpdEvent::Next))));
}

#[test]
fn drawing_a_component_paints_it() {
    let c = Client::new(Some(LAYOUT));
    let paints = c.components.draw("Other", 1, 1, 4, 3, "queue").expect("a placeholder fits");
    assert_eq!(paints.len(), 2 + 8);
    assert!(c.components.draw("nothing", 1, 1, 4, 3, "queue").expect("nothing to draw").is_empty());
    assert!(c.components.draw("Other", 1, 1, 1, 3, "queue").is_none());
}
