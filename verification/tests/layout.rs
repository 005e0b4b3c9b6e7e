use shellbird::align::Align;
use shellbird::color::Color;
use shellbird::components::simple::{PlaceHolder, TagDisplay};
use shellbird::components::style_menu::StyleMenu;
use shellbird::components::{ComponentMap, Components};
use shellbird::layout::{load, parse_color, parse_horizontal_splitter, parse_size, parse_style_menu, Json};
use shellbird::splitter::{HorizontalSplitter, Panel, Size, Splitters};

fn text(s: &str) -> Json {
    Json::Str(s.to_string())
}

fn object(entries: Vec<(&str, Json)>) -> Vec<(String, Json)> {
    entries.into_iter().map(|(k, v)| (k.to_string(), v)).collect()
}

#[test]
fn test_parse_size_absolute() {
    let input = object(vec![("size", text("10"))]);
    assert_eq!(parse_size(&input), Some(Size::Absolute(10)));
}

#[test]
fn test_parse_size_percent() {
    let input = object(vec![("size", text("10%"))]);
    assert_eq!(parse_size(&input), Some(Size::Percent(10)));
}

#[test]
fn test_parse_size_number() {
    let input = object(vec![(
        "size",
        Json::Number { positive: true, mantissa: 10, exponent: 0, text: "10".to_string() },
    )]);
    assert_eq!(parse_size(&input), None);
}

#[test]
fn test_parse_style_menu() {
    let target = StyleMenu::enumed("a name", Color::Reset, Color::Reset, None, Align::Left, Align::Left, None);
    let input = object(vec![("component", text("StyleMenu")), ("name", text("a name")), ("size", text("20%"))]);
    assert_eq!(target, parse_style_menu(&input));
}

#[test]
fn test_parse_horizontal_splitter() {
    let target = HorizontalSplitter::enumed(
        "a name",
        true,
        vec![
            Panel::new(Size::Percent(10), "a name 1".to_string()),
            Panel::new(Size::Percent(3), "a name 2".to_string()),
        ],
    );
    let child1 = object(vec![
        ("component", text("PlaceHolder")),
        ("color", text("Yellow")),
        ("name", text("a name 1")),
        ("size", text("10%")),
    ]);
    let child2 = object(vec![
        ("component", text("TagDisplay")),
        ("name", text("a name 2")),
        ("size", text("3%")),
        ("tag", text("Genre")),
    ]);
    let input = object(vec![
        ("component", text("HorizontalSplitter")),
        ("name", text("a name")),
        ("border", text("true")),
        (
            "children",
            Json::Array {
                items: vec![
                    Json::Object { entries: child1, text: String::new() },
                    Json::Object { entries: child2, text: String::new() },
                ],
                text: String::new(),
            },
        ),
    ]);
    let mut map = ComponentMap::new();
    assert_eq!(target, parse_horizontal_splitter(&input, &mut map));
    assert_eq!(map.len(), 2);
    assert_eq!(map.get("a name 1"), Some(&PlaceHolder::enumed("a name 1", Color::Yellow)));
    assert_eq!(map.get("a name 2"), Some(&TagDisplay::enumed("a name 2", Color::Reset, Align::Left, "Genre")));
}

#[test]
fn parse_simple_color() {
    let input = object(vec![("color", text("Yellow"))]);
    assert_eq!(Color::Yellow, parse_color(&input, "color"));
}

#[test]
fn parse_color_of_rgb_object() {
    let rgb = object(vec![
        ("r", Json::Number { positive: true, mantissa: 1, exponent: 0, text: "1".to_string() }),
        ("g", Json::Number { positive: true, mantissa: 2, exponent: 0, text: "2".to_string() }),
        ("b", Json::Number { positive: true, mantissa: 3, exponent: 0, text: "3".to_string() }),
    ]);
    let input = object(vec![("color", Json::Object { entries: rgb, text: String::new() })]);
    assert_eq!(parse_color(&input, "color"), Color::RGB(1, 2, 3));
}

#[test]
fn parse_color_unknown_name_resets() {
    let input = object(vec![("color", text("Chartreuse"))]);
    assert_eq!(parse_color(&input, "color"), Color::Reset);
}

#[test]
fn load_reads_layout_text() {
    let layout = r#"[
        {
            "component": "VerticalSplitter",
            "name": "Default",
            "borders": false,
            "children": [
                { "component": "Queue", "name": "queue", "size": "50%" },
                { "component": "TitleDisplay", "name": "title", "size": "1" }
            ]
        }
    ]"#;
    let map = load(layout).expect("layout text is JSON");
    assert_eq!(map.len(), 3);
    match map.get("Default") {
        Some(Components::Splitter(Splitters::VerticalSplitter(s))) => {
            assert_eq!(s.splitter.name(), "Default");
            assert_eq!(s.splitter.children(), vec!["queue", "title"]);
        },
        _ => panic!("Default is not a vertical splitter"),
    }
    assert!(matches!(map.get("queue"), Some(Components::Queue(_))));
    assert!(matches!(map.get("title"), Some(Components::TitleDisplay(_))));
}

#[test]
fn load_refuses_text_that_is_not_json() {
    assert!(load("{ this is not json").is_none());
}

#[test]
fn load_unknown_component_is_an_error_box() {
    let map = load(r#"[ { "component": "Nonsense", "name": "odd" } ]"#).expect("layout text is JSON");
    assert_eq!(map.len(), 1);
    assert!(matches!(map.get("Error"), Some(Components::ErrorBox(_))));
}
