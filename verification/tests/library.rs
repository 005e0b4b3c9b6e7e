use id3::TagLike;
use shellbird::align::Align;
use shellbird::color::Color;
use shellbird::command::parse_line;
use shellbird::command_line::{run_headless, statusline_of, CommandLine, Mode};
use shellbird::components::menus::Queue;
use shellbird::components::simple::{ErrorBox, TagDisplay};
use shellbird::event::{AppEvent, CommandLineEvent, ComponentEvent, Event, MpdEvent, ScreenEvent};
use shellbird::keys::{str_to_keys, Key};
use shellbird::menu::Menu;
use shellbird::paint::{border, Paint};
use shellbird::player::{listener_message, on_connect, report_for, retry, Change, Failure, Report};
use shellbird::splitter::{Panel, Size, Splitters, VerticalSplitter};
use shellbird::styles::StyleTree;
use shellbird::tagger::{apply_edits, frame_edits, Frame, FrameEdit, TagNext, TagOutcome, TagRun, TagStep, Tagger};
use shellbird::text::{contains_ignore_case, cut, decimal, signed_decimal, sort_dedup, split_str, str_lt};
use shellbird::track::{MpdStatus, Track};

const SIZE: (u16, u16) = (80, 24);

fn menu(items: &[&str], selection: usize) -> Menu {
    Menu {
        name: "m".to_string(),
        selection,
        items: items.iter().map(|s| s.to_string()).collect(),
        color: Color::Reset,
        focus_color: Color::Red,
        title: None,
        title_alignment: Align::Left,
        menu_alignment: Align::Left,
    }
}

fn type_keys(cl: &mut CommandLine, keys: &str) -> Vec<Event> {
    let mut out = Vec::new();
    for c in keys.chars() {
        out.extend(cl.input(&Key::Char(c), SIZE));
    }
    out
}

fn echoed(e: &Event) -> Option<String> {
    match e {
        Event::ToCommandLine(CommandLineEvent::Echo(t)) => Some(t.clone()),
        _ => None,
    }
}

#[test]
fn string_order_is_by_characters_then_length() {
    assert!(str_lt("abc", "abd"));
    assert!(str_lt("ab", "abc"));
    assert!(!str_lt("abc", "abc"));
    assert!(!str_lt("b", "abc"));
}

#[test]
fn sort_dedup_sorts_and_removes_repeats() {
    let items = vec!["pop".to_string(), "jazz".to_string(), "pop".to_string(), "blues".to_string()];
    assert_eq!(sort_dedup(&items), vec!["blues".to_string(), "jazz".to_string(), "pop".to_string()]);
}

#[test]
fn split_str_splits_like_std() {
    assert_eq!(split_str("a, b, c", ", "), vec!["a", "b", "c"]);
    assert_eq!(split_str("abc", ""), vec!["", "a", "b", "c", ""]);
    assert_eq!(split_str("", ";"), vec![""]);
}

#[test]
fn numbers_in_decimal() {
    assert_eq!(decimal(0), "0");
    assert_eq!(decimal(1234), "1234");
    assert_eq!(signed_decimal(-7), "-7");
    assert_eq!(signed_decimal(100), "100");
}

#[test]
fn search_ignores_case() {
    assert!(contains_ignore_case("The Beatles", "beat"));
    assert!(!contains_ignore_case("The Beatles", "stones"));
}

#[test]
fn cut_keeps_leading_bytes() {
    assert_eq!(cut("hello", 3), "hel");
    assert_eq!(cut("hi", 5), "hi");
}

#[test]
fn color_names_ignore_case() {
    assert_eq!(Color::try_from_str("YELLOW"), Ok(Color::Yellow));
    assert_eq!(Color::try_from_str("brightblue"), Ok(Color::BrightBlue));
    assert_eq!(Color::try_from_str("mauve"), Err("Could not parse color"));
}

#[test]
fn key_notation() {
    assert_eq!(str_to_keys("gg"), vec![Key::Char('g'), Key::Char('g')]);
    assert_eq!(str_to_keys("a<space>"), vec![Key::Char('a'), Key::Char(' ')]);
    assert_eq!(str_to_keys("<enter>"), vec![Key::Char('\n')]);
    assert_eq!(str_to_keys("<xy>"), vec![Key::Char('<'), Key::Char('x'), Key::Char('y'), Key::Char('>')]);
}

#[test]
fn commands_read_as_events() {
    assert!(matches!(parse_line("goto 3", SIZE), Some(Event::ToFocus(ComponentEvent::GoTo(3)))));
    assert!(matches!(parse_line("q", SIZE), Some(Event::ToApp(AppEvent::Quit))));
    assert!(matches!(parse_line("pause", SIZE), Some(Event::ToMpd(MpdEvent::TogglePause))));
    assert!(matches!(parse_line("focusnext", SIZE), Some(Event::ToScreen(ScreenEvent::FocusNext))));
    match parse_line("search Beat", SIZE) {
        Some(Event::ToFocus(ComponentEvent::Search(s))) => assert_eq!(s, "beat"),
        _ => panic!("search not read"),
    }
    assert!(parse_line("frobnicate", SIZE).is_none());
    assert!(parse_line("goto many", SIZE).is_none());
}

#[test]
fn bind_command_reads_keys_and_event() {
    match parse_line("bind ss goto 3", SIZE) {
        Some(Event::BindKey(keys, b)) => {
            assert_eq!(keys, vec![Key::Char('s'), Key::Char('s')]);
            assert!(matches!(b.to_event(), Event::ToFocus(ComponentEvent::GoTo(3))));
        },
        _ => panic!("bind not read"),
    }
}

#[test]
fn bound_keys_send_their_event() {
    let mut cl = CommandLine::new();
    let keys = str_to_keys("ss");
    cl.bind(keys, Event::ToFocus(ComponentEvent::GoTo(3)));
    let first = cl.input(&Key::Char('s'), SIZE);
    assert!(first.is_empty());
    let second = cl.input(&Key::Char('s'), SIZE);
    assert_eq!(second.len(), 1);
    assert!(matches!(second[0], Event::ToFocus(ComponentEvent::GoTo(3))));
    assert!(matches!(&cl.mode, Mode::TUI { keys, .. } if keys.is_empty()));
}

#[test]
fn unbound_key_starts_over() {
    let mut cl = CommandLine::new();
    cl.bind(str_to_keys("gg"), Event::ToFocus(ComponentEvent::GoToTop));
    assert!(cl.input(&Key::Char('g'), SIZE).is_empty());
    assert!(cl.input(&Key::Char('x'), SIZE).is_empty());
    assert!(matches!(&cl.mode, Mode::TUI { keys, .. } if keys.is_empty()));
}

#[test]
fn rebinding_replaces_the_event() {
    let mut cl = CommandLine::new();
    cl.bind(str_to_keys("p"), Event::ToMpd(MpdEvent::Next));
    cl.bind(str_to_keys("p"), Event::ToMpd(MpdEvent::TogglePause));
    assert_eq!(cl.keybinds.len(), 1);
    let out = cl.input(&Key::Char('p'), SIZE);
    assert!(matches!(out[0], Event::ToMpd(MpdEvent::TogglePause)));
}

#[test]
fn running_a_command_echoes_it() {
    let mut cl = CommandLine::new();
    cl.command_mode();
    type_keys(&mut cl, "q");
    let out = cl.input(&Key::Char('\n'), SIZE);
    assert_eq!(out.len(), 2);
    assert!(matches!(out[0], Event::ToApp(AppEvent::Quit)));
    assert_eq!(echoed(&out[1]).as_deref(), Some("Ran: ToApp(AppEvent::Quit)"));
}

#[test]
fn running_a_bind_echoes_keys_and_event() {
    let mut cl = CommandLine::new();
    cl.command_mode();
    type_keys(&mut cl, "bind ss goto 3");
    let out = cl.input(&Key::Char('\n'), SIZE);
    assert_eq!(
        echoed(&out[1]).as_deref(),
        Some("Ran: BindKey([Char('s'), Char('s')], ToFocus(ComponentEvent::GoTo(3)))")
    );
}

#[test]
fn running_a_switch_quotes_the_screen() {
    let mut cl = CommandLine::new();
    cl.command_mode();
    type_keys(&mut cl, "screen Queue");
    let out = cl.input(&Key::Char('\n'), SIZE);
    assert_eq!(echoed(&out[1]).as_deref(), Some("Ran: ToApp(AppEvent::SwitchScreen(\"Queue\"))"));
}

#[test]
fn invalid_command_is_reported() {
    let mut cl = CommandLine::new();
    cl.command_mode();
    type_keys(&mut cl, "frobnicate");
    let out = cl.input(&Key::Char('\n'), SIZE);
    assert_eq!(out.len(), 1);
    assert_eq!(echoed(&out[0]).as_deref(), Some("Invalid Command 'frobnicate'"));
}

#[test]
fn echo_command_shows_text() {
    let mut cl = CommandLine::new();
    cl.command_mode();
    type_keys(&mut cl, "echo hello");
    let out = cl.input(&Key::Char('\n'), SIZE);
    assert!(out.is_empty());
    assert_eq!(cl.line_text(), "hello");
}

#[test]
fn echo_prints_the_whole_message() {
    assert!(matches!(parse_line("echo hello world", SIZE),
        Some(Event::ToCommandLine(CommandLineEvent::Echo(s))) if s == "hello world"));
    assert!(parse_line("echo", SIZE).is_none());
}

#[test]
fn escape_goes_back_to_keys() {
    let mut cl = CommandLine::new();
    cl.search_mode();
    type_keys(&mut cl, "abc");
    let out = cl.input(&Key::Esc, SIZE);
    assert!(out.is_empty());
    assert!(matches!(&cl.mode, Mode::TUI { text, keys } if text.is_empty() && keys.is_empty()));
}

#[test]
fn backspace_undoes_a_character() {
    let mut cl = CommandLine::new();
    cl.command_mode();
    type_keys(&mut cl, "ab");
    assert_eq!(cl.line_text(), ":ab\u{1fb70}");
    cl.input(&Key::Backspace, SIZE);
    assert_eq!(cl.line_text(), ":a\u{1fb70}");
}

#[test]
fn search_line_sends_a_search() {
    let mut cl = CommandLine::new();
    cl.search_mode();
    type_keys(&mut cl, "jazz");
    let out = cl.input(&Key::Char('\n'), SIZE);
    assert_eq!(out.len(), 1);
    assert!(matches!(&out[0], Event::ToFocus(ComponentEvent::Search(s)) if s == "jazz"));
    assert_eq!(cl.last_search.as_deref(), Some("jazz"));
}

#[test]
fn statusline_shows_flags_and_volume() {
    let st = MpdStatus { volume: 42, repeat: true, random: false, single: true, consume: false };
    assert_eq!(statusline_of(&st), "[r-s-] Vol: 42%");
    let st = MpdStatus { volume: -1, repeat: false, random: true, single: false, consume: true };
    assert_eq!(statusline_of(&st), "[-z-c] Vol: -1%");
}

#[test]
fn startup_lines_run_headless() {
    assert!(matches!(run_headless("next", SIZE), Ok(Event::ToFocus(ComponentEvent::Next))));
    assert!(matches!(run_headless("prev", SIZE), Ok(Event::ToFocus(ComponentEvent::Prev))));
    assert!(run_headless("nonsense words", SIZE).is_err());
}

#[test]
fn command_line_draws_mode_and_status() {
    let mut cl = CommandLine::new();
    cl.statusline = "[----]".to_string();
    cl.echo("hi".to_string());
    let out = cl.draw(80, 24);
    assert_eq!(
        out,
        vec![
            Paint::Fg(Color::Reset),
            Paint::At(1, 24),
            Paint::ClearLine,
            Paint::Text("hi".to_string()),
            Paint::At(74, 24),
            Paint::Text("[----]".to_string()),
        ]
    );
}

#[test]
fn menu_moves_wrap_around() {
    let mut m = menu(&["a", "b", "c"], 2);
    m.next();
    assert_eq!(m.selection, 0);
    m.prev();
    assert_eq!(m.selection, 2);
    m.to(1);
    assert_eq!(m.selection, 1);
    m.to(9);
    assert_eq!(m.selection, 1);
}

#[test]
fn menu_search_finds_next_match() {
    let mut m = menu(&["Abba", "Beatles", "Blur", "beach boys"], 0);
    m.search("be");
    assert_eq!(m.selection, 1);
    m.search("be");
    assert_eq!(m.selection, 3);
    m.search_prev("ABB");
    assert_eq!(m.selection, 0);
    m.search("zzz");
    assert_eq!(m.selection, 0);
}

#[test]
fn menu_scrolls_to_keep_selection_visible() {
    let items: Vec<String> = (0..20).map(|i| i.to_string()).collect();
    let refs: Vec<&str> = items.iter().map(|s| s.as_str()).collect();
    assert_eq!(menu(&refs, 0).first_visible(5), 0);
    assert_eq!(menu(&refs, 10).first_visible(5), 8);
    assert_eq!(menu(&refs, 19).first_visible(5), 15);
}

#[test]
fn menu_draws_rows_and_inverts_selection() {
    let m = menu(&["ab", "cd"], 1);
    let out = m.draw(1, 1, 4, 3, true);
    assert_eq!(
        out,
        vec![
            Paint::Fg(Color::Red),
            Paint::At(1, 1),
            Paint::Text("ab  ".to_string()),
            Paint::Invert,
            Paint::At(1, 2),
            Paint::Text("cd  ".to_string()),
            Paint::Reset,
            Paint::Fg(Color::Red),
            Paint::At(1, 3),
            Paint::Text("    ".to_string()),
            Paint::Reset,
        ]
    );
}

#[test]
fn menu_pads_ligature_text() {
    let m = menu(&["\u{644}\u{627}"], 0);
    let out = m.draw(1, 1, 4, 1, false);
    assert!(out.contains(&Paint::At(1, 1)));
    assert!(out.contains(&Paint::Text("\u{644}\u{627}  ".to_string())));
}

#[test]
fn border_draws_a_box() {
    let out = border(1, 1, 4, 3);
    assert_eq!(
        out,
        vec![
            Paint::At(1, 1),
            Paint::Text("┌──┐".to_string()),
            Paint::At(1, 2),
            Paint::Text("│".to_string()),
            Paint::At(4, 2),
            Paint::Text("│".to_string()),
            Paint::At(1, 3),
            Paint::Text("└──┘".to_string()),
        ]
    );
}

#[test]
fn error_box_draws_red_box_with_label() {
    let out = ErrorBox::new().draw(1, 1, 5, 3);
    assert_eq!(out[0], Paint::Fg(Color::Red));
    assert_eq!(out[out.len() - 3], Paint::At(2, 2));
    assert_eq!(out[out.len() - 2], Paint::Text("Err".to_string()));
    assert_eq!(out[out.len() - 1], Paint::Fg(Color::Reset));
}

#[test]
fn tag_display_pads_by_alignment() {
    let mut d = TagDisplay::new("d", Color::Blue, Align::Center, "Genre");
    d.contents = "Jazz".to_string();
    let out = d.draw(3, 7, 10);
    assert_eq!(
        out,
        vec![
            Paint::Fg(Color::Blue),
            Paint::At(3, 7),
            Paint::Text("   ".to_string()),
            Paint::Text("Jazz".to_string()),
            Paint::Text("   ".to_string()),
            Paint::Fg(Color::Reset),
        ]
    );
}

#[test]
fn tag_display_right_aligned_cut() {
    let mut d = TagDisplay::new("d", Color::Blue, Align::Right, "Genre");
    d.contents = "Jazz".to_string();
    let full = d.draw(1, 1, 4);
    assert_eq!(full[2], Paint::Text("".to_string()));
    assert_eq!(full[3], Paint::Text("Jazz".to_string()));
    let wide = d.draw(1, 1, 6);
    assert_eq!(wide[2], Paint::Text("  ".to_string()));
    assert_eq!(wide[3], Paint::Text("zz".to_string()));
}

#[test]
fn queue_draws_now_playing_in_bold() {
    let mut q = Queue::new("q", Color::Reset, Color::Green, None, Align::Left, Align::Left);
    let t = Track { file: "a.mp3".to_string(), title: Some("A".to_string()), tags: vec![], pos: Some(0) };
    q.tracks = vec![t.copy()];
    q.ids = vec![0];
    q.menu.items = vec!["A".to_string()];
    q.now_playing = Some(t);
    let out = q.draw(1, 1, 2, 1, false);
    assert_eq!(
        out,
        vec![
            Paint::Invert,
            Paint::Bold,
            Paint::Fg(Color::Reset),
            Paint::At(1, 1),
            Paint::Text("A ".to_string()),
            Paint::Reset,
            Paint::Reset,
        ]
    );
}

#[test]
fn component_event_texts() {
    assert_eq!(ComponentEvent::Draw(1, 2, 80, 23, "queue".to_string()).describe(), "ComponentEvent::Draw(1, 2, 80, 23, queue)");
    assert_eq!(ComponentEvent::Queue(vec![1, 2, 3]).describe(), "ComponentEvent::Queue(3 ids)");
    assert_eq!(ComponentEvent::NowPlaying(Some(4)).describe(), "ComponentEvent::NowPlaying(Some(4))");
    assert_eq!(ComponentEvent::NowPlaying(None).describe(), "ComponentEvent::NowPlaying(None)");
    assert_eq!(ComponentEvent::ReturnText("a\"b".to_string()).describe(), "ComponentEvent::ReturnText(\"a\\\"b\")");
    assert_eq!(MpdEvent::SetVolume(-5).describe(), "MpdEvent::SetVolume(-5)");
    assert_eq!(AppEvent::TagUI(vec![1, 2]).describe(), "AppEvent::TagUI(2 songs)");
}

#[test]
fn genre_tree_from_lines() {
    let lines: Vec<String> = vec!["Rock", "\tPunk", "\t\tHardcore", "\tGrunge", "Jazz"].into_iter().map(String::from).collect();
    let tree = StyleTree::load_tree_from_lines(&lines);
    assert_eq!(tree.len(), 6);
    assert_eq!(tree.name(0), "Base");
    assert_eq!(tree.name(1), "Rock");
    assert_eq!(tree.depth(3), 3);
    assert_eq!(tree.children(0), vec![1, 5]);
    assert_eq!(tree.children(1), vec![2, 4]);
    assert_eq!(tree.leaf_names(1), vec!["Hardcore", "Grunge"]);
}

#[test]
fn genre_deeper_than_its_path_hangs_one_level_down() {
    let lines: Vec<String> = vec!["Jazz", "\t\t\tDeep", "\tBebop"].into_iter().map(String::from).collect();
    let tree = StyleTree::load_tree_from_lines(&lines);
    assert_eq!(tree.depth(2), 2);
    assert_eq!(tree.name(2), "Deep");
    assert_eq!(tree.children(1), vec![2, 3]);
    assert_eq!(tree.children(2), Vec::<usize>::new());
}

#[test]
fn date_tag_sets_two_frames() {
    let tags = vec![("Date".to_string(), Some("1999".to_string())), ("Title".to_string(), None)];
    let edits = frame_edits(&tags).expect("known tags");
    assert_eq!(
        edits,
        vec![
            FrameEdit::Put(Frame::Year, "1999".to_string()),
            FrameEdit::Put(Frame::RecordingTime, "1999".to_string()),
            FrameEdit::Remove(Frame::Title),
        ]
    );
}

#[test]
fn unknown_tag_is_refused() {
    let tags = vec![("Title".to_string(), Some("x".to_string())), ("Mood".to_string(), Some("happy".to_string()))];
    assert_eq!(frame_edits(&tags), Err("Tagger Error: Cannot tag unhandled tag key 'Mood'".to_string()));
}

#[test]
fn edits_change_the_id3_tag() {
    let mut tag = id3::Tag::new();
    tag.set_artist("Old");
    let edits = frame_edits(&vec![
        ("Title".to_string(), Some("New Title".to_string())),
        ("Artist".to_string(), None),
        ("Genre".to_string(), Some("Jazz".to_string())),
    ])
    .expect("known tags");
    apply_edits(&mut tag, &edits);
    assert_eq!(tag.title(), Some("New Title"));
    assert_eq!(tag.artist(), None);
    assert_eq!(tag.genre(), Some("Jazz"));
}

#[test]
fn tagger_needs_both_folders() {
    let mut t = Tagger::new();
    let msg = |r: Result<(&String, &String), Event>| match r {
        Err(Event::ToApp(AppEvent::Error(m))) => m,
        _ => panic!("expected an error"),
    };
    assert_eq!(msg(t.folders()), "Tagger Error: Cannot tag when MusicDir and TempDir are not set");
    assert!(t.set_music_dir("/music".to_string(), true).is_empty());
    assert_eq!(msg(t.folders()), "Tagger Error: Cannot tag when MusicDir is not set");
    assert!(!t.set_temp_dir("/tmp/sb".to_string(), true));
    assert_eq!(t.folders().ok(), Some((&"/music".to_string(), &"/tmp/sb".to_string())));
}

#[test]
fn tagger_reports_bad_folder() {
    let mut t = Tagger::new();
    let out = t.set_music_dir("/nope".to_string(), false);
    assert!(matches!(&out[0], Event::ToApp(AppEvent::Error(m))
        if m == "Cannot set MusicDir for tagging to '/nope' because it is not a valid folder."));
    assert!(t.set_temp_dir("/tmp/new".to_string(), false));
    let out = t.temp_dir_made("/tmp/new".to_string(), Err("denied".to_string()));
    assert!(matches!(&out[0], Event::ToApp(AppEvent::Error(m)) if m == "Tagger - Create Dir Error: denied"));
    assert!(matches!(TagStep::Copy.failed("x"), Event::ToApp(AppEvent::Error(m)) if m == "Tagger - Copy Error: x"));
}

#[test]
fn made_temp_folder_is_used_for_copies() {
    let mut t = Tagger::new();
    assert!(t.set_music_dir("/music".to_string(), true).is_empty());
    assert!(t.set_temp_dir("/tmp/new".to_string(), false));
    assert!(t.temp_dir_made("/tmp/new".to_string(), Ok(true)).is_empty());
    assert_eq!(t.folders().ok(), Some((&"/music".to_string(), &"/tmp/new".to_string())));
    let out = t.temp_dir_made("/tmp/gone".to_string(), Err("denied".to_string()));
    assert_eq!(out.len(), 1);
    assert_eq!(t.temp_dir, None);
    assert_eq!(t.music_dir.as_deref(), Some("/music"));
}

#[test]
fn tag_run_writes_all_then_puts_back() {
    let (mut run, next, out) = TagRun::start(2);
    assert_eq!(next, TagNext::Write(0));
    assert!(out.is_empty());
    assert_eq!(run.step(TagOutcome::Written).0, TagNext::Write(1));
    assert_eq!(run.step(TagOutcome::Written).0, TagNext::CopyBack(0));
    let (next, out) = run.step(TagOutcome::CopiedBack(Some("busy".to_string())));
    assert_eq!(next, TagNext::CopyBack(1));
    assert!(matches!(&out[0], Event::ToApp(AppEvent::Error(m)) if m == "Tagger - Copy Error: busy"));
    let (next, out) = run.step(TagOutcome::CopiedBack(None));
    assert_eq!(next, TagNext::Finished);
    assert_eq!(out.len(), 2);
    assert!(matches!(&out[0], Event::ToCommandLine(CommandLineEvent::Echo(t)) if t == "Saved tags!"));
    assert!(matches!(&out[1], Event::ToMpd(MpdEvent::Update)));
}

#[test]
fn tag_run_stops_at_first_failure() {
    let (mut run, _, _) = TagRun::start(3);
    run.step(TagOutcome::Written);
    let (next, out) = run.step(TagOutcome::Failed(TagStep::Write.failed("disk full")));
    assert_eq!(next, TagNext::Finished);
    assert_eq!(out.len(), 1);
    assert!(matches!(&out[0], Event::ToApp(AppEvent::Error(m)) if m == "Tagger - Write Error: disk full"));
    assert_eq!(run.copied, 0);
    let (_, next, out) = TagRun::start(0);
    assert_eq!(next, TagNext::Finished);
    assert_eq!(out.len(), 2);
}

#[test]
fn edits_leave_other_frames_alone() {
    let mut tag = id3::Tag::new();
    tag.set_album("Kept");
    tag.set_title("Old");
    let edits = frame_edits(&vec![("Title".to_string(), Some("New".to_string()))]).expect("known tag");
    apply_edits(&mut tag, &edits);
    assert_eq!(tag.album(), Some("Kept"));
    assert_eq!(tag.title(), Some("New"));
    assert_eq!(tag.frames().filter(|f| f.id() == "TIT2").count(), 1);
}

#[test]
fn vertical_splitter_draws_box_and_dividers() {
    let s = Splitters::VerticalSplitter(VerticalSplitter::new(
        "v",
        true,
        vec![Panel::new(Size::Absolute(2), "a".to_string()), Panel::new(Size::Remainder, "b".to_string())],
    ));
    let out = s.draw(1, 1, 5, 8).expect("fits");
    let text = shellbird_text(&out);
    assert!(text.starts_with("(1,1)┌───┐"));
    assert!(text.contains("(1,4)─(2,4)─(3,4)─(4,4)─(5,4)─(1,4)├(5,4)┤"));
    assert!(text.ends_with("(1,8)└(5,8)┘"));
    assert!(Splitters::VerticalSplitter(VerticalSplitter::new("v", true, vec![])).draw(1, 1, 5, 8).is_none());
}

fn shellbird_text(paints: &[Paint]) -> String {
    let mut s = String::new();
    for p in paints {
        match p {
            Paint::At(x, y) => s.push_str(&format!("({},{})", x, y)),
            Paint::Text(t) => s.push_str(t),
            _ => {},
        }
    }
    s
}

#[test]
fn player_changes_and_failures() {
    assert_eq!(report_for(Change::Mixer), Some(Report::Status));
    assert_eq!(report_for(Change::Player), Some(Report::NowPlaying));
    assert_eq!(report_for(Change::Other), None);
    assert_eq!(on_connect(), vec![Report::Status, Report::Database, Report::NowPlaying, Report::Queue, Report::Playlists]);
    assert!(retry(Failure::BrokenPipe));
    assert!(!retry(Failure::Other));
    assert!(matches!(listener_message("up"), Event::ToApp(AppEvent::Error(m)) if m == "Mpd Listener Thread: up"));
}
