use wasdf::apply::apply_intent;
use wasdf::codec::{cond_from_datum, ext_value_from_datum, ext_value_to_scheme};
use wasdf::value::ExtensionValue;
use wasdf::condition::{Cond, Conditions};
use wasdf::decode::{decode_image, Decoded, IMAGE_MAX};
use wasdf::intent::{Intent, Key, KeyCode, Mods};
use wasdf::keymap::{Binding, KeymapRegistry, Layer};
use wasdf::matcher::{rank_paths, SkimMatcher};
use wasdf::mode::{SelectSource, SelectSpec};
use wasdf::path::path_lt;
use wasdf::readline::{on_boundary, readline_query};
use wasdf::screen::caret_split;
use wasdf::sexpr::Datum;
use wasdf::state::{AppState, SelectState};
use wasdf::text::is_whitespace;

#[test]
fn the_caret_is_a_byte_offset() {
    let s = SelectState::new("é".to_string(), true);
    assert_eq!(s.caret, 2);
    let mut q = "aé".to_string();
    let mut caret = 3;
    readline_query(&mut q, &mut caret, Key { code: KeyCode::Left, mods: Mods::none() });
    assert_eq!(caret, 1);
    readline_query(&mut q, &mut caret, Key { code: KeyCode::Char('ß'), mods: Mods::none() });
    assert_eq!((q.as_str(), caret), ("aßé", 3));
    readline_query(&mut q, &mut caret, Key { code: KeyCode::End, mods: Mods::none() });
    assert_eq!(caret, 5);
    readline_query(&mut q, &mut caret, Key { code: KeyCode::Backspace, mods: Mods::none() });
    assert_eq!((q.as_str(), caret), ("aß", 3));
    assert!(on_boundary("é", 0) && on_boundary("é", 2) && !on_boundary("é", 1));
}

#[test]
fn caret_split_off_a_boundary_stands_at_the_end() {
    assert_eq!(caret_split("héllo", 3), ("hé".to_string(), "l".to_string(), "lo".to_string()));
    assert_eq!(caret_split("héllo", 2), ("héllo".to_string(), " ".to_string(), String::new()));
}

#[test]
fn a_fresh_state_is_ready() {
    let s = AppState::new("/d".to_string());
    assert!(wasdf::apply::is_ready(&s));
    assert_eq!(s.function.scroll, 0);
}

#[test]
fn the_palette_lists_the_registry() {
    let p = SelectSpec::command_palette(Vec::new());
    assert_eq!(p.source, SelectSource::Commands);
    assert_eq!(p.id, "command-palette");
}

#[test]
fn unknown_conditions_are_false() {
    let conds = Conditions::default();
    let s = AppState::new("/d".to_string());
    for d in [Datum::Int(3), Datum::Bool(false), Datum::Str("x".to_string()), Datum::List(Vec::new())] {
        assert!(!conds.eval(&cond_from_datum(&d), &s), "{d:?}");
    }
    assert!(conds.eval(&cond_from_datum(&Datum::Bool(true)), &s));
    assert!(conds.eval(&cond_from_datum(&Datum::Sym("always".to_string())), &s));
}

fn bind(key: char, intent: Intent, layer: Layer) -> Binding {
    Binding {
        mode: "file".to_string(),
        panel: Some("file".to_string()),
        key: Key { code: KeyCode::Char(key), mods: Mods::none() },
        intent,
        when: Cond::Always,
        layer,
    }
}

#[test]
fn collisions_are_checked_across_all_layers() {
    let mut km = KeymapRegistry::new();
    km.add(bind('z', Intent::CursorUp, Layer::Core));
    assert_eq!(km.warnings().len(), 0);
    km.add(bind('z', Intent::CursorDown, Layer::User));
    assert_eq!(km.warnings().len(), 1);
    km.add(bind('z', Intent::Quit, Layer::Core));
    assert_eq!(km.warnings().len(), 2);
    assert!(km.warnings()[1].contains("User vs Core"), "{}", km.warnings()[1]);
}

#[test]
fn the_last_definition_wins_a_tie() {
    let mut km = KeymapRegistry::new();
    km.add(bind('z', Intent::CursorUp, Layer::User));
    km.add(bind('z', Intent::CursorDown, Layer::User));
    let conds = Conditions::default();
    let s = AppState::new("/d".to_string());
    let got = km.resolve(&conds, &s, "file", Key { code: KeyCode::Char('z'), mods: Mods::none() });
    assert_eq!(got.cloned(), Some(Intent::CursorDown));
}

#[test]
fn paths_sort_component_by_component() {
    assert!(!path_lt("a/", "a") && !path_lt("a", "a/"));
    assert!(path_lt("/x", "a"));
    assert!(path_lt("./a", "a"));
    assert!(path_lt("a/b", "a-b"));
    assert!(path_lt("a//b", "a/c") && !path_lt("a/./b", "a/b"));
    let m = SkimMatcher::new();
    let r = rank_paths(&m, "/", vec!["a/".to_string(), "a".to_string(), "/b".to_string()], "");
    assert_eq!(r, vec!["/b".to_string(), "a/".to_string(), "a".to_string()]);
}

#[test]
fn white_space_is_the_unicode_property() {
    for c in [' ', '\t', '\n', '\u{0b}', '\u{85}', '\u{a0}', '\u{2003}', '\u{3000}'] {
        assert!(is_whitespace(c) && c.is_whitespace(), "{c:?}");
    }
    for c in ['a', '\u{200b}', '\u{180e}', '_'] {
        assert!(!is_whitespace(c) && !c.is_whitespace(), "{c:?}");
    }
}

fn png(w: u32, h: u32) -> Vec<u8> {
    let img = image::RgbImage::from_pixel(w, h, image::Rgb([10, 20, 30]));
    let mut out = std::io::Cursor::new(Vec::new());
    img.write_to(&mut out, image::ImageFormat::Png).unwrap();
    out.into_inner()
}

#[test]
fn images_decode_bounded() {
    match decode_image(&png(2, 3), "a.png") {
        Decoded::Image { width, height, rgb } => {
            assert_eq!((width, height), (2, 3));
            assert_eq!(rgb, vec![10, 20, 30].repeat(6));
        }
        _ => panic!("a small image decodes whole"),
    }
    match decode_image(&png(640, 40), "/x/big.PNG") {
        Decoded::Image { width, height, rgb } => {
            assert_eq!((width, height), (IMAGE_MAX, 20));
            assert_eq!(rgb.len(), (width * height * 3) as usize);
        }
        _ => panic!("a large image is scaled down"),
    }
    assert!(matches!(decode_image(&png(2, 3), "a.txt"), Decoded::Text { .. }), "the format follows the extension");
    match decode_image(b"not an image", "a.png") {
        Decoded::Text { lines, styles } => {
            assert_eq!(lines.len(), 1);
            assert!(lines[0].starts_with("[image: ") && lines[0].ends_with(']'));
            assert!(styles.is_empty());
        }
        _ => panic!("undecodable bytes give a note"),
    }
}

#[test]
fn a_walk_step_takes_shown_entries_up_to_the_cap() {
    let e = |n: &str, d: bool| (n.to_string(), format!("/r/{n}"), d);
    let mut found = vec!["/r".to_string()];
    let mut pending = Vec::new();
    wasdf::listing::walk_step(&mut found, &mut pending, vec![e("a", true), e(".h", true), e("b", false), e("c", true)], false, 3);
    assert_eq!(found, vec!["/r".to_string(), "/r/a".to_string(), "/r/b".to_string()]);
    assert_eq!(pending, vec!["/r/a".to_string()]);
    wasdf::listing::walk_step(&mut found, &mut pending, vec![e("z", false)], false, 3);
    assert_eq!(found.len(), 3);
}

#[test]
fn plain_values_read_back_through_their_text() {
    let v = ExtensionValue::List(vec![
        ExtensionValue::Bool(true),
        ExtensionValue::Int(-3),
        ExtensionValue::String("a \"q\" \\ b".to_string()),
        ExtensionValue::List(Vec::new()),
    ]);
    let text = ext_value_to_scheme(&v);
    let back = ext_value_from_datum(&wasdf::sexpr::parse(&text).unwrap());
    assert_eq!(back, v);
}

#[test]
fn resolve_asks_about_each_candidate_executable() {
    let mut c = wasdf::resolver::ResolverChain::new();
    c.extend(wasdf::resolver::defaults());
    let req = wasdf::event::ResolverRequest {
        op: "copy".into(),
        src: None,
        dst: Some("/dst".into()),
        path: None,
        paths: vec!["/a".to_string()],
        opts: vec!["-v".into()],
        label: "copy".into(),
    };
    let asked = std::cell::RefCell::new(Vec::new());
    let cmd = c.resolve(&req, "/", &|s: &str| {
        asked.borrow_mut().push(s.to_string());
        s == "cp"
    });
    assert_eq!(cmd.unwrap().argv, vec!["cp", "-R", "-v", "/a", "/dst"]);
    assert_eq!(asked.borrow().last().map(|s| s.as_str()), Some("cp"));
    let none = c.resolve(&req, "/", &|_: &str| false);
    assert_eq!(none.unwrap_err(), "no runnable candidate for copy");
}

#[test]
fn file_names_and_joins_follow_std() {
    for p in ["a/b.txt", "foo.txt/.", "/", "", "a/..", "./a", ".", "a//b/", "/x/y"] {
        let want = std::path::Path::new(p).file_name().map(|n| n.to_string_lossy().into_owned()).unwrap_or_else(|| p.to_string());
        let c = wasdf::mode::Candidate::path(p.to_string());
        assert_eq!(c.label, want, "{p:?}");
    }
    for (cwd, s) in [("/d", "x"), ("/d/", "x"), ("/d", "/abs"), ("", "x"), ("/d", "")] {
        let want = std::path::Path::new(cwd).join(s).to_string_lossy().into_owned();
        let got = if s.starts_with('/') { s.to_string() } else { wasdf::resolver::make_absolute(s, cwd) };
        assert_eq!(got, want, "{cwd:?} {s:?}");
    }
}

#[test]
fn a_registered_intent_comes_back_with_its_payload() {
    let mut reg = wasdf::command::CommandRegistry::new();
    reg.extend(wasdf::command::defaults());
    let mkdir = reg.intent_ref("mkdir").cloned();
    assert!(matches!(mkdir, Some(Intent::PushMode(_))));
    assert_eq!(reg.intent_of("mkdir"), mkdir);
    let ext = Intent::Extension(wasdf::intent::ExtensionIntent {
        extension: "archive".to_string(),
        intent: "pack".to_string(),
        data: ExtensionValue::List(vec![ExtensionValue::Int(1)]),
    });
    reg.register(wasdf::command::CommandDef { name: "pack".to_string(), description: "p".to_string(), intent: ext.clone() });
    assert_eq!(reg.intent_of("pack"), Some(ext));
    assert_eq!(reg.intent_of("nope"), None);
}

struct NoHost;

impl wasdf::command::HostLookup for NoHost {
    fn resolver_options(&self, _op: &str) -> Vec<(String, String)> {
        Vec::new()
    }
    fn resolver_command(&self, _op: &str) -> Vec<wasdf::mode::CmdToken> {
        Vec::new()
    }
    fn is_dir(&self, _path: &str) -> bool {
        false
    }
    fn dir_children(&self, _dir: &str) -> Vec<String> {
        Vec::new()
    }
    fn editor(&self) -> String {
        "vi".to_string()
    }
}

#[test]
fn the_palette_lists_and_runs_the_registry() {
    let mut reg = wasdf::command::CommandRegistry::new();
    reg.extend(wasdf::command::defaults());
    let ctx = wasdf::command::RegistryLookup { commands: &reg, host: NoHost };
    let mut s = AppState::new("/d".to_string());
    let palette = wasdf::mode::Mode::Select(SelectSpec::command_palette(Vec::new()));
    apply_intent(&mut s, Intent::PushMode(Box::new(palette)), &ctx);
    assert_eq!(s.select.as_ref().unwrap().results.len(), reg.candidates().len());
    for c in "quit".chars() {
        apply_intent(&mut s, Intent::RawKeyEvent(Key { code: KeyCode::Char(c), mods: Mods::none() }), &ctx);
    }
    let first = s.select.as_ref().unwrap().results[0].value.as_str().map(|v| v.to_string());
    assert_eq!(first.as_deref(), Some("quit"));
    apply_intent(&mut s, Intent::Confirm, &ctx);
    let fx = apply_intent(&mut s, Intent::Confirm, &ctx);
    assert_eq!(fx.intents, vec![Intent::Quit]);
}
