use wasdf::codec::{ext_value_to_scheme, intent_from_datum, intents_from_datum_list, key_name, parse_key};
use wasdf::condition::Conditions;
use wasdf::config::{parse_keymap_config, parse_user_binds};
use wasdf::event::{PanelContent, ResolverRequest, StyleRun};
use wasdf::intent::{Intent, Key, KeyCode, Mods};
use wasdf::kernel::{key_action, keybindings_template, KeyAction, KEYMAP_SCHEME};
use wasdf::keymap::{KeymapRegistry, Layer};
use wasdf::resolver::{defaults, ResolverChain};
use wasdf::scheme::parse_value;
use wasdf::sexpr::{parse, render, Datum};
use wasdf::state::AppState;
use wasdf::value::ExtensionValue;

#[test]
fn ext_intent_form_decodes() {
    let d = parse("(ext \"example\" \"greet\")").unwrap();
    match intent_from_datum(&d) {
        Some(Intent::Extension(ei)) => {
            assert_eq!(ei.extension, "example");
            assert_eq!(ei.intent, "greet");
        }
        other => panic!("expected extension intent, got {other:?}"),
    }
}

#[test]
fn intent_list_decodes() {
    let d = parse("(refresh quit)").unwrap();
    assert_eq!(intents_from_datum_list(&d), vec![Intent::Refresh, Intent::Quit]);
}

#[test]
fn show_function_content_decodes() {
    let d = parse("(show-function-content \"ext\" (lines (\"ab\" (2 10 20 30)) (\"plain\")))").unwrap();
    match intent_from_datum(&d) {
        Some(Intent::ShowFunctionContent { owner, content: PanelContent::Lines { lines, styles } }) => {
            assert_eq!(owner, "ext");
            assert_eq!(lines, vec!["ab".to_string(), "plain".to_string()]);
            assert_eq!(styles[0], vec![StyleRun { len: 2, fg: (10, 20, 30), bg: None }]);
            assert!(styles[1].is_empty(), "a line with no runs is plain");
        }
        other => panic!("expected ShowFunctionContent, got {other:?}"),
    }
}

#[test]
fn show_function_content_decodes_background_runs() {
    let d = parse("(show-function-content \"e\" (lines (\"ab\" (2 1 2 3 4 5 6))))").unwrap();
    match intent_from_datum(&d) {
        Some(Intent::ShowFunctionContent { content: PanelContent::Lines { styles, .. }, .. }) => {
            assert_eq!(styles[0][0], StyleRun { len: 2, fg: (1, 2, 3), bg: Some((4, 5, 6)) });
        }
        other => panic!("expected styled content, got {other:?}"),
    }
}

#[test]
fn update_function_view_decodes() {
    let d = parse("(update-function-view 7)").unwrap();
    assert_eq!(intent_from_datum(&d), Some(Intent::UpdateFunctionView(ExtensionValue::Int(7))));
}

#[test]
fn ext_value_renders_for_the_abi() {
    assert_eq!(ext_value_to_scheme(&ExtensionValue::Int(7)), "7");
    assert_eq!(ext_value_to_scheme(&ExtensionValue::Bool(true)), "#t");
    assert_eq!(ext_value_to_scheme(&ExtensionValue::String("a\"b".into())), "\"a\\\"b\"");
}

#[test]
fn reads_nested_lists_and_atoms() {
    let d = parse("(copy #f ((native \"cp\" \"-R\" paths dst)))").unwrap();
    let top = d.as_list().unwrap();
    assert_eq!(top[0].as_sym(), Some("copy"));
    assert_eq!(top[1].as_bool(), Some(false));
    let cands = top[2].as_list().unwrap();
    let cand = cands[0].as_list().unwrap();
    assert_eq!(cand[0].as_sym(), Some("native"));
    assert_eq!(cand[1].as_str(), Some("cp"));
    assert_eq!(cand[4].as_sym(), Some("dst"));
}

#[test]
fn skips_comments_and_whitespace() {
    let d = parse("  ; a comment\n  (a 1 #t)\n").unwrap();
    assert_eq!(d, Datum::List(vec![Datum::Sym("a".into()), Datum::Int(1), Datum::Bool(true)]));
}

fn chain() -> ResolverChain {
    let mut c = ResolverChain::new();
    c.extend(defaults());
    c
}

#[test]
fn opts_splice_into_argv_in_order() {
    let req = ResolverRequest {
        op: "copy".into(),
        src: None,
        dst: Some("/dst".into()),
        path: None,
        paths: vec!["/a".to_string()],
        opts: vec!["-v".into(), "-n".into()],
        label: "copy".into(),
    };
    let cmd = chain().resolve(&req, "/", &|_: &str| true).unwrap();
    assert_eq!(cmd.argv, vec!["cp", "-R", "-v", "-n", "/a", "/dst"]);
}

#[test]
fn declared_options_per_op() {
    let c = chain();
    assert_eq!(c.options("copy").len(), 2, "copy declares verbose + no-clobber");
    assert!(c.options("delete").is_empty(), "delete declares none");
    assert!(c.is_destructive("delete"));
}

#[test]
fn keybindings_template_is_commented() {
    let t = keybindings_template();
    assert!(t.contains("; (bind file file \"w\" cursor-up)"));
    assert!(t.contains("; (bind select #f \"Enter\" confirm)"));
    assert!(t.lines().filter(|l| l.contains("(bind ")).all(|l| l.trim_start().starts_with(';')));
}

fn embedded_groups() -> Datum {
    let quoted = parse(KEYMAP_SCHEME).unwrap();
    match quoted {
        Datum::List(mut l) => l.remove(1),
        other => panic!("the embedded keymap is a (quote ...) form, got {other:?}"),
    }
}

#[test]
fn keymap_sourced_from_scheme() {
    let binds = parse_keymap_config(&embedded_groups(), Layer::Core).unwrap();
    assert!(binds.len() > 30, "core keymap has many bindings, got {}", binds.len());

    let mut km = KeymapRegistry::new();
    km.extend(binds);
    let conds = Conditions::default();
    let state = AppState::new("/tmp".to_string());
    let up = km.resolve(&conds, &state, "file", Key { code: KeyCode::Char('w'), mods: Mods::none() });
    assert_eq!(up.cloned(), Some(Intent::CursorUp));
    let all = km.resolve(&conds, &state, "file", Key { code: KeyCode::Char('a'), mods: Mods::ctrl_only() });
    assert_eq!(all.cloned(), Some(Intent::SelectAll));
    for code in [KeyCode::Backspace, KeyCode::Delete] {
        let got = km.resolve(&conds, &state, "file", Key { code, mods: Mods::none() });
        assert_eq!(got.cloned(), Some(Intent::DeleteSelected), "{code:?} → delete");
    }
}

#[test]
fn embedded_keymap_matches_the_native_defaults() {
    let binds = parse_keymap_config(&embedded_groups(), Layer::Core).unwrap();
    let native = wasdf::keymap::defaults();
    assert_eq!(binds.len(), native.len());
    for (a, b) in binds.iter().zip(native.iter()) {
        assert_eq!((&a.mode, &a.panel, a.key, &a.intent, a.layer), (&b.mode, &b.panel, b.key, &b.intent, b.layer));
    }
}

#[test]
fn user_keybindings_parsed_at_user_layer() {
    let datum = parse(
        "(quote (\
           ; (bind file file \"w\" cursor-up)\n\
           (bind file file \"z\" cursor-bottom)\
           (bind file #f \"Q\" quit)))",
    )
    .unwrap();
    let forms = match datum {
        Datum::List(mut l) => l.remove(1),
        other => panic!("expected a quote form, got {other:?}"),
    };
    let binds = parse_user_binds(&forms).unwrap();
    assert_eq!(binds.len(), 2, "the commented line is skipped");
    assert!(binds.iter().all(|b| b.layer == Layer::User));
    let z = &binds[0];
    assert_eq!(z.key, Key { code: KeyCode::Char('z'), mods: Mods::none() });
    assert_eq!(z.intent, Intent::CursorBottom);
    assert_eq!(binds[1].panel, None);
}

#[test]
fn key_names_parse_with_modifiers() {
    assert_eq!(parse_key("Ctrl-a"), Some(Key { code: KeyCode::Char('a'), mods: Mods::ctrl_only() }));
    assert_eq!(parse_key("Shift-Tab"), Some(Key { code: KeyCode::BackTab, mods: Mods::none() }));
    assert_eq!(parse_key("Nope"), None);
}

#[test]
fn render_round_trips_a_parsed_datum() {
    let text = "(a \"b\\\"c\" 1 #t (d))";
    let d = parse(text).unwrap();
    assert_eq!(parse(&render(&d)).unwrap(), d);
}

#[test]
fn parse_value_reads_printed_scalars() {
    assert_eq!(parse_value("  #t "), ExtensionValue::Bool(true));
    assert_eq!(parse_value("#false"), ExtensionValue::Bool(false));
    assert_eq!(parse_value("42"), ExtensionValue::Int(42));
    assert_eq!(parse_value("-7"), ExtensionValue::Int(-7));
    assert_eq!(parse_value("\"a\\nb\""), ExtensionValue::String("a\nb".into()));
    assert_eq!(parse_value("sym"), ExtensionValue::String("sym".into()));
    assert_eq!(parse_value("   "), ExtensionValue::Nil);
}

#[test]
fn key_names_read_back_as_their_keys() {
    let keys = [
        Key { code: KeyCode::Char('w'), mods: Mods::none() },
        Key { code: KeyCode::Char(' '), mods: Mods::ctrl_only() },
        Key { code: KeyCode::Char('-'), mods: Mods { ctrl: true, shift: false, alt: true } },
        Key { code: KeyCode::Enter, mods: Mods { ctrl: false, shift: true, alt: true } },
        Key { code: KeyCode::BackTab, mods: Mods::none() },
        Key { code: KeyCode::PageDown, mods: Mods::ctrl_only() },
    ];
    for k in keys {
        assert_eq!(parse_key(&key_name(k)), Some(k), "{}", key_name(k));
    }
    assert_eq!(key_name(Key { code: KeyCode::Left, mods: Mods { ctrl: true, shift: true, alt: false } }), "Ctrl-Shift-Left");
}

#[test]
fn a_table_reads_back_what_was_written() {
    let v = ExtensionValue::Nil
        .with("b", ExtensionValue::Int(2))
        .with("a", ExtensionValue::Int(1))
        .with("a", ExtensionValue::Int(3));
    assert_eq!(v.get("a"), Some(&ExtensionValue::Int(3)));
    assert_eq!(v.get("b"), Some(&ExtensionValue::Int(2)));
    assert_eq!(v.get("c"), None);
    match &v {
        ExtensionValue::Table(pairs) => {
            let keys: Vec<&str> = pairs.iter().map(|(k, _)| k.as_str()).collect();
            assert_eq!(keys, vec!["a", "b"]);
        }
        other => panic!("expected a table, got {other:?}"),
    }
}

#[test]
fn keys_go_to_the_search_the_keymap_or_the_select_input() {
    let mut km = KeymapRegistry::new();
    km.extend(wasdf::keymap::defaults());
    let conds = Conditions::default();
    let mut state = AppState::new("/tmp".to_string());
    let w = Key { code: KeyCode::Char('w'), mods: Mods::none() };
    let unbound = Key { code: KeyCode::Char('~'), mods: Mods { ctrl: true, shift: false, alt: true } };
    assert!(matches!(key_action(&km, &conds, &state, w), KeyAction::Bound(Intent::CursorUp)));
    assert!(matches!(key_action(&km, &conds, &state, unbound), KeyAction::Nothing));
    state.function.search.input_active = true;
    assert!(matches!(key_action(&km, &conds, &state, w), KeyAction::Raw));
    state.function.search.input_active = false;
    state.push_mode(wasdf::mode::Mode::Select(wasdf::mode::SelectSpec::file_search()));
    assert!(matches!(key_action(&km, &conds, &state, unbound), KeyAction::Raw));
}

#[test]
fn a_quoted_source_reads_as_its_body() {
    let d = wasdf::config::quoted("(quote ((file file ((\"h\" func-left)))))").unwrap();
    assert_eq!(render(&d), "((file file ((\"h\" func-left))))");
    assert!(wasdf::config::quoted("(quote)").is_err());
    assert!(wasdf::config::quoted("sym").is_err());
    let groups = wasdf::config::quoted(wasdf::preview::PREVIEW_KEYMAP_SCHEME).unwrap();
    let binds = parse_keymap_config(&groups, Layer::Extension).unwrap();
    assert!(binds.iter().any(|b| b.intent == Intent::FunctionSearchStart));
}
