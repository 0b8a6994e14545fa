use wasdf::archive::ArchiveExtension;
use wasdf::decode::{append, classify_first, hex_row, highlight_lines, lines_of, Decoded, Kind};
use wasdf::event::ReadResult;
use wasdf::intent::{ExtensionIntent, Intent};
use wasdf::kernel::resolver_request;
use wasdf::loader::parse_glue;
use wasdf::magic::{detect_mime, detect_signature, format_permissions, is_archive, MimeClass, Signature};
use wasdf::mode::Mode;
use wasdf::options::{dedupe, extract_options, parse_help, strip_overstrike};
use wasdf::preview::{PreviewExtension, LOOKAHEAD};
use wasdf::search::find_matches;
use wasdf::state::{AppState, Entry};
use wasdf::value::ExtensionValue;

#[test]
fn strips_man_overstrike() {
    assert_eq!(strip_overstrike("R\u{8}Recursive"), "Recursive");
    assert_eq!(strip_overstrike("_\u{8}x_\u{8}y"), "xy");
}

#[test]
fn parses_gnu_style_help() {
    let help = "Usage: cp [OPTION]... SOURCE DEST\n\
        \x20 -f, --force                  remove existing destinations\n\
        \x20 -i, --interactive            prompt before overwrite\n\
        \x20 -R, -r, --recursive          copy directories recursively\n\
        \x20     --help     display this help and exit\n";
    let opts = parse_help(help);
    let tokens: Vec<&str> = opts.iter().map(|(t, _)| t.as_str()).collect();
    assert_eq!(tokens, vec!["-f", "-i", "-R"], "first flag per line; --help filtered");
    assert_eq!(opts[0].1, "remove existing destinations");
}

#[test]
fn option_labels_are_shortened_and_tokens_deduped() {
    let long = "x".repeat(60);
    let opts = parse_help(&format!("  -a  {long}\n  -a  again\n  -b  bee\n"));
    assert_eq!(opts[0].1.chars().count(), 49, "48 characters and an ellipsis");
    assert!(opts[0].1.ends_with('\u{2026}'));
    let kept = dedupe(opts);
    assert_eq!(kept.iter().map(|(t, _)| t.as_str()).collect::<Vec<_>>(), vec!["-a", "-b"]);
}

#[test]
fn options_fall_back_to_the_man_page() {
    let got = extract_options("no options here\n", Some("  -\u{8}-x\u{8}x  ex\n"));
    assert_eq!(got, vec![("-x".to_string(), "ex".to_string())]);
    assert!(extract_options("nothing\n", None).is_empty());
}

#[test]
fn parses_declarative_glue() {
    let glue = "(extension \"demo\" \
        (commands ((demo-refresh \"demo: refresh\" refresh))) \
        (resolvers ((demo:echo #f ((native \"echo\" \"hi\"))))))";
    let ext = parse_glue(glue).unwrap();
    assert_eq!(ext.id, "demo");
    assert_eq!(ext.commands.len(), 1);
    assert_eq!(ext.commands[0].name, "demo-refresh");
    assert_eq!(ext.resolvers[0].key, "demo:echo");
}

#[test]
fn rejects_non_extension_glue() {
    assert!(parse_glue("(nonsense)").is_err());
}

#[test]
fn parses_lib_section() {
    let ext = parse_glue("(extension \"demo\" (lib \"demo_ext\") (keymaps ((file file ((\"g\" (ext \"demo\" \"x\")))))))").unwrap();
    assert_eq!(ext.id, "demo");
    assert_eq!(ext.lib.as_deref(), Some("demo_ext"), "the named native library");
}

#[test]
fn unknown_glue_section_is_named() {
    assert_eq!(parse_glue("(extension \"d\" (bogus))").err(), Some("unknown glue section: Some(\"bogus\")".to_string()));
    assert_eq!(parse_glue("(extension)").err(), Some("glue missing id".to_string()));
}

fn state_with_file(visible: bool) -> AppState {
    let mut s = AppState::new("/d".to_string());
    s.entries = vec![Entry {
        path: "/d/a.txt".to_string(),
        name: "a.txt".into(),
        is_dir: false,
        is_symlink: false,
        size: 0,
        mode: 0,
        uid: 0,
        gid: 0,
        modified: None,
        created: None,
        accessed: None,
        symlink_target: None,
    }];
    s.function.visible = visible;
    s
}

#[test]
fn on_cursor_changed_loads_when_visible() {
    let ext = PreviewExtension::new();
    match ext.on_cursor_changed(&state_with_file(true)).as_slice() {
        [Intent::LoadContent { owner, path, offset }] => {
            assert_eq!(owner, "preview");
            assert_eq!(path, "/d/a.txt");
            assert_eq!(*offset, 0, "a new target loads from the start");
        }
        other => panic!("expected a LoadContent, got {other:?}"),
    }
    assert!(ext.on_cursor_changed(&state_with_file(false)).is_empty());
}

#[test]
fn paging_requests_the_next_chunk_only_when_scrolled_near_the_end() {
    let mut ext = PreviewExtension::new();
    let path = "/d/a.txt";
    let first = b"x\n".repeat(300);
    let first_len = first.len() as u64;
    ext.accept_content(path, ReadResult::Bytes { offset: 0, bytes: first, eof: false });
    let mut s = state_with_file(true);
    s.entries[0].path = path.to_string();

    s.function.scroll = 0;
    assert!(ext.on_cursor_changed(&s).is_empty(), "no paging while the viewport is far from the loaded end");

    s.function.scroll = 300 - LOOKAHEAD + 1;
    match ext.on_cursor_changed(&s).as_slice() {
        [Intent::LoadContent { offset, .. }] => {
            assert_eq!(*offset, first_len, "next chunk at the byte where the first ended")
        }
        other => panic!("expected the next chunk, got {other:?}"),
    }

    ext.accept_content(path, ReadResult::Bytes { offset: first_len, bytes: b"end\n".to_vec(), eof: true });
    s.function.scroll = 999;
    assert!(ext.on_cursor_changed(&s).is_empty(), "fully loaded → no re-read");
}

#[test]
fn search_intent_matches_over_the_stash() {
    let mut ext = PreviewExtension::new();
    ext.accept_content("/x/a.txt", ReadResult::Bytes { offset: 0, bytes: b"foo\nbar foo\n".to_vec(), eof: true });
    let s = AppState::new("/tmp".to_string());
    let ei = ExtensionIntent { extension: "preview".into(), intent: "search".into(), data: ExtensionValue::String("foo".into()) };
    match ext.handle_intent(&ei, &s).as_slice() {
        [Intent::SetSearchMatches(m), Intent::SetScroll(line)] => {
            assert_eq!(m.len(), 2);
            assert_eq!(*line, 0);
        }
        other => panic!("expected matches + jump, got {other:?}"),
    }
}

#[test]
fn stale_chunks_for_another_path_are_ignored() {
    let mut ext = PreviewExtension::new();
    ext.accept_content("/d/a.txt", ReadResult::Bytes { offset: 0, bytes: b"one\n".to_vec(), eof: false });
    ext.accept_content("/d/b.txt", ReadResult::Bytes { offset: 4, bytes: b"two\n".to_vec(), eof: true });
    match &ext.content {
        Some(Decoded::Text { lines, .. }) => assert_eq!(lines, &vec!["one".to_string()]),
        _ => panic!("expected text"),
    }
    assert!(!ext.load.eof, "the stale chunk did not finish the window");
}

#[test]
fn an_image_chunk_asks_for_a_whole_decode() {
    let mut ext = PreviewExtension::new();
    let png = vec![0x89, b'P', b'N', b'G', 0, 0];
    assert!(ext.accept_content("/d/i.png", ReadResult::Bytes { offset: 0, bytes: png, eof: true }));
    assert!(ext.content.is_none());
}

#[test]
fn text_classifies_then_appends_with_highlight() {
    let (mut content, kind) = classify_first(b"fn main() {}\n").unwrap();
    assert_eq!(kind, Kind::Text);
    let tail = append("x.rs", Kind::Text, &mut content, b"fn main() {}\n", true);
    assert!(tail.is_empty());
    match content {
        Decoded::Text { lines, styles } => {
            assert_eq!(lines, vec!["fn main() {}".to_string()]);
            assert!(!styles[0].is_empty(), "rust got highlight runs");
        }
        _ => panic!("expected text"),
    }
}

#[test]
fn text_append_carries_a_partial_line_across_chunks() {
    let mut content = Decoded::Text { lines: Vec::new(), styles: Vec::new() };
    let tail = append("a.txt", Kind::Text, &mut content, b"alpha\nbe", false);
    assert_eq!(tail, b"be");
    let mut buf = tail;
    buf.extend_from_slice(b"ta\ngamma");
    let tail = append("a.txt", Kind::Text, &mut content, &buf, true);
    assert!(tail.is_empty());
    match content {
        Decoded::Text { lines, .. } => assert_eq!(lines, vec!["alpha", "beta", "gamma"]),
        _ => panic!("expected text"),
    }
}

#[test]
fn hex_append_rows_have_global_addresses_and_carry_a_remainder() {
    let mut content = Decoded::Binary { lines: Vec::new() };
    let chunk: Vec<u8> = (0..18u8).collect();
    let tail = append("b.bin", Kind::Hex, &mut content, &chunk, false);
    assert_eq!(tail.len(), 2);
    let mut buf = tail;
    buf.extend((18..34u8).collect::<Vec<_>>());
    append("b.bin", Kind::Hex, &mut content, &buf, true);
    match content {
        Decoded::Binary { lines } => {
            assert_eq!(lines.len(), 3);
            assert!(lines[0].starts_with("00000000"));
            assert!(lines[1].starts_with("00000010"));
            assert!(lines[2].starts_with("00000020"), "final short row at the global offset");
        }
        _ => panic!("expected hex"),
    }
}

#[test]
fn hex_row_formats_address_bytes_and_text() {
    let row = hex_row(0x1234, b"Hi\x00");
    assert_eq!(row, format!("00001234  48 69 00{}  Hi.", " ".repeat(40)));
}

#[test]
fn highlights_a_known_extension() {
    let lines = vec!["fn main() {}".to_string()];
    let styles = highlight_lines("example.rs", &lines);
    assert_eq!(styles.len(), 1);
    assert!(!styles[0].is_empty(), "rust source got highlight runs");
    let total: usize = styles[0].iter().map(|r| r.len).sum();
    assert_eq!(total, lines[0].len());
}

#[test]
fn unknown_extension_is_unstyled() {
    let styles = highlight_lines("data.unknownext", &vec!["x".to_string()]);
    assert!(styles.is_empty(), "no syntax → plain text");
}

#[test]
fn lines_split_like_str_lines() {
    assert_eq!(lines_of("a\r\nb\n\nc"), vec!["a", "b", "", "c"]);
    assert_eq!(lines_of("x\n"), vec!["x"]);
    assert!(lines_of("").is_empty());
}

fn lines(v: &[&str]) -> Vec<String> {
    v.iter().map(|s| s.to_string()).collect()
}

#[test]
fn finds_every_occurrence_in_document_order() {
    let m = find_matches(&lines(&["foo bar", "baz foo", "none", "foo"]), "foo");
    assert_eq!(m, vec![(0, 0, 3), (1, 4, 7), (3, 0, 3)]);
}

#[test]
fn is_ascii_case_insensitive() {
    assert_eq!(find_matches(&lines(&["Hello HELLO hello"]), "hello").len(), 3);
}

#[test]
fn empty_query_matches_nothing() {
    assert!(find_matches(&lines(&["anything"]), "").is_empty());
}

#[test]
fn matches_do_not_overlap() {
    assert_eq!(find_matches(&lines(&["aaaa"]), "aa"), vec![(0, 0, 2), (0, 2, 4)]);
}

#[test]
fn signatures_and_mime_classes() {
    assert_eq!(detect_signature(&[0x89, b'P', b'N', b'G', 1]), Signature::Png);
    assert_eq!(detect_signature(b"PK\x05\x06rest"), Signature::Zip);
    let mut tar = vec![0u8; 300];
    tar[257..262].copy_from_slice(b"ustar");
    assert_eq!(detect_signature(&tar), Signature::Tar);
    assert!(is_archive(&[0x1F, 0x8B, 0]));
    assert!(!is_archive(b"plain"));
    assert_eq!(detect_mime(b""), MimeClass::Text);
    assert_eq!(detect_mime(b"hello\n"), MimeClass::Text);
    assert_eq!(detect_mime(b"a\x00b"), MimeClass::Binary);
    assert_eq!(detect_mime(b"\x01\x02\x03a"), MimeClass::Binary);
    assert_eq!(detect_mime(b"GIF89a"), MimeClass::Image);
}

#[test]
fn permissions_render_type_and_bits() {
    assert_eq!(format_permissions(0o040755), "drwxr-xr-x");
    assert_eq!(format_permissions(0o100644), "-rw-r--r--");
    assert_eq!(format_permissions(0o120777), "lrwxrwxrwx");
}

#[test]
fn archive_pack_asks_then_runs_through_the_resolver_key() {
    let ext = ArchiveExtension;
    let mut s = AppState::new("/d".to_string());
    s.entries = state_with_file(false).entries;
    s.selection = vec!["/d/a.txt".to_string()];
    let ask = ext.handle_intent(&ExtensionIntent { extension: "archive".into(), intent: "pack".into(), data: ExtensionValue::Nil }, &s);
    match ask.as_slice() {
        [Intent::PushMode(m)] => assert!(matches!(**m, Mode::Select(ref spec) if spec.id == "archive:pack")),
        other => panic!("expected the name prompt, got {other:?}"),
    }
    let item = ExtensionValue::Nil.with("item", ExtensionValue::String("out.tgz".into()));
    let run = ext.handle_intent(&ExtensionIntent { extension: "archive".into(), intent: "pack-run".into(), data: item }, &s);
    match run.as_slice() {
        [Intent::PopMode, Intent::Extension(ei)] => {
            let req = resolver_request(&ei.data).expect("a resolver request");
            assert_eq!(req.op, "archive:pack");
            assert_eq!(req.dst.as_deref(), Some("out.tgz"));
            assert_eq!(req.paths, vec!["/d/a.txt".to_string()]);
            assert_eq!(req.label, "pack \u{2192} out.tgz");
        }
        other => panic!("expected pop + run, got {other:?}"),
    }
}

#[test]
fn archive_unpack_needs_a_cursor_entry() {
    let ext = ArchiveExtension;
    let empty = AppState::new("/d".to_string());
    let ei = ExtensionIntent { extension: "archive".into(), intent: "unpack".into(), data: ExtensionValue::Nil };
    assert!(ext.handle_intent(&ei, &empty).is_empty());
    let s = state_with_file(false);
    match ext.handle_intent(&ei, &s).as_slice() {
        [Intent::Extension(e)] => {
            let req = resolver_request(&e.data).expect("a resolver request");
            assert_eq!(req.op, "archive:unpack");
            assert_eq!(req.path.as_deref(), Some("/d/a.txt"));
            assert_eq!(req.label, "unpack a.txt");
        }
        other => panic!("expected an unpack run, got {other:?}"),
    }
}
