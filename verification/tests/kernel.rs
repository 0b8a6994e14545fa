use wasdf::event::{AsyncResult, AsyncStatus, Payload, Plan, Purpose, ReadResult, ResolverRequest};
use wasdf::route::{route_result, unique_purpose, Route};
use wasdf::intent::{ExtensionIntent, Intent};
use wasdf::kernel::{cursor_signature, dispatch_step, eq_ignore_ascii_case, pick_options, Options, Step, REDISPATCH_CAP};
use wasdf::matcher::{rank_paths, SkimMatcher};
use wasdf::mode::Mode;
use wasdf::reducer::NoCommands;
use wasdf::resolver::{defaults, OptDef, ResolverChain};
use wasdf::state::{AppState, Entry};
use wasdf::value::ExtensionValue;

fn chain() -> ResolverChain {
    let mut c = ResolverChain::new();
    c.extend(defaults());
    c
}

fn delete_request() -> ResolverRequest {
    ResolverRequest {
        op: "delete".into(),
        src: None,
        dst: None,
        path: None,
        paths: vec!["/d/a".to_string()],
        opts: Vec::new(),
        label: "delete".into(),
    }
}

#[test]
fn destructive_op_waits_for_confirmation_then_runs() {
    let c = chain();
    let mut s = AppState::new("/d".to_string());
    let step = dispatch_step(&mut s, &c, Intent::RunResolver(delete_request()), false, 0, &NoCommands);
    assert!(matches!(step, Step::AskPolicy));
    assert!(matches!(s.mode(), Mode::Policy(_)));

    // Any other intent is held off while the prompt waits.
    let held = dispatch_step(&mut s, &c, Intent::CursorDown, false, 0, &NoCommands);
    assert!(matches!(held, Step::Held));
    assert!(matches!(s.mode(), Mode::Policy(_)));

    // Confirm hands back exactly the held intent; dispatching it confirmed runs it.
    let allowed = dispatch_step(&mut s, &c, Intent::Confirm, false, 0, &NoCommands);
    let pending = match allowed {
        Step::Allow(i) => i,
        _ => panic!("expected the held intent back"),
    };
    assert_eq!(pending, Intent::RunResolver(delete_request()));
    assert!(matches!(s.mode(), Mode::File));
    match dispatch_step(&mut s, &c, pending, true, 1, &NoCommands) {
        Step::Reduced { effects, kill } => {
            assert!(!kill);
            assert!(matches!(effects.plans.as_slice(), [Plan::ResolveAndRun { request }] if request.op == "delete"));
        }
        _ => panic!("expected the run"),
    }
}

#[test]
fn cancel_drops_the_held_intent() {
    let c = chain();
    let mut s = AppState::new("/d".to_string());
    dispatch_step(&mut s, &c, Intent::RunResolver(delete_request()), false, 0, &NoCommands);
    assert!(matches!(dispatch_step(&mut s, &c, Intent::Cancel, false, 0, &NoCommands), Step::Deny));
    assert!(matches!(s.mode(), Mode::File));
}

#[test]
fn extension_resolver_key_runs_or_asks() {
    let c = chain();
    let mut s = AppState::new("/d".to_string());
    let table = ExtensionValue::map(vec![
        ("op".to_string(), ExtensionValue::String("copy".into())),
        ("dst".to_string(), ExtensionValue::String("/x".into())),
    ]);
    let ei = ExtensionIntent { extension: "e".into(), intent: "go".into(), data: ExtensionValue::Nil.with("resolver", table) };
    match dispatch_step(&mut s, &c, Intent::Extension(ei), false, 0, &NoCommands) {
        Step::Run(Plan::ResolveAndRun { request }) => {
            assert_eq!(request.op, "copy");
            assert_eq!(request.dst.as_deref(), Some("/x"));
            assert_eq!(request.label, "copy", "the label defaults to the op");
        }
        _ => panic!("expected a run"),
    }
    let bad = ExtensionIntent { extension: "e".into(), intent: "go".into(), data: ExtensionValue::Nil.with("resolver", ExtensionValue::Int(1)) };
    assert!(matches!(dispatch_step(&mut s, &c, Intent::Extension(bad), false, 0, &NoCommands), Step::Malformed));
    let plain = ExtensionIntent { extension: "e".into(), intent: "go".into(), data: ExtensionValue::Nil };
    assert!(matches!(dispatch_step(&mut s, &c, Intent::Extension(plain), false, 0, &NoCommands), Step::ToExtension(_)));
}

#[test]
fn deep_redispatch_is_dropped() {
    let c = chain();
    let mut s = AppState::new("/d".to_string());
    assert!(matches!(dispatch_step(&mut s, &c, Intent::Quit, false, REDISPATCH_CAP + 1, &NoCommands), Step::Dropped));
    assert!(!s.quit);
}

#[test]
fn kill_process_asks_to_stop_the_stream() {
    let c = chain();
    let mut s = AppState::new("/d".to_string());
    assert!(matches!(dispatch_step(&mut s, &c, Intent::KillProcess, false, 0, &NoCommands), Step::Reduced { kill: true, .. }));
}

#[test]
fn cursor_signature_follows_the_file_cursor() {
    let mut s = AppState::new("/d".to_string());
    assert_eq!(cursor_signature(&s), (None, false, 0));
    s.entries = vec![Entry {
        path: "/d/a".to_string(),
        name: "a".into(),
        is_dir: false,
        is_symlink: false,
        size: 0,
        mode: 0,
        uid: 0,
        gid: 0,
        modified: None,
        created: None,
        accessed: None,
        symlink_target: None,
    }];
    s.function.visible = true;
    s.function.scroll = 3;
    assert_eq!(cursor_signature(&s), (Some("/d/a".to_string()), true, 3));
}

#[test]
fn options_read_the_setting() {
    assert!(Options::from_setting(Some("1")).content_auto_update);
    assert!(Options::from_setting(Some("TrUe")).content_auto_update);
    assert!(!Options::from_setting(Some("yes")).content_auto_update);
    assert!(!Options::from_setting(None).content_auto_update);
    assert!(eq_ignore_ascii_case("ABC", "abc"));
    assert!(!eq_ignore_ascii_case("abc", "abd"));
}

#[test]
fn extracted_options_win_over_declared_ones() {
    let declared = vec![OptDef { token: "-v".into(), label: "verbose".into() }];
    assert_eq!(pick_options(&declared, Vec::new()), vec![("-v".to_string(), "verbose".to_string())]);
    let got = pick_options(&declared, vec![("-x".to_string(), "ex".to_string())]);
    assert_eq!(got, vec![("-x".to_string(), "ex".to_string())]);
}

#[test]
fn ranking_orders_by_score_then_path() {
    let m = SkimMatcher::new();
    let paths = vec!["/r/zeta".to_string(), "/r/alpha".to_string(), "/r/a-b".to_string(), "/r/a/b".to_string()];
    let all = rank_paths(&m, "/r", paths.clone(), "");
    assert_eq!(all, vec!["/r/a/b", "/r/a-b", "/r/alpha", "/r/zeta"], "path order puts the separator first");
    let hits = rank_paths(&m, "/r", paths, "zet");
    assert_eq!(hits, vec!["/r/zeta"]);
}

#[test]
fn only_failures_raise_errors() {
    let mut state = AppState::new("/w".to_string());
    let before = state.clone();
    let quiet = wasdf::results::apply_result(&mut state, wasdf::event::AsyncResult {
        request_id: 1,
        purpose: wasdf::event::Purpose::Search,
        mode_generation: 0,
        status: wasdf::event::AsyncStatus::Cancelled,
        payload: wasdf::event::Payload::Empty,
    });
    assert!(quiet.notices.is_empty() && quiet.plans.is_empty() && quiet.intents.is_empty());
    assert_eq!(state, before);
    let loud = wasdf::results::apply_result(&mut state, wasdf::event::AsyncResult {
        request_id: 2,
        purpose: wasdf::event::Purpose::Refresh,
        mode_generation: 0,
        status: wasdf::event::AsyncStatus::Failed("read /w: gone".to_string()),
        payload: wasdf::event::Payload::Empty,
    });
    assert_eq!(loud.notices.len(), 1);
    assert!(loud.notices[0].error);
    assert_eq!(loud.notices[0].text, "read /w: gone");
    let failed_op = wasdf::results::apply_result(&mut state, wasdf::event::AsyncResult {
        request_id: 3,
        purpose: wasdf::event::Purpose::Resolver,
        mode_generation: 0,
        status: wasdf::event::AsyncStatus::Done,
        payload: wasdf::event::Payload::OpDone(wasdf::event::OpDone { label: "copy".to_string(), success: false, message: None }),
    });
    assert!(failed_op.notices[0].error);
    assert!(failed_op.plans.is_empty());
}

#[test]
fn the_mode_stack_keeps_its_base_and_fresh_generations() {
    let c = chain();
    let mut s = AppState::new("/d".to_string());
    let shape = |s: &AppState| {
        assert!(!s.modes.is_empty());
        assert!(matches!(s.modes[0].mode, Mode::File));
        assert!(s.modes.iter().all(|f| f.generation < s.next_generation));
    };
    let steps = vec![
        Intent::PushMode(Box::new(Mode::Select(wasdf::mode::SelectSpec::file_search()))),
        Intent::PushMode(Box::new(Mode::Select(wasdf::mode::SelectSpec::command_palette(Vec::new())))),
        Intent::Cancel,
        Intent::PopMode,
        Intent::PopMode,
        Intent::RunResolver(delete_request()),
        Intent::Cancel,
    ];
    let mut last_top = 0;
    for i in steps {
        let _ = dispatch_step(&mut s, &c, i, false, 0, &NoCommands);
        shape(&s);
        let top = s.modes.last().unwrap().generation;
        if s.modes.len() > 1 {
            assert!(top >= last_top);
            last_top = top;
        }
    }
    assert_eq!(s.modes.len(), 1);
}

#[test]
fn results_are_routed_by_purpose_and_staleness() {
    let mut s = AppState::new("/d".to_string());
    let read = AsyncResult {
        request_id: 1,
        purpose: Purpose::Content,
        mode_generation: 0,
        status: AsyncStatus::Done,
        payload: Payload::Read { owner: "preview".into(), path: "/d/a".into(), result: ReadResult::Dir { entries: Vec::new() } },
    };
    assert!(matches!(route_result(&s, read), Route::ToOwner { owner, path, .. } if owner == "preview" && path == "/d/a"));
    let failed = AsyncResult { request_id: 2, purpose: Purpose::Content, mode_generation: 0, status: AsyncStatus::Failed("x".into()), payload: Payload::Empty };
    assert_eq!(route_result(&s, failed), Route::Drop);
    // A search result with no Select on top is stale.
    let search = AsyncResult { request_id: 3, purpose: Purpose::Search, mode_generation: 0, status: AsyncStatus::Done, payload: Payload::Empty };
    assert_eq!(route_result(&s, search.clone()), Route::Drop);
    let g = s.push_mode(Mode::Select(wasdf::mode::SelectSpec::file_search()));
    let fresh = AsyncResult { mode_generation: g, ..search.clone() };
    assert_eq!(route_result(&s, fresh.clone()), Route::Reduce(fresh));
    assert_eq!(route_result(&s, search), Route::Drop);
    let refresh = AsyncResult { request_id: 4, purpose: Purpose::Refresh, mode_generation: 99, status: AsyncStatus::Done, payload: Payload::Empty };
    assert_eq!(route_result(&s, refresh.clone()), Route::Reduce(refresh));
    assert!(unique_purpose(Purpose::Content) && unique_purpose(Purpose::Search) && unique_purpose(Purpose::Refresh));
    assert!(!unique_purpose(Purpose::Resolver) && !unique_purpose(Purpose::Execute) && !unique_purpose(Purpose::Scheme));
}

#[test]
fn readiness_of_a_state() {
    let mut s = AppState::new("/d".to_string());
    assert!(wasdf::apply::is_ready(&s));
    s.function.search.caret = 5;
    assert!(!wasdf::apply::is_ready(&s));
    s.function.search.caret = 0;
    s.modes.clear();
    assert!(!wasdf::apply::is_ready(&s));
}
