use kync::error::{KyncError, KyncErrorKind};
use kync::key_capsule::KeyCapsule;
use kync::plugin::{
    os_default_prefix, os_default_suffix, parse_item_ids, Binding, BindingEvent, EntryPoint,
    Operation, Platform, Plugin, API_VERSION, LOG_LEVEL,
};
use kync::test_plugin::TestPlugin;

#[test]
fn library_names_follow_the_platform() {
    assert_eq!(os_default_prefix(Platform::Unix), "lib");
    assert_eq!(os_default_prefix(Platform::MacOs), "lib");
    assert_eq!(os_default_prefix(Platform::Windows), "");
    assert_eq!(os_default_suffix(Platform::Unix), "so");
    assert_eq!(os_default_suffix(Platform::MacOs), "dylib");
    assert_eq!(os_default_suffix(Platform::Windows), "dll");
}

#[test]
fn the_api_version_is_1_0() {
    assert_eq!(API_VERSION, 0x0100);
    assert_eq!(LOG_LEVEL, 0);
}

#[test]
fn item_lists_are_split_at_nul_bytes() {
    assert_eq!(parse_item_ids(b""), Some(Vec::new()));
    assert_eq!(parse_item_ids(b"Default\0"), Some(vec![b"Default".to_vec()]));
    assert_eq!(
        parse_item_ids(b"Key0\0Key1\0Key7\0"),
        Some(vec![b"Key0".to_vec(), b"Key1".to_vec(), b"Key7".to_vec()])
    );
    assert_eq!(parse_item_ids(b"\0"), Some(vec![Vec::new()]));
    assert_eq!(parse_item_ids(b"a\0\0b\0"), Some(vec![b"a".to_vec(), Vec::new(), b"b".to_vec()]));
}

#[test]
fn item_lists_without_terminator_are_rejected() {
    assert_eq!(parse_item_ids(b"Default"), None);
    assert_eq!(parse_item_ids(b"Key0\0Key1"), None);
    assert_eq!(parse_item_ids(b"\0a"), None);
}

#[test]
fn entry_points_have_their_symbols() {
    assert_eq!(EntryPoint::Init.symbol(), "init");
    assert_eq!(EntryPoint::FormatUid.symbol(), "format_uid");
    assert_eq!(EntryPoint::EnumerateItemIds.symbol(), "enumerate_item_ids");
    assert_eq!(EntryPoint::Seal.symbol(), "seal");
    assert_eq!(EntryPoint::Open.symbol(), "open");
    assert_eq!(EntryPoint::BufLenMax.symbol(), "buf_len_max");
    assert_eq!(EntryPoint::Init.following(), Some(EntryPoint::FormatUid));
    assert_eq!(EntryPoint::FormatUid.following(), Some(EntryPoint::EnumerateItemIds));
    assert_eq!(EntryPoint::EnumerateItemIds.following(), Some(EntryPoint::Seal));
    assert_eq!(EntryPoint::Seal.following(), Some(EntryPoint::Open));
    assert_eq!(EntryPoint::Open.following(), Some(EntryPoint::BufLenMax));
    assert_eq!(EntryPoint::BufLenMax.following(), None);
}

fn run(events: &[BindingEvent]) -> Binding {
    events.iter().fold(Binding::start(), |state, event| state.advance(*event))
}

const GOOD: [BindingEvent; 8] = [
    BindingEvent::Opened(true),
    BindingEvent::Resolved(true),
    BindingEvent::Initialised(true),
    BindingEvent::Resolved(true),
    BindingEvent::Resolved(true),
    BindingEvent::Resolved(true),
    BindingEvent::Resolved(true),
    BindingEvent::Resolved(true),
];

#[test]
fn a_binding_walks_through_its_steps() {
    let steps = [
        Binding::OpenLibrary,
        Binding::Resolve(EntryPoint::Init),
        Binding::CallInit,
        Binding::Resolve(EntryPoint::FormatUid),
        Binding::Resolve(EntryPoint::EnumerateItemIds),
        Binding::Resolve(EntryPoint::Seal),
        Binding::Resolve(EntryPoint::Open),
        Binding::Resolve(EntryPoint::BufLenMax),
        Binding::Bound,
    ];
    for n in 0..=8 {
        assert_eq!(run(&GOOD[..n]), steps[n]);
    }
    assert_eq!(Binding::Bound.advance(BindingEvent::Resolved(false)), Binding::Bound);
}

#[test]
fn a_library_that_cannot_be_opened_is_an_io_error() {
    assert_eq!(run(&[BindingEvent::Opened(false)]), Binding::Failed(KyncErrorKind::IoError));
}

#[test]
fn a_missing_symbol_is_an_initialization_error() {
    for n in [1, 3, 4, 5, 6, 7] {
        let mut events = GOOD[..n].to_vec();
        events.push(BindingEvent::Resolved(false));
        assert_eq!(run(&events), Binding::Failed(KyncErrorKind::InitializationError));
    }
}

#[test]
fn a_refused_version_is_unsupported() {
    let events = [BindingEvent::Opened(true), BindingEvent::Resolved(true), BindingEvent::Initialised(false)];
    assert_eq!(run(&events), Binding::Failed(KyncErrorKind::Unsupported));
    // and stays so
    let state = run(&events).advance(BindingEvent::Resolved(true));
    assert_eq!(state, Binding::Failed(KyncErrorKind::Unsupported));
}

#[test]
fn an_event_out_of_turn_is_misuse() {
    assert_eq!(run(&[BindingEvent::Resolved(true)]), Binding::Failed(KyncErrorKind::ApiMisuse));
    assert_eq!(run(&[BindingEvent::Initialised(true)]), Binding::Failed(KyncErrorKind::ApiMisuse));
    assert_eq!(
        run(&[BindingEvent::Opened(true), BindingEvent::Opened(true)]),
        Binding::Failed(KyncErrorKind::ApiMisuse)
    );
    assert_eq!(
        run(&[BindingEvent::Opened(true), BindingEvent::Resolved(true), BindingEvent::Resolved(true)]),
        Binding::Failed(KyncErrorKind::ApiMisuse)
    );
}

#[test]
fn a_binding_ends_with_a_plugin_or_an_error() {
    let plugin = run(&GOOD).finish(TestPlugin::new()).unwrap();
    assert_eq!(plugin.id().unwrap(), b"TestCapsuleFormat.3A0351A7-FE90-4383-9E68-FCC20033D5F1");
    let unfinished = run(&GOOD[..5]).finish(TestPlugin::new());
    assert_eq!(unfinished.err(), Some(KyncError::new(KyncErrorKind::ApiMisuse)));
    let failed = run(&[BindingEvent::Opened(false)]).finish(TestPlugin::new());
    assert_eq!(failed.err(), Some(KyncError::new(KyncErrorKind::IoError)));
}

#[test]
fn a_bound_plugin_answers_for_its_backend() {
    let plugin = Plugin::load(KeyCapsule::new()).unwrap();
    assert_eq!(plugin.id().unwrap(), b"TestCapsuleFormat.3A0351A7-FE90-4383-9E68-FCC20033D5F1");
    assert_eq!(
        plugin.configs().unwrap(),
        vec![b"Key0".to_vec(), b"Key1".to_vec(), b"Key7".to_vec()]
    );
    assert_eq!(plugin.buf_len_max(Operation::CapsuleKeyIds, 0), 15);
    assert_eq!(plugin.buf_len_max(Operation::Seal, 32), 37);
    assert_eq!(plugin.buf_len_max(Operation::Seal, usize::MAX - 2), usize::MAX);
    assert_eq!(plugin.buf_len_max(Operation::Open, 37), 32);
    assert_eq!(plugin.buf_len_max(Operation::Open, 4), 0);
    let payload = plugin.protect(b"secret key", Some(b"Key1"), Some(b"Key1")).unwrap();
    assert_eq!(payload, b"Key1:secret key");
    assert_eq!(plugin.recover(&payload, Some(b"Key1")).unwrap(), b"secret key");
}
