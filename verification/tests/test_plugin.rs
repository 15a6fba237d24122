use kync::error::{CError, KyncErrorKind};
use kync::ffi::{Slice, Writer};
use kync::plugin::{Backend, Operation, Plugin, API_VERSION};
use kync::pool::Pool;
use kync::test_plugin::{reversed, TestPlugin};

/// Load the test plugin
fn load_plugin() -> Plugin<TestPlugin> {
    Plugin::load(TestPlugin::new()).unwrap()
}

const FORMAT_UID: &[u8] = b"TestCapsuleFormat.3A0351A7-FE90-4383-9E68-FCC20033D5F1";
const USER_SECRET: Option<&[u8]> = Some(b"Testolope");
const KEY: &[u8] = b"2nwBK-EkfXW-yWSQv-Vkab3-USHvX-WNJxa-GeXFJ-ecsjJ-imnft";
const PAYLOAD: &[u8] = b"tfnmi-Jjsce-JFXeG-axJNW-XvHSU-3bakV-vQSWy-WXfkE-KBwn2";

#[test]
fn test() {
    // Load plugin and test format UID
    let plugin = load_plugin();
    assert_eq!(plugin.id().unwrap(), FORMAT_UID);

    // Get the first config
    let configs = plugin.configs().unwrap();
    assert_eq!(&configs[0], b"Default");

    // Protect a key with config 0
    let protected = plugin.protect(KEY, Some(&configs[0]), USER_SECRET).unwrap();
    assert_eq!(protected, PAYLOAD);

    // Recover a key
    let recovered = plugin.recover(&protected, USER_SECRET).unwrap();
    assert_eq!(recovered, KEY);
}

#[test]
fn test_types() {
    struct Fns {
        _init: fn(&TestPlugin, u16, u8) -> CError,
        _format_uid: fn(&TestPlugin, &mut Writer) -> CError,
        _enumerate_item_ids: fn(&TestPlugin, &mut Writer) -> CError,
        _seal: fn(&TestPlugin, &mut Writer, Slice, Slice, Slice) -> CError,
        _open: fn(&TestPlugin, &mut Writer, Slice, Slice) -> CError,
        _buf_len_max: fn(&TestPlugin, Operation, usize) -> usize,
    }
    let _fns = Fns {
        _init: <TestPlugin as Backend>::init,
        _format_uid: <TestPlugin as Backend>::format_uid,
        _enumerate_item_ids: <TestPlugin as Backend>::enumerate_item_ids,
        _seal: <TestPlugin as Backend>::seal,
        _open: <TestPlugin as Backend>::open,
        _buf_len_max: <TestPlugin as Backend>::buf_len_max,
    };
}

fn example_pool() -> Pool<TestPlugin> {
    let plugin = TestPlugin::with(b"Example.v1".to_vec(), b"secret".to_vec(), Vec::new());
    Pool::with_plugin(plugin).unwrap()
}

#[test]
fn seal_then_open_returns_the_key() {
    let pool = example_pool();
    let key: Vec<u8> = (0u8..32).map(|i| i.wrapping_mul(37).wrapping_add(11)).collect();
    let capsule = pool.seal(&key, "Example.v1", None, Some(b"secret")).unwrap();
    assert_eq!(capsule.capsule_format_uid(), "Example.v1");
    assert_eq!(capsule.plugin_payload().tag, 0x04);
    let mut turned = key.clone();
    turned.reverse();
    assert_eq!(capsule.plugin_payload().data, turned);
    let opened = pool.open_to_vec(&capsule, Some(b"secret")).unwrap();
    assert_eq!(opened, key);
    let mut storage = [0u8; 32];
    assert_eq!(pool.open(&mut storage, &capsule, Some(b"secret")), Ok(32));
    assert_eq!(storage.to_vec(), key);
}

#[test]
fn seal_with_wrong_secret_is_denied() {
    let pool = example_pool();
    let err = pool.seal(&[7u8; 32], "Example.v1", None, Some(b"wrong")).unwrap_err();
    assert_eq!(err.kind, KyncErrorKind::AccessDenied { retries_left: None });
    assert_eq!(err.description.as_deref(), Some("Invalid authentication"));
}

#[test]
fn seal_without_secret_asks_for_authentication() {
    let pool = example_pool();
    let err = pool.seal(&[7u8; 32], "Example.v1", None, None).unwrap_err();
    assert_eq!(err.kind, KyncErrorKind::PermissionDenied { requires_authentication: true });
    assert_eq!(err.description.as_deref(), Some("Authentication is required"));
}

#[test]
fn open_without_or_with_wrong_secret_fails() {
    let pool = example_pool();
    let capsule = pool.seal(&[1, 2, 3], "Example.v1", None, Some(b"secret")).unwrap();
    let err = pool.open_to_vec(&capsule, None).unwrap_err();
    assert_eq!(err.kind, KyncErrorKind::PermissionDenied { requires_authentication: true });
    let err = pool.open_to_vec(&capsule, Some(b"wrong")).unwrap_err();
    assert_eq!(err.kind, KyncErrorKind::AccessDenied { retries_left: None });
}

#[test]
fn seal_for_an_unknown_item_finds_nothing() {
    let plugin = load_plugin();
    let err = plugin.protect(KEY, Some(b"Other"), USER_SECRET).unwrap_err();
    assert_eq!(err.kind, KyncErrorKind::ItemNotFound);
    assert_eq!(err.description.as_deref(), Some("Invalid configuration"));
    // the item is checked before the secret
    let err = plugin.protect(KEY, Some(b"Other"), None).unwrap_err();
    assert_eq!(err.kind, KyncErrorKind::ItemNotFound);
}

#[test]
fn test_plugin_refuses_another_api_version() {
    let plugin = TestPlugin::new();
    assert!(plugin.init(API_VERSION, 0).check().is_ok());
    let err = plugin.init(API_VERSION + 1, 0).check().unwrap_err();
    assert_eq!(err.kind, KyncErrorKind::InitializationError);
    assert_eq!(err.description.as_deref(), Some("Invalid API version"));
}

#[test]
fn test_plugin_reports_a_sink_that_is_too_small() {
    let plugin = TestPlugin::new();
    let mut sink = Writer::with_limit(4);
    let status = plugin.seal(&mut sink, Slice::new(b"12345"), Slice::absent(), Slice::new(b"Testolope"));
    let err = status.check().unwrap_err();
    assert_eq!(err.kind, KyncErrorKind::BufferError { required_size: 5 });
    assert_eq!(sink.len(), 0);
    let mut sink = Writer::with_limit(5);
    let status = plugin.seal(&mut sink, Slice::new(b"12345"), Slice::absent(), Slice::new(b"Testolope"));
    assert!(status.check().is_ok());
    assert_eq!(sink.as_slice(), b"54321");
}

#[test]
fn test_plugin_declares_its_output_sizes() {
    let plugin = TestPlugin::with(b"F".to_vec(), b"s".to_vec(), vec![b"Key0".to_vec(), b"Key1".to_vec()]);
    assert_eq!(plugin.buf_len_max(Operation::Seal, 32), 32);
    assert_eq!(plugin.buf_len_max(Operation::Open, 40), 40);
    assert_eq!(plugin.buf_len_max(Operation::CapsuleKeyIds, 0), 10);
}

/// A backend that refuses every API version.
struct Refusing;

impl Backend for Refusing {
    fn init(&self, _api_version: u16, _log_level: u8) -> CError {
        CError::einit().desc("Unsupported API version")
    }
    fn format_uid(&self, _sink: &mut Writer) -> CError {
        CError::ok()
    }
    fn enumerate_item_ids(&self, _sink: &mut Writer) -> CError {
        CError::ok()
    }
    fn seal(&self, _sink: &mut Writer, _key: Slice, _item_id: Slice, _auth: Slice) -> CError {
        CError::eio()
    }
    fn open(&self, _sink: &mut Writer, _payload: Slice, _auth: Slice) -> CError {
        CError::eio()
    }
    fn buf_len_max(&self, _operation: Operation, _input_len: usize) -> usize {
        0
    }
}

#[test]
fn a_plugin_that_refuses_the_version_is_unsupported() {
    let err = match Plugin::load(Refusing) {
        Ok(_) => panic!("the plugin was bound"),
        Err(e) => e,
    };
    assert_eq!(err.kind, KyncErrorKind::Unsupported);
    assert_eq!(err.description.as_deref(), Some("Unsupported API version"));
    let mut pool: Pool<Refusing> = Pool::new();
    assert_eq!(pool.load(Refusing).unwrap_err().kind, KyncErrorKind::Unsupported);
    assert_eq!(pool.len(), 0);
}

#[test]
fn reversed_turns_the_bytes_around() {
    assert_eq!(reversed(b""), b"");
    assert_eq!(reversed(b"a"), b"a");
    assert_eq!(reversed(b"abc"), b"cba");
    assert_eq!(reversed(&reversed(KEY)), KEY);
    assert_eq!(reversed(KEY), PAYLOAD);
}

#[test]
fn the_test_plugin_lists_its_items() {
    let plugin = TestPlugin::new();
    let mut sink = Writer::new();
    assert!(plugin.enumerate_item_ids(&mut sink).check().is_ok());
    assert_eq!(sink.as_slice(), b"Default\0");
    let mut sink = Writer::new();
    assert!(plugin.format_uid(&mut sink).check().is_ok());
    assert_eq!(sink.as_slice(), FORMAT_UID);
    assert_eq!(plugin.user_secret, b"Testolope");
}
