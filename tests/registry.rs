use std::sync::atomic::{AtomicUsize, Ordering};
use std::sync::Arc;

use proxy_wasm::context::{
    Context, ContextFactory, Handle, Registry, RegistryError, RootContext, RootContextFactory,
};
use proxy_wasm::dispatch::{
    proxy_on_context_create, proxy_on_request_headers, proxy_on_vm_start, vm_start_status,
};
use proxy_wasm::types::FilterHeadersStatus;

struct Root {
    started_with: Option<u32>,
    succeed: bool,
}

impl RootContext for Root {
    fn on_start(&mut self, configuration_size: u32) -> bool {
        self.started_with = Some(configuration_size);
        self.succeed
    }
}

struct Stream {
    created: usize,
    stop: bool,
    _root: Handle<Root>,
}

impl Context for Stream {
    fn on_create(&mut self) {
        self.created += 1;
    }

    fn on_request_headers(&mut self, _num_headers: u32) -> FilterHeadersStatus {
        if self.stop {
            FilterHeadersStatus::StopIteration
        } else {
            FilterHeadersStatus::Continue
        }
    }
}

struct RootFactory {
    made: Arc<AtomicUsize>,
    succeed: bool,
}

impl RootContextFactory<Root> for RootFactory {
    fn create(&self) -> Root {
        self.made.fetch_add(1, Ordering::SeqCst);
        Root { started_with: None, succeed: self.succeed }
    }
}

struct StreamFactory {
    made: Arc<AtomicUsize>,
    stop: bool,
}

impl ContextFactory<Root, Stream> for StreamFactory {
    fn create(&self, root_context: Handle<Root>) -> Stream {
        self.made.fetch_add(1, Ordering::SeqCst);
        Stream { created: 0, stop: self.stop, _root: root_context }
    }
}

type Reg = Registry<Root, Stream, RootFactory, StreamFactory>;

fn registry(succeed: bool, stop: bool) -> (Reg, Arc<AtomicUsize>, Arc<AtomicUsize>) {
    let roots = Arc::new(AtomicUsize::new(0));
    let streams = Arc::new(AtomicUsize::new(0));
    let mut reg: Reg = Registry::new();
    let r = reg.register_factory(
        "my_root_id",
        StreamFactory { made: streams.clone(), stop },
        RootFactory { made: roots.clone(), succeed },
    );
    assert_eq!(r, Ok(()));
    (reg, roots, streams)
}

#[test]
fn ensure_twice_constructs_once() {
    let (mut reg, roots, _) = registry(true, false);
    let a = reg.ensure_root_context(5, "my_root_id").ok().unwrap();
    let b = reg.ensure_root_context(5, "my_root_id").ok().unwrap();
    assert_eq!(roots.load(Ordering::SeqCst), 1);
    let (mut state, guard) = a.acquire();
    state.started_with = Some(77);
    guard.release_write(state);
    let (state, guard) = b.acquire();
    assert_eq!(state.started_with, Some(77));
    guard.release_write(state);
}

#[test]
fn many_ensures_construct_once() {
    let (mut reg, roots, _) = registry(true, false);
    for _ in 0..50 {
        assert!(reg.ensure_root_context(9, "my_root_id").is_ok());
    }
    assert_eq!(roots.load(Ordering::SeqCst), 1);
    assert!(reg.get_root_context(9).is_some());
}

#[test]
fn unregistered_role_fails_and_creates_nothing() {
    let (mut reg, roots, _) = registry(true, false);
    let r = reg.ensure_root_context(3, "other_role");
    assert_eq!(r.err(), Some(RegistryError::UnknownRole));
    assert_eq!(roots.load(Ordering::SeqCst), 0);
    assert!(reg.get_root_context(3).is_none());
}

#[test]
fn role_is_registered_once() {
    let (mut reg, _, _) = registry(true, false);
    let extra = Arc::new(AtomicUsize::new(0));
    let r = reg.register_factory(
        "my_root_id",
        StreamFactory { made: extra.clone(), stop: false },
        RootFactory { made: extra.clone(), succeed: false },
    );
    assert_eq!(r, Err(RegistryError::RoleAlreadyRegistered));
    let root = reg.ensure_root_context(1, "my_root_id").ok().unwrap();
    let (state, guard) = root.acquire();
    assert!(state.succeed);
    guard.release_write(state);
    assert_eq!(extra.load(Ordering::SeqCst), 0);
}

#[test]
fn stream_needs_its_root() {
    let (mut reg, _, streams) = registry(true, false);
    let r = reg.ensure_context(10, 1);
    assert_eq!(r.err(), Some(RegistryError::UnknownRootContext));
    assert_eq!(streams.load(Ordering::SeqCst), 0);
    assert!(reg.ensure_root_context(1, "my_root_id").is_ok());
    assert!(reg.ensure_context(10, 1).is_ok());
    assert!(reg.ensure_context(10, 1).is_ok());
    assert_eq!(streams.load(Ordering::SeqCst), 1);
    assert_eq!(reg.root_of(10), Some(1));
    assert_eq!(reg.root_of(11), None);
    assert!(reg.get_context(10).is_some());
    assert!(reg.get_context(11).is_none());
}

#[test]
fn stream_keeps_its_first_root() {
    let (mut reg, _, _) = registry(true, false);
    assert!(reg.ensure_root_context(1, "my_root_id").is_ok());
    assert!(reg.ensure_root_context(2, "my_root_id").is_ok());
    assert!(reg.ensure_context(10, 1).is_ok());
    assert!(reg.ensure_context(10, 2).is_ok());
    assert_eq!(reg.root_of(10), Some(1));
}

#[test]
fn vm_start_reports_status() {
    let (mut reg, _, _) = registry(true, false);
    assert_eq!(proxy_on_vm_start(reg.ensure_root_context(1, "my_root_id"), 42), Ok(1));
    let root = reg.get_root_context(1).unwrap();
    let (state, guard) = root.acquire();
    assert_eq!(state.started_with, Some(42));
    guard.release_write(state);

    let (mut failing, _, _) = registry(false, false);
    assert_eq!(proxy_on_vm_start(failing.ensure_root_context(1, "my_root_id"), 0), Ok(0));
    assert_eq!(
        proxy_on_vm_start(failing.ensure_root_context(2, "missing"), 0),
        Err(RegistryError::UnknownRole)
    );
    assert_eq!(vm_start_status(true), 1);
    assert_eq!(vm_start_status(false), 0);
}

#[test]
fn context_create_and_headers() {
    let (mut reg, _, streams) = registry(true, true);
    assert_eq!(
        proxy_on_context_create(reg.ensure_context(7, 1)),
        Err(RegistryError::UnknownRootContext)
    );
    assert_eq!(proxy_on_vm_start(reg.ensure_root_context(1, "my_root_id"), 0), Ok(1));
    assert_eq!(proxy_on_context_create(reg.ensure_context(7, 1)), Ok(()));
    assert_eq!(streams.load(Ordering::SeqCst), 1);
    let h = reg.get_context(7).unwrap();
    let (state, guard) = h.acquire();
    assert_eq!(state.created, 1);
    guard.release_write(state);
    assert_eq!(proxy_on_request_headers(reg.get_context(7), 3), Ok(1));
    assert_eq!(
        proxy_on_request_headers(reg.get_context(8), 3),
        Err(RegistryError::UnknownContext)
    );

    let (mut going, _, _) = registry(true, false);
    assert_eq!(proxy_on_vm_start(going.ensure_root_context(1, "my_root_id"), 0), Ok(1));
    assert_eq!(proxy_on_context_create(going.ensure_context(7, 1)), Ok(()));
    assert_eq!(proxy_on_request_headers(going.get_context(7), 3), Ok(0));
}
