//! Entry points for host-initiated lifecycle events. Each event takes two
//! steps: the caller resolves the handler through the registry while it holds
//! the tables, then one of these runs the matching method on that handler
//! alone and turns its answer into the host's numeric status.
use vstd::prelude::*;

use crate::context::{Context, Handle, RegistryError, RootContext};
use crate::types::{filter_header_status_to_int, FilterHeadersStatus};

verus! {

/// Host status of a VM start: 1 when the root context started, else 0.
pub fn vm_start_status(started: bool) -> (r: u32)
    ensures
        r == (if started { 1u32 } else { 0u32 }),
{
    if started {
        1
    } else {
        0
    }
}

/// Runs `on_start` on a resolved root context, holding only that instance.
pub fn start_root<R: RootContext>(root: &Handle<R>, vm_configuration_size: u32) -> (r: u32)
    ensures
        r == 0 || r == 1,
{
    let (mut state, guard) = root.acquire();
    let started = state.on_start(vm_configuration_size);
    guard.release_write(state);
    vm_start_status(started)
}

/// Runs `on_create` on a resolved stream context, holding only that instance.
pub fn create_stream<C: Context>(context: &Handle<C>) {
    let (mut state, guard) = context.acquire();
    state.on_create();
    guard.release_write(state);
}

/// Runs `on_request_headers` on a resolved stream context, holding only that
/// instance, and returns its status as the host's number.
pub fn stream_request_headers<C: Context>(context: &Handle<C>, num_headers: u32) -> (r: u32)
    ensures
        r == 0 || r == 1,
{
    let (mut state, guard) = context.acquire();
    let status: FilterHeadersStatus = state.on_request_headers(num_headers);
    guard.release_write(state);
    filter_header_status_to_int(status)
}

/// The VM of a root context has started: runs `on_start` on the root context
/// that `Registry::ensure_root_context` resolved, or passes its error on. The
/// caller resolves while it holds the registry and calls this after letting
/// go of it, so the tables are never held while a handler runs.
pub fn proxy_on_vm_start<R: RootContext>(
    root: Result<Handle<R>, RegistryError>,
    vm_configuration_size: u32,
) -> (r: Result<u32, RegistryError>)
    ensures
        root is Err ==> r == Err::<u32, RegistryError>(root->Err_0),
        root is Ok ==> (r matches Ok(s) && (s == 0 || s == 1)),
{
    match root {
        Ok(handle) => Ok(start_root(&handle, vm_configuration_size)),
        Err(e) => Err(e),
    }
}

/// The host created a stream context: runs `on_create` on the stream context
/// that `Registry::ensure_context` resolved, or passes its error on.
pub fn proxy_on_context_create<C: Context>(context: Result<Handle<C>, RegistryError>) -> (r: Result<
    (),
    RegistryError,
>)
    ensures
        context is Err ==> r == Err::<(), RegistryError>(context->Err_0),
        context is Ok ==> r is Ok,
{
    match context {
        Ok(handle) => {
            create_stream(&handle);
            Ok(())
        },
        Err(e) => Err(e),
    }
}

/// Request headers arrived for a stream: runs `on_request_headers` on the
/// stream context that `Registry::get_context` found and returns its status
/// as the host's number; a stream that is not live is an error.
pub fn proxy_on_request_headers<C: Context>(context: Option<Handle<C>>, num_headers: u32) -> (r:
    Result<u32, RegistryError>)
    ensures
        context is None ==> r == Err::<u32, RegistryError>(RegistryError::UnknownContext),
        context is Some ==> (r matches Ok(s) && (s == 0 || s == 1)),
{
    match context {
        Some(handle) => Ok(stream_request_headers(&handle, num_headers)),
        None => Err(RegistryError::UnknownContext),
    }
}

} // verus!
