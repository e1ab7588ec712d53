//! A shared handle to an audio source. A source may have many holders (several
//! filter stages, other readers); every call through a handle first acquires
//! the source's lock, so any one read is serialized against any other access
//! to the same source, from any holder.

use std::sync::Arc;
use std::sync::Mutex;
use vstd::prelude::*;

use crate::stream::AudioFormat;
use crate::stream::AudioSource;
use crate::stream::StreamState;
use crate::stream::valid_count;

verus! {

#[verifier::external_type_specification]
#[verifier::external_body]
#[verifier::reject_recursive_types(T)]
pub struct ExMutex<T: ?Sized>(Mutex<T>);

/// A handle to a source shared among several holders. Each handle reaches the
/// same source; the source lives as long as its longest-lived handle.
#[verifier::reject_recursive_types(S)]
pub struct SharedSource<S: AudioSource> {
    inner: Arc<Mutex<S>>,
}

/// Relies on `std::sync::Mutex::new`: wraps the source in a fresh, unlocked
/// lock.
#[verifier::external_body]
fn mutex_new<S: AudioSource>(source: S) -> Mutex<S> {
    Mutex::new(source)
}

/// Relies on `<Arc as Clone>::clone`: a new handle to the same allocation,
/// holding the same value.
#[verifier::external_body]
fn arc_clone<S: AudioSource>(arc: &Arc<Mutex<S>>) -> (r: Arc<Mutex<S>>)
    ensures
        r == *arc,
{
    Arc::clone(arc)
}

/// Relies on `std::sync::Mutex::lock` for exclusive access for the duration
/// of the call, and on the wrapped source's `read` contract for what the
/// call leaves in `samples`. Blocks while another holder holds the lock;
/// panics only if a holder panicked while holding it (a poisoned lock is a
/// fatal acquisition failure, surfaced rather than masked).
#[verifier::external_body]
fn locked_read<S: AudioSource>(arc: &Arc<Mutex<S>>, samples: &mut Vec<u32>) -> (r: StreamState)
    ensures
        final(samples)@.len() == old(samples)@.len(),
        valid_count(r, old(samples)@.len() as int) <= old(samples)@.len(),
        forall|i: int|
            valid_count(r, old(samples)@.len() as int) <= i < old(samples)@.len()
                ==> final(samples)@[i] == old(samples)@[i],
{
    arc.lock().unwrap().read(samples)
}

/// Relies on `std::sync::Mutex::lock` for exclusive access; the format comes
/// from the wrapped source's own `format`. Blocks while another holder holds
/// the lock; panics only if a holder panicked while holding it.
#[verifier::external_body]
fn locked_format<S: AudioSource>(arc: &Arc<Mutex<S>>) -> AudioFormat {
    arc.lock().unwrap().format()
}

impl<S: AudioSource> SharedSource<S> {
    /// Put `source` behind a lock, ready to be shared.
    pub fn new(source: S) -> Self {
        SharedSource { inner: Arc::new(mutex_new(source)) }
    }

    /// Another handle to the same source.
    pub fn share(&self) -> Self {
        SharedSource { inner: arc_clone(&self.inner) }
    }
}

impl<S: AudioSource> AudioSource for SharedSource<S> {
    /// The wrapped source's format, queried under the lock.
    fn format(&mut self) -> AudioFormat {
        locked_format(&self.inner)
    }

    /// One serialized read of the wrapped source: acquire the lock, read,
    /// release.
    fn read(&mut self, samples: &mut Vec<u32>) -> (r: StreamState) {
        locked_read(&self.inner, samples)
    }
}

} // verus!
