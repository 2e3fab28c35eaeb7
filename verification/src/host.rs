use vstd::prelude::*;

use crate::codec::parse_entry;
use crate::codec::parse_entry_spec;
use crate::errors::Error;
use crate::store::Store;

verus! {

/// The outcome an invocation owes for a given parameter buffer over a
/// given starting state: the result it returns, and the state it leaves.
pub open spec fn update_outcome(
    state: Map<Seq<char>, Seq<char>>,
    params: Seq<u8>,
    r: Result<(), Error>,
    state_after: Map<Seq<char>, Seq<char>>,
) -> bool {
    match parse_entry_spec(params) {
        Some(kv) => {
            &&& state.contains_key(kv.0) ==> r is Ok && state_after == state.insert(kv.0, kv.1)
            &&& !state.contains_key(kv.0) ==> r == Err::<(), Error>(Error::NotFound) && state_after
                == state
        },
        None => r == Err::<(), Error>(Error::MalformedParameter) && state_after == state,
    }
}

/// The initialization entrypoint: a fresh store, always empty, whatever
/// happened before and however often it runs.
pub fn init() -> (s: Store)
    ensures
        s.wf(),
        s@ == Map::<Seq<char>, Seq<char>>::empty(),
{
    Store::new()
}

/// The update entrypoint body: decode the parameter buffer and replace
/// the value under its key if the key is present.
///
/// A buffer that does not decode fails with `MalformedParameter`; a key
/// that is absent fails with `NotFound`; in both cases the store is left
/// exactly as it was. On success the store changes at that one key.
pub fn contract_update(store: &mut Store, params: &[u8]) -> (r: Result<(), Error>)
    requires
        old(store).wf(),
    ensures
        final(store).wf(),
        update_outcome(old(store)@, params@, r, final(store)@),
        r is Err ==> final(store)@ == old(store)@,
{
    let (key, value) = match parse_entry(params) {
        Ok(kv) => kv,
        Err(e) => {
            return Err(e);
        },
    };
    store.update(&key, value)
}

/// The transaction boundary a host guarantees around every entrypoint
/// invocation: each invocation's mutations become permanent only when
/// the invocation succeeds.
///
/// The wrapper snapshots the committed store, lets the entrypoint body
/// work on the copy, and installs the copy only on success; on any error
/// the copy is discarded, so the committed store is exactly what it was
/// before the invocation began.
pub struct Host {
    committed: Store,
}

impl View for Host {
    type V = Map<Seq<char>, Seq<char>>;

    closed spec fn view(&self) -> Map<Seq<char>, Seq<char>> {
        self.committed@
    }
}

impl Host {
    /// The committed store is well formed.
    pub closed spec fn wf(&self) -> bool {
        self.committed.wf()
    }

    /// A host whose committed state is the given store.
    pub fn new(store: Store) -> (h: Host)
        requires
            store.wf(),
        ensures
            h.wf(),
            h@ == store@,
    {
        Host { committed: store }
    }

    /// Read the committed state.
    pub fn state(&self) -> (s: &Store)
        requires
            self.wf(),
        ensures
            s.wf(),
            s@ == self@,
    {
        &self.committed
    }

    /// Run one invocation of the update entrypoint as a transaction.
    ///
    /// The net effect is all-or-nothing: on success the committed state
    /// is the entrypoint's result, and on any error it is untouched,
    /// whatever the entrypoint body did before failing.
    pub fn invoke_update(&mut self, params: &[u8]) -> (r: Result<(), Error>)
        requires
            old(self).wf(),
        ensures
            final(self).wf(),
            update_outcome(old(self)@, params@, r, final(self)@),
            r is Err ==> final(self)@ == old(self)@,
    {
        let mut working = self.committed.snapshot();
        let r = contract_update(&mut working, params);
        if r.is_ok() {
            self.committed = working;
        }
        r
    }
}

} // verus!
