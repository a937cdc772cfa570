//! The registration table: which listening socket serves which server.

use std::collections::HashMap;
use vstd::prelude::*;

verus! {

/// One registered listener: the descriptor of its listening socket and the
/// position, in the configuration, of the server it was bound for.
#[derive(Clone, Copy, Debug, PartialEq, Eq, Structural)]
pub struct ListenerEntry {
    pub descriptor: i32,
    pub server: usize,
}

/// Why a descriptor was not registered.
#[derive(Clone, Copy, Debug, PartialEq, Eq, Structural)]
pub enum RegistryError {
    /// The descriptor is negative, so it names no open socket.
    InvalidDescriptor,
    /// The descriptor is registered already.
    AlreadyRegistered,
}

/// What a well-formed table looks like from outside: the descriptors of the
/// listeners, the listener of server `k` at position `k`. No descriptor
/// is negative and none occurs twice, and their number fits a `usize`.
pub open spec fn valid_listeners(listeners: Seq<i32>) -> bool {
    &&& listeners.len() <= usize::MAX
    &&& listeners.no_duplicates()
    &&& forall|k: int| 0 <= k < listeners.len() ==> #[trigger] listeners[k] >= 0
}

/// The entry that `listeners` holds for `descriptor`, if it holds one.
pub open spec fn entry_of(listeners: Seq<i32>, descriptor: i32) -> Option<ListenerEntry> {
    if listeners.contains(descriptor) {
        Some(ListenerEntry { descriptor, server: listeners.index_of(descriptor) as usize })
    } else {
        None
    }
}

/// The table of registered listeners, keyed by descriptor.
///
/// Entries are only ever added. Its view is the sequence of descriptors in
/// the order of registration, which is the order of the servers.
pub struct ListenerRegistry {
    by_server: Vec<i32>,
    by_descriptor: HashMap<i32, usize>,
}

impl View for ListenerRegistry {
    type V = Seq<i32>;

    closed spec fn view(&self) -> Seq<i32> {
        self.by_server@
    }
}

impl ListenerRegistry {
    #[verifier::type_invariant]
    spec fn inv(self) -> bool {
        &&& valid_listeners(self.by_server@)
        &&& forall|k: int|
            0 <= k < self.by_server@.len() ==> {
                &&& self.by_descriptor@.contains_key(#[trigger] self.by_server@[k])
                &&& self.by_descriptor@[self.by_server@[k]] == k
            }
        &&& forall|fd: i32| #[trigger]
            self.by_descriptor@.contains_key(fd) ==> {
                &&& self.by_descriptor@[fd] < self.by_server@.len()
                &&& self.by_server@[self.by_descriptor@[fd] as int] == fd
            }
    }

    /// An empty table.
    pub fn new() -> (registry: Self)
        ensures
            registry@ == Seq::<i32>::empty(),
    {
        ListenerRegistry { by_server: Vec::new(), by_descriptor: HashMap::new() }
    }

    /// The number of registered listeners.
    pub fn len(&self) -> (n: usize)
        ensures
            n == self@.len(),
            valid_listeners(self@),
    {
        proof {
            use_type_invariant(self);
        }
        self.by_server.len()
    }

    /// Finds the listener registered under `descriptor`.
    pub fn lookup(&self, descriptor: i32) -> (found: Option<ListenerEntry>)
        ensures
            found == entry_of(self@, descriptor),
    {
        proof {
            use_type_invariant(self);
        }
        match self.by_descriptor.get(&descriptor) {
            Some(server) => {
                assert(self.by_server@[*server as int] == descriptor);
                Some(ListenerEntry { descriptor, server: *server })
            },
            None => {
                None
            },
        }
    }

    /// Registers `descriptor` as the listener of the next server.
    pub fn insert(&mut self, descriptor: i32) -> (outcome: Result<ListenerEntry, RegistryError>)
        ensures
            valid_listeners(old(self)@),
            valid_listeners(final(self)@),
            descriptor < 0 ==> outcome == Err::<ListenerEntry, RegistryError>(
                RegistryError::InvalidDescriptor,
            ),
            descriptor >= 0 && old(self)@.contains(descriptor) ==> outcome == Err::<
                ListenerEntry,
                RegistryError,
            >(RegistryError::AlreadyRegistered),
            descriptor >= 0 && !old(self)@.contains(descriptor) ==> outcome == Ok::<
                ListenerEntry,
                RegistryError,
            >(ListenerEntry { descriptor, server: old(self)@.len() as usize }),
            outcome is Ok ==> final(self)@ == old(self)@.push(descriptor),
            outcome is Err ==> final(self)@ == old(self)@,
    {
        proof {
            use_type_invariant(&*self);
        }
        if descriptor < 0 {
            return Err(RegistryError::InvalidDescriptor);
        }
        if self.by_descriptor.contains_key(&descriptor) {
            return Err(RegistryError::AlreadyRegistered);
        }
        let server: usize = self.by_server.len();
        let mut taken = ListenerRegistry::new();
        std::mem::swap(&mut taken, self);
        let ListenerRegistry { mut by_server, mut by_descriptor } = taken;
        by_server.push(descriptor);
        by_descriptor.insert(descriptor, server);
        assert(by_server.len() <= usize::MAX);
        *self = ListenerRegistry { by_server, by_descriptor };
        Ok(ListenerEntry { descriptor, server })
    }
}

} // verus!
