//! The concrete provider: one store behind a multi-reader /
//! single-writer lock. Lookups, presence tests and key listings take
//! the shared side; insertions, removals and bulk merges take the
//! exclusive side. Each operation is a single critical section, so the
//! store only ever moves through a sequence of completed writes.

use vstd::prelude::*;
use vstd::rwlock::{RwLock, RwLockPredicate};

use crate::savefile::SaveTask;
use crate::store::StoreMap;
use crate::{ConfigError, ConfigProvider, FileAwareConfigProvider};

verus! {

/// The lock's invariant: every store the lock ever holds is
/// well-formed (no duplicate keys).
pub struct WellFormedStore;

impl RwLockPredicate<StoreMap> for WellFormedStore {
    open spec fn inv(self, s: StoreMap) -> bool {
        s.wf()
    }
}

/// File-aware in-memory provider. The store is created empty and is
/// not implicitly persisted: it lives as long as the provider, and
/// survives only through an explicit save.
pub struct InMemoryProvider {
    store: RwLock<StoreMap, WellFormedStore>,
}

impl InMemoryProvider {
    /// Every value this provider's lock hands out satisfies the store
    /// invariant.
    #[verifier::type_invariant]
    spec fn locked_wf(&self) -> bool {
        self.store.pred() == WellFormedStore
    }

    /// A provider over a fresh, empty store.
    pub fn new() -> (r: InMemoryProvider) {
        InMemoryProvider { store: RwLock::new(StoreMap::empty(), Ghost(WellFormedStore)) }
    }

    /// Law: overlapping readers agree. With two read locks held at
    /// once, a lookup through one and a presence test through the
    /// other see the same store, so concurrent readers of a static
    /// store return consistent answers.
    pub fn consistent_read_pair(&self, key: &str) -> (r: (Option<String>, bool))
        ensures
            r.0 is Some <==> r.1,
    {
        proof {
            use_type_invariant(self);
        }
        let first = self.store.acquire_read();
        let second = self.store.acquire_read();
        let found = first.borrow().get(key);
        let present = second.borrow().contains(key);
        proof {
            vstd::rwlock::ReadHandle::lemma_readers_match(&first, &second);
        }
        first.release_read();
        second.release_read();
        (found, present)
    }

}

impl FileAwareConfigProvider for InMemoryProvider {
    fn load_payload(&self, text: &str) -> (r: Result<(), ConfigError>) {
        proof {
            use_type_invariant(self);
        }
        let (mut s, handle) = self.store.acquire_write();
        let r = s.merge_payload(text);
        handle.release_write(s);
        r
    }

    fn save_payload(&self) -> (r: Result<String, ConfigError>) {
        proof {
            use_type_invariant(self);
        }
        let handle = self.store.acquire_read();
        let text = handle.borrow().to_payload();
        handle.release_read();
        Ok(text)
    }

    fn prepare_save(&self, path: &str) -> (t: SaveTask) {
        let payload = match self.save_payload() {
            Ok(p) => p,
            Err(_) => vstd::pervasive::unreached(),
        };
        SaveTask::new(path, payload)
    }
}

impl ConfigProvider for InMemoryProvider {
    fn get(&self, key: &str) -> (r: Result<String, ConfigError>) {
        proof {
            use_type_invariant(self);
        }
        let handle = self.store.acquire_read();
        let found = handle.borrow().get(key);
        handle.release_read();
        match found {
            Some(v) => Ok(v),
            None => Err(ConfigError::NotFound),
        }
    }

    fn has(&self, key: &str) -> (r: Result<bool, ConfigError>) {
        proof {
            use_type_invariant(self);
        }
        let handle = self.store.acquire_read();
        let present = handle.borrow().contains(key);
        handle.release_read();
        Ok(present)
    }

    fn put(&self, key: &str, value: &str) -> (r: Result<(), ConfigError>) {
        proof {
            use_type_invariant(self);
        }
        let (mut s, handle) = self.store.acquire_write();
        s.insert(key, value);
        handle.release_write(s);
        Ok(())
    }

    fn delete(&self, key: &str) -> (r: Result<(), ConfigError>) {
        proof {
            use_type_invariant(self);
        }
        let (mut s, handle) = self.store.acquire_write();
        s.remove(key);
        handle.release_write(s);
        Ok(())
    }

    fn list(&self) -> (r: Result<Vec<String>, ConfigError>) {
        proof {
            use_type_invariant(self);
        }
        let handle = self.store.acquire_read();
        let ks = handle.borrow().keys();
        handle.release_read();
        Ok(ks)
    }
}

} // verus!
