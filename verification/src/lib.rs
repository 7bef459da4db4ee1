//! A key-value configuration store: typed entries are kept as encoded text
//! under string keys, guarded by a reader/writer lock, with bulk
//! persistence through a crash-safe atomic-replace protocol.

use vstd::prelude::*;

pub mod codec;
pub mod pathops;
pub mod provider;
pub mod savefile;
pub mod store;

verus! {

/// Key-value config provider.
///
/// Values cross this contract as encoded text: the typed encode/decode
/// sits at the codec boundary above it, so that every operation here is
/// a plain store operation. All operations may be invoked concurrently
/// from any number of callers; each one reads or changes a single
/// consistent snapshot of the shared store.
pub trait ConfigProvider {
    /// Get the encoded text stored under `key`. The only failure is an
    /// absent key.
    fn get(&self, key: &str) -> (r: Result<String, ConfigError>)
        ensures
            r is Err ==> r->Err_0 is NotFound,
    ;

    /// Whether the config contains `key`. Never fails.
    fn has(&self, key: &str) -> (r: Result<bool, ConfigError>)
        ensures
            r is Ok,
    ;

    /// Store `value` under `key`, inserting or overwriting. Never
    /// fails.
    fn put(&self, key: &str, value: &str) -> (r: Result<(), ConfigError>)
        ensures
            r is Ok,
    ;

    /// Remove the entry under `key` if present; absent keys are a
    /// success and a no-op. Never fails.
    fn delete(&self, key: &str) -> (r: Result<(), ConfigError>)
        ensures
            r is Ok,
    ;

    /// A snapshot of all present keys, in no stated order and without
    /// duplicates. Never fails.
    fn list(&self) -> (r: Result<Vec<String>, ConfigError>)
        ensures
            r is Ok,
            (r matches Ok(ks) ==> forall|i: int, j: int|
                0 <= i < j < ks@.len() ==> ks@[i]@ != ks@[j]@),
    ;
}

/// ConfigProvider that supports loading/saving its values from/to a
/// file.
///
/// The provider's side of persistence is bulk text and a save plan:
/// the filesystem effects themselves stay with the caller's driver,
/// which reads the file before a load, and during a save performs each
/// effect the plan asks for and reports its outcome back.
pub trait FileAwareConfigProvider: ConfigProvider {
    /// Merge every entry of the bulk-encoded text into the store,
    /// overwriting present keys; succeeds exactly on texts that decode
    /// as a mapping, and on failure the store is unchanged.
    fn load_payload(&self, text: &str) -> (r: Result<(), ConfigError>)
        ensures
            r is Ok <==> crate::codec::json_object_of(text@) is Some,
            r is Err ==> r->Err_0 is Other,
    ;

    /// The bulk-encoded text of a consistent snapshot of the store.
    /// Encoding a string-to-string mapping cannot fail, and the
    /// produced text always decodes back to a mapping.
    fn save_payload(&self) -> (r: Result<String, ConfigError>)
        ensures
            r is Ok,
            (r matches Ok(text) ==> crate::codec::json_object_of(text@) is Some),
    ;

    /// Snapshot the store, encode it, and plan its crash-safe write to
    /// `path`: the returned task orders the filesystem effects so that
    /// the destination is only ever replaced by the final atomic
    /// rename of the fully written sibling temporary file.
    fn prepare_save(&self, path: &str) -> (t: crate::savefile::SaveTask)
        ensures
            t.wf(),
            t.dest@ == path@,
            t.tmp@ != t.dest@,
            t.stage is EnsureDir || t.stage is WriteTemp,
            crate::codec::json_object_of(t.payload@) is Some,
    ;
}

/// The two failures a provider surfaces to callers.
///
/// `NotFound` is returned only by a lookup of an absent key. `Other`
/// wraps any lower-layer failure (codec or filesystem) and preserves
/// the underlying cause as a message.
#[derive(Debug)]
pub enum ConfigError {
    NotFound,
    Other(String),
}

impl ConfigError {
    /// A human-readable description of the failure, keeping the
    /// underlying cause of an `Other`.
    pub fn describe(&self) -> (r: String)
        ensures
            self is NotFound ==> r@ == "not found"@,
            self matches ConfigError::Other(m) ==> r@ == "other: "@ + m@,
    {
        match self {
            ConfigError::NotFound => "not found".to_owned(),
            ConfigError::Other(m) => {
                let mut r = "other: ".to_owned();
                r.append(m.as_str());
                r
            },
        }
    }
}

} // verus!
