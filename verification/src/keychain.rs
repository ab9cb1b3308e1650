//! The secure key store: device-keyed records holding key material and
//! versioned metadata in a JSON-over-base64 envelope, with generation and
//! version-preserving rotation.

use vstd::prelude::*;
use vstd::string::StringExecFns;
use crate::crypto::random_bytes;
use crate::encoding::{
    b64_decode_of, base64_decode, base64_encode, chars_to_string, copy_bytes, str_eq,
};
use crate::envelope::{canonical_envelope, decode_envelope, encode_envelope, printable_text};
use crate::timestamp::{now_utc, UtcTime};
use zeroize::Zeroize;

verus! {

/// Errors of the secure key store.
#[derive(Debug)]
pub enum KeychainError {
    /// The host denied access to the store.
    AccessDenied,
    /// No entry exists for the device.
    KeyNotFound,
    /// The store itself failed.
    KeychainAccess(String),
    /// Key data could not be encoded or decoded.
    EncodingError(String),
    /// The key record has an invalid shape.
    InvalidKeyFormat,
    /// The named algorithm is not in the catalog.
    UnsupportedAlgorithm(String),
}

/// Metadata stored alongside a key.
#[derive(Debug, Clone)]
pub struct KeyMetadata {
    /// Algorithm name the key is for.
    pub algorithm: String,
    /// Creation instant, preserved across rotations.
    pub created_at: UtcTime,
    /// Last rotation instant, if the key was ever rotated.
    pub rotated_at: Option<UtcTime>,
    /// Version, starting at one and stepping by one per rotation.
    pub version: u32,
    /// Device the key belongs to.
    pub device_id: String,
}

/// A symmetric key with its metadata.
pub struct EncryptionKey {
    /// Raw key material, wiped on drop.
    pub key_material: Vec<u8>,
    /// The key's metadata.
    pub metadata: KeyMetadata,
}

/// The mathematical value of a stored key: its bytes and metadata fields.
pub struct KeyModel {
    /// Key bytes.
    pub material: Seq<u8>,
    /// Algorithm name.
    pub algorithm: Seq<char>,
    /// Creation instant.
    pub created_at: UtcTime,
    /// Last rotation instant.
    pub rotated_at: Option<UtcTime>,
    /// Version.
    pub version: u32,
    /// Device the key belongs to.
    pub device_id: Seq<char>,
}

impl EncryptionKey {
    /// The key as a mathematical value.
    pub open spec fn model(self) -> KeyModel {
        KeyModel {
            material: self.key_material@,
            algorithm: self.metadata.algorithm@,
            created_at: self.metadata.created_at,
            rotated_at: self.metadata.rotated_at,
            version: self.metadata.version,
            device_id: self.metadata.device_id@,
        }
    }

    /// The metadata strings hold no control character and the instants are
    /// in range, so the envelope can carry them.
    pub open spec fn encodable(self) -> bool {
        &&& printable_text(self.metadata.algorithm@)
        &&& printable_text(self.metadata.device_id@)
        &&& self.metadata.created_at.wf()
        &&& (self.metadata.rotated_at matches Some(t) ==> t.wf())
    }
}

impl Drop for EncryptionKey {
    /// Relies on zeroize::Zeroize for Vec<u8>: the material is overwritten
    /// before the buffer is released.
    #[verifier::external_body]
    fn drop(&mut self)
        opens_invariants none
        no_unwind
    {
        self.key_material.zeroize();
    }
}

/// One stored entry: the envelope blob as persisted, beside the values it
/// was rendered from.
struct StoredRecord {
    device_id: String,
    envelope: Vec<char>,
    material_b64: String,
    material: Vec<u8>,
    metadata: KeyMetadata,
}

impl StoredRecord {
    /// The record as a mathematical value.
    spec fn model(self) -> KeyModel {
        KeyModel {
            material: self.material@,
            algorithm: self.metadata.algorithm@,
            created_at: self.metadata.created_at,
            rotated_at: self.metadata.rotated_at,
            version: self.metadata.version,
            device_id: self.metadata.device_id@,
        }
    }

    /// The envelope is the canonical rendering of the held values, and the
    /// base64 text decodes back to the held material.
    spec fn inv(self) -> bool {
        &&& canonical_envelope(
            self.envelope@,
            self.material_b64@,
            self.metadata.algorithm@,
            self.metadata.created_at,
            self.metadata.rotated_at,
            self.metadata.version,
            self.metadata.device_id@,
        )
        &&& b64_decode_of(self.material_b64@) == Some(self.material@)
    }
}

/// The key store: a service label and one envelope per device identifier.
pub struct KeychainManager {
    service_name: String,
    records: Vec<StoredRecord>,
}

impl KeychainManager {
    /// The stored keys, as a map from device identifier to key value.
    pub closed spec fn contents(self) -> Map<Seq<char>, KeyModel> {
        Self::map_of(self.records@)
    }

    /// The service label, as a mathematical value.
    pub closed spec fn spec_service_name(self) -> Seq<char> {
        self.service_name@
    }

    /// The map described by a sequence of records, later entries winning.
    spec fn map_of(s: Seq<StoredRecord>) -> Map<Seq<char>, KeyModel>
        decreases s.len(),
    {
        if s.len() == 0 {
            Map::empty()
        } else {
            Self::map_of(s.drop_last()).insert(s.last().device_id@, s.last().model())
        }
    }

    /// No two records name the same device.
    spec fn distinct(s: Seq<StoredRecord>) -> bool {
        forall|i: int, j: int|
            0 <= i < j < s.len() ==> s[i].device_id@ != s[j].device_id@
    }

    /// Every record keeps its invariant and no device appears twice.
    pub closed spec fn wf(self) -> bool {
        &&& (forall|i: int|
            0 <= i < self.records@.len() ==> (#[trigger] self.records@[i]).inv())
        &&& Self::distinct(self.records@)
    }

    /// A key is in the map exactly when some record names its device.
    proof fn lemma_map_of_contains(s: Seq<StoredRecord>)
        ensures
            forall|d: Seq<char>|
                #[trigger] Self::map_of(s).contains_key(d) <==> (exists|i: int|
                    0 <= i < s.len() && s[i].device_id@ == d),
        decreases s.len(),
    {
        if s.len() == 0 {
        } else {
            Self::lemma_map_of_contains(s.drop_last());
            assert forall|d: Seq<char>| #[trigger]
                Self::map_of(s).contains_key(d) implies (exists|i: int|
                0 <= i < s.len() && s[i].device_id@ == d) by {
                if d == s.last().device_id@ {
                    assert(s[s.len() - 1].device_id@ == d);
                } else {
                    assert(Self::map_of(s.drop_last()).contains_key(d));
                    let i = choose|i: int|
                        0 <= i < s.drop_last().len() && s.drop_last()[i].device_id@ == d;
                    assert(s[i].device_id@ == d);
                }
            }
            assert forall|d: Seq<char>|
                (exists|i: int| 0 <= i < s.len() && s[i].device_id@ == d) implies #[trigger]
                Self::map_of(s).contains_key(d) by {
                let i = choose|i: int| 0 <= i < s.len() && s[i].device_id@ == d;
                if i == s.len() - 1 {
                } else {
                    assert(s.drop_last()[i].device_id@ == d);
                    assert(Self::map_of(s.drop_last()).contains_key(d));
                }
            }
        }
    }

    /// With distinct devices, each record's device maps to its value.
    proof fn lemma_map_of_index(s: Seq<StoredRecord>, i: int)
        requires
            Self::distinct(s),
            0 <= i < s.len(),
        ensures
            Self::map_of(s).contains_key(s[i].device_id@),
            Self::map_of(s)[s[i].device_id@] == s[i].model(),
        decreases s.len(),
    {
        if i == s.len() - 1 {
        } else {
            assert(Self::distinct(s.drop_last())) by {
                assert forall|a: int, b: int|
                    0 <= a < b < s.drop_last().len() implies s.drop_last()[a].device_id@
                    != s.drop_last()[b].device_id@ by {
                    assert(s[a].device_id@ != s[b].device_id@);
                }
            }
            assert(s.drop_last()[i] == s[i]);
            Self::lemma_map_of_index(s.drop_last(), i);
            assert(s[i].device_id@ != s.last().device_id@);
        }
    }

    /// Replacing the record of a device replaces exactly its map entry.
    proof fn lemma_map_of_update(s: Seq<StoredRecord>, i: int, rec: StoredRecord)
        requires
            Self::distinct(s),
            0 <= i < s.len(),
            s[i].device_id@ == rec.device_id@,
        ensures
            Self::map_of(s.update(i, rec)) == Self::map_of(s).insert(rec.device_id@, rec.model()),
        decreases s.len(),
    {
        if i == s.len() - 1 {
            assert(s.update(i, rec).drop_last() =~= s.drop_last());
            assert(s.update(i, rec).last() == rec);
            assert(Self::map_of(s.update(i, rec)) =~= Self::map_of(s).insert(
                rec.device_id@,
                rec.model(),
            ));
        } else {
            assert(Self::distinct(s.drop_last())) by {
                assert forall|a: int, b: int|
                    0 <= a < b < s.drop_last().len() implies s.drop_last()[a].device_id@
                    != s.drop_last()[b].device_id@ by {
                    assert(s[a].device_id@ != s[b].device_id@);
                }
            }
            assert(s.drop_last()[i] == s[i]);
            Self::lemma_map_of_update(s.drop_last(), i, rec);
            assert(s.update(i, rec).drop_last() =~= s.drop_last().update(i, rec));
            assert(s.update(i, rec).last() == s.last());
            assert(s[i].device_id@ != s.last().device_id@);
            assert(Self::map_of(s.update(i, rec)) =~= Self::map_of(s).insert(
                rec.device_id@,
                rec.model(),
            ));
        }
    }

    /// Removing the record of a device removes exactly its map entry.
    proof fn lemma_map_of_remove(s: Seq<StoredRecord>, i: int)
        requires
            Self::distinct(s),
            0 <= i < s.len(),
        ensures
            Self::map_of(s.remove(i)) == Self::map_of(s).remove(s[i].device_id@),
        decreases s.len(),
    {
        if i == s.len() - 1 {
            assert(s.remove(i) =~= s.drop_last());
            Self::lemma_map_of_contains(s.drop_last());
            assert(!Self::map_of(s.drop_last()).contains_key(s.last().device_id@)) by {
                if Self::map_of(s.drop_last()).contains_key(s.last().device_id@) {
                    let j = choose|j: int|
                        0 <= j < s.drop_last().len() && s.drop_last()[j].device_id@
                            == s.last().device_id@;
                    assert(s[j].device_id@ == s.last().device_id@);
                }
            }
            assert(Self::map_of(s.remove(i)) =~= Self::map_of(s).remove(s[i].device_id@));
        } else {
            assert(Self::distinct(s.drop_last())) by {
                assert forall|a: int, b: int|
                    0 <= a < b < s.drop_last().len() implies s.drop_last()[a].device_id@
                    != s.drop_last()[b].device_id@ by {
                    assert(s[a].device_id@ != s[b].device_id@);
                }
            }
            assert(s.drop_last()[i] == s[i]);
            Self::lemma_map_of_remove(s.drop_last(), i);
            assert(s.remove(i).drop_last() =~= s.drop_last().remove(i));
            assert(s.remove(i).last() == s.last());
            assert(s[i].device_id@ != s.last().device_id@);
            assert(Self::map_of(s.remove(i)) =~= Self::map_of(s).remove(s[i].device_id@));
        }
    }

    /// Creates a manager over the default service label.
    pub fn new() -> (r: Self)
        ensures
            r.wf(),
            r.contents() == Map::<Seq<char>, KeyModel>::empty(),
            r.spec_service_name() == "com.airgapsync.keys"@,
    {
        Self { service_name: String::from_str("com.airgapsync.keys"), records: Vec::new() }
    }

    /// Creates a manager over a custom service label.
    pub fn with_service_name(service_name: String) -> (r: Self)
        ensures
            r.wf(),
            r.contents() == Map::<Seq<char>, KeyModel>::empty(),
            r.spec_service_name() == service_name@,
    {
        Self { service_name, records: Vec::new() }
    }

    /// The service label.
    pub fn service_name(&self) -> (r: &str)
        ensures
            r@ == self.spec_service_name(),
    {
        self.service_name.as_str()
    }

    /// The index of the record for a device, if any.
    fn find_index(&self, device_id: &str) -> (r: Option<usize>)
        requires
            self.wf(),
        ensures
            r matches Some(i) ==> i < self.records@.len() && self.records@[
                i as int
            ].device_id@ == device_id@ && self.contents().contains_key(device_id@)
                && self.contents()[device_id@] == self.records@[i as int].model(),
            r is None ==> !self.contents().contains_key(device_id@),
    {
        let mut i: usize = 0;
        while i < self.records.len()
            invariant
                self.wf(),
                i <= self.records@.len(),
                forall|j: int| 0 <= j < i ==> self.records@[j].device_id@ != device_id@,
            decreases self.records@.len() - i,
        {
            if str_eq(self.records[i].device_id.as_str(), device_id) {
                proof {
                    Self::lemma_map_of_index(self.records@, i as int);
                }
                return Some(i);
            }
            i += 1;
        }
        proof {
            Self::lemma_map_of_contains(self.records@);
        }
        None
    }

    /// Whether a key is stored for the device. Never errors.
    pub fn key_exists(&self, device_id: &str) -> (r: bool)
        requires
            self.wf(),
        ensures
            r == self.contents().contains_key(device_id@),
    {
        self.find_index(device_id).is_some()
    }

    /// Serializes the key into its envelope (quotes and backslashes in the
    /// metadata strings escaped) and stores it under the device, replacing
    /// any previous entry. Fails exactly when the metadata cannot stand in
    /// the envelope: a control character in a string, or an instant out of
    /// range.
    pub fn store_key(&mut self, device_id: &str, key: &EncryptionKey) -> (r: Result<
        (),
        KeychainError,
    >)
        requires
            old(self).wf(),
        ensures
            final(self).wf(),
            final(self).spec_service_name() == old(self).spec_service_name(),
            (r is Ok) <==> key.encodable(),
            r is Ok ==> final(self).contents() == old(self).contents().insert(
                device_id@,
                key.model(),
            ),
            r matches Err(e) ==> final(self).contents() == old(self).contents() && e matches
                KeychainError::EncodingError(_),
    {
        let mb64 = base64_encode(key.key_material.as_slice());
        let env = match encode_envelope(
            mb64.as_str(),
            key.metadata.algorithm.as_str(),
            key.metadata.created_at,
            key.metadata.rotated_at,
            key.metadata.version,
            key.metadata.device_id.as_str(),
        ) {
            Some(e) => e,
            None => {
                return Err(
                    KeychainError::EncodingError(
                        String::from_str("metadata cannot stand in the stored envelope"),
                    ),
                );
            },
        };
        let record = StoredRecord {
            device_id: device_id.to_owned(),
            envelope: env,
            material_b64: mb64,
            material: copy_bytes(key.key_material.as_slice()),
            metadata: KeyMetadata {
                algorithm: key.metadata.algorithm.as_str().to_owned(),
                created_at: key.metadata.created_at,
                rotated_at: key.metadata.rotated_at,
                version: key.metadata.version,
                device_id: key.metadata.device_id.as_str().to_owned(),
            },
        };
        proof {
            assert(record.inv());
            assert(record.model() == key.model());
        }
        match self.find_index(device_id) {
            Some(i) => {
                proof {
                    Self::lemma_map_of_update(self.records@, i as int, record);
                }
                self.records[i] = record;
                proof {
                    assert(Self::distinct(self.records@)) by {
                        assert forall|a: int, b: int|
                            0 <= a < b < self.records@.len() implies self.records@[a].device_id@
                            != self.records@[b].device_id@ by {
                            assert(old(self).records@[a].device_id@ != old(
                                self,
                            ).records@[b].device_id@);
                        }
                    }
                }
            },
            None => {
                proof {
                    Self::lemma_map_of_contains(self.records@);
                }
                self.records.push(record);
                proof {
                    assert(self.records@.drop_last() =~= old(self).records@);
                    assert(Self::distinct(self.records@)) by {
                        assert forall|a: int, b: int|
                            0 <= a < b < self.records@.len() implies self.records@[a].device_id@
                            != self.records@[b].device_id@ by {
                            if b == self.records@.len() - 1 {
                                assert(self.records@[a] == old(self).records@[a]);
                            } else {
                                assert(self.records@[a] == old(self).records@[a]);
                                assert(self.records@[b] == old(self).records@[b]);
                            }
                        }
                    }
                }
            },
        }
        Ok(())
    }

    /// Reads the stored envelope for the device back into a key: returns
    /// exactly the stored value, or `KeyNotFound` when no entry exists.
    pub fn get_key(&self, device_id: &str) -> (r: Result<EncryptionKey, KeychainError>)
        requires
            self.wf(),
        ensures
            self.contents().contains_key(device_id@) ==> (r matches Ok(k) && k.model()
                == self.contents()[device_id@] && k.encodable()),
            !self.contents().contains_key(device_id@) ==> (r matches Err(e) && e matches
                KeychainError::KeyNotFound),
    {
        let i = match self.find_index(device_id) {
            Some(i) => i,
            None => {
                return Err(KeychainError::KeyNotFound);
            },
        };
        let parts = match decode_envelope(self.records[i].envelope.as_slice()) {
            Some(p) => p,
            None => {
                return Err(KeychainError::InvalidKeyFormat);
            },
        };
        let mb64s = chars_to_string(parts.material_b64.as_slice());
        let material = match base64_decode(mb64s.as_str()) {
            Some(m) => m,
            None => {
                return Err(
                    KeychainError::EncodingError(String::from_str("stored material is not base64")),
                );
            },
        };
        let metadata = KeyMetadata {
            algorithm: chars_to_string(parts.algorithm.as_slice()),
            created_at: parts.created_at,
            rotated_at: parts.rotated_at,
            version: parts.version,
            device_id: chars_to_string(parts.device_id.as_slice()),
        };
        Ok(EncryptionKey { key_material: material, metadata })
    }

    /// Removes the entry for the device; `KeyNotFound` when none exists.
    pub fn delete_key(&mut self, device_id: &str) -> (r: Result<(), KeychainError>)
        requires
            old(self).wf(),
        ensures
            final(self).wf(),
            final(self).spec_service_name() == old(self).spec_service_name(),
            old(self).contents().contains_key(device_id@) ==> r is Ok && final(self).contents()
                == old(self).contents().remove(device_id@),
            !old(self).contents().contains_key(device_id@) ==> (r matches Err(e) && e matches
                KeychainError::KeyNotFound) && final(self).contents() == old(self).contents(),
    {
        match self.find_index(device_id) {
            Some(i) => {
                proof {
                    Self::lemma_map_of_remove(self.records@, i as int);
                }
                self.records.remove(i);
                proof {
                    assert(Self::distinct(self.records@)) by {
                        assert forall|a: int, b: int|
                            0 <= a < b < self.records@.len() implies self.records@[a].device_id@
                            != self.records@[b].device_id@ by {
                            let sa: int = if a < i as int {
                                a
                            } else {
                                a + 1
                            };
                            let sb: int = if b < i as int {
                                b
                            } else {
                                b + 1
                            };
                            assert(self.records@[a] == old(self).records@[sa]);
                            assert(self.records@[b] == old(self).records@[sb]);
                        }
                    }
                }
                Ok(())
            },
            None => Err(KeychainError::KeyNotFound),
        }
    }

    /// The devices that hold a stored key, one entry each.
    pub fn list_devices(&self) -> (r: Result<Vec<String>, KeychainError>)
        requires
            self.wf(),
        ensures
            r is Ok,
            r matches Ok(v) ==> (forall|i: int|
                0 <= i < v@.len() ==> self.contents().contains_key(#[trigger] v@[i]@)),
            r matches Ok(v) ==> lists_all_devices(v@, self.contents()),
            r matches Ok(v) ==> (forall|i: int, j: int| 0 <= i < j < v@.len() ==> v@[i]@ != v@[j]@),
    {
        let mut out: Vec<String> = Vec::new();
        let mut i: usize = 0;
        while i < self.records.len()
            invariant
                self.wf(),
                i <= self.records@.len(),
                out@.len() == i,
                forall|j: int| 0 <= j < i ==> out@[j]@ == self.records@[j].device_id@,
            decreases self.records@.len() - i,
        {
            out.push(self.records[i].device_id.as_str().to_owned());
            i += 1;
        }
        proof {
            Self::lemma_map_of_contains(self.records@);
            assert forall|k: int|
                0 <= k < out@.len() implies self.contents().contains_key(#[trigger] out@[k]@) by {
                assert(self.records@[k].device_id@ == out@[k]@);
            }
            assert(lists_all_devices(out@, self.contents())) by {
                assert forall|d: Seq<char>| #[trigger]
                    self.contents().contains_key(d) implies exists|k: int|
                    0 <= k < out@.len() && out@[k]@ == d by {
                    assert(Self::map_of(self.records@).contains_key(d));
                    let j = choose|j: int|
                        0 <= j < self.records@.len() && self.records@[j].device_id@ == d;
                    assert(out@[j]@ == d);
                    assert(0 <= j < out@.len() && out@[j]@ == d);
                }
            }
            assert forall|a: int, b: int| 0 <= a < b < out@.len() implies out@[a]@ != out@[b]@ by {
                assert(out@[a]@ == self.records@[a].device_id@);
                assert(out@[b]@ == self.records@[b].device_id@);
            }
        }
        Ok(out)
    }

    /// Replaces the metadata of the stored key, preserving its material.
    pub fn update_metadata(&mut self, device_id: &str, metadata: KeyMetadata) -> (r: Result<
        (),
        KeychainError,
    >)
        requires
            old(self).wf(),
        ensures
            final(self).wf(),
            final(self).spec_service_name() == old(self).spec_service_name(),
            !old(self).contents().contains_key(device_id@) ==> (r matches Err(e) && e matches
                KeychainError::KeyNotFound) && final(self).contents() == old(self).contents(),
            r is Ok ==> old(self).contents().contains_key(device_id@) && final(self).contents()
                == old(self).contents().insert(
                device_id@,
                KeyModel {
                    material: old(self).contents()[device_id@].material,
                    algorithm: metadata.algorithm@,
                    created_at: metadata.created_at,
                    rotated_at: metadata.rotated_at,
                    version: metadata.version,
                    device_id: metadata.device_id@,
                },
            ),
            r matches Err(e) ==> final(self).contents() == old(self).contents() && (e matches
                KeychainError::KeyNotFound || e matches KeychainError::EncodingError(_)),
            (old(self).contents().contains_key(device_id@) && printable_text(metadata.algorithm@)
                && printable_text(metadata.device_id@) && metadata.created_at.wf() && (
            metadata.rotated_at matches Some(t) ==> t.wf())) ==> r is Ok,
    {
        let old_key = self.get_key(device_id)?;
        let new_key = EncryptionKey {
            key_material: copy_bytes(old_key.key_material.as_slice()),
            metadata,
        };
        self.store_key(device_id, &new_key)
    }
}

impl Default for KeychainManager {
    /// Creates a manager over the default service label.
    fn default() -> (r: Self)
        ensures
            r.wf(),
            r.contents() == Map::<Seq<char>, KeyModel>::empty(),
            r.spec_service_name() == "com.airgapsync.keys"@,
    {
        Self::new()
    }
}

/// Every stored device appears among the listed names.
pub open spec fn lists_all_devices(v: Seq<String>, m: Map<Seq<char>, KeyModel>) -> bool {
    forall|d: Seq<char>|
        #[trigger] m.contains_key(d) ==> exists|i: int| 0 <= i < v.len() && v[i]@ == d
}

/// The key size for the algorithm names the store accepts.
pub open spec fn generated_key_size(algorithm: Seq<char>) -> Option<nat> {
    if algorithm == "AES-256"@ {
        Some(32 as nat)
    } else if algorithm == "AES-128"@ {
        Some(16 as nat)
    } else if algorithm == "ChaCha20"@ {
        Some(32 as nat)
    } else {
        None
    }
}

/// Generates a fresh key for the device: version one, not yet rotated,
/// created now, with material of the algorithm's size from the system
/// random source. A name outside the catalog is refused as unsupported,
/// carrying the name.
pub fn generate_key(algorithm: &str, device_id: &str) -> (r: Result<EncryptionKey, KeychainError>)
    ensures
        (generated_key_size(algorithm@) is None) <==> (r matches Err(e) && e matches
            KeychainError::UnsupportedAlgorithm(_)),
        r matches Err(e) ==> (e matches KeychainError::UnsupportedAlgorithm(n) ==> n@
            == algorithm@),
        r matches Ok(k) ==> generated_key_size(algorithm@) matches Some(n) && k.key_material@.len()
            == n && k.metadata.algorithm@ == algorithm@ && k.metadata.device_id@ == device_id@
            && k.metadata.version == 1 && k.metadata.rotated_at is None
            && k.metadata.created_at.wf(),
        r matches Err(e) ==> (e matches KeychainError::UnsupportedAlgorithm(_) || e matches
            KeychainError::EncodingError(_)),
{
    let key_size: usize = if str_eq(algorithm, "AES-256") {
        32
    } else if str_eq(algorithm, "AES-128") {
        16
    } else if str_eq(algorithm, "ChaCha20") {
        32
    } else {
        return Err(KeychainError::UnsupportedAlgorithm(algorithm.to_owned()));
    };
    let rng = ring::rand::SystemRandom::new();
    let key_material = match random_bytes(&rng, key_size) {
        Ok(m) => m,
        Err(_) => {
            return Err(
                KeychainError::EncodingError(String::from_str("Failed to generate random key")),
            );
        },
    };
    let created_at = match now_utc() {
        Some(t) => t,
        None => {
            return Err(
                KeychainError::EncodingError(
                    String::from_str("host clock outside the storable range"),
                ),
            );
        },
    };
    let metadata = KeyMetadata {
        algorithm: algorithm.to_owned(),
        created_at,
        rotated_at: None,
        version: 1,
        device_id: device_id.to_owned(),
    };
    Ok(EncryptionKey { key_material, metadata })
}

/// Rotates the stored key of a device: fresh material of the same
/// algorithm, the version stepped by exactly one, `rotated_at` set to now,
/// `created_at` and the device preserved, and the new key stored back.
/// `KeyNotFound` comes exactly when the device has no key; a version at
/// the counter's cap or a stored algorithm outside the catalog is refused;
/// otherwise, for a printable device name, only the random source or the host
/// clock can make it fail.
pub fn rotate_key(keychain: &mut KeychainManager, device_id: &str) -> (r: Result<
    EncryptionKey,
    KeychainError,
>)
    requires
        old(keychain).wf(),
    ensures
        final(keychain).wf(),
        final(keychain).spec_service_name() == old(keychain).spec_service_name(),
        (r matches Err(e) && e matches KeychainError::KeyNotFound) <==> !old(
            keychain,
        ).contents().contains_key(device_id@),
        r matches Ok(k) ==> old(keychain).contents().contains_key(device_id@) && k.metadata.version
            == old(keychain).contents()[device_id@].version + 1 && k.metadata.created_at == old(
            keychain,
        ).contents()[device_id@].created_at && k.metadata.algorithm@ == old(
            keychain,
        ).contents()[device_id@].algorithm && k.metadata.device_id@ == device_id@
            && k.metadata.rotated_at is Some && final(keychain).contents() == old(
            keychain,
        ).contents().insert(device_id@, k.model()),
        r is Err ==> final(keychain).contents() == old(keychain).contents(),
        old(keychain).contents().contains_key(device_id@) ==> (r matches Err(e) ==> ((e matches
            KeychainError::InvalidKeyFormat ==> old(keychain).contents()[device_id@].version
            == u32::MAX) && (e matches KeychainError::UnsupportedAlgorithm(_)
            ==> generated_key_size(old(keychain).contents()[device_id@].algorithm) is None) && (
        e matches KeychainError::InvalidKeyFormat || e matches KeychainError::UnsupportedAlgorithm(
            _,
        ) || e matches KeychainError::EncodingError(_)))),
        (old(keychain).contents().contains_key(device_id@) && old(
            keychain,
        ).contents()[device_id@].version < u32::MAX && generated_key_size(
            old(keychain).contents()[device_id@].algorithm,
        ) is Some && printable_text(device_id@)) ==> (r is Ok || (r matches Err(e) && e matches
            KeychainError::EncodingError(_))),
{
    let old_key = keychain.get_key(device_id)?;
    if old_key.metadata.version == u32::MAX {
        return Err(KeychainError::InvalidKeyFormat);
    }
    let rotated_at = match now_utc() {
        Some(t) => t,
        None => {
            return Err(
                KeychainError::EncodingError(
                    String::from_str("host clock outside the storable range"),
                ),
            );
        },
    };
    let mut new_key = generate_key(old_key.metadata.algorithm.as_str(), device_id)?;
    new_key.metadata.version = old_key.metadata.version + 1;
    new_key.metadata.rotated_at = Some(rotated_at);
    new_key.metadata.created_at = old_key.metadata.created_at;
    keychain.store_key(device_id, &new_key)?;
    Ok(new_key)
}

} // verus!
