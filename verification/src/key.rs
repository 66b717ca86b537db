//! User keys and versioned keys.
//!
//! A user key is an opaque, ordered byte sequence. A versioned key pairs a
//! user key with a timestamp. The physical byte encoding of versioned keys is
//! an engine concern and is kept abstract here; what the read path relies on
//! is only the resulting order: user keys ascending, and within one user key,
//! timestamps descending (newest version first), with all versions of one
//! user key contiguous.

use vstd::prelude::*;
use crate::lex::{lex_lt, lemma_lex_lt_irrefl, lemma_lex_lt_trans, lemma_lex_lt_connected};

verus! {

/// A user-visible key: an opaque, ordered byte sequence.
pub struct Key {
    bytes: Vec<u8>,
}

impl View for Key {
    type V = Seq<u8>;

    closed spec fn view(&self) -> Seq<u8> {
        self.bytes@
    }
}

impl Key {
    /// Wrap raw bytes as a user key.
    pub fn from_bytes(bytes: Vec<u8>) -> (k: Key)
        ensures
            k@ == bytes@,
    {
        Key { bytes }
    }

    /// The raw bytes of the key.
    pub fn as_bytes(&self) -> (r: &Vec<u8>)
        ensures
            r@ == self@,
    {
        &self.bytes
    }

    /// Derive the versioned key `self + ts`.
    pub fn append_ts(&self, ts: u64) -> (v: VersionedKey)
        ensures
            v.user_key@ == self@,
            v.ts == ts,
    {
        VersionedKey { user_key: crate::lex::copy_bytes(&self.bytes), ts }
    }
}

/// A user key together with the timestamp of one version of it.
pub struct VersionedKey {
    /// The user-key prefix.
    pub user_key: Vec<u8>,
    /// The timestamp suffix.
    pub ts: u64,
}

impl VersionedKey {
    /// Recover the user-key prefix, discarding the timestamp.
    pub fn truncate_ts(self) -> (k: Key)
        ensures
            k@ == self.user_key@,
    {
        Key { bytes: self.user_key }
    }
}

/// The order of versioned keys: user keys ascending, and for one user key,
/// timestamps descending, so the newest version of a key comes first.
pub open spec fn version_lt(k1: Seq<u8>, t1: u64, k2: Seq<u8>, t2: u64) -> bool {
    lex_lt(k1, k2) || (k1 == k2 && t1 > t2)
}

/// No versioned key sorts before itself.
pub proof fn lemma_version_lt_irrefl(k: Seq<u8>, t: u64)
    ensures
        !version_lt(k, t, k, t),
{
    lemma_lex_lt_irrefl(k);
}

/// The versioned-key order is transitive.
pub proof fn lemma_version_lt_trans(
    k1: Seq<u8>,
    t1: u64,
    k2: Seq<u8>,
    t2: u64,
    k3: Seq<u8>,
    t3: u64,
)
    requires
        version_lt(k1, t1, k2, t2),
        version_lt(k2, t2, k3, t3),
    ensures
        version_lt(k1, t1, k3, t3),
{
    if lex_lt(k1, k2) && lex_lt(k2, k3) {
        lemma_lex_lt_trans(k1, k2, k3);
    }
}

/// Two versioned keys with neither sorting before the other are equal.
pub proof fn lemma_version_lt_connected(k1: Seq<u8>, t1: u64, k2: Seq<u8>, t2: u64)
    requires
        !version_lt(k1, t1, k2, t2),
        !version_lt(k2, t2, k1, t1),
    ensures
        k1 == k2,
        t1 == t2,
{
    if !lex_lt(k1, k2) && !lex_lt(k2, k1) {
        lemma_lex_lt_connected(k1, k2);
    }
}

} // verus!
