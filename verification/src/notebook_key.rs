//! The notebook's database key and its custody: a key sealed by a
//! protector bound to the current user, created only for a new notebook.
//! Reading and writing the sealed key file is the caller's part.
use vstd::prelude::*;

use crate::domain::RepoError;
use crate::entropy::random_bytes;

verus! {

pub const DATABASE_KEY_BYTES: usize = 32;

/// A 32-byte database key.
pub struct DatabaseKey([u8; 32]);

impl DatabaseKey {
    pub closed spec fn bytes(&self) -> Seq<u8> {
        self.0@
    }

    /// A fresh random key. Fails when the operating system cannot supply
    /// randomness.
    pub fn generate() -> (r: Result<Self, RepoError>)
        ensures
            r matches Ok(k) ==> k.bytes().len() == DATABASE_KEY_BYTES,
            r matches Err(e) ==> e == RepoError::KeyUnavailable,
    {
        match random_bytes(DATABASE_KEY_BYTES) {
            Some(bytes) => Self::from_bytes(bytes.as_slice()),
            None => Err(RepoError::KeyUnavailable),
        }
    }

    /// The key made of exactly 32 bytes.
    pub fn from_bytes(bytes: &[u8]) -> (r: Result<Self, RepoError>)
        ensures
            bytes@.len() == DATABASE_KEY_BYTES ==> (r matches Ok(k) && k.bytes() == bytes@),
            bytes@.len() != DATABASE_KEY_BYTES ==> r == Err::<Self, RepoError>(RepoError::KeyUnavailable),
    {
        if bytes.len() != DATABASE_KEY_BYTES {
            return Err(RepoError::KeyUnavailable);
        }
        let mut key: [u8; 32] = [0u8; 32];
        let mut i: usize = 0;
        while i < 32
            invariant
                i <= 32,
                bytes@.len() == 32,
                forall|k: int| 0 <= k < i ==> key@[k] == bytes@[k],
            decreases 32 - i,
        {
            key[i] = bytes[i];
            i = i + 1;
        }
        assert(key@ =~= bytes@);
        Ok(DatabaseKey(key))
    }

    pub fn expose(&self) -> (r: &[u8; 32])
        ensures
            r@ == self.bytes(),
    {
        &self.0
    }
}

/// A call's outcome, with bytes by their value.
pub open spec fn bytes_outcome(r: Result<Vec<u8>, RepoError>) -> Result<Seq<u8>, RepoError> {
    match r {
        Ok(v) => Ok(v@),
        Err(e) => Err(e),
    }
}

/// Seals and unseals key bytes for the current user.
///
/// Each implementation has its own relations between what it is handed and
/// what it can answer; sealing may be randomized, so an outcome is one of
/// those the relation allows, not a function of the input.
pub trait KeyProtector {
    /// `out` is an outcome sealing `plaintext` can have.
    spec fn protect_outcome(&self, plaintext: Seq<u8>, out: Result<Seq<u8>, RepoError>) -> bool;

    /// `out` is an outcome unsealing `ciphertext` can have.
    spec fn unprotect_outcome(&self, ciphertext: Seq<u8>, out: Result<Seq<u8>, RepoError>) -> bool;

    fn protect(&self, plaintext: &[u8]) -> (r: Result<Vec<u8>, RepoError>)
        ensures
            self.protect_outcome(plaintext@, bytes_outcome(r)),
    ;

    fn unprotect(&self, ciphertext: &[u8]) -> (r: Result<Vec<u8>, RepoError>)
        ensures
            self.unprotect_outcome(ciphertext@, bytes_outcome(r)),
    ;
}

/// Where the sealed key and the database it opens live, and who seals it.
pub struct KeyCustody<P> {
    pub sealed_key_path: String,
    pub database_path: String,
    pub protector: P,
}

/// Where a key comes from.
#[derive(Clone, Copy, Debug, PartialEq, Eq, Structural)]
pub enum KeySource {
    /// Unseal the existing sealed key.
    Unseal,
    /// A database exists without its key: refuse rather than replace it.
    Refuse,
    /// A new notebook: create a key and seal it.
    Create,
}

pub fn key_source(sealed_key_exists: bool, database_exists: bool) -> (r: KeySource)
    ensures
        sealed_key_exists ==> r == KeySource::Unseal,
        !sealed_key_exists && database_exists ==> r == KeySource::Refuse,
        !sealed_key_exists && !database_exists ==> r == KeySource::Create,
{
    if sealed_key_exists {
        KeySource::Unseal
    } else if database_exists {
        KeySource::Refuse
    } else {
        KeySource::Create
    }
}

/// The reply once the sealed key was handed to the protector and it
/// answered `out`: its error as it is, a plaintext of the wrong length as an
/// unavailable key, or the key made of the plaintext, with nothing to write.
pub open spec fn unsealed_reply(
    out: Result<Seq<u8>, RepoError>,
    r: Result<(DatabaseKey, Option<Vec<u8>>), RepoError>,
) -> bool {
    match out {
        Err(e) => r == Err::<(DatabaseKey, Option<Vec<u8>>), RepoError>(e),
        Ok(p) => if p.len() == DATABASE_KEY_BYTES {
            r matches Ok((k, w)) && k.bytes() == p && w is None
        } else {
            r == Err::<(DatabaseKey, Option<Vec<u8>>), RepoError>(RepoError::KeyUnavailable)
        },
    }
}

/// The reply for a new notebook: a fresh 32-byte key (or an unavailable key
/// when the system has no randomness), handed to the protector; its error
/// as it is, or the key with the sealed bytes it gave, to be written out.
pub open spec fn created_reply<P: KeyProtector>(
    protector: P,
    r: Result<(DatabaseKey, Option<Vec<u8>>), RepoError>,
) -> bool {
    ||| r == Err::<(DatabaseKey, Option<Vec<u8>>), RepoError>(RepoError::KeyUnavailable)
    ||| exists|k: DatabaseKey, out: Result<Seq<u8>, RepoError>|
        k.bytes().len() == DATABASE_KEY_BYTES && #[trigger] protector.protect_outcome(k.bytes(), out)
            && match out {
            Err(e) => r == Err::<(DatabaseKey, Option<Vec<u8>>), RepoError>(e),
            Ok(c) => r matches Ok((key, Some(w))) && key.bytes() == k.bytes() && w@ == c,
        }
}

impl<P: KeyProtector> KeyCustody<P> {
    pub fn new(sealed_key_path: String, database_path: String, protector: P) -> (r: Self)
        ensures
            r.sealed_key_path == sealed_key_path,
            r.database_path == database_path,
            r.protector == protector,
    {
        KeyCustody { sealed_key_path, database_path, protector }
    }

    /// The key, given the sealed key file's contents (`None` where there is
    /// no such file) and whether the database file exists. A sealed key is
    /// unsealed and must be 32 bytes; without one, an existing database is
    /// refused, and a new notebook gets a fresh key together with the sealed
    /// bytes the caller writes out.
    pub fn load_or_create_from(&self, sealed: Option<Vec<u8>>, database_exists: bool) -> (r: Result<
        (DatabaseKey, Option<Vec<u8>>),
        RepoError,
    >)
        ensures
            sealed is None && database_exists ==> r == Err::<(DatabaseKey, Option<Vec<u8>>), RepoError>(
                RepoError::KeyUnavailable,
            ),
            sealed matches Some(c) ==> exists|out: Result<Seq<u8>, RepoError>|
                #[trigger] self.protector.unprotect_outcome(c@, out) && unsealed_reply(out, r),
            sealed is None && !database_exists ==> created_reply(self.protector, r),
    {
        match key_source(sealed.is_some(), database_exists) {
            KeySource::Unseal => {
                let ciphertext = match sealed {
                    Some(c) => c,
                    None => {
                        return Err(RepoError::KeyUnavailable);
                    },
                };
                let plaintext = self.protector.unprotect(ciphertext.as_slice());
                let ghost out = bytes_outcome(plaintext);
                assert(self.protector.unprotect_outcome(ciphertext@, out));
                let plaintext = match plaintext {
                    Ok(p) => p,
                    Err(e) => {
                        return Err(e);
                    },
                };
                let key = DatabaseKey::from_bytes(plaintext.as_slice())?;
                Ok((key, None))
            },
            KeySource::Refuse => Err(RepoError::KeyUnavailable),
            KeySource::Create => {
                let key = DatabaseKey::generate()?;
                let sealed_bytes = self.protector.protect(key.expose());
                let ghost out = bytes_outcome(sealed_bytes);
                assert(self.protector.protect_outcome(key.bytes(), out));
                match sealed_bytes {
                    Ok(c) => Ok((key, Some(c))),
                    Err(e) => Err(e),
                }
            },
        }
    }
}

/// With a protector that unseals exactly what it sealed, a key created for
/// a new notebook comes back from the next load of the sealed bytes written
/// out for it, byte for byte.
pub proof fn law_created_key_loads_back<P: KeyProtector>(
    protector: P,
    created: Result<(DatabaseKey, Option<Vec<u8>>), RepoError>,
    loaded: Result<(DatabaseKey, Option<Vec<u8>>), RepoError>,
    sealed: Seq<u8>,
)
    requires
        forall|p: Seq<u8>, c: Seq<u8>, o: Result<Seq<u8>, RepoError>|
            #[trigger] protector.protect_outcome(p, Ok(c)) && #[trigger] protector.unprotect_outcome(
                c,
                o,
            ) ==> o == Ok::<Seq<u8>, RepoError>(p),
        created_reply(protector, created),
        created matches Ok((_, Some(w))) && w@ == sealed,
        exists|out: Result<Seq<u8>, RepoError>|
            #[trigger] protector.unprotect_outcome(sealed, out) && unsealed_reply(out, loaded),
    ensures
        created is Ok,
        loaded is Ok,
        loaded->Ok_0.1 is None,
        loaded->Ok_0.0.bytes() == created->Ok_0.0.bytes(),
{
    let out = choose|out: Result<Seq<u8>, RepoError>|
        #[trigger] protector.unprotect_outcome(sealed, out) && unsealed_reply(out, loaded);
    let (k, first) = choose|k: DatabaseKey, first: Result<Seq<u8>, RepoError>|
        k.bytes().len() == DATABASE_KEY_BYTES && #[trigger] protector.protect_outcome(k.bytes(), first)
            && match first {
            Err(e) => created == Err::<(DatabaseKey, Option<Vec<u8>>), RepoError>(e),
            Ok(c) => created matches Ok((key, Some(w))) && key.bytes() == k.bytes() && w@ == c,
        };
    assert(first == Ok::<Seq<u8>, RepoError>(sealed));
    assert(protector.protect_outcome(k.bytes(), Ok(sealed)));
    assert(out == Ok::<Seq<u8>, RepoError>(k.bytes()));
}

} // verus!
