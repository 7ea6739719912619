//! The credential vault: passwords under the name of the account they belong to,
//! each sealed with a key of this machine and user.

use crate::text;
use aes_gcm::aead::{Aead, Payload};
use aes_gcm::{Aes256Gcm, Key, KeyInit, Nonce};
use sha2::{Digest, Sha256};
use vstd::prelude::*;
use vstd::utf8;

verus! {

/// The error of a cipher, which says nothing but that it occurred.
#[verifier::external_type_specification]
#[verifier::external_body]
pub struct ExCipherError(aes_gcm::Error);

/// The error of the system's source of random bytes.
#[verifier::external_type_specification]
#[verifier::external_body]
pub struct ExRandomError(getrandom::Error);

/// What AES-256-GCM makes of a message: the ciphertext and behind it the tag.
pub uninterp spec fn aes_256_gcm_sealed(
    key: Seq<u8>,
    nonce: Seq<u8>,
    aad: Seq<u8>,
    message: Seq<u8>,
) -> Seq<u8>;

/// The message that AES-256-GCM finds in a ciphertext with its tag, if the tag is
/// right.
pub uninterp spec fn aes_256_gcm_opened(
    key: Seq<u8>,
    nonce: Seq<u8>,
    aad: Seq<u8>,
    sealed: Seq<u8>,
) -> Option<Seq<u8>>;

/// The SHA-256 digest.
pub uninterp spec fn sha256(data: Seq<u8>) -> Seq<u8>;

/// The longest message, and the longest associated data, of AES-GCM.
pub open spec fn gcm_limit() -> nat {
    0x10_0000_0000
}

/// `Aead::encrypt` of `Aes256Gcm` with a payload of a message and associated
/// data. It fails exactly if one of the two exceeds the limit of the mode. The
/// result is the message's ciphertext followed by a tag of 16 bytes, and
/// decrypting it with the same key, nonce and associated data gives the message
/// back.
#[verifier::external_body]
fn encrypt(key: &[u8], nonce: &[u8], aad: &[u8], message: &[u8]) -> (result: Result<
    Vec<u8>,
    aes_gcm::Error,
>)
    requires
        key@.len() == 32,
        nonce@.len() == 12,
        message@.len() + 16 <= isize::MAX,
    ensures
        match result {
            Ok(sealed) => {
                &&& message@.len() <= gcm_limit()
                &&& aad@.len() <= gcm_limit()
                &&& sealed@ == aes_256_gcm_sealed(key@, nonce@, aad@, message@)
                &&& sealed@.len() == message@.len() + 16
                &&& aes_256_gcm_opened(key@, nonce@, aad@, sealed@) == Some(message@)
            },
            Err(_) => message@.len() > gcm_limit() || aad@.len() > gcm_limit(),
        },
{
    let cipher = Aes256Gcm::new(Key::<Aes256Gcm>::from_slice(key));
    cipher.encrypt(Nonce::from_slice(nonce), Payload { msg: message, aad })
}

/// `Aead::decrypt` of `Aes256Gcm` with a payload of a ciphertext, its tag behind
/// it, and associated data. It fails if there is no room for a tag or the tag is
/// not the right one.
#[verifier::external_body]
fn decrypt(key: &[u8], nonce: &[u8], aad: &[u8], sealed: &[u8]) -> (result: Result<
    Vec<u8>,
    aes_gcm::Error,
>)
    requires
        key@.len() == 32,
        nonce@.len() == 12,
    ensures
        match result {
            Ok(message) => {
                &&& aes_256_gcm_opened(key@, nonce@, aad@, sealed@) == Some(message@)
                &&& sealed@.len() == message@.len() + 16
            },
            Err(_) => aes_256_gcm_opened(key@, nonce@, aad@, sealed@) is None,
        },
{
    let cipher = Aes256Gcm::new(Key::<Aes256Gcm>::from_slice(key));
    cipher.decrypt(Nonce::from_slice(nonce), Payload { msg: sealed, aad })
}

/// `Digest::digest` of `Sha256`: 32 bytes that depend on the data alone.
#[verifier::external_body]
fn digest(data: &[u8]) -> (out: Vec<u8>)
    ensures
        out@ == sha256(data@),
        out@.len() == 32,
{
    Sha256::digest(data).to_vec()
}

/// `getrandom::fill`: overwrites the bytes, whatever with, and keeps their number.
#[verifier::external_body]
fn fill_random(dest: &mut Vec<u8>) -> (result: Result<(), getrandom::Error>)
    ensures
        final(dest)@.len() == old(dest)@.len(),
{
    getrandom::fill(dest.as_mut_slice())
}

/// `String::from_utf8`: the text that the bytes encode, if they are valid UTF-8.
#[verifier::external_body]
fn text_from_utf8(bytes: Vec<u8>) -> (result: Option<String>)
    ensures
        match result {
            Some(text) => utf8::valid_utf8(bytes@) && text@ == utf8::decode_utf8(bytes@),
            None => !utf8::valid_utf8(bytes@),
        },
{
    String::from_utf8(bytes).ok()
}

/// Why a password could not be stored.
#[derive(Debug)]
pub enum VaultError {
    /// The system gave no random bytes.
    Random(getrandom::Error),
    /// The password or its account is too long for the cipher.
    Cipher,
}

/// A sealed password.
#[derive(Debug)]
pub struct StoredCredential {
    pub nonce: Vec<u8>,
    pub ciphertext: Vec<u8>,
}

/// What a `StoredCredential` holds.
pub struct CredentialModel {
    pub nonce: Seq<u8>,
    pub ciphertext: Seq<u8>,
}

impl View for StoredCredential {
    type V = CredentialModel;

    open spec fn view(&self) -> CredentialModel {
        CredentialModel { nonce: self.nonce@, ciphertext: self.ciphertext@ }
    }
}

/// The name of an account: the user, and the address without regard to case.
pub open spec fn account(address: Seq<char>, username: Seq<char>) -> Seq<char> {
    text::trimmed(username) + "@"@ + text::lowered(text::trimmed(address))
}

/// The name under which the password of an account is stored.
pub fn credential_key(address: &str, username: &str) -> (id: String)
    ensures
        id@ == account(address@, username@),
{
    let mut id = text::trim(username);
    id.append("@");
    let address = text::trim(address);
    let address = text::to_lower(address.as_str());
    id.append(address.as_str());
    id
}

/// Whether no name occurs twice.
spec fn distinct(ids: Seq<String>) -> bool {
    forall|i: int, j: int|
        0 <= i < j < ids.len() ==> (#[trigger] ids[i])@ != (#[trigger] ids[j])@
}

/// The credentials by their names.
spec fn map_of(ids: Seq<String>, credentials: Seq<StoredCredential>) -> Map<
    Seq<char>,
    CredentialModel,
> {
    Map::new(
        |id: Seq<char>| has_id(ids, id),
        |id: Seq<char>| credentials[index_of(ids, id)]@,
    )
}

/// The sealed passwords by account.
#[derive(Debug)]
pub struct CredentialStore {
    ids: Vec<String>,
    credentials: Vec<StoredCredential>,
}

/// The index of `id` among the names.
spec fn index_of(ids: Seq<String>, id: Seq<char>) -> int {
    choose|i: int| 0 <= i < ids.len() && (#[trigger] ids[i])@ == id
}

/// Whether `id` is among the names.
spec fn has_id(ids: Seq<String>, id: Seq<char>) -> bool {
    exists|i: int| 0 <= i < ids.len() && (#[trigger] ids[i])@ == id
}

impl CredentialStore {
    /// No name occurs twice.
    #[verifier::type_invariant]
    spec fn inv(self) -> bool {
        self.ids@.len() == self.credentials@.len() && distinct(self.ids@)
    }

    /// What the store holds.
    pub closed spec fn map(&self) -> Map<Seq<char>, CredentialModel> {
        map_of(self.ids@, self.credentials@)
    }
}

impl View for CredentialStore {
    type V = Map<Seq<char>, CredentialModel>;

    open spec fn view(&self) -> Map<Seq<char>, CredentialModel> {
        self.map()
    }
}

/// What an optional credential holds.
pub open spec fn credential_view(credential: Option<&StoredCredential>) -> Option<CredentialModel> {
    match credential {
        Some(credential) => Some(credential@),
        None => None,
    }
}

impl CredentialStore {
    /// A store without passwords.
    pub fn new() -> (store: Self)
        ensures
            store@ == Map::<Seq<char>, CredentialModel>::empty(),
            store.ids_view() == Seq::<Seq<char>>::empty(),
    {
        let store = CredentialStore { ids: Vec::new(), credentials: Vec::new() };
        assert(store@ =~= Map::<Seq<char>, CredentialModel>::empty());
        assert(store.ids_view() =~= Seq::<Seq<char>>::empty());
        store
    }

    /// The number of passwords.
    pub fn len(&self) -> (len: usize)
        ensures
            len == self.ids_view().len(),
    {
        self.ids.len()
    }

    /// The names in the order in which they came.
    pub closed spec fn ids_view(&self) -> Seq<Seq<char>> {
        self.ids@.map_values(|id: String| id@)
    }

    /// The name and the credential at an index.
    pub fn entry(&self, index: usize) -> (entry: (&str, &StoredCredential))
        requires
            index < self.ids_view().len(),
        ensures
            entry.0@ == self.ids_view()[index as int],
            self@.contains_key(entry.0@),
            self@[entry.0@] == entry.1@,
    {
        proof {
            use_type_invariant(self);
            assert(self.ids@[index as int]@ == self.ids_view()[index as int]);
            lemma_index(self.ids@, index as int);
        }
        (self.ids[index].as_str(), &self.credentials[index])
    }

    fn position(&self, id: &str) -> (position: Option<usize>)
        ensures
            match position {
                Some(i) => i < self.ids@.len() && self.ids@[i as int]@ == id@,
                None => !has_id(self.ids@, id@),
            },
    {
        for i in 0..self.ids.len()
            invariant
                forall|k: int| 0 <= k < i ==> (#[trigger] self.ids@[k])@ != id@,
        {
            if text::same_text(self.ids[i].as_str(), id) {
                return Some(i);
            }
        }
        None
    }

    /// The credential of an account.
    pub fn get(&self, id: &str) -> (credential: Option<&StoredCredential>)
        ensures
            credential_view(credential) == if self@.contains_key(id@) {
                Some(self@[id@])
            } else {
                None
            },
    {
        proof {
            use_type_invariant(self);
        }
        match self.position(id) {
            Some(i) => {
                proof {
                    lemma_index(self.ids@, i as int);
                }
                Some(&self.credentials[i])
            },
            None => None,
        }
    }

    /// Stores a credential; an earlier one of the account is replaced.
    pub fn insert(&mut self, id: String, credential: StoredCredential)
        ensures
            final(self)@ == old(self)@.insert(id@, credential@),
            final(self).ids_view() == if old(self)@.contains_key(id@) {
                old(self).ids_view()
            } else {
                old(self).ids_view().push(id@)
            },
    {
        proof {
            use_type_invariant(&*self);
        }
        let ghost before = *self;
        let ghost name = id@;
        let ghost held = credential@;
        let position = self.position(id.as_str());
        let mut taken = CredentialStore::new();
        std::mem::swap(&mut taken, self);
        let mut ids = taken.ids;
        let mut credentials = taken.credentials;
        match position {
            Some(i) => {
                credentials.set(i, credential);
            },
            None => {
                ids.push(id);
                credentials.push(credential);
            },
        }
        proof {
            lemma_inserted(before, ids@, credentials@, position, name, held);
        }
        let store = CredentialStore { ids, credentials };
        *self = store;
    }

    /// Forgets the credential of an account.
    pub fn remove(&mut self, id: &str)
        ensures
            final(self)@ == old(self)@.remove(id@),
            if old(self)@.contains_key(id@) {
                exists|i: int|
                    0 <= i < old(self).ids_view().len() && #[trigger] old(self).ids_view()[i] == id@
                        && final(self).ids_view() == old(self).ids_view().remove(i)
            } else {
                final(self).ids_view() == old(self).ids_view()
            },
    {
        proof {
            use_type_invariant(&*self);
        }
        let ghost before = *self;
        let position = self.position(id);
        let mut taken = CredentialStore::new();
        std::mem::swap(&mut taken, self);
        let mut ids = taken.ids;
        let mut credentials = taken.credentials;
        if let Some(i) = position {
            ids.remove(i);
            credentials.remove(i);
        }
        proof {
            lemma_removed(before, ids@, credentials@, position, id@);
        }
        let store = CredentialStore { ids, credentials };
        proof {
            match position {
                Some(i) => {
                    assert(before.ids_view()[i as int] == id@);
                    assert(store.ids_view() =~= before.ids_view().remove(i as int));
                },
                None => {
                    assert(store.ids_view() =~= before.ids_view());
                },
            }
        }
        *self = store;
    }
}

proof fn lemma_index(ids: Seq<String>, i: int)
    requires
        0 <= i < ids.len(),
        distinct(ids),
    ensures
        has_id(ids, ids[i]@),
        index_of(ids, ids[i]@) == i,
{
    let found = index_of(ids, ids[i]@);
    assert(0 <= found < ids.len() && ids[found]@ == ids[i]@);
}

proof fn lemma_inserted(
    before: CredentialStore,
    new_ids: Seq<String>,
    new_credentials: Seq<StoredCredential>,
    position: Option<usize>,
    id: Seq<char>,
    credential: CredentialModel,
)
    requires
        before.inv(),
        match position {
            Some(i) => {
                &&& i < before.ids@.len()
                &&& before.ids@[i as int]@ == id
                &&& new_ids == before.ids@
                &&& new_credentials.len() == before.credentials@.len()
                &&& new_credentials[i as int]@ == credential
                &&& forall|k: int|
                    0 <= k < before.ids@.len() && k != i ==> new_credentials[k]
                        == before.credentials@[k]
            },
            None => {
                &&& !has_id(before.ids@, id)
                &&& new_ids.len() == before.ids@.len() + 1
                &&& new_credentials.len() == before.credentials@.len() + 1
                &&& new_ids.last()@ == id
                &&& new_credentials.last()@ == credential
                &&& forall|k: int|
                    0 <= k < before.ids@.len() ==> new_ids[k] == before.ids@[k]
                        && new_credentials[k] == before.credentials@[k]
            },
        },
    ensures
        new_ids.len() == new_credentials.len(),
        distinct(new_ids),
        map_of(new_ids, new_credentials) == before@.insert(id, credential),
{
    let old_ids = before.ids@;
    let after = map_of(new_ids, new_credentials);
    let at = match position {
        Some(i) => i as int,
        None => old_ids.len() as int,
    };
    assert(forall|k: int| 0 <= k < old_ids.len() ==> new_ids[k] == old_ids[k]);
    assert(new_ids[at]@ == id);
    assert forall|a: int, b: int| 0 <= a < b < new_ids.len() implies (#[trigger] new_ids[a])@ != (
    #[trigger] new_ids[b])@ by {
        if position is None && b == at {
            assert(old_ids[a]@ != id);
        } else {
            assert(old_ids[a]@ != old_ids[b]@);
        }
    }
    lemma_index(new_ids, at);
    assert forall|key: Seq<char>| after.contains_key(key) == before@.insert(
        id,
        credential,
    ).contains_key(key) by {
        if has_id(new_ids, key) {
            let i = index_of(new_ids, key);
            assert(new_ids[i]@ == key);
            if i != at {
                assert(old_ids[i]@ == key);
            }
        }
        if has_id(old_ids, key) {
            let i = index_of(old_ids, key);
            assert(old_ids[i]@ == key);
            assert(new_ids[i]@ == key);
        }
    }
    assert forall|key: Seq<char>| after.contains_key(key) implies #[trigger] after[key]
        == before@.insert(id, credential)[key] by {
        let i = index_of(new_ids, key);
        assert(0 <= i < new_ids.len() && new_ids[i]@ == key);
        if key == id {
            assert(i == at);
        } else {
            assert(i != at);
            assert(old_ids[i]@ == key);
            lemma_index(old_ids, i);
        }
    }
    assert(after =~= before@.insert(id, credential));
}

proof fn lemma_removed(
    before: CredentialStore,
    new_ids: Seq<String>,
    new_credentials: Seq<StoredCredential>,
    position: Option<usize>,
    id: Seq<char>,
)
    requires
        before.inv(),
        match position {
            Some(i) => {
                &&& i < before.ids@.len()
                &&& before.ids@[i as int]@ == id
                &&& new_ids == before.ids@.remove(i as int)
                &&& new_credentials == before.credentials@.remove(i as int)
            },
            None => {
                &&& !has_id(before.ids@, id)
                &&& new_ids == before.ids@
                &&& new_credentials == before.credentials@
            },
        },
    ensures
        new_ids.len() == new_credentials.len(),
        distinct(new_ids),
        map_of(new_ids, new_credentials) == before@.remove(id),
{
    let old_ids = before.ids@;
    let after = map_of(new_ids, new_credentials);
    match position {
        None => {
            assert(after =~= before@.remove(id));
        },
        Some(at) => {
            let at = at as int;
            assert(forall|k: int|
                0 <= k < new_ids.len() ==> #[trigger] new_ids[k] == old_ids[if k < at {
                    k
                } else {
                    k + 1
                }]);
            assert forall|a: int, b: int| 0 <= a < b < new_ids.len() implies (#[trigger] new_ids[a])@
                != (#[trigger] new_ids[b])@ by {
                let x = if a < at {
                    a
                } else {
                    a + 1
                };
                let y = if b < at {
                    b
                } else {
                    b + 1
                };
                assert(old_ids[x]@ != old_ids[y]@);
            }
            assert forall|key: Seq<char>| after.contains_key(key) == before@.remove(
                id,
            ).contains_key(key) by {
                if has_id(new_ids, key) {
                    let i = index_of(new_ids, key);
                    let x = if i < at {
                        i
                    } else {
                        i + 1
                    };
                    assert(old_ids[x]@ == key);
                    assert(old_ids[at]@ != old_ids[x]@);
                }
                if has_id(old_ids, key) && key != id {
                    let x = index_of(old_ids, key);
                    let i = if x < at {
                        x
                    } else {
                        x - 1
                    };
                    assert(x != at);
                    assert(new_ids[i]@ == key);
                }
            }
            assert forall|key: Seq<char>| after.contains_key(key) implies #[trigger] after[key]
                == before@.remove(id)[key] by {
                let i = index_of(new_ids, key);
                let x = if i < at {
                    i
                } else {
                    i + 1
                };
                assert(0 <= i < new_ids.len() && new_ids[i]@ == key);
                assert(old_ids[x]@ == key);
                lemma_index(old_ids, x);
            }
            assert(after =~= before@.remove(id));
        },
    }
}

/// What the key of the vault is made from.
pub open spec fn vault_seed(host: Seq<char>, user: Seq<char>) -> Seq<u8> {
    utf8::encode_utf8("org.ard-rs.viewer credential vault v1\0"@) + utf8::encode_utf8(host)
        + utf8::encode_utf8(user)
}

fn push_text(bytes: &mut Vec<u8>, text: &str)
    ensures
        final(bytes)@ == old(bytes)@ + utf8::encode_utf8(text@),
{
    let ghost before = bytes@;
    let tail = text.as_bytes();
    let ghost all = tail@;
    assert(all.take(0) =~= Seq::<u8>::empty());
    for i in 0..tail.len()
        invariant
            all == tail@,
            bytes@ == before + all.take(i as int),
    {
        bytes.push(tail[i]);
        assert(bytes@ =~= before + all.take(i as int + 1));
    }
    assert(all.take(all.len() as int) =~= all);
}

/// The key of the vault of a user on a host.
pub fn vault_key(host: &str, user: &str) -> (key: Vec<u8>)
    ensures
        key@ == sha256(vault_seed(host@, user@)),
        key@.len() == 32,
{
    let mut seed: Vec<u8> = Vec::new();
    push_text(&mut seed, "org.ard-rs.viewer credential vault v1\0");
    push_text(&mut seed, host);
    push_text(&mut seed, user);
    assert(seed@ =~= vault_seed(host@, user@));
    digest(seed.as_slice())
}

/// The text of an optional string.
pub open spec fn text_of(text: Option<String>) -> Option<Seq<char>> {
    match text {
        Some(text) => Some(text@),
        None => None,
    }
}

/// The password that a plaintext stands for, if there is one and it is text.
pub open spec fn password_of(plaintext: Option<Seq<u8>>) -> Option<Seq<char>> {
    match plaintext {
        Some(bytes) => if utf8::valid_utf8(bytes) {
            Some(utf8::decode_utf8(bytes))
        } else {
            None
        },
        None => None,
    }
}

/// The password that a plaintext stands for, if there is one and it is text.
pub fn password_from(plaintext: Option<Vec<u8>>) -> (password: Option<String>)
    ensures
        text_of(password) == password_of(
            match plaintext {
                Some(bytes) => Some(bytes@),
                None => None,
            },
        ),
{
    match plaintext {
        Some(bytes) => text_from_utf8(bytes),
        None => None,
    }
}

/// The password of the account `id` in a store with the given key.
pub open spec fn loaded(store: Map<Seq<char>, CredentialModel>, key: Seq<u8>, id: Seq<char>) -> Option<
    Seq<char>,
> {
    if store.contains_key(id) && store[id].nonce.len() == 12 {
        password_of(
            aes_256_gcm_opened(
                key,
                store[id].nonce,
                utf8::encode_utf8(id),
                store[id].ciphertext,
            ),
        )
    } else {
        None
    }
}

/// The password of an account, if it is stored and can be opened by this user on
/// this host.
pub fn load_password(
    store: &CredentialStore,
    host: &str,
    user: &str,
    address: &str,
    username: &str,
) -> (password: Option<String>)
    ensures
        text_of(password) == loaded(
            store@,
            sha256(vault_seed(host@, user@)),
            account(address@, username@),
        ),
{
    let id = credential_key(address, username);
    let stored = match store.get(id.as_str()) {
        Some(stored) => stored,
        None => {
            return None;
        },
    };
    if stored.nonce.len() != 12 {
        return None;
    }
    let key = vault_key(host, user);
    let opened = decrypt(
        key.as_slice(),
        stored.nonce.as_slice(),
        id.as_str().as_bytes(),
        stored.ciphertext.as_slice(),
    );
    let plaintext = match opened {
        Ok(bytes) => Some(bytes),
        Err(_) => None,
    };
    password_from(plaintext)
}

/// Whether a password can be sealed for an account.
pub open spec fn sealable(id: Seq<char>, password: Seq<char>) -> bool {
    let message = utf8::encode_utf8(password);
    &&& message.len() <= gcm_limit()
    &&& message.len() + 16 <= isize::MAX
    &&& utf8::encode_utf8(id).len() <= gcm_limit()
}

/// The store after a password was sealed with a nonce.
pub open spec fn stored(
    store: Map<Seq<char>, CredentialModel>,
    key: Seq<u8>,
    id: Seq<char>,
    nonce: Seq<u8>,
    password: Seq<char>,
) -> Map<Seq<char>, CredentialModel> {
    store.insert(
        id,
        CredentialModel {
            nonce,
            ciphertext: aes_256_gcm_sealed(
                key,
                nonce,
                utf8::encode_utf8(id),
                utf8::encode_utf8(password),
            ),
        },
    )
}

/// Seals a password with the given key and nonce. What was stored can be loaded
/// again with the same key.
pub fn store_password(
    store: &mut CredentialStore,
    key: &Vec<u8>,
    id: String,
    nonce: Vec<u8>,
    password: &str,
) -> (result: Result<(), VaultError>)
    requires
        key@.len() == 32,
        nonce@.len() == 12,
    ensures
        result is Ok <==> sealable(id@, password@),
        result matches Err(e) ==> e is Cipher && final(store)@ == old(store)@,
        result is Ok ==> {
            &&& final(store)@ == stored(old(store)@, key@, id@, nonce@, password@)
            &&& loaded(final(store)@, key@, id@) == Some(password@)
        },
{
    broadcast use {utf8::encode_utf8_valid_utf8, utf8::encode_utf8_decode_utf8};

    let message = password.as_bytes();
    if message.len() > isize::MAX as usize - 16 {
        return Err(VaultError::Cipher);
    }
    let sealed = encrypt(key.as_slice(), nonce.as_slice(), id.as_str().as_bytes(), message);
    let ciphertext = match sealed {
        Ok(ciphertext) => ciphertext,
        Err(_) => {
            return Err(VaultError::Cipher);
        },
    };
    store.insert(id, StoredCredential { nonce, ciphertext });
    Ok(())
}

/// Twelve bytes to be overwritten.
fn blank_nonce() -> (nonce: Vec<u8>)
    ensures
        nonce@.len() == 12,
{
    let mut nonce: Vec<u8> = Vec::new();
    for i in 0..12usize
        invariant
            nonce@.len() == i,
    {
        nonce.push(0);
    }
    nonce
}

/// Stores the password of an account under a new nonce, or forgets it if there is
/// none. What was stored is what the account's password is from then on; the
/// other accounts keep theirs. Nothing changes on a failure.
pub fn save_password(
    store: &mut CredentialStore,
    host: &str,
    user: &str,
    address: &str,
    username: &str,
    password: Option<&str>,
) -> (result: Result<(), VaultError>)
    ensures
        ({
            let key = sha256(vault_seed(host@, user@));
            let id = account(address@, username@);
            match password {
                Some(password) => {
                    &&& result is Ok ==> {
                        &&& sealable(id, password@)
                        &&& exists|nonce: Seq<u8>|
                            nonce.len() == 12 && final(store)@ == #[trigger] stored(
                                old(store)@,
                                key,
                                id,
                                nonce,
                                password@,
                            )
                        &&& loaded(final(store)@, key, id) == Some(password@)
                    }
                    &&& result matches Err(e) ==> {
                        &&& final(store)@ == old(store)@
                        &&& e is Cipher ==> !sealable(id, password@)
                    }
                },
                None => {
                    &&& result is Ok
                    &&& final(store)@ == old(store)@.remove(id)
                    &&& loaded(final(store)@, key, id) is None
                },
            }
        }),
        forall|other: Seq<char>, key: Seq<u8>|
            other != account(address@, username@) ==> #[trigger] loaded(final(store)@, key, other)
                == loaded(old(store)@, key, other),
{
    let id = credential_key(address, username);
    match password {
        Some(password) => {
            let mut nonce = blank_nonce();
            match fill_random(&mut nonce) {
                Ok(()) => {},
                Err(error) => {
                    return Err(VaultError::Random(error));
                },
            }
            let key = vault_key(host, user);
            store_password(store, &key, id, nonce, password)
        },
        None => {
            store.remove(id.as_str());
            Ok(())
        },
    }
}

/// The account of an address does not depend on its case, nor on spaces around it
/// or the user.
pub proof fn law_accounts_ignore_case(address: Seq<char>, username: Seq<char>)
    ensures
        account(text::lowered(text::trimmed(address)), text::trimmed(username)) == account(
            address,
            username,
        ),
{
    text::lemma_trimmed_twice(username);
    text::lemma_trimmed_lowered(address);
}

/// Two users of one device have passwords of their own, and so has one user of two
/// devices.
pub proof fn law_accounts_are_told_apart(
    address: Seq<char>,
    other_address: Seq<char>,
    username: Seq<char>,
    other_username: Seq<char>,
)
    ensures
        text::trimmed(username) != text::trimmed(other_username) ==> account(address, username)
            != account(address, other_username),
        text::lowered(text::trimmed(address)) != text::lowered(text::trimmed(other_address))
            ==> account(address, username) != account(other_address, username),
{
    reveal_strlit("@");
    let user = text::trimmed(username);
    let other = text::trimmed(other_username);
    let host = text::lowered(text::trimmed(address));
    let other_host = text::lowered(text::trimmed(other_address));
    let end = "@"@ + host;
    assert(account(address, username) =~= user + end);
    assert(account(address, other_username) =~= other + end);
    if user + end == other + end {
        assert(user =~= (user + end).take(user.len() as int));
        assert(other =~= (other + end).take(other.len() as int));
    }
    let begin = user + "@"@;
    assert(account(address, username) =~= begin + host);
    assert(account(other_address, username) =~= begin + other_host);
    if begin + host == begin + other_host {
        assert(host =~= (begin + host).skip(begin.len() as int));
        assert(other_host =~= (begin + other_host).skip(begin.len() as int));
    }
}

/// The key of a vault belongs to one user of one host: on the same host another user
/// has another seed, and so has the same user on another host.
pub proof fn law_vaults_are_told_apart(
    host: Seq<char>,
    other_host: Seq<char>,
    user: Seq<char>,
    other_user: Seq<char>,
)
    ensures
        user != other_user ==> vault_seed(host, user) != vault_seed(host, other_user),
        host != other_host ==> vault_seed(host, user) != vault_seed(other_host, user),
        utf8::encode_utf8("org.ard-rs.viewer credential vault v1\0"@).is_prefix_of(
            vault_seed(host, user),
        ),
{
    let magic = utf8::encode_utf8("org.ard-rs.viewer credential vault v1\0"@);
    let h = utf8::encode_utf8(host);
    let g = utf8::encode_utf8(other_host);
    let u = utf8::encode_utf8(user);
    let v = utf8::encode_utf8(other_user);
    utf8::encode_utf8_decode_utf8(host);
    utf8::encode_utf8_decode_utf8(other_host);
    utf8::encode_utf8_decode_utf8(user);
    utf8::encode_utf8_decode_utf8(other_user);
    let begin = magic + h;
    if begin + u == begin + v {
        assert(u =~= (begin + u).skip(begin.len() as int));
        assert(v =~= (begin + v).skip(begin.len() as int));
    }
    if magic + h + u == magic + g + u {
        let whole = magic + h + u;
        assert(h =~= whole.subrange(magic.len() as int, whole.len() - u.len()));
        assert(g =~= (magic + g + u).subrange(magic.len() as int, whole.len() - u.len()));
    }
    assert(magic =~= vault_seed(host, user).subrange(0, magic.len() as int));
}

/// A password is read only as that of the account that it was sealed for: what comes
/// back was opened with the account's name, its own nonce and the key, and is text.
pub proof fn law_passwords_belong_to_their_account(
    store: Map<Seq<char>, CredentialModel>,
    key: Seq<u8>,
    id: Seq<char>,
)
    ensures
        loaded(store, key, id) matches Some(password) ==> {
            &&& store.contains_key(id)
            &&& store[id].nonce.len() == 12
            &&& aes_256_gcm_opened(
                key,
                store[id].nonce,
                utf8::encode_utf8(id),
                store[id].ciphertext,
            ) matches Some(bytes)
            &&& utf8::valid_utf8(bytes)
            &&& password == utf8::decode_utf8(bytes)
        },
        !store.contains_key(id) ==> loaded(store, key, id) is None,
{
}

/// Sealing puts one credential into the store, under the account: its nonce, and what
/// the cipher makes of the password for that account. The others stay as they are.
pub proof fn law_sealing_keeps_the_other_accounts(
    store: Map<Seq<char>, CredentialModel>,
    key: Seq<u8>,
    id: Seq<char>,
    nonce: Seq<u8>,
    password: Seq<char>,
    other: Seq<char>,
)
    ensures
        ({
            let after = stored(store, key, id, nonce, password);
            &&& after.contains_key(id)
            &&& after[id].nonce == nonce
            &&& after[id].ciphertext == aes_256_gcm_sealed(
                key,
                nonce,
                utf8::encode_utf8(id),
                utf8::encode_utf8(password),
            )
            &&& other != id ==> (after.contains_key(other) <==> store.contains_key(other)) && (
            store.contains_key(other) ==> after[other] == store[other])
        }),
{
}

/// A password that was opened is the text of its bytes; bytes that are no text are no
/// password.
pub proof fn law_passwords_are_text(password: Seq<char>, bytes: Seq<u8>)
    ensures
        password_of(Some(utf8::encode_utf8(password))) == Some(password),
        !utf8::valid_utf8(bytes) ==> password_of(Some(bytes)) is None,
        password_of(None) is None,
{
    utf8::encode_utf8_valid_utf8(password);
    utf8::encode_utf8_decode_utf8(password);
}

/// Every password of a plausible length can be sealed.
pub proof fn law_passwords_can_be_sealed(id: Seq<char>, password: Seq<char>)
    requires
        utf8::encode_utf8(id).len() <= 0x10_0000_0000,
        utf8::encode_utf8(password).len() <= 0x10_0000_0000,
        utf8::encode_utf8(password).len() + 16 <= isize::MAX,
    ensures
        sealable(id, password),
{
}

} // verus!
