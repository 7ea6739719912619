use ard_viewer::vault::{
    credential_key, load_password, password_from, save_password, store_password, vault_key,
    CredentialStore, StoredCredential, VaultError,
};

const HOST: &str = "studio";
const USER: &str = "ann";

fn save(store: &mut CredentialStore, address: &str, username: &str, password: Option<&str>) {
    assert!(save_password(store, HOST, USER, address, username, password).is_ok());
}

fn load(store: &CredentialStore, address: &str, username: &str) -> Option<String> {
    load_password(store, HOST, USER, address, username)
}

#[test]
fn a_saved_password_is_loaded_again() {
    let mut store = CredentialStore::new();
    assert_eq!(load(&store, "host:5900", "bob"), None);
    save(&mut store, "host:5900", "bob", Some("pässword"));
    save(&mut store, "host:5901", "bob", Some("other"));
    assert_eq!(store.len(), 2);
    assert_eq!(load(&store, "host:5900", "bob").as_deref(), Some("pässword"));
    assert_eq!(load(&store, "host:5901", "bob").as_deref(), Some("other"));
    save(&mut store, "host:5900", "bob", Some("new"));
    assert_eq!(store.len(), 2);
    assert_eq!(load(&store, "host:5900", "bob").as_deref(), Some("new"));
    save(&mut store, "host:5900", "bob", None);
    assert_eq!(load(&store, "host:5900", "bob"), None);
    assert_eq!(load(&store, "host:5901", "bob").as_deref(), Some("other"));
}

#[test]
fn accounts_ignore_space_and_the_case_of_the_address() {
    let mut store = CredentialStore::new();
    save(&mut store, " Host.local:5900 ", " Bob", Some("secret"));
    assert_eq!(
        load(&store, "host.LOCAL:5900", "Bob ").as_deref(),
        Some("secret")
    );
    assert_eq!(
        credential_key(" Host ", " Bob "),
        credential_key("host", "Bob")
    );
    assert_ne!(credential_key("a", "Bob"), credential_key("a", "bob"));
    assert_ne!(credential_key("a", "b"), credential_key("b", "a"));
}

#[test]
fn passwords_are_stored_encrypted() {
    let mut store = CredentialStore::new();
    save(&mut store, "host:5900", "bob", Some("secret"));
    let (id, credential) = store.entry(0);
    assert_eq!(id, credential_key("host:5900", "bob"));
    assert_eq!(credential.nonce.len(), 12);
    // The text and the tag of sixteen bytes.
    assert_eq!(credential.ciphertext.len(), 22);
    assert!(!credential
        .ciphertext
        .windows(6)
        .any(|part| part == b"secret"));
    let first = credential.ciphertext.clone();
    save(&mut store, "host:5900", "bob", Some("secret"));
    assert_ne!(store.entry(0).1.ciphertext, first);
}

#[test]
fn passwords_are_bound_to_the_machine_and_the_user() {
    let mut store = CredentialStore::new();
    save(&mut store, "host:5900", "bob", Some("secret"));
    assert_eq!(
        load_password(&store, "laptop", USER, "host:5900", "bob"),
        None
    );
    assert_eq!(load_password(&store, HOST, "eve", "host:5900", "bob"), None);
    assert_ne!(vault_key("a", "b"), vault_key("a", "c"));
    assert_eq!(
        vault_key(HOST, USER),
        vec![
            237, 31, 195, 199, 210, 45, 211, 13, 89, 63, 116, 223, 40, 135, 99, 137, 221, 161, 115,
            193, 199, 105, 51, 71, 127, 154, 36, 158, 166, 236, 202, 246
        ]
    );
}

fn key() -> Vec<u8> {
    (0..32).collect()
}

#[test]
fn sealing_follows_aes_256_gcm() {
    // An all-zero key and nonce give this tag for no text and no account.
    let mut store = CredentialStore::new();
    assert!(store_password(
        &mut store,
        &vec![0; 32],
        String::new(),
        vec![0; 12],
        ""
    )
    .is_ok());
    assert_eq!(
        store.get("").expect("stored").ciphertext,
        vec![
            0x53, 0x0f, 0x8a, 0xfb, 0xc7, 0x45, 0x36, 0xb9, 0xa9, 0x63, 0xb4, 0xf1, 0xc4, 0xcb,
            0x73, 0x8b
        ]
    );
}

#[test]
fn damaged_credentials_are_not_used() {
    let mut store = CredentialStore::new();
    save(&mut store, "host:5900", "bob", Some("secret"));
    let id = credential_key("host:5900", "bob");
    let (nonce, mut ciphertext) = {
        let credential = store.get(&id).expect("stored");
        (credential.nonce.clone(), credential.ciphertext.clone())
    };
    ciphertext[0] ^= 1;
    store.insert(
        id.clone(),
        StoredCredential {
            nonce: nonce.clone(),
            ciphertext: ciphertext.clone(),
        },
    );
    assert_eq!(load(&store, "host:5900", "bob"), None);
    ciphertext[0] ^= 1;
    store.insert(
        id.clone(),
        StoredCredential {
            nonce: nonce[..11].to_vec(),
            ciphertext: ciphertext.clone(),
        },
    );
    assert_eq!(load(&store, "host:5900", "bob"), None);
    store.insert(id.clone(), StoredCredential { nonce, ciphertext });
    assert_eq!(load(&store, "host:5900", "bob").as_deref(), Some("secret"));
    store.remove(&id);
    assert_eq!(store.len(), 0);
}

#[test]
fn opened_bytes_must_be_text() {
    assert_eq!(password_from(None), None);
    assert_eq!(password_from(Some(vec![0xff])), None);
    assert_eq!(
        password_from(Some("é".as_bytes().to_vec())).as_deref(),
        Some("é")
    );
    let mut store = CredentialStore::new();
    let result = store_password(&mut store, &key(), "id".to_owned(), vec![1; 12], "x");
    assert!(!matches!(
        result,
        Err(VaultError::Cipher) | Err(VaultError::Random(_))
    ));
}
