use std::collections::HashMap;
use vault_core::commands::{
    add_account, add_service, add_service_type, add_services, change_master_password,
    commit_master_password, create_vault, delete_account, delete_service, delete_service_type,
    delete_services, get_vault, link_services_to_account, lock_vault, new_vault,
    save_vault_with_session_password, unlock_vault, update_account, update_service,
    update_service_type, update_settings, CommandError, SessionState,
};
use vault_core::crypto::{EncryptedVault, MasterPassword};
use vault_core::defaults::{create_field, get_default_service_types};
use vault_core::models::{Account, Service, ServiceType, Settings, Vault};
use vault_core::storage::{open_vault, seal_vault, StorageError};

fn settings() -> Settings {
    Settings { auto_lock_minutes: 5 }
}

fn service_type(id: &str) -> ServiceType {
    ServiceType {
        id: id.to_string(),
        name: id.to_uppercase(),
        icon: "Mail".to_string(),
        fields: vec![create_field("f-1", "email", "Email", "text", false, true)],
    }
}

fn service(id: &str, type_id: &str) -> Service {
    let mut data = HashMap::new();
    data.insert("email".to_string(), format!("{}@example.com", id));
    Service {
        id: id.to_string(),
        service_type_id: type_id.to_string(),
        label: format!("label {}", id),
        data,
        tags: vec![],
    }
}

fn account(id: &str, links: &[&str]) -> Account {
    Account {
        id: id.to_string(),
        label: format!("account {}", id),
        notes: String::new(),
        tags: vec!["t".to_string()],
        linked_services: links.iter().map(|s| s.to_string()).collect(),
    }
}

/// A stand-in for the vault's file encoding: the library treats the
/// serialized vault as opaque bytes.
fn encode(v: &Vault) -> Vec<u8> {
    format!("{:?}", v).into_bytes()
}

fn unlocked_with(v: Vault, password: &str) -> SessionState {
    let mut s = SessionState::new();
    create_vault(&mut s, false, password.to_string(), v, Ok(())).unwrap();
    s
}

fn empty_vault() -> Vault {
    new_vault(settings(), &vec![])
}

#[test]
fn default_catalog() {
    let types = get_default_service_types();
    let ids: Vec<&str> = types.iter().map(|t| t.id.as_str()).collect();
    assert_eq!(ids, vec!["discord", "twitter-x", "email", "proxy", "evm-wallet", "solana-wallet"]);
    let counts: Vec<usize> = types.iter().map(|t| t.fields.len()).collect();
    assert_eq!(counts, vec![6, 6, 7, 1, 3, 3]);
    assert_eq!(types[2].fields[2].key, "password");
    assert!(types[2].fields[2].masked);
}

#[test]
fn create_field_copies_arguments() {
    let f = create_field("g-5", "url", "URL", "url", false, true);
    assert_eq!(f.id, "g-5");
    assert_eq!(f.key, "url");
    assert_eq!(f.label, "URL");
    assert_eq!(f.field_type, "url");
    assert!(!f.masked);
    assert!(f.required);
    assert!(f.linked_service_type_id.is_none());
}

#[test]
fn new_vault_selects_types_in_catalog_order() {
    let v = new_vault(settings(), &vec!["proxy".to_string(), "discord".to_string(), "nope".to_string()]);
    let ids: Vec<&str> = v.service_types.iter().map(|t| t.id.as_str()).collect();
    assert_eq!(ids, vec!["discord", "proxy"]);
    assert_eq!(v.service_types[1].fields[0].key, "proxy_string");
    assert_eq!(v.service_types[0].fields.len(), 6);
    assert_eq!(v.version, "0.2.0");
    assert!(v.services.is_empty() && v.accounts.is_empty());
    assert_eq!(v.settings.auto_lock_minutes, 5);
}

#[test]
fn lock_when_locked_fails() {
    let mut s = SessionState::new();
    assert!(matches!(lock_vault(&mut s), Err(CommandError::VaultLocked)));
    assert!(!s.is_unlocked());
}

#[test]
fn operations_on_locked_session_fail() {
    let mut s = SessionState::new();
    assert!(matches!(add_service_type(&mut s, service_type("x")), Err(CommandError::VaultLocked)));
    assert!(matches!(add_service(&mut s, service("s", "x"), None), Err(CommandError::VaultLocked)));
    assert!(matches!(delete_services(&mut s, vec![]), Err(CommandError::VaultLocked)));
    assert!(matches!(update_settings(&mut s, settings()), Err(CommandError::VaultLocked)));
    assert!(matches!(save_vault_with_session_password(&s, b"x"), Err(CommandError::VaultLocked)));
    let new = MasterPassword("n".to_string());
    assert!(matches!(
        change_master_password(&s, &"o".to_string(), &new, b"x"),
        Err(CommandError::VaultLocked)
    ));
    assert!(matches!(commit_master_password(&mut s, new, Ok(())), Err(CommandError::VaultLocked)));
    assert!(matches!(get_vault(&s), Err(CommandError::VaultLocked)));
    assert!(!s.is_unlocked());
}

#[test]
fn unlock_when_unlocked_keeps_vault() {
    let mut s = unlocked_with(new_vault(settings(), &vec!["email".to_string()]), "pw");
    let other = empty_vault();
    unlock_vault(&mut s, "other".to_string(), Ok(other)).unwrap();
    assert_eq!(s.vault().unwrap().service_types.len(), 1);
    let env = save_vault_with_session_password(&s, b"bytes").unwrap();
    assert_eq!(open_vault(Ok(env), &MasterPassword("pw".to_string())).unwrap(), b"bytes".to_vec());
}

#[test]
fn failed_unlock_stays_locked() {
    let mut s = SessionState::new();
    let r = unlock_vault(&mut s, "pw".to_string(), Err(StorageError::NotFound("vault.json".to_string())));
    assert!(matches!(r, Err(CommandError::Storage(m)) if m == "Vault file not found at path: vault.json"));
    assert!(!s.is_unlocked());
}

#[test]
fn error_messages() {
    let wrong = open_vault(
        Ok(seal_vault(b"x", &MasterPassword("a".to_string())).unwrap()),
        &MasterPassword("b".to_string()),
    );
    assert!(matches!(&wrong, Err(StorageError::Crypto(m)) if m == "Decryption failed"));
    assert_eq!(wrong.unwrap_err().message(), "Cryptography error: Decryption failed");
    assert_eq!(StorageError::Io("x".to_string()).message(), "File system error: x");
}

#[test]
fn catalog_email_type() {
    let types = get_default_service_types();
    let email = &types[2];
    assert_eq!((email.id.as_str(), email.name.as_str(), email.icon.as_str()), ("email", "Email", "Mail"));
    let fields: Vec<(&str, &str, bool)> =
        email.fields.iter().map(|f| (f.id.as_str(), f.key.as_str(), f.required)).collect();
    assert_eq!(fields, vec![
        ("g-1", "display_name", false),
        ("g-2", "email", true),
        ("g-3", "password", true),
        ("g-4", "recovery_email", false),
        ("g-5", "recovery_email_access_url", false),
        ("g-6", "recovery_email_access_password", false),
        ("g-7", "2fa_key", false),
    ]);
    for t in &types {
        for f in &t.fields {
            assert_eq!(f.masked, f.field_type == "secret" || f.field_type == "textarea");
            assert!(f.linked_service_type_id.is_none());
        }
    }
}

#[test]
fn create_when_unlocked_and_present_keeps_session() {
    let mut s = unlocked_with(new_vault(settings(), &vec!["email".to_string()]), "pw");
    create_vault(&mut s, true, "other".to_string(), empty_vault(), Ok(())).unwrap();
    assert_eq!(s.vault().unwrap().service_types.len(), 1);
    let failed = create_vault(&mut SessionState::new(), false, "p".to_string(), empty_vault(), Err(StorageError::Io("disk".to_string())));
    assert!(matches!(failed, Err(CommandError::Storage(_))));
}

#[test]
fn duplicate_service_type_is_rejected() {
    let mut s = unlocked_with(empty_vault(), "pw");
    add_service_type(&mut s, service_type("email")).unwrap();
    let r = add_service_type(&mut s, service_type("email"));
    assert!(matches!(r, Err(CommandError::ServiceTypeExists(id)) if id == "email"));
    assert_eq!(s.vault().unwrap().service_types.len(), 1);
}

#[test]
fn update_and_delete_service_type() {
    let mut s = unlocked_with(empty_vault(), "pw");
    add_service_type(&mut s, service_type("a")).unwrap();
    add_service_type(&mut s, service_type("b")).unwrap();
    let mut changed = service_type("b");
    changed.name = "Bee".to_string();
    update_service_type(&mut s, changed).unwrap();
    assert_eq!(s.vault().unwrap().service_types[1].name, "Bee");
    assert!(matches!(update_service_type(&mut s, service_type("c")), Err(CommandError::ServiceTypeNotFound(_))));
    delete_service_type(&mut s, "a".to_string()).unwrap();
    assert_eq!(s.vault().unwrap().service_types.len(), 1);
    assert!(matches!(delete_service_type(&mut s, "a".to_string()), Err(CommandError::ServiceTypeNotFound(_))));
}

#[test]
fn deleting_a_service_unlinks_it() {
    let mut s = unlocked_with(empty_vault(), "pw");
    add_services(&mut s, vec![service("s1", "t"), service("s2", "t")]).unwrap();
    add_account(&mut s, account("a1", &["s1", "s2"])).unwrap();
    add_account(&mut s, account("a2", &["s1"])).unwrap();
    delete_service(&mut s, "s1".to_string()).unwrap();
    let v = s.vault().unwrap();
    assert_eq!(v.services.len(), 1);
    assert_eq!(v.accounts[0].linked_services, vec!["s2".to_string()]);
    assert!(v.accounts[1].linked_services.is_empty());
    assert!(matches!(delete_service(&mut s, "s1".to_string()), Err(CommandError::ServiceNotFound(_))));
}

#[test]
fn deleting_services_unlinks_them() {
    let mut s = unlocked_with(empty_vault(), "pw");
    add_services(&mut s, vec![service("s1", "t"), service("s2", "t"), service("s3", "t")]).unwrap();
    add_account(&mut s, account("a1", &["s1", "s2", "s3"])).unwrap();
    delete_services(&mut s, vec!["s1".to_string(), "s3".to_string()]).unwrap();
    let v = s.vault().unwrap();
    assert_eq!(v.services.len(), 1);
    assert_eq!(v.services[0].id, "s2");
    assert_eq!(v.accounts[0].linked_services, vec!["s2".to_string()]);
}

#[test]
fn deleting_an_account_keeps_services() {
    let mut s = unlocked_with(empty_vault(), "pw");
    add_services(&mut s, vec![service("s1", "t")]).unwrap();
    add_account(&mut s, account("a1", &["s1"])).unwrap();
    add_account(&mut s, account("a2", &["s1"])).unwrap();
    delete_account(&mut s, "a1".to_string()).unwrap();
    let v = s.vault().unwrap();
    assert_eq!(v.accounts.len(), 1);
    assert_eq!(v.accounts[0].id, "a2");
    assert_eq!(v.services.len(), 1);
    assert!(matches!(delete_account(&mut s, "a1".to_string()), Err(CommandError::AccountNotFound(_))));
}

#[test]
fn links_are_sorted_and_unique() {
    let mut s = unlocked_with(empty_vault(), "pw");
    add_account(&mut s, account("a1", &["z", "b"])).unwrap();
    link_services_to_account(&mut s, "a1".to_string(), vec!["b".to_string(), "a".to_string(), "a".to_string()]).unwrap();
    assert_eq!(s.vault().unwrap().accounts[0].linked_services, vec!["a", "b", "z"]);
    add_service(&mut s, service("m", "t"), Some("a1".to_string())).unwrap();
    assert_eq!(s.vault().unwrap().accounts[0].linked_services, vec!["a", "b", "m", "z"]);
    assert_eq!(s.vault().unwrap().services.len(), 1);
    let r = add_service(&mut s, service("n", "t"), Some("missing".to_string()));
    assert!(matches!(r, Err(CommandError::AccountNotFound(id)) if id == "missing"));
    assert_eq!(s.vault().unwrap().services.len(), 1);
    assert!(matches!(
        link_services_to_account(&mut s, "missing".to_string(), vec![]),
        Err(CommandError::AccountNotFound(_))
    ));
}

#[test]
fn update_service_and_account() {
    let mut s = unlocked_with(empty_vault(), "pw");
    add_services(&mut s, vec![service("s1", "t")]).unwrap();
    let mut changed = service("s1", "t");
    changed.label = "new".to_string();
    update_service(&mut s, changed).unwrap();
    assert_eq!(s.vault().unwrap().services[0].label, "new");
    assert!(matches!(update_service(&mut s, service("zz", "t")), Err(CommandError::ServiceNotFound(_))));
    add_account(&mut s, account("a1", &[])).unwrap();
    let mut acc = account("a1", &[]);
    acc.notes = "n".to_string();
    update_account(&mut s, acc).unwrap();
    assert_eq!(s.vault().unwrap().accounts[0].notes, "n");
    assert!(matches!(update_account(&mut s, account("zz", &[])), Err(CommandError::AccountNotFound(_))));
    update_settings(&mut s, Settings { auto_lock_minutes: 30 }).unwrap();
    assert_eq!(get_vault(&s).unwrap().settings.auto_lock_minutes, 30);
}

#[test]
fn end_to_end_create_lock_unlock() {
    // create
    let mut s = SessionState::new();
    let vault = empty_vault();
    let env = seal_vault(&encode(&vault), &MasterPassword("correct-horse".to_string())).unwrap();
    let mut file: EncryptedVault = env;
    create_vault(&mut s, false, "correct-horse".to_string(), vault, Ok(())).unwrap();
    // mutate and save
    add_service_type(&mut s, service_type("email")).unwrap();
    add_service(&mut s, service("s1", "email"), None).unwrap();
    let bytes = encode(s.vault().unwrap());
    file = save_vault_with_session_password(&s, &bytes).unwrap_or(file);
    let saved = s.vault().unwrap().clone();
    lock_vault(&mut s).unwrap();
    assert!(!s.is_unlocked());
    // unlock with the right password
    let opened = open_vault(Ok(file.clone()), &MasterPassword("correct-horse".to_string())).unwrap();
    assert_eq!(opened, bytes);
    unlock_vault(&mut s, "correct-horse".to_string(), Ok(saved)).unwrap();
    let v = s.vault().unwrap();
    assert_eq!(v.service_types.len(), 1);
    assert_eq!(v.service_types[0].id, "email");
    assert_eq!(v.services.len(), 1);
    assert_eq!(v.services[0].service_type_id, "email");
    // unlock with a wrong password
    lock_vault(&mut s).unwrap();
    let wrong = open_vault(Ok(file), &MasterPassword("wrong-password".to_string()));
    assert!(matches!(wrong, Err(StorageError::Crypto(_))));
    let r = unlock_vault(&mut s, "wrong-password".to_string(), Err(wrong.unwrap_err()));
    assert!(matches!(r, Err(CommandError::Storage(_))));
    assert!(!s.is_unlocked());
}

#[test]
fn end_to_end_change_password() {
    let mut s = unlocked_with(new_vault(settings(), &vec!["email".to_string()]), "correct-horse");
    let bytes = encode(s.vault().unwrap());
    let contents = s.vault().unwrap().clone();
    let new = MasterPassword("new-pass".to_string());
    assert!(matches!(
        change_master_password(&s, &"nope".to_string(), &new, &bytes),
        Err(CommandError::InvalidOldPassword)
    ));
    assert!(matches!(
        change_master_password(&s, &"correct-hors".to_string(), &new, &bytes),
        Err(CommandError::InvalidOldPassword)
    ));
    let file = change_master_password(&s, &"correct-horse".to_string(), &new, &bytes).unwrap();
    commit_master_password(&mut s, new, Ok(())).unwrap();
    lock_vault(&mut s).unwrap();
    let old = open_vault(Ok(file.clone()), &MasterPassword("correct-horse".to_string()));
    assert!(matches!(old, Err(StorageError::Crypto(_))));
    let opened = open_vault(Ok(file), &MasterPassword("new-pass".to_string())).unwrap();
    assert_eq!(opened, bytes);
    unlock_vault(&mut s, "new-pass".to_string(), Ok(contents)).unwrap();
    assert_eq!(encode(s.vault().unwrap()), bytes);
    // the session password is now the new one
    let env = save_vault_with_session_password(&s, b"x").unwrap();
    assert!(open_vault(Ok(env), &MasterPassword("new-pass".to_string())).is_ok());
}

#[test]
fn failed_write_keeps_old_password() {
    let mut s = unlocked_with(empty_vault(), "old");
    let r = commit_master_password(&mut s, MasterPassword("new".to_string()), Err(StorageError::Io("full".to_string())));
    assert!(matches!(r, Err(CommandError::Storage(_))));
    let env = save_vault_with_session_password(&s, b"x").unwrap();
    assert!(open_vault(Ok(env), &MasterPassword("old".to_string())).is_ok());
}

#[test]
fn storage_errors_pass_through() {
    let r = open_vault(Err(StorageError::Json("bad".to_string())), &MasterPassword("p".to_string()));
    assert!(matches!(r, Err(StorageError::Json(m)) if m == "bad"));
    assert_eq!(StorageError::NotFound("f".to_string()).message(), "Vault file not found at path: f");
}
