//! The session controller: whether the vault is unlocked, the decrypted vault
//! and the session password, and the operations on them.
//!
//! Work that reads or writes the vault file is done by the caller between
//! steps: an operation here takes what that work gave (the envelope read, or
//! whether a write succeeded) and decides the next state.

use crate::bulk::{
    append_bulk_accounts, bulk_appended, draw_account_ids, is_uuid_text, BulkCreateRequest,
};
use crate::crypto::{
    is_envelope_of, CryptoError, EncryptedVault, MasterPassword, GCM_MAX_INPUT_LEN, NONCE_LEN, TAG_LEN,
};
use crate::defaults::{default_catalog, get_default_service_types};
use crate::models::{str_views, Account, Service, ServiceType, ServiceTypeView, Settings, Vault};
use crate::records::{
    contains_str, find_key, has_key, is_first_key, keep_other, keep_unlisted, lemma_filter_step,
    remove_key, remove_keys, links_merged, links_pruned, merge_into_account,
    prune_links, replace_first, replaced_first, Keyed,
};
use crate::storage::{crypto_message, seal_vault, storage_message, StorageError};
use vstd::prelude::*;

verus! {

/// Why an operation was refused.
#[derive(Debug)]
pub enum CommandError {
    Storage(String),
    AlreadyUnlocked,
    VaultLocked,
    ServiceTypeExists(String),
    ServiceTypeNotFound(String),
    ServiceNotFound(String),
    AccountNotFound(String),
    InvalidOldPassword,
    /// An account number of a bulk request does not fit in a `u32`.
    NumberOverflow,
    /// The operating system's random source failed.
    RandomUnavailable,
}

/// The session: locked (no vault and no password in memory) or unlocked
/// (both present).
pub struct SessionState {
    vault: Option<Vault>,
    master_password: Option<MasterPassword>,
}

impl SessionState {
    /// The vault and the password are present together.
    pub closed spec fn wf(&self) -> bool {
        self.vault is Some == self.master_password is Some
    }

    /// The decrypted vault, while unlocked.
    pub closed spec fn vault_spec(&self) -> Option<Vault> {
        self.vault
    }

    /// The session password, while unlocked.
    pub closed spec fn password_spec(&self) -> Option<Seq<char>> {
        match self.master_password {
            Some(p) => Some(p.0@),
            None => None,
        }
    }

    pub open spec fn unlocked(&self) -> bool {
        self.vault_spec() is Some
    }

    /// The vault held while unlocked.
    pub open spec fn current(&self) -> Vault {
        self.vault_spec()->Some_0
    }

    /// A locked session.
    pub fn new() -> (s: Self)
        ensures
            s.wf(),
            !s.unlocked(),
            s.password_spec() is None,
    {
        SessionState { vault: None, master_password: None }
    }

    pub fn is_unlocked(&self) -> (r: bool)
        ensures
            r == self.unlocked(),
    {
        self.vault.is_some()
    }

    /// The decrypted vault, while unlocked.
    pub fn vault(&self) -> (r: Option<&Vault>)
        ensures
            r is Some == self.unlocked(),
            r is Some ==> *r->Some_0 == self.current(),
    {
        match &self.vault {
            Some(v) => Some(v),
            None => None,
        }
    }
}

/// A locked session refuses the operation with `VaultLocked` and stays as it
/// was.
pub open spec fn refused_when_locked(
    before: SessionState,
    after: SessionState,
    r: Result<(), CommandError>,
) -> bool {
    !before.unlocked() ==> r == Err::<(), CommandError>(CommandError::VaultLocked) && after == before
}

/// The session stays unlocked under the same password.
pub open spec fn same_session(before: SessionState, after: SessionState) -> bool {
    &&& after.wf()
    &&& before.unlocked() ==> after.unlocked()
    &&& after.password_spec() == before.password_spec()
}

/// The decrypted vault, while unlocked.
pub fn get_vault(state: &SessionState) -> (r: Result<&Vault, CommandError>)
    ensures
        state.unlocked() ==> r is Ok && *r->Ok_0 == state.current(),
        !state.unlocked() ==> r is Err && r->Err_0 == CommandError::VaultLocked,
{
    match &state.vault {
        Some(v) => Ok(v),
        None => Err(CommandError::VaultLocked),
    }
}

/// Locks the session: the vault is dropped from memory and the password is
/// overwritten and dropped. The vault file is not touched.
pub fn lock_vault(state: &mut SessionState) -> (r: Result<(), CommandError>)
    requires
        old(state).wf(),
    ensures
        final(state).wf(),
        refused_when_locked(*old(state), *final(state), r),
        old(state).unlocked() ==> r is Ok && !final(state).unlocked()
            && final(state).password_spec() is None,
{
    if state.vault.is_none() {
        return Err(CommandError::VaultLocked);
    }
    state.vault = None;
    let mut taken: Option<MasterPassword> = None;
    std::mem::swap(&mut state.master_password, &mut taken);
    if let Some(mut p) = taken {
        p.wipe();
    }
    Ok(())
}

/// Unlocks the session with the vault that was loaded from the file and the
/// password it was loaded with. While already unlocked, the session keeps
/// its vault and password, whatever was loaded: callers need not load then.
pub fn unlock_vault(
    state: &mut SessionState,
    password: String,
    loaded: Result<Vault, StorageError>,
) -> (r: Result<(), CommandError>)
    requires
        old(state).wf(),
    ensures
        final(state).wf(),
        old(state).unlocked() ==> r is Ok && *final(state) == *old(state),
        !old(state).unlocked() && loaded is Ok ==> r is Ok && final(state).vault_spec() == Some(
            loaded->Ok_0,
        ) && final(state).password_spec() == Some(password@),
        !old(state).unlocked() && loaded is Err ==> r is Err && r->Err_0 is Storage
            && r->Err_0->Storage_0@ == storage_message(loaded->Err_0) && *final(state) == *old(state),
{
    if state.vault.is_some() {
        discard(password);
        return Ok(());
    }
    match loaded {
        Ok(v) => {
            state.vault = Some(v);
            state.master_password = Some(MasterPassword(password));
            Ok(())
        },
        Err(e) => {
            discard(password);
            Err(CommandError::Storage(e.message()))
        },
    }
}

/// The version tag of newly created vaults.
pub open spec fn new_vault_version() -> Seq<char> {
    "0.2.0"@
}

/// A new, empty vault with the given settings, holding the predefined service
/// types whose identifiers `selected_service_type_ids` lists, in catalog
/// order.
pub fn new_vault(settings: Settings, selected_service_type_ids: &Vec<String>) -> (v: Vault)
    ensures
        v.version@ == new_vault_version(),
        v.service_types@.map_values(|t: ServiceType| t@) == default_catalog().filter(
            |t: ServiceTypeView| str_views(selected_service_type_ids@).contains(t.id),
        ),
        v.services@.len() == 0,
        v.accounts@.len() == 0,
        v.settings == settings,
{
    let mut all = get_default_service_types();
    let ghost orig = all@;
    let ghost ids = orig.map_values(|t: ServiceType| t@);
    let ghost g = |t: ServiceTypeView| str_views(selected_service_type_ids@).contains(t.id);
    let mut selected: Vec<ServiceType> = Vec::new();
    let ghost mut j: int = 0;
    while all.len() > 0
        invariant
            0 <= j <= orig.len(),
            ids.len() == orig.len(),
            ids == orig.map_values(|t: ServiceType| t@),
            all@ == orig.skip(j),
            selected@.map_values(|t: ServiceType| t@) == ids.take(j).filter(g),
            g == (|t: ServiceTypeView| str_views(selected_service_type_ids@).contains(t.id)),
        decreases all@.len(),
    {
        let st = all.remove(0);
        proof {
            lemma_filter_step(ids, j, g);
            assert(st@ == ids[j]);
        }
        let ghost before = selected@;
        if contains_str(selected_service_type_ids, &st.id) {
            selected.push(st);
            proof {
                assert(selected@.map_values(|t: ServiceType| t@) =~= before.map_values(
                    |t: ServiceType| t@,
                ).push(ids[j]));
            }
        }
        proof {
            j = j + 1;
            assert(all@ =~= orig.skip(j));
        }
    }
    proof {
        assert(ids.take(j) =~= ids);
    }
    Vault {
        version: "0.2.0".to_owned(),
        service_types: selected,
        services: Vec::new(),
        accounts: Vec::new(),
        settings,
    }
}

/// Overwrites a password that the session does not keep.
fn discard(password: String) {
    let mut p = MasterPassword(password);
    p.wipe();
}

/// Replaces the session password, overwriting the one it held.
fn replace_password(state: &mut SessionState, password: MasterPassword)
    ensures
        final(state).vault_spec() == old(state).vault_spec(),
        final(state).password_spec() == Some(password.0@),
{
    let mut taken = Some(password);
    std::mem::swap(&mut state.master_password, &mut taken);
    if let Some(mut p) = taken {
        p.wipe();
    }
}

/// Completes the creation of a vault. When the vault file exists and the
/// session is already unlocked, the session is kept as it is. Otherwise
/// `vault` was written under `password` with the outcome `saved`: on success
/// the session is unlocked with them; on failure it stays as it was.
pub fn create_vault(
    state: &mut SessionState,
    file_exists: bool,
    password: String,
    vault: Vault,
    saved: Result<(), StorageError>,
) -> (r: Result<(), CommandError>)
    requires
        old(state).wf(),
    ensures
        final(state).wf(),
        file_exists && old(state).unlocked() ==> r is Ok && *final(state) == *old(state),
        !(file_exists && old(state).unlocked()) && saved is Ok ==> r is Ok && final(state).vault_spec() == Some(vault) && final(state).password_spec() == Some(password@),
        !(file_exists && old(state).unlocked()) && saved is Err ==> r is Err && r->Err_0 is Storage
            && r->Err_0->Storage_0@ == storage_message(saved->Err_0) && *final(state) == *old(state),
{
    if file_exists && state.vault.is_some() {
        discard(password);
        return Ok(());
    }
    match saved {
        Ok(()) => {
            replace_password(state, MasterPassword(password));
            state.vault = Some(vault);
            Ok(())
        },
        Err(e) => {
            discard(password);
            Err(CommandError::Storage(e.message()))
        },
    }
}

/// The refusal that comes when the serialized vault could not be encrypted.
pub open spec fn sealing_failed<T>(r: Result<T, CommandError>) -> bool {
    &&& r is Err
    &&& r->Err_0 is Storage
    &&& r->Err_0->Storage_0@ == "Cryptography error: "@ + crypto_message(CryptoError::Encryption)
}

/// Encrypts the serialized vault under the session password, ready to be
/// written to the vault file.
pub fn save_vault_with_session_password(state: &SessionState, vault_json: &[u8]) -> (r: Result<
    EncryptedVault,
    CommandError,
>)
    requires
        state.wf(),
    ensures
        !state.unlocked() ==> r is Err && r->Err_0 == CommandError::VaultLocked,
        state.unlocked() && r is Ok ==> is_envelope_of(
            r->Ok_0@,
            vault_json@,
            state.password_spec()->Some_0,
        ) && r->Ok_0.ciphertext@.len() == NONCE_LEN + vault_json@.len() + TAG_LEN,
        state.unlocked() && vault_json@.len() > GCM_MAX_INPUT_LEN ==> r is Err,
        state.unlocked() && r is Err ==> sealing_failed(r),
{
    match (&state.vault, &state.master_password) {
        (Some(_), Some(password)) => match seal_vault(vault_json, password) {
            Ok(env) => Ok(env),
            Err(e) => Err(CommandError::Storage(e.message())),
        },
        _ => Err(CommandError::VaultLocked),
    }
}

/// Checks `old_password` against the session password, comparing the whole
/// of it, and encrypts the serialized vault under `new_password`. The
/// session password is replaced only once that envelope has been written
/// (see `commit_master_password`).
pub fn change_master_password(
    state: &SessionState,
    old_password: &String,
    new_password: &MasterPassword,
    vault_json: &[u8],
) -> (r: Result<EncryptedVault, CommandError>)
    requires
        state.wf(),
    ensures
        !state.unlocked() ==> r is Err && r->Err_0 == CommandError::VaultLocked,
        state.unlocked() && state.password_spec() != Some(old_password@) ==> r is Err && r->Err_0
            == CommandError::InvalidOldPassword,
        state.unlocked() && state.password_spec() == Some(old_password@) && r is Ok
            ==> is_envelope_of(r->Ok_0@, vault_json@, new_password.0@) && r->Ok_0.ciphertext@.len()
            == NONCE_LEN + vault_json@.len() + TAG_LEN,
        state.unlocked() && state.password_spec() == Some(old_password@) && vault_json@.len()
            > GCM_MAX_INPUT_LEN ==> r is Err,
        state.unlocked() && state.password_spec() == Some(old_password@) && r is Err
            ==> sealing_failed(r),
{
    match (&state.vault, &state.master_password) {
        (Some(_), Some(current)) => {
            if !current.0.eq(old_password) {
                return Err(CommandError::InvalidOldPassword);
            }
            match seal_vault(vault_json, new_password) {
                Ok(env) => Ok(env),
                Err(e) => Err(CommandError::Storage(e.message())),
            }
        },
        _ => Err(CommandError::VaultLocked),
    }
}

/// Makes `new_password` the session password once the vault re-encrypted
/// under it was written (`written` is the outcome of that write); after a
/// failed write the session keeps its password.
pub fn commit_master_password(
    state: &mut SessionState,
    new_password: MasterPassword,
    written: Result<(), StorageError>,
) -> (r: Result<(), CommandError>)
    requires
        old(state).wf(),
    ensures
        final(state).wf(),
        refused_when_locked(*old(state), *final(state), r),
        old(state).unlocked() && written is Err ==> r is Err && r->Err_0 is Storage
            && r->Err_0->Storage_0@ == storage_message(written->Err_0) && *final(state) == *old(state),
        old(state).unlocked() && written is Ok ==> r is Ok && final(state).vault_spec() == old(state).vault_spec() && final(state).password_spec() == Some(new_password.0@),
{
    let mut new_password = new_password;
    if state.vault.is_none() {
        new_password.wipe();
        return Err(CommandError::VaultLocked);
    }
    match written {
        Ok(()) => {
            replace_password(state, new_password);
            Ok(())
        },
        Err(e) => {
            new_password.wipe();
            Err(CommandError::Storage(e.message()))
        },
    }
}

/// Only the service types differ.
pub open spec fn only_types_changed(a: Vault, b: Vault) -> bool {
    b.version == a.version && b.services == a.services && b.accounts == a.accounts && b.settings
        == a.settings
}

/// Only the services differ.
pub open spec fn only_services_changed(a: Vault, b: Vault) -> bool {
    b.version == a.version && b.service_types == a.service_types && b.accounts == a.accounts
        && b.settings == a.settings
}

/// Only the accounts differ.
pub open spec fn only_accounts_changed(a: Vault, b: Vault) -> bool {
    b.version == a.version && b.service_types == a.service_types && b.services == a.services
        && b.settings == a.settings
}

/// Only the services and the accounts differ.
pub open spec fn only_records_changed(a: Vault, b: Vault) -> bool {
    b.version == a.version && b.service_types == a.service_types && b.settings == a.settings
}

/// Replaces the settings.
pub fn update_settings(state: &mut SessionState, settings: Settings) -> (r: Result<(), CommandError>)
    requires
        old(state).wf(),
    ensures
        same_session(*old(state), *final(state)),
        refused_when_locked(*old(state), *final(state), r),
        old(state).unlocked() ==> r is Ok && final(state).current().settings == settings && {
            let (a, b) = (old(state).current(), final(state).current());
            b.version == a.version && b.service_types == a.service_types && b.services
                == a.services && b.accounts == a.accounts
        },
{
    match &mut state.vault {
        None => Err(CommandError::VaultLocked),
        Some(vault) => {
            vault.settings = settings;
            Ok(())
        },
    }
}

/// Adds a service type; its identifier must not be taken.
pub fn add_service_type(state: &mut SessionState, service_type: ServiceType) -> (r: Result<
    (),
    CommandError,
>)
    requires
        old(state).wf(),
    ensures
        same_session(*old(state), *final(state)),
        refused_when_locked(*old(state), *final(state), r),
        old(state).unlocked() && has_key(old(state).current().service_types@, service_type.id@)
            ==> r == Err::<(), CommandError>(CommandError::ServiceTypeExists(service_type.id))
            && *final(state) == *old(state),
        old(state).unlocked() && !has_key(old(state).current().service_types@, service_type.id@)
            ==> r is Ok && final(state).current().service_types@ == old(
            state,
        ).current().service_types@.push(service_type) && only_types_changed(
            old(state).current(),
            final(state).current(),
        ),
{
    match &mut state.vault {
        None => Err(CommandError::VaultLocked),
        Some(vault) => {
            if find_key(&vault.service_types, &service_type.id).is_some() {
                return Err(CommandError::ServiceTypeExists(service_type.id));
            }
            vault.service_types.push(service_type);
            Ok(())
        },
    }
}

/// Replaces the first service type with the same identifier.
pub fn update_service_type(state: &mut SessionState, service_type: ServiceType) -> (r: Result<
    (),
    CommandError,
>)
    requires
        old(state).wf(),
    ensures
        same_session(*old(state), *final(state)),
        refused_when_locked(*old(state), *final(state), r),
        old(state).unlocked() && !has_key(old(state).current().service_types@, service_type.id@)
            ==> r == Err::<(), CommandError>(CommandError::ServiceTypeNotFound(service_type.id))
            && *final(state) == *old(state),
        old(state).unlocked() && has_key(old(state).current().service_types@, service_type.id@)
            ==> r is Ok && replaced_first(
            old(state).current().service_types@,
            final(state).current().service_types@,
            service_type,
        ) && only_types_changed(old(state).current(), final(state).current()),
{
    match &mut state.vault {
        None => Err(CommandError::VaultLocked),
        Some(vault) => {
            if find_key(&vault.service_types, &service_type.id).is_none() {
                return Err(CommandError::ServiceTypeNotFound(service_type.id));
            }
            match replace_first(&mut vault.service_types, service_type) {
                Ok(()) => Ok(()),
                Err(st) => Err(CommandError::ServiceTypeNotFound(st.id)),
            }
        },
    }
}

/// Deletes the service types with the given identifier.
pub fn delete_service_type(state: &mut SessionState, service_type_id: String) -> (r: Result<
    (),
    CommandError,
>)
    requires
        old(state).wf(),
    ensures
        same_session(*old(state), *final(state)),
        refused_when_locked(*old(state), *final(state), r),
        old(state).unlocked() && !has_key(old(state).current().service_types@, service_type_id@)
            ==> r == Err::<(), CommandError>(CommandError::ServiceTypeNotFound(service_type_id))
            && *final(state) == *old(state),
        old(state).unlocked() && has_key(old(state).current().service_types@, service_type_id@)
            ==> r is Ok && final(state).current().service_types@ == old(
            state,
        ).current().service_types@.filter(keep_other::<ServiceType>(service_type_id@))
            && only_types_changed(old(state).current(), final(state).current()),
{
    match &mut state.vault {
        None => Err(CommandError::VaultLocked),
        Some(vault) => {
            if find_key(&vault.service_types, &service_type_id).is_none() {
                return Err(CommandError::ServiceTypeNotFound(service_type_id));
            }
            remove_key(&mut vault.service_types, &service_type_id);
            Ok(())
        },
    }
}

/// Adds a service and, when `account_id` is given, links it to that
/// account, which must exist.
pub fn add_service(state: &mut SessionState, service: Service, account_id: Option<String>) -> (r:
    Result<(), CommandError>)
    requires
        old(state).wf(),
    ensures
        same_session(*old(state), *final(state)),
        refused_when_locked(*old(state), *final(state), r),
        old(state).unlocked() && account_id is Some && !has_key(
            old(state).current().accounts@,
            account_id->Some_0@,
        ) ==> r == Err::<(), CommandError>(CommandError::AccountNotFound(account_id->Some_0))
            && *final(state) == *old(state),
        old(state).unlocked() && account_id is None ==> r is Ok && final(state).current().services@
            == old(state).current().services@.push(service) && only_services_changed(
            old(state).current(),
            final(state).current(),
        ),
        old(state).unlocked() && account_id is Some && has_key(
            old(state).current().accounts@,
            account_id->Some_0@,
        ) ==> r is Ok && final(state).current().services@ == old(state).current().services@.push(
            service,
        ) && only_records_changed(old(state).current(), final(state).current()) && exists|i: int|
            is_first_key(old(state).current().accounts@, account_id->Some_0@, i) && {
                let (a, b) = (old(state).current().accounts@, final(state).current().accounts@);
                &&& b.len() == a.len()
                &&& forall|k: int| 0 <= k < a.len() && k != i ==> #[trigger] b[k] == a[k]
                &&& links_merged(a[i], b[i], seq![service.id@])
            },
{
    match &mut state.vault {
        None => Err(CommandError::VaultLocked),
        Some(vault) => {
            match account_id {
                None => {
                    vault.services.push(service);
                    Ok(())
                },
                Some(aid) => match find_key(&vault.accounts, &aid) {
                    None => Err(CommandError::AccountNotFound(aid)),
                    Some(i) => {
                        let ghost before = vault.accounts@;
                        let link = vec![service.id.clone()];
                        assert(str_views(link@) =~= seq![service.id@]);
                        vault.services.push(service);
                        merge_into_account(&mut vault.accounts, i, link);
                        assert(is_first_key(before, aid@, i as int));
                        Ok(())
                    },
                },
            }
        },
    }
}

/// Appends services.
pub fn add_services(state: &mut SessionState, services: Vec<Service>) -> (r: Result<(), CommandError>)
    requires
        old(state).wf(),
    ensures
        same_session(*old(state), *final(state)),
        refused_when_locked(*old(state), *final(state), r),
        old(state).unlocked() ==> r is Ok && final(state).current().services@ == old(
            state,
        ).current().services@ + services@ && only_services_changed(
            old(state).current(),
            final(state).current(),
        ),
{
    match &mut state.vault {
        None => Err(CommandError::VaultLocked),
        Some(vault) => {
            let mut services = services;
            vault.services.append(&mut services);
            Ok(())
        },
    }
}

/// Replaces the first service with the same identifier.
pub fn update_service(state: &mut SessionState, service: Service) -> (r: Result<(), CommandError>)
    requires
        old(state).wf(),
    ensures
        same_session(*old(state), *final(state)),
        refused_when_locked(*old(state), *final(state), r),
        old(state).unlocked() && !has_key(old(state).current().services@, service.id@) ==> r
            == Err::<(), CommandError>(CommandError::ServiceNotFound(service.id)) && *final(state)
            == *old(state),
        old(state).unlocked() && has_key(old(state).current().services@, service.id@) ==> r is Ok
            && replaced_first(old(state).current().services@, final(state).current().services@, service)
            && only_services_changed(old(state).current(), final(state).current()),
{
    match &mut state.vault {
        None => Err(CommandError::VaultLocked),
        Some(vault) => {
            if find_key(&vault.services, &service.id).is_none() {
                return Err(CommandError::ServiceNotFound(service.id));
            }
            match replace_first(&mut vault.services, service) {
                Ok(()) => Ok(()),
                Err(s) => Err(CommandError::ServiceNotFound(s.id)),
            }
        },
    }
}

/// Deletes the services with the given identifier, and takes it out of every
/// account's links.
pub fn delete_service(state: &mut SessionState, service_id: String) -> (r: Result<(), CommandError>)
    requires
        old(state).wf(),
    ensures
        same_session(*old(state), *final(state)),
        refused_when_locked(*old(state), *final(state), r),
        old(state).unlocked() && !has_key(old(state).current().services@, service_id@) ==> r
            == Err::<(), CommandError>(CommandError::ServiceNotFound(service_id)) && *final(state)
            == *old(state),
        old(state).unlocked() && has_key(old(state).current().services@, service_id@) ==> r is Ok
            && final(state).current().services@ == old(state).current().services@.filter(
            keep_other::<Service>(service_id@),
        ) && links_pruned(
            old(state).current().accounts@,
            final(state).current().accounts@,
            seq![service_id@],
        ) && only_records_changed(old(state).current(), final(state).current()),
{
    match &mut state.vault {
        None => Err(CommandError::VaultLocked),
        Some(vault) => {
            if find_key(&vault.services, &service_id).is_none() {
                return Err(CommandError::ServiceNotFound(service_id));
            }
            remove_key(&mut vault.services, &service_id);
            let gone = vec![service_id];
            assert(str_views(gone@) =~= seq![service_id@]);
            prune_links(&mut vault.accounts, &gone);
            Ok(())
        },
    }
}

/// Deletes the services whose identifier `service_ids` lists, and takes those
/// identifiers out of every account's links.
pub fn delete_services(state: &mut SessionState, service_ids: Vec<String>) -> (r: Result<
    (),
    CommandError,
>)
    requires
        old(state).wf(),
    ensures
        same_session(*old(state), *final(state)),
        refused_when_locked(*old(state), *final(state), r),
        old(state).unlocked() ==> r is Ok && final(state).current().services@ == old(
            state,
        ).current().services@.filter(keep_unlisted::<Service>(str_views(service_ids@)))
            && links_pruned(
            old(state).current().accounts@,
            final(state).current().accounts@,
            str_views(service_ids@),
        ) && only_records_changed(old(state).current(), final(state).current()),
{
    match &mut state.vault {
        None => Err(CommandError::VaultLocked),
        Some(vault) => {
            remove_keys(&mut vault.services, &service_ids);
            prune_links(&mut vault.accounts, &service_ids);
            Ok(())
        },
    }
}

/// Appends an account.
pub fn add_account(state: &mut SessionState, account: Account) -> (r: Result<(), CommandError>)
    requires
        old(state).wf(),
    ensures
        same_session(*old(state), *final(state)),
        refused_when_locked(*old(state), *final(state), r),
        old(state).unlocked() ==> r is Ok && final(state).current().accounts@ == old(
            state,
        ).current().accounts@.push(account) && only_accounts_changed(
            old(state).current(),
            final(state).current(),
        ),
{
    match &mut state.vault {
        None => Err(CommandError::VaultLocked),
        Some(vault) => {
            vault.accounts.push(account);
            Ok(())
        },
    }
}

/// Replaces the first account with the same identifier.
pub fn update_account(state: &mut SessionState, account: Account) -> (r: Result<(), CommandError>)
    requires
        old(state).wf(),
    ensures
        same_session(*old(state), *final(state)),
        refused_when_locked(*old(state), *final(state), r),
        old(state).unlocked() && !has_key(old(state).current().accounts@, account.id@) ==> r
            == Err::<(), CommandError>(CommandError::AccountNotFound(account.id)) && *final(state)
            == *old(state),
        old(state).unlocked() && has_key(old(state).current().accounts@, account.id@) ==> r is Ok
            && replaced_first(old(state).current().accounts@, final(state).current().accounts@, account)
            && only_accounts_changed(old(state).current(), final(state).current()),
{
    match &mut state.vault {
        None => Err(CommandError::VaultLocked),
        Some(vault) => {
            if find_key(&vault.accounts, &account.id).is_none() {
                return Err(CommandError::AccountNotFound(account.id));
            }
            match replace_first(&mut vault.accounts, account) {
                Ok(()) => Ok(()),
                Err(a) => Err(CommandError::AccountNotFound(a.id)),
            }
        },
    }
}

/// Deletes the accounts with the given identifier; services are left as they
/// are.
pub fn delete_account(state: &mut SessionState, account_id: String) -> (r: Result<(), CommandError>)
    requires
        old(state).wf(),
    ensures
        same_session(*old(state), *final(state)),
        refused_when_locked(*old(state), *final(state), r),
        old(state).unlocked() && !has_key(old(state).current().accounts@, account_id@) ==> r
            == Err::<(), CommandError>(CommandError::AccountNotFound(account_id)) && *final(state)
            == *old(state),
        old(state).unlocked() && has_key(old(state).current().accounts@, account_id@) ==> r is Ok
            && final(state).current().accounts@ == old(state).current().accounts@.filter(
            keep_other::<Account>(account_id@),
        ) && only_accounts_changed(old(state).current(), final(state).current()),
{
    match &mut state.vault {
        None => Err(CommandError::VaultLocked),
        Some(vault) => {
            if find_key(&vault.accounts, &account_id).is_none() {
                return Err(CommandError::AccountNotFound(account_id));
            }
            remove_key(&mut vault.accounts, &account_id);
            Ok(())
        },
    }
}

/// Links services to an account, which must exist; its links stay ascending
/// and free of repeats.
pub fn link_services_to_account(
    state: &mut SessionState,
    account_id: String,
    service_ids: Vec<String>,
) -> (r: Result<(), CommandError>)
    requires
        old(state).wf(),
    ensures
        same_session(*old(state), *final(state)),
        refused_when_locked(*old(state), *final(state), r),
        old(state).unlocked() && !has_key(old(state).current().accounts@, account_id@) ==> r
            == Err::<(), CommandError>(CommandError::AccountNotFound(account_id)) && *final(state)
            == *old(state),
        old(state).unlocked() && has_key(old(state).current().accounts@, account_id@) ==> r is Ok
            && only_accounts_changed(old(state).current(), final(state).current()) && exists|i: int|
            is_first_key(old(state).current().accounts@, account_id@, i) && {
                let (a, b) = (old(state).current().accounts@, final(state).current().accounts@);
                &&& b.len() == a.len()
                &&& forall|k: int| 0 <= k < a.len() && k != i ==> #[trigger] b[k] == a[k]
                &&& links_merged(a[i], b[i], str_views(service_ids@))
            },
{
    match &mut state.vault {
        None => Err(CommandError::VaultLocked),
        Some(vault) => match find_key(&vault.accounts, &account_id) {
            None => Err(CommandError::AccountNotFound(account_id)),
            Some(i) => {
                let ghost before = vault.accounts@;
                merge_into_account(&mut vault.accounts, i, service_ids);
                assert(is_first_key(before, account_id@, i as int));
                Ok(())
            },
        },
    }
}

/// Appends the accounts that `request` asks for, with identifiers drawn from
/// the operating system's random source (see `append_bulk_accounts`). The
/// account numbers must fit in a `u32`.
pub fn bulk_create_accounts(state: &mut SessionState, request: BulkCreateRequest) -> (r: Result<
    (),
    CommandError,
>)
    requires
        old(state).wf(),
    ensures
        same_session(*old(state), *final(state)),
        refused_when_locked(*old(state), *final(state), r),
        old(state).unlocked() && request.account_config.start_number
            + request.account_config.count > u32::MAX + 1 ==> r == Err::<(), CommandError>(
            CommandError::NumberOverflow,
        ) && *final(state) == *old(state),
        old(state).unlocked() && r is Err ==> (r->Err_0 == CommandError::NumberOverflow
            || r->Err_0 == CommandError::RandomUnavailable) && *final(state) == *old(state),
        old(state).unlocked() && r is Ok ==> only_accounts_changed(
            old(state).current(),
            final(state).current(),
        ) && exists|ids: Seq<Seq<char>>|
            ids.len() == request.account_config.count && (forall|k: int|
                0 <= k < ids.len() ==> is_uuid_text(#[trigger] ids[k])) && bulk_appended(
                old(state).current().accounts@,
                final(state).current().accounts@,
                request,
                ids,
                old(state).current(),
            ),
{
    match &mut state.vault {
        None => Err(CommandError::VaultLocked),
        Some(vault) => {
            let cfg = &request.account_config;
            if cfg.start_number as u64 + cfg.count as u64 > 0x1_0000_0000 {
                return Err(CommandError::NumberOverflow);
            }
            let ids = match draw_account_ids(cfg.count) {
                Some(ids) => ids,
                None => return Err(CommandError::RandomUnavailable),
            };
            append_bulk_accounts(vault, &request, &ids);
            assert(forall|k: int|
                0 <= k < str_views(ids@).len() ==> is_uuid_text(#[trigger] str_views(ids@)[k]));
            Ok(())
        },
    }
}

/// Deleting a service unlinks it: after the accounts' links are pruned of a
/// service identifier, no account links to it, and each account keeps every
/// other link.
pub proof fn lemma_deleted_service_unlinked(
    before: Seq<Account>,
    after: Seq<Account>,
    service_id: Seq<char>,
)
    requires
        links_pruned(before, after, seq![service_id]),
    ensures
        forall|i: int|
            0 <= i < after.len() ==> !str_views(#[trigger] after[i].linked_services@).contains(
                service_id,
            ),
        forall|i: int, x: Seq<char>|
            0 <= i < after.len() && x != service_id && str_views(
                before[i].linked_services@,
            ).contains(x) ==> #[trigger] str_views(after[i].linked_services@).contains(x),
{
    broadcast use vstd::seq_lib::group_filter_ensures;

    let f = keep_unlisted::<String>(seq![service_id]);
    assert forall|i: int|
        0 <= i < after.len() implies !str_views(#[trigger] after[i].linked_services@).contains(
        service_id,
    ) by {
        let l = after[i].linked_services@;
        assert(l == before[i].linked_services@.filter(f));
        if str_views(l).contains(service_id) {
            let k = choose|k: int| 0 <= k < str_views(l).len() && str_views(l)[k] == service_id;
            assert(f(l[k]));
            assert(seq![service_id][0] == service_id);
        }
    }
    assert forall|i: int, x: Seq<char>|
        0 <= i < after.len() && x != service_id && str_views(
            before[i].linked_services@,
        ).contains(x) implies #[trigger] str_views(after[i].linked_services@).contains(x) by {
        let b = before[i].linked_services@;
        let k = choose|k: int| 0 <= k < str_views(b).len() && str_views(b)[k] == x;
        assert(!seq![service_id].contains(x)) by {
            if seq![service_id].contains(x) {
                let m = choose|m: int| 0 <= m < 1 && seq![service_id][m] == x;
            }
        }
        assert(f(b[k]));
        assert(b.filter(f).contains(b[k]));
        let m = choose|m: int| 0 <= m < b.filter(f).len() && b.filter(f)[m] == b[k];
        assert(str_views(after[i].linked_services@)[m] == x);
    }
}

/// Deleting an account takes out exactly the accounts with its identifier:
/// none is left, and every other account stays, in order.
pub proof fn lemma_deleted_account_only(accounts: Seq<Account>, account_id: Seq<char>)
    ensures
        !has_key(accounts.filter(keep_other::<Account>(account_id)), account_id),
        forall|i: int|
            0 <= i < accounts.len() && #[trigger] accounts[i].id@ != account_id ==> accounts.filter(
                keep_other::<Account>(account_id),
            ).contains(accounts[i]),
{
    broadcast use vstd::seq_lib::group_filter_ensures;

    let f = keep_other::<Account>(account_id);
    let kept = accounts.filter(f);
    if has_key(kept, account_id) {
        let k = choose|k: int| 0 <= k < kept.len() && #[trigger] kept[k].key() == account_id;
        assert(f(kept[k]));
    }
    assert forall|i: int|
        0 <= i < accounts.len() && #[trigger] accounts[i].id@ != account_id implies kept.contains(
        accounts[i],
    ) by {
        assert(f(accounts[i]));
    }
}

} // verus!
