//! The plaintext vault and the records it holds.

use std::collections::HashMap;
use vstd::prelude::*;

verus! {

/// User preferences stored inside the vault.
#[derive(Clone, Debug)]
pub struct Settings {
    pub auto_lock_minutes: u32,
}

/// One field of a service type's template.
#[derive(Clone, Debug)]
pub struct ServiceField {
    pub id: String,
    pub key: String,
    pub label: String,
    /// "text", "secret", "url", "textarea" or "linked_service".
    pub field_type: String,
    pub masked: bool,
    pub required: bool,
    pub linked_service_type_id: Option<String>,
}

/// A kind of record (an e-mail account, a wallet) and the fields it carries.
#[derive(Clone, Debug)]
pub struct ServiceType {
    pub id: String,
    pub name: String,
    pub icon: String,
    pub fields: Vec<ServiceField>,
}

/// One stored credential record.
#[derive(Clone, Debug)]
pub struct Service {
    pub id: String,
    pub service_type_id: String,
    pub label: String,
    pub data: HashMap<String, String>,
    pub tags: Vec<String>,
}

/// A grouping of services under one identity.
#[derive(Clone, Debug)]
pub struct Account {
    pub id: String,
    pub label: String,
    pub notes: String,
    pub tags: Vec<String>,
    pub linked_services: Vec<String>,
}

/// The whole plaintext vault.
#[derive(Clone, Debug)]
pub struct Vault {
    pub version: String,
    pub service_types: Vec<ServiceType>,
    pub services: Vec<Service>,
    pub accounts: Vec<Account>,
    pub settings: Settings,
}

/// What a field template holds, as plain values.
pub struct ServiceFieldView {
    pub id: Seq<char>,
    pub key: Seq<char>,
    pub label: Seq<char>,
    pub field_type: Seq<char>,
    pub masked: bool,
    pub required: bool,
    pub linked_service_type_id: Option<Seq<char>>,
}

/// What a service type holds, as plain values.
pub struct ServiceTypeView {
    pub id: Seq<char>,
    pub name: Seq<char>,
    pub icon: Seq<char>,
    pub fields: Seq<ServiceFieldView>,
}

impl View for ServiceField {
    type V = ServiceFieldView;

    open spec fn view(&self) -> ServiceFieldView {
        ServiceFieldView {
            id: self.id@,
            key: self.key@,
            label: self.label@,
            field_type: self.field_type@,
            masked: self.masked,
            required: self.required,
            linked_service_type_id: match self.linked_service_type_id {
                Some(s) => Some(s@),
                None => None,
            },
        }
    }
}

impl View for ServiceType {
    type V = ServiceTypeView;

    open spec fn view(&self) -> ServiceTypeView {
        ServiceTypeView {
            id: self.id@,
            name: self.name@,
            icon: self.icon@,
            fields: self.fields@.map_values(|f: ServiceField| f@),
        }
    }
}

/// The strings, as character sequences.
pub open spec fn str_views(s: Seq<String>) -> Seq<Seq<char>> {
    s.map_values(|x: String| x@)
}

} // verus!
