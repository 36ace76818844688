//! The catalog of predefined service types offered when a vault is created.

use crate::models::{ServiceField, ServiceFieldView, ServiceType, ServiceTypeView};
use vstd::prelude::*;

verus! {

/// A field template with no linked service type.
pub fn create_field(
    id: &str,
    key: &str,
    label: &str,
    field_type: &str,
    masked: bool,
    required: bool,
) -> (r: ServiceField)
    ensures
        r.id@ == id@,
        r.key@ == key@,
        r.label@ == label@,
        r.field_type@ == field_type@,
        r.masked == masked,
        r.required == required,
        r.linked_service_type_id is None,
{
    ServiceField {
        id: id.to_owned(),
        key: key.to_owned(),
        label: label.to_owned(),
        field_type: field_type.to_owned(),
        masked,
        required,
        linked_service_type_id: None,
    }
}


/// A field template with no linked service type, as plain values.
pub open spec fn field_view(
    id: Seq<char>,
    key: Seq<char>,
    label: Seq<char>,
    field_type: Seq<char>,
    masked: bool,
    required: bool,
) -> ServiceFieldView {
    ServiceFieldView { id, key, label, field_type, masked, required, linked_service_type_id: None }
}

/// The predefined service types, in catalog order.
pub open spec fn default_catalog() -> Seq<ServiceTypeView> {
    seq![
        ServiceTypeView {
            id: "discord"@,
            name: "Discord"@,
            icon: "MessageSquare"@,
            fields: seq![
                field_view("d-1"@, "username"@, "Username"@, "text"@, false, true),
                field_view("d-2"@, "email"@, "Email"@, "text"@, false, true),
                field_view("d-3"@, "password"@, "Password"@, "secret"@, true, true),
                field_view("d-6"@, "auth_token"@, "Auth Token"@, "textarea"@, true, false),
                field_view("d-7"@, "2fa_key"@, "2FA Key"@, "secret"@, true, false),
                field_view("d-8"@, "backup_codes"@, "Backup Codes"@, "textarea"@, true, false),
            ],
        },
        ServiceTypeView {
            id: "twitter-x"@,
            name: "Twitter (X)"@,
            icon: "Twitter"@,
            fields: seq![
                field_view("t-1"@, "display_name"@, "Name"@, "text"@, false, true),
                field_view("t-2"@, "email"@, "Email"@, "text"@, false, true),
                field_view("t-3"@, "password"@, "Password"@, "secret"@, true, true),
                field_view("t-6"@, "auth_token"@, "Auth Token"@, "textarea"@, true, false),
                field_view("t-7"@, "2fa_key"@, "2FA Key"@, "secret"@, true, false),
                field_view("t-8"@, "backup_codes"@, "Backup Codes"@, "textarea"@, true, false),
            ],
        },
        ServiceTypeView {
            id: "email"@,
            name: "Email"@,
            icon: "Mail"@,
            fields: seq![
                field_view("g-1"@, "display_name"@, "Name"@, "text"@, false, false),
                field_view("g-2"@, "email"@, "Email"@, "text"@, false, true),
                field_view("g-3"@, "password"@, "Password"@, "secret"@, true, true),
                field_view("g-4"@, "recovery_email"@, "Recovery Email"@, "text"@, false, false),
                field_view("g-5"@, "recovery_email_access_url"@, "Recovery Email Access URL"@, "url"@, false, false),
                field_view("g-6"@, "recovery_email_access_password"@, "Recovery Email Access Password"@, "secret"@, true, false),
                field_view("g-7"@, "2fa_key"@, "2FA Key"@, "secret"@, true, false),
            ],
        },
        ServiceTypeView {
            id: "proxy"@,
            name: "Proxy"@,
            icon: "Globe"@,
            fields: seq![
                field_view("p-1"@, "proxy_string"@, "Proxy String"@, "secret"@, true, true),
            ],
        },
        ServiceTypeView {
            id: "evm-wallet"@,
            name: "EVM Wallet"@,
            icon: "Wallet"@,
            fields: seq![
                field_view("evm-1"@, "address"@, "Address"@, "text"@, false, true),
                field_view("evm-2"@, "seed_phrase"@, "Seed Phrase"@, "textarea"@, true, false),
                field_view("evm-3"@, "private_key"@, "Private Key"@, "textarea"@, true, false),
            ],
        },
        ServiceTypeView {
            id: "solana-wallet"@,
            name: "Solana Wallet"@,
            icon: "WalletCards"@,
            fields: seq![
                field_view("sol-1"@, "address"@, "Address"@, "text"@, false, true),
                field_view("sol-2"@, "seed_phrase"@, "Seed Phrase"@, "textarea"@, true, false),
                field_view("sol-3"@, "private_key"@, "Private Key"@, "textarea"@, true, false),
            ],
        },
    ]
}

/// The predefined service types: Discord, Twitter (X), Email, Proxy, and EVM
/// and Solana wallets, each with its field template.
pub fn get_default_service_types() -> (r: Vec<ServiceType>)
    ensures
        r@.map_values(|t: ServiceType| t@) == default_catalog(),
{
    let st_discord = ServiceType {
        id: "discord".to_owned(),
        name: "Discord".to_owned(),
        icon: "MessageSquare".to_owned(),
        fields: vec![
            create_field("d-1", "username", "Username", "text", false, true),
            create_field("d-2", "email", "Email", "text", false, true),
            create_field("d-3", "password", "Password", "secret", true, true),
            create_field("d-6", "auth_token", "Auth Token", "textarea", true, false),
            create_field("d-7", "2fa_key", "2FA Key", "secret", true, false),
            create_field("d-8", "backup_codes", "Backup Codes", "textarea", true, false),
        ],
    };
    let st_twitter_x = ServiceType {
        id: "twitter-x".to_owned(),
        name: "Twitter (X)".to_owned(),
        icon: "Twitter".to_owned(),
        fields: vec![
            create_field("t-1", "display_name", "Name", "text", false, true),
            create_field("t-2", "email", "Email", "text", false, true),
            create_field("t-3", "password", "Password", "secret", true, true),
            create_field("t-6", "auth_token", "Auth Token", "textarea", true, false),
            create_field("t-7", "2fa_key", "2FA Key", "secret", true, false),
            create_field("t-8", "backup_codes", "Backup Codes", "textarea", true, false),
        ],
    };
    let st_email = ServiceType {
        id: "email".to_owned(),
        name: "Email".to_owned(),
        icon: "Mail".to_owned(),
        fields: vec![
            create_field("g-1", "display_name", "Name", "text", false, false),
            create_field("g-2", "email", "Email", "text", false, true),
            create_field("g-3", "password", "Password", "secret", true, true),
            create_field("g-4", "recovery_email", "Recovery Email", "text", false, false),
            create_field("g-5", "recovery_email_access_url", "Recovery Email Access URL", "url", false, false),
            create_field("g-6", "recovery_email_access_password", "Recovery Email Access Password", "secret", true, false),
            create_field("g-7", "2fa_key", "2FA Key", "secret", true, false),
        ],
    };
    let st_proxy = ServiceType {
        id: "proxy".to_owned(),
        name: "Proxy".to_owned(),
        icon: "Globe".to_owned(),
        fields: vec![
            create_field("p-1", "proxy_string", "Proxy String", "secret", true, true),
        ],
    };
    let st_evm_wallet = ServiceType {
        id: "evm-wallet".to_owned(),
        name: "EVM Wallet".to_owned(),
        icon: "Wallet".to_owned(),
        fields: vec![
            create_field("evm-1", "address", "Address", "text", false, true),
            create_field("evm-2", "seed_phrase", "Seed Phrase", "textarea", true, false),
            create_field("evm-3", "private_key", "Private Key", "textarea", true, false),
        ],
    };
    let st_solana_wallet = ServiceType {
        id: "solana-wallet".to_owned(),
        name: "Solana Wallet".to_owned(),
        icon: "WalletCards".to_owned(),
        fields: vec![
            create_field("sol-1", "address", "Address", "text", false, true),
            create_field("sol-2", "seed_phrase", "Seed Phrase", "textarea", true, false),
            create_field("sol-3", "private_key", "Private Key", "textarea", true, false),
        ],
    };
    let r = vec![st_discord, st_twitter_x, st_email, st_proxy, st_evm_wallet, st_solana_wallet];
    assert(st_discord.fields@.map_values(|f: ServiceField| f@) =~= default_catalog()[0].fields);
    assert(st_twitter_x.fields@.map_values(|f: ServiceField| f@) =~= default_catalog()[1].fields);
    assert(st_email.fields@.map_values(|f: ServiceField| f@) =~= default_catalog()[2].fields);
    assert(st_proxy.fields@.map_values(|f: ServiceField| f@) =~= default_catalog()[3].fields);
    assert(st_evm_wallet.fields@.map_values(|f: ServiceField| f@) =~= default_catalog()[4].fields);
    assert(st_solana_wallet.fields@.map_values(|f: ServiceField| f@) =~= default_catalog()[5].fields);
    assert(r@.map_values(|t: ServiceType| t@) =~= default_catalog());
    r
}

} // verus!
