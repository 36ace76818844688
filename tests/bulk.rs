use std::collections::HashMap;
use vault_core::bulk::{
    account_number, append_bulk_accounts, draw_account_ids, BulkAccountConfig, BulkCreateRequest,
    ServiceLinkConfig,
};
use vault_core::commands::{add_service_type, add_services, bulk_create_accounts, create_vault, new_vault, CommandError, SessionState};
use vault_core::models::{Service, ServiceType, Settings};

fn request(count: u32, start: u32, link: bool, configs: Vec<ServiceLinkConfig>) -> BulkCreateRequest {
    BulkCreateRequest {
        account_config: BulkAccountConfig {
            count,
            name_template: "acc-%n%".to_string(),
            start_number: start,
            tags: vec!["bulk".to_string()],
            notes: "made in bulk".to_string(),
        },
        link_services: link,
        service_configs: configs,
    }
}

fn link_config(type_id: &str, template: &str) -> ServiceLinkConfig {
    ServiceLinkConfig {
        service_type_id: type_id.to_string(),
        name_template: template.to_string(),
        data: HashMap::new(),
        tags: vec![],
    }
}

fn service(id: &str, type_id: &str, label: &str) -> Service {
    Service {
        id: id.to_string(),
        service_type_id: type_id.to_string(),
        label: label.to_string(),
        data: HashMap::new(),
        tags: vec![],
    }
}

fn session() -> SessionState {
    let mut s = SessionState::new();
    let v = new_vault(Settings { auto_lock_minutes: 1 }, &vec![]);
    create_vault(&mut s, false, "pw".to_string(), v, Ok(())).unwrap();
    add_service_type(&mut s, ServiceType { id: "email".to_string(), name: "Email".to_string(), icon: "Mail".to_string(), fields: vec![] }).unwrap();
    s
}

#[test]
fn account_numbers_from_labels() {
    assert_eq!(account_number(&"acc-12x3".to_string()), 123);
    assert_eq!(account_number(&"007".to_string()), 7);
    assert_eq!(account_number(&"none".to_string()), 1);
    assert_eq!(account_number(&"".to_string()), 1);
    assert_eq!(account_number(&"n4294967295".to_string()), 4294967295);
    assert_eq!(account_number(&"n4294967296".to_string()), 1);
}

#[test]
fn bulk_accounts_are_named_and_numbered() {
    let mut s = session();
    bulk_create_accounts(&mut s, request(3, 9, false, vec![])).unwrap();
    let v = s.vault().unwrap();
    let labels: Vec<&str> = v.accounts.iter().map(|a| a.label.as_str()).collect();
    assert_eq!(labels, vec!["acc-9", "acc-10", "acc-11"]);
    for a in &v.accounts {
        assert_eq!(a.id.len(), 36);
        assert_eq!(&a.id[14..15], "4");
        assert_eq!(a.id.matches('-').count(), 4);
        assert_eq!(a.notes, "made in bulk");
        assert_eq!(a.tags, vec!["bulk".to_string()]);
        assert!(a.linked_services.is_empty());
    }
    assert_ne!(v.accounts[0].id, v.accounts[1].id);
}

#[test]
fn bulk_accounts_link_matching_services() {
    let mut s = session();
    add_services(&mut s, vec![
        service("s5", "email", "mail-5"),
        service("s6", "email", "mail-6"),
        service("other", "proxy", "mail-5"),
    ]).unwrap();
    let configs = vec![
        link_config("email", "mail-%n%"),
        link_config("missing-type", "mail-%n%"),
        link_config("email", "mail-%n%"),
    ];
    bulk_create_accounts(&mut s, request(3, 5, true, configs)).unwrap();
    let v = s.vault().unwrap();
    assert_eq!(v.accounts[0].linked_services, vec!["s5".to_string()]);
    assert_eq!(v.accounts[1].linked_services, vec!["s6".to_string()]);
    assert!(v.accounts[2].linked_services.is_empty());
}

#[test]
fn bulk_numbers_must_fit() {
    let mut s = session();
    let r = bulk_create_accounts(&mut s, request(2, u32::MAX, false, vec![]));
    assert!(matches!(r, Err(CommandError::NumberOverflow)));
    assert!(s.vault().unwrap().accounts.is_empty());
    bulk_create_accounts(&mut s, request(1, u32::MAX, false, vec![])).unwrap();
    assert_eq!(s.vault().unwrap().accounts[0].label, "acc-4294967295");
}

#[test]
fn bulk_accounts_take_given_ids() {
    let mut v = new_vault(Settings { auto_lock_minutes: 1 }, &vec![]);
    let ids = vec!["id-a".to_string(), "id-b".to_string()];
    append_bulk_accounts(&mut v, &request(2, 1, false, vec![]), &ids);
    let got: Vec<(&str, &str)> = v.accounts.iter().map(|a| (a.id.as_str(), a.label.as_str())).collect();
    assert_eq!(got, vec![("id-a", "acc-1"), ("id-b", "acc-2")]);
}

#[test]
fn drawn_ids_are_distinct_uuids() {
    let ids = draw_account_ids(3).unwrap();
    assert_eq!(ids.len(), 3);
    assert!(ids.iter().all(|i| i.len() == 36 && &i[14..15] == "4"));
    assert_ne!(ids[0], ids[1]);
}

#[test]
fn bulk_on_locked_session_fails() {
    let mut s = SessionState::new();
    assert!(matches!(bulk_create_accounts(&mut s, request(1, 1, false, vec![])), Err(CommandError::VaultLocked)));
}
