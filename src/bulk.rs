//! Creating many accounts at once from name templates, and linking each to
//! existing services whose names follow from the account's number.

use crate::commands::only_accounts_changed;
use crate::models::{str_views, Account, Service, ServiceType, Vault};
use crate::records::{contains_str, find_key, has_key};
use std::collections::HashMap;
use vstd::prelude::*;

verus! {

/// How the accounts are numbered and named.
pub struct BulkAccountConfig {
    pub count: u32,
    /// A label in which `%n%` stands for the account's number.
    pub name_template: String,
    pub start_number: u32,
    pub tags: Vec<String>,
    pub notes: String,
}

/// Which existing services to link to each new account.
pub struct ServiceLinkConfig {
    pub service_type_id: String,
    /// A service label in which `%n%` stands for the account's number.
    pub name_template: String,
    pub data: HashMap<String, String>,
    pub tags: Vec<String>,
}

pub struct BulkCreateRequest {
    pub account_config: BulkAccountConfig,
    pub link_services: bool,
    pub service_configs: Vec<ServiceLinkConfig>,
}

/// `s` with each occurrence of `pat`, taken from the left and without
/// overlap, replaced by `to`.
pub open spec fn replace_all(s: Seq<char>, pat: Seq<char>, to: Seq<char>) -> Seq<char>
    decreases s.len(),
{
    if pat.len() == 0 || s.len() < pat.len() {
        s
    } else if s.take(pat.len() as int) == pat {
        to + replace_all(s.skip(pat.len() as int), pat, to)
    } else {
        seq![s[0]] + replace_all(s.drop_first(), pat, to)
    }
}

/// The character of a decimal digit.
pub open spec fn digit_char(d: nat) -> char {
    if d == 0 {
        '0'
    } else if d == 1 {
        '1'
    } else if d == 2 {
        '2'
    } else if d == 3 {
        '3'
    } else if d == 4 {
        '4'
    } else if d == 5 {
        '5'
    } else if d == 6 {
        '6'
    } else if d == 7 {
        '7'
    } else if d == 8 {
        '8'
    } else {
        '9'
    }
}

/// The decimal digits of `n`, without leading zeros.
pub open spec fn decimal(n: nat) -> Seq<char>
    decreases n,
{
    if n < 10 {
        seq![digit_char(n)]
    } else {
        decimal(n / 10).push(digit_char(n % 10))
    }
}

/// Relies on `str::replace`: every occurrence of the non-empty `from`, taken
/// from the left without overlap, is replaced by `to`.
#[verifier::external_body]
fn replace_str(s: &str, from: &str, to: &str) -> (r: String)
    requires
        from@.len() > 0,
    ensures
        r@ == replace_all(s@, from@, to@),
{
    s.replace(from, to)
}

/// Relies on `ToString` for `u32`: its decimal digits, without sign or
/// leading zeros.
#[verifier::external_body]
fn u32_decimal(n: u32) -> (r: String)
    ensures
        r@ == decimal(n as nat),
{
    n.to_string()
}

/// Relies on `str::chars`, collected: the characters of the string.
#[verifier::external_body]
fn chars_of(s: &str) -> (r: Vec<char>)
    ensures
        r@ == s@,
{
    s.chars().collect()
}

/// The hyphenated text of the version-4 identifier made from 16 random bytes.
pub uninterp spec fn uuid_v4_text(bytes: Seq<u8>) -> Seq<char>;

/// Relies on uuid's `Builder::from_random_bytes` and `Uuid`'s `Display`: the
/// bytes, with the version and variant bits set, in the 36-character
/// hyphenated form.
#[verifier::external_body]
fn uuid_text(bytes: [u8; 16]) -> (r: String)
    ensures
        r@ == uuid_v4_text(bytes@),
        r@.len() == 36,
{
    uuid::Builder::from_random_bytes(bytes).into_uuid().to_string()
}

/// Whether `s` is the text of a version-4 identifier.
pub open spec fn is_uuid_text(s: Seq<char>) -> bool {
    exists|b: Seq<u8>| b.len() == 16 && #[trigger] uuid_v4_text(b) == s
}

/// Draws `count` fresh version-4 identifiers from the operating system's
/// random source; nothing when that source fails.
pub fn draw_account_ids(count: u32) -> (r: Option<Vec<String>>)
    ensures
        r is Some ==> r->Some_0@.len() == count && forall|k: int|
            0 <= k < count ==> is_uuid_text(#[trigger] r->Some_0@[k]@) && r->Some_0@[k]@.len() == 36,
{
    let mut ids: Vec<String> = Vec::new();
    let mut i: u32 = 0;
    while i < count
        invariant
            i <= count,
            ids@.len() == i,
            forall|k: int| 0 <= k < i ==> is_uuid_text(#[trigger] ids@[k]@) && ids@[k]@.len() == 36,
        decreases count - i,
    {
        let bytes: [u8; 16] = match crate::crypto::random_array() {
            Some(b) => b,
            None => return None,
        };
        let id = uuid_text(bytes);
        assert(uuid_v4_text(bytes@) == id@);
        ids.push(id);
        i += 1;
    }
    Some(ids)
}

pub open spec fn is_digit(c: char) -> bool {
    '0' <= c <= '9'
}

/// The value of a string of decimal digits.
pub open spec fn digits_value(d: Seq<char>) -> nat
    decreases d.len(),
{
    if d.len() == 0 {
        0
    } else {
        digits_value(d.drop_last()) * 10 + (d.last() as nat - '0' as nat) as nat
    }
}

/// The number that a label carries: its digits, read together in decimal;
/// 1 when it has none or they do not fit in a `u32`.
pub open spec fn label_number(label: Seq<char>) -> nat {
    let d = label.filter(|c: char| is_digit(c));
    if d.len() == 0 || digits_value(d) > u32::MAX {
        1
    } else {
        digits_value(d)
    }
}

/// The number that an account's label carries (see `label_number`).
pub fn account_number(label: &String) -> (r: u32)
    ensures
        r as nat == label_number(label@),
{
    let chars = chars_of(label.as_str());
    let ghost f = |c: char| is_digit(c);
    let mut value: u64 = 0;
    let mut seen = false;
    let mut too_big = false;
    let mut i: usize = 0;
    while i < chars.len()
        invariant
            i <= chars@.len(),
            chars@ == label@,
            f == (|c: char| is_digit(c)),
            seen == (chars@.take(i as int).filter(f).len() > 0),
            !too_big ==> value as nat == digits_value(chars@.take(i as int).filter(f)) && value
                <= u32::MAX,
            too_big ==> digits_value(chars@.take(i as int).filter(f)) > u32::MAX,
        decreases chars@.len() - i,
    {
        let c = chars[i];
        proof {
            crate::records::lemma_filter_step(chars@, i as int, f);
        }
        if '0' <= c && c <= '9' {
            seen = true;
            let ghost d = chars@.take(i as int).filter(f);
            assert(d.push(c).drop_last() =~= d);
            if !too_big {
                value = value * 10 + (c as u64 - '0' as u64);
                if value > 0xffff_ffff {
                    too_big = true;
                }
            }
        }
        i += 1;
    }
    assert(chars@.take(i as int) =~= chars@);
    if !seen || too_big {
        1
    } else {
        value as u32
    }
}

/// The identifier of the first service with the given label and type, if any.
pub open spec fn named_service(services: Seq<Service>, label: Seq<char>, type_id: Seq<char>) -> Option<
    Seq<char>,
>
    decreases services.len(),
{
    if services.len() == 0 {
        None
    } else if services[0].label@ == label && services[0].service_type_id@ == type_id {
        Some(services[0].id@)
    } else {
        named_service(services.drop_first(), label, type_id)
    }
}

fn find_named(services: &Vec<Service>, label: &String, type_id: &String) -> (r: Option<usize>)
    ensures
        named_service(services@, label@, type_id@) is None ==> r is None,
        named_service(services@, label@, type_id@) is Some ==> r is Some && r->Some_0
            < services@.len() && services@[r->Some_0 as int].id@ == named_service(
            services@,
            label@,
            type_id@,
        )->Some_0,
{
    let mut i: usize = 0;
    assert(services@.skip(0) =~= services@);
    while i < services.len()
        invariant
            i <= services@.len(),
            named_service(services@, label@, type_id@) == named_service(
                services@.skip(i as int),
                label@,
                type_id@,
            ),
        decreases services@.len() - i,
    {
        assert(services@.skip(i as int)[0] == services@[i as int]);
        assert(services@.skip(i as int).drop_first() =~= services@.skip(i + 1));
        if services[i].label.eq(label) && services[i].service_type_id.eq(type_id) {
            return Some(i);
        }
        i += 1;
    }
    assert(services@.skip(i as int).len() == 0);
    None
}

/// The links that an account numbered `number` gets from the configs, in
/// order: for each config whose service type exists, the first service of
/// that type whose label is the config's template with `%n%` replaced by the
/// number, once.
pub open spec fn config_links(
    configs: Seq<ServiceLinkConfig>,
    number: nat,
    types: Seq<ServiceType>,
    services: Seq<Service>,
) -> Seq<Seq<char>>
    decreases configs.len(),
{
    if configs.len() == 0 {
        seq![]
    } else {
        let prev = config_links(configs.drop_last(), number, types, services);
        let c = configs.last();
        if has_key(types, c.service_type_id@) {
            match named_service(
                services,
                replace_all(c.name_template@, "%n%"@, decimal(number)),
                c.service_type_id@,
            ) {
                Some(id) => if prev.contains(id) {
                    prev
                } else {
                    prev.push(id)
                },
                None => prev,
            }
        } else {
            prev
        }
    }
}

fn links_for(vault: &Vault, label: &String, configs: &Vec<ServiceLinkConfig>) -> (r: Vec<String>)
    ensures
        str_views(r@) == config_links(
            configs@,
            label_number(label@),
            vault.service_types@,
            vault.services@,
        ),
{
    let number = account_number(label);
    let num_str = u32_decimal(number);
    let mut links: Vec<String> = Vec::new();
    let mut j: usize = 0;
    proof {
        reveal_strlit("%n%");
    }
    while j < configs.len()
        invariant
            j <= configs@.len(),
            num_str@ == decimal(number as nat),
            number as nat == label_number(label@),
            str_views(links@) == config_links(
                configs@.take(j as int),
                number as nat,
                vault.service_types@,
                vault.services@,
            ),
        decreases configs@.len() - j,
    {
        let c = &configs[j];
        assert(configs@.take(j + 1).drop_last() =~= configs@.take(j as int));
        assert(configs@.take(j + 1).last() == configs@[j as int]);
        if find_key(&vault.service_types, &c.service_type_id).is_some() {
            proof {
                reveal_strlit("%n%");
            }
            let name = replace_str(c.name_template.as_str(), "%n%", num_str.as_str());
            match find_named(&vault.services, &name, &c.service_type_id) {
                Some(i) => {
                    let id = &vault.services[i].id;
                    if !contains_str(&links, id) {
                        let ghost before = links@;
                        links.push(id.clone());
                        assert(str_views(links@) =~= str_views(before).push(id@));
                    }
                },
                None => {},
            }
        }
        j += 1;
    }
    assert(configs@.take(j as int) =~= configs@);
    links
}

/// The label of the `k`-th new account.
pub open spec fn bulk_label(cfg: BulkAccountConfig, k: int) -> Seq<char> {
    replace_all(cfg.name_template@, "%n%"@, decimal((cfg.start_number + k) as nat))
}

/// What the `k`-th new account holds.
pub open spec fn is_bulk_account(
    a: Account,
    request: BulkCreateRequest,
    ids: Seq<Seq<char>>,
    k: int,
    v: Vault,
) -> bool {
    &&& a.id@ == ids[k]
    &&& a.label@ == bulk_label(request.account_config, k)
    &&& a.notes@ == request.account_config.notes@
    &&& str_views(a.tags@) == str_views(request.account_config.tags@)
    &&& str_views(a.linked_services@) == if request.link_services {
        config_links(
            request.service_configs@,
            label_number(a.label@),
            v.service_types@,
            v.services@,
        )
    } else {
        seq![]
    }
}

/// Appends `count` accounts numbered from `start_number`, the `k`-th with
/// identifier `ids[k]`, named from the template, and, when asked, linked to
/// the existing services that the service configs name for its number.
pub fn append_bulk_accounts(vault: &mut Vault, request: &BulkCreateRequest, ids: &Vec<String>)
    requires
        request.account_config.start_number + request.account_config.count <= u32::MAX + 1,
        ids@.len() == request.account_config.count,
    ensures
        only_accounts_changed(*old(vault), *final(vault)),
        bulk_appended(
            old(vault).accounts@,
            final(vault).accounts@,
            *request,
            str_views(ids@),
            *old(vault),
        ),
{
    let ghost v0 = *vault;
    let cfg = &request.account_config;
    let mut i: u32 = 0;
    proof {
        reveal_strlit("%n%");
    }
    while i < cfg.count
        invariant
            i <= cfg.count,
            cfg.start_number + cfg.count <= u32::MAX + 1,
            ids@.len() == cfg.count,
            *cfg == request.account_config,
            only_accounts_changed(v0, *vault),
            vault.accounts@.len() == v0.accounts@.len() + i,
            forall|k: int|
                0 <= k < v0.accounts@.len() ==> #[trigger] vault.accounts@[k] == v0.accounts@[k],
            forall|k: int|
                0 <= k < i ==> is_bulk_account(
                    #[trigger] vault.accounts@[v0.accounts@.len() + k],
                    *request,
                    str_views(ids@),
                    k,
                    v0,
                ),
        decreases cfg.count - i,
    {
        let number = cfg.start_number + i;
        let digits = u32_decimal(number);
        proof {
            reveal_strlit("%n%");
        }
        let label = replace_str(cfg.name_template.as_str(), "%n%", digits.as_str());
        let linked_services = if request.link_services {
            links_for(vault, &label, &request.service_configs)
        } else {
            Vec::new()
        };
        let tags = cfg.tags.clone();
        assert(tags@ =~= cfg.tags@);
        let account = Account { id: ids[i as usize].clone(), label, notes: cfg.notes.clone(), tags, linked_services };
        proof {
            if !request.link_services {
                assert(str_views(account.linked_services@) =~= seq![]);
            }
        }
        vault.accounts.push(account);
        i += 1;
    }
}

/// `after` is `before` followed by the accounts that `request` asks for.
pub open spec fn bulk_appended(
    before: Seq<Account>,
    after: Seq<Account>,
    request: BulkCreateRequest,
    ids: Seq<Seq<char>>,
    v: Vault,
) -> bool {
    &&& after.len() == before.len() + request.account_config.count
    &&& forall|k: int| 0 <= k < before.len() ==> #[trigger] after[k] == before[k]
    &&& forall|k: int|
        0 <= k < request.account_config.count ==> is_bulk_account(
            #[trigger] after[before.len() + k],
            request,
            ids,
            k,
            v,
        )
}

} // verus!
