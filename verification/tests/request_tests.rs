use create_license::attr::{AttrMap, AttrValue, StrMap};
use create_license::db::{
    code_from_indices, create_license_code, create_permanent_secret, license_code_attempt, license_code_candidate,
    license_key, CodeStep, CODE_CHARS,
};
use create_license::decrypted::{distinct_plugin_ids, BatchGetReply, BatchGetUtils, PrepareNext};
use create_license::input::{Decrypted, Plugin, COMPANY_TABLE_NAME, LICENSE_TABLE_NAME, PLUGINS_TABLE_NAME, USERS_TABLE_NAME};
use create_license::maps::{DecimalSum, N, S};

fn add_decimals(a: String, b: String) -> DecimalSum {
    let x = match a.parse::<f64>() {
        Ok(x) => x,
        Err(_) => return DecimalSum::FirstInvalid,
    };
    let y = match b.parse::<f64>() {
        Ok(y) => y,
        Err(_) => return DecimalSum::SecondInvalid,
    };
    DecimalSum::Sum((x + y).to_string())
}

fn plugin(id: &str, license_type: &str, quantity: Option<&str>, machine_limit: Option<&str>) -> Plugin {
    Plugin {
        id: id.to_string(),
        license_type: license_type.to_string(),
        quantity: quantity.map(|q| q.to_string()),
        machine_limit: machine_limit.map(|m| m.to_string()),
        subtotal: "10.5".to_string(),
        custom_success_message: None,
    }
}

fn request(company: &str, uuid: &str, plugins: Vec<Plugin>) -> Decrypted {
    Decrypted {
        company: company.to_string(),
        uuid: uuid.to_string(),
        plugins,
        order_id: "ORDER-1".to_string(),
        first_name: Some("Ann".to_string()),
        last_name: Some("Lee".to_string()),
        email: Some("hash".to_string()),
        user_item: None,
        company_item: None,
        plugin_items: None,
        license_index: None,
        license_item: None,
    }
}

fn is_code(s: &str, len: usize) -> bool {
    s.chars().count() == len && s.chars().all(|c| CODE_CHARS.contains(c))
}

#[test]
fn permanent_secret_has_five_code_characters() {
    for _ in 0..20 {
        assert!(is_code(&create_permanent_secret(), 5));
    }
}

#[test]
fn license_code_candidate_appends_twenty_characters() {
    let c = license_code_candidate("ACME");
    assert!(c.starts_with("ACME"));
    assert!(is_code(&c[4..], 20));
}

#[test]
fn license_key_has_index_and_all() {
    let k = license_key("IDX");
    assert_eq!(k.get_data("id1", S).unwrap(), "IDX");
    assert_eq!(k.get_data("id2", S).unwrap(), "all");
    assert_eq!(k.len(), 2);
}

fn encrypt_company(s: String) -> String {
    format!("ENC[{}]", s)
}

#[test]
fn license_code_attempt_encrypts_company_and_code() {
    let a = license_code_attempt("ACME", &encrypt_company);
    assert!(a.code.starts_with("ENC[ACME"));
    assert!(a.code.ends_with(']'));
    assert!(is_code(&a.code[8..28], 20));
    assert_eq!(a.code.len(), 29);
    assert_eq!(a.key.get_data("id1", S).unwrap(), a.code);
    assert_eq!(a.key.get_data("id2", S).unwrap(), "all");
    assert_eq!(a.key.len(), 2);
}

#[test]
fn create_license_code_decides_on_lookup() {
    let a = license_code_attempt("ACME", &encrypt_company);
    match create_license_code("ACME", &encrypt_company, &a, Ok(false)) {
        CodeStep::Done(c) => assert_eq!(c, a.code),
        other => panic!("unexpected {:?}", other),
    }
    assert!(matches!(create_license_code("ACME", &encrypt_company, &a, Ok(true)), CodeStep::Retry));
    match create_license_code("ACME", &encrypt_company, &a, Err("timeout".to_string())) {
        CodeStep::Failed(m) => assert_eq!(m, "Error 323: timeout"),
        other => panic!("unexpected {:?}", other),
    }
}

#[test]
fn validate_accepts_good_request() {
    let d = request("COMPANY1234", "UUID-12345678", vec![plugin("p", "perpetual", Some("1"), None)]);
    assert!(d.validate().is_ok());
}

#[test]
fn validate_lists_every_problem() {
    let d = request("SHORT", "uuid", vec![]);
    let e = d.validate().unwrap_err();
    assert_eq!(e.code(), 400);
    assert_eq!(e.message(), "Error: Invalid company, Invalid uuid, Missing plugin info.");
    let d2 = request("COMPANY1234567890", "UUID-12345678", vec![plugin("p", "t", None, None)]);
    assert_eq!(d2.validate().unwrap_err().message(), "Error: Invalid company");
}

#[test]
fn create_license_item_needs_index_and_email() {
    let mut d = request("COMPANY1234", "UUID-12345678", vec![]);
    let e = d.create_license_item().unwrap_err();
    assert_eq!((e.code(), e.message()), (500, "Error CLMR360q"));
    d.license_index = Some("IDX".to_string());
    let item = d.create_license_item().unwrap();
    assert_eq!(item.get_data("id1", S).unwrap(), "IDX");
    assert_eq!(item.get_data("id2", S).unwrap(), "all");
    assert_eq!(item.get_data("Email", S).unwrap(), "hash");
    assert_eq!(item.get_data("uuid", S).unwrap(), "UUID-12345678");
    assert!(is_code(&item.get_data("OfflineSecret", S).unwrap(), 5));
    assert_eq!(item.get_m("Plugins", "").unwrap().len(), 0);
    d.license_item = Some(item);
    assert_eq!(d.create_license_item().unwrap_err().message(), "Error CLMR357f");
}

#[test]
fn license_item_key_and_reply() {
    let mut d = request("COMPANY1234", "UUID-12345678", vec![]);
    assert_eq!(d.license_item_key().unwrap_err().message(), "Error CLMR347uj");
    d.license_index = Some("IDX".to_string());
    let k = d.license_item_key().unwrap();
    assert_eq!(k.get_data("id1", S).unwrap(), "IDX");
    assert_eq!(d.get_license_item(Err("down".to_string())).unwrap_err().message(), "Error CLMR337wr");
    assert_eq!(d.get_license_item(Ok(None)).unwrap_err().message(), "Error CLMR341fj");
    let item = AttrMap::new_map(vec![("id1", "IDX")]);
    let got = d.get_license_item(Ok(Some(item.deep_clone()))).unwrap();
    assert_eq!(got.get_data("id1", S).unwrap(), "IDX");
    d.license_item = Some(AttrMap::new());
    let e = d.get_license_item(Ok(Some(item.deep_clone()))).unwrap_err();
    assert_eq!((e.code(), e.message()), (500, "Error CLMR347uj"));
    let fresh = request("COMPANY1234", "UUID-12345678", vec![]);
    let e2 = fresh.get_license_item(Ok(Some(item))).unwrap_err();
    assert_eq!((e2.code(), e2.message()), (500, "Error CLMR347uj"));
}

fn user_with_orders(orders: Vec<&str>, index: Option<&str>) -> AttrMap {
    let mut u = AttrMap::new();
    let list: Vec<AttrValue> = orders.iter().map(|o| AttrValue::string(o.to_string())).collect();
    u.insert_l("orders", Some(list));
    if let Some(i) = index {
        u.insert_data("licenseIndex", i, S);
    }
    u.insert_map("licenses", None);
    u
}

#[test]
fn prepare_to_license_refuses_duplicate_orders() {
    let mut d = request("COMPANY1234", "UUID-12345678", vec![]);
    d.user_item = Some(user_with_orders(vec!["A", "ORDER-1"], Some("IDX")));
    let e = d.prepare_to_license().unwrap_err();
    assert_eq!((e.code(), e.message()), (425, "Error: duplicate order numbers"));
    assert!(d.license_index.is_none());
}

#[test]
fn prepare_to_license_for_existing_and_new_users() {
    let mut d = request("COMPANY1234", "UUID-12345678", vec![]);
    d.user_item = Some(user_with_orders(vec!["A"], Some("IDX")));
    assert!(matches!(d.prepare_to_license(), Ok(PrepareNext::ExistingUser)));
    assert_eq!(d.license_index.as_deref(), Some("IDX"));
    let mut no_index = request("COMPANY1234", "UUID-12345678", vec![]);
    no_index.user_item = Some(user_with_orders(vec![], None));
    let e = no_index.prepare_to_license().unwrap_err();
    assert_eq!(e.message(), "Oopsie whoopsy, there's been an error. CLM34");
    let mut fresh = request("COMPANY1234", "UUID-12345678", vec![]);
    assert!(matches!(fresh.prepare_to_license(), Ok(PrepareNext::NewUser)));
}

#[test]
fn prepare_existing_user_keeps_license_item() {
    let mut d = request("COMPANY1234", "UUID-12345678", vec![]);
    d.user_item = Some(user_with_orders(vec![], Some("IDX")));
    let item = AttrMap::new_map(vec![("id1", "IDX")]);
    let user = d.prepare_existing_user(Ok(item)).unwrap();
    assert_eq!(user.get_data("licenseIndex", S).unwrap(), "IDX");
    assert_eq!(d.license_item.as_ref().unwrap().get_data("id1", S).unwrap(), "IDX");
}

#[test]
fn prepare_new_user_builds_user_and_license() {
    let mut d = request("COMPANY1234", "UUID-12345678", vec![]);
    let e = d.prepare_new_user(Err("Error 323: down".to_string()), &encrypt_company).unwrap_err();
    assert_eq!((e.code(), e.message()), (500, "Error 323: down"));
    let user = d.prepare_new_user(Ok("CODE".to_string()), &encrypt_company).unwrap();
    assert_eq!(user.get_data("company", S).unwrap(), "ENC[COMPANY1234]");
    assert_eq!(user.get_data("emailHash", S).unwrap(), "hash");
    assert_eq!(user.get_data("licenseIndex", S).unwrap(), "CODE");
    assert_eq!(user.get_m("licenses", "").unwrap().len(), 0);
    assert_eq!(d.license_index.as_deref(), Some("CODE"));
    let license = d.license_item.as_ref().unwrap();
    assert_eq!(license.get_data("id1", S).unwrap(), "CODE");
}

#[test]
fn batch_get_keys_asks_for_each_table() {
    let d = request(
        "COMPANY1234",
        "UUID-12345678",
        vec![plugin("P1", "t", None, None), plugin("P2", "t", None, None), plugin("P1", "t", None, None)],
    );
    assert_eq!(distinct_plugin_ids(&d.plugins), vec!["P1".to_string(), "P2".to_string()]);
    let keys = d.batch_get_keys(&encrypt_company).unwrap();
    assert_eq!(keys.len(), 3);
    let company = keys.get(COMPANY_TABLE_NAME).unwrap();
    assert_eq!(company[0].get_data("id", S).unwrap(), "ENC[COMPANY1234]");
    let users = keys.get(USERS_TABLE_NAME).unwrap();
    assert_eq!(users[0].get_data("company", S).unwrap(), "COMPANY1234");
    assert_eq!(users[0].get_data("uuid", S).unwrap(), "UUID-12345678");
    let plugins = keys.get(PLUGINS_TABLE_NAME).unwrap();
    assert_eq!(plugins.len(), 2);
    assert_eq!(plugins[1].get_data("id", S).unwrap(), "P2");
}

#[test]
fn batch_get_keys_refusals() {
    let none = request("COMPANY1234", "UUID-12345678", vec![]);
    let e = none.batch_get_keys(&encrypt_company).unwrap_err();
    assert_eq!((e.code(), e.message()), (400, "missing plugin info."));
    let mut twice = request("COMPANY1234", "UUID-12345678", vec![plugin("P1", "t", None, None)]);
    twice.company_item = Some(AttrMap::new());
    let e2 = twice.batch_get_keys(&encrypt_company).unwrap_err();
    assert_eq!((e2.code(), e2.message()), (500, "self.batch_get() was called twice"));
}

fn decrypt_id(s: String) -> String {
    s.to_lowercase()
}

fn responses(company: Vec<AttrMap>, users: Option<Vec<AttrMap>>, plugins: Vec<AttrMap>) -> BatchGetReply {
    let mut m: StrMap<Vec<AttrMap>> = StrMap::new();
    m.insert(COMPANY_TABLE_NAME.to_string(), company);
    if let Some(u) = users {
        m.insert(USERS_TABLE_NAME.to_string(), u);
    }
    m.insert(PLUGINS_TABLE_NAME.to_string(), plugins);
    BatchGetReply::Responses(m)
}

#[test]
fn get_item_vec_map_reads_reply() {
    let e = BatchGetReply::Failed("throttled".to_string()).get_item_vec_map().unwrap_err();
    assert_eq!((e.code(), e.message()), (500, "Error CLBGU15: throttled"));
    let e2 = BatchGetReply::NoResponses.get_item_vec_map().unwrap_err();
    assert_eq!((e2.code(), e2.message()), (403, "Invalid request."));
    let ok = responses(vec![AttrMap::new()], None, vec![]).get_item_vec_map().unwrap();
    assert_eq!(ok.len(), 2);
}

#[test]
fn batch_get_fills_items() {
    let mut d = request("COMPANY1234", "UUID-12345678", vec![plugin("P1", "t", None, None)]);
    let company = AttrMap::new_map(vec![("publicKey", "KEY")]);
    let user = AttrMap::new_map(vec![("licenseIndex", "IDX")]);
    let p = AttrMap::new_map(vec![("id", "STORED-P1")]);
    let reply = responses(vec![company], Some(vec![user]), vec![p]);
    assert!(d.batch_get(reply, &decrypt_id).is_ok());
    assert_eq!(d.company_item.as_ref().unwrap().get_data("publicKey", S).unwrap(), "KEY");
    assert_eq!(d.user_item.as_ref().unwrap().get_data("licenseIndex", S).unwrap(), "IDX");
    let items = d.plugin_items.as_ref().unwrap();
    assert!(items.contains_key("stored-p1"));
}

#[test]
fn batch_get_errors() {
    let mut a = request("COMPANY1234", "UUID-12345678", vec![plugin("P1", "t", None, None)]);
    let e = a.batch_get(BatchGetReply::NoResponses, &decrypt_id).unwrap_err();
    assert_eq!(e.code(), 403);
    let mut b = request("COMPANY1234", "UUID-12345678", vec![plugin("P1", "t", None, None)]);
    let e2 = b.batch_get(responses(vec![], None, vec![]), &decrypt_id).unwrap_err();
    assert_eq!((e2.code(), e2.message()), (403, "Forbidden"));
    assert!(b.company_item.is_none());
    let mut c = request("COMPANY1234", "UUID-12345678", vec![plugin("P1", "t", None, None)]);
    let e3 = c.batch_get(responses(vec![AttrMap::new()], None, vec![]), &decrypt_id).unwrap_err();
    assert_eq!((e3.code(), e3.message()), (500, "Error CLMR222"));
    assert!(c.company_item.is_some());
    let mut d = request("COMPANY1234", "UUID-12345678", vec![plugin("P1", "t", None, None)]);
    let e4 = d
        .batch_get(responses(vec![AttrMap::new()], None, vec![AttrMap::new()]), &decrypt_id)
        .unwrap_err();
    assert_eq!(e4.message(), "Oopsie whoopsy, there's been an error. CLM34");
    let mut f = request("COMPANY1234", "UUID-12345678", vec![plugin("P1", "t", None, None)]);
    let p = AttrMap::new_map(vec![("id", "X")]);
    let e5 = f
        .batch_get(responses(vec![AttrMap::new()], Some(vec![AttrMap::new(), AttrMap::new()]), vec![p]), &decrypt_id)
        .unwrap_err();
    assert_eq!((e5.code(), e5.message()), (500, "Error CLMR212"));
    assert!(f.plugin_items.is_some());
    assert!(f.user_item.is_none());
}

#[test]
fn batch_get_refuses_second_call_and_no_plugins() {
    let mut twice = request("COMPANY1234", "UUID-12345678", vec![plugin("P1", "t", None, None)]);
    twice.company_item = Some(AttrMap::new_map(vec![("publicKey", "OLD")]));
    let reply = responses(vec![AttrMap::new()], None, vec![AttrMap::new_map(vec![("id", "P1")])]);
    let e = twice.batch_get(reply, &decrypt_id).unwrap_err();
    assert_eq!((e.code(), e.message()), (500, "self.batch_get() was called twice"));
    assert_eq!(twice.company_item.as_ref().unwrap().get_data("publicKey", S).unwrap(), "OLD");
    assert!(twice.plugin_items.is_none());
    let mut none = request("COMPANY1234", "UUID-12345678", vec![]);
    let e2 = none.batch_get(responses(vec![AttrMap::new()], None, vec![]), &decrypt_id).unwrap_err();
    assert_eq!((e2.code(), e2.message()), (400, "missing plugin info."));
    assert!(none.company_item.is_none());
}

#[test]
fn batch_write_items_and_reply() {
    let mut d = request("COMPANY1234", "UUID-12345678", vec![]);
    d.user_item = Some(AttrMap::new_map(vec![("uuid", "U")]));
    d.license_item = Some(AttrMap::new_map(vec![("id1", "L")]));
    let items = d.batch_write_items();
    assert_eq!(items.get(LICENSE_TABLE_NAME).unwrap()[0].get_data("id1", S).unwrap(), "L");
    assert_eq!(items.get(USERS_TABLE_NAME).unwrap()[0].get_data("uuid", S).unwrap(), "U");
    assert!(Decrypted::batch_write(Ok(())).is_ok());
    let e = Decrypted::batch_write(Err("denied".to_string())).unwrap_err();
    assert_eq!((e.code(), e.message()), (500, "Error CLNB33: denied"));
}

#[test]
fn verify_signature_db_needs_company_item() {
    let d = request("COMPANY1234", "UUID-12345678", vec![]);
    let e = d.verify_signature_db("sig", "data").unwrap_err();
    assert_eq!((e.code(), e.message()), (403, "Forbidden"));
    let mut d2 = request("COMPANY1234", "UUID-12345678", vec![]);
    d2.company_item = Some(AttrMap::new());
    let e2 = d2.verify_signature_db_checked("sig", "data").unwrap().unwrap_err();
    assert_eq!(e2.message(), "Oopsie whoopsy, there's been an error. CLM34");
}

fn salt(s: String) -> String {
    format!("salt:{}", s)
}

fn encrypt_plugin(company: String, id: String) -> String {
    format!("{}/{}", company, id)
}

#[test]
fn new_normalizes_request() {
    let mut raw = request(" company-1234 ", "UUID-12345678", vec![plugin("p-1 x", "perpetual", Some("1"), None)]);
    raw.first_name = None;
    raw.email = None;
    let d = Decrypted::new(raw, &salt, &encrypt_plugin).unwrap();
    assert_eq!(d.company, "COMPANY1234");
    assert_eq!(d.first_name.as_deref(), Some("Not disclosed"));
    assert_eq!(d.last_name.as_deref(), Some("Lee"));
    assert_eq!(d.email.as_deref(), Some("Not disclosed"));
    assert_eq!(d.plugins[0].id, "COMPANY1234/P1X");
    assert_eq!(d.plugins[0].license_type, "perpetual");
}

#[test]
fn new_hashes_email_and_validates() {
    let raw = request("COMPANY1234", "UUID-12345678", vec![plugin("p", "t", None, None)]);
    let mut raw2 = raw;
    raw2.email = Some("A.B+x@gmail.com".to_string());
    let d = Decrypted::new(raw2, &salt, &encrypt_plugin).unwrap();
    let h = d.email.unwrap();
    assert_eq!(h.len(), 128);
    assert!(h.chars().all(|c| c.is_ascii_digit() || ('a'..='f').contains(&c)));
    let bad = request("co", "UUID-12345678", vec![plugin("p", "t", None, None)]);
    let e = Decrypted::new(bad, &salt, &encrypt_plugin).unwrap_err();
    assert_eq!((e.code(), e.message()), (400, "Error: Invalid company"));
}

fn plugin_items(max: &str) -> StrMap<AttrMap> {
    let mut items: StrMap<AttrMap> = StrMap::new();
    let mut entry = AttrMap::new();
    entry.insert_data("MaxMachinesPerLicense", max, N);
    items.insert("p1".to_string(), entry);
    items
}

/// A request whose user already holds a license of type `current` for p1.
fn existing_request(plugins: Vec<Plugin>, current: &str) -> (Decrypted, AttrMap) {
    let mut d = request("COMPANY1234", "UUID-12345678", plugins);
    d.plugin_items = Some(plugin_items("2"));
    let mut entry = AttrMap::new();
    entry.insert_data("license_type", current, S);
    entry.insert_map("machines", None);
    let mut plugins_map = AttrMap::new();
    plugins_map.insert_map("p1", Some(entry));
    let mut license = AttrMap::new();
    license.insert_map("Plugins", Some(plugins_map));
    d.license_item = Some(license);
    let mut ul = AttrMap::new();
    ul.insert_map("machines", None);
    let mut licenses = AttrMap::new();
    licenses.insert_map("p1", Some(ul));
    let mut user = AttrMap::new();
    user.insert_map("licenses", Some(licenses));
    (d, user)
}

fn decrypt_product(s: String) -> String {
    s.trim_start_matches("ENC-").to_lowercase()
}

fn new_user() -> AttrMap {
    let mut u = AttrMap::new();
    u.insert_map("licenses", None);
    u
}

#[test]
fn update_license_data_renews_existing_product() {
    let (mut d, user) = existing_request(vec![plugin("ENC-P1", "Perpetual", Some("3"), None)], "perpetual");
    assert!(d.update_license_data(Ok(user), &decrypt_product, &add_decimals).is_ok());
    let user = d.user_item.as_ref().unwrap();
    let licenses = user.get_m("licenses", "").unwrap();
    let ul = licenses.get_m("p1", "").unwrap();
    assert_eq!(ul.get_data("license_type", S).unwrap(), "Perpetual");
    assert_eq!(ul.get_data("subtotal", N).unwrap(), "10.5");
    let plugins = d.license_item.as_ref().unwrap().get_m("Plugins", "").unwrap();
    let lp = plugins.get_m("p1", "").unwrap();
    assert_eq!(lp.get_data("MachinesAllowed", N).unwrap(), "6");
    assert_eq!(lp.get_data("FirstName", S).unwrap(), "Ann");
    assert_eq!(lp.get_data("OrderID", S).unwrap(), "ORDER-1");
    assert_eq!(lp.get("LicenseActive").unwrap().bool, Some(true));
}

#[test]
fn update_license_data_records_first_purchase() {
    let mut d = request("COMPANY1234", "UUID-12345678", vec![plugin("ENC-P1", "perpetual", Some("3"), None)]);
    d.plugin_items = Some(plugin_items("2"));
    let mut license = AttrMap::new();
    license.insert_map("Plugins", None);
    d.license_item = Some(license);
    assert!(d.update_license_data(Ok(new_user()), &decrypt_product, &add_decimals).is_ok());
    let licenses = d.user_item.as_ref().unwrap().get_m("licenses", "").unwrap();
    let ul = licenses.get_m("p1", "").unwrap();
    assert_eq!(ul.get_m("machines", "").unwrap().len(), 0);
    assert_eq!(ul.get_data("license_type", S).unwrap(), "perpetual");
    assert_eq!(ul.get_data("subtotal", N).unwrap(), "10.5");
    let plugins = d.license_item.as_ref().unwrap().get_m("Plugins", "").unwrap();
    let lp = plugins.get_m("p1", "").unwrap();
    assert_eq!(lp.get_data("MachinesAllowed", N).unwrap(), "6");
    assert_eq!(lp.get_data("LicenseType", S).unwrap(), "perpetual");
    assert_eq!(lp.get_data("OrderID", S).unwrap(), "ORDER-1");
}

#[test]
fn update_license_data_errors() {
    let (mut d, user) = existing_request(vec![plugin("ENC-P1", "perpetual", None, None)], "perpetual");
    let e = d.update_license_data(Ok(user), &decrypt_product, &add_decimals).unwrap_err();
    assert_eq!((e.code(), e.message()), (400, "Error: product quantity or machine_limit must be set."));
    let (mut d2, _) = existing_request(vec![plugin("ENC-P1", "perpetual", Some("1"), None)], "perpetual");
    let e2 = d2.update_license_data(Ok(AttrMap::new()), &decrypt_product, &add_decimals).unwrap_err();
    assert_eq!(e2.message(), "Error M24, Error CLMR347e");
    let (mut d3, user3) = existing_request(vec![plugin("ENC-P1", "perpetual", Some("x"), None)], "perpetual");
    let e3 = d3.update_license_data(Ok(user3), &decrypt_product, &add_decimals).unwrap_err();
    assert_eq!(e3.message(), "Error CLU72");
    let (mut d4, _) = existing_request(vec![plugin("ENC-P1", "perpetual", Some("1"), None)], "perpetual");
    let passed = d4.update_license_data(Err(create_license::error::HttpError::new(418, "teapot")), &decrypt_product, &add_decimals);
    assert_eq!(passed.unwrap_err().code(), 418);
    let (mut d5, user5) = existing_request(vec![plugin("ENC-P1", "perpetual", Some("1"), None)], "perpetual");
    d5.plugin_items = None;
    let e5 = d5.update_license_data(Ok(user5), &decrypt_product, &add_decimals).unwrap_err();
    assert_eq!((e5.code(), e5.message()), (400, "Error CLMR385g"));
}

#[test]
fn update_refuses_second_trial() {
    let (mut d, user) = existing_request(vec![plugin("ENC-P1", "TRIAL", Some("1"), None)], "trial");
    let e = d.update_license_data(Ok(user), &decrypt_product, &add_decimals).unwrap_err();
    assert_eq!((e.code(), e.message()), (403, "Forbidden. Previous license found."));
}

#[test]
fn update_refuses_subscription_after_perpetual() {
    let (mut d, user) = existing_request(vec![plugin("ENC-P1", "Subscription", Some("1"), None)], "Perpetual");
    let e = d.update_license_data(Ok(user), &decrypt_product, &add_decimals).unwrap_err();
    assert_eq!((e.code(), e.message()), (500, "Error: Cannot switch to subscription from a perpetual license."));
}

#[test]
fn update_switch_keeps_count_not_increased() {
    let (mut d, user) = existing_request(vec![plugin("ENC-P1", "online", None, Some("4"))], "offline");
    assert!(d.update_license_data(Ok(user), &decrypt_product, &add_decimals).is_ok());
    let plugins = d.license_item.as_ref().unwrap().get_m("Plugins", "").unwrap();
    let lp = plugins.get_m("p1", "").unwrap();
    assert_eq!(lp.get_data("MachinesAllowed", N).unwrap(), "4");
    assert_eq!(lp.get_data("LicenseType", S).unwrap(), "online");
}

#[test]
fn update_covers_every_product() {
    let (mut d, user) = existing_request(
        vec![plugin("ENC-P1", "perpetual", Some("1"), None), plugin("ENC-P1", "perpetual", None, Some("4"))],
        "perpetual",
    );
    assert!(d.update_license_data(Ok(user), &decrypt_product, &add_decimals).is_ok());
    let licenses = d.user_item.as_ref().unwrap().get_m("licenses", "").unwrap();
    assert!(licenses.contains_key("p1"));
    let plugins = d.license_item.as_ref().unwrap().get_m("Plugins", "").unwrap();
    assert!(plugins.contains_key("p1"));
    let ul = licenses.get_m("p1", "").unwrap();
    assert_eq!(ul.get_data("subtotal", N).unwrap(), "21");
}

#[test]
fn update_runs_tells_overflowing_counts() {
    let (d, user) = existing_request(vec![plugin("ENC-P1", "perpetual", Some("3"), None)], "perpetual");
    assert!(d.update_runs(&user, &decrypt_product, &add_decimals));
    let (big, user2) = existing_request(vec![plugin("ENC-P1", "perpetual", Some("40000"), None)], "perpetual");
    assert!(!big.update_runs(&user2, &decrypt_product, &add_decimals));
    let (mut nameless, user3) = existing_request(vec![plugin("ENC-P1", "perpetual", Some("1"), None)], "perpetual");
    nameless.first_name = None;
    assert!(!nameless.update_runs(&user3, &decrypt_product, &add_decimals));
    let (refused, user4) = existing_request(vec![plugin("ENC-P1", "trial", Some("40000"), None)], "perpetual");
    assert!(refused.update_runs(&user4, &decrypt_product, &add_decimals));
}

#[test]
fn code_from_indices_picks_code_characters() {
    assert_eq!(code_from_indices(&vec![0, 25, 1]), "B9C");
    assert_eq!(code_from_indices(&vec![]), "");
}
