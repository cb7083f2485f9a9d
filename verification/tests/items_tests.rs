use create_license::attr::{AttrMap, AttrValue, StrMap};
use create_license::error::HttpError;
use create_license::input::{MagicalProcess, RequestParts};
use create_license::license::{License, Machine, Plugin};
use create_license::maps::{DecimalSum, N, S};
use create_license::text::{clean_email, cleanse, parse_u16, u16_to_string, Comparing};

fn add_decimals(a: String, b: String) -> DecimalSum {
    let x = match a.parse::<f64>() {
        Ok(x) => x,
        Err(_) => return DecimalSum::FirstInvalid,
    };
    let y = match b.parse::<f64>() {
        Ok(y) => y,
        Err(_) => return DecimalSum::SecondInvalid,
    };
    DecimalSum::Sum((x + y).to_string())
}

fn string_of(m: &AttrMap, key: &str) -> String {
    m.get_data(key, S).unwrap()
}

#[test]
fn http_error_new_keeps_code_and_message() {
    let e = HttpError::new(404, "missing");
    assert_eq!(e.code(), 404);
    assert_eq!(e.message(), "missing");
}

#[test]
fn http_error_202_wraps_message() {
    let e = HttpError::new(500, "boom")._202("CLM51g");
    assert_eq!(e.code(), 202);
    assert_eq!(
        e.message(),
        "We encountered an error, but your request went through. Error CLM51g:boom"
    );
}

#[test]
fn respond_code_zero_answers_500_with_full_message_in_debug_mode() {
    let (code, body) = HttpError::new(0, "Error R41: details").respond();
    assert_eq!(code, 500);
    assert_eq!(body, "Error R41: details");
    let (code2, body2) = HttpError::new(403, "Forbidden").respond();
    assert_eq!(code2, 403);
    assert_eq!(body2, "Forbidden");
}

#[test]
fn debug_text_matches_derived_debug() {
    let e = HttpError::new(500, "Error CLV27: Invalid padding");
    assert_eq!(
        e.debug_text(),
        "HttpError { code: 500, message: \"Error CLV27: Invalid padding\" }"
    );
}

#[test]
fn cleanse_keeps_letters_and_digits_uppercased() {
    assert_eq!(cleanse("ab-c 12_x!", "", true), "ABC12X");
    assert_eq!(cleanse("ab-c 12_x!", "", false), "abc12x");
    assert_eq!(cleanse("a-b_c", "-", true), "A-BC");
    assert_eq!(cleanse("", "", true), "");
}

#[test]
fn cleanse_twice_is_cleanse_once() {
    let once = cleanse("My Store #42", "", true);
    assert_eq!(cleanse(&once, "", true), once);
}

#[test]
fn clean_email_twice_is_clean_email_once() {
    for input in ["j.o.h.n+shop+x@gmail.com", "+a.b@gmail.com", "a@b@gmail.com", "x.y@example.com"] {
        let once = clean_email(input);
        assert_eq!(clean_email(&once), once);
    }
}

#[test]
fn clean_email_strips_gmail_dots_and_tags() {
    assert_eq!(clean_email("j.o.h.n+shop@gmail.com"), "john@gmail.com");
    assert_eq!(clean_email("jane.doe@gmail.com"), "janedoe@gmail.com");
    assert_eq!(clean_email("j.o.h.n+shop@example.com"), "j.o.h.n+shop@example.com");
}

#[test]
fn exists_in_finds_listed_words() {
    assert!("perpetual".exists_in(vec!["perpetual", "online", "offline"]));
    assert!(!"subscription".exists_in(vec!["perpetual", "online", "offline"]));
    assert!(String::from("online").exists_in(vec!["perpetual", "online"]));
}

#[test]
fn parse_u16_reads_decimal_counts() {
    assert_eq!(parse_u16("42"), Some(42));
    assert_eq!(parse_u16("+7"), Some(7));
    assert_eq!(parse_u16("65535"), Some(65535));
    assert_eq!(parse_u16("65536"), None);
    assert_eq!(parse_u16(""), None);
    assert_eq!(parse_u16("4x"), None);
    assert_eq!(parse_u16("-1"), None);
}

#[test]
fn decimal_round_trip_on_values() {
    for n in [0u16, 9, 10, 99, 1000, 65535] {
        assert_eq!(u16_to_string(n), n.to_string());
        assert_eq!(parse_u16(&u16_to_string(n)), Some(n));
    }
}

#[test]
fn str_map_insert_returns_former_value_and_keeps_order() {
    let mut m: StrMap<u32> = StrMap::new();
    assert_eq!(m.insert("a".to_string(), 1), None);
    assert_eq!(m.insert("b".to_string(), 2), None);
    assert_eq!(m.insert("a".to_string(), 3), Some(1));
    assert_eq!(m.len(), 2);
    assert_eq!(m.get("a"), Some(&3));
    assert!(m.contains_key("b"));
    assert!(!m.contains_key("c"));
    assert_eq!(m.entries[0].0, "a");
}

#[test]
fn insert_data_then_get_data_reads_it_back() {
    let mut m = AttrMap::new();
    assert!(m.insert_data("name", "Ann", S).is_none());
    assert!(m.insert_data("count", "3", N).is_none());
    let old = m.insert_data("name", "Bob", S).unwrap();
    assert_eq!(old.s.as_deref(), Some("Ann"));
    assert_eq!(m.get_data("name", S).unwrap(), "Bob");
    assert_eq!(m.get_data("count", N).unwrap(), "3");
    assert!(m.insert_data("x", "1", 'q').is_none());
    assert!(!m.contains_key("x"));
}

#[test]
fn get_data_errors() {
    let m = AttrMap::new_map(vec![("name", "Ann")]);
    let e = m.get_data("missing", S).unwrap_err();
    assert_eq!(e.code(), 500);
    assert_eq!(e.message(), "Oopsie whoopsy, there's been an error. CLM34");
    let e2 = m.get_data("name", N).unwrap_err();
    assert_eq!(e2.message(), "Oopsie whoopsie. Let us know you hit this error, pls. CLM38");
    let e3 = m.get_data("name", 'x').unwrap_err();
    assert_eq!(e3.message(), "Error CLMU160");
}

#[test]
fn insert_map_then_get_m() {
    let mut m = AttrMap::new();
    m.insert_map("licenses", None);
    let inner = m.get_m("licenses", "E").unwrap();
    assert_eq!(inner.len(), 0);
    let mut sub = AttrMap::new();
    sub.insert_data("k", "v", S);
    m.insert_map("licenses", Some(sub));
    let inner2 = m.get_m("licenses", "E").unwrap();
    assert_eq!(string_of(&inner2, "k"), "v");
    let e = m.get_m("absent", "CLX").unwrap_err();
    assert_eq!(e.message(), "Error M24, CLX");
    m.insert_data("text", "t", S);
    let e2 = m.get_m("text", "CLY").unwrap_err();
    assert_eq!(e2.message(), "Error M22, CLY");
}

#[test]
fn insert_bool_and_list() {
    let mut m = AttrMap::new();
    m.insert_bool("LicenseActive", Some(true));
    m.insert_l("Online", None);
    assert_eq!(m.get("LicenseActive").unwrap().bool, Some(true));
    assert_eq!(m.get("Online").unwrap().l.as_ref().unwrap().len(), 0);
    m.insert_l("Online", Some(vec![AttrValue::string("pc".to_string())]));
    assert_eq!(m.get("Online").unwrap().l.as_ref().unwrap().len(), 1);
}

#[test]
fn insert_strings_returns_copy_and_new_map_builds_item() {
    let mut m = AttrMap::new();
    let copy = m.insert_strings(vec![("a", "1"), ("b", "2"), ("a", "3")]);
    assert_eq!(string_of(&m, "a"), "3");
    assert_eq!(string_of(&copy, "b"), "2");
    assert_eq!(m.len(), 2);
    let n = AttrMap::new_map(vec![("id1", "X"), ("id2", "all")]);
    assert_eq!(string_of(&n, "id2"), "all");
}

#[test]
fn increase_number_sets_then_adds() {
    let mut m = AttrMap::new();
    assert!(m.increase_number("MachinesAllowed", 3).is_ok());
    assert_eq!(m.get_data("MachinesAllowed", N).unwrap(), "3");
    assert!(m.increase_number("MachinesAllowed", 4).is_ok());
    assert_eq!(m.get_data("MachinesAllowed", N).unwrap(), "7");
}

#[test]
fn increase_number_on_bad_number_errs() {
    let mut m = AttrMap::new();
    m.insert_data("n", "abc", N);
    let e = m.increase_number("n", 2).unwrap_err();
    assert_eq!(e.code(), 500);
    assert_eq!(e.message(), "Error CLMA63dw; key=n");
    assert_eq!(m.get_data("n", N).unwrap(), "2");
}

#[test]
fn increase_float_adds_decimals() {
    let mut m = AttrMap::new();
    assert!(m.increase_float("subtotal", "1.5", &add_decimals).is_ok());
    assert_eq!(m.get_data("subtotal", N).unwrap(), "1.5");
    assert!(m.increase_float("subtotal", "2.25", &add_decimals).is_ok());
    assert_eq!(m.get_data("subtotal", N).unwrap(), "3.75");
    let e = m.increase_float("subtotal", "x", &add_decimals).unwrap_err();
    assert_eq!(e.message(), "Error CLM76b");
}

#[test]
fn append_string_joins_with_commas() {
    let mut m = AttrMap::new();
    assert!(m.append_string("orders", "A1").is_ok());
    assert!(m.append_string("orders", "B2").is_ok());
    assert_eq!(string_of(&m, "orders"), "A1,B2");
}

#[test]
fn insert_license_fills_license_entry() {
    let mut lp = AttrMap::new();
    let r = lp
        .insert_license(None, "Ann", "Lee", "perpetual", 2, "ORD-1", false)
        .unwrap();
    assert_eq!(string_of(&lp, "FirstName"), "Ann");
    assert_eq!(string_of(&lp, "CustomSuccess"), "");
    assert!(!lp.contains_key("MachinesAllowed"));
    assert_eq!(r.get_data("MachinesAllowed", N).unwrap(), "2");
    assert_eq!(string_of(&r, "OrderID"), "ORD-1");
    assert_eq!(r.get("LicenseActive").unwrap().bool, Some(true));
    assert_eq!(r.get("SubscriptionActive").unwrap().bool, Some(true));
    assert_eq!(r.get("Offline").unwrap().l.as_ref().unwrap().len(), 0);
    let mut lp2 = AttrMap::new();
    lp2.insert_data("MachinesAllowed", "5", N);
    let r2 = lp2
        .insert_license(Some("Thanks!".to_string()), "A", "B", "perpetual", 2, "O", true)
        .unwrap();
    assert_eq!(r2.get_data("MachinesAllowed", N).unwrap(), "7");
    assert_eq!(string_of(&r2, "CustomSuccess"), "Thanks!");
}

#[test]
fn machine_and_plugin_constructors() {
    let m = Machine::new("m1", "PC", "linux");
    assert_eq!(m.computer_name, "PC");
    let mut p = Plugin::new("p1", "3", "perpetual");
    assert_eq!(p.machines.len(), 0);
    p.add_machine(m);
    assert_eq!(p.machines.len(), 1);
    assert_eq!(p.max_machines, "3");
    let mut l = License::new("CODE");
    l.add_plugin(p);
    assert_eq!(l.code, "CODE");
    assert_eq!(l.plugins.len(), 1);
}

fn machine_node(name: Option<&str>, os: Option<&str>) -> AttrValue {
    let mut node = AttrMap::new();
    if let Some(n) = name {
        node.insert_data("computer_name", n, S);
    }
    if let Some(o) = os {
        node.insert_data("os", o, S);
    }
    AttrValue::map(node)
}

#[test]
fn add_machines_reads_each_machine() {
    let mut map = AttrMap::new();
    map.insert("m1".to_string(), machine_node(Some("PC"), Some("win")));
    map.insert("m2".to_string(), machine_node(Some("Mac"), Some("mac")));
    let mut p = Plugin::new("p", "2", "perpetual");
    assert!(p.add_machines(map).is_ok());
    assert_eq!(p.machines.len(), 2);
    assert_eq!(p.machines[1].id, "m2");
    assert_eq!(p.machines[1].os, "mac");
}

#[test]
fn add_machines_errors_on_missing_fields() {
    let mut map = AttrMap::new();
    map.insert("m1".to_string(), machine_node(None, Some("win")));
    let mut p = Plugin::new("p", "2", "perpetual");
    assert_eq!(p.add_machines(map).unwrap_err(), "Error GL45e");
    let mut map2 = AttrMap::new();
    map2.insert("m1".to_string(), machine_node(Some("PC"), None));
    let mut p2 = Plugin::new("p", "2", "perpetual");
    assert_eq!(p2.add_machines(map2).unwrap_err(), "Error GL51g");
}

fn license_entry(max: Option<&str>, lt: Option<&str>, machines: Option<AttrMap>) -> AttrValue {
    let mut node = AttrMap::new();
    if let Some(m) = max {
        node.insert_data("maxMachines", m, N);
    }
    if let Some(t) = lt {
        node.insert_data("license_type", t, S);
    }
    if let Some(ms) = machines {
        node.insert_map("machines", Some(ms));
    }
    AttrValue::map(node)
}

#[test]
fn init_license_builds_plugins() {
    let mut machines = AttrMap::new();
    machines.insert("m1".to_string(), machine_node(Some("PC"), Some("win")));
    let mut user_licenses = AttrMap::new();
    user_licenses.insert("plug".to_string(), license_entry(Some("2"), Some("perpetual"), Some(machines)));
    let l = License::init_license("CODE", user_licenses).unwrap();
    assert_eq!(l.code, "CODE");
    assert_eq!(l.plugins.len(), 1);
    assert_eq!(l.plugins[0].id, "plug");
    assert_eq!(l.plugins[0].max_machines, "2");
    assert_eq!(l.plugins[0].machines.len(), 1);
}

#[test]
fn init_license_errors() {
    let mut a = AttrMap::new();
    a.insert("p".to_string(), license_entry(None, Some("t"), Some(AttrMap::new())));
    assert_eq!(License::init_license("C", a).unwrap_err().message(), "Error GLU056");
    let mut b = AttrMap::new();
    b.insert("p".to_string(), license_entry(Some("1"), None, Some(AttrMap::new())));
    assert_eq!(License::init_license("C", b).unwrap_err().message(), "Error GLU062");
    let mut c = AttrMap::new();
    c.insert("p".to_string(), license_entry(Some("1"), Some("t"), None));
    assert_eq!(License::init_license("C", c).unwrap_err().message(), "Error GLU070");
    let mut bad = AttrMap::new();
    bad.insert("m".to_string(), machine_node(None, Some("x")));
    let mut d = AttrMap::new();
    d.insert("p".to_string(), license_entry(Some("1"), Some("t"), Some(bad)));
    let e = License::init_license("C", d).unwrap_err();
    assert_eq!(e.code(), 500);
    assert_eq!(e.message(), "Error GL45e");
}

#[test]
fn extract_json_accepts_only_plain_posts() {
    let get = RequestParts { is_post: false, has_query_string: false, body_text: Some("{}".to_string()) };
    let e = get.extract_json().unwrap_err();
    assert_eq!((e.code(), e.message()), (403, "Only POST Requests allowed."));
    let query = RequestParts { is_post: true, has_query_string: true, body_text: Some("{}".to_string()) };
    let e2 = query.extract_json().unwrap_err();
    assert_eq!((e2.code(), e2.message()), (403, "Query strings shall not pass."));
    let empty = RequestParts { is_post: true, has_query_string: false, body_text: None };
    let e3 = empty.extract_json().unwrap_err();
    assert_eq!((e3.code(), e3.message()), (400, "Body has no text contents."));
    let ok = RequestParts { is_post: true, has_query_string: false, body_text: Some("{\"a\":1}".to_string()) };
    assert_eq!(ok.extract_json().unwrap(), "{\"a\":1}");
}

#[test]
fn can_init_tells_unreadable_licenses() {
    let mut good = AttrMap::new();
    good.insert("p".to_string(), license_entry(Some("1"), Some("t"), Some(AttrMap::new())));
    assert!(License::can_init(&good));
    let mut bad = AttrMap::new();
    bad.insert("p".to_string(), AttrValue::string("not a map".to_string()));
    assert!(!License::can_init(&bad));
    let mut missing = AttrMap::new();
    missing.insert("p".to_string(), license_entry(None, Some("t"), Some(AttrMap::new())));
    assert!(License::can_init(&missing));
    let mut machine_text = AttrMap::new();
    machine_text.insert("m".to_string(), AttrValue::string("x".to_string()));
    let mut bad_machines = AttrMap::new();
    bad_machines.insert("p".to_string(), license_entry(Some("1"), Some("t"), Some(machine_text)));
    assert!(!License::can_init(&bad_machines));
}
