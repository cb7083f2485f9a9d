use vstd::prelude::*;

use crate::attr::{lookup, m_model, put, s_model, l_model, AttrMap, MapModel, StrMap, lemma_key_index_facts, lemma_mv_key_index};
use crate::error::HttpError;
use crate::input::{items_model, Decrypted, Plugin};
use crate::maps::{
    float_sum_for, get_data_spec, get_m_spec, increase_float_ok, increase_float_spec,
    increase_number_ok, license_spec, license_strings, opt_str_view, put_strings, sum_is_function,
    DecimalSum, ErrModel,
};
use crate::textfn::{apply_text, text_fn_ok, text_of};
use crate::text::{
    eq_ignore_ascii_case, eq_ignore_ascii_case_spec, parse_u16, parse_u16_spec, push_str,
    to_lowercase, unicode_lowercase, Comparing,
};

verus! {

/// A license type that cannot be followed by a subscription.
pub open spec fn is_permanent_type(t: Seq<char>) -> bool {
    t == "perpetual"@ || t == "online"@ || t == "offline"@
}

/// How a purchased product meets the user's existing license for it: the
/// user's license entry, the license's plugin entry, whether the machine
/// count adds up and whether the license existed, or the error that stops
/// the update. A product bought for the first time starts from a user entry
/// with no machines and an empty plugin entry.
pub open spec fn existing_spec(uil: MapModel, lp: MapModel, p: Plugin, pid: Seq<char>) -> Result<(MapModel, MapModel, bool, bool), ErrModel> {
    let ur = get_m_spec(uil, pid, Seq::empty());
    let lr = get_m_spec(lp, pid, Seq::empty());
    if (ur is Ok) != (lr is Ok) {
        Err((500u16, "Error CLNIDU57g"@))
    } else if ur is Ok {
        match get_data_spec(lr->Ok_0, "license_type"@, 's') {
            Err(e) => Err(e),
            Ok(t) => {
                let current = unicode_lowercase(t);
                if eq_ignore_ascii_case_spec(p.license_type@, "trial"@) {
                    Err((403u16, "Forbidden. Previous license found."@))
                } else if !eq_ignore_ascii_case_spec(p.license_type@, current) {
                    if eq_ignore_ascii_case_spec(p.license_type@, "subscription"@) && is_permanent_type(current) {
                        Err((500u16, "Error: Cannot switch to subscription from a "@ + current + " license."@))
                    } else {
                        Ok((ur->Ok_0, lr->Ok_0, false, true))
                    }
                } else {
                    Ok((ur->Ok_0, lr->Ok_0, true, true))
                }
            },
        }
    } else {
        Ok((put(Seq::empty(), "machines"@, m_model(Seq::empty())), Seq::empty(), false, false))
    }
}

/// The number of machines bought, the error that stops the update, or a
/// panic on an overflowing product.
pub enum Purchased {
    Count(u16),
    Error(ErrModel),
    Panics,
}

/// How many machines a product pays for: its machine limit, or its quantity
/// times the plugin's machines per license.
pub open spec fn purchased_spec(items: Seq<(Seq<char>, MapModel)>, p: Plugin, pid: Seq<char>) -> Purchased {
    match lookup(items, pid) {
        None => Purchased::Error((500u16, "Error CLMR394v"@)),
        Some(plugin_db) => match get_data_spec(plugin_db, "MaxMachinesPerLicense"@, 'n') {
            Err(e) => Purchased::Error(e),
            Ok(t) => match parse_u16_spec(t) {
                None => Purchased::Error((500u16, "Error CLMR405f"@)),
                Some(max_machines) => match p.machine_limit {
                    Some(ml) => match parse_u16_spec(ml@) {
                        None => Purchased::Error((500u16, "Error CLDU133i"@)),
                        Some(c) => Purchased::Count(c),
                    },
                    None => match p.quantity {
                        None => Purchased::Error((400u16, "Error: product quantity or machine_limit must be set."@)),
                        Some(q) => match parse_u16_spec(q@) {
                            None => Purchased::Error((500u16, "Error CLU72"@)),
                            Some(qv) => if qv * max_machines <= 65535 {
                                Purchased::Count((qv * max_machines) as u16)
                            } else {
                                Purchased::Panics
                            },
                        },
                    },
                },
            },
        },
    }
}

/// The outcome of updating the license of one product.
pub enum StepOut {
    /// The user's license entry and the license's plugin entry after the update.
    Maps(MapModel, MapModel),
    Error(ErrModel),
    Panics,
}

/// The user's license entry before its subtotal is increased.
pub open spec fn user_license_before_sum(ul: MapModel, too_many: bool, p: Plugin) -> MapModel {
    let ul1 = if too_many { put(ul, "machines"@, m_model(Seq::empty())) } else { ul };
    put(ul1, "license_type"@, s_model(p.license_type@))
}

/// The license's plugin entry before the license is written in it.
pub open spec fn license_plugin_before(lpl: MapModel, too_many: bool) -> MapModel {
    if too_many {
        put(put(lpl, "Online"@, l_model(Seq::empty())), "Offline"@, l_model(Seq::empty()))
    } else {
        lpl
    }
}

/// The machines registered on the license's plugin entry: those of its
/// `machines` map where the license existed, none for a first purchase.
pub open spec fn registered_machines(lpl: MapModel, existed: bool) -> Result<MapModel, ErrModel> {
    if existed {
        get_m_spec(lpl, "machines"@, "Error CLNIDU97"@)
    } else {
        Ok(Seq::empty())
    }
}

/// The end of the update of one product, once the existing entries and the
/// machine count are known.
pub open spec fn finish_spec<F: Fn(String, String) -> DecimalSum>(
    ul: MapModel,
    lpl: MapModel,
    existed: bool,
    should_increase: bool,
    count: u16,
    p: Plugin,
    first_name: Option<String>,
    last_name: Option<String>,
    order_id: Seq<char>,
    sum: F,
) -> StepOut {
    match registered_machines(lpl, existed) {
        Err(e) => StepOut::Error(e),
        Ok(machines) => {
            let too_many = machines.len() > count;
            let ul2 = user_license_before_sum(ul, too_many, p);
            let lpl1 = license_plugin_before(lpl, too_many);
            let base = put_strings(
                lpl1,
                license_strings(
                    opt_str_view(p.custom_success_message),
                    opt_str_view(first_name),
                    opt_str_view(last_name),
                    p.license_type@,
                    order_id,
                ),
            );
            if !increase_float_ok(ul2, "subtotal"@) || first_name is None || last_name is None || (should_increase
                && !increase_number_ok(base, "MachinesAllowed"@, count)) {
                StepOut::Panics
            } else {
                let incr = increase_float_spec(
                    ul2,
                    "subtotal"@,
                    p.subtotal@,
                    float_sum_for(sum, ul2, "subtotal"@, p.subtotal@),
                );
                match incr.1 {
                    Err(e) => StepOut::Error(e),
                    Ok(_) => match license_spec(base, count, should_increase) {
                        Err(e) => StepOut::Error(e),
                        Ok(lic) => StepOut::Maps(incr.0, lic),
                    },
                }
            }
        },
    }
}

/// The update of the license of one product.
pub open spec fn product_step<F: Fn(String, String) -> DecimalSum>(
    uil: MapModel,
    lp: MapModel,
    items: Seq<(Seq<char>, MapModel)>,
    p: Plugin,
    pid: Seq<char>,
    first_name: Option<String>,
    last_name: Option<String>,
    order_id: Seq<char>,
    sum: F,
) -> StepOut {
    match existing_spec(uil, lp, p, pid) {
        Err(e) => StepOut::Error(e),
        Ok((ul, lpl, should_increase, existed)) => match purchased_spec(items, p, pid) {
            Purchased::Error(e) => StepOut::Error(e),
            Purchased::Panics => StepOut::Panics,
            Purchased::Count(count) => finish_spec(ul, lpl, existed, should_increase, count, p, first_name, last_name, order_id, sum),
        },
    }
}

/// The state of the update after some products: the user's licenses and the
/// license's plugins, or the error that stopped it, or a panic.
pub enum Progress {
    At(MapModel, MapModel),
    Error(ErrModel),
    Panics,
}

/// The update after the first `n` products.
pub open spec fn products_fold<F: Fn(String, String) -> DecimalSum>(
    uil: MapModel,
    lp: MapModel,
    items: Seq<(Seq<char>, MapModel)>,
    products: Seq<Plugin>,
    pids: Seq<Seq<char>>,
    n: nat,
    first_name: Option<String>,
    last_name: Option<String>,
    order_id: Seq<char>,
    sum: F,
) -> Progress
    decreases n,
{
    if n == 0 {
        Progress::At(uil, lp)
    } else {
        match products_fold(uil, lp, items, products, pids, (n - 1) as nat, first_name, last_name, order_id, sum) {
            Progress::At(a, b) => match product_step(
                a,
                b,
                items,
                products[n - 1],
                pids[n - 1],
                first_name,
                last_name,
                order_id,
                sum,
            ) {
                StepOut::Maps(ul, lic) => Progress::At(put(a, pids[n - 1], m_model(ul)), put(b, pids[n - 1], m_model(lic))),
                StepOut::Error(e) => Progress::Error(e),
                StepOut::Panics => Progress::Panics,
            },
            other => other,
        }
    }
}

/// The outcome of `update_license_data` on a user item: the new user item
/// and license item, the error, or a panic.
pub enum UpdateOutcome {
    Done(MapModel, MapModel),
    Error(ErrModel),
    Panics,
}

/// The plugin ids of the products: each product's id decrypted by `decrypt`.
pub open spec fn decrypted_ids<D: Fn(String) -> String>(products: Seq<Plugin>, decrypt: D) -> Seq<Seq<char>> {
    Seq::new(products.len(), |i: int| text_of(decrypt, products[i].id@))
}

/// What `update_license_data` does with the user item `ui` (when the user
/// item was read): `pids` are the plugin ids of the products.
pub open spec fn update_spec<F: Fn(String, String) -> DecimalSum>(d: Decrypted, ui: MapModel, pids: Seq<Seq<char>>, sum: F) -> UpdateOutcome {
    match d.plugin_items {
        None => UpdateOutcome::Error((400u16, "Error CLMR385g"@)),
        Some(items) => match get_m_spec(ui, "licenses"@, "Error CLMR347e"@) {
            Err(e) => UpdateOutcome::Error(e),
            Ok(uil) => match d.license_item {
                None => UpdateOutcome::Error((500u16, "Error CLNIDU27b"@)),
                Some(li) => match get_m_spec(li.mv(), "Plugins"@, "Error CLNIDU43"@) {
                    Err(e) => UpdateOutcome::Error(e),
                    Ok(lp) => match products_fold(
                        uil,
                        lp,
                        items_model(items),
                        d.plugins@,
                        pids,
                        d.plugins@.len(),
                        d.first_name,
                        d.last_name,
                        d.order_id@,
                        sum,
                    ) {
                        Progress::At(a, b) => UpdateOutcome::Done(put(ui, "licenses"@, m_model(a)), put(li.mv(), "Plugins"@, m_model(b))),
                        Progress::Error(e) => UpdateOutcome::Error(e),
                        Progress::Panics => UpdateOutcome::Panics,
                    },
                },
            },
        },
    }
}

proof fn lemma_items_key_index(m: StrMap<AttrMap>, k: Seq<char>)
    ensures
        lookup(items_model(m), k) == match lookup(m.kv(), k) {
            Some(v) => Some(v.mv()),
            None => None,
        },
{
    crate::attr::lemma_same_keys(m.kv(), items_model(m), k);
    lemma_key_index_facts(m.kv(), k);
}

fn existing_license(uil: &AttrMap, lp: &AttrMap, p: &Plugin, pid: &str) -> (r: Result<(AttrMap, AttrMap, bool, bool), HttpError>)
    ensures
        match existing_spec(uil.mv(), lp.mv(), *p, pid@) {
            Ok((a, b, c, e)) => r matches Ok((x, y, z, w)) && x.mv() == a && y.mv() == b && z == c && w == e,
            Err(e) => r matches Err(x) && x.is(e.0, e.1),
        },
{
    let user_plugin_result = uil.get_m(pid, "");
    let license_plugin_result = lp.get_m(pid, "");
    proof {
        reveal_strlit("");
    }
    assert(""@ =~= Seq::<char>::empty());
    let user_ok = user_plugin_result.is_ok();
    let license_ok = license_plugin_result.is_ok();
    if user_ok != license_ok {
        return Err(HttpError::new(500, "Error CLNIDU57g"));
    }
    if user_ok {
        let user_license = match user_plugin_result {
            Ok(m) => m,
            Err(e) => {
                return Err(e);
            },
        };
        let license_plugin = match license_plugin_result {
            Ok(m) => m,
            Err(e) => {
                return Err(e);
            },
        };
        let current_text = match license_plugin.get_data("license_type", 's') {
            Ok(t) => t,
            Err(e) => {
                return Err(e);
            },
        };
        let current = to_lowercase(current_text.as_str());
        if eq_ignore_ascii_case(p.license_type.as_str(), "trial") {
            Err(HttpError::new(403, "Forbidden. Previous license found."))
        } else if !eq_ignore_ascii_case(p.license_type.as_str(), current.as_str()) {
            if eq_ignore_ascii_case(p.license_type.as_str(), "subscription") {
                let kinds = vec!["perpetual", "online", "offline"];
                let permanent = current.as_str().exists_in(kinds);
                proof {
                    reveal_strlit("perpetual");
                    reveal_strlit("online");
                    reveal_strlit("offline");
                    if is_permanent_type(current@) {
                        if current@ == "perpetual"@ {
                            assert(kinds@[0]@ == current@);
                        } else if current@ == "online"@ {
                            assert(kinds@[1]@ == current@);
                        } else {
                            assert(kinds@[2]@ == current@);
                        }
                    }
                }
                if permanent {
                    let mut msg = String::from_str("Error: Cannot switch to subscription from a ");
                    push_str(&mut msg, current.as_str());
                    push_str(&mut msg, " license.");
                    return Err(HttpError::with_message(500, msg));
                }
            }
            Ok((user_license, license_plugin, false, true))
        } else {
            Ok((user_license, license_plugin, true, true))
        }
    } else {
        let mut user_license = StrMap::new();
        assert(user_license.mv() =~= Seq::empty());
        user_license.insert_map("machines", None);
        let license_plugin = StrMap::new();
        assert(license_plugin.mv() =~= Seq::empty());
        Ok((user_license, license_plugin, false, false))
    }
}


fn machines_purchased(items: &StrMap<AttrMap>, p: &Plugin, pid: &str) -> (r: Result<u16, HttpError>)
    requires
        !(purchased_spec(items_model(*items), *p, pid@) is Panics),
    ensures
        match purchased_spec(items_model(*items), *p, pid@) {
            Purchased::Count(c) => r == Ok::<u16, HttpError>(c),
            Purchased::Error(e) => r matches Err(x) && x.is(e.0, e.1),
            Purchased::Panics => false,
        },
{
    proof {
        lemma_items_key_index(*items, pid@);
    }
    let plugin_db = match items.get(pid) {
        Some(db) => db,
        None => {
            return Err(HttpError::new(500, "Error CLMR394v"));
        },
    };
    let max_text = match plugin_db.get_data("MaxMachinesPerLicense", 'n') {
        Ok(t) => t,
        Err(e) => {
            return Err(e);
        },
    };
    let max_machines = match parse_u16(max_text.as_str()) {
        Some(v) => v,
        None => {
            return Err(HttpError::new(500, "Error CLMR405f"));
        },
    };
    match &p.machine_limit {
        Some(ml) => match parse_u16(ml.as_str()) {
            Some(c) => Ok(c),
            None => Err(HttpError::new(500, "Error CLDU133i")),
        },
        None => match &p.quantity {
            None => Err(HttpError::new(400, "Error: product quantity or machine_limit must be set.")),
            Some(q) => match parse_u16(q.as_str()) {
                None => Err(HttpError::new(500, "Error CLU72")),
                Some(qv) => Ok(qv * max_machines),
            },
        },
    }
}

pub(crate) fn clone_opt_string(o: &Option<String>) -> (r: Option<String>)
    ensures
        r == *o,
{
    match o {
        Some(s) => Some(s.clone()),
        None => None,
    }
}

/// The number of machines registered on a license's plugin entry, or the
/// error of reading them.
fn registered_count(lpl: &AttrMap, existed: bool) -> (r: Result<usize, HttpError>)
    ensures
        match registered_machines(lpl.mv(), existed) {
            Ok(m) => r matches Ok(c) && c == m.len(),
            Err(e) => r matches Err(x) && x.is(e.0, e.1),
        },
{
    if !existed {
        return Ok(0);
    }
    match lpl.get_m("machines", "Error CLNIDU97") {
        Ok(m) => Ok(m.len()),
        Err(e) => Err(e),
    }
}

fn finish_product<F: Fn(String, String) -> DecimalSum>(
    ul: AttrMap,
    lpl: AttrMap,
    existed: bool,
    should_increase: bool,
    count: u16,
    p: &Plugin,
    first_name: &Option<String>,
    last_name: &Option<String>,
    order_id: &str,
    sum: &F,
) -> (r: Result<(AttrMap, AttrMap), HttpError>)
    requires
        sum_is_function(*sum),
        !(finish_spec(ul.mv(), lpl.mv(), existed, should_increase, count, *p, *first_name, *last_name, order_id@, *sum) is Panics),
    ensures
        match finish_spec(ul.mv(), lpl.mv(), existed, should_increase, count, *p, *first_name, *last_name, order_id@, *sum) {
            StepOut::Maps(a, b) => r matches Ok((x, y)) && x.mv() == a && y.mv() == b,
            StepOut::Error(e) => r matches Err(x) && x.is(e.0, e.1),
            StepOut::Panics => false,
        },
{
    let mut user_license = ul;
    let mut license_plugin = lpl;
    let machine_count = registered_count(&license_plugin, existed);
    let machine_count: usize = match machine_count {
        Ok(c) => c,
        Err(e) => {
            return Err(e);
        },
    };
    let too_many = machine_count > count as usize;
    if too_many {
        user_license.insert_map("machines", None);
        license_plugin.insert_l("Online", None);
        license_plugin.insert_l("Offline", None);
    }
    let ghost ul1 = user_license.mv();
    let one = vec![("license_type", p.license_type.as_str())];
    assert(crate::maps::pairs_view(one@) =~= seq![("license_type"@, p.license_type@)]);
    let _ = user_license.insert_strings(one);
    proof {
        let pairs = seq![("license_type"@, p.license_type@)];
        assert(pairs.drop_last() =~= Seq::<(Seq<char>, Seq<char>)>::empty());
        assert(user_license.mv() == crate::attr::put(crate::maps::put_strings(ul1, pairs.drop_last()), pairs.last().0, s_model(pairs.last().1)));
    }
    assert(user_license.mv() == user_license_before_sum(ul.mv(), too_many, *p));
    assert(license_plugin.mv() == license_plugin_before(lpl.mv(), too_many));
    let increase_result = user_license.increase_float("subtotal", p.subtotal.as_str(), sum);
    let first = first_name.as_ref().unwrap();
    let last = last_name.as_ref().unwrap();
    let mini = license_plugin.insert_license(
        clone_opt_string(&p.custom_success_message),
        first.as_str(),
        last.as_str(),
        p.license_type.as_str(),
        count,
        order_id,
        should_increase,
    );
    match increase_result {
        Err(e) => {
            return Err(e);
        },
        Ok(_) => {},
    }
    match mini {
        Err(e) => Err(e),
        Ok(m) => Ok((user_license, m)),
    }
}

fn product_update<F: Fn(String, String) -> DecimalSum>(
    uil: &AttrMap,
    lp: &AttrMap,
    items: &StrMap<AttrMap>,
    p: &Plugin,
    pid: &str,
    first_name: &Option<String>,
    last_name: &Option<String>,
    order_id: &str,
    sum: &F,
) -> (r: Result<(AttrMap, AttrMap), HttpError>)
    requires
        sum_is_function(*sum),
        !(product_step(uil.mv(), lp.mv(), items_model(*items), *p, pid@, *first_name, *last_name, order_id@, *sum) is Panics),
    ensures
        match product_step(uil.mv(), lp.mv(), items_model(*items), *p, pid@, *first_name, *last_name, order_id@, *sum) {
            StepOut::Maps(a, b) => r matches Ok((x, y)) && x.mv() == a && y.mv() == b,
            StepOut::Error(e) => r matches Err(x) && x.is(e.0, e.1),
            StepOut::Panics => false,
        },
{
    let (ul, lpl, should_increase, existed) = match existing_license(uil, lp, p, pid) {
        Ok(t) => t,
        Err(e) => {
            return Err(e);
        },
    };
    let count = match machines_purchased(items, p, pid) {
        Ok(c) => c,
        Err(e) => {
            return Err(e);
        },
    };
    finish_product(ul, lpl, existed, should_increase, count, p, first_name, last_name, order_id, sum)
}

// ---------------------------------------------------------------------
// Whether an update runs to the end

fn subtotal_ok(ul2: &AttrMap) -> (r: bool)
    ensures
        r == increase_float_ok(ul2.mv(), "subtotal"@),
{
    proof {
        lemma_mv_key_index(*ul2, "subtotal"@);
    }
    match ul2.get("subtotal") {
        Some(v) => {
            proof {
                v.lemma_dv();
            }
            v.n.is_some()
        },
        None => true,
    }
}

fn machines_allowed_ok(base: &AttrMap, count: u16) -> (r: bool)
    ensures
        r == increase_number_ok(base.mv(), "MachinesAllowed"@, count),
{
    proof {
        lemma_mv_key_index(*base, "MachinesAllowed"@);
    }
    match base.get("MachinesAllowed") {
        Some(v) => {
            proof {
                v.lemma_dv();
            }
            match &v.n {
                None => false,
                Some(t) => match parse_u16(t.as_str()) {
                    Some(o) => (o as u32) + (count as u32) <= 65535,
                    None => true,
                },
            }
        },
        None => true,
    }
}

/// Whether the end of the update of one product runs to the end.
fn finish_runs<F: Fn(String, String) -> DecimalSum>(
    ul: &AttrMap,
    lpl: &AttrMap,
    existed: bool,
    should_increase: bool,
    count: u16,
    p: &Plugin,
    first_name: &Option<String>,
    last_name: &Option<String>,
    order_id: &str,
    sum: &F,
) -> (r: bool)
    ensures
        r == !(finish_spec(ul.mv(), lpl.mv(), existed, should_increase, count, *p, *first_name, *last_name, order_id@, *sum) is Panics),
{
    let machine_count: usize = match registered_count(lpl, existed) {
        Err(_) => {
            return true;
        },
        Ok(c) => c,
    };
    let too_many = machine_count > count as usize;
    let mut user_license = ul.deep_clone();
    let mut license_plugin = lpl.deep_clone();
    if too_many {
        user_license.insert_map("machines", None);
        license_plugin.insert_l("Online", None);
        license_plugin.insert_l("Offline", None);
    }
    let ghost ul1 = user_license.mv();
    user_license.insert_data("license_type", p.license_type.as_str(), 's');
    assert(user_license.mv() == user_license_before_sum(ul.mv(), too_many, *p));
    assert(license_plugin.mv() == license_plugin_before(lpl.mv(), too_many));
    if !subtotal_ok(&user_license) {
        return false;
    }
    let (first, last) = match (first_name, last_name) {
        (Some(f), Some(l)) => (f, l),
        _ => {
            return false;
        },
    };
    if !should_increase {
        return true;
    }
    let cust = match &p.custom_success_message {
        Some(c) => c.clone(),
        None => String::new(),
    };
    let pairs = vec![
        ("ActivationTime", "0"),
        ("CustomSuccess", cust.as_str()),
        ("ExpiryTime", "0"),
        ("FirstName", first.as_str()),
        ("LastName", last.as_str()),
        ("LicenseType", p.license_type.as_str()),
        ("OrderID", order_id),
    ];
    assert(crate::maps::pairs_view(pairs@) =~= license_strings(
        opt_str_view(p.custom_success_message),
        opt_str_view(*first_name),
        opt_str_view(*last_name),
        p.license_type@,
        order_id@,
    ));
    let base = license_plugin.insert_strings(pairs);
    machines_allowed_ok(&base, count)
}

/// Whether the machine count of a product can be worked out without an
/// overflow.
fn purchase_runs(items: &StrMap<AttrMap>, p: &Plugin, pid: &str) -> (r: bool)
    ensures
        r == !(purchased_spec(items_model(*items), *p, pid@) is Panics),
{
    proof {
        lemma_items_key_index(*items, pid@);
    }
    let plugin_db = match items.get(pid) {
        Some(db) => db,
        None => {
            return true;
        },
    };
    let max_text = match plugin_db.get_data("MaxMachinesPerLicense", 'n') {
        Ok(t) => t,
        Err(_) => {
            return true;
        },
    };
    let max_machines = match parse_u16(max_text.as_str()) {
        Some(v) => v,
        None => {
            return true;
        },
    };
    match (&p.machine_limit, &p.quantity) {
        (None, Some(q)) => match parse_u16(q.as_str()) {
            Some(qv) => {
                let a = qv as u32;
                let b = max_machines as u32;
                assert(a * b <= 0xFFFE_0001) by (nonlinear_arith)
                    requires
                        a <= 65535,
                        b <= 65535,
                ;
                a * b <= 65535
            },
            None => true,
        },
        _ => true,
    }
}

/// Whether the update of one product runs to the end.
fn step_runs<F: Fn(String, String) -> DecimalSum>(
    uil: &AttrMap,
    lp: &AttrMap,
    items: &StrMap<AttrMap>,
    p: &Plugin,
    pid: &str,
    first_name: &Option<String>,
    last_name: &Option<String>,
    order_id: &str,
    sum: &F,
) -> (r: bool)
    ensures
        r == !(product_step(uil.mv(), lp.mv(), items_model(*items), *p, pid@, *first_name, *last_name, order_id@, *sum) is Panics),
{
    let (ul, lpl, should_increase, existed) = match existing_license(uil, lp, p, pid) {
        Ok(t) => t,
        Err(_) => {
            return true;
        },
    };
    if !purchase_runs(items, p, pid) {
        return false;
    }
    let count = match machines_purchased(items, p, pid) {
        Ok(c) => c,
        Err(_) => {
            return true;
        },
    };
    finish_runs(&ul, &lpl, existed, should_increase, count, p, first_name, last_name, order_id, sum)
}

proof fn lemma_fold_stops<F: Fn(String, String) -> DecimalSum>(
    uil: MapModel,
    lp: MapModel,
    items: Seq<(Seq<char>, MapModel)>,
    products: Seq<Plugin>,
    pids: Seq<Seq<char>>,
    n: nat,
    m: nat,
    first_name: Option<String>,
    last_name: Option<String>,
    order_id: Seq<char>,
    sum: F,
)
    requires
        n <= m,
    ensures
        !(products_fold(uil, lp, items, products, pids, n, first_name, last_name, order_id, sum) is At) ==> products_fold(
            uil,
            lp,
            items,
            products,
            pids,
            m,
            first_name,
            last_name,
            order_id,
            sum,
        ) == products_fold(uil, lp, items, products, pids, n, first_name, last_name, order_id, sum),
    decreases m - n,
{
    if n < m {
        lemma_fold_stops(uil, lp, items, products, pids, n, (m - 1) as nat, first_name, last_name, order_id, sum);
    }
}

/// The outcome of the update once the products have been processed.
pub open spec fn done_of(f: Progress, ui: MapModel, li: MapModel) -> UpdateOutcome {
    match f {
        Progress::At(a, b) => UpdateOutcome::Done(put(ui, "licenses"@, m_model(a)), put(li, "Plugins"@, m_model(b))),
        Progress::Error(e) => UpdateOutcome::Error(e),
        Progress::Panics => UpdateOutcome::Panics,
    }
}

/// All fields but the user item and the license item are the same.
pub open spec fn same_request(a: Decrypted, b: Decrypted) -> bool {
    &&& a.company == b.company
    &&& a.uuid == b.uuid
    &&& a.plugins == b.plugins
    &&& a.order_id == b.order_id
    &&& a.first_name == b.first_name
    &&& a.last_name == b.last_name
    &&& a.email == b.email
    &&& a.company_item == b.company_item
    &&& a.plugin_items == b.plugin_items
    &&& a.license_index == b.license_index
}

impl Decrypted {
    /// Whether `update_license_data` runs to the end on the user item
    /// `user_info`: it would not where a product's machine count overflows,
    /// a subtotal or machine count is not a number, or a name is missing.
    pub fn update_runs<F: Fn(String, String) -> DecimalSum, D: Fn(String) -> String>(
        &self,
        user_info: &AttrMap,
        decrypt_plugin_id: &D,
        sum: &F,
    ) -> (r: bool)
        requires
            text_fn_ok(*decrypt_plugin_id),
            sum_is_function(*sum),
        ensures
            r == !(update_spec(*self, user_info.mv(), decrypted_ids(self.plugins@, *decrypt_plugin_id), *sum) is Panics),
    {
        let items = match &self.plugin_items {
            None => {
                return true;
            },
            Some(it) => it,
        };
        let mut user_item_licenses = match user_info.get_m("licenses", "Error CLMR347e") {
            Ok(m) => m,
            Err(_) => {
                return true;
            },
        };
        let license_item = match &self.license_item {
            None => {
                return true;
            },
            Some(li) => li,
        };
        let mut license_plugins = match license_item.get_m("Plugins", "Error CLNIDU43") {
            Ok(m) => m,
            Err(_) => {
                return true;
            },
        };
        let ghost pids = decrypted_ids(self.plugins@, *decrypt_plugin_id);
        let ghost uil0 = user_item_licenses.mv();
        let ghost lp0 = license_plugins.mv();
        let ghost im = items_model(*items);
        let ghost n = self.plugins@.len();
        assert(update_spec(*self, user_info.mv(), pids, *sum) == done_of(
            products_fold(uil0, lp0, im, self.plugins@, pids, n, self.first_name, self.last_name, self.order_id@, *sum),
            user_info.mv(),
            license_item.mv(),
        ));
        let mut i: usize = 0;
        while i < self.plugins.len()
            invariant
                i <= self.plugins@.len(),
                n == self.plugins@.len(),
                text_fn_ok(*decrypt_plugin_id),
                pids == decrypted_ids(self.plugins@, *decrypt_plugin_id),
                sum_is_function(*sum),
                self.plugin_items == Some(*items),
                im == items_model(*items),
                update_spec(*self, user_info.mv(), pids, *sum) == done_of(
                    products_fold(uil0, lp0, im, self.plugins@, pids, n, self.first_name, self.last_name, self.order_id@, *sum),
                    user_info.mv(),
                    license_item.mv(),
                ),
                products_fold(uil0, lp0, im, self.plugins@, pids, i as nat, self.first_name, self.last_name, self.order_id@, *sum)
                    == Progress::At(user_item_licenses.mv(), license_plugins.mv()),
            decreases self.plugins.len() - i,
        {
            proof {
                lemma_fold_stops(uil0, lp0, im, self.plugins@, pids, (i + 1) as nat, n, self.first_name, self.last_name, self.order_id@, *sum);
            }
            let pid_text = apply_text(decrypt_plugin_id, self.plugins[i].id.as_str());
            let pid = pid_text.as_str();
            if !step_runs(
                &user_item_licenses,
                &license_plugins,
                items,
                &self.plugins[i],
                pid,
                &self.first_name,
                &self.last_name,
                self.order_id.as_str(),
                sum,
            ) {
                return false;
            }
            let step = product_update(
                &user_item_licenses,
                &license_plugins,
                items,
                &self.plugins[i],
                pid,
                &self.first_name,
                &self.last_name,
                self.order_id.as_str(),
                sum,
            );
            match step {
                Err(_) => {
                    return true;
                },
                Ok((ul, lic)) => {
                    user_item_licenses.insert_map(pid, Some(ul));
                    license_plugins.insert_map(pid, Some(lic));
                },
            }
            i = i + 1;
        }
        true
    }

    /// Inserts the license data of each purchased product into the user item
    /// and the license item. `decrypt_plugin_id` gives a product's plugin id
    /// from its encrypted id; `sum` adds two decimal numbers given as text.
    pub fn update_license_data<F: Fn(String, String) -> DecimalSum, D: Fn(String) -> String>(
        &mut self,
        user_info_res: Result<AttrMap, HttpError>,
        decrypt_plugin_id: &D,
        sum: &F,
    ) -> (r: Result<(), HttpError>)
        requires
            text_fn_ok(*decrypt_plugin_id),
            sum_is_function(*sum),
            user_info_res matches Ok(ui) ==> !(update_spec(*old(self), ui.mv(), decrypted_ids(old(self).plugins@, *decrypt_plugin_id), *sum) is Panics),
        ensures
            same_request(*final(self), *old(self)),
            match user_info_res {
                Err(e) => r == Err::<(), HttpError>(e) && *final(self) == *old(self),
                Ok(ui) => match update_spec(*old(self), ui.mv(), decrypted_ids(old(self).plugins@, *decrypt_plugin_id), *sum) {
                    UpdateOutcome::Done(u, l) => {
                        &&& r is Ok
                        &&& final(self).user_item matches Some(x) && x.mv() == u
                        &&& final(self).license_item matches Some(y) && y.mv() == l
                    },
                    UpdateOutcome::Error(e) => (r matches Err(x) && x.is(e.0, e.1)) && *final(self) == *old(self),
                    UpdateOutcome::Panics => false,
                },
            },
    {
        let ui = match user_info_res {
            Err(e) => {
                return Err(e);
            },
            Ok(u) => u,
        };
        let items = match &self.plugin_items {
            None => {
                return Err(HttpError::new(400, "Error CLMR385g"));
            },
            Some(it) => it,
        };
        let mut user_info = ui;
        let mut user_item_licenses = match user_info.get_m("licenses", "Error CLMR347e") {
            Ok(m) => m,
            Err(e) => {
                return Err(e);
            },
        };
        let mut license_item = match &self.license_item {
            None => {
                return Err(HttpError::new(500, "Error CLNIDU27b"));
            },
            Some(li) => li.deep_clone(),
        };
        let mut license_plugins = match license_item.get_m("Plugins", "Error CLNIDU43") {
            Ok(m) => m,
            Err(e) => {
                return Err(e);
            },
        };
        let ghost pids = decrypted_ids(self.plugins@, *decrypt_plugin_id);
        let ghost uil0 = user_item_licenses.mv();
        let ghost lp0 = license_plugins.mv();
        let ghost im = items_model(*items);
        let ghost uim = user_info.mv();
        let ghost lim = license_item.mv();
        assert(update_spec(*old(self), uim, pids, *sum) == done_of(
            products_fold(uil0, lp0, im, self.plugins@, pids, self.plugins@.len(), self.first_name, self.last_name, self.order_id@, *sum),
            uim,
            lim,
        ));
        let mut i: usize = 0;
        while i < self.plugins.len()
            invariant
                i <= self.plugins@.len(),
                *self == *old(self),
                user_info_res matches Ok(u) && u.mv() == uim,
                uim == user_info.mv(),
                lim == license_item.mv(),
                update_spec(*old(self), uim, pids, *sum) == done_of(
                    products_fold(uil0, lp0, im, self.plugins@, pids, self.plugins@.len(), self.first_name, self.last_name, self.order_id@, *sum),
                    uim,
                    lim,
                ),
                text_fn_ok(*decrypt_plugin_id),
                pids == decrypted_ids(self.plugins@, *decrypt_plugin_id),
                sum_is_function(*sum),
                self.plugin_items == Some(*items),
                im == items_model(*items),
                !(products_fold(uil0, lp0, im, self.plugins@, pids, self.plugins@.len(), self.first_name, self.last_name, self.order_id@, *sum) is Panics),
                products_fold(uil0, lp0, im, self.plugins@, pids, i as nat, self.first_name, self.last_name, self.order_id@, *sum)
                    == Progress::At(user_item_licenses.mv(), license_plugins.mv()),
            decreases self.plugins.len() - i,
        {
            proof {
                lemma_fold_stops(uil0, lp0, im, self.plugins@, pids, (i + 1) as nat, self.plugins@.len(), self.first_name, self.last_name, self.order_id@, *sum);
            }
            let pid_text = apply_text(decrypt_plugin_id, self.plugins[i].id.as_str());
            let pid = pid_text.as_str();
            let step = product_update(
                &user_item_licenses,
                &license_plugins,
                items,
                &self.plugins[i],
                pid,
                &self.first_name,
                &self.last_name,
                self.order_id.as_str(),
                sum,
            );
            match step {
                Err(e) => {
                    proof {
                        lemma_fold_stops(uil0, lp0, im, self.plugins@, pids, (i + 1) as nat, self.plugins@.len(), self.first_name, self.last_name, self.order_id@, *sum);
                    }
                    return Err(e);
                },
                Ok((ul, lic)) => {
                    user_item_licenses.insert_map(pid, Some(ul));
                    license_plugins.insert_map(pid, Some(lic));
                },
            }
            i = i + 1;
        }
        license_item.insert_map("Plugins", Some(license_plugins));
        user_info.insert_map("licenses", Some(user_item_licenses));
        self.license_item = Some(license_item);
        self.user_item = Some(user_info);
        Ok(())
    }
}

} // verus!
