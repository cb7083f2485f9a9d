use vstd::prelude::*;

use crate::attr::{lemma_key_index_facts, lemma_put_lookup, lookup, m_model, put, s_model, AttrModel, MapModel};
use crate::decrypted::{batch_get_spec, duplicate_order, new_user_spec, plugin_map_spec, BatchGetOutcome};
use crate::input::PLUGINS_TABLE_NAME;
use crate::license::{scan_machines, scan_plugins, MachineModel, MachinesScan, PluginsScan};
use crate::attr::{bool_model, l_model, n_model};
use crate::input::Plugin;
use crate::maps::{
    get_data_spec, get_m_spec, increase_number_spec, license_spec, license_strings, opt_str_view, put_strings,
    DecimalSum,
};
use crate::text::{decimal, eq_ignore_ascii_case_spec, parse_u16_spec, unicode_lowercase};
use crate::input::{items_model, Decrypted};
use crate::update::{products_fold, update_spec, Progress, existing_spec, license_plugin_before, product_step, purchased_spec, registered_machines, Purchased};
use crate::textfn::text_of;

verus! {

// ---------------------------------------------------------------------
// Orders

/// An order id found anywhere in the user's orders list is a duplicate
/// order, which `prepare_to_license` refuses with 425.
pub proof fn law_repeated_order_refused(user: MapModel, orders: Seq<AttrModel>, order_id: Seq<char>, i: int)
    requires
        lookup(user, "orders"@) matches Some(o) && o.l == Some(orders),
        0 <= i < orders.len(),
        orders[i] == s_model(order_id),
    ensures
        duplicate_order(user, order_id),
{
}

/// An order id that no element of the user's orders list holds is not a
/// duplicate order.
pub proof fn law_new_order_accepted(user: MapModel, orders: Seq<AttrModel>, order_id: Seq<char>)
    requires
        lookup(user, "orders"@) matches Some(o) && o.l == Some(orders),
        forall|i: int| 0 <= i < orders.len() ==> orders[i] != s_model(order_id),
    ensures
        !duplicate_order(user, order_id),
{
}

// ---------------------------------------------------------------------
// A new user

/// The user item made for a new user holds the company, uuid, email hash,
/// license index and offline secret it was made with, as strings, and an
/// empty licenses map.
pub proof fn law_new_user_attributes(
    company: Seq<char>,
    uuid: Seq<char>,
    email: Seq<char>,
    index: Seq<char>,
    secret: Seq<char>,
)
    ensures
        ({
            let u = new_user_spec(company, uuid, email, index, secret);
            &&& get_data_spec(u, "company"@, 's') == Ok::<Seq<char>, (u16, Seq<char>)>(company)
            &&& get_data_spec(u, "uuid"@, 's') == Ok::<Seq<char>, (u16, Seq<char>)>(uuid)
            &&& get_data_spec(u, "emailHash"@, 's') == Ok::<Seq<char>, (u16, Seq<char>)>(email)
            &&& get_data_spec(u, "licenseIndex"@, 's') == Ok::<Seq<char>, (u16, Seq<char>)>(index)
            &&& get_data_spec(u, "OfflineSecret"@, 's') == Ok::<Seq<char>, (u16, Seq<char>)>(secret)
            &&& lookup(u, "licenses"@) == Some(m_model(Seq::empty()))
        }),
{
    reveal_strlit("company");
    reveal_strlit("uuid");
    reveal_strlit("emailHash");
    reveal_strlit("licenseIndex");
    reveal_strlit("OfflineSecret");
    reveal_strlit("licenses");
    let pairs = seq![
        ("company"@, company),
        ("uuid"@, uuid),
        ("emailHash"@, email),
        ("licenseIndex"@, index),
        ("OfflineSecret"@, secret),
    ];
    let m0: MapModel = Seq::empty();
    let m1 = put(m0, "company"@, s_model(company));
    let m2 = put(m1, "uuid"@, s_model(uuid));
    let m3 = put(m2, "emailHash"@, s_model(email));
    let m4 = put(m3, "licenseIndex"@, s_model(index));
    let m5 = put(m4, "OfflineSecret"@, s_model(secret));
    assert(pairs.drop_last().drop_last().drop_last().drop_last().drop_last() =~= Seq::<(Seq<char>, Seq<char>)>::empty());
    assert(put_strings(m0, pairs.take(1)) == m1) by {
        assert(pairs.take(1).drop_last() =~= Seq::<(Seq<char>, Seq<char>)>::empty());
        assert(pairs.take(1).last() == ("company"@, company));
        assert(put_strings(m0, Seq::<(Seq<char>, Seq<char>)>::empty()) == m0);
    }
    assert(put_strings(m0, pairs.take(2)) == m2) by {
        assert(pairs.take(2).drop_last() =~= pairs.take(1));
    }
    assert(put_strings(m0, pairs.take(3)) == m3) by {
        assert(pairs.take(3).drop_last() =~= pairs.take(2));
    }
    assert(put_strings(m0, pairs.take(4)) == m4) by {
        assert(pairs.take(4).drop_last() =~= pairs.take(3));
    }
    assert(put_strings(m0, pairs) == m5) by {
        assert(pairs.drop_last() =~= pairs.take(4));
    }
    let u = put(m5, "licenses"@, m_model(Seq::empty()));
    assert(u == new_user_spec(company, uuid, email, index, secret));
    assert("company"@.len() == 7 && "uuid"@.len() == 4 && "emailHash"@.len() == 9);
    assert("licenseIndex"@.len() == 12 && "OfflineSecret"@.len() == 13 && "licenses"@.len() == 8);
    lemma_key_index_facts(m0, "company"@);
    lemma_key_index_facts(m0, "uuid"@);
    lemma_put_lookup(m0, "company"@, s_model(company), "company"@);
    lemma_put_lookup(m0, "company"@, s_model(company), "uuid"@);
    lemma_put_lookup(m1, "uuid"@, s_model(uuid), "company"@);
    lemma_put_lookup(m1, "uuid"@, s_model(uuid), "uuid"@);
    lemma_put_lookup(m2, "emailHash"@, s_model(email), "company"@);
    lemma_put_lookup(m2, "emailHash"@, s_model(email), "uuid"@);
    lemma_put_lookup(m2, "emailHash"@, s_model(email), "emailHash"@);
    lemma_put_lookup(m3, "licenseIndex"@, s_model(index), "company"@);
    lemma_put_lookup(m3, "licenseIndex"@, s_model(index), "uuid"@);
    lemma_put_lookup(m3, "licenseIndex"@, s_model(index), "emailHash"@);
    lemma_put_lookup(m3, "licenseIndex"@, s_model(index), "licenseIndex"@);
    lemma_put_lookup(m4, "OfflineSecret"@, s_model(secret), "company"@);
    lemma_put_lookup(m4, "OfflineSecret"@, s_model(secret), "uuid"@);
    lemma_put_lookup(m4, "OfflineSecret"@, s_model(secret), "emailHash"@);
    lemma_put_lookup(m4, "OfflineSecret"@, s_model(secret), "licenseIndex"@);
    lemma_put_lookup(m4, "OfflineSecret"@, s_model(secret), "OfflineSecret"@);
    lemma_put_lookup(m5, "licenses"@, m_model(Seq::empty()), "company"@);
    lemma_put_lookup(m5, "licenses"@, m_model(Seq::empty()), "uuid"@);
    lemma_put_lookup(m5, "licenses"@, m_model(Seq::empty()), "emailHash"@);
    lemma_put_lookup(m5, "licenses"@, m_model(Seq::empty()), "licenseIndex"@);
    lemma_put_lookup(m5, "licenses"@, m_model(Seq::empty()), "OfflineSecret"@);
    lemma_put_lookup(m5, "licenses"@, m_model(Seq::empty()), "licenses"@);
    assert(lookup(u, "company"@) == Some(s_model(company)));
    assert(lookup(u, "uuid"@) == Some(s_model(uuid)));
    assert(lookup(u, "emailHash"@) == Some(s_model(email)));
    assert(lookup(u, "licenseIndex"@) == Some(s_model(index)));
    assert(lookup(u, "OfflineSecret"@) == Some(s_model(secret)));
}

// ---------------------------------------------------------------------
// The plugin items of a batch get

/// The key of a plugin item in the plugin map: its `id` string, decrypted.
pub open spec fn plugin_key<F: Fn(String) -> String>(decrypt: F, item: MapModel) -> Seq<char> {
    text_of(decrypt, get_data_spec(item, "id"@, 's')->Ok_0)
}

/// The plugin map read from the plugin items of a batch get answer has an
/// entry for each item, under the item's decrypted id, and no other entry.
pub proof fn law_plugin_map_keys<F: Fn(String) -> String>(items: Seq<MapModel>, decrypt: F)
    requires
        plugin_map_spec(items, decrypt) is Ok,
    ensures
        ({
            let m = plugin_map_spec(items, decrypt)->Ok_0;
            &&& forall|i: int| 0 <= i < items.len() ==> get_data_spec(#[trigger] items[i], "id"@, 's') is Ok
                && lookup(m, plugin_key(decrypt, items[i])) is Some
            &&& forall|k: Seq<char>| #[trigger] lookup(m, k) is Some ==> exists|i: int|
                0 <= i < items.len() && k == #[trigger] plugin_key(decrypt, items[i])
        }),
    decreases items.len(),
{
    if items.len() == 0 {
        assert forall|k: Seq<char>| #[trigger] lookup(plugin_map_spec(items, decrypt)->Ok_0, k) is None by {
            lemma_key_index_facts(plugin_map_spec(items, decrypt)->Ok_0, k);
        }
    } else {
        let p = items.drop_last();
        law_plugin_map_keys(p, decrypt);
        let m0 = plugin_map_spec(p, decrypt)->Ok_0;
        let last = items.last();
        let key = plugin_key(decrypt, last);
        let m = plugin_map_spec(items, decrypt)->Ok_0;
        assert(m == put(m0, key, last));
        assert forall|i: int| 0 <= i < items.len() implies get_data_spec(#[trigger] items[i], "id"@, 's') is Ok
            && lookup(m, plugin_key(decrypt, items[i])) is Some by {
            lemma_put_lookup(m0, key, last, plugin_key(decrypt, items[i]));
            if i < p.len() {
                assert(items[i] == p[i]);
            }
        }
        assert forall|k: Seq<char>| #[trigger] lookup(m, k) is Some implies exists|i: int|
            0 <= i < items.len() && k == #[trigger] plugin_key(decrypt, items[i]) by {
            lemma_put_lookup(m0, key, last, k);
            if k == key {
                assert(k == plugin_key(decrypt, items[items.len() - 1]));
            } else {
                assert(lookup(m0, k) is Some);
                let j = choose|j: int| 0 <= j < p.len() && k == #[trigger] plugin_key(decrypt, p[j]);
                assert(items[j] == p[j]);
                assert(k == plugin_key(decrypt, items[j]));
            }
        }
    }
}

/// After a batch get that fills in the items, the plugin map has an entry
/// under the decrypted id of each plugin item of the answer, and no other.
pub proof fn law_batch_get_keys_plugins<F: Fn(String) -> String>(
    n_ids: nat,
    answer: Seq<(Seq<char>, Seq<MapModel>)>,
    decrypt: F,
)
    requires
        batch_get_spec(n_ids, Ok(answer), decrypt) is Done,
    ensures
        ({
            let pm = batch_get_spec(n_ids, Ok(answer), decrypt)->Done_1;
            let items = lookup(answer, PLUGINS_TABLE_NAME@)->0;
            &&& lookup(answer, PLUGINS_TABLE_NAME@) is Some
            &&& forall|i: int| 0 <= i < items.len() ==> lookup(pm, plugin_key(decrypt, #[trigger] items[i])) is Some
            &&& forall|k: Seq<char>| #[trigger] lookup(pm, k) is Some ==> exists|i: int|
                0 <= i < items.len() && k == #[trigger] plugin_key(decrypt, items[i])
        }),
{
    let items = lookup(answer, PLUGINS_TABLE_NAME@)->0;
    law_plugin_map_keys(items, decrypt);
}

// ---------------------------------------------------------------------
// The machines of a license

/// `ms` are the machines of the machines map `e`, entry by entry: each has
/// the entry's id, and the `computer_name` and `os` strings of its node.
pub open spec fn machines_read(e: MapModel, ms: Seq<MachineModel>) -> bool {
    &&& ms.len() == e.len()
    &&& forall|i: int| 0 <= i < e.len() ==> {
        &&& (#[trigger] ms[i]).0 == e[i].0
        &&& e[i].1.m is Some
        &&& lookup(e[i].1.m->0, "computer_name"@) is Some
        &&& lookup(e[i].1.m->0, "computer_name"@)->0.s == Some(ms[i].1)
        &&& lookup(e[i].1.m->0, "os"@) is Some
        &&& lookup(e[i].1.m->0, "os"@)->0.s == Some(ms[i].2)
    }
}

/// The machines read from a machines map are its entries, in order, each with
/// the id of its entry and the computer name and OS of its node.
pub proof fn law_machines_read_from_map(e: MapModel)
    requires
        scan_machines(e) is Added,
    ensures
        machines_read(e, scan_machines(e)->Added_0),
    decreases e.len(),
{
    if e.len() > 0 {
        let p = e.drop_last();
        law_machines_read_from_map(p);
        let ms = scan_machines(e)->Added_0;
        let mp = scan_machines(p)->Added_0;
        assert forall|i: int| 0 <= i < e.len() implies {
            &&& (#[trigger] ms[i]).0 == e[i].0
            &&& e[i].1.m is Some
            &&& lookup(e[i].1.m->0, "computer_name"@) is Some
            &&& lookup(e[i].1.m->0, "computer_name"@)->0.s == Some(ms[i].1)
            &&& lookup(e[i].1.m->0, "os"@) is Some
            &&& lookup(e[i].1.m->0, "os"@)->0.s == Some(ms[i].2)
        } by {
            if i < p.len() {
                assert(ms[i] == mp[i] && e[i] == p[i]);
            }
        }
    }
}

/// The plugins of a license are the entries of the user's licenses map, in
/// order: each has the entry's id, the `maxMachines` number and
/// `license_type` string of its node, and the machines of its `machines`
/// map, each with its own computer name and OS.
pub proof fn law_license_read_from_map(u: MapModel)
    requires
        scan_plugins(u) is Added,
    ensures
        ({
            let ps = scan_plugins(u)->Added_0;
            &&& ps.len() == u.len()
            &&& forall|i: int| 0 <= i < u.len() ==> {
                let node = u[i].1.m->0;
                &&& (#[trigger] ps[i]).id == u[i].0
                &&& u[i].1.m is Some
                &&& lookup(node, "maxMachines"@) is Some
                &&& lookup(node, "maxMachines"@)->0.n == Some(ps[i].max_machines)
                &&& lookup(node, "license_type"@) is Some
                &&& lookup(node, "license_type"@)->0.s == Some(ps[i].license_type)
                &&& lookup(node, "machines"@) is Some
                &&& lookup(node, "machines"@)->0.m is Some
                &&& machines_read(lookup(node, "machines"@)->0.m->0, ps[i].machines)
            }
        }),
    decreases u.len(),
{
    if u.len() > 0 {
        let p = u.drop_last();
        law_license_read_from_map(p);
        let ps = scan_plugins(u)->Added_0;
        let pp = scan_plugins(p)->Added_0;
        let node = u.last().1.m->0;
        law_machines_read_from_map(lookup(node, "machines"@)->0.m->0);
        assert forall|i: int| 0 <= i < u.len() implies {
            let node = u[i].1.m->0;
            &&& (#[trigger] ps[i]).id == u[i].0
            &&& u[i].1.m is Some
            &&& lookup(node, "maxMachines"@) is Some
            &&& lookup(node, "maxMachines"@)->0.n == Some(ps[i].max_machines)
            &&& lookup(node, "license_type"@) is Some
            &&& lookup(node, "license_type"@)->0.s == Some(ps[i].license_type)
            &&& lookup(node, "machines"@) is Some
            &&& lookup(node, "machines"@)->0.m is Some
            &&& machines_read(lookup(node, "machines"@)->0.m->0, ps[i].machines)
        } by {
            if i < p.len() {
                assert(ps[i] == pp[i] && u[i] == p[i]);
            }
        }
    }
}

// ---------------------------------------------------------------------
// The machine count of a purchase

proof fn lemma_put_strings_other(m: MapModel, pairs: Seq<(Seq<char>, Seq<char>)>, k: Seq<char>)
    requires
        forall|i: int| 0 <= i < pairs.len() ==> (#[trigger] pairs[i]).0 != k,
    ensures
        lookup(put_strings(m, pairs), k) == lookup(m, k),
    decreases pairs.len(),
{
    if pairs.len() > 0 {
        let q = pairs.drop_last();
        assert forall|i: int| 0 <= i < q.len() implies (#[trigger] q[i]).0 != k by {
            assert(q[i] == pairs[i]);
        }
        lemma_put_strings_other(m, q, k);
        lemma_put_lookup(put_strings(m, q), pairs.last().0, s_model(pairs.last().1), k);
    }
}

proof fn lemma_license_keys_other(c: Seq<char>, f: Seq<char>, l: Seq<char>, t: Seq<char>, o: Seq<char>)
    ensures
        forall|i: int| 0 <= i < 7 ==> (#[trigger] license_strings(c, f, l, t, o)[i]).0 != "MachinesAllowed"@,
        "Online"@ != "MachinesAllowed"@,
        "Offline"@ != "MachinesAllowed"@,
        "LicenseActive"@ != "MachinesAllowed"@,
        "SubscriptionActive"@ != "MachinesAllowed"@,
{
    reveal_strlit("MachinesAllowed");
    reveal_strlit("ActivationTime");
    reveal_strlit("CustomSuccess");
    reveal_strlit("ExpiryTime");
    reveal_strlit("FirstName");
    reveal_strlit("LastName");
    reveal_strlit("LicenseType");
    reveal_strlit("OrderID");
    reveal_strlit("Online");
    reveal_strlit("Offline");
    reveal_strlit("LicenseActive");
    reveal_strlit("SubscriptionActive");
    assert("MachinesAllowed"@.len() == 15);
}

/// The `MachinesAllowed` attribute that the update of one product writes in
/// the license's plugin entry: the count already there plus the machines
/// purchased when the license is renewed with the same type, and the
/// machines purchased otherwise.
proof fn lemma_step_machines_allowed<F: Fn(String, String) -> DecimalSum>(
    uil: MapModel,
    lp: MapModel,
    items: Seq<(Seq<char>, MapModel)>,
    p: Plugin,
    pid: Seq<char>,
    first_name: Option<String>,
    last_name: Option<String>,
    order_id: Seq<char>,
    sum: F,
)
    requires
        product_step(uil, lp, items, p, pid, first_name, last_name, order_id, sum) is Maps,
    ensures
        existing_spec(uil, lp, p, pid) is Ok,
        purchased_spec(items, p, pid) is Count,
        ({
            let lpl = existing_spec(uil, lp, p, pid)->Ok_0.1;
            let renewed = existing_spec(uil, lp, p, pid)->Ok_0.2;
            let c = purchased_spec(items, p, pid)->Count_0;
            let b = product_step(uil, lp, items, p, pid, first_name, last_name, order_id, sum)->Maps_1;
            let expected: nat = if renewed && lookup(lpl, "MachinesAllowed"@) is Some {
                (parse_u16_spec(lookup(lpl, "MachinesAllowed"@)->0.n->0)->0 + c) as nat
            } else {
                c as nat
            };
            lookup(b, "MachinesAllowed"@) == Some(n_model(decimal(expected)))
        }),
{
    let ma = "MachinesAllowed"@;
    let (ul, lpl, renewed, existed) = existing_spec(uil, lp, p, pid)->Ok_0;
    let c = purchased_spec(items, p, pid)->Count_0;
    let machines = registered_machines(lpl, existed)->Ok_0;
    let too_many = machines.len() > c;
    let lpl1 = license_plugin_before(lpl, too_many);
    let strings = license_strings(
        opt_str_view(p.custom_success_message),
        opt_str_view(first_name),
        opt_str_view(last_name),
        p.license_type@,
        order_id,
    );
    let base = put_strings(lpl1, strings);
    lemma_license_keys_other(
        opt_str_view(p.custom_success_message),
        opt_str_view(first_name),
        opt_str_view(last_name),
        p.license_type@,
        order_id,
    );
    lemma_put_lookup(lpl, "Online"@, l_model(Seq::empty()), ma);
    lemma_put_lookup(put(lpl, "Online"@, l_model(Seq::empty())), "Offline"@, l_model(Seq::empty()), ma);
    assert(lookup(lpl1, ma) == lookup(lpl, ma));
    assert forall|i: int| 0 <= i < strings.len() implies (#[trigger] strings[i]).0 != ma by {
        assert(strings.len() == 7);
    }
    lemma_put_strings_other(lpl1, strings, ma);
    let expected: nat = if renewed && lookup(lpl, ma) is Some {
        (parse_u16_spec(lookup(lpl, ma)->0.n->0)->0 + c) as nat
    } else {
        c as nat
    };
    let counted = if renewed {
        increase_number_spec(base, ma, c)
    } else {
        (put(base, ma, n_model(decimal(c as nat))), Ok(()))
    };
    assert(counted.1 is Ok);
    lemma_put_lookup(base, ma, n_model(decimal(expected)), ma);
    assert(lookup(counted.0, ma) == Some(n_model(decimal(expected))));
    let c0 = counted.0;
    let c1 = put(c0, "LicenseActive"@, bool_model(Some(true)));
    let c2 = put(c1, "Offline"@, l_model(Seq::empty()));
    let c3 = put(c2, "Online"@, l_model(Seq::empty()));
    lemma_put_lookup(c0, "LicenseActive"@, bool_model(Some(true)), ma);
    lemma_put_lookup(c1, "Offline"@, l_model(Seq::empty()), ma);
    lemma_put_lookup(c2, "Online"@, l_model(Seq::empty()), ma);
    lemma_put_lookup(c3, "SubscriptionActive"@, bool_model(Some(true)), ma);
    assert(license_spec(base, c, renewed) == Ok::<MapModel, (u16, Seq<char>)>(
        put(c3, "SubscriptionActive"@, bool_model(Some(true))),
    ));
}

/// Renewing a license with a product of the same license type (ignoring
/// ASCII case) adds the machines purchased to the license's machine count:
/// `MachinesAllowed` in the plugin entry becomes the old count plus the
/// purchased count.
pub proof fn law_renewal_adds_machines<F: Fn(String, String) -> DecimalSum>(
    uil: MapModel,
    lp: MapModel,
    items: Seq<(Seq<char>, MapModel)>,
    p: Plugin,
    pid: Seq<char>,
    first_name: Option<String>,
    last_name: Option<String>,
    order_id: Seq<char>,
    sum: F,
    old_count: u16,
    purchased: u16,
)
    requires
        get_m_spec(uil, pid, Seq::empty()) is Ok,
        get_m_spec(lp, pid, Seq::empty()) is Ok,
        eq_ignore_ascii_case_spec(
            p.license_type@,
            unicode_lowercase(get_data_spec(get_m_spec(lp, pid, Seq::empty())->Ok_0, "license_type"@, 's')->Ok_0),
        ),
        get_data_spec(get_m_spec(lp, pid, Seq::empty())->Ok_0, "MachinesAllowed"@, 'n') matches Ok(t)
            && parse_u16_spec(t) == Some(old_count),
        purchased_spec(items, p, pid) == Purchased::Count(purchased),
        product_step(uil, lp, items, p, pid, first_name, last_name, order_id, sum) is Maps,
    ensures
        get_data_spec(
            product_step(uil, lp, items, p, pid, first_name, last_name, order_id, sum)->Maps_1,
            "MachinesAllowed"@,
            'n',
        ) == Ok::<Seq<char>, (u16, Seq<char>)>(decimal((old_count + purchased) as nat)),
{
    lemma_step_machines_allowed(uil, lp, items, p, pid, first_name, last_name, order_id, sum);
    let lpl = get_m_spec(lp, pid, Seq::empty())->Ok_0;
    assert(existing_spec(uil, lp, p, pid)->Ok_0.1 == lpl);
    assert(existing_spec(uil, lp, p, pid)->Ok_0.2);
}

/// A product bought for the first time, or switching a license to another
/// type, sets the license's machine count to the machines purchased.
pub proof fn law_new_or_switched_license_sets_machines<F: Fn(String, String) -> DecimalSum>(
    uil: MapModel,
    lp: MapModel,
    items: Seq<(Seq<char>, MapModel)>,
    p: Plugin,
    pid: Seq<char>,
    first_name: Option<String>,
    last_name: Option<String>,
    order_id: Seq<char>,
    sum: F,
    purchased: u16,
)
    requires
        (get_m_spec(uil, pid, Seq::empty()) is Err && get_m_spec(lp, pid, Seq::empty()) is Err) || !eq_ignore_ascii_case_spec(
            p.license_type@,
            unicode_lowercase(get_data_spec(get_m_spec(lp, pid, Seq::empty())->Ok_0, "license_type"@, 's')->Ok_0),
        ),
        purchased_spec(items, p, pid) == Purchased::Count(purchased),
        product_step(uil, lp, items, p, pid, first_name, last_name, order_id, sum) is Maps,
    ensures
        get_data_spec(
            product_step(uil, lp, items, p, pid, first_name, last_name, order_id, sum)->Maps_1,
            "MachinesAllowed"@,
            'n',
        ) == Ok::<Seq<char>, (u16, Seq<char>)>(decimal(purchased as nat)),
{
    lemma_step_machines_allowed(uil, lp, items, p, pid, first_name, last_name, order_id, sum);
    assert(!existing_spec(uil, lp, p, pid)->Ok_0.2);
}

/// For an order of one product, the license item that `update_license_data`
/// writes holds, under the product's plugin id, the plugin entry that the
/// update of that product gives (see the laws on its machine count above).
pub proof fn law_one_product_update<F: Fn(String, String) -> DecimalSum>(
    d: Decrypted,
    ui: MapModel,
    pids: Seq<Seq<char>>,
    sum: F,
)
    requires
        d.plugins@.len() == 1,
        update_spec(d, ui, pids, sum) is Done,
    ensures
        ({
            let uil = get_m_spec(ui, "licenses"@, "Error CLMR347e"@)->Ok_0;
            let lp = get_m_spec(d.license_item->0.mv(), "Plugins"@, "Error CLNIDU43"@)->Ok_0;
            let step = product_step(
                uil,
                lp,
                items_model(d.plugin_items->0),
                d.plugins@[0],
                pids[0],
                d.first_name,
                d.last_name,
                d.order_id@,
                sum,
            );
            let l = update_spec(d, ui, pids, sum)->Done_1;
            &&& step is Maps
            &&& lookup(l, "Plugins"@) is Some
            &&& lookup(l, "Plugins"@)->0.m is Some
            &&& lookup(lookup(l, "Plugins"@)->0.m->0, pids[0]) == Some(m_model(step->Maps_1))
        }),
{
    let uil = get_m_spec(ui, "licenses"@, "Error CLMR347e"@)->Ok_0;
    let li = d.license_item->0.mv();
    let lp = get_m_spec(li, "Plugins"@, "Error CLNIDU43"@)->Ok_0;
    let im = items_model(d.plugin_items->0);
    let f0 = products_fold(uil, lp, im, d.plugins@, pids, 0, d.first_name, d.last_name, d.order_id@, sum);
    assert(f0 == Progress::At(uil, lp));
    let step = product_step(uil, lp, im, d.plugins@[0], pids[0], d.first_name, d.last_name, d.order_id@, sum);
    let f1 = products_fold(uil, lp, im, d.plugins@, pids, 1, d.first_name, d.last_name, d.order_id@, sum);
    assert(step is Maps);
    let b = put(lp, pids[0], m_model(step->Maps_1));
    assert(f1 == Progress::At(put(uil, pids[0], m_model(step->Maps_0)), b));
    let l = put(li, "Plugins"@, m_model(b));
    assert(update_spec(d, ui, pids, sum)->Done_1 == l);
    lemma_put_lookup(li, "Plugins"@, m_model(b), "Plugins"@);
    lemma_put_lookup(lp, pids[0], m_model(step->Maps_1), pids[0]);
}

} // verus!
