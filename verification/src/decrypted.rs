use vstd::prelude::*;
use vstd::utf8::encode_utf8;

use crate::attr::{lemma_same_keys, lookup, m_model, put, s_model, AttrMap, AttrModel, AttrValue, MapModel, StrMap, lemma_mv_key_index};
use crate::db::{create_permanent_secret, is_code, license_key, license_key_spec};
use crate::error::HttpError;
use crate::input::{items_model, Decrypted, Plugin, COMPANY_TABLE_NAME, LICENSE_TABLE_NAME, PLUGINS_TABLE_NAME, USERS_TABLE_NAME};
use crate::maps::{get_data_spec, pairs_view, put_strings, unit_result_is, ErrModel};
use crate::text::{cleanse, cleanse_spec, push_str, str_eq};
use crate::crypto::{hash_email_spec, signature_checkable, signature_is_checkable, verify_signature, verify_signature_spec, Hashing};
use crate::textfn::{apply_text, apply_text2, text_fn_ok, text_fn2_ok, text_of, text2_of};
use crate::update::clone_opt_string;

verus! {

// ---------------------------------------------------------------------
// Validation

/// The texts of `v`, separated by `sep`.
pub open spec fn join(v: Seq<Seq<char>>, sep: Seq<char>) -> Seq<char>
    decreases v.len(),
{
    if v.len() == 0 {
        Seq::empty()
    } else if v.len() == 1 {
        v[0]
    } else {
        join(v.drop_last(), sep) + sep + v.last()
    }
}

fn join_strs(v: &Vec<&str>, sep: &str) -> (r: String)
    ensures
        r@ == join(Seq::new(v@.len(), |i: int| v@[i]@), sep@),
{
    let ghost all = Seq::new(v@.len(), |i: int| v@[i]@);
    let mut r = String::new();
    let mut i: usize = 0;
    while i < v.len()
        invariant
            i <= v@.len(),
            all == Seq::new(v@.len(), |i: int| v@[i]@),
            r@ == join(all.take(i as int), sep@),
        decreases v.len() - i,
    {
        if i > 0 {
            push_str(&mut r, sep);
        }
        push_str(&mut r, v[i]);
        proof {
            assert(all.take(i + 1).drop_last() =~= all.take(i as int));
            if i == 0 {
                assert(r@ =~= join(all.take(1), sep@));
            }
        }
        i = i + 1;
    }
    assert(all.take(v@.len() as int) =~= all);
    r
}

/// What is wrong with a request: a company id of fewer than 10 or more than
/// 15 bytes, a uuid of fewer than 10 bytes, no plugin.
pub open spec fn validation_errors(company: Seq<char>, uuid: Seq<char>, n_plugins: nat) -> Seq<Seq<char>> {
    let c = encode_utf8(company).len();
    (if c < 10 || c > 15 { seq!["Invalid company"@] } else { Seq::empty() })
        + (if encode_utf8(uuid).len() < 10 { seq!["Invalid uuid"@] } else { Seq::empty() })
        + (if n_plugins < 1 { seq!["Missing plugin info."@] } else { Seq::empty() })
}

// ---------------------------------------------------------------------
// Items

/// A new license item: its key, the email hash, the offline secret, the uuid
/// and no plugin.
pub open spec fn license_item_spec(index: Seq<char>, email: Seq<char>, secret: Seq<char>, uuid: Seq<char>) -> MapModel {
    put(
        put_strings(
            Seq::empty(),
            seq![("id1"@, index), ("id2"@, "all"@), ("Email"@, email), ("OfflineSecret"@, secret), ("uuid"@, uuid)],
        ),
        "Plugins"@,
        m_model(Seq::empty()),
    )
}

/// A new user item: the encrypted company id, the uuid, the email hash, the
/// license index, the offline secret and no license.
pub open spec fn new_user_spec(company: Seq<char>, uuid: Seq<char>, email: Seq<char>, index: Seq<char>, secret: Seq<char>) -> MapModel {
    put(
        put_strings(
            Seq::empty(),
            seq![
                ("company"@, company),
                ("uuid"@, uuid),
                ("emailHash"@, email),
                ("licenseIndex"@, index),
                ("OfflineSecret"@, secret),
            ],
        ),
        "licenses"@,
        m_model(Seq::empty()),
    )
}

/// `orders` holds the order `order_id`, a string attribute.
pub open spec fn has_order(orders: Seq<AttrModel>, order_id: Seq<char>) -> bool {
    exists|i: int| 0 <= i < orders.len() && orders[i] == s_model(order_id)
}

/// The user's orders, where the user item has them, are a list.
pub open spec fn orders_are_list(user: MapModel) -> bool {
    lookup(user, "orders"@) matches Some(o) ==> o.l is Some
}

/// The user item's orders hold `order_id`.
pub open spec fn duplicate_order(user: MapModel, order_id: Seq<char>) -> bool {
    lookup(user, "orders"@) matches Some(o) && has_order(o.l->0, order_id)
}

/// What is done next to prepare a license.
#[derive(Debug)]
pub enum PrepareNext {
    /// The user exists: fetch the license item of the index just set.
    ExistingUser,
    /// The user is new: create a license code.
    NewUser,
}

/// The two requests have the same fields, but for the license index and the
/// license item.
pub open spec fn same_but_license(a: Decrypted, b: Decrypted) -> bool {
    &&& a.company == b.company
    &&& a.uuid == b.uuid
    &&& a.plugins == b.plugins
    &&& a.order_id == b.order_id
    &&& a.first_name == b.first_name
    &&& a.last_name == b.last_name
    &&& a.email == b.email
    &&& a.user_item == b.user_item
    &&& a.company_item == b.company_item
    &&& a.plugin_items == b.plugin_items
}

/// `v` is the string attribute `s`, and nothing else.
fn is_string_value(v: &AttrValue, s: &str) -> (r: bool)
    ensures
        r == (v.dv() == s_model(s@)),
{
    proof {
        v.lemma_dv();
    }
    let same = match &v.s {
        Some(x) => str_eq(x.as_str(), s),
        None => false,
    };
    v.b.is_none() && v.bool.is_none() && v.bs.is_none() && v.l.is_none() && v.m.is_none() && v.n.is_none()
        && v.ns.is_none() && v.null.is_none() && v.ss.is_none() && same
}

fn holds_order(orders: &Vec<AttrValue>, order_id: &str) -> (r: bool)
    ensures
        r == has_order(crate::attr::list_model(orders@), order_id@),
{
    let ghost l = crate::attr::list_model(orders@);
    let mut i: usize = 0;
    while i < orders.len()
        invariant
            i <= orders@.len(),
            l == crate::attr::list_model(orders@),
            forall|j: int| 0 <= j < i ==> l[j] != s_model(order_id@),
        decreases orders.len() - i,
    {
        if is_string_value(&orders[i], order_id) {
            assert(l[i as int] == s_model(order_id@));
            return true;
        }
        i = i + 1;
    }
    false
}

impl Decrypted {
    /// Validates the company id, the uuid and the presence of plugins. The
    /// signature is checked elsewhere.
    pub fn validate(self) -> (r: Result<Self, HttpError>)
        ensures
            ({
                let errs = validation_errors(self.company@, self.uuid@, self.plugins@.len());
                if errs.len() == 0 {
                    r matches Ok(x) && x == self
                } else {
                    r matches Err(e) && e.is(400, "Error: "@ + join(errs, ", "@))
                }
            }),
    {
        let mut errors: Vec<&str> = Vec::new();
        let c = self.company.as_str().as_bytes().len();
        if c < 10 || c > 15 {
            errors.push("Invalid company");
        }
        if self.uuid.as_str().as_bytes().len() < 10 {
            errors.push("Invalid uuid");
        }
        if self.plugins.len() < 1 {
            errors.push("Missing plugin info.");
        }
        let ghost errs = validation_errors(self.company@, self.uuid@, self.plugins@.len());
        assert(Seq::new(errors@.len(), |i: int| errors@[i]@) =~= errs);
        if errors.len() > 0 {
            let mut m = String::from_str("Error: ");
            let joined = join_strs(&errors, ", ");
            push_str(&mut m, joined.as_str());
            return Err(HttpError::with_message(400, m));
        }
        Ok(self)
    }

    /// A new license item with no plugin, for the license index and the email
    /// hash already set, and with a new offline secret.
    pub fn create_license_item(&self) -> (r: Result<AttrMap, HttpError>)
        ensures
            self.license_item is Some ==> (r matches Err(e) && e.is(500, "Error CLMR357f"@)),
            self.license_item is None && (self.license_index is None || self.email is None) ==> (r matches Err(e)
                && e.is(500, "Error CLMR360q"@)),
            self.license_item is None && self.license_index is Some && self.email is Some ==> (r matches Ok(m)
                && exists|s: Seq<char>|
                is_code(s, 5) && m.mv() == #[trigger] license_item_spec(
                    self.license_index->0@,
                    self.email->0@,
                    s,
                    self.uuid@,
                )),
    {
        if self.license_item.is_some() {
            return Err(HttpError::new(500, "Error CLMR357f"));
        }
        let (index, email) = match (&self.license_index, &self.email) {
            (Some(i), Some(e)) => (i, e),
            _ => {
                return Err(HttpError::new(500, "Error CLMR360q"));
            },
        };
        let secret = create_permanent_secret();
        let pairs = vec![
            ("id1", index.as_str()),
            ("id2", "all"),
            ("Email", email.as_str()),
            ("OfflineSecret", secret.as_str()),
            ("uuid", self.uuid.as_str()),
        ];
        assert(pairs_view(pairs@) =~= seq![
            ("id1"@, index@),
            ("id2"@, "all"@),
            ("Email"@, email@),
            ("OfflineSecret"@, secret@),
            ("uuid"@, self.uuid@),
        ]);
        let mut license_map = AttrMap::new_map(pairs);
        license_map.insert_map("Plugins", None);
        assert(license_map.mv() == license_item_spec(index@, email@, secret@, self.uuid@));
        Ok(license_map)
    }

    /// The key of the license item to fetch: there must be a license index
    /// and no license item yet.
    pub fn license_item_key(&self) -> (r: Result<AttrMap, HttpError>)
        ensures
            match (self.license_index, self.license_item) {
                (Some(i), None) => r matches Ok(k) && k.mv() == license_key_spec(i@),
                _ => r matches Err(e) && e.is(500, "Error CLMR347uj"@),
            },
    {
        match (&self.license_index, &self.license_item) {
            (Some(i), None) => Ok(license_key(i.as_str())),
            _ => Err(HttpError::new(500, "Error CLMR347uj")),
        }
    }

    /// The license item, from the answer to its lookup (the item found, no
    /// item, or a failed lookup); refused unless there is a license index and
    /// no license item yet, as for `license_item_key`.
    pub fn get_license_item(&self, reply: Result<Option<AttrMap>, String>) -> (r: Result<AttrMap, HttpError>)
        ensures
            match (self.license_index, self.license_item) {
                (Some(_), None) => match reply {
                    Err(_) => r matches Err(e) && e.is(500, "Error CLMR337wr"@),
                    Ok(None) => r matches Err(e) && e.is(500, "Error CLMR341fj"@),
                    Ok(Some(item)) => r matches Ok(m) && m.mv() == item.mv(),
                },
                _ => r matches Err(e) && e.is(500, "Error CLMR347uj"@),
            },
    {
        if !(self.license_index.is_some() && self.license_item.is_none()) {
            return Err(HttpError::new(500, "Error CLMR347uj"));
        }
        match reply {
            Err(_) => Err(HttpError::new(500, "Error CLMR337wr")),
            Ok(None) => Err(HttpError::new(500, "Error CLMR341fj")),
            Ok(Some(item)) => Ok(item),
        }
    }

    /// Starts preparing the license. For an existing user, refuses an order
    /// already placed and sets the license index from the user item; the
    /// license item is fetched next. A new user needs a license code first.
    pub fn prepare_to_license(&mut self) -> (r: Result<PrepareNext, HttpError>)
        requires
            old(self).user_item matches Some(u) ==> orders_are_list(u.mv()),
        ensures
            match old(self).user_item {
                None => r matches Ok(PrepareNext::NewUser) && *final(self) == *old(self),
                Some(u) => if duplicate_order(u.mv(), old(self).order_id@) {
                    (r matches Err(e) && e.is(425, "Error: duplicate order numbers"@)) && *final(self) == *old(self)
                } else {
                    match get_data_spec(u.mv(), "licenseIndex"@, 's') {
                        Err(m) => (r matches Err(e) && e.is(m.0, m.1)) && *final(self) == *old(self),
                        Ok(i) => {
                            &&& r matches Ok(PrepareNext::ExistingUser)
                            &&& final(self).license_index matches Some(x) && x@ == i
                            &&& final(self).license_item == old(self).license_item
                            &&& same_but_license(*final(self), *old(self))
                        },
                    }
                },
            },
    {
        let user = match &self.user_item {
            None => {
                return Ok(PrepareNext::NewUser);
            },
            Some(u) => u,
        };
        proof {
            lemma_mv_key_index(*user, "orders"@);
        }
        match user.get("orders") {
            Some(orders) => {
                proof {
                    orders.lemma_dv();
                }
                let list = orders.l.as_ref().unwrap();
                if holds_order(list, self.order_id.as_str()) {
                    return Err(HttpError::new(425, "Error: duplicate order numbers"));
                }
            },
            None => {},
        }
        let index = match user.get_data("licenseIndex", 's') {
            Err(e) => {
                return Err(e);
            },
            Ok(i) => i,
        };
        self.license_index = Some(index);
        Ok(PrepareNext::ExistingUser)
    }

    /// Ends preparing the license of an existing user with the license item
    /// fetched, and gives the user item.
    pub fn prepare_existing_user(&mut self, item: Result<AttrMap, HttpError>) -> (r: Result<AttrMap, HttpError>)
        requires
            old(self).user_item is Some,
        ensures
            match item {
                Err(e) => r == Err::<AttrMap, HttpError>(e) && *final(self) == *old(self),
                Ok(l) => {
                    &&& r matches Ok(u) && u.mv() == old(self).user_item->0.mv()
                    &&& final(self).license_item matches Some(x) && x.mv() == l.mv()
                    &&& final(self).license_index == old(self).license_index
                    &&& same_but_license(*final(self), *old(self))
                },
            },
    {
        let license = match item {
            Err(e) => {
                return Err(e);
            },
            Ok(l) => l,
        };
        let user_info = self.user_item.as_ref().unwrap().deep_clone();
        self.license_item = Some(license);
        Ok(user_info)
    }

    /// Ends preparing the license of a new user with the license code made
    /// for it (or the error of its making): sets the license index, and gives
    /// a new user item, whose company is the request's company encrypted with
    /// `encrypt_company_id`, and a new license item, with new offline secrets.
    pub fn prepare_new_user<E: Fn(String) -> String>(
        &mut self,
        code: Result<String, String>,
        encrypt_company_id: &E,
    ) -> (r: Result<AttrMap, HttpError>)
        requires
            text_fn_ok(*encrypt_company_id),
            code is Ok ==> old(self).email is Some,
        ensures
            match code {
                Err(m) => (r matches Err(e) && e.is(500, m@)) && *final(self) == *old(self),
                Ok(c) => {
                    &&& final(self).license_index matches Some(x) && x@ == c@
                    &&& same_but_license(*final(self), *old(self))
                    &&& old(self).license_item is Some ==> {
                        &&& r matches Err(e) && e.is(500, "Error CLMR357f"@)
                        &&& final(self).license_item == old(self).license_item
                    }
                    &&& old(self).license_item is None ==> {
                        &&& r matches Ok(u) && exists|s: Seq<char>|
                            is_code(s, 5) && u.mv() == #[trigger] new_user_spec(
                                text_of(*encrypt_company_id, old(self).company@),
                                old(self).uuid@,
                                old(self).email->0@,
                                c@,
                                s,
                            )
                        &&& final(self).license_item matches Some(l) && exists|s: Seq<char>|
                            is_code(s, 5) && l.mv() == #[trigger] license_item_spec(c@, old(self).email->0@, s, old(self).uuid@)
                    }
                },
            },
    {
        let index = match code {
            Err(m) => {
                return Err(HttpError::with_message(500, m));
            },
            Ok(c) => c,
        };
        let email = self.email.as_ref().unwrap().clone();
        let encrypted = apply_text(encrypt_company_id, self.company.as_str());
        let encrypted_company = encrypted.as_str();
        let secret = create_permanent_secret();
        let pairs = vec![
            ("company", encrypted_company),
            ("uuid", self.uuid.as_str()),
            ("emailHash", email.as_str()),
            ("licenseIndex", index.as_str()),
            ("OfflineSecret", secret.as_str()),
        ];
        assert(pairs_view(pairs@) =~= seq![
            ("company"@, encrypted_company@),
            ("uuid"@, self.uuid@),
            ("emailHash"@, email@),
            ("licenseIndex"@, index@),
            ("OfflineSecret"@, secret@),
        ]);
        let mut user_info = AttrMap::new_map(pairs);
        user_info.insert_map("licenses", None);
        assert(user_info.mv() == new_user_spec(encrypted_company@, self.uuid@, email@, index@, secret@));
        self.license_index = Some(index);
        let license = match self.create_license_item() {
            Err(e) => {
                return Err(e);
            },
            Ok(l) => l,
        };
        self.license_item = Some(license);
        Ok(user_info)
    }
}

// ---------------------------------------------------------------------
// Batch get

/// The ids of the plugins, in order.
pub open spec fn plugin_ids(plugins: Seq<Plugin>) -> Seq<Seq<char>> {
    Seq::new(plugins.len(), |i: int| plugins[i].id@)
}

/// The distinct texts of `ids`, in the order of their first occurrence.
pub open spec fn distinct(ids: Seq<Seq<char>>) -> Seq<Seq<char>>
    decreases ids.len(),
{
    if ids.len() == 0 {
        Seq::empty()
    } else {
        let d = distinct(ids.drop_last());
        if d.contains(ids.last()) {
            d
        } else {
            d.push(ids.last())
        }
    }
}

pub open spec fn strings_model(v: Seq<String>) -> Seq<Seq<char>> {
    Seq::new(v.len(), |i: int| v[i]@)
}

fn contains_str(v: &Vec<String>, s: &str) -> (r: bool)
    ensures
        r == strings_model(v@).contains(s@),
{
    let mut i: usize = 0;
    while i < v.len()
        invariant
            i <= v@.len(),
            forall|j: int| 0 <= j < i ==> v@[j]@ != s@,
        decreases v.len() - i,
    {
        if str_eq(v[i].as_str(), s) {
            assert(strings_model(v@)[i as int] == s@);
            return true;
        }
        i = i + 1;
    }
    proof {
        if strings_model(v@).contains(s@) {
            let j = choose|j: int| 0 <= j < strings_model(v@).len() && strings_model(v@)[j] == s@;
            assert(v@[j]@ == s@);
        }
    }
    false
}

/// The distinct ids of the plugins, in the order of their first occurrence.
pub fn distinct_plugin_ids(plugins: &Vec<Plugin>) -> (r: Vec<String>)
    ensures
        strings_model(r@) == distinct(plugin_ids(plugins@)),
{
    let ghost ids = plugin_ids(plugins@);
    let mut r: Vec<String> = Vec::new();
    let mut i: usize = 0;
    while i < plugins.len()
        invariant
            i <= plugins@.len(),
            ids == plugin_ids(plugins@),
            strings_model(r@) == distinct(ids.take(i as int)),
        decreases plugins.len() - i,
    {
        let id = plugins[i].id.as_str();
        proof {
            assert(ids.take(i + 1).drop_last() =~= ids.take(i as int));
            assert(ids.take(i + 1).last() == id@);
        }
        if !contains_str(&r, id) {
            let ghost before = r@;
            r.push(id.to_owned());
            assert(strings_model(r@) =~= strings_model(before).push(id@));
        }
        i = i + 1;
    }
    assert(ids.take(plugins@.len() as int) =~= ids);
    r
}

/// The keys asked for, table by table.
pub open spec fn tables_model(m: StrMap<Vec<AttrMap>>) -> Seq<(Seq<char>, Seq<MapModel>)> {
    Seq::new(m.entries@.len(), |i: int| (m.entries@[i].0@, items_list_model(m.entries@[i].1@)))
}

pub open spec fn items_list_model(v: Seq<AttrMap>) -> Seq<MapModel> {
    Seq::new(v.len(), |i: int| v[i].mv())
}

/// The key of an item with one string attribute.
pub open spec fn single_key(name: Seq<char>, value: Seq<char>) -> MapModel {
    put_strings(Seq::empty(), seq![(name, value)])
}

/// The keys of a batch get: the company (by its encrypted id), the user (by
/// company and uuid) and each distinct plugin.
pub open spec fn batch_get_keys_spec(d: Decrypted, encrypted_company: Seq<char>) -> Seq<(Seq<char>, Seq<MapModel>)> {
    let ids = distinct(plugin_ids(d.plugins@));
    seq![
        (COMPANY_TABLE_NAME@, seq![single_key("id"@, encrypted_company)]),
        (USERS_TABLE_NAME@, seq![put_strings(Seq::empty(), seq![("company"@, d.company@), ("uuid"@, d.uuid@)])]),
        (PLUGINS_TABLE_NAME@, Seq::new(ids.len(), |i: int| single_key("id"@, ids[i]))),
    ]
}

fn single_key_map(name: &str, value: &str) -> (r: AttrMap)
    ensures
        r.mv() == single_key(name@, value@),
{
    let pairs = vec![(name, value)];
    assert(pairs_view(pairs@) =~= seq![(name@, value@)]);
    AttrMap::new_map(pairs)
}

/// The answer to a batch get: a failure with its text, an answer without
/// responses, or the items found, table by table.
#[derive(Debug)]
pub enum BatchGetReply {
    Failed(String),
    NoResponses,
    Responses(StrMap<Vec<AttrMap>>),
}

/// Reads the answer to a batch get.
pub trait BatchGetUtils {
    fn get_item_vec_map(&self) -> Result<StrMap<Vec<AttrMap>>, HttpError>;
}

fn clone_items(v: &Vec<AttrMap>) -> (r: Vec<AttrMap>)
    ensures
        items_list_model(r@) == items_list_model(v@),
{
    let mut r: Vec<AttrMap> = Vec::new();
    let mut i: usize = 0;
    while i < v.len()
        invariant
            i <= v@.len(),
            r@.len() == i,
            forall|j: int| 0 <= j < i ==> (#[trigger] r@[j]).mv() == v@[j].mv(),
        decreases v.len() - i,
    {
        r.push(v[i].deep_clone());
        i = i + 1;
    }
    assert(items_list_model(r@) =~= items_list_model(v@));
    r
}

fn clone_tables(m: &StrMap<Vec<AttrMap>>) -> (r: StrMap<Vec<AttrMap>>)
    ensures
        tables_model(r) == tables_model(*m),
{
    let mut out: Vec<(String, Vec<AttrMap>)> = Vec::new();
    let mut i: usize = 0;
    while i < m.entries.len()
        invariant
            i <= m.entries@.len(),
            out@.len() == i,
            forall|j: int|
                0 <= j < i ==> (#[trigger] out@[j]).0@ == m.entries@[j].0@ && items_list_model(out@[j].1@)
                    == items_list_model(m.entries@[j].1@),
        decreases m.entries.len() - i,
    {
        out.push((m.entries[i].0.clone(), clone_items(&m.entries[i].1)));
        i = i + 1;
    }
    let r = StrMap { entries: out };
    assert(tables_model(r) =~= tables_model(*m));
    r
}

/// What the answer to a batch get gives: the items found, a 500 error with
/// the failure's text, or 403 without responses.
pub open spec fn item_vec_map_spec(reply: BatchGetReply) -> Result<Seq<(Seq<char>, Seq<MapModel>)>, ErrModel> {
    match reply {
        BatchGetReply::Failed(e) => Err((500u16, "Error CLBGU15: "@ + e@)),
        BatchGetReply::NoResponses => Err((403u16, "Invalid request."@)),
        BatchGetReply::Responses(m) => Ok(tables_model(m)),
    }
}

impl BatchGetUtils for BatchGetReply {
    fn get_item_vec_map(&self) -> (r: Result<StrMap<Vec<AttrMap>>, HttpError>)
        ensures
            match item_vec_map_spec(*self) {
                Ok(t) => r matches Ok(m) && tables_model(m) == t,
                Err(e) => r matches Err(x) && x.is(e.0, e.1),
            },
    {
        match self {
            BatchGetReply::Failed(e) => {
                let mut m = String::from_str("Error CLBGU15: ");
                push_str(&mut m, e.as_str());
                Err(HttpError::with_message(500, m))
            },
            BatchGetReply::NoResponses => Err(HttpError::new(403, "Invalid request.")),
            BatchGetReply::Responses(m) => Ok(clone_tables(m)),
        }
    }
}

/// The plugins found, by their decrypted ids: a later plugin with the same
/// id takes the place of an earlier one; a plugin without a string id stops
/// with the error of `get_data`.
pub open spec fn plugin_map_spec<F: Fn(String) -> String>(items: Seq<MapModel>, decrypt: F) -> Result<Seq<(Seq<char>, MapModel)>, ErrModel>
    decreases items.len(),
{
    if items.len() == 0 {
        Ok(Seq::empty())
    } else {
        match plugin_map_spec(items.drop_last(), decrypt) {
            Err(e) => Err(e),
            Ok(m) => match get_data_spec(items.last(), "id"@, 's') {
                Err(e) => Err(e),
                Ok(id) => Ok(put(m, text_of(decrypt, id), items.last())),
            },
        }
    }
}

/// What a batch get makes of a request.
pub enum BatchGetOutcome {
    /// Refused before any item is set.
    Refused(ErrModel),
    /// The company item is set, then the error.
    CompanyOnly(MapModel, ErrModel),
    /// The company and plugin items are set, then the error on the user.
    BadUser(MapModel, Seq<(Seq<char>, MapModel)>, ErrModel),
    /// The company and plugin items are set, and the user item if found.
    Done(MapModel, Seq<(Seq<char>, MapModel)>, Option<MapModel>),
}

/// What a batch get makes of the answer, with `n_ids` plugins asked for.
pub open spec fn batch_get_spec<F: Fn(String) -> String>(
    n_ids: nat,
    responses: Result<Seq<(Seq<char>, Seq<MapModel>)>, ErrModel>,
    decrypt: F,
) -> BatchGetOutcome {
    match responses {
        Err(e) => BatchGetOutcome::Refused(e),
        Ok(r) => {
            let company = lookup(r, COMPANY_TABLE_NAME@);
            let user = lookup(r, USERS_TABLE_NAME@);
            let plugins = lookup(r, PLUGINS_TABLE_NAME@);
            if plugins is None || company is None || company->0.len() != 1 {
                BatchGetOutcome::Refused((403u16, "Forbidden"@))
            } else if plugins->0.len() != n_ids {
                BatchGetOutcome::CompanyOnly(company->0[0], (500u16, "Error CLMR222"@))
            } else {
                match plugin_map_spec(plugins->0, decrypt) {
                    Err(e) => BatchGetOutcome::CompanyOnly(company->0[0], e),
                    Ok(pm) => match user {
                        Some(u) => if u.len() == 1 {
                            BatchGetOutcome::Done(company->0[0], pm, Some(u[0]))
                        } else if u.len() != 0 {
                            BatchGetOutcome::BadUser(company->0[0], pm, (500u16, "Error CLMR212"@))
                        } else {
                            BatchGetOutcome::Done(company->0[0], pm, None)
                        },
                        None => BatchGetOutcome::Done(company->0[0], pm, None),
                    },
                }
            }
        },
    }
}

proof fn lemma_tables_lookup(m: StrMap<Vec<AttrMap>>, k: Seq<char>)
    ensures
        lookup(tables_model(m), k) == match lookup(m.kv(), k) {
            Some(v) => Some(items_list_model(v@)),
            None => None,
        },
{
    lemma_same_keys(m.kv(), tables_model(m), k);
    crate::attr::lemma_key_index_facts(m.kv(), k);
}

proof fn lemma_items_put(m: StrMap<AttrMap>, k: Seq<char>, v: AttrMap, m2: StrMap<AttrMap>)
    requires
        m2.kv() == put(m.kv(), k, v),
    ensures
        items_model(m2) == put(items_model(m), k, v.mv()),
{
    lemma_same_keys(m.kv(), items_model(m), k);
    crate::attr::lemma_key_index_facts(m.kv(), k);
    assert(items_model(m2) =~= put(items_model(m), k, v.mv())) by {
        assert(m2.kv().len() == items_model(m2).len());
        assert forall|i: int| 0 <= i < items_model(m2).len() implies #[trigger] items_model(m2)[i] == put(
            items_model(m),
            k,
            v.mv(),
        )[i] by {
            assert(items_model(m2)[i] == (m2.kv()[i].0, m2.kv()[i].1.mv()));
        }
    }
}

fn build_plugin_map<F: Fn(String) -> String>(plugins: &Vec<AttrMap>, decrypt: &F) -> (r: Result<StrMap<AttrMap>, HttpError>)
    requires
        text_fn_ok(*decrypt),
    ensures
        match plugin_map_spec(items_list_model(plugins@), *decrypt) {
            Ok(pm) => r matches Ok(m) && items_model(m) == pm,
            Err(e) => r matches Err(x) && x.is(e.0, e.1),
        },
{
    let ghost all = items_list_model(plugins@);
    let mut map: StrMap<AttrMap> = StrMap::new();
    assert(items_model(map) =~= Seq::<(Seq<char>, MapModel)>::empty());
    let mut i: usize = 0;
    while i < plugins.len()
        invariant
            i <= plugins@.len(),
            all == items_list_model(plugins@),
            text_fn_ok(*decrypt),
            plugin_map_spec(all.take(i as int), *decrypt) == Ok::<Seq<(Seq<char>, MapModel)>, ErrModel>(items_model(map)),
        decreases plugins.len() - i,
    {
        let plugin = &plugins[i];
        proof {
            assert(all.take(i + 1).drop_last() =~= all.take(i as int));
            assert(all.take(i + 1).last() == plugin.mv());
        }
        let id = match plugin.get_data("id", 's') {
            Err(e) => {
                proof {
                    lemma_plugin_map_stops(all, (i + 1) as nat, *decrypt);
                }
                return Err(e);
            },
            Ok(x) => x,
        };
        let key = apply_text(decrypt, id.as_str());
        let ghost before = map;
        let value = plugin.deep_clone();
        let ghost vv = value;
        map.insert(key, value);
        proof {
            lemma_items_put(before, text_of(*decrypt, id@), vv, map);
        }
        i = i + 1;
    }
    assert(all.take(plugins@.len() as int) =~= all);
    Ok(map)
}

proof fn lemma_plugin_map_stops<F: Fn(String) -> String>(all: Seq<MapModel>, n: nat, decrypt: F)
    requires
        n <= all.len(),
        plugin_map_spec(all.take(n as int), decrypt) is Err,
    ensures
        plugin_map_spec(all, decrypt) == plugin_map_spec(all.take(n as int), decrypt),
    decreases all.len() - n,
{
    if n < all.len() {
        assert(all.take((n + 1) as int).drop_last() =~= all.take(n as int));
        lemma_plugin_map_stops(all, n + 1, decrypt);
    } else {
        assert(all.take(n as int) =~= all);
    }
}

impl Decrypted {
    /// The keys of the batch get that fills in the company, user and plugin
    /// items, table by table; the company is looked up by its id encrypted
    /// with `encrypt_company_id`, as the company table keys it. Refused when an item is already there, or
    /// without plugins.
    pub fn batch_get_keys<E: Fn(String) -> String>(&self, encrypt_company_id: &E) -> (r: Result<StrMap<Vec<AttrMap>>, HttpError>)
        requires
            text_fn_ok(*encrypt_company_id),
        ensures
            self.company_item is Some || self.user_item is Some || self.plugin_items is Some ==> (r matches Err(e)
                && e.is(500, "self.batch_get() was called twice"@)),
            self.company_item is None && self.user_item is None && self.plugin_items is None ==> {
                if distinct(plugin_ids(self.plugins@)).len() < 1 {
                    r matches Err(e) && e.is(400, "missing plugin info."@)
                } else {
                    r matches Ok(m) && tables_model(m) == batch_get_keys_spec(*self, text_of(*encrypt_company_id, self.company@))
                }
            },
    {
        if self.company_item.is_some() || self.user_item.is_some() || self.plugin_items.is_some() {
            return Err(HttpError::new(crate::error::DEFAULT_ERROR_STATUS_CODE, "self.batch_get() was called twice"));
        }
        let encrypted = apply_text(encrypt_company_id, self.company.as_str());
        let encrypted_company = encrypted.as_str();
        let company_keys = vec![single_key_map("id", encrypted_company)];
        let user_pairs = vec![("company", self.company.as_str()), ("uuid", self.uuid.as_str())];
        assert(pairs_view(user_pairs@) =~= seq![("company"@, self.company@), ("uuid"@, self.uuid@)]);
        let user_keys = vec![AttrMap::new_map(user_pairs)];
        let ids = distinct_plugin_ids(&self.plugins);
        let mut plugin_keys: Vec<AttrMap> = Vec::new();
        let mut i: usize = 0;
        while i < ids.len()
            invariant
                i <= ids@.len(),
                plugin_keys@.len() == i,
                forall|j: int| 0 <= j < i ==> (#[trigger] plugin_keys@[j]).mv() == single_key("id"@, ids@[j]@),
            decreases ids.len() - i,
        {
            plugin_keys.push(single_key_map("id", ids[i].as_str()));
            i = i + 1;
        }
        if plugin_keys.len() < 1 {
            return Err(HttpError::new(400, "missing plugin info."));
        }
        let entries = vec![
            (COMPANY_TABLE_NAME.to_owned(), company_keys),
            (USERS_TABLE_NAME.to_owned(), user_keys),
            (PLUGINS_TABLE_NAME.to_owned(), plugin_keys),
        ];
        let r = StrMap { entries };
        assert(tables_model(r) =~= batch_get_keys_spec(*self, encrypted_company@)) by {
            assert(items_list_model(plugin_keys@) =~= Seq::new(
                distinct(plugin_ids(self.plugins@)).len(),
                |j: int| single_key("id"@, distinct(plugin_ids(self.plugins@))[j]),
            ));
            assert(items_list_model(company_keys@) =~= seq![single_key("id"@, encrypted_company@)]);
            assert(items_list_model(user_keys@) =~= seq![
                put_strings(Seq::empty(), seq![("company"@, self.company@), ("uuid"@, self.uuid@)]),
            ]);
            let t = tables_model(r);
            let w = batch_get_keys_spec(*self, encrypted_company@);
            assert(t.len() == w.len());
            assert(t[0] == w[0]);
            assert(t[1] == w[1]);
            assert(t[2] == w[2]);
        }
        Ok(r)
    }

    /// Fills in the company, plugin and user items from the answer to the
    /// batch get whose keys `batch_get_keys` gives; `decrypt_plugin_id` gives
    /// a plugin's id from its stored id. Refused, as `batch_get_keys` is,
    /// when an item is already there or without plugins. Each item is set as
    /// soon as it is read, so an error can leave the company (and plugin)
    /// items set.
    pub fn batch_get<F: Fn(String) -> String>(&mut self, reply: BatchGetReply, decrypt_plugin_id: &F) -> (r: Result<(), HttpError>)
        requires
            text_fn_ok(*decrypt_plugin_id),
        ensures
            old(self).company_item is Some || old(self).user_item is Some || old(self).plugin_items is Some ==> {
                &&& r matches Err(e) && e.is(500, "self.batch_get() was called twice"@)
                &&& *final(self) == *old(self)
            },
            old(self).company_item is None && old(self).user_item is None && old(self).plugin_items is None
                && distinct(plugin_ids(old(self).plugins@)).len() < 1 ==> {
                &&& r matches Err(e) && e.is(400, "missing plugin info."@)
                &&& *final(self) == *old(self)
            },
            old(self).company_item is None && old(self).user_item is None && old(self).plugin_items is None
                && distinct(plugin_ids(old(self).plugins@)).len() >= 1 ==> ({
                let n = distinct(plugin_ids(old(self).plugins@)).len();
                match batch_get_spec(n, item_vec_map_spec(reply), *decrypt_plugin_id) {
                    BatchGetOutcome::Refused(e) => (r matches Err(x) && x.is(e.0, e.1)) && *final(self) == *old(self),
                    BatchGetOutcome::CompanyOnly(c, e) => {
                        &&& r matches Err(x) && x.is(e.0, e.1)
                        &&& final(self).company_item matches Some(x) && x.mv() == c
                        &&& batch_same(*final(self), *old(self))
                        &&& final(self).plugin_items == old(self).plugin_items
                        &&& final(self).user_item == old(self).user_item
                    },
                    BatchGetOutcome::BadUser(c, pm, e) => {
                        &&& r matches Err(x) && x.is(e.0, e.1)
                        &&& final(self).company_item matches Some(x) && x.mv() == c
                        &&& final(self).plugin_items matches Some(p) && items_model(p) == pm
                        &&& batch_same(*final(self), *old(self))
                        &&& final(self).user_item == old(self).user_item
                    },
                    BatchGetOutcome::Done(c, pm, u) => {
                        &&& r is Ok
                        &&& final(self).company_item matches Some(x) && x.mv() == c
                        &&& final(self).plugin_items matches Some(p) && items_model(p) == pm
                        &&& batch_same(*final(self), *old(self))
                        &&& match u {
                            Some(um) => final(self).user_item matches Some(x) && x.mv() == um,
                            None => final(self).user_item == old(self).user_item,
                        }
                    },
                }
            }),
    {
        if self.company_item.is_some() || self.user_item.is_some() || self.plugin_items.is_some() {
            return Err(HttpError::new(crate::error::DEFAULT_ERROR_STATUS_CODE, "self.batch_get() was called twice"));
        }
        if distinct_plugin_ids(&self.plugins).len() < 1 {
            return Err(HttpError::new(400, "missing plugin info."));
        }
        let responses = match reply.get_item_vec_map() {
            Err(e) => {
                return Err(e);
            },
            Ok(m) => m,
        };
        proof {
            lemma_tables_lookup(responses, COMPANY_TABLE_NAME@);
            lemma_tables_lookup(responses, USERS_TABLE_NAME@);
            lemma_tables_lookup(responses, PLUGINS_TABLE_NAME@);
        }
        let company_opt = responses.get(COMPANY_TABLE_NAME);
        let user_opt = responses.get(USERS_TABLE_NAME);
        let plugins_opt = responses.get(PLUGINS_TABLE_NAME);
        let (comp_vec, plugins_vec) = match (company_opt, plugins_opt) {
            (Some(c), Some(p)) => (c, p),
            _ => {
                return Err(HttpError::new(403, "Forbidden"));
            },
        };
        if comp_vec.len() == 1 {
            self.company_item = Some(comp_vec[0].deep_clone());
        } else {
            return Err(HttpError::new(403, "Forbidden"));
        }
        let ids = distinct_plugin_ids(&self.plugins);
        if plugins_vec.len() == ids.len() {
            let plugin_map = match build_plugin_map(plugins_vec, decrypt_plugin_id) {
                Err(e) => {
                    return Err(e);
                },
                Ok(m) => m,
            };
            self.plugin_items = Some(plugin_map);
        } else {
            return Err(HttpError::new(500, "Error CLMR222"));
        }
        match user_opt {
            Some(user_vec) => {
                let len = user_vec.len();
                if len == 1 {
                    self.user_item = Some(user_vec[0].deep_clone());
                } else if len != 0 {
                    return Err(HttpError::new(500, "Error CLMR212"));
                }
            },
            None => {},
        }
        Ok(())
    }
}

/// The two requests have the same fields, but for the items that a batch
/// get fills in.
pub open spec fn batch_same(a: Decrypted, b: Decrypted) -> bool {
    &&& a.company == b.company
    &&& a.uuid == b.uuid
    &&& a.plugins == b.plugins
    &&& a.order_id == b.order_id
    &&& a.first_name == b.first_name
    &&& a.last_name == b.last_name
    &&& a.email == b.email
    &&& a.license_index == b.license_index
    &&& a.license_item == b.license_item
}

// ---------------------------------------------------------------------
// Normalizing a request

/// A company or plugin id as kept: its ASCII letters and digits, in
/// uppercase.
pub open spec fn cleansed(t: Seq<char>) -> Seq<char> {
    cleanse_spec(t, "ASDFGHJKLQWERTYUIOPZXCVBNM1234567890"@ + ""@, true)
}

/// A name as kept: the name given, or "Not disclosed".
pub open spec fn disclosed(o: Option<String>) -> Seq<char> {
    match o {
        Some(s) => s@,
        None => "Not disclosed"@,
    }
}

/// The email as kept: the hash of the address given, or "Not disclosed".
pub open spec fn email_kept<S: Fn(String) -> String>(o: Option<String>, salt: S) -> Seq<char> {
    match o {
        Some(s) => hash_email_spec(salt, s@),
        None => "Not disclosed"@,
    }
}

/// `q` is the plugin `p` under the id `id`.
pub open spec fn plugin_with_id(q: Plugin, p: Plugin, id: Seq<char>) -> bool {
    &&& q.id@ == id
    &&& q.license_type == p.license_type
    &&& q.quantity == p.quantity
    &&& q.machine_limit == p.machine_limit
    &&& q.subtotal == p.subtotal
    &&& q.custom_success_message == p.custom_success_message
}

/// `d` is the request `req` as kept: names and email filled in, the email
/// hashed, the company id cleansed and each plugin id cleansed and encrypted
/// with the company id by `encrypt`.
pub open spec fn normalized<S: Fn(String) -> String, E: Fn(String, String) -> String>(
    d: Decrypted,
    req: Decrypted,
    salt: S,
    encrypt: E,
) -> bool {
    let company = cleansed(req.company@);
    &&& d.company@ == company
    &&& d.uuid == req.uuid
    &&& d.order_id == req.order_id
    &&& d.first_name matches Some(f) && f@ == disclosed(req.first_name)
    &&& d.last_name matches Some(l) && l@ == disclosed(req.last_name)
    &&& d.email matches Some(e) && e@ == email_kept(req.email, salt)
    &&& d.plugins@.len() == req.plugins@.len()
    &&& forall|i: int|
        0 <= i < d.plugins@.len() ==> plugin_with_id(
            #[trigger] d.plugins@[i],
            req.plugins@[i],
            text2_of(encrypt, company, cleansed(req.plugins@[i].id@)),
        )
    &&& d.user_item == req.user_item
    &&& d.company_item == req.company_item
    &&& d.plugin_items == req.plugin_items
    &&& d.license_index == req.license_index
    &&& d.license_item == req.license_item
}

fn or_not_disclosed(o: Option<String>) -> (r: Option<String>)
    ensures
        r matches Some(s) && s@ == disclosed(o),
{
    match o {
        Some(s) => Some(s),
        None => Some(String::from_str("Not disclosed")),
    }
}

impl Decrypted {
    /// Makes a parsed request ready: fills in missing names and email,
    /// hashes the email with `salt`, cleanses the company id, cleanses each
    /// plugin id and encrypts it with the company id by `encrypt_plugin_id`,
    /// then validates the result.
    pub fn new<S: Fn(String) -> String, E: Fn(String, String) -> String>(
        request: Decrypted,
        salt: &S,
        encrypt_plugin_id: &E,
    ) -> (r: Result<Decrypted, HttpError>)
        requires
            text_fn_ok(*salt),
            text_fn2_ok(*encrypt_plugin_id),
        ensures
            ({
                let errs = validation_errors(cleansed(request.company@), request.uuid@, request.plugins@.len());
                if errs.len() == 0 {
                    r matches Ok(d) && normalized(d, request, *salt, *encrypt_plugin_id)
                } else {
                    r matches Err(e) && e.is(400, "Error: "@ + join(errs, ", "@))
                }
            }),
    {
        let ghost req = request;
        let mut request = request;
        request.first_name = or_not_disclosed(request.first_name);
        request.last_name = or_not_disclosed(request.last_name);
        request.email = match request.email {
            None => Some(String::from_str("Not disclosed")),
            Some(e) => Some(e.hash_email(salt)),
        };
        request.company = cleanse(request.company.as_str(), "", true);
        let mut plugins: Vec<Plugin> = Vec::new();
        let mut i: usize = 0;
        while i < request.plugins.len()
            invariant
                i <= request.plugins@.len(),
                request.plugins == req.plugins,
                request.company@ == cleansed(req.company@),
                text_fn2_ok(*encrypt_plugin_id),
                plugins@.len() == i,
                forall|j: int|
                    0 <= j < i ==> plugin_with_id(
                        #[trigger] plugins@[j],
                        req.plugins@[j],
                        text2_of(*encrypt_plugin_id, cleansed(req.company@), cleansed(req.plugins@[j].id@)),
                    ),
            decreases request.plugins.len() - i,
        {
            let p = &request.plugins[i];
            let id = cleanse(p.id.as_str(), "", true);
            let encrypted = apply_text2(encrypt_plugin_id, request.company.as_str(), id.as_str());
            plugins.push(
                Plugin {
                    id: encrypted,
                    license_type: p.license_type.clone(),
                    quantity: clone_opt_string(&p.quantity),
                    machine_limit: clone_opt_string(&p.machine_limit),
                    subtotal: p.subtotal.clone(),
                    custom_success_message: clone_opt_string(&p.custom_success_message),
                },
            );
            i = i + 1;
        }
        request.plugins = plugins;
        request.validate()
    }
}

// ---------------------------------------------------------------------
// Signature and writing

/// What `verify_signature_db` needs to run to the end: where the company
/// item holds a public key, the signature can be checked with it.
pub open spec fn db_signature_checkable(d: Decrypted, signature: Seq<char>, signed_stuff: Seq<char>) -> bool {
    d.company_item matches Some(c) ==> (get_data_spec(c.mv(), "publicKey"@, 's') matches Ok(pk) ==> signature_checkable(
        pk,
        signed_stuff,
        signature,
    ))
}

/// What `verify_signature_db` answers: 403 without a company item, the error
/// of reading its public key, or the outcome of checking the signature.
pub open spec fn verify_signature_db_spec(d: Decrypted, signature: Seq<char>, signed_stuff: Seq<char>) -> Result<(), ErrModel> {
    match d.company_item {
        None => Err((403u16, "Forbidden"@)),
        Some(c) => match get_data_spec(c.mv(), "publicKey"@, 's') {
            Err(e) => Err(e),
            Ok(pk) => verify_signature_spec(pk, signed_stuff, signature),
        },
    }
}

/// The items that a batch write puts, table by table.
pub open spec fn batch_write_spec(license: MapModel, user: MapModel) -> Seq<(Seq<char>, Seq<MapModel>)> {
    seq![(LICENSE_TABLE_NAME@, seq![license]), (USERS_TABLE_NAME@, seq![user])]
}

impl Decrypted {
    /// Checks the signature with the public key stored in the company item.
    pub fn verify_signature_db(&self, signature: &str, signed_stuff: &str) -> (r: Result<(), HttpError>)
        requires
            db_signature_checkable(*self, signature@, signed_stuff@),
        ensures
            unit_result_is(r, verify_signature_db_spec(*self, signature@, signed_stuff@)),
    {
        let company_item = match &self.company_item {
            Some(c) => c,
            None => {
                return Err(HttpError::new(403, "Forbidden"));
            },
        };
        let public_key = match company_item.get_data("publicKey", 's') {
            Err(e) => {
                return Err(e);
            },
            Ok(k) => k,
        };
        verify_signature(public_key.as_str(), signed_stuff, signature)
    }

    /// `verify_signature_db` where it runs to the end; `None` where it would
    /// not.
    pub fn verify_signature_db_checked(&self, signature: &str, signed_stuff: &str) -> (r: Option<Result<(), HttpError>>)
        ensures
            r is None <==> !db_signature_checkable(*self, signature@, signed_stuff@),
            r matches Some(x) ==> unit_result_is(x, verify_signature_db_spec(*self, signature@, signed_stuff@)),
    {
        if let Some(c) = &self.company_item {
            if let Ok(k) = c.get_data("publicKey", 's') {
                if !signature_is_checkable(k.as_str(), signed_stuff, signature) {
                    return None;
                }
            }
        }
        Some(self.verify_signature_db(signature, signed_stuff))
    }

    /// The items to write: the license item to the license table and the
    /// user item to the users table.
    pub fn batch_write_items(&self) -> (r: StrMap<Vec<AttrMap>>)
        requires
            self.user_item is Some,
            self.license_item is Some,
        ensures
            tables_model(r) == batch_write_spec(self.license_item->0.mv(), self.user_item->0.mv()),
    {
        let user_write = self.user_item.as_ref().unwrap().deep_clone();
        let license_write = self.license_item.as_ref().unwrap().deep_clone();
        let license_items = vec![license_write];
        let user_items = vec![user_write];
        assert(items_list_model(license_items@) =~= seq![self.license_item->0.mv()]);
        assert(items_list_model(user_items@) =~= seq![self.user_item->0.mv()]);
        let r = StrMap {
            entries: vec![(LICENSE_TABLE_NAME.to_owned(), license_items), (USERS_TABLE_NAME.to_owned(), user_items)],
        };
        assert(tables_model(r) =~~= batch_write_spec(self.license_item->0.mv(), self.user_item->0.mv()));
        r
    }

    /// The outcome of the batch write, from its answer: a failure becomes a
    /// 500 error with its text.
    pub fn batch_write(reply: Result<(), String>) -> (r: Result<(), HttpError>)
        ensures
            match reply {
                Ok(_) => r is Ok,
                Err(e) => r matches Err(x) && x.is(500, "Error CLNB33: "@ + e@),
            },
    {
        match reply {
            Ok(_) => Ok(()),
            Err(e) => {
                let mut m = String::from_str("Error CLNB33: ");
                push_str(&mut m, e.as_str());
                Err(HttpError::with_message(500, m))
            },
        }
    }
}

} // verus!
