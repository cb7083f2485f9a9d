use vstd::prelude::*;

use crate::attr::{opt_string_model, AttrMap, AttrModel, AttrValue, MapModel, StrMap, bool_model, l_model, list_model, lemma_mv_key_index, lemma_mv_put, lemma_put_put, lookup, m_model, n_model, opt_model, put, s_model};
use crate::error::HttpError;
use crate::text::{decimal, parse_u16, parse_u16_spec, push_str, u16_to_string};

verus! {

/// A second set of item operations; it has none yet.
pub trait Maps2ElectricBoogaloo {}

/// Selects a string attribute in `insert_data` and `get_data`.
pub const S: char = 's';

/// Selects a number attribute in `insert_data` and `get_data`.
pub const N: char = 'n';

/// An error as its status code and message.
pub type ErrModel = (u16, Seq<char>);

/// `r` is the string or the error that `s` describes.
pub open spec fn str_result_is(r: Result<String, HttpError>, s: Result<Seq<char>, ErrModel>) -> bool {
    match (r, s) {
        (Ok(x), Ok(y)) => x@ == y,
        (Err(e), Err(m)) => e.is(m.0, m.1),
        _ => false,
    }
}

/// `r` is the item or the error that `s` describes.
pub open spec fn map_result_is(r: Result<AttrMap, HttpError>, s: Result<MapModel, ErrModel>) -> bool {
    match (r, s) {
        (Ok(x), Ok(y)) => x.mv() == y,
        (Err(e), Err(m)) => e.is(m.0, m.1),
        _ => false,
    }
}

/// `r` is the success or the error that `s` describes.
pub open spec fn unit_result_is(r: Result<(), HttpError>, s: Result<(), ErrModel>) -> bool {
    match (r, s) {
        (Ok(_), Ok(_)) => true,
        (Err(e), Err(m)) => e.is(m.0, m.1),
        _ => false,
    }
}

/// The value that `insert_data` stores for `data` of kind `t`.
pub open spec fn data_model(data: Seq<char>, t: char) -> AttrModel {
    if t == 's' {
        s_model(data)
    } else {
        n_model(data)
    }
}

/// What `get_data` gives for key `key` and kind `t`.
pub open spec fn get_data_spec(m: MapModel, key: Seq<char>, t: char) -> Result<Seq<char>, ErrModel> {
    match lookup(m, key) {
        None => Err((500u16, "Oopsie whoopsy, there's been an error. CLM34"@)),
        Some(v) => if t == 's' {
            field_or_missing(v.s)
        } else if t == 'n' {
            field_or_missing(v.n)
        } else {
            Err((500u16, "Error CLMU160"@))
        },
    }
}

/// The text of a field, or the error for a missing one.
pub open spec fn field_or_missing(f: Option<Seq<char>>) -> Result<Seq<char>, ErrModel> {
    match f {
        Some(x) => Ok(x),
        None => Err((500u16, "Oopsie whoopsie. Let us know you hit this error, pls. CLM38"@)),
    }
}

fn field_text(f: &Option<String>) -> (r: Result<String, HttpError>)
    ensures
        str_result_is(r, field_or_missing(opt_string_model(*f))),
{
    match f {
        Some(x) => Ok(x.clone()),
        None => Err(HttpError::new(500, "Oopsie whoopsie. Let us know you hit this error, pls. CLM38")),
    }
}

/// What `get_m` gives for key `key`, with `er` in its error messages.
pub open spec fn get_m_spec(m: MapModel, key: Seq<char>, er: Seq<char>) -> Result<MapModel, ErrModel> {
    match lookup(m, key) {
        Some(v) => match v.m {
            Some(x) => Ok(x),
            None => Err((500u16, "Error M22, "@ + er)),
        },
        None => Err((500u16, "Error M24, "@ + er)),
    }
}

/// `m` with each key of `pairs`, in order, set to a string attribute.
pub open spec fn put_strings(m: MapModel, pairs: Seq<(Seq<char>, Seq<char>)>) -> MapModel
    decreases pairs.len(),
{
    if pairs.len() == 0 {
        m
    } else {
        put(put_strings(m, pairs.drop_last()), pairs.last().0, s_model(pairs.last().1))
    }
}

pub open spec fn pairs_view(v: Seq<(&str, &str)>) -> Seq<(Seq<char>, Seq<char>)> {
    Seq::new(v.len(), |i: int| (v[i].0@, v[i].1@))
}

/// `increase_number` can run without a panic: a present value is a number
/// whose sum with `to_add` fits in 16 bits when it parses.
pub open spec fn increase_number_ok(m: MapModel, key: Seq<char>, to_add: u16) -> bool {
    match lookup(m, key) {
        Some(v) => v.n is Some && (parse_u16_spec(v.n->0) matches Some(o) ==> o + to_add <= 65535),
        None => true,
    }
}

/// What `increase_number` makes of an item, and what it returns.
pub open spec fn increase_number_spec(m: MapModel, key: Seq<char>, to_add: u16) -> (MapModel, Result<(), ErrModel>) {
    let first = put(m, key, n_model(decimal(to_add as nat)));
    match lookup(m, key) {
        None => (first, Ok(())),
        Some(v) => match parse_u16_spec(v.n->0) {
            None => (first, Err((500u16, "Error CLMA63dw; key="@ + key))),
            Some(o) => (put(m, key, n_model(decimal((to_add + o) as nat))), Ok(())),
        },
    }
}

/// The outcome of adding two decimal numbers given as text.
#[derive(Debug)]
pub enum DecimalSum {
    /// The text of the sum.
    Sum(String),
    /// The first number does not parse.
    FirstInvalid,
    /// The second number does not parse.
    SecondInvalid,
}

/// The mathematical value of a `DecimalSum`.
pub enum SumModel {
    Sum(Seq<char>),
    FirstInvalid,
    SecondInvalid,
}

impl DecimalSum {
    pub open spec fn model(self) -> SumModel {
        match self {
            DecimalSum::Sum(s) => SumModel::Sum(s@),
            DecimalSum::FirstInvalid => SumModel::FirstInvalid,
            DecimalSum::SecondInvalid => SumModel::SecondInvalid,
        }
    }
}

/// `f` can be called on any two strings and its outcome depends on their
/// characters alone.
pub open spec fn sum_is_function<F: Fn(String, String) -> DecimalSum>(f: F) -> bool {
    &&& forall|a: String, b: String| #[trigger] f.requires((a, b))
    &&& forall|a1: String, b1: String, a2: String, b2: String, r1: DecimalSum, r2: DecimalSum|
        a1@ == a2@ && b1@ == b2@ && #[trigger] f.ensures((a1, b1), r1) && #[trigger] f.ensures((a2, b2), r2)
            ==> r1.model() == r2.model()
}

/// The outcome of `f` on strings with characters `a` and `b`.
pub open spec fn sum_of<F: Fn(String, String) -> DecimalSum>(f: F, a: Seq<char>, b: Seq<char>) -> SumModel {
    (choose|r: DecimalSum| #[trigger] sum_witness(f, a, b, r)).model()
}

/// `f` may give `r` for strings with characters `a` and `b`.
pub open spec fn sum_witness<F: Fn(String, String) -> DecimalSum>(f: F, a: Seq<char>, b: Seq<char>, r: DecimalSum) -> bool {
    exists|x: String, y: String| x@ == a && y@ == b && #[trigger] f.ensures((x, y), r)
}

pub proof fn lemma_sum_of<F: Fn(String, String) -> DecimalSum>(f: F, x: String, y: String, r: DecimalSum)
    requires
        sum_is_function(f),
        f.ensures((x, y), r),
    ensures
        sum_of(f, x@, y@) == r.model(),
{
    assert(sum_witness(f, x@, y@, r));
    let r2 = choose|r2: DecimalSum| #[trigger] sum_witness(f, x@, y@, r2);
    let (x2, y2) = choose|x2: String, y2: String| x2@ == x@ && y2@ == y@ && #[trigger] f.ensures((x2, y2), r2);
    assert(f.ensures((x2, y2), r2));
}

/// `increase_float` can run without a panic: a present value is a number.
pub open spec fn increase_float_ok(m: MapModel, key: Seq<char>) -> bool {
    match lookup(m, key) {
        Some(v) => v.n is Some,
        None => true,
    }
}

/// What `increase_float` makes of an item, and what it returns, where `sum`
/// adds two decimal numbers.
pub open spec fn increase_float_spec(m: MapModel, key: Seq<char>, to_add: Seq<char>, sum: SumModel) -> (MapModel, Result<(), ErrModel>) {
    let first = put(m, key, n_model(to_add));
    match lookup(m, key) {
        None => (first, Ok(())),
        Some(v) => match sum {
            SumModel::FirstInvalid => (first, Err((500u16, "Error CLMA63dw; key="@ + key))),
            SumModel::SecondInvalid => (first, Err((500u16, "Error CLM76b"@))),
            SumModel::Sum(x) => (put(m, key, n_model(x)), Ok(())),
        },
    }
}

/// What `increase_float` adds: the present value and `to_add`, by `f`.
pub open spec fn float_sum_for<F: Fn(String, String) -> DecimalSum>(f: F, m: MapModel, key: Seq<char>, to_add: Seq<char>) -> SumModel {
    match lookup(m, key) {
        Some(v) => sum_of(f, v.n->0, to_add),
        None => SumModel::FirstInvalid,
    }
}

/// The string attributes that `insert_license` sets.
pub open spec fn license_strings(
    custom_success: Seq<char>,
    first_name: Seq<char>,
    last_name: Seq<char>,
    license_type: Seq<char>,
    order_number: Seq<char>,
) -> Seq<(Seq<char>, Seq<char>)> {
    seq![
        ("ActivationTime"@, "0"@),
        ("CustomSuccess"@, custom_success),
        ("ExpiryTime"@, "0"@),
        ("FirstName"@, first_name),
        ("LastName"@, last_name),
        ("LicenseType"@, license_type),
        ("OrderID"@, order_number),
    ]
}

/// What `insert_license` returns for an item `base` that already holds the
/// license strings.
pub open spec fn license_spec(base: MapModel, machines_allowed: u16, should_increase: bool) -> Result<MapModel, ErrModel> {
    let counted = if should_increase {
        increase_number_spec(base, "MachinesAllowed"@, machines_allowed)
    } else {
        (put(base, "MachinesAllowed"@, n_model(decimal(machines_allowed as nat))), Ok(()))
    };
    match counted.1 {
        Err(e) => Err(e),
        Ok(_) => Ok(
            put(
                put(
                    put(put(counted.0, "LicenseActive"@, bool_model(Some(true))), "Offline"@, l_model(Seq::empty())),
                    "Online"@,
                    l_model(Seq::empty()),
                ),
                "SubscriptionActive"@,
                bool_model(Some(true)),
            ),
        ),
    }
}

pub open spec fn opt_str_view(o: Option<String>) -> Seq<char> {
    match o {
        Some(s) => s@,
        None => Seq::empty(),
    }
}

impl StrMap<AttrValue> {
    fn set(&mut self, key: &str, value: AttrValue) -> (r: Option<AttrValue>)
        ensures
            final(self).mv() == put(old(self).mv(), key@, value.dv()),
            opt_model(r) == lookup(old(self).mv(), key@),
    {
        let ghost v = value;
        let r = self.insert(key.to_owned(), value);
        proof {
            lemma_mv_put(*old(self), key@, v, *self);
            lemma_mv_key_index(*old(self), key@);
        }
        r
    }

    /// Inserts a string (`t == S`) or a number (`t == N`) under `key`, and
    /// gives back the former value; any other `t` changes nothing.
    pub fn insert_data(&mut self, key: &str, data: &str, t: char) -> (r: Option<AttrValue>)
        ensures
            if t == 's' || t == 'n' {
                &&& final(self).mv() == put(old(self).mv(), key@, data_model(data@, t))
                &&& opt_model(r) == lookup(old(self).mv(), key@)
            } else {
                final(self).mv() == old(self).mv() && r is None
            },
    {
        if t == 's' {
            self.set(key, AttrValue::string(data.to_owned()))
        } else if t == 'n' {
            self.set(key, AttrValue::number(data.to_owned()))
        } else {
            None
        }
    }

    /// Inserts a boolean under `key` (a value with no field set for `None`).
    pub fn insert_bool(&mut self, key: &str, data: Option<bool>)
        ensures
            final(self).mv() == put(old(self).mv(), key@, bool_model(data)),
    {
        self.set(key, AttrValue::boolean(data));
    }

    /// Inserts a map under `key`; an empty one for `None`.
    pub fn insert_map(&mut self, key: &str, data: Option<AttrMap>)
        ensures
            final(self).mv() == put(
                old(self).mv(),
                key@,
                m_model(
                    match data {
                        Some(d) => d.mv(),
                        None => Seq::empty(),
                    },
                ),
            ),
    {
        let ghost given = data;
        let m = match data {
            Some(d) => d,
            None => StrMap::new(),
        };
        assert(m.mv() =~= match given {
            Some(d) => d.mv(),
            None => Seq::empty(),
        });
        self.set(key, AttrValue::map(m));
    }

    /// Inserts a list under `key`; an empty one for `None`.
    pub fn insert_l(&mut self, key: &str, to_add: Option<Vec<AttrValue>>)
        ensures
            final(self).mv() == put(
                old(self).mv(),
                key@,
                l_model(
                    match to_add {
                        Some(v) => list_model(v@),
                        None => Seq::empty(),
                    },
                ),
            ),
    {
        let ghost given = to_add;
        let v = match to_add {
            Some(v) => v,
            None => Vec::new(),
        };
        assert(list_model(v@) =~= match given {
            Some(v) => list_model(v@),
            None => Seq::empty(),
        });
        self.set(key, AttrValue::list(v));
    }

    /// The string (`t == S`) or number (`t == N`) held under `key`.
    pub fn get_data(&self, key: &str, t: char) -> (r: Result<String, HttpError>)
        ensures
            str_result_is(r, get_data_spec(self.mv(), key@, t)),
    {
        proof {
            lemma_mv_key_index(*self, key@);
        }
        let v = match self.get(key) {
            Some(v) => v,
            None => {
                return Err(HttpError::new(500, "Oopsie whoopsy, there's been an error. CLM34"));
            },
        };
        proof {
            v.lemma_dv();
        }
        if t == 's' {
            field_text(&v.s)
        } else if t == 'n' {
            field_text(&v.n)
        } else {
            Err(HttpError::new(500, "Error CLMU160"))
        }
    }

    /// A copy of the map held under `key`.
    pub fn get_m(&self, key: &str, er: &str) -> (r: Result<AttrMap, HttpError>)
        ensures
            map_result_is(r, get_m_spec(self.mv(), key@, er@)),
    {
        proof {
            lemma_mv_key_index(*self, key@);
        }
        match self.get(key) {
            Some(v) => {
                match &v.m {
                    Some(m) => {
                        let r = m.deep_clone();
                        proof {
                            v.lemma_dv();
                        }
                        Ok(r)
                    },
                    None => {
                        proof {
                            v.lemma_dv();
                        }
                        let mut msg = String::from_str("Error M22, ");
                        push_str(&mut msg, er);
                        Err(HttpError::with_message(500, msg))
                    },
                }
            },
            None => {
                let mut msg = String::from_str("Error M24, ");
                push_str(&mut msg, er);
                Err(HttpError::with_message(500, msg))
            },
        }
    }

    /// Inserts each pair as a string, in order, and returns a copy of the
    /// result.
    pub fn insert_strings(&mut self, keys: Vec<(&str, &str)>) -> (r: Self)
        ensures
            final(self).mv() == put_strings(old(self).mv(), pairs_view(keys@)),
            r.mv() == final(self).mv(),
    {
        let mut i: usize = 0;
        while i < keys.len()
            invariant
                i <= keys@.len(),
                self.mv() == put_strings(old(self).mv(), pairs_view(keys@).take(i as int)),
            decreases keys.len() - i,
        {
            let (k, d) = keys[i];
            self.insert_data(k, d, 's');
            proof {
                assert(pairs_view(keys@).take(i + 1).drop_last() =~= pairs_view(keys@).take(i as int));
            }
            i = i + 1;
        }
        proof {
            assert(pairs_view(keys@).take(keys@.len() as int) =~= pairs_view(keys@));
        }
        self.deep_clone()
    }

    /// A new item holding each pair as a string.
    pub fn new_map(keys: Vec<(&str, &str)>) -> (r: Self)
        ensures
            r.mv() == put_strings(Seq::empty(), pairs_view(keys@)),
    {
        let mut m = StrMap::new();
        assert(m.mv() =~= Seq::<(Seq<char>, AttrModel)>::empty());
        m.insert_strings(keys)
    }

    /// Adds `to_add` to the number under `key`, or sets it when absent.
    pub fn increase_number(&mut self, key: &str, to_add: u16) -> (r: Result<(), HttpError>)
        requires
            increase_number_ok(old(self).mv(), key@, to_add),
        ensures
            final(self).mv() == increase_number_spec(old(self).mv(), key@, to_add).0,
            unit_result_is(r, increase_number_spec(old(self).mv(), key@, to_add).1),
    {
        let ghost m0 = self.mv();
        let text = u16_to_string(to_add);
        let existed = self.insert_data(key, text.as_str(), 'n');
        match existed {
            Some(v) => {
                proof {
                    v.lemma_dv();
                }
                let old_text = v.n.as_ref().unwrap();
                match parse_u16(old_text.as_str()) {
                    None => {
                        let mut msg = String::from_str("Error CLMA63dw; key=");
                        push_str(&mut msg, key);
                        Err(HttpError::with_message(500, msg))
                    },
                    Some(o) => {
                        let sum = u16_to_string(to_add + o);
                        self.insert_data(key, sum.as_str(), 'n');
                        proof {
                            lemma_put_put(m0, key@, n_model(decimal(to_add as nat)), n_model(decimal((to_add + o) as nat)));
                        }
                        Ok(())
                    },
                }
            },
            None => Ok(()),
        }
    }

    /// Adds the decimal number `to_add` to the number under `key` by `sum`,
    /// or sets it when absent.
    pub fn increase_float<F: Fn(String, String) -> DecimalSum>(&mut self, key: &str, to_add: &str, sum: &F) -> (r: Result<(), HttpError>)
        requires
            increase_float_ok(old(self).mv(), key@),
            sum_is_function(*sum),
        ensures
            final(self).mv() == increase_float_spec(old(self).mv(), key@, to_add@, float_sum_for(*sum, old(self).mv(), key@, to_add@)).0,
            unit_result_is(r, increase_float_spec(old(self).mv(), key@, to_add@, float_sum_for(*sum, old(self).mv(), key@, to_add@)).1),
    {
        let ghost m0 = self.mv();
        let existed = self.insert_data(key, to_add, 'n');
        match existed {
            Some(v) => {
                proof {
                    v.lemma_dv();
                }
                let old_text = v.n.as_ref().unwrap().clone();
                let add_text = to_add.to_owned();
                let outcome = sum(old_text, add_text);
                proof {
                    lemma_sum_of(*sum, old_text, add_text, outcome);
                }
                match outcome {
                    DecimalSum::FirstInvalid => {
                        let mut msg = String::from_str("Error CLMA63dw; key=");
                        push_str(&mut msg, key);
                        Err(HttpError::with_message(500, msg))
                    },
                    DecimalSum::SecondInvalid => Err(HttpError::new(500, "Error CLM76b")),
                    DecimalSum::Sum(total) => {
                        self.insert_data(key, total.as_str(), 'n');
                        proof {
                            lemma_put_put(m0, key@, n_model(to_add@), n_model(total@));
                        }
                        Ok(())
                    },
                }
            },
            None => Ok(()),
        }
    }

    /// Appends `to_add` to the string under `key`, after a comma, or sets it
    /// when absent.
    pub fn append_string(&mut self, key: &str, to_add: &str) -> (r: Result<(), HttpError>)
        requires
            lookup(old(self).mv(), key@) matches Some(v) ==> v.s is Some,
        ensures
            final(self).mv() == put(
                old(self).mv(),
                key@,
                s_model(
                    match lookup(old(self).mv(), key@) {
                        Some(v) => v.s->0 + ","@ + to_add@,
                        None => to_add@,
                    },
                ),
            ),
            r is Ok,
    {
        let ghost m0 = self.mv();
        let existed = self.insert_data(key, to_add, 's');
        match existed {
            Some(v) => {
                proof {
                    v.lemma_dv();
                }
                let mut joined = v.s.as_ref().unwrap().clone();
                push_str(&mut joined, ",");
                push_str(&mut joined, to_add);
                self.insert_data(key, joined.as_str(), 's');
                proof {
                    lemma_put_put(m0, key@, s_model(to_add@), s_model(joined@));
                }
            },
            None => {},
        }
        Ok(())
    }

    /// Sets the license attributes of a plugin's license entry: the strings
    /// go into this item, and the returned copy also holds the machine count,
    /// the active flags and empty machine lists.
    pub fn insert_license(
        &mut self,
        custom_success: Option<String>,
        first_name: &str,
        last_name: &str,
        license_type: &str,
        machines_allowed: u16,
        order_number: &str,
        should_increase: bool,
    ) -> (r: Result<AttrMap, HttpError>)
        requires
            should_increase ==> increase_number_ok(
                put_strings(
                    old(self).mv(),
                    license_strings(opt_str_view(custom_success), first_name@, last_name@, license_type@, order_number@),
                ),
                "MachinesAllowed"@,
                machines_allowed,
            ),
        ensures
            final(self).mv() == put_strings(
                old(self).mv(),
                license_strings(opt_str_view(custom_success), first_name@, last_name@, license_type@, order_number@),
            ),
            map_result_is(r, license_spec(final(self).mv(), machines_allowed, should_increase)),
    {
        let cust = match &custom_success {
            Some(c) => c.clone(),
            None => String::new(),
        };
        let pairs = vec![
            ("ActivationTime", "0"),
            ("CustomSuccess", cust.as_str()),
            ("ExpiryTime", "0"),
            ("FirstName", first_name),
            ("LastName", last_name),
            ("LicenseType", license_type),
            ("OrderID", order_number),
        ];
        assert(pairs_view(pairs@) =~= license_strings(opt_str_view(custom_success), first_name@, last_name@, license_type@, order_number@));
        let mut result = self.insert_strings(pairs);
        if should_increase {
            let f = result.increase_number("MachinesAllowed", machines_allowed);
            match f {
                Err(e) => {
                    return Err(e);
                },
                Ok(_) => {},
            }
        } else {
            let text = u16_to_string(machines_allowed);
            result.insert_data("MachinesAllowed", text.as_str(), 'n');
        }
        result.insert_bool("LicenseActive", Some(true));
        result.insert_l("Offline", None);
        result.insert_l("Online", None);
        result.insert_bool("SubscriptionActive", Some(true));
        Ok(result)
    }
}

} // verus!
