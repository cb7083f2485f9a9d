use vstd::prelude::*;


verus! {

// ---------------------------------------------------------------------
// Keyed sequences: the model of a map that keeps its entries in order.

/// The position of the first entry of `e` with key `k`.
#[verifier::opaque]
pub open spec fn key_index<T>(e: Seq<(Seq<char>, T)>, k: Seq<char>) -> Option<int> {
    if exists|i: int| 0 <= i < e.len() && (#[trigger] e[i]).0 == k {
        Some(choose|i: int| 0 <= i < e.len() && (#[trigger] e[i]).0 == k && forall|j: int| 0 <= j < i ==> (#[trigger] e[j]).0 != k)
    } else {
        None
    }
}

/// The value of the first entry of `e` with key `k`.
pub open spec fn lookup<T>(e: Seq<(Seq<char>, T)>, k: Seq<char>) -> Option<T> {
    match key_index(e, k) {
        Some(i) => Some(e[i].1),
        None => None,
    }
}

/// `e` with the value of key `k` set to `v`: the entry keeps its place, or a
/// new entry comes last.
pub open spec fn put<T>(e: Seq<(Seq<char>, T)>, k: Seq<char>, v: T) -> Seq<(Seq<char>, T)> {
    match key_index(e, k) {
        Some(i) => e.update(i, (k, v)),
        None => e.push((k, v)),
    }
}

/// The first entry with a key is the one that no earlier entry shares its
/// key with.
pub proof fn lemma_key_index_found<T>(e: Seq<(Seq<char>, T)>, k: Seq<char>, i: int)
    requires
        0 <= i < e.len(),
        e[i].0 == k,
        forall|j: int| 0 <= j < i ==> (#[trigger] e[j]).0 != k,
    ensures
        key_index(e, k) == Some(i),
{
    reveal(key_index);
    let w = choose|w: int| 0 <= w < e.len() && (#[trigger] e[w]).0 == k && forall|j: int| 0 <= j < w ==> (#[trigger] e[j]).0 != k;
    assert(0 <= w < e.len() && e[w].0 == k);
    if w < i {
        assert(e[w].0 != k);
    }
    if i < w {
        assert(e[i].0 != k);
    }
}

/// A key that some entry has is found, at or before that entry.
pub proof fn lemma_key_index_exists<T>(e: Seq<(Seq<char>, T)>, k: Seq<char>, i: int)
    requires
        0 <= i < e.len(),
        e[i].0 == k,
    ensures
        key_index(e, k) is Some,
        0 <= key_index(e, k)->0 <= i,
        e[key_index(e, k)->0].0 == k,
        forall|j: int| 0 <= j < key_index(e, k)->0 ==> (#[trigger] e[j]).0 != k,
    decreases i,
{
    reveal(key_index);
    if exists|j: int| 0 <= j < i && (#[trigger] e[j]).0 == k {
        let j = choose|j: int| 0 <= j < i && (#[trigger] e[j]).0 == k;
        lemma_key_index_exists(e, k, j);
    } else {
        lemma_key_index_found(e, k, i);
    }
}

/// A key is found at its first entry, or no entry has it.
pub proof fn lemma_key_index_facts<T>(e: Seq<(Seq<char>, T)>, k: Seq<char>)
    ensures
        match key_index(e, k) {
            Some(i) => 0 <= i < e.len() && e[i].0 == k && forall|j: int| 0 <= j < i ==> (#[trigger] e[j]).0 != k,
            None => forall|j: int| 0 <= j < e.len() ==> (#[trigger] e[j]).0 != k,
        },
{
    reveal(key_index);
    if exists|i: int| 0 <= i < e.len() && (#[trigger] e[i]).0 == k {
        let i = choose|i: int| 0 <= i < e.len() && (#[trigger] e[i]).0 == k;
        lemma_key_index_exists(e, k, i);
    }
}

/// Setting a key and reading it back gives the value set; other keys keep
/// their values.
pub proof fn lemma_put_lookup<T>(e: Seq<(Seq<char>, T)>, k: Seq<char>, v: T, k2: Seq<char>)
    ensures
        lookup(put(e, k, v), k2) == if k2 == k { Some(v) } else { lookup(e, k2) },
        key_index(put(e, k, v), k2) is Some <==> (k2 == k || key_index(e, k2) is Some),
{
    let p = put(e, k, v);
    lemma_key_index_facts(e, k);
    lemma_key_index_facts(e, k2);
    lemma_key_index_facts(p, k2);
    match key_index(e, k) {
        Some(i) => {
            assert(p.len() == e.len());
            match key_index(e, k2) {
                Some(i2) => {
                    assert(p[i2].0 == k2);
                    lemma_key_index_found(p, k2, i2);
                },
                None => {
                    if k2 == k {
                        assert(false);
                    }
                    assert forall|j: int| 0 <= j < p.len() implies (#[trigger] p[j]).0 != k2 by {
                        assert(e[j].0 != k2);
                    }
                },
            }
        },
        None => {
            if k2 == k {
                lemma_key_index_found(p, k2, e.len() as int);
            } else {
                match key_index(e, k2) {
                    Some(i2) => {
                        assert(p[i2] == e[i2]);
                        lemma_key_index_found(p, k2, i2);
                    },
                    None => {
                        assert forall|j: int| 0 <= j < p.len() implies (#[trigger] p[j]).0 != k2 by {
                            if j < e.len() {
                                assert(p[j] == e[j]);
                            }
                        }
                    },
                }
            }
        },
    }
}

/// Setting a key twice is setting it once to the last value.
pub proof fn lemma_put_put<T>(e: Seq<(Seq<char>, T)>, k: Seq<char>, v1: T, v2: T)
    ensures
        put(put(e, k, v1), k, v2) == put(e, k, v2),
{
    let p = put(e, k, v1);
    lemma_key_index_facts(e, k);
    match key_index(e, k) {
        Some(i) => {
            lemma_key_index_found(p, k, i);
            assert(put(p, k, v2) =~= put(e, k, v2));
        },
        None => {
            lemma_key_index_found(p, k, e.len() as int);
            assert(put(p, k, v2) =~= put(e, k, v2));
        },
    }
}


/// Two entry sequences with the same keys at each position find a key at
/// the same position.
pub proof fn lemma_same_keys<A, B>(a: Seq<(Seq<char>, A)>, b: Seq<(Seq<char>, B)>, k: Seq<char>)
    requires
        a.len() == b.len(),
        forall|i: int| 0 <= i < a.len() ==> (#[trigger] a[i]).0 == b[i].0,
    ensures
        key_index(a, k) == key_index(b, k),
{
    lemma_key_index_facts(a, k);
    lemma_key_index_facts(b, k);
    match key_index(a, k) {
        Some(i) => {
            assert(b[i].0 == k);
            assert forall|j: int| 0 <= j < i implies (#[trigger] b[j]).0 != k by {
                assert(a[j].0 != k);
            }
            lemma_key_index_found(b, k, i);
        },
        None => {
            match key_index(b, k) {
                Some(i) => {
                    assert(a[i].0 == k);
                },
                None => {},
            }
        },
    }
}

// ---------------------------------------------------------------------
// Maps with string keys

/// A map from string keys to values. Its entries are kept in the order in
/// which their keys were first set; reading a key finds its first entry.
#[derive(Debug)]
pub struct StrMap<V> {
    pub entries: Vec<(String, V)>,
}

/// A DynamoDB item: attribute names to attribute values.
pub type AttrMap = StrMap<AttrValue>;

/// A DynamoDB attribute value: each field that is set holds the value in one
/// of DynamoDB's types.
#[derive(Debug)]
pub struct AttrValue {
    pub b: Option<Vec<u8>>,
    pub bool: Option<bool>,
    pub bs: Option<Vec<Vec<u8>>>,
    pub l: Option<Vec<AttrValue>>,
    pub m: Option<StrMap<AttrValue>>,
    pub n: Option<String>,
    pub ns: Option<Vec<String>>,
    pub null: Option<bool>,
    pub s: Option<String>,
    pub ss: Option<Vec<String>>,
}

/// The mathematical value of an attribute value.
pub struct AttrModel {
    pub b: Option<Seq<u8>>,
    pub bool: Option<bool>,
    pub bs: Option<Seq<Seq<u8>>>,
    pub l: Option<Seq<AttrModel>>,
    pub m: Option<Seq<(Seq<char>, AttrModel)>>,
    pub n: Option<Seq<char>>,
    pub ns: Option<Seq<Seq<char>>>,
    pub null: Option<bool>,
    pub s: Option<Seq<char>>,
    pub ss: Option<Seq<Seq<char>>>,
}

/// The mathematical value of an item: its entries with key and value.
pub type MapModel = Seq<(Seq<char>, AttrModel)>;

pub open spec fn empty_model() -> AttrModel {
    AttrModel { b: None, bool: None, bs: None, l: None, m: None, n: None, ns: None, null: None, s: None, ss: None }
}

/// A string attribute.
pub open spec fn s_model(d: Seq<char>) -> AttrModel {
    AttrModel { s: Some(d), ..empty_model() }
}

/// A number attribute.
pub open spec fn n_model(d: Seq<char>) -> AttrModel {
    AttrModel { n: Some(d), ..empty_model() }
}

/// A boolean attribute (or no value at all when `b` is `None`).
pub open spec fn bool_model(b: Option<bool>) -> AttrModel {
    AttrModel { bool: b, ..empty_model() }
}

/// A map attribute.
pub open spec fn m_model(m: MapModel) -> AttrModel {
    AttrModel { m: Some(m), ..empty_model() }
}

/// A list attribute.
pub open spec fn l_model(l: Seq<AttrModel>) -> AttrModel {
    AttrModel { l: Some(l), ..empty_model() }
}

pub open spec fn strings_view(v: Vec<String>) -> Seq<Seq<char>> {
    Seq::new(v@.len(), |i: int| v@[i]@)
}

pub open spec fn bytes_view(v: Vec<Vec<u8>>) -> Seq<Seq<u8>> {
    Seq::new(v@.len(), |i: int| v@[i]@)
}

impl AttrValue {
    /// The mathematical value of this attribute value.
    #[verifier::opaque]
    pub open spec fn dv(self) -> AttrModel
        decreases self,
    {
        AttrModel {
            b: match self.b {
                Some(v) => Some(v@),
                None => None,
            },
            bool: self.bool,
            bs: match self.bs {
                Some(v) => Some(bytes_view(v)),
                None => None,
            },
            l: match self.l {
                Some(v) => Some(
                    Seq::new(
                        v@.len(),
                        |i: int|
                            if 0 <= i < v@.len() {
                                v@[i].dv()
                            } else {
                                empty_model()
                            },
                    ),
                ),
                None => None,
            },
            m: match self.m {
                Some(mp) => Some(
                    Seq::new(
                        mp.entries@.len(),
                        |i: int|
                            if 0 <= i < mp.entries@.len() {
                                (mp.entries@[i].0@, mp.entries@[i].1.dv())
                            } else {
                                (Seq::empty(), empty_model())
                            },
                    ),
                ),
                None => None,
            },
            n: match self.n {
                Some(v) => Some(v@),
                None => None,
            },
            ns: match self.ns {
                Some(v) => Some(strings_view(v)),
                None => None,
            },
            null: self.null,
            s: match self.s {
                Some(v) => Some(v@),
                None => None,
            },
            ss: match self.ss {
                Some(v) => Some(strings_view(v)),
                None => None,
            },
        }
    }

    /// The model of a value, field by field.
    pub proof fn lemma_dv(self)
        ensures
            self.dv() == (AttrModel {
                b: match self.b {
                    Some(v) => Some(v@),
                    None => None,
                },
                bool: self.bool,
                bs: match self.bs {
                    Some(v) => Some(bytes_view(v)),
                    None => None,
                },
                l: match self.l {
                    Some(v) => Some(list_model(v@)),
                    None => None,
                },
                m: match self.m {
                    Some(mp) => Some(mp.mv()),
                    None => None,
                },
                n: opt_string_model(self.n),
                ns: match self.ns {
                    Some(v) => Some(strings_view(v)),
                    None => None,
                },
                null: self.null,
                s: opt_string_model(self.s),
                ss: match self.ss {
                    Some(v) => Some(strings_view(v)),
                    None => None,
                },
            }),
    {
        reveal(AttrValue::dv);
        let d = self.dv();
        match self.l {
            Some(v) => {
                assert(d.l->0 =~= list_model(v@));
            },
            None => {},
        }
        match self.m {
            Some(mp) => {
                assert(d.m->0 =~= mp.mv());
            },
            None => {},
        }
    }

    /// A value with no field set.
    pub fn new() -> (r: AttrValue)
        ensures
            r.dv() == empty_model(),
    {
        proof {
            reveal(AttrValue::dv);
        }
        AttrValue { b: None, bool: None, bs: None, l: None, m: None, n: None, ns: None, null: None, s: None, ss: None }
    }

    /// A string value.
    pub fn string(d: String) -> (r: AttrValue)
        ensures
            r.dv() == s_model(d@),
    {
        proof {
            reveal(AttrValue::dv);
        }
        AttrValue { b: None, bool: None, bs: None, l: None, m: None, n: None, ns: None, null: None, s: Some(d), ss: None }
    }

    /// A number value.
    pub fn number(d: String) -> (r: AttrValue)
        ensures
            r.dv() == n_model(d@),
    {
        proof {
            reveal(AttrValue::dv);
        }
        AttrValue { b: None, bool: None, bs: None, l: None, m: None, n: Some(d), ns: None, null: None, s: None, ss: None }
    }

    /// A map value.
    pub fn map(m: AttrMap) -> (r: AttrValue)
        ensures
            r.dv() == m_model(m.mv()),
    {
        let r = AttrValue { b: None, bool: None, bs: None, l: None, m: Some(m), n: None, ns: None, null: None, s: None, ss: None };
        proof {
            r.lemma_dv();
        }
        r
    }

    /// A list value.
    pub fn list(l: Vec<AttrValue>) -> (r: AttrValue)
        ensures
            r.dv() == l_model(list_model(l@)),
    {
        let r = AttrValue { b: None, bool: None, bs: None, l: Some(l), m: None, n: None, ns: None, null: None, s: None, ss: None };
        proof {
            r.lemma_dv();
        }
        r
    }

    /// A boolean value (no field set when `b` is `None`).
    pub fn boolean(b: Option<bool>) -> (r: AttrValue)
        ensures
            r.dv() == bool_model(b),
    {
        proof {
            reveal(AttrValue::dv);
        }
        AttrValue { b: None, bool: b, bs: None, l: None, m: None, n: None, ns: None, null: None, s: None, ss: None }
    }

    /// A copy of this value.
    pub fn deep_clone(&self) -> (r: AttrValue)
        ensures
            r.dv() == self.dv(),
        decreases self,
    {
        let b = match &self.b {
            Some(v) => Some(copy_bytes(v)),
            None => None,
        };
        let bs = match &self.bs {
            Some(v) => {
                let mut out: Vec<Vec<u8>> = Vec::new();
                let mut i: usize = 0;
                while i < v.len()
                    invariant
                        i <= v@.len(),
                        out@.len() == i,
                        forall|j: int| 0 <= j < i ==> (#[trigger] out@[j])@ == v@[j]@,
                    decreases v.len() - i,
                {
                    out.push(copy_bytes(&v[i]));
                    i = i + 1;
                }
                assert(bytes_view(out) =~= bytes_view(*v));
                Some(out)
            },
            None => None,
        };
        let l = match &self.l {
            Some(v) => {
                let mut out: Vec<AttrValue> = Vec::new();
                let mut i: usize = 0;
                while i < v.len()
                    invariant
                        self.l == Some(*v),
                        i <= v@.len(),
                        out@.len() == i,
                        forall|j: int| 0 <= j < i ==> (#[trigger] out@[j]).dv() == v@[j].dv(),
                    decreases v.len() - i,
                {
                    proof {
                        vstd::std_specs::vec::axiom_vec_index_decreases(*v, i as int);
                        assert(decreases_to!(*self => self.l));
                        assert(decreases_to!(self.l => self.l->0));
                        assert(decreases_to!(*self => self.l->0));
                        assert(decreases_to!(*self => *v));
                    }
                    out.push(v[i].deep_clone());
                    i = i + 1;
                }
                Some(out)
            },
            None => None,
        };
        let m = match &self.m {
            Some(mp) => {
                let mut out: Vec<(String, AttrValue)> = Vec::new();
                let mut i: usize = 0;
                while i < mp.entries.len()
                    invariant
                        self.m == Some(*mp),
                        i <= mp.entries@.len(),
                        out@.len() == i,
                        forall|j: int|
                            0 <= j < i ==> (#[trigger] out@[j]).0@ == mp.entries@[j].0@ && out@[j].1.dv()
                                == mp.entries@[j].1.dv(),
                    decreases mp.entries.len() - i,
                {
                    proof {
                        vstd::std_specs::vec::axiom_vec_index_decreases(mp.entries, i as int);
                        assert(decreases_to!(*self => self.m));
                        assert(decreases_to!(self.m => self.m->0));
                        assert(decreases_to!(*self => self.m->0));
                        assert(decreases_to!(*self => *mp));
                        assert(decreases_to!(*self => mp.entries));
                        assert(decreases_to!(*self => mp.entries@[i as int]));
                    }
                    let k = mp.entries[i].0.clone();
                    let v = mp.entries[i].1.deep_clone();
                    out.push((k, v));
                    i = i + 1;
                }
                Some(StrMap { entries: out })
            },
            None => None,
        };
        let n = match &self.n {
            Some(v) => Some(v.clone()),
            None => None,
        };
        let ns = match &self.ns {
            Some(v) => Some(copy_strings(v)),
            None => None,
        };
        let s = match &self.s {
            Some(v) => Some(v.clone()),
            None => None,
        };
        let ss = match &self.ss {
            Some(v) => Some(copy_strings(v)),
            None => None,
        };
        let r = AttrValue { b, bool: self.bool, bs, l, m, n, ns, null: self.null, s, ss };
        proof {
            r.lemma_dv();
            self.lemma_dv();
            assert(r.dv().l =~= self.dv().l);
            assert(r.dv().m =~= self.dv().m);
            assert(r.dv().ns =~= self.dv().ns);
            assert(r.dv().ss =~= self.dv().ss);
        }
        r
    }
}

fn copy_bytes(v: &Vec<u8>) -> (r: Vec<u8>)
    ensures
        r@ == v@,
{
    let mut out: Vec<u8> = Vec::new();
    let mut i: usize = 0;
    while i < v.len()
        invariant
            i <= v@.len(),
            out@ == v@.take(i as int),
        decreases v.len() - i,
    {
        out.push(v[i]);
        assert(v@.take(i + 1) =~= v@.take(i as int).push(v@[i as int]));
        i = i + 1;
    }
    assert(v@.take(v@.len() as int) =~= v@);
    out
}

fn copy_strings(v: &Vec<String>) -> (r: Vec<String>)
    ensures
        strings_view(r) == strings_view(*v),
{
    let mut out: Vec<String> = Vec::new();
    let mut i: usize = 0;
    while i < v.len()
        invariant
            i <= v@.len(),
            out@.len() == i,
            forall|j: int| 0 <= j < i ==> (#[trigger] out@[j])@ == v@[j]@,
        decreases v.len() - i,
    {
        out.push(v[i].clone());
        i = i + 1;
    }
    assert(strings_view(out) =~= strings_view(*v));
    out
}

/// The models of a list of attribute values.
pub open spec fn list_model(l: Seq<AttrValue>) -> Seq<AttrModel> {
    Seq::new(l.len(), |i: int| l[i].dv())
}

pub open spec fn opt_string_model(o: Option<String>) -> Option<Seq<char>> {
    match o {
        Some(s) => Some(s@),
        None => None,
    }
}

/// The model of an optional attribute value.
pub open spec fn opt_model(v: Option<AttrValue>) -> Option<AttrModel> {
    match v {
        Some(x) => Some(x.dv()),
        None => None,
    }
}

impl<V> StrMap<V> {
    /// The entries, keys taken by their characters.
    pub open spec fn kv(&self) -> Seq<(Seq<char>, V)> {
        Seq::new(self.entries@.len(), |i: int| (self.entries@[i].0@, self.entries@[i].1))
    }

    pub fn new() -> (r: Self)
        ensures
            r.entries@.len() == 0,
            r.kv() == Seq::<(Seq<char>, V)>::empty(),
    {
        let r = StrMap { entries: Vec::new() };
        assert(r.kv() =~= Seq::<(Seq<char>, V)>::empty());
        r
    }

    /// The number of entries.
    pub fn len(&self) -> (r: usize)
        ensures
            r == self.kv().len(),
    {
        self.entries.len()
    }

    /// The position of the entry with key `key`.
    pub fn position(&self, key: &str) -> (r: Option<usize>)
        ensures
            match r {
                Some(i) => key_index(self.kv(), key@) == Some(i as int) && i < self.entries@.len()
                    && self.entries@[i as int].0@ == key@,
                None => key_index(self.kv(), key@) is None,
            },
    {
        let k = key.to_owned();
        let mut i: usize = 0;
        while i < self.entries.len()
            invariant
                k@ == key@,
                i <= self.entries@.len(),
                forall|j: int| 0 <= j < i ==> (#[trigger] self.kv()[j]).0 != key@,
            decreases self.entries.len() - i,
        {
            if self.entries[i].0 == k {
                proof {
                    lemma_key_index_found(self.kv(), key@, i as int);
                }
                return Some(i);
            }
            i = i + 1;
        }
        proof {
            lemma_key_index_facts(self.kv(), key@);
            if key_index(self.kv(), key@) is Some {
                let w = key_index(self.kv(), key@)->0;
                assert(self.kv()[w].0 == key@);
            }
        }
        None
    }

    /// The value of key `key`.
    pub fn get(&self, key: &str) -> (r: Option<&V>)
        ensures
            match r {
                Some(v) => lookup(self.kv(), key@) == Some(*v),
                None => lookup(self.kv(), key@) is None,
            },
    {
        match self.position(key) {
            Some(i) => Some(&self.entries[i].1),
            None => None,
        }
    }

    /// Whether key `key` has a value.
    pub fn contains_key(&self, key: &str) -> (r: bool)
        ensures
            r == (lookup(self.kv(), key@) is Some),
    {
        match self.position(key) {
            Some(_) => true,
            None => false,
        }
    }

    /// Sets the value of `key`, and gives back its former value.
    pub fn insert(&mut self, key: String, value: V) -> (r: Option<V>)
        ensures
            final(self).kv() == put(old(self).kv(), key@, value),
            r == lookup(old(self).kv(), key@),
    {
        match self.position(key.as_str()) {
            Some(i) => {
                let mut pair = (key, value);
                std::mem::swap(&mut self.entries[i], &mut pair);
                assert(self.kv() =~= put(old(self).kv(), pair.0@, value)) by {
                    assert(pair.0@ == old(self).kv()[i as int].0);
                }
                Some(pair.1)
            },
            None => {
                let ghost k = key@;
                self.entries.push((key, value));
                assert(self.kv() =~= put(old(self).kv(), k, value));
                None
            },
        }
    }
}

impl StrMap<AttrValue> {
    /// The mathematical value of this item.
    pub open spec fn mv(&self) -> MapModel {
        Seq::new(self.entries@.len(), |i: int| (self.entries@[i].0@, self.entries@[i].1.dv()))
    }

    /// A copy of this item.
    pub fn deep_clone(&self) -> (r: AttrMap)
        ensures
            r.mv() == self.mv(),
    {
        let mut out: Vec<(String, AttrValue)> = Vec::new();
        let mut i: usize = 0;
        while i < self.entries.len()
            invariant
                i <= self.entries@.len(),
                out@.len() == i,
                forall|j: int|
                    0 <= j < i ==> (#[trigger] out@[j]).0@ == self.entries@[j].0@ && out@[j].1.dv()
                        == self.entries@[j].1.dv(),
            decreases self.entries.len() - i,
        {
            let k = self.entries[i].0.clone();
            let v = self.entries[i].1.deep_clone();
            out.push((k, v));
            i = i + 1;
        }
        let r = StrMap { entries: out };
        assert(r.mv() =~= self.mv());
        r
    }
}

/// Finding a key in an item is finding it in its model.
pub proof fn lemma_mv_key_index(m: AttrMap, k: Seq<char>)
    ensures
        key_index(m.mv(), k) == key_index(m.kv(), k),
        lookup(m.mv(), k) == opt_model(lookup(m.kv(), k)),
{
    lemma_key_index_facts(m.kv(), k);
    lemma_key_index_facts(m.mv(), k);
    match key_index(m.kv(), k) {
        Some(i) => {
            assert(m.mv()[i].0 == k);
            assert forall|j: int| 0 <= j < i implies (#[trigger] m.mv()[j]).0 != k by {
                assert(m.kv()[j].0 != k);
            }
            lemma_key_index_found(m.mv(), k, i);
        },
        None => {
            match key_index(m.mv(), k) {
                Some(i) => {
                    assert(m.kv()[i].0 == k);
                },
                None => {},
            }
        },
    }
}

/// Setting a value in an item sets its model in the item's model.
pub proof fn lemma_mv_put(m: AttrMap, k: Seq<char>, v: AttrValue, m2: AttrMap)
    requires
        m2.kv() == put(m.kv(), k, v),
    ensures
        m2.mv() == put(m.mv(), k, v.dv()),
{
    lemma_mv_key_index(m, k);
    lemma_key_index_facts(m.kv(), k);
    assert(m2.mv() =~= put(m.mv(), k, v.dv())) by {
        assert(m2.kv().len() == m2.mv().len());
        assert forall|i: int| 0 <= i < m2.mv().len() implies #[trigger] m2.mv()[i] == put(m.mv(), k, v.dv())[i] by {
            assert(m2.mv()[i] == (m2.kv()[i].0, m2.kv()[i].1.dv()));
        }
    }
}

} // verus!
