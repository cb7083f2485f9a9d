use vstd::prelude::*;
use vstd::utf8::{is_ascii_chars, is_ascii_chars_encode_utf8};

use crate::attr::{lemma_put_lookup, lookup, m_model, put, MapModel};
use crate::encoding::{b64_encode, from_base64_spec, hex_digit, lemma_b64_injective, lower_hex};
use crate::error::HttpError;
use crate::input::Decrypted;
use crate::maps::{data_model, get_data_spec, get_m_spec, increase_number_spec, DecimalSum};
use crate::text::{
    ascii_upper, byte_index_of, byte_len, clean_email_spec, cleanse_spec, contains_seq, decimal, digit_value,
    digits_value, index_of, is_digit, lemma_gmail_has_at, lemma_index_of_found, parse_u16_spec, remove_all, sub_spec,
    unsigned_digits,
};
use crate::update::{decrypted_ids, products_fold, update_spec};

verus! {

// ---------------------------------------------------------------------
// Encodings

/// Decoding the base64 encoding of bytes gives the bytes back.
pub proof fn law_base64_round_trip(b: Seq<u8>, r: Result<Vec<u8>, HttpError>)
    requires
        from_base64_spec(b64_encode(b), r),
    ensures
        r matches Ok(x) && x@ == b,
{
    match r {
        Ok(x) => {
            lemma_b64_injective(x@, b);
        },
        Err(_) => {
            assert(b64_encode(b) != b64_encode(b));
        },
    }
}

proof fn lemma_decimal_digits(n: nat)
    ensures
        decimal(n).len() > 0,
        decimal(n)[0] != '+',
        forall|i: int| 0 <= i < decimal(n).len() ==> is_digit(#[trigger] decimal(n)[i]),
        digits_value(decimal(n)) == n,
    decreases n,
{
    let d = (((n % 10) + 48) as u32) as char;
    assert(d as u32 == (n % 10) + 48);
    assert(digit_value(d) == n % 10);
    if n >= 10 {
        lemma_decimal_digits(n / 10);
        let s = decimal(n);
        assert(s.drop_last() == decimal(n / 10));
        assert(s.last() == d);
        assert(s[0] == decimal(n / 10)[0]);
        assert forall|i: int| 0 <= i < s.len() implies is_digit(#[trigger] s[i]) by {
            if i < s.len() - 1 {
                assert(s[i] == decimal(n / 10)[i]);
            }
        }
        assert(digits_value(s) == digits_value(s.drop_last()) * 10 + digit_value(s.last()));
        assert((n / 10) * 10 + n % 10 == n);
    } else {
        assert(decimal(n).drop_last() =~= Seq::<char>::empty());
        assert(digits_value(decimal(n).drop_last()) == 0);
        assert(digits_value(decimal(n)) == digits_value(decimal(n).drop_last()) * 10 + digit_value(decimal(n).last()));
    }
}

/// A count written in decimal reads back as the same count: what
/// `u16_to_string` writes, `parse_u16` reads.
pub proof fn law_decimal_round_trip(n: u16)
    ensures
        parse_u16_spec(decimal(n as nat)) == Some(n),
{
    lemma_decimal_digits(n as nat);
    assert(unsigned_digits(decimal(n as nat)) == decimal(n as nat));
}

// ---------------------------------------------------------------------
// Items

/// A string or number inserted under a key reads back by `get_data`.
pub proof fn law_get_data_after_insert(m: MapModel, key: Seq<char>, data: Seq<char>, t: char)
    requires
        t == 's' || t == 'n',
    ensures
        get_data_spec(put(m, key, data_model(data, t)), key, t) == Ok::<Seq<char>, (u16, Seq<char>)>(data),
{
    lemma_put_lookup(m, key, data_model(data, t), key);
}

/// A map inserted under a key reads back by `get_m`.
pub proof fn law_get_m_after_insert(m: MapModel, key: Seq<char>, inner: MapModel, er: Seq<char>)
    ensures
        get_m_spec(put(m, key, m_model(inner)), key, er) == Ok::<MapModel, (u16, Seq<char>)>(inner),
{
    lemma_put_lookup(m, key, m_model(inner), key);
}

/// Increasing a number adds to it: after `increase_number` on a number `o`,
/// the key holds the decimal text of `o + to_add`, which reads back as that
/// sum; on an absent key it holds `to_add`.
pub proof fn law_increase_number_adds(m: MapModel, key: Seq<char>, to_add: u16)
    requires
        lookup(m, key) matches Some(v) ==> (v.n matches Some(t) && parse_u16_spec(t) matches Some(o) && o + to_add
            <= 65535),
    ensures
        ({
            let (m2, r) = increase_number_spec(m, key, to_add);
            let total: int = match lookup(m, key) {
                Some(v) => parse_u16_spec(v.n->0)->0 + to_add,
                None => to_add as int,
            };
            &&& r is Ok
            &&& get_data_spec(m2, key, 'n') == Ok::<Seq<char>, (u16, Seq<char>)>(decimal(total as nat))
            &&& parse_u16_spec(decimal(total as nat)) == Some(total as u16)
        }),
{
    let total: int = match lookup(m, key) {
        Some(v) => parse_u16_spec(v.n->0)->0 + to_add,
        None => to_add as int,
    };
    match lookup(m, key) {
        Some(v) => {
            lemma_put_lookup(m, key, crate::attr::n_model(decimal(total as nat)), key);
        },
        None => {
            lemma_put_lookup(m, key, crate::attr::n_model(decimal(to_add as nat)), key);
        },
    }
    law_decimal_round_trip(total as u16);
}

// ---------------------------------------------------------------------
// Cleansing

proof fn lemma_ascii_upper_idempotent(c: char)
    ensures
        ascii_upper(ascii_upper(c)) == ascii_upper(c),
{
    if 'a' <= c && c <= 'z' {
        let u = ((c as u32) - 32) as char;
        assert(u as u32 == (c as u32) - 32);
    }
}

proof fn lemma_cleanse_push(s: Seq<char>, c: char, allowed: Seq<char>, to_upper: bool)
    ensures
        cleanse_spec(s.push(c), allowed, to_upper) == if allowed.contains(ascii_upper(c)) {
            cleanse_spec(s, allowed, to_upper).push(if to_upper { ascii_upper(c) } else { c })
        } else {
            cleanse_spec(s, allowed, to_upper)
        },
{
    assert(s.push(c).drop_last() =~= s);
}

/// Cleansing twice is cleansing once.
pub proof fn law_cleanse_idempotent(text: Seq<char>, allowed: Seq<char>, to_upper: bool)
    ensures
        cleanse_spec(cleanse_spec(text, allowed, to_upper), allowed, to_upper) == cleanse_spec(text, allowed, to_upper),
    decreases text.len(),
{
    if text.len() > 0 {
        let rest = text.drop_last();
        let c = text.last();
        law_cleanse_idempotent(rest, allowed, to_upper);
        if allowed.contains(ascii_upper(c)) {
            let k = if to_upper { ascii_upper(c) } else { c };
            lemma_ascii_upper_idempotent(c);
            assert(ascii_upper(k) == ascii_upper(c));
            lemma_cleanse_push(cleanse_spec(rest, allowed, to_upper), k, allowed, to_upper);
            if to_upper {
                assert(ascii_upper(k) == k);
            }
        }
    }
}

/// What cleansing keeps, uppercased, is made of allowed characters.
pub proof fn law_cleanse_keeps_allowed(text: Seq<char>, allowed: Seq<char>)
    ensures
        forall|i: int|
            0 <= i < cleanse_spec(text, allowed, true).len() ==> allowed.contains(
                #[trigger] cleanse_spec(text, allowed, true)[i],
            ),
    decreases text.len(),
{
    if text.len() > 0 {
        let rest = cleanse_spec(text.drop_last(), allowed, true);
        law_cleanse_keeps_allowed(text.drop_last(), allowed);
        let out = cleanse_spec(text, allowed, true);
        assert forall|i: int| 0 <= i < out.len() implies allowed.contains(#[trigger] out[i]) by {
            if i < rest.len() {
                assert(out[i] == rest[i]);
            }
        }
    }
}

// ---------------------------------------------------------------------
// Hashing

/// `c` is a lowercase hexadecimal digit.
pub open spec fn is_lower_hex_digit(c: char) -> bool {
    '0' <= c <= '9' || 'a' <= c <= 'f'
}

/// Bytes in hexadecimal take two lowercase hexadecimal digits each: a digest
/// of 64 bytes, such as an email hash, is 128 digits.
pub proof fn law_lower_hex_shape(b: Seq<u8>)
    ensures
        lower_hex(b).len() == 2 * b.len(),
        forall|i: int| 0 <= i < lower_hex(b).len() ==> is_lower_hex_digit(#[trigger] lower_hex(b)[i]),
    decreases b.len(),
{
    if b.len() > 0 {
        law_lower_hex_shape(b.drop_last());
        let x = b.last() as int;
        lemma_hex_digit(x / 16);
        lemma_hex_digit(x % 16);
        let h = lower_hex(b);
        let p = lower_hex(b.drop_last());
        assert forall|i: int| 0 <= i < h.len() implies is_lower_hex_digit(#[trigger] h[i]) by {
            if i < p.len() {
                assert(h[i] == p[i]);
            }
        }
    }
}

proof fn lemma_hex_digit(v: int)
    requires
        0 <= v < 16,
    ensures
        '0' <= hex_digit(v) <= '9' || 'a' <= hex_digit(v) <= 'f',
{
    if v < 10 {
        let x = (48 + v) as u8;
        assert(x as char as u32 == x as u32);
    } else {
        let x = (87 + v) as u8;
        assert(x as char as u32 == x as u32);
    }
}


// ---------------------------------------------------------------------
// Email addresses

proof fn lemma_remove_all_from(t: Seq<char>, c: char, d: char)
    ensures
        forall|k: int| 0 <= k < remove_all(t, c).len() ==> #[trigger] remove_all(t, c)[k] != c,
        is_ascii_chars(t) ==> is_ascii_chars(remove_all(t, c)),
        (forall|j: int| 0 <= j < t.len() ==> #[trigger] t[j] != d) ==> forall|k: int|
            0 <= k < remove_all(t, c).len() ==> #[trigger] remove_all(t, c)[k] != d,
    decreases t.len(),
{
    if t.len() > 0 {
        let u = t.drop_last();
        lemma_remove_all_from(u, c, d);
        if (forall|j: int| 0 <= j < t.len() ==> #[trigger] t[j] != d) {
            assert forall|j: int| 0 <= j < u.len() implies #[trigger] u[j] != d by {
                assert(u[j] == t[j]);
            }
        }
        if is_ascii_chars(t) {
            assert forall|j: int| 0 <= j < u.len() implies '\0' <= #[trigger] u[j] <= '\u{7f}' by {
                assert(u[j] == t[j]);
            }
        }
    }
}

proof fn lemma_remove_all_none(t: Seq<char>, c: char)
    requires
        forall|j: int| 0 <= j < t.len() ==> #[trigger] t[j] != c,
    ensures
        remove_all(t, c) == t,
    decreases t.len(),
{
    if t.len() > 0 {
        let u = t.drop_last();
        assert forall|j: int| 0 <= j < u.len() implies #[trigger] u[j] != c by {
            assert(u[j] == t[j]);
        }
        lemma_remove_all_none(u, c);
        assert(u.push(t.last()) =~= t);
    }
}

proof fn lemma_first_at(s: Seq<char>, c: char, i: int) -> (k: int)
    requires
        0 <= i < s.len(),
        s[i] == c,
    ensures
        0 <= k <= i,
        s[k] == c,
        forall|j: int| 0 <= j < k ==> s[j] != c,
    decreases i,
{
    if exists|j: int| 0 <= j < i && s[j] == c {
        let j = choose|j: int| 0 <= j < i && s[j] == c;
        lemma_first_at(s, c, j)
    } else {
        i
    }
}

proof fn lemma_index_of_props(s: Seq<char>, c: char)
    ensures
        match index_of(s, c) {
            Some(i) => 0 <= i < s.len() && s[i] == c && forall|j: int| 0 <= j < i ==> s[j] != c,
            None => forall|j: int| 0 <= j < s.len() ==> s[j] != c,
        },
{
    if exists|i: int| 0 <= i < s.len() && s[i] == c {
        let i0 = choose|i: int| 0 <= i < s.len() && s[i] == c;
        let k = lemma_first_at(s, c, i0);
        assert(0 <= k < s.len() && s[k] == c && forall|j: int| 0 <= j < k ==> s[j] != c);
    }
}

proof fn lemma_ascii_byte_index(t: Seq<char>, c: char)
    requires
        is_ascii_chars(t),
    ensures
        byte_index_of(t, c) == index_of(t, c),
{
    lemma_index_of_props(t, c);
    if let Some(i) = index_of(t, c) {
        let p = t.take(i);
        assert forall|j: int| 0 <= j < p.len() implies '\0' <= #[trigger] p[j] <= '\u{7f}' by {
            assert(p[j] == t[j]);
        }
        is_ascii_chars_encode_utf8(p);
    }
}

/// The text before the `@` of a cleaned address: no dots, no `+` and no `@`.
spec fn clean_local_part(t: Seq<char>) -> bool {
    &&& is_ascii_chars(t)
    &&& forall|j: int| 0 <= j < t.len() ==> #[trigger] t[j] != '+' && t[j] != '.' && t[j] != '@'
}

/// The text from the `@` of a Gmail address on.
spec fn gmail_domain_part(t: Seq<char>) -> bool {
    &&& is_ascii_chars(t)
    &&& t.len() > 0
    &&& t[0] == '@'
    &&& contains_seq(t, "@gmail.com"@)
}

proof fn lemma_clean_gmail_parts(s: Seq<char>) -> (parts: (Seq<char>, Seq<char>))
    requires
        is_ascii_chars(s),
        contains_seq(s, "@gmail.com"@),
    ensures
        clean_email_spec(s) == parts.0 + parts.1,
        clean_local_part(parts.0),
        gmail_domain_part(parts.1),
{
    lemma_gmail_has_at(s);
    lemma_ascii_byte_index(s, '@');
    lemma_index_of_props(s, '@');
    is_ascii_chars_encode_utf8(s);
    let a = index_of(s, '@')->0;
    let pre = s.take(a);
    assert(sub_spec(s, 0, a) =~= pre);
    assert forall|j: int| 0 <= j < pre.len() implies '\0' <= #[trigger] pre[j] <= '\u{7f}' by {
        assert(pre[j] == s[j]);
    }
    assert forall|j: int| 0 <= j < pre.len() implies #[trigger] pre[j] != '@' by {
        assert(pre[j] == s[j]);
    }
    let head = remove_all(pre, '.');
    lemma_remove_all_from(pre, '.', '@');
    lemma_ascii_byte_index(head, '+');
    lemma_index_of_props(head, '+');
    let head2 = match index_of(head, '+') {
        Some(q) => head.take(q),
        None => head,
    };
    if let Some(q) = index_of(head, '+') {
        assert(sub_spec(head, 0, q) =~= head.take(q));
    }
    assert forall|j: int| 0 <= j < head2.len() implies #[trigger] head2[j] != '+' && head2[j] != '.' && head2[j]
        != '@' && '\0' <= head2[j] <= '\u{7f}' by {
        assert(head2[j] == head[j]);
    }
    let tail = s.subrange(a, s.len() as int);
    assert(sub_spec(s, a, byte_len(s)) =~= tail);
    assert forall|j: int| 0 <= j < tail.len() implies '\0' <= #[trigger] tail[j] <= '\u{7f}' by {
        assert(tail[j] == s[a + j]);
    }
    reveal_strlit("@gmail.com");
    let g = "@gmail.com"@;
    let i = choose|i: int| 0 <= i && i + g.len() <= s.len() && #[trigger] s.subrange(i, i + g.len()) == g;
    assert(s.subrange(i, i + g.len())[0] == s[i]);
    assert(i >= a);
    assert(tail.subrange(i - a, i - a + g.len()) =~= s.subrange(i, i + g.len()));
    (head2, tail)
}

proof fn lemma_clean_gmail_fixed(head: Seq<char>, tail: Seq<char>)
    requires
        clean_local_part(head),
        gmail_domain_part(tail),
    ensures
        clean_email_spec(head + tail) == head + tail,
{
    let r = head + tail;
    let h = head.len() as int;
    assert forall|j: int| 0 <= j < r.len() implies '\0' <= #[trigger] r[j] <= '\u{7f}' by {
        if j < h {
            assert(r[j] == head[j]);
        } else {
            assert(r[j] == tail[j - h]);
        }
    }
    reveal_strlit("@gmail.com");
    let g = "@gmail.com"@;
    let i = choose|i: int| 0 <= i && i + g.len() <= tail.len() && #[trigger] tail.subrange(i, i + g.len()) == g;
    assert(r.subrange(h + i, h + i + g.len()) =~= tail.subrange(i, i + g.len()));
    assert(contains_seq(r, g));
    assert(r[h] == '@');
    assert forall|j: int| 0 <= j < h implies r[j] != '@' by {
        assert(r[j] == head[j]);
    }
    lemma_index_of_found(r, '@', h);
    lemma_ascii_byte_index(r, '@');
    is_ascii_chars_encode_utf8(r);
    assert(sub_spec(r, 0, h) =~= head);
    assert(sub_spec(r, h, byte_len(r)) =~= tail);
    lemma_remove_all_none(head, '.');
    lemma_ascii_byte_index(head, '+');
    lemma_index_of_props(head, '+');
    assert(index_of(head, '+') is None);
}

/// Cleaning an ASCII email address twice gives what cleaning it once gives:
/// a cleaned Gmail address has no dots and no `+` tag left before its `@`.
pub proof fn law_clean_email_idempotent(s: Seq<char>)
    requires
        is_ascii_chars(s),
    ensures
        clean_email_spec(clean_email_spec(s)) == clean_email_spec(s),
{
    if contains_seq(s, "@gmail.com"@) {
        let (head, tail) = lemma_clean_gmail_parts(s);
        lemma_clean_gmail_fixed(head, tail);
    }
}

/// Addresses that clean to the same address hash the same: dots and `+`
/// tags do not make a new Gmail user.
pub proof fn law_hash_email_same_when_clean_same<F: Fn(String) -> String>(salt: F, a: Seq<char>, b: Seq<char>)
    requires
        crate::text::clean_email_spec(a) == crate::text::clean_email_spec(b),
    ensures
        crate::crypto::hash_email_spec(salt, a) == crate::crypto::hash_email_spec(salt, b),
{
}

/// The plugin ids asked for in a batch get are each id of the request, once.
pub proof fn law_distinct_ids(ids: Seq<Seq<char>>)
    ensures
        forall|i: int| 0 <= i < ids.len() ==> crate::decrypted::distinct(ids).contains(#[trigger] ids[i]),
        forall|i: int| 0 <= i < crate::decrypted::distinct(ids).len() ==> ids.contains(#[trigger] crate::decrypted::distinct(ids)[i]),
        forall|i: int, j: int|
            0 <= i < j < crate::decrypted::distinct(ids).len() ==> #[trigger] crate::decrypted::distinct(ids)[i]
                != #[trigger] crate::decrypted::distinct(ids)[j],
    decreases ids.len(),
{
    if ids.len() > 0 {
        let rest = ids.drop_last();
        law_distinct_ids(rest);
        let d = crate::decrypted::distinct(rest);
        let dd = crate::decrypted::distinct(ids);
        assert forall|i: int| 0 <= i < ids.len() implies dd.contains(#[trigger] ids[i]) by {
            if i < rest.len() {
                assert(rest[i] == ids[i]);
                assert(d.contains(rest[i]));
                let k = choose|k: int| 0 <= k < d.len() && d[k] == rest[i];
                if !d.contains(ids.last()) {
                    assert(dd[k] == d[k]);
                }
            } else if d.contains(ids.last()) {
            } else {
                assert(dd[d.len() as int] == ids.last());
            }
        }
        assert forall|i: int| 0 <= i < dd.len() implies ids.contains(#[trigger] dd[i]) by {
            if i < d.len() {
                assert(dd[i] == d[i]);
                assert(rest.contains(d[i]));
                let k = choose|k: int| 0 <= k < rest.len() && rest[k] == d[i];
                assert(ids[k] == rest[k]);
            } else {
                assert(ids[ids.len() - 1] == ids.last());
            }
        }
    }
}

// ---------------------------------------------------------------------
// Licensing

proof fn lemma_fold_covers<F: Fn(String, String) -> DecimalSum>(
    uil: MapModel,
    lp: MapModel,
    items: Seq<(Seq<char>, MapModel)>,
    products: Seq<crate::input::Plugin>,
    pids: Seq<Seq<char>>,
    n: nat,
    first_name: Option<String>,
    last_name: Option<String>,
    order_id: Seq<char>,
    sum: F,
)
    requires
        products_fold(uil, lp, items, products, pids, n, first_name, last_name, order_id, sum) is At,
    ensures
        ({
            let f = products_fold(uil, lp, items, products, pids, n, first_name, last_name, order_id, sum);
            forall|j: int|
                0 <= j < n ==> lookup(f->At_0, #[trigger] pids[j]) is Some && lookup(f->At_1, pids[j]) is Some
        }),
    decreases n,
{
    if n > 0 {
        let m = (n - 1) as nat;
        let prev = products_fold(uil, lp, items, products, pids, m, first_name, last_name, order_id, sum);
        assert(prev is At);
        lemma_fold_covers(uil, lp, items, products, pids, m, first_name, last_name, order_id, sum);
        let f = products_fold(uil, lp, items, products, pids, n, first_name, last_name, order_id, sum);
        let a = prev->At_0;
        let b = prev->At_1;
        let k = pids[n - 1];
        let step = crate::update::product_step(a, b, items, products[n - 1], k, first_name, last_name, order_id, sum);
        assert(step is Maps);
        let ul = step->Maps_0;
        let lic = step->Maps_1;
        assert(f->At_0 == put(a, k, m_model(ul)));
        assert(f->At_1 == put(b, k, m_model(lic)));
        assert forall|j: int| 0 <= j < n implies lookup(f->At_0, #[trigger] pids[j]) is Some && lookup(
            f->At_1,
            pids[j],
        ) is Some by {
            lemma_put_lookup(a, k, m_model(ul), pids[j]);
            lemma_put_lookup(b, k, m_model(lic), pids[j]);
        }
    }
}

/// Once the license data is updated, the user item's licenses and the
/// license item's plugins hold an entry for every product bought.
pub proof fn law_update_covers_products<F: Fn(String, String) -> DecimalSum, D: Fn(String) -> String>(
    d: Decrypted,
    ui: MapModel,
    decrypt: D,
    sum: F,
)
    requires
        update_spec(d, ui, decrypted_ids(d.plugins@, decrypt), sum) is Done,
    ensures
        ({
            let pids = decrypted_ids(d.plugins@, decrypt);
            let u = update_spec(d, ui, pids, sum)->Done_0;
            let l = update_spec(d, ui, pids, sum)->Done_1;
            &&& get_m_spec(u, "licenses"@, Seq::empty()) is Ok
            &&& get_m_spec(l, "Plugins"@, Seq::empty()) is Ok
            &&& forall|i: int|
                0 <= i < pids.len() ==> lookup(get_m_spec(u, "licenses"@, Seq::empty())->Ok_0, #[trigger] pids[i]) is Some
                    && lookup(get_m_spec(l, "Plugins"@, Seq::empty())->Ok_0, pids[i]) is Some
        }),
{
    let pids = decrypted_ids(d.plugins@, decrypt);
    let items = d.plugin_items->0;
    let uil = get_m_spec(ui, "licenses"@, "Error CLMR347e"@)->Ok_0;
    let li = d.license_item->0;
    let lp = get_m_spec(li.mv(), "Plugins"@, "Error CLNIDU43"@)->Ok_0;
    let f = products_fold(
        uil,
        lp,
        crate::input::items_model(items),
        d.plugins@,
        pids,
        d.plugins@.len(),
        d.first_name,
        d.last_name,
        d.order_id@,
        sum,
    );
    lemma_fold_covers(
        uil,
        lp,
        crate::input::items_model(items),
        d.plugins@,
        pids,
        d.plugins@.len(),
        d.first_name,
        d.last_name,
        d.order_id@,
        sum,
    );
    lemma_put_lookup(ui, "licenses"@, m_model(f->At_0), "licenses"@);
    lemma_put_lookup(li.mv(), "Plugins"@, m_model(f->At_1), "Plugins"@);
}

} // verus!
