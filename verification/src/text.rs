use vstd::prelude::*;
use vstd::utf8::{encode_utf8, encode_scalar, char_is_scalar};
use substring::Substring;

verus! {

/// Appends `c` to `s` (`String::push`).
#[verifier::external_body]
pub(crate) fn push_char(s: &mut String, c: char)
    ensures
        final(s)@ == old(s)@.push(c),
{
    s.push(c);
}

/// Appends `t` to `s` (`String::push_str`).
#[verifier::external_body]
pub(crate) fn push_str(s: &mut String, t: &str)
    ensures
        final(s)@ == old(s)@ + t@,
{
    s.push_str(t);
}

/// The characters of `s`, in order.
pub fn to_chars(s: &str) -> (r: Vec<char>)
    ensures
        r@ == s@,
{
    let mut r: Vec<char> = Vec::new();
    for c in it: s.chars()
        invariant
            it.seq() == s@,
            r@ == it.seq().take(it.index() as int),
    {
        r.push(c);
    }
    r
}

/// Whether the two strings hold the same characters.
pub fn str_eq(a: &str, b: &str) -> (r: bool)
    ensures
        r == (a@ == b@),
{
    let x = a.to_owned();
    let y = b.to_owned();
    x == y
}

// ---------------------------------------------------------------------
// Byte positions

/// The number of bytes of the UTF-8 encoding of `s`.
pub open spec fn byte_len(s: Seq<char>) -> int {
    encode_utf8(s).len() as int
}

pub proof fn lemma_encode_concat(a: Seq<char>, b: Seq<char>)
    ensures
        encode_utf8(a + b) == encode_utf8(a) + encode_utf8(b),
    decreases a.len(),
{
    if a.len() == 0 {
        assert(a + b =~= b);
        assert(encode_utf8(a) =~= Seq::<u8>::empty());
        assert(encode_utf8(a) + encode_utf8(b) =~= encode_utf8(b));
    } else {
        assert((a + b).drop_first() =~= a.drop_first() + b);
        assert((a + b)[0] == a[0]);
        lemma_encode_concat(a.drop_first(), b);
        assert(encode_utf8(a + b) =~= encode_scalar(a[0] as u32) + encode_utf8(a.drop_first() + b));
        assert(encode_utf8(a) =~= encode_scalar(a[0] as u32) + encode_utf8(a.drop_first()));
    }
}

pub proof fn lemma_encode_single(c: char)
    ensures
        encode_utf8(seq![c]) == encode_scalar(c as u32),
{
    assert(seq![c].drop_first() =~= Seq::<char>::empty());
    assert(encode_utf8(seq![c].drop_first()) =~= Seq::<u8>::empty());
    assert(encode_utf8(seq![c]) =~= encode_scalar(c as u32) + Seq::<u8>::empty());
}

pub proof fn lemma_byte_len_push(s: Seq<char>, c: char)
    ensures
        byte_len(s.push(c)) == byte_len(s) + encode_scalar(c as u32).len(),
{
    lemma_encode_concat(s, seq![c]);
    lemma_encode_single(c);
    assert(s.push(c) =~= s + seq![c]);
}

pub proof fn lemma_byte_len_prefix(s: Seq<char>, i: int)
    requires
        0 <= i <= s.len(),
    ensures
        byte_len(s.take(i)) <= byte_len(s),
{
    lemma_encode_concat(s.take(i), s.skip(i));
    assert(s.take(i) + s.skip(i) =~= s);
}


/// The number of bytes in the UTF-8 encoding of `c`.
pub fn char_width(c: char) -> (w: usize)
    ensures
        w == encode_scalar(c as u32).len(),
{
    proof {
        char_is_scalar(c);
    }
    let u = c as u32;
    if u < 0x80 {
        1
    } else if u < 0x800 {
        2
    } else if u < 0x10000 {
        3
    } else {
        4
    }
}

/// The position of the first occurrence of `c` in `s`.
pub open spec fn index_of(s: Seq<char>, c: char) -> Option<int> {
    if exists|i: int| 0 <= i < s.len() && s[i] == c {
        Some(choose|i: int| 0 <= i < s.len() && s[i] == c && forall|j: int| 0 <= j < i ==> s[j] != c)
    } else {
        None
    }
}

pub proof fn lemma_index_of_found(s: Seq<char>, c: char, i: int)
    requires
        0 <= i < s.len(),
        s[i] == c,
        forall|j: int| 0 <= j < i ==> s[j] != c,
    ensures
        index_of(s, c) == Some(i),
{
    let k = choose|k: int| 0 <= k < s.len() && s[k] == c && forall|j: int| 0 <= j < k ==> s[j] != c;
    assert(0 <= k < s.len() && s[k] == c && forall|j: int| 0 <= j < k ==> s[j] != c);
    if k < i {
        assert(s[k] != c);
    }
    if i < k {
        assert(s[i] != c);
    }
}

pub proof fn lemma_index_of_exists(s: Seq<char>, c: char, i: int)
    requires
        0 <= i < s.len(),
        s[i] == c,
    ensures
        index_of(s, c) is Some,
        0 <= index_of(s, c)->0 <= i,
    decreases i,
{
    if exists|j: int| 0 <= j < i && s[j] == c {
        let j = choose|j: int| 0 <= j < i && s[j] == c;
        lemma_index_of_exists(s, c, j);
    } else {
        lemma_index_of_found(s, c, i);
    }
}

/// The byte position of the first occurrence of `c` in `s` (as `str::find`).
pub open spec fn byte_index_of(s: Seq<char>, c: char) -> Option<int> {
    match index_of(s, c) {
        Some(i) => Some(byte_len(s.take(i))),
        None => None,
    }
}

/// The position of the first `c` in `s` as `(char index, byte index)`.
pub fn find_char(s: &str, c: char) -> (r: Option<(usize, usize)>)
    ensures
        match r {
            Some((i, b)) => index_of(s@, c) == Some(i as int) && b == byte_len(s@.take(i as int)),
            None => index_of(s@, c) is None,
        },
{
    let cs = to_chars(s);
    let total = s.as_bytes().len();
    let mut i: usize = 0;
    let mut b: usize = 0;
    while i < cs.len()
        invariant
            cs@ == s@,
            total == byte_len(s@),
            i <= cs.len(),
            b == byte_len(s@.take(i as int)),
            forall|j: int| 0 <= j < i ==> s@[j] != c,
        decreases cs.len() - i,
    {
        if cs[i] == c {
            proof {
                lemma_index_of_found(s@, c, i as int);
            }
            return Some((i, b));
        }
        let w = char_width(cs[i]);
        proof {
            assert(s@.take(i + 1) =~= s@.take(i as int).push(s@[i as int]));
            lemma_byte_len_push(s@.take(i as int), s@[i as int]);
            lemma_byte_len_prefix(s@, i + 1);
        }
        b = b + w;
        i = i + 1;
    }
    proof {
        if index_of(s@, c) is Some {
            let k = index_of(s@, c)->0;
            assert(s@[k] == c);
        }
    }
    None
}

/// The byte position of the first `c` in `s` (`str::find` with a `char`).
pub fn find_byte_index(s: &str, c: char) -> (r: Option<usize>)
    ensures
        match r {
            Some(b) => byte_index_of(s@, c) == Some(b as int),
            None => byte_index_of(s@, c) is None,
        },
{
    match find_char(s, c) {
        Some((_, b)) => Some(b),
        None => None,
    }
}

// ---------------------------------------------------------------------
// Substrings

/// `substring::Substring::substring(s, start, end)`: the characters of `s`
/// from position `start` up to `end`, both cut down to the length of `s`;
/// empty when `end <= start`.
pub open spec fn sub_spec(s: Seq<char>, start: int, end: int) -> Seq<char> {
    if end <= start {
        Seq::empty()
    } else {
        let a = if start < s.len() { start } else { s.len() as int };
        let b = if end < s.len() { end } else { s.len() as int };
        s.subrange(a, b)
    }
}

/// Calls `substring::Substring::substring`, which takes the characters of `s`
/// from character position `start` up to `end` (both cut down to the number
/// of characters of `s`), or nothing when `end <= start`.
#[verifier::external_body]
pub(crate) fn substring(s: &str, start: usize, end: usize) -> (r: String)
    ensures
        r@ == sub_spec(s@, start as int, end as int),
{
    s.substring(start, end).to_string()
}

/// `p` occurs in `s`.
pub open spec fn contains_seq(s: Seq<char>, p: Seq<char>) -> bool {
    exists|i: int| 0 <= i && i + p.len() <= s.len() && #[trigger] s.subrange(i, i + p.len()) == p
}

fn matches_at(s: &Vec<char>, p: &Vec<char>, i: usize) -> (r: bool)
    requires
        i + p@.len() <= s@.len(),
    ensures
        r == (s@.subrange(i as int, i + p@.len()) == p@),
{
    let n = s.len();
    let mut k: usize = 0;
    while k < p.len()
        invariant
            i + p@.len() <= s@.len(),
            n == s@.len(),
            k <= p@.len(),
            forall|j: int| 0 <= j < k ==> s@[i + j] == p@[j],
        decreases p.len() - k,
    {
        if s[i + k] != p[k] {
            proof {
                assert(s@.subrange(i as int, i + p@.len())[k as int] != p@[k as int]);
            }
            return false;
        }
        k = k + 1;
    }
    proof {
        assert(s@.subrange(i as int, i + p@.len()) =~= p@);
    }
    true
}

/// Whether `p` occurs in `s` (`str::contains` with a `&str`).
pub fn str_contains(s: &str, p: &str) -> (r: bool)
    ensures
        r == contains_seq(s@, p@),
{
    let cs = to_chars(s);
    let ps = to_chars(p);
    if ps.len() > cs.len() {
        return false;
    }
    let last = cs.len() - ps.len();
    let mut i: usize = 0;
    while i <= last
        invariant
            cs@ == s@,
            ps@ == p@,
            ps@.len() <= cs@.len(),
            last == cs@.len() - ps@.len(),
            i <= last + 1,
            forall|j: int| 0 <= j < i ==> #[trigger] s@.subrange(j, j + p@.len()) != p@,
        decreases cs.len() - i,
    {
        if matches_at(&cs, &ps, i) {
            return true;
        }
        if i == last {
            return false;
        }
        i = i + 1;
    }
    false
}

/// Whether `c` occurs in `s` (`str::contains` with a `char`).
pub fn str_contains_char(s: &str, c: char) -> (r: bool)
    ensures
        r == s@.contains(c),
{
    match find_char(s, c) {
        Some(_) => {
            true
        },
        None => {
            proof {
                if s@.contains(c) {
                    let k = choose|k: int| 0 <= k < s@.len() && s@[k] == c;
                    lemma_index_of_exists(s@, c, k);
                }
            }
            false
        },
    }
}

/// `s` without any `c` (`str::replace` of `c` by nothing).
pub open spec fn remove_all(s: Seq<char>, c: char) -> Seq<char>
    decreases s.len(),
{
    if s.len() == 0 {
        s
    } else if s.last() == c {
        remove_all(s.drop_last(), c)
    } else {
        remove_all(s.drop_last(), c).push(s.last())
    }
}

pub fn remove_char(s: &str, c: char) -> (r: String)
    ensures
        r@ == remove_all(s@, c),
{
    let cs = to_chars(s);
    let mut r = String::new();
    let mut i: usize = 0;
    while i < cs.len()
        invariant
            cs@ == s@,
            i <= cs.len(),
            r@ == remove_all(s@.take(i as int), c),
        decreases cs.len() - i,
    {
        proof {
            assert(s@.take(i + 1).drop_last() =~= s@.take(i as int));
        }
        if cs[i] != c {
            push_char(&mut r, cs[i]);
        }
        i = i + 1;
    }
    proof {
        assert(s@.take(cs@.len() as int) =~= s@);
    }
    r
}

// ---------------------------------------------------------------------
// ASCII case

/// `char::to_ascii_uppercase`.
pub open spec fn ascii_upper(c: char) -> char {
    if 'a' <= c && c <= 'z' {
        ((c as u32) - 32) as char
    } else {
        c
    }
}

/// `char::to_ascii_lowercase`.
pub open spec fn ascii_lower(c: char) -> char {
    if 'A' <= c && c <= 'Z' {
        ((c as u32) + 32) as char
    } else {
        c
    }
}

pub fn to_ascii_upper(c: char) -> (r: char)
    ensures
        r == ascii_upper(c),
{
    if 'a' <= c && c <= 'z' {
        let u = (c as u8) - 32;
        proof {
            assert((c as u8) as u32 == c as u32);
        }
        u as char
    } else {
        c
    }
}

pub fn to_ascii_lower(c: char) -> (r: char)
    ensures
        r == ascii_lower(c),
{
    if 'A' <= c && c <= 'Z' {
        let u = (c as u8) + 32;
        proof {
            assert((c as u8) as u32 == c as u32);
        }
        u as char
    } else {
        c
    }
}

/// `str::eq_ignore_ascii_case`.
pub open spec fn eq_ignore_ascii_case_spec(a: Seq<char>, b: Seq<char>) -> bool {
    a.len() == b.len() && forall|i: int| 0 <= i < a.len() ==> ascii_lower(#[trigger] a[i]) == ascii_lower(b[i])
}

pub fn eq_ignore_ascii_case(a: &str, b: &str) -> (r: bool)
    ensures
        r == eq_ignore_ascii_case_spec(a@, b@),
{
    let x = to_chars(a);
    let y = to_chars(b);
    if x.len() != y.len() {
        return false;
    }
    let mut i: usize = 0;
    while i < x.len()
        invariant
            x@ == a@,
            y@ == b@,
            x@.len() == y@.len(),
            i <= x@.len(),
            forall|j: int| 0 <= j < i ==> ascii_lower(#[trigger] a@[j]) == ascii_lower(b@[j]),
        decreases x.len() - i,
    {
        if to_ascii_lower(x[i]) != to_ascii_lower(y[i]) {
            return false;
        }
        i = i + 1;
    }
    true
}

/// What `str::to_lowercase` returns for a string: its lowercase according to
/// Unicode.
pub uninterp spec fn unicode_lowercase(s: Seq<char>) -> Seq<char>;

/// Calls `str::to_lowercase`; its result is named `unicode_lowercase`.
#[verifier::external_body]
pub(crate) fn to_lowercase(s: &str) -> (r: String)
    ensures
        r@ == unicode_lowercase(s@),
{
    s.to_lowercase()
}

// ---------------------------------------------------------------------
// Cleansing

/// What `cleanse` keeps of `text`: each character whose ASCII uppercase is in
/// `allowed`, uppercased when `to_upper` holds.
pub open spec fn cleanse_spec(text: Seq<char>, allowed: Seq<char>, to_upper: bool) -> Seq<char>
    decreases text.len(),
{
    if text.len() == 0 {
        text
    } else {
        let rest = cleanse_spec(text.drop_last(), allowed, to_upper);
        let c = text.last();
        if allowed.contains(ascii_upper(c)) {
            rest.push(if to_upper { ascii_upper(c) } else { c })
        } else {
            rest
        }
    }
}

fn vec_contains_char(v: &Vec<char>, c: char) -> (r: bool)
    ensures
        r == v@.contains(c),
{
    let mut i: usize = 0;
    while i < v.len()
        invariant
            i <= v.len(),
            forall|j: int| 0 <= j < i ==> v@[j] != c,
        decreases v.len() - i,
    {
        if v[i] == c {
            return true;
        }
        i = i + 1;
    }
    false
}

/// Keeps the characters of `text` that are ASCII letters, digits or in
/// `extra_chars` (compared in ASCII uppercase), uppercasing them if asked.
pub fn cleanse(text: &str, extra_chars: &str, to_upper: bool) -> (r: String)
    ensures
        r@ == cleanse_spec(text@, "ASDFGHJKLQWERTYUIOPZXCVBNM1234567890"@ + extra_chars@, to_upper),
{
    let mut allowed = to_chars("ASDFGHJKLQWERTYUIOPZXCVBNM1234567890");
    let mut extra = to_chars(extra_chars);
    allowed.append(&mut extra);
    let ghost al = "ASDFGHJKLQWERTYUIOPZXCVBNM1234567890"@ + extra_chars@;
    assert(allowed@ =~= al);
    let cs = to_chars(text);
    let mut output = String::new();
    let mut i: usize = 0;
    while i < cs.len()
        invariant
            cs@ == text@,
            allowed@ == al,
            i <= cs.len(),
            output@ == cleanse_spec(text@.take(i as int), al, to_upper),
        decreases cs.len() - i,
    {
        proof {
            assert(text@.take(i + 1).drop_last() =~= text@.take(i as int));
        }
        let ch = cs[i];
        let upper = to_ascii_upper(ch);
        if vec_contains_char(&allowed, upper) {
            push_char(&mut output, if to_upper { upper } else { ch });
        }
        i = i + 1;
    }
    proof {
        assert(text@.take(cs@.len() as int) =~= text@);
    }
    output
}

/// What `clean_email` makes of an address: for a Gmail address, the part
/// before the `@` without dots and without anything from the first `+` on,
/// followed by the rest of the address; any other address is kept as it is.
/// Positions found by `find` are byte positions, and `substring` cuts by
/// characters, as the code does.
pub open spec fn clean_email_spec(input: Seq<char>) -> Seq<char> {
    if contains_seq(input, "@gmail.com"@) {
        let at = byte_index_of(input, '@')->0;
        let head = remove_all(sub_spec(input, 0, at), '.');
        let head2 = match byte_index_of(head, '+') {
            Some(p) => sub_spec(head, 0, p),
            None => head,
        };
        head2 + sub_spec(input, at, byte_len(input))
    } else {
        input
    }
}

pub proof fn lemma_gmail_has_at(s: Seq<char>)
    requires
        contains_seq(s, "@gmail.com"@),
    ensures
        index_of(s, '@') is Some,
{
    reveal_strlit("@gmail.com");
    let i = choose|i: int| 0 <= i && i + "@gmail.com"@.len() <= s.len()
        && #[trigger] s.subrange(i, i + "@gmail.com"@.len()) == "@gmail.com"@;
    assert(s.subrange(i, i + "@gmail.com"@.len())[0] == '@');
    lemma_index_of_exists(s, '@', i);
}

/// Removes any sabotage from an email address.
pub fn clean_email(input: &str) -> (r: String)
    ensures
        r@ == clean_email_spec(input@),
{
    if str_contains(input, "@gmail.com") {
        proof {
            lemma_gmail_has_at(input@);
        }
        let at = match find_byte_index(input, '@') {
            Some(b) => b,
            None => {
                return input.to_owned();
            },
        };
        let head = substring(input, 0, at);
        let mut output = remove_char(head.as_str(), '.');
        if str_contains_char(output.as_str(), '+') {
            match find_byte_index(output.as_str(), '+') {
                Some(p) => {
                    output = substring(output.as_str(), 0, p);
                },
                None => {
                    proof {
                        let k = choose|k: int| 0 <= k < output@.len() && output@[k] == '+';
                        lemma_index_of_exists(output@, '+', k);
                    }
                },
            }
        } else {
            proof {
                if index_of(output@, '+') is Some {
                    let k = index_of(output@, '+')->0;
                    assert(output@[k] == '+');
                }
            }
        }
        let tail = substring(input, at, input.as_bytes().len());
        let ghost head_spec = remove_all(sub_spec(input@, 0, at as int), '.');
        assert(output@ == match byte_index_of(head_spec, '+') {
            Some(p) => sub_spec(head_spec, 0, p),
            None => head_spec,
        });
        push_str(&mut output, tail.as_str());
        output
    } else {
        input.to_owned()
    }
}

// ---------------------------------------------------------------------
// Comparing

pub trait Comparing {
    /// Whether this string is one of the strings of `vector`.
    fn exists_in(self, vector: Vec<&str>) -> bool;
}

/// `s` is one of the strings of `v`.
pub open spec fn one_of(s: Seq<char>, v: Seq<&str>) -> bool {
    exists|i: int| 0 <= i < v.len() && #[trigger] v[i]@ == s
}

pub fn str_exists_in(s: &str, vector: &Vec<&str>) -> (r: bool)
    ensures
        r == one_of(s@, vector@),
{
    let mut i: usize = 0;
    while i < vector.len()
        invariant
            i <= vector.len(),
            forall|j: int| 0 <= j < i ==> #[trigger] vector@[j]@ != s@,
        decreases vector.len() - i,
    {
        if str_eq(vector[i], s) {
            return true;
        }
        i = i + 1;
    }
    false
}

impl<'a> Comparing for &'a str {
    fn exists_in(self, vector: Vec<&str>) -> (r: bool)
        ensures
            r == one_of(self@, vector@),
    {
        str_exists_in(self, &vector)
    }
}

impl Comparing for String {
    fn exists_in(self, vector: Vec<&str>) -> (r: bool)
        ensures
            r == one_of(self@, vector@),
    {
        str_exists_in(self.as_str(), &vector)
    }
}

// ---------------------------------------------------------------------
// Numbers

pub open spec fn is_digit(c: char) -> bool {
    '0' <= c && c <= '9'
}

pub open spec fn digit_value(c: char) -> nat {
    ((c as u32) - ('0' as u32)) as nat
}

/// The value of a string of decimal digits.
pub open spec fn digits_value(d: Seq<char>) -> nat
    decreases d.len(),
{
    if d.len() == 0 {
        0
    } else {
        digits_value(d.drop_last()) * 10 + digit_value(d.last())
    }
}

/// `s` without a leading `+`.
pub open spec fn unsigned_digits(s: Seq<char>) -> Seq<char> {
    if s.len() > 0 && s[0] == '+' {
        s.drop_first()
    } else {
        s
    }
}

/// What `str::parse::<u16>` gives: an optional `+` followed by one or more
/// decimal digits whose value fits in 16 bits.
pub open spec fn parse_u16_spec(s: Seq<char>) -> Option<u16> {
    let d = unsigned_digits(s);
    if d.len() > 0 && (forall|i: int| 0 <= i < d.len() ==> is_digit(#[trigger] d[i])) && digits_value(d) <= 65535 {
        Some(digits_value(d) as u16)
    } else {
        None
    }
}

proof fn lemma_digits_monotone(d: Seq<char>, k: int)
    requires
        0 <= k <= d.len(),
    ensures
        digits_value(d.take(k)) <= digits_value(d),
    decreases d.len() - k,
{
    if k < d.len() {
        lemma_digits_monotone(d, k + 1);
        assert(d.take(k + 1).drop_last() =~= d.take(k));
    } else {
        assert(d.take(k) =~= d);
    }
}

/// `str::parse::<u16>`.
pub fn parse_u16(s: &str) -> (r: Option<u16>)
    ensures
        r == parse_u16_spec(s@),
{
    let cs = to_chars(s);
    let start: usize = if cs.len() > 0 && cs[0] == '+' { 1 } else { 0 };
    let ghost d = unsigned_digits(s@);
    assert(d =~= s@.skip(start as int));
    if start == cs.len() {
        return None;
    }
    let mut acc: u32 = 0;
    let mut i: usize = start;
    while i < cs.len()
        invariant
            cs@ == s@,
            start <= i <= cs.len(),
            d =~= s@.skip(start as int),
            d == unsigned_digits(s@),
            acc == digits_value(d.take(i - start)),
            acc <= 65535,
            forall|j: int| 0 <= j < i - start ==> is_digit(#[trigger] d[j]),
        decreases cs.len() - i,
    {
        let c = cs[i];
        if !('0' <= c && c <= '9') {
            assert(d[i - start] == c);
            assert(!is_digit(d[i - start]));
            assert(!(forall|j: int| 0 <= j < d.len() ==> is_digit(#[trigger] d[j])));
            assert(parse_u16_spec(s@) is None);
            return None;
        }
        proof {
            assert(d.take(i - start + 1).drop_last() =~= d.take(i - start));
            assert(d.take(i - start + 1).last() == c);
            assert(digits_value(d.take(i - start + 1)) == acc * 10 + digit_value(c));
        }
        acc = acc * 10 + ((c as u32) - ('0' as u32));
        if acc > 65535 {
            proof {
                lemma_digits_monotone(d, i - start + 1);
                assert(digits_value(d) > 65535);
                assert(parse_u16_spec(s@) is None);
            }
            return None;
        }
        i = i + 1;
    }
    proof {
        assert(d.take(i - start) =~= d);
    }
    Some(acc as u16)
}

/// The decimal digits of `n`.
pub open spec fn decimal(n: nat) -> Seq<char>
    decreases n,
{
    if n < 10 {
        seq![((n + 48) as u32) as char]
    } else {
        decimal(n / 10).push((((n % 10) + 48) as u32) as char)
    }
}

fn digit_char(d: u16) -> (c: char)
    requires
        d < 10,
    ensures
        c == ((d + 48) as u32) as char,
{
    let b = (d as u8) + 48;
    b as char
}

fn push_decimal(s: &mut String, n: u16)
    ensures
        final(s)@ == old(s)@ + decimal(n as nat),
    decreases n,
{
    if n < 10 {
        push_char(s, digit_char(n));
        assert(old(s)@.push(((n + 48) as u32) as char) =~= old(s)@ + decimal(n as nat));
    } else {
        push_decimal(s, n / 10);
        push_char(s, digit_char(n % 10));
        assert(old(s)@ + decimal(n as nat) =~= (old(s)@ + decimal((n / 10) as nat)).push(
            (((n % 10) + 48) as u32) as char,
        ));
    }
}

/// Appends the decimal digits of `n`.
pub fn push_decimal_u64(s: &mut String, n: u64)
    ensures
        final(s)@ == old(s)@ + decimal(n as nat),
    decreases n,
{
    if n < 10 {
        let c = ((n as u8) + 48) as char;
        push_char(s, c);
        assert(old(s)@.push(c) =~= old(s)@ + decimal(n as nat));
    } else {
        push_decimal_u64(s, n / 10);
        let c = (((n % 10) as u8) + 48) as char;
        push_char(s, c);
        assert(old(s)@ + decimal(n as nat) =~= (old(s)@ + decimal((n / 10) as nat)).push(c));
    }
}

/// The decimal representation of `n` (`u16::to_string`).
pub fn u16_to_string(n: u16) -> (r: String)
    ensures
        r@ == decimal(n as nat),
{
    let mut s = String::new();
    push_decimal(&mut s, n);
    assert(Seq::<char>::empty() + decimal(n as nat) =~= decimal(n as nat));
    s
}

} // verus!
