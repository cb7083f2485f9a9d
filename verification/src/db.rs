use vstd::prelude::*;
use rand::rngs::ThreadRng;
use rand::Rng;

use crate::attr::{AttrMap, MapModel};
use crate::maps::put_strings;
use crate::text::{push_char, push_str, to_chars};
use crate::textfn::{apply_text, text_fn_ok, text_of};

verus! {

#[verifier::external_type_specification]
#[verifier::external_body]
pub struct ExThreadRng(ThreadRng);

/// Calls `rand::thread_rng`, which hands out the thread's random number
/// generator. Nothing is claimed of it.
#[verifier::external_body]
fn thread_rng() -> ThreadRng {
    rand::thread_rng()
}

/// Calls `Rng::gen_range` on the range `0..n`, which draws a number of that
/// range; it panics on an empty range, so `n` is positive. Which number comes
/// is left open.
#[verifier::external_body]
fn gen_index(rng: &mut ThreadRng, n: usize) -> (r: usize)
    requires
        n > 0,
    ensures
        r < n,
{
    rng.gen_range(0..n)
}

/// The characters of offline secrets and license codes.
pub const CODE_CHARS: &'static str = "BCDFGHJLMNPQRSTVWXYZ256789";

/// `s` has `len` characters, each one of `CODE_CHARS`.
pub open spec fn is_code(s: Seq<char>, len: nat) -> bool {
    &&& s.len() == len
    &&& forall|i: int| 0 <= i < s.len() ==> CODE_CHARS@.contains(#[trigger] s[i])
}

/// The characters of `CODE_CHARS` at the positions `indices`.
pub open spec fn code_at(indices: Seq<usize>) -> Seq<char> {
    Seq::new(indices.len(), |i: int| CODE_CHARS@[indices[i] as int])
}

/// The characters of `CODE_CHARS` at the positions `indices`.
pub fn code_from_indices(indices: &Vec<usize>) -> (r: String)
    requires
        forall|i: int| 0 <= i < indices@.len() ==> indices@[i] < 26,
    ensures
        r@ == code_at(indices@),
        is_code(r@, indices@.len()),
{
    proof {
        reveal_strlit("BCDFGHJLMNPQRSTVWXYZ256789");
    }
    let dict = to_chars(CODE_CHARS);
    let mut result = String::new();
    let mut n: usize = 0;
    while n < indices.len()
        invariant
            dict@ == CODE_CHARS@,
            dict@.len() == 26,
            n <= indices@.len(),
            forall|i: int| 0 <= i < indices@.len() ==> indices@[i] < 26,
            result@ == code_at(indices@.take(n as int)),
        decreases indices.len() - n,
    {
        push_char(&mut result, dict[indices[n]]);
        assert(code_at(indices@.take(n + 1)) =~= code_at(indices@.take(n as int)).push(dict@[indices@[n as int] as int]));
        n = n + 1;
    }
    assert(indices@.take(indices@.len() as int) =~= indices@);
    assert forall|i: int| 0 <= i < result@.len() implies CODE_CHARS@.contains(#[trigger] result@[i]) by {
        assert(result@[i] == CODE_CHARS@[indices@[i] as int]);
    }
    result
}

/// `len` characters drawn from `CODE_CHARS`.
fn random_code(rng: &mut ThreadRng, len: usize) -> (r: String)
    ensures
        is_code(r@, len as nat),
{
    let mut indices: Vec<usize> = Vec::new();
    while indices.len() < len
        invariant
            indices@.len() <= len,
            forall|i: int| 0 <= i < indices@.len() ==> indices@[i] < 26,
        decreases len - indices@.len(),
    {
        indices.push(gen_index(rng, 26));
    }
    code_from_indices(&indices)
}

/// A new offline secret: five random characters of `CODE_CHARS`.
pub fn create_permanent_secret() -> (r: String)
    ensures
        is_code(r@, 5),
{
    let mut rng = thread_rng();
    random_code(&mut rng, 5)
}

/// A new license code before its encryption: the company followed by twenty
/// random characters of `CODE_CHARS`.
pub fn license_code_candidate(company: &str) -> (r: String)
    ensures
        r@.len() == company@.len() + 20,
        r@.take(company@.len() as int) == company@,
        is_code(r@.skip(company@.len() as int), 20),
{
    let mut rng = thread_rng();
    let code = random_code(&mut rng, 20);
    let mut joined = company.to_owned();
    push_str(&mut joined, code.as_str());
    assert(joined@.take(company@.len() as int) =~= company@);
    assert(joined@.skip(company@.len() as int) =~= code@);
    joined
}

/// The key of the license item with index `license_id`.
pub open spec fn license_key_spec(license_id: Seq<char>) -> MapModel {
    put_strings(Seq::empty(), seq![("id1"@, license_id), ("id2"@, "all"@)])
}

/// The key of the license item with index `license_id`.
pub fn license_key(license_id: &str) -> (r: AttrMap)
    ensures
        r.mv() == license_key_spec(license_id@),
{
    let pairs = vec![("id1", license_id), ("id2", "all")];
    let r = AttrMap::new_map(pairs);
    assert(crate::maps::pairs_view(pairs@) =~= seq![("id1"@, license_id@), ("id2"@, "all"@)]);
    r
}

/// A candidate license code, with the key of the license item that would
/// hold it.
#[derive(Debug)]
pub struct CodeAttempt {
    /// The encrypted candidate: the license index if it is unused.
    pub code: String,
    /// The key `{id1: code, id2: "all"}` to look the code up by.
    pub key: AttrMap,
}

/// `a` is a candidate license code of `company`: `encrypt_id` applied to the
/// company followed by twenty characters of `CODE_CHARS`, with its key.
pub open spec fn attempt_of<E: Fn(String) -> String>(encrypt_id: E, company: Seq<char>, a: CodeAttempt) -> bool {
    &&& exists|tail: Seq<char>| is_code(tail, 20) && a.code@ == #[trigger] text_of(encrypt_id, company + tail)
    &&& a.key.mv() == license_key_spec(a.code@)
}

/// Draws a candidate license code for `company`: the company followed by
/// twenty random characters, encrypted by `encrypt_id`, and its key.
pub fn license_code_attempt<E: Fn(String) -> String>(company: &str, encrypt_id: &E) -> (r: CodeAttempt)
    requires
        text_fn_ok(*encrypt_id),
    ensures
        attempt_of(*encrypt_id, company@, r),
{
    let candidate = license_code_candidate(company);
    let code = apply_text(encrypt_id, candidate.as_str());
    let key = license_key(code.as_str());
    let ghost tail = candidate@.skip(company@.len() as int);
    assert(candidate@ =~= company@ + tail);
    let r = CodeAttempt { code, key };
    assert(is_code(tail, 20) && r.code@ == text_of(*encrypt_id, company@ + tail));
    r
}

/// What to do next while looking for an unused license code.
#[derive(Debug)]
pub enum CodeStep {
    /// The code is unused: it is the new license code.
    Done(String),
    /// The code is taken: draw another one.
    Retry,
    /// The lookup failed.
    Failed(String),
}

/// Decides on a candidate license code of `company` from the lookup of its
/// key: whether the license table holds an item under it, or the lookup's
/// error text. An unused candidate is the new license code: the encryption
/// of the company followed by twenty characters of `CODE_CHARS`.
pub fn create_license_code<E: Fn(String) -> String>(
    company: &str,
    encrypt_id: &E,
    attempt: &CodeAttempt,
    lookup: Result<bool, String>,
) -> (r: CodeStep)
    requires
        attempt_of(*encrypt_id, company@, *attempt),
    ensures
        match lookup {
            Err(e) => r matches CodeStep::Failed(m) && m@ == "Error 323: "@ + e@,
            Ok(true) => r is Retry,
            Ok(false) => r matches CodeStep::Done(c) && {
                &&& c@ == attempt.code@
                &&& attempt.key.mv() == license_key_spec(c@)
                &&& exists|tail: Seq<char>| is_code(tail, 20) && c@ == #[trigger] text_of(*encrypt_id, company@ + tail)
            },
        },
{
    match lookup {
        Err(e) => {
            let mut m = String::from_str("Error 323: ");
            push_str(&mut m, e.as_str());
            CodeStep::Failed(m)
        },
        Ok(true) => CodeStep::Retry,
        Ok(false) => CodeStep::Done(attempt.code.clone()),
    }
}

} // verus!
