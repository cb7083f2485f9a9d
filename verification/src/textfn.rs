use vstd::prelude::*;

verus! {

// ---------------------------------------------------------------------
// Text functions handed in by the caller: the store's own id encryption and
// email salting, which the library takes as closures.

/// `f` can be called on any string, and what it returns depends on the
/// characters of its argument alone.
pub open spec fn text_fn_ok<F: Fn(String) -> String>(f: F) -> bool {
    &&& forall|a: String| #[trigger] f.requires((a,))
    &&& forall|a1: String, a2: String, r1: String, r2: String|
        a1@ == a2@ && #[trigger] f.ensures((a1,), r1) && #[trigger] f.ensures((a2,), r2) ==> r1@ == r2@
}

/// `f` may return `r` for a string with characters `a`.
pub open spec fn text_witness<F: Fn(String) -> String>(f: F, a: Seq<char>, r: String) -> bool {
    exists|x: String| x@ == a && #[trigger] f.ensures((x,), r)
}

/// What `f` returns for a string with characters `a`.
pub open spec fn text_of<F: Fn(String) -> String>(f: F, a: Seq<char>) -> Seq<char> {
    (choose|r: String| #[trigger] text_witness(f, a, r))@
}

pub proof fn lemma_text_of<F: Fn(String) -> String>(f: F, x: String, r: String)
    requires
        text_fn_ok(f),
        f.ensures((x,), r),
    ensures
        text_of(f, x@) == r@,
{
    assert(text_witness(f, x@, r));
    let r2 = choose|r2: String| #[trigger] text_witness(f, x@, r2);
    let x2 = choose|x2: String| x2@ == x@ && #[trigger] f.ensures((x2,), r2);
    assert(f.ensures((x2,), r2));
}

/// Calls `f` on a copy of `a`.
pub fn apply_text<F: Fn(String) -> String>(f: &F, a: &str) -> (r: String)
    requires
        text_fn_ok(*f),
    ensures
        r@ == text_of(*f, a@),
{
    let x = a.to_owned();
    let r = f(x);
    proof {
        lemma_text_of(*f, x, r);
    }
    r
}

/// `f` can be called on any two strings, and what it returns depends on the
/// characters of its arguments alone.
pub open spec fn text_fn2_ok<F: Fn(String, String) -> String>(f: F) -> bool {
    &&& forall|a: String, b: String| #[trigger] f.requires((a, b))
    &&& forall|a1: String, b1: String, a2: String, b2: String, r1: String, r2: String|
        a1@ == a2@ && b1@ == b2@ && #[trigger] f.ensures((a1, b1), r1) && #[trigger] f.ensures((a2, b2), r2)
            ==> r1@ == r2@
}

/// `f` may return `r` for strings with characters `a` and `b`.
pub open spec fn text2_witness<F: Fn(String, String) -> String>(f: F, a: Seq<char>, b: Seq<char>, r: String) -> bool {
    exists|x: String, y: String| x@ == a && y@ == b && #[trigger] f.ensures((x, y), r)
}

/// What `f` returns for strings with characters `a` and `b`.
pub open spec fn text2_of<F: Fn(String, String) -> String>(f: F, a: Seq<char>, b: Seq<char>) -> Seq<char> {
    (choose|r: String| #[trigger] text2_witness(f, a, b, r))@
}

pub proof fn lemma_text2_of<F: Fn(String, String) -> String>(f: F, x: String, y: String, r: String)
    requires
        text_fn2_ok(f),
        f.ensures((x, y), r),
    ensures
        text2_of(f, x@, y@) == r@,
{
    assert(text2_witness(f, x@, y@, r));
    let r2 = choose|r2: String| #[trigger] text2_witness(f, x@, y@, r2);
    let (x2, y2) = choose|x2: String, y2: String| x2@ == x@ && y2@ == y@ && #[trigger] f.ensures((x2, y2), r2);
    assert(f.ensures((x2, y2), r2));
}

/// Calls `f` on copies of `a` and `b`.
pub fn apply_text2<F: Fn(String, String) -> String>(f: &F, a: &str, b: &str) -> (r: String)
    requires
        text_fn2_ok(*f),
    ensures
        r@ == text2_of(*f, a@, b@),
{
    let x = a.to_owned();
    let y = b.to_owned();
    let r = f(x, y);
    proof {
        lemma_text2_of(*f, x, y, r);
    }
    r
}

} // verus!
