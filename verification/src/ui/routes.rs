//! Paths of the web UI, as bytes.
use vstd::prelude::*;

verus! {

/// `/ui/`
pub open spec fn spec_route_ui() -> Seq<u8> {
    seq![47u8, 117u8, 105u8, 47u8]
}

/// `/ui/login`
pub open spec fn spec_route_login() -> Seq<u8> {
    seq![47u8, 117u8, 105u8, 47u8, 108u8, 111u8, 103u8, 105u8, 110u8]
}

/// `/ui/init`
pub open spec fn spec_route_init_consensus() -> Seq<u8> {
    seq![47u8, 117u8, 105u8, 47u8, 105u8, 110u8, 105u8, 116u8]
}

/// `?redirect=`
pub open spec fn spec_redirect_query() -> Seq<u8> {
    seq![63u8, 114u8, 101u8, 100u8, 105u8, 114u8, 101u8, 99u8, 116u8, 61u8]
}

/// The path of the UI's start page.
pub fn route_ui() -> (r: Vec<u8>)
    ensures
        r@ == spec_route_ui(),
{
    let r = vec![47u8, 117u8, 105u8, 47u8];
    proof {
        assert(r@ =~= spec_route_ui());
    }
    r
}

/// The path of the login page.
pub fn route_login() -> (r: Vec<u8>)
    ensures
        r@ == spec_route_login(),
{
    let r = vec![47u8, 117u8, 105u8, 47u8, 108u8, 111u8, 103u8, 105u8, 110u8];
    proof {
        assert(r@ =~= spec_route_login());
    }
    r
}

/// The path of the page that creates or joins a consensus.
pub fn route_init_consensus() -> (r: Vec<u8>)
    ensures
        r@ == spec_route_init_consensus(),
{
    let r = vec![47u8, 117u8, 105u8, 47u8, 105u8, 110u8, 105u8, 116u8];
    proof {
        assert(r@ =~= spec_route_init_consensus());
    }
    r
}

/// The query that names where to go after logging in.
pub fn redirect_query() -> (r: Vec<u8>)
    ensures
        r@ == spec_redirect_query(),
{
    let r = vec![63u8, 114u8, 101u8, 100u8, 105u8, 114u8, 101u8, 99u8, 116u8, 61u8];
    proof {
        assert(r@ =~= spec_redirect_query());
    }
    r
}

/// `s` starts with `p`.
pub open spec fn has_prefix(s: Seq<u8>, p: Seq<u8>) -> bool {
    p.len() <= s.len() && s.take(p.len() as int) == p
}

/// Whether `s` starts with `p`.
pub fn starts_with(s: &[u8], p: &[u8]) -> (r: bool)
    ensures
        r == has_prefix(s@, p@),
{
    if p.len() > s.len() {
        return false;
    }
    let mut i: usize = 0;
    while i < p.len()
        invariant
            p@.len() <= s@.len(),
            0 <= i <= p@.len(),
            forall|j: int| 0 <= j < i ==> s@[j] == p@[j],
        decreases p@.len() - i,
    {
        if s[i] != p[i] {
            proof {
                assert(s@.take(p@.len() as int)[i as int] != p@[i as int]);
            }
            return false;
        }
        i = i + 1;
    }
    proof {
        assert(s@.take(p@.len() as int) =~= p@);
    }
    true
}

/// Appends `b` to `out`.
pub fn push_all(out: &mut Vec<u8>, b: &[u8])
    ensures
        final(out)@ == old(out)@ + b@,
{
    let mut i: usize = 0;
    while i < b.len()
        invariant
            0 <= i <= b@.len(),
            out@ == old(out)@ + b@.take(i as int),
        decreases b@.len() - i,
    {
        out.push(b[i]);
        proof {
            assert(b@.take(i as int + 1) =~= b@.take(i as int).push(b@[i as int]));
        }
        i = i + 1;
    }
    proof {
        assert(b@.take(i as int) =~= b@);
    }
}

} // verus!
