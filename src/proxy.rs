use vstd::prelude::*;
use vstd::string::*;

verus! {

/// The address a request is forwarded to: the upstream application on the
/// loopback port, with the request's path.
pub fn upstream_url(path: &str) -> (r: String)
    ensures
        r@ == "http://localhost:3000"@ + path@,
{
    let mut r = String::from_str("http://localhost:3000");
    r.append(path);
    r
}

/// Whether a response header of the upstream is passed on to the client:
/// every one but `connection`.
pub fn forwards_header(name: &str) -> (r: bool)
    ensures
        r == (name@ != "connection"@),
{
    let hop = "connection";
    let n = name.unicode_len();
    let m = hop.unicode_len();
    if n != m {
        return true;
    }
    let mut i: usize = 0;
    while i < n
        invariant
            i <= n,
            n == name@.len(),
            m == hop@.len(),
            n == m,
            hop@ == "connection"@,
            name@.subrange(0, i as int) == hop@.subrange(0, i as int),
        decreases n - i,
    {
        if name.get_char(i) != hop.get_char(i) {
            return true;
        }
        assert(name@.subrange(0, i + 1) =~= name@.subrange(0, i as int).push(name@[i as int]));
        assert(hop@.subrange(0, i + 1) =~= hop@.subrange(0, i as int).push(hop@[i as int]));
        i = i + 1;
    }
    assert(name@ =~= name@.subrange(0, n as int));
    assert(hop@ =~= hop@.subrange(0, n as int));
    false
}

} // verus!
