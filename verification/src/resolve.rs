//! Normalizing a request's location to one canonical file identity.
//!
//! A `FileRequest` location is either a bare absolute filesystem path or a
//! `file:` URI.  Both forms resolve to the same canonical identity: the
//! absolute, percent-decoded path.  A URI with any other scheme is rejected
//! with `UnsupportedScheme`; a location that is neither an absolute path nor
//! a usable `file:` URI (a relative path, a remote host, an authority with
//! no path) is rejected with `InvalidFilePath`.
//!
//! The accepted URI shapes are `file:///p`, `file://localhost/p`, and
//! `file:/p`; everything from the first `?` or `#` on is dropped, and `%XX`
//! sequences with two hex digits are decoded (a malformed `%` stays as it
//! is).  Schemes compare case-insensitively.

use vstd::prelude::*;

use crate::errors::ProtoError;

verus! {

/// What a location denotes: a canonical path, a URI with a foreign scheme
/// (carried lowercased), or nothing usable.
pub enum Resolved {
    /// The canonical absolute path.
    Path(Seq<u8>),
    /// A URI whose scheme is not `file`.
    ForeignScheme(Seq<u8>),
    /// Neither an absolute path nor a usable `file:` URI.
    Invalid,
}

/// An ASCII letter.
pub open spec fn is_alpha(b: u8) -> bool {
    (65 <= b <= 90) || (97 <= b <= 122)
}

/// A character allowed inside a URI scheme.
pub open spec fn is_scheme_char(b: u8) -> bool {
    is_alpha(b) || (48 <= b <= 57) || b == 43 || b == 45 || b == 46
}

/// The position of the `:` ending a well-formed scheme that starts at `i`,
/// if the location has one.
pub open spec fn scan_scheme(l: Seq<u8>, i: int) -> Option<int>
    decreases l.len() - i,
{
    if i < 0 || i >= l.len() {
        None
    } else if l[i] == 58 {
        Some(i)
    } else if is_scheme_char(l[i]) {
        scan_scheme(l, i + 1)
    } else {
        None
    }
}

/// The position of the `:` ending the location's scheme: the location is a
/// URI exactly when this is `Some`.
pub open spec fn spec_scheme_end(l: Seq<u8>) -> Option<int> {
    if l.len() > 0 && is_alpha(l[0]) {
        scan_scheme(l, 1)
    } else {
        None
    }
}

/// ASCII lowercasing of one byte.
pub open spec fn lower_byte(b: u8) -> u8 {
    if 65 <= b <= 90 {
        (b + 32) as u8
    } else {
        b
    }
}

/// ASCII lowercasing of a buffer.
pub open spec fn lower_bytes(s: Seq<u8>) -> Seq<u8>
    decreases s,
{
    if s.len() == 0 {
        Seq::empty()
    } else {
        seq![lower_byte(s[0])] + lower_bytes(s.drop_first())
    }
}

/// The bytes of `"file"`.
pub open spec fn spec_file_scheme() -> Seq<u8> {
    seq![102u8, 105u8, 108u8, 101u8]
}

/// The bytes of `"localhost"`.
pub open spec fn spec_localhost() -> Seq<u8> {
    seq![108u8, 111u8, 99u8, 97u8, 108u8, 104u8, 111u8, 115u8, 116u8]
}

/// The position of the first occurrence of `c` at or after `i`, if any.
pub open spec fn scan_byte(l: Seq<u8>, c: u8, i: int) -> Option<int>
    decreases l.len() - i,
{
    if i < 0 || i >= l.len() {
        None
    } else if l[i] == c {
        Some(i)
    } else {
        scan_byte(l, c, i + 1)
    }
}

/// Everything before the first `?` or `#`.
pub open spec fn strip_query(p: Seq<u8>) -> Seq<u8>
    decreases p,
{
    if p.len() == 0 {
        Seq::empty()
    } else if p[0] == 63 || p[0] == 35 {
        Seq::empty()
    } else {
        seq![p[0]] + strip_query(p.drop_first())
    }
}

/// An ASCII hex digit.
pub open spec fn is_hexdig(b: u8) -> bool {
    (48 <= b <= 57) || (65 <= b <= 70) || (97 <= b <= 102)
}

/// The value of an ASCII hex digit.
pub open spec fn hexval(b: u8) -> u8 {
    if 48 <= b <= 57 {
        (b - 48) as u8
    } else if 65 <= b <= 70 {
        (b - 55) as u8
    } else {
        (b - 87) as u8
    }
}

/// Percent-decoding: a `%` followed by two hex digits becomes one byte; a
/// malformed `%` sequence stays literal.
pub open spec fn pct_decode(p: Seq<u8>) -> Seq<u8>
    decreases p,
{
    if p.len() == 0 {
        Seq::empty()
    } else if p[0] == 37 && p.len() >= 3 && is_hexdig(p[1]) && is_hexdig(p[2]) {
        seq![(hexval(p[1]) * 16 + hexval(p[2])) as u8] + pct_decode(p.skip(3))
    } else {
        seq![p[0]] + pct_decode(p.skip(1))
    }
}

/// The canonical path a URI's path part denotes.
pub open spec fn spec_path_of(p: Seq<u8>) -> Resolved {
    Resolved::Path(pct_decode(strip_query(p)))
}

/// Resolution of what follows `file:`.
pub open spec fn spec_file_rest(rest: Seq<u8>) -> Resolved {
    if rest.len() >= 2 && rest[0] == 47 && rest[1] == 47 {
        let after = rest.skip(2);
        match scan_byte(after, 47, 0) {
            None => Resolved::Invalid,
            Some(a) => if a == 0 || after.take(a) == spec_localhost() {
                spec_path_of(after.skip(a))
            } else {
                Resolved::Invalid
            },
        }
    } else if rest.len() >= 1 && rest[0] == 47 {
        spec_path_of(rest)
    } else {
        Resolved::Invalid
    }
}

/// Resolution of a whole location.
pub open spec fn spec_resolve(l: Seq<u8>) -> Resolved {
    match spec_scheme_end(l) {
        None => if l.len() > 0 && l[0] == 47 {
            Resolved::Path(l)
        } else {
            Resolved::Invalid
        },
        Some(c) => {
            let scheme = lower_bytes(l.take(c));
            if scheme == spec_file_scheme() {
                spec_file_rest(l.skip(c + 1))
            } else {
                Resolved::ForeignScheme(scheme)
            }
        },
    }
}

/// A copy of `v[a..b]`.
pub(crate) fn sub_bytes(v: &Vec<u8>, a: usize, b: usize) -> (r: Vec<u8>)
    requires
        a <= b <= v@.len(),
    ensures
        r@ == v@.subrange(a as int, b as int),
{
    let mut r: Vec<u8> = Vec::new();
    let mut i: usize = a;
    while i < b
        invariant
            a <= i <= b <= v@.len(),
            r@ == v@.subrange(a as int, i as int),
        decreases b - i,
    {
        r.push(v[i]);
        proof {
            assert(v@.subrange(a as int, i as int) + seq![v@[i as int]] =~= v@.subrange(
                a as int,
                i as int + 1,
            ));
        }
        i = i + 1;
    }
    r
}

/// The `:` position ending the scheme, if the location is a URI.
fn scheme_end(l: &Vec<u8>) -> (r: Option<usize>)
    ensures
        match r {
            Some(c) => c < l@.len() && spec_scheme_end(l@) == Some(c as int),
            None => spec_scheme_end(l@) is None,
        },
{
    if l.len() == 0 {
        return None;
    }
    let b0 = l[0];
    if !((65 <= b0 && b0 <= 90) || (97 <= b0 && b0 <= 122)) {
        return None;
    }
    let mut i: usize = 1;
    while i < l.len()
        invariant
            1 <= i <= l@.len(),
            l@.len() > 0 && is_alpha(l@[0]),
            scan_scheme(l@, 1) == scan_scheme(l@, i as int),
        decreases l@.len() - i,
    {
        let b = l[i];
        if b == 58 {
            return Some(i);
        }
        if !((65 <= b && b <= 90) || (97 <= b && b <= 122) || (48 <= b && b <= 57) || b == 43 || b
            == 45 || b == 46) {
            return None;
        }
        i = i + 1;
    }
    None
}

/// The position of the first `c` in `v` at or after `from`, if any.
fn find_byte(v: &Vec<u8>, c: u8, from: usize) -> (r: Option<usize>)
    requires
        from <= v@.len(),
    ensures
        match r {
            Some(a) => a < v@.len() && scan_byte(v@, c, from as int) == Some(a as int),
            None => scan_byte(v@, c, from as int) is None,
        },
{
    let mut i: usize = from;
    while i < v.len()
        invariant
            from <= i <= v@.len(),
            scan_byte(v@, c, from as int) == scan_byte(v@, c, i as int),
        decreases v@.len() - i,
    {
        if v[i] == c {
            return Some(i);
        }
        i = i + 1;
    }
    None
}

/// ASCII-lowercases a buffer.
fn lower_vec(v: &Vec<u8>) -> (r: Vec<u8>)
    ensures
        r@ == lower_bytes(v@),
{
    let mut r: Vec<u8> = Vec::new();
    let mut i: usize = 0;
    proof {
        assert(v@.skip(0) =~= v@);
    }
    while i < v.len()
        invariant
            i <= v@.len(),
            lower_bytes(v@) == r@ + lower_bytes(v@.skip(i as int)),
        decreases v@.len() - i,
    {
        proof {
            assert(v@.skip(i as int)[0] == v@[i as int]);
            assert(v@.skip(i as int).drop_first() =~= v@.skip(i as int + 1));
        }
        let b = v[i];
        if 65 <= b && b <= 90 {
            r.push(b + 32);
        } else {
            r.push(b);
        }
        i = i + 1;
    }
    proof {
        assert(v@.skip(v@.len() as int) =~= Seq::<u8>::empty());
    }
    r
}

/// Everything before the first `?` or `#`, then percent-decoded: the
/// canonical form of a URI's path part.
fn canonical_path(v: &Vec<u8>) -> (r: Vec<u8>)
    ensures
        r@ == pct_decode(strip_query(v@)),
{
    let mut stripped: Vec<u8> = Vec::new();
    let mut i: usize = 0;
    proof {
        assert(v@.skip(0) =~= v@);
    }
    while i < v.len() && v[i] != 63 && v[i] != 35
        invariant
            i <= v@.len(),
            strip_query(v@) == stripped@ + strip_query(v@.skip(i as int)),
        decreases v@.len() - i,
    {
        proof {
            assert(v@.skip(i as int)[0] == v@[i as int]);
            assert(v@.skip(i as int).drop_first() =~= v@.skip(i as int + 1));
        }
        stripped.push(v[i]);
        i = i + 1;
    }
    proof {
        if i < v@.len() {
            assert(v@.skip(i as int)[0] == v@[i as int]);
            assert(strip_query(v@.skip(i as int)) =~= Seq::<u8>::empty());
        } else {
            assert(v@.skip(v@.len() as int) =~= Seq::<u8>::empty());
        }
        assert(stripped@ =~= strip_query(v@));
    }
    let mut out: Vec<u8> = Vec::new();
    let mut k: usize = 0;
    proof {
        assert(stripped@.skip(0) =~= stripped@);
    }
    while k < stripped.len()
        invariant
            k <= stripped@.len(),
            pct_decode(stripped@) == out@ + pct_decode(stripped@.skip(k as int)),
        decreases stripped@.len() - k,
    {
        proof {
            let rem = stripped@.skip(k as int);
            assert(rem[0] == stripped@[k as int]);
            assert(rem.skip(1) =~= stripped@.skip(k as int + 1));
            if rem.len() >= 3 {
                assert(rem[1] == stripped@[k as int + 1]);
                assert(rem[2] == stripped@[k as int + 2]);
                assert(rem.skip(3) =~= stripped@.skip(k as int + 3));
            }
        }
        let b = stripped[k];
        if b == 37 && stripped.len() - k > 2 {
            let h1 = stripped[k + 1];
            let h2 = stripped[k + 2];
            let d1 = hex_digit_value(h1);
            let d2 = hex_digit_value(h2);
            if d1 < 16 && d2 < 16 {
                out.push(d1 * 16 + d2);
                k = k + 3;
                continue ;
            }
        }
        out.push(b);
        k = k + 1;
    }
    proof {
        assert(stripped@.skip(stripped@.len() as int) =~= Seq::<u8>::empty());
    }
    out
}

/// The value of an ASCII hex digit, or 255 for any other byte.
fn hex_digit_value(b: u8) -> (r: u8)
    ensures
        r < 16 <==> is_hexdig(b),
        is_hexdig(b) ==> r == hexval(b),
{
    if 48 <= b && b <= 57 {
        b - 48
    } else if 65 <= b && b <= 70 {
        b - 55
    } else if 97 <= b && b <= 102 {
        b - 87
    } else {
        255
    }
}

/// Resolves a location to its canonical file identity.
///
/// Exactly the locations whose resolution is a path succeed; a URI with a
/// foreign scheme is rejected with `UnsupportedScheme` carrying the
/// lowercased scheme, and every other unusable location is rejected with
/// `InvalidFilePath` carrying the location itself.
pub fn resolve_location(loc: &Vec<u8>) -> (r: Result<Vec<u8>, ProtoError>)
    ensures
        match spec_resolve(loc@) {
            Resolved::Path(p) => r matches Ok(v) && v@ == p,
            Resolved::ForeignScheme(s) => r matches Err(ProtoError::UnsupportedScheme(b)) && b@
                == s,
            Resolved::Invalid => r matches Err(ProtoError::InvalidFilePath(b)) && b@ == loc@,
        },
{
    proof {
        assert(loc@.subrange(0, loc@.len() as int) =~= loc@);
    }
    match scheme_end(loc) {
        None => {
            if loc.len() > 0 && loc[0] == 47 {
                Ok(sub_bytes(loc, 0, loc.len()))
            } else {
                Err(ProtoError::InvalidFilePath(sub_bytes(loc, 0, loc.len())))
            }
        },
        Some(c) => {
            let scheme = lower_vec(&sub_bytes(loc, 0, c));
            let file_name = file_scheme_name();
            if !crate::session::bytes_eq(&scheme, &file_name) {
                proof {
                    assert(loc@.subrange(0, c as int) =~= loc@.take(c as int));
                }
                return Err(ProtoError::UnsupportedScheme(scheme));
            }
            proof {
                assert(loc@.subrange(0, c as int) =~= loc@.take(c as int));
            }
            let n = loc.len();
            let rest = sub_bytes(loc, c + 1, n);
            proof {
                assert(rest@ =~= loc@.skip(c as int + 1));
            }
            if rest.len() >= 2 && rest[0] == 47 && rest[1] == 47 {
                let after = sub_bytes(&rest, 2, rest.len());
                proof {
                    assert(after@ =~= rest@.skip(2));
                }
                match find_byte(&after, 47, 0) {
                    None => Err(ProtoError::InvalidFilePath(sub_bytes(loc, 0, loc.len()))),
                    Some(a) => {
                        let host = sub_bytes(&after, 0, a);
                        proof {
                            assert(host@ =~= after@.take(a as int));
                        }
                        let localhost = localhost_name();
                        if a == 0 || crate::session::bytes_eq(&host, &localhost) {
                            let tail = sub_bytes(&after, a, after.len());
                            proof {
                                assert(tail@ =~= after@.skip(a as int));
                            }
                            Ok(canonical_path(&tail))
                        } else {
                            Err(ProtoError::InvalidFilePath(sub_bytes(loc, 0, loc.len())))
                        }
                    },
                }
            } else if rest.len() >= 1 && rest[0] == 47 {
                Ok(canonical_path(&rest))
            } else {
                Err(ProtoError::InvalidFilePath(sub_bytes(loc, 0, loc.len())))
            }
        },
    }
}

/// The bytes of the `file` scheme name.
fn file_scheme_name() -> (v: Vec<u8>)
    ensures
        v@ == spec_file_scheme(),
{
    let mut v: Vec<u8> = Vec::new();
    v.push(102u8);
    v.push(105u8);
    v.push(108u8);
    v.push(101u8);
    proof {
        assert(v@ =~= spec_file_scheme());
    }
    v
}

/// The bytes of the `localhost` authority.
fn localhost_name() -> (v: Vec<u8>)
    ensures
        v@ == spec_localhost(),
{
    let mut v: Vec<u8> = Vec::new();
    v.push(108u8);
    v.push(111u8);
    v.push(99u8);
    v.push(97u8);
    v.push(108u8);
    v.push(104u8);
    v.push(111u8);
    v.push(115u8);
    v.push(116u8);
    proof {
        assert(v@ =~= spec_localhost());
    }
    v
}

} // verus!
