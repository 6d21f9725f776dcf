//! The content-type classifier: a pure predicate over the declared media
//! type of a request, deciding XML-eligibility.
//!
//! A header value qualifies when it is readable as text and its media
//! type essence — `type "/" subtype`, everything before the first `;` —
//! names the type `application` or `text` and a subtype that is `xml` or
//! carries the structured suffix `+xml`. Comparison is ASCII
//! case-insensitive; parameters after the first `;` are ignored.

use vstd::prelude::*;

verus! {

/// Bytes a header value may hold while still being readable as text:
/// space, horizontal tab, and visible ASCII.
pub open spec fn is_text_byte(b: u8) -> bool {
    32 <= b < 127 || b == 9
}

/// The whole header value is readable as text.
pub open spec fn is_header_text(s: Seq<u8>) -> bool {
    forall|i: int| 0 <= i < s.len() ==> is_text_byte(#[trigger] s[i])
}

/// ASCII lowercasing of one byte.
pub open spec fn lower(b: u8) -> u8 {
    if 'A' as u8 <= b <= 'Z' as u8 {
        (b + 32) as u8
    } else {
        b
    }
}

/// ASCII lowercasing of a byte sequence.
pub open spec fn lower_seq(s: Seq<u8>) -> Seq<u8> {
    Seq::new(s.len(), |i: int| lower(s[i]))
}

/// Token characters of media type names (RFC 7230 `tchar`).
pub open spec fn is_tchar(b: u8) -> bool {
    ||| 'a' as u8 <= b <= 'z' as u8
    ||| 'A' as u8 <= b <= 'Z' as u8
    ||| '0' as u8 <= b <= '9' as u8
    ||| b == '!' as u8
    ||| b == '#' as u8
    ||| b == '$' as u8
    ||| b == '%' as u8
    ||| b == '&' as u8
    ||| b == '\'' as u8
    ||| b == '*' as u8
    ||| b == '+' as u8
    ||| b == '-' as u8
    ||| b == '.' as u8
    ||| b == '^' as u8
    ||| b == '_' as u8
    ||| b == '`' as u8
    ||| b == '|' as u8
    ||| b == '~' as u8
}

/// A non-empty run of token characters.
pub open spec fn is_token(s: Seq<u8>) -> bool {
    s.len() > 0 && forall|i: int| 0 <= i < s.len() ==> is_tchar(#[trigger] s[i])
}

/// The bytes of `application`, lowercased.
pub open spec fn spec_application() -> Seq<u8> {
    seq![
        'a' as u8,
        'p' as u8,
        'p' as u8,
        'l' as u8,
        'i' as u8,
        'c' as u8,
        'a' as u8,
        't' as u8,
        'i' as u8,
        'o' as u8,
        'n' as u8,
    ]
}

/// The bytes of `text`, lowercased.
pub open spec fn spec_text() -> Seq<u8> {
    seq!['t' as u8, 'e' as u8, 'x' as u8, 't' as u8]
}

/// The bytes of `xml`, lowercased.
pub open spec fn spec_xml() -> Seq<u8> {
    seq!['x' as u8, 'm' as u8, 'l' as u8]
}

/// `n` marks where the parameter section of the header value begins: the
/// first `;`, or the end when there is none. Everything before it is the
/// media type's essence.
pub open spec fn is_params_start(s: Seq<u8>, n: int) -> bool {
    &&& 0 <= n <= s.len()
    &&& forall|i: int| 0 <= i < n ==> #[trigger] s[i] != ';' as u8
    &&& n == s.len() || s[n] == ';' as u8
}

/// What follows the last `+` of the subtype is exactly `xml`.
pub open spec fn has_xml_suffix(sub: Seq<u8>) -> bool {
    exists|j: int|
        #![trigger sub[j]]
        {
            &&& 0 <= j < sub.len()
            &&& sub[j] == '+' as u8
            &&& forall|i: int| j < i < sub.len() ==> #[trigger] sub[i] != '+' as u8
            &&& sub.skip(j + 1) == spec_xml()
        }
}

/// A lowercased media type essence that qualifies as XML: type and
/// subtype are tokens, the type is `application` or `text`, and the
/// subtype is `xml` or has the structured suffix `xml`.
pub open spec fn accepted_essence(e: Seq<u8>) -> bool {
    exists|k: int|
        #![trigger e[k]]
        {
            &&& 0 <= k < e.len()
            &&& e[k] == '/' as u8
            &&& is_token(e.take(k))
            &&& is_token(e.skip(k + 1))
            &&& (e.take(k) == spec_application() || e.take(k) == spec_text())
            &&& (e.skip(k + 1) == spec_xml() || has_xml_suffix(e.skip(k + 1)))
        }
}

/// The classifier's decision for one header value.
pub open spec fn xml_media_type(s: Seq<u8>) -> bool {
    &&& is_header_text(s)
    &&& exists|n: int| #[trigger]
        is_params_start(s, n) && accepted_essence(lower_seq(s.take(n)))
}

/// The classifier's decision for a request: an XML-compatible media type
/// must be declared; an absent header always fails.
pub open spec fn spec_xml_content_type(h: Option<Seq<u8>>) -> bool {
    match h {
        Option::None => false,
        Option::Some(s) => xml_media_type(s),
    }
}

/// The parameter section starts at exactly one place.
pub proof fn lemma_params_start_unique(s: Seq<u8>, n1: int, n2: int)
    requires
        is_params_start(s, n1),
        is_params_start(s, n2),
    ensures
        n1 == n2,
{
    if n1 < n2 {
        assert(s[n1] == ';' as u8);
        assert(s[n1] != ';' as u8);
    }
    if n2 < n1 {
        assert(s[n2] == ';' as u8);
        assert(s[n2] != ';' as u8);
    }
}

/// Decides `is_text_byte`.
fn text_byte(b: u8) -> (r: bool)
    ensures
        r == is_text_byte(b),
{
    b == 9 || (32 <= b && b < 127)
}

/// Decides `is_tchar`.
fn tchar(b: u8) -> (r: bool)
    ensures
        r == is_tchar(b),
{
    ('a' as u8 <= b && b <= 'z' as u8) || ('A' as u8 <= b && b <= 'Z' as u8) || ('0' as u8 <= b
        && b <= '9' as u8) || b == '!' as u8 || b == '#' as u8 || b == '$' as u8 || b == '%' as u8
        || b == '&' as u8 || b == '\'' as u8 || b == '*' as u8 || b == '+' as u8 || b == '-' as u8
        || b == '.' as u8 || b == '^' as u8 || b == '_' as u8 || b == '`' as u8 || b == '|' as u8
        || b == '~' as u8
}

/// ASCII-lowercases one byte.
fn lower_byte(b: u8) -> (r: u8)
    ensures
        r == lower(b),
{
    if 'A' as u8 <= b && b <= 'Z' as u8 {
        b + 32
    } else {
        b
    }
}

/// When the first `/` of the essence sits at `k`, no other position can
/// serve as the type/subtype split of an accepted essence.
proof fn lemma_essence_rejected_at(e: Seq<u8>, k: int)
    requires
        0 <= k < e.len(),
        e[k] == '/' as u8,
        forall|j: int| 0 <= j < k ==> #[trigger] e[j] != '/' as u8,
        !(is_token(e.take(k)) && is_token(e.skip(k + 1)) && (e.take(k) == spec_application()
            || e.take(k) == spec_text()) && (e.skip(k + 1) == spec_xml() || has_xml_suffix(
            e.skip(k + 1),
        ))),
    ensures
        !accepted_essence(e),
{
    if accepted_essence(e) {
        let k2 = choose|k2: int|
            #![trigger e[k2]]
            {
                &&& 0 <= k2 < e.len()
                &&& e[k2] == '/' as u8
                &&& is_token(e.take(k2))
                &&& is_token(e.skip(k2 + 1))
                &&& (e.take(k2) == spec_application() || e.take(k2) == spec_text())
                &&& (e.skip(k2 + 1) == spec_xml() || has_xml_suffix(e.skip(k2 + 1)))
            };
        if k2 < k {
            assert(e[k2] != '/' as u8);
        } else if k2 > k {
            assert(e.take(k2)[k] == e[k]);
            assert(is_tchar(e.take(k2)[k]));
            assert(false);
        }
    }
}

/// Compares a lowercased prefix of the header bytes with `application`.
fn region_is_application(v: &Vec<u8>, to: usize) -> (r: bool)
    requires
        to <= v@.len(),
    ensures
        r == (lower_seq(v@.subrange(0, to as int)) == spec_application()),
{
    if to != 11 {
        proof {
            assert(lower_seq(v@.subrange(0, to as int)).len() == to);
        }
        return false;
    }
    let mut i: usize = 0;
    while i < 11
        invariant
            i <= 11,
            to == 11,
            11 <= v@.len(),
            forall|j: int| 0 <= j < i ==> lower(#[trigger] v@[j]) == spec_application()[j],
        decreases 11 - i,
    {
        let exp: u8 = if i == 0 {
            'a' as u8
        } else if i == 1 {
            'p' as u8
        } else if i == 2 {
            'p' as u8
        } else if i == 3 {
            'l' as u8
        } else if i == 4 {
            'i' as u8
        } else if i == 5 {
            'c' as u8
        } else if i == 6 {
            'a' as u8
        } else if i == 7 {
            't' as u8
        } else if i == 8 {
            'i' as u8
        } else if i == 9 {
            'o' as u8
        } else {
            'n' as u8
        };
        proof {
            assert(exp == spec_application()[i as int]);
        }
        if lower_byte(v[i]) != exp {
            proof {
                assert(v@.subrange(0, to as int)[i as int] == v@[i as int]);
                assert(lower_seq(v@.subrange(0, to as int))[i as int] == lower(v@[i as int]));
            }
            return false;
        }
        i += 1;
    }
    proof {
        assert forall|j: int| 0 <= j < 11 implies lower_seq(v@.subrange(0, 11))[j]
            == spec_application()[j] by {
            assert(v@.subrange(0, 11)[j] == v@[j]);
        }
        assert(lower_seq(v@.subrange(0, 11)) =~= spec_application());
    }
    true
}

/// Compares a lowercased prefix of the header bytes with `text`.
fn region_is_text(v: &Vec<u8>, to: usize) -> (r: bool)
    requires
        to <= v@.len(),
    ensures
        r == (lower_seq(v@.subrange(0, to as int)) == spec_text()),
{
    if to != 4 {
        proof {
            assert(lower_seq(v@.subrange(0, to as int)).len() == to);
        }
        return false;
    }
    let mut i: usize = 0;
    while i < 4
        invariant
            i <= 4,
            to == 4,
            4 <= v@.len(),
            forall|j: int| 0 <= j < i ==> lower(#[trigger] v@[j]) == spec_text()[j],
        decreases 4 - i,
    {
        let exp: u8 = if i == 0 {
            't' as u8
        } else if i == 1 {
            'e' as u8
        } else if i == 2 {
            'x' as u8
        } else {
            't' as u8
        };
        proof {
            assert(exp == spec_text()[i as int]);
        }
        if lower_byte(v[i]) != exp {
            proof {
                assert(v@.subrange(0, to as int)[i as int] == v@[i as int]);
                assert(lower_seq(v@.subrange(0, to as int))[i as int] == lower(v@[i as int]));
            }
            return false;
        }
        i += 1;
    }
    proof {
        assert forall|j: int| 0 <= j < 4 implies lower_seq(v@.subrange(0, 4))[j]
            == spec_text()[j] by {
            assert(v@.subrange(0, 4)[j] == v@[j]);
        }
        assert(lower_seq(v@.subrange(0, 4)) =~= spec_text());
    }
    true
}

/// Compares a lowercased region of the header bytes with `xml`.
fn region_is_xml(v: &Vec<u8>, from: usize, to: usize) -> (r: bool)
    requires
        from <= to <= v@.len(),
    ensures
        r == (lower_seq(v@.subrange(from as int, to as int)) == spec_xml()),
{
    if to - from != 3 {
        proof {
            assert(lower_seq(v@.subrange(from as int, to as int)).len() == to - from);
        }
        return false;
    }
    let mut i: usize = 0;
    while i < 3
        invariant
            i <= 3,
            from + 3 == to,
            to <= v@.len(),
            forall|j: int| 0 <= j < i ==> lower(#[trigger] v@[from + j]) == spec_xml()[j],
        decreases 3 - i,
    {
        let exp: u8 = if i == 0 {
            'x' as u8
        } else if i == 1 {
            'm' as u8
        } else {
            'l' as u8
        };
        proof {
            assert(exp == spec_xml()[i as int]);
        }
        if lower_byte(v[from + i]) != exp {
            proof {
                assert(v@.subrange(from as int, to as int)[i as int] == v@[from + i]);
                assert(lower_seq(v@.subrange(from as int, to as int))[i as int] == lower(
                    v@[from + i],
                ));
            }
            return false;
        }
        i += 1;
    }
    proof {
        assert forall|j: int| 0 <= j < 3 implies lower_seq(
            v@.subrange(from as int, to as int),
        )[j] == spec_xml()[j] by {
            assert(v@.subrange(from as int, to as int)[j] == v@[from + j]);
        }
        assert(lower_seq(v@.subrange(from as int, to as int)) =~= spec_xml());
    }
    true
}

/// Decides whether the essence — the first `n` header bytes — qualifies
/// as an XML media type once lowercased.
fn essence_accepted(v: &Vec<u8>, n: usize) -> (r: bool)
    requires
        n <= v@.len(),
    ensures
        r == accepted_essence(lower_seq(v@.take(n as int))),
{
    let ghost e = lower_seq(v@.take(n as int));
    proof {
        assert forall|j: int| 0 <= j < n implies e[j] == lower(v@[j]) by {
            assert(v@.take(n as int)[j] == v@[j]);
        }
    }
    // Find the first slash; token characters never include one, so an
    // accepted essence splits exactly there.
    let mut k: usize = 0;
    while k < n && v[k] != '/' as u8
        invariant
            k <= n,
            n <= v@.len(),
            forall|j: int| 0 <= j < k ==> #[trigger] v@[j] != '/' as u8,
        decreases n - k,
    {
        k += 1;
    }
    proof {
        assert forall|j: int| 0 <= j < k implies e[j] != '/' as u8 by {}
    }
    if k == n {
        proof {
            assert(!accepted_essence(e)) by {
                if accepted_essence(e) {
                    let k2 = choose|k2: int|
                        #![trigger e[k2]]
                        {
                            &&& 0 <= k2 < e.len()
                            &&& e[k2] == '/' as u8
                            &&& is_token(e.take(k2))
                            &&& is_token(e.skip(k2 + 1))
                            &&& (e.take(k2) == spec_application() || e.take(k2) == spec_text())
                            &&& (e.skip(k2 + 1) == spec_xml() || has_xml_suffix(e.skip(k2 + 1)))
                        };
                    assert(e[k2] != '/' as u8);
                }
            }
        }
        return false;
    }
    proof {
        assert(e[k as int] == lower(v@[k as int]));
        assert(e[k as int] == '/' as u8);
    }
    // The type name may not be empty.
    if k == 0 {
        proof {
            assert(e.take(0).len() == 0);
            assert(!is_token(e.take(0)));
            lemma_essence_rejected_at(e, 0);
        }
        return false;
    }
    // The type name must be all token characters.
    let mut t: usize = 0;
    while t < k
        invariant
            t <= k,
            k < n,
            n <= v@.len(),
            e == lower_seq(v@.take(n as int)),
            e[k as int] == '/' as u8,
            forall|j: int| 0 <= j < k ==> #[trigger] e[j] != '/' as u8,
            forall|j: int| 0 <= j < n ==> #[trigger] e[j] == lower(v@[j]),
            forall|j: int| 0 <= j < t ==> is_tchar(#[trigger] v@[j]),
        decreases k - t,
    {
        if !tchar(v[t]) {
            proof {
                assert(e.take(k as int)[t as int] == e[t as int]);
                assert(!is_tchar(e[t as int]));
                assert(!is_token(e.take(k as int)));
                lemma_essence_rejected_at(e, k as int);
            }
            return false;
        }
        t += 1;
    }
    // So must the subtype, and it may not be empty.
    if k + 1 == n {
        proof {
            assert(e.skip(k + 1).len() == 0);
            assert(!is_token(e.skip(k + 1)));
            lemma_essence_rejected_at(e, k as int);
        }
        return false;
    }
    let mut u: usize = k + 1;
    while u < n
        invariant
            k + 1 <= u <= n,
            k < n,
            n <= v@.len(),
            e == lower_seq(v@.take(n as int)),
            e[k as int] == '/' as u8,
            forall|j: int| 0 <= j < k ==> #[trigger] e[j] != '/' as u8,
            forall|j: int| 0 <= j < n ==> #[trigger] e[j] == lower(v@[j]),
            forall|j: int| k + 1 <= j < u ==> is_tchar(#[trigger] v@[j]),
        decreases n - u,
    {
        if !tchar(v[u]) {
            proof {
                assert(e.skip(k + 1)[u - (k + 1)] == e[u as int]);
                assert(!is_tchar(e[u as int]));
                assert(!is_token(e.skip(k + 1)));
                lemma_essence_rejected_at(e, k as int);
            }
            return false;
        }
        u += 1;
    }
    proof {
        assert(is_token(e.take(k as int))) by {
            assert forall|j: int| 0 <= j < k implies is_tchar(e.take(k as int)[j]) by {
                assert(e.take(k as int)[j] == e[j]);
                assert(is_tchar(v@[j]));
            }
        }
        assert(is_token(e.skip(k + 1))) by {
            assert forall|j: int| 0 <= j < e.skip(k + 1).len() implies is_tchar(
                #[trigger] e.skip(k + 1)[j],
            ) by {
                assert(e.skip(k + 1)[j] == e[k + 1 + j]);
                assert(is_tchar(v@[k + 1 + j]));
            }
        }
    }
    // The type must be `application` or `text`.
    let is_app = region_is_application(v, k);
    let is_txt = region_is_text(v, k);
    proof {
        assert(e.take(k as int) =~= lower_seq(v@.subrange(0, k as int))) by {
            assert forall|j: int| 0 <= j < k implies #[trigger] e.take(k as int)[j] == lower_seq(
                v@.subrange(0, k as int),
            )[j] by {
                assert(e.take(k as int)[j] == e[j]);
                assert(v@.subrange(0, k as int)[j] == v@[j]);
            }
        }
    }
    if !is_app && !is_txt {
        proof {
            lemma_essence_rejected_at(e, k as int);
        }
        return false;
    }
    // The subtype is `xml`, or its structured suffix is.
    let sub_is_xml = region_is_xml(v, k + 1, n);
    proof {
        assert(e.skip(k + 1) =~= lower_seq(v@.subrange(k + 1, n as int))) by {
            assert forall|j: int| 0 <= j < n - (k + 1) implies #[trigger] e.skip(k + 1)[j] == lower_seq(
                v@.subrange(k + 1, n as int),
            )[j] by {
                assert(e.skip(k + 1)[j] == e[k + 1 + j]);
                assert(v@.subrange(k + 1, n as int)[j] == v@[k + 1 + j]);
            }
        }
    }
    if sub_is_xml {
        proof {
            assert(accepted_essence(e)) by {
                assert(0 <= k < e.len() && e[k as int] == '/' as u8 && is_token(e.take(k as int))
                    && is_token(e.skip(k + 1)) && (e.take(k as int) == spec_application()
                    || e.take(k as int) == spec_text()) && e.skip(k + 1) == spec_xml());
            }
        }
        return true;
    }
    // Find the last `+` of the subtype; the suffix follows it.
    let mut plus: usize = 0;
    let mut has_plus = false;
    let mut q = k + 1;
    while q < n
        invariant
            k + 1 <= q <= n,
            k < n,
            n <= v@.len(),
            has_plus ==> k + 1 <= plus < q && v@[plus as int] == '+' as u8,
            has_plus ==> forall|t2: int| plus < t2 < q ==> #[trigger] v@[t2] != '+' as u8,
            !has_plus ==> forall|t2: int| k + 1 <= t2 < q ==> #[trigger] v@[t2] != '+' as u8,
        decreases n - q,
    {
        if v[q] == '+' as u8 {
            plus = q;
            has_plus = true;
        }
        q += 1;
    }
    let ghost sub = e.skip(k + 1);
    proof {
        assert forall|j: int| 0 <= j < sub.len() implies #[trigger] sub[j] == lower(v@[k + 1 + j]) by {
            assert(sub[j] == e[k + 1 + j]);
        }
    }
    if !has_plus {
        proof {
            assert(!has_xml_suffix(sub)) by {
                if has_xml_suffix(sub) {
                    let j = choose|j: int|
                        #![trigger sub[j]]
                        {
                            &&& 0 <= j < sub.len()
                            &&& sub[j] == '+' as u8
                            &&& forall|i2: int| j < i2 < sub.len() ==> #[trigger] sub[i2]
                                != '+' as u8
                            &&& sub.skip(j + 1) == spec_xml()
                        };
                    assert(v@[k + 1 + j] != '+' as u8);
                    assert(sub[j] != '+' as u8);
                }
            }
            lemma_essence_rejected_at(e, k as int);
        }
        return false;
    }
    let suf_is_xml = region_is_xml(v, plus + 1, n);
    proof {
        let j = plus - (k + 1);
        assert(sub[j as int] == lower(v@[plus as int]));
        assert(sub[j as int] == '+' as u8);
        assert forall|i2: int| j < i2 < sub.len() implies #[trigger] sub[i2] != '+' as u8 by {
            assert(sub[i2] == lower(v@[k + 1 + i2]));
            assert(v@[k + 1 + i2] != '+' as u8);
        }
        assert(sub.skip(j + 1) =~= lower_seq(v@.subrange(plus + 1, n as int))) by {
            assert forall|i2: int| 0 <= i2 < n - (plus + 1) implies #[trigger] sub.skip(j + 1)[i2]
                == lower_seq(v@.subrange(plus + 1, n as int))[i2] by {
                assert(sub.skip(j + 1)[i2] == sub[j + 1 + i2]);
                assert(sub[j + 1 + i2] == lower(v@[plus + 1 + i2]));
                assert(v@.subrange(plus + 1, n as int)[i2] == v@[plus + 1 + i2]);
            }
        }
    }
    if suf_is_xml {
        proof {
            let j = plus - (k + 1);
            assert(has_xml_suffix(sub)) by {
                assert(0 <= j < sub.len() && sub[j as int] == '+' as u8 && (forall|i2: int|
                    j < i2 < sub.len() ==> #[trigger] sub[i2] != '+' as u8) && sub.skip(j + 1)
                    == spec_xml());
            }
            assert(accepted_essence(e)) by {
                assert(0 <= k < e.len() && e[k as int] == '/' as u8 && is_token(e.take(k as int))
                    && is_token(e.skip(k + 1)) && (e.take(k as int) == spec_application()
                    || e.take(k as int) == spec_text()) && has_xml_suffix(e.skip(k + 1)));
            }
        }
        true
    } else {
        proof {
            let j = plus - (k + 1);
            assert(!has_xml_suffix(sub)) by {
                if has_xml_suffix(sub) {
                    let j2 = choose|j2: int|
                        #![trigger sub[j2]]
                        {
                            &&& 0 <= j2 < sub.len()
                            &&& sub[j2] == '+' as u8
                            &&& forall|i2: int| j2 < i2 < sub.len() ==> #[trigger] sub[i2]
                                != '+' as u8
                            &&& sub.skip(j2 + 1) == spec_xml()
                        };
                    if j2 < j {
                        assert(sub[j as int] != '+' as u8);
                    } else if j2 > j {
                        assert(sub[j2] != '+' as u8);
                    } else {
                        assert(sub.skip(j + 1) == spec_xml());
                        assert(lower_seq(v@.subrange(plus + 1, n as int)) == spec_xml());
                    }
                }
            }
            lemma_essence_rejected_at(e, k as int);
        }
        false
    }
}

/// The content-type classifier: true exactly when a declared
/// `Content-Type` header is readable as text and names an XML-compatible
/// media type. An absent header, bytes that are not text, and a
/// malformed media type all answer false.
pub fn xml_content_type(content_type: &Option<Vec<u8>>) -> (r: bool)
    ensures
        r == spec_xml_content_type(content_type.deep_view()),
{
    let v: &Vec<u8> = match content_type {
        Option::Some(v) => v,
        Option::None => {
            proof {
                assert(content_type.deep_view() is None);
            }
            return false;
        },
    };
    proof {
        assert(v.deep_view() =~= v@);
    }
    // Every byte must be readable as text.
    let len = v.len();
    let mut i: usize = 0;
    while i < len
        invariant
            i <= len,
            len == v@.len(),
            content_type.deep_view() == Option::Some(v@),
            forall|j: int| 0 <= j < i ==> is_text_byte(#[trigger] v@[j]),
        decreases len - i,
    {
        if !text_byte(v[i]) {
            proof {
                assert(!is_header_text(v@));
            }
            return false;
        }
        i += 1;
    }
    proof {
        assert(is_header_text(v@));
    }
    // The essence ends at the first `;`; parameters after it are
    // ignored.
    let mut n: usize = 0;
    while n < len && v[n] != ';' as u8
        invariant
            n <= len,
            len == v@.len(),
            forall|j: int| 0 <= j < n ==> #[trigger] v@[j] != ';' as u8,
        decreases len - n,
    {
        n += 1;
    }
    proof {
        assert(is_params_start(v@, n as int));
    }
    let ok = essence_accepted(v, n);
    proof {
        if !ok {
            assert forall|n2: int| is_params_start(v@, n2) implies !accepted_essence(
                lower_seq(v@.take(n2)),
            ) by {
                lemma_params_start_unique(v@, n as int, n2);
            }
        }
    }
    ok
}

} // verus!
