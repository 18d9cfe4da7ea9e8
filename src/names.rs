//! Names of the files in a snapshot directory.
use vstd::prelude::*;
use vstd::string::StringSliceAdditionalSpecFns;

verus! {

/// `b` is an ASCII decimal digit.
pub open spec fn is_digit(b: u8) -> bool {
    48 <= b <= 57
}

/// The value of a string of decimal digits, most significant first.
pub open spec fn digits_value(s: Seq<u8>) -> nat
    decreases s.len(),
{
    if s.len() == 0 {
        0
    } else {
        digits_value(s.drop_last()) * 10 + (s.last() - 48) as nat
    }
}

/// The digits of a decimal numeral: an optional leading `+` dropped.
pub open spec fn numeral_digits(s: Seq<u8>) -> Seq<u8> {
    if s.len() > 0 && s[0] == 43 {
        s.drop_first()
    } else {
        s
    }
}

/// Every byte of `d` is a decimal digit.
pub open spec fn all_digits(d: Seq<u8>) -> bool {
    forall|i: int| 0 <= i < d.len() ==> is_digit(#[trigger] d[i])
}

/// The `u64` that a decimal numeral names: an optional `+`, then one or
/// more digits, of a value that fits; `None` for anything else.
pub open spec fn decimal_u64(s: Seq<u8>) -> Option<u64> {
    let d = numeral_digits(s);
    if d.len() > 0 && all_digits(d) && digits_value(d) <= u64::MAX {
        Some(digits_value(d) as u64)
    } else {
        None
    }
}

proof fn lemma_digits_value_grows(s: Seq<u8>, k: int)
    requires
        0 <= k <= s.len(),
        forall|i: int| 0 <= i < s.len() ==> is_digit(#[trigger] s[i]),
    ensures
        digits_value(s.subrange(0, k)) <= digits_value(s),
    decreases s.len() - k,
{
    if k < s.len() {
        lemma_digits_value_grows(s, k + 1);
        assert(s.subrange(0, k + 1).drop_last() =~= s.subrange(0, k));
    } else {
        assert(s.subrange(0, k) =~= s);
    }
}

/// Parses a decimal numeral into a `u64`, accepting what `u64`'s `FromStr`
/// accepts.
pub fn parse_u64(s: &[u8]) -> (r: Option<u64>)
    ensures
        r == decimal_u64(s@),
{
    let n = s.len();
    let start: usize = if n > 0 && s[0] == 43 {
        1
    } else {
        0
    };
    let ghost d = numeral_digits(s@);
    assert(d =~= s@.subrange(start as int, n as int));
    if start == n {
        return None;
    }
    let mut acc: u64 = 0;
    let mut i: usize = start;
    while i < n
        invariant
            start <= i <= n,
            n == s@.len(),
            d == s@.subrange(start as int, n as int),
            d == numeral_digits(s@),
            forall|j: int| 0 <= j < i - start ==> is_digit(#[trigger] d[j]),
            acc == digits_value(d.subrange(0, i - start)),
        decreases n - i,
    {
        let b = s[i];
        assert(d[i - start] == b);
        if b < 48 || b > 57 {
            assert(!is_digit(d[i - start]));
            assert(!all_digits(d));
            return None;
        }
        proof {
            assert(d.subrange(0, i - start + 1).drop_last() =~= d.subrange(0, i - start));
        }
        let digit = (b - 48) as u64;
        let next = match acc.checked_mul(10) {
            Some(m) => m.checked_add(digit),
            None => None,
        };
        match next {
            Some(v) => {
                acc = v;
            },
            None => {
                proof {
                    // The remaining characters only make the value larger,
                    // or are not digits at all.
                    assert(digits_value(d.subrange(0, i - start + 1)) == acc * 10 + digit);
                    if all_digits(d) {
                        lemma_digits_value_grows(d, i - start + 1);
                    }
                }
                return None;
            },
        }
        i = i + 1;
    }
    assert(d.subrange(0, i - start) =~= d);
    Some(acc)
}

proof fn lemma_numeral_has_no_dot(s: Seq<u8>)
    requires
        decimal_u64(s) is Some,
    ensures
        forall|j: int| 0 <= j < s.len() ==> #[trigger] s[j] != 46,
{
    let d = numeral_digits(s);
    assert forall|j: int| 0 <= j < s.len() implies #[trigger] s[j] != 46 by {
        if s.len() > 0 && s[0] == 43 {
            if j > 0 {
                assert(s[j] == d[j - 1]);
            }
        } else {
            assert(s[j] == d[j]);
        }
    }
}

/// `name` is `<slot>.<id>`, split at its dot `i`.
pub open spec fn is_segment_name_split(name: Seq<u8>, i: int, slot: u64, id: u64) -> bool {
    &&& 0 <= i < name.len()
    &&& name[i] == 46
    &&& decimal_u64(name.subrange(0, i)) == Some(slot)
    &&& decimal_u64(name.subrange(i + 1, name.len() as int)) == Some(id)
}

/// `name` is `<slot>.<id>`, split at some dot.
pub open spec fn names_segment(name: Seq<u8>, slot: u64, id: u64) -> bool {
    exists|i: int| is_segment_name_split(name, i, slot, id)
}

/// A segment file name names at most one segment.
pub proof fn lemma_segment_name_unique(name: Seq<u8>, s1: u64, i1: u64, s2: u64, i2: u64)
    requires
        names_segment(name, s1, i1),
        names_segment(name, s2, i2),
    ensures
        s1 == s2 && i1 == i2,
{
    let k1 = choose|k: int| is_segment_name_split(name, k, s1, i1);
    let k2 = choose|k: int| is_segment_name_split(name, k, s2, i2);
    if k1 < k2 {
        lemma_numeral_has_no_dot(name.subrange(0, k2));
        assert(name.subrange(0, k2)[k1] == 46);
    } else if k2 < k1 {
        lemma_numeral_has_no_dot(name.subrange(0, k1));
        assert(name.subrange(0, k1)[k2] == 46);
    }
}

/// Parses a segment file name of the form `<slot>.<id>`, split at its first
/// dot.
pub fn parse_append_vec_name(name: &str) -> (r: Option<(u64, u64)>)
    ensures
        r is Some <==> exists|slot: u64, id: u64| names_segment(name.spec_bytes(), slot, id),
        r matches Some((slot, id)) ==> names_segment(name.spec_bytes(), slot, id),
{
    let b = name.as_bytes();
    let n = b.len();
    let mut i: usize = 0;
    while i < n && b[i] != 46
        invariant
            i <= n,
            n == b@.len(),
            forall|j: int| 0 <= j < i ==> b@[j] != 46,
        decreases n - i,
    {
        i = i + 1;
    }
    proof {
        // A numeral holds no dot, so only the first dot can split a name.
        assert forall|k: int, slot: u64, id: u64| #[trigger]
            is_segment_name_split(b@, k, slot, id) implies k == i by {
            if k > i {
                lemma_numeral_has_no_dot(b@.subrange(0, k));
                assert(b@.subrange(0, k)[i as int] == 46);
            }
        }
    }
    if i == n {
        return None;
    }
    let slot = match parse_u64(&b[0..i]) {
        Some(v) => v,
        None => return None,
    };
    let id = match parse_u64(&b[i + 1..n]) {
        Some(v) => v,
        None => return None,
    };
    assert(is_segment_name_split(b@, i as int, slot, id));
    assert(names_segment(name.spec_bytes(), slot, id));
    Some((slot, id))
}

/// The index of the first name that is a decimal numeral, if any.
pub open spec fn is_first_numeral(names: Seq<&str>, i: int) -> bool {
    &&& 0 <= i < names.len()
    &&& decimal_u64(names[i].spec_bytes()) is Some
    &&& forall|j: int| 0 <= j < i ==> decimal_u64(#[trigger] names[j].spec_bytes()) is None
}

/// Finds the first name that parses as a plain integer: the manifest among
/// the entries of a snapshot's `snapshots` directory.
pub fn find_manifest_name(names: &[&str]) -> (r: Option<usize>)
    ensures
        r matches Some(i) ==> is_first_numeral(names@, i as int),
        r is None ==> forall|j: int|
            0 <= j < names@.len() ==> decimal_u64(#[trigger] names@[j].spec_bytes()) is None,
{
    let mut i: usize = 0;
    while i < names.len()
        invariant
            i <= names@.len(),
            forall|j: int| 0 <= j < i ==> decimal_u64(#[trigger] names@[j].spec_bytes()) is None,
        decreases names@.len() - i,
    {
        if parse_u64(names[i].as_bytes()).is_some() {
            return Some(i);
        }
        i = i + 1;
    }
    None
}

} // verus!
