use vstd::prelude::*;

verus! {

/// ASCII hex digits, either case.
pub open spec fn is_hex(b: u8) -> bool {
    (48 <= b && b <= 57) || (65 <= b && b <= 70) || (97 <= b && b <= 102)
}

pub open spec fn hex_value(b: u8) -> u8 {
    if b <= 57 {
        (b - 48) as u8
    } else if b <= 70 {
        (b - 55) as u8
    } else {
        (b - 87) as u8
    }
}

/// Decoding of a query value: `%XX` with two hex digits is the byte XX, `+` is a space,
/// every other byte (a stray `%` included) stands for itself.
pub open spec fn percent_decode(q: Seq<u8>) -> Seq<u8>
    decreases q.len(),
{
    if q.len() == 0 {
        seq![]
    } else if q[0] == 37 && q.len() >= 3 && is_hex(q[1]) && is_hex(q[2]) {
        seq![(hex_value(q[1]) * 16 + hex_value(q[2])) as u8] + percent_decode(q.subrange(3, q.len() as int))
    } else if q[0] == 43 {
        seq![32u8] + percent_decode(q.drop_first())
    } else {
        seq![q[0]] + percent_decode(q.drop_first())
    }
}

/// Number of bytes before the first `sep` (all of them when there is none).
pub open spec fn span_until(q: Seq<u8>, sep: u8) -> nat
    decreases q.len(),
{
    if q.len() == 0 || q[0] == sep {
        0
    } else {
        1 + span_until(q.drop_first(), sep)
    }
}

/// The decoded name of a `name=value` segment (the whole segment when it has no `=`).
pub open spec fn segment_name(seg: Seq<u8>) -> Seq<u8> {
    percent_decode(seg.subrange(0, span_until(seg, 61) as int))
}

/// The decoded value of a `name=value` segment (empty when it has no `=`).
pub open spec fn segment_value(seg: Seq<u8>) -> Seq<u8> {
    let k = span_until(seg, 61) as int;
    if k < seg.len() {
        percent_decode(seg.subrange(k + 1, seg.len() as int))
    } else {
        seq![]
    }
}

/// The value of the first `&`-separated segment of a query (without its `?`) whose
/// decoded name is `key`.
pub open spec fn lookup(q: Seq<u8>, key: Seq<u8>) -> Option<Seq<u8>>
    decreases q.len(),
{
    if q.len() == 0 {
        None
    } else {
        let e = span_until(q, 38) as int;
        let seg = q.subrange(0, e);
        if segment_name(seg) == key {
            Some(segment_value(seg))
        } else if e < q.len() {
            lookup(q.subrange(e + 1, q.len() as int), key)
        } else {
            None
        }
    }
}

/// Bytes without `%` or `+` decode to themselves.
pub proof fn lemma_decode_plain(q: Seq<u8>)
    requires
        forall|i: int| 0 <= i < q.len() ==> q[i] != 37 && q[i] != 43,
    ensures
        percent_decode(q) == q,
    decreases q.len(),
{
    if q.len() > 0 {
        lemma_decode_plain(q.drop_first());
        assert(q =~= seq![q[0]] + q.drop_first());
    }
}

proof fn lemma_span_bound(q: Seq<u8>, sep: u8)
    ensures
        span_until(q, sep) <= q.len(),
        span_until(q, sep) < q.len() ==> q[span_until(q, sep) as int] == sep,
    decreases q.len(),
{
    if q.len() != 0 && q[0] != sep {
        lemma_span_bound(q.drop_first(), sep);
    }
}

/// The span runs up to the first `sep`.
pub proof fn lemma_span_at(q: Seq<u8>, sep: u8, n: int)
    requires
        0 <= n <= q.len(),
        n == q.len() || q[n] == sep,
        forall|i: int| 0 <= i < n ==> q[i] != sep,
    ensures
        span_until(q, sep) == n,
    decreases n,
{
    if n > 0 {
        lemma_span_at(q.drop_first(), sep, n - 1);
    }
}

fn hex_val(b: u8) -> (r: u8)
    requires
        is_hex(b),
    ensures
        r == hex_value(b),
        r < 16,
{
    if b <= 57 {
        b - 48
    } else if b <= 70 {
        b - 55
    } else {
        b - 87
    }
}

fn is_hex_byte(b: u8) -> (r: bool)
    ensures
        r == is_hex(b),
{
    (48 <= b && b <= 57) || (65 <= b && b <= 70) || (97 <= b && b <= 102)
}

/// Decodes `q[start..end]`.
fn decode_range(q: &[u8], start: usize, end: usize) -> (r: Vec<u8>)
    requires
        start <= end <= q@.len(),
    ensures
        r@ == percent_decode(q@.subrange(start as int, end as int)),
{
    let mut out: Vec<u8> = Vec::new();
    let mut i: usize = start;
    while i < end
        invariant
            start <= i <= end <= q@.len(),
            percent_decode(q@.subrange(start as int, end as int)) == out@ + percent_decode(
                q@.subrange(i as int, end as int),
            ),
        decreases end - i,
    {
        let ghost rest = q@.subrange(i as int, end as int);
        if q[i] == 37 && end - i >= 3 && is_hex_byte(q[i + 1]) && is_hex_byte(q[i + 2]) {
            let hi = hex_val(q[i + 1]);
            let lo = hex_val(q[i + 2]);
            out.push(hi * 16 + lo);
            proof {
                assert(rest.subrange(3, rest.len() as int) == q@.subrange(i + 3, end as int));
            }
            i = i + 3;
        } else {
            if q[i] == 43 {
                out.push(32);
            } else {
                out.push(q[i]);
            }
            proof {
                assert(rest.drop_first() == q@.subrange(i + 1, end as int));
            }
            i = i + 1;
        }
    }
    out
}

/// Position of the first `sep` in `q[start..end]`, or `end`.
fn find_byte(q: &[u8], start: usize, end: usize, sep: u8) -> (r: usize)
    requires
        start <= end <= q@.len(),
    ensures
        r == start + span_until(q@.subrange(start as int, end as int), sep),
        start <= r <= end,
{
    let mut j: usize = start;
    while j < end && q[j] != sep
        invariant
            start <= j <= end <= q@.len(),
            span_until(q@.subrange(start as int, end as int), sep) == (j - start) + span_until(
                q@.subrange(j as int, end as int),
                sep,
            ),
        decreases end - j,
    {
        proof {
            assert(q@.subrange(j as int, end as int).drop_first() == q@.subrange(
                j + 1,
                end as int,
            ));
        }
        j = j + 1;
    }
    proof {
        lemma_span_bound(q@.subrange(j as int, end as int), sep);
    }
    j
}

fn bytes_equal(a: &Vec<u8>, b: &[u8]) -> (r: bool)
    ensures
        r == (a@ == b@),
{
    if a.len() != b.len() {
        return false;
    }
    let mut k: usize = 0;
    while k < a.len()
        invariant
            k <= a@.len() == b@.len(),
            forall|m: int| 0 <= m < k ==> a@[m] == b@[m],
        decreases a@.len() - k,
    {
        if a[k] != b[k] {
            return false;
        }
        k = k + 1;
    }
    proof {
        assert(a@ =~= b@);
    }
    true
}

/// The value of the first segment of `q[start..]` whose decoded name is `key`.
pub fn find_param(q: &[u8], start: usize, key: &[u8]) -> (r: Option<Vec<u8>>)
    requires
        start <= q@.len(),
    ensures
        r matches Some(v) ==> lookup(q@.subrange(start as int, q@.len() as int), key@) == Some(
            v@,
        ),
        r is None ==> lookup(q@.subrange(start as int, q@.len() as int), key@) is None,
{
    let mut p: usize = start;
    while p < q.len()
        invariant
            start <= p <= q@.len(),
            lookup(q@.subrange(start as int, q@.len() as int), key@) == lookup(
                q@.subrange(p as int, q@.len() as int),
                key@,
            ),
        decreases q@.len() - p,
    {
        let ghost rest = q@.subrange(p as int, q@.len() as int);
        let e = find_byte(q, p, q.len(), 38);
        let ghost seg = q@.subrange(p as int, e as int);
        proof {
            lemma_span_bound(rest, 38);
            assert(rest.subrange(0, e - p) == seg);
        }
        let k = find_byte(q, p, e, 61);
        let name = decode_range(q, p, k);
        proof {
            assert(seg.subrange(0, k - p) == q@.subrange(p as int, k as int));
        }
        if bytes_equal(&name, key) {
            if k < e {
                let v = decode_range(q, k + 1, e);
                proof {
                    assert(seg.subrange(k - p + 1, seg.len() as int) == q@.subrange(
                        k + 1,
                        e as int,
                    ));
                }
                return Some(v);
            } else {
                return Some(Vec::new());
            }
        }
        if e >= q.len() {
            return None;
        }
        proof {
            assert(rest.subrange(e - p + 1, rest.len() as int) == q@.subrange(
                e + 1,
                q@.len() as int,
            ));
        }
        p = e + 1;
    }
    None
}

} // verus!
