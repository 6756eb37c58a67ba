use vstd::prelude::*;
use vstd::string::StringSliceAdditionalSpecFns;
use vstd::utf8::encode_utf8;
use vstd::utf8::is_ascii_chars;
use vstd::utf8::is_ascii_chars_encode_utf8;
use crate::query::is_hex;
use crate::query::hex_value;
use crate::query::percent_decode;

verus! {

/// Bytes that travel through a query string unescaped: ASCII letters, digits and `-_.~`.
pub open spec fn is_unreserved(b: u8) -> bool {
    (48 <= b && b <= 57) || (65 <= b && b <= 90) || (97 <= b && b <= 122) || b
        == 45 || b == 95 || b == 46 || b == 126
}

/// The uppercase hex digit of a value below 16.
pub open spec fn hex_digit(n: u8) -> char {
    if n < 10 {
        ((n + 48) as u8) as char
    } else {
        ((n + 55) as u8) as char
    }
}

/// The characters that stand for one byte in an encoded value.
pub open spec fn encode_byte(b: u8) -> Seq<char> {
    if is_unreserved(b) {
        seq![b as char]
    } else {
        seq!['%', hex_digit(b / 16), hex_digit(b % 16)]
    }
}

/// Percent-encoding of a byte string, byte by byte.
pub open spec fn percent_encode(bs: Seq<u8>) -> Seq<char>
    decreases bs.len(),
{
    if bs.len() == 0 {
        seq![]
    } else {
        percent_encode(bs.drop_last()) + encode_byte(bs.last())
    }
}

/// The bytes of a sequence of ASCII characters.
pub open spec fn ascii_bytes(cs: Seq<char>) -> Seq<u8> {
    Seq::new(cs.len(), |i: int| cs[i] as u8)
}

proof fn lemma_encode_first(bs: Seq<u8>)
    requires
        bs.len() > 0,
    ensures
        percent_encode(bs) == encode_byte(bs[0]) + percent_encode(bs.drop_first()),
    decreases bs.len(),
{
    if bs.len() == 1 {
        assert(bs.drop_last() =~= Seq::<u8>::empty());
        assert(bs.drop_first() =~= Seq::<u8>::empty());
        assert(percent_encode(bs.drop_last()) == Seq::<char>::empty());
        assert(percent_encode(bs.drop_first()) == Seq::<char>::empty());
        assert(bs.last() == bs[0]);
        assert(percent_encode(bs) =~= encode_byte(bs[0]));
    } else {
        lemma_encode_first(bs.drop_last());
        assert(bs.drop_last().drop_first() =~= bs.drop_first().drop_last());
        assert(bs.drop_first().last() == bs.last());
        assert(percent_encode(bs) =~= encode_byte(bs[0]) + percent_encode(bs.drop_first()));
    }
}

/// Every character of an encoded value is ASCII, and none is `&`.
pub proof fn lemma_encode_chars(bs: Seq<u8>)
    ensures
        is_ascii_chars(percent_encode(bs)),
        forall|i: int| 0 <= i < percent_encode(bs).len() ==> percent_encode(bs)[i] != '&',
    decreases bs.len(),
{
    if bs.len() > 0 {
        lemma_encode_chars(bs.drop_last());
        let pre = percent_encode(bs.drop_last());
        let tail = encode_byte(bs.last());
        assert(percent_encode(bs) == pre + tail);
        assert forall|i: int| 0 <= i < tail.len() implies ('\0' <= #[trigger] tail[i] <= '\u{7f}'
            && tail[i] != '&') by {}
        assert forall|i: int| 0 <= i < percent_encode(bs).len() implies ('\0'
            <= #[trigger] percent_encode(bs)[i] <= '\u{7f}' && percent_encode(bs)[i] != '&') by {
            if i < pre.len() {
                assert(percent_encode(bs)[i] == pre[i]);
            } else {
                assert(percent_encode(bs)[i] == tail[i - pre.len()]);
            }
        }
    }
}

/// The UTF-8 bytes of an encoded value are its characters, one byte each.
pub proof fn lemma_encode_bytes(bs: Seq<u8>)
    ensures
        encode_utf8(percent_encode(bs)) == ascii_bytes(percent_encode(bs)),
{
    lemma_encode_chars(bs);
    is_ascii_chars_encode_utf8(percent_encode(bs));
    assert(encode_utf8(percent_encode(bs)) =~= ascii_bytes(percent_encode(bs)));
}

/// Decoding undoes encoding.
pub proof fn lemma_decode_encode(bs: Seq<u8>)
    ensures
        percent_decode(ascii_bytes(percent_encode(bs))) == bs,
    decreases bs.len(),
{
    if bs.len() == 0 {
        assert(ascii_bytes(percent_encode(bs)) =~= Seq::<u8>::empty());
    } else {
        let b = bs[0];
        let rest = bs.drop_first();
        lemma_encode_first(bs);
        lemma_decode_encode(rest);
        let ab = ascii_bytes(percent_encode(bs));
        let tail = ascii_bytes(percent_encode(rest));
        let head = ascii_bytes(encode_byte(b));
        assert(ab =~= head + tail);
        if is_unreserved(b) {
            assert(head[0] == b);
            assert(ab.drop_first() =~= tail);
            assert(percent_decode(ab) =~= seq![b] + rest);
        } else {
            let hi = (b / 16) as u8;
            let lo = (b % 16) as u8;
            assert(head[0] == 37u8);
            assert(head[1] == (if hi < 10 { hi + 48 } else { hi + 55 }) as u8);
            assert(head[2] == (if lo < 10 { lo + 48 } else { lo + 55 }) as u8);
            assert(is_hex(head[1]) && hex_value(head[1]) == hi);
            assert(is_hex(head[2]) && hex_value(head[2]) == lo);
            assert(ab.subrange(3, ab.len() as int) =~= tail);
            assert((hi * 16 + lo) as u8 == b);
            assert(percent_decode(ab) =~= seq![b] + rest);
        }
        assert(bs =~= seq![b] + rest);
    }
}

fn is_unreserved_byte(b: u8) -> (r: bool)
    ensures
        r == is_unreserved(b),
{
    (48 <= b && b <= 57) || (65 <= b && b <= 90) || (97 <= b && b <= 122) || b
        == 45 || b == 95 || b == 46 || b == 126
}

fn hex_char(n: u8) -> (r: char)
    requires
        n < 16,
    ensures
        r == hex_digit(n),
{
    if n < 10 {
        (n + 48) as char
    } else {
        (n + 55) as char
    }
}

/// Relies on String::push: the character is appended at the end.
pub assume_specification[ String::push ](s: &mut String, ch: char)
    ensures
        final(s)@ == old(s)@.push(ch),
;

/// Percent-encodes the UTF-8 bytes of `s` for use as a query parameter value:
/// ASCII letters, digits and `-_.~` stay, every other byte becomes `%XX` in uppercase hex.
pub fn encode(s: &str) -> (r: String)
    ensures
        r@ == percent_encode(s.spec_bytes()),
{
    let bytes = s.as_bytes();
    let mut out = String::new();
    let mut i: usize = 0;
    while i < bytes.len()
        invariant
            i <= bytes@.len(),
            bytes@ == s.spec_bytes(),
            out@ == percent_encode(bytes@.take(i as int)),
        decreases bytes@.len() - i,
    {
        let b = bytes[i];
        proof {
            assert(bytes@.take(i as int + 1).drop_last() == bytes@.take(i as int));
        }
        if is_unreserved_byte(b) {
            out.push(b as char);
        } else {
            out.push('%');
            out.push(hex_char(b / 16));
            out.push(hex_char(b % 16));
        }
        proof {
            assert(out@ == percent_encode(bytes@.take(i as int)) + encode_byte(b));
        }
        i = i + 1;
    }
    proof {
        assert(bytes@.take(bytes@.len() as int) == bytes@);
    }
    out
}

} // verus!
