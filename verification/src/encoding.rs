//! How bytes are written as text.

use vstd::prelude::*;

verus! {

/// A hexadecimal digit, with capital letters.
pub open spec fn hex_digit(n: int) -> char {
    if n < 10 {
        (48 + n) as char
    } else {
        (55 + n) as char
    }
}

/// A byte as a percent sign and two hexadecimal digits.
pub open spec fn percent(b: u8) -> Seq<char> {
    seq!['%', hex_digit(b as int / 16), hex_digit(b as int % 16)]
}

/// How a byte is written in a segment of a URL's path. White space, quotes,
/// controls, slashes, everything beyond ASCII and the characters with a meaning in
/// URLs are written as percent and digits.
pub open spec fn segment_byte(b: u8) -> Seq<char> {
    if 0x21 <= b <= 0x7e && b != 0x22 && b != 0x23 && b != 0x25 && b != 0x2f && b != 0x3c && b
        != 0x3e && b != 0x3f && b != 0x5c && b != 0x60 && b != 0x7b && b != 0x7d {
        seq![b as char]
    } else {
        percent(b)
    }
}

/// How a byte is written in the values of a URL-encoded form: letters, digits and
/// `*-._` stand for themselves, a space is written as a plus.
pub open spec fn form_byte(b: u8) -> Seq<char> {
    if 0x30 <= b <= 0x39 || 0x41 <= b <= 0x5a || 0x61 <= b <= 0x7a || b == 0x2a || b == 0x2d || b
        == 0x2e || b == 0x5f {
        seq![b as char]
    } else if b == 0x20 {
        seq!['+']
    } else {
        percent(b)
    }
}

/// The bytes written one after the other, each as `write` says.
pub open spec fn written(bytes: Seq<u8>, write: spec_fn(u8) -> Seq<char>) -> Seq<char>
    decreases bytes.len(),
{
    if bytes.len() == 0 {
        Seq::empty()
    } else {
        written(bytes.drop_last(), write) + write(bytes.last())
    }
}

/// A text as it is written in a segment of a URL's path.
pub open spec fn segment_text(s: Seq<char>) -> Seq<char> {
    written(vstd::utf8::encode_utf8(s), |b: u8| segment_byte(b))
}

/// A text as it is written in a URL-encoded form.
pub open spec fn form_text(s: Seq<char>) -> Seq<char> {
    written(vstd::utf8::encode_utf8(s), |b: u8| form_byte(b))
}

/// Bytes as text, where what is not UTF-8 is replaced by the replacement character.
pub uninterp spec fn lossy_text(bytes: Seq<u8>) -> Seq<char>;

/// `String::from_utf8_lossy` reads bytes as UTF-8. Bytes that are UTF-8 give the
/// text that they stand for; how often the replacement character stands in the text
/// of others is left to the name.
#[verifier::external_body]
pub(crate) fn read_lossy(bytes: &[u8]) -> (s: String)
    ensures
        s@ == lossy_text(bytes@),
        vstd::utf8::valid_utf8(bytes@) ==> s@ == vstd::utf8::decode_utf8(bytes@),
{
    String::from_utf8_lossy(bytes).into_owned()
}

/// The number of characters that base64 with padding takes: four for every three
/// bytes, and for what is left over.
pub open spec fn padded_length(n: nat) -> nat {
    (n + 2) / 3 * 4
}

/// The number of characters that base64 without padding takes: four for every
/// three bytes, and two or three for one or two bytes left over.
pub open spec fn unpadded_length(n: nat) -> nat {
    n / 3 * 4 + (if n % 3 == 0 {
        0nat
    } else {
        n % 3 + 1
    })
}

/// A byte, or zero behind the last one.
pub open spec fn byte_at(bytes: Seq<u8>, i: int) -> int {
    if i < bytes.len() {
        bytes[i] as int
    } else {
        0
    }
}

/// The bits of bytes, six at a time from the first bit on; behind the last byte the
/// bits are zero.
pub open spec fn sextet(bytes: Seq<u8>, i: int) -> int {
    let k = i / 4 * 3;
    if i % 4 == 0 {
        byte_at(bytes, k) / 4
    } else if i % 4 == 1 {
        byte_at(bytes, k) % 4 * 16 + byte_at(bytes, k + 1) / 16
    } else if i % 4 == 2 {
        byte_at(bytes, k + 1) % 16 * 4 + byte_at(bytes, k + 2) / 64
    } else {
        byte_at(bytes, k + 2) % 64
    }
}

/// The character for six bits: the capital letters, the small letters, the digits
/// and two more characters.
pub open spec fn base64_char(n: int, c62: char, c63: char) -> char {
    if n < 26 {
        (65 + n) as char
    } else if n < 52 {
        (71 + n) as char
    } else if n < 62 {
        (n - 4) as char
    } else if n == 62 {
        c62
    } else {
        c63
    }
}

/// Bytes in base64 without padding.
pub open spec fn base64(bytes: Seq<u8>, c62: char, c63: char) -> Seq<char> {
    Seq::new(unpadded_length(bytes.len()), |i: int| base64_char(sextet(bytes, i), c62, c63))
}

/// Bytes in base64, filled up with equals signs to groups of four.
pub open spec fn base64_padded(bytes: Seq<u8>) -> Seq<char> {
    base64(bytes, '+', '/') + Seq::new(
        (padded_length(bytes.len()) - unpadded_length(bytes.len())) as nat,
        |i: int| '=',
    )
}

/// Bytes in the base64 of URLs, without padding.
pub open spec fn base64_url(bytes: Seq<u8>) -> Seq<char> {
    base64(bytes, '-', '_')
}

/// A letter or a digit.
pub open spec fn alphanumeric(c: char) -> bool {
    'A' <= c <= 'Z' || 'a' <= c <= 'z' || '0' <= c <= '9'
}

/// A character that stands for itself everywhere in a URL: a letter, a digit, a
/// hyphen or an underscore.
pub open spec fn url_safe(c: char) -> bool {
    alphanumeric(c) || c == '-' || c == '_'
}

/// `base64::Engine::encode` of the standard engine gives the base64 text of bytes,
/// padded to full groups. It panics where the length of the text overflows.
#[verifier::external_body]
pub(crate) fn encode_padded(bytes: &[u8]) -> (s: String)
    requires
        padded_length(bytes@.len()) <= isize::MAX,
    ensures
        s@ == base64_padded(bytes@),
{
    base64::Engine::encode(&base64::prelude::BASE64_STANDARD, bytes)
}

/// `base64::Engine::encode` of the engine for URLs without padding gives the base64
/// text of bytes, with a hyphen and an underscore for the last two characters. It
/// panics where the length of the text overflows.
#[verifier::external_body]
pub(crate) fn encode_url(bytes: &[u8]) -> (s: String)
    requires
        unpadded_length(bytes@.len()) <= isize::MAX,
    ensures
        s@ == base64_url(bytes@),
{
    base64::Engine::encode(&base64::prelude::BASE64_URL_SAFE_NO_PAD, bytes)
}

/// The base64 of URLs is made of characters that stand for themselves in a URL.
pub proof fn law_base64_url_is_url_safe(bytes: Seq<u8>)
    ensures
        base64_url(bytes).len() == unpadded_length(bytes.len()),
        forall|i: int|
            0 <= i < base64_url(bytes).len() ==> url_safe(#[trigger] base64_url(bytes)[i]),
{
    assert forall|i: int| 0 <= i < base64_url(bytes).len() implies url_safe(
        #[trigger] base64_url(bytes)[i],
    ) by {
        let n = sextet(bytes, i);
        let k = i / 4 * 3;
        assert(0 <= byte_at(bytes, k) < 256);
        assert(0 <= byte_at(bytes, k + 1) < 256);
        assert(0 <= byte_at(bytes, k + 2) < 256);
        assert(0 <= n < 64);
    }
}

/// The base64 with padding comes in groups of four characters.
pub proof fn law_base64_padded_length(bytes: Seq<u8>)
    ensures
        base64_padded(bytes).len() == padded_length(bytes.len()),
        base64_padded(bytes).len() % 4 == 0,
{
}

proof fn lemma_written_plain(s: Seq<char>, bytes: Seq<u8>)
    requires
        bytes.len() == s.len(),
        forall|i: int| 0 <= i < s.len() ==> url_safe(#[trigger] s[i]),
        forall|i: int| 0 <= i < s.len() ==> #[trigger] bytes[i] == s[i] as u8,
    ensures
        written(bytes, |b: u8| form_byte(b)) == s,
    decreases s.len(),
{
    let write = |b: u8| form_byte(b);
    if s.len() == 0 {
        assert(written(bytes, write) =~= s);
    } else {
        let init = s.drop_last();
        let rest = bytes.drop_last();
        assert forall|i: int| 0 <= i < init.len() implies url_safe(#[trigger] init[i]) by {
            assert(init[i] == s[i]);
        }
        assert forall|i: int| 0 <= i < init.len() implies #[trigger] rest[i] == init[i] as u8 by {
            assert(rest[i] == bytes[i]);
        }
        lemma_written_plain(init, rest);
        let c = s.last();
        let b = bytes.last();
        assert(url_safe(s[s.len() - 1]));
        assert(bytes[s.len() - 1] == s[s.len() - 1] as u8);
        assert(b as char == c);
        assert(form_byte(b) == seq![c]);
        assert(written(bytes, write) =~= s);
    }
}

/// A text of letters, digits, hyphens and underscores stands in a form as it is.
pub proof fn law_url_safe_text_stands_as_it_is(s: Seq<char>)
    requires
        forall|i: int| 0 <= i < s.len() ==> url_safe(#[trigger] s[i]),
    ensures
        form_text(s) == s,
{
    assert(vstd::utf8::is_ascii_chars(s)) by {
        assert forall|i: int| 0 <= i < s.len() implies 0 <= (#[trigger] s[i] as nat) < 128 by {
            assert(url_safe(s[i]));
        }
    }
    vstd::utf8::is_ascii_chars_encode_utf8(s);
    lemma_written_plain(s, vstd::utf8::encode_utf8(s));
}

/// The value of a hexadecimal digit with capital letters.
pub open spec fn hex_digit_value(c: char) -> int {
    if '0' <= c <= '9' {
        c as int - '0' as int
    } else {
        c as int - 'A' as int + 10
    }
}

/// A byte can be read from its percent sign and two digits.
pub proof fn law_percent_can_be_read(b: u8)
    ensures
        percent(b).len() == 3,
        percent(b)[0] == '%',
        16 * hex_digit_value(percent(b)[1]) + hex_digit_value(percent(b)[2]) == b,
{
}

/// Bytes put one behind the other are written one behind the other.
pub proof fn law_written_bytes_join(
    a: Seq<u8>,
    b: Seq<u8>,
    byte: u8,
    write: spec_fn(u8) -> Seq<char>,
)
    ensures
        written(a + b, write) == written(a, write) + written(b, write),
        written(seq![byte], write) == write(byte),
    decreases b.len(),
{
    assert(seq![byte].drop_last() =~= Seq::<u8>::empty());
    assert(written(Seq::empty(), write) =~= Seq::<char>::empty());
    assert(written(seq![byte], write) =~= write(byte));
    if b.len() == 0 {
        assert(a + b =~= a);
        assert(written(a, write) + written(b, write) =~= written(a, write));
    } else {
        assert((a + b).drop_last() =~= a + b.drop_last());
        law_written_bytes_join(a, b.drop_last(), byte, write);
        assert(written(a + b, write) =~= written(a, write) + written(b, write));
    }
}

/// In a path and in a form each byte is written in a way of its own: as itself, as a
/// percent sign and two digits or, for the space of a form, as a plus. Letters, digits,
/// hyphens, dots and underscores are always written as themselves; slashes in a path,
/// and what parts the pairs of a form, never are.
pub proof fn law_bytes_are_written_apart(a: u8, b: u8)
    ensures
        segment_byte(a) == segment_byte(b) ==> a == b,
        form_byte(a) == form_byte(b) ==> a == b,
        alphanumeric(a as char) || a == 0x2d || a == 0x2e || a == 0x5f ==> segment_byte(a) == seq![
            a as char,
        ] && form_byte(a) == seq![a as char],
        segment_byte(a) == seq![a as char] || segment_byte(a) == percent(a),
        form_byte(a) == seq![a as char] || form_byte(a) == percent(a) || a == 0x20,
        form_byte(0x20) == seq!['+'],
        !segment_byte(a).contains('/'),
        !form_byte(a).contains('&') && !form_byte(a).contains('='),
{
    law_percent_can_be_read(a);
    law_percent_can_be_read(b);
    let (x, y) = (segment_byte(a), segment_byte(b));
    if x == y {
        assert(x[0] == y[0]);
        assert(x.len() == 3 ==> x[1] == y[1] && x[2] == y[2]);
    }
    let (u, v) = (form_byte(a), form_byte(b));
    if u == v {
        assert(u[0] == v[0]);
        assert(u.len() == 3 ==> u[1] == v[1] && u[2] == v[2]);
    }
}

/// Four characters of base64 hold the bits of three bytes, or of as many as are left
/// over, in their order.
pub proof fn law_base64_holds_the_bits(bytes: Seq<u8>, k: int)
    requires
        0 <= k,
    ensures
        262_144 * sextet(bytes, 4 * k) + 4_096 * sextet(bytes, 4 * k + 1) + 64 * sextet(
            bytes,
            4 * k + 2,
        ) + sextet(bytes, 4 * k + 3) == 65_536 * byte_at(bytes, 3 * k) + 256 * byte_at(
            bytes,
            3 * k + 1,
        ) + byte_at(bytes, 3 * k + 2),
        3 * k < bytes.len() ==> byte_at(bytes, 3 * k) == bytes[3 * k],
        3 * k >= bytes.len() ==> byte_at(bytes, 3 * k) == 0,
{
    assert((4 * k) / 4 == k && (4 * k) % 4 == 0);
    assert((4 * k + 1) / 4 == k && (4 * k + 1) % 4 == 1);
    assert((4 * k + 2) / 4 == k && (4 * k + 2) % 4 == 2);
    assert((4 * k + 3) / 4 == k && (4 * k + 3) % 4 == 3);
    let (a, b, c) = (byte_at(bytes, 3 * k), byte_at(bytes, 3 * k + 1), byte_at(bytes, 3 * k + 2));
    assert(0 <= a < 256 && 0 <= b < 256 && 0 <= c < 256);
}

/// Different six bits are written as different characters of base64: the capital letters,
/// the small letters and the digits, each in their order, and two more.
pub proof fn law_base64_characters_differ(m: int, n: int, c62: char, c63: char)
    requires
        0 <= m < 64,
        0 <= n < 64,
        c62 != c63,
        !alphanumeric(c62),
        !alphanumeric(c63),
    ensures
        base64_char(m, c62, c63) == base64_char(n, c62, c63) ==> m == n,
        m < 62 ==> alphanumeric(base64_char(m, c62, c63)),
        base64_char(0, c62, c63) == 'A',
        base64_char(26, c62, c63) == 'a',
        base64_char(52, c62, c63) == '0',
        m + 1 < 26 || (26 <= m && m + 1 < 52) || (52 <= m && m + 1 < 62) ==> base64_char(
            m + 1,
            c62,
            c63,
        ) as int == base64_char(m, c62, c63) as int + 1,
        base64_char(62, c62, c63) == c62,
        base64_char(63, c62, c63) == c63,
{
}

/// Base64 for URLs and base64 with padding write the same six bits at each place, the
/// one with a hyphen and an underscore, the other with a plus and a slash and with equals
/// signs behind the last.
pub proof fn law_both_base64_write_the_bits(bytes: Seq<u8>, i: int)
    ensures
        0 <= i < base64_url(bytes).len() ==> base64_url(bytes)[i] == base64_char(
            sextet(bytes, i),
            '-',
            '_',
        ) && base64_padded(bytes)[i] == base64_char(sextet(bytes, i), '+', '/'),
        base64_url(bytes).len() <= i < base64_padded(bytes).len() ==> base64_padded(bytes)[i]
            == '=',
        bytes.len() % 3 == 0 ==> base64_url(bytes).len() == bytes.len() / 3 * 4,
        bytes.len() % 3 == 1 ==> base64_url(bytes).len() == bytes.len() / 3 * 4 + 2,
        bytes.len() % 3 == 2 ==> base64_url(bytes).len() == bytes.len() / 3 * 4 + 3,
        base64_padded(bytes).len() % 4 == 0,
{
}

} // verus!
