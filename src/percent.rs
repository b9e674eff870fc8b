//! Percent-encoding of the values placed in a WebFinger query string, and
//! percent-decoding of the parameters read back from one.
use vstd::prelude::*;
use vstd::string::*;
use vstd::utf8::*;

verus! {

/// Whether a byte is escaped where it stands in a query value.
///
/// Escaped are every byte outside ASCII, the ASCII control characters, space,
/// `"`, `#`, `<`, `>`, `[`, `\`, `]`, `^`, `` ` ``, `{`, `|`, `}`, and the two
/// characters that structure a WebFinger query, `=` and `&`. Kept as they are are
/// in particular `@`, `:`, `?` and `/`, which a query component may hold.
pub open spec fn is_escaped(b: u8) -> bool {
    ||| b < 0x20
    ||| b >= 0x7f
    ||| b == 0x20  // ' '
    ||| b == 0x22  // '"'
    ||| b == 0x23  // '#'
    ||| b == 0x3c  // '<'
    ||| b == 0x3e  // '>'
    ||| b == 0x5b  // '['
    ||| b == 0x5c  // '\'
    ||| b == 0x5d  // ']'
    ||| b == 0x5e  // '^'
    ||| b == 0x60  // '`'
    ||| b == 0x7b  // '{'
    ||| b == 0x7c  // '|'
    ||| b == 0x7d  // '}'
    ||| b == 0x3d  // '='
    ||| b == 0x26  // '&'
}

/// The upper-case hexadecimal digit of a value below 16.
pub open spec fn hex_digit(n: u8) -> char
    recommends
        n < 16,
{
    if n < 10 {
        (n + 0x30) as u8 as char
    } else {
        (n + 0x37) as u8 as char
    }
}

/// What one byte of a value becomes in the query string: itself, or `%` and its
/// two upper-case hexadecimal digits.
pub open spec fn escape_byte(b: u8) -> Seq<char> {
    if is_escaped(b) {
        seq!['%', hex_digit(b / 16), hex_digit(b % 16)]
    } else {
        seq![b as char]
    }
}

/// The escapes of a byte string, one after the other.
pub open spec fn escape_bytes(bytes: Seq<u8>) -> Seq<char>
    decreases bytes.len(),
{
    if bytes.len() == 0 {
        Seq::empty()
    } else {
        escape_bytes(bytes.drop_last()) + escape_byte(bytes.last())
    }
}

/// A value as it is written into the query string: its UTF-8 bytes, each escaped
/// or kept as `is_escaped` says.
pub open spec fn encode_component(s: Seq<char>) -> Seq<char> {
    escape_bytes(encode_utf8(s))
}

/// The UTF-8 encoding of a concatenation is the concatenation of the encodings.
pub proof fn lemma_encode_utf8_concat(a: Seq<char>, b: Seq<char>)
    ensures
        encode_utf8(a + b) == encode_utf8(a) + encode_utf8(b),
    decreases a.len(),
{
    if a.len() == 0 {
        assert(a + b =~= b);
        assert(encode_utf8(a) + encode_utf8(b) =~= encode_utf8(b));
    } else {
        assert((a + b).drop_first() =~= a.drop_first() + b);
        lemma_encode_utf8_concat(a.drop_first(), b);
        assert(encode_utf8(a + b) =~= encode_utf8(a) + encode_utf8(b));
    }
}

/// A character below 128 is encoded as the one byte of its code.
pub proof fn lemma_encode_ascii_byte(b: u8)
    requires
        b < 0x80,
    ensures
        encode_utf8(seq![b as char]) == seq![b],
{
    let s = seq![b as char];
    let v = (b as char) as u32;
    assert(s.drop_first() =~= Seq::<char>::empty());
    assert(v == b as u32);
    assert((v & 0x7f) as u8 == b) by (bit_vector)
        requires
            v == b as u32,
            b < 0x80,
    ;
    assert(encode_utf8(s) =~= encode_scalar(v) + encode_utf8(s.drop_first()));
    assert(encode_utf8(s) =~= seq![b]);
}

/// Escaping a concatenation escapes each part.
pub proof fn lemma_escape_bytes_concat(x: Seq<u8>, y: Seq<u8>)
    ensures
        escape_bytes(x + y) == escape_bytes(x) + escape_bytes(y),
    decreases y.len(),
{
    if y.len() == 0 {
        assert(x + y =~= x);
        assert(escape_bytes(y) =~= Seq::<char>::empty());
        assert(escape_bytes(x) + escape_bytes(y) =~= escape_bytes(x));
    } else {
        assert((x + y).drop_last() =~= x + y.drop_last());
        assert((x + y).last() == y.last());
        lemma_escape_bytes_concat(x, y.drop_last());
        assert(escape_bytes(x + y) =~= escape_bytes(x) + escape_bytes(y));
    }
}

/// No escaped byte string holds `&` or `=`.
pub proof fn lemma_escape_bytes_free_of_separators(bytes: Seq<u8>)
    ensures
        forall|i: int|
            0 <= i < escape_bytes(bytes).len() ==> #[trigger] escape_bytes(bytes)[i] != '&'
                && escape_bytes(bytes)[i] != '=',
    decreases bytes.len(),
{
    if bytes.len() > 0 {
        let b = bytes.last();
        let prev = escape_bytes(bytes.drop_last());
        let e = escape_byte(b);
        lemma_escape_bytes_free_of_separators(bytes.drop_last());
        if is_escaped(b) {
            let h = b / 16;
            let l = b % 16;
            assert(hex_digit(h) != '&' && hex_digit(h) != '=');
            assert(hex_digit(l) != '&' && hex_digit(l) != '=');
        } else {
            assert((b as char) != '&' && (b as char) != '=');
        }
        assert forall|i: int| 0 <= i < escape_bytes(bytes).len() implies #[trigger] escape_bytes(
            bytes,
        )[i] != '&' && escape_bytes(bytes)[i] != '=' by {
            assert(escape_bytes(bytes) == prev + e);
            if i >= prev.len() {
                assert(escape_bytes(bytes)[i] == e[i - prev.len()]);
            }
        }
    }
}

/// Percent-encoding never alters `@`, `:`, `?` or `/` and always escapes `&`
/// and `=`.
///
/// The query form of a concatenation is the concatenation of the query forms;
/// each of `@`, `:`, `?` and `/` is its own query form; `&` becomes `%26` and `=`
/// becomes `%3D`; and no query form holds a `&` or a `=`.
pub proof fn lemma_encoding_keeps_delimiters(a: Seq<char>, b: Seq<char>)
    ensures
        encode_component(a + b) == encode_component(a) + encode_component(b),
        encode_component(seq!['@']) == seq!['@'],
        encode_component(seq![':']) == seq![':'],
        encode_component(seq!['?']) == seq!['?'],
        encode_component(seq!['/']) == seq!['/'],
        encode_component(seq!['&']) == seq!['%', '2', '6'],
        encode_component(seq!['=']) == seq!['%', '3', 'D'],
        !encode_component(a).contains('&'),
        !encode_component(a).contains('='),
{
    lemma_encode_utf8_concat(a, b);
    lemma_escape_bytes_concat(encode_utf8(a), encode_utf8(b));
    lemma_escape_bytes_free_of_separators(encode_utf8(a));
    lemma_escape_single(0x40);
    lemma_escape_single(0x3a);
    lemma_escape_single(0x3f);
    lemma_escape_single(0x2f);
    lemma_escape_single(0x26);
    lemma_escape_single(0x3d);
    assert(0x40u8 as char == '@');
    assert(0x3au8 as char == ':');
    assert(0x3fu8 as char == '?');
    assert(0x2fu8 as char == '/');
    assert(0x26u8 as char == '&');
    assert(0x3du8 as char == '=');
    assert(escape_byte(0x26) =~= seq!['%', '2', '6']);
    assert(escape_byte(0x3d) =~= seq!['%', '3', 'D']);
}

/// The query form of a single ASCII character is the escape of its byte.
proof fn lemma_escape_single(b: u8)
    requires
        b < 0x80,
    ensures
        encode_component(seq![b as char]) == escape_byte(b),
{
    lemma_encode_ascii_byte(b);
    let s = seq![b];
    assert(s.drop_last() =~= Seq::<u8>::empty());
    assert(escape_bytes(s) =~= escape_bytes(s.drop_last()) + escape_byte(b));
    assert(escape_bytes(s) =~= escape_byte(b));
}

/// Relies on `percent_encoding::percent_encode_byte`: the escape of a byte is `%`
/// followed by the byte's two upper-case hexadecimal digits.
#[verifier::external_body]
fn percent_escape(b: u8) -> (r: &'static str)
    ensures
        r@ == seq!['%', hex_digit(b / 16), hex_digit(b % 16)],
{
    percent_encoding::percent_encode_byte(b)
}

/// Relies on `String::from_utf8`: it accepts exactly the byte strings that are
/// valid UTF-8, and the string it returns holds the characters they encode.
#[verifier::external_body]
fn string_from_utf8(bytes: Vec<u8>) -> (r: Option<String>)
    ensures
        r is Some <==> valid_utf8(bytes@),
        r matches Some(s) ==> s@ == decode_utf8(bytes@),
{
    String::from_utf8(bytes).ok()
}

/// Whether a byte is a hexadecimal digit: `0-9`, `a-f` or `A-F`.
pub open spec fn is_hex_byte(b: u8) -> bool {
    (0x30 <= b <= 0x39) || (0x41 <= b <= 0x46) || (0x61 <= b <= 0x66)
}

/// The value of a hexadecimal digit.
pub open spec fn hex_value(b: u8) -> int {
    if 0x30 <= b <= 0x39 {
        b - 0x30
    } else if 0x41 <= b <= 0x46 {
        b - 0x37
    } else {
        b - 0x57
    }
}

/// Percent-decoding: each `%` followed by two hexadecimal digits becomes the byte
/// they spell; every other byte, a `%` without two digits after it included,
/// stays as it is.
pub open spec fn percent_decoded(bytes: Seq<u8>) -> Seq<u8>
    decreases bytes.len(),
{
    if bytes.len() == 0 {
        Seq::empty()
    } else if bytes[0] == 0x25 && bytes.len() >= 3 && is_hex_byte(bytes[1]) && is_hex_byte(
        bytes[2],
    ) {
        seq![(hex_value(bytes[1]) * 16 + hex_value(bytes[2])) as u8] + percent_decoded(
            bytes.skip(3),
        )
    } else {
        seq![bytes[0]] + percent_decoded(bytes.skip(1))
    }
}

/// The text that a percent-encoded query name or value stands for: its
/// percent-decoded bytes read as UTF-8, or `None` when they are not UTF-8.
pub open spec fn decode_component(bytes: Seq<u8>) -> Option<Seq<char>> {
    if valid_utf8(percent_decoded(bytes)) {
        Some(decode_utf8(percent_decoded(bytes)))
    } else {
        None
    }
}

/// Relies on `percent_encoding::percent_decode` with `PercentDecode::decode_utf8`:
/// the percent-decoded bytes, read as UTF-8 when they are UTF-8.
#[verifier::external_body]
pub(crate) fn percent_decode_utf8(bytes: &[u8]) -> (r: Option<String>)
    ensures
        r is None <==> decode_component(bytes@) is None,
        r matches Some(s) ==> decode_component(bytes@) == Some(s@),
{
    percent_encoding::percent_decode(bytes).decode_utf8().ok().map(|c| c.into_owned())
}

/// Whether a byte is escaped in a query value (see `is_escaped`).
pub fn needs_escape(b: u8) -> (r: bool)
    ensures
        r == is_escaped(b),
{
    b < 0x20 || b >= 0x7f || b == 0x20 || b == 0x22 || b == 0x23 || b == 0x3c || b == 0x3e
        || b == 0x5b || b == 0x5c || b == 0x5d || b == 0x5e || b == 0x60 || b == 0x7b
        || b == 0x7c || b == 0x7d || b == 0x3d || b == 0x26
}

/// Appends the UTF-8 bytes of `s` to `out`.
pub(crate) fn append_text(out: &mut Vec<u8>, s: &str)
    ensures
        final(out)@ == old(out)@ + encode_utf8(s@),
{
    let bytes = s.as_bytes();
    let ghost start = out@;
    let n = bytes.len();
    let mut i: usize = 0;
    while i < n
        invariant
            n == bytes@.len(),
            bytes@ == encode_utf8(s@),
            i <= n,
            out@ == start + bytes@.take(i as int),
        decreases n - i,
    {
        out.push(bytes[i]);
        assert(bytes@.take(i + 1) =~= bytes@.take(i as int).push(bytes@[i as int]));
        i += 1;
    }
    assert(bytes@.take(n as int) =~= bytes@);
}

/// Appends the UTF-8 bytes of the query-string form of `s` to `out`.
pub(crate) fn append_component(out: &mut Vec<u8>, s: &str)
    ensures
        final(out)@ == old(out)@ + encode_utf8(encode_component(s@)),
{
    let bytes = s.as_bytes();
    let ghost start = out@;
    let n = bytes.len();
    let mut i: usize = 0;
    while i < n
        invariant
            n == bytes@.len(),
            bytes@ == encode_utf8(s@),
            i <= n,
            out@ == start + encode_utf8(escape_bytes(bytes@.take(i as int))),
        decreases n - i,
    {
        let b = bytes[i];
        let ghost before = out@;
        proof {
            assert(bytes@.take(i + 1).drop_last() =~= bytes@.take(i as int));
            lemma_encode_utf8_concat(escape_bytes(bytes@.take(i as int)), escape_byte(b));
        }
        if needs_escape(b) {
            let e = percent_escape(b).as_bytes();
            out.extend_from_slice(e);
            assert(out@ =~= before + encode_utf8(escape_byte(b)));
        } else {
            out.push(b);
            proof {
                lemma_encode_ascii_byte(b);
            }
            assert(out@ =~= before + encode_utf8(escape_byte(b)));
        }
        i += 1;
    }
    assert(bytes@.take(n as int) =~= bytes@);
}

/// The string whose UTF-8 encoding `bytes` holds.
pub(crate) fn string_of_utf8(bytes: Vec<u8>, text: Ghost<Seq<char>>) -> (r: String)
    requires
        bytes@ == encode_utf8(text@),
    ensures
        r@ == text@,
{
    proof {
        encode_utf8_valid_utf8(text@);
        encode_utf8_decode_utf8(text@);
    }
    match string_from_utf8(bytes) {
        Some(s) => s,
        None => String::new(),
    }
}

} // verus!
