//! Percent-encoding, as data URLs need it.

use vstd::prelude::*;
use vstd::string::*;
use vstd::utf8::encode_utf8;

verus! {

/// A byte that stands for itself: an ASCII letter or digit, `-`, `.`, `_` or `~`.
pub open spec fn is_unreserved(byte: u8) -> bool {
    ||| 0x30 <= byte <= 0x39
    ||| 0x41 <= byte <= 0x5a
    ||| 0x61 <= byte <= 0x7a
    ||| byte == 0x2d
    ||| byte == 0x2e
    ||| byte == 0x5f
    ||| byte == 0x7e
}

/// An upper-case hexadecimal digit.
pub open spec fn hex_char(n: int) -> char {
    if n < 10 {
        (48 + n) as char
    } else {
        (55 + n) as char
    }
}

/// The value of an upper-case hexadecimal digit.
pub open spec fn hex_value(c: char) -> int {
    if (c as int) < 58 {
        c as int - 48
    } else {
        c as int - 55
    }
}

/// How one byte is written: as itself, or as `%` and two hexadecimal digits.
pub open spec fn escaped(byte: u8) -> Seq<char> {
    if is_unreserved(byte) {
        seq![byte as char]
    } else {
        seq!['%', hex_char(byte as int / 16), hex_char(byte as int % 16)]
    }
}

/// How bytes are written, one after the other.
pub open spec fn percent_encoded(bytes: Seq<u8>) -> Seq<char>
    decreases bytes.len(),
{
    if bytes.len() == 0 {
        Seq::empty()
    } else {
        escaped(bytes[0]) + percent_encoded(bytes.drop_first())
    }
}

/// The bytes that a percent-encoded text stands for.
pub open spec fn percent_decoded(text: Seq<char>) -> Seq<u8>
    decreases text.len(),
{
    if text.len() == 0 {
        Seq::empty()
    } else if text[0] == '%' && text.len() >= 3 {
        seq![(16 * hex_value(text[1]) + hex_value(text[2])) as u8] + percent_decoded(text.skip(3))
    } else {
        seq![text[0] as u8] + percent_decoded(text.skip(1))
    }
}

/// One hexadecimal digit.
fn hex_digit(n: u8) -> (r: char)
    requires
        n < 16,
    ensures
        r == hex_char(n as int),
{
    if n < 10 {
        (48 + n) as char
    } else {
        (55 + n) as char
    }
}

/// Percent-encodes the UTF-8 bytes of a text.
pub fn percent_encode(value: &str) -> (r: String)
    ensures
        r@ == percent_encoded(encode_utf8(value@)),
{
    let bytes = value.as_bytes();
    let ghost all = encode_utf8(value@);
    let mut encoded = String::new();
    let mut i: usize = 0;
    assert(all.skip(0) =~= all);
    assert(Seq::<char>::empty() + percent_encoded(all) =~= percent_encoded(all));
    while i < bytes.len()
        invariant
            i <= bytes@.len(),
            bytes@ == all,
            encoded@ + percent_encoded(all.skip(i as int)) == percent_encoded(all),
        decreases bytes@.len() - i,
    {
        let byte = bytes[i];
        let ghost before = encoded@;
        let ghost rest = percent_encoded(all.skip(i + 1));
        assert(all.skip(i as int).drop_first() =~= all.skip(i + 1));
        if (0x30 <= byte && byte <= 0x39) || (0x41 <= byte && byte <= 0x5a) || (0x61 <= byte && byte
            <= 0x7a) || byte == 0x2d || byte == 0x2e || byte == 0x5f || byte == 0x7e {
            encoded.push(byte as char);
        } else {
            encoded.push('%');
            encoded.push(hex_digit(byte / 16));
            encoded.push(hex_digit(byte % 16));
        }
        assert(encoded@ =~= before + escaped(byte));
        assert(before + (escaped(byte) + rest) =~= encoded@ + rest);
        i += 1;
    }
    assert(all.skip(i as int) =~= Seq::empty());
    assert(encoded@ + Seq::<char>::empty() =~= encoded@);
    encoded
}

/// A `data:` URL that holds an HTML document.
pub open spec fn data_url_text(html: Seq<char>) -> Seq<char> {
    "data:text/html;charset=utf-8,"@ + percent_encoded(encode_utf8(html))
}

/// Wraps an HTML document in a `data:` URL.
pub fn data_url(html: &str) -> (r: String)
    ensures
        r@ == data_url_text(html@),
{
    let mut url = String::from_str("data:text/html;charset=utf-8,");
    url.append(percent_encode(html).as_str());
    url
}

/// A hexadecimal digit is read back as what was written.
proof fn hex_digits_read_back(n: int)
    requires
        0 <= n < 16,
    ensures
        hex_value(hex_char(n)) == n,
{
}

/// Decoding gives back what was encoded.
pub proof fn decoding_undoes_encoding(bytes: Seq<u8>)
    ensures
        percent_decoded(percent_encoded(bytes)) == bytes,
    decreases bytes.len(),
{
    if bytes.len() > 0 {
        let byte = bytes[0];
        let rest = percent_encoded(bytes.drop_first());
        let text = percent_encoded(bytes);
        decoding_undoes_encoding(bytes.drop_first());
        if is_unreserved(byte) {
            assert(text[0] == byte as char);
            assert(text.skip(1) =~= rest);
        } else {
            hex_digits_read_back(byte as int / 16);
            hex_digits_read_back(byte as int % 16);
            assert(text[0] == '%');
            assert(text[1] == hex_char(byte as int / 16));
            assert(text[2] == hex_char(byte as int % 16));
            assert(text.skip(3) =~= rest);
        }
        assert(percent_decoded(text) =~= seq![byte] + bytes.drop_first());
        assert(bytes =~= seq![byte] + bytes.drop_first());
    }
}

/// A character that needs no escape in a URL.
pub open spec fn needs_no_escape(c: char) -> bool {
    'A' <= c <= 'Z' || 'a' <= c <= 'z' || '0' <= c <= '9' || c == '-' || c == '.' || c == '_' || c
        == '~'
}

/// A percent-encoded text holds ASCII letters, ASCII digits and `-`, `.`, `_`, `~` and `%`
/// only: no delimiter of a URL, no white space, nothing outside ASCII.
pub proof fn encoding_is_url_safe(bytes: Seq<u8>, i: int)
    requires
        0 <= i < percent_encoded(bytes).len(),
    ensures
        ({
            let c = percent_encoded(bytes)[i];
            c == '%' || 'A' <= c <= 'Z' || 'a' <= c <= 'z' || '0' <= c <= '9' || c == '-' || c
                == '.' || c == '_' || c == '~'
        }),
    decreases bytes.len(),
{
    let head = escaped(bytes[0]);
    if i >= head.len() {
        encoding_is_url_safe(bytes.drop_first(), i - head.len());
    } else {
        assert(percent_encoded(bytes)[i] == head[i]);
    }
}

/// The text spells the bytes out: a byte that needs no escape as its character, every other
/// byte as a percent sign and its two hexadecimal digits, in upper case.
pub open spec fn spells(text: Seq<char>, bytes: Seq<u8>) -> bool
    decreases bytes.len(),
{
    if bytes.len() == 0 {
        text.len() == 0
    } else if needs_no_escape(bytes[0] as char) {
        &&& text.len() >= 1
        &&& text[0] == bytes[0] as char
        &&& spells(text.skip(1), bytes.skip(1))
    } else {
        &&& text.len() >= 3
        &&& text[0] == '%'
        &&& text[1] == "0123456789ABCDEF"@[bytes[0] as int / 16]
        &&& text[2] == "0123456789ABCDEF"@[bytes[0] as int % 16]
        &&& spells(text.skip(3), bytes.skip(1))
    }
}

/// The hexadecimal digits in order.
proof fn hex_chars_are_digits(n: int)
    requires
        0 <= n < 16,
    ensures
        hex_char(n) == "0123456789ABCDEF"@[n],
{
    reveal_strlit("0123456789ABCDEF");
    if n < 4 {
        assert(n == 0 || n == 1 || n == 2 || n == 3);
    } else if n < 8 {
        assert(n == 4 || n == 5 || n == 6 || n == 7);
    } else if n < 12 {
        assert(n == 8 || n == 9 || n == 10 || n == 11);
    } else {
        assert(n == 12 || n == 13 || n == 14 || n == 15);
    }
}

/// Encoded bytes are spelt out.
proof fn encoded_bytes_are_spelt_out(bytes: Seq<u8>)
    ensures
        spells(percent_encoded(bytes), bytes),
    decreases bytes.len(),
{
    if bytes.len() > 0 {
        let text = percent_encoded(bytes);
        let rest = percent_encoded(bytes.drop_first());
        encoded_bytes_are_spelt_out(bytes.drop_first());
        assert(bytes.skip(1) =~= bytes.drop_first());
        if needs_no_escape(bytes[0] as char) {
            assert(text.skip(1) =~= rest);
        } else {
            hex_chars_are_digits(bytes[0] as int / 16);
            hex_chars_are_digits(bytes[0] as int % 16);
            assert(text.skip(3) =~= rest);
        }
    }
}

/// An encoded text spells out the UTF-8 bytes of the text that was encoded, and holds no
/// character that means anything else to a URL.
pub proof fn texts_are_spelt_out(value: &str, encoded: String)
    requires
        call_ensures(percent_encode, (value,), encoded),
    ensures
        spells(encoded@, encode_utf8(value@)),
        forall|i: int|
            0 <= i < encoded@.len() ==> needs_no_escape(#[trigger] encoded@[i]) || encoded@[i]
                == '%',
        percent_decoded(encoded@) == encode_utf8(value@),
{
    encoded_bytes_are_spelt_out(encode_utf8(value@));
    decoding_undoes_encoding(encode_utf8(value@));
    assert forall|i: int| 0 <= i < encoded@.len() implies needs_no_escape(#[trigger] encoded@[i])
        || encoded@[i] == '%' by {
        encoding_is_url_safe(encode_utf8(value@), i);
    }
}

/// A text that needs no escape is encoded as itself.
pub proof fn safe_texts_stand_for_themselves(value: &str, encoded: String)
    requires
        call_ensures(percent_encode, (value,), encoded),
        forall|i: int| 0 <= i < value@.len() ==> needs_no_escape(#[trigger] value@[i]),
    ensures
        encoded@ == value@,
{
    let bytes = encode_utf8(value@);
    vstd::utf8::is_ascii_chars_encode_utf8(value@);
    assert(bytes =~= Seq::new(value@.len(), |i: int| value@[i] as u8));
    safe_bytes_stand_for_themselves(bytes);
    assert(encoded@ =~= value@);
}

/// Bytes that need no escape are encoded as themselves.
proof fn safe_bytes_stand_for_themselves(bytes: Seq<u8>)
    requires
        forall|i: int| 0 <= i < bytes.len() ==> needs_no_escape(#[trigger] bytes[i] as char),
    ensures
        percent_encoded(bytes).len() == bytes.len(),
        forall|i: int| 0 <= i < bytes.len() ==> #[trigger] percent_encoded(bytes)[i] == bytes[i] as char,
    decreases bytes.len(),
{
    if bytes.len() > 0 {
        let rest = bytes.drop_first();
        assert forall|i: int| 0 <= i < rest.len() implies needs_no_escape(
            #[trigger] rest[i] as char,
        ) by {
            assert(rest[i] == bytes[i + 1]);
        }
        safe_bytes_stand_for_themselves(rest);
        assert(needs_no_escape(bytes[0] as char));
        assert forall|i: int| 0 <= i < bytes.len() implies #[trigger] percent_encoded(bytes)[i]
            == bytes[i] as char by {
            if i > 0 {
                assert(percent_encoded(bytes)[i] == percent_encoded(rest)[i - 1]);
            }
        }
    }
}

/// A `data:` URL announces HTML in UTF-8, and what follows stands for the bytes of the
/// document and holds no delimiter of a URL.
pub proof fn data_urls_carry_the_document(html: &str, url: String)
    requires
        call_ensures(data_url, (html,), url),
    ensures
        url@.len() >= 29,
        url@.take(29) == "data:text/html;charset=utf-8,"@,
        spells(url@.skip(29), encode_utf8(html@)),
        forall|i: int|
            29 <= i < url@.len() ==> needs_no_escape(#[trigger] url@[i]) || url@[i] == '%',
{
    let bytes = encode_utf8(html@);
    reveal_strlit("data:text/html;charset=utf-8,");
    encoded_bytes_are_spelt_out(bytes);
    assert(url@.take(29) =~= "data:text/html;charset=utf-8,"@);
    assert(url@.skip(29) =~= percent_encoded(bytes));
    assert forall|i: int| 29 <= i < url@.len() implies needs_no_escape(#[trigger] url@[i])
        || url@[i] == '%' by {
        encoding_is_url_safe(bytes, i - 29);
        assert(url@[i] == percent_encoded(bytes)[i - 29]);
    }
}

/// Different documents have different `data:` URLs.
pub proof fn data_urls_tell_documents_apart(a: Seq<char>, b: Seq<char>)
    requires
        data_url_text(a) == data_url_text(b),
    ensures
        a == b,
{
    let head = "data:text/html;charset=utf-8,"@;
    let x = percent_encoded(encode_utf8(a));
    let y = percent_encoded(encode_utf8(b));
    assert(data_url_text(a).skip(head.len() as int) =~= x);
    assert(data_url_text(b).skip(head.len() as int) =~= y);
    decoding_undoes_encoding(encode_utf8(a));
    decoding_undoes_encoding(encode_utf8(b));
    vstd::utf8::encode_utf8_decode_utf8(a);
    vstd::utf8::encode_utf8_decode_utf8(b);
}

} // verus!
