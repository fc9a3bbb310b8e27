//! Query strings: names and values in the `application/x-www-form-urlencoded`
//! form that goes behind the `?` of a URL.

use crate::format::digit;
use vstd::prelude::*;
use vstd::utf8::encode_utf8;

verus! {

/// Not verified: `String::push` of std. Taken from its documentation: the
/// string afterwards is the string before with `ch` added at its end.
pub assume_specification[ String::push ](text: &mut String, ch: char)
    ensures
        final(text)@ == old(text)@.push(ch),
;

/// Whether a byte stands for itself in a query string: the ASCII letters and
/// digits, and `*`, `-`, `.` and `_`.
pub open spec fn is_plain(byte: u8) -> bool {
    let c = byte as char;
    ||| '0' <= c <= '9'
    ||| 'A' <= c <= 'Z'
    ||| 'a' <= c <= 'z'
    ||| c == '*'
    ||| c == '-'
    ||| c == '.'
    ||| c == '_'
}

/// The character for a hexadecimal digit, in upper case.
pub open spec fn hex_digit(d: int) -> char {
    if d < 10 {
        digit(d)
    } else if d == 10 {
        'A'
    } else if d == 11 {
        'B'
    } else if d == 12 {
        'C'
    } else if d == 13 {
        'D'
    } else if d == 14 {
        'E'
    } else {
        'F'
    }
}

/// One byte in a query string: itself where it is plain, `+` for a space,
/// and otherwise `%` with its two hexadecimal digits.
pub open spec fn escaped_byte(byte: u8) -> Seq<char> {
    if is_plain(byte) {
        seq![byte as char]
    } else if byte == 0x20 {
        seq!['+']
    } else {
        seq!['%', hex_digit(byte as int / 16), hex_digit(byte as int % 16)]
    }
}

/// Bytes in a query string: each as `escaped_byte` writes it, in order.
pub open spec fn escaped_bytes(bytes: Seq<u8>) -> Seq<char>
    decreases bytes.len(),
{
    if bytes.len() == 0 {
        Seq::empty()
    } else {
        escaped_bytes(bytes.drop_last()) + escaped_byte(bytes.last())
    }
}

/// A text in a query string: its UTF-8 bytes, escaped.
pub open spec fn escaped(text: Seq<char>) -> Seq<char> {
    escaped_bytes(encode_utf8(text))
}

/// One parameter in a query string: `name=value`, both escaped.
pub open spec fn pair_text(pair: (Seq<char>, Seq<char>)) -> Seq<char> {
    escaped(pair.0) + seq!['='] + escaped(pair.1)
}

/// Parameters in a query string, in order, with `&` between neighbours.
pub open spec fn query_text(pairs: Seq<(Seq<char>, Seq<char>)>) -> Seq<char>
    decreases pairs.len(),
{
    if pairs.len() == 0 {
        Seq::empty()
    } else if pairs.len() == 1 {
        pair_text(pairs[0])
    } else {
        query_text(pairs.drop_last()) + seq!['&'] + pair_text(pairs.last())
    }
}

/// Names and values as mathematical values.
pub open spec fn pairs_view(pairs: Seq<(String, String)>) -> Seq<(Seq<char>, Seq<char>)> {
    pairs.map_values(|pair: (String, String)| (pair.0@, pair.1@))
}

fn hex_char(d: u8) -> (c: char)
    requires
        d < 16,
    ensures
        c == hex_digit(d as int),
{
    if d < 10 {
        (48 + d) as char
    } else {
        (55 + d) as char
    }
}

fn plain(byte: u8) -> (yes: bool)
    ensures
        yes == is_plain(byte),
{
    let c = byte as char;
    ('0' <= c && c <= '9') || ('A' <= c && c <= 'Z') || ('a' <= c && c <= 'z') || c == '*' || c
        == '-' || c == '.' || c == '_'
}

fn append_escaped(out: &mut String, text: &str)
    ensures
        final(out)@ == old(out)@ + escaped(text@),
{
    let bytes = text.as_bytes();
    let mut i: usize = 0;
    assert(bytes@.take(0) =~= Seq::<u8>::empty());
    while i < bytes.len()
        invariant
            i <= bytes.len(),
            out@ == old(out)@ + escaped_bytes(bytes@.take(i as int)),
        decreases bytes.len() - i,
    {
        let byte = bytes[i];
        let ghost before = out@;
        if plain(byte) {
            out.push(byte as char);
        } else if byte == 0x20 {
            out.push('+');
        } else {
            out.push('%');
            out.push(hex_char(byte / 16));
            out.push(hex_char(byte % 16));
        }
        proof {
            let longer = bytes@.take(i + 1);
            assert(longer.drop_last() =~= bytes@.take(i as int));
            assert(longer.last() == byte);
            assert(out@ =~= before + escaped_byte(byte));
            assert(out@ =~= old(out)@ + escaped_bytes(longer));
        }
        i = i + 1;
    }
    assert(bytes@.take(bytes.len() as int) =~= bytes@);
}

/// Writes parameters as a query string: `name=value` for each, in order,
/// with `&` between them; names and values escaped byte by byte.
pub fn encode_query(pairs: &Vec<(String, String)>) -> (text: String)
    ensures
        text@ == query_text(pairs_view(pairs@)),
{
    let mut text = String::new();
    let mut i: usize = 0;
    assert(pairs_view(pairs@).take(0) =~= Seq::empty());
    while i < pairs.len()
        invariant
            i <= pairs.len(),
            text@ == query_text(pairs_view(pairs@).take(i as int)),
        decreases pairs.len() - i,
    {
        let ghost done = pairs_view(pairs@).take(i as int);
        let ghost pair = pairs_view(pairs@)[i as int];
        if i > 0 {
            text.push('&');
        }
        let ghost separated = text@;
        append_escaped(&mut text, pairs[i].0.as_str());
        text.push('=');
        append_escaped(&mut text, pairs[i].1.as_str());
        proof {
            let longer = pairs_view(pairs@).take(i + 1);
            assert(longer.drop_last() =~= done);
            assert(longer.last() == pair);
            assert(text@ =~= separated + pair_text(pair));
            if i == 0 {
                assert(longer[0] == pair);
            }
            assert(text@ =~= query_text(longer));
        }
        i = i + 1;
    }
    assert(pairs_view(pairs@).take(pairs.len() as int) =~= pairs_view(pairs@));
    text
}

} // verus!
