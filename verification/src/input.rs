use std::borrow::Cow;
use std::string::FromUtf16Error;
use vstd::prelude::*;
use vstd::utf8::{decode_utf8, valid_utf8};
use crate::chars::push_char;
use crate::error::Error;
use crate::options::Options;
use crate::svgtree::chars_of;

verus! {

/// What `String::from_utf16` reports when the units are no UTF-16.
#[verifier::external_type_specification]
#[verifier::external_body]
pub struct ExFromUtf16Error(FromUtf16Error);

/// The characters of `s` that are not NUL, in order.
pub open spec fn without_nul(s: Seq<char>) -> Seq<char> {
    s.filter(|c: char| c != '\0')
}

/// The text that goes to the XML parser: in forgiving mode, `text` without
/// its NUL characters; otherwise `text` itself.
pub open spec fn preprocessed(text: Seq<char>, forgiving: bool) -> Seq<char> {
    if forgiving {
        without_nul(text)
    } else {
        text
    }
}

/// Prepares text for the XML parser: in forgiving mode the NUL characters
/// are taken out; otherwise the text is handed on as it is, borrowed.
pub fn preprocess_text<'a>(text: &'a str, opt: &Options) -> (r: Cow<'a, str>)
    ensures
        r@ == preprocessed(text@, opt.forgiving),
        !opt.forgiving ==> r == Cow::<'a, str>::Borrowed(text),
{
    if opt.forgiving {
        let chars = chars_of(text);
        let mut processed_text = String::new();
        let mut i: usize = 0;
        proof {
            assert(chars@.take(0) =~= Seq::<char>::empty());
        }
        while i < chars.len()
            invariant
                i <= chars@.len(),
                processed_text@ == without_nul(chars@.take(i as int)),
            decreases chars.len() - i,
        {
            let c = chars[i];
            proof {
                let pred = |c: char| c != '\0';
                let head = chars@.take(i as int);
                assert(chars@.take(i as int + 1) =~= head.push(c));
                assert(head.push(c).drop_last() =~= head);
                reveal(Seq::filter);
            }
            if c != '\0' {
                push_char(&mut processed_text, c);
            }
            i = i + 1;
        }
        proof {
            assert(chars@.take(chars@.len() as int) =~= chars@);
        }
        Cow::Owned(processed_text)
    } else {
        Cow::Borrowed(text)
    }
}

/// The text that a run of UTF-16 code units stands for, as
/// `String::from_utf16` decodes it; `None` where the units are no UTF-16.
pub uninterp spec fn utf16_text(units: Seq<u16>) -> Option<Seq<char>>;

/// `String::from_utf16`: whether the units decode, and the text they decode
/// to, depend on the units alone.
#[verifier::external_body]
fn decode_utf16(units: &Vec<u16>) -> (r: Result<String, FromUtf16Error>)
    ensures
        match r {
            Ok(s) => utf16_text(units@) == Some(s@),
            Err(_) => utf16_text(units@) is None,
        },
{
    String::from_utf16(units)
}

/// The code unit whose low byte is `low` and whose high byte is `high`.
pub open spec fn unit_of(low: u8, high: u8) -> u16 {
    (low as int + 256 * (high as int)) as u16
}

/// The code units that `bytes` hold from index `from` on, two bytes each,
/// either the low byte first (little endian) or the high byte first. A last
/// odd byte is left out.
pub open spec fn units_of(bytes: Seq<u8>, from: int, little_endian: bool) -> Seq<u16> {
    Seq::new(
        ((bytes.len() - from) / 2) as nat,
        |i: int|
            if little_endian {
                unit_of(bytes[from + 2 * i], bytes[from + 2 * i + 1])
            } else {
                unit_of(bytes[from + 2 * i + 1], bytes[from + 2 * i])
            },
    )
}

/// `bytes` begin with the two bytes `a`, `b`.
pub open spec fn begins_with(bytes: Seq<u8>, a: u8, b: u8) -> bool {
    bytes.len() >= 2 && bytes[0] == a && bytes[1] == b
}

/// The text that `bytes` stand for as UTF-16.
///
/// After the byte order mark `FF FE` the rest is read low byte first, after
/// `FE FF` high byte first; nothing after a mark is the empty text. Without
/// a mark the bytes are read low byte first and, if that is no UTF-16, high
/// byte first.
pub open spec fn utf16_bytes_text(bytes: Seq<u8>) -> Option<Seq<char>> {
    if begins_with(bytes, 0xFF, 0xFE) {
        if bytes.len() == 2 {
            Some(Seq::empty())
        } else {
            utf16_text(units_of(bytes, 2, true))
        }
    } else if begins_with(bytes, 0xFE, 0xFF) {
        if bytes.len() == 2 {
            Some(Seq::empty())
        } else {
            utf16_text(units_of(bytes, 2, false))
        }
    } else {
        match utf16_text(units_of(bytes, 0, true)) {
            Some(t) => Some(t),
            None => utf16_text(units_of(bytes, 0, false)),
        }
    }
}

/// The code units that `bytes` hold from index `from` on.
fn collect_units(bytes: &[u8], from: usize, little_endian: bool) -> (units: Vec<u16>)
    requires
        from <= bytes@.len(),
    ensures
        units@ == units_of(bytes@, from as int, little_endian),
{
    let size = bytes.len();
    let count = (size - from) / 2;
    let mut units: Vec<u16> = Vec::new();
    let mut i: usize = 0;
    while i < count
        invariant
            size == bytes@.len(),
            from <= bytes@.len(),
            count == (bytes@.len() - from) / 2,
            i <= count,
            units@.len() == i,
            forall|k: int|
                0 <= k < i ==> #[trigger] units@[k] == units_of(
                    bytes@,
                    from as int,
                    little_endian,
                )[k],
        decreases count - i,
    {
        let first: u16 = bytes[from + 2 * i] as u16;
        let second: u16 = bytes[from + 2 * i + 1] as u16;
        let unit: u16 = if little_endian {
            first + 256 * second
        } else {
            second + 256 * first
        };
        units.push(unit);
        i = i + 1;
    }
    proof {
        assert(units@ =~= units_of(bytes@, from as int, little_endian));
    }
    units
}

/// Reads bytes as UTF-16, with or without a byte order mark.
pub fn string_from_utf16_bytes(bytes: &[u8]) -> (r: Result<String, FromUtf16Error>)
    ensures
        match r {
            Ok(s) => utf16_bytes_text(bytes@) == Some(s@),
            Err(_) => utf16_bytes_text(bytes@) is None,
        },
{
    let marked = bytes.len() >= 2;
    if marked && bytes[0] == 0xFF && bytes[1] == 0xFE {
        if bytes.len() == 2 {
            return Ok(String::new());
        }
        decode_utf16(&collect_units(bytes, 2, true))
    } else if marked && bytes[0] == 0xFE && bytes[1] == 0xFF {
        if bytes.len() == 2 {
            return Ok(String::new());
        }
        decode_utf16(&collect_units(bytes, 2, false))
    } else {
        // Try both.
        match decode_utf16(&collect_units(bytes, 0, true)) {
            Ok(s) => Ok(s),
            Err(_) => decode_utf16(&collect_units(bytes, 0, false)),
        }
    }
}

/// `std::str::from_utf8`, the text copied out: there is a text exactly when
/// the bytes are valid UTF-8, and it is the one they encode.
#[verifier::external_body]
fn decode_utf8_bytes(data: &[u8]) -> (r: Option<String>)
    ensures
        r is Some <==> valid_utf8(data@),
        r matches Some(s) ==> s@ == decode_utf8(data@),
{
    std::str::from_utf8(data).ok().map(|s| s.to_owned())
}

/// The text that `data` stand for: as UTF-8 where they are valid UTF-8,
/// else as UTF-16; `None` where they are neither.
pub open spec fn text_of_bytes(data: Seq<u8>) -> Option<Seq<char>> {
    if valid_utf8(data) {
        Some(decode_utf8(data))
    } else {
        utf16_bytes_text(data)
    }
}

/// Reads bytes as text: as UTF-8, or else as UTF-16.
pub fn to_text(data: &[u8]) -> (r: Result<String, Error>)
    ensures
        match r {
            Ok(s) => text_of_bytes(data@) == Some(s@),
            Err(e) => e is UnrecognizedEncoding && text_of_bytes(data@) is None,
        },
{
    match decode_utf8_bytes(data) {
        Some(s) => Ok(s),
        None => match string_from_utf16_bytes(data) {
            Ok(s) => Ok(s),
            Err(_) => Err(Error::UnrecognizedEncoding),
        },
    }
}

/// The bytes that a gzip stream holds, as `flate2` decompresses it; `None`
/// where the data are no complete gzip stream.
pub uninterp spec fn gunzip(data: Seq<u8>) -> Option<Seq<u8>>;

/// `flate2::read::GzDecoder::new` followed by `Read::read_to_end`: whether
/// the data decompress, and the bytes they decompress to, depend on the data
/// alone. `capacity` is what the output buffer is allocated with at the
/// start; it must be one that `Vec::with_capacity` accepts.
#[verifier::external_body]
fn read_gzip(data: &[u8], capacity: usize) -> (r: Option<Vec<u8>>)
    requires
        capacity <= isize::MAX,
    ensures
        match r {
            Some(v) => gunzip(data@) == Some(v@),
            None => gunzip(data@) is None,
        },
{
    let mut decoder = flate2::read::GzDecoder::new(data);
    let mut decoded = Vec::with_capacity(capacity);
    match std::io::Read::read_to_end(&mut decoder, &mut decoded) {
        Ok(_) => Some(decoded),
        Err(_) => None,
    }
}

/// Decompresses gzip data.
pub fn decompress_svgz(data: &[u8]) -> (r: Result<Vec<u8>, Error>)
    ensures
        match r {
            Ok(v) => gunzip(data@) == Some(v@),
            Err(e) => e is MalformedGZip && gunzip(data@) is None,
        },
{
    // Compressed images mostly grow to about twice their size.
    let half: usize = (isize::MAX as usize) / 2;
    let capacity = if data.len() <= half {
        data.len() * 2
    } else {
        0
    };
    match read_gzip(data, capacity) {
        Some(decoded) => Ok(decoded),
        None => Err(Error::MalformedGZip),
    }
}

/// `data` begin with the two bytes that every gzip stream begins with.
pub open spec fn is_gzip(data: Seq<u8>) -> bool {
    begins_with(data, 0x1f, 0x8b)
}

/// The text that image data stand for, or the reason why they stand for
/// none: gzip data are decompressed first, and the bytes are then read as
/// UTF-8 or else as UTF-16.
pub open spec fn text_of_data(data: Seq<u8>) -> Result<Seq<char>, Error> {
    if is_gzip(data) {
        match gunzip(data) {
            Some(raw) => match text_of_bytes(raw) {
                Some(t) => Ok(t),
                None => Err(Error::UnrecognizedEncoding),
            },
            None => Err(Error::MalformedGZip),
        }
    } else {
        match text_of_bytes(data) {
            Some(t) => Ok(t),
            None => Err(Error::UnrecognizedEncoding),
        }
    }
}

/// Reads image data as text, decompressing them first where they are gzip
/// data.
pub fn text_from_data(data: &[u8]) -> (r: Result<String, Error>)
    ensures
        match r {
            Ok(s) => text_of_data(data@) == Ok::<Seq<char>, Error>(s@),
            Err(e) => text_of_data(data@) == Err::<Seq<char>, Error>(e),
        },
{
    if data.len() >= 2 && data[0] == 0x1f && data[1] == 0x8b {
        match decompress_svgz(data) {
            Ok(raw) => to_text(raw.as_slice()),
            Err(e) => Err(e),
        }
    } else {
        to_text(data)
    }
}

} // verus!
