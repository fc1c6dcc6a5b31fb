//! Decoding of single path arguments: percent-decoding followed by the parsing of a plain value
//! (integers, booleans, characters, strings and enum variant names).

use vstd::prelude::*;
use vstd::utf8::{valid_utf8, decode_utf8, encode_utf8};
use vstd::string::StringSliceAdditionalSpecFns;
use crate::text::{chars_of, push_str, str_eq};

verus! {

broadcast use vstd::seq::group_seq_axioms;

#[verifier::external_type_specification]
#[verifier::external_body]
pub struct ExUtf8Error(std::str::Utf8Error);

/// Whether a byte is an ASCII hexadecimal digit.
pub open spec fn is_hex_digit(b: u8) -> bool {
    (0x30 <= b <= 0x39) || (0x41 <= b <= 0x46) || (0x61 <= b <= 0x66)
}

/// The value of an ASCII hexadecimal digit.
pub open spec fn hex_value(b: u8) -> int {
    if 0x30 <= b <= 0x39 {
        b - 0x30
    } else if 0x41 <= b <= 0x46 {
        b - 0x41 + 10
    } else {
        b - 0x61 + 10
    }
}

/// Percent-decoding: every `%` followed by two hexadecimal digits becomes the byte they denote;
/// every other byte, a lone `%` included, is kept.
pub open spec fn percent_decode(b: Seq<u8>) -> Seq<u8>
    decreases b.len(),
{
    if b.len() == 0 {
        Seq::empty()
    } else if b.len() >= 3 && b[0] == 0x25 && is_hex_digit(b[1]) && is_hex_digit(b[2]) {
        seq![(hex_value(b[1]) * 16 + hex_value(b[2])) as u8] + percent_decode(b.skip(3))
    } else {
        seq![b[0]] + percent_decode(b.skip(1))
    }
}

/// Percent-decodes the UTF-8 bytes of a string.
///
/// Trusted: calls `percent_encoding::percent_decode` and collects the bytes its iterator yields;
/// the contract restates that iterator's rule (a `%` followed by two hexadecimal digits is
/// replaced by the byte they denote, every other byte is yielded unchanged).
#[verifier::external_body]
fn percent_decode_bytes(input: &str) -> (res: Vec<u8>)
    ensures
        res@ == percent_decode(input.spec_bytes()),
{
    percent_encoding::percent_decode(input.as_bytes()).collect()
}

/// Decodes UTF-8 bytes into a string.
///
/// Trusted: calls `String::from_utf8`, which succeeds exactly when the bytes are valid UTF-8
/// and then holds the characters they encode; on failure its error's `utf8_error` is returned.
#[verifier::external_body]
fn utf8_to_string(bytes: Vec<u8>) -> (res: Result<String, std::str::Utf8Error>)
    ensures
        res is Ok <==> valid_utf8(bytes@),
        res matches Ok(s) ==> s@ == decode_utf8(bytes@),
{
    String::from_utf8(bytes).map_err(|e| e.utf8_error())
}

proof fn lemma_percent_decode_len(b: Seq<u8>)
    ensures
        percent_decode(b).len() <= b.len(),
        percent_decode(b).len() == b.len() ==> percent_decode(b) == b,
    decreases b.len(),
{
    if b.len() == 0 {
    } else if b.len() >= 3 && b[0] == 0x25 && is_hex_digit(b[1]) && is_hex_digit(b[2]) {
        lemma_percent_decode_len(b.skip(3));
    } else {
        lemma_percent_decode_len(b.skip(1));
        assert(seq![b[0]] + b.skip(1) =~= b);
    }
}

/// The characters that a percent-encoded value decodes to, if the decoded bytes are UTF-8.
pub open spec fn decoded(v: Seq<char>) -> Option<Seq<char>> {
    let b = percent_decode(encode_utf8(v));
    if valid_utf8(b) {
        Some(decode_utf8(b))
    } else {
        None
    }
}

/// Whether percent-decoding leaves the value unchanged (it holds no `%` escape).
pub open spec fn decoding_is_identity(v: Seq<char>) -> bool {
    percent_decode(encode_utf8(v)) == encode_utf8(v)
}

/// An error that occurred during path argument deserialization.
#[derive(Debug)]
pub enum PathArgumentDeserializationError {
    /// Failed to percent-decode the value.
    PercentDecodeError(std::str::Utf8Error),
    /// Percent-decoding is required for the value.
    PercentDecodingRequired { value: String },
    /// The type is not supported.
    UnsupportedType(&'static str),
    /// The type is not expected.
    UnexpectedType(&'static str),
    /// The argument could not be parsed.
    ParseError {
        /// The value that could not be parsed.
        value: String,
        /// The expected type.
        expected_type: &'static str,
    },
    /// An unknown error occurred.
    Unknown { msg: String },
}

/// The text of a UTF-8 decoding error.
///
/// Trusted: calls the `Display` implementation of `std::str::Utf8Error` through `to_string`.
/// Nothing is stated of the text, whose wording std does not document.
#[verifier::external_body]
fn utf8_error_text(e: &std::str::Utf8Error) -> String {
    e.to_string()
}

/// Whether `m` is the message of the error `e`; the detail of a UTF-8 decoding error is std's.
pub open spec fn describes(e: PathArgumentDeserializationError, m: Seq<char>) -> bool {
    match e {
        PathArgumentDeserializationError::PercentDecodeError(_) => "failed to percent-decode value: "@.is_prefix_of(m),
        PathArgumentDeserializationError::PercentDecodingRequired { value } => m
            == "cannot parse without allocation as percent-decoding is required for value: "@
            + value@,
        PathArgumentDeserializationError::UnsupportedType(t) => m == "unsupported type: "@ + t@,
        PathArgumentDeserializationError::UnexpectedType(t) => m == "unexpected type: "@ + t@,
        PathArgumentDeserializationError::ParseError { value, expected_type } => m
            == "failed to parse value `"@ + value@ + "` as "@ + expected_type@,
        PathArgumentDeserializationError::Unknown { msg } => m == "an unknown error occurred: "@
            + msg@,
    }
}

impl PathArgumentDeserializationError {
    /// The message of the error.
    pub fn to_string(&self) -> (res: String)
        ensures
            describes(*self, res@),
    {
        match self {
            PathArgumentDeserializationError::PercentDecodeError(e) => {
                let mut res = String::from_str("failed to percent-decode value: ");
                let detail = utf8_error_text(e);
                push_str(&mut res, detail.as_str());
                res
            },
            PathArgumentDeserializationError::PercentDecodingRequired { value } => {
                let mut res = String::from_str(
                    "cannot parse without allocation as percent-decoding is required for value: ",
                );
                push_str(&mut res, value.as_str());
                res
            },
            PathArgumentDeserializationError::UnsupportedType(t) => {
                let mut res = String::from_str("unsupported type: ");
                push_str(&mut res, t);
                res
            },
            PathArgumentDeserializationError::UnexpectedType(t) => {
                let mut res = String::from_str("unexpected type: ");
                push_str(&mut res, t);
                res
            },
            PathArgumentDeserializationError::ParseError { value, expected_type } => {
                let mut res = String::from_str("failed to parse value `");
                push_str(&mut res, value.as_str());
                push_str(&mut res, "` as ");
                push_str(&mut res, expected_type);
                res
            },
            PathArgumentDeserializationError::Unknown { msg } => {
                let mut res = String::from_str("an unknown error occurred: ");
                push_str(&mut res, msg.as_str());
                res
            },
        }
    }
}

/// Deserializes a single, percent-encoded path argument.
pub struct PathArgumentDeserializer<'de> {
    url_encoded_value: &'de str,
}

/// Whether a character is an ASCII decimal digit.
pub open spec fn is_digit(c: char) -> bool {
    '0' <= c <= '9'
}

/// The value of a sequence of decimal digits.
pub open spec fn digits_value(d: Seq<char>) -> nat
    decreases d.len(),
{
    if d.len() == 0 {
        0
    } else {
        digits_value(d.drop_last()) * 10 + ((d.last() as u32) - ('0' as u32)) as nat
    }
}

/// Whether a string starts with a minus sign that the target type accepts.
pub open spec fn is_negative_text(s: Seq<char>, signed: bool) -> bool {
    signed && s.len() > 0 && s[0] == '-'
}

/// The digits of an integer text, after its optional sign.
pub open spec fn digits_part(s: Seq<char>, signed: bool) -> Seq<char> {
    if s.len() > 0 && (s[0] == '+' || is_negative_text(s, signed)) {
        s.skip(1)
    } else {
        s
    }
}

/// Whether all characters are ASCII decimal digits.
pub open spec fn all_digits(d: Seq<char>) -> bool {
    forall|i: int| 0 <= i < d.len() ==> is_digit(#[trigger] d[i])
}

/// The integer that a string denotes, as Rust's integer `FromStr` reads it: an optional sign
/// (`+`, or `-` for signed types) followed by at least one decimal digit. The range of the
/// target type is checked separately.
pub open spec fn integer_text_value(s: Seq<char>, signed: bool) -> Option<int> {
    let d = digits_part(s, signed);
    if d.len() == 0 || !all_digits(d) {
        None
    } else if is_negative_text(s, signed) {
        Some(-(digits_value(d) as int))
    } else {
        Some(digits_value(d) as int)
    }
}

/// The integer of the given range that a string denotes, if any.
pub open spec fn integer_in_range(s: Seq<char>, signed: bool, lo: int, hi: int) -> Option<int> {
    match integer_text_value(s, signed) {
        Some(v) => if lo <= v <= hi { Some(v) } else { None },
        None => None,
    }
}

proof fn lemma_digits_value_monotone(d: Seq<char>, k: int, m: int)
    requires
        0 <= k <= m <= d.len(),
        forall|i: int| 0 <= i < d.len() ==> is_digit(#[trigger] d[i]),
    ensures
        digits_value(d.take(k)) <= digits_value(d.take(m)),
    decreases m - k,
{
    if k < m {
        lemma_digits_value_monotone(d, k, m - 1);
        assert(d.take(m).drop_last() =~= d.take(m - 1));
        assert(is_digit(d[m - 1]));
    }
}

/// Reads an optional sign and decimal digits, giving the sign and magnitude when the magnitude
/// is at most `pos_bound` (non-negative) or `neg_bound` (negative).
fn read_integer(cs: &[char], signed: bool, pos_bound: u128, neg_bound: u128) -> (res: Option<(bool, u128)>)
    ensures
        match res {
            Some((neg, mag)) => integer_text_value(cs@, signed) == Some(
                if neg { -(mag as int) } else { mag as int },
            ) && (neg ==> 0 < mag <= neg_bound) && (!neg ==> mag <= pos_bound),
            None => match integer_text_value(cs@, signed) {
                Some(v) => v > pos_bound || v < -(neg_bound as int),
                None => true,
            },
        },
{
    let n = cs.len();
    if n == 0 {
        return None;
    }
    let neg = signed && cs[0] == '-';
    let first: usize = if cs[0] == '+' || neg { 1 } else { 0 };
    let bound = if neg { neg_bound } else { pos_bound };
    let ghost d = cs@.skip(first as int);
    assert(d =~= digits_part(cs@, signed));
    if first == n {
        return None;
    }
    let mut mag: u128 = 0;
    let mut i: usize = first;
    while i < n
        invariant
            n == cs@.len(),
            n > 0,
            first < n,
            neg == is_negative_text(cs@, signed),
            first == (if cs@[0] == '+' || neg { 1usize } else { 0usize }),
            bound == (if neg { neg_bound } else { pos_bound }),
            first <= i <= n,
            d == cs@.skip(first as int),
            d == digits_part(cs@, signed),
            forall|j: int| 0 <= j < i - first ==> is_digit(#[trigger] d[j]),
            mag == digits_value(d.take(i - first)),
            mag <= bound,
        decreases n - i,
    {
        let c = cs[i];
        if !('0' <= c && c <= '9') {
            assert(0 <= i - first < d.len());
            assert(!is_digit(d[i - first]));
            assert(!all_digits(d));
            return None;
        }
        let digit = ((c as u32) - ('0' as u32)) as u128;
        assert(d.take(i + 1 - first).drop_last() =~= d.take(i - first));
        assert(d[i - first] == c);
        if mag <= bound / 10 {
            assert(mag * 10 <= bound) by (nonlinear_arith)
                requires
                    mag <= bound / 10,
            ;
        }
        if mag > bound / 10 || bound - mag * 10 < digit {
            proof {
                assert(mag * 10 + digit > bound) by (nonlinear_arith)
                    requires
                        mag > bound / 10 || (mag * 10 <= bound && bound - mag * 10 < digit),
                        digit <= 9,
                ;
                assert(digits_value(d.take(i + 1 - first)) > bound);
                if all_digits(d) {
                    lemma_digits_value_monotone(d, i + 1 - first, d.len() as int);
                    assert(d.take(d.len() as int) =~= d);
                    assert(digits_value(d) > bound);
                    if neg {
                        assert(integer_text_value(cs@, signed) == Some(-(digits_value(d) as int)));
                    } else {
                        assert(integer_text_value(cs@, signed) == Some(digits_value(d) as int));
                    }
                }
            }
            return None;
        }
        mag = mag * 10 + digit;
        i += 1;
    }
    assert(d.take(n - first) =~= d);
    if neg && mag == 0 {
        // `-0` is zero.
        return Some((false, 0));
    }
    Some((neg, mag))
}

} // verus!

verus! {

/// Whether the decoded text is exactly `true` or `false`, and which.
pub open spec fn bool_text_value(s: Seq<char>) -> Option<bool> {
    if s == "true"@ {
        Some(true)
    } else if s == "false"@ {
        Some(false)
    } else {
        None
    }
}

/// The character that a text of exactly one character denotes.
pub open spec fn char_text_value(s: Seq<char>) -> Option<char> {
    if s.len() == 1 {
        Some(s[0])
    } else {
        None
    }
}

/// The outcome owed for an argument read as an integer of the range `[lo, hi]`: a
/// percent-decoding failure, the integer, or a parse error carrying the decoded text and `ty`.
pub open spec fn integer_outcome(
    v: Seq<char>,
    signed: bool,
    lo: int,
    hi: int,
    ty: Seq<char>,
    res: Result<int, PathArgumentDeserializationError>,
) -> bool {
    match decoded(v) {
        None => res matches Err(PathArgumentDeserializationError::PercentDecodeError(_)),
        Some(d) => match integer_in_range(d, signed, lo, hi) {
            Some(x) => res matches Ok(y) && y == x,
            None => res matches Err(PathArgumentDeserializationError::ParseError { value, expected_type })
                && value@ == d && expected_type@ == ty,
        },
    }
}

/// Forgets the width of an integer result.
pub open spec fn widen<T: Integer>(res: Result<T, PathArgumentDeserializationError>) -> Result<
    int,
    PathArgumentDeserializationError,
> {
    match res {
        Ok(x) => Ok(x as int),
        Err(e) => Err(e),
    }
}

impl<'de> PathArgumentDeserializer<'de> {
    /// The encoded value.
    pub closed spec fn encoded(&self) -> Seq<char> {
        self.url_encoded_value@
    }

    /// Creates a deserializer for a percent-encoded value.
    pub fn new(url_encoded_value: &'de str) -> (res: Self)
        ensures
            res.encoded() == url_encoded_value@,
    {
        PathArgumentDeserializer { url_encoded_value }
    }

    /// Percent-decodes the value into a string. This is also how an enum variant name, or a
    /// `String`, is read.
    pub fn decode(&self) -> (res: Result<String, PathArgumentDeserializationError>)
        ensures
            match decoded(self.encoded()) {
                Some(d) => res matches Ok(s) && s@ == d,
                None => res matches Err(PathArgumentDeserializationError::PercentDecodeError(_)),
            },
    {
        let bytes = percent_decode_bytes(self.url_encoded_value);
        match utf8_to_string(bytes) {
            Ok(s) => Ok(s),
            Err(e) => Err(PathArgumentDeserializationError::PercentDecodeError(e)),
        }
    }

    /// Gives the value as a string slice borrowed from the input, which is only possible when
    /// percent-decoding leaves it unchanged.
    pub fn deserialize_str(&self) -> (res: Result<&'de str, PathArgumentDeserializationError>)
        ensures
            decoded(self.encoded()) is None ==> res matches Err(
                PathArgumentDeserializationError::PercentDecodeError(_),
            ),
            decoding_is_identity(self.encoded()) ==> (res matches Ok(s) && s@ == self.encoded()),
            decoded(self.encoded()) matches Some(d) ==> (!decoding_is_identity(self.encoded())
                ==> (res matches Err(PathArgumentDeserializationError::PercentDecodingRequired { value })
                && value@ == d)),
    {
        let bytes = percent_decode_bytes(self.url_encoded_value);
        let ghost input_bytes = self.url_encoded_value.spec_bytes();
        proof {
            lemma_percent_decode_len(input_bytes);
            vstd::utf8::encode_utf8_valid_utf8(self.url_encoded_value@);
            vstd::utf8::encode_utf8_decode_utf8(self.url_encoded_value@);
        }
        if bytes.len() == self.url_encoded_value.as_bytes().len() {
            assert(bytes@ == input_bytes);
            Ok(self.url_encoded_value)
        } else {
            assert(bytes@ != input_bytes);
            match utf8_to_string(bytes) {
                Ok(value) => Err(PathArgumentDeserializationError::PercentDecodingRequired { value }),
                Err(e) => Err(PathArgumentDeserializationError::PercentDecodeError(e)),
            }
        }
    }

    /// Decodes the value and reads it as an integer whose magnitude is bounded by `pos_bound`
    /// (non-negative) or `neg_bound` (negative).
    fn integer(&self, signed: bool, pos_bound: u128, neg_bound: u128, ty: &'static str) -> (res:
        Result<(bool, u128), PathArgumentDeserializationError>)
        ensures
            match decoded(self.encoded()) {
                None => res matches Err(PathArgumentDeserializationError::PercentDecodeError(_)),
                Some(d) => match res {
                    Ok((neg, mag)) => integer_text_value(d, signed) == Some(
                        if neg { -(mag as int) } else { mag as int },
                    ) && (neg ==> 0 < mag <= neg_bound) && (!neg ==> mag <= pos_bound),
                    Err(PathArgumentDeserializationError::ParseError { value, expected_type }) => value@
                        == d && expected_type@ == ty@ && match integer_text_value(d, signed) {
                        Some(v) => v > pos_bound || v < -(neg_bound as int),
                        None => true,
                    },
                    Err(_) => false,
                },
            },
    {
        let value = match self.decode() {
            Ok(value) => value,
            Err(e) => return Err(e),
        };
        let cs = chars_of(value.as_str());
        match read_integer(cs.as_slice(), signed, pos_bound, neg_bound) {
            Some(r) => Ok(r),
            None => Err(PathArgumentDeserializationError::ParseError { value, expected_type: ty }),
        }
    }

    /// Reads a signed integer of at most 64 bits, given the magnitudes of its bounds.
    fn small_signed(&self, pos_bound: u128, neg_bound: u128, ty: &'static str) -> (res: Result<
        i64,
        PathArgumentDeserializationError,
    >)
        requires
            pos_bound <= i64::MAX,
            neg_bound <= i64::MAX + 1,
        ensures
            integer_outcome(self.encoded(), true, -neg_bound, pos_bound as int, ty@, widen(res)),
    {
        match self.integer(true, pos_bound, neg_bound, ty) {
            Ok((neg, mag)) => {
                if neg {
                    if mag == 0x8000_0000_0000_0000 {
                        Ok(i64::MIN)
                    } else {
                        Ok(-(mag as i64))
                    }
                } else {
                    Ok(mag as i64)
                }
            },
            Err(e) => Err(e),
        }
    }

    /// Reads an unsigned integer of at most 64 bits, given its upper bound.
    fn small_unsigned(&self, bound: u128, ty: &'static str) -> (res: Result<
        u64,
        PathArgumentDeserializationError,
    >)
        requires
            bound <= u64::MAX,
        ensures
            integer_outcome(self.encoded(), false, 0, bound as int, ty@, widen(res)),
    {
        match self.integer(false, bound, 0, ty) {
            Ok((_, mag)) => Ok(mag as u64),
            Err(e) => Err(e),
        }
    }

    /// Reads the value as an `i8`.
    pub fn deserialize_i8(&self) -> (res: Result<i8, PathArgumentDeserializationError>)
        ensures
            integer_outcome(self.encoded(), true, i8::MIN as int, i8::MAX as int, "i8"@, widen(res)),
    {
        match self.small_signed(0x7f, 0x80, "i8") {
            Ok(v) => Ok(v as i8),
            Err(e) => Err(e),
        }
    }

    /// Reads the value as an `i16`.
    pub fn deserialize_i16(&self) -> (res: Result<i16, PathArgumentDeserializationError>)
        ensures
            integer_outcome(self.encoded(), true, i16::MIN as int, i16::MAX as int, "i16"@, widen(res)),
    {
        match self.small_signed(0x7fff, 0x8000, "i16") {
            Ok(v) => Ok(v as i16),
            Err(e) => Err(e),
        }
    }

    /// Reads the value as an `i32`.
    pub fn deserialize_i32(&self) -> (res: Result<i32, PathArgumentDeserializationError>)
        ensures
            integer_outcome(self.encoded(), true, i32::MIN as int, i32::MAX as int, "i32"@, widen(res)),
    {
        match self.small_signed(0x7fff_ffff, 0x8000_0000, "i32") {
            Ok(v) => Ok(v as i32),
            Err(e) => Err(e),
        }
    }

    /// Reads the value as an `i64`.
    pub fn deserialize_i64(&self) -> (res: Result<i64, PathArgumentDeserializationError>)
        ensures
            integer_outcome(self.encoded(), true, i64::MIN as int, i64::MAX as int, "i64"@, widen(res)),
    {
        self.small_signed(0x7fff_ffff_ffff_ffff, 0x8000_0000_0000_0000, "i64")
    }

    /// Reads the value as an `i128`.
    pub fn deserialize_i128(&self) -> (res: Result<i128, PathArgumentDeserializationError>)
        ensures
            integer_outcome(self.encoded(), true, i128::MIN as int, i128::MAX as int, "i128"@, widen(res)),
    {
        match self.integer(true, 0x7fff_ffff_ffff_ffff_ffff_ffff_ffff_ffff, 0x8000_0000_0000_0000_0000_0000_0000_0000, "i128") {
            Ok((neg, mag)) => {
                if neg {
                    if mag == 0x8000_0000_0000_0000_0000_0000_0000_0000 {
                        Ok(i128::MIN)
                    } else {
                        Ok(-(mag as i128))
                    }
                } else {
                    Ok(mag as i128)
                }
            },
            Err(e) => Err(e),
        }
    }

    /// Reads the value as a `u8`.
    pub fn deserialize_u8(&self) -> (res: Result<u8, PathArgumentDeserializationError>)
        ensures
            integer_outcome(self.encoded(), false, 0, u8::MAX as int, "u8"@, widen(res)),
    {
        match self.small_unsigned(0xff, "u8") {
            Ok(v) => Ok(v as u8),
            Err(e) => Err(e),
        }
    }

    /// Reads the value as a `u16`.
    pub fn deserialize_u16(&self) -> (res: Result<u16, PathArgumentDeserializationError>)
        ensures
            integer_outcome(self.encoded(), false, 0, u16::MAX as int, "u16"@, widen(res)),
    {
        match self.small_unsigned(0xffff, "u16") {
            Ok(v) => Ok(v as u16),
            Err(e) => Err(e),
        }
    }

    /// Reads the value as a `u32`.
    pub fn deserialize_u32(&self) -> (res: Result<u32, PathArgumentDeserializationError>)
        ensures
            integer_outcome(self.encoded(), false, 0, u32::MAX as int, "u32"@, widen(res)),
    {
        match self.small_unsigned(0xffff_ffff, "u32") {
            Ok(v) => Ok(v as u32),
            Err(e) => Err(e),
        }
    }

    /// Reads the value as a `u64`.
    pub fn deserialize_u64(&self) -> (res: Result<u64, PathArgumentDeserializationError>)
        ensures
            integer_outcome(self.encoded(), false, 0, u64::MAX as int, "u64"@, widen(res)),
    {
        self.small_unsigned(0xffff_ffff_ffff_ffff, "u64")
    }

    /// Reads the value as a `u128`.
    pub fn deserialize_u128(&self) -> (res: Result<u128, PathArgumentDeserializationError>)
        ensures
            integer_outcome(self.encoded(), false, 0, u128::MAX as int, "u128"@, widen(res)),
    {
        match self.integer(false, 0xffff_ffff_ffff_ffff_ffff_ffff_ffff_ffff, 0, "u128") {
            Ok((_, mag)) => Ok(mag),
            Err(e) => Err(e),
        }
    }

    /// Reads the value as a `bool`: the decoded text must be `true` or `false`.
    pub fn deserialize_bool(&self) -> (res: Result<bool, PathArgumentDeserializationError>)
        ensures
            match decoded(self.encoded()) {
                None => res matches Err(PathArgumentDeserializationError::PercentDecodeError(_)),
                Some(d) => match bool_text_value(d) {
                    Some(b) => res == Ok::<bool, PathArgumentDeserializationError>(b),
                    None => res matches Err(PathArgumentDeserializationError::ParseError { value, expected_type })
                        && value@ == d && expected_type@ == "bool"@,
                },
            },
    {
        let value = match self.decode() {
            Ok(value) => value,
            Err(e) => return Err(e),
        };
        if str_eq(value.as_str(), "true") {
            Ok(true)
        } else if str_eq(value.as_str(), "false") {
            Ok(false)
        } else {
            Err(PathArgumentDeserializationError::ParseError { value, expected_type: "bool" })
        }
    }

    /// Reads the value as a `char`: the decoded text must be exactly one character.
    pub fn deserialize_char(&self) -> (res: Result<char, PathArgumentDeserializationError>)
        ensures
            match decoded(self.encoded()) {
                None => res matches Err(PathArgumentDeserializationError::PercentDecodeError(_)),
                Some(d) => match char_text_value(d) {
                    Some(c) => res == Ok::<char, PathArgumentDeserializationError>(c),
                    None => res matches Err(PathArgumentDeserializationError::ParseError { value, expected_type })
                        && value@ == d && expected_type@ == "char"@,
                },
            },
    {
        let value = match self.decode() {
            Ok(value) => value,
            Err(e) => return Err(e),
        };
        let cs = chars_of(value.as_str());
        if cs.len() == 1 {
            Ok(cs[0])
        } else {
            Err(PathArgumentDeserializationError::ParseError { value, expected_type: "char" })
        }
    }

    /// Reads the value as a `String`: its percent-decoded text.
    pub fn deserialize_string(&self) -> (res: Result<String, PathArgumentDeserializationError>)
        ensures
            match decoded(self.encoded()) {
                Some(d) => res matches Ok(s) && s@ == d,
                None => res matches Err(PathArgumentDeserializationError::PercentDecodeError(_)),
            },
    {
        self.decode()
    }
}

} // verus!
