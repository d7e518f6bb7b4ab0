//! Time-sorted 64-bit identifiers and their 13-character text form.
//!
//! The text form is Crockford base 32: thirteen symbols of five bits each,
//! most significant first, of which the first carries only four bits. The
//! alphabet is in ascending ASCII order, so text order equals numeric order.

use crate::error::{ApiError, ErrorKind};
use vstd::prelude::*;
use vstd::string::StringSliceAdditionalSpecFns;

verus! {

/// The symbol that stands for the five-bit value `v`.
pub open spec fn symbol(v: u64) -> char {
    if v == 0 { '0' } else if v == 1 { '1' } else if v == 2 { '2' } else if v == 3 { '3' }
    else if v == 4 { '4' } else if v == 5 { '5' } else if v == 6 { '6' } else if v == 7 { '7' }
    else if v == 8 { '8' } else if v == 9 { '9' } else if v == 10 { 'A' } else if v == 11 { 'B' }
    else if v == 12 { 'C' } else if v == 13 { 'D' } else if v == 14 { 'E' } else if v == 15 { 'F' }
    else if v == 16 { 'G' } else if v == 17 { 'H' } else if v == 18 { 'J' } else if v == 19 { 'K' }
    else if v == 20 { 'M' } else if v == 21 { 'N' } else if v == 22 { 'P' } else if v == 23 { 'Q' }
    else if v == 24 { 'R' } else if v == 25 { 'S' } else if v == 26 { 'T' } else if v == 27 { 'V' }
    else if v == 28 { 'W' } else if v == 29 { 'X' } else if v == 30 { 'Y' } else { 'Z' }
}

/// The value of a symbol in either case, with `O` read as zero and `I`, `L` as
/// one; `None` for every other character.
pub open spec fn symbol_value(c: char) -> Option<u64> {
    if '0' <= c && c <= '9' {
        Some((c as u64 - '0' as u64) as u64)
    } else if c == 'o' || c == 'O' {
        Some(0)
    } else if c == 'i' || c == 'I' || c == 'l' || c == 'L' {
        Some(1)
    } else if c == 'a' || c == 'A' { Some(10) } else if c == 'b' || c == 'B' { Some(11) }
    else if c == 'c' || c == 'C' { Some(12) } else if c == 'd' || c == 'D' { Some(13) }
    else if c == 'e' || c == 'E' { Some(14) } else if c == 'f' || c == 'F' { Some(15) }
    else if c == 'g' || c == 'G' { Some(16) } else if c == 'h' || c == 'H' { Some(17) }
    else if c == 'j' || c == 'J' { Some(18) } else if c == 'k' || c == 'K' { Some(19) }
    else if c == 'm' || c == 'M' { Some(20) } else if c == 'n' || c == 'N' { Some(21) }
    else if c == 'p' || c == 'P' { Some(22) } else if c == 'q' || c == 'Q' { Some(23) }
    else if c == 'r' || c == 'R' { Some(24) } else if c == 's' || c == 'S' { Some(25) }
    else if c == 't' || c == 'T' { Some(26) } else if c == 'v' || c == 'V' { Some(27) }
    else if c == 'w' || c == 'W' { Some(28) } else if c == 'x' || c == 'X' { Some(29) }
    else if c == 'y' || c == 'Y' { Some(30) } else if c == 'z' || c == 'Z' { Some(31) }
    else {
        None
    }
}

/// Number of bits below the digit at position `i` (0 is the leftmost).
pub open spec fn shift_at(i: int) -> u64 {
    (60 - 5 * i) as u64
}

/// The five-bit digit of `n` at position `i`.
pub open spec fn digit_at(n: u64, i: int) -> u64 {
    (n >> shift_at(i)) & 31
}

/// The text form of `n`: thirteen symbols, most significant digit first.
pub open spec fn encode(n: u64) -> Seq<char> {
    Seq::new(13, |i: int| symbol(digit_at(n, i)))
}

/// Thirteen characters, each of them a symbol.
pub open spec fn well_formed(s: Seq<char>) -> bool {
    s.len() == 13 && forall|i: int| 0 <= i < 13 ==> (#[trigger] symbol_value(s[i])).is_some()
}

/// A well-formed text whose leading digit fits the four bits left for it.
pub open spec fn in_range(s: Seq<char>) -> bool {
    well_formed(s) && symbol_value(s[0]).unwrap() < 16
}

/// The value of the symbol at position `i` of `s`.
pub open spec fn value_at(s: Seq<char>, i: int) -> u64 {
    symbol_value(s[i]).unwrap()
}

/// The number that a well-formed text stands for. Of the leading digit only
/// the low four bits count.
pub open spec fn decode(s: Seq<char>) -> u64 {
    ((value_at(s, 0) & 15) << 60) | (value_at(s, 1) << 55) | (value_at(s, 2) << 50)
        | (value_at(s, 3) << 45) | (value_at(s, 4) << 40) | (value_at(s, 5) << 35)
        | (value_at(s, 6) << 30) | (value_at(s, 7) << 25) | (value_at(s, 8) << 20)
        | (value_at(s, 9) << 15) | (value_at(s, 10) << 10) | (value_at(s, 11) << 5)
        | value_at(s, 12)
}

/// `s` sorts strictly before `t`, character by character.
pub open spec fn text_less(s: Seq<char>, t: Seq<char>) -> bool {
    exists|k: int|
        0 <= k < s.len() && k < t.len() && #[trigger] s[k] < t[k] && (forall|j: int|
            0 <= j < k ==> s[j] == t[j])
}

/// Why a text is not an identifier.
#[derive(Clone, Copy, Debug, PartialEq, Eq, Structural)]
pub enum ParseError {
    /// The text is not thirteen bytes long.
    InvalidLength,
    /// A character is not a symbol of the alphabet.
    InvalidCharacters,
    /// The leading digit needs a fifth bit, which a 64-bit value cannot hold.
    OutOfRange,
}

impl ParseError {
    /// The error that parsing `s` gives, if any.
    pub open spec fn of(s: &str) -> Option<ParseError> {
        if s.spec_bytes().len() != 13 {
            Some(ParseError::InvalidLength)
        } else if !well_formed(s@) {
            Some(ParseError::InvalidCharacters)
        } else if !in_range(s@) {
            Some(ParseError::OutOfRange)
        } else {
            None
        }
    }

    /// The text that describes the error.
    pub open spec fn text(self) -> Seq<char> {
        match self {
            ParseError::InvalidLength => "ParseError(InvalidLength)"@,
            ParseError::InvalidCharacters => "ParseError(InvalidCharacters)"@,
            ParseError::OutOfRange => "ParseError(OutOfRange)"@,
        }
    }

    /// The reply to a request that names an identifier which does not parse:
    /// a fault of the client's, never of the server.
    pub fn rejection(&self) -> (e: ApiError)
        ensures
            e.is(ErrorKind::InvalidRequest, self.text()),
    {
        ApiError { kind: ErrorKind::InvalidRequest, message: self.message() }
    }

    /// A short description of the error.
    pub fn message(&self) -> (text: String)
        ensures
            text@ == self.text(),
    {
        match self {
            ParseError::InvalidLength => "ParseError(InvalidLength)".to_owned(),
            ParseError::InvalidCharacters => "ParseError(InvalidCharacters)".to_owned(),
            ParseError::OutOfRange => "ParseError(OutOfRange)".to_owned(),
        }
    }
}

/// Calls `tsid::create_tsid` and returns the number of the identifier it made.
/// The value depends on the clock, on the process's node number and on a
/// counter, so nothing is claimed of it. The call panics on a machine whose
/// clock stands before 2020.
#[verifier::external_body]
fn tsid_fresh() -> (n: u64) {
    tsid::create_tsid().number()
}

/// Calls `Display` of `tsid::TSID` on the identifier with number `n`: thirteen
/// symbols, the digit at bits 60 and up first, then five bits at a time.
#[verifier::external_body]
fn tsid_text(n: u64) -> (text: String)
    ensures
        text@ == encode(n),
{
    tsid::TSID::from(n).to_string()
}

/// Calls `TryFrom<&str>` of `tsid::TSID`. It accepts exactly the texts of
/// thirteen bytes that are all symbols, and combines their values by shifting;
/// the shift drops the fifth bit of the leading digit.
#[verifier::external_body]
fn tsid_number(s: &str) -> (r: Option<u64>)
    ensures
        r.is_some() <==> well_formed(s@),
        r.is_some() ==> r.unwrap() == decode(s@),
{
    match tsid::TSID::try_from(s) {
        Ok(t) => Some(t.number()),
        Err(_) => None,
    }
}

/// The value of a symbol, as `symbol_value` defines it.
pub fn symbol_value_of(c: char) -> (r: Option<u64>)
    ensures
        r == symbol_value(c),
{
    if '0' <= c && c <= '9' {
        let d: u64 = (c as u64) - ('0' as u64);
        Some(d)
    } else if c == 'o' || c == 'O' {
        Some(0)
    } else if c == 'i' || c == 'I' || c == 'l' || c == 'L' {
        Some(1)
    } else if c == 'a' || c == 'A' { Some(10) } else if c == 'b' || c == 'B' { Some(11) }
    else if c == 'c' || c == 'C' { Some(12) } else if c == 'd' || c == 'D' { Some(13) }
    else if c == 'e' || c == 'E' { Some(14) } else if c == 'f' || c == 'F' { Some(15) }
    else if c == 'g' || c == 'G' { Some(16) } else if c == 'h' || c == 'H' { Some(17) }
    else if c == 'j' || c == 'J' { Some(18) } else if c == 'k' || c == 'K' { Some(19) }
    else if c == 'm' || c == 'M' { Some(20) } else if c == 'n' || c == 'N' { Some(21) }
    else if c == 'p' || c == 'P' { Some(22) } else if c == 'q' || c == 'Q' { Some(23) }
    else if c == 'r' || c == 'R' { Some(24) } else if c == 's' || c == 'S' { Some(25) }
    else if c == 't' || c == 'T' { Some(26) } else if c == 'v' || c == 'V' { Some(27) }
    else if c == 'w' || c == 'W' { Some(28) } else if c == 'x' || c == 'X' { Some(29) }
    else if c == 'y' || c == 'Y' { Some(30) } else if c == 'z' || c == 'Z' { Some(31) }
    else {
        None
    }
}

/// A 64-bit identifier: a millisecond timestamp above a node number and a
/// counter, so that later identifiers of one process are larger.
#[derive(Clone, Copy, Debug, PartialEq, Eq, Hash, Structural)]
pub struct Id {
    number: u64,
}

impl Id {
    /// The identifier's 64 bits.
    pub closed spec fn number(self) -> u64 {
        self.number
    }

    /// The identifier with the 64 bits `v`.
    pub closed spec fn of_number(v: u64) -> Id {
        Id { number: v }
    }

    /// The signed integer with the same bits, under which the identifier is
    /// stored.
    pub open spec fn stored(self) -> i64 {
        #[verifier::truncate]
        (self.number() as i64)
    }

    /// A fresh identifier.
    pub fn new() -> (id: Id) {
        Id { number: tsid_fresh() }
    }

    /// The identifier with the given 64 bits.
    pub fn from_u64(v: u64) -> (id: Id)
        ensures
            id.number() == v,
            id == Id::of_number(v),
    {
        Id { number: v }
    }

    /// The identifier stored as the signed integer `v`: same bits.
    pub fn from_i64(v: i64) -> (id: Id)
        ensures
            id.number() == v as u64,
            id == Id::of_number(v as u64),
    {
        Id { number: v as u64 }
    }

    /// The identifier's 64 bits.
    pub fn to_u64(&self) -> (v: u64)
        ensures
            v == self.number(),
    {
        self.number
    }

    /// The identifier as a signed integer for storage: same bits.
    pub fn to_i64(&self) -> (v: i64)
        ensures
            v == self.stored(),
            v as u64 == self.number(),
    {
        let n: u64 = self.number;
        let v: i64 = n as i64;
        assert(v as u64 == n) by (bit_vector)
            requires
                v == n as i64,
        ;
        v
    }

    /// The text form.
    pub fn to_string(&self) -> (text: String)
        ensures
            text@ == encode(self.number()),
    {
        tsid_text(self.number)
    }

    /// Reads a text form. Succeeds exactly on thirteen symbols whose leading
    /// digit is below sixteen; every other text is refused with the reason.
    pub fn parse(s: &str) -> (r: Result<Id, ParseError>)
        ensures
            match r {
                Ok(id) => ParseError::of(s).is_none() && id.number() == decode(s@),
                Err(e) => ParseError::of(s) == Some(e),
            },
            r is Ok <==> in_range(s@),
    {
        proof {
            if well_formed(s@) {
                lemma_symbols_are_ascii(s@);
                vstd::string::is_ascii_spec_bytes(s);
            }
        }
        match tsid_number(s) {
            Some(n) => {
                let lead = symbol_value_of(s.get_char(0));
                match lead {
                    Some(d) => {
                        if d < 16 {
                            Ok(Id { number: n })
                        } else {
                            Err(ParseError::OutOfRange)
                        }
                    },
                    None => Err(ParseError::OutOfRange),
                }
            },
            None => {
                if s.as_bytes().len() != 13 {
                    Err(ParseError::InvalidLength)
                } else {
                    Err(ParseError::InvalidCharacters)
                }
            },
        }
    }
}

impl From<u64> for Id {
    fn from(v: u64) -> (id: Id) {
        Id::from_u64(v)
    }
}

impl vstd::std_specs::convert::FromSpecImpl<u64> for Id {
    open spec fn obeys_from_spec() -> bool {
        true
    }

    open spec fn from_spec(v: u64) -> Id {
        Id::of_number(v)
    }
}

impl From<i64> for Id {
    fn from(v: i64) -> (id: Id) {
        Id::from_i64(v)
    }
}

impl vstd::std_specs::convert::FromSpecImpl<i64> for Id {
    open spec fn obeys_from_spec() -> bool {
        true
    }

    open spec fn from_spec(v: i64) -> Id {
        Id::of_number(v as u64)
    }
}

impl Default for Id {
    /// A fresh identifier.
    fn default() -> (id: Id) {
        Id::new()
    }
}

impl std::str::FromStr for Id {
    type Err = String;

    /// Reads a text form, as `Id::parse` does: it succeeds exactly on
    /// thirteen symbols whose leading digit is below sixteen, and gives the
    /// identifier that the text stands for. Every other text is refused with
    /// the description of the reason.
    fn from_str(s: &str) -> (r: Result<Id, String>)
        ensures
            match r {
                Ok(id) => ParseError::of(s).is_none() && id.number() == decode(s@),
                Err(text) => ParseError::of(s) matches Some(e) && text@ == e.text(),
            },
            r is Ok <==> in_range(s@),
    {
        match Id::parse(s) {
            Ok(id) => Ok(id),
            Err(e) => Err(e.message()),
        }
    }
}

/// An identifier and its number stand for each other: the identifier made
/// of a number has that number, and an identifier is the one made of its
/// number. The same holds through the signed integer it is stored as.
pub proof fn law_number_round_trip(id: Id, v: u64)
    ensures
        Id::of_number(v).number() == v,
        Id::of_number(id.number()) == id,
        Id::of_number(id.stored() as u64) == id,
{
    let n = id.number();
    assert((#[verifier::truncate] (n as i64)) as u64 == n) by (bit_vector);
}

/// Symbols are ASCII, so a well-formed text is.
pub proof fn lemma_symbols_are_ascii(s: Seq<char>)
    requires
        well_formed(s),
    ensures
        vstd::utf8::is_ascii_chars(s),
{
    assert forall|i: int| 0 <= i < s.len() implies '\0' <= #[trigger] s[i] <= '\u{7f}' by {
        assert(symbol_value(s[i]).is_some());
    }
}

/// Reading a symbol back gives the value it was written for.
pub proof fn lemma_symbol_round_trip(v: u64)
    requires
        v < 32,
    ensures
        symbol_value(symbol(v)) == Some(v),
{
}

/// A larger value has a larger symbol.
pub proof fn lemma_symbol_increasing(v: u64, w: u64)
    requires
        v < w < 32,
    ensures
        symbol(v) < symbol(w),
{
}

/// Every digit is below 32, and the leading one below 16.
pub proof fn lemma_digit_bounds(n: u64, i: int)
    requires
        0 <= i <= 12,
    ensures
        digit_at(n, i) < 32,
        i == 0 ==> digit_at(n, i) < 16,
{
    let s = shift_at(i);
    assert(((n >> s) & 31) < 32) by (bit_vector);
    if i == 0 {
        assert(((n >> 60) & 31) < 16) by (bit_vector);
    }
}

/// The thirteen digits of `n`, shifted back into place, make up `n`.
proof fn lemma_digits_rebuild(n: u64)
    ensures
        n == ((((n >> 60) & 31) & 15) << 60) | (((n >> 55) & 31) << 55) | (((n >> 50) & 31) << 50)
            | (((n >> 45) & 31) << 45) | (((n >> 40) & 31) << 40) | (((n >> 35) & 31) << 35)
            | (((n >> 30) & 31) << 30) | (((n >> 25) & 31) << 25) | (((n >> 20) & 31) << 20)
            | (((n >> 15) & 31) << 15) | (((n >> 10) & 31) << 10) | (((n >> 5) & 31) << 5)
            | ((n >> 0) & 31),
{
    assert(n == ((((n >> 60) & 31) & 15) << 60) | (((n >> 55) & 31) << 55) | (((n >> 50) & 31)
        << 50) | (((n >> 45) & 31) << 45) | (((n >> 40) & 31) << 40) | (((n >> 35) & 31) << 35)
        | (((n >> 30) & 31) << 30) | (((n >> 25) & 31) << 25) | (((n >> 20) & 31) << 20) | (((n
        >> 15) & 31) << 15) | (((n >> 10) & 31) << 10) | (((n >> 5) & 31) << 5) | ((n >> 0)
        & 31)) by (bit_vector);
}

/// The text form of any number is well formed and in range, and decodes to
/// that number.
pub proof fn lemma_decode_encode(n: u64)
    ensures
        in_range(encode(n)),
        decode(encode(n)) == n,
{
    let s = encode(n);
    assert forall|i: int| 0 <= i < 13 implies #[trigger] symbol_value(s[i]) == Some(
        digit_at(n, i),
    ) by {
        lemma_digit_bounds(n, i);
        lemma_symbol_round_trip(digit_at(n, i));
    }
    lemma_digit_bounds(n, 0);
    assert(symbol_value(s[0]) == Some(digit_at(n, 0)));
    assert(value_at(s, 0) == (n >> 60) & 31);
    assert(value_at(s, 1) == (n >> 55) & 31);
    assert(value_at(s, 2) == (n >> 50) & 31);
    assert(value_at(s, 3) == (n >> 45) & 31);
    assert(value_at(s, 4) == (n >> 40) & 31);
    assert(value_at(s, 5) == (n >> 35) & 31);
    assert(value_at(s, 6) == (n >> 30) & 31);
    assert(value_at(s, 7) == (n >> 25) & 31);
    assert(value_at(s, 8) == (n >> 20) & 31);
    assert(value_at(s, 9) == (n >> 15) & 31);
    assert(value_at(s, 10) == (n >> 10) & 31);
    assert(value_at(s, 11) == (n >> 5) & 31);
    assert(value_at(s, 12) == (n >> 0) & 31);
    lemma_digits_rebuild(n);
}

/// Parsing the text form of an identifier gives the identifier back: the text
/// is accepted, and it decodes to the same number.
pub proof fn law_parse_inverts_to_string(id: Id, text: &str)
    requires
        text@ == encode(id.number()),
    ensures
        ParseError::of(text).is_none(),
        decode(text@) == id.number(),
{
    lemma_decode_encode(id.number());
    lemma_symbols_are_ascii(text@);
    vstd::string::is_ascii_spec_bytes(text);
}

/// Two identifiers have the same text form exactly when they are the same
/// number.
pub proof fn law_same_text_same_number(a: Id, b: Id)
    ensures
        encode(a.number()) == encode(b.number()) <==> a.number() == b.number(),
{
    lemma_decode_encode(a.number());
    lemma_decode_encode(b.number());
}

/// From position `i` on, where all digits before it agree, a smaller number
/// has a first digit that differs, and it is the smaller one.
proof fn lemma_first_difference(a: u64, b: u64, i: int)
    requires
        0 <= i <= 12,
        a < b,
        i > 0 ==> (a >> shift_at(i - 1)) == (b >> shift_at(i - 1)),
        forall|j: int| 0 <= j < i ==> digit_at(a, j) == digit_at(b, j),
    ensures
        exists|k: int|
            i <= k <= 12 && #[trigger] digit_at(a, k) < digit_at(b, k) && (forall|j: int|
                0 <= j < k ==> digit_at(a, j) == digit_at(b, j)),
    decreases 12 - i,
{
    let s = shift_at(i);
    if i == 0 {
        assert(((a >> 60) & 31) <= ((b >> 60) & 31) && (((a >> 60) & 31) == ((b >> 60) & 31) ==> (a
            >> 60) == (b >> 60))) by (bit_vector)
            requires
                a < b,
        ;
    } else {
        let t = shift_at(i - 1);
        assert(((a >> s) & 31) <= ((b >> s) & 31) && (((a >> s) & 31) == ((b >> s) & 31) ==> (a
            >> s) == (b >> s))) by (bit_vector)
            requires
                a < b,
                s <= 55,
                t == s + 5,
                (a >> t) == (b >> t),
        ;
    }
    if digit_at(a, i) < digit_at(b, i) {
    } else if i == 12 {
        assert(a == b) by (bit_vector)
            requires
                (a >> 0) == (b >> 0),
        ;
    } else {
        assert forall|j: int| 0 <= j < i + 1 implies digit_at(a, j) == digit_at(b, j) by {
            if j < i {
            }
        }
        lemma_first_difference(a, b, i + 1);
    }
}

/// Text forms sort as their numbers do.
pub proof fn law_text_order_is_numeric_order(a: Id, b: Id)
    ensures
        a.number() < b.number() <==> text_less(encode(a.number()), encode(b.number())),
{
    let x = a.number();
    let y = b.number();
    if x < y {
        lemma_text_less(x, y);
    } else if y < x {
        lemma_text_less(y, x);
        lemma_text_less_asymmetric(encode(y), encode(x));
    } else {
        lemma_text_less_asymmetric(encode(x), encode(y));
    }
}

/// The text of a smaller number sorts first.
proof fn lemma_text_less(a: u64, b: u64)
    requires
        a < b,
    ensures
        text_less(encode(a), encode(b)),
{
    lemma_first_difference(a, b, 0);
    let k = choose|k: int|
        0 <= k <= 12 && #[trigger] digit_at(a, k) < digit_at(b, k) && (forall|j: int|
            0 <= j < k ==> digit_at(a, j) == digit_at(b, j));
    lemma_digit_bounds(b, k);
    lemma_symbol_increasing(digit_at(a, k), digit_at(b, k));
    let s = encode(a);
    let t = encode(b);
    assert(s[k] < t[k]);
    assert forall|j: int| 0 <= j < k implies s[j] == t[j] by {
        assert(digit_at(a, j) == digit_at(b, j));
    }
}

/// Of two texts at most one sorts before the other, and none before itself.
proof fn lemma_text_less_asymmetric(s: Seq<char>, t: Seq<char>)
    ensures
        !(text_less(s, t) && text_less(t, s)),
        !text_less(s, s),
{
    if text_less(s, t) && text_less(t, s) {
        let k = choose|k: int|
            0 <= k < s.len() && k < t.len() && #[trigger] s[k] < t[k] && (forall|j: int|
                0 <= j < k ==> s[j] == t[j]);
        let m = choose|m: int|
            0 <= m < t.len() && m < s.len() && #[trigger] t[m] < s[m] && (forall|j: int|
                0 <= j < m ==> t[j] == s[j]);
        if k < m {
            assert(t[k] == s[k]);
        } else if m < k {
            assert(s[m] == t[m]);
        }
    }
}

} // verus!
