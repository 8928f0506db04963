//! What the client of the Bring postal code API works with: postal codes and
//! the credentials of a request.
use reqwest::header::{HeaderValue, InvalidHeaderValue};
use vstd::prelude::*;
use vstd::std_specs::convert::TryFromSpecImpl;
use vstd::string::*;
use vstd::utf8::*;

use crate::text::{digit, four_digits, push_two_digits};

pub mod mailbox_delivery_dates;

verus! {

/// The country whose postal codes are asked about.
pub const NORWAY: &'static str = "no";

/// What a caller is told when a text is no postal code.
pub const INVALID_NORWEGIAN_POST_CODE: &'static str =
    "Invalid postal code format for Norway. Postal code must be numeric and consist of 4 digits";

/// A text is a postal code when it is made of exactly four decimal digits.
pub open spec fn is_postal_code_text(text: Seq<char>) -> bool {
    &&& text.len() == 4
    &&& forall|i: int| 0 <= i < 4 ==> '0' <= #[trigger] text[i] <= '9'
}

/// The number that four decimal digits stand for.
pub open spec fn postal_code_number(text: Seq<char>) -> int {
    (text[0] as int - '0' as int) * 1000 + (text[1] as int - '0' as int) * 100 + (text[2] as int
        - '0' as int) * 10 + (text[3] as int - '0' as int)
}

/// A Norwegian postal code: a number from 0 to 9999, written in four digits.
#[derive(Debug, Clone, Copy)]
pub struct NorwegianPostalCode(u16);

impl View for NorwegianPostalCode {
    type V = int;

    closed spec fn view(&self) -> int {
        self.0 as int
    }
}

/// Why a text was not accepted as a postal code.
#[derive(Debug)]
pub struct InvalidPostalCode(&'static str);

impl View for InvalidPostalCode {
    type V = Seq<char>;

    closed spec fn view(&self) -> Seq<char> {
        self.0@
    }
}

impl InvalidPostalCode {
    /// The reason in words.
    pub fn to_string(&self) -> (text: String)
        ensures
            text@ == self@,
    {
        self.0.to_owned()
    }
}

impl NorwegianPostalCode {
    /// The number of a postal code has at most four digits.
    #[verifier::type_invariant]
    pub open spec fn in_range(self) -> bool {
        0 <= self@ <= 9999
    }

    /// The postal code with the number `n`.
    pub closed spec fn with_number(n: int) -> NorwegianPostalCode {
        NorwegianPostalCode(n as u16)
    }

    /// The error that carries `reason`.
    pub closed spec fn refused(reason: &'static str) -> InvalidPostalCode {
        InvalidPostalCode(reason)
    }

    /// The postal code with a number is seen as that number, and an error
    /// that carries a reason as that reason.
    pub proof fn lemma_views(n: int, reason: &'static str)
        requires
            0 <= n <= 9999,
        ensures
            NorwegianPostalCode::with_number(n)@ == n,
            NorwegianPostalCode::refused(reason)@ == reason@,
    {
    }

    /// The number of the postal code.
    pub fn number(&self) -> (n: u16)
        ensures
            n == self@,
    {
        self.0
    }

    /// The postal code in four digits, with zeros in front where its number
    /// is small.
    pub fn to_string(&self) -> (text: String)
        ensures
            text@ == four_digits(self@),
    {
        proof {
            use_type_invariant(self);
        }
        let n = self.number();
        let mut text = String::new();
        push_two_digits(&mut text, (n / 100) as u8);
        push_two_digits(&mut text, (n % 100) as u8);
        proof {
            assert(text@ =~= four_digits(n as int));
        }
        text
    }
}

/// The four digits of a postal code's number are the text that it was read
/// from.
pub proof fn lemma_postal_code_text_round_trip(text: Seq<char>)
    requires
        is_postal_code_text(text),
    ensures
        0 <= postal_code_number(text) <= 9999,
        four_digits(postal_code_number(text)) == text,
{
    let d0 = text[0] as int - '0' as int;
    let d1 = text[1] as int - '0' as int;
    let d2 = text[2] as int - '0' as int;
    let d3 = text[3] as int - '0' as int;
    assert(0 <= d0 <= 9 && 0 <= d1 <= 9 && 0 <= d2 <= 9 && 0 <= d3 <= 9);
    let n = postal_code_number(text);
    let high = d0 * 10 + d1;
    let low = d2 * 10 + d3;
    assert(n == high * 100 + low);
    assert(n / 100 == high && n % 100 == low);
    assert(high / 10 == d0 && high % 10 == d1);
    assert(low / 10 == d2 && low % 10 == d3);
    assert(digit(d0) == text[0] && digit(d1) == text[1] && digit(d2) == text[2] && digit(d3)
        == text[3]);
    assert(four_digits(n) =~= text);
}

/// Reads a postal code from an argument of the command line, and gives the
/// reason in words where the text is none.
pub fn postal_code_parser(value: &str) -> (parsed: Result<NorwegianPostalCode, String>)
    ensures
        parsed is Ok <==> is_postal_code_text(value@),
        parsed matches Ok(code) ==> code@ == postal_code_number(value@),
        parsed matches Err(reason) ==> reason@ == INVALID_NORWEGIAN_POST_CODE@,
{
    proof {
        if is_postal_code_text(value@) {
            lemma_postal_code_text_round_trip(value@);
        }
        NorwegianPostalCode::lemma_views(
            if is_postal_code_text(value@) {
                postal_code_number(value@)
            } else {
                0
            },
            INVALID_NORWEGIAN_POST_CODE,
        );
    }
    match NorwegianPostalCode::try_from(value) {
        Ok(code) => Ok(code),
        Err(err) => Err(err.to_string()),
    }
}

impl<'a> TryFrom<&'a str> for NorwegianPostalCode {
    type Error = InvalidPostalCode;

    fn try_from(value: &'a str) -> (parsed: Result<Self, Self::Error>) {
        if !value.is_ascii() {
            proof {
                if is_postal_code_text(value@) {
                    assert forall|i: int| 0 <= i < value@.len() implies '\0' <= #[trigger] value@[i]
                        <= '\u{7f}' by {}
                }
            }
            return Err(InvalidPostalCode(INVALID_NORWEGIAN_POST_CODE));
        }
        let bytes = value.as_bytes();
        proof {
            is_ascii_chars_encode_utf8(value@);
        }
        if bytes.len() != 4 {
            return Err(InvalidPostalCode(INVALID_NORWEGIAN_POST_CODE));
        }
        let mut number: u16 = 0;
        let mut i: usize = 0;
        while i < 4
            invariant
                i <= 4,
                bytes@.len() == 4,
                value@.len() == 4,
                forall|j: int| 0 <= j < 4 ==> #[trigger] value@[j] as u8 == bytes@[j],
                is_ascii_chars(value@),
                forall|j: int| 0 <= j < i ==> '0' <= #[trigger] value@[j] <= '9',
                number <= 9999,
                i == 0 ==> number == 0,
                i == 1 ==> number == (value@[0] as int - '0' as int),
                i == 2 ==> number == (value@[0] as int - '0' as int) * 10 + (value@[1] as int
                    - '0' as int),
                i == 3 ==> number == (value@[0] as int - '0' as int) * 100 + (value@[1] as int
                    - '0' as int) * 10 + (value@[2] as int - '0' as int),
                i == 4 ==> number == postal_code_number(value@),
            decreases 4 - i,
        {
            let b = bytes[i];
            if b < 48 || b > 57 {
                proof {
                    assert(!('0' <= value@[i as int] <= '9'));
                }
                return Err(InvalidPostalCode(INVALID_NORWEGIAN_POST_CODE));
            }
            number = number * 10 + (b - 48) as u16;
            i = i + 1;
        }
        Ok(NorwegianPostalCode(number))
    }
}

impl<'a> TryFromSpecImpl<&'a str> for NorwegianPostalCode {
    open spec fn obeys_try_from_spec() -> bool {
        true
    }

    /// A text of four decimal digits gives the postal code with their number.
    /// Any other text is refused, with the same reason each time.
    open spec fn try_from_spec(value: &'a str) -> Result<Self, Self::Error> {
        if is_postal_code_text(value@) {
            Ok(NorwegianPostalCode::with_number(postal_code_number(value@)))
        } else {
            Err(NorwegianPostalCode::refused(INVALID_NORWEGIAN_POST_CODE))
        }
    }
}

/// The name of the header that carries the user of the API.
pub const HEADER_UID: &'static str = "X-Mybring-API-Uid";

/// The name of the header that carries the key of the API.
pub const HEADER_KEY: &'static str = "X-Mybring-API-Key";

/// A byte that may stand in the value of a header: a tab, or anything from
/// the space on but the delete character.
pub open spec fn is_header_byte(b: u8) -> bool {
    (b >= 32 && b != 127) || b == 9
}

/// A text that can be the value of a header: each byte of its encoding may
/// stand in one.
pub open spec fn is_header_text(text: Seq<char>) -> bool {
    forall|i: int| 0 <= i < encode_utf8(text).len() ==> is_header_byte(#[trigger] encode_utf8(text)[i])
}

/// The value of a header as the contracts see it.
pub struct HeaderView {
    pub text: Seq<char>,
    pub sensitive: bool,
}

/// The value of a header of a request: its text, and whether the text is
/// kept out of what is logged.
pub struct HeaderText {
    text: String,
    sensitive: bool,
}

impl Clone for HeaderText {
    fn clone(&self) -> (copy: Self)
        ensures
            copy@ == self@,
    {
        proof {
            use_type_invariant(self);
        }
        HeaderText { text: self.text.clone(), sensitive: self.sensitive }
    }
}

impl View for HeaderText {
    type V = HeaderView;

    closed spec fn view(&self) -> HeaderView {
        HeaderView { text: self.text@, sensitive: self.sensitive }
    }
}

impl HeaderText {
    /// Every value of a header holds a text that can be one.
    #[verifier::type_invariant]
    pub open spec fn accepted(self) -> bool {
        is_header_text(self@.text)
    }

    /// The value of a header with the text `src`, not kept out of logs, or
    /// the error of the HTTP library where `src` cannot be one.
    pub fn from_str(src: &str) -> (parsed: Result<HeaderText, InvalidHeaderValue>)
        ensures
            parsed is Ok <==> is_header_text(src@),
            parsed matches Ok(value) ==> value@ == (HeaderView { text: src@, sensitive: false }),
    {
        match header_value(src) {
            Ok(sensitive) => Ok(HeaderText { text: src.to_owned(), sensitive }),
            Err(err) => Err(err),
        }
    }

    /// The text of the value.
    pub fn as_str(&self) -> (text: &str)
        ensures
            text@ == self@.text,
    {
        self.text.as_str()
    }

    /// Whether the text is kept out of what is logged.
    pub fn is_sensitive(&self) -> (sensitive: bool)
        ensures
            sensitive == self@.sensitive,
    {
        self.sensitive
    }

    /// Says whether the text is to be kept out of what is logged.
    pub fn set_sensitive(&mut self, val: bool)
        ensures
            final(self)@ == (HeaderView { text: old(self)@.text, sensitive: val }),
    {
        proof {
            use_type_invariant(&*self);
        }
        self.sensitive = val;
    }
}

/// API key to be used by the API client.
pub struct ApiKey(pub HeaderText);

impl Clone for ApiKey {
    fn clone(&self) -> (copy: Self)
        ensures
            copy@ == self@,
    {
        ApiKey(self.0.clone())
    }
}

impl View for ApiKey {
    type V = HeaderView;

    open spec fn view(&self) -> HeaderView {
        self.0@
    }
}

/// A text was not accepted as an API key.
#[derive(Debug)]
pub struct InvalidApiKey;

impl ApiKey {
    /// The key with the text of `value`, marked sensitive so that it does
    /// not leak into what is logged.
    pub fn new(value: HeaderText) -> (key: Self)
        ensures
            key@ == (HeaderView { text: value@.text, sensitive: true }),
    {
        if value.is_sensitive() {
            Self(value)
        } else {
            let mut value = value;
            value.set_sensitive(true);
            Self(value)
        }
    }

    /// What is shown of a key where it is logged: never its text.
    pub fn debug_string(&self) -> (shown: String)
        ensures
            shown@ == "ApiKey(Sensitive)"@,
    {
        "ApiKey(Sensitive)".to_owned()
    }
}

impl TryFrom<&str> for ApiKey {
    type Error = InvalidApiKey;

    fn try_from(value: &str) -> (parsed: Result<Self, Self::Error>)
        ensures
            parsed is Ok <==> is_header_text(value@),
            parsed matches Ok(key) ==> key@ == (HeaderView { text: value@, sensitive: true }),
    {
        match HeaderText::from_str(value) {
            Ok(value) => Ok(Self::new(value)),
            Err(_) => Err(InvalidApiKey),
        }
    }
}

impl TryFromSpecImpl<&str> for ApiKey {
    /// Two strings with the same text need not be the same value, so the key
    /// is stated by its text, on `try_from` itself.
    open spec fn obeys_try_from_spec() -> bool {
        false
    }

    open spec fn try_from_spec(value: &str) -> Result<Self, Self::Error> {
        arbitrary()
    }
}

/// The user that the API is asked as.
pub struct ApiUid(HeaderText);

impl Clone for ApiUid {
    fn clone(&self) -> (copy: Self)
        ensures
            copy@ == self@,
    {
        ApiUid(self.0.clone())
    }
}

impl View for ApiUid {
    type V = HeaderView;

    closed spec fn view(&self) -> HeaderView {
        self.0@
    }
}

/// A text was not accepted as the user of the API.
#[derive(Debug)]
pub struct InvalidApiUid;

impl ApiUid {
    /// The value of the header that carries the user.
    pub fn value(&self) -> (value: &HeaderText)
        ensures
            value@ == self@,
    {
        &self.0
    }
}

impl TryFrom<&str> for ApiUid {
    type Error = InvalidApiUid;

    fn try_from(value: &str) -> (parsed: Result<Self, Self::Error>)
        ensures
            parsed is Ok <==> is_header_text(value@),
            parsed matches Ok(uid) ==> uid@ == (HeaderView { text: value@, sensitive: false }),
    {
        match HeaderText::from_str(value) {
            Ok(value) => Ok(Self(value)),
            Err(_) => Err(InvalidApiUid),
        }
    }
}

impl TryFromSpecImpl<&str> for ApiUid {
    /// Two strings with the same text need not be the same value, so the
    /// user is stated by its text, on `try_from` itself.
    open spec fn obeys_try_from_spec() -> bool {
        false
    }

    open spec fn try_from_spec(value: &str) -> Result<Self, Self::Error> {
        arbitrary()
    }
}

/// The error of the HTTP library for a text that cannot be the value of a
/// header.
#[verifier::external_type_specification]
#[verifier::external_body]
pub struct ExInvalidHeaderValue(InvalidHeaderValue);

/// `HeaderValue::from_str` of the HTTP library, with what `is_sensitive`
/// says of the value that it made. It accepts a text exactly when every byte
/// of it may stand in the value of a header, and the value that it makes is
/// not sensitive.
#[verifier::external_body]
fn header_value(src: &str) -> (parsed: Result<bool, InvalidHeaderValue>)
    ensures
        parsed is Ok <==> is_header_text(src@),
        parsed matches Ok(sensitive) ==> !sensitive,
{
    match HeaderValue::from_str(src) {
        Ok(value) => Ok(value.is_sensitive()),
        Err(err) => Err(err),
    }
}

} // verus!
