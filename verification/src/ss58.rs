//! Parsing of address formats given by network name or by number.

use vstd::prelude::*;

verus! {

/// An address format, known by the prefix that its addresses carry.
#[derive(Clone, Copy, Debug, PartialEq, Eq, Structural)]
pub struct Ss58AddressFormat {
    pub prefix: u16,
}

/// The text names no registered network and is no 16-bit number.
#[derive(Clone, Copy, Debug, PartialEq, Eq, Structural)]
pub enum ParseFormatError {
    UnknownFormat,
}

impl Ss58AddressFormat {
    /// The format with the given prefix, registered or not.
    pub fn custom(prefix: u16) -> (format: Ss58AddressFormat)
        ensures
            format == (Ss58AddressFormat { prefix }),
    {
        Ss58AddressFormat { prefix }
    }

    pub fn prefix(&self) -> (prefix: u16)
        ensures
            prefix == self.prefix,
    {
        self.prefix
    }
}

impl From<u16> for Ss58AddressFormat {
    fn from(prefix: u16) -> (format: Ss58AddressFormat) {
        Ss58AddressFormat { prefix }
    }
}

impl vstd::std_specs::convert::FromSpecImpl<u16> for Ss58AddressFormat {
    open spec fn obeys_from_spec() -> bool {
        true
    }

    open spec fn from_spec(prefix: u16) -> Ss58AddressFormat {
        Ss58AddressFormat { prefix }
    }
}

/// The prefix that the registry of networks gives for `name`, where it knows the name.
pub uninterp spec fn registered_prefix(name: Seq<char>) -> Option<u16>;

/// `c` is one of the ten decimal digits.
pub open spec fn is_decimal_digit(c: char) -> bool {
    48 <= c as u32 <= 57
}

/// The number that the decimal digits `digits` spell.
pub open spec fn decimal_value(digits: Seq<char>) -> nat
    decreases digits.len(),
{
    if digits.len() == 0 {
        0
    } else {
        decimal_value(digits.drop_last()) * 10 + (digits.last() as u32 - 48) as nat
    }
}

/// `text` without the plus sign that may lead it.
pub open spec fn unsigned_part(text: Seq<char>) -> Seq<char> {
    if text.len() > 0 && text[0] == '+' {
        text.skip(1)
    } else {
        text
    }
}

/// The 16-bit number that `text` spells in decimal: one or more digits, after at most one
/// leading plus sign and with nothing else before, between or after them, whose value fits
/// 16 bits.
pub open spec fn decimal_u16(text: Seq<char>) -> Option<u16> {
    let digits = unsigned_part(text);
    if digits.len() > 0 && (forall|i: int| 0 <= i < digits.len() ==> is_decimal_digit(digits[i]))
        && decimal_value(digits) <= u16::MAX {
        Some(decimal_value(digits) as u16)
    } else {
        None
    }
}

/// The format that a registry answer and a numeric reading of the same text select: the
/// registered network's where there is one, else the number's, else none.
pub open spec fn selected_format(registered: Option<u16>, numeric: Option<u16>) -> Result<
    Ss58AddressFormat,
    ParseFormatError,
> {
    match registered {
        Some(prefix) => Ok(Ss58AddressFormat { prefix }),
        None => match numeric {
            Some(prefix) => Ok(Ss58AddressFormat { prefix }),
            None => Err(ParseFormatError::UnknownFormat),
        },
    }
}

/// Runs `sp_core::crypto::Ss58AddressFormat::try_from` on `name`, which looks the name up
/// among the registered networks without regard to the case of ASCII letters, and gives the
/// prefix of the format found.
#[verifier::external_body]
fn lookup_registered(name: &str) -> (prefix: Option<u16>)
    ensures
        prefix == registered_prefix(name@),
{
    match sp_core::crypto::Ss58AddressFormat::try_from(name) {
        Ok(format) => Some(format.prefix()),
        Err(_) => None,
    }
}

/// Runs `str::parse` for `u16` on `text`. The standard library reads an optional plus sign and
/// then decimal digits only; it fails on the empty string, on a sign without digits, on any
/// other character, and on a value that does not fit 16 bits.
#[verifier::external_body]
fn parse_u16(text: &str) -> (number: Option<u16>)
    ensures
        number == decimal_u16(text@),
{
    match text.parse::<u16>() {
        Ok(number) => Some(number),
        Err(_) => None,
    }
}

/// Chooses between what the registry said of a text and what the text reads as a number.
pub fn select_format(registered: Option<u16>, numeric: Option<u16>) -> (format: Result<
    Ss58AddressFormat,
    ParseFormatError,
>)
    ensures
        format == selected_format(registered, numeric),
{
    match registered {
        Some(prefix) => Ok(Ss58AddressFormat::custom(prefix)),
        None => match numeric {
            Some(prefix) => Ok(Ss58AddressFormat::custom(prefix)),
            None => Err(ParseFormatError::UnknownFormat),
        },
    }
}

/// Parses an address format from the name of a registered network or from a decimal 16-bit
/// prefix. A registered name wins over a numeric reading; a text that is neither is an error.
pub fn parse_ss58_address_format(x: &str) -> (format: Result<Ss58AddressFormat, ParseFormatError>)
    ensures
        format == selected_format(registered_prefix(x@), decimal_u16(x@)),
{
    let registered = lookup_registered(x);
    let numeric = match registered {
        Some(_) => None,
        None => parse_u16(x),
    };
    select_format(registered, numeric)
}

} // verus!
