//! What goes into a broadcast: a symbol, a price and a time stamp.

use vstd::prelude::*;
use vstd::std_specs::convert::TryFromSpecImpl;
use vstd::std_specs::iter::IteratorSpec;
use vstd::utf8::encode_utf8;

verus! {

/// Where transactions are broadcast to.
pub const BROADCAST_URL: &'static str = "https://mock-node-wgqbnxruha-as.a.run.app/broadcast";

/// Length of a valid [`Symbol`], in bytes.
pub const SYMBOL_LENGTH: usize = 3;

/// A transaction symbol, such as BTC or ETH, in upper case.
#[derive(PartialEq, Eq, Debug)]
pub struct Symbol(String);

/// Why a string is not a symbol.
#[derive(Debug, PartialEq, Eq, Structural)]
pub enum IntoSymbolError {
    /// The string is not `SYMBOL_LENGTH` bytes long.
    InvalidLength,
    /// The string holds a character that is not alphabetic.
    InvalidCharacter,
}

/// Whether `char::is_alphabetic` holds of a character: whether Unicode
/// gives it the Alphabetic property.
pub uninterp spec fn is_alphabetic(c: char) -> bool;

/// `char::is_alphabetic`.
#[verifier::external_body]
fn char_is_alphabetic(c: char) -> (yes: bool)
    ensures
        yes == is_alphabetic(c),
{
    c.is_alphabetic()
}

/// The ASCII upper case of a character: `a` to `z` become `A` to `Z`, and
/// every other character stays as it is.
pub open spec fn ascii_upper(c: char) -> char {
    if 'a' <= c <= 'z' {
        ((c as u32 - 32) as u32) as char
    } else {
        c
    }
}

/// A text with each character in ASCII upper case.
pub open spec fn to_ascii_upper(text: Seq<char>) -> Seq<char> {
    Seq::new(text.len(), |i: int| ascii_upper(text[i]))
}

/// `str::to_ascii_uppercase`: a copy of the text in which the ASCII letters
/// `a` to `z` are replaced by `A` to `Z` and nothing else is changed.
#[verifier::external_body]
fn str_to_ascii_uppercase(text: &str) -> (upper: String)
    ensures
        upper@ == to_ascii_upper(text@),
{
    text.to_ascii_uppercase()
}

/// Every character of the text is alphabetic.
pub open spec fn all_alphabetic(text: Seq<char>) -> bool {
    forall|i: int| 0 <= i < text.len() ==> #[trigger] is_alphabetic(text[i])
}

/// What is wrong with a candidate symbol of `byte_len` bytes, if anything:
/// the length is looked at first, then the characters.
pub open spec fn symbol_fault(byte_len: nat, alphabetic: bool) -> Option<IntoSymbolError> {
    if byte_len != SYMBOL_LENGTH {
        Some(IntoSymbolError::InvalidLength)
    } else if !alphabetic {
        Some(IntoSymbolError::InvalidCharacter)
    } else {
        None
    }
}

/// Decides on a candidate symbol from its length in bytes and from whether
/// all its characters are alphabetic.
pub fn check_symbol(byte_len: usize, alphabetic: bool) -> (r: Result<(), IntoSymbolError>)
    ensures
        match r {
            Ok(_) => symbol_fault(byte_len as nat, alphabetic) is None,
            Err(fault) => symbol_fault(byte_len as nat, alphabetic) == Some(fault),
        },
{
    if byte_len != SYMBOL_LENGTH {
        Err(IntoSymbolError::InvalidLength)
    } else if !alphabetic {
        Err(IntoSymbolError::InvalidCharacter)
    } else {
        Ok(())
    }
}

/// Whether every character of the text is alphabetic.
fn is_all_alphabetic(text: &str) -> (all: bool)
    ensures
        all == all_alphabetic(text@),
{
    let mut chars = text.chars();
    let ghost mut seen: int = 0;
    loop
        invariant
            chars.obeys_prophetic_iter_laws(),
            0 <= seen <= text@.len(),
            chars.remaining() == text@.skip(seen),
            forall|k: int| 0 <= k < seen ==> #[trigger] is_alphabetic(text@[k]),
        ensures
            seen == text@.len(),
        decreases text@.len() - seen,
    {
        match chars.next() {
            None => {
                break;
            },
            Some(c) => {
                if !char_is_alphabetic(c) {
                    assert(!is_alphabetic(text@[seen]));
                    return false;
                }
                proof {
                    assert(text@.skip(seen).drop_first() == text@.skip(seen + 1));
                    seen = seen + 1;
                }
            },
        }
    }
    true
}

impl View for Symbol {
    type V = Seq<char>;

    /// The letters of the symbol.
    closed spec fn view(&self) -> Seq<char> {
        self.0@
    }
}

/// What is wrong with a text as a symbol, if anything.
pub open spec fn text_fault(text: Seq<char>) -> Option<IntoSymbolError> {
    symbol_fault(encode_utf8(text).len(), all_alphabetic(text))
}

impl Symbol {
    /// What every symbol satisfies once it exists: it is the ASCII upper
    /// case of a text with which nothing is wrong.
    #[verifier::type_invariant]
    pub open spec fn wf(&self) -> bool {
        exists|text: Seq<char>| text_fault(text) is None && self@ == #[trigger] to_ascii_upper(text)
    }

    /// The letters of the symbol.
    pub fn as_str(&self) -> (text: &str)
        ensures
            text@ == self@,
    {
        self.0.as_str()
    }
}

impl Clone for Symbol {
    /// A symbol of the same letters.
    fn clone(&self) -> (copy: Self)
        ensures
            copy@ == self@,
    {
        proof {
            use_type_invariant(self);
        }
        Symbol(self.0.clone())
    }
}

impl<'a> TryFromSpecImpl<&'a str> for Symbol {
    /// Two strings that hold the same text need not be one string, so the
    /// result is stated by `try_from` itself, over the view.
    open spec fn obeys_try_from_spec() -> bool {
        false
    }

    open spec fn try_from_spec(value: &'a str) -> Result<Self, IntoSymbolError> {
        arbitrary()
    }
}

impl<'a> TryFrom<&'a str> for Symbol {
    type Error = IntoSymbolError;

    /// Makes a symbol of a string of `SYMBOL_LENGTH` bytes that holds
    /// alphabetic characters only, in ASCII upper case.
    fn try_from(value: &'a str) -> (r: Result<Self, IntoSymbolError>)
        ensures
            match r {
                Ok(symbol) => text_fault(value@) is None && symbol@ == to_ascii_upper(value@)
                    && symbol.wf(),
                Err(fault) => text_fault(value@) == Some(fault),
            },
    {
        let byte_len = value.as_bytes().len();
        let alphabetic = is_all_alphabetic(value);
        match check_symbol(byte_len, alphabetic) {
            Err(fault) => Err(fault),
            Ok(_) => Ok(Symbol(str_to_ascii_uppercase(value))),
        }
    }
}

/// A price: any amount but zero.
#[derive(Clone, Copy, Debug)]
pub struct Price(u64);

impl View for Price {
    type V = int;

    /// The amount.
    closed spec fn view(&self) -> int {
        self.0 as int
    }
}

impl Price {
    /// A price is never zero.
    #[verifier::type_invariant]
    pub open spec fn wf(&self) -> bool {
        0 < self@ <= u64::MAX
    }

    /// The amount.
    pub fn value(&self) -> (amount: u64)
        ensures
            amount == self@,
            amount != 0,
    {
        proof {
            use_type_invariant(self);
        }
        self.0
    }
}

impl TryFromSpecImpl<u64> for Price {
    open spec fn obeys_try_from_spec() -> bool {
        true
    }

    /// What `try_from` returns.
    closed spec fn try_from_spec(value: u64) -> Result<Self, &'static str> {
        if value == 0 {
            Err("Price cannot be 0.")
        } else {
            Ok(Price(value))
        }
    }
}

impl TryFrom<u64> for Price {
    type Error = &'static str;

    /// Accepts every amount but zero.
    fn try_from(value: u64) -> (r: Result<Self, &'static str>)
        ensures
            match r {
                Ok(price) => value != 0 && price@ == value && price.wf(),
                Err(message) => value == 0 && message@ == "Price cannot be 0."@,
            },
    {
        if value == 0 {
            Err("Price cannot be 0.")
        } else {
            Ok(Price(value))
        }
    }
}

/// A point in time, in whole seconds since the UNIX epoch.
#[derive(Clone, Copy, Debug)]
pub struct TimeStamp(u64);

impl View for TimeStamp {
    type V = int;

    /// The seconds since the UNIX epoch.
    closed spec fn view(&self) -> int {
        self.0 as int
    }
}

impl TimeStamp {
    /// The time stamp of the moment `seconds` whole seconds after the UNIX
    /// epoch.
    pub fn new(seconds: u64) -> (stamp: Self)
        ensures
            stamp@ == seconds,
    {
        TimeStamp(seconds)
    }

    /// The seconds since the UNIX epoch.
    pub fn seconds(&self) -> (seconds: u64)
        ensures
            seconds == self@,
    {
        self.0
    }
}

/// What is broadcast.
#[derive(Debug)]
pub struct Transaction {
    /// Transaction symbol, such as BTC or ETH.
    pub symbol: Symbol,
    /// Symbol price, such as 10000.
    pub price: Price,
    /// When the price was retrieved.
    pub time_stamp: TimeStamp,
}

/// What a broadcast is answered with.
#[derive(Debug)]
pub struct TransactionResponse {
    /// The handle by which the transaction can be monitored.
    pub tx_hash: String,
}

} // verus!
