//! The settings of a deployment, as far as the requests read them: the
//! number of rows that are fetched at a time.

use crate::custom_errors::app::{outcome, AppError, Failure};
use crate::text::{trim, trimmed};
use vstd::prelude::*;

verus! {

/// The value of a decimal digit.
pub open spec fn digit(c: char) -> Option<nat> {
    if 0x30 <= c as u32 <= 0x39 {
        Some((c as u32 - 0x30) as nat)
    } else {
        None
    }
}

/// The number that a run of decimal digits spells; zero for no digits, and
/// `None` if a character is no digit.
pub open spec fn number(s: Seq<char>) -> Option<nat>
    decreases s.len(),
{
    if s.len() == 0 {
        Some(0)
    } else {
        match (number(s.drop_last()), digit(s.last())) {
            (Some(n), Some(d)) => Some(n * 10 + d),
            _ => None,
        }
    }
}

/// The number of 64 bits that a text spells: decimal digits, at least one,
/// with or without a plus sign before them, and nothing else.
pub open spec fn parsed_u64(s: Seq<char>) -> Option<u64> {
    let digits = if s.len() > 0 && s.first() == '+' {
        s.drop_first()
    } else {
        s
    };
    if digits.len() == 0 {
        None
    } else {
        match number(digits) {
            Some(n) => if n <= u64::MAX {
                Some(n as u64)
            } else {
                None
            },
            None => None,
        }
    }
}

/// `str::parse` to a `u64`: the number that the text spells in decimal
/// digits, which a plus sign may precede; `None` for an empty text, for any
/// other character, and for a number that 64 bits cannot hold.
#[verifier::external_body]
fn parse_u64(s: &str) -> (r: Option<u64>)
    ensures
        r == parsed_u64(s@),
{
    s.parse::<u64>().ok()
}

/// What a setting for the size of a page comes to: it must be there, and
/// spell a number above zero, white space around it not counted.
pub open spec fn page_size_verdict(setting: Option<Seq<char>>) -> Result<u64, Failure> {
    match setting {
        None => Err(Failure::Config("PAGE_SIZE must be set"@)),
        Some(s) => accepted_page_size(parsed_u64(trimmed(s))),
    }
}

/// What a number that was read as the size of a page comes to.
pub open spec fn accepted_page_size(parsed: Option<u64>) -> Result<u64, Failure> {
    match parsed {
        Some(n) => if n > 0 {
            Ok(n)
        } else {
            Err(Failure::Config("Invalid PAGE_SIZE value"@))
        },
        None => Err(Failure::Config("Invalid PAGE_SIZE value"@)),
    }
}

/// The number of rows to fetch at a time, from the setting `PAGE_SIZE`.
pub fn page_size(setting: Option<&str>) -> (r: Result<u64, AppError>)
    ensures
        outcome(r) == page_size_verdict(
            match setting {
                Some(s) => Some(s@),
                None => None,
            },
        ),
{
    match setting {
        None => Err(AppError::config("PAGE_SIZE must be set")),
        Some(s) => match parse_u64(trim(s)) {
            Some(n) => if n > 0 {
                Ok(n)
            } else {
                Err(AppError::config("Invalid PAGE_SIZE value"))
            },
            None => Err(AppError::config("Invalid PAGE_SIZE value")),
        },
    }
}

} // verus!
