use convert_case::Casing;
use vstd::prelude::*;

use crate::error::{Error, Result};
use crate::text::str_eq;

verus! {

/// The letter cases that field, variant and type names can be converted to.
///
/// The variants and their order are those of `convert_case::Case` (without
/// its random cases).
#[derive(Debug, Clone, Copy, PartialEq, Eq, Hash, Structural)]
pub enum CaseKind {
    Upper,
    Lower,
    Title,
    Toggle,
    Camel,
    Pascal,
    UpperCamel,
    Snake,
    UpperSnake,
    ScreamingSnake,
    Kebab,
    Cobol,
    UpperKebab,
    Train,
    Flat,
    UpperFlat,
    Alternating,
}

/// The number of letter cases.
pub const CASE_COUNT: usize = 17;

impl CaseKind {
    /// The position of this case in `convert_case::Case::deterministic_cases()`.
    pub open spec fn spec_position(self) -> nat {
        match self {
            CaseKind::Upper => 0,
            CaseKind::Lower => 1,
            CaseKind::Title => 2,
            CaseKind::Toggle => 3,
            CaseKind::Camel => 4,
            CaseKind::Pascal => 5,
            CaseKind::UpperCamel => 6,
            CaseKind::Snake => 7,
            CaseKind::UpperSnake => 8,
            CaseKind::ScreamingSnake => 9,
            CaseKind::Kebab => 10,
            CaseKind::Cobol => 11,
            CaseKind::UpperKebab => 12,
            CaseKind::Train => 13,
            CaseKind::Flat => 14,
            CaseKind::UpperFlat => 15,
            CaseKind::Alternating => 16,
        }
    }

    /// The position of this case in `convert_case::Case::deterministic_cases()`.
    pub fn position(self) -> (r: usize)
        ensures
            r == self.spec_position(),
            r < CASE_COUNT,
    {
        match self {
            CaseKind::Upper => 0,
            CaseKind::Lower => 1,
            CaseKind::Title => 2,
            CaseKind::Toggle => 3,
            CaseKind::Camel => 4,
            CaseKind::Pascal => 5,
            CaseKind::UpperCamel => 6,
            CaseKind::Snake => 7,
            CaseKind::UpperSnake => 8,
            CaseKind::ScreamingSnake => 9,
            CaseKind::Kebab => 10,
            CaseKind::Cobol => 11,
            CaseKind::UpperKebab => 12,
            CaseKind::Train => 13,
            CaseKind::Flat => 14,
            CaseKind::UpperFlat => 15,
            CaseKind::Alternating => 16,
        }
    }
}

/// The case that an attribute names with `s`, where there is one.
pub open spec fn case_from_name(s: Seq<char>) -> Option<CaseKind> {
    if s == "upper"@ || s == "UPPER"@ {
        Some(CaseKind::Upper)
    } else if s == "lower"@ {
        Some(CaseKind::Lower)
    } else if s == "title"@ || s == "Title"@ {
        Some(CaseKind::Title)
    } else if s == "toggle"@ || s == "ToGgLe"@ {
        Some(CaseKind::Toggle)
    } else if s == "camel"@ {
        Some(CaseKind::Camel)
    } else if s == "pascal"@ || s == "Pascal"@ {
        Some(CaseKind::Pascal)
    } else if s == "snake"@ {
        Some(CaseKind::Snake)
    } else if s == "upper_snake"@ || s == "UPPER_SNAKE"@ {
        Some(CaseKind::UpperSnake)
    } else if s == "screaming_snake"@ || s == "SCREAMING_SNAKE"@ {
        Some(CaseKind::ScreamingSnake)
    } else if s == "kebab"@ {
        Some(CaseKind::Kebab)
    } else if s == "cobol"@ {
        Some(CaseKind::Cobol)
    } else if s == "train"@ || s == "Train"@ {
        Some(CaseKind::Train)
    } else if s == "flat"@ {
        Some(CaseKind::Flat)
    } else if s == "upper_flat"@ || s == "UPPER_FLAT"@ {
        Some(CaseKind::UpperFlat)
    } else if s == "alternating"@ || s == "aLtErNaTiNg"@ {
        Some(CaseKind::Alternating)
    } else {
        None
    }
}

/// What parsing the case name `s` gives: the case it names, or `InvalidCase(s)`.
pub open spec fn case_parse_result(s: Seq<char>, r: Result<CaseKind>) -> bool {
    match r {
        Ok(c) => case_from_name(s) == Some(c),
        Err(e) => case_from_name(s) is None && (e matches Error::InvalidCase(t) && t@ == s),
    }
}

/// Parsing of a case from its name.
pub trait CaseExt: Sized {
    /// The value that the name `s` stands for, where it stands for one.
    spec fn spec_named(s: Seq<char>) -> Option<Self>;

    /// Parses a case from an owned string.
    fn from_string(s: String) -> (r: Result<Self>)
        ensures
            match r {
                Ok(c) => Self::spec_named(s@) == Some(c),
                Err(e) => Self::spec_named(s@) is None && (e matches Error::InvalidCase(t) && t@ == s@),
            },
    {
        Self::from_str(s.as_str())
    }

    /// Parses a case from its name.
    fn from_str(s: &str) -> (r: Result<Self>)
        ensures
            match r {
                Ok(c) => Self::spec_named(s@) == Some(c),
                Err(e) => Self::spec_named(s@) is None && (e matches Error::InvalidCase(t) && t@ == s@),
            },
    ;
}

impl CaseExt for CaseKind {
    open spec fn spec_named(s: Seq<char>) -> Option<CaseKind> {
        case_from_name(s)
    }

    fn from_str(s: &str) -> (r: Result<CaseKind>) {
        if str_eq(s, "upper") || str_eq(s, "UPPER") {
            Ok(CaseKind::Upper)
        } else if str_eq(s, "lower") {
            Ok(CaseKind::Lower)
        } else if str_eq(s, "title") || str_eq(s, "Title") {
            Ok(CaseKind::Title)
        } else if str_eq(s, "toggle") || str_eq(s, "ToGgLe") {
            Ok(CaseKind::Toggle)
        } else if str_eq(s, "camel") {
            Ok(CaseKind::Camel)
        } else if str_eq(s, "pascal") || str_eq(s, "Pascal") {
            Ok(CaseKind::Pascal)
        } else if str_eq(s, "snake") {
            Ok(CaseKind::Snake)
        } else if str_eq(s, "upper_snake") || str_eq(s, "UPPER_SNAKE") {
            Ok(CaseKind::UpperSnake)
        } else if str_eq(s, "screaming_snake") || str_eq(s, "SCREAMING_SNAKE") {
            Ok(CaseKind::ScreamingSnake)
        } else if str_eq(s, "kebab") {
            Ok(CaseKind::Kebab)
        } else if str_eq(s, "cobol") {
            Ok(CaseKind::Cobol)
        } else if str_eq(s, "train") || str_eq(s, "Train") {
            Ok(CaseKind::Train)
        } else if str_eq(s, "flat") {
            Ok(CaseKind::Flat)
        } else if str_eq(s, "upper_flat") || str_eq(s, "UPPER_FLAT") {
            Ok(CaseKind::UpperFlat)
        } else if str_eq(s, "alternating") || str_eq(s, "aLtErNaTiNg") {
            Ok(CaseKind::Alternating)
        } else {
            Err(Error::InvalidCase(String::from_str(s)))
        }
    }
}

/// What `convert_case::Casing::to_case` returns for `text` and the case at
/// `position` of `convert_case::Case::deterministic_cases()`.
pub uninterp spec fn case_converted(text: Seq<char>, position: nat) -> Seq<char>;

/// Calls `convert_case::Casing::to_case` on `text`, with the case at `position` of
/// `convert_case::Case::deterministic_cases()`.  The contract only names the
/// result: the word splitting and re-casing rules of `convert_case` are not stated.
#[verifier::external_body]
fn to_case_at(text: &str, position: usize) -> (r: String)
    requires
        position < CASE_COUNT,
    ensures
        r@ == case_converted(text@, position as nat),
{
    text.to_case(convert_case::Case::deterministic_cases()[position])
}

/// Converts `text` to the letter case `case`.
pub fn convert_case(text: &str, case: CaseKind) -> (r: String)
    ensures
        r@ == case_converted(text@, case.spec_position()),
{
    to_case_at(text, case.position())
}

} // verus!
