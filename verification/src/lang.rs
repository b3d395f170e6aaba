//! Language resolution: parsing a two-letter code into the closed set of
//! supported languages, with English as the universal fallback so that
//! language parsing never aborts a request.

use vstd::prelude::*;

verus! {

/// The closed set of languages the translation task supports.
#[derive(Debug, Clone, Copy, PartialEq, Eq, Structural)]
pub enum SupportedLanguage {
    Fr,
    Hi,
    Pt,
    En,
    De,
    Nl,
}

/// Which language a code parses to, if any.
pub open spec fn parse_code(code: Seq<char>) -> Option<SupportedLanguage> {
    if code == "fr"@ {
        Some(SupportedLanguage::Fr)
    } else if code == "hi"@ {
        Some(SupportedLanguage::Hi)
    } else if code == "pt"@ {
        Some(SupportedLanguage::Pt)
    } else if code == "en"@ {
        Some(SupportedLanguage::En)
    } else if code == "de"@ {
        Some(SupportedLanguage::De)
    } else if code == "nl"@ {
        Some(SupportedLanguage::Nl)
    } else {
        None
    }
}

/// Total resolution: unrecognized codes fall back to English rather than
/// failing the request.
pub open spec fn resolve_spec(code: Seq<char>) -> SupportedLanguage {
    match parse_code(code) {
        Some(lang) => lang,
        None => SupportedLanguage::En,
    }
}

/// Equality of two string slices, decided character by character.
pub fn str_eq(a: &str, b: &str) -> (r: bool)
    ensures
        r == (a@ == b@),
{
    let na = a.unicode_len();
    let nb = b.unicode_len();
    if na != nb {
        assert(a@ != b@) by {
            assert(a@.len() != b@.len());
        }
        return false;
    }
    let mut i: usize = 0;
    while i < na
        invariant
            na == a@.len(),
            na == b@.len(),
            i <= na,
            forall|k: int| 0 <= k < i ==> a@[k] == b@[k],
        decreases na - i,
    {
        if a.get_char(i) != b.get_char(i) {
            return false;
        }
        i += 1;
    }
    proof {
        assert(a@ =~= b@);
    }
    true
}

impl SupportedLanguage {
    /// Parses a two-letter code; unrecognized input is reported as an error
    /// so that the caller can choose its own fallback.
    pub fn from_str(input: &str) -> (r: Result<SupportedLanguage, ()>)
        ensures
            r matches Ok(lang) ==> parse_code(input@) == Some(lang),
            r is Err <==> parse_code(input@) is None,
    {
        if str_eq(input, "fr") {
            Ok(SupportedLanguage::Fr)
        } else if str_eq(input, "hi") {
            Ok(SupportedLanguage::Hi)
        } else if str_eq(input, "pt") {
            Ok(SupportedLanguage::Pt)
        } else if str_eq(input, "en") {
            Ok(SupportedLanguage::En)
        } else if str_eq(input, "de") {
            Ok(SupportedLanguage::De)
        } else if str_eq(input, "nl") {
            Ok(SupportedLanguage::Nl)
        } else {
            Err(())
        }
    }

    /// Total resolution with the English fallback.
    pub fn resolve(code: &str) -> (r: SupportedLanguage)
        ensures
            r == resolve_spec(code@),
    {
        match Self::from_str(code) {
            Ok(lang) => lang,
            Err(()) => SupportedLanguage::En,
        }
    }
}

/// Resolves the target and source languages of one translation request.
/// The target comes from the mandatory code; an absent source defaults to
/// English (not to the target).
pub fn resolve_translation_languages(target_code: &str, source_code: &Option<String>) -> (r: (
    SupportedLanguage,
    SupportedLanguage,
))
    ensures
        r.0 == resolve_spec(target_code@),
        r.1 == (match source_code {
            Some(code) => resolve_spec(code@),
            None => SupportedLanguage::En,
        }),
{
    let target = SupportedLanguage::resolve(target_code);
    let source = match source_code {
        Some(code) => SupportedLanguage::resolve(code.as_str()),
        None => SupportedLanguage::En,
    };
    (target, source)
}

} // verus!
