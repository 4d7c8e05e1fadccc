//! The `--date` option: a date in the form `YYYY-MM-DD`.

use vstd::prelude::*;

verus! {

#[verifier::external_type_specification]
#[verifier::external_body]
pub struct ExRegex(regex::Regex);

#[verifier::external_type_specification]
#[verifier::external_body]
pub struct ExRegexError(regex::Error);

/// Whether `regex::Regex::new` accepts `pattern` (it parses, and its
/// compiled form stays within the default size limit).
pub uninterp spec fn regex_compiles(pattern: Seq<char>) -> bool;

/// Whether the regular expression `pattern` matches somewhere in `haystack`,
/// as `regex::Regex::is_match` answers it.
pub uninterp spec fn regex_matches(pattern: Seq<char>, haystack: Seq<char>) -> bool;

/// A compiled regular expression together with its source text.
pub struct CompiledRegex {
    re: regex::Regex,
    source: String,
}

impl CompiledRegex {
    /// The pattern this regular expression was compiled from.
    pub closed spec fn pattern(&self) -> Seq<char> {
        self.source@
    }
}

/// `regex::Regex::new`. Claimed: it succeeds exactly when
/// `regex_compiles(pattern)`, and what it returns matches as `pattern` does.
#[verifier::external_body]
fn compile_regex(pattern: &str) -> (r: Result<CompiledRegex, regex::Error>)
    ensures
        r is Ok <==> regex_compiles(pattern@),
        r matches Ok(c) ==> c.pattern() == pattern@,
{
    match regex::Regex::new(pattern) {
        Ok(re) => Ok(CompiledRegex { re, source: pattern.to_string() }),
        Err(e) => Err(e),
    }
}

/// `regex::Regex::is_match`. Claimed: the answer is
/// `regex_matches(pattern, haystack)` for the pattern it was compiled from.
#[verifier::external_body]
fn regex_is_match(re: &CompiledRegex, haystack: &str) -> (b: bool)
    ensures
        b == regex_matches(re.pattern(), haystack@),
{
    re.re.is_match(haystack)
}

/// The pattern a date must match: four ASCII digits, a dash, two ASCII
/// digits, a dash, two ASCII digits, and nothing else.
pub open spec fn date_pattern() -> Seq<char> {
    "^[0-9]{4}-[0-9]{2}-[0-9]{2}$"@
}

/// The date pattern, character by character: a start anchor, four ASCII
/// digits (`[0-9]` four times), a dash, two ASCII digits, a dash, two ASCII
/// digits, and an end anchor; any two digits are taken as the month and as
/// the day.
pub proof fn lemma_date_pattern_chars()
    ensures
        date_pattern() == seq![
            '^', '[', '0', '-', '9', ']', '{', '4', '}', '-',
            '[', '0', '-', '9', ']', '{', '2', '}', '-',
            '[', '0', '-', '9', ']', '{', '2', '}', '$',
        ],
{
    reveal_strlit("^[0-9]{4}-[0-9]{2}-[0-9]{2}$");
    assert(date_pattern() =~= seq![
        '^', '[', '0', '-', '9', ']', '{', '4', '}', '-',
        '[', '0', '-', '9', ']', '{', '2', '}', '-',
        '[', '0', '-', '9', ']', '{', '2', '}', '$',
    ]);
}

/// The message for a date that does not match.
pub open spec fn invalid_date_message() -> Seq<char> {
    "Invalid date format"@
}

/// The message for a date pattern that does not compile.
pub open spec fn invalid_pattern_message() -> Seq<char> {
    "Invalid date pattern"@
}

/// The answer for `s` once it is known whether it matches the date pattern:
/// `s` itself when it does, the invalid-format message when it does not.
pub fn date_check_outcome(s: &str, matched: bool) -> (r: Result<String, String>)
    ensures
        matched ==> (r matches Ok(v) && v@ == s@),
        !matched ==> (r matches Err(e) && e@ == invalid_date_message()),
{
    if matched {
        Ok(String::from_str(s))
    } else {
        Err(String::from_str("Invalid date format"))
    }
}

/// Checks that `s` is a date in the form `YYYY-MM-DD`: `Ok(s)` when it
/// matches `date_pattern()`, an error with the invalid-format message when it
/// does not. Should the pattern not compile, the error says so.
pub fn check_date(s: &str) -> (r: Result<String, String>)
    ensures
        regex_compiles(date_pattern()) && regex_matches(date_pattern(), s@) ==> (r matches Ok(v)
            && v@ == s@),
        regex_compiles(date_pattern()) && !regex_matches(date_pattern(), s@) ==> (r matches Err(e)
            && e@ == invalid_date_message()),
        !regex_compiles(date_pattern()) ==> (r matches Err(e) && e@ == invalid_pattern_message()),
{
    match compile_regex("^[0-9]{4}-[0-9]{2}-[0-9]{2}$") {
        Ok(re) => {
            let matched = regex_is_match(&re, s);
            date_check_outcome(s, matched)
        },
        Err(_) => Err(String::from_str("Invalid date pattern")),
    }
}

} // verus!
