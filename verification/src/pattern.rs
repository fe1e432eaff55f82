//! The patterns that nicks, genders, e-mails, passwords, descriptions and game
//! names must match, and the checks built on them.
use vstd::prelude::*;

verus! {

#[verifier::external_type_specification]
#[verifier::external_body]
pub struct ExRegex(fancy_regex::Regex);

#[verifier::external_type_specification]
#[verifier::external_body]
pub struct ExRegexError(fancy_regex::Error);

/// Length 3 to 12, letters and digits.
pub const NICK_PATTERN: &'static str = r#"^[a-zA-Z0-9]{3,12}$"#;

/// Length 1 to 50; letters (Czech ones too), digits and ` &_-',.`, none of the
/// latter twice in a row.
pub const GENDER_PATTERN: &'static str = r#"^(?!.*([ &_\-',\.])\1)([a-zA-Z0-9 &_\-',\.áčďéěíňóřšťúůýžÁČĎÉĚÍŇÓŘŠŤÚŮÝŽ]){1,50}$"#;

/// A text that begins with an e-mail address (lower case local part, `@`, and
/// a domain of dot-separated labels) and is 5 to 25 characters long, without a
/// line break; what follows the address at its start is not checked.
pub const EMAIL_PATTERN: &'static str = r#"(?=^[a-z0-9!#$%&'*+/=?^_`{|}~-]+(?:\.[a-z0-9!#$%&'*+/=?^_`{|}~-]+)*@(?:[a-z0-9](?:[a-z0-9-]*[a-z0-9])?\.)+[a-z0-9](?:[a-z0-9-]*[a-z0-9])?)(.{5,25}$)"#;

/// Length 8 to 25, with at least 2 lower case letters, 2 upper case letters,
/// 2 digits and 2 of `@#$%!?._-`.
pub const PASSWORD_PATTERN: &'static str = r#"^(?=(.*[\d]){2,})(?=(.*[a-z]){2,})(?=(.*[A-Z]){2,})(?=(.*[@#$%!?._-]){2,})(?:[\da-zA-Z@#$%!?._-]){8,25}$"#;

/// Length 20 to 650, of the characters of a gender.
pub const DESCRIPTION_PATTERN: &'static str = r#"^(?!.*([ &_\-',\.])\1)([a-zA-Z0-9 &_\-',\.áčďéěíňóřšťúůýžÁČĎÉĚÍŇÓŘŠŤÚŮÝŽ]){20,650}$"#;

/// Length 5 to 15; letters, digits and ` &_-',.`, none of the latter twice in a
/// row.
pub const GAME_NAME_PATTERN: &'static str = r#"^(?!.*([ &_\-',\.])\1)[a-zA-Z0-9 &_\-',\.]{5,15}$"#;

/// Whether the regular expression engine accepts `pattern`.
pub uninterp spec fn pattern_compiles(pattern: Seq<char>) -> bool;

/// What the regular expression engine answers when asked whether `pattern`
/// matches somewhere in `text`: `None` where it gives up (it bounds how far it
/// backtracks).
pub uninterp spec fn pattern_matches(pattern: Seq<char>, text: Seq<char>) -> Option<bool>;

/// A compiled regular expression, with the pattern it was compiled from.
pub struct Pattern {
    regex: fancy_regex::Regex,
    source: String,
}

impl View for Pattern {
    type V = Seq<char>;

    closed spec fn view(&self) -> Seq<char> {
        self.source@
    }
}

/// Compiles `pattern` with `fancy_regex::Regex::new`. Trusted: that it
/// succeeds exactly for the patterns that the engine accepts (a name for that
/// answer, not a statement of which patterns those are), and that the pattern is
/// kept beside the compiled expression.
#[verifier::external_body]
fn compile(pattern: &str) -> (r: Result<Pattern, fancy_regex::Error>)
    ensures
        r is Ok <==> pattern_compiles(pattern@),
        r matches Ok(p) ==> p@ == pattern@,
{
    match fancy_regex::Regex::new(pattern) {
        Ok(regex) => Ok(Pattern { regex, source: pattern.to_string() }),
        Err(e) => Err(e),
    }
}

/// Asks `fancy_regex::Regex::is_match` whether the compiled pattern matches
/// somewhere in `text`. Trusted: that the answer, or the failure, is the
/// engine's answer for the pattern the expression was compiled from (a name, not a
/// statement of regular expression semantics).
#[verifier::external_body]
fn search(p: &Pattern, text: &str) -> (r: Result<bool, fancy_regex::Error>)
    ensures
        match r {
            Ok(b) => pattern_matches(p@, text@) == Some(b),
            Err(_) => pattern_matches(p@, text@) is None,
        },
{
    p.regex.is_match(text)
}

/// The regular expression engine failed: it refused a pattern or gave up on a
/// text.
#[derive(Clone, Copy, Debug, PartialEq, Eq, Structural)]
pub struct PatternError;

/// The answer to whether `pattern` matches `text`: `None` where the engine
/// refuses the pattern or gives up.
pub open spec fn match_verdict(pattern: Seq<char>, text: Seq<char>) -> Option<bool> {
    if pattern_compiles(pattern) {
        pattern_matches(pattern, text)
    } else {
        None
    }
}

/// Whether `pattern` matches somewhere in `text`.
pub fn matches_pattern(pattern: &str, text: &str) -> (r: Result<bool, PatternError>)
    ensures
        match r {
            Ok(b) => match_verdict(pattern@, text@) == Some(b),
            Err(_) => match_verdict(pattern@, text@) is None,
        },
{
    match compile(pattern) {
        Ok(p) => match search(&p, text) {
            Ok(b) => Ok(b),
            Err(_) => Err(PatternError),
        },
        Err(_) => Err(PatternError),
    }
}

pub open spec fn opt_view(o: Option<&str>) -> Option<Seq<char>> {
    match o {
        Some(s) => Some(s@),
        None => None,
    }
}

/// The answer for one optional field: a field that is absent passes.
pub open spec fn field_verdict(pattern: Seq<char>, value: Option<Seq<char>>) -> Option<bool> {
    match value {
        None => Some(true),
        Some(v) => match_verdict(pattern, v),
    }
}

/// `first`, unless it passes; then `rest`.
pub open spec fn then_verdict(first: Option<bool>, rest: Option<bool>) -> Option<bool> {
    match first {
        Some(true) => rest,
        _ => first,
    }
}

/// Whether the fields that are present match their patterns, checked in the
/// order nick, gender, e-mail, password, description: the first that does not
/// match decides `false`, a failure of the engine before that decides `None`.
pub open spec fn user_fields_verdict(
    nick: Option<Seq<char>>,
    gender: Option<Seq<char>>,
    email: Option<Seq<char>>,
    password: Option<Seq<char>>,
    description: Option<Seq<char>>,
) -> Option<bool> {
    then_verdict(
        field_verdict(NICK_PATTERN@, nick),
        then_verdict(
            field_verdict(GENDER_PATTERN@, gender),
            then_verdict(
                field_verdict(EMAIL_PATTERN@, email),
                then_verdict(
                    field_verdict(PASSWORD_PATTERN@, password),
                    field_verdict(DESCRIPTION_PATTERN@, description),
                ),
            ),
        ),
    )
}

fn check_field(pattern: &str, value: Option<&str>) -> (r: Result<bool, PatternError>)
    ensures
        match r {
            Ok(b) => field_verdict(pattern@, opt_view(value)) == Some(b),
            Err(_) => field_verdict(pattern@, opt_view(value)) is None,
        },
{
    match value {
        None => Ok(true),
        Some(v) => matches_pattern(pattern, v),
    }
}

/// Whether each of the fields that are present matches its pattern (see
/// `user_fields_verdict`); an error where the regular expression engine fails.
pub fn valid_user_fields(
    nick: Option<&str>,
    gender: Option<&str>,
    email: Option<&str>,
    password: Option<&str>,
    description: Option<&str>,
) -> (r: Result<bool, PatternError>)
    ensures
        match r {
            Ok(b) => user_fields_verdict(
                opt_view(nick),
                opt_view(gender),
                opt_view(email),
                opt_view(password),
                opt_view(description),
            ) == Some(b),
            Err(_) => user_fields_verdict(
                opt_view(nick),
                opt_view(gender),
                opt_view(email),
                opt_view(password),
                opt_view(description),
            ) is None,
        },
{
    if !check_field(NICK_PATTERN, nick)? {
        return Ok(false);
    }
    if !check_field(GENDER_PATTERN, gender)? {
        return Ok(false);
    }
    if !check_field(EMAIL_PATTERN, email)? {
        return Ok(false);
    }
    if !check_field(PASSWORD_PATTERN, password)? {
        return Ok(false);
    }
    check_field(DESCRIPTION_PATTERN, description)
}

/// Whether an optional field passes `pattern`: it is absent, or the engine
/// says that it matches.
pub open spec fn field_passes(pattern: Seq<char>, value: Option<Seq<char>>) -> bool {
    value is None || match_verdict(pattern, value.unwrap()) == Some(true)
}

/// Whether an optional field fails `pattern`: it is present and the engine
/// says that it does not match.
pub open spec fn field_fails(pattern: Seq<char>, value: Option<Seq<char>>) -> bool {
    value is Some && match_verdict(pattern, value.unwrap()) == Some(false)
}

/// The fields of a user pass exactly when every field that is present matches
/// its pattern; they are refused exactly when, in the order nick, gender, e-mail,
/// password, description, a present field does not match and every one before it
/// passes; otherwise the engine failed on a field before any refusal.
pub proof fn law_user_fields_all_checked(
    nick: Option<Seq<char>>,
    gender: Option<Seq<char>>,
    email: Option<Seq<char>>,
    password: Option<Seq<char>>,
    description: Option<Seq<char>>,
)
    ensures
        (user_fields_verdict(nick, gender, email, password, description) == Some(true)) == (
            field_passes(NICK_PATTERN@, nick) && field_passes(GENDER_PATTERN@, gender)
            && field_passes(EMAIL_PATTERN@, email) && field_passes(PASSWORD_PATTERN@, password)
            && field_passes(DESCRIPTION_PATTERN@, description)),
        (user_fields_verdict(nick, gender, email, password, description) == Some(false)) == (
            field_fails(NICK_PATTERN@, nick)
            || (field_passes(NICK_PATTERN@, nick) && field_fails(GENDER_PATTERN@, gender))
            || (field_passes(NICK_PATTERN@, nick) && field_passes(GENDER_PATTERN@, gender)
                && field_fails(EMAIL_PATTERN@, email))
            || (field_passes(NICK_PATTERN@, nick) && field_passes(GENDER_PATTERN@, gender)
                && field_passes(EMAIL_PATTERN@, email) && field_fails(PASSWORD_PATTERN@, password))
            || (field_passes(NICK_PATTERN@, nick) && field_passes(GENDER_PATTERN@, gender)
                && field_passes(EMAIL_PATTERN@, email) && field_passes(PASSWORD_PATTERN@, password)
                && field_fails(DESCRIPTION_PATTERN@, description))),
{
}

} // verus!
