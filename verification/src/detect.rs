//! Detectors: which secrets stand in a text and where.
use crate::dotenv;
use crate::secrets;
use crate::text;
use vstd::prelude::*;

verus! {

/// The detectors, in ascending order of their names.
#[derive(Clone, Copy, PartialEq, Eq, Structural)]
pub enum Detector {
    AwsAccessKeyId,
    BearerToken,
    DatabaseUrl,
    EnvforgeToken,
    GithubToken,
    GoogleApiKey,
    GoogleServiceAccount,
    JwtLikeToken,
    NpmToken,
    OpenaiToken,
    PrivateKey,
    SensitiveAssignment,
    SignedUrl,
    SlackToken,
    StripeSecretKey,
}

/// A detector that found something, and the first line on which it did, counted from one.
#[derive(Debug, Clone, Copy)]
pub struct PatternDetection {
    pub name: &'static str,
    pub line: usize,
}

/// `key` with every ASCII letter made upper-case and everything but ASCII letters and digits
/// replaced by an underscore.
pub open spec fn key_words(key: Seq<char>) -> Seq<char> {
    text::trim(key).map_values(
        |c: char|
            if text::ascii_alphanumeric(c) {
                text::upper_char(c)
            } else {
                '_'
            },
    )
}

/// `key` names something that has to be kept secret.
pub open spec fn sensitive_key(key: Seq<char>) -> bool {
    let words = key_words(key);
    ||| text::occurs(words, "SECRET"@)
    ||| text::occurs(words, "TOKEN"@)
    ||| text::occurs(words, "PASSWORD"@)
    ||| text::occurs(words, "API_KEY"@)
    ||| text::occurs(words, "APIKEY"@)
    ||| text::occurs(words, "DATABASE_URL"@)
    ||| text::occurs(words, "PRIVATE_KEY"@)
    ||| text::occurs(words, "ACCESS_KEY"@)
    ||| text::occurs(words, "AUTHORIZATION"@)
}

/// `c` is neither an ASCII letter nor a digit.
pub open spec fn symbol(c: char) -> bool {
    !text::ascii_alphanumeric(c)
}

/// One where `b` holds and zero where it does not.
pub open spec fn one_if(b: bool) -> nat {
    if b {
        1
    } else {
        0
    }
}

/// How many of the four kinds of characters stand in `s`: lower-case letters, upper-case
/// letters, digits, symbols.
pub open spec fn variety(s: Seq<char>) -> nat {
    one_if(exists|i: int| 0 <= i < s.len() && text::ascii_lower(#[trigger] s[i])) + one_if(
        exists|i: int| 0 <= i < s.len() && text::ascii_upper(#[trigger] s[i]),
    ) + one_if(exists|i: int| 0 <= i < s.len() && text::ascii_digit(#[trigger] s[i])) + one_if(
        exists|i: int| 0 <= i < s.len() && symbol(#[trigger] s[i]),
    )
}

/// The value that `line` assigns to a sensitive key, where the value is long and varied and
/// no placeholder: it is a secret if its entropy is high.
pub open spec fn suspect_value(line: Seq<char>) -> Option<Seq<char>> {
    match dotenv::split_assignment(line) {
        None => None,
        Some((key, assigned)) => {
            let value = dotenv::bare_value(assigned);
            if sensitive_key(key) && text::byte_len(value) >= 20 && variety(value) >= 3
                && !dotenv::example_value_safe(text::trim(key), value) {
                Some(value)
            } else {
                None
            }
        },
    }
}

/// `line` assigns a secret to a sensitive key, given whether the entropy of the suspect value
/// is high.
pub open spec fn sensitive_assignment(line: Seq<char>, high_entropy: bool) -> bool {
    suspect_value(line) is Some && high_entropy
}

impl Detector {
    /// The detectors in the order in which they report.
    pub open spec fn all() -> Seq<Detector> {
        seq![
            Detector::AwsAccessKeyId,
            Detector::BearerToken,
            Detector::DatabaseUrl,
            Detector::EnvforgeToken,
            Detector::GithubToken,
            Detector::GoogleApiKey,
            Detector::GoogleServiceAccount,
            Detector::JwtLikeToken,
            Detector::NpmToken,
            Detector::OpenaiToken,
            Detector::PrivateKey,
            Detector::SensitiveAssignment,
            Detector::SignedUrl,
            Detector::SlackToken,
            Detector::StripeSecretKey,
        ]
    }

    /// The label under which the detector reports.
    pub open spec fn label(self) -> Seq<char> {
        match self {
            Detector::AwsAccessKeyId => "aws-access-key-id"@,
            Detector::BearerToken => "bearer-token"@,
            Detector::DatabaseUrl => "database-url"@,
            Detector::EnvforgeToken => "envforge-token"@,
            Detector::GithubToken => "github-token"@,
            Detector::GoogleApiKey => "google-api-key"@,
            Detector::GoogleServiceAccount => "google-service-account"@,
            Detector::JwtLikeToken => "jwt-like-token"@,
            Detector::NpmToken => "npm-token"@,
            Detector::OpenaiToken => "openai-token"@,
            Detector::PrivateKey => "private-key"@,
            Detector::SensitiveAssignment => "sensitive-assignment"@,
            Detector::SignedUrl => "signed-url"@,
            Detector::SlackToken => "slack-token"@,
            Detector::StripeSecretKey => "stripe-secret-key"@,
        }
    }

    /// The detector finds something on `line`.
    pub open spec fn finds(self, line: Seq<char>, high_entropy: bool) -> bool {
        match self {
            Detector::AwsAccessKeyId => secrets::aws_access_key_id(line),
            Detector::BearerToken => secrets::bearer_token(line),
            Detector::DatabaseUrl => secrets::database_url(line),
            Detector::EnvforgeToken => secrets::envforge_token(line),
            Detector::GithubToken => secrets::github_token(line),
            Detector::GoogleApiKey => secrets::google_api_key(line),
            Detector::GoogleServiceAccount => secrets::google_service_account(line),
            Detector::JwtLikeToken => secrets::jwt_like_token(line),
            Detector::NpmToken => secrets::npm_token(line),
            Detector::OpenaiToken => secrets::openai_token(line),
            Detector::PrivateKey => secrets::private_key_header(line),
            Detector::SensitiveAssignment => sensitive_assignment(line, high_entropy),
            Detector::SignedUrl => secrets::signed_url(line),
            Detector::SlackToken => secrets::slack_token(line),
            Detector::StripeSecretKey => secrets::stripe_secret_key(line),
        }
    }

    /// The label under which the detector reports.
    pub fn name(self) -> (r: &'static str)
        ensures
            r@ == self.label(),
    {
        match self {
            Detector::AwsAccessKeyId => "aws-access-key-id",
            Detector::BearerToken => "bearer-token",
            Detector::DatabaseUrl => "database-url",
            Detector::EnvforgeToken => "envforge-token",
            Detector::GithubToken => "github-token",
            Detector::GoogleApiKey => "google-api-key",
            Detector::GoogleServiceAccount => "google-service-account",
            Detector::JwtLikeToken => "jwt-like-token",
            Detector::NpmToken => "npm-token",
            Detector::OpenaiToken => "openai-token",
            Detector::PrivateKey => "private-key",
            Detector::SensitiveAssignment => "sensitive-assignment",
            Detector::SignedUrl => "signed-url",
            Detector::SlackToken => "slack-token",
            Detector::StripeSecretKey => "stripe-secret-key",
        }
    }

    /// Tests whether the detector finds something on `line`.
    pub fn matches(self, line: &[char], high_entropy: bool) -> (r: bool)
        ensures
            r == self.finds(line@, high_entropy),
    {
        match self {
            Detector::AwsAccessKeyId => secrets::contains_aws_access_key_id(line),
            Detector::BearerToken => secrets::contains_bearer_token(line),
            Detector::DatabaseUrl => secrets::contains_database_url(line),
            Detector::EnvforgeToken => secrets::contains_envforge_token(line),
            Detector::GithubToken => secrets::contains_github_token(line),
            Detector::GoogleApiKey => secrets::contains_google_api_key(line),
            Detector::GoogleServiceAccount => secrets::contains_google_service_account_marker(line),
            Detector::JwtLikeToken => secrets::contains_jwt_like_token(line),
            Detector::NpmToken => secrets::contains_npm_token(line),
            Detector::OpenaiToken => secrets::contains_openai_token(line),
            Detector::PrivateKey => secrets::contains_private_key_header(line),
            Detector::SensitiveAssignment => contains_sensitive_assignment(line, high_entropy),
            Detector::SignedUrl => secrets::contains_signed_url_secret(line),
            Detector::SlackToken => secrets::contains_slack_token(line),
            Detector::StripeSecretKey => secrets::contains_stripe_secret_key(line),
        }
    }
}

/// The verdict on the entropy of line `i`: not high where none was given.
pub open spec fn verdict(high_entropy: Seq<bool>, i: int) -> bool {
    0 <= i < high_entropy.len() && high_entropy[i]
}

/// The first line from `from` on, counted from zero, on which `detector` finds something.
pub open spec fn first_line_from(
    detector: Detector,
    lines: Seq<Seq<char>>,
    high_entropy: Seq<bool>,
    from: int,
) -> Option<int>
    decreases lines.len() - from,
{
    if from < 0 || from >= lines.len() {
        None
    } else if detector.finds(lines[from], verdict(high_entropy, from)) {
        Some(from)
    } else {
        first_line_from(detector, lines, high_entropy, from + 1)
    }
}

/// The label of `detector` and the first line of `body` on which it finds something, counted
/// from one.
pub open spec fn detection(
    detector: Detector,
    body: Seq<char>,
    high_entropy: Seq<bool>,
) -> Option<(Seq<char>, nat)> {
    match first_line_from(detector, text::lines(body), high_entropy, 0) {
        Some(i) => Some((detector.label(), (i + 1) as nat)),
        None => None,
    }
}

/// The rule that turns detectors into detections.
pub open spec fn detection_rule(body: Seq<char>, high_entropy: Seq<bool>) -> spec_fn(
    Detector,
) -> Option<(Seq<char>, nat)> {
    |detector: Detector| detection(detector, body, high_entropy)
}

/// Every detector that finds something in `body`, in ascending order of the labels, with the
/// first line on which it does.
pub open spec fn detections(body: Seq<char>, high_entropy: Seq<bool>) -> Seq<(Seq<char>, nat)> {
    Detector::all().filter_map(detection_rule(body, high_entropy))
}

/// The labels and lines of detections.
pub open spec fn detection_texts(v: Seq<PatternDetection>) -> Seq<(Seq<char>, nat)> {
    v.map_values(|d: PatternDetection| (d.name@, d.line as nat))
}

/// Tests whether `key` names something that has to be kept secret.
pub fn is_sensitive_key(key: &[char]) -> (r: bool)
    ensures
        r == sensitive_key(key@),
{
    let trimmed = text::trim_white(key);
    let mut words: Vec<char> = Vec::new();
    let mut i: usize = 0;
    while i < trimmed.len()
        invariant
            i <= trimmed@.len(),
            trimmed@ == text::trim(key@),
            words@ == key_words(key@).take(i as int),
        decreases trimmed@.len() - i,
    {
        let c = if text::is_ascii_alphanumeric(trimmed[i]) {
            text::to_upper_char(trimmed[i])
        } else {
            '_'
        };
        words.push(c);
        assert(words@ == key_words(key@).take(i + 1));
        i = i + 1;
    }
    assert(words@ == key_words(key@));
    text::contains(&words, "SECRET") || text::contains(&words, "TOKEN") || text::contains(
        &words,
        "PASSWORD",
    ) || text::contains(&words, "API_KEY") || text::contains(&words, "APIKEY") || text::contains(
        &words,
        "DATABASE_URL",
    ) || text::contains(&words, "PRIVATE_KEY") || text::contains(&words, "ACCESS_KEY")
        || text::contains(&words, "AUTHORIZATION")
}

/// How many of the four kinds of characters stand in `token`.
pub fn token_variety(token: &[char]) -> (r: usize)
    ensures
        r == variety(token@),
{
    let mut lower = false;
    let mut upper = false;
    let mut digit = false;
    let mut other = false;
    let mut i: usize = 0;
    while i < token.len()
        invariant
            i <= token@.len(),
            lower == exists|k: int| 0 <= k < i && text::ascii_lower(#[trigger] token@[k]),
            upper == exists|k: int| 0 <= k < i && text::ascii_upper(#[trigger] token@[k]),
            digit == exists|k: int| 0 <= k < i && text::ascii_digit(#[trigger] token@[k]),
            other == exists|k: int| 0 <= k < i && symbol(#[trigger] token@[k]),
        decreases token@.len() - i,
    {
        let c = token[i];
        assert(token@[i as int] == c);
        if 'a' <= c && c <= 'z' {
            lower = true;
        } else if 'A' <= c && c <= 'Z' {
            upper = true;
        } else if '0' <= c && c <= '9' {
            digit = true;
        } else {
            other = true;
        }
        i = i + 1;
    }
    let mut count: usize = 0;
    if lower {
        count = count + 1;
    }
    if upper {
        count = count + 1;
    }
    if digit {
        count = count + 1;
    }
    if other {
        count = count + 1;
    }
    count
}

/// The bytes with the value `b` pass.
pub open spec fn byte_rule(b: int) -> spec_fn(u8) -> bool {
    |byte: u8| byte as int == b
}

/// How often the byte with the value `b` stands in `bytes`.
pub open spec fn occurrences(bytes: Seq<u8>, b: int) -> nat {
    bytes.filter(byte_rule(b)).len()
}

/// How often every byte stands in `bytes`.
pub fn byte_counts(bytes: &[u8]) -> (r: Vec<usize>)
    ensures
        r@.len() == 256,
        forall|b: int| 0 <= b < 256 ==> #[trigger] r@[b] == occurrences(bytes@, b),
{
    let mut r: Vec<usize> = Vec::new();
    while r.len() < 256
        invariant
            r@.len() <= 256,
            forall|b: int| 0 <= b < r@.len() ==> #[trigger] r@[b] == 0,
        decreases 256 - r@.len(),
    {
        r.push(0);
    }
    let mut i: usize = 0;
    proof {
        assert(bytes@.take(0) == Seq::<u8>::empty());
        reveal(Seq::filter);
    }
    while i < bytes.len()
        invariant
            i <= bytes.len(),
            r@.len() == 256,
            forall|b: int|
                0 <= b < 256 ==> #[trigger] r@[b] == occurrences(bytes@.take(i as int), b),
        decreases bytes@.len() - i,
    {
        let byte = bytes[i];
        let ghost before = r@;
        proof {
            assert(bytes@.take(i + 1).drop_last() == bytes@.take(i as int));
            bytes@.take(i as int).lemma_filter_len(byte_rule(byte as int));
            assert(before[byte as int] <= i);
        }
        let count = r[byte as usize];
        r.set(byte as usize, count + 1);
        proof {
            reveal(Seq::filter);
            assert forall|b: int| 0 <= b < 256 implies #[trigger] r@[b] == occurrences(
                bytes@.take(i + 1),
                b,
            ) by {
                assert(before[b] == occurrences(bytes@.take(i as int), b));
            }
        }
        i = i + 1;
    }
    assert(bytes@.take(i as int) == bytes@);
    r
}

/// The value that `line` assigns to a sensitive key, where it is a secret if its entropy is
/// high.
pub fn find_suspect_value<'a>(line: &'a [char]) -> (r: Option<&'a [char]>)
    ensures
        match r {
            Some(value) => suspect_value(line@) == Some(value@),
            None => suspect_value(line@) is None,
        },
{
    match dotenv::split_at_equals(line) {
        None => None,
        Some((key, assigned)) => {
            let value = dotenv::strip_quotes(assigned);
            if is_sensitive_key(key) && text::has_bytes(value, 20) && token_variety(value) >= 3
                && !dotenv::example_value_is_safe(text::trim_white(key), value) {
                Some(value)
            } else {
                None
            }
        },
    }
}

/// Tests whether `line` assigns a secret to a sensitive key, given whether the entropy of the
/// suspect value is high.
pub fn contains_sensitive_assignment(line: &[char], high_entropy: bool) -> (r: bool)
    ensures
        r == sensitive_assignment(line@, high_entropy),
{
    match find_suspect_value(line) {
        Some(_) => high_entropy,
        None => false,
    }
}

/// The value of `line` whose entropy decides whether it is a secret, as text.
pub open spec fn suspect_values(body: Seq<char>) -> Seq<Option<Seq<char>>> {
    text::lines(body).map_values(|line: Seq<char>| suspect_value(line))
}

/// The contents of an optional string.
pub open spec fn option_text(v: Option<String>) -> Option<Seq<char>> {
    match v {
        Some(s) => Some(s@),
        None => None,
    }
}

/// The contents of optional strings.
pub open spec fn option_texts(v: Seq<Option<String>>) -> Seq<Option<Seq<char>>> {
    v.map_values(|p: Option<String>| option_text(p))
}

/// For every line of `body` the value whose entropy decides whether it is a secret.
pub fn find_suspect_values(body: &str) -> (r: Vec<Option<String>>)
    ensures
        option_texts(r@) == suspect_values(body@),
{
    let chars = text::chars_of(body);
    let lines = text::split_lines(&chars);
    let ghost all = text::lines(body@);
    let mut r: Vec<Option<String>> = Vec::new();
    let mut i: usize = 0;
    while i < lines.len()
        invariant
            i <= lines@.len(),
            all == text::lines(body@),
            text::contents(lines@) == all,
            option_texts(r@) == suspect_values(body@).take(i as int),
        decreases lines@.len() - i,
    {
        assert(lines@[i as int]@ == all[i as int]);
        let found = match find_suspect_value(lines[i]) {
            Some(value) => Some(text::string_of(value)),
            None => None,
        };
        assert(option_text(found) == suspect_value(all[i as int]));
        assert(option_texts(r@.push(found)) == option_texts(r@).push(option_text(found)));
        r.push(found);
        assert(option_texts(r@) == suspect_values(body@).take(i + 1));
        i = i + 1;
    }
    assert(suspect_values(body@).take(i as int) == suspect_values(body@));
    r
}

/// The first line on which `detector` finds something, counted from zero.
fn first_line(detector: Detector, lines: &Vec<&[char]>, high_entropy: &[bool]) -> (r: Option<usize>)
    ensures
        match r {
            Some(i) => first_line_from(
                detector,
                text::contents(lines@),
                high_entropy@,
                0,
            ) == Some(i as int) && i < lines@.len(),
            None => first_line_from(
                detector,
                text::contents(lines@),
                high_entropy@,
                0,
            ) is None,
        },
{
    let ghost all = text::contents(lines@);
    let mut i: usize = 0;
    while i < lines.len()
        invariant
            i <= lines@.len(),
            all == text::contents(lines@),
            first_line_from(detector, all, high_entropy@, 0) == first_line_from(
                detector,
                all,
                high_entropy@,
                i as int,
            ),
        decreases lines@.len() - i,
    {
        let high = i < high_entropy.len() && high_entropy[i];
        assert(lines@[i as int]@ == all[i as int]);
        if detector.matches(lines[i], high) {
            return Some(i);
        }
        i = i + 1;
    }
    None
}

/// The detectors in the order in which they report.
fn all_detectors() -> (r: [Detector; 15])
    ensures
        r@ == Detector::all(),
{
    [
        Detector::AwsAccessKeyId,
        Detector::BearerToken,
        Detector::DatabaseUrl,
        Detector::EnvforgeToken,
        Detector::GithubToken,
        Detector::GoogleApiKey,
        Detector::GoogleServiceAccount,
        Detector::JwtLikeToken,
        Detector::NpmToken,
        Detector::OpenaiToken,
        Detector::PrivateKey,
        Detector::SensitiveAssignment,
        Detector::SignedUrl,
        Detector::SlackToken,
        Detector::StripeSecretKey,
    ]
}

/// Every detector that finds something in `body`, in ascending order of the labels, with the
/// first line on which it does. `high_entropy` holds for every line whether the entropy of
/// its suspect value is high.
pub fn detect_secret_patterns(body: &str, high_entropy: &[bool]) -> (r: Vec<PatternDetection>)
    ensures
        detection_texts(r@) == detections(body@, high_entropy@),
{
    let chars = text::chars_of(body);
    let lines = text::split_lines(&chars);
    let detectors = all_detectors();
    let ghost all = Detector::all();
    let ghost rule = detection_rule(body@, high_entropy@);
    let mut r: Vec<PatternDetection> = Vec::new();
    let mut i: usize = 0;
    assert(all.take(0) == Seq::<Detector>::empty());
    while i < detectors.len()
        invariant
            i <= 15,
            detectors@ == all,
            all.len() == 15,
            text::contents(lines@) == text::lines(body@),
            rule == detection_rule(body@, high_entropy@),
            detection_texts(r@) == all.take(i as int).filter_map(rule),
        decreases 15 - i,
    {
        let detector = detectors[i];
        proof {
            assert(all.take(i + 1).drop_last() == all.take(i as int));
            assert(rule(detector) == detection(detector, body@, high_entropy@));
        }
        match first_line(detector, &lines, high_entropy) {
            Some(line) => {
                assert(line < lines.len());
                let found = PatternDetection { name: detector.name(), line: line + 1 };
                assert(detection_texts(r@.push(found)) == detection_texts(r@).push(
                    (found.name@, found.line as nat),
                ));
                r.push(found);
            },
            None => {},
        }
        i = i + 1;
    }
    assert(all.take(i as int) == all);
    r
}

/// A detector finds something in `s`, or would if the entropy of a value were high.
pub open spec fn reveals(s: Seq<char>) -> bool {
    exists|detector: Detector, k: int, high_entropy: bool|
        0 <= k < text::lines(s).len() && #[trigger] detector.finds(
            text::lines(s)[k],
            high_entropy,
        )
}

/// Tests whether a detector finds something on `line`, or would if the entropy of its value were
/// high.
fn any_detector_matches(line: &[char]) -> (r: bool)
    ensures
        r == exists|detector: Detector, high_entropy: bool| #[trigger]
            detector.finds(line@, high_entropy),
{
    let detectors = all_detectors();
    let ghost all = Detector::all();
    let mut i: usize = 0;
    while i < detectors.len()
        invariant
            i <= 15,
            detectors@ == all,
            all == Detector::all(),
            all.len() == 15,
            forall|m: int| 0 <= m < i ==> !(#[trigger] all[m]).finds(line@, true),
        decreases 15 - i,
    {
        if detectors[i].matches(line, true) {
            return true;
        }
        i = i + 1;
    }
    proof {
        assert forall|detector: Detector, high_entropy: bool| !#[trigger] detector.finds(
            line@,
            high_entropy,
        ) by {
            let m = lemma_position(detector);
            assert(!all[m].finds(line@, true));
        }
    }
    false
}

/// Tests whether a detector finds something in `s`, or would if the entropy of a value were high.
pub fn reveals_secret(s: &str) -> (r: bool)
    ensures
        r == reveals(s@),
{
    let chars = text::chars_of(s);
    let lines = text::split_lines(&chars);
    let ghost all = text::lines(s@);
    let mut k: usize = 0;
    while k < lines.len()
        invariant
            k <= lines@.len(),
            text::contents(lines@) == all,
            all == text::lines(s@),
            forall|m: int, detector: Detector, high_entropy: bool|
                0 <= m < k ==> !#[trigger] detector.finds(all[m], high_entropy),
        decreases lines@.len() - k,
    {
        assert(lines@[k as int]@ == all[k as int]);
        if any_detector_matches(lines[k]) {
            proof {
                let (detector, high_entropy) = choose|detector: Detector, high_entropy: bool|
                    #[trigger] detector.finds(all[k as int], high_entropy);
                assert(detector.finds(all[k as int], high_entropy));
            }
            return true;
        }
        k = k + 1;
    }
    false
}

/// Every detector is among those that report.
pub proof fn lemma_position(detector: Detector) -> (m: int)
    ensures
        0 <= m < Detector::all().len(),
        Detector::all()[m] == detector,
{
    match detector {
        Detector::AwsAccessKeyId => 0,
        Detector::BearerToken => 1,
        Detector::DatabaseUrl => 2,
        Detector::EnvforgeToken => 3,
        Detector::GithubToken => 4,
        Detector::GoogleApiKey => 5,
        Detector::GoogleServiceAccount => 6,
        Detector::JwtLikeToken => 7,
        Detector::NpmToken => 8,
        Detector::OpenaiToken => 9,
        Detector::PrivateKey => 10,
        Detector::SensitiveAssignment => 11,
        Detector::SignedUrl => 12,
        Detector::SlackToken => 13,
        Detector::StripeSecretKey => 14,
    }
}

} // verus!
