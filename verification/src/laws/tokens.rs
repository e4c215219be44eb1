//! Which lines hold a token, said in the characters of the line.
use crate::detect::Detector;
use crate::laws::characters;
use crate::laws::lines;
use crate::secrets;
use crate::text;
use crate::text::CharClass;
use vstd::prelude::*;

verus! {

/// The rule on the characters of a token.
pub open spec fn token_rule() -> spec_fn(char) -> bool {
    |c: char| characters::token_char(c)
}

/// At `i` a token begins that starts with `prefix` and has at least `least` characters: the
/// character in front of it, where there is one, cannot stand in a token.
pub open spec fn token_at(s: Seq<char>, prefix: Seq<char>, least: int, i: int) -> bool {
    &&& 0 <= i
    &&& i + least <= s.len()
    &&& i > 0 ==> !characters::token_char(s[i - 1])
    &&& forall|k: int| i <= k < i + least ==> characters::token_char(#[trigger] s[k])
    &&& prefix.len() <= least
    &&& s.subrange(i, i + prefix.len()) == prefix
}

/// A token that starts with `prefix` and has at least `least` characters stands in `s`.
pub open spec fn token_in(s: Seq<char>, prefix: Seq<char>, least: int) -> bool {
    exists|i: int| token_at(s, prefix, least, i)
}

/// Each detector of prefixed tokens finds something exactly where a token with one of its
/// prefixes stands that is long enough. There is no greatest length.
pub proof fn law_prefixed_tokens(line: Seq<char>, high_entropy: bool)
    ensures
        Detector::OpenaiToken.finds(line, high_entropy) <==> token_in(line, "sk-"@, 24),
        Detector::GithubToken.finds(line, high_entropy) <==> (token_in(line, "ghp_"@, 32)
            || token_in(line, "gho_"@, 32) || token_in(line, "ghu_"@, 32) || token_in(
            line,
            "ghs_"@,
            32,
        ) || token_in(line, "github_pat_"@, 32)),
        Detector::SlackToken.finds(line, high_entropy) <==> (token_in(line, "xoxb-"@, 24)
            || token_in(line, "xoxa-"@, 24) || token_in(line, "xoxp-"@, 24) || token_in(
            line,
            "xoxr-"@,
            24,
        ) || token_in(line, "xoxs-"@, 24)),
        Detector::NpmToken.finds(line, high_entropy) <==> token_in(line, "npm_"@, 32),
        Detector::StripeSecretKey.finds(line, high_entropy) <==> (token_in(line, "sk_live_"@, 24)
            || token_in(line, "rk_live_"@, 24)),
        Detector::EnvforgeToken.finds(line, high_entropy) <==> (token_in(line, "efp__"@, 32)
            || token_in(line, "eft__"@, 32) || token_in(line, "efu__"@, 32)),
{
    reveal_strlit("sk-");
    reveal_strlit("ghp_");
    reveal_strlit("gho_");
    reveal_strlit("ghu_");
    reveal_strlit("ghs_");
    reveal_strlit("github_pat_");
    reveal_strlit("xoxb-");
    reveal_strlit("xoxa-");
    reveal_strlit("xoxp-");
    reveal_strlit("xoxr-");
    reveal_strlit("xoxs-");
    reveal_strlit("npm_");
    reveal_strlit("sk_live_");
    reveal_strlit("rk_live_");
    reveal_strlit("efp__");
    reveal_strlit("eft__");
    reveal_strlit("efu__");
    assert(secrets::openai_token(line) <==> token_in(line, "sk-"@, 24)) by {
        law_token_search(line, seq!["sk-"@], 24);
        assert(seq!["sk-"@][0] == "sk-"@);
    }
    assert(secrets::npm_token(line) <==> token_in(line, "npm_"@, 32)) by {
        law_token_search(line, seq!["npm_"@], 32);
        assert(seq!["npm_"@][0] == "npm_"@);
    }
    assert(secrets::stripe_secret_key(line) <==> (token_in(line, "sk_live_"@, 24) || token_in(
        line,
        "rk_live_"@,
        24,
    ))) by {
        let all = seq!["sk_live_"@, "rk_live_"@];
        law_token_search(line, all, 24);
        assert(all[0] == "sk_live_"@ && all[1] == "rk_live_"@);
    }
    assert(secrets::envforge_token(line) <==> (token_in(line, "efp__"@, 32) || token_in(
        line,
        "eft__"@,
        32,
    ) || token_in(line, "efu__"@, 32))) by {
        let all = seq!["efp__"@, "eft__"@, "efu__"@];
        law_token_search(line, all, 32);
        assert(all[0] == "efp__"@ && all[1] == "eft__"@ && all[2] == "efu__"@);
    }
    assert(secrets::github_token(line) <==> (token_in(line, "ghp_"@, 32) || token_in(
        line,
        "gho_"@,
        32,
    ) || token_in(line, "ghu_"@, 32) || token_in(line, "ghs_"@, 32) || token_in(
        line,
        "github_pat_"@,
        32,
    ))) by {
        let all = seq!["ghp_"@, "gho_"@, "ghu_"@, "ghs_"@, "github_pat_"@];
        law_token_search(line, all, 32);
        assert(all[0] == "ghp_"@ && all[1] == "gho_"@ && all[2] == "ghu_"@ && all[3] == "ghs_"@
            && all[4] == "github_pat_"@);
    }
    assert(secrets::slack_token(line) <==> (token_in(line, "xoxb-"@, 24) || token_in(
        line,
        "xoxa-"@,
        24,
    ) || token_in(line, "xoxp-"@, 24) || token_in(line, "xoxr-"@, 24) || token_in(
        line,
        "xoxs-"@,
        24,
    ))) by {
        let all = seq!["xoxb-"@, "xoxa-"@, "xoxp-"@, "xoxr-"@, "xoxs-"@];
        law_token_search(line, all, 24);
        assert(all[0] == "xoxb-"@ && all[1] == "xoxa-"@ && all[2] == "xoxp-"@ && all[3]
            == "xoxr-"@ && all[4] == "xoxs-"@);
    }
}

/// A search for prefixed tokens succeeds exactly where a token with one of the prefixes stands that
/// has the least length or more.
pub proof fn law_token_search(s: Seq<char>, prefixes: Seq<Seq<char>>, least: nat)
    requires
        least > 0,
        forall|j: int| 0 <= j < prefixes.len() ==> #[trigger] prefixes[j].len() <= least,
    ensures
        secrets::prefixed_token(s, prefixes, least) <==> exists|j: int|
            0 <= j < prefixes.len() && token_in(s, #[trigger] prefixes[j], least as int),
{
    let class = CharClass::Token;
    let rule = token_rule();
    let tokens = text::pieces(s, class);
    assert(characters::same_rule(class, rule));
    if secrets::prefixed_token(s, prefixes, least) {
        let n = choose|n: int|
            0 <= n < tokens.len() && secrets::has_token_prefix(
                #[trigger] tokens[n],
                prefixes,
                least,
            );
        let (i, j) = characters::law_piece_stands_alone(s, class, rule, n);
        let token = tokens[n];
        assert forall|k: int| 0 <= k < token.len() implies characters::token_char(
            #[trigger] token[k],
        ) by {
            assert(rule(s[i + k]));
        }
        characters::law_ascii_length(token);
        let p = choose|p: int|
            0 <= p < prefixes.len() && text::starts_with(token, #[trigger] prefixes[p]);
        assert forall|k: int| i <= k < i + least implies characters::token_char(
            #[trigger] s[k],
        ) by {
            assert(rule(s[k]));
        }
        assert(s.subrange(i, i + prefixes[p].len()) =~= token.subrange(
            0,
            prefixes[p].len() as int,
        ));
        assert(token_at(s, prefixes[p], least as int, i));
    }
    if exists|p: int| 0 <= p < prefixes.len() && token_in(s, #[trigger] prefixes[p], least as int) {
        let p = choose|p: int|
            0 <= p < prefixes.len() && token_in(s, #[trigger] prefixes[p], least as int);
        let i = choose|i: int| token_at(s, prefixes[p], least as int, i);
        let (n, token) = lemma_token_there(s, prefixes[p], least as int, i);
        assert(secrets::has_token_prefix(tokens[n], prefixes, least));
    }
}

proof fn lemma_token_there(s: Seq<char>, prefix: Seq<char>, least: int, i: int) -> (r: (
    int,
    Seq<char>,
))
    requires
        token_at(s, prefix, least, i),
    ensures
        0 <= r.0 < text::pieces(s, CharClass::Token).len(),
        text::pieces(s, CharClass::Token)[r.0] == r.1,
        r.1.len() >= least,
        text::byte_len(r.1) == r.1.len(),
        text::starts_with(r.1, prefix),
{
    let class = CharClass::Token;
    let rule = token_rule();
    let rest = s.skip(i);
    let end = i + text::run(rest, class);
    lines::lemma_run(rest, class);
    if end - i < least {
        assert(rest[end - i] == s[end]);
        assert(characters::token_char(s[end]));
    }
    assert forall|k: int| i <= k < end implies rule(#[trigger] s[k]) by {
        assert(class.holds(rest[k - i]));
    }
    if end < s.len() {
        assert(rest[end - i] == s[end]);
    }
    assert(characters::stands_alone(s, rule, i, end));
    let n = characters::law_what_stands_alone_is_a_piece(s, class, rule, i, end);
    let token = s.subrange(i, end);
    assert forall|k: int| 0 <= k < token.len() implies characters::token_char(
        #[trigger] token[k],
    ) by {
        assert(rule(s[i + k]));
    }
    characters::law_ascii_length(token);
    assert(token.subrange(0, prefix.len() as int) =~= s.subrange(i, i + prefix.len()));
    (n, token)
}

/// A line made of a prefix and of letters and digits, as many as reach the least length of the
/// detector or any more, is found by the detector of that prefix.
pub proof fn law_token_lines_are_found(t: Seq<char>, high_entropy: bool)
    requires
        characters::all_letters_or_digits(t),
    ensures
        t.len() >= 21 ==> Detector::OpenaiToken.finds("sk-"@ + t, high_entropy),
        t.len() >= 28 ==> Detector::GithubToken.finds("ghp_"@ + t, high_entropy),
        t.len() >= 28 ==> Detector::GithubToken.finds("gho_"@ + t, high_entropy),
        t.len() >= 28 ==> Detector::GithubToken.finds("ghu_"@ + t, high_entropy),
        t.len() >= 28 ==> Detector::GithubToken.finds("ghs_"@ + t, high_entropy),
        t.len() >= 21 ==> Detector::GithubToken.finds("github_pat_"@ + t, high_entropy),
        t.len() >= 19 ==> Detector::SlackToken.finds("xoxb-"@ + t, high_entropy),
        t.len() >= 19 ==> Detector::SlackToken.finds("xoxa-"@ + t, high_entropy),
        t.len() >= 19 ==> Detector::SlackToken.finds("xoxp-"@ + t, high_entropy),
        t.len() >= 19 ==> Detector::SlackToken.finds("xoxr-"@ + t, high_entropy),
        t.len() >= 19 ==> Detector::SlackToken.finds("xoxs-"@ + t, high_entropy),
        t.len() >= 28 ==> Detector::NpmToken.finds("npm_"@ + t, high_entropy),
        t.len() >= 16 ==> Detector::StripeSecretKey.finds("sk_live_"@ + t, high_entropy),
        t.len() >= 16 ==> Detector::StripeSecretKey.finds("rk_live_"@ + t, high_entropy),
        t.len() >= 27 ==> Detector::EnvforgeToken.finds("efp__"@ + t, high_entropy),
        t.len() >= 27 ==> Detector::EnvforgeToken.finds("eft__"@ + t, high_entropy),
        t.len() >= 27 ==> Detector::EnvforgeToken.finds("efu__"@ + t, high_entropy),
{
    reveal_strlit("sk-");
    lemma_token_line("sk-"@, t, 24);
    reveal_strlit("ghp_");
    lemma_token_line("ghp_"@, t, 32);
    reveal_strlit("gho_");
    lemma_token_line("gho_"@, t, 32);
    reveal_strlit("ghu_");
    lemma_token_line("ghu_"@, t, 32);
    reveal_strlit("ghs_");
    lemma_token_line("ghs_"@, t, 32);
    reveal_strlit("github_pat_");
    lemma_token_line("github_pat_"@, t, 32);
    reveal_strlit("xoxb-");
    lemma_token_line("xoxb-"@, t, 24);
    reveal_strlit("xoxa-");
    lemma_token_line("xoxa-"@, t, 24);
    reveal_strlit("xoxp-");
    lemma_token_line("xoxp-"@, t, 24);
    reveal_strlit("xoxr-");
    lemma_token_line("xoxr-"@, t, 24);
    reveal_strlit("xoxs-");
    lemma_token_line("xoxs-"@, t, 24);
    reveal_strlit("npm_");
    lemma_token_line("npm_"@, t, 32);
    reveal_strlit("sk_live_");
    lemma_token_line("sk_live_"@, t, 24);
    reveal_strlit("rk_live_");
    lemma_token_line("rk_live_"@, t, 24);
    reveal_strlit("efp__");
    lemma_token_line("efp__"@, t, 32);
    reveal_strlit("eft__");
    lemma_token_line("eft__"@, t, 32);
    reveal_strlit("efu__");
    lemma_token_line("efu__"@, t, 32);
    law_prefixed_tokens("sk-"@ + t, high_entropy);
    law_prefixed_tokens("ghp_"@ + t, high_entropy);
    law_prefixed_tokens("gho_"@ + t, high_entropy);
    law_prefixed_tokens("ghu_"@ + t, high_entropy);
    law_prefixed_tokens("ghs_"@ + t, high_entropy);
    law_prefixed_tokens("github_pat_"@ + t, high_entropy);
    law_prefixed_tokens("xoxb-"@ + t, high_entropy);
    law_prefixed_tokens("xoxa-"@ + t, high_entropy);
    law_prefixed_tokens("xoxp-"@ + t, high_entropy);
    law_prefixed_tokens("xoxr-"@ + t, high_entropy);
    law_prefixed_tokens("xoxs-"@ + t, high_entropy);
    law_prefixed_tokens("npm_"@ + t, high_entropy);
    law_prefixed_tokens("sk_live_"@ + t, high_entropy);
    law_prefixed_tokens("rk_live_"@ + t, high_entropy);
    law_prefixed_tokens("efp__"@ + t, high_entropy);
    law_prefixed_tokens("eft__"@ + t, high_entropy);
    law_prefixed_tokens("efu__"@ + t, high_entropy);
}

proof fn lemma_token_line(prefix: Seq<char>, t: Seq<char>, least: int)
    requires
        prefix.len() <= least,
        forall|k: int| 0 <= k < prefix.len() ==> characters::token_char(#[trigger] prefix[k]),
        characters::all_letters_or_digits(t),
    ensures
        prefix.len() + t.len() >= least ==> token_in(prefix + t, prefix, least),
{
    if prefix.len() + t.len() >= least {
        let s = prefix + t;
        assert forall|k: int| 0 <= k < least implies characters::token_char(#[trigger] s[k]) by {
            if k < prefix.len() {
                assert(s[k] == prefix[k]);
            } else {
                assert(s[k] == t[k - prefix.len()]);
            }
        }
        assert(s.subrange(0, prefix.len() as int) =~= prefix);
        assert(token_at(s, prefix, least, 0));
    }
}

/// The detectors of tokens that are told by a prefix.
pub open spec fn by_prefix(detector: Detector) -> bool {
    ||| detector == Detector::OpenaiToken
    ||| detector == Detector::GithubToken
    ||| detector == Detector::SlackToken
    ||| detector == Detector::NpmToken
    ||| detector == Detector::StripeSecretKey
    ||| detector == Detector::EnvforgeToken
}

/// A line on which a prefixed token is found stays one whatever is appended to it, letters and
/// digits that make the token longer included, and whatever is put in front of it and ends in a
/// character that cannot stand in a token.
pub proof fn law_found_tokens_stay_found(
    detector: Detector,
    before: Seq<char>,
    c: char,
    line: Seq<char>,
    after: Seq<char>,
    high_entropy: bool,
)
    requires
        by_prefix(detector),
        detector.finds(line, high_entropy),
        !characters::token_char(c),
    ensures
        detector.finds(line + after, high_entropy),
        detector.finds(before + seq![c] + line, high_entropy),
        detector.finds(before + seq![c] + line + after, high_entropy),
{
    let longer = line + after;
    let moved = before + seq![c] + line;
    let both = before + seq![c] + line + after;
    law_prefixed_tokens(line, high_entropy);
    law_prefixed_tokens(longer, high_entropy);
    law_prefixed_tokens(moved, high_entropy);
    law_prefixed_tokens(both, high_entropy);
    assert forall|prefix: Seq<char>, least: int| #[trigger]
        token_in(line, prefix, least) implies token_in(longer, prefix, least) && token_in(
        moved,
        prefix,
        least,
    ) && token_in(both, prefix, least) by {
        let i = choose|i: int| token_at(line, prefix, least, i);
        lemma_token_within(line, Seq::empty(), after, prefix, least, i);
        assert(Seq::<char>::empty() + line + after =~= longer);
        lemma_token_within(line, before + seq![c], Seq::empty(), prefix, least, i);
        assert(before + seq![c] + line + Seq::<char>::empty() =~= moved);
        lemma_token_within(line, before + seq![c], after, prefix, least, i);
    }
}

proof fn lemma_token_within(
    line: Seq<char>,
    before: Seq<char>,
    after: Seq<char>,
    prefix: Seq<char>,
    least: int,
    i: int,
)
    requires
        token_at(line, prefix, least, i),
        before.len() > 0 ==> !characters::token_char(before.last()),
    ensures
        token_in(before + line + after, prefix, least),
{
    let s = before + line + after;
    let n = before.len() + i;
    assert forall|k: int| n <= k < n + least implies characters::token_char(#[trigger] s[k]) by {
        assert(s[k] == line[k - before.len()]);
    }
    if n > 0 {
        if i == 0 {
            assert(s[n - 1] == before.last());
        } else {
            assert(s[n - 1] == line[i - 1]);
        }
    }
    assert(s.subrange(n, n + prefix.len()) =~= line.subrange(i, i + prefix.len()));
    assert(token_at(s, prefix, least, n));
}

/// A line that is too short holds no prefixed token.
pub proof fn law_short_lines_hold_no_token(detector: Detector, line: Seq<char>, high_entropy: bool)
    requires
        by_prefix(detector),
        detector.finds(line, high_entropy),
    ensures
        line.len() >= 24,
        detector == Detector::GithubToken || detector == Detector::NpmToken || detector
            == Detector::EnvforgeToken ==> line.len() >= 32,
{
    law_prefixed_tokens(line, high_entropy);
}

} // verus!
