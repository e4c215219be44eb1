//! Which files and which of their lines the rules mean, said in names and characters.
use crate::checks;
use crate::dotenv;
use crate::laws::characters;
use crate::laws::lines;
use crate::paths;
use crate::report;
use crate::text;
use crate::text::CharClass;
use vstd::prelude::*;

verus! {

/// The rule on the characters of a word of a script.
pub open spec fn word_rule() -> spec_fn(char) -> bool {
    |c: char| !characters::script_separator(c)
}

/// The rule on the characters of a line.
pub open spec fn line_rule() -> spec_fn(char) -> bool {
    |c: char| c != '\n'
}

/// `path` ends in the component `name`.
pub open spec fn has_name(path: Seq<char>, name: Seq<char>) -> bool {
    &&& forall|k: int| 0 <= k < name.len() ==> #[trigger] name[k] != '/'
    &&& path == name || characters::ends(path, seq!['/'] + name)
}

/// The base name of a path is the component in which it ends.
pub proof fn law_names(path: Seq<char>, name: Seq<char>)
    ensures
        text::base_name(path) == name <==> has_name(path, name),
        has_name(path, text::base_name(path)),
{
    let class = CharClass::NotSlash;
    let base = text::base_name(path);
    lines::lemma_pieces_hold(path, class);
    let parts = text::pieces(path, class);
    assert forall|k: int| 0 <= k < base.len() implies #[trigger] base[k] != '/' by {
        assert(class.holds(parts[parts.len() - 1][k]));
    }
    lemma_last_piece(path);
    if has_name(path, name) {
        if name.contains('/') {
            let k = choose|k: int| 0 <= k < name.len() && name[k] == '/';
        }
        let tail = seq!['/'] + name;
        if path == name {
            characters::law_base_name(Seq::empty(), name);
        } else {
            let dir = path.take(path.len() - tail.len());
            assert(path =~= dir + path.skip(path.len() - tail.len()));
            assert(dir + tail =~= dir + seq!['/'] + name);
            characters::law_base_name(dir, name);
        }
    }
}

proof fn lemma_last_piece(path: Seq<char>)
    ensures
        ({
            let base = text::base_name(path);
            path == base || characters::ends(path, seq!['/'] + base)
        }),
    decreases path.len(),
{
    let class = CharClass::NotSlash;
    let n = text::run(path, class) as int;
    lines::lemma_run(path, class);
    if n < path.len() {
        let rest = path.skip(n + 1);
        lemma_last_piece(rest);
        lines::lemma_pieces_hold(rest, class);
        let base = text::base_name(path);
        assert(base == text::base_name(rest));
        let tail = seq!['/'] + base;
        if rest == base {
            assert(path.skip(path.len() - tail.len()) =~= tail);
        } else {
            assert(path.skip(path.len() - tail.len()) =~= rest.skip(rest.len() - tail.len()));
        }
    }
}

/// A file called `name` is a dotenv file that holds values where the name is `.env` or starts
/// with `.env.` and holds none of `.example`, `.sample` and `template`; it is an example where the
/// name holds `.example` or `.sample`. The directory plays no part.
pub proof fn law_dotenv_names(dir: Seq<char>, name: Seq<char>)
    requires
        !name.contains('/'),
    ensures
        ({
            let example = characters::stands_in(name, ".example"@) || characters::stands_in(
                name,
                ".sample"@,
            );
            let value = (name == ".env"@ || characters::begins(name, ".env."@)) && !example
                && !characters::stands_in(name, "template"@);
            let path = dir + seq!['/'] + name;
            &&& dotenv::dotenv_example_path(name) <==> example
            &&& dotenv::dotenv_example_path(path) <==> example
            &&& dotenv::dotenv_value_path(name) <==> value
            &&& dotenv::dotenv_value_path(path) <==> value
        }),
{
    reveal_strlit(".env.example");
    reveal_strlit(".env.sample");
    reveal_strlit(".example");
    reveal_strlit(".sample");
    characters::law_base_name(dir, name);
    characters::law_occurrences_only_there(name, ".example"@, 0);
    characters::law_occurrences_only_there(name, ".sample"@, 0);
    characters::law_occurrences_only_there(name, "template"@, 0);
    characters::law_occurrences_only_there(name, ".env."@, 0);
    if name == ".env.example"@ {
        assert(name.subrange(4, 12) =~= ".example"@);
        assert(characters::stands_at(name, ".example"@, 4));
    }
    if name == ".env.sample"@ {
        assert(name.subrange(4, 11) =~= ".sample"@);
        assert(characters::stands_at(name, ".sample"@, 4));
    }
}

/// A script loads a dotenv file exactly where a word of it, between white space, quotes, `=` and
/// the ends of the script, is the path of one.
pub proof fn law_script_words(script: Seq<char>)
    ensures
        paths::loads_dotenv_value(script) <==> exists|i: int, j: int|
            #[trigger] characters::stands_alone(script, word_rule(), i, j)
                && dotenv::dotenv_value_path(script.subrange(i, j)),
{
    let class = CharClass::ScriptWord;
    let rule = word_rule();
    let words = text::pieces(script, class);
    assert(characters::same_rule(class, rule));
    if paths::loads_dotenv_value(script) {
        let n = choose|n: int|
            0 <= n < words.len() && dotenv::dotenv_value_path(#[trigger] words[n]);
        let (i, j) = characters::law_piece_stands_alone(script, class, rule, n);
        assert(characters::stands_alone(script, rule, i, j));
    }
    if exists|i: int, j: int| #[trigger]
        characters::stands_alone(script, rule, i, j) && dotenv::dotenv_value_path(
            script.subrange(i, j),
        ) {
        let (i, j) = choose|i: int, j: int| #[trigger]
            characters::stands_alone(script, rule, i, j) && dotenv::dotenv_value_path(
                script.subrange(i, j),
            );
        let n = characters::law_what_stands_alone_is_a_piece(script, class, rule, i, j);
        assert(dotenv::dotenv_value_path(words[n]));
    }
}

/// The path of a dotenv file between two separators, behind one at the end of a script, in front
/// of one at its start, or alone makes a script that loads a dotenv file, whatever else the
/// script holds.
pub proof fn law_scripts_with_dotenv_words(
    a: Seq<char>,
    c: char,
    word: Seq<char>,
    d: char,
    b: Seq<char>,
)
    requires
        characters::script_separator(c),
        characters::script_separator(d),
        forall|i: int| 0 <= i < word.len() ==> !characters::script_separator(#[trigger] word[i]),
        dotenv::dotenv_value_path(word),
    ensures
        paths::loads_dotenv_value(a + seq![c] + word + seq![d] + b),
        paths::loads_dotenv_value(a + seq![c] + word),
        paths::loads_dotenv_value(word + seq![d] + b),
        paths::loads_dotenv_value(word),
{
    let before = a + seq![c];
    let after = seq![d] + b;
    let none = Seq::<char>::empty();
    lemma_word_within(before, word, after);
    assert(before + word + after =~= a + seq![c] + word + seq![d] + b);
    lemma_word_within(before, word, none);
    assert(before + word + none =~= a + seq![c] + word);
    lemma_word_within(none, word, after);
    assert(none + word + after =~= word + seq![d] + b);
    lemma_word_within(none, word, none);
    assert(none + word + none =~= word);
}

proof fn lemma_word_within(before: Seq<char>, word: Seq<char>, after: Seq<char>)
    requires
        before.len() > 0 ==> characters::script_separator(before.last()),
        after.len() > 0 ==> characters::script_separator(after[0]),
        forall|i: int| 0 <= i < word.len() ==> !characters::script_separator(#[trigger] word[i]),
        dotenv::dotenv_value_path(word),
    ensures
        paths::loads_dotenv_value(before + word + after),
{
    let s = before + word + after;
    let rule = word_rule();
    let i = before.len() as int;
    let j = i + word.len();
    assert forall|k: int| i <= k < j implies rule(#[trigger] s[k]) by {
        assert(s[k] == word[k - i]);
    }
    if i > 0 {
        assert(s[i - 1] == before.last());
    }
    if j < s.len() {
        assert(s[j] == after[0]);
    }
    assert(s.subrange(i, j) =~= word);
    assert(characters::stands_alone(s, rule, i, j));
    law_script_words(s);
}

/// A script in which `.env` or `.env.local` follows white space, a quote or `=` loads a dotenv
/// file.
pub proof fn law_scripts_with_env_files(a: Seq<char>, c: char)
    requires
        characters::script_separator(c),
    ensures
        paths::loads_dotenv_value(a + seq![c] + ".env"@),
        paths::loads_dotenv_value(a + seq![c] + ".env.local"@),
        paths::loads_dotenv_value(a + "=.env"@),
        paths::loads_dotenv_value(a + " .env.production && next build"@),
{
    reveal_strlit(".env");
    reveal_strlit(".env.");
    reveal_strlit(".env.local");
    reveal_strlit(".env.production");
    reveal_strlit(" .env.production && next build");
    reveal_strlit("=.env");
    reveal_strlit(".example");
    reveal_strlit(".sample");
    reveal_strlit("template");
    let none = Seq::<char>::empty();
    let e = ".env"@;
    let l = ".env.local"@;
    let p = ".env.production"@;
    assert(!e.contains('/') && !l.contains('/') && !p.contains('/'));
    law_dotenv_names(none, e);
    law_dotenv_names(none, l);
    law_dotenv_names(none, p);
    assert(characters::begins(l, ".env."@)) by {
        assert(l.take(5) =~= ".env."@);
    }
    assert(characters::begins(p, ".env."@)) by {
        assert(p.take(5) =~= ".env."@);
    }
    lemma_lacks(e, ".example"@, 'x', 2);
    lemma_lacks(e, ".sample"@, 's', 1);
    lemma_lacks(e, "template"@, 't', 0);
    lemma_lacks(l, ".example"@, 'x', 2);
    lemma_lacks(l, ".sample"@, 's', 1);
    lemma_lacks(l, "template"@, 't', 0);
    lemma_lacks(p, ".example"@, 'x', 2);
    lemma_lacks(p, ".sample"@, 's', 1);
    lemma_lacks(p, "template"@, 'm', 2);
    law_scripts_with_dotenv_words(a, c, e, ' ', none);
    law_scripts_with_dotenv_words(a, c, l, ' ', none);
    law_scripts_with_dotenv_words(a, '=', e, ' ', none);
    assert(a + seq!['='] + e =~= a + "=.env"@);
    let rest = " .env.production && next build"@.skip(17);
    law_scripts_with_dotenv_words(a, ' ', p, ' ', rest);
    assert(a + seq![' '] + p + seq![' '] + rest =~= a + " .env.production && next build"@);
}

proof fn lemma_lacks(s: Seq<char>, part: Seq<char>, c: char, at: int)
    requires
        0 <= at < part.len(),
        part[at] == c,
        forall|i: int| 0 <= i < s.len() ==> #[trigger] s[i] != c,
    ensures
        !characters::stands_in(s, part),
{
    if characters::stands_in(s, part) {
        let i = choose|i: int| characters::stands_at(s, part, i);
        assert(s.subrange(i, i + part.len())[at] == s[i + at]);
    }
}

/// A script in which `.env` stands nowhere loads no dotenv file.
pub proof fn law_scripts_without_env(script: Seq<char>)
    requires
        !characters::stands_in(script, ".env"@),
    ensures
        !paths::loads_dotenv_value(script),
{
    reveal_strlit(".env");
    reveal_strlit(".env.");
    law_script_words(script);
    if paths::loads_dotenv_value(script) {
        let (i, j) = choose|i: int, j: int| #[trigger]
            characters::stands_alone(script, word_rule(), i, j) && dotenv::dotenv_value_path(
                script.subrange(i, j),
            );
        let word = script.subrange(i, j);
        let name = text::base_name(word);
        law_names(word, name);
        characters::law_occurrences_only_there(name, ".env."@, 0);
        assert(name.take(4) =~= ".env"@) by {
            if name != ".env"@ {
                assert(name.take(5).take(4) =~= name.take(4));
            }
        }
        let at = word.len() - name.len();
        if word != name {
            let tail = seq!['/'] + name;
            assert(word.skip(word.len() - tail.len()) == tail);
            assert forall|k: int| 0 <= k < name.len() implies word[at + k] == #[trigger] name[k] by {
                assert(tail[k + 1] == name[k]);
                assert(word.skip(word.len() - tail.len())[k + 1] == word[at + k]);
            }
        }
        assert(script.subrange(i + at, i + at + 4) =~= name.take(4));
        assert(characters::stands_at(script, ".env"@, i + at));
    }
}

/// At `i` stands `env_file:` with nothing but white space between it and the start of its line.
pub open spec fn env_file_at(body: Seq<char>, i: int) -> bool {
    &&& characters::stands_at(body, "env_file:"@, i)
    &&& exists|j: int|
        0 <= j <= i && (#[trigger] characters::all_blank(body.subrange(j, i))) && (j == 0 || body[j
            - 1] == '\n')
}

/// `line` starts with white space and `env_file:`.
pub open spec fn env_file_line(line: Seq<char>) -> bool {
    exists|n: int| #[trigger]
        characters::stands_at(line, "env_file:"@, n) && characters::all_blank(line.take(n))
}

proof fn lemma_env_file_line(line: Seq<char>)
    ensures
        text::starts_with(text::trim_front(line, CharClass::White), "env_file:"@)
            <==> env_file_line(line),
        env_file_line(line) <==> env_file_line(text::without_return(line)),
{
    reveal_strlit("env_file:");
    let word = "env_file:"@;
    let class = CharClass::White;
    let n = text::run(line, class) as int;
    let kept = text::without_return(line);
    lines::lemma_run(line, class);
    let front = text::trim_front(line, class);
    if text::starts_with(front, word) {
        assert(line.subrange(n, n + 9) =~= front.subrange(0, 9));
        assert forall|k: int| 0 <= k < n implies characters::blank(#[trigger] line.take(n)[k]) by {
            assert(class.holds(line[k]));
        }
        assert(characters::stands_at(line, word, n));
    }
    if env_file_line(line) {
        let m = choose|m: int| #[trigger]
            characters::stands_at(line, word, m) && characters::all_blank(line.take(m));
        assert(line.subrange(m, m + 9)[0] == 'e');
        assert(line.subrange(m, m + 9)[8] == ':');
        if n < m {
            assert(characters::blank(line.take(m)[n]));
        }
        if n > m {
            assert(class.holds(line[m]));
        }
        assert(front.subrange(0, 9) =~= line.subrange(m, m + 9));
        if kept != line {
            assert(kept.subrange(m, m + 9) =~= line.subrange(m, m + 9));
            assert(kept.take(m) =~= line.take(m));
        }
        assert(characters::stands_at(kept, word, m));
    }
    if env_file_line(kept) {
        let m = choose|m: int| #[trigger]
            characters::stands_at(kept, word, m) && characters::all_blank(kept.take(m));
        assert(kept.subrange(m, m + 9) =~= line.subrange(m, m + 9));
        assert(kept.take(m) =~= line.take(m));
        assert(characters::stands_at(line, word, m));
    }
}

/// A Compose file gives the finding exactly where a line of it, after white space, starts with
/// the nine characters `env_file:`.
pub proof fn law_env_file_lines(body: Seq<char>)
    ensures
        paths::names_env_file(body) <==> exists|i: int| env_file_at(body, i),
{
    reveal_strlit("env_file:");
    let class = CharClass::NotNewline;
    let rule = line_rule();
    let word = "env_file:"@;
    assert(characters::same_rule(class, rule));
    let all = text::pieces(body, class);
    let found = text::lines(body);
    lines::lemma_pieces_hold(body, class);
    if paths::names_env_file(body) {
        let k = choose|k: int|
            0 <= k < found.len() && text::starts_with(
                text::trim_front(#[trigger] found[k], CharClass::White),
                word,
            );
        lemma_env_file_line(found[k]);
        lemma_env_file_line(all[k]);
        assert(found[k] == text::without_return(all[k]) || found[k] == all[k]);
        let (i, j) = characters::law_piece_stands_alone(body, class, rule, k);
        let m = choose|m: int| #[trigger]
            characters::stands_at(all[k], word, m) && characters::all_blank(all[k].take(m));
        assert(body.subrange(i + m, i + m + 9) =~= all[k].subrange(m, m + 9));
        assert(body.subrange(i, i + m) =~= all[k].take(m));
        assert(characters::all_blank(body.subrange(i, i + m)));
        assert(env_file_at(body, i + m));
    }
    if exists|i: int| env_file_at(body, i) {
        let i = choose|i: int| env_file_at(body, i);
        let j = choose|j: int|
            0 <= j <= i && (#[trigger] characters::all_blank(body.subrange(j, i))) && (j == 0
                || body[j - 1] == '\n');
        lemma_env_file_there(body, i, j);
    }
}

proof fn lemma_env_file_there(body: Seq<char>, i: int, j: int)
    requires
        characters::stands_at(body, "env_file:"@, i),
        0 <= j <= i,
        characters::all_blank(body.subrange(j, i)),
        j == 0 || body[j - 1] == '\n',
    ensures
        paths::names_env_file(body),
    decreases i - j,
{
    reveal_strlit("env_file:");
    let class = CharClass::NotNewline;
    let rule = line_rule();
    let word = "env_file:"@;
    let gap = body.subrange(j, i);
    if exists|k: int| j <= k < i && body[k] == '\n' {
        let k = choose|k: int| j <= k < i && body[k] == '\n';
        let rest = body.subrange(k + 1, i);
        assert forall|n: int| 0 <= n < rest.len() implies characters::blank(#[trigger] rest[n]) by {
            assert(rest[n] == gap[n + k + 1 - j]);
        }
        lemma_env_file_there(body, i, k + 1);
    } else {
        let tail = body.skip(j);
        let n = text::run(tail, class) as int;
        lines::lemma_run(tail, class);
        let end = j + n;
        if end < i + 9 {
            assert(tail[n] == body[end]);
            if end >= i {
                assert(body.subrange(i, i + 9)[end - i] == body[end]);
            }
        }
        assert forall|k: int| j <= k < end implies rule(#[trigger] body[k]) by {
            assert(class.holds(tail[k - j]));
        }
        if end < body.len() {
            assert(tail[n] == body[end]);
        }
        assert(characters::same_rule(class, rule));
        let p = characters::law_what_stands_alone_is_a_piece(body, class, rule, j, end);
        let line = body.subrange(j, end);
        assert(line.subrange(i - j, i - j + 9) =~= body.subrange(i, i + 9));
        assert(line.take(i - j) =~= gap);
        assert(characters::stands_at(line, word, i - j));
        lemma_env_file_line(line);
        lemma_env_file_line(text::without_return(line));
        let all = text::pieces(body, class);
        let found = text::lines(body);
        assert(all[p] == line);
        assert(found[p] == line || found[p] == text::without_return(line));
        assert(text::starts_with(text::trim_front(found[p], CharClass::White), word));
    }
}

/// A Compose file with a line of white space, `env_file:` and anything behind it gives the
/// finding, wherever the line stands and however it goes on.
pub proof fn law_compose_env_file(
    path: Seq<char>,
    a: Seq<char>,
    w: Seq<char>,
    r: Seq<char>,
)
    requires
        characters::all_blank(w),
    ensures
        paths::names_env_file(a + "\n"@ + w + "env_file:"@ + r),
        paths::names_env_file(w + "env_file:"@ + r),
        checks::compose_findings(path, a + "\n"@ + w + "env_file:"@ + r) == seq![
            report::blocker(path, "Docker Compose env_file can point at plaintext env"@),
        ],
{
    reveal_strlit("\n");
    reveal_strlit("env_file:");
    let word = "env_file:"@;
    let whole = a + "\n"@ + w + word + r;
    let i = a.len() as int + 1 + w.len();
    assert(whole.subrange(i, i + 9) =~= word);
    assert(whole.subrange(a.len() as int + 1, i) =~= w);
    assert(whole[a.len() as int] == '\n');
    lemma_env_file_there(whole, i, a.len() as int + 1);
    let short = w + word + r;
    let n = w.len() as int;
    assert(short.subrange(n, n + 9) =~= word);
    assert(short.subrange(0, n) =~= w);
    lemma_env_file_there(short, n, 0);
}

/// A Compose file without a line that starts, after white space, with `env_file:` gives no
/// finding.
pub proof fn law_compose_without_env_file(path: Seq<char>, body: Seq<char>)
    requires
        forall|i: int| !#[trigger] env_file_at(body, i),
    ensures
        !paths::names_env_file(body),
        checks::compose_findings(path, body).len() == 0,
{
    law_env_file_lines(body);
}

/// The names of Docker Compose files, in any directory.
pub proof fn law_compose_names(path: Seq<char>)
    ensures
        paths::compose_file(path) <==> (has_name(path, "compose.yaml"@) || has_name(
            path,
            "compose.yml"@,
        ) || has_name(path, "docker-compose.yaml"@) || has_name(path, "docker-compose.yml"@)),
{
    law_names(path, "compose.yaml"@);
    law_names(path, "compose.yml"@);
    law_names(path, "docker-compose.yaml"@);
    law_names(path, "docker-compose.yml"@);
}

/// A path with the ending of a binary file, in any case of letters.
pub open spec fn ends_like(path: Seq<char>, suffix: Seq<char>) -> bool {
    suffix.len() <= path.len() && characters::reads_like(
        path.skip(path.len() - suffix.len()),
        suffix,
    )
}

/// The files that are not searched are those with one of fourteen endings, in any case of
/// letters.
pub proof fn law_searched_files(path: Seq<char>)
    ensures
        paths::text_scan_candidate(path) <==> !(ends_like(path, ".png"@) || ends_like(
            path,
            ".jpg"@,
        ) || ends_like(path, ".jpeg"@) || ends_like(path, ".gif"@) || ends_like(path, ".webp"@)
            || ends_like(path, ".ico"@) || ends_like(path, ".pdf"@) || ends_like(path, ".zip"@)
            || ends_like(path, ".gz"@) || ends_like(path, ".tar"@) || ends_like(path, ".lock"@)
            || ends_like(path, ".woff"@) || ends_like(path, ".woff2"@) || ends_like(path, ".ttf"@)),
{
    let all = paths::binary_suffixes();
    assert forall|suffix: Seq<char>| #[trigger]
        ends_like(path, suffix) == text::ends_with(text::lower(path), suffix) by {
        let n = path.len() - suffix.len();
        if n >= 0 {
            characters::law_lower_case(path.skip(n), suffix);
            assert(text::lower(path).subrange(n, path.len() as int) =~= text::lower(path.skip(n)));
        }
    }
    assert(all[0] == ".png"@ && all[1] == ".jpg"@ && all[2] == ".jpeg"@ && all[3] == ".gif"@
        && all[4] == ".webp"@ && all[5] == ".ico"@ && all[6] == ".pdf"@ && all[7] == ".zip"@
        && all[8] == ".gz"@ && all[9] == ".tar"@ && all[10] == ".lock"@ && all[11] == ".woff"@
        && all[12] == ".woff2"@ && all[13] == ".ttf"@);
}

/// A backslash counts as a slash where names are sensitive.
pub proof fn law_sensitive_names_with_backslashes(path: Seq<char>)
    ensures
        paths::sensitive_file_label(path) == paths::sensitive_file_label(paths::slashed(path)),
{
    assert(paths::slashed(paths::slashed(path)) =~= paths::slashed(path));
}

proof fn lemma_labels_differ()
    ensures
        ({
            let labels = seq![
                "ssh-private-key-file"@,
                "npm-token-file"@,
                "pypi-token-file"@,
                "netrc-credential-file"@,
                "direnv-state-file"@,
                "aws-credentials-file"@,
                "kubeconfig-file"@,
                "google-service-account-file"@,
                "service-account-file"@,
            ];
            forall|i: int, j: int|
                0 <= i < j < labels.len() ==> #[trigger] labels[i] != #[trigger] labels[j]
        }),
{
    reveal_strlit("ssh-private-key-file");
    reveal_strlit("npm-token-file");
    reveal_strlit("pypi-token-file");
    reveal_strlit("netrc-credential-file");
    reveal_strlit("direnv-state-file");
    reveal_strlit("aws-credentials-file");
    reveal_strlit("kubeconfig-file");
    reveal_strlit("google-service-account-file");
    reveal_strlit("service-account-file");
    let labels = seq![
        "ssh-private-key-file"@,
        "npm-token-file"@,
        "pypi-token-file"@,
        "netrc-credential-file"@,
        "direnv-state-file"@,
        "aws-credentials-file"@,
        "kubeconfig-file"@,
        "google-service-account-file"@,
        "service-account-file"@,
    ];
    assert(labels[0][1] == 's' && labels[1][1] == 'p' && labels[2][1] == 'y' && labels[3][1] == 'e'
        && labels[4][1] == 'i' && labels[5][1] == 'w' && labels[6][1] == 'u' && labels[7][1] == 'o'
        && labels[8][1] == 'e');
    assert(labels[3].len() == 21 && labels[8].len() == 20);
}

/// Which file names are sensitive and under which label, in any directory, with backslashes for
/// slashes. The first that fits counts.
pub proof fn law_sensitive_names(path: Seq<char>)
    requires
        !path.contains('\\'),
    ensures
        ({
            let name = text::base_name(path);
            let label = paths::sensitive_file_label(path);
            let key = has_name(path, "id_rsa"@) || has_name(path, "id_dsa"@) || has_name(
                path,
                "id_ecdsa"@,
            ) || has_name(path, "id_ed25519"@);
            let aws = characters::ends(path, ".aws/credentials"@);
            let kube = characters::ends(path, ".kube/config"@);
            let google = characters::reads_like(name, "serviceaccountkey.json"@);
            let account = characters::stands_in(text::lower(name), "service-account"@)
                && characters::ends(name, ".json"@);
            &&& label == Some("ssh-private-key-file"@) <==> key
            &&& label == Some("npm-token-file"@) <==> has_name(path, ".npmrc"@)
            &&& label == Some("pypi-token-file"@) <==> has_name(path, ".pypirc"@)
            &&& label == Some("netrc-credential-file"@) <==> has_name(path, ".netrc"@)
            &&& label == Some("direnv-state-file"@) <==> has_name(path, ".envrc"@)
            &&& aws ==> label == Some("aws-credentials-file"@)
            &&& kube ==> label == Some("kubeconfig-file"@)
            &&& google ==> label == Some("google-service-account-file"@)
            &&& account && !key && !google && !aws && !kube ==> label == Some(
                "service-account-file"@,
            )
            &&& label is Some ==> key || has_name(path, ".npmrc"@) || has_name(path, ".pypirc"@)
                || has_name(path, ".netrc"@) || has_name(path, ".envrc"@) || aws || kube || google
                || account
        }),
{
    let name = text::base_name(path);
    assert(paths::slashed(path) =~= path) by {
        assert forall|i: int| 0 <= i < path.len() implies #[trigger] paths::slashed(path)[i]
            == path[i] by {
            assert(path.contains(path[i]));
        }
    }
    reveal_strlit("id_rsa");
    reveal_strlit("id_dsa");
    reveal_strlit("id_ecdsa");
    reveal_strlit("id_ed25519");
    reveal_strlit(".npmrc");
    reveal_strlit(".pypirc");
    reveal_strlit(".netrc");
    reveal_strlit(".envrc");
    reveal_strlit(".aws/credentials");
    reveal_strlit(".kube/config");
    reveal_strlit("credentials");
    reveal_strlit("config");
    reveal_strlit("serviceAccountKey.json");
    reveal_strlit("serviceaccountkey.json");
    reveal_strlit(".json");
    assert("id_rsa"@[3] == 'r' && "id_dsa"@[3] == 'd' && ".netrc"@[1] == 'n' && ".envrc"@[1]
        == 'e' && "id_rsa"@[0] == 'i' && "id_dsa"@[0] == 'i' && ".netrc"@[0] == '.' && ".envrc"@[0]
        == '.' && ".npmrc"@[2] == 'p' && ".netrc"@[2] == 'e' && ".envrc"@[2] == 'n' && ".npmrc"@[0]
        == '.' && ".pypirc"@[0] == '.' && "id_ecdsa"@[0] == 'i');
    if characters::ends(name, ".json"@) {
        assert(name.skip(name.len() - 5)[4] == 'n');
        assert(name[name.len() - 1] == 'n');
        assert(".npmrc"@[".npmrc"@.len() - 1] == 'c');
        assert(".pypirc"@[".pypirc"@.len() - 1] == 'c');
        assert(".netrc"@[".netrc"@.len() - 1] == 'c');
        assert(".envrc"@[".envrc"@.len() - 1] == 'c');
    }
    lemma_labels_differ();
    let labels = seq![
        "ssh-private-key-file"@,
        "npm-token-file"@,
        "pypi-token-file"@,
        "netrc-credential-file"@,
        "direnv-state-file"@,
        "aws-credentials-file"@,
        "kubeconfig-file"@,
        "google-service-account-file"@,
        "service-account-file"@,
    ];
    assert(labels.len() == 9);
    let label = paths::sensitive_file_label(path);
    assert(label is Some ==> exists|i: int| 0 <= i < 9 && label == Some(#[trigger] labels[i])) by {
        assert(labels[0] == "ssh-private-key-file"@ && labels[1] == "npm-token-file"@ && labels[2]
            == "pypi-token-file"@ && labels[3] == "netrc-credential-file"@ && labels[4]
            == "direnv-state-file"@ && labels[5] == "aws-credentials-file"@ && labels[6]
            == "kubeconfig-file"@ && labels[7] == "google-service-account-file"@ && labels[8]
            == "service-account-file"@);
    }
    law_names(path, "id_rsa"@);
    law_names(path, "id_dsa"@);
    law_names(path, "id_ecdsa"@);
    law_names(path, "id_ed25519"@);
    law_names(path, ".npmrc"@);
    law_names(path, ".pypirc"@);
    law_names(path, ".netrc"@);
    law_names(path, ".envrc"@);
    characters::law_occurrences_only_there(path, ".aws/credentials"@, 0);
    characters::law_occurrences_only_there(path, ".kube/config"@, 0);
    characters::law_occurrences_only_there(text::lower(name), "service-account"@, 0);
    characters::law_occurrences_only_there(name, ".json"@, 0);
    assert(text::lower("serviceAccountKey.json"@) =~= "serviceaccountkey.json"@) by {
        characters::law_lower_case("serviceAccountKey.json"@, "serviceaccountkey.json"@);
    }
    characters::law_lower_case(name, "serviceaccountkey.json"@);
    if characters::ends(path, ".aws/credentials"@) {
        let tail = ".aws/credentials"@;
        assert(path.skip(path.len() - 16) == tail);
        assert(seq!['/'] + "credentials"@ =~= tail.skip(4));
        assert(path.skip(path.len() - 12) =~= path.skip(path.len() - 16).skip(4));
        law_names(path, "credentials"@);
    }
    if characters::ends(path, ".kube/config"@) {
        let tail = ".kube/config"@;
        assert(path.skip(path.len() - 12) == tail);
        assert(seq!['/'] + "config"@ =~= tail.skip(5));
        assert(path.skip(path.len() - 7) =~= path.skip(path.len() - 12).skip(5));
        law_names(path, "config"@);
    }
}

} // verus!
