//! Rules on paths and file names.
use crate::dotenv;
use crate::text;
use crate::text::CharClass;
use vstd::prelude::*;

verus! {

/// `s` with every backslash replaced by a slash.
pub open spec fn slashed(s: Seq<char>) -> Seq<char> {
    s.map_values(
        |c: char|
            if c == '\\' {
                '/'
            } else {
                c
            },
    )
}

/// `pattern` covers `path`: it names the path itself, or it ends in `/**` and names a
/// directory that is the path or holds it. A backslash counts as a slash.
pub open spec fn covers(pattern: Seq<char>, path: Seq<char>) -> bool {
    let p = slashed(path);
    let q = slashed(pattern);
    if text::ends_with(q, "/**"@) {
        let dir = q.take(q.len() - "/**"@.len());
        p == dir || text::starts_with(p, dir.push('/'))
    } else {
        p == q
    }
}

/// One of `patterns` covers `path`.
pub open spec fn covered(patterns: Seq<Seq<char>>, path: Seq<char>) -> bool {
    exists|i: int| 0 <= i < patterns.len() && covers(#[trigger] patterns[i], path)
}

/// `name` is the name of a directory that holds version control data.
pub open spec fn version_control_dir_name(name: Seq<char>) -> bool {
    ||| name == ".git"@
    ||| name == ".hg"@
    ||| name == ".svn"@
}

/// `name` is the name of a directory that holds version control data, dependencies or build
/// outputs.
pub open spec fn pruned_dir_name(name: Seq<char>) -> bool {
    ||| version_control_dir_name(name)
    ||| name == "node_modules"@
    ||| name == "target"@
    ||| name == "dist"@
    ||| name == "build"@
    ||| name == ".next"@
    ||| name == ".nuxt"@
    ||| name == ".turbo"@
    ||| name == "coverage"@
    ||| name == ".cache"@
    ||| name == "vendor"@
}

/// A walk does not enter a directory called `name`. One that takes in ignored files enters
/// dependencies and build outputs too; version control data, which is no part of what is
/// published as files, stays out of every walk.
pub open spec fn stays_out_of(name: Seq<char>, include_ignored: bool) -> bool {
    if include_ignored {
        version_control_dir_name(name)
    } else {
        pruned_dir_name(name)
    }
}

/// A component of `path` is the name of a pruned directory.
pub open spec fn has_pruned_component(path: Seq<char>) -> bool {
    let parts = text::pieces(path, CharClass::NotSlash);
    exists|k: int| 0 <= k < parts.len() && pruned_dir_name(#[trigger] parts[k])
}

/// The file names that end like this are not searched for secrets.
pub open spec fn binary_suffixes() -> Seq<Seq<char>> {
    seq![
        ".png"@,
        ".jpg"@,
        ".jpeg"@,
        ".gif"@,
        ".webp"@,
        ".ico"@,
        ".pdf"@,
        ".zip"@,
        ".gz"@,
        ".tar"@,
        ".lock"@,
        ".woff"@,
        ".woff2"@,
        ".ttf"@,
    ]
}

/// The file at `path` is searched for secrets.
pub open spec fn text_scan_candidate(path: Seq<char>) -> bool {
    forall|i: int|
        0 <= i < binary_suffixes().len() ==> !text::ends_with(
            text::lower(path),
            #[trigger] binary_suffixes()[i],
        )
}

/// `path` names a Docker Compose file.
pub open spec fn compose_file(path: Seq<char>) -> bool {
    let name = text::base_name(path);
    ||| name == "compose.yaml"@
    ||| name == "compose.yml"@
    ||| name == "docker-compose.yaml"@
    ||| name == "docker-compose.yml"@
}

/// The label of the rule that makes the name of the file at `path` sensitive.
pub open spec fn sensitive_file_label(path: Seq<char>) -> Option<Seq<char>> {
    let whole = slashed(path);
    let name = text::base_name(whole);
    if name == "id_rsa"@ || name == "id_dsa"@ || name == "id_ecdsa"@ || name == "id_ed25519"@ {
        Some("ssh-private-key-file"@)
    } else if name == ".npmrc"@ {
        Some("npm-token-file"@)
    } else if name == ".pypirc"@ {
        Some("pypi-token-file"@)
    } else if name == ".netrc"@ {
        Some("netrc-credential-file"@)
    } else if name == ".envrc"@ {
        Some("direnv-state-file"@)
    } else if text::ends_with(whole, ".aws/credentials"@) {
        Some("aws-credentials-file"@)
    } else if text::ends_with(whole, ".kube/config"@) {
        Some("kubeconfig-file"@)
    } else if text::lower(name) == text::lower("serviceAccountKey.json"@) {
        Some("google-service-account-file"@)
    } else if text::occurs(text::lower(name), "service-account"@) && text::ends_with(
        name,
        ".json"@,
    ) {
        Some("service-account-file"@)
    } else {
        None
    }
}

/// `script` names a dotenv file that holds values.
pub open spec fn loads_dotenv_value(script: Seq<char>) -> bool {
    let words = text::pieces(script, CharClass::ScriptWord);
    exists|k: int| 0 <= k < words.len() && dotenv::dotenv_value_path(#[trigger] words[k])
}

/// A line of the Docker Compose file `body` reads a plaintext environment file.
pub open spec fn names_env_file(body: Seq<char>) -> bool {
    exists|k: int|
        0 <= k < text::lines(body).len() && text::starts_with(
            text::trim_front(#[trigger] text::lines(body)[k], CharClass::White),
            "env_file:"@,
        )
}

/// The components of a path with slashes between them.
pub open spec fn joined(components: Seq<Seq<char>>) -> Seq<char>
    decreases components.len(),
{
    if components.len() == 0 {
        Seq::empty()
    } else if components.len() == 1 {
        components[0]
    } else {
        joined(components.drop_last()).push('/') + components.last()
    }
}

/// `text` with every backslash replaced by a slash.
pub fn with_slashes(text: &str) -> (r: Vec<char>)
    ensures
        r@ == slashed(text@),
{
    let chars = text::chars_of(text);
    let mut r: Vec<char> = Vec::new();
    let mut i: usize = 0;
    while i < chars.len()
        invariant
            i <= chars@.len(),
            chars@ == text@,
            r@ == slashed(text@).take(i as int),
        decreases chars@.len() - i,
    {
        let c = if chars[i] == '\\' {
            '/'
        } else {
            chars[i]
        };
        r.push(c);
        assert(r@ == slashed(text@).take(i + 1));
        i = i + 1;
    }
    assert(r@ == slashed(text@));
    r
}

/// Tests whether `pattern` covers `path`.
pub fn pattern_matches(path: &str, pattern: &str) -> (r: bool)
    ensures
        r == covers(pattern@, path@),
{
    let p = with_slashes(path);
    let mut q = with_slashes(pattern);
    if text::has_suffix(&q, "/**") {
        proof {
            reveal_strlit("/**");
        }
        let ghost whole = q@;
        let len = q.len() - 3;
        q.truncate(len);
        assert(q@ == whole.take(whole.len() - 3));
        if text::same_chars(&p, &q) {
            return true;
        }
        q.push('/');
        text::matches_at(&p, &q, 0)
    } else {
        text::same_chars(&p, &q)
    }
}

/// Tests whether one of `patterns` covers `path`.
pub fn any_pattern_matches(patterns: &Vec<String>, path: &str) -> (r: bool)
    ensures
        r == covered(text::texts(patterns@), path@),
{
    let ghost all = text::texts(patterns@);
    let mut i: usize = 0;
    while i < patterns.len()
        invariant
            i <= patterns@.len(),
            all == text::texts(patterns@),
            forall|k: int| 0 <= k < i ==> !covers(#[trigger] all[k], path@),
        decreases patterns@.len() - i,
    {
        assert(all[i as int] == patterns@[i as int]@);
        if pattern_matches(path, patterns[i].as_str()) {
            return true;
        }
        i = i + 1;
    }
    false
}

/// Tests whether `name` is the name of a directory that holds version control data.
pub fn is_version_control_dir_name(name: &[char]) -> (r: bool)
    ensures
        r == version_control_dir_name(name@),
{
    text::same(name, ".git") || text::same(name, ".hg") || text::same(name, ".svn")
}

/// Tests whether `name` is the name of a pruned directory.
pub fn is_pruned_dir_name(name: &[char]) -> (r: bool)
    ensures
        r == pruned_dir_name(name@),
{
    is_version_control_dir_name(name) || text::same(name, "node_modules") || text::same(
        name,
        "target",
    ) || text::same(name, "dist") || text::same(name, "build") || text::same(name, ".next")
        || text::same(name, ".nuxt") || text::same(name, ".turbo") || text::same(name, "coverage")
        || text::same(name, ".cache") || text::same(name, "vendor")
}

/// Tests whether a walk does not enter a directory called `name`.
pub fn is_left_out(name: &[char], include_ignored: bool) -> (r: bool)
    ensures
        r == stays_out_of(name@, include_ignored),
{
    if include_ignored {
        is_version_control_dir_name(name)
    } else {
        is_pruned_dir_name(name)
    }
}

/// Tests whether a component of `path` is the name of a pruned directory.
pub fn has_pruned_part(path: &str) -> (r: bool)
    ensures
        r == has_pruned_component(path@),
{
    let chars = text::chars_of(path);
    let parts = text::split_pieces(&chars, CharClass::NotSlash);
    let ghost all = text::pieces(path@, CharClass::NotSlash);
    let mut k: usize = 0;
    while k < parts.len()
        invariant
            k <= parts@.len(),
            text::contents(parts@) == all,
            all == text::pieces(path@, CharClass::NotSlash),
            forall|m: int| 0 <= m < k ==> !pruned_dir_name(#[trigger] all[m]),
        decreases parts@.len() - k,
    {
        assert(parts@[k as int]@ == all[k as int]);
        if is_pruned_dir_name(parts[k]) {
            return true;
        }
        k = k + 1;
    }
    false
}

/// Tests whether the file at `path` is searched for secrets.
pub fn is_text_scan_candidate(path: &str) -> (r: bool)
    ensures
        r == text_scan_candidate(path@),
{
    let lower = text::lowered(&text::chars_of(path));
    let suffixes: [&str; 14] = [
        ".png",
        ".jpg",
        ".jpeg",
        ".gif",
        ".webp",
        ".ico",
        ".pdf",
        ".zip",
        ".gz",
        ".tar",
        ".lock",
        ".woff",
        ".woff2",
        ".ttf",
    ];
    assert(text::strs(suffixes@) =~= binary_suffixes());
    let mut i: usize = 0;
    while i < suffixes.len()
        invariant
            i <= 14,
            lower@ == text::lower(path@),
            text::strs(suffixes@) == binary_suffixes(),
            forall|k: int|
                0 <= k < i ==> !text::ends_with(text::lower(path@), #[trigger] binary_suffixes()[k]),
        decreases 14 - i,
    {
        assert(suffixes@[i as int]@ == text::strs(suffixes@)[i as int]);
        if text::has_suffix(&lower, suffixes[i]) {
            return false;
        }
        i = i + 1;
    }
    assert(binary_suffixes().len() == 14);
    true
}

/// Tests whether `path` names a Docker Compose file.
pub fn is_compose_file(path: &str) -> (r: bool)
    ensures
        r == compose_file(path@),
{
    let chars = text::chars_of(path);
    let name = text::last_component(&chars);
    text::same(name, "compose.yaml") || text::same(name, "compose.yml") || text::same(
        name,
        "docker-compose.yaml",
    ) || text::same(name, "docker-compose.yml")
}

/// The label of the rule that makes the name of the file at `path` sensitive.
pub fn sensitive_file_name_detector(path: &str) -> (r: Option<&'static str>)
    ensures
        match r {
            Some(label) => sensitive_file_label(path@) == Some(label@),
            None => sensitive_file_label(path@) is None,
        },
{
    let whole = with_slashes(path);
    let name = text::last_component(&whole);
    if text::same(name, "id_rsa") || text::same(name, "id_dsa") || text::same(name, "id_ecdsa")
        || text::same(name, "id_ed25519") {
        return Some("ssh-private-key-file");
    }
    if text::same(name, ".npmrc") {
        return Some("npm-token-file");
    }
    if text::same(name, ".pypirc") {
        return Some("pypi-token-file");
    }
    if text::same(name, ".netrc") {
        return Some("netrc-credential-file");
    }
    if text::same(name, ".envrc") {
        return Some("direnv-state-file");
    }
    if text::has_suffix(&whole, ".aws/credentials") {
        return Some("aws-credentials-file");
    }
    if text::has_suffix(&whole, ".kube/config") {
        return Some("kubeconfig-file");
    }
    let lower = text::lowered(name);
    let key_file = text::lowered(&text::chars_of("serviceAccountKey.json"));
    if text::same_chars(&lower, &key_file) {
        return Some("google-service-account-file");
    }
    if text::contains(&lower, "service-account") && text::has_suffix(name, ".json") {
        return Some("service-account-file");
    }
    None
}

/// Tests whether `script` names a dotenv file that holds values.
pub fn script_loads_dotenv_value(script: &str) -> (r: bool)
    ensures
        r == loads_dotenv_value(script@),
{
    let chars = text::chars_of(script);
    let words = text::split_pieces(&chars, CharClass::ScriptWord);
    let ghost all = text::pieces(script@, CharClass::ScriptWord);
    let mut k: usize = 0;
    while k < words.len()
        invariant
            k <= words@.len(),
            text::contents(words@) == all,
            all == text::pieces(script@, CharClass::ScriptWord),
            forall|m: int| 0 <= m < k ==> !dotenv::dotenv_value_path(#[trigger] all[m]),
        decreases words@.len() - k,
    {
        assert(words@[k as int]@ == all[k as int]);
        if dotenv::is_dotenv_value_path(words[k]) {
            return true;
        }
        k = k + 1;
    }
    false
}

/// Tests whether a line of the Docker Compose file `body` reads a plaintext environment file.
pub fn reads_env_file(body: &str) -> (r: bool)
    ensures
        r == names_env_file(body@),
{
    let chars = text::chars_of(body);
    let lines = text::split_lines(&chars);
    let ghost all = text::lines(body@);
    let mut k: usize = 0;
    while k < lines.len()
        invariant
            k <= lines@.len(),
            text::contents(lines@) == all,
            all == text::lines(body@),
            forall|m: int|
                0 <= m < k ==> !text::starts_with(
                    text::trim_front(#[trigger] all[m], CharClass::White),
                    "env_file:"@,
                ),
        decreases lines@.len() - k,
    {
        assert(lines@[k as int]@ == all[k as int]);
        if text::has_prefix(text::trim_start_class(lines[k], CharClass::White), "env_file:") {
            return true;
        }
        k = k + 1;
    }
    false
}

/// The components of a path with slashes between them.
pub fn normalize_path(components: &[String]) -> (r: String)
    ensures
        r@ == joined(text::texts(components@)),
{
    let ghost all = text::texts(components@);
    let mut r = String::new();
    let mut i: usize = 0;
    while i < components.len()
        invariant
            i <= components@.len(),
            all == text::texts(components@),
            r@ == joined(all.take(i as int)),
        decreases components@.len() - i,
    {
        assert(all.take(i + 1).drop_last() == all.take(i as int));
        assert(all.take(i + 1).last() == components@[i as int]@);
        if i > 0 {
            r.push('/');
        }
        r.append(components[i].as_str());
        assert(r@ == joined(all.take(i + 1)));
        i = i + 1;
    }
    assert(all.take(i as int) == all);
    r
}

} // verus!
