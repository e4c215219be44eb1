//! The policy of a scan: what the configuration file and the options ask for.
use crate::order;
use crate::paths;
use crate::text;
use vstd::prelude::*;

verus! {

/// How many files a scan accepts where nothing else is asked for.
pub const DEFAULT_MAX_SCAN_FILES: usize = 50_000;

/// How many bytes of a file a scan reads where nothing else is asked for.
pub const DEFAULT_MAX_TEXT_FILE_BYTES: u64 = 1_048_576;

/// Which files are scanned.
#[derive(Debug, Clone, Copy, PartialEq, Eq, Structural)]
pub enum ScanMode {
    WorkingTree,
    Staged,
}

/// What the caller asks of a scan.
#[derive(Debug, Clone, Copy, PartialEq, Eq)]
pub struct ScanOptions {
    pub mode: ScanMode,
    pub include_ignored: bool,
    pub max_files: Option<usize>,
    pub max_file_bytes: Option<u64>,
}

impl Default for ScanOptions {
    fn default() -> (r: Self)
        ensures
            r == (ScanOptions {
                mode: ScanMode::WorkingTree,
                include_ignored: false,
                max_files: None,
                max_file_bytes: None,
            }),
    {
        ScanOptions {
            mode: ScanMode::WorkingTree,
            include_ignored: false,
            max_files: None,
            max_file_bytes: None,
        }
    }
}

/// The settings under the key `closeenv` of a configuration file.
#[derive(Debug)]
pub struct CloseEnvPolicy {
    pub allow_value_env_paths: Option<Vec<String>>,
    pub ignore_paths: Option<Vec<String>>,
    pub ignore_detectors: Option<Vec<String>>,
    pub max_files: Option<usize>,
    pub max_file_bytes: Option<u64>,
}

/// A configuration file: settings at its top level and under the key `closeenv`.
#[derive(Debug)]
pub struct CloseEnvConfig {
    pub closeenv: Option<CloseEnvPolicy>,
    pub allow_value_env_paths: Option<Vec<String>>,
    pub ignore_paths: Option<Vec<String>>,
    pub ignore_detectors: Option<Vec<String>>,
    pub max_files: Option<usize>,
    pub max_file_bytes: Option<u64>,
}

/// The policy of a scan.
#[derive(Debug)]
pub struct ScanPolicy {
    pub allow_value_env_paths: Vec<String>,
    pub ignore_paths: Vec<String>,
    pub ignore_detectors: Vec<String>,
    pub max_files: usize,
    pub max_file_bytes: u64,
}

/// What a policy says.
pub struct PolicyModel {
    pub allow_value_env_paths: Seq<Seq<char>>,
    pub ignore_paths: Seq<Seq<char>>,
    pub ignore_detectors: Seq<Seq<char>>,
    pub max_files: usize,
    pub max_file_bytes: u64,
}

impl View for ScanPolicy {
    type V = PolicyModel;

    open spec fn view(&self) -> PolicyModel {
        PolicyModel {
            allow_value_env_paths: text::texts(self.allow_value_env_paths@),
            ignore_paths: text::texts(self.ignore_paths@),
            ignore_detectors: text::texts(self.ignore_detectors@),
            max_files: self.max_files,
            max_file_bytes: self.max_file_bytes,
        }
    }
}

/// `value` has the look of a secret.
pub open spec fn looks_secret(value: Seq<char>) -> bool {
    ||| text::starts_with(value, "efp__"@)
    ||| text::starts_with(value, "eft__"@)
    ||| text::starts_with(value, "efu__"@)
    ||| text::starts_with(value, "sk-"@)
    ||| text::starts_with(text::lower(value), "bearer "@)
    ||| text::occurs(text::lower(value), "x-amz-signature="@)
    ||| text::occurs(text::lower(value), "sig="@)
    ||| text::occurs(value, "-----BEGIN "@)
}

/// `c` can stand in the label of a detector.
pub open spec fn label_char(c: char) -> bool {
    text::ascii_lower(c) || text::ascii_digit(c) || c == '-'
}

/// `detector` has the form of the label of a detector.
pub open spec fn safe_detector_name(detector: Seq<char>) -> bool {
    &&& detector.len() > 0
    &&& text::byte_len(detector) <= 64
    &&& forall|i: int| 0 <= i < detector.len() ==> label_char(#[trigger] detector[i])
}

/// The texts of an optional list: none where there is no list.
pub open spec fn listed(list: Option<Vec<String>>) -> Seq<Seq<char>> {
    match list {
        Some(v) => text::texts(v@),
        None => Seq::empty(),
    }
}

/// The paths that `config` allows to hold values, those of the top level first.
pub open spec fn allowed_paths(config: CloseEnvConfig) -> Seq<Seq<char>> {
    match config.closeenv {
        Some(inner) => listed(config.allow_value_env_paths) + listed(inner.allow_value_env_paths),
        None => listed(config.allow_value_env_paths),
    }
}

/// The paths that `config` ignores, those of the top level first.
pub open spec fn ignored_paths(config: CloseEnvConfig) -> Seq<Seq<char>> {
    match config.closeenv {
        Some(inner) => listed(config.ignore_paths) + listed(inner.ignore_paths),
        None => listed(config.ignore_paths),
    }
}

/// The detectors that `config` ignores, those of the top level first.
pub open spec fn ignored_detectors(config: CloseEnvConfig) -> Seq<Seq<char>> {
    match config.closeenv {
        Some(inner) => listed(config.ignore_detectors) + listed(inner.ignore_detectors),
        None => listed(config.ignore_detectors),
    }
}

/// The number of files that `config` limits a scan to.
pub open spec fn asked_max_files(config: CloseEnvConfig) -> Option<usize> {
    match config.closeenv {
        Some(inner) => if inner.max_files is Some {
            inner.max_files
        } else {
            config.max_files
        },
        None => config.max_files,
    }
}

/// The number of bytes that `config` limits the reading of a file to.
pub open spec fn asked_max_file_bytes(config: CloseEnvConfig) -> Option<u64> {
    match config.closeenv {
        Some(inner) => if inner.max_file_bytes is Some {
            inner.max_file_bytes
        } else {
            config.max_file_bytes
        },
        None => config.max_file_bytes,
    }
}

/// The texts that do not look like secrets pass.
pub open spec fn not_secret_rule() -> spec_fn(Seq<char>) -> bool {
    |path: Seq<char>| !looks_secret(path)
}

/// The texts with the form of a detector's label pass.
pub open spec fn safe_name_rule() -> spec_fn(Seq<char>) -> bool {
    |detector: Seq<char>| safe_detector_name(detector)
}

/// The policy that `config` asks for: lists at both places count, in that order, a limit under
/// `closeenv` outweighs one at the top level, allowed paths that look like secrets and
/// detectors that cannot exist are left out.
pub open spec fn policy_of(config: CloseEnvConfig) -> PolicyModel {
    PolicyModel {
        allow_value_env_paths: allowed_paths(config).filter(not_secret_rule()),
        ignore_paths: ignored_paths(config),
        ignore_detectors: order::sorted_set(ignored_detectors(config).filter(safe_name_rule())),
        max_files: match asked_max_files(config) {
            Some(n) => n,
            None => DEFAULT_MAX_SCAN_FILES,
        },
        max_file_bytes: match asked_max_file_bytes(config) {
            Some(n) => n,
            None => DEFAULT_MAX_TEXT_FILE_BYTES,
        },
    }
}

/// The policy where nothing is configured.
pub open spec fn default_policy() -> PolicyModel {
    PolicyModel {
        allow_value_env_paths: Seq::empty(),
        ignore_paths: Seq::empty(),
        ignore_detectors: Seq::empty(),
        max_files: DEFAULT_MAX_SCAN_FILES,
        max_file_bytes: DEFAULT_MAX_TEXT_FILE_BYTES,
    }
}

/// The policy of a repository whose configuration file, if it has one that can be understood,
/// says `config`.
pub open spec fn configured_policy(config: Option<CloseEnvConfig>) -> PolicyModel {
    match config {
        Some(found) => policy_of(found),
        None => default_policy(),
    }
}

/// `policy` with the limits that `options` asks for.
pub open spec fn with_options(policy: PolicyModel, options: ScanOptions) -> PolicyModel {
    PolicyModel {
        max_files: match options.max_files {
            Some(n) => n,
            None => policy.max_files,
        },
        max_file_bytes: match options.max_file_bytes {
            Some(n) => n,
            None => policy.max_file_bytes,
        },
        ..policy
    }
}

/// Tests whether `value` has the look of a secret.
pub fn looks_like_secret_value(value: &str) -> (r: bool)
    ensures
        r == looks_secret(value@),
{
    let chars = text::chars_of(value);
    let lower = text::lowered(&chars);
    text::has_prefix(&chars, "efp__") || text::has_prefix(&chars, "eft__") || text::has_prefix(
        &chars,
        "efu__",
    ) || text::has_prefix(&chars, "sk-") || text::has_prefix(&lower, "bearer ") || text::contains(
        &lower,
        "x-amz-signature=",
    ) || text::contains(&lower, "sig=") || text::contains(&chars, "-----BEGIN ")
}

/// Tests whether `detector` has the form of the label of a detector.
pub fn is_safe_detector_name(detector: &str) -> (r: bool)
    ensures
        r == safe_detector_name(detector@),
{
    let chars = text::chars_of(detector);
    let mut i: usize = 0;
    while i < chars.len()
        invariant
            i <= chars@.len(),
            chars@ == detector@,
            forall|k: int| 0 <= k < i ==> label_char(#[trigger] detector@[k]),
        decreases chars@.len() - i,
    {
        let c = chars[i];
        if !(('a' <= c && c <= 'z') || ('0' <= c && c <= '9') || c == '-') {
            assert(!label_char(detector@[i as int]));
            return false;
        }
        i = i + 1;
    }
    chars.len() > 0 && !text::has_bytes(&chars, 65)
}

/// Appends the texts of an optional list to `out`.
fn append_listed(out: &mut Vec<String>, list: &Option<Vec<String>>)
    ensures
        text::texts(final(out)@) == text::texts(old(out)@) + listed(*list),
{
    let ghost before = text::texts(out@);
    match list {
        None => {
            assert(before + Seq::<Seq<char>>::empty() == before);
        },
        Some(v) => {
            let ghost all = text::texts(v@);
            let mut i: usize = 0;
            assert(before + all.take(0) == before);
            while i < v.len()
                invariant
                    i <= v@.len(),
                    all == text::texts(v@),
                    text::texts(out@) == before + all.take(i as int),
                decreases v@.len() - i,
            {
                let next = v[i].clone();
                proof {
                    order::lemma_texts_push(out@, next);
                    assert(before + all.take(i + 1) == (before + all.take(i as int)).push(
                        all[i as int],
                    ));
                }
                out.push(next);
                i = i + 1;
            }
            assert(all.take(i as int) == all);
        },
    }
}

/// The texts of `list` that do not look like secrets.
fn keep_not_secret(list: &Vec<String>) -> (r: Vec<String>)
    ensures
        text::texts(r@) == text::texts(list@).filter(not_secret_rule()),
{
    let ghost all = text::texts(list@);
    let mut r: Vec<String> = Vec::new();
    let mut i: usize = 0;
    proof {
        reveal(Seq::filter);
        assert(all.take(0).filter(not_secret_rule()) == Seq::<Seq<char>>::empty());
    }
    while i < list.len()
        invariant
            i <= list@.len(),
            all == text::texts(list@),
            text::texts(r@) == all.take(i as int).filter(not_secret_rule()),
        decreases list@.len() - i,
    {
        proof {
            reveal(Seq::filter);
            assert(all.take(i + 1).drop_last() == all.take(i as int));
            order::lemma_texts_push(r@, list@[i as int]);
        }
        if !looks_like_secret_value(list[i].as_str()) {
            r.push(list[i].clone());
        }
        i = i + 1;
    }
    assert(all.take(i as int) == all);
    r
}

/// The texts of `list` with the form of a detector's label.
fn keep_safe_names(list: &Vec<String>) -> (r: Vec<String>)
    ensures
        text::texts(r@) == text::texts(list@).filter(safe_name_rule()),
{
    let ghost all = text::texts(list@);
    let mut r: Vec<String> = Vec::new();
    let mut i: usize = 0;
    proof {
        reveal(Seq::filter);
        assert(all.take(0).filter(safe_name_rule()) == Seq::<Seq<char>>::empty());
    }
    while i < list.len()
        invariant
            i <= list@.len(),
            all == text::texts(list@),
            text::texts(r@) == all.take(i as int).filter(safe_name_rule()),
        decreases list@.len() - i,
    {
        proof {
            reveal(Seq::filter);
            assert(all.take(i + 1).drop_last() == all.take(i as int));
            order::lemma_texts_push(r@, list@[i as int]);
        }
        if is_safe_detector_name(list[i].as_str()) {
            r.push(list[i].clone());
        }
        i = i + 1;
    }
    assert(all.take(i as int) == all);
    r
}

/// The policy of a repository whose configuration file, if it has one that can be understood,
/// says `config`.
pub fn read_policy(config: &Option<CloseEnvConfig>) -> (r: ScanPolicy)
    ensures
        r@ == configured_policy(*config),
{
    let mut allow: Vec<String> = Vec::new();
    let mut ignore: Vec<String> = Vec::new();
    let mut detectors: Vec<String> = Vec::new();
    let mut max_files: Option<usize> = None;
    let mut max_file_bytes: Option<u64> = None;
    let ghost none = Seq::<Seq<char>>::empty();
    assert(text::texts(allow@) == none);
    match config {
        None => {},
        Some(found) => {
            append_listed(&mut allow, &found.allow_value_env_paths);
            append_listed(&mut ignore, &found.ignore_paths);
            append_listed(&mut detectors, &found.ignore_detectors);
            max_files = found.max_files;
            max_file_bytes = found.max_file_bytes;
            match &found.closeenv {
                None => {},
                Some(inner) => {
                    append_listed(&mut allow, &inner.allow_value_env_paths);
                    append_listed(&mut ignore, &inner.ignore_paths);
                    append_listed(&mut detectors, &inner.ignore_detectors);
                    if inner.max_files.is_some() {
                        max_files = inner.max_files;
                    }
                    if inner.max_file_bytes.is_some() {
                        max_file_bytes = inner.max_file_bytes;
                    }
                },
            }
            assert(text::texts(allow@) == allowed_paths(*found));
            assert(text::texts(ignore@) == ignored_paths(*found));
            assert(text::texts(detectors@) == ignored_detectors(*found));
        },
    }
    let safe = keep_safe_names(&detectors);
    let r = ScanPolicy {
        allow_value_env_paths: keep_not_secret(&allow),
        ignore_paths: ignore,
        ignore_detectors: order::sort_set(&safe),
        max_files: match max_files {
            Some(n) => n,
            None => DEFAULT_MAX_SCAN_FILES,
        },
        max_file_bytes: match max_file_bytes {
            Some(n) => n,
            None => DEFAULT_MAX_TEXT_FILE_BYTES,
        },
    };
    proof {
        if config is None {
            reveal(Seq::filter);
            assert(none.filter(not_secret_rule()) == none);
            assert(none.filter(safe_name_rule()) == none);
            order::lemma_sorted_contains(none, Seq::empty());
            assert(order::sorted(none) == none);
        }
    }
    r
}

/// `policy` with the limits that `options` asks for.
pub fn apply_options(policy: ScanPolicy, options: &ScanOptions) -> (r: ScanPolicy)
    ensures
        r@ == with_options(policy@, *options),
{
    ScanPolicy {
        allow_value_env_paths: policy.allow_value_env_paths,
        ignore_paths: policy.ignore_paths,
        ignore_detectors: policy.ignore_detectors,
        max_files: match options.max_files {
            Some(n) => n,
            None => policy.max_files,
        },
        max_file_bytes: match options.max_file_bytes {
            Some(n) => n,
            None => policy.max_file_bytes,
        },
    }
}

/// Tests whether the policy allows the dotenv file at `path` to hold values.
pub fn policy_allows_value_env_path(path: &str, policy: &ScanPolicy) -> (r: bool)
    ensures
        r == paths::covered(policy@.allow_value_env_paths, path@),
{
    paths::any_pattern_matches(&policy.allow_value_env_paths, path)
}

/// Tests whether the policy leaves `path` out of the scan.
pub fn path_is_ignored(path: &str, policy: &ScanPolicy) -> (r: bool)
    ensures
        r == paths::covered(policy@.ignore_paths, path@),
{
    paths::any_pattern_matches(&policy.ignore_paths, path)
}

/// The names that a configuration file can have, in the order in which they are tried.
pub fn config_file_names() -> (r: [&'static str; 2])
    ensures
        text::strs(r@) == seq!["closeenv.yml"@, ".closeenv.yml"@],
{
    let r = ["closeenv.yml", ".closeenv.yml"];
    assert(text::strs(r@) =~= seq!["closeenv.yml"@, ".closeenv.yml"@]);
    r
}

} // verus!
