//! What each word of the command line and each entry of the configuration changes.
use crate::cli;
use crate::cli::{CommandModel, OutputFormat, RequestModel};
use crate::laws::characters;
use crate::laws::examples;
use crate::listing;
use crate::listing::Listing;
use crate::number;
use crate::order;
use crate::policy;
use crate::policy::{CloseEnvConfig, PolicyModel, ScanMode, ScanOptions};
use crate::render;
use crate::scan;
use crate::text;
use vstd::prelude::*;

verus! {

/// Further words act on the request that the words before them made.
proof fn lemma_further_words(
    words: Seq<Seq<char>>,
    more: Seq<Seq<char>>,
    i: int,
    request: RequestModel,
)
    requires
        0 <= i,
    ensures
        match cli::command_from(words, i, request) {
            Ok(CommandModel::Scan(made)) => i <= words.len() ==> cli::command_from(
                words + more,
                i,
                request,
            ) == cli::command_from(words + more, words.len() as int, made),
            Ok(other) => cli::command_from(words + more, i, request) == Ok::<
                CommandModel,
                Seq<char>,
            >(other),
            Err(_) => true,
        },
    decreases words.len() - i,
{
    let longer = words + more;
    if i < words.len() {
        assert(longer[i] == words[i]);
        let word = words[i];
        let options = request.options;
        if i + 1 < words.len() {
            assert(longer[i + 1] == words[i + 1]);
            if let Some(n) = number::parsed(words[i + 1], usize::MAX as nat) {
                let files = ScanOptions { max_files: Some(n as usize), ..options };
                lemma_further_words(words, more, i + 2, RequestModel { options: files, ..request });
                let limited = RequestModel { text_finding_limit: n as usize, ..request };
                lemma_further_words(words, more, i + 2, limited);
            }
            if let Some(n) = number::parsed(words[i + 1], u64::MAX as nat) {
                let bytes = ScanOptions { max_file_bytes: Some(n as u64), ..options };
                lemma_further_words(words, more, i + 2, RequestModel { options: bytes, ..request });
            }
        }
        let staged = ScanOptions { mode: ScanMode::Staged, ..options };
        let complete = ScanOptions { include_ignored: true, ..options };
        let json = RequestModel { output_format: OutputFormat::Json, ..request };
        let sarif = RequestModel { output_format: OutputFormat::Sarif, ..request };
        lemma_further_words(words, more, i + 1, json);
        lemma_further_words(words, more, i + 1, sarif);
        lemma_further_words(words, more, i + 1, RequestModel { fail_on_findings: false, ..request });
        lemma_further_words(words, more, i + 1, RequestModel { options: staged, ..request });
        lemma_further_words(words, more, i + 1, RequestModel { options: complete, ..request });
        lemma_further_words(words, more, i + 1, RequestModel { root: Some(word), ..request });
    }
}

proof fn lemma_flags_differ()
    ensures
        ({
            let all = seq![
                "--json"@,
                "--sarif"@,
                "--no-fail"@,
                "--staged"@,
                "--include-ignored"@,
                "--max-files"@,
                "--max-file-bytes"@,
                "--limit"@,
                "--help"@,
                "-h"@,
                "--version"@,
                "-V"@,
            ];
            &&& forall|i: int, j: int|
                0 <= i < j < all.len() ==> #[trigger] all[i] != #[trigger] all[j]
            &&& forall|i: int|
                0 <= i < all.len() ==> (#[trigger] all[i]).len() > 0 && all[i][0] == '-'
            &&& "help"@.len() == 4 && "help"@[0] == 'h'
            &&& "scan"@.len() == 4 && "scan"@[0] == 's'
            &&& "-"@ == seq!['-']
        }),
{
    reveal_strlit("--json");
    reveal_strlit("--sarif");
    reveal_strlit("--no-fail");
    reveal_strlit("--staged");
    reveal_strlit("--include-ignored");
    reveal_strlit("--max-files");
    reveal_strlit("--max-file-bytes");
    reveal_strlit("--limit");
    reveal_strlit("--help");
    reveal_strlit("-h");
    reveal_strlit("--version");
    reveal_strlit("-V");
    reveal_strlit("help");
    reveal_strlit("scan");
    reveal_strlit("-");
    let all = seq![
        "--json"@,
        "--sarif"@,
        "--no-fail"@,
        "--staged"@,
        "--include-ignored"@,
        "--max-files"@,
        "--max-file-bytes"@,
        "--limit"@,
        "--help"@,
        "-h"@,
        "--version"@,
        "-V"@,
    ];
    assert(all[0].len() == 6 && all[1].len() == 7 && all[2].len() == 9 && all[3].len() == 8
        && all[4].len() == 17 && all[5].len() == 11 && all[6].len() == 16 && all[7].len() == 7
        && all[8].len() == 6 && all[9].len() == 2 && all[10].len() == 9 && all[11].len() == 2);
    assert(all[0][2] == 'j' && all[8][2] == 'h' && all[1][2] == 's' && all[7][2] == 'l'
        && all[2][2] == 'n' && all[10][2] == 'v' && all[9][1] == 'h' && all[11][1] == 'V');
    assert("-"@ =~= seq!['-']);
}

/// What a command line asks for once further words are appended to one that asks for a scan.
proof fn lemma_appended(words: Seq<Seq<char>>, more: Seq<Seq<char>>, made: RequestModel)
    requires
        cli::command_of(words) == Ok::<CommandModel, Seq<char>>(CommandModel::Scan(made)),
        more.len() > 0,
        words.len() > 0 || (more[0] != "help"@ && more[0] != "scan"@ && !cli::help_flag(more[0])
            && !cli::version_flag(more[0])),
    ensures
        cli::command_of(words + more) == cli::command_from(
            words + more,
            words.len() as int,
            made,
        ),
        (words + more)[words.len() as int] == more[0],
{
    let longer = words + more;
    if words.len() > 0 {
        assert(longer[0] == words[0]);
        let start: int = if words[0] == "scan"@ {
            1
        } else {
            0
        };
        lemma_further_words(words, more, start, cli::plain_request());
    } else {
        assert(longer[0] == more[0]);
    }
}

/// Where a command line asks for a scan, each flag appended to it changes one thing of the
/// request and nothing else.
pub proof fn law_flags(words: Seq<Seq<char>>, made: RequestModel)
    requires
        cli::command_of(words) == Ok::<CommandModel, Seq<char>>(CommandModel::Scan(made)),
    ensures
        cli::command_of(words + seq!["--json"@]) == Ok::<CommandModel, Seq<char>>(
            CommandModel::Scan(RequestModel { output_format: OutputFormat::Json, ..made }),
        ),
        cli::command_of(words + seq!["--sarif"@]) == Ok::<CommandModel, Seq<char>>(
            CommandModel::Scan(RequestModel { output_format: OutputFormat::Sarif, ..made }),
        ),
        cli::command_of(words + seq!["--no-fail"@]) == Ok::<CommandModel, Seq<char>>(
            CommandModel::Scan(RequestModel { fail_on_findings: false, ..made }),
        ),
        cli::command_of(words + seq!["--staged"@]) == Ok::<CommandModel, Seq<char>>(
            CommandModel::Scan(
                RequestModel {
                    options: ScanOptions { mode: ScanMode::Staged, ..made.options },
                    ..made
                },
            ),
        ),
        cli::command_of(words + seq!["--include-ignored"@]) == Ok::<CommandModel, Seq<char>>(
            CommandModel::Scan(
                RequestModel {
                    options: ScanOptions { include_ignored: true, ..made.options },
                    ..made
                },
            ),
        ),
        cli::command_of(words + seq!["--help"@]) == Ok::<CommandModel, Seq<char>>(
            CommandModel::Help,
        ),
        cli::command_of(words + seq!["-h"@]) == Ok::<CommandModel, Seq<char>>(CommandModel::Help),
        cli::command_of(words + seq!["--version"@]) == Ok::<CommandModel, Seq<char>>(
            CommandModel::Version,
        ),
        cli::command_of(words + seq!["-V"@]) == Ok::<CommandModel, Seq<char>>(
            CommandModel::Version,
        ),
        cli::command_of(words + seq!["--max-files"@]) == Err::<CommandModel, Seq<char>>(
            "--max-files"@ + " requires a value"@,
        ),
        cli::command_of(words + seq!["--max-file-bytes"@]) == Err::<CommandModel, Seq<char>>(
            "--max-file-bytes"@ + " requires a value"@,
        ),
        cli::command_of(words + seq!["--limit"@]) == Err::<CommandModel, Seq<char>>(
            "--limit"@ + " requires a value"@,
        ),
{
    lemma_flags_differ();
    let all = seq![
        "--json"@,
        "--sarif"@,
        "--no-fail"@,
        "--staged"@,
        "--include-ignored"@,
        "--max-files"@,
        "--max-file-bytes"@,
        "--limit"@,
        "--help"@,
        "-h"@,
        "--version"@,
        "-V"@,
    ];
    let n = words.len() as int;
    assert(all[0] == "--json"@ && all[1] == "--sarif"@ && all[2] == "--no-fail"@ && all[3]
        == "--staged"@ && all[4] == "--include-ignored"@ && all[5] == "--max-files"@ && all[6]
        == "--max-file-bytes"@ && all[7] == "--limit"@ && all[8] == "--help"@ && all[9] == "-h"@
        && all[10] == "--version"@ && all[11] == "-V"@);
    assert forall|k: int| 0 <= k < 12 implies #[trigger] all[k] != "help"@ && all[k] != "scan"@ by {
        assert(all[k][0] == '-');
    }
    assert forall|k: int| 0 <= k < 8 implies cli::command_of(words + seq![#[trigger] all[k]])
        == cli::command_from(words + seq![all[k]], n, made) && (words + seq![all[k]])[n]
        == all[k] by {
        lemma_appended(words, seq![all[k]], made);
    }
    lemma_end(words + seq!["--json"@], RequestModel {
        output_format: OutputFormat::Json,
        ..made
    });
    lemma_end(words + seq!["--sarif"@], RequestModel {
        output_format: OutputFormat::Sarif,
        ..made
    });
    lemma_end(words + seq!["--no-fail"@], RequestModel { fail_on_findings: false, ..made });
    lemma_end(words + seq!["--staged"@], RequestModel {
        options: ScanOptions { mode: ScanMode::Staged, ..made.options },
        ..made
    });
    lemma_end(words + seq!["--include-ignored"@], RequestModel {
        options: ScanOptions { include_ignored: true, ..made.options },
        ..made
    });
    assert forall|k: int| 8 <= k < 12 implies (n == 0 ==> (words + seq![#[trigger] all[k]])[0]
        == all[k]) && (n > 0 ==> cli::command_of(words + seq![all[k]]) == cli::command_from(
        words + seq![all[k]],
        n,
        made,
    )) && (words + seq![all[k]])[n] == all[k] by {
        if n > 0 {
            lemma_appended(words, seq![all[k]], made);
        }
    }
}

proof fn lemma_end(words: Seq<Seq<char>>, made: RequestModel)
    ensures
        cli::command_from(words, words.len() as int, made) == Ok::<CommandModel, Seq<char>>(
            CommandModel::Scan(made),
        ),
{
}

/// A number behind its flag sets the limit that the flag stands for; anything else behind it is
/// refused.
pub proof fn law_flags_with_numbers(words: Seq<Seq<char>>, value: Seq<char>, made: RequestModel)
    requires
        cli::command_of(words) == Ok::<CommandModel, Seq<char>>(CommandModel::Scan(made)),
    ensures
        cli::command_of(words + seq!["--max-files"@, value]) == (match number::parsed(
            value,
            usize::MAX as nat,
        ) {
            Some(n) => Ok::<CommandModel, Seq<char>>(
                CommandModel::Scan(
                    RequestModel {
                        options: ScanOptions { max_files: Some(n as usize), ..made.options },
                        ..made
                    },
                ),
            ),
            None => Err("--max-files"@ + " requires a positive integer"@),
        }),
        cli::command_of(words + seq!["--max-file-bytes"@, value]) == (match number::parsed(
            value,
            u64::MAX as nat,
        ) {
            Some(n) => Ok::<CommandModel, Seq<char>>(
                CommandModel::Scan(
                    RequestModel {
                        options: ScanOptions { max_file_bytes: Some(n as u64), ..made.options },
                        ..made
                    },
                ),
            ),
            None => Err("--max-file-bytes"@ + " requires a positive integer"@),
        }),
        cli::command_of(words + seq!["--limit"@, value]) == (match number::parsed(
            value,
            usize::MAX as nat,
        ) {
            Some(n) => Ok::<CommandModel, Seq<char>>(
                CommandModel::Scan(RequestModel { text_finding_limit: n as usize, ..made }),
            ),
            None => Err("--limit"@ + " requires a positive integer"@),
        }),
{
    lemma_flags_differ();
    let all = seq![
        "--json"@,
        "--sarif"@,
        "--no-fail"@,
        "--staged"@,
        "--include-ignored"@,
        "--max-files"@,
        "--max-file-bytes"@,
        "--limit"@,
        "--help"@,
        "-h"@,
        "--version"@,
        "-V"@,
    ];
    let n = words.len() as int;
    assert(all[0] == "--json"@ && all[1] == "--sarif"@ && all[2] == "--no-fail"@ && all[3]
        == "--staged"@ && all[4] == "--include-ignored"@ && all[5] == "--max-files"@ && all[6]
        == "--max-file-bytes"@ && all[7] == "--limit"@ && all[8] == "--help"@ && all[9] == "-h"@
        && all[10] == "--version"@ && all[11] == "-V"@);
    assert forall|k: int| 5 <= k < 8 implies cli::command_of(words + seq![#[trigger] all[k], value])
        == cli::command_from(words + seq![all[k], value], n, made) && (words + seq![
        all[k],
        value,
    ])[n] == all[k] && (words + seq![all[k], value])[n + 1] == value by {
        assert(all[k][0] == '-');
        assert(all[k] != "help"@ && all[k] != "scan"@);
        lemma_appended(words, seq![all[k], value], made);
    }
    assert(words + seq!["--max-files"@, value] == words + seq![all[5], value]);
    assert(words + seq!["--max-file-bytes"@, value] == words + seq![all[6], value]);
    assert(words + seq!["--limit"@, value] == words + seq![all[7], value]);
    if let Some(n) = number::parsed(value, usize::MAX as nat) {
        let files = ScanOptions { max_files: Some(n as usize), ..made.options };
        lemma_end(words + seq!["--max-files"@, value], RequestModel { options: files, ..made });
        let limited = RequestModel { text_finding_limit: n as usize, ..made };
        lemma_end(words + seq!["--limit"@, value], limited);
    }
    if let Some(n) = number::parsed(value, u64::MAX as nat) {
        let bytes = ScanOptions { max_file_bytes: Some(n as u64), ..made.options };
        lemma_end(words + seq!["--max-file-bytes"@, value], RequestModel { options: bytes, ..made });
    }
}

/// A word that does not start with `-` is the path to scan, of which there is one at most; a word
/// that does and is no flag is refused.
pub proof fn law_other_words(words: Seq<Seq<char>>, word: Seq<char>, made: RequestModel)
    requires
        cli::command_of(words) == Ok::<CommandModel, Seq<char>>(CommandModel::Scan(made)),
        words.len() > 0 || (word != "help"@ && word != "scan"@),
        word != "--json"@ && word != "--sarif"@ && word != "--no-fail"@ && word != "--staged"@
            && word != "--include-ignored"@ && word != "--max-files"@ && word
            != "--max-file-bytes"@ && word != "--limit"@ && word != "--help"@ && word != "-h"@
            && word != "--version"@ && word != "-V"@,
    ensures
        cli::command_of(words + seq![word]) == (if word.len() > 0 && word[0] == '-' {
            Err::<CommandModel, Seq<char>>("unknown flag: "@ + word)
        } else if made.root is Some {
            Err("only one scan path is supported"@)
        } else {
            Ok(CommandModel::Scan(RequestModel { root: Some(word), ..made }))
        }),
{
    lemma_flags_differ();
    lemma_appended(words, seq![word], made);
    lemma_end(words + seq![word], RequestModel { root: Some(word), ..made });
    if word.len() > 0 {
        assert(word.subrange(0, 1) =~= seq![word[0]]);
        assert(seq![word[0]][0] == word[0] && seq!['-'][0] == '-');
    }
}

/// Without words a scan is asked for that prints text, fails on findings, shows eight findings of
/// each check, takes the working tree without ignored files, and names no path.
pub proof fn law_no_words()
    ensures
        cli::command_of(Seq::empty()) == Ok::<CommandModel, Seq<char>>(
            CommandModel::Scan(
                RequestModel {
                    output_format: OutputFormat::Text,
                    fail_on_findings: true,
                    text_finding_limit: 8,
                    options: ScanOptions {
                        mode: ScanMode::WorkingTree,
                        include_ignored: false,
                        max_files: None,
                        max_file_bytes: None,
                    },
                    root: None,
                },
            ),
        ),
        cli::command_of(seq!["scan"@]) == cli::command_of(Seq::empty()),
        cli::command_of(seq!["help"@]) == Ok::<CommandModel, Seq<char>>(CommandModel::Help),
        scan::default_options() == (ScanOptions {
            mode: ScanMode::WorkingTree,
            include_ignored: false,
            max_files: None,
            max_file_bytes: None,
        }),
{
    lemma_flags_differ();
    let all = seq![
        "--json"@,
        "--sarif"@,
        "--no-fail"@,
        "--staged"@,
        "--include-ignored"@,
        "--max-files"@,
        "--max-file-bytes"@,
        "--limit"@,
        "--help"@,
        "-h"@,
        "--version"@,
        "-V"@,
    ];
    assert(all[8][0] == '-' && all[9][0] == '-' && all[10][0] == '-' && all[11][0] == '-');
    let one = seq!["scan"@];
    assert(one[0] == "scan"@);
    assert(cli::command_from(one, 1, cli::plain_request()) == Ok::<CommandModel, Seq<char>>(
        CommandModel::Scan(cli::plain_request()),
    ));
}

/// A value looks like a secret where it starts with one of five texts or holds one of three, the
/// word `bearer` and the signatures in any case of letters.
pub proof fn law_secret_looks(value: Seq<char>)
    ensures
        policy::looks_secret(value) <==> (characters::begins(value, "efp__"@)
            || characters::begins(value, "eft__"@) || characters::begins(value, "efu__"@)
            || characters::begins(value, "sk-"@) || examples::read_at(value, "bearer "@, 0) || (
        exists|i: int| examples::read_at(value, "x-amz-signature="@, i)) || (exists|i: int|
            examples::read_at(value, "sig="@, i)) || characters::stands_in(value, "-----BEGIN "@)),
{
    characters::law_occurrences_only_there(value, "efp__"@, 0);
    characters::law_occurrences_only_there(value, "eft__"@, 0);
    characters::law_occurrences_only_there(value, "efu__"@, 0);
    characters::law_occurrences_only_there(value, "sk-"@, 0);
    characters::law_occurrences_only_there(value, "-----BEGIN "@, 0);
    examples::lemma_read_at(value, "bearer "@, 0);
    lemma_read_somewhere(value, "x-amz-signature="@);
    lemma_read_somewhere(value, "sig="@);
}

proof fn lemma_read_somewhere(value: Seq<char>, word: Seq<char>)
    ensures
        text::occurs(text::lower(value), word) <==> exists|i: int|
            examples::read_at(value, word, i),
{
    let low = text::lower(value);
    if text::occurs(low, word) {
        let i = choose|i: int| text::occurs_at(low, word, i);
        examples::lemma_read_at(value, word, i);
        assert(examples::read_at(value, word, i));
    }
    if exists|i: int| examples::read_at(value, word, i) {
        let i = choose|i: int| examples::read_at(value, word, i);
        examples::lemma_read_at(value, word, i);
        assert(text::occurs_at(low, word, i));
    }
}

/// The name of a detector can be ignored where it is one to sixty-four lower-case letters, digits
/// and hyphens.
pub proof fn law_detector_names(name: Seq<char>)
    ensures
        policy::safe_detector_name(name) <==> 1 <= name.len() <= 64 && forall|i: int|
            0 <= i < name.len() ==> ('a' <= #[trigger] name[i] && name[i] <= 'z') || ('0'
                <= name[i] && name[i] <= '9') || name[i] == '-',
{
    if forall|i: int| 0 <= i < name.len() ==> policy::label_char(#[trigger] name[i]) {
        characters::law_ascii_length(name);
    }
    if forall|i: int|
        0 <= i < name.len() ==> ('a' <= #[trigger] name[i] && name[i] <= 'z') || ('0' <= name[i]
            && name[i] <= '9') || name[i] == '-' {
        assert forall|i: int| 0 <= i < name.len() implies policy::label_char(
            #[trigger] name[i],
        ) by {}
        characters::law_ascii_length(name);
    }
}

/// What stands in the policy of a configuration: the allowed paths of both places that do not
/// look like secrets, the ignored paths of both places, the ignored detectors of both places with
/// the form of a name, and the limits, where those under `closeenv` count first and fifty thousand
/// files and a mebibyte count last.
pub proof fn law_policy_entries(config: CloseEnvConfig, entry: Seq<char>)
    ensures
        ({
            let made = policy::policy_of(config);
            let within = config.closeenv;
            &&& made.allow_value_env_paths.contains(entry) <==> !policy::looks_secret(entry) && (
            policy::listed(config.allow_value_env_paths).contains(entry) || (within is Some
                && policy::listed(within->0.allow_value_env_paths).contains(entry)))
            &&& made.ignore_paths.contains(entry) <==> policy::listed(config.ignore_paths).contains(
                entry,
            ) || (within is Some && policy::listed(within->0.ignore_paths).contains(entry))
            &&& made.ignore_detectors.contains(entry) <==> policy::safe_detector_name(entry) && (
            policy::listed(config.ignore_detectors).contains(entry) || (within is Some
                && policy::listed(within->0.ignore_detectors).contains(entry)))
            &&& made.max_files == (if within is Some && within->0.max_files is Some {
                within->0.max_files->0
            } else if config.max_files is Some {
                config.max_files->0
            } else {
                50000
            })
            &&& made.max_file_bytes == (if within is Some && within->0.max_file_bytes is Some {
                within->0.max_file_bytes->0
            } else if config.max_file_bytes is Some {
                config.max_file_bytes->0
            } else {
                1048576
            })
        }),
{
    let made = policy::policy_of(config);
    let allowed = policy::allowed_paths(config);
    let detectors = policy::ignored_detectors(config);
    lemma_filtered(allowed, policy::not_secret_rule(), entry);
    lemma_filtered(detectors, policy::safe_name_rule(), entry);
    order::lemma_sorted_set(detectors.filter(policy::safe_name_rule()));
    assert(made.ignore_detectors.contains(entry) <==> detectors.filter(
        policy::safe_name_rule(),
    ).contains(entry));
    match config.closeenv {
        Some(inner) => {
            lemma_either(
                policy::listed(config.allow_value_env_paths),
                policy::listed(inner.allow_value_env_paths),
                entry,
            );
            lemma_either(
                policy::listed(config.ignore_paths),
                policy::listed(inner.ignore_paths),
                entry,
            );
            lemma_either(
                policy::listed(config.ignore_detectors),
                policy::listed(inner.ignore_detectors),
                entry,
            );
        },
        None => {},
    }
}

proof fn lemma_filtered(
    all: Seq<Seq<char>>,
    rule: spec_fn(Seq<char>) -> bool,
    entry: Seq<char>,
)
    ensures
        all.filter(rule).contains(entry) <==> all.contains(entry) && rule(entry),
{
    let kept = all.filter(rule);
    if kept.contains(entry) {
        all.lemma_filter_contains_rev(rule, entry);
        let i = choose|i: int| 0 <= i < kept.len() && kept[i] == entry;
        all.lemma_filter_pred(rule, i);
    }
    if all.contains(entry) && rule(entry) {
        let i = choose|i: int| 0 <= i < all.len() && all[i] == entry;
        all.lemma_filter_contains(rule, i);
    }
}

proof fn lemma_either(a: Seq<Seq<char>>, b: Seq<Seq<char>>, entry: Seq<char>)
    ensures
        (a + b).contains(entry) <==> a.contains(entry) || b.contains(entry),
{
    let all = a + b;
    if all.contains(entry) {
        let i = choose|i: int| 0 <= i < all.len() && all[i] == entry;
        if i < a.len() {
            assert(a[i] == entry);
        } else {
            assert(b[i - a.len()] == entry);
        }
    }
    if a.contains(entry) {
        let i = choose|i: int| 0 <= i < a.len() && a[i] == entry;
        assert(all[i] == entry);
    }
    if b.contains(entry) {
        let i = choose|i: int| 0 <= i < b.len() && b[i] == entry;
        assert(all[a.len() + i] == entry);
    }
}

/// A repository without a configuration ignores and allows nothing and has the limits of fifty
/// thousand files and a mebibyte; the options change the limits that they name and nothing else.
pub proof fn law_policy_of_options(
    made: PolicyModel,
    options: ScanOptions,
    config: CloseEnvConfig,
    list: Vec<String>,
)
    ensures
        policy::configured_policy(Some(config)) == policy::policy_of(config),
        policy::listed(None).len() == 0,
        policy::listed(Some(list)).len() == list@.len(),
        forall|i: int|
            0 <= i < list@.len() ==> #[trigger] policy::listed(Some(list))[i] == list@[i]@,
        policy::configured_policy(None) == (PolicyModel {
            allow_value_env_paths: Seq::empty(),
            ignore_paths: Seq::empty(),
            ignore_detectors: Seq::empty(),
            max_files: 50000,
            max_file_bytes: 1048576,
        }),
        ({
            let changed = policy::with_options(made, options);
            &&& changed.allow_value_env_paths == made.allow_value_env_paths
            &&& changed.ignore_paths == made.ignore_paths
            &&& changed.ignore_detectors == made.ignore_detectors
            &&& options.max_files matches Some(n) ==> changed.max_files == n
            &&& options.max_files is None ==> changed.max_files == made.max_files
            &&& options.max_file_bytes matches Some(n) ==> changed.max_file_bytes == n
            &&& options.max_file_bytes is None ==> changed.max_file_bytes == made.max_file_bytes
        }),
{
}

/// Git lists the files of a repository that it keeps, unless ignored files are asked for: of the
/// working tree those that it tracks and those that it neither tracks nor ignores, and of the
/// index those that were added, copied, modified or renamed.
pub proof fn law_git_runs(options: ScanOptions, has_git_dir: bool)
    ensures
        listing::git_arguments(options, has_git_dir) is Some <==> has_git_dir
            && !options.include_ignored,
        has_git_dir && !options.include_ignored && options.mode == ScanMode::WorkingTree
            ==> listing::git_arguments(options, has_git_dir) == Some(
            seq!["ls-files"@, "-co"@, "--exclude-standard"@],
        ),
        has_git_dir && !options.include_ignored && options.mode == ScanMode::Staged
            ==> listing::git_arguments(options, has_git_dir) == Some(
            seq!["diff"@, "--name-only"@, "--cached"@, "--diff-filter=ACMR"@],
        ),
        listing::GIT_TIMEOUT_MS == 10000,
        listing::GIT_POLL_MS == 25,
{
}

/// The paths that a scan stays with are those that git listed as staged, where these were asked
/// for; there are none where a walk or the working tree was asked for.
pub proof fn law_staged_paths(list: Listing, mode: ScanMode)
    ensures
        listing::staged_paths(list, mode) is Some <==> mode == ScanMode::Staged && list is Git,
        listing::staged_paths(list, mode) matches Some(paths) ==> paths == text::texts(
            list->Git_0@,
        ),
{
}

/// The help names the program, shows how it is called with every flag of the command line, and
/// says what it is for.
pub proof fn law_help()
    ensures
        characters::stands_in(render::help(), "--json"@),
        characters::stands_in(render::help(), "--sarif"@),
        characters::stands_in(render::help(), "--staged"@),
        characters::stands_in(render::help(), "--include-ignored"@),
        characters::stands_in(render::help(), "--max-files"@),
        characters::stands_in(render::help(), "--max-file-bytes"@),
        characters::stands_in(render::help(), "--limit"@),
        characters::stands_in(render::help(), "--no-fail"@),
        characters::stands_in(render::help(), "[path]"@),
        characters::begins(render::help(), "CloseEnv\n\nUsage:\n  closeenv scan [path] "@),
        characters::ends(render::help(), "\n\nChecks whether a repository is safe to publish without printing secret values.\n"@),
{
    let help = render::help();
    reveal_strlit("CloseEnv\n\nUsage:\n  closeenv scan [path] [--json|--sarif] [--staged] [--include-ignored]\n                [--max-files <n>] [--max-file-bytes <bytes>] [--limit <n>] [--no-fail]\n\nChecks whether a repository is safe to publish without printing secret values.\n");
    reveal_strlit("CloseEnv\n\nUsage:\n  closeenv scan [path] ");
    reveal_strlit("\n\nChecks whether a repository is safe to publish without printing secret values.\n");
    reveal_strlit("--json");
    reveal_strlit("--sarif");
    reveal_strlit("--staged");
    reveal_strlit("--include-ignored");
    reveal_strlit("--max-files");
    reveal_strlit("--max-file-bytes");
    reveal_strlit("--limit");
    reveal_strlit("--no-fail");
    reveal_strlit("[path]");
    assert(help.subrange(41, 47) =~= "--json"@);
    assert(characters::stands_at(help, "--json"@, 41));
    assert(help.subrange(48, 55) =~= "--sarif"@);
    assert(characters::stands_at(help, "--sarif"@, 48));
    assert(help.subrange(58, 66) =~= "--staged"@);
    assert(characters::stands_at(help, "--staged"@, 58));
    assert(help.subrange(69, 86) =~= "--include-ignored"@);
    assert(characters::stands_at(help, "--include-ignored"@, 69));
    assert(help.subrange(105, 116) =~= "--max-files"@);
    assert(characters::stands_at(help, "--max-files"@, 105));
    assert(help.subrange(123, 139) =~= "--max-file-bytes"@);
    assert(characters::stands_at(help, "--max-file-bytes"@, 123));
    assert(help.subrange(150, 157) =~= "--limit"@);
    assert(characters::stands_at(help, "--limit"@, 150));
    assert(help.subrange(164, 173) =~= "--no-fail"@);
    assert(characters::stands_at(help, "--no-fail"@, 164));
    assert(help.subrange(33, 39) =~= "[path]"@);
    assert(characters::stands_at(help, "[path]"@, 33));
    assert(help.take(40) =~= "CloseEnv\n\nUsage:\n  closeenv scan [path] "@);
    assert(help.skip(174) =~= "\n\nChecks whether a repository is safe to publish without printing secret values.\n"@);
}

/// Git is looked for in six directories of the system, or in three on Windows.
pub proof fn law_search_path()
    ensures
        listing::search_path(false) == "/usr/bin"@ + ":/bin"@ + ":/usr/sbin"@ + ":/sbin"@
            + ":/opt/homebrew/bin"@ + ":/usr/local/bin"@,
        listing::search_path(true) == "C:\\Windows\\System32"@ + ";C:\\Windows"@
            + ";C:\\Windows\\System32\\WindowsPowerShell\\v1.0"@,
{
    reveal_strlit("/usr/bin:/bin:/usr/sbin:/sbin:/opt/homebrew/bin:/usr/local/bin");
    reveal_strlit("/usr/bin");
    reveal_strlit(":/bin");
    reveal_strlit(":/usr/sbin");
    reveal_strlit(":/sbin");
    reveal_strlit(":/opt/homebrew/bin");
    reveal_strlit(":/usr/local/bin");
    reveal_strlit(
        "C:\\Windows\\System32;C:\\Windows;C:\\Windows\\System32\\WindowsPowerShell\\v1.0",
    );
    reveal_strlit("C:\\Windows\\System32");
    reveal_strlit(";C:\\Windows");
    reveal_strlit(";C:\\Windows\\System32\\WindowsPowerShell\\v1.0");
}

/// Texts are ordered by the first character in which they differ, and a text comes before those
/// that go on behind it.
pub proof fn law_text_order(a: Seq<char>, c: char, x: Seq<char>, d: char, y: Seq<char>)
    ensures
        order::at_most(a, a + x),
        x.len() > 0 ==> !order::at_most(a + x, a),
        c != d ==> (order::at_most(a + seq![c] + x, a + seq![d] + y) <==> (c as int) < (d as int)),
    decreases a.len(),
{
    if a.len() == 0 {
        let left = a + seq![c] + x;
        let right = a + seq![d] + y;
        assert(left[0] == c && right[0] == d);
    } else {
        let rest = a.drop_first();
        law_text_order(rest, c, x, d, y);
        assert((a + x).drop_first() =~= rest + x);
        assert((a + seq![c] + x).drop_first() =~= rest + seq![c] + x);
        assert((a + seq![d] + y).drop_first() =~= rest + seq![d] + y);
        assert((a + x)[0] == a[0]);
        assert((a + seq![c] + x)[0] == a[0]);
        assert((a + seq![d] + y)[0] == a[0]);
    }
}

/// A sorted list holds what the list holds, as often and in ascending order, and a set holds it
/// once.
pub proof fn law_sorted_lists(all: Seq<Seq<char>>, entry: Seq<char>)
    ensures
        order::sorted(all).to_multiset() == all.to_multiset(),
        vstd::relations::sorted_by(order::sorted(all), order::text_order()),
        order::strictly_ascending(order::sorted_set(all)),
        order::sorted_set(all).contains(entry) <==> all.contains(entry),
{
    order::lemma_total_order();
    all.lemma_sort_by_ensures(order::text_order());
    order::lemma_sorted_set(all);
}

} // verus!
