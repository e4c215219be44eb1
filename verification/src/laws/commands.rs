//! What the command line asks for.
use crate::cli;
use crate::cli::{CommandModel, OutputFormat, RequestModel};
use crate::number;
use crate::policy::{ScanMode, ScanOptions};
use vstd::prelude::*;

verus! {

/// One word more in front moves every position by one.
proof fn lemma_shifted(first: Seq<char>, words: Seq<Seq<char>>, i: int, request: RequestModel)
    requires
        0 <= i,
    ensures
        cli::command_from(seq![first] + words, i + 1, request) == cli::command_from(
            words,
            i,
            request,
        ),
    decreases words.len() - i,
{
    let longer = seq![first] + words;
    assert(longer.len() == words.len() + 1);
    if i < words.len() {
        assert(longer[i + 1] == words[i]);
        let word = words[i];
        let options = request.options;
        if i + 1 < words.len() {
            assert(longer[i + 2] == words[i + 1]);
            if let Some(n) = number::parsed(words[i + 1], usize::MAX as nat) {
                let files = ScanOptions { max_files: Some(n as usize), ..options };
                lemma_shifted(first, words, i + 2, RequestModel { options: files, ..request });
                let limited = RequestModel { text_finding_limit: n as usize, ..request };
                lemma_shifted(first, words, i + 2, limited);
            }
            if let Some(n) = number::parsed(words[i + 1], u64::MAX as nat) {
                let bytes = ScanOptions { max_file_bytes: Some(n as u64), ..options };
                lemma_shifted(first, words, i + 2, RequestModel { options: bytes, ..request });
            }
        }
        let staged = ScanOptions { mode: ScanMode::Staged, ..options };
        let complete = ScanOptions { include_ignored: true, ..options };
        let json = RequestModel { output_format: OutputFormat::Json, ..request };
        let sarif = RequestModel { output_format: OutputFormat::Sarif, ..request };
        lemma_shifted(first, words, i + 1, json);
        lemma_shifted(first, words, i + 1, sarif);
        lemma_shifted(first, words, i + 1, RequestModel { fail_on_findings: false, ..request });
        lemma_shifted(first, words, i + 1, RequestModel { options: staged, ..request });
        lemma_shifted(first, words, i + 1, RequestModel { options: complete, ..request });
        lemma_shifted(first, words, i + 1, RequestModel { root: Some(word), ..request });
    }
}

/// The word `scan` in front can be left out, unless what follows it is `help` or `scan`, which
/// are paths only behind it.
pub proof fn law_scan_can_be_left_out(words: Seq<Seq<char>>)
    requires
        words.len() > 0 ==> words[0] != "help"@ && words[0] != "scan"@,
    ensures
        cli::command_of(seq!["scan"@] + words) == cli::command_of(words),
{
    reveal_strlit("scan");
    reveal_strlit("help");
    reveal_strlit("--help");
    reveal_strlit("-h");
    reveal_strlit("--version");
    reveal_strlit("-V");
    reveal_strlit("--json");
    reveal_strlit("--sarif");
    reveal_strlit("--no-fail");
    reveal_strlit("--staged");
    reveal_strlit("--include-ignored");
    reveal_strlit("--max-files");
    reveal_strlit("--max-file-bytes");
    reveal_strlit("--limit");
    let longer = seq!["scan"@] + words;
    let request = cli::plain_request();
    assert(longer[0] == "scan"@);
    assert(longer[0].len() == 4);
    assert("help"@[0] != "scan"@[0]);
    assert("--help"@.len() == 6);
    assert("-h"@.len() == 2);
    assert("--version"@.len() == 9);
    assert("-V"@.len() == 2);
    lemma_shifted("scan"@, words, 0, request);
    if words.len() > 0 && cli::help_flag(words[0]) {
        lemma_flag_is_no_other(words[0]);
        assert(cli::command_from(words, 0, request) == Ok::<CommandModel, Seq<char>>(
            CommandModel::Help,
        ));
    } else if words.len() > 0 && cli::version_flag(words[0]) {
        lemma_flag_is_no_other(words[0]);
        assert(cli::command_from(words, 0, request) == Ok::<CommandModel, Seq<char>>(
            CommandModel::Version,
        ));
    }
}

/// The flags for help and for the version are none of the other flags.
proof fn lemma_flag_is_no_other(word: Seq<char>)
    requires
        cli::help_flag(word) || cli::version_flag(word),
    ensures
        word != "--json"@,
        word != "--sarif"@,
        word != "--no-fail"@,
        word != "--staged"@,
        word != "--include-ignored"@,
        word != "--max-files"@,
        word != "--max-file-bytes"@,
        word != "--limit"@,
        cli::version_flag(word) ==> !cli::help_flag(word),
{
    reveal_strlit("--help");
    reveal_strlit("-h");
    reveal_strlit("--version");
    reveal_strlit("-V");
    reveal_strlit("--json");
    reveal_strlit("--sarif");
    reveal_strlit("--no-fail");
    reveal_strlit("--staged");
    reveal_strlit("--include-ignored");
    reveal_strlit("--max-files");
    reveal_strlit("--max-file-bytes");
    reveal_strlit("--limit");
    assert("--help"@[2] == 'h' && "--json"@[2] == 'j' && "--sarif"@[2] == 's' && "--limit"@[2]
        == 'l' && "--version"@[2] == 'v');
    assert("--no-fail"@[2] == 'n' && "--staged"@[2] == 's' && "--include-ignored"@[2] == 'i'
        && "--max-files"@[2] == 'm' && "--max-file-bytes"@[2] == 'm');
    assert("-h"@.len() == 2 && "-V"@.len() == 2);
    assert("-h"@[1] == 'h' && "-V"@[1] == 'V');
}

} // verus!
