//! The command line.
use crate::number;
use crate::policy::{ScanMode, ScanOptions};
use crate::render::DEFAULT_TEXT_FINDING_LIMIT;
use crate::scan;
use crate::text;
use vstd::prelude::*;

verus! {

/// How a report is printed.
#[derive(Debug, Clone, Copy, PartialEq, Eq, Structural)]
pub enum OutputFormat {
    Text,
    Json,
    Sarif,
}

/// A scan that was asked for.
#[derive(Debug)]
pub struct ScanRequest {
    pub output_format: OutputFormat,
    pub fail_on_findings: bool,
    pub text_finding_limit: usize,
    pub options: ScanOptions,
    /// The path to scan; none where none was given.
    pub root: Option<String>,
}

/// What was asked for.
#[derive(Debug)]
pub enum CliCommand {
    Help,
    Version,
    Scan(ScanRequest),
}

/// What a request says.
pub struct RequestModel {
    pub output_format: OutputFormat,
    pub fail_on_findings: bool,
    pub text_finding_limit: usize,
    pub options: ScanOptions,
    pub root: Option<Seq<char>>,
}

/// What a command says.
pub enum CommandModel {
    Help,
    Version,
    Scan(RequestModel),
}

impl View for ScanRequest {
    type V = RequestModel;

    open spec fn view(&self) -> RequestModel {
        RequestModel {
            output_format: self.output_format,
            fail_on_findings: self.fail_on_findings,
            text_finding_limit: self.text_finding_limit,
            options: self.options,
            root: match self.root {
                Some(path) => Some(path@),
                None => None,
            },
        }
    }
}

/// The request where nothing is asked for.
pub open spec fn plain_request() -> RequestModel {
    RequestModel {
        output_format: OutputFormat::Text,
        fail_on_findings: true,
        text_finding_limit: DEFAULT_TEXT_FINDING_LIMIT,
        options: scan::default_options(),
        root: None,
    }
}

/// `word` asks for help.
pub open spec fn help_flag(word: Seq<char>) -> bool {
    word == "--help"@ || word == "-h"@
}

/// `word` asks for the version.
pub open spec fn version_flag(word: Seq<char>) -> bool {
    word == "--version"@ || word == "-V"@
}

/// The number of at most `max` that `flag` has at position `i` of `words`, or what is wrong with
/// it.
pub open spec fn number_at(words: Seq<Seq<char>>, i: int, flag: Seq<char>, max: nat) -> Result<
    nat,
    Seq<char>,
> {
    if i >= words.len() {
        Err(flag + " requires a value"@)
    } else {
        match number::parsed(words[i], max) {
            Some(n) => Ok(n),
            None => Err(flag + " requires a positive integer"@),
        }
    }
}

/// What `words` ask for from position `i` on where those before it ask for `request`, or what
/// is wrong with them.
pub open spec fn command_from(words: Seq<Seq<char>>, i: int, request: RequestModel) -> Result<
    CommandModel,
    Seq<char>,
>
    decreases words.len() - i,
{
    if i >= words.len() {
        Ok(CommandModel::Scan(request))
    } else {
        let word = words[i];
        if word == "--json"@ {
            let next = RequestModel { output_format: OutputFormat::Json, ..request };
            command_from(words, i + 1, next)
        } else if word == "--sarif"@ {
            let next = RequestModel { output_format: OutputFormat::Sarif, ..request };
            command_from(words, i + 1, next)
        } else if word == "--no-fail"@ {
            let next = RequestModel { fail_on_findings: false, ..request };
            command_from(words, i + 1, next)
        } else if word == "--staged"@ {
            let options = ScanOptions { mode: ScanMode::Staged, ..request.options };
            command_from(words, i + 1, RequestModel { options, ..request })
        } else if word == "--include-ignored"@ {
            let options = ScanOptions { include_ignored: true, ..request.options };
            command_from(words, i + 1, RequestModel { options, ..request })
        } else if word == "--max-files"@ {
            match number_at(words, i + 1, "--max-files"@, usize::MAX as nat) {
                Err(message) => Err(message),
                Ok(n) => {
                    let options = ScanOptions { max_files: Some(n as usize), ..request.options };
                    command_from(words, i + 2, RequestModel { options, ..request })
                },
            }
        } else if word == "--max-file-bytes"@ {
            match number_at(words, i + 1, "--max-file-bytes"@, u64::MAX as nat) {
                Err(message) => Err(message),
                Ok(n) => {
                    let options = ScanOptions {
                        max_file_bytes: Some(n as u64),
                        ..request.options
                    };
                    command_from(words, i + 2, RequestModel { options, ..request })
                },
            }
        } else if word == "--limit"@ {
            match number_at(words, i + 1, "--limit"@, usize::MAX as nat) {
                Err(message) => Err(message),
                Ok(n) => {
                    let next = RequestModel { text_finding_limit: n as usize, ..request };
                    command_from(words, i + 2, next)
                },
            }
        } else if help_flag(word) {
            Ok(CommandModel::Help)
        } else if version_flag(word) {
            Ok(CommandModel::Version)
        } else if text::starts_with(word, "-"@) {
            Err("unknown flag: "@ + word)
        } else if request.root is Some {
            Err("only one scan path is supported"@)
        } else {
            command_from(words, i + 1, RequestModel { root: Some(word), ..request })
        }
    }
}

/// What the words behind the program's name ask for, or what is wrong with them.
pub open spec fn command_of(words: Seq<Seq<char>>) -> Result<CommandModel, Seq<char>> {
    if words.len() > 0 && (words[0] == "help"@ || help_flag(words[0])) {
        Ok(CommandModel::Help)
    } else if words.len() > 0 && version_flag(words[0]) {
        Ok(CommandModel::Version)
    } else if words.len() > 0 && words[0] == "scan"@ {
        command_from(words, 1, plain_request())
    } else {
        command_from(words, 0, plain_request())
    }
}

/// The outcome of reading a command line as values.
pub open spec fn command_outcome(r: Result<CliCommand, String>) -> Result<
    CommandModel,
    Seq<char>,
> {
    match r {
        Ok(CliCommand::Help) => Ok(CommandModel::Help),
        Ok(CliCommand::Version) => Ok(CommandModel::Version),
        Ok(CliCommand::Scan(request)) => Ok(CommandModel::Scan(request@)),
        Err(message) => Err(message@),
    }
}

/// Tests whether `word` asks for help.
fn is_help_flag(word: &[char]) -> (r: bool)
    ensures
        r == help_flag(word@),
{
    text::same(word, "--help") || text::same(word, "-h")
}

/// Tests whether `word` asks for the version.
fn is_version_flag(word: &[char]) -> (r: bool)
    ensures
        r == version_flag(word@),
{
    text::same(word, "--version") || text::same(word, "-V")
}

/// The number of at most `max` that `flag` has at position `i` of `words`.
fn parse_number_arg(words: &[String], i: usize, flag: &str, max: u64) -> (r: Result<u64, String>)
    ensures
        match r {
            Ok(n) => n <= max && number_at(text::texts(words@), i as int, flag@, max as nat) == Ok::<
                nat,
                Seq<char>,
            >(n as nat),
            Err(message) => number_at(text::texts(words@), i as int, flag@, max as nat) == Err::<
                nat,
                Seq<char>,
            >(message@),
        },
{
    if i >= words.len() {
        let mut message = String::from_str(flag);
        message.append(" requires a value");
        return Err(message);
    }
    assert(text::texts(words@)[i as int] == words@[i as int]@);
    match number::parse_at_most(words[i].as_str(), max) {
        Some(n) => Ok(n),
        None => {
            let mut message = String::from_str(flag);
            message.append(" requires a positive integer");
            Err(message)
        },
    }
}

/// The number that `flag` has at position `i` of `words`.
pub fn parse_usize_arg(words: &[String], i: usize, flag: &str) -> (r: Result<usize, String>)
    ensures
        match r {
            Ok(n) => number_at(text::texts(words@), i as int, flag@, usize::MAX as nat) == Ok::<
                nat,
                Seq<char>,
            >(n as nat),
            Err(message) => number_at(text::texts(words@), i as int, flag@, usize::MAX as nat)
                == Err::<nat, Seq<char>>(message@),
        },
{
    match parse_number_arg(words, i, flag, usize::MAX as u64) {
        Ok(n) => Ok(n as usize),
        Err(message) => Err(message),
    }
}

/// The number that `flag` has at position `i` of `words`.
pub fn parse_u64_arg(words: &[String], i: usize, flag: &str) -> (r: Result<u64, String>)
    ensures
        match r {
            Ok(n) => number_at(text::texts(words@), i as int, flag@, u64::MAX as nat) == Ok::<
                nat,
                Seq<char>,
            >(n as nat),
            Err(message) => number_at(text::texts(words@), i as int, flag@, u64::MAX as nat)
                == Err::<nat, Seq<char>>(message@),
        },
{
    parse_number_arg(words, i, flag, u64::MAX)
}

/// What the words behind the program's name ask for, or what is wrong with them.
pub fn parse_args(words: &[String]) -> (r: Result<CliCommand, String>)
    ensures
        command_outcome(r) == command_of(text::texts(words@)),
{
    let ghost all = text::texts(words@);
    let mut i: usize = 0;
    if words.len() > 0 {
        let first = text::chars_of(words[0].as_str());
        assert(all[0] == first@);
        if text::same(&first, "help") || is_help_flag(&first) {
            return Ok(CliCommand::Help);
        }
        if is_version_flag(&first) {
            return Ok(CliCommand::Version);
        }
        if text::same(&first, "scan") {
            i = 1;
        }
    }
    let mut request = ScanRequest {
        output_format: OutputFormat::Text,
        fail_on_findings: true,
        text_finding_limit: DEFAULT_TEXT_FINDING_LIMIT,
        options: ScanOptions::default(),
        root: None,
    };
    while i < words.len()
        invariant
            i <= words@.len(),
            all == text::texts(words@),
            command_of(all) == command_from(all, i as int, request@),
        decreases words@.len() - i,
    {
        let word = text::chars_of(words[i].as_str());
        assert(all[i as int] == word@);
        if text::same(&word, "--json") {
            request.output_format = OutputFormat::Json;
        } else if text::same(&word, "--sarif") {
            request.output_format = OutputFormat::Sarif;
        } else if text::same(&word, "--no-fail") {
            request.fail_on_findings = false;
        } else if text::same(&word, "--staged") {
            request.options.mode = ScanMode::Staged;
        } else if text::same(&word, "--include-ignored") {
            request.options.include_ignored = true;
        } else if text::same(&word, "--max-files") {
            i = i + 1;
            match parse_usize_arg(words, i, "--max-files") {
                Ok(n) => {
                    request.options.max_files = Some(n);
                },
                Err(message) => return Err(message),
            }
        } else if text::same(&word, "--max-file-bytes") {
            i = i + 1;
            match parse_u64_arg(words, i, "--max-file-bytes") {
                Ok(n) => {
                    request.options.max_file_bytes = Some(n);
                },
                Err(message) => return Err(message),
            }
        } else if text::same(&word, "--limit") {
            i = i + 1;
            match parse_usize_arg(words, i, "--limit") {
                Ok(n) => {
                    request.text_finding_limit = n;
                },
                Err(message) => return Err(message),
            }
        } else if is_help_flag(&word) {
            return Ok(CliCommand::Help);
        } else if is_version_flag(&word) {
            return Ok(CliCommand::Version);
        } else if text::has_prefix(&word, "-") {
            let mut message = String::from_str("unknown flag: ");
            message.append(words[i].as_str());
            return Err(message);
        } else if request.root.is_some() {
            return Err(String::from_str("only one scan path is supported"));
        } else {
            request.root = Some(words[i].clone());
        }
        i = i + 1;
    }
    Ok(CliCommand::Scan(request))
}

/// The code with which the program exits after a scan: one where the scan did not pass, unless
/// that is not to count as a failure.
pub open spec fn exit_status(fail_on_findings: bool, passed: bool) -> u8 {
    if fail_on_findings && !passed {
        1
    } else {
        0
    }
}

/// The code with which the program exits after a scan.
pub fn exit_code(fail_on_findings: bool, passed: bool) -> (r: u8)
    ensures
        r == exit_status(fail_on_findings, passed),
{
    if fail_on_findings && !passed {
        1
    } else {
        0
    }
}

} // verus!
