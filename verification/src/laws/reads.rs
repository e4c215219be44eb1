//! What a scan reads.
use crate::checks;
use crate::checks::{ContentCheck, InputModel};
use crate::content;
use crate::content::{FileRead, ReadFault};
use crate::error::ScanError;
use crate::listing;
use crate::listing::Listing;
use crate::policy::ScanOptions;
use crate::scan;
use crate::scan::Repository;
use vstd::prelude::*;

verus! {

proof fn lemma_same_gathered(check: ContentCheck, input: InputModel, other: InputModel, n: nat)
    requires
        other == (InputModel { reads: other.reads, ..input }),
        n <= input.files.len(),
        forall|i: int|
            0 <= i < input.files.len() && checks::contents_matter(#[trigger] input.files[i])
                ==> input.read_at(i) == other.read_at(i),
    ensures
        check.gathered(input, n) == check.gathered(other, n),
    decreases n,
{
    if n > 0 {
        let i = n - 1;
        lemma_same_gathered(check, input, other, i as nat);
        if check.concerns(input.files[i]) {
            assert(checks::contents_matter(input.files[i]));
            assert(input.read_at(i) == other.read_at(i));
            assert(input.text_at(i) == other.text_at(i));
            assert(input.small_text_at(i) == other.small_text_at(i));
        }
        assert(check.findings_at(input, i) == check.findings_at(other, i));
    }
}

/// What was read of a file that no check looks into does not matter.
pub proof fn law_other_files_need_not_be_read(input: InputModel, other: InputModel)
    requires
        other == (InputModel { reads: other.reads, ..input }),
        forall|i: int|
            0 <= i < input.files.len() && checks::contents_matter(#[trigger] input.files[i])
                ==> input.read_at(i) == other.read_at(i),
    ensures
        scan::checked(input) == scan::checked(other),
{
    let n = input.files.len();
    lemma_same_gathered(ContentCheck::Examples, input, other, n);
    lemma_same_gathered(ContentCheck::RawPatterns, input, other, n);
    lemma_same_gathered(ContentCheck::Scripts, input, other, n);
    lemma_same_gathered(ContentCheck::Compose, input, other, n);
}

/// The bytes of a file that the file system reports to be longer than the cap do not matter: it
/// need not be read.
pub proof fn law_reads_are_capped(read: FileRead, other: FileRead, max_bytes: u64)
    requires
        read.reported_len == other.reported_len,
        read.reported_len matches Some(len) && len > max_bytes,
    ensures
        content::limited_text(read, max_bytes) == content::limited_text(other, max_bytes),
        content::limited_text(read, max_bytes) == Err::<Seq<char>, ReadFault>(ReadFault::OverCap),
        content::small_text(read, max_bytes) == content::small_text(other, max_bytes),
        content::small_text(read, max_bytes) == Ok::<Option<Seq<char>>, ReadFault>(None),
{
}

/// The file at position `i` explains the error that a check gives.
pub open spec fn explains(error: ScanError, input: InputModel, check: ContentCheck, i: int) -> bool {
    &&& 0 <= i < input.files.len()
    &&& check.concerns(input.files[i])
    &&& match error {
        ScanError::TooManyFiles => false,
        ScanError::UnfinishedWalk => false,
        ScanError::Unreadable(at) => at == i as usize && match input.read_at(i) {
            None => true,
            Some(read) => read.reported_len is None || read.bytes is None,
        },
        ScanError::OverCap(at) => at == i as usize && check != ContentCheck::RawPatterns
            && match input.read_at(i) {
            None => false,
            Some(read) => {
                ||| read.reported_len matches Some(len) && len > input.policy.max_file_bytes
                ||| read.bytes matches Some(found) && found@.len() > input.policy.max_file_bytes
            },
        },
    }
}

/// No file before position `i` stops the check.
pub open spec fn clear_before(check: ContentCheck, input: InputModel, i: int) -> bool {
    forall|k: int| 0 <= k < i ==> (#[trigger] check.findings_at(input, k)) is Ok
}

proof fn lemma_gathered_error_explained(check: ContentCheck, input: InputModel, n: nat)
    requires
        n <= input.files.len(),
    ensures
        match check.gathered(input, n) {
            Err(error) => exists|i: int|
                0 <= i < n && #[trigger] explains(error, input, check, i) && clear_before(
                    check,
                    input,
                    i,
                ),
            Ok(_) => clear_before(check, input, n as int),
        },
    decreases n,
{
    if n > 0 {
        let i = n - 1;
        lemma_gathered_error_explained(check, input, i as nat);
        if check.gathered(input, i as nat) is Ok {
            if let Err(error) = check.findings_at(input, i) {
                assert(explains(error, input, check, i));
            }
        }
    }
}

/// A scan fails for one of four reasons: there are more files than the policy accepts, the walk
/// that lists them is not done, a file that a check looks into could not be read, or a file that
/// a check needs in full is longer than the cap. In the last two cases no file before it stops
/// that check.
pub proof fn law_why_a_scan_fails(repository: Repository, options: ScanOptions, duration_ms: u128)
    ensures
        ({
            let found = listing::collected(repository.listing, repository.policy(options));
            let input = repository.input(options, found->Ok_0.0);
            match scan::scanned(repository, options, duration_ms) {
                Err(ScanError::TooManyFiles) => found == Err::<(Seq<Seq<char>>, nat), ScanError>(
                    ScanError::TooManyFiles,
                ),
                Err(ScanError::UnfinishedWalk) => repository.listing matches Listing::Directories(
                    walk,
                ) && walk@.pending.len() > 0,
                Err(error) => found is Ok && exists|check: ContentCheck, i: int| #[trigger]
                    explains(error, input, check, i) && clear_before(check, input, i),
                Ok(_) => found is Ok,
            }
        }),
{
    let found = listing::collected(repository.listing, repository.policy(options));
    if found is Ok {
        let input = repository.input(options, found->Ok_0.0);
        let n = input.files.len();
        lemma_gathered_error_explained(ContentCheck::Examples, input, n);
        lemma_gathered_error_explained(ContentCheck::RawPatterns, input, n);
        lemma_gathered_error_explained(ContentCheck::Scripts, input, n);
        lemma_gathered_error_explained(ContentCheck::Compose, input, n);
    }
}

} // verus!
