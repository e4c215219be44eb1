//! What a scan reports.
use crate::order;
use crate::text;
use vstd::prelude::*;

verus! {

/// How serious a finding is.
#[derive(Debug, Clone, Copy, PartialEq, Eq, Structural)]
pub enum Severity {
    Blocker,
    Warning,
}

/// One thing that should not be published.
#[derive(Debug, PartialEq, Eq)]
pub struct Finding {
    pub severity: Severity,
    pub path: String,
    pub line: Option<usize>,
    pub detail: String,
}

/// What one check of a scan found.
#[derive(Debug, Clone, PartialEq, Eq)]
pub struct ScanCheck {
    pub name: String,
    pub passed: bool,
    pub detail: String,
    pub findings: Vec<Finding>,
}

/// How many findings there are of every detail, in ascending order of the details.
#[derive(Debug, PartialEq, Eq)]
pub struct DetectorCounts {
    entries: Vec<(String, usize)>,
}

/// What a scan found.
#[derive(Debug, Clone, PartialEq, Eq)]
pub struct ScanReport {
    pub root: String,
    pub passed: bool,
    pub scanned_files: usize,
    pub skipped_files: usize,
    pub duration_ms: u128,
    pub blocker_findings: usize,
    pub warning_findings: usize,
    pub detector_counts: DetectorCounts,
    pub checks: Vec<ScanCheck>,
}

/// What a finding says.
pub struct FindingModel {
    pub severity: Severity,
    pub path: Seq<char>,
    pub line: Option<nat>,
    pub detail: Seq<char>,
}

/// What a check says.
pub struct CheckModel {
    pub name: Seq<char>,
    pub passed: bool,
    pub detail: Seq<char>,
    pub findings: Seq<FindingModel>,
}

/// What a report says.
pub struct ReportModel {
    pub root: Seq<char>,
    pub passed: bool,
    pub scanned_files: nat,
    pub skipped_files: nat,
    pub duration_ms: u128,
    pub blocker_findings: nat,
    pub warning_findings: nat,
    pub detector_counts: Seq<(Seq<char>, nat)>,
    pub checks: Seq<CheckModel>,
}

impl View for Finding {
    type V = FindingModel;

    open spec fn view(&self) -> FindingModel {
        FindingModel {
            severity: self.severity,
            path: self.path@,
            line: match self.line {
                Some(n) => Some(n as nat),
                None => None,
            },
            detail: self.detail@,
        }
    }
}

impl Clone for Finding {
    fn clone(&self) -> (r: Self)
        ensures
            r@ == self@,
    {
        Finding {
            severity: self.severity,
            path: self.path.clone(),
            line: self.line,
            detail: self.detail.clone(),
        }
    }
}

/// What findings say.
pub open spec fn finding_models(v: Seq<Finding>) -> Seq<FindingModel> {
    v.map_values(|f: Finding| f@)
}

impl View for ScanCheck {
    type V = CheckModel;

    open spec fn view(&self) -> CheckModel {
        CheckModel {
            name: self.name@,
            passed: self.passed,
            detail: self.detail@,
            findings: finding_models(self.findings@),
        }
    }
}

/// What checks say.
pub open spec fn check_models(v: Seq<ScanCheck>) -> Seq<CheckModel> {
    v.map_values(|c: ScanCheck| c@)
}

/// The details and numbers of counts.
pub open spec fn entry_texts(v: Seq<(String, usize)>) -> Seq<(Seq<char>, nat)> {
    v.map_values(|e: (String, usize)| (e.0@, e.1 as nat))
}

impl View for DetectorCounts {
    type V = Seq<(Seq<char>, nat)>;

    closed spec fn view(&self) -> Seq<(Seq<char>, nat)> {
        entry_texts(self.entries@)
    }
}

/// No text is counted twice.
pub open spec fn distinct_keys(entries: Seq<(Seq<char>, nat)>) -> bool {
    forall|i: int, j: int|
        0 <= i < j < entries.len() ==> (#[trigger] entries[i]).0 != (#[trigger] entries[j]).0
}

impl DetectorCounts {
    /// No detail is counted twice.
    #[verifier::type_invariant]
    spec fn counts_once(self) -> bool {
        distinct_keys(entry_texts(self.entries@))
    }
}

impl Clone for DetectorCounts {
    fn clone(&self) -> (r: Self)
        ensures
            r@ == self@,
    {
        let ghost all = entry_texts(self.entries@);
        let mut entries: Vec<(String, usize)> = Vec::new();
        let mut i: usize = 0;
        while i < self.entries.len()
            invariant
                i <= self.entries@.len(),
                all == entry_texts(self.entries@),
                entry_texts(entries@) == all.take(i as int),
            decreases self.entries@.len() - i,
        {
            let entry = (self.entries[i].0.clone(), self.entries[i].1);
            proof {
                assert(entry_texts(entries@.push(entry)) =~= entry_texts(entries@).push(
                    (entry.0@, entry.1 as nat),
                ));
                assert(all.take(i + 1) == all.take(i as int).push(all[i as int]));
            }
            entries.push(entry);
            i = i + 1;
        }
        proof {
            assert(all.take(i as int) == all);
            use_type_invariant(self);
        }
        DetectorCounts { entries }
    }
}

impl View for ScanReport {
    type V = ReportModel;

    open spec fn view(&self) -> ReportModel {
        ReportModel {
            root: self.root@,
            passed: self.passed,
            scanned_files: self.scanned_files as nat,
            skipped_files: self.skipped_files as nat,
            duration_ms: self.duration_ms,
            blocker_findings: self.blocker_findings as nat,
            warning_findings: self.warning_findings as nat,
            detector_counts: self.detector_counts@,
            checks: check_models(self.checks@),
        }
    }
}

/// The finding that the file at `path` has `detail`.
pub open spec fn blocker(path: Seq<char>, detail: Seq<char>) -> FindingModel {
    FindingModel { severity: Severity::Blocker, path, line: None, detail }
}

/// The finding that line `line` of the file at `path` has `detail`.
pub open spec fn line_blocker(path: Seq<char>, detail: Seq<char>, line: nat) -> FindingModel {
    FindingModel { severity: Severity::Blocker, path, line: Some(line), detail }
}

/// The check `name` with `findings`: it passed where there are none.
pub open spec fn check_of(
    name: Seq<char>,
    ok: Seq<char>,
    fail: Seq<char>,
    findings: Seq<FindingModel>,
) -> CheckModel {
    CheckModel {
        name,
        passed: findings.len() == 0,
        detail: if findings.len() == 0 {
            ok
        } else {
            fail
        },
        findings,
    }
}

/// The findings of all checks, in order.
pub open spec fn all_findings(checks: Seq<CheckModel>) -> Seq<FindingModel>
    decreases checks.len(),
{
    if checks.len() == 0 {
        Seq::empty()
    } else {
        all_findings(checks.drop_last()) + checks.last().findings
    }
}

/// The details of findings.
pub open spec fn details(findings: Seq<FindingModel>) -> Seq<Seq<char>> {
    findings.map_values(|f: FindingModel| f.detail)
}

/// Whether a finding has this severity.
pub open spec fn severity_rule(severity: Severity) -> spec_fn(FindingModel) -> bool {
    |f: FindingModel| f.severity == severity
}

/// How many findings have this severity.
pub open spec fn severity_count(findings: Seq<FindingModel>, severity: Severity) -> nat {
    findings.filter(severity_rule(severity)).len()
}

/// Every different text of `all` with the number of times that it stands there, in ascending
/// order of the texts.
pub open spec fn counts(all: Seq<Seq<char>>) -> Seq<(Seq<char>, nat)> {
    order::sorted_set(all).map_values(|d: Seq<char>| (d, all.to_multiset().count(d)))
}

/// The finding that the file at `path` has `detail`.
pub fn finding(path: &str, detail: &str) -> (r: Finding)
    ensures
        r@ == blocker(path@, detail@),
{
    Finding {
        severity: Severity::Blocker,
        path: String::from_str(path),
        line: None,
        detail: String::from_str(detail),
    }
}

/// The finding that line `line` of the file at `path` has `detail`.
pub fn raw_finding(path: &str, detail: &str, line: usize) -> (r: Finding)
    ensures
        r@ == line_blocker(path@, detail@, line as nat),
{
    Finding {
        severity: Severity::Blocker,
        path: String::from_str(path),
        line: Some(line),
        detail: String::from_str(detail),
    }
}

/// The check `name` with `findings`.
pub fn check(name: &str, ok: &str, fail: &str, findings: Vec<Finding>) -> (r: ScanCheck)
    ensures
        r@ == check_of(name@, ok@, fail@, finding_models(findings@)),
{
    let passed = findings.len() == 0;
    ScanCheck {
        name: String::from_str(name),
        passed,
        detail: if passed {
            String::from_str(ok)
        } else {
            String::from_str(fail)
        },
        findings,
    }
}

/// Findings that say what `findings` say.
pub fn copy_findings(findings: &Vec<Finding>) -> (r: Vec<Finding>)
    ensures
        finding_models(r@) == finding_models(findings@),
{
    let ghost all = finding_models(findings@);
    let mut r: Vec<Finding> = Vec::new();
    let mut i: usize = 0;
    while i < findings.len()
        invariant
            i <= findings@.len(),
            all == finding_models(findings@),
            finding_models(r@) == all.take(i as int),
        decreases findings@.len() - i,
    {
        let next = findings[i].clone();
        proof {
            lemma_findings_push(r@, next);
            assert(all.take(i + 1) == all.take(i as int).push(all[i as int]));
        }
        r.push(next);
        i = i + 1;
    }
    assert(all.take(i as int) == all);
    r
}

/// Appending a finding appends what it says.
pub proof fn lemma_findings_push(s: Seq<Finding>, f: Finding)
    ensures
        finding_models(s.push(f)) == finding_models(s).push(f@),
{
    assert(finding_models(s.push(f)) =~= finding_models(s).push(f@));
}

/// What findings say.
pub open spec fn ref_models(v: Seq<&Finding>) -> Seq<FindingModel> {
    v.map_values(|f: &Finding| f@)
}

/// The findings of all checks, in order.
pub fn findings_of<'a>(checks: &'a [ScanCheck]) -> (r: Vec<&'a Finding>)
    ensures
        ref_models(r@) == all_findings(check_models(checks@)),
{
    let ghost models = check_models(checks@);
    let mut r: Vec<&'a Finding> = Vec::new();
    let mut i: usize = 0;
    assert(ref_models(r@) =~= all_findings(models.take(0)));
    while i < checks.len()
        invariant
            i <= checks@.len(),
            models == check_models(checks@),
            ref_models(r@) == all_findings(models.take(i as int)),
        decreases checks@.len() - i,
    {
        let findings = &checks[i].findings;
        let ghost own = finding_models(findings@);
        let ghost before = all_findings(models.take(i as int));
        proof {
            assert(models.take(i + 1).drop_last() == models.take(i as int));
            assert(models[i as int].findings == own);
            assert(before + own.take(0) == before);
        }
        let mut j: usize = 0;
        while j < findings.len()
            invariant
                j <= findings@.len(),
                own == finding_models(findings@),
                ref_models(r@) == before + own.take(j as int),
            decreases findings@.len() - j,
        {
            let next = &findings[j];
            proof {
                assert(before + own.take(j + 1) == (before + own.take(j as int)).push(
                    own[j as int],
                ));
                assert(ref_models(r@.push(next)) =~= ref_models(r@).push(next@));
            }
            r.push(next);
            j = j + 1;
        }
        assert(own.take(j as int) == own);
        i = i + 1;
    }
    assert(models.take(i as int) == models);
    r
}

/// The details of the findings of all checks.
fn collect_details(checks: &[ScanCheck]) -> (r: Vec<String>)
    ensures
        text::texts(r@) == details(all_findings(check_models(checks@))),
{
    let findings = findings_of(checks);
    let ghost all = details(ref_models(findings@));
    let mut r: Vec<String> = Vec::new();
    let mut i: usize = 0;
    while i < findings.len()
        invariant
            i <= findings@.len(),
            all == details(ref_models(findings@)),
            text::texts(r@) == all.take(i as int),
        decreases findings@.len() - i,
    {
        let detail = findings[i].detail.clone();
        proof {
            order::lemma_texts_push(r@, detail);
            assert(all.take(i + 1) == all.take(i as int).push(all[i as int]));
        }
        r.push(detail);
        i = i + 1;
    }
    assert(all.take(i as int) == all);
    r
}

/// The counts of a sorted list are those of its different elements.
spec fn sorted_counts(s: Seq<Seq<char>>) -> Seq<(Seq<char>, nat)> {
    order::without_repeats(s).map_values(|d: Seq<char>| (d, s.to_multiset().count(d)))
}

proof fn lemma_sorted_counts_step(s: Seq<Seq<char>>, x: Seq<char>)
    requires
        vstd::relations::sorted_by(s.push(x), order::text_order()),
    ensures
        s.len() > 0 && s.last() == x ==> sorted_counts(s).len() > 0 && sorted_counts(s).last().0
            == x && sorted_counts(s.push(x)) == sorted_counts(s).update(
            sorted_counts(s).len() - 1,
            (x, sorted_counts(s).last().1 + 1),
        ),
        s.len() == 0 || s.last() != x ==> sorted_counts(s.push(x)) == sorted_counts(s).push(
            (x, 1nat),
        ),
{
    broadcast use vstd::seq_lib::group_to_multiset_ensures;
    broadcast use vstd::multiset::group_multiset_axioms;

    let next = s.push(x);
    assert(next.drop_last() == s);
    assert(vstd::relations::sorted_by(s, order::text_order())) by {
        assert forall|i: int, j: int| 0 <= i < j < s.len() implies #[trigger] order::text_order()(
            s[i],
            s[j],
        ) by {
            assert(order::text_order()(next[i], next[j]));
        }
    }
    order::lemma_without_repeats(s);
    order::lemma_without_repeats(next);
    let old_keys = order::without_repeats(s);
    let keys = order::without_repeats(next);
    assert(next.to_multiset() =~= s.to_multiset().insert(x));
    if s.len() > 0 && s.last() == x {
        assert(keys == old_keys);
        assert forall|i: int| 0 <= i < keys.len() implies sorted_counts(next)[i] == (
        sorted_counts(s).update(
            sorted_counts(s).len() - 1,
            (x, sorted_counts(s).last().1 + 1),
        ))[i] by {
            if i < keys.len() - 1 {
                assert(keys[i] != keys[keys.len() - 1]);
            }
        }
        assert(sorted_counts(next) =~= sorted_counts(s).update(
            sorted_counts(s).len() - 1,
            (x, sorted_counts(s).last().1 + 1),
        ));
    } else {
        if s.len() == 0 {
            assert(keys =~= seq![x]);
            assert(old_keys =~= Seq::empty());
        }
        assert(keys =~= old_keys.push(x));
        assert(!s.contains(x)) by {
            if s.contains(x) {
                assert(old_keys.contains(x));
                let i = choose|i: int| 0 <= i < old_keys.len() && old_keys[i] == x;
                assert(keys[i] == keys[keys.len() - 1]);
            }
        }
        assert(s.to_multiset().count(x) == 0);
        assert forall|i: int| 0 <= i < keys.len() implies sorted_counts(next)[i] == (
        sorted_counts(s).push((x, 1nat)))[i] by {
            if i < old_keys.len() {
                assert(keys[i] != keys[keys.len() - 1]);
            }
        }
        assert(sorted_counts(next) =~= sorted_counts(s).push((x, 1nat)));
    }
}

/// The sum of counts.
pub open spec fn total(entries: Seq<(Seq<char>, nat)>) -> nat
    decreases entries.len(),
{
    if entries.len() == 0 {
        0
    } else {
        total(entries.drop_last()) + entries.last().1
    }
}

proof fn lemma_sorted_counts_total(s: Seq<Seq<char>>)
    requires
        vstd::relations::sorted_by(s, order::text_order()),
    ensures
        total(sorted_counts(s)) == s.len(),
    decreases s.len(),
{
    if s.len() > 0 {
        let front = s.drop_last();
        let x = s.last();
        assert(front.push(x) == s);
        assert(vstd::relations::sorted_by(front, order::text_order())) by {
            assert forall|i: int, j: int|
                0 <= i < j < front.len() implies #[trigger] order::text_order()(
                front[i],
                front[j],
            ) by {
                assert(order::text_order()(s[i], s[j]));
            }
        }
        lemma_sorted_counts_total(front);
        lemma_sorted_counts_step(front, x);
        assert(sorted_counts(s).drop_last() == if front.len() > 0 && front.last() == x {
            sorted_counts(front).drop_last()
        } else {
            sorted_counts(front)
        });
    } else {
        assert(sorted_counts(s).len() == 0);
    }
}

/// The counts of a list sum up to its length, and they count what the list holds.
pub proof fn lemma_counts(all: Seq<Seq<char>>)
    ensures
        total(counts(all)) == all.len(),
        forall|d: Seq<char>|
            all.contains(d) <==> #[trigger] counts(all).contains((d, all.to_multiset().count(d))),
        forall|i: int|
            0 <= i < counts(all).len() ==> all.contains((#[trigger] counts(all)[i]).0) && counts(
                all,
            )[i].1 == all.to_multiset().count(counts(all)[i].0) && counts(all)[i].1 >= 1,
        distinct_keys(counts(all)),
{
    broadcast use vstd::seq_lib::group_to_multiset_ensures;

    let ascending = order::sorted(all);
    let keys = order::sorted_set(all);
    order::lemma_total_order();
    all.lemma_sort_by_ensures(order::text_order());
    order::lemma_sorted_contains(all, Seq::empty());
    lemma_sorted_counts_total(ascending);
    assert(sorted_counts(ascending) =~= counts(all));
    order::lemma_sorted_set(all);
    assert forall|d: Seq<char>|
        all.contains(d) <==> #[trigger] counts(all).contains(
            (d, all.to_multiset().count(d)),
        ) by {
        if all.contains(d) {
            assert(keys.contains(d));
            let i = choose|i: int| 0 <= i < keys.len() && keys[i] == d;
            assert(counts(all)[i] == (d, all.to_multiset().count(d)));
        }
        if counts(all).contains((d, all.to_multiset().count(d))) {
            let i = choose|i: int|
                0 <= i < counts(all).len() && counts(all)[i] == (d, all.to_multiset().count(d));
            assert(keys[i] == d);
            assert(keys.contains(d));
        }
    }
    assert forall|i: int| 0 <= i < counts(all).len() implies all.contains(
        (#[trigger] counts(all)[i]).0,
    ) && counts(all)[i].1 == all.to_multiset().count(counts(all)[i].0) && counts(all)[i].1
        >= 1 by {
        assert(keys.contains(keys[i]));
    }
}

/// How many findings there are of every detail.
pub fn detector_counts(checks: &[ScanCheck]) -> (r: DetectorCounts)
    ensures
        r@ == counts(details(all_findings(check_models(checks@)))),
{
    let collected = collect_details(checks);
    let ghost all = text::texts(collected@);
    let list = order::sort_texts(&collected);
    let ghost ascending = text::texts(list@);
    proof {
        order::lemma_total_order();
        all.lemma_sort_by_ensures(order::text_order());
    }
    let mut entries: Vec<(String, usize)> = Vec::new();
    let mut i: usize = 0;
    assert(entry_texts(entries@) =~= sorted_counts(ascending.take(0)));
    while i < list.len()
        invariant
            i <= list@.len(),
            ascending == text::texts(list@),
            vstd::relations::sorted_by(ascending, order::text_order()),
            entry_texts(entries@) == sorted_counts(ascending.take(i as int)),
            entries@.len() <= i,
            forall|k: int| 0 <= k < entries@.len() ==> (#[trigger] entries@[k]).1 <= i,
        decreases list@.len() - i,
    {
        let ghost done = ascending.take(i as int);
        let ghost x = ascending[i as int];
        proof {
            assert(ascending.take(i + 1) == done.push(x));
            assert forall|a: int, b: int|
                0 <= a < b < done.push(x).len() implies #[trigger] order::text_order()(
                done.push(x)[a],
                done.push(x)[b],
            ) by {
                assert(order::text_order()(ascending[a], ascending[b]));
            }
            lemma_sorted_counts_step(done, x);
        }
        if i > 0 && list[i] == list[i - 1] {
            assert(done.last() == x);
            let last = entries.len() - 1;
            let ghost before = entries@;
            assert(entry_texts(before)[last as int] == (before[last as int].0@, before[
                last as int
            ].1 as nat));
            let entry = (list[i].clone(), entries[last].1 + 1);
            entries.set(last, entry);
            assert(entry_texts(entries@) =~= entry_texts(before).update(
                last as int,
                (entry.0@, entry.1 as nat),
            ));
        } else {
            if i > 0 {
                assert(done.last() == ascending[i - 1]);
            }
            let entry = (list[i].clone(), 1usize);
            assert(entry_texts(entries@.push(entry)) =~= entry_texts(entries@).push(
                (entry.0@, entry.1 as nat),
            ));
            entries.push(entry);
        }
        i = i + 1;
    }
    proof {
        assert(ascending.take(i as int) == ascending);
        assert(ascending == order::sorted(all));
        assert(sorted_counts(ascending) =~= counts(all));
        lemma_counts(all);
    }
    DetectorCounts { entries }
}

impl DetectorCounts {
    /// The counts themselves, in ascending order of the details.
    pub fn entries(&self) -> (r: &Vec<(String, usize)>)
        ensures
            entry_texts(r@) == self@,
            distinct_keys(self@),
    {
        proof {
            use_type_invariant(self);
        }
        &self.entries
    }

    /// How many findings there are of `detail`, where there are any.
    pub fn get(&self, detail: &str) -> (r: Option<usize>)
        ensures
            match r {
                Some(n) => self@.contains((detail@, n as nat)),
                None => forall|i: int| 0 <= i < self@.len() ==> (#[trigger] self@[i]).0 != detail@,
            },
            forall|n: nat| #[trigger]
                self@.contains((detail@, n)) ==> (r matches Some(m) && m == n),
    {
        proof {
            use_type_invariant(self);
        }
        let wanted = text::chars_of(detail);
        let mut i: usize = 0;
        while i < self.entries.len()
            invariant
                i <= self.entries@.len(),
                wanted@ == detail@,
                self@.len() == self.entries@.len(),
                forall|k: int| 0 <= k < i ==> (#[trigger] self@[k]).0 != detail@,
            decreases self.entries@.len() - i,
        {
            assert(self@[i as int] == (self.entries@[i as int].0@, self.entries@[
                i as int
            ].1 as nat));
            if text::same(&wanted, self.entries[i].0.as_str()) {
                proof {
                    use_type_invariant(self);
                    assert forall|n: nat| #[trigger] self@.contains((detail@, n)) implies n
                        == self.entries@[i as int].1 by {
                        let k = choose|k: int| 0 <= k < self@.len() && self@[k] == (detail@, n);
                        assert(self@[k].0 == self@[i as int].0);
                    }
                }
                return Some(self.entries[i].1);
            }
            i = i + 1;
        }
        None
    }

    /// Tests whether there are findings of `detail`.
    pub fn contains_key(&self, detail: &str) -> (r: bool)
        ensures
            r == exists|i: int| 0 <= i < self@.len() && (#[trigger] self@[i]).0 == detail@,
    {
        match self.get(detail) {
            Some(n) => {
                assert(self@.contains((detail@, n as nat)));
                true
            },
            None => false,
        }
    }
}

/// How many findings of all checks have this severity.
pub fn count_severity(checks: &[ScanCheck], severity: Severity) -> (r: usize)
    ensures
        r == severity_count(all_findings(check_models(checks@)), severity),
{
    let findings = findings_of(checks);
    let ghost all = ref_models(findings@);
    let ghost rule = severity_rule(severity);
    let mut count: usize = 0;
    let mut i: usize = 0;
    proof {
        reveal(Seq::filter);
        assert(all.take(0).filter(rule).len() == 0);
    }
    while i < findings.len()
        invariant
            i <= findings.len(),
            all == ref_models(findings@),
            rule == severity_rule(severity),
            count <= i,
            count == all.take(i as int).filter(rule).len(),
        decreases findings@.len() - i,
    {
        proof {
            reveal(Seq::filter);
            assert(all.take(i + 1).drop_last() == all.take(i as int));
        }
        if findings[i].severity == severity {
            count = count + 1;
        }
        i = i + 1;
    }
    assert(all.take(i as int) == all);
    count
}

} // verus!
