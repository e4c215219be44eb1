//! What the detectors report.
use crate::detect;
use crate::detect::Detector;
use crate::laws::endings;
use crate::laws::lines;
use crate::laws::lists;
use crate::order;
use crate::secrets;
use crate::text;
use crate::text::CharClass;
use vstd::prelude::*;

verus! {

/// The labels of detections.
pub open spec fn labels(found: Seq<(Seq<char>, nat)>) -> Seq<Seq<char>> {
    found.map_values(|d: (Seq<char>, nat)| d.0)
}

/// The labels of detectors.
pub open spec fn detector_labels(detectors: Seq<Detector>) -> Seq<Seq<char>> {
    detectors.map_values(|d: Detector| d.label())
}

/// Two texts are ordered by the first character in which they differ.
proof fn lemma_at_most_by(a: Seq<char>, b: Seq<char>, k: int)
    requires
        0 <= k < a.len(),
        k < b.len(),
        forall|i: int| 0 <= i < k ==> #[trigger] a[i] == b[i],
        a[k] < b[k],
    ensures
        order::at_most(a, b),
        a != b,
    decreases k,
{
    if k > 0 {
        let c = a.drop_first();
        let d = b.drop_first();
        assert forall|i: int| 0 <= i < k - 1 implies #[trigger] c[i] == d[i] by {
            assert(a[i + 1] == b[i + 1]);
        }
        lemma_at_most_by(c, d, k - 1);
    }
}

/// A list is in ascending order where every element comes before the next.
proof fn lemma_ascending(s: Seq<Seq<char>>)
    requires
        forall|i: int|
            0 <= i < s.len() - 1 ==> order::at_most(#[trigger] s[i], s[i + 1]) && s[i] != s[i + 1],
    ensures
        order::strictly_ascending(s),
    decreases s.len(),
{
    if s.len() > 0 {
        let front = s.drop_last();
        assert forall|i: int| 0 <= i < front.len() - 1 implies order::at_most(
            #[trigger] front[i],
            front[i + 1],
        ) && front[i] != front[i + 1] by {
            assert(front[i] == s[i]);
        }
        lemma_ascending(front);
        order::lemma_total_order();
        let r = order::text_order();
        let n = s.len() - 1;
        assert forall|i: int, j: int|
            #![trigger s[i], s[j]]
            0 <= i < j < s.len() implies order::at_most(s[i], s[j]) && s[i] != s[j] by {
            if j < n {
                assert(front[i] == s[i] && front[j] == s[j]);
            } else if i < n - 1 {
                assert(front[i] == s[i] && front[n - 1] == s[n - 1]);
                assert(order::at_most(s[n - 1], s[n - 1 + 1]));
                assert(r(s[i], s[n - 1]) && r(s[n - 1], s[n]));
                assert(r(s[i], s[n]));
                if s[i] == s[n] {
                    assert(r(s[n], s[n - 1]));
                    assert(s[n] == s[n - 1]);
                }
            } else {
                assert(order::at_most(s[i], s[i + 1]));
            }
        }
    }
}

/// The detectors report in ascending order of their labels, and no two have the same label.
pub proof fn law_detectors_are_ordered_by_label()
    ensures
        order::strictly_ascending(detector_labels(Detector::all())),
{
    reveal_strlit("aws-access-key-id");
    reveal_strlit("bearer-token");
    reveal_strlit("database-url");
    reveal_strlit("envforge-token");
    reveal_strlit("github-token");
    reveal_strlit("google-api-key");
    reveal_strlit("google-service-account");
    reveal_strlit("jwt-like-token");
    reveal_strlit("npm-token");
    reveal_strlit("openai-token");
    reveal_strlit("private-key");
    reveal_strlit("sensitive-assignment");
    reveal_strlit("signed-url");
    reveal_strlit("slack-token");
    reveal_strlit("stripe-secret-key");
    let s = detector_labels(Detector::all());
    lemma_at_most_by("aws-access-key-id"@, "bearer-token"@, 0);
    lemma_at_most_by("bearer-token"@, "database-url"@, 0);
    lemma_at_most_by("database-url"@, "envforge-token"@, 0);
    lemma_at_most_by("envforge-token"@, "github-token"@, 0);
    lemma_at_most_by("github-token"@, "google-api-key"@, 1);
    lemma_at_most_by("google-api-key"@, "google-service-account"@, 7);
    lemma_at_most_by("google-service-account"@, "jwt-like-token"@, 0);
    lemma_at_most_by("jwt-like-token"@, "npm-token"@, 0);
    lemma_at_most_by("npm-token"@, "openai-token"@, 0);
    lemma_at_most_by("openai-token"@, "private-key"@, 0);
    lemma_at_most_by("private-key"@, "sensitive-assignment"@, 0);
    lemma_at_most_by("sensitive-assignment"@, "signed-url"@, 1);
    lemma_at_most_by("signed-url"@, "slack-token"@, 1);
    lemma_at_most_by("slack-token"@, "stripe-secret-key"@, 1);
    lemma_ascending(s);
}

proof fn lemma_detections_ascending(
    detectors: Seq<Detector>,
    body: Seq<char>,
    high_entropy: Seq<bool>,
)
    requires
        order::strictly_ascending(detector_labels(detectors)),
    ensures
        order::strictly_ascending(
            labels(detectors.filter_map(detect::detection_rule(body, high_entropy))),
        ),
    decreases detectors.len(),
{
    let rule = detect::detection_rule(body, high_entropy);
    let found = detectors.filter_map(rule);
    if detectors.len() > 0 {
        let front = detectors.drop_last();
        let all = detector_labels(detectors);
        assert forall|i: int, j: int|
            #![trigger detector_labels(front)[i], detector_labels(front)[j]]
            0 <= i < j < front.len() implies order::at_most(
            detector_labels(front)[i],
            detector_labels(front)[j],
        ) && detector_labels(front)[i] != detector_labels(front)[j] by {
            assert(all[i] == detector_labels(front)[i] && all[j] == detector_labels(front)[j]);
        }
        lemma_detections_ascending(front, body, high_entropy);
        let before = front.filter_map(rule);
        if rule(detectors.last()) is Some {
            assert forall|i: int, j: int|
                #![trigger labels(found)[i], labels(found)[j]]
                0 <= i < j < found.len() implies order::at_most(labels(found)[i], labels(found)[j])
                && labels(found)[i] != labels(found)[j] by {
                assert(labels(found)[i] == labels(before)[i]);
                if j < before.len() {
                    assert(labels(found)[j] == labels(before)[j]);
                } else {
                    assert(before.contains(before[i]));
                    lists::lemma_filter_map_contains(front, rule, before[i]);
                    let m = choose|m: int|
                        0 <= m < front.len() && rule(#[trigger] front[m]) == Some(before[i]);
                    assert(all[m] == before[i].0);
                    assert(all[all.len() - 1] == labels(found)[j]);
                }
            }
        }
    }
}

/// The first line on which a detector finds something is such a line, and none before it is.
pub proof fn lemma_first_line(
    detector: Detector,
    lines: Seq<Seq<char>>,
    high_entropy: Seq<bool>,
    from: int,
)
    requires
        0 <= from,
    ensures
        match detect::first_line_from(detector, lines, high_entropy, from) {
            Some(i) => from <= i < lines.len() && detector.finds(
                lines[i],
                detect::verdict(high_entropy, i),
            ) && forall|k: int|
                from <= k < i ==> !detector.finds(
                    #[trigger] lines[k],
                    detect::verdict(high_entropy, k),
                ),
            None => forall|k: int|
                from <= k < lines.len() ==> !detector.finds(
                    #[trigger] lines[k],
                    detect::verdict(high_entropy, k),
                ),
        },
    decreases lines.len() - from,
{
    if from < lines.len() {
        lemma_first_line(detector, lines, high_entropy, from + 1);
    }
}

/// Detections come in ascending order of their labels, none twice.
pub proof fn law_detections_are_ordered(body: Seq<char>, high_entropy: Seq<bool>)
    ensures
        order::strictly_ascending(labels(detect::detections(body, high_entropy))),
{
    law_detectors_are_ordered_by_label();
    lemma_detections_ascending(Detector::all(), body, high_entropy);
}

/// A detector is reported with line `line` just where it finds something on that line and on no
/// line before it.
pub proof fn law_detection_is_first_line(
    body: Seq<char>,
    high_entropy: Seq<bool>,
    detector: Detector,
    line: nat,
)
    ensures
        detect::detections(body, high_entropy).contains((detector.label(), line)) <==> 1 <= line
            <= text::lines(body).len() && detector.finds(
            text::lines(body)[line - 1],
            detect::verdict(high_entropy, line - 1),
        ) && forall|k: int|
            0 <= k < line - 1 ==> !detector.finds(
                #[trigger] text::lines(body)[k],
                detect::verdict(high_entropy, k),
            ),
{
    let all = Detector::all();
    let rule = detect::detection_rule(body, high_entropy);
    let found = (detector.label(), line);
    lists::lemma_filter_map_contains(all, rule, found);
    lemma_first_line(detector, text::lines(body), high_entropy, 0);
    let m = detect::lemma_position(detector);
    if detect::detections(body, high_entropy).contains(found) {
        let i = choose|i: int| 0 <= i < all.len() && rule(#[trigger] all[i]) == Some(found);
        let names = detector_labels(all);
        law_detectors_are_ordered_by_label();
        assert(names[i] == names[m]);
        assert(all[i] == detector);
    }
    if 1 <= line <= text::lines(body).len() && detector.finds(
        text::lines(body)[line - 1],
        detect::verdict(high_entropy, line - 1),
    ) && forall|k: int|
        0 <= k < line - 1 ==> !detector.finds(
            #[trigger] text::lines(body)[k],
            detect::verdict(high_entropy, k),
        ) {
        assert(rule(all[m]) == Some(found));
    }
}

/// The detector is one of those whose finding in an example value counts even where the variable
/// is public.
pub open spec fn counts_in_examples(detector: Detector) -> bool {
    ||| detector == Detector::PrivateKey
    ||| detector == Detector::EnvforgeToken
    ||| detector == Detector::OpenaiToken
    ||| detector == Detector::GithubToken
    ||| detector == Detector::DatabaseUrl
}

/// A value carries a secret just where one of five detectors reports something in it, whatever
/// the entropy of its lines.
pub proof fn law_carried_secrets_are_detected(value: Seq<char>, high_entropy: Seq<bool>)
    ensures
        secrets::carries_secret(value) <==> exists|detector: Detector, line: nat|
            counts_in_examples(detector) && #[trigger] detect::detections(
                value,
                high_entropy,
            ).contains((detector.label(), line)),
{
    let lines = text::lines(value);
    if secrets::carries_secret(value) {
        let k = choose|k: int|
            0 <= k < lines.len() && secrets::unmistakable_secret(#[trigger] lines[k]);
        let detector = if secrets::private_key_header(lines[k]) {
            Detector::PrivateKey
        } else if secrets::envforge_token(lines[k]) {
            Detector::EnvforgeToken
        } else if secrets::openai_token(lines[k]) {
            Detector::OpenaiToken
        } else if secrets::github_token(lines[k]) {
            Detector::GithubToken
        } else {
            Detector::DatabaseUrl
        };
        assert(detector.finds(lines[k], detect::verdict(high_entropy, k)));
        lemma_first_line(detector, lines, high_entropy, 0);
        let line = (detect::first_line_from(detector, lines, high_entropy, 0)->0 + 1) as nat;
        law_detection_is_first_line(value, high_entropy, detector, line);
        assert(detect::detections(value, high_entropy).contains((detector.label(), line)));
    }
    if exists|detector: Detector, line: nat|
        counts_in_examples(detector) && #[trigger] detect::detections(
            value,
            high_entropy,
        ).contains((detector.label(), line)) {
        let (detector, line) = choose|detector: Detector, line: nat|
            counts_in_examples(detector) && #[trigger] detect::detections(
                value,
                high_entropy,
            ).contains((detector.label(), line));
        law_detection_is_first_line(value, high_entropy, detector, line);
        assert(secrets::unmistakable_secret(lines[line - 1]));
    }
}

/// A detection one line further down.
pub open spec fn one_line_down() -> spec_fn((Seq<char>, nat)) -> (Seq<char>, nat) {
    |found: (Seq<char>, nat)| (found.0, found.1 + 1)
}

/// A line without line breaks in which nothing is detected holds nothing for any detector.
proof fn lemma_clear_line(p: Seq<char>, high_entropy: bool, detector: Detector)
    requires
        !p.contains('\n'),
        detect::detections(p, seq![high_entropy]).len() == 0,
    ensures
        !detector.finds(p, high_entropy),
{
    lines::lemma_one_line(p);
    if p.len() == 0 {
        assert(p =~= Seq::<char>::empty());
        endings::lemma_finds_nothing(detector, high_entropy);
    } else if detector.finds(p, high_entropy) {
        assert(text::lines(p)[0] == p);
        assert(detect::verdict(seq![high_entropy], 0) == high_entropy);
        law_detection_is_first_line(p, seq![high_entropy], detector, 1);
        assert(detect::detections(p, seq![high_entropy]).contains((detector.label(), 1nat)));
    }
}

/// A line in which nothing is detected, put in front of a text, moves what is detected in the text
/// one line down and changes nothing else about it.
pub proof fn law_clear_line_in_front(
    p: Seq<char>,
    p_high: bool,
    body: Seq<char>,
    high_entropy: Seq<bool>,
)
    requires
        !p.contains('\n'),
        !p.contains('\r'),
        detect::detections(p, seq![p_high]).len() == 0,
    ensures
        detect::detections(p.push('\n') + body, seq![p_high] + high_entropy)
            == detect::detections(body, high_entropy).map_values(one_line_down()),
{
    let after = p.push('\n') + body;
    let all_high = seq![p_high] + high_entropy;
    let old_lines = text::lines(body);
    let new_lines = text::lines(after);
    lines::lemma_lines_join(p, body);
    lines::lemma_one_line(p);
    assert(text::without_return(p) == p) by {
        if p.len() > 0 {
            assert(p.contains(p.last()));
        }
    }
    assert(lines::closed_lines(p) =~= seq![p]);
    assert(new_lines == seq![p] + old_lines);
    let rule = detect::detection_rule(body, high_entropy);
    let changed = detect::detection_rule(after, all_high);
    let change = one_line_down();
    assert forall|detector: Detector| #[trigger] changed(detector) == (match rule(detector) {
        Some(found) => Some(change(found)),
        None => None,
    }) by {
        lemma_clear_line(p, p_high, detector);
        lemma_first_line(detector, old_lines, high_entropy, 0);
        lemma_first_line(detector, new_lines, all_high, 0);
        assert(new_lines[0] == p && detect::verdict(all_high, 0) == p_high);
        assert forall|k: int| 0 <= k < old_lines.len() implies #[trigger] old_lines[k] == new_lines[k
            + 1] && detect::verdict(high_entropy, k) == detect::verdict(all_high, k + 1) by {
            if k < high_entropy.len() {
                assert(all_high[k + 1] == high_entropy[k]);
            }
        }
        let x = detect::first_line_from(detector, old_lines, high_entropy, 0);
        let y = detect::first_line_from(detector, new_lines, all_high, 0);
        if let Some(i) = x {
            assert(old_lines[i] == new_lines[i + 1]);
            assert(detector.finds(new_lines[i + 1], detect::verdict(all_high, i + 1)));
        }
        if let Some(j) = y {
            assert(j > 0);
            assert(old_lines[j - 1] == new_lines[j - 1 + 1]);
            assert(detector.finds(old_lines[j - 1], detect::verdict(high_entropy, j - 1)));
        }
        if x is Some && y is Some {
            let i = x->0;
            let j = y->0;
            if i + 1 < j {
                assert(!detector.finds(new_lines[i + 1], detect::verdict(all_high, i + 1)));
            }
            if j < i + 1 {
                assert(!detector.finds(old_lines[j - 1], detect::verdict(high_entropy, j - 1)));
            }
        }
    }
    lists::lemma_filter_map_changed(Detector::all(), rule, changed, change);
}

/// A line in which nothing is detected, put behind a text, changes nothing of what is detected in
/// the text. The verdicts on the lines of the text are the same; the one on the new line stands
/// behind those on the pieces of the text.
pub proof fn law_clear_line_behind(
    body: Seq<char>,
    high_entropy: Seq<bool>,
    p: Seq<char>,
    all_high: Seq<bool>,
)
    requires
        !p.contains('\n'),
        !p.contains('\r'),
        forall|i: int|
            0 <= i < text::lines(body).len() ==> #[trigger] detect::verdict(all_high, i)
                == detect::verdict(high_entropy, i),
        detect::detections(
            p,
            seq![
                detect::verdict(
                    all_high,
                    text::pieces(body, CharClass::NotNewline).len() as int,
                ),
            ],
        ).len() == 0,
    ensures
        detect::detections(body.push('\n') + p, all_high) == detect::detections(
            body,
            high_entropy,
        ),
{
    let after = body.push('\n') + p;
    let old_lines = text::lines(body);
    let new_lines = text::lines(after);
    let closed = lines::closed_lines(body);
    let n = closed.len() as int;
    lines::lemma_lines_join(body, p);
    lines::lemma_closed_lines(body);
    lines::lemma_one_line(p);
    assert(new_lines == closed + text::lines(p));
    let rule = detect::detection_rule(body, high_entropy);
    let changed = detect::detection_rule(after, all_high);
    assert forall|detector: Detector| #[trigger] changed(detector) == rule(detector) by {
        lemma_clear_line(p, detect::verdict(all_high, n), detector);
        lemma_first_line(detector, old_lines, high_entropy, 0);
        lemma_first_line(detector, new_lines, all_high, 0);
        assert forall|k: int| 0 <= k < old_lines.len() implies (detector.finds(
            #[trigger] old_lines[k],
            detect::verdict(high_entropy, k),
        ) <==> detector.finds(new_lines[k], detect::verdict(all_high, k))) by {
            assert(new_lines[k] == closed[k]);
            assert(detect::verdict(all_high, k) == detect::verdict(high_entropy, k));
            if old_lines[k] != closed[k] {
                assert(old_lines[k] == closed[k].push('\r'));
                assert(!closed[k].contains('\n')) by {
                    if closed[k].contains('\n') {
                        let j = choose|j: int| 0 <= j < closed[k].len() && closed[k][j] == '\n';
                        assert(old_lines[k][j] == '\n');
                    }
                }
                endings::lemma_finds(detector, closed[k], detect::verdict(all_high, k));
            }
        }
        assert forall|k: int| old_lines.len() <= k < new_lines.len() implies !detector.finds(
            #[trigger] new_lines[k],
            detect::verdict(all_high, k),
        ) by {
            if k < n {
                assert(new_lines[k] == closed.last());
                assert(closed.last() =~= Seq::<char>::empty());
                endings::lemma_finds_nothing(detector, detect::verdict(all_high, k));
            } else {
                assert(new_lines[k] == p);
                assert(k == n);
            }
        }
        let x = detect::first_line_from(detector, old_lines, high_entropy, 0);
        let y = detect::first_line_from(detector, new_lines, all_high, 0);
        if let Some(i) = x {
            assert(detector.finds(old_lines[i], detect::verdict(high_entropy, i)));
            assert(detector.finds(new_lines[i], detect::verdict(all_high, i)));
        }
        if let Some(j) = y {
            assert(j < old_lines.len());
            assert(detector.finds(old_lines[j], detect::verdict(high_entropy, j)));
        }
    }
    assert(rule =~= changed);
}

} // verus!
