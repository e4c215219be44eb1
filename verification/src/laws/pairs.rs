//! What a dotenv file sets.
use crate::dotenv;
use crate::laws::endings;
use crate::laws::lines;
use crate::laws::lists;
use crate::text;
use crate::text::CharClass;
use vstd::prelude::*;

verus! {

/// Two dotenv files with a line feed between them set what the first sets and then what the
/// second sets.
pub proof fn law_pairs_of_joined_files(a: Seq<char>, b: Seq<char>)
    ensures
        dotenv::dotenv_pairs(a.push('\n') + b) == dotenv::dotenv_pairs(a) + dotenv::dotenv_pairs(b),
{
    let rule = dotenv::pair_rule();
    let open = text::lines(a);
    let closed = lines::closed_lines(a);
    lines::lemma_lines_join(a, b);
    lines::lemma_closed_lines(a);
    lists::lemma_filter_map_add(closed, text::lines(b), rule);
    assert forall|i: int| 0 <= i < open.len() implies rule(#[trigger] open[i]) == rule(
        closed[i],
    ) by {
        endings::lemma_dotenv_pair(closed[i]);
    }
    let kept = closed.take(open.len() as int);
    lists::lemma_filter_map_same(open, kept, rule);
    if open.len() == closed.len() {
        assert(kept =~= closed);
    } else {
        assert(kept =~= closed.drop_last());
        assert(closed.last() =~= Seq::<char>::empty());
        assert(rule(closed.last()) is None) by {
            lines::lemma_run(closed.last(), CharClass::White);
        }
    }
}

/// The name of a variable that a dotenv file sets is the name of a variable. Its value holds no
/// line feed and no comment, and neither starts nor ends with a single quote.
pub proof fn law_pairs_have_a_form(body: Seq<char>, k: int)
    requires
        0 <= k < dotenv::dotenv_pairs(body).len(),
    ensures
        ({
            let (key, value) = dotenv::dotenv_pairs(body)[k];
            &&& dotenv::env_key(key)
            &&& !value.contains('\n')
            &&& !text::occurs(value, " #"@)
            &&& value.len() > 0 ==> value[0] != '\'' && value.last() != '\''
        }),
{
    let pair = dotenv::dotenv_pairs(body)[k];
    let all = text::lines(body);
    let rule = dotenv::pair_rule();
    assert(dotenv::dotenv_pairs(body).contains(pair));
    lists::lemma_filter_map_contains(all, rule, pair);
    let i = choose|i: int| 0 <= i < all.len() && rule(#[trigger] all[i]) == Some(pair);
    let line = all[i];
    lines::lemma_closed_lines(body);
    assert(!line.contains('\n')) by {
        if line.contains('\n') {
            let j = choose|j: int| 0 <= j < line.len() && line[j] == '\n';
            assert(all[i][j] != '\n');
        }
    }
    let start = text::trim_front(line, CharClass::White);
    let rest = dotenv::without_prefix(start, "export "@);
    let (key, raw) = dotenv::split_assignment(rest)->0;
    let shown = dotenv::without_comment(raw);
    let value = dotenv::bare_value(shown);
    lines::lemma_trim(line, CharClass::White);
    assert(lines::is_stretch(rest, start)) by {
        if text::starts_with(start, "export "@) {
            assert(rest =~= start.subrange("export "@.len() as int, start.len() as int));
        } else {
            assert(rest =~= start.subrange(0, start.len() as int));
        }
    }
    assert(lines::is_stretch(raw, rest)) by {
        let n = text::run(rest, CharClass::NotEquals) as int;
        assert(raw =~= rest.subrange(n + 1, rest.len() as int));
    }
    text::lemma_position_occurs(raw, " #"@);
    assert(lines::is_stretch(shown, raw)) by {
        assert(shown =~= raw.subrange(0, shown.len() as int));
    }
    assert(!text::occurs(shown, " #"@)) by {
        if text::occurs(shown, " #"@) {
            let j = choose|j: int| text::occurs_at(shown, " #"@, j);
            assert(shown.subrange(j, j + " #"@.len()) =~= raw.subrange(j, j + " #"@.len()));
            assert(text::occurs_at(raw, " #"@, j));
            reveal_strlit(" #");
        }
    }
    let inner = text::trim(shown);
    let unquoted = text::trim_class(inner, CharClass::DoubleQuote);
    lines::lemma_trim(shown, CharClass::White);
    lines::lemma_trim(inner, CharClass::DoubleQuote);
    lines::lemma_trim(unquoted, CharClass::SingleQuote);
    lines::lemma_stretch_of_stretch(unquoted, inner, shown);
    lines::lemma_stretch_of_stretch(value, unquoted, shown);
    lines::lemma_stretch_lacks(value, shown, " #"@);
    lines::lemma_stretch_of_stretch(value, shown, raw);
    lines::lemma_stretch_of_stretch(value, raw, rest);
    lines::lemma_stretch_of_stretch(value, rest, start);
    lines::lemma_stretch_of_stretch(value, start, line);
    lines::lemma_stretch_lacks_char(value, line, '\n');
}

} // verus!
