//! Characters and text.
//!
//! Text is handled as a sequence of characters: a `&str` at the boundary of the crate, a
//! slice of `char` inside it.
use vstd::prelude::*;
use vstd::slice::slice_subrange;

verus! {

broadcast use vstd::string::group_string_axioms;

/// `String::push` appends one character.
pub assume_specification[ std::string::String::push ](
    string: &mut std::string::String,
    ch: char,
)
    ensures
        final(string)@ == old(string)@.push(ch),
;

/// `a` to `z`.
pub open spec fn ascii_lower(c: char) -> bool {
    'a' <= c && c <= 'z'
}

/// `A` to `Z`.
pub open spec fn ascii_upper(c: char) -> bool {
    'A' <= c && c <= 'Z'
}

/// `0` to `9`.
pub open spec fn ascii_digit(c: char) -> bool {
    '0' <= c && c <= '9'
}

/// An ASCII letter.
pub open spec fn ascii_letter(c: char) -> bool {
    ascii_lower(c) || ascii_upper(c)
}

/// An ASCII letter or digit.
pub open spec fn ascii_alphanumeric(c: char) -> bool {
    ascii_letter(c) || ascii_digit(c)
}

/// The characters with the Unicode property `White_Space`.
pub open spec fn white_space(c: char) -> bool {
    ||| ('\u{9}' <= c && c <= '\u{d}')
    ||| c == '\u{20}'
    ||| c == '\u{85}'
    ||| c == '\u{a0}'
    ||| c == '\u{1680}'
    ||| ('\u{2000}' <= c && c <= '\u{200a}')
    ||| c == '\u{2028}'
    ||| c == '\u{2029}'
    ||| c == '\u{202f}'
    ||| c == '\u{205f}'
    ||| c == '\u{3000}'
}

/// `c` with an upper-case ASCII letter made lower-case.
pub open spec fn lower_char(c: char) -> char {
    if ascii_upper(c) {
        (c as u32 + 32) as char
    } else {
        c
    }
}

/// `c` with a lower-case ASCII letter made upper-case.
pub open spec fn upper_char(c: char) -> char {
    if ascii_lower(c) {
        (c as u32 - 32) as char
    } else {
        c
    }
}

/// `s` with every upper-case ASCII letter made lower-case.
pub open spec fn lower(s: Seq<char>) -> Seq<char> {
    s.map_values(|c: char| lower_char(c))
}

/// Tests whether `c` is an ASCII letter or digit.
pub fn is_ascii_alphanumeric(c: char) -> (r: bool)
    ensures
        r == ascii_alphanumeric(c),
{
    ('a' <= c && c <= 'z') || ('A' <= c && c <= 'Z') || ('0' <= c && c <= '9')
}

/// Tests whether `c` is white space.
pub fn is_white_space(c: char) -> (r: bool)
    ensures
        r == white_space(c),
{
    ('\u{9}' <= c && c <= '\u{d}') || c == '\u{20}' || c == '\u{85}' || c == '\u{a0}' || c
        == '\u{1680}' || ('\u{2000}' <= c && c <= '\u{200a}') || c == '\u{2028}' || c
        == '\u{2029}' || c == '\u{202f}' || c == '\u{205f}' || c == '\u{3000}'
}

/// `c` in lower case where it is an ASCII letter.
pub fn to_lower_char(c: char) -> (r: char)
    ensures
        r == lower_char(c),
{
    if 'A' <= c && c <= 'Z' {
        (c as u8 + 32) as char
    } else {
        c
    }
}

/// `c` in upper case where it is an ASCII letter.
pub fn to_upper_char(c: char) -> (r: char)
    ensures
        r == upper_char(c),
{
    if 'a' <= c && c <= 'z' {
        (c as u8 - 32) as char
    } else {
        c
    }
}

/// The characters of `text`.
pub fn chars_of(text: &str) -> (r: Vec<char>)
    ensures
        r@ == text@,
{
    let mut r: Vec<char> = Vec::new();
    for c in it: text.chars()
        invariant
            it.seq() == text@,
            r@ == text@.take(it.index() as int),
    {
        r.push(c);
    }
    r
}

/// The text made of `chars`.
pub fn string_of(chars: &[char]) -> (r: String)
    ensures
        r@ == chars@,
{
    let mut r = String::new();
    let mut i: usize = 0;
    while i < chars.len()
        invariant
            i <= chars@.len(),
            r@ == chars@.take(i as int),
        decreases chars@.len() - i,
    {
        r.push(chars[i]);
        i = i + 1;
    }
    r
}

/// The classes of characters by which text is cut and trimmed.
#[derive(Clone, Copy, PartialEq, Eq, Structural)]
pub enum CharClass {
    /// White space.
    White,
    /// Anything but white space.
    NotWhite,
    /// The character `"`.
    DoubleQuote,
    /// The character `'`.
    SingleQuote,
    /// The characters that a token can hold.
    Token,
    /// The characters that an unquoted URL can hold.
    Url,
    /// The characters that a word of a shell command can hold.
    ScriptWord,
    /// ASCII letters and digits.
    Alphanumeric,
    /// The characters that a bearer token can hold.
    Bearer,
    /// The characters that a URL signature can hold.
    Signature,
    /// Anything but `/`.
    NotSlash,
    /// Anything but `.`.
    NotDot,
    /// Anything but a line feed.
    NotNewline,
    /// Anything but `=`.
    NotEquals,
}

impl CharClass {
    /// Whether `c` belongs to the class.
    pub open spec fn holds(self, c: char) -> bool {
        match self {
            CharClass::White => white_space(c),
            CharClass::NotWhite => !white_space(c),
            CharClass::DoubleQuote => c == '"',
            CharClass::SingleQuote => c == '\'',
            CharClass::Token => {
                ||| ascii_alphanumeric(c)
                ||| c == '_'
                ||| c == '-'
                ||| c == '.'
                ||| c == '+'
                ||| c == '/'
                ||| c == '~'
            },
            CharClass::Url => {
                &&& !white_space(c)
                &&& c != '"'
                &&& c != '\''
                &&& c != '<'
                &&& c != '>'
                &&& c != ')'
                &&& c != '('
            },
            CharClass::ScriptWord => {
                &&& !white_space(c)
                &&& c != '"'
                &&& c != '\''
                &&& c != '='
            },
            CharClass::Alphanumeric => ascii_alphanumeric(c),
            CharClass::Bearer => {
                ||| ascii_alphanumeric(c)
                ||| c == '_'
                ||| c == '-'
                ||| c == '.'
                ||| c == '+'
                ||| c == '/'
                ||| c == '='
            },
            CharClass::Signature => ascii_alphanumeric(c) || c == '-' || c == '_' || c == '%',
            CharClass::NotSlash => c != '/',
            CharClass::NotDot => c != '.',
            CharClass::NotNewline => c != '\n',
            CharClass::NotEquals => c != '=',
        }
    }

    /// Tests whether `c` belongs to the class.
    pub fn has(self, c: char) -> (r: bool)
        ensures
            r == self.holds(c),
    {
        match self {
            CharClass::White => is_white_space(c),
            CharClass::NotWhite => !is_white_space(c),
            CharClass::DoubleQuote => c == '"',
            CharClass::SingleQuote => c == '\'',
            CharClass::Token => is_ascii_alphanumeric(c) || c == '_' || c == '-' || c == '.' || c
                == '+' || c == '/' || c == '~',
            CharClass::Url => !is_white_space(c) && c != '"' && c != '\'' && c != '<' && c != '>'
                && c != ')' && c != '(',
            CharClass::ScriptWord => !is_white_space(c) && c != '"' && c != '\'' && c != '=',
            CharClass::Alphanumeric => is_ascii_alphanumeric(c),
            CharClass::Bearer => is_ascii_alphanumeric(c) || c == '_' || c == '-' || c == '.' || c
                == '+' || c == '/' || c == '=',
            CharClass::Signature => is_ascii_alphanumeric(c) || c == '-' || c == '_' || c == '%',
            CharClass::NotSlash => c != '/',
            CharClass::NotDot => c != '.',
            CharClass::NotNewline => c != '\n',
            CharClass::NotEquals => c != '=',
        }
    }
}

/// How many characters at the start of `s` belong to `class`, up to the first that does not.
pub open spec fn run(s: Seq<char>, class: CharClass) -> nat
    decreases s.len(),
{
    if s.len() > 0 && class.holds(s[0]) {
        1 + run(s.drop_first(), class)
    } else {
        0
    }
}

/// The pieces of `s` between the characters that do not belong to `class`, empty ones too:
/// one piece more than there are such characters.
pub open spec fn pieces(s: Seq<char>, class: CharClass) -> Seq<Seq<char>>
    decreases s.len(),
{
    if run(s, class) >= s.len() {
        seq![s]
    } else {
        let n = run(s, class) as int;
        seq![s.take(n)] + pieces(s.skip(n + 1), class)
    }
}

/// `s` without one carriage return at its end.
pub open spec fn without_return(s: Seq<char>) -> Seq<char> {
    if s.len() > 0 && s.last() == '\r' {
        s.drop_last()
    } else {
        s
    }
}

/// The lines of `s`: each ends at a line feed, which is left out together with a carriage
/// return before it; what follows the last line feed is a line unless it is empty.
pub open spec fn lines(s: Seq<char>) -> Seq<Seq<char>> {
    let all = pieces(s, CharClass::NotNewline);
    let ended = all.drop_last().map_values(|line: Seq<char>| without_return(line));
    if all.last().len() == 0 {
        ended
    } else {
        ended.push(all.last())
    }
}

/// `s` without the characters of `class` at its start.
pub open spec fn trim_front(s: Seq<char>, class: CharClass) -> Seq<char> {
    s.skip(run(s, class) as int)
}

/// `s` without the characters of `class` at its end.
pub open spec fn trim_back(s: Seq<char>, class: CharClass) -> Seq<char>
    decreases s.len(),
{
    if s.len() > 0 && class.holds(s.last()) {
        trim_back(s.drop_last(), class)
    } else {
        s
    }
}

/// `s` without the characters of `class` at its two ends.
pub open spec fn trim_class(s: Seq<char>, class: CharClass) -> Seq<char> {
    trim_back(trim_front(s, class), class)
}

/// `s` without the white space at its two ends.
pub open spec fn trim(s: Seq<char>) -> Seq<char> {
    trim_class(s, CharClass::White)
}

/// `needle` stands in `s` at position `i`.
pub open spec fn occurs_at(s: Seq<char>, needle: Seq<char>, i: int) -> bool {
    &&& 0 <= i
    &&& i + needle.len() <= s.len()
    &&& s.subrange(i, i + needle.len()) == needle
}

/// `needle` stands somewhere in `s`.
pub open spec fn occurs(s: Seq<char>, needle: Seq<char>) -> bool {
    exists|i: int| occurs_at(s, needle, i)
}

/// The first position from `from` on at which `needle` stands in `s`.
pub open spec fn position_from(s: Seq<char>, needle: Seq<char>, from: int) -> Option<int>
    decreases s.len() + 1 - from,
{
    if from < 0 || from + needle.len() > s.len() {
        None
    } else if occurs_at(s, needle, from) {
        Some(from)
    } else {
        position_from(s, needle, from + 1)
    }
}

/// The first position at which `needle` stands in `s`.
pub open spec fn position(s: Seq<char>, needle: Seq<char>) -> Option<int> {
    position_from(s, needle, 0)
}

/// `s` starts with `prefix`.
pub open spec fn starts_with(s: Seq<char>, prefix: Seq<char>) -> bool {
    occurs_at(s, prefix, 0)
}

/// `s` ends with `suffix`.
pub open spec fn ends_with(s: Seq<char>, suffix: Seq<char>) -> bool {
    occurs_at(s, suffix, s.len() - suffix.len())
}

/// What follows the last `/` of `s`, or all of `s` where it has none.
pub open spec fn base_name(s: Seq<char>) -> Seq<char> {
    pieces(s, CharClass::NotSlash).last()
}

/// The length of `s` in UTF-8 bytes.
pub open spec fn byte_len(s: Seq<char>) -> nat {
    vstd::utf8::encode_utf8(s).len()
}

/// The contents of the slices of `v`.
pub open spec fn contents(v: Seq<&[char]>) -> Seq<Seq<char>> {
    v.map_values(|p: &[char]| p@)
}

/// The contents of the string slices of `v`.
pub open spec fn strs(v: Seq<&str>) -> Seq<Seq<char>> {
    v.map_values(|p: &str| p@)
}

/// The contents of the strings of `v`.
pub open spec fn texts(v: Seq<String>) -> Seq<Seq<char>> {
    v.map_values(|p: String| p@)
}

/// How many characters at the start of `text` belong to `class`.
pub fn run_len(text: &[char], class: CharClass) -> (r: usize)
    ensures
        r == run(text@, class),
        r <= text@.len(),
{
    let mut i: usize = 0;
    assert(text@.skip(0) == text@);
    while i < text.len() && class.has(text[i])
        invariant
            i <= text@.len(),
            run(text@, class) == i + run(text@.skip(i as int), class),
        decreases text@.len() - i,
    {
        assert(text@.skip(i as int).drop_first() == text@.skip(i + 1));
        i = i + 1;
    }
    i
}

/// The pieces of `text` between the characters that do not belong to `class`.
pub fn split_pieces<'a>(text: &'a [char], class: CharClass) -> (r: Vec<&'a [char]>)
    ensures
        contents(r@) == pieces(text@, class),
        r@.len() > 0,
{
    let mut r: Vec<&'a [char]> = Vec::new();
    let mut rest: &'a [char] = text;
    let mut n: usize = run_len(rest, class);
    while n < rest.len()
        invariant
            n == run(rest@, class),
            n <= rest@.len(),
            contents(r@) + pieces(rest@, class) == pieces(text@, class),
        decreases rest@.len(),
    {
        let ghost before = rest@;
        let piece = slice_subrange(rest, 0, n);
        rest = slice_subrange(rest, n + 1, rest.len());
        assert(piece@ == before.take(n as int));
        assert(rest@ == before.skip(n + 1));
        proof {
            assert(contents(r@.push(piece)) == contents(r@).push(piece@));
            assert(contents(r@).push(piece@) + pieces(rest@, class) == contents(r@) + (
            seq![piece@] + pieces(rest@, class)));
        }
        r.push(piece);
        n = run_len(rest, class);
    }
    proof {
        assert(contents(r@.push(rest)) == contents(r@).push(rest@));
        assert(contents(r@).push(rest@) == contents(r@) + seq![rest@]);
    }
    r.push(rest);
    r
}

/// The lines of `text`.
pub fn split_lines<'a>(text: &'a [char]) -> (r: Vec<&'a [char]>)
    ensures
        contents(r@) == lines(text@),
{
    let all = split_pieces(text, CharClass::NotNewline);
    let ghost pieces = pieces(text@, CharClass::NotNewline);
    assert(pieces.len() == all@.len());
    let ghost ended = pieces.drop_last().map_values(|line: Seq<char>| without_return(line));
    let mut r: Vec<&'a [char]> = Vec::new();
    let mut i: usize = 0;
    while i < all.len() - 1
        invariant
            i <= all@.len() - 1,
            contents(all@) == pieces,
            pieces.len() == all@.len(),
            ended == pieces.drop_last().map_values(|line: Seq<char>| without_return(line)),
            contents(r@) == ended.take(i as int),
        decreases all@.len() - i,
    {
        let line = all[i];
        assert(line@ == pieces[i as int]);
        let kept = if line.len() > 0 && line[line.len() - 1] == '\r' {
            slice_subrange(line, 0, line.len() - 1)
        } else {
            line
        };
        assert(kept@ == without_return(line@));
        assert(contents(r@.push(kept)) == contents(r@).push(kept@));
        assert(ended.take(i + 1) == ended.take(i as int).push(kept@));
        r.push(kept);
        i = i + 1;
    }
    assert(ended.take(i as int) == ended);
    let last = all[all.len() - 1];
    assert(last@ == pieces.last());
    if last.len() > 0 {
        assert(contents(r@.push(last)) == contents(r@).push(last@));
        r.push(last);
    }
    r
}

/// `text` without the characters of `class` at its start.
pub fn trim_start_class<'a>(text: &'a [char], class: CharClass) -> (r: &'a [char])
    ensures
        r@ == trim_front(text@, class),
{
    let n = run_len(text, class);
    slice_subrange(text, n, text.len())
}

/// `text` without the characters of `class` at its two ends.
pub fn trim_both<'a>(text: &'a [char], class: CharClass) -> (r: &'a [char])
    ensures
        r@ == trim_class(text@, class),
{
    let front = trim_start_class(text, class);
    let mut end: usize = front.len();
    assert(front@.take(end as int) == front@);
    while end > 0 && class.has(front[end - 1])
        invariant
            end <= front@.len(),
            trim_back(front@, class) == trim_back(front@.take(end as int), class),
        decreases end,
    {
        assert(front@.take(end as int).drop_last() == front@.take(end - 1));
        end = end - 1;
    }
    slice_subrange(front, 0, end)
}

/// `text` without the white space at its two ends.
pub fn trim_white<'a>(text: &'a [char]) -> (r: &'a [char])
    ensures
        r@ == trim(text@),
{
    trim_both(text, CharClass::White)
}

/// Tests whether `needle` stands in `text` at position `at`.
pub fn matches_at(text: &[char], needle: &[char], at: usize) -> (r: bool)
    requires
        at <= text@.len(),
    ensures
        r == occurs_at(text@, needle@, at as int),
{
    if needle.len() > text.len() - at {
        return false;
    }
    let mut i: usize = 0;
    while i < needle.len()
        invariant
            i <= needle@.len(),
            at + needle@.len() <= text.len(),
            forall|k: int| 0 <= k < i ==> text@[at + k] == needle@[k],
        decreases needle@.len() - i,
    {
        if text[at + i] != needle[i] {
            assert(text@.subrange(at as int, at + needle@.len())[i as int] != needle@[i as int]);
            return false;
        }
        i = i + 1;
    }
    assert(text@.subrange(at as int, at + needle@.len()) == needle@);
    true
}

/// The first position at which `needle` stands in `text`.
pub fn find(text: &[char], needle: &str) -> (r: Option<usize>)
    ensures
        match r {
            Some(i) => position(text@, needle@) == Some(i as int) && i + needle@.len()
                <= text@.len(),
            None => position(text@, needle@) is None,
        },
{
    let wanted = chars_of(needle);
    let mut i: usize = 0;
    while wanted.len() <= text.len() - i
        invariant
            wanted@ == needle@,
            i <= text@.len(),
            position(text@, needle@) == position_from(text@, needle@, i as int),
        decreases text@.len() - i,
    {
        if matches_at(text, &wanted, i) {
            return Some(i);
        }
        assert(i < text@.len()) by {
            if i == text@.len() {
                assert(text@.subrange(i as int, i + needle@.len()) == needle@);
            }
        }
        i = i + 1;
    }
    None
}

/// The first position of a text is found exactly where the text occurs.
pub proof fn lemma_position_occurs(s: Seq<char>, needle: Seq<char>)
    ensures
        position(s, needle) is Some <==> occurs(s, needle),
        position(s, needle) matches Some(i) ==> occurs_at(s, needle, i) && forall|k: int|
            0 <= k < i ==> !occurs_at(s, needle, k),
{
    lemma_position_from(s, needle, 0);
    if occurs(s, needle) {
        let i = choose|i: int| occurs_at(s, needle, i);
        assert(occurs_at(s, needle, i));
    }
}

proof fn lemma_position_from(s: Seq<char>, needle: Seq<char>, from: int)
    requires
        from >= 0,
    ensures
        position_from(s, needle, from) matches Some(i) ==> i >= from && occurs_at(s, needle, i)
            && forall|k: int| from <= k < i ==> !occurs_at(s, needle, k),
        position_from(s, needle, from) is None ==> forall|k: int|
            from <= k ==> !occurs_at(s, needle, k),
    decreases s.len() + 1 - from,
{
    if from + needle.len() <= s.len() && !occurs_at(s, needle, from) {
        lemma_position_from(s, needle, from + 1);
    }
}

/// Tests whether `needle` stands somewhere in `text`.
pub fn contains(text: &[char], needle: &str) -> (r: bool)
    ensures
        r == occurs(text@, needle@),
{
    proof {
        lemma_position_occurs(text@, needle@);
    }
    match find(text, needle) {
        Some(_) => true,
        None => false,
    }
}

/// Tests whether `text` starts with `prefix`.
pub fn has_prefix(text: &[char], prefix: &str) -> (r: bool)
    ensures
        r == starts_with(text@, prefix@),
{
    let prefix = chars_of(prefix);
    matches_at(text, &prefix, 0)
}

/// Tests whether `text` ends with `suffix`.
pub fn has_suffix(text: &[char], suffix: &str) -> (r: bool)
    ensures
        r == ends_with(text@, suffix@),
{
    let suffix = chars_of(suffix);
    if suffix.len() > text.len() {
        false
    } else {
        matches_at(text, &suffix, text.len() - suffix.len())
    }
}

/// Tests whether `text` is `other`.
pub fn same(text: &[char], other: &str) -> (r: bool)
    ensures
        r == (text@ == other@),
{
    same_chars(text, &chars_of(other))
}

/// Tests whether the two slices hold the same characters.
pub fn same_chars(text: &[char], other: &[char]) -> (r: bool)
    ensures
        r == (text@ == other@),
{
    if text.len() != other.len() {
        false
    } else {
        assert(text@.subrange(0, text@.len() as int) == text@);
        matches_at(text, other, 0)
    }
}

/// Tests whether `c` is a character of `text`.
pub fn has_char(text: &[char], c: char) -> (r: bool)
    ensures
        r == text@.contains(c),
{
    let mut i: usize = 0;
    while i < text.len()
        invariant
            i <= text@.len(),
            forall|k: int| 0 <= k < i ==> text@[k] != c,
        decreases text@.len() - i,
    {
        if text[i] == c {
            return true;
        }
        i = i + 1;
    }
    false
}

/// What follows the last `/` of `text`.
pub fn last_component<'a>(text: &'a [char]) -> (r: &'a [char])
    ensures
        r@ == base_name(text@),
{
    let all = split_pieces(text, CharClass::NotSlash);
    assert(contents(all@).last() == all@.last()@);
    all[all.len() - 1]
}

/// `text` with every upper-case ASCII letter made lower-case.
pub fn lowered(text: &[char]) -> (r: Vec<char>)
    ensures
        r@ == lower(text@),
{
    let mut r: Vec<char> = Vec::new();
    let mut i: usize = 0;
    while i < text.len()
        invariant
            i <= text@.len(),
            r@ == lower(text@).take(i as int),
        decreases text@.len() - i,
    {
        r.push(to_lower_char(text[i]));
        assert(r@ == lower(text@).take(i + 1));
        i = i + 1;
    }
    r
}

proof fn lemma_byte_len_push(s: Seq<char>, c: char)
    ensures
        byte_len(s.push(c)) == byte_len(s) + vstd::utf8::encode_scalar(c as u32).len(),
    decreases s.len(),
{
    if s.len() == 0 {
        assert(s.push(c).drop_first() == Seq::<char>::empty());
        reveal_with_fuel(vstd::utf8::encode_utf8, 2);
    } else {
        assert(s.push(c).drop_first() == s.drop_first().push(c));
        lemma_byte_len_push(s.drop_first(), c);
    }
}

proof fn lemma_byte_len_monotone(s: Seq<char>, i: int)
    requires
        0 <= i <= s.len(),
    ensures
        byte_len(s.take(i)) <= byte_len(s),
    decreases s.len() - i,
{
    if i < s.len() {
        assert(s.take(i + 1) == s.take(i).push(s[i]));
        lemma_byte_len_push(s.take(i), s[i]);
        lemma_byte_len_monotone(s, i + 1);
    } else {
        assert(s.take(i) == s);
    }
}

/// Tests whether `text` has at least `least` UTF-8 bytes.
pub fn has_bytes(text: &[char], least: usize) -> (r: bool)
    ensures
        r == (byte_len(text@) >= least),
{
    let mut count: usize = 0;
    let mut i: usize = 0;
    while i < text.len() && count < least
        invariant
            i <= text@.len(),
            count <= byte_len(text@.take(i as int)),
            count < least ==> count == byte_len(text@.take(i as int)),
        decreases text@.len() - i,
    {
        let code = text[i] as u32;
        proof {
            vstd::utf8::char_is_scalar(text@[i as int]);
            lemma_byte_len_push(text@.take(i as int), text@[i as int]);
            assert(text@.take(i + 1) == text@.take(i as int).push(text@[i as int]));
        }
        let width: usize = if code <= 0x7f {
            1
        } else if code <= 0x7ff {
            2
        } else if code <= 0xffff {
            3
        } else {
            4
        };
        assert(width == vstd::utf8::encode_scalar(code).len());
        count = if least - count <= width {
            least
        } else {
            count + width
        };
        i = i + 1;
    }
    proof {
        lemma_byte_len_monotone(text@, i as int);
        if i == text@.len() {
            assert(text@.take(i as int) == text@);
        }
    }
    count >= least
}

/// Tests whether `wanted` stands in `list`.
pub fn is_listed(list: &[String], wanted: &str) -> (r: bool)
    ensures
        r == texts(list@).contains(wanted@),
{
    let ghost all = texts(list@);
    let chars = chars_of(wanted);
    let mut i: usize = 0;
    while i < list.len()
        invariant
            i <= list@.len(),
            all == texts(list@),
            chars@ == wanted@,
            forall|k: int| 0 <= k < i ==> all[k] != wanted@,
        decreases list@.len() - i,
    {
        assert(all[i as int] == list@[i as int]@);
        if same(&chars, list[i].as_str()) {
            return true;
        }
        i = i + 1;
    }
    false
}

} // verus!
