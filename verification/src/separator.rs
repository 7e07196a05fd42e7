//! Splitting text at the matches of a regular expression, with the `regex` crate.
use vstd::prelude::*;

verus! {

#[verifier::external_type_specification]
#[verifier::external_body]
pub struct ExRegex(regex::Regex);

#[verifier::external_type_specification]
#[verifier::external_body]
pub struct ExRegexError(regex::Error);

/// A compiled regular expression, with the pattern it was compiled from.
pub struct Splitter {
    regex: regex::Regex,
    pattern: Ghost<Seq<char>>,
}

impl Splitter {
    /// The pattern this splitter was compiled from.
    pub closed spec fn pattern(&self) -> Seq<char> {
        self.pattern@
    }
}

/// Whether `c` has a special meaning in the `regex` syntax (and needs `\` to stand for itself).
pub open spec fn is_regex_meta(c: char) -> bool {
    c == '\\' || c == '.' || c == '+' || c == '*' || c == '?' || c == '(' || c == ')' || c == '|'
        || c == '[' || c == ']' || c == '{' || c == '}' || c == '^' || c == '$' || c == '#'
        || c == '&' || c == '-' || c == '~'
}

/// The one character that a pattern atom matches: a character without special
/// meaning, or the escape `\n` for a line feed.
pub open spec fn regex_atom(atom: Seq<char>) -> Option<char> {
    if atom.len() == 1 && !is_regex_meta(atom[0]) {
        Some(atom[0])
    } else if atom.len() == 2 && atom[0] == '\\' && atom[1] == 'n' {
        Some('\n')
    } else {
        None
    }
}

/// The two characters of a pattern `x|y` whose two sides are atoms, with
/// the `|` at position `k`.
pub open spec fn alternation_at(pattern: Seq<char>, k: int) -> Option<(char, char)> {
    if 0 < k < pattern.len() && pattern[k] == '|' {
        match (regex_atom(pattern.subrange(0, k)), regex_atom(pattern.subrange(k + 1, pattern.len() as int))) {
            (Some(a), Some(b)) => Some((a, b)),
            _ => None,
        }
    } else {
        None
    }
}

/// The two characters of a pattern that is an alternation of two one-character atoms.
pub open spec fn alternation_of_two_chars(pattern: Seq<char>) -> Option<(char, char)> {
    match alternation_at(pattern, 1) {
        Some(ab) => Some(ab),
        None => alternation_at(pattern, 2),
    }
}

/// `haystack` cut at every occurrence of `a` or `b`: the pieces between
/// them, with an empty piece before a leading separator, after a trailing
/// one and between two adjacent ones.
pub open spec fn split_at_chars(haystack: Seq<char>, a: char, b: char) -> Seq<Seq<char>>
    decreases haystack.len(),
{
    if haystack.len() == 0 {
        seq![Seq::empty()]
    } else {
        let pieces = split_at_chars(haystack.drop_last(), a, b);
        let c = haystack.last();
        if c == a || c == b {
            pieces.push(Seq::empty())
        } else {
            pieces.update(pieces.len() - 1, pieces.last().push(c))
        }
    }
}

/// How many times `a` or `b` occurs in `h`.
pub open spec fn separator_count(h: Seq<char>, a: char, b: char) -> nat
    decreases h.len(),
{
    if h.len() == 0 {
        0
    } else if h.last() == a || h.last() == b {
        separator_count(h.drop_last(), a, b) + 1
    } else {
        separator_count(h.drop_last(), a, b)
    }
}

/// `h` with every `a` and `b` left out.
pub open spec fn without_separators(h: Seq<char>, a: char, b: char) -> Seq<char>
    decreases h.len(),
{
    if h.len() == 0 {
        Seq::empty()
    } else if h.last() == a || h.last() == b {
        without_separators(h.drop_last(), a, b)
    } else {
        without_separators(h.drop_last(), a, b).push(h.last())
    }
}

/// The pieces written one after the other.
pub open spec fn joined(pieces: Seq<Seq<char>>) -> Seq<char>
    decreases pieces.len(),
{
    if pieces.len() == 0 {
        Seq::empty()
    } else {
        joined(pieces.drop_last()) + pieces.last()
    }
}

/// Cutting at separators gives one piece more than there are separators,
/// no piece holds a separator, and the pieces one after the other are the
/// haystack with its separators left out.
pub proof fn law_split_at_chars(h: Seq<char>, a: char, b: char)
    ensures
        split_at_chars(h, a, b).len() == separator_count(h, a, b) + 1,
        forall|i: int, j: int|
            0 <= i < split_at_chars(h, a, b).len() && 0 <= j < split_at_chars(h, a, b)[i].len()
                ==> split_at_chars(h, a, b)[i][j] != a && split_at_chars(h, a, b)[i][j] != b,
        joined(split_at_chars(h, a, b)) == without_separators(h, a, b),
    decreases h.len(),
{
    if h.len() == 0 {
        let p = split_at_chars(h, a, b);
        assert(p.drop_last() =~= Seq::<Seq<char>>::empty());
        assert(joined(p.drop_last()) == Seq::<char>::empty());
        assert(p.last() == Seq::<char>::empty());
        assert(joined(p) =~= Seq::<char>::empty());
    } else {
        law_split_at_chars(h.drop_last(), a, b);
        let q = split_at_chars(h.drop_last(), a, b);
        let p = split_at_chars(h, a, b);
        let c = h.last();
        if c == a || c == b {
            assert(p.drop_last() =~= q);
            assert(joined(p) =~= joined(q));
        } else {
            assert(p.drop_last() =~= q.drop_last());
            assert(joined(q) == joined(q.drop_last()) + q.last());
            assert(joined(p) =~= joined(q).push(c));
            assert forall|i: int, j: int| 0 <= i < p.len() && 0 <= j < p[i].len() implies p[i][j]
                != a && p[i][j] != b by {
                if i == p.len() - 1 && j == p[i].len() - 1 {
                } else if i == p.len() - 1 {
                    assert(p[i][j] == q[i][j]);
                } else {
                    assert(p[i] == q[i]);
                }
            }
        }
    }
}

/// The pieces that `regex::Regex::split` gives for a pattern and a haystack.
pub uninterp spec fn regex_split(pattern: Seq<char>, haystack: Seq<char>) -> Seq<Seq<char>>;

/// Compiles `pattern` with `regex::Regex::new`. Claimed: a splitter that
/// comes back records the pattern it was compiled from; and a pattern `x|y`
/// of two one-character atoms compiles, since `Regex::new` fails only on an
/// invalid pattern or one whose compiled form exceeds the default size limit.
/// Not claimed: whether any other pattern compiles.
#[verifier::external_body]
pub(crate) fn compile_splitter(pattern: &str) -> (compiled: Result<Splitter, regex::Error>)
    ensures
        compiled matches Ok(s) ==> s.pattern() == pattern@,
        alternation_of_two_chars(pattern@) is Some ==> compiled is Ok,
{
    match regex::Regex::new(pattern) {
        Ok(regex) => Ok(Splitter { regex, pattern: Ghost(pattern@) }),
        Err(e) => Err(e),
    }
}

/// Splits `haystack` with `regex::Regex::split` and collects the pieces as
/// strings. Claimed: the pieces are `regex_split` of the pattern and the
/// haystack, and, as the `regex` documentation describes `split` and the
/// pattern syntax, for a pattern `x|y` of two one-character atoms they are
/// the haystack cut at every occurrence of either character.
#[verifier::external_body]
pub(crate) fn split(splitter: &Splitter, haystack: &str) -> (pieces: Vec<String>)
    ensures
        pieces@.map_values(|p: String| p@) == regex_split(splitter.pattern(), haystack@),
        alternation_of_two_chars(splitter.pattern()) matches Some((a, b)) ==> pieces@.map_values(
            |p: String| p@,
        ) == split_at_chars(haystack@, a, b),
{
    splitter.regex.split(haystack).map(String::from).collect()
}

} // verus!
