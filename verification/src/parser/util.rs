//! Primitive parsers on string slices.
//!
//! The character-level steps are taken by [`nom`]: matching a fixed pattern,
//! taking one character, taking a run of alphanumeric characters. Each of them
//! stands behind a small function whose contract says what the call returns.
//! Everything that is built from these steps is verified.

use vstd::prelude::*;

verus! {

/// Why a parser did not match.
#[derive(Debug, Clone, Copy, PartialEq, Eq, Hash)]
pub enum ErrorKind {
    /// The input does not start with the expected pattern.
    Tag,
    /// The input ended before the expected pattern was found.
    Eof,
    /// Something was matched, but it is empty where it must not be.
    Verify,
    /// The input starts with a character that is excluded.
    IsNot,
}

/// A parser's report that it did not match: the input at which it gave up, and
/// why.
#[derive(Debug, PartialEq, Eq)]
pub struct ParseError<'a> {
    /// What was left of the input where the parser gave up.
    pub input: &'a str,
    /// Why the parser gave up.
    pub code: ErrorKind,
}

/// The mathematical model of a [`ParseError`].
pub struct Failure {
    /// What was left of the input where the parser gave up.
    pub input: Seq<char>,
    /// Why the parser gave up.
    pub code: ErrorKind,
}

impl<'a> View for ParseError<'a> {
    type V = Failure;

    open spec fn view(&self) -> Failure {
        Failure { input: self.input@, code: self.code }
    }
}

/// The mathematical model of a parser's result: the rest of the input together
/// with the view of what was parsed, or the failure.
pub open spec fn parsed<'a, T: View>(r: Result<(&'a str, T), ParseError<'a>>) -> Result<
    (Seq<char>, T::V),
    Failure,
> {
    match r {
        Ok((rest, value)) => Ok((rest@, value@)),
        Err(e) => Err(e@),
    }
}

/// The first position of `s` from which on the rest of `s` satisfies `accepts`.
/// The end of `s`, where the rest is empty, is a position too.
pub open spec fn first_match(s: Seq<char>, accepts: spec_fn(Seq<char>) -> bool) -> Option<int>
    decreases s.len(),
{
    if accepts(s) {
        Some(0)
    } else if s.len() == 0 {
        None
    } else {
        match first_match(s.drop_first(), accepts) {
            Some(k) => Some(k + 1),
            None => None,
        }
    }
}

/// The texts that start with `pattern`.
pub open spec fn starts_with(pattern: Seq<char>) -> spec_fn(Seq<char>) -> bool {
    |t: Seq<char>| pattern.is_prefix_of(t)
}

/// The first position of `s` at which `pattern` occurs.
pub open spec fn find(s: Seq<char>, pattern: Seq<char>) -> Option<int> {
    first_match(s, starts_with(pattern))
}

/// Whether `c` is one of `0-9`, `a-z`, `A-Z`.
pub open spec fn is_alphanumeric(c: char) -> bool {
    ('0' <= c && c <= '9') || ('a' <= c && c <= 'z') || ('A' <= c && c <= 'Z')
}

/// The length of the longest prefix of `s` that is made of alphanumeric
/// characters.
pub open spec fn alphanumeric_run(s: Seq<char>) -> int
    decreases s.len(),
{
    if s.len() > 0 && is_alphanumeric(s[0]) {
        1 + alphanumeric_run(s.drop_first())
    } else {
        0
    }
}

/// The length of the longest prefix of `s` that holds no character of `excluded`.
pub open spec fn excluded_run(s: Seq<char>, excluded: Seq<char>) -> int
    decreases s.len(),
{
    if s.len() > 0 && !excluded.contains(s[0]) {
        1 + excluded_run(s.drop_first(), excluded)
    } else {
        0
    }
}

/// What [`rest1`] returns: all of a non-empty input.
pub open spec fn rest1_spec(s: Seq<char>) -> Result<(Seq<char>, Seq<char>), Failure> {
    if s.len() > 0 {
        Ok((Seq::empty(), s))
    } else {
        Err(Failure { input: s, code: ErrorKind::Verify })
    }
}

/// What [`take_before0`] returns: the input up to the first occurrence of the
/// pattern, which is left in the rest.
pub open spec fn take_before0_spec(pattern: Seq<char>, s: Seq<char>) -> Result<
    (Seq<char>, Seq<char>),
    Failure,
> {
    match find(s, pattern) {
        Some(k) => Ok((s.skip(k), s.take(k))),
        None => Err(Failure { input: Seq::empty(), code: ErrorKind::Eof }),
    }
}

/// What [`take_before1`] returns: as [`take_before0_spec`], but a pattern right
/// at the start is a failure.
pub open spec fn take_before1_spec(pattern: Seq<char>, s: Seq<char>) -> Result<
    (Seq<char>, Seq<char>),
    Failure,
> {
    match find(s, pattern) {
        Some(k) => if k == 0 {
            Err(Failure { input: s, code: ErrorKind::Verify })
        } else {
            Ok((s.skip(k), s.take(k)))
        },
        None => Err(Failure { input: Seq::empty(), code: ErrorKind::Eof }),
    }
}

/// What [`delimited`] returns: the non-empty text between an opening delimiter
/// at the start of the input and the first delimiter after it.
pub open spec fn delimited_spec(delimiter: Seq<char>, s: Seq<char>) -> Result<
    (Seq<char>, Seq<char>),
    Failure,
> {
    if !delimiter.is_prefix_of(s) {
        Err(Failure { input: s, code: ErrorKind::Tag })
    } else {
        match take_before1_spec(delimiter, s.skip(delimiter.len() as int)) {
            Ok((rest, span)) => Ok((rest.skip(delimiter.len() as int), span)),
            Err(e) => Err(e),
        }
    }
}

/// What [`wrapped`] returns: the non-empty text between the wrapper at the start
/// of the input and the wrapper that follows the longest run of characters that
/// do not occur in the wrapper.
pub open spec fn wrapped_spec(wrapper: Seq<char>, s: Seq<char>) -> Result<
    (Seq<char>, Seq<char>),
    Failure,
> {
    if !wrapper.is_prefix_of(s) {
        Err(Failure { input: s, code: ErrorKind::Tag })
    } else {
        let body = s.skip(wrapper.len() as int);
        let n = excluded_run(body, wrapper);
        if n == 0 {
            Err(Failure { input: body, code: ErrorKind::IsNot })
        } else if !wrapper.is_prefix_of(body.skip(n)) {
            Err(Failure { input: body.skip(n), code: ErrorKind::Tag })
        } else {
            Ok((body.skip(n + wrapper.len()), body.take(n)))
        }
    }
}

/// An alphanumeric run is a prefix of the text.
pub proof fn lemma_alphanumeric_run_bounds(s: Seq<char>)
    ensures
        0 <= alphanumeric_run(s) <= s.len(),
    decreases s.len(),
{
    if s.len() > 0 && is_alphanumeric(s[0]) {
        lemma_alphanumeric_run_bounds(s.drop_first());
    }
}

/// A run of characters outside `excluded` is a prefix of the text.
pub proof fn lemma_excluded_run_bounds(s: Seq<char>, excluded: Seq<char>)
    ensures
        0 <= excluded_run(s, excluded) <= s.len(),
    decreases s.len(),
{
    if s.len() > 0 && !excluded.contains(s[0]) {
        lemma_excluded_run_bounds(s.drop_first(), excluded);
    }
}

/// The position that [`first_match`] gives is in range, the rest from there on
/// is accepted, and no rest from an earlier position is.
pub proof fn lemma_first_match_some(s: Seq<char>, accepts: spec_fn(Seq<char>) -> bool)
    requires
        first_match(s, accepts) is Some,
    ensures
        0 <= first_match(s, accepts)->0 <= s.len(),
        accepts(s.skip(first_match(s, accepts)->0)),
        forall|j: int| 0 <= j < first_match(s, accepts)->0 ==> !accepts(#[trigger] s.skip(j)),
    decreases s.len(),
{
    assert(s.skip(0) =~= s);
    if !accepts(s) {
        let t = s.drop_first();
        lemma_first_match_some(t, accepts);
        let k = first_match(t, accepts)->0;
        assert(t.skip(k) =~= s.skip(k + 1));
        assert forall|j: int| 0 <= j < k + 1 implies !accepts(#[trigger] s.skip(j)) by {
            if j > 0 {
                assert(t.skip(j - 1) =~= s.skip(j));
            }
        }
    }
}

/// Where [`first_match`] gives no position, no rest of `s` is accepted.
pub proof fn lemma_first_match_none(s: Seq<char>, accepts: spec_fn(Seq<char>) -> bool)
    requires
        first_match(s, accepts) is None,
    ensures
        forall|j: int| 0 <= j <= s.len() ==> !accepts(#[trigger] s.skip(j)),
    decreases s.len(),
{
    assert(s.skip(0) =~= s);
    if s.len() > 0 {
        let t = s.drop_first();
        lemma_first_match_none(t, accepts);
        assert forall|j: int| 0 <= j <= s.len() implies !accepts(#[trigger] s.skip(j)) by {
            if j > 0 {
                assert(t.skip(j - 1) =~= s.skip(j));
            }
        }
    }
}

/// A position whose rest is accepted, with no accepted rest before it, is the
/// one that [`first_match`] gives.
pub proof fn lemma_first_match_is(s: Seq<char>, accepts: spec_fn(Seq<char>) -> bool, k: int)
    requires
        0 <= k <= s.len(),
        accepts(s.skip(k)),
        forall|j: int| 0 <= j < k ==> !accepts(#[trigger] s.skip(j)),
    ensures
        first_match(s, accepts) == Some(k),
    decreases s.len(),
{
    assert(s.skip(0) =~= s);
    if k > 0 {
        let t = s.drop_first();
        assert(t.skip(k - 1) =~= s.skip(k));
        assert forall|j: int| 0 <= j < k - 1 implies !accepts(#[trigger] t.skip(j)) by {
            assert(t.skip(j) =~= s.skip(j + 1));
        }
        lemma_first_match_is(t, accepts, k - 1);
    }
}

/// Where no rest of `s` is accepted, [`first_match`] gives no position.
pub proof fn lemma_first_match_absent(s: Seq<char>, accepts: spec_fn(Seq<char>) -> bool)
    requires
        forall|j: int| 0 <= j <= s.len() ==> !accepts(#[trigger] s.skip(j)),
    ensures
        first_match(s, accepts) is None,
    decreases s.len(),
{
    assert(s.skip(0) =~= s);
    if s.len() > 0 {
        let t = s.drop_first();
        assert forall|j: int| 0 <= j <= t.len() implies !accepts(#[trigger] t.skip(j)) by {
            assert(t.skip(j) =~= s.skip(j + 1));
        }
        lemma_first_match_absent(t, accepts);
    }
}

/// Matches `pattern` at the start of `i` with `nom::bytes::complete::tag`.
///
/// The call succeeds exactly where `i` starts with `pattern`, and then hands back
/// the rest of `i` behind the pattern and the part of `i` that matched.
#[verifier::external_body]
pub(crate) fn tag<'a>(pattern: &str, i: &'a str) -> (r: Option<(&'a str, &'a str)>)
    ensures
        match r {
            Some((rest, matched)) => pattern@.is_prefix_of(i@) && matched@ == pattern@ && rest@
                == i@.skip(pattern@.len() as int),
            None => !pattern@.is_prefix_of(i@),
        },
{
    nom::bytes::complete::tag::<&str, &'a str, nom::error::Error<&'a str>>(pattern)(i).ok()
}

/// Takes the first character of `i` with `nom::character::complete::anychar`.
///
/// The call succeeds exactly where `i` is not empty, and then hands back the
/// rest of `i` behind its first character, and that character.
#[verifier::external_body]
pub(crate) fn anychar<'a>(i: &'a str) -> (r: Option<(&'a str, char)>)
    ensures
        match r {
            Some((rest, c)) => i@.len() > 0 && c == i@[0] && rest@ == i@.drop_first(),
            None => i@.len() == 0,
        },
{
    nom::character::complete::anychar::<&'a str, nom::error::Error<&'a str>>(i).ok()
}

/// Matches a line break at the start of `i` with
/// `nom::character::complete::newline`.
///
/// The call succeeds exactly where `i` starts with `'\n'`, and then hands back
/// the rest of `i` behind it, and the line break.
#[verifier::external_body]
pub(crate) fn newline<'a>(i: &'a str) -> (r: Option<(&'a str, char)>)
    ensures
        match r {
            Some((rest, c)) => i@.len() > 0 && i@[0] == '\n' && c == '\n' && rest@
                == i@.drop_first(),
            None => i@.len() == 0 || i@[0] != '\n',
        },
{
    nom::character::complete::newline::<&'a str, nom::error::Error<&'a str>>(i).ok()
}

/// Takes the longest run of `0-9`, `a-z`, `A-Z` at the start of `i` with
/// `nom::character::complete::alphanumeric1`.
///
/// The call succeeds exactly where that run is not empty, and then hands back
/// the rest of `i` behind the run, and the run.
#[verifier::external_body]
pub(crate) fn alphanumeric1<'a>(i: &'a str) -> (r: Option<(&'a str, &'a str)>)
    ensures
        match r {
            Some((rest, run)) => alphanumeric_run(i@) > 0 && run@ == i@.take(alphanumeric_run(i@))
                && rest@ == i@.skip(alphanumeric_run(i@)),
            None => alphanumeric_run(i@) == 0,
        },
{
    nom::character::complete::alphanumeric1::<&'a str, nom::error::Error<&'a str>>(i).ok()
}

/// Takes the longest run of characters that do not occur in `excluded` at the
/// start of `i` with `nom::bytes::complete::is_not`.
///
/// The call succeeds exactly where that run is not empty, and then hands back
/// the rest of `i` behind the run, and the run.
#[verifier::external_body]
pub(crate) fn is_not<'a>(excluded: &str, i: &'a str) -> (r: Option<(&'a str, &'a str)>)
    ensures
        match r {
            Some((rest, run)) => excluded_run(i@, excluded@) > 0 && run@ == i@.take(
                excluded_run(i@, excluded@),
            ) && rest@ == i@.skip(excluded_run(i@, excluded@)),
            None => excluded_run(i@, excluded@) == 0,
        },
{
    nom::bytes::complete::is_not::<&str, &'a str, nom::error::Error<&'a str>>(excluded)(i).ok()
}

/// Returns the remaining input, which must not be empty.
pub fn rest1<'a>(s: &'a str) -> (r: Result<(&'a str, &'a str), ParseError<'a>>)
    ensures
        parsed(r) == rest1_spec(s@),
{
    if s.is_empty() {
        Err(ParseError { input: s, code: ErrorKind::Verify })
    } else {
        proof {
            reveal_strlit("");
            assert(""@ =~= Seq::<char>::empty());
        }
        Ok(("", s))
    }
}

/// Returns the *shortest* input slice until `pattern` occurs. The pattern is
/// left in the rest.
pub fn take_before0<'a>(pattern: &str, i: &'a str) -> (r: Result<
    (&'a str, &'a str),
    ParseError<'a>,
>)
    ensures
        parsed(r) == take_before0_spec(pattern@, i@),
{
    let total = i.unicode_len();
    let mut rest = i;
    let mut taken: usize = 0;
    assert(i@.skip(0) =~= i@);
    loop
        invariant
            total == i@.len(),
            taken <= total,
            rest@ == i@.skip(taken as int),
            forall|j: int| 0 <= j < taken ==> !starts_with(pattern@)(#[trigger] i@.skip(j)),
        decreases total - taken,
    {
        match tag(pattern, rest) {
            Some(_) => {
                proof {
                    lemma_first_match_is(i@, starts_with(pattern@), taken as int);
                }
                let before = i.substring_char(0, taken);
                assert(before@ =~= i@.take(taken as int));
                return Ok((rest, before));
            },
            None => {},
        }
        match anychar(rest) {
            Some((next, _)) => {
                assert(next@ =~= i@.skip(taken + 1));
                rest = next;
                taken = taken + 1;
            },
            None => {
                proof {
                    assert(rest@ =~= Seq::<char>::empty());
                    lemma_first_match_absent(i@, starts_with(pattern@));
                }
                return Err(ParseError { input: rest, code: ErrorKind::Eof });
            },
        }
    }
}

/// Returns the *shortest* input slice until `pattern` occurs, which must not be
/// empty. The pattern is left in the rest.
pub fn take_before1<'a>(pattern: &str, i: &'a str) -> (r: Result<
    (&'a str, &'a str),
    ParseError<'a>,
>)
    ensures
        parsed(r) == take_before1_spec(pattern@, i@),
{
    match take_before0(pattern, i) {
        Ok((rest, before)) => {
            proof {
                lemma_first_match_some(i@, starts_with(pattern@));
            }
            if before.is_empty() {
                Err(ParseError { input: i, code: ErrorKind::Verify })
            } else {
                Ok((rest, before))
            }
        },
        Err(e) => Err(e),
    }
}

/// Gets the text between two delimiters: the input starts with `delimiter`, and
/// the text runs up to the next occurrence of `delimiter`, which is consumed too.
/// The text must not be empty.
pub fn delimited<'a>(delimiter: &str, i: &'a str) -> (r: Result<
    (&'a str, &'a str),
    ParseError<'a>,
>)
    ensures
        parsed(r) == delimited_spec(delimiter@, i@),
{
    match tag(delimiter, i) {
        None => Err(ParseError { input: i, code: ErrorKind::Tag }),
        Some((body, _)) => match take_before1(delimiter, body) {
            Err(e) => Err(e),
            Ok((closing, span)) => {
                proof {
                    lemma_first_match_some(body@, starts_with(delimiter@));
                }
                match tag(delimiter, closing) {
                    Some((rest, _)) => Ok((rest, span)),
                    None => Err(ParseError { input: closing, code: ErrorKind::Tag }),
                }
            },
        },
    }
}

/// Gets an object sandwiched in a pattern: the input starts with `wrapper`, then
/// comes a non-empty run of characters that do not occur in `wrapper`, then
/// `wrapper` again.
pub fn wrapped<'a>(wrapper: &str, i: &'a str) -> (r: Result<(&'a str, &'a str), ParseError<'a>>)
    ensures
        parsed(r) == wrapped_spec(wrapper@, i@),
{
    match tag(wrapper, i) {
        None => Err(ParseError { input: i, code: ErrorKind::Tag }),
        Some((body, _)) => match is_not(wrapper, body) {
            None => Err(ParseError { input: body, code: ErrorKind::IsNot }),
            Some((closing, filling)) => match tag(wrapper, closing) {
                Some((rest, _)) => {
                    proof {
                        lemma_excluded_run_bounds(body@, wrapper@);
                    }
                    assert(rest@ =~= body@.skip(excluded_run(body@, wrapper@) + wrapper@.len()));
                    Ok((rest, filling))
                },
                None => Err(ParseError { input: closing, code: ErrorKind::Tag }),
            },
        },
    }
}

} // verus!
