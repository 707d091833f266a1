//! The scan result shape shared by every scanner, and the generic
//! run-scanner: one character satisfying a start predicate, then a maximal
//! run of characters satisfying a continue predicate. The identifier,
//! whitespace and decimal-integer scanners are instantiations of it.

use vstd::prelude::*;

use crate::chars::{
    digit_in, is_dec_digit, is_white_space_char, is_xid_continue_char, is_xid_start_char, white_space,
    xid_continue, xid_start,
};

verus! {

/// Failure of a scan: `rest` is the suffix of the input at which scanning
/// could not proceed.
#[derive(Clone, Copy, PartialEq, Eq, Debug)]
pub struct Error<'a> {
    pub rest: &'a str,
}

impl<'a> Error<'a> {
    pub(crate) fn new(rest: &'a str) -> (e: Error<'a>)
        ensures
            e.rest@ == rest@,
    {
        Error { rest }
    }
}

/// The executable result `r` realizes the scan outcome `m`: on success the
/// view of the remaining suffix, on failure the view of the suffix at which
/// scanning stopped.
pub open spec fn scan_matches(r: Result<&str, Error>, m: Result<Seq<char>, Seq<char>>) -> bool {
    match r {
        Ok(rest) => m matches Ok(srest) && rest@ == srest,
        Err(e) => m matches Err(f) && e.rest@ == f,
    }
}

/// `a` is a suffix of `b`.
pub open spec fn is_suffix_of(a: Seq<char>, b: Seq<char>) -> bool {
    exists|n: int| 0 <= n <= b.len() && a == b.skip(n)
}

/// Length of the maximal prefix of `s` whose characters all satisfy `cont`.
pub open spec fn cont_run_len(s: Seq<char>, cont: spec_fn(char) -> bool) -> nat
    decreases s.len(),
{
    if s.len() == 0 || !cont(s[0]) {
        0
    } else {
        1 + cont_run_len(s.skip(1), cont)
    }
}

/// `cont_run_len` is the length of a maximal run: it is within bounds, every
/// character before it satisfies `cont`, and the character at it (if any)
/// does not.
pub proof fn lemma_cont_run_len_spec(s: Seq<char>, cont: spec_fn(char) -> bool)
    ensures
        cont_run_len(s, cont) <= s.len(),
        forall|j: int| 0 <= j < cont_run_len(s, cont) ==> cont(#[trigger] s[j]),
        cont_run_len(s, cont) < s.len() ==> !cont(s[cont_run_len(s, cont) as int]),
    decreases s.len(),
{
    if s.len() == 0 || !cont(s[0]) {
    } else {
        lemma_cont_run_len_spec(s.skip(1), cont);
        assert forall|j: int| 0 <= j < cont_run_len(s, cont) implies cont(#[trigger] s[j]) by {
            if j > 0 {
                assert(s.skip(1)[j - 1] == s[j]);
            }
        }
        let r = cont_run_len(s, cont) as int;
        if r < s.len() {
            assert(s.skip(1)[r - 1] == s[r]);
        }
    }
}

/// A prefix of `k` characters satisfying `cont`, delimited by a character
/// that does not (or by the end of `s`), is the maximal run.
pub proof fn lemma_cont_run_len_from_prefix(s: Seq<char>, cont: spec_fn(char) -> bool, k: int)
    requires
        0 <= k <= s.len(),
        forall|j: int| 0 <= j < k ==> cont(#[trigger] s[j]),
        k < s.len() ==> !cont(s[k]),
    ensures
        cont_run_len(s, cont) == k,
    decreases k,
{
    if k == 0 {
    } else {
        assert(cont(s[0]));
        assert forall|j: int| 0 <= j < k - 1 implies cont(#[trigger] s.skip(1)[j]) by {
            assert(s.skip(1)[j] == s[j + 1]);
        }
        if k - 1 < s.skip(1).len() {
            assert(s.skip(1)[k - 1] == s[k]);
        }
        lemma_cont_run_len_from_prefix(s.skip(1), cont, k - 1);
    }
}

/// Outcome of the run-scanner on `s`: one character satisfying `start`, then
/// the maximal run satisfying `cont`; anything else fails at the very start.
pub open spec fn scan_run(
    s: Seq<char>,
    start: spec_fn(char) -> bool,
    cont: spec_fn(char) -> bool,
) -> Result<Seq<char>, Seq<char>> {
    if s.len() > 0 && start(s[0]) {
        Ok(s.skip(1 + cont_run_len(s.skip(1), cont) as int))
    } else {
        Err(s)
    }
}

/// Consumes one character satisfying `f`, then a maximal run of characters
/// satisfying `g`; fails on empty input or when the first character does not
/// satisfy `f`. `fs` and `gs` are what the two predicates decide.
///
/// Beyond the outcome itself, the contract reports what the predicates
/// answered at the two decisive characters (the first one, and the first one
/// not consumed), so that instantiations whose predicates promise more than
/// `fs` and `gs` can use those promises.
pub fn start_and_continue<'a, F: Fn(char) -> bool, G: Fn(char) -> bool>(
    src: &'a str,
    f: F,
    g: G,
    Ghost(fs): Ghost<spec_fn(char) -> bool>,
    Ghost(gs): Ghost<spec_fn(char) -> bool>,
) -> (r: Result<&'a str, Error<'a>>)
    requires
        forall|c: char| #[trigger] call_requires(f, (c,)),
        forall|c: char| #[trigger] call_requires(g, (c,)),
        forall|c: char, b: bool| #[trigger] call_ensures(f, (c,), b) ==> b == fs(c),
        forall|c: char, b: bool| #[trigger] call_ensures(g, (c,), b) ==> b == gs(c),
    ensures
        scan_matches(r, scan_run(src@, fs, gs)),
        r is Ok ==> src@.len() > 0 && (exists|b: bool| call_ensures(f, (src@[0],), b) && b),
        r is Err && src@.len() > 0 ==> (exists|b: bool| call_ensures(f, (src@[0],), b) && !b),
        r matches Ok(rest) ==> (rest@.len() > 0 ==> exists|b: bool|
            call_ensures(g, (rest@[0],), b) && !b),
{
    let n = src.unicode_len();
    if n == 0 {
        return Err(Error::new(src));
    }
    let c0 = src.get_char(0);
    if !f(c0) {
        return Err(Error::new(src));
    }
    let mut i: usize = 1;
    loop
        invariant
            1 <= i <= n,
            n == src@.len(),
            forall|j: int| 1 <= j < i ==> gs(#[trigger] src@[j]),
            forall|c: char| #[trigger] call_requires(g, (c,)),
            forall|c: char, b: bool| #[trigger] call_ensures(g, (c,), b) ==> b == gs(c),
        ensures
            1 <= i <= n,
            n == src@.len(),
            forall|j: int| 1 <= j < i ==> gs(#[trigger] src@[j]),
            i < n ==> !gs(src@[i as int]),
            i < n ==> (exists|b: bool| call_ensures(g, (src@[i as int],), b) && !b),
        decreases n - i,
    {
        if i == n {
            break;
        }
        let c = src.get_char(i);
        if !g(c) {
            break;
        }
        i += 1;
    }
    proof {
        assert forall|j: int| 0 <= j < i - 1 implies gs(#[trigger] src@.skip(1)[j]) by {
            assert(src@.skip(1)[j] == src@[j + 1]);
        }
        if i < n {
            assert(src@.skip(1)[i - 1] == src@[i as int]);
        }
        lemma_cont_run_len_from_prefix(src@.skip(1), gs, i - 1);
        assert(src@.skip(i as int) =~= src@.subrange(i as int, n as int));
        if i < n {
            assert(src@.subrange(i as int, n as int)[0] == src@[i as int]);
        }
    }
    Ok(src.substring_char(i, n))
}

/// What the identifier scanner's start predicate decides.
pub open spec fn p_xid_start() -> spec_fn(char) -> bool {
    |c: char| xid_start(c)
}

/// What the identifier scanner's continue predicate decides.
pub open spec fn p_xid_continue() -> spec_fn(char) -> bool {
    |c: char| xid_continue(c)
}

/// What both whitespace predicates decide.
pub open spec fn p_white_space() -> spec_fn(char) -> bool {
    |c: char| white_space(c)
}

/// What the decimal-integer scanner's start predicate decides: a nonzero
/// decimal digit.
pub open spec fn p_nonzero_digit() -> spec_fn(char) -> bool {
    |c: char| is_dec_digit(c) && c != '0'
}

/// What the decimal-integer scanner's continue predicate decides.
pub open spec fn p_dec_digit() -> spec_fn(char) -> bool {
    |c: char| is_dec_digit(c)
}

/// Outcome of the identifier scanner on `s`.
pub open spec fn scan_identifier(s: Seq<char>) -> Result<Seq<char>, Seq<char>> {
    scan_run(s, p_xid_start(), p_xid_continue())
}

/// Outcome of the whitespace scanner on `s`.
pub open spec fn scan_whitespace(s: Seq<char>) -> Result<Seq<char>, Seq<char>> {
    scan_run(s, p_white_space(), p_white_space())
}

/// Outcome of the decimal-integer scanner on `s`.
pub open spec fn scan_decimal_integer(s: Seq<char>) -> Result<Seq<char>, Seq<char>> {
    scan_run(s, p_nonzero_digit(), p_dec_digit())
}

/// Scans a Unicode identifier: an `XID_Start` character, then a maximal run
/// of `XID_Continue` characters. Fails (at the whole input) on empty input
/// and whenever the first character — an ASCII digit, for one — is not
/// `XID_Start`. On success the remaining suffix never starts a new
/// identifier, since `XID_Continue` contains `XID_Start`.
pub fn identifier<'a>(src: &'a str) -> (r: Result<&'a str, Error<'a>>)
    ensures
        scan_matches(r, scan_identifier(src@)),
        r is Ok <==> src@.len() > 0 && xid_start(src@[0]),
        src@.len() > 0 && is_dec_digit(src@[0]) ==> r is Err,
        r matches Err(e) ==> e.rest@ == src@,
        r matches Ok(rest) ==> scan_identifier(rest@) is Err,
{
    let f = |c: char| -> (b: bool)
        ensures
            b == xid_start(c),
            is_dec_digit(c) ==> !b,
        { is_xid_start_char(c) };
    let g = |c: char| -> (b: bool)
        ensures
            b == xid_continue(c),
            xid_start(c) ==> b,
        { is_xid_continue_char(c) };
    let r = start_and_continue(src, f, g, Ghost(p_xid_start()), Ghost(p_xid_continue()));
    r
}

/// Scans a maximal run of Unicode whitespace characters (at least one).
/// Fails (at the whole input) on empty input and when the first character is
/// not whitespace. On success the remaining suffix starts with a
/// non-whitespace character, so re-scanning it fails.
pub fn whitespace<'a>(src: &'a str) -> (r: Result<&'a str, Error<'a>>)
    ensures
        scan_matches(r, scan_whitespace(src@)),
        r is Ok <==> src@.len() > 0 && white_space(src@[0]),
        r matches Err(e) ==> e.rest@ == src@,
        r matches Ok(rest) ==> scan_whitespace(rest@) is Err,
{
    let f = |c: char| -> (b: bool)
        ensures
            b == white_space(c),
        { is_white_space_char(c) };
    let r = start_and_continue(src, f, f, Ghost(p_white_space()), Ghost(p_white_space()));
    r
}

/// Scans a decimal integer: a nonzero decimal digit, then a maximal run of
/// decimal digits. Fails (at the whole input) on empty input and when the
/// first character is `0` or not a digit. On success the remaining suffix
/// starts with a non-digit, so re-scanning it fails.
pub fn decimal_integer<'a>(src: &'a str) -> (r: Result<&'a str, Error<'a>>)
    ensures
        scan_matches(r, scan_decimal_integer(src@)),
        r is Ok <==> src@.len() > 0 && is_dec_digit(src@[0]) && src@[0] != '0',
        r matches Err(e) ==> e.rest@ == src@,
        r matches Ok(rest) ==> scan_decimal_integer(rest@) is Err,
{
    let f = |c: char| -> (b: bool)
        ensures
            b == (is_dec_digit(c) && c != '0'),
        { digit_in(c, 10) && c != '0' };
    let g = |c: char| -> (b: bool)
        ensures
            b == is_dec_digit(c),
        { digit_in(c, 10) };
    let r = start_and_continue(src, f, g, Ghost(p_nonzero_digit()), Ghost(p_dec_digit()));
    r
}

} // verus!
