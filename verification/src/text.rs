//! Text helpers: the normalization applied to user-facing names before they
//! are compared as uniqueness keys, and the whitespace test for blank
//! values. Both follow Unicode: whitespace is the White_Space property and
//! lower-casing is the full string lowercase mapping, reached through named
//! trusted results.

use vstd::prelude::*;

verus! {

/// What `char::is_whitespace` answers: whether the character has the
/// Unicode White_Space property — a pure function of the character alone,
/// so the result may be named.
pub uninterp spec fn is_unicode_space(c: char) -> bool;

/// What `str::to_lowercase` returns: the Unicode lowercase equivalent of a
/// character sequence — a pure function of the characters alone, so the
/// result may be named.
pub uninterp spec fn lower_of(s: Seq<char>) -> Seq<char>;

/// Relies on `char::is_whitespace`: true exactly for characters with the
/// Unicode White_Space property.
#[verifier::external_body]
fn char_is_whitespace(c: char) -> (r: bool)
    ensures
        r == is_unicode_space(c),
{
    c.is_whitespace()
}

/// Relies on `str::to_lowercase`: returns the string's Unicode lowercase
/// equivalent.
#[verifier::external_body]
fn str_to_lowercase(s: &str) -> (r: String)
    ensures
        r@ == lower_of(s@),
{
    s.to_lowercase()
}

/// Relies on `str::chars`: iterating a string slice yields exactly the
/// string's characters, in order.
#[verifier::external_body]
pub(crate) fn str_to_chars(s: &str) -> (r: Vec<char>)
    ensures
        r@ == s@,
{
    s.chars().collect()
}

/// Relies on `String`'s `FromIterator<char>` implementation: collecting
/// characters builds the string of exactly those characters, in order.
#[verifier::external_body]
pub(crate) fn chars_to_string(v: &Vec<char>) -> (r: String)
    ensures
        r@ == v@,
{
    v.iter().collect()
}

/// Number of whitespace characters at the front of `s`.
pub open spec fn count_leading_spaces(s: Seq<char>) -> nat
    decreases s.len(),
{
    if s.len() == 0 || !is_unicode_space(s[0]) {
        0
    } else {
        1 + count_leading_spaces(s.drop_first())
    }
}

/// Number of whitespace characters at the back of `s`.
pub open spec fn count_trailing_spaces(s: Seq<char>) -> nat
    decreases s.len(),
{
    if s.len() == 0 || !is_unicode_space(s[s.len() - 1]) {
        0
    } else {
        1 + count_trailing_spaces(s.drop_last())
    }
}

/// `s` with surrounding whitespace removed.
pub open spec fn trim_spec(s: Seq<char>) -> Seq<char> {
    if count_leading_spaces(s) == s.len() {
        Seq::empty()
    } else {
        s.subrange(
            count_leading_spaces(s) as int,
            s.len() - count_trailing_spaces(s),
        )
    }
}

/// Normalization of a user-facing name: surrounding whitespace is removed
/// and the rest is lower-cased.
pub open spec fn norm_spec(s: Seq<char>) -> Seq<char> {
    lower_of(trim_spec(s))
}

/// Whether `s` consists of whitespace alone (an empty `s` counts).
pub open spec fn all_spaces(s: Seq<char>) -> bool {
    forall|i: int| 0 <= i < s.len() ==> is_unicode_space(#[trigger] s[i])
}

/// The leading-space count is a valid index; everything before it is
/// whitespace and the character at it (if any) is not.
pub proof fn lemma_count_leading_spaces(s: Seq<char>)
    ensures
        count_leading_spaces(s) <= s.len(),
        forall|i: int| 0 <= i < count_leading_spaces(s) ==> is_unicode_space(#[trigger] s[i]),
        count_leading_spaces(s) < s.len() ==> !is_unicode_space(
            s[count_leading_spaces(s) as int],
        ),
    decreases s.len(),
{
    if s.len() != 0 && is_unicode_space(s[0]) {
        lemma_count_leading_spaces(s.drop_first());
        assert forall|i: int| 0 <= i < count_leading_spaces(s) implies is_unicode_space(
            #[trigger] s[i],
        ) by {
            if i > 0 {
                assert(s.drop_first()[i - 1] == s[i]);
            }
        }
    }
}

/// The trailing-space count is a valid count from the back; everything
/// after the cut is whitespace and the character just before it (if any)
/// is not.
pub proof fn lemma_count_trailing_spaces(s: Seq<char>)
    ensures
        count_trailing_spaces(s) <= s.len(),
        forall|i: int|
            s.len() - count_trailing_spaces(s) <= i < s.len() ==> is_unicode_space(
                #[trigger] s[i],
            ),
        count_trailing_spaces(s) < s.len() ==> !is_unicode_space(
            s[s.len() - count_trailing_spaces(s) - 1],
        ),
    decreases s.len(),
{
    if s.len() != 0 && is_unicode_space(s[s.len() - 1]) {
        lemma_count_trailing_spaces(s.drop_last());
        assert forall|i: int|
            s.len() - count_trailing_spaces(s) <= i < s.len() implies is_unicode_space(
            #[trigger] s[i],
        ) by {
            if i < s.len() - 1 {
                assert(s.drop_last()[i] == s[i]);
            }
        }
    }
}

/// When some character of `s` is not whitespace, the leading and trailing
/// runs do not overlap, and the trimmed text keeps no whitespace at either
/// edge.
pub proof fn lemma_trim_bounds(s: Seq<char>)
    requires
        count_leading_spaces(s) < s.len(),
    ensures
        count_leading_spaces(s) + count_trailing_spaces(s) < s.len(),
        trim_spec(s).len() > 0,
        !is_unicode_space(trim_spec(s)[0]),
        !is_unicode_space(trim_spec(s)[trim_spec(s).len() - 1]),
{
    let l = count_leading_spaces(s) as int;
    let t = count_trailing_spaces(s) as int;
    lemma_count_leading_spaces(s);
    lemma_count_trailing_spaces(s);
    assert(!is_unicode_space(s[l]));
    if t == s.len() {
        assert(is_unicode_space(s[l]));
    }
    if l + t >= s.len() {
        // `s[l]` would lie inside the trailing run, which is all whitespace.
        assert(s.len() - t <= l < s.len());
        assert(is_unicode_space(s[l]));
    }
    assert(trim_spec(s)[0] == s[l]);
    assert(t < s.len());
    assert(!is_unicode_space(s[s.len() - t - 1]));
    assert(trim_spec(s)[trim_spec(s).len() - 1] == s[s.len() - t - 1]);
}

/// Law: trimming is idempotent — trimming an already-trimmed text changes
/// nothing.
pub proof fn lemma_trim_idempotent(s: Seq<char>)
    ensures
        trim_spec(trim_spec(s)) == trim_spec(s),
{
    let t = trim_spec(s);
    lemma_count_leading_spaces(s);
    if count_leading_spaces(s) == s.len() {
        assert(t =~= Seq::<char>::empty());
        assert(trim_spec(t) =~= t);
    } else {
        lemma_trim_bounds(s);
        assert(count_leading_spaces(t) == 0);
        assert(count_trailing_spaces(t) == 0);
        assert(trim_spec(t) =~= t);
    }
}

/// Removes surrounding whitespace.
fn trim_chars(v: &Vec<char>) -> (r: Vec<char>)
    ensures
        r@ == trim_spec(v@),
{
    proof {
        lemma_count_leading_spaces(v@);
        lemma_count_trailing_spaces(v@);
    }
    let n = v.len();
    let mut start: usize = 0;
    while start < n && char_is_whitespace(v[start])
        invariant
            start <= n,
            n == v@.len(),
            forall|i: int| 0 <= i < start ==> is_unicode_space(#[trigger] v@[i]),
        decreases n - start,
    {
        start = start + 1;
    }
    assert(start == count_leading_spaces(v@)) by {
        let cls = count_leading_spaces(v@) as int;
        if cls < start {
            assert(is_unicode_space(v@[cls]));
        }
        if cls > start {
            assert(is_unicode_space(v@[start as int]));
        }
    }
    if start == n {
        let r: Vec<char> = Vec::new();
        assert(r@ =~= trim_spec(v@));
        return r;
    }
    let mut end: usize = n;
    while end > start && char_is_whitespace(v[end - 1])
        invariant
            start <= end <= n,
            n == v@.len(),
            start < n,
            !is_unicode_space(v@[start as int]),
            forall|i: int| end <= i < n ==> is_unicode_space(#[trigger] v@[i]),
        decreases end,
    {
        end = end - 1;
    }
    assert(end > start);
    assert(end as int == v@.len() - count_trailing_spaces(v@)) by {
        let cut = v@.len() - count_trailing_spaces(v@);
        if cut > end {
            assert(is_unicode_space(v@[cut - 1]));
        }
        if cut < end {
            assert(is_unicode_space(v@[end - 1]));
        }
    }
    let mut r: Vec<char> = Vec::new();
    let mut i: usize = start;
    while i < end
        invariant
            start <= i <= end <= n,
            n == v@.len(),
            r@ == v@.subrange(start as int, i as int),
        decreases end - i,
    {
        r.push(v[i]);
        proof {
            assert(v@.subrange(start as int, i + 1) =~= v@.subrange(start as int, i as int).push(
                v@[i as int],
            ));
        }
        i = i + 1;
    }
    assert(r@ =~= trim_spec(v@));
    r
}

/// Normalizes a user-facing name: surrounding whitespace is trimmed and the
/// rest is lower-cased. The result is what uniqueness checks compare.
pub fn str_normalize(s: &str) -> (r: String)
    ensures
        r@ == norm_spec(s@),
{
    let v = str_to_chars(s);
    let trimmed = trim_chars(&v);
    let trimmed_str = chars_to_string(&trimmed);
    str_to_lowercase(trimmed_str.as_str())
}

/// Reports whether `s` is empty or consists of whitespace alone.
pub fn str_is_whitespace(s: &str) -> (r: bool)
    ensures
        r == all_spaces(s@),
{
    let v = str_to_chars(s);
    let n = v.len();
    let mut i: usize = 0;
    while i < n
        invariant
            i <= n,
            n == v@.len(),
            v@ == s@,
            forall|j: int| 0 <= j < i ==> is_unicode_space(#[trigger] s@[j]),
        decreases n - i,
    {
        if !char_is_whitespace(v[i]) {
            return false;
        }
        i = i + 1;
    }
    true
}

} // verus!
