use vstd::prelude::*;

verus! {

/// Whether std classifies the character as Unicode white space.
pub uninterp spec fn char_is_whitespace(c: char) -> bool;

/// Relies on char::is_whitespace: the Unicode `White_Space` classification
/// of a character, a function of the character alone.
#[verifier::external_body]
pub fn is_whitespace_char(c: char) -> (r: bool)
    ensures
        r == char_is_whitespace(c),
{
    c.is_whitespace()
}

/// Number of leading white-space characters of `s`.
pub open spec fn ws_prefix(s: Seq<char>) -> nat
    decreases s.len(),
{
    if s.len() == 0 {
        0
    } else if char_is_whitespace(s[0]) {
        (1 + ws_prefix(s.skip(1))) as nat
    } else {
        0
    }
}

/// Length of `s` once its trailing white-space characters are dropped.
pub open spec fn ws_keep(s: Seq<char>) -> nat
    decreases s.len(),
{
    if s.len() == 0 {
        0
    } else if char_is_whitespace(s[s.len() - 1]) {
        ws_keep(s.take(s.len() - 1))
    } else {
        s.len()
    }
}

/// `s` without leading and trailing white space, as `str::trim` leaves it.
pub open spec fn trimmed(s: Seq<char>) -> Seq<char> {
    if ws_keep(s) == 0 {
        Seq::empty()
    } else {
        s.subrange(ws_prefix(s) as int, ws_keep(s) as int)
    }
}

pub proof fn lemma_ws_prefix(s: Seq<char>)
    ensures
        ws_prefix(s) <= s.len(),
        forall|j: int| 0 <= j < ws_prefix(s) ==> char_is_whitespace(#[trigger] s[j]),
        ws_prefix(s) < s.len() ==> !char_is_whitespace(s[ws_prefix(s) as int]),
    decreases s.len(),
{
    if s.len() == 0 {
    } else if char_is_whitespace(s[0]) {
        lemma_ws_prefix(s.skip(1));
        assert forall|j: int| 0 <= j < ws_prefix(s) implies char_is_whitespace(#[trigger] s[j]) by {
            if j > 0 {
                assert(s.skip(1)[j - 1] == s[j]);
            }
        }
        if ws_prefix(s) < s.len() {
            assert(s.skip(1)[ws_prefix(s) - 1] == s[ws_prefix(s) as int]);
        }
    } else {
    }
}

pub proof fn lemma_ws_prefix_is(s: Seq<char>, k: int)
    requires
        0 <= k <= s.len(),
        forall|j: int| 0 <= j < k ==> char_is_whitespace(#[trigger] s[j]),
        k < s.len() ==> !char_is_whitespace(s[k]),
    ensures
        ws_prefix(s) == k,
{
    lemma_ws_prefix(s);
    if ws_prefix(s) < k {
        assert(char_is_whitespace(s[ws_prefix(s) as int]));
    }
    if ws_prefix(s) > k {
        assert(char_is_whitespace(s[k]));
    }
}

pub proof fn lemma_ws_keep(s: Seq<char>)
    ensures
        ws_keep(s) <= s.len(),
        forall|j: int| ws_keep(s) <= j < s.len() ==> char_is_whitespace(#[trigger] s[j]),
        ws_keep(s) > 0 ==> !char_is_whitespace(s[ws_keep(s) - 1]),
    decreases s.len(),
{
    if s.len() == 0 {
    } else if char_is_whitespace(s[s.len() - 1]) {
        lemma_ws_keep(s.take(s.len() - 1));
        assert forall|j: int| ws_keep(s) <= j < s.len() implies char_is_whitespace(
            #[trigger] s[j],
        ) by {
            if j < s.len() - 1 {
                assert(s.take(s.len() - 1)[j] == s[j]);
            }
        }
        if ws_keep(s) > 0 {
            assert(s.take(s.len() - 1)[ws_keep(s) - 1] == s[ws_keep(s) - 1]);
        }
    } else {
    }
}

pub proof fn lemma_ws_keep_is(s: Seq<char>, k: int)
    requires
        0 <= k <= s.len(),
        forall|j: int| k <= j < s.len() ==> char_is_whitespace(#[trigger] s[j]),
        k > 0 ==> !char_is_whitespace(s[k - 1]),
    ensures
        ws_keep(s) == k,
{
    lemma_ws_keep(s);
    if ws_keep(s) < k {
        assert(char_is_whitespace(s[k - 1]));
    }
    if ws_keep(s) > k {
        assert(char_is_whitespace(s[ws_keep(s) - 1]));
    }
}

/// A string without any white-space character is left whole by trimming.
pub proof fn lemma_trimmed_no_ws(s: Seq<char>)
    requires
        forall|j: int| 0 <= j < s.len() ==> !char_is_whitespace(#[trigger] s[j]),
    ensures
        trimmed(s) == s,
{
    lemma_ws_keep_is(s, s.len() as int);
    lemma_ws_prefix_is(s, 0);
    if s.len() == 0 {
        assert(trimmed(s) =~= s);
    } else {
        assert(trimmed(s) =~= s);
    }
}

/// Removes leading and trailing white space, as `str::trim` does.
pub fn trim_str<'a>(s: &'a str) -> (r: &'a str)
    ensures
        r@ == trimmed(s@),
{
    let len = s.unicode_len();
    let mut end = len;
    while end > 0 && is_whitespace_char(s.get_char(end - 1))
        invariant
            end <= len,
            len == s@.len(),
            forall|j: int| end <= j < len ==> char_is_whitespace(#[trigger] s@[j]),
        decreases end,
    {
        end = end - 1;
    }
    proof {
        lemma_ws_keep_is(s@, end as int);
    }
    let mut start: usize = 0;
    while start < end && is_whitespace_char(s.get_char(start))
        invariant
            start <= end <= len,
            len == s@.len(),
            forall|j: int| 0 <= j < start ==> char_is_whitespace(#[trigger] s@[j]),
        decreases end - start,
    {
        start = start + 1;
    }
    let r = s.substring_char(start, end);
    proof {
        if end == 0 {
            assert(r@ =~= trimmed(s@));
        } else {
            lemma_ws_keep(s@);
            lemma_ws_prefix_is(s@, start as int);
            assert(r@ =~= trimmed(s@));
        }
    }
    r
}

/// Whether the character occurs in the string.
pub fn contains_char(s: &str, c: char) -> (r: bool)
    ensures
        r == s@.contains(c),
{
    let len = s.unicode_len();
    let mut i: usize = 0;
    while i < len
        invariant
            i <= len,
            len == s@.len(),
            forall|j: int| 0 <= j < i ==> s@[j] != c,
        decreases len - i,
    {
        if s.get_char(i) == c {
            return true;
        }
        i = i + 1;
    }
    false
}

} // verus!
