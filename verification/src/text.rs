use vstd::prelude::*;
use vstd::string::*;

verus! {

/// `pat` occurs in `hay` as a contiguous run.
pub open spec fn occurs_in(hay: Seq<u8>, pat: Seq<u8>) -> bool {
    exists|i: int| 0 <= i && i + pat.len() <= hay.len() && #[trigger] hay.subrange(i, i + pat.len()) == pat
}

/// Whether `pat` stands in `hay` at `i`.
fn matches_at(hay: &[u8], pat: &[u8], i: usize) -> (r: bool)
    requires
        i + pat@.len() <= hay@.len(),
    ensures
        r == (hay@.subrange(i as int, i + pat@.len()) == pat@),
{
    let mut k: usize = 0;
    while k < pat.len()
        invariant
            i + pat.len() <= hay.len(),
            k <= pat@.len(),
            forall|j: int| 0 <= j < k ==> hay@[i + j] == pat@[j],
        decreases pat@.len() - k,
    {
        if hay[i + k] != pat[k] {
            assert(hay@.subrange(i as int, i + pat@.len())[k as int] != pat@[k as int]);
            return false;
        }
        k += 1;
    }
    assert(hay@.subrange(i as int, i + pat@.len()) =~= pat@);
    true
}

/// Whether the bytes `pat` occur in the bytes `hay`.
pub fn bytes_contain(hay: &[u8], pat: &[u8]) -> (r: bool)
    ensures
        r == occurs_in(hay@, pat@),
{
    if pat.len() > hay.len() {
        return false;
    }
    if pat.len() == 0 {
        assert(hay@.subrange(0, 0 + pat@.len() as int) =~= pat@);
        return true;
    }
    let last = hay.len() - pat.len();
    let mut i: usize = 0;
    while i <= last
        invariant
            last + pat.len() == hay.len(),
            pat.len() > 0,
            i <= last + 1,
            forall|j: int| 0 <= j < i ==> #[trigger] hay@.subrange(j, j + pat@.len()) != pat@,
        decreases last + 1 - i,
    {
        if matches_at(hay, pat, i) {
            return true;
        }
        i += 1;
    }
    false
}

/// Whether two strings hold the same characters.
pub fn str_eq(a: &str, b: &str) -> (r: bool)
    ensures
        r == (a@ == b@),
{
    <String as PartialEq>::eq(&a.to_owned(), &b.to_owned())
}

/// Result of `str::to_lowercase` on a string with these characters.
pub uninterp spec fn lowercase(s: Seq<char>) -> Seq<char>;

/// Calls `str::to_lowercase`. The contract claims only that the result is
/// a function of the characters of `s`: which characters map to which is
/// Unicode's lowercase mapping, not stated here.
#[verifier::external_body]
pub(crate) fn to_lowercase(s: &str) -> (r: String)
    ensures
        r@ == lowercase(s@),
{
    s.to_lowercase()
}

/// Unicode `White_Space` (the characters that `str::trim` removes).
pub open spec fn is_white_space(c: char) -> bool {
    let u = c as u32;
    ||| 0x09 <= u <= 0x0d
    ||| u == 0x20
    ||| u == 0x85
    ||| u == 0xa0
    ||| u == 0x1680
    ||| 0x2000 <= u <= 0x200a
    ||| u == 0x2028
    ||| u == 0x2029
    ||| u == 0x202f
    ||| u == 0x205f
    ||| u == 0x3000
}

/// `s` without its leading white space.
pub open spec fn trim_start_chars(s: Seq<char>) -> Seq<char>
    decreases s.len(),
{
    if s.len() > 0 && is_white_space(s[0]) {
        trim_start_chars(s.drop_first())
    } else {
        s
    }
}

/// `s` without its trailing white space.
pub open spec fn trim_end_chars(s: Seq<char>) -> Seq<char>
    decreases s.len(),
{
    if s.len() > 0 && is_white_space(s.last()) {
        trim_end_chars(s.drop_last())
    } else {
        s
    }
}

/// `s` without leading and trailing white space.
pub open spec fn trim_chars(s: Seq<char>) -> Seq<char> {
    trim_end_chars(trim_start_chars(s))
}

proof fn lemma_trim_start(s: Seq<char>, i: int)
    requires
        0 <= i <= s.len(),
        forall|k: int| 0 <= k < i ==> is_white_space(#[trigger] s[k]),
        i == s.len() || !is_white_space(s[i]),
    ensures
        trim_start_chars(s) == s.subrange(i, s.len() as int),
    decreases i,
{
    if i > 0 {
        let t = s.drop_first();
        assert forall|k: int| 0 <= k < i - 1 implies is_white_space(#[trigger] t[k]) by {
            assert(t[k] == s[k + 1]);
        }
        assert(i - 1 == t.len() || t[i - 1] == s[i]);
        lemma_trim_start(t, i - 1);
        assert(t.subrange(i - 1, t.len() as int) =~= s.subrange(i, s.len() as int));
    } else {
        assert(s.subrange(0, s.len() as int) =~= s);
    }
}

proof fn lemma_trim_end(s: Seq<char>, j: int)
    requires
        0 <= j <= s.len(),
        forall|k: int| j <= k < s.len() ==> is_white_space(#[trigger] s[k]),
        j == 0 || !is_white_space(s[j - 1]),
    ensures
        trim_end_chars(s) == s.subrange(0, j),
    decreases s.len() - j,
{
    if j < s.len() {
        let t = s.drop_last();
        assert(is_white_space(s[s.len() - 1]));
        assert forall|k: int| j <= k < t.len() implies is_white_space(#[trigger] t[k]) by {
            assert(t[k] == s[k]);
        }
        assert(j == 0 || t[j - 1] == s[j - 1]);
        lemma_trim_end(t, j);
        assert(t.subrange(0, j) =~= s.subrange(0, j));
    } else {
        assert(s.subrange(0, j) =~= s);
    }
}

/// Whether `c` is Unicode white space.
pub fn is_white_space_char(c: char) -> (r: bool)
    ensures
        r == is_white_space(c),
{
    let u = c as u32;
    (0x09 <= u && u <= 0x0d) || u == 0x20 || u == 0x85 || u == 0xa0 || u == 0x1680 || (0x2000
        <= u && u <= 0x200a) || u == 0x2028 || u == 0x2029 || u == 0x202f || u == 0x205f || u
        == 0x3000
}

/// The line without leading and trailing white space, as `str::trim`
/// gives it.
pub fn trim_line(line: &str) -> (r: &str)
    ensures
        r@ == trim_chars(line@),
{
    let n = line.unicode_len();
    let mut i: usize = 0;
    loop
        invariant
            n == line@.len(),
            i <= n,
            forall|k: int| 0 <= k < i ==> is_white_space(#[trigger] line@[k]),
        ensures
            i <= n,
            forall|k: int| 0 <= k < i ==> is_white_space(#[trigger] line@[k]),
            i == n || !is_white_space(line@[i as int]),
        decreases n - i,
    {
        if i >= n {
            break;
        }
        if !is_white_space_char(line.get_char(i)) {
            break;
        }
        i += 1;
    }
    let mut j: usize = n;
    loop
        invariant
            n == line@.len(),
            i <= j <= n,
            forall|k: int| j <= k < n ==> is_white_space(#[trigger] line@[k]),
        ensures
            i <= j <= n,
            forall|k: int| j <= k < n ==> is_white_space(#[trigger] line@[k]),
            j == i || !is_white_space(line@[j - 1]),
        decreases j - i,
    {
        if j <= i {
            break;
        }
        if !is_white_space_char(line.get_char(j - 1)) {
            break;
        }
        j -= 1;
    }
    proof {
        lemma_trim_start(line@, i as int);
        let t = line@.subrange(i as int, n as int);
        assert forall|k: int| j - i <= k < t.len() implies is_white_space(#[trigger] t[k]) by {
            assert(t[k] == line@[i + k]);
        }
        assert(j == i || t[j - i - 1] == line@[j - 1]);
        lemma_trim_end(t, j - i);
        assert(t.subrange(0, j - i) =~= line@.subrange(i as int, j as int));
    }
    line.substring_char(i, j)
}

/// The line that `echo cycle` sends is the command `cycle`.
pub proof fn law_echoed_line_trims_to_command()
    ensures
        trim_chars("cycle\n"@) == "cycle"@,
{
    reveal_strlit("cycle\n");
    reveal_strlit("cycle");
    let s = "cycle\n"@;
    assert(!is_white_space(s[0]));
    assert(trim_start_chars(s) == s);
    assert(is_white_space(s.last()));
    assert(!is_white_space(s.drop_last().last()));
    assert(trim_end_chars(s.drop_last()) == s.drop_last());
    assert(s.drop_last() =~= "cycle"@);
}


proof fn lemma_first_kept(s: Seq<char>) -> (i: int)
    ensures
        0 <= i <= s.len(),
        forall|k: int| 0 <= k < i ==> is_white_space(#[trigger] s[k]),
        i == s.len() || !is_white_space(s[i]),
    decreases s.len(),
{
    if s.len() > 0 && is_white_space(s[0]) {
        let t = s.drop_first();
        let j = lemma_first_kept(t);
        assert forall|k: int| 0 <= k < j + 1 implies is_white_space(#[trigger] s[k]) by {
            if k > 0 {
                assert(s[k] == t[k - 1]);
            }
        }
        assert(j + 1 == s.len() || s[j + 1] == t[j]);
        j + 1
    } else {
        0
    }
}

proof fn lemma_last_kept(s: Seq<char>) -> (j: int)
    ensures
        0 <= j <= s.len(),
        forall|k: int| j <= k < s.len() ==> is_white_space(#[trigger] s[k]),
        j == 0 || !is_white_space(s[j - 1]),
    decreases s.len(),
{
    if s.len() > 0 && is_white_space(s[s.len() - 1]) {
        let t = s.drop_last();
        let j = lemma_last_kept(t);
        assert forall|k: int| j <= k < s.len() implies is_white_space(#[trigger] s[k]) by {
            if k < s.len() - 1 {
                assert(s[k] == t[k]);
            }
        }
        assert(j == 0 || s[j - 1] == t[j - 1]);
        j
    } else {
        s.len() as int
    }
}

/// Trimming removes exactly the white space at both ends: the result is the
/// part of the line between its first and its last character that is not
/// white space (nothing when every character is).
pub proof fn law_trim_strips_both_ends(s: Seq<char>)
    ensures
        exists|i: int, j: int|
            #![trigger s.subrange(i, j)]
            0 <= i <= j <= s.len() && trim_chars(s) == s.subrange(i, j) && (forall|k: int|
                0 <= k < i ==> is_white_space(#[trigger] s[k])) && (forall|k: int|
                j <= k < s.len() ==> is_white_space(#[trigger] s[k])) && (i < j ==> (
            !is_white_space(s[i]) && !is_white_space(s[j - 1]))),
{
    let i = lemma_first_kept(s);
    lemma_trim_start(s, i);
    let t = s.subrange(i, s.len() as int);
    let jt = lemma_last_kept(t);
    lemma_trim_end(t, jt);
    let j = i + jt;
    assert(t.subrange(0, jt) =~= s.subrange(i, j));
    assert forall|k: int| j <= k < s.len() implies is_white_space(#[trigger] s[k]) by {
        assert(s[k] == t[k - i]);
    }
    if i < j {
        assert(s[i] == t[0]);
        assert(s[j - 1] == t[jt - 1]);
    }
    assert(0 <= i <= j <= s.len() && trim_chars(s) == s.subrange(i, j));
}

} // verus!
