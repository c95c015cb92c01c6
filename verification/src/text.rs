//! Character-level helpers on task titles and typed lines: whitespace
//! trimming and ASCII case folding, with their models over `Seq<char>`.

use vstd::prelude::*;
use vstd::string::*;

verus! {

/// Code point of `c`.
pub open spec fn code(c: char) -> u32 {
    c as u32
}

/// The Unicode `White_Space` property, which `char::is_whitespace` and
/// `str::trim` go by.
pub open spec fn is_white_space(c: char) -> bool {
    let u = code(c);
    ||| 0x09 <= u <= 0x0d
    ||| u == 0x20
    ||| u == 0x85
    ||| u == 0xa0
    ||| u == 0x1680
    ||| 0x2000 <= u <= 0x200a
    ||| u == 0x2028
    ||| u == 0x2029
    ||| u == 0x202f
    ||| u == 0x205f
    ||| u == 0x3000
}

/// Number of whitespace characters at the start of `s`.
pub open spec fn leading_ws(s: Seq<char>) -> nat
    decreases s.len(),
{
    if s.len() > 0 && is_white_space(s[0]) {
        1 + leading_ws(s.drop_first())
    } else {
        0
    }
}

/// Number of whitespace characters at the end of `s`.
pub open spec fn trailing_ws(s: Seq<char>) -> nat
    decreases s.len(),
{
    if s.len() > 0 && is_white_space(s.last()) {
        1 + trailing_ws(s.drop_last())
    } else {
        0
    }
}

/// `s` with leading and trailing whitespace removed.
pub open spec fn trimmed(s: Seq<char>) -> Seq<char> {
    let t = s.skip(leading_ws(s) as int);
    t.take(t.len() - trailing_ws(t))
}

/// The code point that `char::to_ascii_lowercase` maps `c` to.
pub open spec fn ascii_lower_code(c: char) -> u32 {
    if 0x41 <= code(c) <= 0x5a {
        (code(c) + 0x20) as u32
    } else {
        code(c)
    }
}

/// `s`, folded to ASCII lower case, is `word`.
pub open spec fn folds_to(s: Seq<char>, word: Seq<char>) -> bool {
    &&& s.len() == word.len()
    &&& forall|i: int| 0 <= i < s.len() ==> ascii_lower_code(#[trigger] s[i]) == code(word[i])
}

/// Whether `c` has the Unicode `White_Space` property.
pub fn is_white_space_char(c: char) -> (r: bool)
    ensures
        r == is_white_space(c),
{
    let u = c as u32;
    (0x09 <= u && u <= 0x0d) || u == 0x20 || u == 0x85 || u == 0xa0 || u == 0x1680 || (0x2000
        <= u && u <= 0x200a) || u == 0x2028 || u == 0x2029 || u == 0x202f || u == 0x205f || u
        == 0x3000
}

/// `s` without its leading and trailing whitespace, as `str::trim` gives it.
pub fn trim(s: &str) -> (r: &str)
    ensures
        r@ == trimmed(s@),
{
    let n = s.unicode_len();
    let mut a: usize = 0;
    assert(s@.skip(0) =~= s@);
    while a < n && is_white_space_char(s.get_char(a))
        invariant
            n == s@.len(),
            a <= n,
            leading_ws(s@) == a + leading_ws(s@.skip(a as int)),
        decreases n - a,
    {
        proof {
            let rest = s@.skip(a as int);
            assert(rest.drop_first() =~= s@.skip(a + 1));
        }
        a = a + 1;
    }
    assert(leading_ws(s@.skip(a as int)) == 0);
    let ghost t = s@.skip(a as int);
    let mut j: usize = n;
    assert(s@.subrange(a as int, j as int) =~= t);
    while j > a && is_white_space_char(s.get_char(j - 1))
        invariant
            n == s@.len(),
            a <= j <= n,
            t == s@.skip(a as int),
            trailing_ws(t) == (n - j) + trailing_ws(s@.subrange(a as int, j as int)),
        decreases j - a,
    {
        proof {
            let u = s@.subrange(a as int, j as int);
            assert(u.drop_last() =~= s@.subrange(a as int, j - 1));
        }
        j = j - 1;
    }
    assert(trailing_ws(s@.subrange(a as int, j as int)) == 0);
    assert(t.take(t.len() - trailing_ws(t)) =~= s@.subrange(a as int, j as int));
    s.substring_char(a, j)
}

/// Whether `s`, folded to ASCII lower case, is the word `word`.
pub fn folds_to_word(s: &str, word: &Vec<char>) -> (r: bool)
    ensures
        r == folds_to(s@, word@),
{
    let n = s.unicode_len();
    if n != word.len() {
        return false;
    }
    let mut i: usize = 0;
    while i < n
        invariant
            n == s@.len(),
            n == word@.len(),
            i <= n,
            forall|k: int| 0 <= k < i ==> ascii_lower_code(#[trigger] s@[k]) == code(word@[k]),
        decreases n - i,
    {
        let u = s.get_char(i) as u32;
        let lower = if 0x41 <= u && u <= 0x5a {
            u + 0x20
        } else {
            u
        };
        if lower != word[i] as u32 {
            assert(ascii_lower_code(s@[i as int]) != code(word@[i as int]));
            return false;
        }
        i = i + 1;
    }
    true
}

/// Whether `s` is exactly the word `word`.
pub fn equals_word(s: &str, word: &Vec<char>) -> (r: bool)
    ensures
        r == (s@ == word@),
{
    let n = s.unicode_len();
    if n != word.len() {
        return false;
    }
    let mut i: usize = 0;
    while i < n
        invariant
            n == s@.len(),
            n == word@.len(),
            i <= n,
            forall|k: int| 0 <= k < i ==> s@[k] == word@[k],
        decreases n - i,
    {
        if s.get_char(i) != word[i] {
            return false;
        }
        i = i + 1;
    }
    assert(s@ =~= word@);
    true
}

/// `String::push`: appends `ch` to the end of `s`.
pub assume_specification[ String::push ](s: &mut String, ch: char)
    ensures
        final(s)@ == old(s)@.push(ch),
;

/// `String::pop`: removes the last character of `s` and returns it, or
/// returns `None` and leaves `s` as it was when `s` is empty.
pub assume_specification[ String::pop ](s: &mut String) -> (r: Option<char>)
    ensures
        old(s)@.len() == 0 ==> r is None && final(s)@ == old(s)@,
        old(s)@.len() > 0 ==> r == Some(old(s)@.last()) && final(s)@ == old(s)@.drop_last(),
;

} // verus!
