//! Text as the board and the panes read it: sequences of characters, trimmed, searched,
//! compared and counted in.
//!
//! Everything here works on characters rather than bytes. Where the window's own code asks a
//! byte question of well-formed UTF-8 - does this string hold that one, do these two agree
//! ignoring ASCII case - the answer in characters is the same answer.

use vstd::prelude::*;

verus! {

/// What `str::to_lowercase` makes of a string: Unicode's lowercase mapping, character by
/// character, with the final-sigma rule. A function of the string alone.
pub uninterp spec fn lowercase_of(s: Seq<char>) -> Seq<char>;

/// Whether every character of a text is ASCII.
pub open spec fn is_ascii_text(s: Seq<char>) -> bool {
    forall|k: int| 0 <= k < s.len() ==> (#[trigger] s[k] as u32) < 128
}

/// Whether `t` is `s` with its ASCII capitals made small letters and nothing else changed.
pub open spec fn ascii_lowered(s: Seq<char>, t: Seq<char>) -> bool {
    t.len() == s.len() && forall|k: int|
        0 <= k < s.len() ==> (#[trigger] t[k] as int) == if is_ascii_upper(s[k]) {
            s[k] as int + 32
        } else {
            s[k] as int
        }
}

/// `str::to_lowercase`. Trusted: its result is the Unicode lowercase mapping of the string,
/// named [`lowercase_of`] and not written out here. What is said of it: no characters map to no
/// characters; a character maps to one or more, so the text never gets shorter; and an ASCII
/// text maps the way ASCII does, `A` to `Z` to `a` to `z` and everything else to itself.
#[verifier::external_body]
pub(crate) fn to_lowercase(s: &str) -> (lowered: String)
    ensures
        lowered@ == lowercase_of(s@),
        s@.len() == 0 ==> lowered@.len() == 0,
        lowered@.len() >= s@.len(),
        is_ascii_text(s@) ==> ascii_lowered(s@, lowered@),
{
    s.to_lowercase()
}

/// Whether Unicode counts a character as a letter or a digit: the `Alphabetic` property or a
/// numeric general category. A function of the character alone.
pub uninterp spec fn alphanumeric(c: char) -> bool;

/// Whether an ASCII character is a digit or a letter.
pub open spec fn ascii_alphanumeric(c: char) -> bool {
    ||| '0' <= c && c <= '9'
    ||| 'a' <= c && c <= 'z'
    ||| 'A' <= c && c <= 'Z'
}

/// `char::is_alphanumeric`. Trusted: its result is named [`alphanumeric`]; the Unicode tables
/// behind it are not written out here, but among the ASCII characters it holds of the digits
/// and the letters, and of nothing else.
#[verifier::external_body]
pub(crate) fn is_alphanumeric(c: char) -> (yes: bool)
    ensures
        yes == alphanumeric(c),
        (c as u32) < 128 ==> (yes == ascii_alphanumeric(c)),
{
    c.is_alphanumeric()
}

/// `String::push`. Trusted: the string afterwards is the one before with the character on
/// the end.
#[verifier::external_body]
pub(crate) fn push_char(s: &mut String, c: char)
    ensures
        final(s)@ == old(s)@.push(c),
{
    s.push(c)
}

/// Unicode's `White_Space` property, which is what `char::is_whitespace` answers and what
/// `str::trim` trims.
pub open spec fn is_white_space(c: char) -> bool {
    let n = c as u32;
    ||| 0x9 <= n && n <= 0xd
    ||| n == 0x20
    ||| n == 0x85
    ||| n == 0xa0
    ||| n == 0x1680
    ||| 0x2000 <= n && n <= 0x200a
    ||| n == 0x2028
    ||| n == 0x2029
    ||| n == 0x202f
    ||| n == 0x205f
    ||| n == 0x3000
}

pub fn is_whitespace(c: char) -> (yes: bool)
    ensures
        yes == is_white_space(c),
{
    let n = c as u32;
    (0x9 <= n && n <= 0xd) || n == 0x20 || n == 0x85 || n == 0xa0 || n == 0x1680 || (0x2000
        <= n && n <= 0x200a) || n == 0x2028 || n == 0x2029 || n == 0x202f || n == 0x205f || n
        == 0x3000
}

/// The string with the white space at its front taken off.
pub open spec fn trim_front(s: Seq<char>) -> Seq<char>
    decreases s.len(),
{
    if s.len() > 0 && is_white_space(s[0]) {
        trim_front(s.drop_first())
    } else {
        s
    }
}

/// The string with the white space at its end taken off.
pub open spec fn trim_back(s: Seq<char>) -> Seq<char>
    decreases s.len(),
{
    if s.len() > 0 && is_white_space(s.last()) {
        trim_back(s.drop_last())
    } else {
        s
    }
}

/// What `str::trim` leaves: the string without the white space at either end.
pub open spec fn trimmed(s: Seq<char>) -> Seq<char> {
    trim_back(trim_front(s))
}

proof fn lemma_trim_front(s: Seq<char>, i: int)
    requires
        0 <= i <= s.len(),
        forall|k: int| 0 <= k < i ==> is_white_space(#[trigger] s[k]),
        i == s.len() || !is_white_space(s[i]),
    ensures
        trim_front(s) == s.skip(i),
    decreases i,
{
    if i == 0 {
        assert(s.skip(0) =~= s);
    } else {
        let t = s.drop_first();
        assert forall|k: int| 0 <= k < i - 1 implies is_white_space(#[trigger] t[k]) by {
            assert(t[k] == s[k + 1]);
        }
        if i - 1 < t.len() {
            assert(t[i - 1] == s[i]);
        }
        lemma_trim_front(t, i - 1);
        assert(t.skip(i - 1) =~= s.skip(i));
    }
}

proof fn lemma_trim_back(s: Seq<char>, j: int)
    requires
        0 <= j <= s.len(),
        forall|k: int| j <= k < s.len() ==> is_white_space(#[trigger] s[k]),
        j == 0 || !is_white_space(s[j - 1]),
    ensures
        trim_back(s) == s.take(j),
    decreases s.len() - j,
{
    if j == s.len() {
        assert(s.take(j) =~= s);
    } else {
        let t = s.drop_last();
        assert forall|k: int| j <= k < t.len() implies is_white_space(#[trigger] t[k]) by {
            assert(t[k] == s[k]);
        }
        if j > 0 {
            assert(t[j - 1] == s[j - 1]);
        }
        lemma_trim_back(t, j);
        assert(t.take(j) =~= s.take(j));
    }
}

/// `str::trim`, over characters.
pub fn trim(s: &str) -> (t: &str)
    ensures
        t@ == trimmed(s@),
{
    let n = s.unicode_len();
    let mut i: usize = 0;
    while i < n && is_whitespace(s.get_char(i))
        invariant
            n == s@.len(),
            i <= n,
            forall|k: int| 0 <= k < i ==> is_white_space(#[trigger] s@[k]),
        decreases n - i,
    {
        i = i + 1;
    }
    let mut j: usize = n;
    while j > i && is_whitespace(s.get_char(j - 1))
        invariant
            n == s@.len(),
            i <= j <= n,
            forall|k: int| j <= k < n ==> is_white_space(#[trigger] s@[k]),
        decreases j - i,
    {
        j = j - 1;
    }
    proof {
        lemma_trim_front(s@, i as int);
        let f = s@.skip(i as int);
        assert forall|k: int| j - i <= k < f.len() implies is_white_space(#[trigger] f[k]) by {
            assert(f[k] == s@[k + i]);
        }
        if j > i {
            assert(f[j - i - 1] == s@[j - 1]);
        }
        lemma_trim_back(f, (j - i) as int);
        assert(f.take((j - i) as int) =~= s@.subrange(i as int, j as int));
    }
    s.substring_char(i, j)
}

/// The characters of a string, one to a slot.
pub fn chars_of(s: &str) -> (v: Vec<char>)
    ensures
        v@ == s@,
{
    let n = s.unicode_len();
    let mut v: Vec<char> = Vec::new();
    let mut i: usize = 0;
    while i < n
        invariant
            n == s@.len(),
            i <= n,
            v@ == s@.take(i as int),
        decreases n - i,
    {
        v.push(s.get_char(i));
        i = i + 1;
        assert(v@ =~= s@.take(i as int));
    }
    assert(s@.take(n as int) =~= s@);
    v
}

/// `t` stands in `s` starting at `i`.
pub open spec fn occurs_at(s: Seq<char>, t: Seq<char>, i: int) -> bool {
    0 <= i && i + t.len() <= s.len() && s.subrange(i, i + t.len()) == t
}

/// `t` stands somewhere in `s`, which is what `str::contains` asks.
pub open spec fn has_substring(s: Seq<char>, t: Seq<char>) -> bool {
    exists|i: int| occurs_at(s, t, i)
}

pub fn occurs_at_in(s: &Vec<char>, t: &Vec<char>, i: usize) -> (yes: bool)
    ensures
        yes == occurs_at(s@, t@, i as int),
{
    if i > s.len() || t.len() > s.len() - i {
        return false;
    }
    let mut k: usize = 0;
    while k < t.len()
        invariant
            i + t.len() <= s.len(),
            k <= t.len(),
            forall|m: int| 0 <= m < k ==> s@[i + m] == t@[m],
        decreases t.len() - k,
    {
        if s[i + k] != t[k] {
            assert(s@.subrange(i as int, i + t.len())[k as int] != t@[k as int]);
            return false;
        }
        k = k + 1;
    }
    assert(s@.subrange(i as int, i + t.len()) =~= t@);
    true
}

pub fn vec_contains(s: &Vec<char>, t: &Vec<char>) -> (yes: bool)
    ensures
        yes == has_substring(s@, t@),
{
    if t.len() > s.len() {
        return false;
    }
    let last = s.len() - t.len();
    let mut i: usize = 0;
    while i <= last
        invariant
            last + t.len() == s.len(),
            i <= last + 1,
            forall|m: int| 0 <= m < i ==> !occurs_at(s@, t@, m),
        decreases last + 1 - i,
    {
        if occurs_at_in(s, t, i) {
            return true;
        }
        if i == last {
            return false;
        }
        i = i + 1;
    }
    false
}

/// `str::contains` with a string to look for.
pub fn contains(s: &str, t: &str) -> (yes: bool)
    ensures
        yes == has_substring(s@, t@),
{
    let sv = chars_of(s);
    let tv = chars_of(t);
    vec_contains(&sv, &tv)
}

/// The decimal digit `d` stands for.
pub open spec fn digit_char(d: int) -> char {
    if d == 0 {
        '0'
    } else if d == 1 {
        '1'
    } else if d == 2 {
        '2'
    } else if d == 3 {
        '3'
    } else if d == 4 {
        '4'
    } else if d == 5 {
        '5'
    } else if d == 6 {
        '6'
    } else if d == 7 {
        '7'
    } else if d == 8 {
        '8'
    } else {
        '9'
    }
}

/// A number written out in decimal, the way `format!("{n}")` writes it.
pub open spec fn decimal(n: nat) -> Seq<char>
    decreases n,
{
    if n < 10 {
        seq![digit_char(n as int)]
    } else {
        decimal(n / 10).push(digit_char((n % 10) as int))
    }
}

/// A number written to a number of places, with zeros in front: `format!("{n:0width$}")`.
pub open spec fn zero_padded(n: nat, width: nat) -> Seq<char> {
    let written = decimal(n);
    if written.len() >= width {
        written
    } else {
        Seq::new((width - written.len()) as nat, |i: int| '0') + written
    }
}

fn digit_of(d: u64) -> (c: char)
    requires
        d < 10,
    ensures
        c == digit_char(d as int),
{
    if d == 0 {
        '0'
    } else if d == 1 {
        '1'
    } else if d == 2 {
        '2'
    } else if d == 3 {
        '3'
    } else if d == 4 {
        '4'
    } else if d == 5 {
        '5'
    } else if d == 6 {
        '6'
    } else if d == 7 {
        '7'
    } else if d == 8 {
        '8'
    } else {
        '9'
    }
}

/// Write a number out in decimal on the end of a string.
pub fn push_decimal(s: &mut String, n: u64)
    ensures
        final(s)@ == old(s)@ + decimal(n as nat),
    decreases n,
{
    if n < 10 {
        push_char(s, digit_of(n));
        assert(old(s)@.push(digit_char(n as int)) =~= old(s)@ + decimal(n as nat));
    } else {
        push_decimal(s, n / 10);
        push_char(s, digit_of(n % 10));
        assert(old(s)@ + decimal((n / 10) as nat) + seq![digit_char((n % 10) as int)] =~= old(s)@
            + decimal(n as nat));
    }
}

proof fn lemma_decimal_not_empty(n: nat)
    ensures
        decimal(n).len() >= 1,
    decreases n,
{
    if n >= 10 {
        lemma_decimal_not_empty(n / 10);
    }
}

/// Write a number out to at least `width` places, zeros in front.
pub fn push_zero_padded(s: &mut String, n: u64, width: usize)
    ensures
        final(s)@ == old(s)@ + zero_padded(n as nat, width as nat),
{
    let mut written = String::new();
    push_decimal(&mut written, n);
    assert(written@ =~= decimal(n as nat));
    let len = written.as_str().unicode_len();
    let ghost start = s@;
    if len < width {
        let mut k: usize = len;
        while k < width
            invariant
                len <= k <= width,
                len == decimal(n as nat).len(),
                s@ == start + Seq::new((k - len) as nat, |i: int| '0'),
            decreases width - k,
        {
            push_char(s, '0');
            k = k + 1;
            assert(s@ =~= start + Seq::new((k - len) as nat, |i: int| '0'));
        }
    }
    s.append(written.as_str());
    assert(s@ =~= start + zero_padded(n as nat, width as nat));
}

/// Whether a character is one of the ASCII capitals.
pub open spec fn is_ascii_upper(c: char) -> bool {
    0x41 <= (c as u32) && (c as u32) <= 0x5a
}

/// Whether two characters are the same once ASCII capitals are read as small letters, which is
/// what `eq_ignore_ascii_case` asks of each pair.
pub open spec fn same_ignoring_ascii_case(a: char, b: char) -> bool {
    ||| a == b
    ||| is_ascii_upper(a) && (b as u32) == (a as u32) + 32
    ||| is_ascii_upper(b) && (a as u32) == (b as u32) + 32
}

/// Two strings of the same length that agree character for character, ASCII case aside.
pub open spec fn eq_ignoring_ascii_case(a: Seq<char>, b: Seq<char>) -> bool {
    a.len() == b.len() && forall|k: int| 0 <= k < a.len() ==> same_ignoring_ascii_case(
        #[trigger] a[k],
        b[k],
    )
}

pub fn chars_same_ignoring_ascii_case(a: char, b: char) -> (yes: bool)
    ensures
        yes == same_ignoring_ascii_case(a, b),
{
    let x = a as u32;
    let y = b as u32;
    a == b || (0x41 <= x && x <= 0x5a && y == x + 32) || (0x41 <= y && y <= 0x5a && x == y + 32)
}

/// Whether two strings are equal once ASCII case is set aside, as `str::eq_ignore_ascii_case`
/// compares them.
pub fn eq_ignore_ascii_case(a: &str, b: &str) -> (same: bool)
    ensures
        same == eq_ignoring_ascii_case(a@, b@),
{
    let x = chars_of(a);
    let y = chars_of(b);
    if x.len() != y.len() {
        return false;
    }
    let mut k: usize = 0;
    while k < x.len()
        invariant
            x@ == a@,
            y@ == b@,
            x.len() == y.len(),
            k <= x.len(),
            forall|i: int| 0 <= i < k ==> same_ignoring_ascii_case(#[trigger] x@[i], y@[i]),
        decreases x.len() - k,
    {
        if !chars_same_ignoring_ascii_case(x[k], y[k]) {
            return false;
        }
        k = k + 1;
    }
    true
}

/// Whether two strings are the same, character for character.
pub fn same_text(a: &str, b: &str) -> (same: bool)
    ensures
        same == (a@ == b@),
{
    let x = chars_of(a);
    let y = chars_of(b);
    if x.len() != y.len() {
        return false;
    }
    let mut k: usize = 0;
    while k < x.len()
        invariant
            x@ == a@,
            y@ == b@,
            x.len() == y.len(),
            k <= x.len(),
            forall|i: int| 0 <= i < k ==> x@[i] == y@[i],
        decreases x.len() - k,
    {
        if x[k] != y[k] {
            return false;
        }
        k = k + 1;
    }
    assert(x@ =~= y@);
    true
}

} // verus!
