//! Text helpers: exact and normalized comparison of tags and labels, quote
//! stripping and decimal rendering.
use vstd::prelude::*;
use vstd::string::StrSliceExecFns;
use vstd::string::StringExecFns;

verus! {

/// Whether `c` is alphabetic or numeric in the Unicode sense.
pub uninterp spec fn alphanumeric(c: char) -> bool;

/// The full lowercase mapping of `c` (one or more characters).
pub uninterp spec fn lowercase_of(c: char) -> Seq<char>;

/// Relies on `String::push`: the character is appended at the end.
#[verifier::external_body]
pub(crate) fn push_char(s: &mut String, c: char)
    ensures
        final(s)@ == old(s)@.push(c),
{
    s.push(c)
}

/// Relies on `char::is_alphanumeric`, which depends on the character alone.
#[verifier::external_body]
fn is_alphanumeric_char(c: char) -> (r: bool)
    ensures
        r == alphanumeric(c),
{
    c.is_alphanumeric()
}

/// Relies on `char::to_lowercase`: the characters of its lowercase mapping,
/// which depends on the character alone.
#[verifier::external_body]
fn lowercase_char(c: char) -> (r: String)
    ensures
        r@ == lowercase_of(c),
{
    c.to_lowercase().collect()
}

/// Whether `a` and `b` hold the same characters.
pub fn same_text(a: &str, b: &str) -> (r: bool)
    ensures
        r == (a@ == b@),
{
    let n = a.unicode_len();
    if n != b.unicode_len() {
        return false;
    }
    let mut i: usize = 0;
    while i < n
        invariant
            n == a@.len(),
            n == b@.len(),
            i <= n,
            forall|k: int| 0 <= k < i ==> a@[k] == b@[k],
        decreases n - i,
    {
        if a.get_char(i) != b.get_char(i) {
            return false;
        }
        i = i + 1;
    }
    assert(a@ =~= b@);
    true
}

/// The ASCII uppercase form of `c`: a letter `a`..`z` becomes `A`..`Z`,
/// anything else stays.
pub open spec fn ascii_upper(c: char) -> char {
    if 'a' <= c && c <= 'z' {
        ((c as u32) - 32) as char
    } else {
        c
    }
}

/// The ASCII uppercase form of every character of `s`.
pub open spec fn upper(s: Seq<char>) -> Seq<char> {
    s.map_values(|c: char| ascii_upper(c))
}

/// Two uppercase tag characters are confusable when they are equal or one
/// is the letter `O` and the other the digit `0`.
pub open spec fn confusable(a: char, b: char) -> bool {
    a == b || (a == 'O' && b == '0') || (a == '0' && b == 'O')
}

/// Two uppercase tags match when they have the same length and are
/// confusable at every position.
pub open spec fn tags_match(a: Seq<char>, b: Seq<char>) -> bool {
    &&& a.len() == b.len()
    &&& forall|i: int| 0 <= i < a.len() ==> confusable(#[trigger] a[i], b[i])
}

/// Whether two tags name the same player: compared without regard to ASCII
/// case, with `O` and `0` at the same position taken as equal.
pub open spec fn same_tag(a: Seq<char>, b: Seq<char>) -> bool {
    tags_match(upper(a), upper(b))
}

fn upper_char(c: char) -> (r: char)
    ensures
        r == ascii_upper(c),
{
    if 'a' <= c && c <= 'z' {
        ((c as u8) - 32) as char
    } else {
        c
    }
}

/// Compares two tags without regard to ASCII case, treating `O` and `0` at
/// the same position as equal.
pub fn compare_tag(s1: &str, s2: &str) -> (r: bool)
    ensures
        r == same_tag(s1@, s2@),
{
    let n = s1.unicode_len();
    if n != s2.unicode_len() {
        return false;
    }
    let ghost u1 = upper(s1@);
    let ghost u2 = upper(s2@);
    let mut i: usize = 0;
    while i < n
        invariant
            n == s1@.len(),
            n == s2@.len(),
            u1 == upper(s1@),
            u2 == upper(s2@),
            i <= n,
            forall|k: int| 0 <= k < i ==> confusable(#[trigger] u1[k], u2[k]),
        decreases n - i,
    {
        let c1 = upper_char(s1.get_char(i));
        let c2 = upper_char(s2.get_char(i));
        assert(c1 == u1[i as int] && c2 == u2[i as int]);
        if !(c1 == c2 || (c1 == 'O' && c2 == '0') || (c1 == '0' && c2 == 'O')) {
            assert(!confusable(u1[i as int], u2[i as int]));
            return false;
        }
        i = i + 1;
    }
    true
}

/// A label keeps only its alphanumeric characters, each replaced by its
/// lowercase mapping.
pub open spec fn normalized(s: Seq<char>) -> Seq<char>
    decreases s.len(),
{
    if s.len() == 0 {
        Seq::empty()
    } else if alphanumeric(s.last()) {
        normalized(s.drop_last()) + lowercase_of(s.last())
    } else {
        normalized(s.drop_last())
    }
}

/// The normalized form of a label: punctuation and spaces dropped, letters
/// lowercased.
pub fn normalize_label(s: &str) -> (r: String)
    ensures
        r@ == normalized(s@),
{
    let n = s.unicode_len();
    let mut out = String::new();
    let mut i: usize = 0;
    while i < n
        invariant
            n == s@.len(),
            i <= n,
            out@ == normalized(s@.take(i as int)),
        decreases n - i,
    {
        let c = s.get_char(i);
        assert(s@.take(i + 1).drop_last() =~= s@.take(i as int));
        if is_alphanumeric_char(c) {
            let low = lowercase_char(c);
            out.append(low.as_str());
        }
        i = i + 1;
    }
    assert(s@.take(n as int) =~= s@);
    out
}

/// Compares two labels after normalization, so that case, spaces and
/// punctuation do not matter.
pub fn compare_strings(str1: &str, str2: &str) -> (r: bool)
    ensures
        r == (normalized(str1@) == normalized(str2@)),
{
    let a = normalize_label(str1);
    let b = normalize_label(str2);
    a == b
}

/// The characters of `s` without its double quotes.
pub open spec fn unquoted(s: Seq<char>) -> Seq<char>
    decreases s.len(),
{
    if s.len() == 0 {
        Seq::empty()
    } else if s.last() == '"' {
        unquoted(s.drop_last())
    } else {
        unquoted(s.drop_last()).push(s.last())
    }
}

/// Removal of double quotes from a text value.
pub trait QuoteStripper {
    /// The characters of the value.
    spec fn quoted_text(&self) -> Seq<char>;

    /// A new string holding the characters of the value but its double quotes.
    fn strip_quote(&self) -> (r: String)
        ensures
            r@ == unquoted(self.quoted_text()),
    ;
}

impl QuoteStripper for String {
    open spec fn quoted_text(&self) -> Seq<char> {
        self@
    }

    fn strip_quote(&self) -> (r: String) {
        let s = self.as_str();
        let n = s.unicode_len();
        let mut out = String::new();
        let mut i: usize = 0;
        while i < n
            invariant
                s@ == self@,
                n == s@.len(),
                i <= n,
                out@ == unquoted(s@.take(i as int)),
            decreases n - i,
        {
            let c = s.get_char(i);
            assert(s@.take(i + 1).drop_last() =~= s@.take(i as int));
            if c != '"' {
                push_char(&mut out, c);
            }
            i = i + 1;
        }
        assert(s@.take(n as int) =~= s@);
        out
    }
}

/// The decimal digit for `d`.
pub open spec fn digit(d: nat) -> char {
    if d == 0 { '0' }
    else if d == 1 { '1' }
    else if d == 2 { '2' }
    else if d == 3 { '3' }
    else if d == 4 { '4' }
    else if d == 5 { '5' }
    else if d == 6 { '6' }
    else if d == 7 { '7' }
    else if d == 8 { '8' }
    else { '9' }
}

/// The decimal notation of `n`, without leading zeros.
pub open spec fn decimal(n: nat) -> Seq<char>
    decreases n,
{
    if n < 10 {
        seq![digit(n)]
    } else {
        decimal(n / 10).push(digit(n % 10))
    }
}

fn digit_char(d: u32) -> (c: char)
    requires
        d < 10,
    ensures
        c == digit(d as nat),
{
    match d {
        0 => '0',
        1 => '1',
        2 => '2',
        3 => '3',
        4 => '4',
        5 => '5',
        6 => '6',
        7 => '7',
        8 => '8',
        _ => '9',
    }
}

/// Writes `n` in decimal notation.
pub fn decimal_text(n: u32) -> (r: String)
    ensures
        r@ == decimal(n as nat),
    decreases n,
{
    if n < 10 {
        let mut s = String::new();
        push_char(&mut s, digit_char(n));
        assert(s@ =~= seq![digit(n as nat)]);
        s
    } else {
        let mut s = decimal_text(n / 10);
        push_char(&mut s, digit_char(n % 10));
        s
    }
}

} // verus!
