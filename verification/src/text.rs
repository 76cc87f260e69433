//! Small text helpers shared by the generators.

use vstd::prelude::*;
use vstd::string::StringExecFns;

verus! {

/// The text made of `n` blanks.
pub open spec fn spaces_text(n: nat) -> Seq<char> {
    Seq::new(n, |i: int| ' ')
}

/// Returns `n` blanks, used to indent generated lines.
pub fn spaces(n: usize) -> (r: String)
    ensures
        r@ == spaces_text(n as nat),
{
    let mut r = String::new();
    let mut i: usize = 0;
    while i < n
        invariant
            i <= n,
            r@ == spaces_text(i as nat),
        decreases n - i,
    {
        r.append(" ");
        proof {
            reveal_strlit(" ");
            assert(r@ =~= spaces_text((i + 1) as nat));
        }
        i += 1;
    }
    r
}

/// The characters of `s`, in order.
pub fn chars_of(s: &str) -> (v: Vec<char>)
    ensures
        v@ == s@,
{
    let mut v: Vec<char> = Vec::new();
    for c in it: s.chars()
        invariant
            it.seq() == s@,
            v@ == it.seq().take(it.index() as int),
    {
        v.push(c);
        proof {
            assert(v@ =~= it.seq().take(it.index() + 1));
        }
    }
    proof {
        assert(v@ =~= s@);
    }
    v
}

/// Equality of string slices, `str`'s `PartialEq::eq`, compares them character by
/// character.
#[verifier::external_body]
pub(crate) fn same_text(a: &str, b: &str) -> (r: bool)
    ensures
        r == (a@ == b@),
{
    a == b
}

/// `String::push` appends the character to the end of the text.
pub assume_specification[ String::push ](s: &mut String, c: char)
    ensures
        final(s)@ == old(s)@.push(c),
;

/// The upper-case form of a text, as `str::to_uppercase` gives it.
pub uninterp spec fn uppercase_text(s: Seq<char>) -> Seq<char>;

/// `str::to_uppercase` maps a text to its upper-case form; the result depends on
/// the characters of the text alone.
#[verifier::external_body]
pub(crate) fn to_uppercase(s: &str) -> (r: String)
    ensures
        r@ == uppercase_text(s@),
{
    s.to_uppercase()
}

/// The decimal digit that stands for `d`, for `d` below ten.
pub open spec fn digit_char(d: nat) -> char {
    if d == 0 {
        '0'
    } else if d == 1 {
        '1'
    } else if d == 2 {
        '2'
    } else if d == 3 {
        '3'
    } else if d == 4 {
        '4'
    } else if d == 5 {
        '5'
    } else if d == 6 {
        '6'
    } else if d == 7 {
        '7'
    } else if d == 8 {
        '8'
    } else {
        '9'
    }
}

/// The decimal notation of `n`, without sign or leading zeros.
pub open spec fn decimal_text(n: nat) -> Seq<char>
    decreases n,
{
    if n < 10 {
        seq![digit_char(n)]
    } else {
        decimal_text(n / 10).push(digit_char(n % 10))
    }
}

fn digit(d: u64) -> (c: char)
    requires
        d < 10,
    ensures
        c == digit_char(d as nat),
{
    if d == 0 {
        '0'
    } else if d == 1 {
        '1'
    } else if d == 2 {
        '2'
    } else if d == 3 {
        '3'
    } else if d == 4 {
        '4'
    } else if d == 5 {
        '5'
    } else if d == 6 {
        '6'
    } else if d == 7 {
        '7'
    } else if d == 8 {
        '8'
    } else {
        '9'
    }
}

/// Writes `n` in decimal notation.
pub fn decimal(n: u64) -> (r: String)
    ensures
        r@ == decimal_text(n as nat),
    decreases n,
{
    if n < 10 {
        let mut r = String::new();
        r.push(digit(n));
        proof {
            assert(r@ =~= seq![digit_char(n as nat)]);
        }
        r
    } else {
        let mut r = decimal(n / 10);
        r.push(digit(n % 10));
        r
    }
}

/// Two numbers with the same decimal notation are the same number.
pub proof fn lemma_decimal_text_injective(a: nat, b: nat)
    requires
        decimal_text(a) == decimal_text(b),
    ensures
        a == b,
    decreases a,
{
    lemma_decimal_text_len(a);
    lemma_decimal_text_len(b);
    if a < 10 {
        if b >= 10 {
            lemma_decimal_text_len(b / 10);
        }
        assert(decimal_text(a)[0] == digit_char(a));
    } else {
        lemma_decimal_text_len(a / 10);
        if b < 10 {
            assert(decimal_text(b).len() == 1);
        } else {
            let da = decimal_text(a / 10);
            let db = decimal_text(b / 10);
            assert(da.push(digit_char(a % 10)).drop_last() =~= da);
            assert(db.push(digit_char(b % 10)).drop_last() =~= db);
            assert(da.push(digit_char(a % 10)).last() == digit_char(a % 10));
            assert(db.push(digit_char(b % 10)).last() == digit_char(b % 10));
            lemma_decimal_text_injective(a / 10, b / 10);
        }
    }
}

/// A decimal notation has at least one digit.
proof fn lemma_decimal_text_len(n: nat)
    ensures
        decimal_text(n).len() >= 1,
        n >= 10 ==> decimal_text(n).len() >= 2,
    decreases n,
{
    if n >= 10 {
        lemma_decimal_text_len(n / 10);
    }
}

/// What stands for one character inside a generated string literal: a line feed
/// and a carriage return become a backslash followed by a letter.
pub open spec fn escaped_char(c: char) -> Seq<char> {
    if c == '\n' {
        seq!['\\', 'n']
    } else if c == '\r' {
        seq!['\\', 'r']
    } else {
        seq![c]
    }
}

/// The first `n` characters of `s`, each replaced by what stands for it inside a
/// generated string literal.
pub open spec fn escaped_prefix(s: Seq<char>, n: nat) -> Seq<char>
    decreases n,
{
    if n == 0 || n > s.len() {
        Seq::empty()
    } else {
        escaped_prefix(s, (n - 1) as nat) + escaped_char(s[n - 1])
    }
}

/// The text `s` as it stands inside a generated string literal.
pub open spec fn escaped_text(s: Seq<char>) -> Seq<char> {
    escaped_prefix(s, s.len())
}

/// Replaces every line feed and carriage return of `s` by its two-character
/// escape.
pub fn escape_line_breaks(s: &str) -> (r: String)
    ensures
        r@ == escaped_text(s@),
{
    let chars = chars_of(s);
    let mut r = String::new();
    let mut i: usize = 0;
    while i < chars.len()
        invariant
            i <= chars.len(),
            chars@ == s@,
            r@ == escaped_prefix(s@, i as nat),
        decreases chars.len() - i,
    {
        let c = chars[i];
        if c == '\n' {
            r.push('\\');
            r.push('n');
        } else if c == '\r' {
            r.push('\\');
            r.push('r');
        } else {
            r.push(c);
        }
        proof {
            assert(r@ =~= escaped_prefix(s@, i as nat) + escaped_char(s@[i as int]));
        }
        i += 1;
    }
    r
}

/// An escaped text holds no raw line break.
pub proof fn lemma_escaped_text_has_no_line_break(s: Seq<char>)
    ensures
        forall|i: int|
            0 <= i < escaped_text(s).len() ==> escaped_text(s)[i] != '\n' && escaped_text(s)[i]
                != '\r',
{
    lemma_escaped_prefix_has_no_line_break(s, s.len());
}

proof fn lemma_escaped_prefix_has_no_line_break(s: Seq<char>, n: nat)
    requires
        n <= s.len(),
    ensures
        forall|i: int|
            0 <= i < escaped_prefix(s, n).len() ==> escaped_prefix(s, n)[i] != '\n'
                && escaped_prefix(s, n)[i] != '\r',
    decreases n,
{
    if n > 0 {
        lemma_escaped_prefix_has_no_line_break(s, (n - 1) as nat);
        let before = escaped_prefix(s, (n - 1) as nat);
        let last = escaped_char(s[n - 1]);
        assert forall|i: int| 0 <= i < (before + last).len() implies (before + last)[i] != '\n'
            && (before + last)[i] != '\r' by {
            if i >= before.len() {
                assert((before + last)[i] == last[i - before.len()]);
            }
        }
    }
}

/// The first `n` of the given pieces of text, one after the other.
pub open spec fn concat_prefix(pieces: Seq<Seq<char>>, n: nat) -> Seq<char>
    decreases n,
{
    if n == 0 || n > pieces.len() {
        Seq::empty()
    } else {
        concat_prefix(pieces, (n - 1) as nat) + pieces[n - 1]
    }
}

/// The given pieces of text, one after the other.
pub open spec fn concat_all(pieces: Seq<Seq<char>>) -> Seq<char> {
    concat_prefix(pieces, pieces.len())
}

/// Whether `text` starts with `prefix`.
pub open spec fn starts_with(text: Seq<char>, prefix: Seq<char>) -> bool {
    prefix.len() <= text.len() && text.subrange(0, prefix.len() as int) == prefix
}

/// Whether `text` ends with `suffix`.
pub open spec fn ends_with(text: Seq<char>, suffix: Seq<char>) -> bool {
    suffix.len() <= text.len() && text.subrange(text.len() - suffix.len(), text.len() as int)
        == suffix
}

/// The position of the first `c` at or after `from`, or the length of the text
/// where there is none.
pub open spec fn position_from(s: Seq<char>, c: char, from: int) -> int
    decreases s.len() - from,
{
    if from < 0 || from >= s.len() {
        s.len() as int
    } else if s[from] == c {
        from
    } else {
        position_from(s, c, from + 1)
    }
}

/// The position that `position_from` gives lies at or behind `from`, within the
/// text, and no `c` stands between the two.
pub proof fn lemma_position_from(s: Seq<char>, c: char, from: int)
    requires
        0 <= from <= s.len(),
    ensures
        from <= position_from(s, c, from) <= s.len(),
        position_from(s, c, from) < s.len() ==> s[position_from(s, c, from)] == c,
        forall|j: int| from <= j < position_from(s, c, from) ==> s[j] != c,
    decreases s.len() - from,
{
    if from < s.len() && s[from] != c {
        lemma_position_from(s, c, from + 1);
    }
}

/// Finds the first `c` at or after `from`.
pub(crate) fn find_char_from(s: &Vec<char>, c: char, from: usize) -> (r: usize)
    requires
        from <= s@.len(),
    ensures
        r == position_from(s@, c, from as int),
        from <= r <= s@.len(),
{
    let mut at = from;
    while at < s.len() && s[at] != c
        invariant
            from <= at <= s@.len(),
            position_from(s@, c, from as int) == position_from(s@, c, at as int),
        decreases s@.len() - at,
    {
        at += 1;
    }
    at
}

/// Whether the part of `text` that starts at `at` and the part of `other` from
/// `from` to `to` hold the same characters.
pub(crate) fn same_chars_at(text: &Vec<char>, at: usize, other: &Vec<char>, from: usize, to: usize) -> (r:
    bool)
    requires
        from <= to <= other@.len(),
        at + (to - from) <= text@.len(),
    ensures
        r == (text@.subrange(at as int, at + (to - from)) == other@.subrange(
            from as int,
            to as int,
        )),
{
    let n = to - from;
    let total = text.len();
    let ghost a = text@.subrange(at as int, at + n);
    let ghost b = other@.subrange(from as int, to as int);
    let mut i: usize = 0;
    while i < n
        invariant
            i <= n,
            n == to - from,
            from <= to <= other@.len(),
            at + n <= text@.len(),
            text@.len() == total,
            a == text@.subrange(at as int, at + n),
            b == other@.subrange(from as int, to as int),
            forall|j: int| 0 <= j < i ==> a[j] == b[j],
        decreases n - i,
    {
        if text[at + i] != other[from + i] {
            proof {
                assert(a[i as int] != b[i as int]);
            }
            return false;
        }
        i += 1;
    }
    proof {
        assert(a =~= b);
    }
    true
}

} // verus!
