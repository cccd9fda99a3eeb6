//! Text helpers: words of a command, decimal numerals, and the contracts of
//! the standard string operations that the engine calls.

use vstd::prelude::*;
use vstd::string::StringExecFns;

verus! {

/// `String::push` appends one character.
pub assume_specification[ String::push ](s: &mut String, c: char)
    ensures
        final(s)@ == old(s)@.push(c),
;

/// `String::pop` removes the last character and returns it, or returns
/// `None` and leaves an empty string empty.
pub assume_specification[ String::pop ](s: &mut String) -> (r: Option<char>)
    ensures
        old(s)@.len() == 0 ==> r.is_none() && final(s)@ == old(s)@,
        old(s)@.len() > 0 ==> r == Some(old(s)@.last()) && final(s)@ == old(s)@.drop_last(),
;

/// `String::clear` empties the string.
pub assume_specification[ String::clear ](s: &mut String)
    ensures
        final(s)@ == Seq::<char>::empty(),
;

/// The upper-case form of a text, as Unicode defines it.
pub uninterp spec fn uppercase(s: Seq<char>) -> Seq<char>;

/// The lower-case form of a text, as Unicode defines it.
pub uninterp spec fn lowercase(s: Seq<char>) -> Seq<char>;

/// `str::to_uppercase` returns the upper-case form of the text; the
/// contract only gives that form its name.
pub assume_specification[ str::to_uppercase ](s: &str) -> (r: String)
    ensures
        r@ == uppercase(s@),
;

/// `str::to_lowercase` returns the lower-case form of the text; the
/// contract only gives that form its name.
pub assume_specification[ str::to_lowercase ](s: &str) -> (r: String)
    ensures
        r@ == lowercase(s@),
;

/// The view of an optional string.
pub open spec fn text_of(s: Option<String>) -> Option<Seq<char>> {
    match s {
        Some(t) => Some(t@),
        None => None,
    }
}

/// Whether two texts are the same.
pub fn same_text(a: &str, b: &str) -> (r: bool)
    ensures
        r == (a@ == b@),
{
    String::from_str(a) == String::from_str(b)
}

/// The texts of a sequence of strings.
pub open spec fn texts(v: Seq<String>) -> Seq<Seq<char>> {
    Seq::new(v.len(), |i: int| v[i]@)
}

/// The characters that separate the words of a command.
pub open spec fn is_blank(c: char) -> bool {
    c == ' ' || c == '\t' || c == '\n' || c == '\r' || c == '\x0c'
}

/// The words of `s`: its maximal runs of non-blank characters, in order.
pub open spec fn words(s: Seq<char>) -> Seq<Seq<char>>
    decreases s.len(),
{
    if s.len() == 0 {
        Seq::empty()
    } else {
        let front = s.drop_last();
        let c = s.last();
        let w = words(front);
        if is_blank(c) {
            w
        } else if front.len() > 0 && !is_blank(front.last()) && w.len() > 0 {
            w.drop_last().push(w.last().push(c))
        } else {
            w.push(seq![c])
        }
    }
}

/// Every word holds a character, and none holds a blank.
pub proof fn lemma_words_hold_no_blank(s: Seq<char>)
    ensures
        forall|i: int|
            0 <= i < words(s).len() ==> (#[trigger] words(s)[i]).len() > 0 && forall|j: int|
                0 <= j < words(s)[i].len() ==> !is_blank(#[trigger] words(s)[i][j]),
    decreases s.len(),
{
    if s.len() > 0 {
        let front = s.drop_last();
        let c = s.last();
        let w = words(front);
        lemma_words_hold_no_blank(front);
        assert forall|i: int| 0 <= i < words(s).len() implies (#[trigger] words(s)[i]).len() > 0
            && forall|j: int| 0 <= j < words(s)[i].len() ==> !is_blank(#[trigger] words(s)[i][j]) by {
            if !is_blank(c) && i == words(s).len() - 1 {
                assert(words(s)[i].last() == c);
            } else {
                assert(words(s)[i] == w[i]);
            }
        }
    }
}

/// A text without blanks is one word, and an empty text is none.
pub proof fn lemma_word_alone(s: Seq<char>)
    requires
        forall|j: int| 0 <= j < s.len() ==> !is_blank(#[trigger] s[j]),
    ensures
        s.len() == 0 ==> words(s) == Seq::<Seq<char>>::empty(),
        s.len() > 0 ==> words(s) == seq![s],
    decreases s.len(),
{
    if s.len() > 0 {
        let front = s.drop_last();
        lemma_word_alone(front);
        if front.len() > 0 {
            assert(front.push(s.last()) =~= s);
        } else {
            assert(seq![s.last()] =~= s);
        }
    }
}

/// Whether `c` separates words.
pub fn blank(c: char) -> (r: bool)
    ensures
        r == is_blank(c),
{
    c == ' ' || c == '\t' || c == '\n' || c == '\r' || c == '\x0c'
}

/// Splits a command into its words.
pub fn tokenize(s: &str) -> (out: Vec<String>)
    ensures
        texts(out@) == words(s@),
{
    let n: usize = s.unicode_len();
    let mut out: Vec<String> = Vec::new();
    let mut cur: String = String::new();
    let mut i: usize = 0;
    while i < n
        invariant
            n == s@.len(),
            i <= n,
            cur@.len() == 0 ==> texts(out@) == words(s@.take(i as int)) && (i == 0 || is_blank(
                s@[i - 1],
            )),
            cur@.len() > 0 ==> texts(out@).push(cur@) == words(s@.take(i as int)) && i > 0
                && !is_blank(s@[i - 1]),
        decreases n - i,
    {
        let c: char = s.get_char(i);
        proof {
            let p = s@.take(i as int);
            let q = s@.take(i + 1);
            assert(q.drop_last() =~= p);
        }
        if blank(c) {
            if cur.as_str().unicode_len() > 0 {
                out.push(cur);
                cur = String::new();
            }
        } else {
            let ghost before = cur@;
            cur.push(c);
            proof {
                if before.len() == 0 {
                    assert(cur@ =~= seq![c]);
                }
            }
        }
        i += 1;
    }
    proof {
        assert(s@.take(i as int) =~= s@);
    }
    if cur.as_str().unicode_len() > 0 {
        out.push(cur);
    }
    out
}

/// The character of a decimal digit.
pub open spec fn digit_char(d: nat) -> char {
    if d == 0 {
        '0'
    } else if d == 1 {
        '1'
    } else if d == 2 {
        '2'
    } else if d == 3 {
        '3'
    } else if d == 4 {
        '4'
    } else if d == 5 {
        '5'
    } else if d == 6 {
        '6'
    } else if d == 7 {
        '7'
    } else if d == 8 {
        '8'
    } else {
        '9'
    }
}

/// The decimal numeral of `n`, without leading zeros.
pub open spec fn decimal(n: nat) -> Seq<char>
    decreases n,
{
    if n < 10 {
        seq![digit_char(n)]
    } else {
        decimal(n / 10).push(digit_char(n % 10))
    }
}

fn digit(d: usize) -> (c: char)
    requires
        d < 10,
    ensures
        c == digit_char(d as nat),
{
    if d == 0 {
        '0'
    } else if d == 1 {
        '1'
    } else if d == 2 {
        '2'
    } else if d == 3 {
        '3'
    } else if d == 4 {
        '4'
    } else if d == 5 {
        '5'
    } else if d == 6 {
        '6'
    } else if d == 7 {
        '7'
    } else if d == 8 {
        '8'
    } else {
        '9'
    }
}

/// Appends the decimal numeral of `n` to `out`.
pub fn push_decimal(out: &mut String, n: usize)
    ensures
        final(out)@ == old(out)@ + decimal(n as nat),
    decreases n,
{
    if n >= 10 {
        push_decimal(out, n / 10);
    }
    out.push(digit(n % 10));
}

/// The value of a decimal digit, `None` for any other character.
pub open spec fn digit_value(c: char) -> Option<nat> {
    if c == '0' {
        Some(0)
    } else if c == '1' {
        Some(1)
    } else if c == '2' {
        Some(2)
    } else if c == '3' {
        Some(3)
    } else if c == '4' {
        Some(4)
    } else if c == '5' {
        Some(5)
    } else if c == '6' {
        Some(6)
    } else if c == '7' {
        Some(7)
    } else if c == '8' {
        Some(8)
    } else if c == '9' {
        Some(9)
    } else {
        None
    }
}

/// `s` is a decimal numeral: one digit or more, and nothing else.
pub open spec fn is_numeral(s: Seq<char>) -> bool {
    s.len() > 0 && forall|i: int| 0 <= i < s.len() ==> (#[trigger] digit_value(s[i])).is_some()
}

/// The number that the digits of `s` write; a character that is no digit
/// counts as zero.
pub open spec fn numeral_value(s: Seq<char>) -> nat
    decreases s.len(),
{
    if s.len() == 0 {
        0
    } else {
        let d: nat = match digit_value(s.last()) {
            Some(d) => d,
            None => 0,
        };
        numeral_value(s.drop_last()) * 10 + d
    }
}

fn value_of_digit(c: char) -> (r: Option<u8>)
    ensures
        r.is_some() == digit_value(c).is_some(),
        r matches Some(d) ==> digit_value(c) == Some(d as nat) && d < 10,
{
    if c == '0' {
        Some(0)
    } else if c == '1' {
        Some(1)
    } else if c == '2' {
        Some(2)
    } else if c == '3' {
        Some(3)
    } else if c == '4' {
        Some(4)
    } else if c == '5' {
        Some(5)
    } else if c == '6' {
        Some(6)
    } else if c == '7' {
        Some(7)
    } else if c == '8' {
        Some(8)
    } else if c == '9' {
        Some(9)
    } else {
        None
    }
}

/// The value of a prefix never exceeds the value of the whole.
pub proof fn lemma_numeral_value_grows(s: Seq<char>, k: int)
    requires
        0 <= k <= s.len(),
    ensures
        numeral_value(s.take(k)) <= numeral_value(s),
    decreases s.len() - k,
{
    if k == s.len() {
        assert(s.take(k) =~= s);
    } else {
        lemma_numeral_value_grows(s.drop_last(), k);
        assert(s.drop_last().take(k) =~= s.take(k));
    }
}

/// The decimal numeral of a number is a numeral, and its value is the
/// number.
pub proof fn lemma_decimal_round_trip(n: nat)
    ensures
        is_numeral(decimal(n)),
        numeral_value(decimal(n)) == n,
    decreases n,
{
    if n < 10 {
        let s = decimal(n);
        assert(numeral_value(s.drop_last()) == 0);
    } else {
        lemma_decimal_round_trip(n / 10);
        let front = decimal(n / 10);
        let s = decimal(n);
        assert(s.drop_last() =~= front);
        assert forall|i: int| 0 <= i < s.len() implies (#[trigger] digit_value(s[i])).is_some() by {
            if i < front.len() {
                assert(s[i] == front[i]);
            }
        }
    }
}

/// The place in a list of `count` items that the one-based reference
/// `token` names: `token` must be a decimal numeral between 1 and `count`.
pub open spec fn reference_target(token: Seq<char>, count: nat) -> Option<nat> {
    if is_numeral(token) && 1 <= numeral_value(token) <= count {
        Some((numeral_value(token) - 1) as nat)
    } else {
        None
    }
}

/// Reads `token` as a one-based reference into a list of `count` items and
/// returns the zero-based place it names.
pub fn parse_reference(token: &str, count: usize) -> (r: Option<usize>)
    ensures
        r.is_some() == reference_target(token@, count as nat).is_some(),
        r matches Some(k) ==> reference_target(token@, count as nat) == Some(k as nat) && k
            < count,
{
    let n: usize = token.unicode_len();
    if n == 0 {
        return None;
    }
    let mut acc: usize = 0;
    let mut i: usize = 0;
    while i < n
        invariant
            n == token@.len(),
            i <= n,
            acc <= count,
            acc == numeral_value(token@.take(i as int)),
            forall|j: int| 0 <= j < i ==> (#[trigger] digit_value(token@[j])).is_some(),
        decreases n - i,
    {
        let c: char = token.get_char(i);
        proof {
            assert(token@.take(i + 1).drop_last() =~= token@.take(i as int));
            lemma_numeral_value_grows(token@, i + 1);
        }
        match value_of_digit(c) {
            None => {
                return None;
            },
            Some(d) => {
                let wide: u128 = (acc as u128) * 10 + (d as u128);
                if wide > count as u128 {
                    return None;
                }
                acc = wide as usize;
            },
        }
        i += 1;
    }
    proof {
        assert(token@.take(i as int) =~= token@);
    }
    if acc >= 1 {
        Some(acc - 1)
    } else {
        None
    }
}

} // verus!
