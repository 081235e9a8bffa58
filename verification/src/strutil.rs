#![verifier::loop_isolation(false)]
//! Character-level string utilities: whitespace splitting for the word
//! wrap, and the decimal formatting of the numbers the header shows.

use vstd::prelude::*;

verus! {

/// Whether the character counts as whitespace for word splitting.
pub uninterp spec fn is_ws(c: char) -> bool;

/// Relies on char::is_whitespace: the Unicode white-space property, a
/// function of the character alone.
#[verifier::external_body]
fn char_is_ws(c: char) -> (r: bool)
    ensures
        r == is_ws(c),
{
    c.is_whitespace()
}

/// Relies on str::chars: the characters of the string, in order.
#[verifier::external_body]
pub fn str_to_chars(s: &str) -> (v: Vec<char>)
    ensures
        v@ == s@,
{
    s.chars().collect()
}

/// Relies on String's FromIterator over characters: the collected string
/// holds exactly the given characters, in order.
#[verifier::external_body]
pub fn chars_to_string(v: &Vec<char>) -> (s: String)
    ensures
        s@ == v@,
{
    v.iter().collect()
}

/// Length of the leading run of non-whitespace characters.
pub open spec fn take_word(s: Seq<char>) -> int
    decreases s.len(),
{
    if s.len() == 0 || is_ws(s[0]) {
        0
    } else {
        1 + take_word(s.drop_first())
    }
}

proof fn lemma_take_word_bound(s: Seq<char>)
    ensures
        0 <= take_word(s) <= s.len(),
    decreases s.len(),
{
    if s.len() > 0 && !is_ws(s[0]) {
        lemma_take_word_bound(s.drop_first());
    }
}

/// The maximal non-whitespace runs of the text, in order.
pub open spec fn spec_split_ws(s: Seq<char>) -> Seq<Seq<char>>
    decreases s.len(),
    via spec_split_ws_decreases
{
    if s.len() == 0 {
        Seq::empty()
    } else if is_ws(s[0]) {
        spec_split_ws(s.drop_first())
    } else {
        let k = take_word(s);
        seq![s.take(k)] + spec_split_ws(s.skip(k))
    }
}

#[via_fn]
proof fn spec_split_ws_decreases(s: Seq<char>) {
    if s.len() > 0 && !is_ws(s[0]) {
        lemma_take_word_bound(s.drop_first());
        lemma_take_word_bound(s);
        assert(take_word(s) == 1 + take_word(s.drop_first()));
    }
}

/// The leading word of `s` has the length the whole-prefix scan found.
proof fn lemma_take_word_prefix(s: Seq<char>, k: int)
    requires
        0 <= k <= s.len(),
        forall|j: int| 0 <= j < k ==> !is_ws(s[j]),
        k == s.len() || is_ws(s[k]),
    ensures
        take_word(s) == k,
    decreases s.len(),
{
    if s.len() > 0 && !is_ws(s[0]) {
        let t = s.drop_first();
        assert forall|j: int| 0 <= j < k - 1 implies !is_ws(t[j]) by {
            assert(t[j] == s[j + 1]);
        }
        if k - 1 < t.len() {
            assert(t[k - 1] == s[k]);
        }
        lemma_take_word_prefix(t, k - 1);
    }
}

/// Splits the text on whitespace into its words, exactly the maximal
/// non-whitespace runs in order.
pub fn split_words(text: &str) -> (r: Vec<String>)
    ensures
        r@.map_values(|w: String| w@) == spec_split_ws(text@),
{
    let chars = str_to_chars(text);
    let ghost full = chars@;
    let n = chars.len();
    let mut out: Vec<String> = Vec::new();
    proof {
        assert(full.skip(0) =~= full);
        assert(out@.map_values(|w: String| w@) + spec_split_ws(full) =~= spec_split_ws(full));
    }
    let mut i: usize = 0;
    while i < n
        invariant
            i <= n,
            n == full.len(),
            chars@ == full,
            out@.map_values(|w: String| w@) + spec_split_ws(full.skip(i as int)) == spec_split_ws(
                full,
            ),
        decreases n - i,
    {
        let c = chars[i];
        if char_is_ws(c) {
            proof {
                assert(full.skip(i as int).drop_first() =~= full.skip(i as int + 1));
            }
            i = i + 1;
        } else {
            let mut j = i + 1;
            while j < n && !char_is_ws(chars[j])
                invariant
                    i < j <= n,
                    n == full.len(),
                    chars@ == full,
                    forall|p: int| i <= p < j ==> !is_ws(full[p]),
                decreases n - j,
            {
                j = j + 1;
            }
            let mut word: Vec<char> = Vec::new();
            let mut p = i;
            while p < j
                invariant
                    i <= p <= j <= n,
                    n == full.len(),
                    chars@ == full,
                    word@ == full.subrange(i as int, p as int),
                decreases j - p,
            {
                let ch = chars[p];
                word.push(ch);
                proof {
                    assert(word@ =~= full.subrange(i as int, p as int + 1));
                }
                p = p + 1;
            }
            let w = chars_to_string(&word);
            proof {
                let rest = full.skip(i as int);
                assert forall|q: int| 0 <= q < j - i implies !is_ws(rest[q]) by {
                    assert(rest[q] == full[i + q]);
                }
                if j - i < rest.len() {
                    assert(rest[j - i] == full[j as int]);
                    assert(!(j < n && !is_ws(full[j as int])));
                    assert(is_ws(full[j as int]));
                }
                lemma_take_word_prefix(rest, j - i);
                assert(rest.take(j - i) =~= full.subrange(i as int, j as int));
                assert(rest.skip(j - i) =~= full.skip(j as int));
                assert(spec_split_ws(rest) == seq![word@] + spec_split_ws(full.skip(j as int)));
            }
            out.push(w);
            proof {
                assert(out@.map_values(|wx: String| wx@) + spec_split_ws(full.skip(j as int))
                    =~= split_progress(out@, full, j as int));
            }
            i = j;
        }
    }
    proof {
        assert(full.skip(n as int) =~= Seq::<char>::empty());
        assert(out@.map_values(|w: String| w@) =~= spec_split_ws(full));
    }
    out
}

/// The split invariant's shape: the words taken so far followed by the
/// split of the rest.
spec fn split_progress(ws: Seq<String>, full: Seq<char>, j: int) -> Seq<Seq<char>> {
    ws.map_values(|wx: String| wx@) + spec_split_ws(full.skip(j))
}

/// The decimal digit characters of `n`, most significant first.
pub open spec fn spec_digits(n: int) -> Seq<char>
    decreases n,
{
    if n < 10 {
        seq![digit_char(if n >= 0 {
            n % 10
        } else {
            0
        })]
    } else {
        spec_digits(n / 10).push(digit_char(n % 10))
    }
}

pub open spec fn digit_char(d: int) -> char {
    if d == 0 {
        '0'
    } else if d == 1 {
        '1'
    } else if d == 2 {
        '2'
    } else if d == 3 {
        '3'
    } else if d == 4 {
        '4'
    } else if d == 5 {
        '5'
    } else if d == 6 {
        '6'
    } else if d == 7 {
        '7'
    } else if d == 8 {
        '8'
    } else {
        '9'
    }
}

fn digit_char_of(d: u32) -> (c: char)
    requires
        d < 10,
    ensures
        c == digit_char(d as int),
{
    if d == 0 {
        '0'
    } else if d == 1 {
        '1'
    } else if d == 2 {
        '2'
    } else if d == 3 {
        '3'
    } else if d == 4 {
        '4'
    } else if d == 5 {
        '5'
    } else if d == 6 {
        '6'
    } else if d == 7 {
        '7'
    } else if d == 8 {
        '8'
    } else {
        '9'
    }
}

/// Appends the decimal digits of `n`.
fn push_digits(n: u32, out: &mut Vec<char>)
    ensures
        final(out)@ == old(out)@ + spec_digits(n as int),
    decreases n,
{
    if n < 10 {
        let c = digit_char_of(n);
        out.push(c);
    } else {
        push_digits(n / 10, out);
        let c = digit_char_of(n % 10);
        out.push(c);
    }
    proof {
        assert(final(out)@ =~= old(out)@ + spec_digits(n as int));
    }
}

/// The signed decimal text of `v`.
pub open spec fn spec_int_str(v: int) -> Seq<char> {
    if v < 0 {
        seq!['-'] + spec_digits(-v)
    } else {
        spec_digits(v)
    }
}

/// The decimal text of a value in tenths: whole units when the tenth digit
/// is zero, else units, a point, and the tenth digit.
pub open spec fn spec_tenths_str(v: int) -> Seq<char> {
    let m = if v < 0 {
        -v
    } else {
        v
    };
    let body = if m % 10 == 0 {
        spec_digits(m / 10)
    } else {
        spec_digits(m / 10).push('.').push(digit_char(m % 10))
    };
    if v < 0 {
        seq!['-'] + body
    } else {
        body
    }
}

/// Formats a signed integer in decimal.
pub fn int_to_chars(v: i32) -> (r: Vec<char>)
    requires
        -1000000 <= v <= 1000000,
    ensures
        r@ == spec_int_str(v as int),
{
    let mut out: Vec<char> = Vec::new();
    if v < 0 {
        out.push('-');
        push_digits((-v) as u32, &mut out);
        proof {
            assert(out@ =~= seq!['-'] + spec_digits(-(v as int)));
        }
    } else {
        push_digits(v as u32, &mut out);
        proof {
            assert(out@ =~= spec_digits(v as int));
        }
    }
    out
}

/// Formats a value in tenths the way the header shows it.
pub fn tenths_to_chars(v: i32) -> (r: Vec<char>)
    requires
        -1000000 <= v <= 1000000,
    ensures
        r@ == spec_tenths_str(v as int),
{
    let m: u32 = if v < 0 {
        (-v) as u32
    } else {
        v as u32
    };
    let mut out: Vec<char> = Vec::new();
    if v < 0 {
        out.push('-');
    }
    push_digits(m / 10, &mut out);
    if m % 10 != 0 {
        out.push('.');
        let c = digit_char_of(m % 10);
        out.push(c);
    }
    proof {
        assert(out@ =~= spec_tenths_str(v as int));
    }
    out
}

/// The whole-unit rounding of a value in tenths, half away from zero.
pub open spec fn spec_round_tenths(v: int) -> int {
    if v < 0 {
        -(((-v) + 5) / 10)
    } else {
        (v + 5) / 10
    }
}

/// Rounds tenths to whole units, half away from zero.
pub fn round_tenths(v: i32) -> (r: i32)
    requires
        -1000000 <= v <= 1000000,
    ensures
        r as int == spec_round_tenths(v as int),
{
    if v < 0 {
        -((((-v) as u32 + 5) / 10) as i32)
    } else {
        (((v as u32) + 5) / 10) as i32
    }
}

} // verus!
