//! Text as sequences of characters: white space, trimming, words.

use vstd::prelude::*;
use vstd::string::*;

verus! {

/// Whether `c` is white space: the code points that carry the Unicode
/// property `White_Space`.
pub open spec fn is_space(c: char) -> bool {
    let u: u32 = c as u32;
    ||| 0x09 <= u <= 0x0D
    ||| u == 0x20
    ||| u == 0x85
    ||| u == 0xA0
    ||| u == 0x1680
    ||| 0x2000 <= u <= 0x200A
    ||| u == 0x2028
    ||| u == 0x2029
    ||| u == 0x202F
    ||| u == 0x205F
    ||| u == 0x3000
}

/// The length of the longest prefix of `s` whose characters all have
/// `is_space(c) == space`.
pub open spec fn run_len(s: Seq<char>, space: bool) -> nat
    decreases s.len(),
{
    if s.len() > 0 && is_space(s[0]) == space {
        1 + run_len(s.drop_first(), space)
    } else {
        0
    }
}

/// The length of the longest suffix of `s` that is all white space.
pub open spec fn trailing_spaces(s: Seq<char>) -> nat
    decreases s.len(),
{
    if s.len() > 0 && is_space(s.last()) {
        1 + trailing_spaces(s.drop_last())
    } else {
        0
    }
}

/// `s` without the white space at its two ends.
pub open spec fn trimmed(s: Seq<char>) -> Seq<char> {
    let rest = s.skip(run_len(s, true) as int);
    rest.take(rest.len() - trailing_spaces(rest))
}

/// The maximal runs of characters of `s` that hold no white space, in order.
pub open spec fn words(s: Seq<char>) -> Seq<Seq<char>>
    decreases s.len(),
{
    if s.len() == 0 {
        Seq::empty()
    } else if is_space(s[0]) {
        words(s.drop_first())
    } else {
        let n = run_len(s, false) as int;
        proof {
            lemma_run_len_bound(s, false);
        }
        seq![s.take(n)] + words(s.skip(n))
    }
}

/// A prefix of `n` characters of one kind, followed by the end or by a
/// character of the other kind, is the run that `run_len` measures.
pub proof fn lemma_run_len(s: Seq<char>, space: bool, n: int)
    requires
        0 <= n <= s.len(),
        forall|k: int| 0 <= k < n ==> is_space(#[trigger] s[k]) == space,
        n == s.len() || is_space(s[n]) != space,
    ensures
        run_len(s, space) == n,
    decreases n,
{
    if n > 0 {
        let rest = s.drop_first();
        assert forall|k: int| 0 <= k < n - 1 implies is_space(#[trigger] rest[k]) == space by {
            assert(rest[k] == s[k + 1]);
        }
        lemma_run_len(rest, space, n - 1);
    }
}

/// A suffix of `n` white-space characters, preceded by the start or by a
/// character that is none, is what `trailing_spaces` measures.
pub proof fn lemma_trailing_spaces(s: Seq<char>, n: int)
    requires
        0 <= n <= s.len(),
        forall|k: int| s.len() - n <= k < s.len() ==> is_space(#[trigger] s[k]),
        n == s.len() || !is_space(s[s.len() - n - 1]),
    ensures
        trailing_spaces(s) == n,
    decreases n,
{
    if n > 0 {
        let rest = s.drop_last();
        assert forall|k: int| rest.len() - (n - 1) <= k < rest.len() implies is_space(
            #[trigger] rest[k],
        ) by {
            assert(rest[k] == s[k]);
        }
        lemma_trailing_spaces(rest, n - 1);
    }
}

/// Trimmed text has no white space at either end.
pub proof fn lemma_trimmed_ends(s: Seq<char>)
    ensures
        trimmed(s).len() > 0 ==> !is_space(trimmed(s).first()) && !is_space(trimmed(s).last()),
        trimmed(s).len() <= s.len(),
{
    lemma_run_len_bound(s, true);
    let a = run_len(s, true) as int;
    let rest = s.skip(a);
    lemma_trailing_bound(rest);
    let b = trailing_spaces(rest) as int;
    if rest.len() - b > 0 {
        assert(trimmed(s).first() == s[a]);
        assert(trimmed(s).last() == rest[rest.len() - b - 1]);
    }
}

/// `run_len` stays within the text and stops at a character of the other kind.
pub proof fn lemma_run_len_bound(s: Seq<char>, space: bool)
    ensures
        run_len(s, space) <= s.len(),
        forall|k: int| 0 <= k < run_len(s, space) ==> is_space(#[trigger] s[k]) == space,
        run_len(s, space) < s.len() ==> is_space(s[run_len(s, space) as int]) != space,
    decreases s.len(),
{
    if s.len() > 0 && is_space(s[0]) == space {
        let rest = s.drop_first();
        lemma_run_len_bound(rest, space);
        assert forall|k: int| 0 <= k < run_len(s, space) implies is_space(#[trigger] s[k])
            == space by {
            if k > 0 {
                assert(s[k] == rest[k - 1]);
            }
        }
        if run_len(s, space) < s.len() {
            assert(s[run_len(s, space) as int] == rest[run_len(rest, space) as int]);
        }
    }
}

/// `trailing_spaces` stays within the text and stops at a character that is
/// no white space.
pub proof fn lemma_trailing_bound(s: Seq<char>)
    ensures
        trailing_spaces(s) <= s.len(),
        trailing_spaces(s) < s.len() ==> !is_space(s[s.len() - trailing_spaces(s) - 1]),
    decreases s.len(),
{
    if s.len() > 0 && is_space(s.last()) {
        let rest = s.drop_last();
        lemma_trailing_bound(rest);
        if trailing_spaces(s) < s.len() {
            assert(s[s.len() - trailing_spaces(s) - 1] == rest[rest.len() - trailing_spaces(rest)
                - 1]);
        }
    }
}

/// A word is not empty and holds no white space.
pub proof fn lemma_words_hold_no_space(s: Seq<char>)
    ensures
        forall|k: int| 0 <= k < words(s).len() ==> (#[trigger] words(s)[k]).len() > 0,
        forall|k: int, j: int|
            0 <= k < words(s).len() && 0 <= j < words(s)[k].len() ==> !is_space(
                #[trigger] words(s)[k][j],
            ),
    decreases s.len(),
{
    if s.len() == 0 {
        assert(words(s).len() == 0);
    } else if is_space(s[0]) {
        lemma_words_hold_no_space(s.drop_first());
        assert(words(s) == words(s.drop_first()));
    } else {
        lemma_run_len_bound(s, false);
        let n = run_len(s, false) as int;
        let rest = words(s.skip(n));
        lemma_words_hold_no_space(s.skip(n));
        assert(words(s) =~= seq![s.take(n)] + rest);
        assert forall|k: int| 0 <= k < words(s).len() implies (#[trigger] words(s)[k]).len()
            > 0 by {
            if k > 0 {
                assert(words(s)[k] == rest[k - 1]);
            }
        }
        assert forall|k: int, j: int|
            0 <= k < words(s).len() && 0 <= j < words(s)[k].len() implies !is_space(
            #[trigger] words(s)[k][j],
        ) by {
            if k > 0 {
                assert(words(s)[k] == rest[k - 1]);
                assert(!is_space(rest[k - 1][j]));
            } else {
                assert(words(s)[0][j] == s[j]);
            }
        }
    }
}

/// The decimal digit `d` as text.
pub open spec fn digit(d: nat) -> Seq<char> {
    if d == 0 {
        "0"@
    } else if d == 1 {
        "1"@
    } else if d == 2 {
        "2"@
    } else if d == 3 {
        "3"@
    } else if d == 4 {
        "4"@
    } else if d == 5 {
        "5"@
    } else if d == 6 {
        "6"@
    } else if d == 7 {
        "7"@
    } else if d == 8 {
        "8"@
    } else {
        "9"@
    }
}

/// `n` written in decimal, without leading zeros.
pub open spec fn decimal(n: nat) -> Seq<char>
    decreases n,
{
    if n < 10 {
        digit(n)
    } else {
        decimal(n / 10) + digit(n % 10)
    }
}

/// Tells white space from other characters.
pub fn is_whitespace(c: char) -> (r: bool)
    ensures
        r == is_space(c),
{
    let u: u32 = c as u32;
    (0x09 <= u && u <= 0x0D) || u == 0x20 || u == 0x85 || u == 0xA0 || u == 0x1680 || (0x2000
        <= u && u <= 0x200A) || u == 0x2028 || u == 0x2029 || u == 0x202F || u == 0x205F || u
        == 0x3000
}

/// The characters of `s`, one by one.
pub fn chars_of(s: &str) -> (r: Vec<char>)
    ensures
        r@ == s@,
{
    let mut out: Vec<char> = Vec::new();
    for c in it: s.chars()
        invariant
            it.seq() == s@,
            out@ =~= it.seq().take(it.index()),
    {
        out.push(c);
    }
    assert(s@.take(s@.len() as int) =~= s@);
    out
}

/// Whether two texts hold the same characters.
pub fn same_text(a: &str, b: &str) -> (r: bool)
    ensures
        r == (a@ == b@),
{
    let x = String::from_str(a);
    let y = String::from_str(b);
    x == y
}

/// `n` written in decimal, without leading zeros.
pub fn to_decimal(n: u16) -> (r: String)
    ensures
        r@ == decimal(n as nat),
    decreases n,
{
    if n < 10 {
        String::from_str(digit_text(n))
    } else {
        let mut head = to_decimal(n / 10);
        head.append(digit_text(n % 10));
        head
    }
}

fn digit_text(d: u16) -> (r: &'static str)
    requires
        d < 10,
    ensures
        r@ == digit(d as nat),
{
    if d == 0 {
        "0"
    } else if d == 1 {
        "1"
    } else if d == 2 {
        "2"
    } else if d == 3 {
        "3"
    } else if d == 4 {
        "4"
    } else if d == 5 {
        "5"
    } else if d == 6 {
        "6"
    } else if d == 7 {
        "7"
    } else if d == 8 {
        "8"
    } else {
        "9"
    }
}

/// `s` without the white space at its two ends.
pub fn trim(s: &str) -> (r: String)
    ensures
        r@ == trimmed(s@),
{
    let chars = chars_of(s);
    let n: usize = chars.len();
    let mut from: usize = 0;
    while from < n && is_whitespace(chars[from])
        invariant
            from <= n,
            n == chars.len(),
            chars@ == s@,
            forall|k: int| 0 <= k < from ==> is_space(#[trigger] s@[k]),
        decreases n - from,
    {
        from += 1;
    }
    let mut to: usize = n;
    while to > from && is_whitespace(chars[to - 1])
        invariant
            from <= to <= n,
            n == chars.len(),
            chars@ == s@,
            forall|k: int| to <= k < n ==> is_space(#[trigger] s@[k]),
        decreases to,
    {
        to -= 1;
    }
    proof {
        lemma_run_len(s@, true, from as int);
        let rest = s@.skip(from as int);
        assert forall|k: int| rest.len() - (n - to) <= k < rest.len() implies is_space(
            #[trigger] rest[k],
        ) by {
            assert(rest[k] == s@[k + from]);
        }
        lemma_trailing_spaces(rest, n - to);
        assert(rest.take(rest.len() - (n - to)) =~= s@.subrange(from as int, to as int));
    }
    String::from_str(s.substring_char(from, to))
}

/// The words of `s`: its maximal runs of characters that are no white space.
pub fn split_whitespace(s: &str) -> (r: Vec<String>)
    ensures
        r.deep_view() == words(s@),
{
    let chars = chars_of(s);
    let n: usize = chars.len();
    let mut out: Vec<String> = Vec::new();
    let mut i: usize = 0;
    assert(s@.skip(0) =~= s@);
    while i < n
        invariant
            i <= n,
            n == chars.len(),
            chars@ == s@,
            out.deep_view() + words(s@.skip(i as int)) =~= words(s@),
        decreases n - i,
    {
        let ghost rest = s@.skip(i as int);
        if is_whitespace(chars[i]) {
            assert(rest.drop_first() =~= s@.skip(i + 1));
            i += 1;
        } else {
            let mut j: usize = i + 1;
            while j < n && !is_whitespace(chars[j])
                invariant
                    i < j <= n,
                    n == chars.len(),
                    chars@ == s@,
                    forall|k: int| i <= k < j ==> !is_space(#[trigger] s@[k]),
                decreases n - j,
            {
                j += 1;
            }
            let word = String::from_str(s.substring_char(i, j));
            proof {
                assert forall|k: int| 0 <= k < j - i implies is_space(#[trigger] rest[k])
                    == false by {
                    assert(rest[k] == s@[k + i]);
                }
                lemma_run_len(rest, false, j - i);
                assert(rest.take(j - i) =~= s@.subrange(i as int, j as int));
                assert(rest.skip(j - i) =~= s@.skip(j as int));
                assert(out.deep_view().push(word@) + words(s@.skip(j as int)) =~= out.deep_view()
                    + words(rest));
            }
            let ghost before = out.deep_view();
            out.push(word);
            assert(out.deep_view() =~= before.push(word@));
            i = j;
        }
    }
    assert(s@.skip(n as int) =~= Seq::<char>::empty());
    assert(out.deep_view() + Seq::<Seq<char>>::empty() =~= out.deep_view());
    out
}

} // verus!
