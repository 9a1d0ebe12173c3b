//! Text handling: splitting a command into its words, and writing numbers
//! as the control tool reads them.
use vstd::arithmetic::div_mod::lemma_breakdown;
use vstd::arithmetic::power::pow;
use vstd::prelude::*;

verus! {

/// Whether `c` separates words: the code points that Unicode gives the
/// property `White_Space`.
pub open spec fn is_whitespace(c: char) -> bool {
    let n = c as u32;
    ||| 0x09 <= n <= 0x0D
    ||| n == 0x20
    ||| n == 0x85
    ||| n == 0xA0
    ||| n == 0x1680
    ||| 0x2000 <= n <= 0x200A
    ||| n == 0x2028
    ||| n == 0x2029
    ||| n == 0x202F
    ||| n == 0x205F
    ||| n == 0x3000
}

/// Decides [`is_whitespace`].
pub fn is_whitespace_char(c: char) -> (b: bool)
    ensures
        b == is_whitespace(c),
{
    let n: u32 = c as u32;
    (0x09 <= n && n <= 0x0D) || n == 0x20 || n == 0x85 || n == 0xA0 || n == 0x1680 || (0x2000 <= n
        && n <= 0x200A) || n == 0x2028 || n == 0x2029 || n == 0x202F || n == 0x205F || n == 0x3000
}

/// The characters of `s`, one by one.
fn chars_of(s: &str) -> (chars: Vec<char>)
    ensures
        chars@ == s@,
{
    let mut chars: Vec<char> = Vec::new();
    for c in it: s.chars()
        invariant
            it.seq() == s@,
            chars@ == s@.take(it.index() as int),
    {
        chars.push(c);
    }
    chars
}

/// What each string of `v` holds, in order.
pub open spec fn texts(v: Seq<String>) -> Seq<Seq<char>> {
    v.map_values(|s: String| s@)
}

/// How many characters stand before the first whitespace of `s`.
pub open spec fn word_len(s: Seq<char>) -> nat
    decreases s.len(),
{
    if s.len() == 0 || is_whitespace(s[0]) {
        0
    } else {
        1 + word_len(s.drop_first())
    }
}

/// The words of `s`: its maximal runs of characters that are not
/// whitespace, from left to right.
pub open spec fn tokens(s: Seq<char>) -> Seq<Seq<char>>
    decreases s.len(),
    via tokens_decreases
{
    if s.len() == 0 {
        Seq::empty()
    } else if is_whitespace(s[0]) {
        tokens(s.drop_first())
    } else {
        seq![s.take(word_len(s) as int)] + tokens(s.skip(word_len(s) as int))
    }
}

#[via_fn]
proof fn tokens_decreases(s: Seq<char>) {
    lemma_word_len_bounds(s);
}

/// The first word ends inside `s`, and is not empty where `s` starts with
/// one.
pub proof fn lemma_word_len_bounds(s: Seq<char>)
    ensures
        word_len(s) <= s.len(),
        s.len() > 0 && !is_whitespace(s[0]) ==> word_len(s) >= 1,
        forall|k: int| 0 <= k < word_len(s) ==> !is_whitespace(#[trigger] s[k]),
        word_len(s) < s.len() ==> is_whitespace(s[word_len(s) as int]),
    decreases s.len(),
{
    if s.len() > 0 && !is_whitespace(s[0]) {
        let rest = s.drop_first();
        lemma_word_len_bounds(rest);
        assert forall|k: int| 0 <= k < word_len(s) implies !is_whitespace(#[trigger] s[k]) by {
            if k > 0 {
                assert(s[k] == rest[k - 1]);
            }
        }
        if word_len(s) < s.len() {
            assert(s[word_len(s) as int] == rest[word_len(rest) as int]);
        }
    }
}

/// A run of `n` characters without whitespace that ends at a whitespace
/// or at the end of `s` is the first word of `s`.
pub proof fn lemma_word_len_is(s: Seq<char>, n: int)
    requires
        0 <= n <= s.len(),
        forall|k: int| 0 <= k < n ==> !is_whitespace(#[trigger] s[k]),
        n < s.len() ==> is_whitespace(s[n]),
    ensures
        word_len(s) == n,
    decreases n,
{
    if n > 0 {
        let rest = s.drop_first();
        assert forall|k: int| 0 <= k < n - 1 implies !is_whitespace(#[trigger] rest[k]) by {
            assert(rest[k] == s[k + 1]);
        }
        lemma_word_len_is(rest, n - 1);
    }
}

/// Splits `s` at whitespace into its words.
pub fn tokenize(s: &str) -> (words: Vec<String>)
    ensures
        texts(words@) == tokens(s@),
{
    let chars = chars_of(s);
    let n = chars.len();
    let mut words: Vec<String> = Vec::new();
    let mut i: usize = 0;
    assert(s@.skip(0) =~= s@);
    assert(texts(words@) =~= Seq::<Seq<char>>::empty());
    while i < n
        invariant
            i <= n,
            n == s@.len(),
            chars@ == s@,
            tokens(s@) == texts(words@) + tokens(s@.skip(i as int)),
        decreases n - i,
    {
        let ghost rest = s@.skip(i as int);
        if is_whitespace_char(chars[i]) {
            assert(rest.drop_first() =~= s@.skip(i + 1));
            i += 1;
        } else {
            let start = i;
            while i < n && !is_whitespace_char(chars[i])
                invariant
                    start <= i <= n,
                    n == s@.len(),
                    chars@ == s@,
                    forall|k: int| start <= k < i ==> !is_whitespace(#[trigger] s@[k]),
                decreases n - i,
            {
                i += 1;
            }
            let word = String::from_str(s.substring_char(start, i));
            proof {
                lemma_word_len_is(rest, i - start);
                assert(rest.take(i - start) =~= s@.subrange(start as int, i as int));
                assert(rest.skip(i - start) =~= s@.skip(i as int));
                assert(texts(words@.push(word)) =~= texts(words@) + seq![word@]);
            }
            words.push(word);
        }
    }
    assert(tokens(s@.skip(n as int)) =~= Seq::<Seq<char>>::empty());
    words
}

/// Whether `s` holds nothing but whitespace.
pub open spec fn is_blank(s: Seq<char>) -> bool {
    forall|i: int| 0 <= i < s.len() ==> is_whitespace(#[trigger] s[i])
}

/// Whether `s` is a word: not empty, and free of whitespace.
pub open spec fn is_word(s: Seq<char>) -> bool {
    s.len() > 0 && forall|i: int| 0 <= i < s.len() ==> !is_whitespace(#[trigger] s[i])
}

/// The words of `words`, with one space between neighbours.
pub open spec fn joined(words: Seq<Seq<char>>) -> Seq<char>
    decreases words.len(),
{
    if words.len() == 0 {
        Seq::empty()
    } else if words.len() == 1 {
        words[0]
    } else {
        words[0] + seq![' '] + joined(words.drop_first())
    }
}

/// A text has no words exactly if it is empty or holds nothing but
/// whitespace.
pub proof fn lemma_tokens_blank(s: Seq<char>)
    ensures
        tokens(s).len() == 0 <==> is_blank(s),
    decreases s.len(),
{
    if s.len() > 0 {
        if is_whitespace(s[0]) {
            let rest = s.drop_first();
            lemma_tokens_blank(rest);
            if is_blank(rest) {
                assert forall|i: int| 0 <= i < s.len() implies is_whitespace(#[trigger] s[i]) by {
                    if i > 0 {
                        assert(s[i] == rest[i - 1]);
                    }
                }
            }
            if is_blank(s) {
                assert forall|i: int| 0 <= i < rest.len() implies is_whitespace(
                    #[trigger] rest[i],
                ) by {
                    assert(rest[i] == s[i + 1]);
                }
            }
        } else {
            assert(tokens(s)[0] == s.take(word_len(s) as int));
        }
    }
}

/// Every word that comes out is a word: not empty, and free of
/// whitespace.
pub proof fn lemma_tokens_are_words(s: Seq<char>)
    ensures
        forall|i: int| 0 <= i < tokens(s).len() ==> is_word(#[trigger] tokens(s)[i]),
    decreases s.len(),
{
    if s.len() > 0 {
        if is_whitespace(s[0]) {
            lemma_tokens_are_words(s.drop_first());
            assert(tokens(s) == tokens(s.drop_first()));
        } else {
            lemma_word_len_bounds(s);
            let n = word_len(s) as int;
            lemma_tokens_are_words(s.skip(n));
            assert(is_word(s.take(n)));
            assert(tokens(s) == seq![s.take(n)] + tokens(s.skip(n)));
            assert forall|i: int| 0 <= i < tokens(s).len() implies is_word(
                #[trigger] tokens(s)[i],
            ) by {
                if i > 0 {
                    assert(tokens(s)[i] == tokens(s.skip(n))[i - 1]);
                } else {
                    assert(tokens(s)[0] == s.take(n));
                }
            }
        }
    }
}

/// Whitespace in front of a text changes none of its words.
pub proof fn lemma_tokens_skip_gap(gap: Seq<char>, s: Seq<char>)
    requires
        is_blank(gap),
    ensures
        tokens(gap + s) == tokens(s),
    decreases gap.len(),
{
    if gap.len() == 0 {
        assert(gap + s =~= s);
    } else {
        let rest = gap.drop_first();
        assert((gap + s)[0] == gap[0]);
        assert((gap + s).drop_first() =~= rest + s);
        assert forall|i: int| 0 <= i < rest.len() implies is_whitespace(#[trigger] rest[i]) by {
            assert(rest[i] == gap[i + 1]);
        }
        lemma_tokens_skip_gap(rest, s);
    }
}

/// A word in front of a text that does not go on with the word comes
/// out first and as it stands; the words of the text follow.
pub proof fn lemma_tokens_first_word(word: Seq<char>, rest: Seq<char>)
    requires
        is_word(word),
        rest.len() > 0 ==> is_whitespace(rest[0]),
    ensures
        tokens(word + rest) == seq![word] + tokens(rest),
{
    let s = word + rest;
    assert forall|k: int| 0 <= k < word.len() implies !is_whitespace(#[trigger] s[k]) by {
        assert(s[k] == word[k]);
    }
    if word.len() < s.len() {
        assert(s[word.len() as int] == rest[0]);
    }
    lemma_word_len_is(s, word.len() as int);
    assert(s.take(word.len() as int) =~= word);
    assert(s.skip(word.len() as int) =~= rest);
    assert(s[0] == word[0]);
}

/// Words that are written with one space between them come out again,
/// each as it stands and in the same order.
pub proof fn lemma_tokens_joined(words: Seq<Seq<char>>)
    requires
        forall|i: int| 0 <= i < words.len() ==> is_word(#[trigger] words[i]),
    ensures
        tokens(joined(words)) == words,
    decreases words.len(),
{
    if words.len() == 0 {
        assert(tokens(joined(words)) =~= words);
    } else if words.len() == 1 {
        lemma_tokens_first_word(words[0], Seq::empty());
        assert(words[0] + Seq::<char>::empty() =~= words[0]);
        assert(seq![words[0]] + tokens(Seq::<char>::empty()) =~= words);
    } else {
        let tail = words.drop_first();
        let gap = seq![' '];
        assert forall|i: int| 0 <= i < tail.len() implies is_word(#[trigger] tail[i]) by {
            assert(tail[i] == words[i + 1]);
        }
        lemma_tokens_joined(tail);
        assert(is_whitespace(' '));
        assert(is_blank(gap));
        lemma_tokens_skip_gap(gap, joined(tail));
        assert((gap + joined(tail))[0] == ' ');
        lemma_tokens_first_word(words[0], gap + joined(tail));
        assert(words[0] + (gap + joined(tail)) =~= joined(words));
        assert(seq![words[0]] + tail =~= words);
    }
}

/// The character that stands for the digit `d`, in upper case from ten on.
pub open spec fn digit(d: nat) -> char
    recommends
        d < 16,
{
    if d < 10 {
        ((0x30 + d) as u8) as char
    } else {
        ((0x41 + d - 10) as u8) as char
    }
}

/// `n` in decimal, without leading zeros.
pub open spec fn decimal(n: nat) -> Seq<char>
    decreases n,
{
    if n < 10 {
        seq![digit(n)]
    } else {
        decimal(n / 10).push(digit(n % 10))
    }
}

/// The lowest `width` hexadecimal digits of `n`, in upper case, the most
/// significant first.
pub open spec fn hex(n: nat, width: nat) -> Seq<char>
    decreases width,
{
    if width == 0 {
        Seq::empty()
    } else {
        hex(n / 16, (width - 1) as nat).push(digit(n % 16))
    }
}

/// The digit that `c` stands for.
pub open spec fn digit_value(c: char) -> nat {
    if 0x30 <= c as u32 <= 0x39 {
        (c as u32 - 0x30) as nat
    } else {
        (c as u32 - 0x41 + 10) as nat
    }
}

/// The number that `digits` writes in the base `base`, the most
/// significant digit first.
pub open spec fn number(digits: Seq<char>, base: nat) -> nat
    decreases digits.len(),
{
    if digits.len() == 0 {
        0
    } else {
        number(digits.drop_last(), base) * base + digit_value(digits.last())
    }
}

/// Whether `c` is a digit of the base `base`, in upper case from ten on.
pub open spec fn is_digit(c: char, base: nat) -> bool {
    exists|d: nat| d < base && d < 16 && c == digit(d)
}

/// What is written in decimal is made of decimal digits, reads back as
/// the same number, and starts with a zero only where it is the zero.
pub proof fn lemma_decimal_reads_back(n: nat)
    ensures
        decimal(n).len() > 0,
        forall|i: int| 0 <= i < decimal(n).len() ==> is_digit(#[trigger] decimal(n)[i], 10),
        number(decimal(n), 10) == n,
        n > 0 ==> decimal(n)[0] != '0',
    decreases n,
{
    assert(is_digit(digit(n % 10), 10));
    if n < 10 {
        assert(decimal(n).drop_last() =~= Seq::<char>::empty());
        assert(number(decimal(n).drop_last(), 10) == 0);
    } else {
        lemma_decimal_reads_back(n / 10);
        assert(decimal(n).drop_last() =~= decimal(n / 10));
        assert(decimal(n)[0] == decimal(n / 10)[0]);
    }
}

/// What is written in `width` hexadecimal digits is made of that many
/// digits, in upper case, and reads back as the number, short of what
/// does not fit in them.
pub proof fn lemma_hex_reads_back(n: nat, width: nat)
    ensures
        hex(n, width).len() == width,
        forall|i: int| 0 <= i < width ==> is_digit(#[trigger] hex(n, width)[i], 16),
        pow(16, width) > 0,
        number(hex(n, width), 16) == n % (pow(16, width) as nat),
    decreases width,
{
    reveal(pow);
    assert(is_digit(digit(n % 16), 16));
    if width > 0 {
        let rest = (width - 1) as nat;
        lemma_hex_reads_back(n / 16, rest);
        assert(hex(n, width).drop_last() =~= hex(n / 16, rest));
        lemma_breakdown(n as int, 16, pow(16, rest));
    }
}

/// The digit `d` as a string of one character.
fn digit_str(d: u32) -> (s: &'static str)
    requires
        d < 16,
    ensures
        s@ == seq![digit(d as nat)],
{
    proof {
        reveal_strlit("0");
        reveal_strlit("1");
        reveal_strlit("2");
        reveal_strlit("3");
        reveal_strlit("4");
        reveal_strlit("5");
        reveal_strlit("6");
        reveal_strlit("7");
        reveal_strlit("8");
        reveal_strlit("9");
        reveal_strlit("A");
        reveal_strlit("B");
        reveal_strlit("C");
        reveal_strlit("D");
        reveal_strlit("E");
        reveal_strlit("F");
    }
    let s = match d {
        0 => "0",
        1 => "1",
        2 => "2",
        3 => "3",
        4 => "4",
        5 => "5",
        6 => "6",
        7 => "7",
        8 => "8",
        9 => "9",
        10 => "A",
        11 => "B",
        12 => "C",
        13 => "D",
        14 => "E",
        _ => "F",
    };
    assert(s@ =~= seq![digit(d as nat)]);
    s
}

/// Writes `n` in decimal.
pub fn decimal_string(n: u32) -> (s: String)
    ensures
        s@ == decimal(n as nat),
    decreases n,
{
    if n < 10 {
        String::from_str(digit_str(n))
    } else {
        let mut s = decimal_string(n / 10);
        s.append(digit_str(n % 10));
        assert(s@ =~= decimal(n as nat));
        s
    }
}

/// Writes the lowest `width` hexadecimal digits of `n`.
pub fn hex_string(n: u32, width: u32) -> (s: String)
    ensures
        s@ == hex(n as nat, width as nat),
    decreases width,
{
    if width == 0 {
        String::new()
    } else {
        let mut s = hex_string(n / 16, width - 1);
        s.append(digit_str(n % 16));
        assert(s@ =~= hex(n as nat, width as nat));
        s
    }
}

} // verus!
