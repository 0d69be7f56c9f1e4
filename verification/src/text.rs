//! Text primitives: whitespace, words, lines, numerals and UTF-8 lengths, each with an
//! exact meaning over sequences of characters.

use vstd::prelude::*;
use vstd::string::*;
use vstd::utf8::*;

verus! {

/// `String::push`: the character is appended.
pub assume_specification[ String::push ](s: &mut String, c: char)
    ensures
        final(s)@ == old(s)@.push(c),
;

/// `String::pop`: the last character, if there is one, is taken off and returned.
pub assume_specification[ String::pop ](s: &mut String) -> (r: Option<char>)
    ensures
        old(s)@.len() == 0 ==> r is None && final(s)@ == old(s)@,
        old(s)@.len() > 0 ==> r == Some(old(s)@.last()) && final(s)@ == old(s)@.drop_last(),
;

// ---- equality ---------------------------------------------------------------------

/// Two strings are equal exactly when their UTF-8 encodings are.
pub proof fn lemma_encoding_injective(a: Seq<char>, b: Seq<char>)
    ensures
        encode_utf8(a) == encode_utf8(b) <==> a == b,
{
    encode_utf8_decode_utf8(a);
    encode_utf8_decode_utf8(b);
}

/// Character-wise equality of two string slices.
pub fn str_eq(a: &str, b: &str) -> (r: bool)
    ensures
        r == (a@ == b@),
{
    let x = a.as_bytes();
    let y = b.as_bytes();
    proof {
        lemma_encoding_injective(a@, b@);
    }
    if x.len() != y.len() {
        return false;
    }
    let mut i: usize = 0;
    while i < x.len()
        invariant
            i <= x@.len(),
            x@.len() == y@.len(),
            forall|k: int| 0 <= k < i ==> x@[k] == y@[k],
            x@ == encode_utf8(a@),
            y@ == encode_utf8(b@),
            encode_utf8(a@) == encode_utf8(b@) <==> a@ == b@,
        decreases x@.len() - i,
    {
        if x[i] != y[i] {
            return false;
        }
        i += 1;
    }
    assert(x@ =~= y@);
    true
}

// ---- between strings and character vectors -------------------------------------------

/// The characters of a string slice.
pub fn chars_of(s: &str) -> (r: Vec<char>)
    ensures
        r@ == s@,
{
    let mut out: Vec<char> = Vec::new();
    for c in it: s.chars()
        invariant
            out@ == s@.take(it.index()),
            it.seq() == s@,
    {
        proof {
            assert(s@.take(it.index() + 1) =~= s@.take(it.index()).push(c));
        }
        out.push(c);
    }
    assert(s@.take(s@.len() as int) =~= s@);
    out
}

/// The string made of the characters `v[from..to]`.
pub fn string_of(v: &Vec<char>, from: usize, to: usize) -> (r: String)
    requires
        from <= to <= v@.len(),
    ensures
        r@ == v@.subrange(from as int, to as int),
{
    let mut out = String::new();
    let mut i: usize = from;
    while i < to
        invariant
            from <= i <= to <= v@.len(),
            out@ == v@.subrange(from as int, i as int),
        decreases to - i,
    {
        proof {
            assert(v@.subrange(from as int, i + 1) =~= v@.subrange(from as int, i as int).push(
                v@[i as int],
            ));
        }
        out.push(v[i]);
        i += 1;
    }
    out
}

// ---- whitespace ---------------------------------------------------------------------

/// The Unicode `White_Space` property.
pub open spec fn white_space(c: char) -> bool {
    let n = c as u32;
    ||| 9 <= n <= 13
    ||| n == 0x20
    ||| n == 0x85
    ||| n == 0xA0
    ||| n == 0x1680
    ||| 0x2000 <= n <= 0x200A
    ||| n == 0x2028
    ||| n == 0x2029
    ||| n == 0x202F
    ||| n == 0x205F
    ||| n == 0x3000
}

/// Decides `white_space`.
pub fn is_white_space(c: char) -> (r: bool)
    ensures
        r == white_space(c),
{
    let n: u32 = c as u32;
    (9 <= n && n <= 13) || n == 0x20 || n == 0x85 || n == 0xA0 || n == 0x1680 || (0x2000 <= n && n
        <= 0x200A) || n == 0x2028 || n == 0x2029 || n == 0x202F || n == 0x205F || n == 0x3000
}

/// The text without its leading whitespace.
pub open spec fn trimmed_start(s: Seq<char>) -> Seq<char>
    decreases s.len(),
{
    if s.len() > 0 && white_space(s[0]) {
        trimmed_start(s.drop_first())
    } else {
        s
    }
}

/// The text without its trailing whitespace.
pub open spec fn trimmed_end(s: Seq<char>) -> Seq<char>
    decreases s.len(),
{
    if s.len() > 0 && white_space(s.last()) {
        trimmed_end(s.drop_last())
    } else {
        s
    }
}

/// The text without surrounding whitespace.
pub open spec fn trimmed(s: Seq<char>) -> Seq<char> {
    trimmed_end(trimmed_start(s))
}

/// Index of the first character of `v` that is not whitespace.
fn skip_white(v: &Vec<char>) -> (r: usize)
    ensures
        r <= v@.len(),
        trimmed_start(v@) == v@.skip(r as int),
{
    let mut i: usize = 0;
    assert(v@.skip(0) =~= v@);
    while i < v.len() && is_white_space(v[i])
        invariant
            i <= v@.len(),
            trimmed_start(v@) == trimmed_start(v@.skip(i as int)),
        decreases v@.len() - i,
    {
        proof {
            assert(v@.skip(i as int).drop_first() =~= v@.skip(i + 1));
        }
        i += 1;
    }
    i
}

/// `str::trim_start`.
pub fn trim_start(s: &str) -> (r: String)
    ensures
        r@ == trimmed_start(s@),
{
    let v = chars_of(s);
    let i = skip_white(&v);
    assert(v@.subrange(i as int, v@.len() as int) =~= v@.skip(i as int));
    string_of(&v, i, v.len())
}

/// `str::trim`.
pub fn trim(s: &str) -> (r: String)
    ensures
        r@ == trimmed(s@),
{
    let v = chars_of(s);
    let i = skip_white(&v);
    let mut j: usize = v.len();
    assert(v@.subrange(i as int, j as int) =~= v@.skip(i as int));
    while i < j && is_white_space(v[j - 1])
        invariant
            i <= j <= v@.len(),
            v@ == s@,
            trimmed(s@) == trimmed_end(v@.subrange(i as int, j as int)),
        decreases j,
    {
        proof {
            assert(v@.subrange(i as int, j as int).drop_last() =~= v@.subrange(i as int, j - 1));
        }
        j -= 1;
    }
    string_of(&v, i, j)
}

/// Whether nothing but whitespace is left of the text.
pub fn is_blank(s: &str) -> (r: bool)
    ensures
        r == (trimmed(s@).len() == 0),
{
    trim(s).as_str().is_empty()
}

/// Length of the longest prefix without whitespace.
pub open spec fn word_length(s: Seq<char>) -> nat
    decreases s.len(),
{
    if s.len() > 0 && !white_space(s[0]) {
        1 + word_length(s.drop_first())
    } else {
        0
    }
}

/// A word is within its text, and not empty where the text begins with one.
pub proof fn lemma_word_length(s: Seq<char>)
    ensures
        word_length(s) <= s.len(),
        s.len() > 0 && !white_space(s[0]) ==> word_length(s) > 0,
    decreases s.len(),
{
    if s.len() > 0 && !white_space(s[0]) {
        lemma_word_length(s.drop_first());
    }
}

/// What is left without leading whitespace is no longer, and begins with none.
pub proof fn lemma_trimmed_start(s: Seq<char>)
    ensures
        trimmed_start(s).len() <= s.len(),
        trimmed_start(s).len() > 0 ==> !white_space(trimmed_start(s)[0]),
    decreases s.len(),
{
    if s.len() > 0 && white_space(s[0]) {
        lemma_trimmed_start(s.drop_first());
    }
}

/// The whitespace-separated words of the text.
pub open spec fn words(s: Seq<char>) -> Seq<Seq<char>>
    decreases s.len(),
{
    let t = trimmed_start(s);
    if t.len() == 0 {
        Seq::empty()
    } else {
        let n = word_length(t);
        proof {
            lemma_trimmed_start(s);
            lemma_word_length(t);
        }
        seq![t.take(n as int)] + words(t.skip(n as int))
    }
}

/// Whether the text is a single word.
pub open spec fn is_word(s: Seq<char>) -> bool {
    s.len() > 0 && forall|i: int| 0 <= i < s.len() ==> !white_space(#[trigger] s[i])
}

proof fn lemma_word_length_of_word(a: Seq<char>, t: Seq<char>)
    requires
        forall|i: int| 0 <= i < a.len() ==> !white_space(#[trigger] a[i]),
        t.len() == 0 || white_space(t[0]),
    ensures
        word_length(a + t) == a.len(),
    decreases a.len(),
{
    if a.len() == 0 {
        assert(a + t =~= t);
    } else {
        assert((a + t).drop_first() =~= a.drop_first() + t);
        assert forall|i: int| 0 <= i < a.drop_first().len() implies !white_space(
            #[trigger] a.drop_first()[i],
        ) by {
            assert(a.drop_first()[i] == a[i + 1]);
        }
        lemma_word_length_of_word(a.drop_first(), t);
        assert((a + t)[0] == a[0]);
    }
}

/// A word in front of a space is the first word of the text.
pub proof fn first_of_words(a: Seq<char>, rest: Seq<char>)
    requires
        is_word(a),
    ensures
        words(a + seq![' '] + rest) == seq![a] + words(rest),
{
    let t = seq![' '] + rest;
    let s = a + seq![' '] + rest;
    assert(s =~= a + t);
    assert(s[0] == a[0]);
    assert(trimmed_start(s) == s);
    lemma_word_length_of_word(a, t);
    assert(s.take(a.len() as int) =~= a);
    assert(s.skip(a.len() as int) =~= t);
    assert(t.drop_first() =~= rest);
    assert(trimmed_start(t) == trimmed_start(rest));
    assert(words(t) == words(rest));
}

/// A word is the only word of its text.
pub proof fn single_word(a: Seq<char>)
    requires
        is_word(a),
    ensures
        words(a) == seq![a],
{
    let e = Seq::<char>::empty();
    assert(a + e =~= a);
    lemma_word_length_of_word(a, e);
    assert(trimmed_start(a) == a);
    assert(a.take(a.len() as int) =~= a);
    assert(a.skip(a.len() as int) =~= e);
    assert(trimmed_start(e) == e);
    assert(words(e) == Seq::<Seq<char>>::empty());
    assert(words(a) =~= seq![a]);
}

/// Two words with a space between them are the words of their text.
pub proof fn two_words(a: Seq<char>, b: Seq<char>)
    requires
        is_word(a),
        is_word(b),
    ensures
        words(a + seq![' '] + b) == seq![a, b],
{
    first_of_words(a, b);
    single_word(b);
    assert(seq![a] + seq![b] =~= seq![a, b]);
}

/// `str::split_whitespace`.
pub fn split_words(s: &str) -> (r: Vec<String>)
    ensures
        r@.map_values(|w: String| w@) == words(s@),
{
    let v = chars_of(s);
    let mut out: Vec<String> = Vec::new();
    let mut i: usize = 0;
    assert(v@.skip(0) =~= v@);
    assert(out@.map_values(|w: String| w@) + words(v@) =~= words(v@));
    loop
        invariant
            i <= v@.len(),
            out@.map_values(|w: String| w@) + words(v@.skip(i as int)) == words(v@),
        ensures
            out@.map_values(|w: String| w@) == words(v@),
        decreases v@.len() - i,
    {
        let ghost start = v@.skip(i as int);
        while i < v.len() && is_white_space(v[i])
            invariant
                i <= v@.len(),
                trimmed_start(start) == trimmed_start(v@.skip(i as int)),
                start.len() >= v@.len() - i,
            decreases v@.len() - i,
        {
            proof {
                assert(v@.skip(i as int).drop_first() =~= v@.skip(i + 1));
            }
            i += 1;
        }
        let ghost t = trimmed_start(start);
        assert(t == v@.skip(i as int));
        if i >= v.len() {
            proof {
                assert(t.len() == 0);
                assert(out@.map_values(|w: String| w@) + Seq::<Seq<char>>::empty()
                    =~= out@.map_values(|w: String| w@));
            }
            break;
        }
        let from = i;
        proof {
            lemma_word_length(t);
            assert(v@.skip(from as int) =~= t);
        }
        while i < v.len() && !is_white_space(v[i])
            invariant
                from <= i <= v@.len(),
                word_length(t) == (i - from) + word_length(v@.skip(i as int)),
            decreases v@.len() - i,
        {
            proof {
                assert(v@.skip(i as int).drop_first() =~= v@.skip(i + 1));
            }
            i += 1;
        }
        let ghost n = word_length(t);
        assert(n == i - from);
        let w = string_of(&v, from, i);
        proof {
            assert(w@ =~= t.take(n as int));
            assert(t.skip(n as int) =~= v@.skip(i as int));
            assert(out@.push(w).map_values(|w: String| w@) =~= out@.map_values(|w: String| w@).push(
                w@,
            ));
            assert(out@.map_values(|w: String| w@) + (seq![w@] + words(v@.skip(i as int)))
                =~= out@.map_values(|w: String| w@).push(w@) + words(v@.skip(i as int)));
        }
        out.push(w);
    }
    out
}

// ---- ASCII case ---------------------------------------------------------------------

/// `char::to_ascii_lowercase`.
pub open spec fn lower_char(c: char) -> char {
    if 'A' <= c && c <= 'Z' {
        ((c as u8) + 32) as u8 as char
    } else {
        c
    }
}

/// `str::to_ascii_lowercase`.
pub open spec fn lowered(s: Seq<char>) -> Seq<char> {
    s.map_values(|c: char| lower_char(c))
}

/// `str::to_ascii_lowercase`.
pub fn to_lower(s: &str) -> (r: String)
    ensures
        r@ == lowered(s@),
{
    let v = chars_of(s);
    let mut out = String::new();
    let mut i: usize = 0;
    while i < v.len()
        invariant
            i <= v@.len(),
            v@ == s@,
            out@ == lowered(v@.take(i as int)),
        decreases v@.len() - i,
    {
        let c = v[i];
        let d = if 'A' <= c && c <= 'Z' {
            ((c as u8) + 32) as char
        } else {
            c
        };
        proof {
            assert(v@.take(i + 1) =~= v@.take(i as int).push(c));
            assert(lowered(v@.take(i + 1)) =~= lowered(v@.take(i as int)).push(lower_char(c)));
        }
        out.push(d);
        i += 1;
    }
    assert(v@.take(v@.len() as int) =~= v@);
    out
}

// ---- numerals -----------------------------------------------------------------------

/// The character of a hexadecimal digit.
pub open spec fn digit_char(d: int) -> char {
    if d < 10 {
        (48 + d) as u8 as char
    } else {
        (87 + d) as u8 as char
    }
}

fn digit(d: u8) -> (r: char)
    requires
        d < 16,
    ensures
        r == digit_char(d as int),
{
    if d < 10 {
        (48 + d) as char
    } else {
        (87 + d) as char
    }
}

/// The numeral of `n` in `base`, without leading zeros.
pub open spec fn numeral(n: nat, base: nat) -> Seq<char>
    decreases n,
{
    if base < 2 || n < base {
        seq![digit_char(n as int)]
    } else {
        proof {
            assert(n / base < n) by (nonlinear_arith)
                requires
                    n >= base,
                    base >= 2,
            ;
        }
        numeral(n / base, base).push(digit_char((n % base) as int))
    }
}

/// The decimal numeral of a natural number.
pub open spec fn decimal(n: nat) -> Seq<char> {
    numeral(n, 10)
}

/// The decimal numeral of an integer.
pub open spec fn decimal_int(n: int) -> Seq<char> {
    if n < 0 {
        seq!['-'] + decimal((-n) as nat)
    } else {
        decimal(n as nat)
    }
}

/// The lower-case hexadecimal numeral of `n`, padded with zeros on the left to `width`.
pub open spec fn hex_padded(n: nat, width: nat) -> Seq<char> {
    let h = numeral(n, 16);
    if h.len() >= width {
        h
    } else {
        Seq::new((width - h.len()) as nat, |i: int| '0') + h
    }
}

fn push_numeral(out: &mut Vec<char>, n: u128, base: u128)
    requires
        2 <= base <= 16,
    ensures
        final(out)@ == old(out)@ + numeral(n as nat, base as nat),
    decreases n,
{
    if n < base {
        out.push(digit(n as u8));
        assert(out@ =~= old(out)@ + numeral(n as nat, base as nat));
    } else {
        proof {
            assert(n / base < n) by (nonlinear_arith)
                requires
                    n >= base,
                    base >= 2,
            ;
        }
        push_numeral(out, n / base, base);
        proof {
            assert(n % base < base) by (nonlinear_arith)
                requires
                    base >= 2,
            ;
        }
        out.push(digit((n % base) as u8));
        assert(out@ =~= old(out)@ + numeral(n as nat, base as nat));
    }
}

/// The decimal numeral of `n`, as `Display` writes it.
pub fn u64_text(n: u64) -> (r: String)
    ensures
        r@ == decimal(n as nat),
{
    let mut v: Vec<char> = Vec::new();
    push_numeral(&mut v, n as u128, 10);
    assert(v@ =~= decimal(n as nat));
    assert(v@.subrange(0, v@.len() as int) =~= v@);
    string_of(&v, 0, v.len())
}

/// The decimal numeral of `n`, as `Display` writes it.
pub fn usize_text(n: usize) -> (r: String)
    ensures
        r@ == decimal(n as nat),
{
    u64_text(n as u64)
}

/// The decimal numeral of `n`, as `Display` writes it.
pub fn i32_text(n: i32) -> (r: String)
    ensures
        r@ == decimal_int(n as int),
{
    if n < 0 {
        let m: i64 = n as i64;
        let mut out = String::new();
        out.push('-');
        out.append(u64_text((-m) as u64).as_str());
        assert(out@ =~= seq!['-'] + decimal((-n) as nat));
        out
    } else {
        u64_text(n as u64)
    }
}

/// The hexadecimal numeral of `n` padded to `width`, as `{:0width$x}` writes it.
pub fn hex_text(n: u64, width: usize) -> (r: String)
    ensures
        r@ == hex_padded(n as nat, width as nat),
{
    let mut v: Vec<char> = Vec::new();
    push_numeral(&mut v, n as u128, 16);
    assert(v@ =~= numeral(n as nat, 16));
    let mut out = String::new();
    if v.len() < width {
        let pad: usize = width - v.len();
        let mut i: usize = 0;
        while i < pad
            invariant
                i <= pad,
                out@ =~= Seq::new(i as nat, |k: int| '0'),
            decreases pad - i,
        {
            out.push('0');
            i += 1;
        }
    }
    let h = string_of(&v, 0, v.len());
    assert(h@ =~= v@);
    out.append(h.as_str());
    assert(out@ =~= hex_padded(n as nat, width as nat));
    out
}

/// Whether every character is an ASCII digit.
pub open spec fn all_digits(s: Seq<char>) -> bool {
    forall|i: int| 0 <= i < s.len() ==> '0' <= #[trigger] s[i] && s[i] <= '9'
}

/// The number that a string of digits denotes.
pub open spec fn digits_value(s: Seq<char>) -> nat
    decreases s.len(),
{
    if s.len() == 0 {
        0
    } else {
        digits_value(s.drop_last()) * 10 + ((s.last() as u32) - 48) as nat
    }
}

/// What `str::parse::<u64>` accepts: an optional plus sign and digits, within range.
pub open spec fn parsed_u64(s: Seq<char>) -> Option<u64> {
    let t = if s.len() > 0 && s[0] == '+' {
        s.drop_first()
    } else {
        s
    };
    if t.len() > 0 && all_digits(t) && digits_value(t) <= u64::MAX {
        Some(digits_value(t) as u64)
    } else {
        None
    }
}

proof fn lemma_digits_value_grows(s: Seq<char>, k: int)
    requires
        0 <= k <= s.len(),
    ensures
        digits_value(s.take(k)) <= digits_value(s),
    decreases s.len() - k,
{
    if k < s.len() {
        lemma_digits_value_grows(s, k + 1);
        assert(s.take(k + 1).drop_last() =~= s.take(k));
    } else {
        assert(s.take(k) =~= s);
    }
}

/// The decimal numeral of a number reads back as the number.
pub proof fn decimal_reads_back(n: nat)
    ensures
        decimal(n).len() > 0,
        all_digits(decimal(n)),
        digits_value(decimal(n)) == n,
        n <= u64::MAX ==> parsed_u64(decimal(n)) == Some(n as u64),
    decreases n,
{
    let s = decimal(n);
    if n < 10 {
        assert(s =~= seq![digit_char(n as int)]);
        assert(s.drop_last() =~= Seq::<char>::empty());
        assert(digits_value(s.drop_last()) == 0);
    } else {
        decimal_reads_back(n / 10);
        let head = decimal(n / 10);
        assert(s.drop_last() =~= head);
        assert(s.last() == digit_char((n % 10) as int));
        assert forall|i: int| 0 <= i < s.len() implies '0' <= #[trigger] s[i] && s[i] <= '9' by {
            if i < head.len() {
                assert(s[i] == head[i]);
            }
        }
    }
    assert(s[0] <= '9' && '0' <= s[0]);
}

/// `str::parse::<u64>`, with `None` for every error.
pub fn parse_u64(s: &str) -> (r: Option<u64>)
    ensures
        r == parsed_u64(s@),
{
    let v = chars_of(s);
    let from: usize = if v.len() > 0 && v[0] == '+' {
        1
    } else {
        0
    };
    let ghost t = if from == 1 {
        s@.drop_first()
    } else {
        s@
    };
    assert(v@.skip(from as int) =~= t);
    if from == v.len() {
        return None;
    }
    let mut acc: u64 = 0;
    let mut i: usize = from;
    assert(t.take(0) =~= Seq::<char>::empty());
    while i < v.len()
        invariant
            from <= i <= v@.len(),
            t == v@.skip(from as int),
            t.len() > 0,
            parsed_u64(s@) == (if all_digits(t) && digits_value(t) <= u64::MAX {
                Some(digits_value(t) as u64)
            } else {
                None::<u64>
            }),
            acc == digits_value(t.take(i - from)),
            forall|k: int| 0 <= k < i - from ==> '0' <= #[trigger] t[k] && t[k] <= '9',
        decreases v@.len() - i,
    {
        let c = v[i];
        proof {
            assert(c == t[i - from]);
            assert(t.take(i - from + 1).drop_last() =~= t.take(i - from));
            assert(t.take(i - from + 1).last() == c);
            lemma_digits_value_grows(t, i - from + 1);
        }
        if !('0' <= c && c <= '9') {
            return None;
        }
        let d: u64 = (c as u32 - 48) as u64;
        let wide: u128 = (acc as u128) * 10 + (d as u128);
        if wide > u64::MAX as u128 {
            return None;
        }
        acc = wide as u64;
        i += 1;
    }
    assert(t.take(t.len() as int) =~= t);
    Some(acc)
}

// ---- prefixes, suffixes and separators ------------------------------------------------

/// `s` begins with `p`.
pub open spec fn has_prefix(s: Seq<char>, p: Seq<char>) -> bool {
    p.len() <= s.len() && s.take(p.len() as int) == p
}

/// `s` ends with `p`.
pub open spec fn has_suffix(s: Seq<char>, p: Seq<char>) -> bool {
    p.len() <= s.len() && s.skip(s.len() - p.len()) == p
}

fn matches_at(v: &Vec<char>, at: usize, p: &Vec<char>) -> (r: bool)
    requires
        at + p@.len() <= v@.len(),
    ensures
        r == (v@.subrange(at as int, at + p@.len()) == p@),
{
    let n = v.len();
    let mut i: usize = 0;
    while i < p.len()
        invariant
            i <= p@.len(),
            at + p@.len() <= v@.len(),
            n == v@.len(),
            forall|k: int| 0 <= k < i ==> v@[at + k] == p@[k],
        decreases p@.len() - i,
    {
        if v[at + i] != p[i] {
            assert(v@.subrange(at as int, at + p@.len())[i as int] != p@[i as int]);
            return false;
        }
        i += 1;
    }
    assert(v@.subrange(at as int, at + p@.len()) =~= p@);
    true
}

/// `str::starts_with`.
pub fn starts_with(s: &str, p: &str) -> (r: bool)
    ensures
        r == has_prefix(s@, p@),
{
    let v = chars_of(s);
    let q = chars_of(p);
    if q.len() > v.len() {
        return false;
    }
    assert(v@.subrange(0, q@.len() as int) =~= v@.take(q@.len() as int));
    matches_at(&v, 0, &q)
}

/// `str::ends_with`.
pub fn ends_with(s: &str, p: &str) -> (r: bool)
    ensures
        r == has_suffix(s@, p@),
{
    let v = chars_of(s);
    let q = chars_of(p);
    if q.len() > v.len() {
        return false;
    }
    let at: usize = v.len() - q.len();
    assert(v@.subrange(at as int, at + q@.len()) =~= v@.skip(at as int));
    matches_at(&v, at, &q)
}

/// What follows the prefix `p`, where there is one.
pub open spec fn after_prefix(s: Seq<char>, p: Seq<char>) -> Option<Seq<char>> {
    if has_prefix(s, p) {
        Some(s.skip(p.len() as int))
    } else {
        None
    }
}

/// `str::strip_prefix`.
pub fn strip_prefix(s: &str, p: &str) -> (r: Option<String>)
    ensures
        opt_str(r) == after_prefix(s@, p@),
{
    if starts_with(s, p) {
        let v = chars_of(s);
        let n = chars_of(p).len();
        assert(v@.subrange(n as int, v@.len() as int) =~= v@.skip(n as int));
        Some(string_of(&v, n, v.len()))
    } else {
        None
    }
}

/// The text without the trailing occurrences of `c`.
pub open spec fn without_trailing(s: Seq<char>, c: char) -> Seq<char>
    decreases s.len(),
{
    if s.len() > 0 && s.last() == c {
        without_trailing(s.drop_last(), c)
    } else {
        s
    }
}

/// `str::trim_end_matches` with a character.
pub fn trim_end_char(s: &str, c: char) -> (r: String)
    ensures
        r@ == without_trailing(s@, c),
{
    let v = chars_of(s);
    let mut j: usize = v.len();
    assert(v@.take(j as int) =~= v@);
    while 0 < j && v[j - 1] == c
        invariant
            j <= v@.len(),
            without_trailing(v@, c) == without_trailing(v@.take(j as int), c),
        decreases j,
    {
        proof {
            assert(v@.take(j as int).drop_last() =~= v@.take(j - 1));
        }
        j -= 1;
    }
    assert(v@.subrange(0, j as int) =~= v@.take(j as int));
    string_of(&v, 0, j)
}

/// Index of the first `c` in the text, or its length.
pub open spec fn first_index(s: Seq<char>, c: char) -> nat
    decreases s.len(),
{
    if s.len() == 0 || s[0] == c {
        0
    } else {
        1 + first_index(s.drop_first(), c)
    }
}

/// `first_index` is within the text.
pub proof fn lemma_first_index(s: Seq<char>, c: char)
    ensures
        first_index(s, c) <= s.len(),
    decreases s.len(),
{
    if !(s.len() == 0 || s[0] == c) {
        lemma_first_index(s.drop_first(), c);
    }
}

/// The part before the first `c`, or the whole text.
pub open spec fn before_char(s: Seq<char>, c: char) -> Seq<char> {
    s.take(first_index(s, c) as int)
}

/// The part behind the first `c`, where there is one.
pub open spec fn behind_char(s: Seq<char>, c: char) -> Option<Seq<char>> {
    if first_index(s, c) < s.len() {
        Some(s.skip(first_index(s, c) as int + 1))
    } else {
        None
    }
}

fn find_from(v: &Vec<char>, from: usize, c: char) -> (r: usize)
    requires
        from <= v@.len(),
    ensures
        from <= r <= v@.len(),
        first_index(v@.skip(from as int), c) == r - from,
{
    let mut i: usize = from;
    while i < v.len() && v[i] != c
        invariant
            from <= i <= v@.len(),
            first_index(v@.skip(from as int), c) == (i - from) + first_index(v@.skip(i as int), c),
        decreases v@.len() - i,
    {
        proof {
            assert(v@.skip(i as int).drop_first() =~= v@.skip(i + 1));
        }
        i += 1;
    }
    i
}

/// Splits at the first `c`: `splitn(2, c)`.
pub fn split_once(s: &str, c: char) -> (r: (String, Option<String>))
    ensures
        r.0@ == before_char(s@, c),
        opt_str(r.1) == behind_char(s@, c),
{
    let v = chars_of(s);
    let i = find_from(&v, 0, c);
    assert(v@.skip(0) =~= v@);
    assert(v@.subrange(0, i as int) =~= v@.take(i as int));
    let head = string_of(&v, 0, i);
    if i < v.len() {
        assert(v@.subrange(i + 1, v@.len() as int) =~= v@.skip(i + 1));
        (head, Some(string_of(&v, i + 1, v.len())))
    } else {
        (head, None)
    }
}

/// A line without the carriage return before its line feed.
pub open spec fn without_cr(s: Seq<char>) -> Seq<char> {
    if s.len() > 0 && s.last() == '\r' {
        s.drop_last()
    } else {
        s
    }
}

/// The lines of the text, each ended by a line feed or by the end of the text.
pub open spec fn text_lines(s: Seq<char>) -> Seq<Seq<char>>
    decreases s.len(),
{
    if s.len() == 0 {
        Seq::empty()
    } else {
        let k = first_index(s, '\n');
        if k < s.len() {
            seq![without_cr(s.take(k as int))] + text_lines(s.skip(k as int + 1))
        } else {
            seq![s]
        }
    }
}

/// `str::lines`.
pub fn lines(s: &str) -> (r: Vec<String>)
    ensures
        strs(r@) == text_lines(s@),
{
    let v = chars_of(s);
    let mut out: Vec<String> = Vec::new();
    let mut i: usize = 0;
    assert(v@.skip(0) =~= v@);
    assert(strs(out@) + text_lines(v@) =~= text_lines(v@));
    while i < v.len()
        invariant
            i <= v@.len(),
            strs(out@) + text_lines(v@.skip(i as int)) == text_lines(v@),
        decreases v@.len() - i,
    {
        let ghost rest = v@.skip(i as int);
        let k = find_from(&v, i, '\n');
        let ghost before = strs(out@);
        if k < v.len() {
            let end: usize = if i < k && v[k - 1] == '\r' {
                k - 1
            } else {
                k
            };
            let line = string_of(&v, i, end);
            proof {
                assert(line@ =~= without_cr(rest.take(k - i)));
                assert(rest.skip(k - i + 1) =~= v@.skip(k + 1));
                assert(strs(out@.push(line)) =~= before.push(line@));
                assert(before + (seq![line@] + text_lines(v@.skip(k + 1))) =~= before.push(line@)
                    + text_lines(v@.skip(k + 1)));
            }
            out.push(line);
            i = k + 1;
        } else {
            let line = string_of(&v, i, k);
            proof {
                assert(line@ =~= rest);
                assert(strs(out@.push(line)) =~= before.push(line@));
                assert(v@.skip(k as int) =~= Seq::<char>::empty());
                assert(before + seq![rest] =~= before.push(line@) + Seq::<Seq<char>>::empty());
            }
            out.push(line);
            i = k;
        }
    }
    proof {
        assert(v@.skip(i as int) =~= Seq::<char>::empty());
        assert(strs(out@) + Seq::<Seq<char>>::empty() =~= strs(out@));
    }
    out
}

// ---- lists of strings -----------------------------------------------------------------

/// The contents of a list of strings.
pub open spec fn strs(s: Seq<String>) -> Seq<Seq<char>> {
    s.map_values(|x: String| x@)
}

/// The contents of an optional string.
pub open spec fn opt_str(o: Option<String>) -> Option<Seq<char>> {
    match o {
        Some(x) => Some(x@),
        None => None,
    }
}

/// The contents of an optional string slice.
pub open spec fn opt_slice(o: Option<&str>) -> Option<Seq<char>> {
    match o {
        Some(x) => Some(x@),
        None => None,
    }
}

/// The strings with `sep` between neighbours.
pub open spec fn joined(list: Seq<Seq<char>>, sep: Seq<char>) -> Seq<char>
    decreases list.len(),
{
    if list.len() == 0 {
        Seq::empty()
    } else if list.len() == 1 {
        list[0]
    } else {
        joined(list.drop_last(), sep) + sep + list.last()
    }
}

/// `[String]::join`.
pub fn join(list: &Vec<String>, sep: &str) -> (r: String)
    ensures
        r@ == joined(strs(list@), sep@),
{
    let mut out = String::new();
    let mut i: usize = 0;
    assert(strs(list@).take(0) =~= Seq::<Seq<char>>::empty());
    while i < list.len()
        invariant
            i <= list@.len(),
            out@ == joined(strs(list@).take(i as int), sep@),
        decreases list@.len() - i,
    {
        proof {
            assert(strs(list@).take(i + 1).drop_last() =~= strs(list@).take(i as int));
            assert(strs(list@).take(i + 1).last() == list@[i as int]@);
        }
        if i > 0 {
            out.append(sep);
        }
        out.append(list[i].as_str());
        assert(out@ =~= joined(strs(list@).take(i + 1), sep@));
        i += 1;
    }
    assert(strs(list@).take(list@.len() as int) =~= strs(list@));
    out
}

/// A copy of a list of strings.
pub fn clone_strings(v: &Vec<String>) -> (r: Vec<String>)
    ensures
        strs(r@) == strs(v@),
{
    let mut out: Vec<String> = Vec::new();
    let mut i: usize = 0;
    while i < v.len()
        invariant
            i <= v@.len(),
            strs(out@) =~= strs(v@).take(i as int),
        decreases v@.len() - i,
    {
        let x = v[i].clone();
        proof {
            assert(strs(out@.push(x)) =~= strs(out@).push(v@[i as int]@));
            assert(strs(v@).take(i + 1) =~= strs(v@).take(i as int).push(v@[i as int]@));
        }
        out.push(x);
        i += 1;
    }
    assert(strs(v@).take(v@.len() as int) =~= strs(v@));
    out
}

/// Concatenation of two texts.
pub fn cat(a: &str, b: &str) -> (r: String)
    ensures
        r@ == a@ + b@,
{
    let mut out = a.to_owned();
    out.append(b);
    out
}

// ---- UTF-8 lengths ----------------------------------------------------------------------

/// Number of bytes that the text occupies.
pub open spec fn byte_count(s: Seq<char>) -> nat {
    encode_utf8(s).len()
}

/// `str::len`.
pub fn byte_len(s: &str) -> (r: usize)
    ensures
        r == byte_count(s@),
{
    s.as_bytes().len()
}

/// Whether the text can be cut behind its first `n` bytes.
pub open spec fn cuttable(s: Seq<char>, n: int) -> bool {
    n <= byte_count(s) && is_char_boundary(encode_utf8(s), n)
}

/// The text that occupies the first `n` bytes.
pub open spec fn byte_prefix(s: Seq<char>, n: int) -> Seq<char> {
    decode_utf8(encode_utf8(s).take(n))
}

/// Decides `cuttable`.
pub fn is_cuttable(s: &str, n: usize) -> (r: bool)
    ensures
        r == cuttable(s@, n as int),
{
    n <= byte_len(s) && s.is_char_boundary(n)
}

/// `s[..n]`.
pub fn cut(s: &str, n: usize) -> (r: String)
    requires
        cuttable(s@, n as int),
    ensures
        r@ == byte_prefix(s@, n as int),
{
    let (head, _tail) = s.split_at(n);
    proof {
        encode_utf8_decode_utf8(head@);
        assert(encode_utf8(s@).subrange(0, n as int) =~= encode_utf8(s@).take(n as int));
    }
    head.to_owned()
}

// ---- laws ---------------------------------------------------------------------------------------

/// Blanks, tabs and line ends are whitespace; the other ASCII characters that can be seen, and
/// Chinese ones, are not.
pub proof fn whitespace_is_what_separates(c: char)
    ensures
        white_space(' ') && white_space('\t') && white_space('\n') && white_space('\r'),
        '!' <= c <= '~' ==> !white_space(c),
        '一' <= c <= '龥' ==> !white_space(c),
{
}

/// The text without what surrounds it is what stands between: whitespace on either side goes,
/// and nothing else does.
pub proof fn trimming_takes_the_middle(a: Seq<char>, t: Seq<char>, b: Seq<char>)
    requires
        forall|i: int| 0 <= i < a.len() ==> white_space(#[trigger] a[i]),
        forall|i: int| 0 <= i < b.len() ==> white_space(#[trigger] b[i]),
        t.len() > 0 ==> !white_space(t[0]) && !white_space(t.last()),
    ensures
        trimmed(a + t + b) == t,
        t.len() > 0 ==> trimmed_start(a + t + b) == t + b,
    decreases a.len() + b.len(),
{
    let s = a + t + b;
    if a.len() > 0 {
        assert(s[0] == a[0]);
        assert(s.drop_first() =~= a.drop_first() + t + b);
        assert forall|i: int| 0 <= i < a.drop_first().len() implies white_space(
            #[trigger] a.drop_first()[i],
        ) by {
            assert(a.drop_first()[i] == a[i + 1]);
        }
        trimming_takes_the_middle(a.drop_first(), t, b);
    } else if t.len() == 0 {
        assert(s =~= b);
        lemma_all_blank(b);
        assert(t =~= Seq::<char>::empty());
    } else {
        assert(s =~= t + b);
        assert(s[0] == t[0]);
        lemma_trim_tail(t, b);
    }
}

proof fn lemma_all_blank(b: Seq<char>)
    requires
        forall|i: int| 0 <= i < b.len() ==> white_space(#[trigger] b[i]),
    ensures
        trimmed_start(b) == Seq::<char>::empty(),
        trimmed(b) == Seq::<char>::empty(),
    decreases b.len(),
{
    if b.len() > 0 {
        assert(white_space(b[0]));
        assert forall|i: int| 0 <= i < b.drop_first().len() implies white_space(
            #[trigger] b.drop_first()[i],
        ) by {
            assert(b.drop_first()[i] == b[i + 1]);
        }
        lemma_all_blank(b.drop_first());
    } else {
        assert(b =~= Seq::<char>::empty());
    }
}

proof fn lemma_trim_tail(t: Seq<char>, b: Seq<char>)
    requires
        t.len() > 0,
        !white_space(t.last()),
        forall|i: int| 0 <= i < b.len() ==> white_space(#[trigger] b[i]),
    ensures
        trimmed_end(t + b) == t,
    decreases b.len(),
{
    if b.len() == 0 {
        assert(t + b =~= t);
    } else {
        assert((t + b).last() == b[b.len() - 1]);
        assert((t + b).drop_last() =~= t + b.drop_last());
        assert forall|i: int| 0 <= i < b.drop_last().len() implies white_space(
            #[trigger] b.drop_last()[i],
        ) by {
            assert(b.drop_last()[i] == b[i]);
        }
        lemma_trim_tail(t, b.drop_last());
    }
}

/// Whitespace in front of a text makes no difference to its words, blank texts have none, and
/// a word ends at any whitespace.
pub proof fn words_are_separated(a: Seq<char>, c: char, rest: Seq<char>)
    requires
        white_space(c),
    ensures
        words(seq![c] + rest) == words(rest),
        words(Seq::<char>::empty()).len() == 0,
        is_word(a) ==> words(a + seq![c] + rest) == seq![a] + words(rest),
{
    let t = seq![c] + rest;
    assert(t.drop_first() =~= rest);
    assert(trimmed_start(t) == trimmed_start(rest));
    assert(words(t) == words(rest));
    let e = Seq::<char>::empty();
    assert(trimmed_start(e) == e);
    if is_word(a) {
        let s = a + seq![c] + rest;
        assert(s =~= a + t);
        assert(s[0] == a[0]);
        assert(trimmed_start(s) == s);
        lemma_word_length_of_word(a, t);
        assert(s.take(a.len() as int) =~= a);
        assert(s.skip(a.len() as int) =~= t);
    }
}

/// Lowering keeps the length and every character but the capital letters, which become the
/// small letters in their places.
pub proof fn lowering_changes_capitals(s: Seq<char>, i: int)
    requires
        0 <= i < s.len(),
    ensures
        lowered(s).len() == s.len(),
        'A' <= s[i] <= 'Z' ==> lowered(s)[i] as int == s[i] as int + 32,
        !('A' <= s[i] <= 'Z') ==> lowered(s)[i] == s[i],
{
}

/// A decimal numeral is written digit by digit, most significant first, without leading zeros.
pub proof fn decimals_are_written_by_digits(n: nat, d: nat)
    requires
        d < 10,
    ensures
        decimal(d).len() == 1 && decimal(d)[0] as int == '0' as int + d,
        n > 0 ==> decimal(10 * n + d) == decimal(n) + decimal(d),
        n > 0 ==> decimal_int(-(n as int)) == seq!['-'] + decimal(n),
        decimal_int(n as int) == decimal(n),
{
    if n > 0 {
        let m = (10 * n + d) as nat;
        assert(m / 10 == n && m % 10 == d);
        assert(decimal(m) =~= decimal(n) + decimal(d));
    }
}

/// A number is read where a text is all digits, perhaps behind a plus sign, and within range;
/// zeros in front make no difference.
pub proof fn numbers_are_read_by_digits(s: Seq<char>, c: char)
    ensures
        parsed_u64(Seq::<char>::empty()) is None,
        s.len() > 0 && s[0] != '+' ==> parsed_u64(seq!['+'] + s) == parsed_u64(s),
        s.len() > 0 && all_digits(s) ==> parsed_u64(seq!['0'] + s) == parsed_u64(s),
        !('0' <= c <= '9') && (s.len() > 0 || c != '+') ==> parsed_u64(s.push(c)) is None,
{
    assert((seq!['+'] + s).drop_first() =~= s);
    if s.len() > 0 && all_digits(s) {
        let z = seq!['0'] + s;
        assert(z[0] == '0');
        assert forall|i: int| 0 <= i < z.len() implies '0' <= #[trigger] z[i] && z[i] <= '9' by {
            if i > 0 {
                assert(z[i] == s[i - 1]);
            }
        }
        lemma_leading_zero(s);
        assert(s[0] <= '9' && '0' <= s[0]);
    }
    if !('0' <= c <= '9') && (s.len() > 0 || c != '+') {
        let t = s.push(c);
        let u = if t[0] == '+' {
            t.drop_first()
        } else {
            t
        };
        assert(u[u.len() - 1] == c);
    }
}

proof fn lemma_leading_zero(s: Seq<char>)
    ensures
        digits_value(seq!['0'] + s) == digits_value(s),
    decreases s.len(),
{
    if s.len() == 0 {
        reveal_with_fuel(digits_value, 2);
        assert((seq!['0'] + s).drop_last() =~= Seq::<char>::empty());
    } else {
        lemma_leading_zero(s.drop_last());
        assert((seq!['0'] + s).drop_last() =~= seq!['0'] + s.drop_last());
    }
}

/// A prefix is what a text begins with, and what follows it is the rest; likewise a suffix.
pub proof fn prefixes_and_suffixes(p: Seq<char>, t: Seq<char>, s: Seq<char>)
    ensures
        has_prefix(p + t, p),
        after_prefix(p + t, p) == Some(t),
        has_suffix(t + p, p),
        has_prefix(s, p) ==> exists|r: Seq<char>| s == #[trigger] (p + r),
        has_suffix(s, p) ==> exists|r: Seq<char>| s == #[trigger] (r + p),
        after_prefix(s, p) matches Some(r) ==> s == p + r,
        after_prefix(s, p) is None ==> s != p + t,
        !has_suffix(s, p) ==> s != t + p,
{
    assert((p + t).take(p.len() as int) =~= p);
    assert((p + t).skip(p.len() as int) =~= t);
    assert((t + p).skip((t + p).len() - p.len()) =~= p);
    if has_prefix(s, p) {
        assert(s =~= p + s.skip(p.len() as int));
    }
    if has_suffix(s, p) {
        assert(s =~= s.take(s.len() - p.len()) + p);
    }
}

/// What is left without trailing characters does not end in one, and only such characters
/// were taken.
pub proof fn trailing_characters_go(s: Seq<char>, c: char)
    ensures
        without_trailing(s, c).len() <= s.len(),
        s.take(without_trailing(s, c).len() as int) == without_trailing(s, c),
        without_trailing(s, c).len() > 0 ==> without_trailing(s, c).last() != c,
        forall|i: int| without_trailing(s, c).len() <= i < s.len() ==> #[trigger] s[i] == c,
    decreases s.len(),
{
    let r = without_trailing(s, c);
    if s.len() > 0 && s.last() == c {
        trailing_characters_go(s.drop_last(), c);
        assert(s.take(r.len() as int) =~= s.drop_last().take(r.len() as int));
        assert forall|i: int| r.len() <= i < s.len() implies #[trigger] s[i] == c by {
            if i < s.len() - 1 {
                assert(s.drop_last()[i] == s[i]);
            }
        }
    } else {
        assert(s.take(s.len() as int) =~= s);
    }
}

/// A text that is split at a character is what stands before its first one and what stands
/// behind; without the character it is left whole.
pub proof fn splitting_takes_the_first(a: Seq<char>, c: char, b: Seq<char>)
    requires
        forall|i: int| 0 <= i < a.len() ==> #[trigger] a[i] != c,
    ensures
        before_char(a + seq![c] + b, c) == a,
        behind_char(a + seq![c] + b, c) == Some(b),
        before_char(a, c) == a,
        behind_char(a, c) is None,
{
    lemma_first_place(a, c, seq![c] + b);
    let s = a + seq![c] + b;
    assert(s =~= a + (seq![c] + b));
    assert(s.take(a.len() as int) =~= a);
    assert(s.skip(a.len() as int + 1) =~= b);
    lemma_first_place(a, c, Seq::empty());
    assert(a + Seq::<char>::empty() =~= a);
    assert(a.take(a.len() as int) =~= a);
}

proof fn lemma_first_place(a: Seq<char>, c: char, rest: Seq<char>)
    requires
        forall|i: int| 0 <= i < a.len() ==> #[trigger] a[i] != c,
        rest.len() == 0 || rest[0] == c,
    ensures
        first_index(a + rest, c) == a.len(),
    decreases a.len(),
{
    if a.len() == 0 {
        assert(a + rest =~= rest);
    } else {
        assert((a + rest)[0] == a[0]);
        assert((a + rest).drop_first() =~= a.drop_first() + rest);
        assert forall|i: int| 0 <= i < a.drop_first().len() implies #[trigger] a.drop_first()[i]
            != c by {
            assert(a.drop_first()[i] == a[i + 1]);
        }
        lemma_first_place(a.drop_first(), c, rest);
    }
}

/// A text's lines are what stands between line feeds: the first line ends at the first line
/// feed, without a carriage return before it, and the others follow. A last line needs none.
pub proof fn lines_end_at_line_feeds(l: Seq<char>, rest: Seq<char>)
    requires
        forall|i: int| 0 <= i < l.len() ==> #[trigger] l[i] != '\n',
    ensures
        text_lines(Seq::<char>::empty()).len() == 0,
        l.len() > 0 ==> text_lines(l) == seq![l],
        l.len() == 0 || l.last() != '\r' ==> text_lines(l + seq!['\n'] + rest) == seq![l]
            + text_lines(rest),
        text_lines(l + seq!['\r'] + seq!['\n'] + rest) == seq![l] + text_lines(rest),
{
    lemma_first_place(l, '\n', Seq::empty());
    assert(l + Seq::<char>::empty() =~= l);
    let s = l + seq!['\n'] + rest;
    lemma_first_place(l, '\n', seq!['\n'] + rest);
    assert(s =~= l + (seq!['\n'] + rest));
    assert(s.take(l.len() as int) =~= l);
    assert(s.skip(l.len() as int + 1) =~= rest);
    let m = l + seq!['\r'];
    let t = l + seq!['\r'] + seq!['\n'] + rest;
    assert forall|i: int| 0 <= i < m.len() implies #[trigger] m[i] != '\n' by {
        if i < l.len() {
            assert(m[i] == l[i]);
        }
    }
    lemma_first_place(m, '\n', seq!['\n'] + rest);
    assert(t =~= m + (seq!['\n'] + rest));
    assert(t.take(m.len() as int) =~= m);
    assert(t.skip(m.len() as int + 1) =~= rest);
    assert(m.drop_last() =~= l);
}

/// Joining puts the separator between neighbours and nowhere else.
pub proof fn joining_separates_neighbours(list: Seq<Seq<char>>, x: Seq<char>, sep: Seq<char>)
    ensures
        joined(Seq::empty(), sep).len() == 0,
        joined(seq![x], sep) == x,
        list.len() > 0 ==> joined(list.push(x), sep) == joined(list, sep) + sep + x,
{
    assert(list.push(x).drop_last() =~= list);
}

proof fn lemma_encoding_concat(a: Seq<char>, b: Seq<char>)
    ensures
        encode_utf8(a + b) == encode_utf8(a) + encode_utf8(b),
    decreases a.len(),
{
    if a.len() == 0 {
        assert(a + b =~= b);
        assert(encode_utf8(a) + encode_utf8(b) =~= encode_utf8(b));
    } else {
        assert((a + b)[0] == a[0]);
        assert((a + b).drop_first() =~= a.drop_first() + b);
        lemma_encoding_concat(a.drop_first(), b);
        assert(encode_utf8(a + b) =~= encode_utf8(a) + encode_utf8(b));
    }
}

/// Bytes add up over a text, an ASCII character takes one, and what is cut off behind the
/// bytes of a beginning is that beginning.
pub proof fn bytes_add_up(a: Seq<char>, b: Seq<char>, c: char)
    ensures
        byte_count(a + b) == byte_count(a) + byte_count(b),
        byte_count(Seq::<char>::empty()) == 0,
        '\0' <= c <= '~' ==> byte_count(seq![c]) == 1,
        byte_prefix(a + b, byte_count(a) as int) == a,
{
    lemma_encoding_concat(a, b);
    if '\0' <= c <= '~' {
        is_ascii_chars_encode_utf8(seq![c]);
    }
    assert(encode_utf8(a + b).take(byte_count(a) as int) =~= encode_utf8(a));
    encode_utf8_decode_utf8(a);
}

/// Lists of strings, and strings that may be missing, are taken by their contents.
pub proof fn contents_are_kept(s: Seq<String>, i: int, o: Option<String>, p: Option<&str>)
    ensures
        strs(s).len() == s.len(),
        0 <= i < s.len() ==> strs(s)[i] == s[i]@,
        opt_str(o) is Some <==> o is Some,
        o matches Some(t) ==> opt_str(o) == Some(t@),
        opt_slice(p) is Some <==> p is Some,
        p matches Some(t) ==> opt_slice(p) == Some(t@),
{
}

/// The value of a hexadecimal digit.
pub open spec fn hex_digit(c: char) -> int {
    if '0' <= c <= '9' {
        c as int - '0' as int
    } else {
        c as int - 'a' as int + 10
    }
}

/// The number that a hexadecimal numeral denotes.
pub open spec fn hex_value(s: Seq<char>) -> int
    decreases s.len(),
{
    if s.len() == 0 {
        0
    } else {
        hex_value(s.drop_last()) * 16 + hex_digit(s.last())
    }
}

/// Sixteen to a power.
pub open spec fn sixteen_to(k: nat) -> nat
    decreases k,
{
    if k == 0 {
        1
    } else {
        16 * sixteen_to((k - 1) as nat)
    }
}

proof fn lemma_hex_numeral(n: nat)
    ensures
        numeral(n, 16).len() > 0,
        hex_value(numeral(n, 16)) == n,
    decreases n,
{
    reveal_with_fuel(hex_value, 2);
    if n < 16 {
        assert(numeral(n, 16).drop_last() =~= Seq::<char>::empty());
    } else {
        lemma_hex_numeral(n / 16);
        assert(numeral(n, 16).drop_last() =~= numeral(n / 16, 16));
    }
}

proof fn lemma_hex_length(n: nat, width: nat)
    requires
        width > 0,
        n < sixteen_to(width),
    ensures
        numeral(n, 16).len() <= width,
    decreases n,
{
    if n >= 16 {
        if width == 1 {
            reveal_with_fuel(sixteen_to, 2);
        }
        assert(sixteen_to(width) == 16 * sixteen_to((width - 1) as nat));
        lemma_hex_length(n / 16, (width - 1) as nat);
    }
}

proof fn lemma_hex_zeros(k: nat, h: Seq<char>)
    ensures
        hex_value(Seq::new(k, |i: int| '0') + h) == hex_value(h),
    decreases h.len(), k,
{
    let z = Seq::new(k, |i: int| '0');
    if h.len() > 0 {
        assert((z + h).drop_last() =~= z + h.drop_last());
        lemma_hex_zeros(k, h.drop_last());
    } else if k > 0 {
        let y = Seq::new((k - 1) as nat, |i: int| '0');
        assert((z + h).drop_last() =~= y + h);
        lemma_hex_zeros((k - 1) as nat, h);
        assert(h =~= Seq::<char>::empty());
    } else {
        assert(z + h =~= h);
    }
}

/// A padded hexadecimal numeral reads back as its number.
pub proof fn hex_reads_back(n: nat, width: nat)
    ensures
        hex_value(hex_padded(n, width)) == n,
{
    lemma_hex_numeral(n);
    let h = numeral(n, 16);
    if h.len() < width {
        lemma_hex_zeros((width - h.len()) as nat, h);
    }
}

/// A padded hexadecimal numeral has exactly its width where the number fits.
pub proof fn hex_has_its_width(n: nat, width: nat)
    requires
        width == 4 && n < 0x1_0000 || width == 12 && n < 0x1_0000_0000_0000 || width == 16 && n
            < 0x1_0000_0000_0000_0000,
    ensures
        hex_padded(n, width).len() == width,
{
    reveal_with_fuel(sixteen_to, 17);
    lemma_hex_length(n, width);
}

/// A text can be cut exactly where a beginning of it ends: between two characters, or at either
/// end.
pub proof fn cuts_fall_between_characters(s: Seq<char>, n: int)
    requires
        0 <= n,
    ensures
        cuttable(s, n) <==> exists|p: Seq<char>, r: Seq<char>|
            s == #[trigger] (p + r) && byte_count(p) == n,
{
    let bytes = encode_utf8(s);
    encode_utf8_valid_utf8(s);
    if cuttable(s, n) {
        valid_utf8_split(bytes, n);
        decode_utf8_split(bytes, n);
        encode_utf8_decode_utf8(s);
        let p = decode_utf8(bytes.subrange(0, n));
        let r = decode_utf8(bytes.subrange(n, bytes.len() as int));
        decode_utf8_encode_utf8(bytes.subrange(0, n));
        assert(s == p + r);
        assert(byte_count(p) == n);
    }
    if exists|p: Seq<char>, r: Seq<char>| s == #[trigger] (p + r) && byte_count(p) == n {
        let (p, r) = choose|p: Seq<char>, r: Seq<char>|
            s == #[trigger] (p + r) && byte_count(p) == n;
        lemma_encoding_concat(p, r);
        let tail = encode_utf8(r);
        encode_utf8_valid_utf8(r);
        if tail.len() == 0 {
            is_char_boundary_start_end_of_seq(bytes);
        } else {
            is_char_boundary_start_end_of_seq(tail);
            is_char_boundary_iff_not_is_continuation_byte(tail, 0);
            assert(bytes[n] == tail[0]);
            is_char_boundary_iff_not_is_continuation_byte(bytes, n);
        }
    }
}

/// Of the control characters tab, line feed, vertical tab, form feed and carriage return are
/// whitespace; of the rest the blank, the next-line character, the no-break space, and the
/// typographic spaces and separators.
pub proof fn whitespace_is_listed(c: char)
    ensures
        c < ' ' ==> (white_space(c) <==> '\t' <= c <= '\r'),
        ' ' <= c < '\u{1680}' ==> (white_space(c) <==> c == ' ' || c == '\u{85}' || c == '\u{a0}'),
        '\u{1680}' <= c < '\u{2000}' ==> (white_space(c) <==> c == '\u{1680}'),
        '\u{2000}' <= c < '\u{2100}' ==> (white_space(c) <==> c <= '\u{200a}' || c == '\u{2028}' || c
            == '\u{2029}' || c == '\u{202f}' || c == '\u{205f}'),
        '\u{2100}' <= c ==> (white_space(c) <==> c == '\u{3000}'),
{
}

} // verus!
