//! Text helpers: decimal numbers, word splitting, substring search, ordering.
use vstd::prelude::*;
use vstd::string::*;

verus! {

// ---------------------------------------------------------------------------
// Lowercase
// ---------------------------------------------------------------------------

/// The lowercase equivalent of a text, as `str::to_lowercase` computes it.
pub uninterp spec fn lowercased(s: Seq<char>) -> Seq<char>;

/// An ASCII character with `A`..`Z` mapped to `a`..`z`.
pub open spec fn ascii_lower(c: char) -> char {
    if 'A' <= c && c <= 'Z' {
        (c as u32 + 32) as char
    } else {
        c
    }
}

/// Every character of the text is ASCII.
pub open spec fn all_ascii(s: Seq<char>) -> bool {
    forall|i: int| 0 <= i < s.len() ==> (#[trigger] s[i] as u32) < 128
}

/// `str::to_lowercase`: the Unicode lowercase of a text, which depends on the
/// text alone. For a text that is wholly ASCII the result is the text with
/// `A`..`Z` mapped to `a`..`z`; of other texts nothing more is claimed.
#[verifier::external_body]
pub(crate) fn to_lowercase(s: &str) -> (r: String)
    ensures
        r@ == lowercased(s@),
        all_ascii(s@) ==> r@ == s@.map_values(|c: char| ascii_lower(c)),
{
    s.to_lowercase()
}

// ---------------------------------------------------------------------------
// Equality and copies
// ---------------------------------------------------------------------------

/// Whether two texts are the same.
pub fn str_eq(a: &str, b: &str) -> (r: bool)
    ensures
        r == (a@ == b@),
{
    a.to_owned() == b.to_owned()
}

/// The view of an optional text.
pub open spec fn opt_view(s: Option<String>) -> Option<Seq<char>> {
    match s {
        Some(t) => Some(t@),
        None => None,
    }
}

/// A copy of an optional text.
pub fn clone_opt(s: &Option<String>) -> (r: Option<String>)
    ensures
        opt_view(r) == opt_view(*s),
{
    match s {
        Some(t) => Some(t.clone()),
        None => None,
    }
}

/// The views of a list of texts.
pub open spec fn texts(v: Seq<String>) -> Seq<Seq<char>> {
    v.map_values(|s: String| s@)
}

/// `a` followed by `b`.
pub fn concat(a: &str, b: &str) -> (r: String)
    ensures
        r@ == a@ + b@,
{
    let mut s = a.to_owned();
    s.append(b);
    s
}

/// The characters of a text.
pub fn chars_of(s: &str) -> (v: Vec<char>)
    ensures
        v@ == s@,
{
    let mut v: Vec<char> = Vec::new();
    let n: usize = s.unicode_len();
    let mut i: usize = 0;
    while i < n
        invariant
            n == s@.len(),
            i <= n,
            v@ == s@.take(i as int),
        decreases n - i,
    {
        v.push(s.get_char(i));
        i = i + 1;
        assert(s@.take(i as int) =~= s@.take(i - 1).push(s@[i - 1]));
    }
    assert(s@.take(n as int) =~= s@);
    v
}

// ---------------------------------------------------------------------------
// Debug form of an optional text
// ---------------------------------------------------------------------------

/// An optional text as the `{:?}` formatter writes it.
pub uninterp spec fn debug_form(s: Option<Seq<char>>) -> Seq<char>;

/// `format!("{:?}", ..)` of an optional text: `Some(..)` or `None` with the
/// text quoted and escaped, which depends on the value alone.
#[verifier::external_body]
pub(crate) fn debug_opt(s: &Option<String>) -> (r: String)
    ensures
        r@ == debug_form(opt_view(*s)),
{
    format!("{:?}", s)
}

// ---------------------------------------------------------------------------
// Decimal numbers
// ---------------------------------------------------------------------------

/// The decimal digit `d`.
pub open spec fn digit_char(d: nat) -> char
    recommends
        d < 10,
{
    ('0' as u32 + d) as char
}

/// The decimal form of `n`, without leading zeros.
pub open spec fn decimal(n: nat) -> Seq<char>
    decreases n,
{
    if n < 10 {
        seq![digit_char(n)]
    } else {
        decimal(n / 10).push(digit_char(n % 10))
    }
}

fn digit_str(d: u64) -> (r: &'static str)
    requires
        d < 10,
    ensures
        r@ == seq![digit_char(d as nat)],
{
    proof {
        reveal_strlit("0");
        reveal_strlit("1");
        reveal_strlit("2");
        reveal_strlit("3");
        reveal_strlit("4");
        reveal_strlit("5");
        reveal_strlit("6");
        reveal_strlit("7");
        reveal_strlit("8");
        reveal_strlit("9");
    }
    if d == 0 {
        "0"
    } else if d == 1 {
        "1"
    } else if d == 2 {
        "2"
    } else if d == 3 {
        "3"
    } else if d == 4 {
        "4"
    } else if d == 5 {
        "5"
    } else if d == 6 {
        "6"
    } else if d == 7 {
        "7"
    } else if d == 8 {
        "8"
    } else {
        "9"
    }
}

/// The decimal form of `n`.
pub fn decimal_string(n: u64) -> (r: String)
    ensures
        r@ == decimal(n as nat),
    decreases n,
{
    if n < 10 {
        digit_str(n).to_owned()
    } else {
        let mut s = decimal_string(n / 10);
        s.append(digit_str(n % 10));
        assert(s@ =~= decimal((n / 10) as nat).push(digit_char((n % 10) as nat)));
        s
    }
}

/// `prefix` followed by the decimal form of `n`.
pub fn labelled(prefix: &str, n: u64) -> (r: String)
    ensures
        r@ == prefix@ + decimal(n as nat),
{
    concat(prefix, decimal_string(n).as_str())
}

/// A signed number in decimal, with a minus sign where it is negative.
pub open spec fn signed_decimal(n: int) -> Seq<char> {
    if n < 0 {
        "-"@ + decimal((-n) as nat)
    } else {
        decimal(n as nat)
    }
}

/// Writes a signed number in decimal.
pub fn signed_decimal_string(n: i32) -> (r: String)
    ensures
        r@ == signed_decimal(n as int),
{
    if n < 0 {
        labelled("-", (-(n as i64)) as u64)
    } else {
        decimal_string(n as u64)
    }
}

proof fn lemma_decimal_nonempty(n: nat)
    ensures
        decimal(n).len() > 0,
        n >= 10 ==> decimal(n).len() > 1,
    decreases n,
{
    if n >= 10 {
        lemma_decimal_nonempty(n / 10);
    }
}

proof fn lemma_digit_char(d: nat)
    requires
        d < 10,
    ensures
        digit_char(d) as u32 == '0' as u32 + d,
{
}

/// Two numbers with the same decimal form are the same number.
pub proof fn law_decimal_injective(m: nat, n: nat)
    requires
        decimal(m) == decimal(n),
    ensures
        m == n,
    decreases m,
{
    lemma_decimal_nonempty(m);
    lemma_decimal_nonempty(n);
    if m < 10 {
        assert(decimal(m).len() == 1);
        assert(n < 10);
        assert(decimal(m)[0] == decimal(n)[0]);
        lemma_digit_char(m);
        lemma_digit_char(n);
        assert(decimal(m)[0] == digit_char(m));
        assert(decimal(n)[0] == digit_char(n));
        assert(m == n);
    } else {
        assert(decimal(n).len() > 1);
        assert(n >= 10);
        let a = decimal(m / 10);
        let b = decimal(n / 10);
        assert(decimal(m) == a.push(digit_char(m % 10)));
        assert(decimal(n) == b.push(digit_char(n % 10)));
        assert(a.push(digit_char(m % 10)).drop_last() =~= a);
        assert(b.push(digit_char(n % 10)).drop_last() =~= b);
        assert(a.push(digit_char(m % 10)).last() == digit_char(m % 10));
        assert(b.push(digit_char(n % 10)).last() == digit_char(n % 10));
        law_decimal_injective(m / 10, n / 10);
        lemma_digit_char(m % 10);
        lemma_digit_char(n % 10);
        assert(digit_char(m % 10) == digit_char(n % 10));
        assert(m % 10 == n % 10);
        assert(m / 10 == n / 10);
    }
}

/// Two labels with one prefix are equal only if their numbers are.
pub proof fn law_labels_distinct(prefix: Seq<char>, m: nat, n: nat)
    requires
        prefix + decimal(m) == prefix + decimal(n),
    ensures
        m == n,
{
    let a = prefix + decimal(m);
    let b = prefix + decimal(n);
    assert(a.skip(prefix.len() as int) =~= decimal(m));
    assert(b.skip(prefix.len() as int) =~= decimal(n));
    law_decimal_injective(m, n);
}

/// `c` is a decimal digit.
pub open spec fn is_digit(c: char) -> bool {
    '0' <= c && c <= '9'
}

/// The number that a text of digits denotes.
pub open spec fn digits_value(s: Seq<char>) -> nat
    decreases s.len(),
{
    if s.len() == 0 {
        0
    } else {
        digits_value(s.drop_last()) * 10 + (s.last() as u32 - '0' as u32) as nat
    }
}

/// The text with one leading plus sign removed.
pub open spec fn without_plus(s: Seq<char>) -> Seq<char> {
    if s.len() > 0 && s[0] == '+' {
        s.skip(1)
    } else {
        s
    }
}

/// The `u64` that a text denotes: an optional plus sign, then at least one
/// digit and nothing else, with a value that fits.
pub open spec fn parsed_u64(s: Seq<char>) -> Option<u64> {
    let d = without_plus(s);
    if d.len() > 0 && (forall|i: int| 0 <= i < d.len() ==> is_digit(#[trigger] d[i]))
        && digits_value(d) <= u64::MAX {
        Some(digits_value(d) as u64)
    } else {
        None
    }
}

proof fn lemma_digits_value_grows(s: Seq<char>, i: int)
    requires
        0 <= i <= s.len(),
        forall|j: int| 0 <= j < s.len() ==> is_digit(#[trigger] s[j]),
    ensures
        digits_value(s.take(i)) <= digits_value(s),
    decreases s.len() - i,
{
    if i < s.len() {
        lemma_digits_value_grows(s, i + 1);
        assert(s.take(i + 1).drop_last() =~= s.take(i));
    } else {
        assert(s.take(i) =~= s);
    }
}

/// Parses a `u64`.
pub fn parse_u64(s: &str) -> (r: Option<u64>)
    ensures
        r == parsed_u64(s@),
{
    let chars = chars_of(s);
    let start: usize = if chars.len() > 0 && chars[0] == '+' {
        1
    } else {
        0
    };
    let ghost d = without_plus(s@);
    proof {
        assert(d =~= s@.skip(start as int));
    }
    if start == chars.len() {
        return None;
    }
    let mut value: u64 = 0;
    let mut i: usize = start;
    while i < chars.len()
        invariant
            chars@ == s@,
            d == s@.skip(start as int),
            d == without_plus(s@),
            start <= i <= chars.len(),
            start < chars.len(),
            forall|j: int| 0 <= j < i - start ==> is_digit(#[trigger] d[j]),
            value == digits_value(d.take(i - start)),
        decreases chars.len() - i,
    {
        let c: char = chars[i];
        assert(c == d[i - start]);
        if c < '0' || c > '9' {
            return None;
        }
        let digit: u64 = (c as u32 - '0' as u32) as u64;
        let ghost next = d.take(i + 1 - start);
        proof {
            assert(next.drop_last() =~= d.take(i - start));
            assert(next.last() == c);
            assert(digits_value(next) == value * 10 + digit);
        }
        if value > u64::MAX / 10 || value * 10 > u64::MAX - digit {
            proof {
                if forall|j: int| 0 <= j < d.len() ==> is_digit(#[trigger] d[j]) {
                    lemma_digits_value_grows(d, i + 1 - start);
                }
            }
            return None;
        }
        value = value * 10 + digit;
        i = i + 1;
    }
    assert(d.take(i - start) =~= d);
    Some(value)
}

proof fn lemma_decimal_digits(n: nat)
    ensures
        decimal(n).len() > 0,
        forall|i: int| 0 <= i < decimal(n).len() ==> is_digit(#[trigger] decimal(n)[i]),
        digits_value(decimal(n)) == n,
    decreases n,
{
    if n < 10 {
        assert(decimal(n).drop_last() =~= Seq::<char>::empty());
        assert(digits_value(Seq::<char>::empty()) == 0);
        assert(decimal(n).last() == digit_char(n));
    } else {
        lemma_decimal_digits(n / 10);
        assert(decimal(n).drop_last() =~= decimal(n / 10));
        assert(decimal(n).last() == digit_char(n % 10));
    }
}

/// Parsing the decimal form of a number gives the number back.
pub proof fn law_parse_of_decimal(n: u64)
    ensures
        parsed_u64(decimal(n as nat)) == Some(n),
{
    lemma_decimal_digits(n as nat);
    assert(is_digit(decimal(n as nat)[0]));
    assert(without_plus(decimal(n as nat)) == decimal(n as nat));
}

// ---------------------------------------------------------------------------
// Words
// ---------------------------------------------------------------------------

/// The characters of the Unicode `White_Space` property.
pub open spec fn whitespace(c: char) -> bool {
    let u = c as u32;
    ||| 0x9 <= u <= 0xd
    ||| u == 0x20
    ||| u == 0x85
    ||| u == 0xa0
    ||| u == 0x1680
    ||| 0x2000 <= u <= 0x200a
    ||| u == 0x2028
    ||| u == 0x2029
    ||| u == 0x202f
    ||| u == 0x205f
    ||| u == 0x3000
}

/// Whether `c` has the Unicode `White_Space` property.
pub fn is_whitespace(c: char) -> (r: bool)
    ensures
        r == whitespace(c),
{
    let u: u32 = c as u32;
    (0x9 <= u && u <= 0xd) || u == 0x20 || u == 0x85 || u == 0xa0 || u == 0x1680 || (0x2000 <= u && u
        <= 0x200a) || u == 0x2028 || u == 0x2029 || u == 0x202f || u == 0x205f || u == 0x3000
}

/// The length of the longest prefix without whitespace.
pub open spec fn word_len(s: Seq<char>) -> nat
    decreases s.len(),
{
    if s.len() == 0 || whitespace(s[0]) {
        0
    } else {
        1 + word_len(s.skip(1))
    }
}

/// What `word_len` counts.
pub proof fn lemma_word_len(s: Seq<char>)
    ensures
        word_len(s) <= s.len(),
        forall|i: int| 0 <= i < word_len(s) ==> !whitespace(#[trigger] s[i]),
        word_len(s) < s.len() ==> whitespace(s[word_len(s) as int]),
    decreases s.len(),
{
    if s.len() == 0 || whitespace(s[0]) {
    } else {
        lemma_word_len(s.skip(1));
        assert forall|i: int| 0 <= i < word_len(s) implies !whitespace(#[trigger] s[i]) by {
            if i > 0 {
                assert(s[i] == s.skip(1)[i - 1]);
            }
        }
    }
}

proof fn lemma_word_len_is(s: Seq<char>, n: nat)
    requires
        n <= s.len(),
        forall|i: int| 0 <= i < n ==> !whitespace(#[trigger] s[i]),
        n < s.len() ==> whitespace(s[n as int]),
    ensures
        word_len(s) == n,
{
    lemma_word_len(s);
    if word_len(s) < n {
        assert(!whitespace(s[word_len(s) as int]));
    } else if word_len(s) > n {
        assert(!whitespace(s[n as int]));
    }
}

/// The maximal runs of non-whitespace of a text, in order.
pub open spec fn words(s: Seq<char>) -> Seq<Seq<char>>
    decreases s.len(),
{
    if s.len() == 0 {
        Seq::empty()
    } else if whitespace(s[0]) {
        words(s.skip(1))
    } else {
        proof {
            lemma_word_len(s);
        }
        seq![s.take(word_len(s) as int)] + words(s.skip(word_len(s) as int))
    }
}

/// Splits a text at whitespace.
pub fn split_words(s: &str) -> (r: Vec<String>)
    ensures
        texts(r@) == words(s@),
{
    let chars = chars_of(s);
    let n: usize = chars.len();
    let mut out: Vec<String> = Vec::new();
    let mut i: usize = 0;
    assert(s@.skip(0) =~= s@);
    assert(texts(out@) =~= Seq::<Seq<char>>::empty());
    while i < n
        invariant
            chars@ == s@,
            n == chars.len(),
            i <= n,
            texts(out@) + words(s@.skip(i as int)) == words(s@),
        decreases n - i,
    {
        let ghost rest = s@.skip(i as int);
        if is_whitespace(chars[i]) {
            i = i + 1;
            assert(rest.skip(1) =~= s@.skip(i as int));
        } else {
            let start: usize = i;
            while i < n && !is_whitespace(chars[i])
                invariant
                    chars@ == s@,
                    n == chars.len(),
                    start <= i <= n,
                    forall|j: int| start <= j < i ==> !whitespace(#[trigger] s@[j]),
                decreases n - i,
            {
                i = i + 1;
            }
            let word = s.substring_char(start, i).to_owned();
            proof {
                let len = (i - start) as nat;
                assert forall|j: int| 0 <= j < len implies !whitespace(#[trigger] rest[j]) by {
                    assert(rest[j] == s@[start + j]);
                }
                lemma_word_len_is(rest, len);
                assert(!whitespace(rest[0]));
                assert(rest.take(len as int) =~= word@);
                assert(rest.skip(len as int) =~= s@.skip(i as int));
            }
            let ghost before = texts(out@);
            out.push(word);
            assert(texts(out@) =~= before.push(word@));
            assert(before.push(word@) + words(s@.skip(i as int)) =~= before + (seq![word@] + words(
                s@.skip(i as int),
            )));
        }
    }
    assert(s@.skip(i as int).len() == 0);
    assert(texts(out@) + words(s@.skip(i as int)) =~= texts(out@));
    out
}

/// The texts of a list with one `sep` between neighbours.
pub open spec fn joined(list: Seq<Seq<char>>, sep: Seq<char>) -> Seq<char>
    decreases list.len(),
{
    if list.len() == 0 {
        Seq::empty()
    } else if list.len() == 1 {
        list[0]
    } else {
        joined(list.drop_last(), sep) + sep + list.last()
    }
}

/// Joins a list of texts with `sep` between neighbours.
pub fn join(list: &Vec<String>, sep: &str) -> (r: String)
    ensures
        r@ == joined(texts(list@), sep@),
{
    let mut out = String::new();
    let mut i: usize = 0;
    assert(texts(list@).take(0) =~= Seq::<Seq<char>>::empty());
    while i < list.len()
        invariant
            i <= list.len(),
            out@ == joined(texts(list@).take(i as int), sep@),
        decreases list.len() - i,
    {
        let ghost next = texts(list@).take(i + 1);
        if i > 0 {
            out.append(sep);
        }
        out.append(list[i].as_str());
        proof {
            assert(next.drop_last() =~= texts(list@).take(i as int));
            assert(next.last() == list@[i as int]@);
            if i == 0 {
                assert(out@ =~= next[0]);
            }
        }
        i = i + 1;
    }
    assert(texts(list@).take(i as int) =~= texts(list@));
    out
}

/// A text that is one word: not empty and without whitespace.
pub open spec fn is_word(s: Seq<char>) -> bool {
    s.len() > 0 && forall|i: int| 0 <= i < s.len() ==> !whitespace(#[trigger] s[i])
}

proof fn lemma_words_of_front(w: Seq<char>, rest: Seq<char>)
    requires
        is_word(w),
        rest.len() > 0 ==> whitespace(rest[0]),
    ensures
        words(w + rest) == seq![w] + words(rest),
{
    let s = w + rest;
    assert forall|i: int| 0 <= i < w.len() implies !whitespace(#[trigger] s[i]) by {
        assert(s[i] == w[i]);
    }
    lemma_word_len_is(s, w.len());
    assert(!whitespace(s[0])) by {
        assert(s[0] == w[0]);
    }
    assert(s.take(w.len() as int) =~= w);
    assert(s.skip(w.len() as int) =~= rest);
}

proof fn lemma_words_append(s: Seq<char>, w: Seq<char>)
    requires
        is_word(w),
    ensures
        words(s + seq![' '] + w) == words(s).push(w),
    decreases s.len(),
{
    let all = s + seq![' '] + w;
    if s.len() == 0 {
        assert(all.skip(1) =~= w);
        assert(w =~= w + Seq::<char>::empty());
        lemma_words_of_front(w, Seq::empty());
        assert(words(w) =~= seq![w]);
        assert(words(s).push(w) =~= seq![w]);
    } else if whitespace(s[0]) {
        lemma_words_append(s.skip(1), w);
        assert(all.skip(1) =~= s.skip(1) + seq![' '] + w);
    } else {
        let n = word_len(s) as int;
        lemma_word_len(s);
        let front = s.take(n);
        let tail = s.skip(n);
        assert forall|i: int| 0 <= i < front.len() implies !whitespace(#[trigger] front[i]) by {
            assert(front[i] == s[i]);
        }
        assert(is_word(front));
        lemma_words_append(tail, w);
        assert(all =~= front + (tail + seq![' '] + w));
        assert((tail + seq![' '] + w)[0] == if tail.len() > 0 {
            s[n]
        } else {
            ' '
        });
        lemma_words_of_front(front, tail + seq![' '] + w);
        assert(seq![front] + words(tail).push(w) =~= (seq![front] + words(tail)).push(w));
    }
}

/// Words joined with single spaces split back into the same words.
pub proof fn law_words_of_joined(list: Seq<Seq<char>>)
    requires
        forall|i: int| 0 <= i < list.len() ==> is_word(#[trigger] list[i]),
    ensures
        words(joined(list, seq![' '])) == list,
    decreases list.len(),
{
    if list.len() == 0 {
        assert(words(joined(list, seq![' '])) =~= list);
    } else if list.len() == 1 {
        assert(list[0] =~= list[0] + Seq::<char>::empty());
        lemma_words_of_front(list[0], Seq::empty());
        assert(words(list[0]) =~= list);
    } else {
        assert forall|i: int| 0 <= i < list.drop_last().len() implies is_word(
            #[trigger] list.drop_last()[i],
        ) by {
            assert(list.drop_last()[i] == list[i]);
        }
        law_words_of_joined(list.drop_last());
        assert(is_word(list.last()));
        lemma_words_append(joined(list.drop_last(), seq![' ']), list.last());
        assert(list.drop_last().push(list.last()) =~= list);
    }
}

// ---------------------------------------------------------------------------
// Search
// ---------------------------------------------------------------------------

/// `needle` stands in `s` at index `i`.
pub open spec fn occurs_at(s: Seq<char>, needle: Seq<char>, i: int) -> bool {
    0 <= i && i + needle.len() <= s.len() && s.subrange(i, i + needle.len()) == needle
}

/// `needle` stands somewhere in `s`.
pub open spec fn contains_text(s: Seq<char>, needle: Seq<char>) -> bool {
    exists|i: int| #[trigger] occurs_at(s, needle, i)
}

/// Whether `needle` stands somewhere in `s`.
pub fn contains(s: &str, needle: &str) -> (r: bool)
    ensures
        r == contains_text(s@, needle@),
{
    let a = chars_of(s);
    let b = chars_of(needle);
    if b.len() > a.len() {
        return false;
    }
    let last: usize = a.len() - b.len();
    let mut i: usize = 0;
    while i <= last
        invariant
            a@ == s@,
            b@ == needle@,
            last + b.len() == a.len(),
            i <= last + 1,
            forall|k: int| 0 <= k < i ==> !occurs_at(s@, needle@, k),
        decreases last + 1 - i,
    {
        let mut j: usize = 0;
        while j < b.len() && a[i + j] == b[j]
            invariant
                a@ == s@,
                b@ == needle@,
                i <= last,
                last + b.len() == a.len(),
                j <= b.len(),
                forall|k: int| 0 <= k < j ==> a@[i + k] == #[trigger] b@[k],
            decreases b.len() - j,
        {
            j = j + 1;
        }
        if j == b.len() {
            proof {
                assert(s@.subrange(i as int, i + needle@.len()) =~= needle@);
                assert(occurs_at(s@, needle@, i as int));
            }
            return true;
        }
        proof {
            assert(s@.subrange(i as int, i + needle@.len())[j as int] == a@[i + j]);
        }
        if i == last {
            return false;
        }
        i = i + 1;
    }
    false
}

// ---------------------------------------------------------------------------
// Order
// ---------------------------------------------------------------------------

/// `a` comes strictly before `b` in the lexicographic order of code points.
pub open spec fn text_lt(a: Seq<char>, b: Seq<char>) -> bool
    decreases a.len(),
{
    if b.len() == 0 {
        false
    } else if a.len() == 0 {
        true
    } else if a[0] == b[0] {
        text_lt(a.skip(1), b.skip(1))
    } else {
        a[0] < b[0]
    }
}

/// Whether `a` comes strictly before `b`.
pub fn str_lt(a: &str, b: &str) -> (r: bool)
    ensures
        r == text_lt(a@, b@),
{
    let x = chars_of(a);
    let y = chars_of(b);
    let mut i: usize = 0;
    assert(a@.skip(0) =~= a@);
    assert(b@.skip(0) =~= b@);
    while i < x.len() && i < y.len() && x[i] == y[i]
        invariant
            x@ == a@,
            y@ == b@,
            i <= x.len(),
            i <= y.len(),
            text_lt(a@, b@) == text_lt(a@.skip(i as int), b@.skip(i as int)),
        decreases x.len() - i,
    {
        assert(a@.skip(i as int).skip(1) =~= a@.skip(i + 1));
        assert(b@.skip(i as int).skip(1) =~= b@.skip(i + 1));
        i = i + 1;
    }
    if i == y.len() {
        false
    } else if i == x.len() {
        true
    } else {
        x[i] < y[i]
    }
}

/// The order of texts is transitive.
pub proof fn lemma_text_lt_transitive(a: Seq<char>, b: Seq<char>, c: Seq<char>)
    requires
        text_lt(a, b),
        text_lt(b, c),
    ensures
        text_lt(a, c),
    decreases a.len(),
{
    if a.len() > 0 && b.len() > 0 && c.len() > 0 && a[0] == b[0] && b[0] == c[0] {
        lemma_text_lt_transitive(a.skip(1), b.skip(1), c.skip(1));
    }
}

/// No text comes before itself.
pub proof fn lemma_text_lt_irreflexive(a: Seq<char>)
    ensures
        !text_lt(a, a),
    decreases a.len(),
{
    if a.len() > 0 {
        lemma_text_lt_irreflexive(a.skip(1));
    }
}

/// Two different texts are ordered one way or the other.
pub proof fn lemma_text_lt_total(a: Seq<char>, b: Seq<char>)
    ensures
        a == b || text_lt(a, b) || text_lt(b, a),
    decreases a.len(),
{
    if a.len() > 0 && b.len() > 0 {
        lemma_text_lt_total(a.skip(1), b.skip(1));
        if a[0] == b[0] {
            if a.skip(1) == b.skip(1) {
                assert(a =~= seq![a[0]] + a.skip(1));
                assert(b =~= seq![b[0]] + b.skip(1));
            }
        }
    } else if a.len() == 0 && b.len() == 0 {
        assert(a =~= b);
    }
}

// ---------------------------------------------------------------------------
// What the helpers amount to
// ---------------------------------------------------------------------------

/// A number is written digit by digit: one below ten as its digit, any other as
/// the number of its tens followed by the digit of what is left.
pub proof fn law_numbers_are_written_in_tens(n: u64, r: String, tens: String)
    requires
        call_ensures(decimal_string, (n,), r),
        call_ensures(decimal_string, ((n / 10) as u64,), tens),
    ensures
        r@.len() > 0,
        r@.last() as u32 == 48 + n % 10,
        n < 10 ==> r@.len() == 1,
        n >= 10 ==> r@.drop_last() == tens@,
{
    if n >= 10 {
        assert(r@.drop_last() =~= tens@);
    }
}

/// A signed number has a minus sign exactly where it is negative, and behind it
/// the number without its sign.
pub proof fn law_minus_sign_comes_first(n: i32, r: String, plain: String)
    requires
        call_ensures(signed_decimal_string, (n,), r),
        n >= 0 ==> call_ensures(decimal_string, (n as u64,), plain),
        n < 0 ==> call_ensures(decimal_string, ((-n) as u64,), plain),
    ensures
        n >= 0 ==> r@ == plain@,
        n < 0 ==> r@ == seq!['-'] + plain@,
{
    reveal_strlit("-");
    assert("-"@ =~= seq!['-']);
}

/// A number that is written reads back, with or without a plus sign; and a
/// label is its prefix followed by the number.
pub proof fn law_written_number_reads_back(
    n: u64,
    r: String,
    text: &str,
    parsed: Option<u64>,
    prefix: &str,
    label: String,
)
    requires
        call_ensures(decimal_string, (n,), r),
        text@ == r@ || text@ == seq!['+'] + r@,
        call_ensures(parse_u64, (text,), parsed),
        call_ensures(labelled, (prefix, n), label),
    ensures
        parsed == Some(n),
        label@ == prefix@ + r@,
{
    law_parse_of_decimal(n);
    lemma_decimal_digits(n as nat);
    assert(is_digit(decimal(n as nat)[0]));
    if text@ == seq!['+'] + r@ {
        assert(text@.skip(1) =~= r@);
    }
}

/// A text is read as a number digit by digit: with one digit more it is ten
/// times the number and that digit, where that fits, and no number where it
/// does not. A text with anything but digits behind its sign is none.
pub proof fn law_numbers_are_read_in_tens(
    text: &str,
    parsed: Option<u64>,
    longer: &str,
    more: Option<u64>,
    c: char,
)
    requires
        call_ensures(parse_u64, (text,), parsed),
        call_ensures(parse_u64, (longer,), more),
        longer@ == text@.push(c),
        text@.len() > 0,
    ensures
        parsed is Some && 48 <= c as u32 <= 57 && parsed->Some_0 * 10 + (c as u32 - 48) <= u64::MAX
            ==> more is Some && more->Some_0 == parsed->Some_0 * 10 + (c as u32 - 48),
        parsed is Some && 48 <= c as u32 <= 57 && parsed->Some_0 * 10 + (c as u32 - 48) > u64::MAX
            ==> more is None,
        !(48 <= c as u32 <= 57) ==> more is None,
{
    let d = without_plus(text@);
    let e = without_plus(longer@);
    assert(longer@[0] == text@[0]);
    assert(e =~= d.push(c));
    assert(e.drop_last() =~= d);
    assert(e[d.len() as int] == c);
    if parsed is Some {
        assert forall|i: int| 0 <= i < e.len() && is_digit(c) implies is_digit(#[trigger] e[i]) by {
            if i < d.len() {
                assert(e[i] == d[i]);
            }
        }
        assert(digits_value(e) == digits_value(d) * 10 + (c as u32 - '0' as u32) as nat);
    }
}

proof fn lemma_digit_by_number(c: char)
    ensures
        is_digit(c) <==> 48 <= c as u32 <= 57,
{
}

/// Nothing, or a sign alone, is no number; a digit is its own.
pub proof fn law_shortest_numbers(text: &str, parsed: Option<u64>)
    requires
        call_ensures(parse_u64, (text,), parsed),
    ensures
        text@.len() == 0 ==> parsed is None,
        text@.len() == 1 && 48 <= text@[0] as u32 <= 57 ==> parsed is Some && parsed->Some_0
            == text@[0] as u32 - 48,
        text@.len() == 1 && !(48 <= text@[0] as u32 <= 57) ==> parsed is None,
{
    let d = without_plus(text@);
    if text@.len() == 1 {
        lemma_digit_by_number(text@[0]);
    }
    if text@.len() == 1 && d.len() == 1 {
        assert(d.drop_last().len() == 0);
        assert(digits_value(d.drop_last()) == 0);
        assert(d == text@);
        assert(digits_value(d) == (d[0] as u32 - '0' as u32) as nat);
        if 48 <= d[0] as u32 <= 57 {
            lemma_digit_by_number(d[0]);
            assert(forall|i: int| 0 <= i < d.len() ==> is_digit(#[trigger] d[i]));
        }
    }
}

/// What stands between words: spaces, tabs and the ends of lines, and no letter
/// or digit.
pub proof fn law_letters_are_not_whitespace(c: char, r: bool)
    requires
        call_ensures(is_whitespace, (c,), r),
    ensures
        c == ' ' || c == '\t' || c == '\n' || c == '\r' ==> r,
        33 <= c as u32 <= 126 ==> !r,
{
}

/// Words, one behind the other.
pub open spec fn run_together(list: Seq<Seq<char>>) -> Seq<char>
    decreases list.len(),
{
    if list.len() == 0 {
        Seq::empty()
    } else {
        list[0] + run_together(list.skip(1))
    }
}

proof fn lemma_words_hold_all(s: Seq<char>)
    ensures
        forall|i: int| 0 <= i < words(s).len() ==> is_word(#[trigger] words(s)[i]),
        run_together(words(s)) == s.filter(|c: char| !whitespace(c)),
    decreases s.len(),
{
    let keep = |c: char| !whitespace(c);
    reveal(Seq::filter);
    if s.len() == 0 {
        assert(run_together(words(s)) =~= s.filter(keep));
    } else if whitespace(s[0]) {
        lemma_words_hold_all(s.skip(1));
        assert(s =~= seq![s[0]] + s.skip(1));
        Seq::filter_distributes_over_add(seq![s[0]], s.skip(1), keep);
        let one = seq![s[0]];
        assert(one.drop_last() =~= Seq::empty());
        assert(one.drop_last().filter(keep) =~= Seq::empty());
        assert(one.filter(keep) =~= Seq::empty());
        assert(one.filter(keep) + s.skip(1).filter(keep) =~= s.skip(1).filter(keep));
    } else {
        lemma_word_len(s);
        let n = word_len(s) as int;
        let front = s.take(n);
        let tail = s.skip(n);
        lemma_words_hold_all(tail);
        assert(s =~= front + tail);
        Seq::filter_distributes_over_add(front, tail, keep);
        assert forall|i: int| 0 <= i < front.len() implies !whitespace(#[trigger] front[i]) by {
            assert(front[i] == s[i]);
        }
        lemma_all_kept(front);
        let all = words(s);
        assert(all == seq![front] + words(tail));
        assert(all.skip(1) =~= words(tail));
        assert forall|i: int| 0 <= i < all.len() implies is_word(#[trigger] all[i]) by {
            if i > 0 {
                assert(all[i] == words(tail)[i - 1]);
            }
        }
    }
}

proof fn lemma_all_kept(s: Seq<char>)
    requires
        forall|i: int| 0 <= i < s.len() ==> !whitespace(#[trigger] s[i]),
    ensures
        s.filter(|c: char| !whitespace(c)) == s,
    decreases s.len(),
{
    reveal(Seq::filter);
    if s.len() > 0 {
        let rest = s.drop_last();
        assert forall|i: int| 0 <= i < rest.len() implies !whitespace(#[trigger] rest[i]) by {
            assert(rest[i] == s[i]);
        }
        lemma_all_kept(rest);
        assert(rest.push(s.last()) =~= s);
    } else {
        assert(s.filter(|c: char| !whitespace(c)) =~= s);
    }
}

/// Splitting a text loses nothing but the whitespace: no word is empty or holds
/// any, and the words run together are the text without it. Words that are
/// joined with single spaces split back into the same words.
pub proof fn law_splitting_loses_only_whitespace(
    s: &str,
    r: Vec<String>,
    i: int,
    sep: &str,
    phrase: String,
    text: &str,
    again: Vec<String>,
)
    requires
        call_ensures(split_words, (s,), r),
        0 <= i < r.len(),
        sep@ == seq![' '],
        call_ensures(join, (&r, sep), phrase),
        text@ == phrase@,
        call_ensures(split_words, (text,), again),
    ensures
        r@[i]@.len() > 0,
        forall|k: int| 0 <= k < r@[i]@.len() ==> !whitespace(#[trigger] r@[i]@[k]),
        run_together(texts(r@)) == s@.filter(|c: char| !whitespace(c)),
        texts(again@) == texts(r@),
{
    lemma_words_hold_all(s@);
    assert(texts(r@)[i] == r@[i]@);
    assert(is_word(words(s@)[i]));
    law_words_of_joined(texts(r@));
}

/// Joining puts the separator between neighbours only.
pub proof fn law_joining_puts_separators_between(
    list: Vec<String>,
    sep: &str,
    r: String,
    longer: Vec<String>,
    more: String,
)
    requires
        call_ensures(join, (&list, sep), r),
        call_ensures(join, (&longer, sep), more),
        longer.len() == list.len() + 1,
        forall|i: int| 0 <= i < list.len() ==> (#[trigger] longer@[i])@ == list@[i]@,
    ensures
        list.len() == 0 ==> r@.len() == 0 && more@ == longer@[0]@,
        list.len() > 0 ==> more@ == r@ + sep@ + longer@.last()@,
{
    let a = texts(list@);
    let b = texts(longer@);
    assert(b.drop_last() =~= a) by {
        assert forall|i: int| 0 <= i < a.len() implies b[i] == a[i] by {
            assert(longer@[i]@ == list@[i]@);
        }
    }
    assert(b.last() == longer@.last()@);
    assert(b[0] == longer@[0]@);
}

/// One text holds another exactly where it is what comes before it, it, and
/// what comes behind it.
pub proof fn law_contained_text_has_its_place(s: &str, needle: &str, r: bool)
    requires
        call_ensures(contains, (s, needle), r),
    ensures
        r <==> exists|a: Seq<char>, b: Seq<char>| s@ == #[trigger] (a + needle@ + b),
{
    if r {
        let i = choose|i: int| occurs_at(s@, needle@, i);
        let a = s@.take(i);
        let b = s@.skip(i + needle@.len());
        assert(s@ =~= a + needle@ + b) by {
            assert forall|k: int| 0 <= k < needle@.len() implies s@[i + k] == needle@[k] by {
                assert(s@.subrange(i, i + needle@.len())[k] == needle@[k]);
            }
        }
    }
    if exists|a: Seq<char>, b: Seq<char>| s@ == #[trigger] (a + needle@ + b) {
        let (a, b) = choose|a: Seq<char>, b: Seq<char>| s@ == #[trigger] (a + needle@ + b);
        assert(s@.subrange(a.len() as int, (a.len() + needle@.len()) as int) =~= needle@);
        assert(occurs_at(s@, needle@, a.len() as int));
    }
}

proof fn lemma_first_difference(a: Seq<char>, b: Seq<char>, k: int)
    requires
        0 <= k <= a.len(),
        k <= b.len(),
        forall|i: int| 0 <= i < k ==> a[i] == b[i],
    ensures
        k == a.len() && k < b.len() ==> text_lt(a, b),
        k == b.len() ==> !text_lt(a, b),
        k < a.len() && k < b.len() && a[k] < b[k] ==> text_lt(a, b),
        k < a.len() && k < b.len() && a[k] > b[k] ==> !text_lt(a, b),
    decreases k,
{
    if k > 0 {
        assert(a[0] == b[0]);
        let x = a.skip(1);
        let y = b.skip(1);
        assert forall|i: int| 0 <= i < k - 1 implies x[i] == y[i] by {
            assert(a[i + 1] == b[i + 1]);
        }
        lemma_first_difference(x, y, k - 1);
    }
}

/// Where two texts first differ the smaller character comes first, and a text
/// comes before a longer one that begins with it.
pub proof fn law_first_difference_decides(a: &str, b: &str, r: bool, k: int)
    requires
        call_ensures(str_lt, (a, b), r),
        0 <= k <= a@.len(),
        k <= b@.len(),
        forall|i: int| 0 <= i < k ==> a@[i] == b@[i],
    ensures
        k == a@.len() && k < b@.len() ==> r,
        k == b@.len() ==> !r,
        k < a@.len() && k < b@.len() && a@[k] < b@[k] ==> r,
        k < a@.len() && k < b@.len() && a@[k] > b@[k] ==> !r,
{
    lemma_first_difference(a@, b@, k);
}

/// Texts are the same where their characters are, one behind the other is both
/// in turn, and a copy is the same.
pub proof fn law_texts_are_their_characters(
    a: &str,
    b: &str,
    same: bool,
    both: String,
    kept: Option<String>,
    copy: Option<String>,
    chars: Vec<char>,
)
    requires
        call_ensures(str_eq, (a, b), same),
        call_ensures(concat, (a, b), both),
        call_ensures(clone_opt, (&kept,), copy),
        call_ensures(chars_of, (a,), chars),
    ensures
        same <==> a@ =~= b@,
        both@.len() == a@.len() + b@.len(),
        both@.take(a@.len() as int) == a@,
        both@.skip(a@.len() as int) == b@,
        copy is Some <==> kept is Some,
        kept is Some ==> copy->Some_0@ == kept->Some_0@,
        chars@ == a@,
{
    assert(both@.take(a@.len() as int) =~= a@);
    assert(both@.skip(a@.len() as int) =~= b@);
}

} // verus!
