//! Text as sequences of characters: trimming, words, decimal numbers, searching, joining.
//!
//! Commands, settings and replies are all plain text, so every other module states what it
//! reads and writes over the functions here.

use vstd::prelude::*;

verus! {

/// The characters with the Unicode property `White_Space`.
pub open spec fn is_white(c: char) -> bool {
    let n = c as u32;
    ||| 0x09 <= n <= 0x0d
    ||| n == 0x20
    ||| n == 0x85
    ||| n == 0xa0
    ||| n == 0x1680
    ||| 0x2000 <= n <= 0x200a
    ||| n == 0x2028
    ||| n == 0x2029
    ||| n == 0x202f
    ||| n == 0x205f
    ||| n == 0x3000
}

/// `s` without its leading white space.
pub open spec fn trim_start(s: Seq<char>) -> Seq<char>
    decreases s.len(),
{
    if s.len() > 0 && is_white(s[0]) {
        trim_start(s.skip(1))
    } else {
        s
    }
}

/// `s` without its trailing white space.
pub open spec fn trim_end(s: Seq<char>) -> Seq<char>
    decreases s.len(),
{
    if s.len() > 0 && is_white(s.last()) {
        trim_end(s.drop_last())
    } else {
        s
    }
}

/// `s` without the white space around it.
pub open spec fn trimmed(s: Seq<char>) -> Seq<char> {
    trim_end(trim_start(s))
}

/// How many characters `s` starts with before white space or its end.
pub open spec fn word_len(s: Seq<char>) -> nat
    decreases s.len(),
{
    if s.len() > 0 && !is_white(s[0]) {
        1 + word_len(s.skip(1))
    } else {
        0
    }
}

/// The maximal runs of characters other than white space, in order.
pub open spec fn words(s: Seq<char>) -> Seq<Seq<char>>
    decreases s.len(),
{
    if s.len() == 0 {
        Seq::empty()
    } else if is_white(s[0]) {
        words(s.skip(1))
    } else {
        proof {
            lemma_word_len(s);
        }
        seq![s.take(word_len(s) as int)] + words(s.skip(word_len(s) as int))
    }
}

/// A word is no longer than the text that it starts.
pub proof fn lemma_word_len(s: Seq<char>)
    ensures
        word_len(s) <= s.len(),
    decreases s.len(),
{
    if s.len() > 0 && !is_white(s[0]) {
        lemma_word_len(s.skip(1));
    }
}

proof fn lemma_word_len_before_white(s: Seq<char>)
    requires
        s.len() > 0,
        is_white(s.last()),
    ensures
        word_len(s) < s.len(),
        word_len(s.drop_last()) == word_len(s),
    decreases s.len(),
{
    if !is_white(s[0]) {
        lemma_word_len_before_white(s.skip(1));
        assert(s.drop_last().skip(1) == s.skip(1).drop_last());
    }
}

proof fn lemma_words_before_white(s: Seq<char>)
    requires
        s.len() > 0,
        is_white(s.last()),
    ensures
        words(s.drop_last()) == words(s),
    decreases s.len(),
{
    let shorter = s.drop_last();
    if is_white(s[0]) {
        if s.len() > 1 {
            lemma_words_before_white(s.skip(1));
            assert(shorter.skip(1) == s.skip(1).drop_last());
        } else {
            assert(s.skip(1) == shorter);
        }
    } else {
        lemma_word_len_before_white(s);
        let n = word_len(s) as int;
        assert(n > 0);
        lemma_words_before_white(s.skip(n));
        assert(shorter.skip(n) == s.skip(n).drop_last());
        assert(shorter.take(n) == s.take(n));
    }
}

proof fn lemma_words_of_trim_start(s: Seq<char>)
    ensures
        words(trim_start(s)) == words(s),
    decreases s.len(),
{
    if s.len() > 0 && is_white(s[0]) {
        lemma_words_of_trim_start(s.skip(1));
    }
}

proof fn lemma_words_of_trim_end(s: Seq<char>)
    ensures
        words(trim_end(s)) == words(s),
    decreases s.len(),
{
    if s.len() > 0 && is_white(s.last()) {
        lemma_words_of_trim_end(s.drop_last());
        lemma_words_before_white(s);
    }
}

/// Trimming takes away no word.
pub proof fn lemma_words_of_trimmed(s: Seq<char>)
    ensures
        words(trimmed(s)) == words(s),
{
    lemma_words_of_trim_start(s);
    lemma_words_of_trim_end(trim_start(s));
}

/// The decimal digit of a number below ten.
pub open spec fn digit(d: nat) -> char {
    ('0' as u32 + d) as char
}

/// The usual decimal form of a number: no sign, no leading zero.
pub open spec fn decimal(n: nat) -> Seq<char>
    decreases n,
{
    if n < 10 {
        seq![digit(n)]
    } else {
        decimal(n / 10).push(digit(n % 10))
    }
}

pub open spec fn is_digit(c: char) -> bool {
    '0' <= c <= '9'
}

/// The number that a run of decimal digits stands for.
pub open spec fn digits_value(s: Seq<char>) -> nat
    decreases s.len(),
{
    if s.len() == 0 {
        0
    } else {
        digits_value(s.drop_last()) * 10 + (s.last() as u32 - '0' as u32) as nat
    }
}

pub open spec fn all_digits(s: Seq<char>) -> bool {
    forall|i: int| 0 <= i < s.len() ==> is_digit(#[trigger] s[i])
}

/// `s` without the one `+` that may stand before a number.
pub open spec fn without_plus(s: Seq<char>) -> Seq<char> {
    if s.len() > 0 && s[0] == '+' {
        s.skip(1)
    } else {
        s
    }
}

/// The number that `s` spells: at least one decimal digit, with at most one `+` before.
pub open spec fn unsigned(s: Seq<char>) -> Option<nat> {
    if without_plus(s).len() > 0 && all_digits(without_plus(s)) {
        Some(digits_value(without_plus(s)))
    } else {
        None
    }
}

/// [`unsigned`], with numbers above `max` left out.
pub open spec fn unsigned_up_to(s: Seq<char>, max: nat) -> Option<nat> {
    match unsigned(s) {
        Some(n) => if n <= max {
            Some(n)
        } else {
            None
        },
        None => None,
    }
}

/// `part` occurs somewhere in `s`.
pub open spec fn has_part(s: Seq<char>, part: Seq<char>) -> bool {
    exists|i: int| #[trigger] occurs_at(s, part, i)
}

/// `part` stands in `s` from position `i` on.
pub open spec fn occurs_at(s: Seq<char>, part: Seq<char>, i: int) -> bool {
    0 <= i && i + part.len() <= s.len() && s.subrange(i, i + part.len()) == part
}

/// `s` holds no newline.
pub open spec fn one_line(s: Seq<char>) -> bool {
    !s.contains('\n')
}

/// The first `n` characters of `s` are no newlines.
pub open spec fn one_line_up_to(s: Seq<char>, n: nat) -> bool
    decreases n,
{
    n == 0 || (s[n - 1] != '\n' && one_line_up_to(s, (n - 1) as nat))
}

/// A text is one line when each of its characters, looked at in turn, is no newline.
pub proof fn lemma_one_line(s: Seq<char>)
    requires
        one_line_up_to(s, s.len()),
    ensures
        one_line(s),
{
    if s.contains('\n') {
        let i = choose|i: int| 0 <= i < s.len() && s[i] == '\n';
        lemma_one_line_at(s, s.len(), i);
    }
}

proof fn lemma_one_line_at(s: Seq<char>, n: nat, i: int)
    requires
        one_line_up_to(s, n),
        0 <= i < n,
    ensures
        s[i] != '\n',
    decreases n,
{
    if i < n - 1 {
        lemma_one_line_at(s, (n - 1) as nat, i);
    }
}

/// Two pieces of one line make one line.
pub proof fn lemma_one_line_sum(a: Seq<char>, b: Seq<char>)
    requires
        one_line(a),
        one_line(b),
    ensures
        one_line(a + b),
{
    if (a + b).contains('\n') {
        let i = choose|i: int| 0 <= i < (a + b).len() && (a + b)[i] == '\n';
        if i < a.len() {
            assert(a[i] == '\n');
        } else {
            assert(b[i - a.len()] == '\n');
        }
    }
}

/// A number is written on one line.
pub proof fn lemma_decimal_is_one_line(n: nat)
    ensures
        one_line(decimal(n)),
{
    lemma_decimal(n);
    if decimal(n).contains('\n') {
        let i = choose|i: int| 0 <= i < decimal(n).len() && decimal(n)[i] == '\n';
        assert(is_digit(decimal(n)[i]));
    }
}

/// The items one after the other, with `sep` between each two.
pub open spec fn joined(items: Seq<Seq<char>>, sep: Seq<char>) -> Seq<char>
    decreases items.len(),
{
    if items.len() == 0 {
        Seq::empty()
    } else if items.len() == 1 {
        items[0]
    } else {
        joined(items.drop_last(), sep) + sep + items.last()
    }
}

/// The texts of a sequence of strings.
pub open spec fn texts(items: Seq<String>) -> Seq<Seq<char>> {
    items.map_values(|s: String| s@)
}

/// The text of an optional string.
pub open spec fn opt_text(item: Option<String>) -> Option<Seq<char>> {
    match item {
        Some(s) => Some(s@),
        None => None,
    }
}

/// The text of an optional string slice.
pub open spec fn opt_str(item: Option<&str>) -> Option<Seq<char>> {
    match item {
        Some(s) => Some(s@),
        None => None,
    }
}

/// The form that `{:?}` gives a piece of text: in double quotes, with escapes.
pub uninterp spec fn quoted(s: Seq<char>) -> Seq<char>;

/// Formats `s` with `{:?}`, the `Debug` impl of `str`.
///
/// The contract claims that the result depends on the characters of `s` alone, and that it is
/// one line: a newline is among the characters that are escaped. Which others are escaped, and
/// how, is left to the standard library and not stated.
#[verifier::external_body]
pub(crate) fn debug_quoted(s: &str) -> (r: String)
    ensures
        r@ == quoted(s@),
        one_line(r@),
{
    format!("{:?}", s)
}

/// Whether the two texts are the same.
pub fn same_text(a: &str, b: &str) -> (r: bool)
    ensures
        r == (a@ == b@),
{
    a.to_owned() == b.to_owned()
}

/// The characters of `s`.
pub fn chars_of(s: &str) -> (r: Vec<char>)
    ensures
        r@ == s@,
{
    let mut r: Vec<char> = Vec::new();
    for c in it: s.chars()
        invariant
            it.seq() == s@,
            r@ == s@.take(it.index() as int),
    {
        r.push(c);
    }
    assert(s@.take(s@.len() as int) == s@);
    r
}

fn white(c: char) -> (r: bool)
    ensures
        r == is_white(c),
{
    let n: u32 = c as u32;
    (0x09 <= n && n <= 0x0d) || n == 0x20 || n == 0x85 || n == 0xa0 || n == 0x1680 || (0x2000 <= n
        && n <= 0x200a) || n == 0x2028 || n == 0x2029 || n == 0x202f || n == 0x205f || n == 0x3000
}

/// `s` without the white space around it.
pub fn trim<'a>(s: &'a str) -> (r: &'a str)
    ensures
        r@ == trimmed(s@),
{
    let chars = chars_of(s);
    let n: usize = chars.len();
    let mut start: usize = 0;
    assert(s@.skip(0) == s@);
    while start < n && white(chars[start])
        invariant
            start <= n,
            n == chars.len(),
            chars@ == s@,
            trim_start(s@) == trim_start(s@.skip(start as int)),
        decreases n - start,
    {
        assert(s@.skip(start as int).skip(1) == s@.skip(start + 1));
        start = start + 1;
    }
    let mut end: usize = n;
    assert(s@.subrange(start as int, n as int) == s@.skip(start as int));
    while end > start && white(chars[end - 1])
        invariant
            start <= end <= n,
            n == chars.len(),
            chars@ == s@,
            trimmed(s@) == trim_end(s@.subrange(start as int, end as int)),
        decreases end,
    {
        assert(s@.subrange(start as int, end as int).drop_last() == s@.subrange(
            start as int,
            end - 1,
        ));
        end = end - 1;
    }
    s.substring_char(start, end)
}

/// The words of `s`.
pub fn split_words(s: &str) -> (r: Vec<String>)
    ensures
        texts(r@) == words(s@),
{
    let chars = chars_of(s);
    let n: usize = chars.len();
    let mut r: Vec<String> = Vec::new();
    let mut i: usize = 0;
    assert(s@.skip(0) == s@);
    assert(texts(r@) + words(s@) == words(s@));
    while i < n
        invariant
            i <= n,
            n == chars.len(),
            chars@ == s@,
            words(s@) == texts(r@) + words(s@.skip(i as int)),
        decreases n - i,
    {
        if white(chars[i]) {
            assert(s@.skip(i as int).skip(1) == s@.skip(i + 1));
            i = i + 1;
        } else {
            let start: usize = i;
            let ghost rest = s@.skip(start as int);
            assert(rest.skip(0) == rest);
            while i < n && !white(chars[i])
                invariant
                    start <= i <= n,
                    n == chars.len(),
                    chars@ == s@,
                    rest == s@.skip(start as int),
                    word_len(rest) == (i - start) + word_len(rest.skip(i - start)),
                decreases n - i,
            {
                assert(rest.skip(i - start).skip(1) == rest.skip(i + 1 - start));
                i = i + 1;
            }
            assert(i > start) by {
                assert(rest.skip(0) == rest);
            }
            assert(word_len(rest) == i - start);
            let ghost before = r@;
            r.push(s.substring_char(start, i).to_owned());
            proof {
                let word = rest.take(i - start);
                assert(s@.subrange(start as int, i as int) == word);
                assert(texts(r@) == texts(before).push(word));
                assert(rest.skip(i - start) == s@.skip(i as int));
                assert(texts(before) + (seq![word] + words(s@.skip(i as int))) == texts(r@) + words(
                    s@.skip(i as int),
                ));
            }
        }
    }
    assert(s@.skip(n as int).len() == 0);
    assert(texts(r@) + Seq::<Seq<char>>::empty() == texts(r@));
    r
}

fn digit_text(d: u8) -> (r: &'static str)
    requires
        d < 10,
    ensures
        r@ == seq![digit(d as nat)],
{
    proof {
        reveal_strlit("0");
        reveal_strlit("1");
        reveal_strlit("2");
        reveal_strlit("3");
        reveal_strlit("4");
        reveal_strlit("5");
        reveal_strlit("6");
        reveal_strlit("7");
        reveal_strlit("8");
        reveal_strlit("9");
    }
    match d {
        0 => "0",
        1 => "1",
        2 => "2",
        3 => "3",
        4 => "4",
        5 => "5",
        6 => "6",
        7 => "7",
        8 => "8",
        _ => "9",
    }
}

/// The decimal form of `n`.
pub fn decimal_text(n: u128) -> (r: String)
    ensures
        r@ == decimal(n as nat),
    decreases n,
{
    let last = digit_text((n % 10) as u8);
    if n < 10 {
        last.to_owned()
    } else {
        let mut r = decimal_text(n / 10);
        r.append(last);
        assert(r@ == decimal(n as nat / 10).push(digit(n as nat % 10)));
        r
    }
}

/// Reads the number that `s` spells, if it is at most `max`.
pub fn parse_unsigned(s: &str, max: u64) -> (r: Option<u64>)
    ensures
        (match r {
            Some(n) => Some(n as nat),
            None => None,
        }) == unsigned_up_to(s@, max as nat),
{
    let chars = chars_of(s);
    let n: usize = chars.len();
    let from: usize = if n > 0 && chars[0] == '+' {
        1
    } else {
        0
    };
    let ghost body = without_plus(s@);
    assert(body == s@.skip(from as int));
    if from == n {
        return None;
    }
    let mut i: usize = from;
    let mut value: u64 = 0;
    let mut over: bool = false;
    while i < n
        invariant
            from <= i <= n,
            n == chars.len(),
            chars@ == s@,
            body == s@.skip(from as int),
            body.len() > 0,
            body == without_plus(s@),
            forall|j: int| 0 <= j < i - from ==> is_digit(#[trigger] body[j]),
            over ==> digits_value(body.take(i - from)) > max,
            !over ==> value == digits_value(body.take(i - from)) && value <= max,
        decreases n - i,
    {
        let c = chars[i];
        assert(body[i - from] == c);
        if !('0' <= c && c <= '9') {
            assert(!is_digit(body[i - from]));
            return None;
        }
        let d: u64 = (c as u32 - '0' as u32) as u64;
        assert(body.take(i + 1 - from).drop_last() == body.take(i - from));
        assert(body.take(i + 1 - from).last() == c);
        if !over {
            let wide: u128 = value as u128 * 10 + d as u128;
            if wide > max as u128 {
                over = true;
            } else {
                value = wide as u64;
            }
        }
        i = i + 1;
    }
    assert(body.take(n - from) == body);
    if over {
        None
    } else {
        Some(value)
    }
}

/// Whether `s` starts with `prefix`.
pub fn starts_with(s: &str, prefix: &str) -> (r: bool)
    ensures
        r == prefix@.is_prefix_of(s@),
{
    let a = chars_of(s);
    let b = chars_of(prefix);
    b.len() <= a.len() && matches_at(&a, &b, 0)
}

/// Whether `s` ends with `suffix`.
pub fn ends_with(s: &str, suffix: &str) -> (r: bool)
    ensures
        r == suffix@.is_suffix_of(s@),
{
    let a = chars_of(s);
    let b = chars_of(suffix);
    b.len() <= a.len() && matches_at(&a, &b, a.len() - b.len())
}

/// Whether `part` occurs in `s`.
pub fn contains(s: &str, part: &str) -> (r: bool)
    ensures
        r == has_part(s@, part@),
{
    let a = chars_of(s);
    let b = chars_of(part);
    if b.len() > a.len() {
        return false;
    }
    let mut i: usize = 0;
    while i <= a.len() - b.len()
        invariant
            a@ == s@,
            b@ == part@,
            b.len() <= a.len(),
            i <= a.len() - b.len() + 1,
            forall|j: int| 0 <= j < i ==> !occurs_at(s@, part@, j),
        decreases a.len() - i,
    {
        if matches_at(&a, &b, i) {
            assert(occurs_at(s@, part@, i as int));
            return true;
        }
        if i == a.len() - b.len() {
            return false;
        }
        i = i + 1;
    }
    false
}

fn matches_at(a: &Vec<char>, b: &Vec<char>, at: usize) -> (r: bool)
    requires
        at + b.len() <= a.len(),
    ensures
        r == (a@.subrange(at as int, at + b.len()) == b@),
{
    let mut i: usize = 0;
    while i < b.len()
        invariant
            i <= b.len(),
            at + b.len() <= a.len(),
            forall|j: int| 0 <= j < i ==> a@[at + j] == #[trigger] b@[j],
        decreases b.len() - i,
    {
        if a[at + i] != b[i] {
            assert(a@.subrange(at as int, at + b.len())[i as int] != b@[i as int]);
            return false;
        }
        i = i + 1;
    }
    assert(a@.subrange(at as int, at + b.len()) =~= b@);
    true
}

/// The items one after the other, with `sep` between each two.
pub fn join(items: &Vec<String>, sep: &str) -> (r: String)
    ensures
        r@ == joined(texts(items@), sep@),
{
    let mut r = String::new();
    let mut i: usize = 0;
    assert(texts(items@).take(0) == Seq::<Seq<char>>::empty());
    while i < items.len()
        invariant
            i <= items.len(),
            r@ == joined(texts(items@).take(i as int), sep@),
        decreases items.len() - i,
    {
        let ghost next = texts(items@).take(i + 1);
        assert(next.drop_last() == texts(items@).take(i as int));
        assert(next.last() == items@[i as int]@);
        if i > 0 {
            r.append(sep);
        }
        r.append(items[i].as_str());
        assert(i == 0 ==> r@ == next[0]);
        i = i + 1;
    }
    assert(texts(items@).take(i as int) == texts(items@));
    r
}

/// The decimal form can be read back: it spells the number that it was made from.
pub proof fn lemma_decimal_reads_back(n: nat)
    ensures
        all_digits(decimal(n)),
        unsigned(decimal(n)) == Some(n),
{
    lemma_decimal(n);
}

proof fn lemma_decimal(n: nat)
    ensures
        decimal(n).len() > 0,
        all_digits(decimal(n)),
        digits_value(decimal(n)) == n,
    decreases n,
{
    if n < 10 {
        reveal_with_fuel(digits_value, 2);
        assert(decimal(n).last() == digit(n));
    } else {
        lemma_decimal(n / 10);
        assert(decimal(n).drop_last() == decimal(n / 10));
        assert(decimal(n).last() == digit(n % 10));
    }
}

proof fn lemma_trim_start(s: Seq<char>) -> (i: int)
    ensures
        0 <= i <= s.len(),
        trim_start(s) == s.skip(i),
        forall|k: int| 0 <= k < i ==> is_white(#[trigger] s[k]),
        i < s.len() ==> !is_white(s[i]),
    decreases s.len(),
{
    if s.len() > 0 && is_white(s[0]) {
        let rest = s.skip(1);
        let i = lemma_trim_start(rest);
        assert(rest.skip(i) == s.skip(i + 1));
        assert forall|k: int| 0 <= k < i + 1 implies is_white(#[trigger] s[k]) by {
            if k > 0 {
                assert(rest[k - 1] == s[k]);
            }
        }
        i + 1
    } else {
        assert(s.skip(0) == s);
        0
    }
}

proof fn lemma_trim_end(s: Seq<char>) -> (j: int)
    ensures
        0 <= j <= s.len(),
        trim_end(s) == s.take(j),
        forall|k: int| j <= k < s.len() ==> is_white(#[trigger] s[k]),
        j > 0 ==> !is_white(s[j - 1]),
    decreases s.len(),
{
    if s.len() > 0 && is_white(s.last()) {
        let rest = s.drop_last();
        let j = lemma_trim_end(rest);
        assert(rest.take(j) == s.take(j));
        assert forall|k: int| j <= k < s.len() implies is_white(#[trigger] s[k]) by {
            if k < s.len() - 1 {
                assert(rest[k] == s[k]);
            }
        }
        j
    } else {
        assert(s.take(s.len() as int) == s);
        s.len() as int
    }
}

/// The text from `i` to `j` is what trimming leaves of `s`: around it is nothing but white space,
/// and it neither starts nor ends with any.
pub open spec fn is_core(s: Seq<char>, i: int, j: int) -> bool {
    &&& 0 <= i <= j <= s.len()
    &&& forall|k: int| 0 <= k < i || j <= k < s.len() ==> is_white(#[trigger] s[k])
    &&& i < j ==> !is_white(s[i]) && !is_white(s[j - 1])
}

/// Trimming takes away the white space around a text, all of it and nothing else.
pub proof fn law_trimming_takes_away_white_space_only(s: Seq<char>)
    ensures
        exists|i: int, j: int| #[trigger] is_core(s, i, j) && trimmed(s) == s.subrange(i, j),
{
    let i = lemma_trim_start(s);
    let rest = s.skip(i);
    let n = lemma_trim_end(rest);
    let j = i + n;
    assert(rest.take(n) == s.subrange(i, j));
    assert forall|k: int| 0 <= k < i || j <= k < s.len() implies is_white(#[trigger] s[k]) by {
        if k >= j {
            assert(rest[k - i] == s[k]);
        }
    }
    if i < j {
        assert(rest[0] == s[i] && rest[n - 1] == s[j - 1]);
    }
    assert(is_core(s, i, j));
}

proof fn lemma_word_len_of(w: Seq<char>, rest: Seq<char>)
    requires
        forall|k: int| 0 <= k < w.len() ==> !is_white(#[trigger] w[k]),
        rest.len() > 0 ==> is_white(rest[0]),
    ensures
        word_len(w + rest) == w.len(),
    decreases w.len(),
{
    let all = w + rest;
    if w.len() > 0 {
        assert(all.skip(1) == w.skip(1) + rest);
        assert forall|k: int| 0 <= k < w.skip(1).len() implies !is_white(
            #[trigger] w.skip(1)[k],
        ) by {
            assert(w.skip(1)[k] == w[k + 1]);
        }
        lemma_word_len_of(w.skip(1), rest);
        assert(all[0] == w[0]);
    } else {
        assert(all == rest);
    }
}

/// A text is split at its white space: leading white space is skipped, and a run of other
/// characters is a word, up to the white space that ends it or to the end of the text.
pub proof fn law_words_are_split_at_white_space(w: Seq<char>, c: char, rest: Seq<char>)
    requires
        is_white(c),
        forall|k: int| 0 <= k < w.len() ==> !is_white(#[trigger] w[k]),
    ensures
        words(Seq::empty()) == Seq::<Seq<char>>::empty(),
        words(seq![c] + rest) == words(rest),
        w.len() > 0 ==> words(w) == seq![w],
        w.len() > 0 ==> words(w + seq![c] + rest) == seq![w] + words(rest),
{
    assert((seq![c] + rest).skip(1) == rest);
    if w.len() > 0 {
        let n = w.len() as int;
        lemma_word_len_of(w, Seq::empty());
        assert(w + Seq::<char>::empty() == w);
        assert(w.take(n) == w);
        assert(w.skip(n) == Seq::<char>::empty());
        assert(word_len(w) == n);
        assert(words(w) == seq![w.take(n)] + words(w.skip(n)));
        assert(words(w) =~= seq![w]);
        let tail = seq![c] + rest;
        let all = w + seq![c] + rest;
        assert(all == w + tail);
        lemma_word_len_of(w, tail);
        assert(all.take(n) == w);
        assert(all.skip(n) == tail);
        assert(all[0] == w[0]);
    }
}

/// A number is spelled by decimal digits alone, at least one, with at most one plus sign before
/// them, and read by place value.
pub proof fn law_a_number_is_read_by_place_value(s: Seq<char>, c: char, n: nat)
    ensures
        s.len() > 0 && s[0] == '+' ==> (unsigned(s) is Some <==> s.len() > 1 && forall|i: int|
            1 <= i < s.len() ==> '0' <= #[trigger] s[i] && s[i] <= '9'),
        !(s.len() > 0 && s[0] == '+') ==> (unsigned(s) is Some <==> s.len() > 0 && forall|i: int|
            0 <= i < s.len() ==> '0' <= #[trigger] s[i] && s[i] <= '9'),
        '0' <= c && c <= '9' ==> unsigned(seq![c]) == Some((c as u32 - '0' as u32) as nat),
        '0' <= c && c <= '9' && unsigned(s) == Some(n) ==> unsigned(s.push(c)) == Some(
            (10 * n + (c as u32 - '0' as u32)) as nat,
        ),
        unsigned(s) == Some(n) && s[0] != '+' ==> unsigned(seq!['+'] + s) == Some(n),
{
    let body = without_plus(s);
    if s.len() > 0 && s[0] == '+' {
        assert forall|i: int| 1 <= i < s.len() && all_digits(body) implies '0' <= #[trigger] s[i]
            && s[i] <= '9' by {
            assert(is_digit(body[i - 1]));
        }
        if forall|i: int| 1 <= i < s.len() ==> '0' <= #[trigger] s[i] && s[i] <= '9' {
            assert forall|i: int| 0 <= i < body.len() implies is_digit(#[trigger] body[i]) by {
                assert(s[i + 1] == body[i]);
            }
        }
    } else if all_digits(s) {
        assert forall|i: int| 0 <= i < s.len() implies '0' <= #[trigger] s[i] && s[i] <= '9' by {
            assert(is_digit(s[i]));
        }
    }
    if '0' <= c && c <= '9' {
        let one = seq![c];
        assert(without_plus(one) == one);
        reveal_with_fuel(digits_value, 2);
        assert(all_digits(one));
        if unsigned(s) == Some(n) {
            let longer = s.push(c);
            assert(without_plus(longer) == body.push(c));
            assert(body.push(c).drop_last() == body);
            assert(all_digits(body.push(c)));
        }
    }
    if unsigned(s) == Some(n) && s[0] != '+' {
        assert((seq!['+'] + s).skip(1) == s);
    }
}

/// A bound leaves out the numbers above it and no others.
pub proof fn law_a_bound_leaves_out_what_is_above(s: Seq<char>, max: nat, n: nat)
    ensures
        unsigned_up_to(s, max) == Some(n) <==> unsigned(s) == Some(n) && n <= max,
{
}

/// The decimal form spells its number, in digits alone and without a leading zero.
pub proof fn law_decimal_is_the_shortest_spelling(n: nat)
    ensures
        unsigned(decimal(n)) == Some(n),
        forall|i: int|
            0 <= i < decimal(n).len() ==> '0' <= #[trigger] decimal(n)[i] && decimal(n)[i] <= '9',
        decimal(n).len() > 0,
        n > 0 ==> decimal(n)[0] != '0',
        n == 0 ==> decimal(n) == seq!['0'],
    decreases n,
{
    lemma_decimal_reads_back(n);
    lemma_decimal(n);
    assert forall|i: int| 0 <= i < decimal(n).len() implies '0' <= #[trigger] decimal(n)[i]
        && decimal(n)[i] <= '9' by {
        assert(is_digit(decimal(n)[i]));
    }
    if n >= 10 {
        law_decimal_is_the_shortest_spelling(n / 10);
    }
}

/// A part occurs in a text exactly when the text is made of something, the part, and something.
pub proof fn law_a_part_stands_between_two_others(s: Seq<char>, part: Seq<char>)
    ensures
        has_part(s, part) <==> exists|a: Seq<char>, b: Seq<char>| s == #[trigger] (a + part + b),
{
    if has_part(s, part) {
        let i = choose|i: int| #[trigger] occurs_at(s, part, i);
        let a = s.take(i);
        let b = s.skip(i + part.len());
        assert(s =~= a + part + b);
    }
    if exists|a: Seq<char>, b: Seq<char>| s == #[trigger] (a + part + b) {
        let (a, b) = choose|a: Seq<char>, b: Seq<char>| s == #[trigger] (a + part + b);
        assert(s.subrange(a.len() as int, (a.len() + part.len()) as int) =~= part);
        assert(occurs_at(s, part, a.len() as int));
    }
}

/// Joining puts the separator between each two items, and nowhere else.
pub proof fn law_joining_separates_each_two(items: Seq<Seq<char>>, item: Seq<char>, sep: Seq<char>)
    ensures
        joined(Seq::empty(), sep) == Seq::<char>::empty(),
        joined(seq![item], sep) == item,
        items.len() > 0 ==> joined(items.push(item), sep) == joined(items, sep) + sep + item,
{
    if items.len() > 0 {
        assert(items.push(item).drop_last() == items);
    }
}

/// The texts of strings are their characters, in order; a missing string has no text.
pub proof fn law_texts_are_the_characters(items: Seq<String>, one: String, slice: &str)
    ensures
        texts(items).len() == items.len(),
        forall|i: int| 0 <= i < items.len() ==> #[trigger] texts(items)[i] == items[i]@,
        opt_text(Some(one)) == Some(one@),
        opt_text(None) is None,
        opt_str(Some(slice)) == Some(slice@),
        opt_str(None) is None,
{
}

/// A text is one line when none of its characters is a newline.
pub proof fn law_one_line_holds_no_newline(s: Seq<char>)
    ensures
        one_line(s) <==> forall|i: int| 0 <= i < s.len() ==> #[trigger] s[i] != '\n',
{
    if forall|i: int| 0 <= i < s.len() ==> #[trigger] s[i] != '\n' {
        if s.contains('\n') {
            let i = choose|i: int| 0 <= i < s.len() && s[i] == '\n';
            assert(s[i] != '\n');
        }
    } else {
        let i = choose|i: int| 0 <= i < s.len() && !(#[trigger] s[i] != '\n');
        assert(s.contains(s[i]));
    }
}

}
