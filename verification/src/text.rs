//! Text as a sequence of characters: trimming, splitting, searching and
//! decimal numbers.

use vstd::prelude::*;

verus! {

/// The Unicode property `White_Space`.
pub open spec fn is_white(c: char) -> bool {
    let n = c as u32;
    ||| 0x9 <= n <= 0xd
    ||| n == 0x20
    ||| n == 0x85
    ||| n == 0xa0
    ||| n == 0x1680
    ||| 0x2000 <= n <= 0x200a
    ||| n == 0x2028
    ||| n == 0x2029
    ||| n == 0x202f
    ||| n == 0x205f
    ||| n == 0x3000
}

/// Text without its leading white space.
pub open spec fn trim_start_of(s: Seq<char>) -> Seq<char>
    decreases s.len(),
{
    if s.len() > 0 && is_white(s[0]) {
        trim_start_of(s.drop_first())
    } else {
        s
    }
}

/// Text without its trailing white space.
pub open spec fn trim_end_of(s: Seq<char>) -> Seq<char>
    decreases s.len(),
{
    if s.len() > 0 && is_white(s.last()) {
        trim_end_of(s.drop_last())
    } else {
        s
    }
}

/// Text without white space at either end.
pub open spec fn trim_of(s: Seq<char>) -> Seq<char> {
    trim_end_of(trim_start_of(s))
}

/// Where `c` first stands in `s`, or the length of `s` if it does not.
pub open spec fn find_of(s: Seq<char>, c: char) -> int
    decreases s.len(),
{
    if s.len() == 0 || s[0] == c {
        0
    } else {
        1 + find_of(s.drop_first(), c)
    }
}

/// The pieces of `s` between the separators `c`, empty ones included.
pub open spec fn split_of(s: Seq<char>, c: char) -> Seq<Seq<char>>
    decreases s.len(),
{
    let at = find_of(s, c);
    if 0 <= at < s.len() {
        seq![s.take(at)] + split_of(s.skip(at + 1), c)
    } else {
        seq![s]
    }
}

/// What follows the prefix `p` in `s`, if `s` starts with it.
pub open spec fn strip_prefix_of(s: Seq<char>, p: Seq<char>) -> Option<Seq<char>> {
    if p.is_prefix_of(s) {
        Some(s.skip(p.len() as int))
    } else {
        None
    }
}

/// Whether `part` stands somewhere in `s`.
pub open spec fn contains_of(s: Seq<char>, part: Seq<char>) -> bool {
    exists|i: int| 0 <= i <= s.len() - part.len() && #[trigger] s.subrange(i, i + part.len()) == part
}

/// The lines of `s`: a line ends with a line feed, which a carriage return may
/// precede, and the end of the last line may be missing.
pub open spec fn lines_of(s: Seq<char>) -> Seq<Seq<char>> {
    let pieces = split_of(s, '\n');
    let ended = pieces.drop_last().map_values(|line: Seq<char>| without_return(line));
    if pieces.last().len() == 0 {
        ended
    } else {
        ended.push(pieces.last())
    }
}

/// `line` without a carriage return at its end.
pub open spec fn without_return(line: Seq<char>) -> Seq<char> {
    if line.len() > 0 && line.last() == '\r' {
        line.drop_last()
    } else {
        line
    }
}

/// The decimal digits of `n`, without leading zeros.
pub open spec fn decimal_of(n: nat) -> Seq<char>
    decreases n,
{
    if n < 10 {
        seq![digit_char(n)]
    } else {
        decimal_of(n / 10).push(digit_char(n % 10))
    }
}

/// The digit of a number below ten.
pub open spec fn digit_char(d: nat) -> char {
    (48 + d) as char
}

pub open spec fn is_digit(c: char) -> bool {
    '0' <= c <= '9'
}

/// The number that a row of digits stands for.
pub open spec fn digits_value(s: Seq<char>) -> nat
    decreases s.len(),
{
    if s.len() == 0 {
        0
    } else {
        digits_value(s.drop_last()) * 10 + (s.last() as nat - 48) as nat
    }
}

/// The number up to `max` that `s` writes: at least one decimal digit, which a
/// plus sign may precede, and nothing else.
pub open spec fn number_of_text(s: Seq<char>, max: nat) -> Option<nat> {
    let digits = sign_stripped(s);
    if digits.len() > 0 && all_digits(digits) && digits_value(digits) <= max {
        Some(digits_value(digits))
    } else {
        None
    }
}

/// `s` without a plus sign at its start.
pub open spec fn sign_stripped(s: Seq<char>) -> Seq<char> {
    if s.len() > 0 && s[0] == '+' {
        s.drop_first()
    } else {
        s
    }
}

pub open spec fn all_digits(s: Seq<char>) -> bool {
    forall|i: int| 0 <= i < s.len() ==> is_digit(#[trigger] s[i])
}

/// The views of a list of strings.
pub open spec fn texts(list: Seq<String>) -> Seq<Seq<char>> {
    list.map_values(|s: String| s@)
}

/// The view of an optional string slice.
pub open spec fn opt_str(s: Option<&str>) -> Option<Seq<char>> {
    match s {
        Some(t) => Some(t@),
        None => None,
    }
}

/// The view of an optional string.
pub open spec fn opt_text(s: Option<String>) -> Option<Seq<char>> {
    match s {
        Some(t) => Some(t@),
        None => None,
    }
}

pub proof fn lemma_find(s: Seq<char>, c: char)
    ensures
        0 <= find_of(s, c) <= s.len(),
        find_of(s, c) < s.len() ==> s[find_of(s, c)] == c,
        forall|i: int| 0 <= i < find_of(s, c) ==> s[i] != c,
    decreases s.len(),
{
    if s.len() == 0 || s[0] == c {
    } else {
        lemma_find(s.drop_first(), c);
        assert forall|i: int| 0 <= i < find_of(s, c) implies s[i] != c by {
            if i > 0 {
                assert(s.drop_first()[i - 1] == s[i]);
            }
        }
    }
}

/// The first index at which `c` stands is the only one with nothing equal before it.
pub proof fn lemma_find_is(s: Seq<char>, c: char, at: int)
    requires
        0 <= at <= s.len(),
        at < s.len() ==> s[at] == c,
        forall|i: int| 0 <= i < at ==> s[i] != c,
    ensures
        find_of(s, c) == at,
{
    lemma_find(s, c);
    let f = find_of(s, c);
    if f < at {
        assert(s[f] != c);
    }
}

pub proof fn lemma_trim_start(s: Seq<char>, from: int)
    requires
        0 <= from <= s.len(),
        forall|i: int| 0 <= i < from ==> is_white(s[i]),
        from < s.len() ==> !is_white(s[from]),
    ensures
        trim_start_of(s) == s.skip(from),
    decreases from,
{
    if from == 0 {
        assert(s.skip(0) =~= s);
    } else {
        lemma_trim_start(s.drop_first(), from - 1);
        assert(s.drop_first().skip(from - 1) =~= s.skip(from));
    }
}

pub proof fn lemma_trim_end(s: Seq<char>, to: int)
    requires
        0 <= to <= s.len(),
        forall|i: int| to <= i < s.len() ==> is_white(s[i]),
        0 < to ==> !is_white(s[to - 1]),
    ensures
        trim_end_of(s) == s.take(to),
    decreases s.len() - to,
{
    if to == s.len() {
        assert(s.take(to) =~= s);
    } else {
        lemma_trim_end(s.drop_last(), to);
        assert(s.drop_last().take(to) =~= s.take(to));
    }
}

/// Trimming leaves no white space at the ends, so trimming twice is trimming once.
pub proof fn lemma_trim_idempotent(s: Seq<char>)
    ensures
        trim_of(trim_of(s)) == trim_of(s),
{
    lemma_trim_ends(s);
    let t = trim_of(s);
    lemma_trim_start(t, 0);
    assert(t.skip(0) =~= t);
    lemma_trim_end(t, t.len() as int);
    assert(t.take(t.len() as int) =~= t);
}

/// Trimmed text neither starts nor ends with white space.
pub proof fn lemma_trim_ends(s: Seq<char>)
    ensures
        trim_of(s).len() > 0 ==> !is_white(trim_of(s)[0]) && !is_white(trim_of(s).last()),
        trim_start_of(s).len() > 0 ==> trim_of(s).len() > 0,
{
    lemma_trim_start_head(s);
    let a = trim_start_of(s);
    lemma_trim_end_tail(a);
}

proof fn lemma_trim_start_head(s: Seq<char>)
    ensures
        trim_start_of(s).len() > 0 ==> !is_white(trim_start_of(s)[0]),
    decreases s.len(),
{
    if s.len() > 0 && is_white(s[0]) {
        lemma_trim_start_head(s.drop_first());
    }
}

proof fn lemma_trim_end_tail(s: Seq<char>)
    ensures
        trim_end_of(s).len() > 0 ==> !is_white(trim_end_of(s).last()) && trim_end_of(s)[0] == s[0],
        s.len() > 0 && !is_white(s[0]) ==> trim_end_of(s).len() > 0,
    decreases s.len(),
{
    if s.len() > 0 && is_white(s.last()) {
        lemma_trim_end_tail(s.drop_last());
    }
}

/// Whether `c` is white space.
pub fn is_whitespace(c: char) -> (r: bool)
    ensures
        r == is_white(c),
{
    let n: u32 = c as u32;
    (0x9 <= n && n <= 0xd) || n == 0x20 || n == 0x85 || n == 0xa0 || n == 0x1680 || (0x2000 <= n
        && n <= 0x200a) || n == 0x2028 || n == 0x2029 || n == 0x202f || n == 0x205f || n == 0x3000
}

/// The characters of `s`, in order.
pub fn to_chars(s: &str) -> (r: Vec<char>)
    ensures
        r@ == s@,
{
    let mut out: Vec<char> = Vec::new();
    for c in it: s.chars()
        invariant
            out@ == it.seq().take(it.index() as int),
            it.seq() == s@,
    {
        out.push(c);
    }
    out
}

/// `s` without white space at either end.
pub fn trim<'a>(s: &'a str) -> (r: &'a str)
    ensures
        r@ == trim_of(s@),
{
    let chars: Vec<char> = to_chars(s);
    let mut from: usize = 0;
    while from < chars.len() && is_whitespace(chars[from])
        invariant
            from <= chars@.len(),
            forall|i: int| 0 <= i < from ==> is_white(chars@[i]),
        decreases chars@.len() - from,
    {
        from += 1;
    }
    let mut to: usize = chars.len();
    while from < to && is_whitespace(chars[to - 1])
        invariant
            from <= to <= chars@.len(),
            forall|i: int| to <= i < chars@.len() ==> is_white(chars@[i]),
        decreases to,
    {
        to -= 1;
    }
    proof {
        lemma_trim_start(s@, from as int);
        lemma_trim_end(s@.skip(from as int), to - from);
        assert(s@.skip(from as int).take(to - from) =~= s@.subrange(from as int, to as int));
    }
    s.substring_char(from, to)
}

/// Where `c` first stands in `s`, counted in characters.
pub fn find_char(s: &str, c: char) -> (r: Option<usize>)
    ensures
        match r {
            Some(at) => at == find_of(s@, c) && at < s@.len(),
            None => find_of(s@, c) == s@.len(),
        },
{
    let chars: Vec<char> = to_chars(s);
    let mut at: usize = 0;
    while at < chars.len()
        invariant
            at <= chars@.len(),
            chars@ == s@,
            forall|i: int| 0 <= i < at ==> chars@[i] != c,
        decreases chars@.len() - at,
    {
        if chars[at] == c {
            proof {
                lemma_find_is(s@, c, at as int);
            }
            return Some(at);
        }
        at += 1;
    }
    proof {
        lemma_find_is(s@, c, at as int);
    }
    None
}

/// What follows the prefix `p` in `s`.
pub fn strip_prefix<'a>(s: &'a str, p: &str) -> (r: Option<&'a str>)
    ensures
        match r {
            Some(rest) => strip_prefix_of(s@, p@) == Some(rest@),
            None => strip_prefix_of(s@, p@) is None,
        },
{
    let chars: Vec<char> = to_chars(s);
    let head: Vec<char> = to_chars(p);
    if head.len() > chars.len() {
        return None;
    }
    let mut i: usize = 0;
    while i < head.len()
        invariant
            i <= head@.len() <= chars@.len(),
            chars@ == s@,
            head@ == p@,
            forall|j: int| 0 <= j < i ==> chars@[j] == head@[j],
        decreases head@.len() - i,
    {
        if chars[i] != head[i] {
            assert(!p@.is_prefix_of(s@));
            return None;
        }
        i += 1;
    }
    assert(p@.is_prefix_of(s@));
    assert(s@.skip(p@.len() as int) =~= s@.subrange(p@.len() as int, s@.len() as int));
    Some(s.substring_char(head.len(), chars.len()))
}

/// Whether `a` and `b` are the same text.
pub fn same(a: &str, b: &str) -> (r: bool)
    ensures
        r == (a@ == b@),
{
    let x: String = a.to_owned();
    let y: String = b.to_owned();
    x == y
}

/// Whether `part` stands somewhere in `s`.
pub fn contains(s: &str, part: &str) -> (r: bool)
    ensures
        r == contains_of(s@, part@),
{
    let chars: Vec<char> = to_chars(s);
    let wanted: Vec<char> = to_chars(part);
    if wanted.len() > chars.len() {
        return false;
    }
    let mut at: usize = 0;
    while at <= chars.len() - wanted.len()
        invariant
            wanted@.len() <= chars@.len(),
            at <= chars@.len() - wanted@.len() + 1,
            chars@ == s@,
            wanted@ == part@,
            forall|i: int|
                0 <= i < at ==> #[trigger] s@.subrange(i, i + part@.len()) != part@,
        decreases chars@.len() + 1 - at,
    {
        let mut k: usize = 0;
        let size: usize = chars.len();
        while k < wanted.len() && chars[at + k] == wanted[k]
            invariant
                k <= wanted@.len(),
                at + wanted@.len() <= chars@.len(),
                chars@.len() == size,
                forall|j: int| 0 <= j < k ==> chars@[at + j] == wanted@[j],
            decreases wanted@.len() - k,
        {
            k += 1;
        }
        if k == wanted.len() {
            assert(s@.subrange(at as int, at + part@.len()) =~= part@);
            return true;
        }
        assert(s@.subrange(at as int, at + part@.len())[k as int] != part@[k as int]);
        if at == size {
            return false;
        }
        at += 1;
    }
    false
}

/// The pieces of `s` between the separators `c`.
pub fn split_char(s: &str, c: char) -> (r: Vec<String>)
    ensures
        texts(r@) == split_of(s@, c),
{
    let chars: Vec<char> = to_chars(s);
    let mut out: Vec<String> = Vec::new();
    let mut from: usize = 0;
    let mut at: usize = 0;
    assert(s@.skip(0) =~= s@);
    assert(texts(out@) + split_of(s@, c) =~= split_of(s@, c));
    while at < chars.len()
        invariant
            from <= at <= chars@.len(),
            chars@ == s@,
            forall|i: int| from <= i < at ==> chars@[i] != c,
            texts(out@) + split_of(s@.skip(from as int), c) == split_of(s@, c),
        decreases chars@.len() - at,
    {
        if chars[at] == c {
            let ghost rest = s@.skip(from as int);
            let ghost before = out@;
            proof {
                lemma_find_is(rest, c, at - from);
                assert(rest.take(at - from) =~= s@.subrange(from as int, at as int));
                assert(rest.skip(at - from + 1) =~= s@.skip(at + 1));
            }
            let piece: String = s.substring_char(from, at).to_owned();
            out.push(piece);
            proof {
                assert(texts(out@) =~= texts(before) + seq![piece@]);
                assert(split_of(rest, c) == seq![piece@] + split_of(s@.skip(at + 1), c));
                assert(texts(out@) + split_of(s@.skip(at + 1), c) =~= texts(before) + split_of(
                    rest,
                    c,
                ));
            }
            from = at + 1;
        }
        at += 1;
    }
    let ghost before = out@;
    let piece: String = s.substring_char(from, chars.len()).to_owned();
    out.push(piece);
    proof {
        let rest = s@.skip(from as int);
        lemma_find_is(rest, c, rest.len() as int);
        assert(rest =~= piece@);
        assert(texts(out@) =~= texts(before) + seq![piece@]);
    }
    out
}

/// The lines of `s`.
pub fn lines(s: &str) -> (r: Vec<String>)
    ensures
        texts(r@) == lines_of(s@),
{
    let pieces: Vec<String> = split_char(s, '\n');
    proof {
        lemma_split_nonempty(s@, '\n');
        assert(texts(pieces@).len() == pieces@.len());
    }
    let ghost all = texts(pieces@);
    let mut out: Vec<String> = Vec::new();
    let mut i: usize = 0;
    while i < pieces.len() - 1
        invariant
            0 < pieces@.len(),
            i <= pieces@.len() - 1,
            all == texts(pieces@),
            texts(out@) == all.take(i as int).map_values(|line: Seq<char>| without_return(line)),
        decreases pieces@.len() - i,
    {
        let line: &String = &pieces[i];
        let size: usize = line.as_str().unicode_len();
        let ghost before = out@;
        let kept: String = if size > 0 && line.as_str().get_char(size - 1) == '\r' {
            line.as_str().substring_char(0, size - 1).to_owned()
        } else {
            line.as_str().substring_char(0, size).to_owned()
        };
        proof {
            assert(all[i as int] == line@);
            assert(kept@ =~= without_return(line@));
        }
        out.push(kept);
        proof {
            assert(texts(out@) =~= texts(before).push(kept@));
            assert(all.take(i + 1) =~= all.take(i as int).push(line@));
            assert(all.take(i + 1).map_values(|line: Seq<char>| without_return(line)) =~= all.take(
                i as int,
            ).map_values(|line: Seq<char>| without_return(line)).push(kept@));
        }
        i += 1;
    }
    assert(all.take(i as int) =~= all.drop_last());
    let last: &String = &pieces[i];
    assert(all.last() == last@);
    if !last.as_str().is_empty() {
        let ghost before = out@;
        out.push(last.clone());
        assert(texts(out@) =~= texts(before).push(last@));
    }
    out
}

/// There is always at least one piece.
pub proof fn lemma_split_nonempty(s: Seq<char>, c: char)
    ensures
        split_of(s, c).len() > 0,
{
}

/// The decimal digits of `n`.
pub fn to_decimal(n: u64) -> (r: String)
    ensures
        r@ == decimal_of(n as nat),
{
    let mut digits: Vec<char> = Vec::new();
    let mut rest: u64 = n;
    while rest >= 10
        invariant
            decimal_of(n as nat) == decimal_of(rest as nat) + digits@.reverse(),
        decreases rest,
    {
        let ghost before = digits@;
        digits.push(digit(rest % 10));
        proof {
            assert(digits@.reverse() =~= seq![digits@.last()] + before.reverse());
            assert(decimal_of(rest as nat) =~= decimal_of((rest / 10) as nat) + seq![digits@.last()]);
            assert(decimal_of(rest as nat) + before.reverse() =~= decimal_of((rest / 10) as nat)
                + digits@.reverse());
        }
        rest = rest / 10;
    }
    let ghost before = digits@;
    digits.push(digit(rest));
    proof {
        assert(digits@.reverse() =~= seq![digits@.last()] + before.reverse());
    }
    let mut i: usize = digits.len();
    let mut out: String = String::new();
    while i > 0
        invariant
            i <= digits@.len(),
            out@ + digits@.take(i as int).reverse() == digits@.reverse(),
        decreases i,
    {
        let ghost prior = out@;
        out.push(digits[i - 1]);
        proof {
            assert(digits@.take(i as int).reverse() =~= seq![digits@[i - 1]] + digits@.take(
                i - 1,
            ).reverse());
            assert(out@ + digits@.take(i - 1).reverse() =~= prior + digits@.take(
                i as int,
            ).reverse());
        }
        i -= 1;
    }
    assert(out@ =~= digits@.reverse());
    out
}

/// The digit of a number below ten.
fn digit(d: u64) -> (r: char)
    requires
        d < 10,
    ensures
        r == digit_char(d as nat),
{
    (48 + d as u8) as char
}

/// The number up to `max` that `s` writes.
pub fn parse_number(s: &str, max: u64) -> (r: Option<u64>)
    ensures
        match r {
            Some(n) => number_of_text(s@, max as nat) == Some(n as nat),
            None => number_of_text(s@, max as nat) is None,
        },
{
    let chars: Vec<char> = to_chars(s);
    let from: usize = if chars.len() > 0 && chars[0] == '+' {
        1
    } else {
        0
    };
    let ghost digits = sign_stripped(s@);
    assert(digits =~= s@.skip(from as int));
    if from == chars.len() {
        return None;
    }
    let mut at: usize = from;
    let mut value: u64 = 0;
    assert(digits.take(0) =~= Seq::<char>::empty());
    while at < chars.len()
        invariant
            from <= at <= chars@.len(),
            chars@ == s@,
            digits == s@.skip(from as int),
            digits == sign_stripped(s@),
            value == digits_value(digits.take(at - from)),
            value <= max,
            forall|i: int| 0 <= i < at - from ==> is_digit(#[trigger] digits[i]),
        decreases chars@.len() - at,
    {
        let c: char = chars[at];
        proof {
            assert(digits[at - from] == c);
            assert(digits.take(at - from + 1).drop_last() =~= digits.take(at - from));
            lemma_prefix_value(digits, at - from + 1);
        }
        if !('0' <= c && c <= '9') {
            assert(!is_digit(digits[at - from]));
            return None;
        }
        let d: u64 = c as u64 - 48;
        if d > max || value > (max - d) / 10 {
            return None;
        }
        value = value * 10 + d;
        at += 1;
    }
    assert(digits.take(at - from) =~= digits);
    Some(value)
}

/// Rows of digits that go on stand for numbers that are no smaller.
proof fn lemma_prefix_value(s: Seq<char>, n: int)
    requires
        0 <= n <= s.len(),
    ensures
        (forall|i: int| 0 <= i < s.len() ==> is_digit(#[trigger] s[i])) ==> digits_value(s.take(n))
            <= digits_value(s),
    decreases s.len() - n,
{
    if n < s.len() {
        lemma_prefix_value(s.drop_last(), n);
        assert(s.drop_last().take(n) =~= s.take(n));
    } else {
        assert(s.take(n) =~= s);
    }
}

/// `String::push` appends the character.
pub assume_specification[ String::push ](s: &mut String, c: char)
    ensures
        final(s)@ == old(s)@.push(c),
;

/// Whether `c` is a lower-case hexadecimal digit.
pub open spec fn is_hex_digit(c: char) -> bool {
    is_digit(c) || 'a' <= c <= 'f'
}

/// Whether `s` is `n` lower-case hexadecimal digits.
pub open spec fn is_hex(s: Seq<char>, n: nat) -> bool {
    s.len() == n && forall|i: int| 0 <= i < s.len() ==> is_hex_digit(#[trigger] s[i])
}

/// A copy of a list of texts.
pub(crate) fn copied(list: &Vec<String>) -> (r: Vec<String>)
    ensures
        texts(r@) == texts(list@),
        r@.len() == list@.len(),
{
    let size: usize = list.len();
    let mut out: Vec<String> = Vec::new();
    for i in 0..size
        invariant
            size == list@.len(),
            out@.len() == i,
            forall|j: int| 0 <= j < i ==> (#[trigger] out@[j])@ == list@[j]@,
    {
        out.push(list[i].as_str().to_owned());
    }
    assert(texts(out@) =~= texts(list@));
    out
}

/// White space is what Unicode says it is: among ASCII the space and the controls
/// from tab to carriage return, and eight characters and one range beyond.
pub proof fn law_white_space(c: char, r: bool)
    requires
        call_ensures(is_whitespace, (c,), r),
    ensures
        c == ' ' || c == '\t' || c == '\n' || c == '\r' ==> r,
        '!' <= c <= '~' ==> !r,
        r <==> (9 <= c as u32 <= 13 || c as u32 == 32 || c as u32 == 133 || c as u32 == 160
            || c as u32 == 5760 || 8192 <= c as u32 <= 8202 || c as u32 == 8232 || c as u32 == 8233
            || c as u32 == 8239 || c as u32 == 8287 || c as u32 == 12288),
        r == is_white(c),
{
}

/// Trimming takes white space off both ends, all of it, and nothing else.
pub proof fn law_trimming(s: &str, r: &str) -> (ends: (Seq<char>, Seq<char>))
    requires
        call_ensures(trim, (s,), r),
    ensures
        s@ == ends.0 + r@ + ends.1,
        forall|i: int| 0 <= i < ends.0.len() ==> is_white(#[trigger] ends.0[i]),
        forall|i: int| 0 <= i < ends.1.len() ==> is_white(#[trigger] ends.1[i]),
        r@.len() > 0 ==> !is_white(r@[0]) && !is_white(r@.last()),
{
    lemma_trim_splits(s@)
}

pub(crate) proof fn lemma_trim_splits(s: Seq<char>) -> (ends: (Seq<char>, Seq<char>))
    ensures
        s == ends.0 + trim_of(s) + ends.1,
        forall|i: int| 0 <= i < ends.0.len() ==> is_white(#[trigger] ends.0[i]),
        forall|i: int| 0 <= i < ends.1.len() ==> is_white(#[trigger] ends.1[i]),
        trim_of(s).len() > 0 ==> !is_white(trim_of(s)[0]) && !is_white(trim_of(s).last()),
{
    lemma_trim_ends(s);
    let front = lemma_trim_start_splits(s);
    let back = lemma_trim_end_splits(trim_start_of(s));
    assert(s =~= front + trim_of(s) + back);
    (front, back)
}

/// What stands between white space, and neither starts nor ends with it, is what
/// trimming leaves.
pub(crate) proof fn lemma_trim_is(
    s: Seq<char>,
    front: Seq<char>,
    core: Seq<char>,
    back: Seq<char>,
)
    requires
        s == front + core + back,
        forall|i: int| 0 <= i < front.len() ==> is_white(#[trigger] front[i]),
        forall|i: int| 0 <= i < back.len() ==> is_white(#[trigger] back[i]),
        core.len() > 0 ==> !is_white(core[0]) && !is_white(core.last()),
    ensures
        trim_of(s) == core,
{
    assert forall|i: int| 0 <= i < front.len() implies is_white(s[i]) by {
        assert(s[i] == front[i]);
    }
    if core.len() == 0 {
        assert forall|i: int| 0 <= i < s.len() implies is_white(s[i]) by {
            if i >= front.len() {
                assert(s[i] == back[i - front.len()]);
            }
        }
        lemma_trim_start(s, s.len() as int);
        assert(s.skip(s.len() as int) =~= core);
        lemma_trim_end(core, 0);
        assert(core.take(0) =~= core);
    } else {
        let from = front.len() as int;
        assert(s[from] == core[0]);
        lemma_trim_start(s, from);
        let rest = s.skip(from);
        assert(rest =~= core + back);
        let to = core.len() as int;
        assert(rest[to - 1] == core.last());
        assert forall|i: int| to <= i < rest.len() implies is_white(rest[i]) by {
            assert(rest[i] == back[i - to]);
        }
        lemma_trim_end(rest, to);
        assert(rest.take(to) =~= core);
    }
}

proof fn lemma_trim_start_splits(s: Seq<char>) -> (front: Seq<char>)
    ensures
        s == front + trim_start_of(s),
        forall|i: int| 0 <= i < front.len() ==> is_white(#[trigger] front[i]),
    decreases s.len(),
{
    if s.len() > 0 && is_white(s[0]) {
        let front = lemma_trim_start_splits(s.drop_first());
        assert(s.drop_first() == front + trim_start_of(s));
        assert(s =~= seq![s[0]] + s.drop_first());
        assert(s =~= (seq![s[0]] + front) + trim_start_of(s));
        seq![s[0]] + front
    } else {
        assert(s =~= Seq::empty() + trim_start_of(s));
        Seq::empty()
    }
}

proof fn lemma_trim_end_splits(s: Seq<char>) -> (back: Seq<char>)
    ensures
        s == trim_end_of(s) + back,
        forall|i: int| 0 <= i < back.len() ==> is_white(#[trigger] back[i]),
    decreases s.len(),
{
    if s.len() > 0 && is_white(s.last()) {
        let back = lemma_trim_end_splits(s.drop_last());
        assert(s.drop_last() == trim_end_of(s) + back);
        assert(s =~= s.drop_last().push(s.last()));
        assert(s =~= trim_end_of(s) + back.push(s.last()));
        back.push(s.last())
    } else {
        assert(s =~= trim_end_of(s) + Seq::empty());
        Seq::empty()
    }
}

/// What is found is the first of its kind, and what is not found is not there.
pub proof fn law_finding(s: &str, c: char, r: Option<usize>)
    requires
        call_ensures(find_char, (s, c), r),
    ensures
        r matches Some(at) ==> at < s@.len() && s@[at as int] == c && !s@.take(
            at as int,
        ).contains(c),
        r is None <==> !s@.contains(c),
{
    lemma_find(s@, c);
    if let Some(at) = r {
        assert(s@[at as int] == c);
        assert(forall|i: int| 0 <= i < at ==> s@.take(at as int)[i] == s@[i]);
    }
}

/// A prefix is stripped where it is one, and what follows it stays.
pub proof fn law_stripping(s: &str, p: &str, r: Option<&str>)
    requires
        call_ensures(strip_prefix, (s, p), r),
    ensures
        r matches Some(rest) ==> s@ == p@ + rest@,
        r is None ==> forall|rest: Seq<char>| s@ != #[trigger] (p@ + rest),
{
    if let Some(rest) = r {
        assert(s@ =~= p@ + rest@);
    } else {
        assert forall|rest: Seq<char>| s@ != #[trigger] (p@ + rest) by {
            if s@ == p@ + rest {
                assert(p@.is_prefix_of(s@));
            }
        }
    }
}

/// Texts are the same where all their characters are, and a text is contained
/// where something before it and something after it make the whole.
pub proof fn law_comparing(s: &str, part: &str, r: bool, alike: bool)
    requires
        call_ensures(contains, (s, part), r),
        call_ensures(same, (s, part), alike),
    ensures
        alike <==> s@ == part@,
        r <==> exists|before: Seq<char>, after: Seq<char>| s@ == #[trigger] (before + part@ + after),
{
    if r {
        let i = choose|i: int|
            0 <= i <= s@.len() - part@.len() && #[trigger] s@.subrange(i, i + part@.len())
                == part@;
        assert(s@ =~= s@.take(i) + part@ + s@.skip(i + part@.len()));
    }
    if exists|before: Seq<char>, after: Seq<char>| s@ == #[trigger] (before + part@ + after) {
        let (before, after) = choose|before: Seq<char>, after: Seq<char>|
            s@ == #[trigger] (before + part@ + after);
        let i = before.len() as int;
        assert(s@.subrange(i, i + part@.len()) =~= part@);
    }
}

/// Pieces with a separator between them.
pub open spec fn joined(pieces: Seq<Seq<char>>, c: char) -> Seq<char>
    decreases pieces.len(),
{
    if pieces.len() == 0 {
        Seq::empty()
    } else if pieces.len() == 1 {
        pieces[0]
    } else {
        pieces[0] + seq![c] + joined(pieces.skip(1), c)
    }
}

/// Splitting is undone by joining, and no piece has a separator in it.
pub proof fn law_splitting(s: &str, c: char, r: Vec<String>)
    requires
        call_ensures(split_char, (s, c), r),
    ensures
        r@.len() > 0,
        joined(texts(r@), c) == s@,
        forall|i: int| 0 <= i < r@.len() ==> !(#[trigger] r@[i])@.contains(c),
{
    lemma_split(s@, c);
    assert(texts(r@).len() == r@.len());
    assert forall|i: int| 0 <= i < r@.len() implies !(#[trigger] r@[i])@.contains(c) by {
        assert(texts(r@)[i] == r@[i]@);
    }
}

proof fn lemma_split(s: Seq<char>, c: char)
    ensures
        split_of(s, c).len() > 0,
        joined(split_of(s, c), c) == s,
        forall|i: int| 0 <= i < split_of(s, c).len() ==> !(#[trigger] split_of(s, c)[i]).contains(c),
    decreases s.len(),
{
    lemma_find(s, c);
    let at = find_of(s, c);
    let pieces = split_of(s, c);
    if at < s.len() {
        let rest = s.skip(at + 1);
        lemma_split(rest, c);
        assert(pieces.skip(1) =~= split_of(rest, c));
        assert(s =~= s.take(at) + seq![c] + rest);
        assert forall|i: int| 0 <= i < pieces.len() implies !(#[trigger] pieces[i]).contains(c) by {
            if i > 0 {
                assert(pieces[i] == split_of(rest, c)[i - 1]);
            } else {
                assert(forall|j: int| 0 <= j < at ==> s.take(at)[j] == s[j]);
            }
        }
    }
}

/// A first line that is ended and the lines of the rest are the lines of a text;
/// the end is a line feed, with a carriage return before it or not.
pub proof fn law_lines_go_on(
    s: &str,
    line: Seq<char>,
    returned: bool,
    rest: &str,
    r: Vec<String>,
    more: Vec<String>,
)
    requires
        call_ensures(lines, (s,), r),
        call_ensures(lines, (rest,), more),
        !line.contains('\n'),
        !returned && line.len() > 0 ==> line.last() != '\r',
        s@ == if returned {
            line + seq!['\r', '\n'] + rest@
        } else {
            line + seq!['\n'] + rest@
        },
    ensures
        r@.len() == more@.len() + 1,
        r@[0]@ == line,
        forall|i: int| 0 <= i < more@.len() ==> (#[trigger] more@[i])@ == r@[i + 1]@,
{
    let head = if returned {
        line.push('\r')
    } else {
        line
    };
    assert(s@ =~= head + seq!['\n'] + rest@);
    assert(!head.contains('\n')) by {
        if head.contains('\n') {
            let i = choose|i: int| 0 <= i < head.len() && head[i] == '\n';
            assert(line[i] == '\n');
        }
    }
    assert(without_return(head) =~= line);
    lemma_lines_go_on(head, rest@);
    assert(texts(r@).len() == r@.len() && texts(more@).len() == more@.len());
    assert(texts(r@)[0] == r@[0]@);
    assert forall|i: int| 0 <= i < more@.len() implies (#[trigger] more@[i])@ == r@[i + 1]@ by {
        assert(texts(more@)[i] == more@[i]@ && texts(r@)[i + 1] == r@[i + 1]@);
    }
}

proof fn lemma_lines_go_on(head: Seq<char>, rest: Seq<char>)
    requires
        !head.contains('\n'),
    ensures
        lines_of(head + seq!['\n'] + rest) == seq![without_return(head)] + lines_of(rest),
{
    let s = head + seq!['\n'] + rest;
    let at = head.len() as int;
    assert forall|i: int| 0 <= i < at implies s[i] != '\n' by {
        assert(s[i] == head[i]);
    }
    lemma_find_is(s, '\n', at);
    assert(s.take(at) =~= head);
    assert(s.skip(at + 1) =~= rest);
    let more = split_of(rest, '\n');
    let pieces = split_of(s, '\n');
    assert(pieces == seq![head] + more);
    lemma_split_nonempty(rest, '\n');
    assert(pieces.last() == more.last());
    assert(pieces.drop_last() =~= seq![head] + more.drop_last());
    assert(lines_of(s) =~= seq![without_return(head)] + lines_of(rest));
}

/// A text without a line feed is one line, as it is, and no text no line.
pub proof fn law_last_line(s: &str, r: Vec<String>)
    requires
        call_ensures(lines, (s,), r),
        !s@.contains('\n'),
    ensures
        s@.len() == 0 ==> r@.len() == 0,
        s@.len() > 0 ==> r@.len() == 1 && r@[0]@ == s@,
{
    lemma_last_line(s@);
    assert(texts(r@).len() == r@.len());
    if s@.len() > 0 {
        assert(texts(r@)[0] == r@[0]@);
    }
}

proof fn lemma_last_line(s: Seq<char>)
    requires
        !s.contains('\n'),
    ensures
        lines_of(s) == if s.len() == 0 {
            Seq::<Seq<char>>::empty()
        } else {
            seq![s]
        },
{
    assert forall|i: int| 0 <= i < s.len() implies s[i] != '\n' by {
        assert(s.contains(s[i]));
    }
    lemma_find_is(s, '\n', s.len() as int);
    assert(split_of(s, '\n') =~= seq![s]);
    assert(lines_of(s) =~= if s.len() == 0 {
        Seq::<Seq<char>>::empty()
    } else {
        seq![s]
    });
}

/// The digits of a number are those of its tenth part and its last one.
pub proof fn law_decimal(n: u64, r: String, head: String)
    requires
        call_ensures(to_decimal, (n,), r),
        call_ensures(to_decimal, ((n / 10) as u64,), head),
    ensures
        n < 10 ==> r@ == seq![(48 + n) as char],
        n >= 10 ==> r@ == head@.push((48 + n % 10) as char),
{
}

/// A number is read digit by digit: a further digit is worth one and what came
/// before ten times as much, up to the largest number that is asked for.
pub proof fn law_reading_numbers(
    s: &str,
    c: char,
    longer: &str,
    max: u64,
    before: Option<u64>,
    r: Option<u64>,
)
    requires
        call_ensures(parse_number, (s, u64::MAX), before),
        call_ensures(parse_number, (longer, max), r),
        longer@ == s@.push(c),
        '0' <= c <= '9',
    ensures
        s@.len() == 0 || s@ == seq!['+'] ==> r == if c as u64 - 48 <= max {
            Some((c as u64 - 48) as u64)
        } else {
            None
        },
        before matches Some(v) ==> r == if v * 10 + (c as u64 - 48) <= max {
            Some((v * 10 + (c as u64 - 48)) as u64)
        } else {
            None
        },
        before is None && s@.len() > 0 && s@ != seq!['+'] ==> r is None,
{
    reveal_with_fuel(digits_value, 2);
    let a = sign_stripped(s@);
    let b = sign_stripped(longer@);
    if s@.len() == 0 {
        assert(b =~= seq![c]);
        assert(b.drop_last() =~= Seq::empty());
    } else {
        assert(longer@[0] == s@[0]);
        assert(b =~= a.push(c));
        assert(b.drop_last() =~= a);
        if s@ == seq!['+'] {
            assert(a =~= Seq::empty());
        }
    }
    assert(b.last() == c);
    if before is Some || a.len() == 0 {
        assert forall|i: int| 0 <= i < b.len() implies is_digit(#[trigger] b[i]) by {
            if i < b.len() - 1 {
                assert(b[i] == a[i]);
            }
        }
    }
    if r is Some {
        assert forall|i: int| 0 <= i < a.len() implies is_digit(#[trigger] a[i]) by {
            assert(b[i] == a[i]);
        }
        if a.len() == 0 && s@.len() > 0 {
            assert(s@ =~= seq!['+']);
        }
    }
}

/// Digits alone write a number, after a plus sign or not; anything else in a text,
/// and no digit at all, writes none.
pub proof fn law_only_digits_are_numbers(s: &str, max: u64, r: Option<u64>)
    requires
        call_ensures(parse_number, (s, max), r),
    ensures
        r matches Some(n) ==> n <= max,
        r is Some ==> s@.len() > 0 && s@ != seq!['+'],
        r is Some ==> (s@[0] == '+' || '0' <= s@[0] <= '9'),
        r is Some ==> forall|i: int| 0 < i < s@.len() ==> '0' <= #[trigger] s@[i] <= '9',
{
    let digits = sign_stripped(s@);
    if r is Some {
        assert(is_digit(digits[0]));
        assert forall|i: int| 0 < i < s@.len() implies '0' <= #[trigger] s@[i] <= '9' by {
            if s@[0] == '+' {
                assert(digits[i - 1] == s@[i]);
            } else {
                assert(digits[i] == s@[i]);
            }
        }
    }
}

/// The characters of a text are its view.
pub proof fn law_characters(s: &str, r: Vec<char>)
    requires
        call_ensures(to_chars, (s,), r),
    ensures
        r@ == s@,
{
}

/// The views of a list are those of its members, one by one, and that of an optional
/// text is there where the text is.
pub proof fn law_views_of_texts(list: Seq<String>, i: int, text: Option<String>, slice: Option<&str>)
    ensures
        texts(list).len() == list.len(),
        0 <= i < list.len() ==> texts(list)[i] == list[i]@,
        opt_text(text) is Some <==> text is Some,
        text matches Some(t) ==> opt_text(text) == Some(t@),
        opt_str(slice) is Some <==> slice is Some,
        slice matches Some(t) ==> opt_str(slice) == Some(t@),
{
}

} // verus!
