//! Character-level text helpers shared by the screens: byte lengths of UTF-8
//! text, trimming to a byte budget, padding, repetition, line splitting,
//! ASCII case folding, substring search and number formatting.
use vstd::prelude::*;

verus! {

/// Number of bytes that `c` takes in UTF-8.
pub open spec fn utf8_width(c: char) -> nat {
    if (c as u32) < 0x80 {
        1
    } else if (c as u32) < 0x800 {
        2
    } else if (c as u32) < 0x10000 {
        3
    } else {
        4
    }
}

/// Number of bytes that the text `s` takes in UTF-8 (what `str::len` returns).
pub open spec fn utf8_len(s: Seq<char>) -> nat
    decreases s.len(),
{
    if s.len() == 0 {
        0
    } else {
        utf8_len(s.drop_last()) + utf8_width(s.last())
    }
}

/// Number of leading characters of `s` that fit in `limit` bytes: the longest
/// prefix whose UTF-8 length is at most `limit`.
pub open spec fn fit_count(s: Seq<char>, limit: int) -> nat
    decreases s.len(),
{
    if utf8_len(s) <= limit || s.len() == 0 {
        s.len()
    } else {
        fit_count(s.drop_last(), limit)
    }
}

/// The three dots appended to a shortened text.
pub open spec fn ellipsis() -> Seq<char> {
    seq!['.', '.', '.']
}

/// `s` if it fits in `max` bytes, else its longest prefix that fits in
/// `max - 3` bytes followed by `...`.
pub open spec fn trimmed(s: Seq<char>, max: int) -> Seq<char> {
    if utf8_len(s) <= max {
        s
    } else {
        s.take(fit_count(s, max - 3) as int) + ellipsis()
    }
}

/// `s` followed by spaces up to `width` characters (left-aligned field).
pub open spec fn padded(s: Seq<char>, width: int) -> Seq<char> {
    if s.len() >= width {
        s
    } else {
        s + Seq::new((width - s.len()) as nat, |i: int| ' ')
    }
}

/// `n` copies of `c`.
pub open spec fn repeated(c: char, n: nat) -> Seq<char> {
    Seq::new(n, |i: int| c)
}

/// ASCII lowercase of one character.
pub open spec fn lower_char(c: char) -> char {
    if 'A' <= c && c <= 'Z' {
        ((c as u32) + 32) as char
    } else {
        c
    }
}

/// ASCII lowercase of a text; other characters are kept.
pub open spec fn lower(s: Seq<char>) -> Seq<char> {
    Seq::new(s.len(), |i: int| lower_char(s[i]))
}

/// `pat` occurs in `s` at position `i`.
pub open spec fn occurs_at(s: Seq<char>, pat: Seq<char>, i: int) -> bool {
    0 <= i && i + pat.len() <= s.len() && s.subrange(i, i + pat.len()) == pat
}

/// `pat` occurs somewhere in `s` (the empty pattern occurs in every text).
pub open spec fn contains(s: Seq<char>, pat: Seq<char>) -> bool {
    exists|i: int| occurs_at(s, pat, i)
}

/// `s` begins with `prefix`.
pub open spec fn starts_with(s: Seq<char>, prefix: Seq<char>) -> bool {
    prefix.len() <= s.len() && s.take(prefix.len() as int) == prefix
}

/// `s` ends with the character `c`.
pub open spec fn ends_with_char(s: Seq<char>, c: char) -> bool {
    s.len() > 0 && s.last() == c
}

/// The pieces of `s` between the occurrences of `sep` (always at least one).
pub open spec fn split_on(s: Seq<char>, sep: char) -> Seq<Seq<char>>
    decreases s.len(),
{
    if s.len() == 0 {
        seq![Seq::<char>::empty()]
    } else {
        let rest = split_on(s.drop_last(), sep);
        if s.last() == sep {
            rest.push(Seq::<char>::empty())
        } else {
            rest.update(rest.len() - 1, rest.last().push(s.last()))
        }
    }
}

/// `s` without one trailing carriage return, if it has one.
pub open spec fn strip_cr(s: Seq<char>) -> Seq<char> {
    if ends_with_char(s, '\r') {
        s.drop_last()
    } else {
        s
    }
}

/// The lines of `s` as `str::lines` gives them: split at `\n`; a line that was
/// ended by `\n` loses one trailing `\r`; the text after the last `\n` is a
/// line only if it is not empty.
pub open spec fn lines(s: Seq<char>) -> Seq<Seq<char>> {
    let pieces = split_on(s, '\n');
    let ended = pieces.drop_last().map_values(|p: Seq<char>| strip_cr(p));
    if pieces.last().len() == 0 {
        ended
    } else {
        ended.push(pieces.last())
    }
}

/// The decimal digit for `d < 10`.
pub open spec fn digit_char(d: nat) -> char {
    ((d + 48) as u32) as char
}

/// Decimal notation of `n`, without leading zeros.
pub open spec fn decimal(n: nat) -> Seq<char>
    decreases n,
{
    if n < 10 {
        seq![digit_char(n)]
    } else {
        decimal(n / 10).push(digit_char(n % 10))
    }
}

/// Decimal notation of `n`, with leading zeros up to `width` digits.
pub open spec fn decimal_zero_padded(n: nat, width: nat) -> Seq<char> {
    let d = decimal(n);
    if d.len() >= width {
        d
    } else {
        repeated('0', (width - d.len()) as nat) + d
    }
}

/// Upper-case hexadecimal digit for `d < 16`.
pub open spec fn hex_digit_char(d: nat) -> char {
    if d < 10 {
        ((d + 48) as u32) as char
    } else {
        ((d + 55) as u32) as char
    }
}

/// The `count` lowest hexadecimal digits of `n`, most significant first,
/// upper case (as `{:0count$X}` prints a value below `16^count`).
pub open spec fn hex_digits(n: nat, count: nat) -> Seq<char>
    decreases count,
{
    if count == 0 {
        Seq::empty()
    } else {
        hex_digits(n / 16, (count - 1) as nat).push(hex_digit_char(n % 16))
    }
}

/// Decimal notation of a signed integer, with `-` in front of a negative one.
pub open spec fn signed_decimal(n: int) -> Seq<char> {
    if n < 0 {
        seq!['-'] + decimal((-n) as nat)
    } else {
        decimal(n as nat)
    }
}

/// The UTF-8 byte length is additive.
pub proof fn lemma_utf8_len_concat(a: Seq<char>, b: Seq<char>)
    ensures
        utf8_len(a + b) == utf8_len(a) + utf8_len(b),
    decreases b.len(),
{
    if b.len() == 0 {
        assert(a + b =~= a);
    } else {
        lemma_utf8_len_concat(a, b.drop_last());
        assert((a + b).drop_last() =~= a + b.drop_last());
    }
}

/// Text made of ASCII characters takes one byte per character.
pub proof fn lemma_utf8_len_ascii(s: Seq<char>)
    requires
        forall|i: int| 0 <= i < s.len() ==> (#[trigger] s[i] as u32) < 0x80,
    ensures
        utf8_len(s) == s.len(),
    decreases s.len(),
{
    if s.len() > 0 {
        lemma_utf8_len_ascii(s.drop_last());
        assert((s.last() as u32) < 0x80);
    }
}

/// The UTF-8 byte length grows with the prefix.
pub proof fn lemma_utf8_len_prefix_mono(s: Seq<char>, i: int, j: int)
    requires
        0 <= i <= j <= s.len(),
    ensures
        utf8_len(s.take(i)) <= utf8_len(s.take(j)),
    decreases j - i,
{
    if i < j {
        lemma_utf8_len_prefix_mono(s, i, j - 1);
        assert(s.take(j).drop_last() =~= s.take(j - 1));
    }
}

/// The UTF-8 byte length agrees with vstd's encoding.
pub proof fn lemma_utf8_len_is_encoded_len(s: Seq<char>)
    ensures
        utf8_len(s) == vstd::utf8::encode_utf8(s).len(),
    decreases s.len(),
{
    broadcast use vstd::utf8::char_is_scalar;

    if s.len() > 0 {
        lemma_utf8_len_is_encoded_len(s.drop_first());
        lemma_utf8_len_concat(seq![s[0]], s.drop_first());
        assert(seq![s[0]] + s.drop_first() =~= s);
        assert(seq![s[0]].drop_last() =~= Seq::<char>::empty());
        assert(utf8_len(Seq::<char>::empty()) == 0);
        assert(utf8_len(seq![s[0]]) == utf8_width(s[0]));
        vstd::utf8::char_is_scalar(s[0]);
        assert(vstd::utf8::encode_scalar(s[0] as u32).len() == utf8_width(s[0]));
    }
}

/// `fit_count` is the prefix length found by scanning forward.
pub proof fn lemma_fit_count_at(s: Seq<char>, limit: int, k: int)
    requires
        0 <= k <= s.len(),
        utf8_len(s.take(k)) <= limit,
        k == s.len() || utf8_len(s.take(k + 1)) > limit,
    ensures
        fit_count(s, limit) == k,
    decreases s.len(),
{
    assert(s.take(s.len() as int) =~= s);
    if k < s.len() {
        lemma_utf8_len_prefix_mono(s, k + 1, s.len() as int);
        let t = s.drop_last();
        assert(t.take(k) =~= s.take(k));
        if k < t.len() {
            assert(t.take(k + 1) =~= s.take(k + 1));
        }
        lemma_fit_count_at(t, limit, k);
    }
}

/// `fit_count` never exceeds the length of the text.
pub proof fn lemma_fit_count_bound(s: Seq<char>, limit: int)
    ensures
        fit_count(s, limit) <= s.len(),
    decreases s.len(),
{
    if !(utf8_len(s) <= limit || s.len() == 0) {
        lemma_fit_count_bound(s.drop_last(), limit);
    }
}

/// Builds a `String` with the characters of `v` (std's `FromIterator<&char>`
/// for `String`, which appends each character in order).
#[verifier::external_body]
pub(crate) fn string_from_chars(v: &Vec<char>) -> (s: String)
    ensures
        s@ == v@,
{
    v.iter().collect()
}

/// The characters of `s`, in order, as a vector.
pub fn chars_of(s: &str) -> (res: Vec<char>)
    ensures
        res@ == s@,
{
    let mut res: Vec<char> = Vec::new();
    for c in it: s.chars()
        invariant
            res@ == it.seq().take(it.index() as int),
    {
        res.push(c);
    }
    res
}

/// Number of UTF-8 bytes of `c`.
pub fn char_utf8_width(c: char) -> (w: usize)
    ensures
        w == utf8_width(c),
{
    let v = c as u32;
    if v < 0x80 {
        1
    } else if v < 0x800 {
        2
    } else if v < 0x10000 {
        3
    } else {
        4
    }
}

/// Number of leading characters of `s` that fit in `limit` bytes.
pub fn fitting_prefix(s: &Vec<char>, limit: usize) -> (k: usize)
    ensures
        k == fit_count(s@, limit as int),
        k <= s.len(),
        utf8_len(s@.take(k as int)) <= limit,
        k == s.len() || utf8_len(s@.take(k + 1)) > limit,
{
    let mut k: usize = 0;
    let mut used: usize = 0;
    while k < s.len()
        invariant_except_break
            k <= s.len(),
            used == utf8_len(s@.take(k as int)),
            used <= limit,
        ensures
            k <= s.len(),
            utf8_len(s@.take(k as int)) <= limit,
            k == s.len() || utf8_len(s@.take(k + 1)) > limit,
        decreases s.len() - k,
    {
        let w = char_utf8_width(s[k]);
        assert(s@.take(k + 1).drop_last() =~= s@.take(k as int));
        if w > limit - used {
            break;
        }
        used = used + w;
        k = k + 1;
    }
    proof {
        lemma_fit_count_at(s@, limit as int, k as int);
    }
    k
}

/// Whether `s` fits in `limit` bytes of UTF-8.
pub fn fits_in_bytes(s: &Vec<char>, limit: usize) -> (b: bool)
    ensures
        b == (utf8_len(s@) <= limit),
{
    let k = fitting_prefix(s, limit);
    proof {
        assert(s@.take(s@.len() as int) =~= s@);
        if k < s.len() {
            lemma_utf8_len_prefix_mono(s@, k + 1, s@.len() as int);
        }
    }
    k == s.len()
}

/// UTF-8 byte length of `s`, provided that it fits in `usize`.
pub fn utf8_len_of(s: &Vec<char>) -> (n: usize)
    requires
        utf8_len(s@) <= usize::MAX,
    ensures
        n == utf8_len(s@),
{
    let mut n: usize = 0;
    let mut i: usize = 0;
    while i < s.len()
        invariant
            i <= s.len(),
            n == utf8_len(s@.take(i as int)),
            utf8_len(s@) <= usize::MAX,
        decreases s.len() - i,
    {
        assert(s@.take(i + 1).drop_last() =~= s@.take(i as int));
        proof {
            lemma_utf8_len_prefix_mono(s@, i + 1, s@.len() as int);
            assert(s@.take(s@.len() as int) =~= s@);
        }
        n = n + char_utf8_width(s[i]);
        i = i + 1;
    }
    assert(s@.take(s@.len() as int) =~= s@);
    n
}

/// Appends the characters of `src` to `dst`.
pub fn push_all(dst: &mut Vec<char>, src: &Vec<char>)
    ensures
        final(dst)@ == old(dst)@ + src@,
{
    let mut i: usize = 0;
    while i < src.len()
        invariant
            i <= src.len(),
            dst@ == old(dst)@ + src@.take(i as int),
        decreases src.len() - i,
    {
        dst.push(src[i]);
        i = i + 1;
        assert(dst@ =~= old(dst)@ + src@.take(i as int));
    }
    assert(src@.take(src@.len() as int) =~= src@);
}

/// Appends the characters of `src` to `dst`.
pub fn push_str(dst: &mut Vec<char>, src: &str)
    ensures
        final(dst)@ == old(dst)@ + src@,
{
    let v = chars_of(src);
    push_all(dst, &v);
}

/// Appends `n` copies of `c` to `dst`.
pub fn push_repeat(dst: &mut Vec<char>, c: char, n: usize)
    ensures
        final(dst)@ == old(dst)@ + repeated(c, n as nat),
{
    let mut i: usize = 0;
    while i < n
        invariant
            i <= n,
            dst@ == old(dst)@ + repeated(c, i as nat),
        decreases n - i,
    {
        dst.push(c);
        i = i + 1;
        assert(dst@ =~= old(dst)@ + repeated(c, i as nat));
    }
}

/// Appends `s` to `dst`, followed by spaces up to `width` characters.
pub fn push_padded(dst: &mut Vec<char>, s: &Vec<char>, width: usize)
    ensures
        final(dst)@ == old(dst)@ + padded(s@, width as int),
{
    push_all(dst, s);
    if s.len() < width {
        push_repeat(dst, ' ', width - s.len());
        assert(dst@ =~= old(dst)@ + padded(s@, width as int));
    }
}

/// `s` trimmed to `max` bytes: kept whole if it fits, else shortened to the
/// longest prefix that fits in `max - 3` bytes and followed by `...`.
pub fn trim(s: &str, max: usize) -> (res: String)
    requires
        utf8_len(s@) > max ==> max >= 3,
    ensures
        res@ == trimmed(s@, max as int),
{
    let chars = chars_of(s);
    let v = trim_chars(&chars, max);
    string_from_chars(&v)
}

/// `trim` on a character vector.
pub fn trim_chars(s: &Vec<char>, max: usize) -> (res: Vec<char>)
    requires
        utf8_len(s@) > max ==> max >= 3,
    ensures
        res@ == trimmed(s@, max as int),
{
    if fits_in_bytes(s, max) {
        return s.clone();
    }
    let k = fitting_prefix(s, max - 3);
    let mut res: Vec<char> = Vec::new();
    let mut i: usize = 0;
    while i < k
        invariant
            i <= k <= s.len(),
            res@ == s@.take(i as int),
        decreases k - i,
    {
        res.push(s[i]);
        i = i + 1;
        assert(res@ =~= s@.take(i as int));
    }
    res.push('.');
    res.push('.');
    res.push('.');
    assert(res@ =~= s@.take(k as int) + ellipsis());
    res
}

/// ASCII lowercase of one character.
pub fn lower_char_exec(c: char) -> (r: char)
    ensures
        r == lower_char(c),
{
    if 'A' <= c && c <= 'Z' {
        let b = (c as u32) as u8;
        let r = (b + 32) as char;
        assert(r == ((c as u32) + 32) as char);
        r
    } else {
        c
    }
}

/// ASCII lowercase of a text (`str::to_ascii_lowercase`).
pub fn to_lower(s: &Vec<char>) -> (res: Vec<char>)
    ensures
        res@ == lower(s@),
{
    let mut res: Vec<char> = Vec::new();
    let mut i: usize = 0;
    while i < s.len()
        invariant
            i <= s.len(),
            res@ == lower(s@).take(i as int),
        decreases s.len() - i,
    {
        res.push(lower_char_exec(s[i]));
        i = i + 1;
        assert(res@ =~= lower(s@).take(i as int));
    }
    assert(lower(s@).take(s@.len() as int) =~= lower(s@));
    res
}

/// Whether `pat` occurs in `s` at position `i`.
fn occurs_at_exec(s: &Vec<char>, pat: &Vec<char>, i: usize) -> (b: bool)
    ensures
        b == occurs_at(s@, pat@, i as int),
{
    if pat.len() > s.len() || i > s.len() - pat.len() {
        return false;
    }
    let mut j: usize = 0;
    while j < pat.len()
        invariant
            j <= pat.len(),
            i + pat.len() <= s.len(),
            forall|m: int| 0 <= m < j ==> s@[i + m] == pat@[m],
        decreases pat.len() - j,
    {
        if s[i + j] != pat[j] {
            assert(s@.subrange(i as int, i + pat.len())[j as int] != pat@[j as int]);
            return false;
        }
        j = j + 1;
    }
    assert(s@.subrange(i as int, i + pat.len()) =~= pat@);
    true
}

/// Whether `pat` occurs in `s` (`str::contains` with a text pattern).
pub fn contains_exec(s: &Vec<char>, pat: &Vec<char>) -> (b: bool)
    ensures
        b == contains(s@, pat@),
{
    let mut i: usize = 0;
    while i < s.len()
        invariant
            i <= s.len(),
            forall|m: int| 0 <= m < i ==> !occurs_at(s@, pat@, m),
        decreases s.len() - i,
    {
        if occurs_at_exec(s, pat, i) {
            return true;
        }
        i = i + 1;
    }
    if occurs_at_exec(s, pat, i) {
        return true;
    }
    assert forall|m: int| !occurs_at(s@, pat@, m) by {
        if 0 <= m <= i {
        }
    }
    false
}

/// Whether `s` begins with `prefix`.
pub fn starts_with_exec(s: &Vec<char>, prefix: &Vec<char>) -> (b: bool)
    ensures
        b == starts_with(s@, prefix@),
{
    let b = occurs_at_exec(s, prefix, 0);
    proof {
        if b {
            assert(s@.take(prefix@.len() as int) =~= s@.subrange(0, prefix@.len() as int));
        }
        if starts_with(s@, prefix@) {
            assert(s@.take(prefix@.len() as int) =~= s@.subrange(0, prefix@.len() as int));
        }
    }
    b
}

/// Characters of `s` from index `start` to the end.
pub fn suffix_from(s: &Vec<char>, start: usize) -> (res: Vec<char>)
    requires
        start <= s.len(),
    ensures
        res@ == s@.skip(start as int),
{
    let mut res: Vec<char> = Vec::new();
    let mut i: usize = start;
    while i < s.len()
        invariant
            start <= i <= s.len(),
            res@ == s@.subrange(start as int, i as int),
        decreases s.len() - i,
    {
        res.push(s[i]);
        i = i + 1;
        assert(res@ =~= s@.subrange(start as int, i as int));
    }
    assert(res@ =~= s@.skip(start as int));
    res
}

/// Characters of `s` before index `end`.
pub fn prefix_to(s: &Vec<char>, end: usize) -> (res: Vec<char>)
    requires
        end <= s.len(),
    ensures
        res@ == s@.take(end as int),
{
    let mut res: Vec<char> = Vec::new();
    let mut i: usize = 0;
    while i < end
        invariant
            i <= end <= s.len(),
            res@ == s@.take(i as int),
        decreases end - i,
    {
        res.push(s[i]);
        i = i + 1;
        assert(res@ =~= s@.take(i as int));
    }
    res
}


/// The lines of `s`, as `str::lines` splits them.
pub fn split_lines(s: &str) -> (res: Vec<Vec<char>>)
    ensures
        res@.map_values(|l: Vec<char>| l@) == lines(s@),
{
    let chars = chars_of(s);
    let mut pieces: Vec<Vec<char>> = Vec::new();
    let mut cur: Vec<char> = Vec::new();
    let mut i: usize = 0;
    assert(chars@.take(0) =~= Seq::<char>::empty());
    while i < chars.len()
        invariant
            i <= chars.len(),
            pieces@.map_values(|l: Vec<char>| l@).push(cur@) == split_on(chars@.take(i as int), '\n'),
        decreases chars.len() - i,
    {
        let c = chars[i];
        let ghost prev = split_on(chars@.take(i as int), '\n');
        assert(chars@.take(i + 1).drop_last() =~= chars@.take(i as int));
        assert(chars@.take(i + 1).last() == c);
        if c == '\n' {
            let done = cur;
            pieces.push(done);
            cur = Vec::new();
            assert(pieces@.map_values(|l: Vec<char>| l@).push(cur@) =~= prev.push(Seq::<char>::empty()));
        } else {
            let ghost old_cur = cur@;
            cur.push(c);
            assert(pieces@.map_values(|l: Vec<char>| l@).push(cur@) =~= prev.update(prev.len() - 1, prev.last().push(c)));
        }
        i = i + 1;
    }
    assert(chars@.take(chars@.len() as int) =~= chars@);
    let ghost all = split_on(chars@, '\n');
    let mut res: Vec<Vec<char>> = Vec::new();
    let mut j: usize = 0;
    while j < pieces.len()
        invariant
            j <= pieces.len(),
            all == pieces@.map_values(|l: Vec<char>| l@).push(cur@),
            res@.map_values(|l: Vec<char>| l@) == all.drop_last().map_values(|p: Seq<char>| strip_cr(p)).take(j as int),
        decreases pieces.len() - j,
    {
        let p = &pieces[j];
        let mut line = p.clone();
        assert(line@ =~= p@);
        if line.len() > 0 && line[line.len() - 1] == '\r' {
            line.pop();
        }
        assert(all.drop_last()[j as int] == p@);
        assert(line@ =~= strip_cr(p@));
        let ghost target = all.drop_last().map_values(|p: Seq<char>| strip_cr(p));
        let ghost old_res = res@.map_values(|l: Vec<char>| l@);
        assert(old_res == target.take(j as int));
        assert(target[j as int] == strip_cr(p@));
        res.push(line);
        assert(res@.map_values(|l: Vec<char>| l@) =~= old_res.push(line@));
        j = j + 1;
        assert(res@.map_values(|l: Vec<char>| l@) =~= all.drop_last().map_values(|p: Seq<char>| strip_cr(p)).take(j as int));
    }
    assert(all.drop_last().map_values(|p: Seq<char>| strip_cr(p)).take(j as int) =~= all.drop_last().map_values(|p: Seq<char>| strip_cr(p)));
    if cur.len() > 0 {
        res.push(cur);
        assert(res@.map_values(|l: Vec<char>| l@) =~= lines(s@));
    } else {
        assert(res@.map_values(|l: Vec<char>| l@) =~= lines(s@));
    }
    res
}


/// The decimal digit character for `d < 10`.
pub fn digit_exec(d: u64) -> (c: char)
    requires
        d < 10,
    ensures
        c == digit_char(d as nat),
{
    let b: u8 = d as u8;
    let c = (b + 48) as char;
    assert(c == (((d + 48) as u32) as char));
    c
}

/// The upper-case hexadecimal digit character for `d < 16`.
pub fn hex_digit_exec(d: u64) -> (c: char)
    requires
        d < 16,
    ensures
        c == hex_digit_char(d as nat),
{
    let b: u8 = d as u8;
    if b < 10 {
        let c = (b + 48) as char;
        assert(c == (((d + 48) as u32) as char));
        c
    } else {
        let c = (b + 55) as char;
        assert(c == (((d + 55) as u32) as char));
        c
    }
}

/// Appends the decimal notation of `n` to `dst` (`{}` of an unsigned integer).
pub fn push_decimal(dst: &mut Vec<char>, n: u64)
    ensures
        final(dst)@ == old(dst)@ + decimal(n as nat),
    decreases n,
{
    if n >= 10 {
        push_decimal(dst, n / 10);
    }
    let c = digit_exec(n % 10);
    dst.push(c);
    proof {
        if n >= 10 {
            assert(decimal(n as nat) == decimal((n / 10) as nat).push(digit_char((n % 10) as nat)));
        } else {
            assert(n % 10 == n);
        }
        assert(dst@ =~= old(dst)@ + decimal(n as nat));
    }
}

/// Appends `n` in decimal with leading zeros up to `width` digits
/// (`{:0width$}`).
pub fn push_decimal_zero_padded(dst: &mut Vec<char>, n: u64, width: usize)
    ensures
        final(dst)@ == old(dst)@ + decimal_zero_padded(n as nat, width as nat),
{
    let mut digits: Vec<char> = Vec::new();
    push_decimal(&mut digits, n);
    assert(digits@ =~= decimal(n as nat));
    if digits.len() < width {
        push_repeat(dst, '0', width - digits.len());
    }
    push_all(dst, &digits);
    assert(dst@ =~= old(dst)@ + decimal_zero_padded(n as nat, width as nat));
}

/// Appends a signed integer in decimal (`{}` of an `i32`).
pub fn push_signed_decimal(dst: &mut Vec<char>, n: i32)
    ensures
        final(dst)@ == old(dst)@ + signed_decimal(n as int),
{
    if n < 0 {
        dst.push('-');
        let m: u64 = (0 - (n as i64)) as u64;
        push_decimal(dst, m);
        assert(dst@ =~= old(dst)@ + signed_decimal(n as int));
    } else {
        push_decimal(dst, n as u64);
    }
}

/// Appends the `count` lowest hexadecimal digits of `n`, upper case.
pub fn push_hex(dst: &mut Vec<char>, n: u64, count: usize)
    ensures
        final(dst)@ == old(dst)@ + hex_digits(n as nat, count as nat),
    decreases count,
{
    if count == 0 {
        assert(dst@ =~= old(dst)@ + hex_digits(n as nat, count as nat));
        return;
    }
    push_hex(dst, n / 16, count - 1);
    let c = hex_digit_exec(n % 16);
    dst.push(c);
    assert(dst@ =~= old(dst)@ + hex_digits(n as nat, count as nat));
}

/// Appends the characters of a text given as a literal-like slice of chars.
pub fn push_chars(dst: &mut Vec<char>, src: &[char])
    ensures
        final(dst)@ == old(dst)@ + src@,
{
    let mut i: usize = 0;
    while i < src.len()
        invariant
            i <= src.len(),
            dst@ == old(dst)@ + src@.take(i as int),
        decreases src.len() - i,
    {
        dst.push(src[i]);
        i = i + 1;
        assert(dst@ =~= old(dst)@ + src@.take(i as int));
    }
    assert(src@.take(src@.len() as int) =~= src@);
}

/// The trimmed text fits in `max` bytes.
pub proof fn lemma_trimmed_fits(s: Seq<char>, max: int)
    requires
        utf8_len(s) > max ==> max >= 3,
    ensures
        utf8_len(trimmed(s, max)) <= max,
{
    if utf8_len(s) > max {
        let k = fit_count(s, max - 3);
        lemma_fit_count_bound(s, max - 3);
        lemma_fit_count_fits(s, max - 3);
        lemma_utf8_len_concat(s.take(k as int), ellipsis());
        lemma_utf8_len_ascii(ellipsis());
    }
}

/// The prefix counted by `fit_count` fits in the limit (for a limit of at
/// least 0).
pub proof fn lemma_fit_count_fits(s: Seq<char>, limit: int)
    requires
        limit >= 0,
    ensures
        utf8_len(s.take(fit_count(s, limit) as int)) <= limit,
    decreases s.len(),
{
    lemma_fit_count_bound(s, limit);
    if utf8_len(s) <= limit || s.len() == 0 {
        assert(s.take(s.len() as int) =~= s);
        if s.len() == 0 {
            assert(s.take(0) =~= Seq::<char>::empty());
        }
    } else {
        lemma_fit_count_fits(s.drop_last(), limit);
        lemma_fit_count_bound(s.drop_last(), limit);
        let k = fit_count(s.drop_last(), limit);
        assert(s.drop_last().take(k as int) =~= s.take(k as int));
    }
}

} // verus!
