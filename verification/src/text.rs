//! Small verified text helpers shared by the other modules.
use vstd::prelude::*;
use vstd::std_specs::iter::IteratorSpec;

verus! {

/// The lower-case form of a string as `str::to_lowercase` computes it
/// (full Unicode case mapping).
pub uninterp spec fn spec_to_lowercase(s: Seq<char>) -> Seq<char>;

/// Whether every character of a string is ASCII.
pub open spec fn spec_is_ascii(s: Seq<char>) -> bool {
    forall|i: int| 0 <= i < s.len() ==> (#[trigger] s[i] as u32) < 128
}

/// The ASCII lower case of a character: `A`..`Z` become `a`..`z`, the rest
/// stays.
pub open spec fn spec_ascii_lower(c: char) -> char {
    if 65 <= (c as u32) && (c as u32) <= 90 { ((c as u32) + 32) as char } else { c }
}

/// The ASCII lower case of a string, character by character.
pub open spec fn spec_ascii_lowercase(s: Seq<char>) -> Seq<char> {
    s.map_values(|c: char| spec_ascii_lower(c))
}

/// Lower-cases a string with the standard library's Unicode case mapping.
/// Trusted: `str::to_lowercase`; the result is the named mapping of the
/// input, and on ASCII input it is the ASCII lower case (std maps each
/// ASCII character to its ASCII lower case, one for one).
#[verifier::external_body]
pub(crate) fn to_lowercase(s: &str) -> (r: String)
    ensures
        r@ == spec_to_lowercase(s@),
        spec_is_ascii(s@) ==> r@ == spec_ascii_lowercase(s@),
{
    s.to_lowercase()
}

/// Equality of two string slices.
pub fn str_eq(a: &str, b: &str) -> (r: bool)
    ensures
        r == (a@ == b@),
{
    let sa = String::from_str(a);
    let sb = String::from_str(b);
    sa == sb
}


/// The character of a decimal digit.
pub open spec fn spec_digit(d: nat) -> char {
    if d == 0 { '0' }
    else if d == 1 { '1' }
    else if d == 2 { '2' }
    else if d == 3 { '3' }
    else if d == 4 { '4' }
    else if d == 5 { '5' }
    else if d == 6 { '6' }
    else if d == 7 { '7' }
    else if d == 8 { '8' }
    else { '9' }
}

/// Decimal notation of a natural number, without leading zeros.
pub open spec fn spec_decimal(n: nat) -> Seq<char>
    decreases n,
{
    if n < 10 {
        seq![spec_digit(n)]
    } else {
        spec_decimal(n / 10) + seq![spec_digit(n % 10)]
    }
}

/// The one-character string of a decimal digit.
pub fn digit_str(d: u64) -> (r: &'static str)
    requires
        d < 10,
    ensures
        r@ == seq![spec_digit(d as nat)],
{
    proof {
        reveal_strlit("0");
        reveal_strlit("1");
        reveal_strlit("2");
        reveal_strlit("3");
        reveal_strlit("4");
        reveal_strlit("5");
        reveal_strlit("6");
        reveal_strlit("7");
        reveal_strlit("8");
        reveal_strlit("9");
    }
    if d == 0 { "0" }
    else if d == 1 { "1" }
    else if d == 2 { "2" }
    else if d == 3 { "3" }
    else if d == 4 { "4" }
    else if d == 5 { "5" }
    else if d == 6 { "6" }
    else if d == 7 { "7" }
    else if d == 8 { "8" }
    else { "9" }
}

/// Formats a number in decimal, as `format!("{}", n)` does.
pub fn decimal_string(n: u64) -> (r: String)
    ensures
        r@ == spec_decimal(n as nat),
{
    let mut res = String::from_str(digit_str(n % 10));
    let mut m: u64 = n / 10;
    while m > 0
        invariant
            m > 0 ==> spec_decimal(n as nat) == spec_decimal(m as nat) + res@,
            m == 0 ==> spec_decimal(n as nat) == res@,
        decreases m,
    {
        let d = String::from_str(digit_str(m % 10));
        let ghost old_res = res@;
        res = d.concat(res.as_str());
        proof {
            if m >= 10 {
                assert(spec_decimal(m as nat) == spec_decimal((m / 10) as nat) + seq![spec_digit((m % 10) as nat)]);
                assert(spec_decimal(n as nat) =~= spec_decimal((m / 10) as nat) + res@);
            } else {
                assert(spec_decimal(n as nat) =~= res@);
            }
        }
        m = m / 10;
    }
    res
}

/// `needle` occurs in `hay` (the empty string occurs everywhere).
pub open spec fn spec_contains(hay: Seq<char>, needle: Seq<char>) -> bool {
    exists|i: int| 0 <= i && i + needle.len() <= hay.len() && #[trigger] hay.subrange(i, i + needle.len()) == needle
}

/// `prefix` starts `s`.
pub open spec fn spec_starts_with(s: Seq<char>, prefix: Seq<char>) -> bool {
    prefix.len() <= s.len() && s.subrange(0, prefix.len() as int) == prefix
}

/// The characters of a string, in a vector.
pub fn chars_of(s: &str) -> (v: Vec<char>)
    ensures
        v@ == s@,
{
    let n = s.unicode_len();
    let mut v: Vec<char> = Vec::new();
    let mut it = s.chars();
    proof {
        vstd::string::axiom_spec_iter(s);
        assert(s@.skip(0) =~= s@);
    }
    let mut i: usize = 0;
    while i < n
        invariant
            n == s@.len(),
            0 <= i <= n,
            v@ == s@.take(i as int),
            it.remaining() == s@.skip(i as int),
            it.obeys_prophetic_iter_laws(),
        decreases n - i,
    {
        let c = it.next();
        proof {
            assert(s@.skip(i as int).len() > 0);
        }
        match c {
            Some(ch) => {
                v.push(ch);
                assert(s@.skip(i as int).drop_first() =~= s@.skip(i + 1));
                assert(v@ =~= s@.take(i + 1));
            },
            None => {
                assert(false);
            },
        }
        i = i + 1;
    }
    assert(s@.take(n as int) =~= s@);
    v
}

/// Whether `needle` occurs at position `i` of `hay`.
fn occurs_at(hay: &Vec<char>, needle: &Vec<char>, i: usize) -> (b: bool)
    requires
        i + needle@.len() <= hay@.len(),
        hay@.len() <= usize::MAX,
    ensures
        b == (hay@.subrange(i as int, i + needle@.len()) == needle@),
{
    let mut k: usize = 0;
    while k < needle.len()
        invariant
            i + needle@.len() <= hay@.len(),
            hay@.len() <= usize::MAX,
            0 <= k <= needle@.len(),
            forall|j: int| 0 <= j < k ==> hay@[i + j] == needle@[j],
        decreases needle@.len() - k,
    {
        if hay[i + k] != needle[k] {
            assert(hay@.subrange(i as int, i + needle@.len())[k as int] != needle@[k as int]);
            return false;
        }
        k = k + 1;
    }
    assert(hay@.subrange(i as int, i + needle@.len()) =~= needle@);
    true
}

/// Whether `needle` occurs in `hay`, as `str::contains` answers.
pub fn contains_str(hay: &str, needle: &str) -> (b: bool)
    ensures
        b == spec_contains(hay@, needle@),
{
    let h = chars_of(hay);
    let n = chars_of(needle);
    if n.len() > h.len() {
        return false;
    }
    let last = h.len() - n.len();
    let mut i: usize = 0;
    loop
        invariant
            h@ == hay@,
            n@ == needle@,
            h@.len() <= usize::MAX,
            last == h@.len() - n@.len(),
            n@.len() <= h@.len(),
            0 <= i <= last,
            forall|j: int| 0 <= j < i ==> #[trigger] h@.subrange(j, j + n@.len()) != n@,
        decreases last - i,
    {
        if occurs_at(&h, &n, i) {
            return true;
        }
        if i == last {
            return false;
        }
        i = i + 1;
    }
}

/// Whether `s` starts with `prefix`.
pub fn starts_with_str(s: &str, prefix: &str) -> (b: bool)
    ensures
        b == spec_starts_with(s@, prefix@),
{
    let h = chars_of(s);
    let p = chars_of(prefix);
    if p.len() > h.len() {
        return false;
    }
    occurs_at(&h, &p, 0)
}

/// The views of a list of string slices.
pub open spec fn spec_strs(v: Seq<&str>) -> Seq<Seq<char>> {
    v.map_values(|s: &str| s@)
}

/// The views of a list of strings.
pub open spec fn spec_strings(v: Seq<String>) -> Seq<Seq<char>> {
    v.map_values(|s: String| s@)
}

/// Whether `word` is one of the words of `list`.
pub fn word_in_list(word: &str, list: &[&str]) -> (b: bool)
    ensures
        b == spec_strs(list@).contains(word@),
{
    let mut i: usize = 0;
    while i < list.len()
        invariant
            0 <= i <= list@.len(),
            forall|j: int| 0 <= j < i ==> list@[j]@ != word@,
        decreases list@.len() - i,
    {
        if str_eq(list[i], word) {
            assert(spec_strs(list@)[i as int] == word@);
            return true;
        }
        i = i + 1;
    }
    false
}

/// The UTF-8 length of a string, as `str::len` counts it.
pub open spec fn spec_byte_len(s: Seq<char>) -> nat {
    (vstd::utf8::encode_utf8(s).len() as usize) as nat
}

/// The whitespace-separated words of a string, as `str::split_whitespace`
/// yields them.
pub uninterp spec fn spec_split_whitespace(s: Seq<char>) -> Seq<Seq<char>>;

/// Splits a string into its whitespace-separated words. Trusted:
/// `str::split_whitespace`; claims that the words are the named split of
/// the input.
#[verifier::external_body]
pub(crate) fn split_whitespace(s: &str) -> (words: Vec<String>)
    ensures
        spec_strings(words@) == spec_split_whitespace(s@),
{
    s.split_whitespace().map(|w| w.to_string()).collect()
}

/// Words kept as keywords: longer than `min_bytes` bytes, lower-cased, and
/// not a stop word once lower-cased (in order).
pub open spec fn spec_keyword_candidates(words: Seq<Seq<char>>, min_bytes: nat, stop: Seq<Seq<char>>) -> Seq<Seq<char>>
    decreases words.len(),
{
    if words.len() == 0 {
        Seq::empty()
    } else {
        let prev = spec_keyword_candidates(words.drop_last(), min_bytes, stop);
        let w = words.last();
        if spec_byte_len(w) > min_bytes && !stop.contains(spec_to_lowercase(w)) {
            prev.push(spec_to_lowercase(w))
        } else {
            prev
        }
    }
}

/// The first `limit` elements of a sequence (all of it when shorter).
pub open spec fn spec_take_at_most<A>(s: Seq<A>, limit: nat) -> Seq<A> {
    if s.len() <= limit { s } else { s.take(limit as int) }
}

/// Selects keywords among words: longer than `min_bytes` bytes, lower-cased,
/// not a stop word; at most `limit` of them, in order.
pub fn select_keywords(words: &Vec<String>, min_bytes: usize, stop: &[&str], limit: usize) -> (r: Vec<String>)
    ensures
        spec_strings(r@) == spec_take_at_most(spec_keyword_candidates(spec_strings(words@), min_bytes as nat, spec_strs(stop@)), limit as nat),
{
    let ghost ws = spec_strings(words@);
    let ghost st = spec_strs(stop@);
    let mut r: Vec<String> = Vec::new();
    let mut i: usize = 0;
    while i < words.len()
        invariant
            0 <= i <= words@.len(),
            ws == spec_strings(words@),
            st == spec_strs(stop@),
            spec_strings(r@) == spec_take_at_most(spec_keyword_candidates(ws.take(i as int), min_bytes as nat, st), limit as nat),
        decreases words@.len() - i,
    {
        let w = &words[i];
        let ghost prev = spec_keyword_candidates(ws.take(i as int), min_bytes as nat, st);
        proof {
            assert(ws.take(i + 1).drop_last() =~= ws.take(i as int));
            assert(ws.take(i + 1).last() == w@);
            assert(spec_keyword_candidates(ws.take(i + 1), min_bytes as nat, st) == if spec_byte_len(w@) > min_bytes && !st.contains(spec_to_lowercase(w@)) {
                prev.push(spec_to_lowercase(w@))
            } else {
                prev
            });
        }
        if w.as_str().len() > min_bytes {
            let lower = to_lowercase(w.as_str());
            if !word_in_list(lower.as_str(), stop) {
                if r.len() < limit {
                    let ghost before = r@;
                    r.push(lower);
                    proof {
                        assert(spec_strings(r@) =~= spec_strings(before).push(lower@));
                        assert(prev.len() < limit);
                    }
                } else {
                    proof {
                        assert(spec_take_at_most(prev.push(lower@), limit as nat) =~= spec_take_at_most(prev, limit as nat));
                    }
                }
            }
        }
        i = i + 1;
    }
    assert(ws.take(words@.len() as int) =~= ws);
    r
}

/// Characters with the Unicode `White_Space` property, as
/// `char::is_whitespace` recognises them.
pub open spec fn spec_is_whitespace(c: char) -> bool {
    ||| ('\u{9}' <= c && c <= '\u{d}')
    ||| c == ' '
    ||| c == '\u{85}'
    ||| c == '\u{a0}'
    ||| c == '\u{1680}'
    ||| ('\u{2000}' <= c && c <= '\u{200a}')
    ||| c == '\u{2028}'
    ||| c == '\u{2029}'
    ||| c == '\u{202f}'
    ||| c == '\u{205f}'
    ||| c == '\u{3000}'
}

/// Whether a character is whitespace.
pub fn is_whitespace(c: char) -> (b: bool)
    ensures
        b == spec_is_whitespace(c),
{
    ('\u{9}' <= c && c <= '\u{d}') || c == ' ' || c == '\u{85}' || c == '\u{a0}' || c == '\u{1680}'
        || ('\u{2000}' <= c && c <= '\u{200a}') || c == '\u{2028}' || c == '\u{2029}' || c == '\u{202f}'
        || c == '\u{205f}' || c == '\u{3000}'
}

/// A string without its leading whitespace.
pub open spec fn spec_trim_start(s: Seq<char>) -> Seq<char>
    decreases s.len(),
{
    if s.len() > 0 && spec_is_whitespace(s[0]) { spec_trim_start(s.drop_first()) } else { s }
}

/// A string without its trailing whitespace.
pub open spec fn spec_trim_end(s: Seq<char>) -> Seq<char>
    decreases s.len(),
{
    if s.len() > 0 && spec_is_whitespace(s.last()) { spec_trim_end(s.drop_last()) } else { s }
}

/// A string without leading and trailing whitespace, as `str::trim` gives it.
pub open spec fn spec_trim(s: Seq<char>) -> Seq<char> {
    spec_trim_end(spec_trim_start(s))
}

/// Removes leading and trailing whitespace.
pub fn trim_str(s: &str) -> (r: &str)
    ensures
        r@ == spec_trim(s@),
{
    let v = chars_of(s);
    let n = v.len();
    let mut i: usize = 0;
    assert(s@.skip(0) =~= s@);
    while i < n && is_whitespace(v[i])
        invariant
            v@ == s@,
            n == s@.len(),
            0 <= i <= n,
            spec_trim_start(s@) == spec_trim_start(s@.skip(i as int)),
        decreases n - i,
    {
        assert(s@.skip(i as int).drop_first() =~= s@.skip(i + 1));
        i = i + 1;
    }
    let mut j: usize = n;
    assert(s@.skip(i as int) =~= s@.subrange(i as int, n as int));
    while j > i && is_whitespace(v[j - 1])
        invariant
            v@ == s@,
            n == s@.len(),
            0 <= i <= j <= n,
            spec_trim(s@) == spec_trim_end(s@.subrange(i as int, j as int)),
            i < n ==> !spec_is_whitespace(s@[i as int]),
        decreases j - i,
    {
        assert(s@.subrange(i as int, j as int).drop_last() =~= s@.subrange(i as int, j - 1));
        j = j - 1;
    }
    s.substring_char(i, j)
}

/// The part of a line before its first `//`.
pub open spec fn spec_cut_comment(t: Seq<char>) -> Seq<char>
    decreases t.len(),
{
    if t.len() < 2 {
        t
    } else if t[0] == '/' && t[1] == '/' {
        Seq::empty()
    } else {
        seq![t[0]] + spec_cut_comment(t.drop_first())
    }
}

/// Cuts a line at its first `//`.
pub fn cut_comment(t: &str) -> (r: &str)
    ensures
        r@ == spec_cut_comment(t@),
{
    let v = chars_of(t);
    let n = v.len();
    let mut i: usize = 0;
    assert(t@.skip(0) =~= t@);
    assert(t@.take(0) + t@ =~= t@);
    while i < n && n - i >= 2 && !(v[i] == '/' && v[i + 1] == '/')
        invariant
            v@ == t@,
            n == t@.len(),
            0 <= i <= n,
            spec_cut_comment(t@) == t@.take(i as int) + spec_cut_comment(t@.skip(i as int)),
        decreases n - i,
    {
        proof {
            let rest = t@.skip(i as int);
            assert(rest.drop_first() =~= t@.skip(i + 1));
            assert(rest[0] == t@[i as int]);
            assert(t@.take(i + 1) =~= t@.take(i as int) + seq![t@[i as int]]);
        }
        i = i + 1;
    }
    proof {
        let rest = t@.skip(i as int);
        if i < n && n - i >= 2 {
            assert(spec_cut_comment(rest) =~= Seq::<char>::empty());
            assert(t@.take(i as int) + Seq::<char>::empty() =~= t@.take(i as int));
        } else {
            assert(spec_cut_comment(rest) == rest);
            assert(t@.take(i as int) + rest =~= t@);
        }
    }
    if i < n && n - i >= 2 {
        t.substring_char(0, i)
    } else {
        t.substring_char(0, n)
    }
}

/// Parts joined with a separator.
pub open spec fn spec_join(parts: Seq<Seq<char>>, sep: Seq<char>) -> Seq<char>
    decreases parts.len(),
{
    if parts.len() == 0 {
        Seq::empty()
    } else if parts.len() == 1 {
        parts[0]
    } else {
        spec_join(parts.drop_last(), sep) + sep + parts.last()
    }
}

/// Joins strings with a separator, as `[String]::join` does.
pub fn join_strings(parts: &[String], sep: &str) -> (r: String)
    ensures
        r@ == spec_join(spec_strings(parts@), sep@),
{
    let ghost ps = spec_strings(parts@);
    let mut r = String::new();
    let mut i: usize = 0;
    while i < parts.len()
        invariant
            0 <= i <= parts@.len(),
            ps == spec_strings(parts@),
            r@ == spec_join(ps.take(i as int), sep@),
        decreases parts@.len() - i,
    {
        proof {
            assert(ps.take(i + 1).drop_last() =~= ps.take(i as int));
            assert(ps.take(i + 1).last() == parts@[i as int]@);
        }
        if i == 0 {
            r = String::from_str(parts[i].as_str());
            assert(ps.take(1) =~= seq![parts@[0]@]);
        } else {
            r = r.concat(sep).concat(parts[i].as_str());
        }
        i = i + 1;
    }
    assert(ps.take(parts@.len() as int) =~= ps);
    r
}

/// The first `limit` characters of a string (all of it when shorter).
pub fn truncate_chars(s: &str, limit: usize) -> (r: &str)
    ensures
        r@ == spec_take_at_most(s@, limit as nat),
{
    let n = s.unicode_len();
    if n <= limit {
        assert(s@.subrange(0, n as int) =~= s@);
        s.substring_char(0, n)
    } else {
        s.substring_char(0, limit)
    }
}

/// The lines of a string, as `str::lines` yields them.
pub uninterp spec fn spec_lines(s: Seq<char>) -> Seq<Seq<char>>;

/// Splits a string into lines. Trusted: `str::lines`; claims that the lines
/// are the named split of the input.
#[verifier::external_body]
pub(crate) fn lines_of(s: &str) -> (lines: Vec<String>)
    ensures
        spec_strings(lines@) == spec_lines(s@),
{
    s.lines().map(|l| l.to_string()).collect()
}

/// Decimal notation of an integer, with a leading minus when negative.
pub open spec fn spec_signed_decimal(i: int) -> Seq<char> {
    if i < 0 { "-"@ + spec_decimal((-i) as nat) } else { spec_decimal(i as nat) }
}

/// Formats a signed number in decimal, as `format!("{}", i)` does.
pub fn signed_decimal_string(i: i64) -> (r: String)
    ensures
        r@ == spec_signed_decimal(i as int),
{
    if i < 0 {
        let m: u64 = if i == i64::MIN { 9223372036854775808u64 } else { (-i) as u64 };
        let d = decimal_string(m);
        join2("-", d.as_str())
    } else {
        decimal_string(i as u64)
    }
}

/// Concatenation of two string slices into a new string.
pub fn join2(a: &str, b: &str) -> (r: String)
    ensures
        r@ == a@ + b@,
{
    String::from_str(a).concat(b)
}

/// Concatenation of three string slices into a new string.
pub fn join3(a: &str, b: &str, c: &str) -> (r: String)
    ensures
        r@ == a@ + b@ + c@,
{
    String::from_str(a).concat(b).concat(c)
}

/// The 64-bit hash that the standard library's `DefaultHasher::new()` gives a
/// string (SipHash-1-3 with fixed zero keys; the same in every process built
/// with the same standard library).
pub uninterp spec fn spec_std_hash(s: Seq<char>) -> u64;

/// Hashes a string with `DefaultHasher`. Trusted: `Hash for str` fed to
/// `std::collections::hash_map::DefaultHasher::new()` and `finish`; claims
/// only that the result is the named hash of the string.
#[verifier::external_body]
pub(crate) fn std_hash(s: &str) -> (h: u64)
    ensures
        h == spec_std_hash(s@),
{
    let mut hasher = std::collections::hash_map::DefaultHasher::new();
    std::hash::Hash::hash(s, &mut hasher);
    std::hash::Hasher::finish(&hasher)
}

/// Whether a character is an ASCII decimal digit.
pub open spec fn spec_is_digit(c: char) -> bool {
    '0' <= c && c <= '9'
}

/// Value of a decimal digit character.
pub open spec fn spec_char_digit(c: char) -> nat {
    (c as int - 48) as nat
}

/// Value of a string of decimal digits.
pub open spec fn spec_digits_value(d: Seq<char>) -> nat
    decreases d.len(),
{
    if d.len() == 0 { 0 } else { spec_digits_value(d.drop_last()) * 10 + spec_char_digit(d.last()) }
}

/// A number's text without its leading `+`, if any.
pub open spec fn spec_unsigned_part(s: Seq<char>) -> Seq<char> {
    if s.len() > 0 && s[0] == '+' { s.drop_first() } else { s }
}

/// Every character is a decimal digit.
pub open spec fn spec_all_digits(d: Seq<char>) -> bool {
    forall|i: int| 0 <= i < d.len() ==> spec_is_digit(#[trigger] d[i])
}

/// `str::parse::<u32>`: an optional `+`, then one or more decimal digits
/// whose value fits in 32 bits.
pub open spec fn spec_parse_u32(s: Seq<char>) -> Option<u32> {
    let d = spec_unsigned_part(s);
    if d.len() > 0 && spec_all_digits(d) && spec_digits_value(d) <= u32::MAX {
        Some(spec_digits_value(d) as u32)
    } else {
        None
    }
}

proof fn lemma_digits_value_mono(d: Seq<char>, k: int)
    requires
        0 <= k <= d.len(),
        forall|i: int| 0 <= i < d.len() ==> spec_is_digit(#[trigger] d[i]),
    ensures
        spec_digits_value(d.take(k)) <= spec_digits_value(d),
    decreases d.len() - k,
{
    if k < d.len() {
        lemma_digits_value_mono(d, k + 1);
        assert(d.take(k + 1).drop_last() =~= d.take(k));
    } else {
        assert(d.take(k) =~= d);
    }
}

/// Parses a decimal number as `str::parse::<u32>` does.
pub fn parse_u32(s: &str) -> (r: Option<u32>)
    ensures
        r == spec_parse_u32(s@),
{
    let v = chars_of(s);
    let n = v.len();
    let start: usize = if n > 0 && v[0] == '+' { 1 } else { 0 };
    let ghost d = spec_unsigned_part(s@);
    assert(d =~= s@.subrange(start as int, n as int));
    if start >= n {
        return None;
    }
    let mut value: u64 = 0;
    let mut i: usize = start;
    while i < n
        invariant
            v@ == s@,
            n == s@.len(),
            start <= i <= n,
            start < n,
            d == s@.subrange(start as int, n as int),
            d == spec_unsigned_part(s@),
            forall|k: int| start <= k < i ==> spec_is_digit(#[trigger] s@[k]),
            value == spec_digits_value(d.take(i - start)),
            value <= u32::MAX,
        decreases n - i,
    {
        let c = v[i];
        assert(d[i - start] == s@[i as int]);
        if !('0' <= c && c <= '9') {
            assert(!spec_is_digit(d[i - start]));
            assert(!spec_all_digits(d));
            return None;
        }
        let digit: u64 = (c as u32 - '0' as u32) as u64;
        proof {
            assert(d.take(i - start + 1).drop_last() =~= d.take(i - start));
            assert(d.take(i - start + 1).last() == c);
        }
        let next: u64 = value * 10 + digit;
        if next > 0xffff_ffff {
            proof {
                assert(spec_char_digit(c) == digit);
                assert(spec_digits_value(d.take(i - start + 1)) == next);
                if spec_all_digits(d) {
                    lemma_digits_value_mono(d, i - start + 1);
                    assert(spec_digits_value(d) > u32::MAX);
                }
            }
            return None;
        }
        value = next;
        i = i + 1;
    }
    assert(d.take(n - start) =~= d);
    Some(value as u32)
}

/// The character of a hexadecimal digit (lower case).
pub open spec fn spec_hex_digit(d: nat) -> char {
    if d < 10 { spec_digit(d) }
    else if d == 10 { 'a' }
    else if d == 11 { 'b' }
    else if d == 12 { 'c' }
    else if d == 13 { 'd' }
    else if d == 14 { 'e' }
    else { 'f' }
}

/// Lower-case hexadecimal notation of a natural number, without leading
/// zeros, as `format!("{:x}", n)` writes it.
pub open spec fn spec_hex(n: nat) -> Seq<char>
    decreases n,
{
    if n < 16 {
        seq![spec_hex_digit(n)]
    } else {
        spec_hex(n / 16) + seq![spec_hex_digit(n % 16)]
    }
}

fn hex_digit_str(d: u64) -> (r: &'static str)
    requires
        d < 16,
    ensures
        r@ == seq![spec_hex_digit(d as nat)],
{
    if d < 10 {
        return digit_str(d);
    }
    proof {
        reveal_strlit("a");
        reveal_strlit("b");
        reveal_strlit("c");
        reveal_strlit("d");
        reveal_strlit("e");
        reveal_strlit("f");
    }
    if d == 10 { "a" }
    else if d == 11 { "b" }
    else if d == 12 { "c" }
    else if d == 13 { "d" }
    else if d == 14 { "e" }
    else { "f" }
}

/// Formats a number in lower-case hexadecimal, as `format!("{:x}", n)`.
pub fn hex_string(n: u64) -> (r: String)
    ensures
        r@ == spec_hex(n as nat),
{
    let mut res = String::from_str(hex_digit_str(n % 16));
    let mut m: u64 = n / 16;
    while m > 0
        invariant
            m > 0 ==> spec_hex(n as nat) == spec_hex(m as nat) + res@,
            m == 0 ==> spec_hex(n as nat) == res@,
        decreases m,
    {
        let d = String::from_str(hex_digit_str(m % 16));
        res = d.concat(res.as_str());
        proof {
            if m >= 16 {
                assert(spec_hex(m as nat) == spec_hex((m / 16) as nat) + seq![spec_hex_digit((m % 16) as nat)]);
                assert(spec_hex(n as nat) =~= spec_hex((m / 16) as nat) + res@);
            } else {
                assert(spec_hex(n as nat) =~= res@);
            }
        }
        m = m / 16;
    }
    res
}

/// Two strings are equal up to ASCII case.
pub open spec fn spec_same_ignoring_case(a: Seq<char>, b: Seq<char>) -> bool {
    &&& a.len() == b.len()
    &&& forall|i: int| 0 <= i < a.len() ==> spec_ascii_lower(#[trigger] a[i]) == spec_ascii_lower(b[i])
}

/// Strings equal up to ASCII case have the same ASCII lower case.
pub proof fn lemma_same_lowercase(a: Seq<char>, b: Seq<char>)
    requires
        spec_same_ignoring_case(a, b),
    ensures
        spec_ascii_lowercase(a) == spec_ascii_lowercase(b),
{
    assert(spec_ascii_lowercase(a) =~= spec_ascii_lowercase(b));
}

/// A word of lower-case letters is ASCII and its own ASCII lower case.
pub proof fn lemma_lowercase_word(s: Seq<char>)
    requires
        forall|i: int| 0 <= i < s.len() ==> 97 <= (#[trigger] s[i] as u32) <= 122,
    ensures
        spec_is_ascii(s),
        spec_ascii_lowercase(s) == s,
{
    assert(spec_ascii_lowercase(s) =~= s);
}

} // verus!
