//! Verified string building blocks: decimal rendering, padding, character classes.

use vstd::prelude::*;
use vstd::string::*;

verus! {

/// The character for a decimal digit.
pub open spec fn digit_char(d: nat) -> char {
    ((48 + d) as u32) as char
}

/// Decimal digits of a natural number, most significant first, without leading zeros.
pub open spec fn nat_text(n: nat) -> Seq<char>
    decreases n,
{
    if n < 10 {
        seq![digit_char(n)]
    } else {
        nat_text(n / 10) + seq![digit_char(n % 10)]
    }
}

/// Decimal rendering of an integer as Rust's `Display` writes it.
pub open spec fn int_text(v: int) -> Seq<char> {
    if v < 0 {
        seq!['-'] + nat_text((-v) as nat)
    } else {
        nat_text(v as nat)
    }
}

/// Appends one character; `String::push` from std.
#[verifier::external_body]
pub fn push_char(s: &mut String, c: char)
    ensures
        final(s)@ == old(s)@.push(c),
{
    s.push(c);
}

/// The character of a decimal digit.
pub fn digit(d: u128) -> (c: char)
    requires
        d < 10,
    ensures
        c == digit_char(d as nat),
{
    let b: u8 = d as u8;
    (b + 48) as char
}

/// Decimal text of an unsigned value.
pub fn u128_text(n: u128) -> (s: String)
    ensures
        s@ == nat_text(n as nat),
    decreases n,
{
    if n < 10 {
        let mut s = String::new();
        push_char(&mut s, digit(n));
        s
    } else {
        let mut s = u128_text(n / 10);
        push_char(&mut s, digit(n % 10));
        s
    }
}

/// Decimal text of a signed value.
pub fn i64_text(v: i64) -> (s: String)
    ensures
        s@ == int_text(v as int),
{
    if v < 0 {
        let m: i128 = -(v as i128);
        let mut s = String::new();
        push_char(&mut s, '-');
        let digits = u128_text(m as u128);
        s.append(digits.as_str());
        s
    } else {
        u128_text(v as u128)
    }
}

/// Decimal text of a `usize`.
pub fn usize_text(v: usize) -> (s: String)
    ensures
        s@ == int_text(v as int),
{
    u128_text(v as u128)
}

} // verus!

verus! {

/// The characters of `s`, in order.
pub fn char_vec(s: &str) -> (v: Vec<char>)
    ensures
        v@ == s@,
{
    let mut v: Vec<char> = Vec::new();
    for c in it: s.chars()
        invariant
            v@ == it.seq().take(it.index() as int),
            it.seq() == s@,
    {
        v.push(c);
    }
    v
}

} // verus!

verus! {

/// Unicode `White_Space`, the class that `char::is_whitespace` and `str::trim` use.
pub open spec fn is_white_space(c: char) -> bool {
    ||| ('\u{9}' <= c && c <= '\u{d}')
    ||| c == ' '
    ||| c == '\u{85}'
    ||| c == '\u{a0}'
    ||| c == '\u{1680}'
    ||| ('\u{2000}' <= c && c <= '\u{200a}')
    ||| c == '\u{2028}'
    ||| c == '\u{2029}'
    ||| c == '\u{202f}'
    ||| c == '\u{205f}'
    ||| c == '\u{3000}'
}

/// A text that is empty once trimmed: every character is white space.
pub open spec fn is_blank_text(s: Seq<char>) -> bool {
    forall|i: int| 0 <= i < s.len() ==> is_white_space(#[trigger] s[i])
}

/// Whether `c` is white space, as `char::is_whitespace` decides.
pub fn white_space(c: char) -> (r: bool)
    ensures
        r == is_white_space(c),
{
    ('\u{9}' <= c && c <= '\u{d}') || c == ' ' || c == '\u{85}' || c == '\u{a0}' || c == '\u{1680}'
        || ('\u{2000}' <= c && c <= '\u{200a}') || c == '\u{2028}' || c == '\u{2029}'
        || c == '\u{202f}' || c == '\u{205f}' || c == '\u{3000}'
}

/// Whether `s.trim()` is empty.
pub fn is_blank(s: &str) -> (r: bool)
    ensures
        r == is_blank_text(s@),
{
    let chars = char_vec(s);
    let n = chars.len();
    let mut i: usize = 0;
    while i < n
        invariant
            chars@ == s@,
            n == chars@.len(),
            i <= n,
            forall|j: int| 0 <= j < i ==> is_white_space(#[trigger] s@[j]),
        decreases n - i,
    {
        if !white_space(chars[i]) {
            return false;
        }
        i = i + 1;
    }
    true
}

/// `n` copies of `c`.
pub open spec fn repeat_char(c: char, n: nat) -> Seq<char>
    decreases n,
{
    if n == 0 {
        Seq::empty()
    } else {
        repeat_char(c, (n - 1) as nat).push(c)
    }
}

/// `s` followed by spaces up to `width` characters, as `format!("{:<width$}", s)` writes it.
pub open spec fn padded_right(s: Seq<char>, width: nat) -> Seq<char> {
    if s.len() < width {
        s + repeat_char(' ', (width - s.len()) as nat)
    } else {
        s
    }
}

/// Spaces up to `width` characters followed by `s`, as `format!("{:>width$}", s)` writes it.
pub open spec fn padded_left(s: Seq<char>, width: nat) -> Seq<char> {
    if s.len() < width {
        repeat_char(' ', (width - s.len()) as nat) + s
    } else {
        s
    }
}

/// Appends `n` spaces.
pub fn push_spaces(out: &mut String, n: usize)
    ensures
        final(out)@ == old(out)@ + repeat_char(' ', n as nat),
{
    let mut k: usize = 0;
    while k < n
        invariant
            k <= n,
            out@ == old(out)@ + repeat_char(' ', k as nat),
        decreases n - k,
    {
        push_char(out, ' ');
        proof {
            assert(repeat_char(' ', (k + 1) as nat) == repeat_char(' ', k as nat).push(' '));
            assert(old(out)@ + repeat_char(' ', (k + 1) as nat) =~= (old(out)@ + repeat_char(' ', k as nat)).push(' '));
        }
        k = k + 1;
    }
}

/// Appends `s` left-aligned in a field of `width` characters.
pub fn push_padded_right(out: &mut String, s: &str, width: usize)
    ensures
        final(out)@ == old(out)@ + padded_right(s@, width as nat),
{
    let len = s.unicode_len();
    out.append(s);
    if len < width {
        push_spaces(out, width - len);
    }
    proof {
        assert(old(out)@ + padded_right(s@, width as nat) =~= final(out)@);
    }
}

/// Appends `s` right-aligned in a field of `width` characters.
pub fn push_padded_left(out: &mut String, s: &str, width: usize)
    ensures
        final(out)@ == old(out)@ + padded_left(s@, width as nat),
{
    let len = s.unicode_len();
    if len < width {
        push_spaces(out, width - len);
    }
    out.append(s);
    proof {
        assert(old(out)@ + padded_left(s@, width as nat) =~= final(out)@);
    }
}

/// The parts joined with `sep` between neighbours.
pub open spec fn joined(parts: Seq<Seq<char>>, sep: Seq<char>) -> Seq<char>
    decreases parts.len(),
{
    if parts.len() == 0 {
        Seq::empty()
    } else if parts.len() == 1 {
        parts[0]
    } else {
        joined(parts.drop_last(), sep) + sep + parts.last()
    }
}

/// The texts of a sequence of strings.
pub open spec fn texts(v: Seq<String>) -> Seq<Seq<char>> {
    v.map_values(|s: String| s@)
}

/// Joins strings with a separator, as `[String]::join` does.
pub fn join_strings(parts: &Vec<String>, sep: &str) -> (r: String)
    ensures
        r@ == joined(texts(parts@), sep@),
{
    let mut out = String::new();
    let n = parts.len();
    let mut i: usize = 0;
    while i < n
        invariant
            n == parts@.len(),
            i <= n,
            out@ == joined(texts(parts@.take(i as int)), sep@),
        decreases n - i,
    {
        proof {
            assert(texts(parts@.take(i + 1)).drop_last() =~= texts(parts@.take(i as int)));
            assert(texts(parts@.take(i + 1)).last() == parts@[i as int]@);
        }
        if i > 0 {
            out.append(sep);
        }
        out.append(parts[i].as_str());
        i = i + 1;
    }
    proof {
        assert(parts@.take(n as int) =~= parts@);
    }
    out
}

/// `pat` occurs in `text` as a contiguous run.
pub open spec fn has_substring(text: Seq<char>, pat: Seq<char>) -> bool {
    exists|i: int| 0 <= i <= text.len() - pat.len() && #[trigger] text.subrange(i, i + pat.len()) == pat
}

/// Whether `pat` occurs in `text`, as `str::contains` with a string pattern decides.
pub fn contains_text(text: &str, pat: &str) -> (r: bool)
    ensures
        r == has_substring(text@, pat@),
{
    let t = char_vec(text);
    let p = char_vec(pat);
    let n = t.len();
    let m = p.len();
    if m > n {
        return false;
    }
    let last = n - m;
    let mut i: usize = 0;
    while i <= last
        invariant
            t@ == text@,
            p@ == pat@,
            n == t@.len(),
            m == p@.len(),
            m <= n,
            last == n - m,
            i <= last + 1,
            forall|k: int| 0 <= k < i ==> #[trigger] text@.subrange(k, k + m) != pat@,
        decreases last + 1 - i,
    {
        let mut j: usize = 0;
        let mut same = true;
        while j < m && same
            invariant
                t@ == text@,
                p@ == pat@,
                n == t@.len(),
                m == p@.len(),
                i + m <= n,
                j <= m,
                forall|l: int| 0 <= l < j ==> text@[i + l] == pat@[l],
                !same ==> j < m && text@[i + j] != pat@[j as int],
            decreases (m - j) * 2 + (if same { 1int } else { 0int }),
        {
            if t[i + j] != p[j] {
                same = false;
            } else {
                j = j + 1;
            }
        }
        if same {
            assert(text@.subrange(i as int, i + m) =~= pat@);
            return true;
        }
        assert(text@.subrange(i as int, i + m)[j as int] != pat@[j as int]);
        i = i + 1;
    }
    false
}

} // verus!

verus! {

/// Whether one of the strings equals `s`.
pub fn list_contains(v: &Vec<String>, s: &str) -> (r: bool)
    ensures
        r == texts(v@).contains(s@),
{
    let target = String::from_str(s);
    let n = v.len();
    let mut i: usize = 0;
    while i < n
        invariant
            n == v@.len(),
            i <= n,
            target@ == s@,
            forall|j: int| 0 <= j < i ==> v@[j]@ != s@,
        decreases n - i,
    {
        if v[i] == target {
            assert(texts(v@)[i as int] == s@);
            return true;
        }
        i = i + 1;
    }
    proof {
        if texts(v@).contains(s@) {
            let j = choose|j: int| 0 <= j < texts(v@).len() && texts(v@)[j] == s@;
            assert(v@[j]@ == s@);
        }
    }
    false
}

} // verus!

verus! {

/// `part` appended to the path `base` as `Path::join` does for a relative `part` on Unix:
/// separated by '/' unless `base` is empty or already ends with '/'.
pub open spec fn joined_path(base: Seq<char>, part: Seq<char>) -> Seq<char> {
    if base.len() == 0 {
        part
    } else if base.last() == '/' {
        base + part
    } else {
        base + "/"@ + part
    }
}

/// Joins a relative path component onto a path.
pub fn path_join(base: &str, part: &str) -> (r: String)
    ensures
        r@ == joined_path(base@, part@),
{
    let n = base.unicode_len();
    if n == 0 {
        return String::from_str(part);
    }
    let last = base.get_char(n - 1);
    let mut r = String::from_str(base);
    if last != '/' {
        r.append("/");
    }
    r.append(part);
    r
}

} // verus!

verus! {

/// `text` cut to at most `max` characters, ending with "..." when it was cut.
pub open spec fn truncated(text: Seq<char>, max: nat) -> Seq<char> {
    if text.len() <= max {
        text
    } else {
        text.take(if max >= 3 { max - 3 } else { 0 }) + "..."@
    }
}

/// A text of at most `max` characters is kept whole; a longer one is cut to exactly `max`
/// characters when `max` leaves room for the "..." (at least 3), and keeps its beginning.
pub proof fn lemma_truncated_fits(text: Seq<char>, max: nat)
    ensures
        text.len() <= max ==> truncated(text, max) == text,
        text.len() > max && max >= 3 ==> truncated(text, max).len() == max,
        text.len() > max ==> truncated(text, max).take(truncated(text, max).len() - 3) =~= text.take(
            truncated(text, max).len() - 3,
        ),
{
    reveal_strlit("...");
    if text.len() > max {
        let keep: int = if max >= 3 { max - 3 } else { 0 };
        assert(truncated(text, max) == text.take(keep) + "..."@);
        assert(truncated(text, max).len() == keep + 3);
        assert(truncated(text, max).take(keep) =~= text.take(keep));
    }
}

/// Shortens `text` to at most `max` characters, ending with "..." when cut. Characters are
/// counted, not bytes, so a multi-byte character is never split.
pub fn truncate_chars(text: &str, max: usize) -> (r: String)
    ensures
        r@ == truncated(text@, max as nat),
{
    let chars = char_vec(text);
    if chars.len() <= max {
        return String::from_str(text);
    }
    let keep: usize = if max >= 3 { max - 3 } else { 0 };
    let mut r = String::new();
    let mut i: usize = 0;
    while i < keep
        invariant
            chars@ == text@,
            keep < chars@.len(),
            i <= keep,
            r@ == text@.take(i as int),
        decreases keep - i,
    {
        push_char(&mut r, chars[i]);
        assert(text@.take(i + 1) =~= text@.take(i as int).push(text@[i as int]));
        i = i + 1;
    }
    r.append("...");
    r
}

/// The first position at or after `i` that holds no white space, or the length.
pub open spec fn solid_start(s: Seq<char>, i: nat) -> nat
    decreases s.len() - i,
{
    if i < s.len() && is_white_space(s[i as int]) {
        solid_start(s, i + 1)
    } else {
        i
    }
}

/// The end of `s[..j]` once white space at its end is dropped, going no lower than `lo`.
pub open spec fn solid_end(s: Seq<char>, j: nat, lo: nat) -> nat
    decreases j,
{
    if j > lo && j <= s.len() && is_white_space(s[j - 1]) {
        solid_end(s, (j - 1) as nat, lo)
    } else {
        j
    }
}

/// `s` without white space at either end, as `str::trim` returns it.
pub open spec fn trimmed(s: Seq<char>) -> Seq<char> {
    let a = solid_start(s, 0);
    s.subrange(a as int, solid_end(s, s.len(), a) as int)
}

/// Removes white space from both ends.
pub fn trim_text(s: &str) -> (r: String)
    ensures
        r@ == trimmed(s@),
{
    let chars = char_vec(s);
    let n = chars.len();
    let mut a: usize = 0;
    while a < n && white_space(chars[a])
        invariant
            chars@ == s@,
            n == s@.len(),
            a <= n,
            solid_start(s@, 0) == solid_start(s@, a as nat),
        decreases n - a,
    {
        a = a + 1;
    }
    assert(solid_start(s@, a as nat) == a);
    let mut b: usize = n;
    while b > a && white_space(chars[b - 1])
        invariant
            chars@ == s@,
            n == s@.len(),
            a <= b <= n,
            solid_end(s@, n as nat, a as nat) == solid_end(s@, b as nat, a as nat),
        decreases b,
    {
        b = b - 1;
    }
    assert(solid_end(s@, b as nat, a as nat) == b);
    let mut r = String::new();
    let mut i: usize = a;
    while i < b
        invariant
            chars@ == s@,
            a <= i <= b <= n,
            n == s@.len(),
            r@ == s@.subrange(a as int, i as int),
        decreases b - i,
    {
        push_char(&mut r, chars[i]);
        assert(s@.subrange(a as int, i + 1) =~= s@.subrange(a as int, i as int).push(s@[i as int]));
        i = i + 1;
    }
    r
}

} // verus!
