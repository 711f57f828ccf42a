//! Character-level text helpers shared by every renderer and parser.
//!
//! Widths on screen are counted in characters, never in bytes: the
//! separators (`·`) and the ellipsis (`…`) are multi-byte, and a byte count
//! would reserve room that is not there. So everything here works on the
//! `Seq<char>` view of a string.

use vstd::prelude::*;
use vstd::string::*;

verus! {

/// The ellipsis every renderer uses to say "something was cut here".
pub open spec fn ellipsis() -> char {
    '\u{2026}'
}

/// Unicode `White_Space`, which is what `char::is_whitespace` answers.
pub open spec fn is_space(c: char) -> bool {
    let n = c as u32;
    ||| 9 <= n <= 13
    ||| n == 32
    ||| n == 0x85
    ||| n == 0xA0
    ||| n == 0x1680
    ||| 0x2000 <= n <= 0x200A
    ||| n == 0x2028
    ||| n == 0x2029
    ||| n == 0x202F
    ||| n == 0x205F
    ||| n == 0x3000
}

/// `char::is_whitespace`.
pub fn is_whitespace(c: char) -> (res: bool)
    ensures
        res == is_space(c),
{
    let n = c as u32;
    (9 <= n && n <= 13) || n == 32 || n == 0x85 || n == 0xA0 || n == 0x1680 || (0x2000 <= n
        && n <= 0x200A) || n == 0x2028 || n == 0x2029 || n == 0x202F || n == 0x205F || n == 0x3000
}

/// Index of the first non-space character at or after `i`, or the length.
pub open spec fn skip_spaces(s: Seq<char>, i: int) -> int
    decreases s.len() - i,
{
    if i >= s.len() {
        s.len() as int
    } else if is_space(s[i]) {
        skip_spaces(s, i + 1)
    } else {
        i
    }
}

/// End of `s.take(j)` once its trailing whitespace is gone.
pub open spec fn trim_end_at(s: Seq<char>, j: int) -> int
    decreases j,
{
    if j <= 0 {
        0
    } else if is_space(s[j - 1]) {
        trim_end_at(s, j - 1)
    } else {
        j
    }
}

/// `str::trim`: the text without leading or trailing whitespace.
pub open spec fn trim(s: Seq<char>) -> Seq<char> {
    let a = skip_spaces(s, 0);
    let b = trim_end_at(s, s.len() as int);
    if a < b {
        s.subrange(a, b)
    } else {
        Seq::empty()
    }
}

/// The whitespace-separated words of `s[i..]`, `cur` being a word already
/// begun before `i`.
pub open spec fn words_from(s: Seq<char>, i: int, cur: Seq<char>) -> Seq<Seq<char>>
    decreases s.len() - i,
{
    if i >= s.len() {
        if cur.len() > 0 {
            seq![cur]
        } else {
            Seq::empty()
        }
    } else if is_space(s[i]) {
        (if cur.len() > 0 {
            seq![cur]
        } else {
            Seq::<Seq<char>>::empty()
        }) + words_from(s, i + 1, Seq::empty())
    } else {
        words_from(s, i + 1, cur.push(s[i]))
    }
}

/// `str::split_whitespace`: the non-empty runs of non-whitespace.
pub open spec fn words(s: Seq<char>) -> Seq<Seq<char>> {
    words_from(s, 0, Seq::empty())
}

/// A line as `str::lines` hands it out: a `\r` is dropped only when it
/// stood right before the `\n` that ended the line.
pub open spec fn strip_cr(line: Seq<char>) -> Seq<char> {
    if line.len() > 0 && line.last() == '\r' {
        line.drop_last()
    } else {
        line
    }
}

/// The lines of `s[i..]`, `cur` being a line already begun before `i`.
pub open spec fn lines_from(s: Seq<char>, i: int, cur: Seq<char>) -> Seq<Seq<char>>
    decreases s.len() - i,
{
    if i >= s.len() {
        if cur.len() > 0 {
            seq![cur]
        } else {
            Seq::empty()
        }
    } else if s[i] == '\n' {
        seq![strip_cr(cur)] + lines_from(s, i + 1, Seq::empty())
    } else {
        lines_from(s, i + 1, cur.push(s[i]))
    }
}

/// `str::lines`: split at `\n` (or `\r\n`), with no empty line after a
/// final line ending.
pub open spec fn lines(s: Seq<char>) -> Seq<Seq<char>> {
    lines_from(s, 0, Seq::empty())
}

/// The character for a decimal digit.
pub open spec fn digit_char(d: nat) -> char {
    ((48 + d) as u8) as char
}

/// The decimal spelling of `n`, as `{}` formats an unsigned integer.
pub open spec fn decimal(n: nat) -> Seq<char>
    decreases n,
{
    if n < 10 {
        seq![digit_char(n)]
    } else {
        decimal(n / 10).push(digit_char(n % 10))
    }
}

/// `10^k`.
pub open spec fn pow10(k: nat) -> nat
    decreases k,
{
    if k == 0 {
        1
    } else {
        10 * pow10((k - 1) as nat)
    }
}

/// A number below `10^k` takes at most `k` digits.
pub proof fn lemma_decimal_len(n: nat, k: nat)
    requires
        1 <= k,
        n < pow10(k),
    ensures
        decimal(n).len() <= k,
    decreases k,
{
    if n >= 10 {
        let j = (k - 1) as nat;
        assert(pow10(k) == 10 * pow10(j));
        if j == 0 {
            assert(pow10(j) == 1);
        } else {
            assert(n / 10 < pow10(j)) by (nonlinear_arith)
                requires
                    n < 10 * pow10(j),
            ;
            lemma_decimal_len(n / 10, j);
        }
    }
}

/// Every `u64` takes at most twenty digits.
pub proof fn lemma_u64_decimal_len(n: u64)
    ensures
        decimal(n as nat).len() <= 20,
{
    assert(pow10(20) == 100000000000000000000) by {
        reveal_with_fuel(pow10, 21);
    }
    lemma_decimal_len(n as nat, 20);
}

/// `{:02}`: at least two digits, zero-padded.
pub open spec fn decimal2(n: nat) -> Seq<char> {
    if n < 10 {
        seq!['0', digit_char(n)]
    } else {
        decimal(n)
    }
}

/// ASCII lower-casing of one character, as `to_ascii_lowercase` does it.
pub open spec fn ascii_lower(c: char) -> char {
    if 'A' <= c <= 'Z' {
        (((c as u8) + 32) as u8) as char
    } else {
        c
    }
}

/// `str::to_ascii_lowercase`.
pub open spec fn lower(s: Seq<char>) -> Seq<char> {
    s.map_values(|c: char| ascii_lower(c))
}

/// `n` copies of `c`.
pub open spec fn repeat(c: char, n: nat) -> Seq<char> {
    Seq::new(n, |i: int| c)
}

/// The character views of a list of strings.
pub open spec fn strings_view(v: Seq<String>) -> Seq<Seq<char>> {
    v.map_values(|s: String| s@)
}

/// The character views of a list of character vectors.
pub open spec fn vecs_view(v: Seq<Vec<char>>) -> Seq<Seq<char>> {
    v.map_values(|s: Vec<char>| s@)
}

/// Appends one character to a `String` (`String::push`). Claimed of it:
/// the string's characters gain `c` at the end, which is what the method
/// is documented to do.
#[verifier::external_body]
pub(crate) fn push_char(s: &mut String, c: char)
    ensures
        final(s)@ == old(s)@.push(c),
{
    s.push(c);
}

/// The characters of a string slice, in order.
pub fn chars_of(s: &str) -> (res: Vec<char>)
    ensures
        res@ == s@,
{
    let n = s.unicode_len();
    let mut v: Vec<char> = Vec::new();
    for i in 0..n
        invariant
            n == s@.len(),
            v@ == s@.subrange(0, i as int),
    {
        v.push(s.get_char(i));
    }
    v
}

/// A `String` holding exactly the given characters.
pub fn string_of(v: &[char]) -> (res: String)
    ensures
        res@ == v@,
{
    let mut s = String::new();
    for i in 0..v.len()
        invariant
            s@ == v@.subrange(0, i as int),
    {
        push_char(&mut s, v[i]);
    }
    s
}

/// Appends the characters of `v` to `s`.
pub fn push_chars(s: &mut String, v: &[char])
    ensures
        final(s)@ == old(s)@ + v@,
{
    let ghost start = s@;
    for i in 0..v.len()
        invariant
            s@ == start + v@.subrange(0, i as int),
    {
        push_char(s, v[i]);
        assert(v@.subrange(0, i + 1) =~= v@.subrange(0, i as int).push(v@[i as int]));
    }
    assert(v@.subrange(0, v@.len() as int) =~= v@);
}

/// Appends `n` copies of `c` to `s`.
pub fn push_repeat(s: &mut String, c: char, n: usize)
    ensures
        final(s)@ == old(s)@ + repeat(c, n as nat),
{
    let ghost start = s@;
    for i in 0..n
        invariant
            s@ == start + repeat(c, i as nat),
    {
        push_char(s, c);
        assert(repeat(c, (i + 1) as nat) =~= repeat(c, i as nat).push(c));
    }
}

/// Whether two character sequences are the same.
pub fn same_chars(a: &[char], b: &[char]) -> (res: bool)
    ensures
        res == (a@ == b@),
{
    if a.len() != b.len() {
        return false;
    }
    for i in 0..a.len()
        invariant
            a@.len() == b@.len(),
            forall|j: int| 0 <= j < i ==> a@[j] == b@[j],
    {
        if a[i] != b[i] {
            return false;
        }
    }
    assert(a@ =~= b@);
    true
}

/// Whether `s` begins with `prefix`.
pub fn starts_with(s: &[char], prefix: &[char]) -> (res: bool)
    ensures
        res == (prefix@.len() <= s@.len() && s@.subrange(0, prefix@.len() as int) == prefix@),
{
    if prefix.len() > s.len() {
        return false;
    }
    for i in 0..prefix.len()
        invariant
            prefix@.len() <= s@.len(),
            forall|j: int| 0 <= j < i ==> s@[j] == prefix@[j],
    {
        if s[i] != prefix[i] {
            assert(s@.subrange(0, prefix@.len() as int)[i as int] != prefix@[i as int]);
            return false;
        }
    }
    assert(s@.subrange(0, prefix@.len() as int) =~= prefix@);
    true
}

/// `to_ascii_lowercase` on one character.
pub fn lower_char(c: char) -> (res: char)
    ensures
        res == ascii_lower(c),
{
    if 'A' <= c && c <= 'Z' {
        let b = c as u8;
        (b + 32) as char
    } else {
        c
    }
}

proof fn lemma_skip_spaces(s: Seq<char>, i: int, r: int)
    requires
        0 <= i <= r <= s.len(),
        forall|j: int| i <= j < r ==> is_space(#[trigger] s[j]),
        r == s.len() || !is_space(s[r]),
    ensures
        skip_spaces(s, i) == r,
    decreases r - i,
{
    if i < r {
        lemma_skip_spaces(s, i + 1, r);
    }
}

proof fn lemma_trim_end(s: Seq<char>, j: int, r: int)
    requires
        0 <= r <= j <= s.len(),
        forall|k: int| r <= k < j ==> is_space(#[trigger] s[k]),
        r == 0 || !is_space(s[r - 1]),
    ensures
        trim_end_at(s, j) == r,
    decreases j - r,
{
    if r < j {
        lemma_trim_end(s, j - 1, r);
    }
}

/// Trimming keeps exactly what lies between the leading and the trailing
/// whitespace.
pub proof fn lemma_trim_between(s: Seq<char>, a: int, b: int)
    requires
        0 <= a < b <= s.len(),
        forall|j: int| 0 <= j < a ==> is_space(#[trigger] s[j]),
        forall|k: int| b <= k < s.len() ==> is_space(#[trigger] s[k]),
        !is_space(s[a]),
        !is_space(s[b - 1]),
    ensures
        trim(s) == s.subrange(a, b),
{
    lemma_skip_spaces(s, 0, a);
    lemma_trim_end(s, s.len() as int, b);
}

/// Text that neither starts nor ends with whitespace is its own trim.
pub proof fn lemma_trim_untouched(s: Seq<char>)
    requires
        s.len() > 0,
        !is_space(s[0]),
        !is_space(s.last()),
    ensures
        trim(s) == s,
{
    lemma_trim_between(s, 0, s.len() as int);
    assert(s.subrange(0, s.len() as int) =~= s);
}

/// Splitting into words reads a suffix the same way wherever it stands.
pub proof fn lemma_words_shift(p: Seq<char>, q: Seq<char>, i: int, cur: Seq<char>)
    requires
        0 <= i <= q.len(),
    ensures
        words_from(p + q, p.len() + i, cur) == words_from(q, i, cur),
    decreases q.len() - i,
{
    if i < q.len() {
        assert((p + q)[p.len() + i] == q[i]);
        lemma_words_shift(p, q, i + 1, cur.push(q[i]));
        lemma_words_shift(p, q, i + 1, Seq::empty());
    }
}

/// A run of non-space characters is read as one word up to the space
/// that ends it.
proof fn lemma_words_run(a: Seq<char>, b: Seq<char>, i: int)
    requires
        a.len() > 0,
        0 <= i <= a.len(),
        forall|j: int| 0 <= j < a.len() ==> !is_space(#[trigger] a[j]),
    ensures
        words_from(a + seq![' '] + b, i, a.subrange(0, i)) == seq![a] + words_from(
            a + seq![' '] + b,
            a.len() + 1int,
            Seq::empty(),
        ),
    decreases a.len() - i,
{
    let s = a + seq![' '] + b;
    if i < a.len() {
        assert(s[i] == a[i]);
        assert(a.subrange(0, i).push(a[i]) =~= a.subrange(0, i + 1));
        lemma_words_run(a, b, i + 1);
    } else {
        assert(s[i] == ' ');
        assert(a.subrange(0, i) =~= a);
    }
}

/// A word, a space and the rest: the word first, then the words of the
/// rest.
pub proof fn lemma_words_cons(a: Seq<char>, b: Seq<char>)
    requires
        a.len() > 0,
        forall|j: int| 0 <= j < a.len() ==> !is_space(#[trigger] a[j]),
    ensures
        words(a + seq![' '] + b) == seq![a] + words(b),
{
    lemma_words_run(a, b, 0);
    assert(a.subrange(0, 0) =~= Seq::<char>::empty());
    let p = a + seq![' '];
    assert(a + seq![' '] + b =~= p + b);
    lemma_words_shift(p, b, 0, Seq::empty());
}

/// A single run of non-space characters is one word.
pub proof fn lemma_words_single(a: Seq<char>)
    requires
        a.len() > 0,
        forall|j: int| 0 <= j < a.len() ==> !is_space(#[trigger] a[j]),
    ensures
        words(a) == seq![a],
{
    lemma_words_alone(a, 0);
    assert(a.subrange(0, 0) =~= Seq::<char>::empty());
}

proof fn lemma_words_alone(a: Seq<char>, i: int)
    requires
        a.len() > 0,
        0 <= i <= a.len(),
        forall|j: int| 0 <= j < a.len() ==> !is_space(#[trigger] a[j]),
    ensures
        words_from(a, i, a.subrange(0, i)) == seq![a],
    decreases a.len() - i,
{
    if i < a.len() {
        assert(a.subrange(0, i).push(a[i]) =~= a.subrange(0, i + 1));
        lemma_words_alone(a, i + 1);
    } else {
        assert(a.subrange(0, i) =~= a);
    }
}

/// The decimal spelling of a number is all digits, and worth the number.
pub proof fn lemma_decimal_digits(n: nat)
    ensures
        decimal(n).len() > 0,
        all_digits(decimal(n)),
        digits_value(decimal(n)) == n,
    decreases n,
{
    let k = n % 10;
    let c = digit_char(k);
    assert((c as u32) == 48 + k && '0' <= c <= '9') by {
        lemma_digit_char(k);
    }
    if n >= 10 {
        lemma_decimal_digits(n / 10);
        let d = decimal(n / 10);
        assert(decimal(n) == d.push(c));
        assert(d.push(c).drop_last() =~= d);
        assert(all_digits(d.push(c))) by {
            assert forall|i: int| 0 <= i < d.push(c).len() implies '0' <= #[trigger] d.push(c)[i] <= '9' by {
                if i < d.len() {
                    assert(d.push(c)[i] == d[i]);
                }
            }
        }
        assert(digits_value(d.push(c)) == digits_value(d) * 10 + ((c as u32) - 48));
    } else {
        assert(decimal(n) == seq![c]);
        assert(seq![c].drop_last() =~= Seq::<char>::empty());
        assert(digits_value(seq![c]) == digits_value(Seq::<char>::empty()) * 10 + ((c as u32) - 48));
    }
}

/// The character for a digit is that digit's ASCII code.
proof fn lemma_digit_char(k: nat)
    requires
        k < 10,
    ensures
        (digit_char(k) as u32) == 48 + k,
        '0' <= digit_char(k) <= '9',
{
    let b = (48 + k) as u8;
    assert(b == 48 + k);
    assert((b as char) as u32 == b as u32);
}

/// Reading back the decimal spelling of a `u32` gives the number.
pub proof fn lemma_parse_decimal(n: u32)
    ensures
        parse_u32(decimal(n as nat)) == Some(n),
{
    lemma_decimal_digits(n as nat);
    assert(decimal(n as nat)[0] != '+');
}

/// Where the trimmed text starts and ends: `trim(s) == s[a..b]`.
pub fn trim_bounds(s: &[char]) -> (res: (usize, usize))
    ensures
        res.0 <= res.1 <= s@.len(),
        trim(s@) == s@.subrange(res.0 as int, res.1 as int),
{
    let mut a: usize = 0;
    while a < s.len() && is_whitespace(s[a])
        invariant
            a <= s@.len(),
            forall|j: int| 0 <= j < a ==> is_space(#[trigger] s@[j]),
        decreases s.len() - a,
    {
        a = a + 1;
    }
    proof {
        lemma_skip_spaces(s@, 0, a as int);
    }
    let mut b: usize = s.len();
    while b > a && is_whitespace(s[b - 1])
        invariant
            a <= b <= s@.len(),
            forall|k: int| b <= k < s@.len() ==> is_space(#[trigger] s@[k]),
        decreases b,
    {
        b = b - 1;
    }
    proof {
        if a < b {
            lemma_trim_end(s@, s@.len() as int, b as int);
        } else {
            // Everything was whitespace: the end walks all the way back.
            assert forall|k: int| 0 <= k < s@.len() implies is_space(#[trigger] s@[k]) by {
                if k < a {
                } else {
                }
            }
            lemma_trim_end(s@, s@.len() as int, 0);
            assert(s@.subrange(a as int, b as int) =~= Seq::<char>::empty());
        }
    }
    (a, b)
}

/// `str::trim`, on characters.
pub fn trim_chars(s: &[char]) -> (res: Vec<char>)
    ensures
        res@ == trim(s@),
{
    let (a, b) = trim_bounds(s);
    let mut v: Vec<char> = Vec::new();
    for i in a..b
        invariant
            a <= b <= s@.len(),
            v@ == s@.subrange(a as int, i as int),
    {
        v.push(s[i]);
    }
    v
}

/// `to_ascii_lowercase`, on characters.
pub fn lower_chars(s: &[char]) -> (res: Vec<char>)
    ensures
        res@ == lower(s@),
{
    let mut v: Vec<char> = Vec::new();
    for i in 0..s.len()
        invariant
            v@ == lower(s@.subrange(0, i as int)),
    {
        v.push(lower_char(s[i]));
        assert(lower(s@.subrange(0, i + 1)) =~= lower(s@.subrange(0, i as int)).push(
            ascii_lower(s@[i as int]),
        ));
    }
    assert(s@.subrange(0, s@.len() as int) =~= s@);
    v
}

/// `str::split_whitespace`, on characters.
pub fn split_words(s: &[char]) -> (res: Vec<Vec<char>>)
    ensures
        vecs_view(res@) == words(s@),
{
    let mut out: Vec<Vec<char>> = Vec::new();
    let mut cur: Vec<char> = Vec::new();
    for i in 0..s.len()
        invariant
            vecs_view(out@) + words_from(s@, i as int, cur@) == words(s@),
    {
        let ghost before = vecs_view(out@);
        let ghost begun = cur@;
        let c = s[i];
        if is_whitespace(c) {
            assert(words_from(s@, i as int, begun) == (if begun.len() > 0 {
                seq![begun]
            } else {
                Seq::<Seq<char>>::empty()
            }) + words_from(s@, i + 1, Seq::empty()));
            if cur.len() > 0 {
                let done = cur;
                cur = Vec::new();
                out.push(done);
                assert(vecs_view(out@) =~= before.push(done@));
                assert(before + (seq![done@] + words_from(s@, i + 1, Seq::empty())) =~= before.push(
                    done@,
                ) + words_from(s@, i + 1, Seq::empty()));
            } else {
                assert(cur@ =~= Seq::<char>::empty());
                assert(Seq::<Seq<char>>::empty() + words_from(s@, i + 1, Seq::empty())
                    =~= words_from(s@, i + 1, Seq::empty()));
            }
        } else {
            assert(words_from(s@, i as int, begun) == words_from(s@, i + 1, begun.push(c)));
            cur.push(c);
        }
    }
    if cur.len() > 0 {
        let ghost before = vecs_view(out@);
        let done = cur;
        out.push(done);
        assert(vecs_view(out@) =~= before.push(done@));
        assert(before + seq![done@] =~= before.push(done@));
    } else {
        assert(vecs_view(out@) + Seq::<Seq<char>>::empty() =~= vecs_view(out@));
    }
    out
}

/// `str::lines`, on characters.
pub fn split_lines(s: &[char]) -> (res: Vec<Vec<char>>)
    ensures
        vecs_view(res@) == lines(s@),
{
    let mut out: Vec<Vec<char>> = Vec::new();
    let mut cur: Vec<char> = Vec::new();
    for i in 0..s.len()
        invariant
            vecs_view(out@) + lines_from(s@, i as int, cur@) == lines(s@),
    {
        let ghost before = vecs_view(out@);
        let c = s[i];
        if c == '\n' {
            let ghost line = cur@;
            let mut done = cur;
            cur = Vec::new();
            if done.len() > 0 && done[done.len() - 1] == '\r' {
                done.pop();
            }
            assert(done@ =~= strip_cr(line));
            out.push(done);
            assert(vecs_view(out@) =~= before.push(done@));
            assert(before + (seq![done@] + lines_from(s@, i + 1, Seq::empty())) =~= before.push(
                done@,
            ) + lines_from(s@, i + 1, Seq::empty()));
        } else {
            cur.push(c);
        }
    }
    if cur.len() > 0 {
        let ghost before = vecs_view(out@);
        let done = cur;
        out.push(done);
        assert(vecs_view(out@) =~= before.push(done@));
        assert(before + seq![done@] =~= before.push(done@));
    } else {
        assert(vecs_view(out@) + Seq::<Seq<char>>::empty() =~= vecs_view(out@));
    }
    out
}

/// Appends the decimal spelling of `n` (`{}`).
pub fn push_decimal(s: &mut String, n: u64)
    ensures
        final(s)@ == old(s)@ + decimal(n as nat),
    decreases n,
{
    let ghost start = s@;
    if n >= 10 {
        push_decimal(s, n / 10);
    }
    let d = (n % 10) as u8;
    push_char(s, (48u8 + d) as char);
    proof {
        if n >= 10 {
            assert(decimal(n as nat) == decimal((n / 10) as nat).push(digit_char((n % 10) as nat)));
            assert(start + decimal(n as nat) =~= start + decimal((n / 10) as nat) + seq![
                digit_char((n % 10) as nat),
            ]);
        } else {
            assert(start + decimal(n as nat) =~= start.push(digit_char(n as nat)));
        }
    }
}

/// Appends `{:02}` of `n`.
pub fn push_decimal2(s: &mut String, n: u64)
    ensures
        final(s)@ == old(s)@ + decimal2(n as nat),
{
    if n < 10 {
        let ghost start = s@;
        push_char(s, '0');
        push_decimal(s, n);
        assert(start + decimal2(n as nat) =~= start.push('0') + decimal(n as nat));
    } else {
        push_decimal(s, n);
    }
}

/// Whether every character is an ASCII digit.
pub open spec fn all_digits(d: Seq<char>) -> bool {
    forall|i: int| 0 <= i < d.len() ==> '0' <= #[trigger] d[i] <= '9'
}

/// The number a run of ASCII digits spells.
pub open spec fn digits_value(d: Seq<char>) -> int
    decreases d.len(),
{
    if d.len() == 0 {
        0
    } else {
        digits_value(d.drop_last()) * 10 + ((d.last() as u32) - 48)
    }
}

/// `str::parse::<u32>`: an optional `+`, then one or more ASCII digits
/// whose value fits in a `u32`.
pub open spec fn parse_u32(s: Seq<char>) -> Option<u32> {
    let d = if s.len() > 0 && s[0] == '+' {
        s.drop_first()
    } else {
        s
    };
    if d.len() > 0 && all_digits(d) && digits_value(d) <= u32::MAX {
        Some(digits_value(d) as u32)
    } else {
        None
    }
}

proof fn lemma_digits_value_nonneg(d: Seq<char>)
    requires
        all_digits(d),
    ensures
        digits_value(d) >= 0,
    decreases d.len(),
{
    if d.len() > 0 {
        assert(all_digits(d.drop_last())) by {
            assert forall|i: int| 0 <= i < d.drop_last().len() implies '0' <= #[trigger] d.drop_last()[i]
                <= '9' by {
                assert(d.drop_last()[i] == d[i]);
            }
        }
        lemma_digits_value_nonneg(d.drop_last());
        assert('0' <= d[d.len() - 1] <= '9');
    }
}

/// A prefix of a digit run is worth no more than the whole run.
proof fn lemma_digits_value_prefix(d: Seq<char>, k: int)
    requires
        all_digits(d),
        0 <= k <= d.len(),
    ensures
        digits_value(d.subrange(0, k)) <= digits_value(d),
    decreases d.len() - k,
{
    if k < d.len() {
        let p = d.subrange(0, k + 1);
        assert(all_digits(p)) by {
            assert forall|i: int| 0 <= i < p.len() implies '0' <= #[trigger] p[i] <= '9' by {
                assert(p[i] == d[i]);
            }
        }
        assert(p.drop_last() =~= d.subrange(0, k));
        assert('0' <= d[k] <= '9');
        assert(p.last() == d[k]);
        assert(all_digits(d.subrange(0, k))) by {
            assert forall|i: int| 0 <= i < k implies '0' <= #[trigger] d.subrange(0, k)[i] <= '9' by {
                assert(d.subrange(0, k)[i] == d[i]);
            }
        }
        lemma_digits_value_nonneg(d.subrange(0, k));
        lemma_digits_value_prefix(d, k + 1);
    } else {
        assert(d.subrange(0, k) =~= d);
    }
}

/// `str::parse::<u32>`, on characters.
pub fn parse_u32_chars(s: &[char]) -> (res: Option<u32>)
    ensures
        res == parse_u32(s@),
{
    let start: usize = if s.len() > 0 && s[0] == '+' {
        1
    } else {
        0
    };
    let ghost d = if s@.len() > 0 && s@[0] == '+' {
        s@.drop_first()
    } else {
        s@
    };
    assert(d =~= s@.subrange(start as int, s@.len() as int));
    if start >= s.len() {
        return None;
    }
    let mut value: u64 = 0;
    let mut i: usize = start;
    while i < s.len()
        invariant
            start <= i <= s@.len(),
            d == s@.subrange(start as int, s@.len() as int),
            d == (if s@.len() > 0 && s@[0] == '+' {
                s@.drop_first()
            } else {
                s@
            }),
            all_digits(s@.subrange(start as int, i as int)),
            value == digits_value(s@.subrange(start as int, i as int)),
            value <= u32::MAX,
        decreases s.len() - i,
    {
        let c = s[i];
        let prefix = Ghost(s@.subrange(start as int, i as int));
        let next = Ghost(s@.subrange(start as int, i + 1));
        assert(next@.drop_last() =~= prefix@);
        if !('0' <= c && c <= '9') {
            assert(d[i - start] == c);
            assert(!('0' <= d[i - start] <= '9'));
            return None;
        }
        assert(all_digits(next@)) by {
            assert forall|j: int| 0 <= j < next@.len() implies '0' <= #[trigger] next@[j] <= '9' by {
                if j < prefix@.len() {
                    assert(next@[j] == prefix@[j]);
                }
            }
        }
        let digit = (c as u32 - 48) as u64;
        let candidate = value * 10 + digit;
        assert(candidate == digits_value(next@));
        if candidate > 4294967295 {
            proof {
                if all_digits(d) {
                    assert(d.subrange(0, (i + 1 - start) as int) =~= next@);
                    lemma_digits_value_prefix(d, (i + 1 - start) as int);
                }
            }
            return None;
        }
        value = candidate;
        i = i + 1;
    }
    assert(s@.subrange(start as int, s@.len() as int) == d);
    Some(value as u32)
}

/// Whether every character of `s` from `i` on is whitespace.
pub open spec fn spaces_from(s: Seq<char>, i: int) -> bool {
    forall|j: int| i <= j < s.len() ==> is_space(#[trigger] s[j])
}

/// Splitting `x + y` into words, from inside `x`: the words of `x` from
/// there, then those of `y` — when `x` ends in whitespace, so no word runs
/// across the join.
proof fn lemma_words_from_split(x: Seq<char>, y: Seq<char>, i: int, cur: Seq<char>)
    requires
        0 <= i <= x.len(),
        i < x.len() || cur.len() == 0,
        x.len() == 0 || is_space(x.last()),
    ensures
        words_from(x + y, i, cur) == words_from(x, i, cur) + words(y),
    decreases x.len() - i,
{
    if i == x.len() {
        lemma_words_shift(x, y, 0, Seq::empty());
        assert(cur =~= Seq::<char>::empty());
        assert(words_from(x, i, cur) =~= Seq::<Seq<char>>::empty());
        assert(words_from(x + y, i, cur) =~= words(y));
    } else {
        assert((x + y)[i] == x[i]);
        if is_space(x[i]) {
            lemma_words_from_split(x, y, i + 1, Seq::empty());
            let head = if cur.len() > 0 {
                seq![cur]
            } else {
                Seq::<Seq<char>>::empty()
            };
            assert(head + (words_from(x, i + 1, Seq::empty()) + words(y)) =~= (head + words_from(
                x,
                i + 1,
                Seq::empty(),
            )) + words(y));
        } else {
            lemma_words_from_split(x, y, i + 1, cur.push(x[i]));
        }
    }
}

/// When `x` ends in whitespace, the words of `x + y` are those of `x`,
/// then those of `y`.
pub proof fn lemma_words_split(x: Seq<char>, y: Seq<char>)
    requires
        x.len() == 0 || is_space(x.last()),
    ensures
        words(x + y) == words(x) + words(y),
{
    lemma_words_from_split(x, y, 0, Seq::empty());
}

/// Whitespace after the text changes none of its words.
proof fn lemma_words_from_space_after(z: Seq<char>, c: char, i: int, cur: Seq<char>)
    requires
        0 <= i <= z.len(),
        is_space(c),
    ensures
        words_from(z.push(c), i, cur) == words_from(z, i, cur),
    decreases z.len() - i,
{
    let zc = z.push(c);
    if i == z.len() {
        assert(zc[i] == c);
        assert(words_from(zc, i + 1, Seq::empty()) =~= Seq::<Seq<char>>::empty());
        let head = if cur.len() > 0 {
            seq![cur]
        } else {
            Seq::<Seq<char>>::empty()
        };
        assert(head + Seq::<Seq<char>>::empty() =~= head);
    } else {
        assert(zc[i] == z[i]);
        if is_space(z[i]) {
            lemma_words_from_space_after(z, c, i + 1, Seq::empty());
        } else {
            lemma_words_from_space_after(z, c, i + 1, cur.push(z[i]));
        }
    }
}

/// Whitespace after the text changes none of its words.
pub proof fn lemma_words_spaces_after(z: Seq<char>, tail: Seq<char>)
    requires
        spaces_from(tail, 0),
    ensures
        words(z + tail) == words(z),
    decreases tail.len(),
{
    if tail.len() > 0 {
        let front = tail.drop_last();
        assert(spaces_from(front, 0)) by {
            assert forall|j: int| 0 <= j < front.len() implies is_space(#[trigger] front[j]) by {
                assert(front[j] == tail[j]);
            }
        }
        lemma_words_spaces_after(z, front);
        assert(z + tail =~= (z + front).push(tail.last()));
        assert(is_space(tail[tail.len() - 1]));
        lemma_words_from_space_after(z + front, tail.last(), 0, Seq::empty());
    } else {
        assert(z + tail =~= z);
    }
}

/// What `trim_end_at` cuts off is whitespace.
proof fn lemma_trim_end_cuts_spaces(s: Seq<char>, j: int)
    requires
        0 <= j <= s.len(),
    ensures
        0 <= trim_end_at(s, j) <= j,
        forall|k: int| trim_end_at(s, j) <= k < j ==> is_space(#[trigger] s[k]),
    decreases j,
{
    if j > 0 && is_space(s[j - 1]) {
        lemma_trim_end_cuts_spaces(s, j - 1);
    }
}

/// `trim_end` keeps every word.
pub proof fn lemma_words_trim_end(s: Seq<char>)
    ensures
        words(s.subrange(0, trim_end_at(s, s.len() as int))) == words(s),
{
    let k = trim_end_at(s, s.len() as int);
    lemma_trim_end_cuts_spaces(s, s.len() as int);
    let tail = s.subrange(k, s.len() as int);
    assert(spaces_from(tail, 0)) by {
        assert forall|j: int| 0 <= j < tail.len() implies is_space(#[trigger] tail[j]) by {
            assert(tail[j] == s[k + j]);
        }
    }
    lemma_words_spaces_after(s.subrange(0, k), tail);
    assert(s.subrange(0, k) + tail =~= s);
}

/// `skip_spaces` stops at or before the first non-space character.
proof fn lemma_skip_spaces_stops(s: Seq<char>, i: int, k: int)
    requires
        0 <= i <= k < s.len(),
        !is_space(s[k]),
    ensures
        skip_spaces(s, i) <= k,
    decreases k - i,
{
    if i < k && is_space(s[i]) {
        lemma_skip_spaces_stops(s, i + 1, k);
    }
}

/// `skip_spaces` never moves back.
proof fn lemma_skip_spaces_forward(s: Seq<char>, i: int)
    requires
        0 <= i <= s.len(),
    ensures
        i <= skip_spaces(s, i),
    decreases s.len() - i,
{
    if i < s.len() && is_space(s[i]) {
        lemma_skip_spaces_forward(s, i + 1);
    }
}

/// `trim_end_at` keeps every non-space character before `j`.
proof fn lemma_trim_end_keeps(s: Seq<char>, j: int, k: int)
    requires
        0 <= k < j <= s.len(),
        !is_space(s[k]),
    ensures
        trim_end_at(s, j) > k,
    decreases j,
{
    if j - 1 > k && is_space(s[j - 1]) {
        lemma_trim_end_keeps(s, j - 1, k);
    }
}

/// Text that trims to nothing has no words.
pub proof fn lemma_blank_has_no_words(s: Seq<char>)
    requires
        trim(s).len() == 0,
    ensures
        words(s) == Seq::<Seq<char>>::empty(),
{
    assert forall|k: int| 0 <= k < s.len() implies is_space(#[trigger] s[k]) by {
        if !is_space(s[k]) {
            lemma_skip_spaces_stops(s, 0, k);
            lemma_trim_end_keeps(s, s.len() as int, k);
            lemma_trim_end_cuts_spaces(s, s.len() as int);
            lemma_skip_spaces_forward(s, 0);
            assert(skip_spaces(s, 0) < trim_end_at(s, s.len() as int));
            assert(trim(s).len() > 0);
        }
    }
    lemma_words_spaces_after(Seq::empty(), s);
    assert(Seq::<char>::empty() + s =~= s);
    assert(words(Seq::<char>::empty()) =~= Seq::<Seq<char>>::empty());
}

} // verus!
