//! Character-level building blocks shared by every renderer: decimal and
//! hexadecimal rendering, ASCII and Unicode-whitespace classes, trimming and
//! splitting, each with the specification the renderers' contracts speak of.
use vstd::prelude::*;

verus! {

/// `String::push` appends one character to the end of the string.
pub assume_specification[ String::push ](s: &mut String, ch: char)
    ensures
        final(s)@ == old(s)@.push(ch),
;

/// The decimal digit `d` as a character.
pub open spec fn digit(d: int) -> char {
    (48 + d) as char
}

/// The lowercase hexadecimal digit `d` as a character.
pub open spec fn hex_digit(d: int) -> char {
    if d < 10 {
        (48 + d) as char
    } else {
        (87 + d) as char
    }
}

/// The decimal rendering of `n`, without sign or leading zeros.
pub open spec fn decimal(n: nat) -> Seq<char>
    decreases n,
{
    if n < 10 {
        seq![digit(n as int)]
    } else {
        decimal(n / 10).push(digit((n % 10) as int))
    }
}

/// The lowest `width` hexadecimal digits of `n`, lowercase, zero-padded.
pub open spec fn hex_fixed(n: nat, width: nat) -> Seq<char>
    decreases width,
{
    if width == 0 {
        Seq::empty()
    } else {
        hex_fixed(n / 16, (width - 1) as nat).push(hex_digit((n % 16) as int))
    }
}

pub proof fn lemma_hex_fixed_len(n: nat, width: nat)
    ensures
        hex_fixed(n, width).len() == width,
    decreases width,
{
    if width > 0 {
        lemma_hex_fixed_len(n / 16, (width - 1) as nat);
    }
}

pub proof fn lemma_decimal_nonempty(n: nat)
    ensures
        decimal(n).len() >= 1,
    decreases n,
{
    if n >= 10 {
        lemma_decimal_nonempty(n / 10);
    }
}

/// Different numbers render differently in decimal.
pub proof fn lemma_decimal_injective(a: nat, b: nat)
    requires
        a != b,
    ensures
        decimal(a) != decimal(b),
    decreases a + b,
{
    if a < 10 && b < 10 {
        assert(decimal(a)[0] == digit(a as int));
        assert(decimal(b)[0] == digit(b as int));
        assert(digit(a as int) != digit(b as int));
    } else if a < 10 {
        lemma_decimal_nonempty(b / 10);
        assert(decimal(b).len() >= 2);
    } else if b < 10 {
        lemma_decimal_nonempty(a / 10);
        assert(decimal(a).len() >= 2);
    } else if a % 10 != b % 10 {
        assert(decimal(a).last() == digit((a % 10) as int));
        assert(decimal(b).last() == digit((b % 10) as int));
        assert(digit((a % 10) as int) != digit((b % 10) as int));
    } else {
        assert(a / 10 != b / 10);
        lemma_decimal_injective(a / 10, b / 10);
        assert(decimal(a).drop_last() =~= decimal(a / 10));
        assert(decimal(b).drop_last() =~= decimal(b / 10));
    }
}

/// Appends the decimal rendering of `n`.
pub fn push_decimal(s: &mut String, n: u64)
    ensures
        final(s)@ == old(s)@ + decimal(n as nat),
    decreases n,
{
    if n >= 10 {
        push_decimal(s, n / 10);
    }
    let d = (n % 10) as u8;
    s.push((48u8 + d) as char);
    proof {
        assert(decimal(n as nat) =~= (if n < 10 { Seq::<char>::empty() } else { decimal((n / 10) as nat) }).push(digit((n % 10) as int)));
    }
}

/// The decimal rendering of `n` as a new string.
pub fn decimal_string(n: u64) -> (r: String)
    ensures
        r@ == decimal(n as nat),
{
    let mut s = String::new();
    push_decimal(&mut s, n);
    proof {
        assert(Seq::<char>::empty() + decimal(n as nat) =~= decimal(n as nat));
    }
    s
}

/// Appends the lowest `width` hexadecimal digits of `n`.
pub fn push_hex(s: &mut String, n: u64, width: usize)
    ensures
        final(s)@ == old(s)@ + hex_fixed(n as nat, width as nat),
    decreases width,
{
    if width == 0 {
        proof {
            assert(old(s)@ + Seq::<char>::empty() =~= old(s)@);
        }
        return;
    }
    push_hex(s, n / 16, width - 1);
    let d = (n % 16) as u8;
    if d < 10 {
        s.push((48u8 + d) as char);
    } else {
        s.push((87u8 + d) as char);
    }
    proof {
        assert(((n / 16) as nat) == (n as nat) / 16);
        assert(old(s)@ + hex_fixed(n as nat, width as nat) =~= (old(s)@ + hex_fixed(
            (n as nat) / 16,
            (width - 1) as nat,
        )).push(hex_digit((n % 16) as int)));
    }
}

/// Appends `t` to `s`.
pub fn push_str(s: &mut String, t: &str)
    ensures
        final(s)@ == old(s)@ + t@,
{
    s.append(t);
}

/// `c` is an ASCII letter or digit.
pub open spec fn is_ascii_alnum(c: char) -> bool {
    ('0' <= c && c <= '9') || ('a' <= c && c <= 'z') || ('A' <= c && c <= 'Z')
}

pub fn ascii_alnum(c: char) -> (b: bool)
    ensures
        b == is_ascii_alnum(c),
{
    ('0' <= c && c <= '9') || ('a' <= c && c <= 'z') || ('A' <= c && c <= 'Z')
}

/// `c` has the Unicode `White_Space` property, the class `str::trim` removes.
pub open spec fn is_space(c: char) -> bool {
    ||| ('\u{9}' <= c && c <= '\u{d}')
    ||| c == ' '
    ||| c == '\u{85}'
    ||| c == '\u{a0}'
    ||| c == '\u{1680}'
    ||| ('\u{2000}' <= c && c <= '\u{200a}')
    ||| c == '\u{2028}'
    ||| c == '\u{2029}'
    ||| c == '\u{202f}'
    ||| c == '\u{205f}'
    ||| c == '\u{3000}'
}

pub fn space(c: char) -> (b: bool)
    ensures
        b == is_space(c),
{
    ('\u{9}' <= c && c <= '\u{d}') || c == ' ' || c == '\u{85}' || c == '\u{a0}' || c
        == '\u{1680}' || ('\u{2000}' <= c && c <= '\u{200a}') || c == '\u{2028}' || c
        == '\u{2029}' || c == '\u{202f}' || c == '\u{205f}' || c == '\u{3000}'
}

/// The characters of `s` as a vector.
pub fn chars_of(s: &str) -> (v: Vec<char>)
    ensures
        v@ == s@,
{
    let n = s.unicode_len();
    let mut v: Vec<char> = Vec::new();
    let mut i: usize = 0;
    while i < n
        invariant
            n == s@.len(),
            i <= n,
            v@ == s@.take(i as int),
        decreases n - i,
    {
        let c = s.get_char(i);
        v.push(c);
        i = i + 1;
        assert(v@ =~= s@.take(i as int));
    }
    assert(s@.take(n as int) =~= s@);
    v
}

/// A string holding exactly the characters of `v`.
pub fn string_of(v: &Vec<char>) -> (s: String)
    ensures
        s@ == v@,
{
    let mut s = String::new();
    let mut i: usize = 0;
    while i < v.len()
        invariant
            i <= v.len(),
            s@ == v@.take(i as int),
        decreases v.len() - i,
    {
        s.push(v[i]);
        i = i + 1;
        assert(s@ =~= v@.take(i as int));
    }
    assert(v@.take(v.len() as int) =~= v@);
    s
}


/// `s` with leading Unicode whitespace removed.
pub open spec fn trim_start(s: Seq<char>) -> Seq<char>
    decreases s.len(),
{
    if s.len() > 0 && is_space(s[0]) {
        trim_start(s.drop_first())
    } else {
        s
    }
}

/// `s` with trailing Unicode whitespace removed.
pub open spec fn trim_end(s: Seq<char>) -> Seq<char>
    decreases s.len(),
{
    if s.len() > 0 && is_space(s.last()) {
        trim_end(s.drop_last())
    } else {
        s
    }
}

/// `s` with leading and trailing Unicode whitespace removed, as `str::trim` does.
pub open spec fn trim(s: Seq<char>) -> Seq<char> {
    trim_end(trim_start(s))
}

/// What `trim_start` leaves is a suffix of `s` that starts with no whitespace.
pub proof fn lemma_trim_start_suffix(s: Seq<char>)
    ensures
        trim_start(s).len() <= s.len(),
        trim_start(s) =~= s.skip(s.len() - trim_start(s).len()),
        trim_start(s).len() > 0 ==> !is_space(trim_start(s)[0]),
    decreases s.len(),
{
    if s.len() > 0 && is_space(s[0]) {
        lemma_trim_start_suffix(s.drop_first());
        assert(s.drop_first().skip(s.drop_first().len() - trim_start(s).len()) =~= s.skip(
            s.len() - trim_start(s).len(),
        ));
    } else {
        assert(s.skip(0) =~= s);
    }
}

/// What `trim_end` leaves is a prefix of `s` that ends with no whitespace.
pub proof fn lemma_trim_end_prefix(s: Seq<char>)
    ensures
        trim_end(s).len() <= s.len(),
        trim_end(s) =~= s.take(trim_end(s).len() as int),
        trim_end(s).len() > 0 ==> !is_space(trim_end(s).last()),
    decreases s.len(),
{
    if s.len() > 0 && is_space(s.last()) {
        lemma_trim_end_prefix(s.drop_last());
        assert(s.drop_last().take(trim_end(s).len() as int) =~= s.take(trim_end(s).len() as int));
    } else {
        assert(s.take(s.len() as int) =~= s);
    }
}

/// Trimming twice is trimming once.
pub proof fn lemma_trim_idempotent(s: Seq<char>)
    ensures
        trim(trim(s)) == trim(s),
{
    let u = trim_start(s);
    let v = trim_end(u);
    lemma_trim_start_suffix(s);
    lemma_trim_end_prefix(u);
    if v.len() > 0 {
        assert(v[0] == u[0]);
        assert(trim_start(v) == v);
    } else {
        assert(trim_start(v) == v);
    }
    if v.len() > 0 {
        assert(trim_end(v) == v);
    }
}

/// A character `s` does not hold, its trimmed form does not hold either.
pub proof fn lemma_trim_keeps_out(s: Seq<char>, c: char)
    requires
        forall|j: int| 0 <= j < s.len() ==> s[j] != c,
    ensures
        forall|k: int| 0 <= k < trim(s).len() ==> trim(s)[k] != c,
{
    let u = trim_start(s);
    lemma_trim_start_suffix(s);
    lemma_trim_end_prefix(u);
    let off = s.len() - u.len();
    assert forall|k: int| 0 <= k < trim(s).len() implies trim(s)[k] != c by {
        assert(trim(s)[k] == u[k]);
        assert(u[k] == s[off + k]);
    }
}

proof fn lemma_trim_start_skip(s: Seq<char>, i: int)
    requires
        0 <= i <= s.len(),
        forall|k: int| 0 <= k < i ==> is_space(#[trigger] s[k]),
    ensures
        trim_start(s) == trim_start(s.skip(i)),
    decreases i,
{
    if i == 0 {
        assert(s.skip(0) =~= s);
    } else {
        let t = s.drop_first();
        assert forall|k: int| 0 <= k < i - 1 implies is_space(#[trigger] t[k]) by {
            assert(t[k] == s[k + 1]);
        }
        lemma_trim_start_skip(t, i - 1);
        assert(t.skip(i - 1) =~= s.skip(i));
    }
}

proof fn lemma_trim_end_take(s: Seq<char>, j: int)
    requires
        0 <= j <= s.len(),
        forall|k: int| j <= k < s.len() ==> is_space(#[trigger] s[k]),
    ensures
        trim_end(s) == trim_end(s.take(j)),
    decreases s.len() - j,
{
    if j == s.len() {
        assert(s.take(j) =~= s);
    } else {
        let t = s.drop_last();
        assert forall|k: int| j <= k < t.len() implies is_space(#[trigger] t[k]) by {
            assert(t[k] == s[k]);
        }
        lemma_trim_end_take(t, j);
        assert(t.take(j) =~= s.take(j));
    }
}

/// The characters of `v` with leading and trailing Unicode whitespace removed.
pub fn trim_vec(v: &Vec<char>) -> (r: Vec<char>)
    ensures
        r@ == trim(v@),
{
    let n = v.len();
    let mut i: usize = 0;
    while i < n && space(v[i])
        invariant
            n == v.len(),
            i <= n,
            forall|k: int| 0 <= k < i ==> is_space(#[trigger] v@[k]),
        decreases n - i,
    {
        i = i + 1;
    }
    proof {
        lemma_trim_start_skip(v@, i as int);
    }
    let ghost w = v@.skip(i as int);
    assert(trim_start(w) == w);
    let mut j: usize = n;
    while j > i && space(v[j - 1])
        invariant
            n == v.len(),
            i <= j <= n,
            w == v@.skip(i as int),
            forall|k: int| j <= k < n ==> is_space(#[trigger] v@[k]),
        decreases j,
    {
        j = j - 1;
    }
    proof {
        assert forall|k: int| (j - i) <= k < w.len() implies is_space(#[trigger] w[k]) by {
            assert(w[k] == v@[k + i]);
        }
        lemma_trim_end_take(w, (j - i) as int);
        let u = w.take((j - i) as int);
        if u.len() > 0 {
            assert(u.last() == v@[j - 1]);
        }
        assert(trim_end(u) == u);
    }
    let mut r: Vec<char> = Vec::new();
    let mut k: usize = i;
    while k < j
        invariant
            n == v.len(),
            i <= k <= j <= n,
            r@ == v@.subrange(i as int, k as int),
        decreases j - k,
    {
        r.push(v[k]);
        k = k + 1;
        assert(r@ =~= v@.subrange(i as int, k as int));
    }
    assert(r@ =~= w.take((j - i) as int));
    r
}

/// `s` with leading and trailing Unicode whitespace removed.
pub fn trim_str(s: &str) -> (r: String)
    ensures
        r@ == trim(s@),
{
    let v = chars_of(s);
    let t = trim_vec(&v);
    string_of(&t)
}

/// The pieces of `s` between occurrences of `sep`, in order; an empty `s` is one
/// empty piece, and a trailing `sep` ends in an empty piece.
pub open spec fn split(s: Seq<char>, sep: char) -> Seq<Seq<char>>
    decreases s.len(),
{
    if s.len() == 0 {
        seq![Seq::empty()]
    } else {
        let r = split(s.drop_last(), sep);
        if s.last() == sep {
            r.push(Seq::empty())
        } else {
            r.update(r.len() - 1, r.last().push(s.last()))
        }
    }
}

pub proof fn lemma_split_nonempty(s: Seq<char>, sep: char)
    ensures
        split(s, sep).len() >= 1,
    decreases s.len(),
{
    if s.len() > 0 {
        lemma_split_nonempty(s.drop_last(), sep);
    }
}

/// Whether two strings hold the same characters.
pub fn str_eq(a: &str, b: &str) -> (r: bool)
    ensures
        r == (a@ == b@),
{
    let n = a.unicode_len();
    let m = b.unicode_len();
    if n != m {
        return false;
    }
    let mut i: usize = 0;
    while i < n
        invariant
            n == a@.len(),
            m == b@.len(),
            n == m,
            i <= n,
            forall|k: int| 0 <= k < i ==> a@[k] == b@[k],
        decreases n - i,
    {
        if a.get_char(i) != b.get_char(i) {
            return false;
        }
        i = i + 1;
    }
    assert(a@ =~= b@);
    true
}

/// Whether `s` begins with `prefix`.
pub open spec fn has_prefix(s: Seq<char>, prefix: Seq<char>) -> bool {
    prefix.len() <= s.len() && s.take(prefix.len() as int) == prefix
}

/// Whether `s` begins with `prefix`.
pub fn starts_with(s: &str, prefix: &str) -> (r: bool)
    ensures
        r == has_prefix(s@, prefix@),
{
    let n = s.unicode_len();
    let m = prefix.unicode_len();
    if m > n {
        return false;
    }
    let mut i: usize = 0;
    while i < m
        invariant
            n == s@.len(),
            m == prefix@.len(),
            m <= n,
            i <= m,
            forall|k: int| 0 <= k < i ==> s@[k] == prefix@[k],
        decreases m - i,
    {
        if s.get_char(i) != prefix.get_char(i) {
            assert(s@.take(m as int)[i as int] != prefix@[i as int]);
            return false;
        }
        i = i + 1;
    }
    assert(s@.take(m as int) =~= prefix@);
    true
}

/// Whether `needle` occurs in `s` starting at position `i`.
pub open spec fn occurs_at(s: Seq<char>, needle: Seq<char>, i: int) -> bool {
    0 <= i && i + needle.len() <= s.len() && s.subrange(i, i + needle.len()) == needle
}

/// Whether `needle` occurs anywhere in `s`.
pub open spec fn has_infix(s: Seq<char>, needle: Seq<char>) -> bool {
    exists|i: int| occurs_at(s, needle, i)
}

/// Whether `needle` occurs in `v` starting at position `i`.
fn occurs_at_exec(v: &Vec<char>, w: &Vec<char>, i: usize) -> (r: bool)
    requires
        i + w.len() <= v.len(),
    ensures
        r == occurs_at(v@, w@, i as int),
{
    let mut k: usize = 0;
    while k < w.len()
        invariant
            i + w.len() <= v.len(),
            k <= w.len(),
            forall|j: int| 0 <= j < k ==> v@[i + j] == w@[j],
        decreases w.len() - k,
    {
        if v[i + k] != w[k] {
            assert(v@.subrange(i as int, i + w.len())[k as int] != w@[k as int]);
            return false;
        }
        k = k + 1;
    }
    assert(v@.subrange(i as int, i + w.len()) =~= w@);
    true
}

/// Whether `needle` occurs anywhere in `s`.
pub fn contains(s: &str, needle: &str) -> (r: bool)
    ensures
        r == has_infix(s@, needle@),
{
    let v = chars_of(s);
    let w = chars_of(needle);
    if w.len() > v.len() {
        assert forall|i: int| !occurs_at(s@, needle@, i) by {}
        return false;
    }
    let last = v.len() - w.len();
    let mut i: usize = 0;
    while i < last
        invariant
            v@ == s@,
            w@ == needle@,
            last == v.len() - w.len(),
            w.len() <= v.len(),
            i <= last,
            forall|j: int| 0 <= j < i ==> !occurs_at(s@, needle@, j),
        decreases last - i,
    {
        if occurs_at_exec(&v, &w, i) {
            return true;
        }
        i = i + 1;
    }
    if occurs_at_exec(&v, &w, last) {
        return true;
    }
    assert forall|j: int| !occurs_at(s@, needle@, j) by {
        if 0 <= j < i {
        }
    }
    false
}

/// `s` with every occurrence of `from` replaced by `to`.
pub open spec fn replace_char(s: Seq<char>, from: char, to: Seq<char>) -> Seq<char>
    decreases s.len(),
{
    if s.len() == 0 {
        Seq::empty()
    } else {
        let prev = replace_char(s.drop_last(), from, to);
        if s.last() == from {
            prev + to
        } else {
            prev.push(s.last())
        }
    }
}

/// `s` with every occurrence of `from` replaced by `to`.
pub fn replace_char_str(s: &str, from: char, to: &str) -> (r: String)
    ensures
        r@ == replace_char(s@, from, to@),
{
    let v = chars_of(s);
    let mut out = String::new();
    let mut i: usize = 0;
    while i < v.len()
        invariant
            v@ == s@,
            i <= v.len(),
            out@ == replace_char(v@.take(i as int), from, to@),
        decreases v.len() - i,
    {
        assert(v@.take(i as int + 1).drop_last() =~= v@.take(i as int));
        if v[i] == from {
            push_str(&mut out, to);
        } else {
            out.push(v[i]);
        }
        i = i + 1;
    }
    assert(v@.take(v.len() as int) =~= v@);
    out
}

/// `s` without its leading `-` characters.
pub open spec fn strip_leading_dashes(s: Seq<char>) -> Seq<char>
    decreases s.len(),
{
    if s.len() > 0 && s[0] == '-' {
        strip_leading_dashes(s.drop_first())
    } else {
        s
    }
}

/// `s` without its trailing `-` characters.
pub open spec fn strip_trailing_dashes(s: Seq<char>) -> Seq<char>
    decreases s.len(),
{
    if s.len() > 0 && s.last() == '-' {
        strip_trailing_dashes(s.drop_last())
    } else {
        s
    }
}

proof fn lemma_strip_leading_skip(s: Seq<char>, i: int)
    requires
        0 <= i <= s.len(),
        forall|k: int| 0 <= k < i ==> #[trigger] s[k] == '-',
    ensures
        strip_leading_dashes(s) == strip_leading_dashes(s.skip(i)),
    decreases i,
{
    if i == 0 {
        assert(s.skip(0) =~= s);
    } else {
        let t = s.drop_first();
        assert forall|k: int| 0 <= k < i - 1 implies #[trigger] t[k] == '-' by {
            assert(t[k] == s[k + 1]);
        }
        lemma_strip_leading_skip(t, i - 1);
        assert(t.skip(i - 1) =~= s.skip(i));
    }
}

proof fn lemma_strip_trailing_take(s: Seq<char>, j: int)
    requires
        0 <= j <= s.len(),
        forall|k: int| j <= k < s.len() ==> #[trigger] s[k] == '-',
    ensures
        strip_trailing_dashes(s) == strip_trailing_dashes(s.take(j)),
    decreases s.len() - j,
{
    if j == s.len() {
        assert(s.take(j) =~= s);
    } else {
        let t = s.drop_last();
        assert forall|k: int| j <= k < t.len() implies #[trigger] t[k] == '-' by {
            assert(t[k] == s[k]);
        }
        lemma_strip_trailing_take(t, j);
        assert(t.take(j) =~= s.take(j));
    }
}


/// The characters of `m` with `-` trimmed from both ends.
pub fn strip_dashes(m: &Vec<char>) -> (out: String)
    ensures
        out@ == strip_trailing_dashes(strip_leading_dashes(m@)),
{
    let n = m.len();
    let ghost mapped = m@;
    let mut i: usize = 0;
    while i < n && m[i] == '-'
        invariant
            n == m.len(),
            i <= n,
            m@ == mapped,
            forall|q: int| 0 <= q < i ==> #[trigger] m@[q] == '-',
        decreases n - i,
    {
        i = i + 1;
    }
    proof {
        lemma_strip_leading_skip(mapped, i as int);
    }
    let ghost w = mapped.skip(i as int);
    assert(strip_leading_dashes(w) == w);
    let mut j: usize = n;
    while j > i && m[j - 1] == '-'
        invariant
            n == m.len(),
            i <= j <= n,
            m@ == mapped,
            w == mapped.skip(i as int),
            forall|q: int| j <= q < n ==> #[trigger] m@[q] == '-',
        decreases j,
    {
        j = j - 1;
    }
    proof {
        assert forall|q: int| (j - i) <= q < w.len() implies #[trigger] w[q] == '-' by {
            assert(w[q] == mapped[q + i]);
        }
        lemma_strip_trailing_take(w, (j - i) as int);
        let u = w.take((j - i) as int);
        if u.len() > 0 {
            assert(u.last() == mapped[j - 1]);
        }
        assert(strip_trailing_dashes(u) == u);
    }
    let mut out = String::new();
    let mut q: usize = i;
    while q < j
        invariant
            n == m.len(),
            i <= q <= j <= n,
            m@ == mapped,
            out@ == mapped.subrange(i as int, q as int),
        decreases j - q,
    {
        out.push(m[q]);
        q = q + 1;
        assert(out@ =~= mapped.subrange(i as int, q as int));
    }
    assert(out@ =~= w.take((j - i) as int));
    out
}

/// `a` sorts no later than `b`: character by character, a proper prefix first.
/// Comparing Unicode scalar values in order is the byte order of their UTF-8
/// encodings, the order `str` sorts by.
pub open spec fn lex_le(a: Seq<char>, b: Seq<char>) -> bool
    decreases a.len(),
{
    if a.len() == 0 {
        true
    } else if b.len() == 0 {
        false
    } else if a[0] != b[0] {
        a[0] < b[0]
    } else {
        lex_le(a.drop_first(), b.drop_first())
    }
}

/// Every element sorts no later than every element after it.
pub open spec fn lex_sorted(s: Seq<Seq<char>>) -> bool {
    forall|i: int, j: int| 0 <= i < j < s.len() ==> lex_le(#[trigger] s[i], #[trigger] s[j])
}

pub proof fn lemma_lex_reflexive(a: Seq<char>)
    ensures
        lex_le(a, a),
    decreases a.len(),
{
    if a.len() > 0 {
        lemma_lex_reflexive(a.drop_first());
    }
}

pub proof fn lemma_lex_total(a: Seq<char>, b: Seq<char>)
    ensures
        lex_le(a, b) || lex_le(b, a),
    decreases a.len(),
{
    if a.len() > 0 && b.len() > 0 && a[0] == b[0] {
        lemma_lex_total(a.drop_first(), b.drop_first());
    }
}

pub proof fn lemma_lex_antisymmetric(a: Seq<char>, b: Seq<char>)
    requires
        lex_le(a, b),
        lex_le(b, a),
    ensures
        a == b,
    decreases a.len(),
{
    if a.len() == 0 {
        assert(a =~= b);
    } else {
        assert(b.len() > 0);
        assert(a[0] == b[0]);
        lemma_lex_antisymmetric(a.drop_first(), b.drop_first());
        let (a1, b1) = (a.drop_first(), b.drop_first());
        assert(a1 == b1);
        assert(a1.len() == a.len() - 1 && b1.len() == b.len() - 1);
        assert forall|k: int| 0 <= k < a.len() implies a[k] == b[k] by {
            if k > 0 {
                assert(a[k] == a.drop_first()[k - 1]);
                assert(b[k] == b.drop_first()[k - 1]);
            }
        }
        assert(a =~= b);
    }
}

pub proof fn lemma_lex_transitive(a: Seq<char>, b: Seq<char>, c: Seq<char>)
    requires
        lex_le(a, b),
        lex_le(b, c),
    ensures
        lex_le(a, c),
    decreases a.len(),
{
    if a.len() > 0 && b.len() > 0 && c.len() > 0 && a[0] == b[0] && b[0] == c[0] {
        lemma_lex_transitive(a.drop_first(), b.drop_first(), c.drop_first());
    }
}

/// Whether `a` sorts no later than `b`.
pub fn lex_le_vec(a: &Vec<char>, b: &Vec<char>) -> (r: bool)
    ensures
        r == lex_le(a@, b@),
{
    let mut i: usize = 0;
    assert(a@.skip(0) =~= a@);
    assert(b@.skip(0) =~= b@);
    while i < a.len() && i < b.len() && a[i] == b[i]
        invariant
            i <= a.len(),
            i <= b.len(),
            lex_le(a@, b@) == lex_le(a@.skip(i as int), b@.skip(i as int)),
        decreases a.len() - i,
    {
        assert(a@.skip(i as int).drop_first() =~= a@.skip(i as int + 1));
        assert(b@.skip(i as int).drop_first() =~= b@.skip(i as int + 1));
        i = i + 1;
    }
    if i == a.len() {
        true
    } else if i == b.len() {
        false
    } else {
        a[i] < b[i]
    }
}

/// Two sorted sequences holding the same elements are the same sequence.
pub proof fn lemma_sorted_unique(s: Seq<Seq<char>>, t: Seq<Seq<char>>)
    requires
        lex_sorted(s),
        lex_sorted(t),
        s.to_multiset() == t.to_multiset(),
    ensures
        s == t,
    decreases s.len(),
{
    broadcast use vstd::seq_lib::group_to_multiset_ensures;
    broadcast use vstd::multiset::group_multiset_axioms;

    vstd::seq_lib::to_multiset_len(s);
    vstd::seq_lib::to_multiset_len(t);
    if s.len() == 0 {
        assert(s =~= t);
    } else {
        assert(t.len() == s.len());
        let a = s[0];
        let b = t[0];
        assert(s.to_multiset().count(a) > 0);
        assert(t.contains(a));
        let j = choose|j: int| 0 <= j < t.len() && t[j] == a;
        if j > 0 {
            assert(lex_le(t[0], t[j]));
        } else {
            lemma_lex_reflexive(a);
        }
        assert(lex_le(b, a));
        assert(t.to_multiset().count(b) > 0);
        assert(s.contains(b));
        let i = choose|i: int| 0 <= i < s.len() && s[i] == b;
        if i > 0 {
            assert(lex_le(s[0], s[i]));
        } else {
            lemma_lex_reflexive(a);
        }
        assert(lex_le(a, b));
        lemma_lex_antisymmetric(a, b);
        let s1 = s.remove(0);
        let t1 = t.remove(0);
        assert(s1.to_multiset() == s.to_multiset().remove(a));
        assert(t1.to_multiset() == t.to_multiset().remove(b));
        assert forall|x: int, y: int| 0 <= x < y < s1.len() implies lex_le(
            #[trigger] s1[x],
            #[trigger] s1[y],
        ) by {
            assert(s1[x] == s[x + 1] && s1[y] == s[y + 1]);
        }
        assert forall|x: int, y: int| 0 <= x < y < t1.len() implies lex_le(
            #[trigger] t1[x],
            #[trigger] t1[y],
        ) by {
            assert(t1[x] == t[x + 1] && t1[y] == t[y + 1]);
        }
        lemma_sorted_unique(s1, t1);
        assert forall|k: int| 0 <= k < s.len() implies s[k] == t[k] by {
            if k > 0 {
                assert(s[k] == s1[k - 1]);
                assert(t[k] == t1[k - 1]);
            }
        }
        assert(s =~= t);
    }
}




/// Whether `order` holds the position `m`.
pub open spec fn lists(order: Seq<usize>, m: int) -> bool {
    exists|q: int| 0 <= q < order.len() && order[q] == m
}

/// `order` lists every position of `keys` once, in an order that sorts the
/// keys.
pub open spec fn sorted_order(keys: Seq<Seq<char>>, order: Seq<usize>) -> bool {
    &&& order.len() == keys.len()
    &&& forall|i: int| 0 <= i < order.len() ==> #[trigger] order[i] < keys.len()
    &&& forall|i: int, j: int| 0 <= i < j < order.len() ==> #[trigger] order[i] != #[trigger] order[j]
    &&& forall|m: int| 0 <= m < keys.len() ==> #[trigger] lists(order, m)
    &&& forall|i: int, j: int|
        0 <= i < j < order.len() ==> lex_le(keys[#[trigger] order[i] as int], keys[#[trigger] order[j] as int])
}

/// The views of a vector of character vectors.
pub open spec fn char_vec_views(v: Seq<Vec<char>>) -> Seq<Seq<char>> {
    v.map_values(|x: Vec<char>| x@)
}

/// The positions of `keys` in sorted order (a stable insertion sort).
pub fn sort_order(keys: &Vec<Vec<char>>) -> (order: Vec<usize>)
    ensures
        sorted_order(char_vec_views(keys@), order@),
{
    let ghost ks = char_vec_views(keys@);
    let n = keys.len();
    let mut order: Vec<usize> = Vec::new();
    let mut i: usize = 0;
    while i < n
        invariant
            n == keys@.len(),
            ks == char_vec_views(keys@),
            i <= n,
            order@.len() == i,
            forall|q: int| 0 <= q < order@.len() ==> #[trigger] order@[q] < i,
            forall|a: int, b: int| 0 <= a < b < order@.len() ==> #[trigger] order@[a] != #[trigger] order@[b],
            forall|m: int| 0 <= m < i ==> #[trigger] lists(order@, m),
            forall|a: int, b: int|
                0 <= a < b < order@.len() ==> lex_le(ks[#[trigger] order@[a] as int], ks[#[trigger] order@[b] as int]),
        decreases n - i,
    {
        let mut p: usize = 0;
        while p < order.len() && lex_le_vec(&keys[order[p]], &keys[i])
            invariant
                n == keys@.len(),
                ks == char_vec_views(keys@),
                i < n,
                p <= order@.len(),
                forall|q: int| 0 <= q < order@.len() ==> #[trigger] order@[q] < i,
                forall|q: int| 0 <= q < p ==> lex_le(ks[#[trigger] order@[q] as int], ks[i as int]),
            decreases order@.len() - p,
        {
            assert(ks[order@[p as int] as int] == keys@[order@[p as int] as int]@);
            p = p + 1;
        }
        let ghost old_order = order@;
        proof {
            assert(ks[i as int] == keys@[i as int]@);
            if p < old_order.len() {
                assert(ks[old_order[p as int] as int] == keys@[old_order[p as int] as int]@);
                lemma_lex_total(ks[old_order[p as int] as int], ks[i as int]);
            }
        }
        order.insert(p, i);
        proof {
            let o = order@;
            assert(o == old_order.insert(p as int, i));
            assert forall|a: int, b: int| 0 <= a < b < o.len() implies #[trigger] o[a] != #[trigger] o[b] by {
                if a < p && b < p {
                } else if a < p && b == p {
                } else if a < p {
                    assert(o[b] == old_order[b - 1]);
                } else if a == p {
                    assert(o[b] == old_order[b - 1]);
                } else {
                    assert(o[a] == old_order[a - 1] && o[b] == old_order[b - 1]);
                }
            }
            assert forall|a: int, b: int| 0 <= a < b < o.len() implies lex_le(
                ks[#[trigger] o[a] as int],
                ks[#[trigger] o[b] as int],
            ) by {
                if b < p {
                    assert(o[a] == old_order[a] && o[b] == old_order[b]);
                } else if b == p {
                    assert(o[a] == old_order[a]);
                } else if a < p {
                    assert(o[a] == old_order[a] && o[b] == old_order[b - 1]);
                    if a + 1 <= b - 1 {
                        assert(lex_le(ks[old_order[a] as int], ks[old_order[b - 1] as int]));
                    }
                    if p <= b - 1 {
                        if p < b - 1 {
                            assert(lex_le(ks[old_order[p as int] as int], ks[old_order[b - 1] as int]));
                            lemma_lex_transitive(ks[i as int], ks[old_order[p as int] as int], ks[old_order[b - 1] as int]);
                        }
                        lemma_lex_transitive(ks[old_order[a] as int], ks[i as int], ks[old_order[b - 1] as int]);
                    }
                } else if a == p {
                    assert(o[b] == old_order[b - 1]);
                    if p < b - 1 {
                        assert(lex_le(ks[old_order[p as int] as int], ks[old_order[b - 1] as int]));
                        lemma_lex_transitive(ks[i as int], ks[old_order[p as int] as int], ks[old_order[b - 1] as int]);
                    }
                } else {
                    assert(o[a] == old_order[a - 1] && o[b] == old_order[b - 1]);
                }
            }
            assert forall|m: int| 0 <= m < i + 1 implies #[trigger] lists(o, m) by {
                if m == i {
                    assert(o[p as int] == m);
                } else {
                    assert(lists(old_order, m));
                    let q0 = choose|q: int| 0 <= q < old_order.len() && old_order[q] == m;
                    if q0 < p {
                        assert(o[q0] == m);
                    } else {
                        assert(o[q0 + 1] == m);
                    }
                }
            }
            assert forall|q: int| 0 <= q < o.len() implies #[trigger] o[q] < i + 1 by {
                if q < p {
                    assert(o[q] == old_order[q]);
                } else if q > p {
                    assert(o[q] == old_order[q - 1]);
                }
            }
        }
        i = i + 1;
    }
    order
}


/// Whether two character vectors hold the same characters.
pub fn vec_eq(a: &Vec<char>, b: &Vec<char>) -> (r: bool)
    ensures
        r == (a@ == b@),
{
    if a.len() != b.len() {
        return false;
    }
    let mut i: usize = 0;
    while i < a.len()
        invariant
            a@.len() == b@.len(),
            i <= a@.len(),
            forall|k: int| 0 <= k < i ==> a@[k] == b@[k],
        decreases a@.len() - i,
    {
        if a[i] != b[i] {
            return false;
        }
        i = i + 1;
    }
    assert(a@ =~= b@);
    true
}


/// Every element sorts strictly before every later one.
pub open spec fn strictly_sorted(s: Seq<Seq<char>>) -> bool {
    forall|i: int, j: int| 0 <= i < j < s.len() ==> lex_le(#[trigger] s[i], #[trigger] s[j]) && s[i] != s[j]
}

/// The distinct keys, sorted.
pub fn sorted_distinct(keys: &Vec<Vec<char>>) -> (out: Vec<Vec<char>>)
    ensures
        strictly_sorted(char_vec_views(out@)),
        forall|x: Seq<char>| #[trigger] char_vec_views(out@).contains(x) <==> char_vec_views(keys@).contains(x),
{
    let n = keys.len();
    let ghost ks = char_vec_views(keys@);
    let order = sort_order(keys);
    let mut out: Vec<Vec<char>> = Vec::new();
    let mut k: usize = 0;
    while k < n
        invariant
            n == keys@.len(),
            ks == char_vec_views(keys@),
            sorted_order(ks, order@),
            k <= n,
            strictly_sorted(char_vec_views(out@)),
            k > 0 ==> out@.len() > 0 && char_vec_views(out@).last() == ks[order@[k - 1] as int],
            k == 0 ==> out@.len() == 0,
            forall|x: Seq<char>| #[trigger] char_vec_views(out@).contains(x) <==> exists|q: int| 0 <= q < k && ks[order@[q] as int] == x,
        decreases n - k,
    {
        let idx = order[k];
        let ghost x = ks[idx as int];
        assert(x == keys@[idx as int]@);
        let ghost old_out = char_vec_views(out@);
        let fresh = k == 0 || !vec_eq(&out[out.len() - 1], &keys[idx]);
        proof {
            if k > 0 {
                assert(old_out.last() == out@[out@.len() - 1]@);
            }
        }
        if fresh {
            let copy = copy_chars(&keys[idx]);
            proof {
                if k > 0 {
                    let last = old_out.last();
                    assert(lex_le(ks[order@[k - 1] as int], ks[order@[k as int] as int]));
                    assert forall|a: int, b: int| 0 <= a < b < old_out.len() + 1 implies lex_le(
                        #[trigger] old_out.push(x)[a],
                        #[trigger] old_out.push(x)[b],
                    ) && old_out.push(x)[a] != old_out.push(x)[b] by {
                        if b == old_out.len() {
                            let y = old_out[a];
                            if a < old_out.len() - 1 {
                                assert(lex_le(y, last) && y != last);
                                lemma_lex_transitive(y, last, x);
                                if y == x {
                                    lemma_lex_antisymmetric(last, x);
                                }
                            }
                        } else {
                            assert(old_out.push(x)[a] == old_out[a]);
                            assert(old_out.push(x)[b] == old_out[b]);
                        }
                    }
                }
            }
            out.push(copy);
            proof {
                assert(char_vec_views(out@) =~= old_out.push(x));
            }
        }
        proof {
            assert forall|y: Seq<char>| #[trigger] char_vec_views(out@).contains(y) <==> exists|q: int| 0 <= q < k + 1 && ks[order@[q] as int] == y by {
                if fresh {
                    vstd::seq_lib::lemma_seq_contains_after_push(old_out, x, y);
                }
                if exists|q: int| 0 <= q < k + 1 && ks[order@[q] as int] == y {
                    let q = choose|q: int| 0 <= q < k + 1 && ks[order@[q] as int] == y;
                    if q < k {
                        assert(old_out.contains(y));
                    }
                }
                if old_out.contains(y) {
                    let q = choose|q: int| 0 <= q < k && ks[order@[q] as int] == y;
                    assert(0 <= q < k + 1 && ks[order@[q] as int] == y);
                }
                if y == x {
                    assert(ks[order@[k as int] as int] == y);
                }
            }
        }
        k = k + 1;
    }
    proof {
        assert forall|x: Seq<char>| #[trigger] char_vec_views(out@).contains(x) <==> ks.contains(x) by {
            if char_vec_views(out@).contains(x) {
                let q = choose|q: int| 0 <= q < n && ks[order@[q] as int] == x;
                assert(ks[order@[q] as int] == x);
            }
            if ks.contains(x) {
                let m = choose|m: int| 0 <= m < ks.len() && ks[m] == x;
                assert(lists(order@, m));
                let q = choose|q: int| 0 <= q < order@.len() && order@[q] == m;
                assert(ks[order@[q] as int] == x);
            }
        }
    }
    out
}

/// A copy of a character vector.
pub fn copy_chars(v: &Vec<char>) -> (r: Vec<char>)
    ensures
        r@ == v@,
{
    let mut r: Vec<char> = Vec::new();
    let mut i: usize = 0;
    while i < v.len()
        invariant
            i <= v.len(),
            r@ == v@.take(i as int),
        decreases v.len() - i,
    {
        r.push(v[i]);
        i = i + 1;
        assert(r@ =~= v@.take(i as int));
    }
    assert(v@.take(v.len() as int) =~= v@);
    r
}


/// `s` without one leading `+`.
pub open spec fn unsigned_digits(s: Seq<char>) -> Seq<char> {
    if s.len() > 0 && s[0] == '+' {
        s.drop_first()
    } else {
        s
    }
}

/// A non-empty run of ASCII digits.
pub open spec fn all_digits(s: Seq<char>) -> bool {
    s.len() > 0 && forall|i: int| 0 <= i < s.len() ==> '0' <= #[trigger] s[i] <= '9'
}

/// The number ASCII digits `s` write in decimal.
pub open spec fn digits_value(s: Seq<char>) -> nat
    decreases s.len(),
{
    if s.len() == 0 {
        0
    } else {
        digits_value(s.drop_last()) * 10 + ((s.last() as int) - ('0' as int)) as nat
    }
}

/// What `str::parse::<usize>` gives: an optional `+`, then decimal digits
/// whose value fits.
pub open spec fn parsed_usize(s: Seq<char>) -> Option<usize> {
    let d = unsigned_digits(s);
    if all_digits(d) && digits_value(d) <= usize::MAX {
        Some(digits_value(d) as usize)
    } else {
        None
    }
}

proof fn lemma_digits_prefix(s: Seq<char>, i: int)
    requires
        0 <= i <= s.len(),
        forall|k: int| 0 <= k < s.len() ==> '0' <= #[trigger] s[k] <= '9',
    ensures
        digits_value(s.take(i)) <= digits_value(s),
    decreases s.len() - i,
{
    if i < s.len() {
        let t = s.drop_last();
        assert forall|k: int| 0 <= k < t.len() implies '0' <= #[trigger] t[k] <= '9' by {
            assert(t[k] == s[k]);
        }
        lemma_digits_prefix(t, i);
        assert(t.take(i) =~= s.take(i));
    } else {
        assert(s.take(i) =~= s);
    }
}

/// Parse an unsigned decimal as `str::parse::<usize>` does.
pub fn parse_usize(s: &str) -> (r: Option<usize>)
    ensures
        r == parsed_usize(s@),
{
    let v = chars_of(s);
    let n = v.len();
    let start: usize = if n > 0 && v[0] == '+' { 1 } else { 0 };
    let ghost d = unsigned_digits(s@);
    assert(d =~= v@.skip(start as int));
    if start == n {
        return None;
    }
    let mut acc: usize = 0;
    let mut i: usize = start;
    assert(d.take(0) =~= Seq::<char>::empty());
    while i < n
        invariant
            n == v@.len(),
            start <= i <= n,
            d == v@.skip(start as int),
            d == unsigned_digits(s@),
            forall|k: int| 0 <= k < i - start ==> '0' <= #[trigger] d[k] <= '9',
            acc == digits_value(d.take(i - start)),
        decreases n - i,
    {
        let c = v[i];
        if !('0' <= c && c <= '9') {
            proof {
                assert(d[i - start] == v@[i as int]);
                assert(!('0' <= d[i - start] <= '9'));
                assert(!all_digits(d));
            }
            return None;
        }
        let digit = (c as u32 - '0' as u32) as usize;
        let ghost t = d.take(i - start + 1);
        proof {
            assert(t.drop_last() =~= d.take(i - start));
            assert(t.last() == c);
        }
        let next = match acc.checked_mul(10) {
            Some(m) => m.checked_add(digit),
            None => None,
        };
        match next {
            Some(x) => {
                acc = x;
            },
            None => {
                proof {
                    assert(d[i - start] == v@[i as int]);
                    assert(digit == (t.last() as int) - ('0' as int));
                    assert(digits_value(t) == acc * 10 + digit);
                    assert(digits_value(t) > usize::MAX);
                    if all_digits(d) {
                        lemma_digits_prefix(d, i - start + 1);
                    }
                }
                return None;
            },
        }
        i = i + 1;
    }
    assert(d.take(n - start) =~= d);
    Some(acc)
}

/// `parts` joined with `sep` between neighbours.
pub open spec fn join_with(parts: Seq<Seq<char>>, sep: Seq<char>) -> Seq<char>
    decreases parts.len(),
{
    if parts.len() == 0 {
        Seq::empty()
    } else if parts.len() == 1 {
        parts[0]
    } else {
        join_with(parts.drop_last(), sep) + sep + parts.last()
    }
}


/// The views of a sequence of strings.
pub open spec fn string_views_of(v: Seq<String>) -> Seq<Seq<char>> {
    v.map_values(|s: String| s@)
}

/// The strings joined with `sep` between neighbours.
pub fn join_strings(parts: &Vec<String>, sep: &str) -> (r: String)
    ensures
        r@ == join_with(string_views_of(parts@), sep@),
{
    let ghost ps = string_views_of(parts@);
    let mut r = String::new();
    let mut i: usize = 0;
    while i < parts.len()
        invariant
            i <= parts@.len(),
            ps == string_views_of(parts@),
            r@ == join_with(ps.take(i as int), sep@),
        decreases parts@.len() - i,
    {
        let ghost prev = r@;
        if i > 0 {
            push_str(&mut r, sep);
        }
        push_str(&mut r, parts[i].as_str());
        proof {
            let t = ps.take(i as int + 1);
            assert(t.drop_last() =~= ps.take(i as int));
            assert(t.last() == parts@[i as int]@);
            if i == 0 {
                assert(r@ =~= t[0]);
            } else {
                assert(r@ =~= prev + sep@ + t.last());
            }
        }
        i = i + 1;
    }
    assert(ps.take(parts@.len() as int) =~= ps);
    r
}

/// What `char::to_uppercase` gives for `c` (one or more characters).
pub uninterp spec fn char_uppercase(c: char) -> Seq<char>;

/// Calls `char::to_uppercase` and collects the characters; the result is
/// named, not stated, since it follows Unicode's case tables.
#[verifier::external_body]
pub(crate) fn uppercase_of(c: char) -> (r: String)
    ensures
        r@ == char_uppercase(c),
{
    c.to_uppercase().collect::<String>()
}


/// What `str::parse::<u64>` gives: an optional `+`, then decimal digits
/// whose value fits.
pub open spec fn parsed_u64(s: Seq<char>) -> Option<u64> {
    let d = unsigned_digits(s);
    if all_digits(d) && digits_value(d) <= u64::MAX {
        Some(digits_value(d) as u64)
    } else {
        None
    }
}

/// Parse an unsigned decimal as `str::parse::<u64>` does.
pub fn parse_u64(s: &str) -> (r: Option<u64>)
    ensures
        r == parsed_u64(s@),
{
    let v = chars_of(s);
    let n = v.len();
    let start: usize = if n > 0 && v[0] == '+' { 1 } else { 0 };
    let ghost d = unsigned_digits(s@);
    assert(d =~= v@.skip(start as int));
    if start == n {
        return None;
    }
    let mut acc: u64 = 0;
    let mut i: usize = start;
    assert(d.take(0) =~= Seq::<char>::empty());
    while i < n
        invariant
            n == v@.len(),
            start <= i <= n,
            d == v@.skip(start as int),
            d == unsigned_digits(s@),
            forall|k: int| 0 <= k < i - start ==> '0' <= #[trigger] d[k] <= '9',
            acc == digits_value(d.take(i - start)),
        decreases n - i,
    {
        let c = v[i];
        if !('0' <= c && c <= '9') {
            proof {
                assert(d[i - start] == v@[i as int]);
                assert(!('0' <= d[i - start] <= '9'));
                assert(!all_digits(d));
            }
            return None;
        }
        let digit = (c as u32 - '0' as u32) as u64;
        let ghost t = d.take(i - start + 1);
        proof {
            assert(t.drop_last() =~= d.take(i - start));
            assert(t.last() == c);
        }
        let next = match acc.checked_mul(10) {
            Some(m) => m.checked_add(digit),
            None => None,
        };
        match next {
            Some(x) => {
                acc = x;
            },
            None => {
                proof {
                    assert(d[i - start] == v@[i as int]);
                    assert(digit == (t.last() as int) - ('0' as int));
                    assert(digits_value(t) == acc * 10 + digit);
                    assert(digits_value(t) > u64::MAX);
                    if all_digits(d) {
                        lemma_digits_prefix(d, i - start + 1);
                    }
                }
                return None;
            },
        }
        i = i + 1;
    }
    assert(d.take(n - start) =~= d);
    Some(acc)
}

/// A new string holding `s`.
pub fn copy_str(s: &str) -> (r: String)
    ensures
        r@ == s@,
{
    let mut r = String::new();
    push_str(&mut r, s);
    assert(r@ =~= s@);
    r
}

/// A new vector holding the same strings.
pub fn copy_strings(v: &Vec<String>) -> (r: Vec<String>)
    ensures
        string_views_of(r@) == string_views_of(v@),
{
    let mut r: Vec<String> = Vec::new();
    let mut i: usize = 0;
    while i < v.len()
        invariant
            i <= v@.len(),
            string_views_of(r@) == string_views_of(v@).take(i as int),
        decreases v@.len() - i,
    {
        let ghost prev = string_views_of(r@);
        r.push(copy_str(v[i].as_str()));
        proof {
            assert(string_views_of(r@) =~= prev.push(v@[i as int]@));
            assert(string_views_of(v@).take(i as int + 1) =~= string_views_of(v@).take(i as int).push(
                v@[i as int]@,
            ));
        }
        i = i + 1;
    }
    assert(string_views_of(v@).take(v@.len() as int) =~= string_views_of(v@));
    r
}

} // verus!
