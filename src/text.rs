use vstd::prelude::*;

verus! {

/// Whether `char::is_whitespace` holds of `c`: the characters with the
/// Unicode White_Space property.
pub open spec fn is_white_space(c: char) -> bool {
    let v = c as u32;
    (9 <= v && v <= 13) || v == 0x20 || v == 0x85 || v == 0xA0 || v == 0x1680
        || (0x2000 <= v && v <= 0x200A) || v == 0x2028 || v == 0x2029 || v == 0x202F
        || v == 0x205F || v == 0x3000
}

/// `s` without its leading white space.
pub open spec fn strip_leading_white_space(s: Seq<char>) -> Seq<char>
    decreases s.len(),
{
    if s.len() > 0 && is_white_space(s[0]) { strip_leading_white_space(s.drop_first()) } else { s }
}

/// `s` without its trailing white space.
pub open spec fn strip_trailing_white_space(s: Seq<char>) -> Seq<char>
    decreases s.len(),
{
    if s.len() > 0 && is_white_space(s.last()) { strip_trailing_white_space(s.drop_last()) } else { s }
}

/// What `str::trim` leaves of a character sequence: leading and trailing
/// white space removed.
pub open spec fn trimmed(s: Seq<char>) -> Seq<char> {
    strip_trailing_white_space(strip_leading_white_space(s))
}

/// Relies on `str::trim`: the input without leading and trailing
/// characters for which `char::is_whitespace` holds.
#[verifier::external_body]
pub(crate) fn trim_str(s: &str) -> (r: &str)
    ensures
        r@ == trimmed(s@),
        s@.len() == 0 ==> r@.len() == 0,
{
    s.trim()
}

/// Relies on `String::push`: appends one character.
#[verifier::external_body]
pub(crate) fn push_char(s: &mut String, c: char)
    ensures
        final(s)@ == old(s)@.push(c),
{
    s.push(c)
}

/// The decimal digit character for `d < 10`.
pub open spec fn digit_char(d: nat) -> char {
    if d == 0 { '0' }
    else if d == 1 { '1' }
    else if d == 2 { '2' }
    else if d == 3 { '3' }
    else if d == 4 { '4' }
    else if d == 5 { '5' }
    else if d == 6 { '6' }
    else if d == 7 { '7' }
    else if d == 8 { '8' }
    else { '9' }
}

/// The decimal notation of `n`, without leading zeros.
pub open spec fn decimal(n: nat) -> Seq<char>
    decreases n,
{
    if n < 10 {
        seq![digit_char(n)]
    } else {
        decimal(n / 10).push(digit_char(n % 10))
    }
}

/// Decimal notation of `n` left-padded with zeros to at least `width` digits.
pub open spec fn zero_padded(n: nat, width: nat) -> Seq<char> {
    let d = decimal(n);
    if d.len() >= width {
        d
    } else {
        Seq::new((width - d.len()) as nat, |i: int| '0') + d
    }
}

/// The decimal notation of a signed integer.
pub open spec fn signed_decimal(n: int) -> Seq<char> {
    if n < 0 {
        seq!['-'] + decimal((-n) as nat)
    } else {
        decimal(n as nat)
    }
}

fn digit(d: u64) -> (c: char)
    requires
        d < 10,
    ensures
        c == digit_char(d as nat),
{
    if d == 0 { '0' }
    else if d == 1 { '1' }
    else if d == 2 { '2' }
    else if d == 3 { '3' }
    else if d == 4 { '4' }
    else if d == 5 { '5' }
    else if d == 6 { '6' }
    else if d == 7 { '7' }
    else if d == 8 { '8' }
    else { '9' }
}

/// Appends the decimal notation of `n` to `out`.
pub fn push_decimal(out: &mut String, n: u64)
    ensures
        final(out)@ == old(out)@ + decimal(n as nat),
    decreases n,
{
    if n >= 10 {
        push_decimal(out, n / 10);
    }
    push_char(out, digit(n % 10));
    assert(final(out)@ =~= old(out)@ + decimal(n as nat));
}

/// Appends `n` in decimal, left-padded with zeros to `width` digits.
pub fn push_zero_padded(out: &mut String, n: u64, width: usize)
    ensures
        final(out)@ == old(out)@ + zero_padded(n as nat, width as nat),
{
    let mut digits = String::new();
    push_decimal(&mut digits, n);
    let len = digits.as_str().unicode_len();
    let mut k: usize = len;
    while k < width
        invariant
            len == decimal(n as nat).len(),
            len <= k <= width || (k == len && len >= width),
            out@ == old(out)@ + Seq::new((k - len) as nat, |i: int| '0'),
        decreases width - k,
    {
        push_char(out, '0');
        k = k + 1;
        assert(out@ =~= old(out)@ + Seq::new((k - len) as nat, |i: int| '0'));
    }
    out.append(digits.as_str());
    if len >= width {
        assert(out@ =~= old(out)@ + zero_padded(n as nat, width as nat));
    } else {
        assert(out@ =~= old(out)@ + zero_padded(n as nat, width as nat));
    }
}

/// Appends a signed integer in decimal.
pub fn push_signed_decimal(out: &mut String, n: i64)
    ensures
        final(out)@ == old(out)@ + signed_decimal(n as int),
{
    if n < 0 {
        push_char(out, '-');
        let m: u64 = if n == i64::MIN { 9223372036854775808u64 } else { (-n) as u64 };
        push_decimal(out, m);
        assert(out@ =~= old(out)@ + signed_decimal(n as int));
    } else {
        push_decimal(out, n as u64);
    }
}

/// The lower-case hexadecimal digit character for `d < 16`.
pub open spec fn hex_digit_char(d: nat) -> char {
    if d < 10 { digit_char(d) }
    else if d == 10 { 'a' }
    else if d == 11 { 'b' }
    else if d == 12 { 'c' }
    else if d == 13 { 'd' }
    else if d == 14 { 'e' }
    else { 'f' }
}

/// The lower-case hexadecimal notation of `n`, without leading zeros.
pub open spec fn hex(n: nat) -> Seq<char>
    decreases n,
{
    if n < 16 {
        seq![hex_digit_char(n)]
    } else {
        hex(n / 16).push(hex_digit_char(n % 16))
    }
}

fn hex_digit(d: u64) -> (c: char)
    requires
        d < 16,
    ensures
        c == hex_digit_char(d as nat),
{
    if d < 10 { digit(d) }
    else if d == 10 { 'a' }
    else if d == 11 { 'b' }
    else if d == 12 { 'c' }
    else if d == 13 { 'd' }
    else if d == 14 { 'e' }
    else { 'f' }
}

/// Appends the lower-case hexadecimal notation of `n` to `out`.
pub fn push_hex(out: &mut String, n: u64)
    ensures
        final(out)@ == old(out)@ + hex(n as nat),
    decreases n,
{
    if n >= 16 {
        push_hex(out, n / 16);
    }
    push_char(out, hex_digit(n % 16));
    assert(final(out)@ =~= old(out)@ + hex(n as nat));
}

/// Appends every character of `s`.
pub fn push_str(out: &mut String, s: &str)
    ensures
        final(out)@ == old(out)@ + s@,
{
    out.append(s);
}

/// The pieces of `s` between occurrences of `sep`, as `str::split` yields
/// them: an empty input gives one empty piece, and each separator starts a
/// new one.
pub open spec fn split_pieces(s: Seq<char>, sep: char) -> Seq<Seq<char>>
    decreases s.len(),
{
    if s.len() == 0 {
        seq![Seq::<char>::empty()]
    } else {
        let init = split_pieces(s.drop_last(), sep);
        if s.last() == sep {
            init.push(Seq::<char>::empty())
        } else {
            init.update(init.len() - 1, init.last().push(s.last()))
        }
    }
}

pub proof fn lemma_split_pieces_nonempty(s: Seq<char>, sep: char)
    ensures
        split_pieces(s, sep).len() >= 1,
    decreases s.len(),
{
    if s.len() > 0 {
        lemma_split_pieces_nonempty(s.drop_last(), sep);
    }
}

/// `s` without its leading occurrences of `c`.
pub open spec fn strip_leading(s: Seq<char>, c: char) -> Seq<char>
    decreases s.len(),
{
    if s.len() > 0 && s[0] == c { strip_leading(s.drop_first(), c) } else { s }
}

/// `s` without its leading occurrences of `c`.
pub fn trim_start_char(s: &str, c: char) -> (r: &str)
    ensures
        r@ == strip_leading(s@, c),
{
    let n = s.unicode_len();
    let mut a: usize = 0;
    assert(s@.subrange(0, n as int) =~= s@);
    while a < n && s.get_char(a) == c
        invariant
            n == s@.len(),
            a <= n,
            strip_leading(s@, c) == strip_leading(s@.subrange(a as int, n as int), c),
        decreases n - a,
    {
        assert(s@.subrange(a as int, n as int).drop_first() =~= s@.subrange(a + 1, n as int));
        a = a + 1;
    }
    s.substring_char(a, n)
}

/// The characters of `s`, one by one.
pub fn chars_of(s: &str) -> (r: Vec<char>)
    ensures
        r@ == s@,
{
    let n = s.unicode_len();
    let mut v: Vec<char> = Vec::new();
    let mut i: usize = 0;
    while i < n
        invariant
            n == s@.len(),
            i <= n,
            v@ == s@.subrange(0, i as int),
        decreases n - i,
    {
        v.push(s.get_char(i));
        i = i + 1;
        assert(v@ =~= s@.subrange(0, i as int));
    }
    assert(s@.subrange(0, n as int) =~= s@);
    v
}

/// The character sequences of a list of strings.
pub open spec fn string_views(v: Seq<String>) -> Seq<Seq<char>> {
    v.map_values(|s: String| s@)
}

/// Whether `p` is a prefix of `s`.
pub open spec fn is_prefix(p: Seq<char>, s: Seq<char>) -> bool {
    p.len() <= s.len() && s.subrange(0, p.len() as int) == p
}

/// Whether `p` is a suffix of `s`.
pub open spec fn is_suffix(p: Seq<char>, s: Seq<char>) -> bool {
    p.len() <= s.len() && s.subrange(s.len() - p.len(), s.len() as int) == p
}

pub fn starts_with(s: &str, p: &str) -> (r: bool)
    ensures
        r == is_prefix(p@, s@),
{
    let n = s.unicode_len();
    let m = p.unicode_len();
    if m > n {
        return false;
    }
    let mut i: usize = 0;
    while i < m
        invariant
            n == s@.len(),
            m == p@.len(),
            m <= n,
            i <= m,
            s@.subrange(0, i as int) == p@.subrange(0, i as int),
        decreases m - i,
    {
        if s.get_char(i) != p.get_char(i) {
            assert(s@.subrange(0, m as int)[i as int] != p@[i as int]);
            return false;
        }
        i = i + 1;
        assert(s@.subrange(0, i as int) =~= p@.subrange(0, i as int));
    }
    assert(p@.subrange(0, m as int) =~= p@);
    true
}

pub fn ends_with(s: &str, p: &str) -> (r: bool)
    ensures
        r == is_suffix(p@, s@),
{
    let n = s.unicode_len();
    let m = p.unicode_len();
    if m > n {
        return false;
    }
    let base: usize = n - m;
    let mut i: usize = 0;
    while i < m
        invariant
            n == s@.len(),
            m == p@.len(),
            base == n - m,
            i <= m,
            s@.subrange(base as int, base + i) == p@.subrange(0, i as int),
        decreases m - i,
    {
        if s.get_char(base + i) != p.get_char(i) {
            assert(s@.subrange(base as int, n as int)[i as int] != p@[i as int]);
            return false;
        }
        i = i + 1;
        assert(s@.subrange(base as int, base + i) =~= p@.subrange(0, i as int));
    }
    assert(p@.subrange(0, m as int) =~= p@);
    true
}

pub fn contains_char(s: &str, c: char) -> (r: bool)
    ensures
        r == s@.contains(c),
{
    let n = s.unicode_len();
    let mut i: usize = 0;
    while i < n
        invariant
            n == s@.len(),
            i <= n,
            forall|k: int| 0 <= k < i ==> s@[k] != c,
        decreases n - i,
    {
        if s.get_char(i) == c {
            return true;
        }
        i = i + 1;
    }
    false
}

pub fn same_text(a: &str, b: &str) -> (r: bool)
    ensures
        r == (a@ == b@),
{
    if a.unicode_len() != b.unicode_len() {
        return false;
    }
    assert(a@.subrange(0, b@.len() as int) =~= a@);
    starts_with(a, b)
}

} // verus!
