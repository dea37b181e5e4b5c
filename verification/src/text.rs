//! Text helpers: every message the library produces is built from these, so that a
//! contract can spell the message out character by character.
use vstd::prelude::*;

verus! {

/// The character of one decimal digit.
pub open spec fn digit(d: nat) -> char {
    (0x30 + d) as char
}

/// The decimal numeral of `n`, without leading zeros.
pub open spec fn decimal(n: nat) -> Seq<char>
    decreases n,
{
    if n < 10 {
        seq![digit(n)]
    } else {
        decimal(n / 10).push(digit(n % 10))
    }
}

fn digit_text(d: u64) -> (r: &'static str)
    requires
        d < 10,
    ensures
        r@ == seq![digit(d as nat)],
{
    proof {
        reveal_strlit("0");
        reveal_strlit("1");
        reveal_strlit("2");
        reveal_strlit("3");
        reveal_strlit("4");
        reveal_strlit("5");
        reveal_strlit("6");
        reveal_strlit("7");
        reveal_strlit("8");
        reveal_strlit("9");
    }
    if d == 0 {
        "0"
    } else if d == 1 {
        "1"
    } else if d == 2 {
        "2"
    } else if d == 3 {
        "3"
    } else if d == 4 {
        "4"
    } else if d == 5 {
        "5"
    } else if d == 6 {
        "6"
    } else if d == 7 {
        "7"
    } else if d == 8 {
        "8"
    } else {
        "9"
    }
}

/// Writes `n` in decimal.
pub fn decimal_text(n: u64) -> (r: String)
    ensures
        r@ == decimal(n as nat),
    decreases n,
{
    if n < 10 {
        digit_text(n).to_owned()
    } else {
        let mut s = decimal_text(n / 10);
        s.append(digit_text(n % 10));
        proof {
            assert(s@ =~= decimal(n as nat / 10).push(digit(n as nat % 10)));
        }
        s
    }
}

/// Writes a number of any size in decimal.
pub fn wide_decimal_text(n: u128) -> (r: String)
    ensures
        r@ == decimal(n as nat),
    decreases n,
{
    if n <= 0xFFFF_FFFF_FFFF_FFFF {
        decimal_text(n as u64)
    } else {
        let mut s = wide_decimal_text(n / 10);
        s.append(digit_text((n % 10) as u64));
        proof {
            assert(s@ =~= decimal(n as nat / 10).push(digit(n as nat % 10)));
        }
        s
    }
}

/// Whether two texts hold the same characters.
pub fn same_text(a: &str, b: &str) -> (r: bool)
    ensures
        r == (a@ == b@),
{
    let x = a.as_bytes();
    let y = b.as_bytes();
    proof {
        vstd::utf8::encode_utf8_decode_utf8(a@);
        vstd::utf8::encode_utf8_decode_utf8(b@);
    }
    if x.len() != y.len() {
        return false;
    }
    let mut i: usize = 0;
    while i < x.len()
        invariant
            i <= x.len(),
            x.len() == y.len(),
            x@ == vstd::utf8::encode_utf8(a@),
            y@ == vstd::utf8::encode_utf8(b@),
            forall|j: int| 0 <= j < i ==> x@[j] == y@[j],
        decreases x.len() - i,
    {
        if x[i] != y[i] {
            return false;
        }
        i = i + 1;
    }
    assert(x@ =~= y@);
    true
}

/// The texts of an executable vector.
pub open spec fn texts(v: Seq<String>) -> Seq<Seq<char>> {
    v.map_values(|s: String| s@)
}

/// Pushing a text appends it.
pub proof fn lemma_texts_push(v: Seq<String>, s: String)
    ensures
        texts(v.push(s)) == texts(v).push(s@),
{
    assert(texts(v.push(s)) =~= texts(v).push(s@));
}

/// The text that may be there.
pub open spec fn maybe(s: Option<String>) -> Option<Seq<char>> {
    match s {
        Some(t) => Some(t@),
        None => None,
    }
}

/// What `String::from_utf8_lossy` makes of bytes.
pub uninterp spec fn lossy_text(bytes: Seq<u8>) -> Seq<char>;

/// `String::from_utf8_lossy`, as an owned text. Well-formed UTF-8 comes out as it is; what is
/// not is replaced, in a way that depends on the bytes alone and is not spelled out here.
#[verifier::external_body]
pub(crate) fn text_of(bytes: &[u8]) -> (r: String)
    ensures
        r@ == lossy_text(bytes@),
        vstd::utf8::valid_utf8(bytes@) ==> r@ == vstd::utf8::decode_utf8(bytes@),
{
    String::from_utf8_lossy(bytes).into_owned()
}

/// The characters of a text.
pub fn chars_of(s: &str) -> (r: Vec<char>)
    ensures
        r@ == s@,
{
    let mut v: Vec<char> = Vec::new();
    for c in it: s.chars()
        invariant
            it.seq() == s@,
            v@ == it.seq().take(it.index()),
    {
        v.push(c);
    }
    v
}

// ---------------------------------------------------------------- white space
/// Unicode's `White_Space` property.
pub open spec fn is_white(c: char) -> bool {
    let u = c as u32;
    ||| 0x09 <= u <= 0x0D
    ||| u == 0x20
    ||| u == 0x85
    ||| u == 0xA0
    ||| u == 0x1680
    ||| 0x2000 <= u <= 0x200A
    ||| u == 0x2028
    ||| u == 0x2029
    ||| u == 0x202F
    ||| u == 0x205F
    ||| u == 0x3000
}

/// Whether `c` is white space.
pub fn white(c: char) -> (r: bool)
    ensures
        r == is_white(c),
{
    let u: u32 = c as u32;
    (0x09 <= u && u <= 0x0D) || u == 0x20 || u == 0x85 || u == 0xA0 || u == 0x1680 || (0x2000 <= u
        && u <= 0x200A) || u == 0x2028 || u == 0x2029 || u == 0x202F || u == 0x205F || u == 0x3000
}

/// A text of nothing but white space.
pub open spec fn blank(s: Seq<char>) -> bool {
    forall|i: int| 0 <= i < s.len() ==> is_white(#[trigger] s[i])
}

/// Whether nothing is left of `s` without its white space.
pub fn is_blank(s: &str) -> (r: bool)
    ensures
        r == blank(s@),
{
    let v = chars_of(s);
    let mut i: usize = 0;
    while i < v.len()
        invariant
            i <= v.len(),
            v@ == s@,
            forall|j: int| 0 <= j < i ==> is_white(#[trigger] s@[j]),
        decreases v.len() - i,
    {
        if !white(v[i]) {
            return false;
        }
        i = i + 1;
    }
    true
}

/// `t` is `s` without the white space at its two ends.
pub open spec fn is_trimmed(s: Seq<char>, t: Seq<char>) -> bool {
    exists|a: int, b: int|
        0 <= a <= b <= s.len() && t == #[trigger] s.subrange(a, b) && blank(s.subrange(0, a))
            && blank(s.subrange(b, s.len() as int)) && (t.len() > 0 ==> !is_white(t.first())
            && !is_white(t.last()))
}

/// `s` without the white space at its two ends.
pub open spec fn trimmed(s: Seq<char>) -> Seq<char> {
    choose|t: Seq<char>| is_trimmed(s, t)
}

proof fn lemma_trimmed_unique(s: Seq<char>, t: Seq<char>, u: Seq<char>)
    requires
        is_trimmed(s, t),
        is_trimmed(s, u),
    ensures
        t == u,
{
    let (a, b) = choose|a: int, b: int|
        0 <= a <= b <= s.len() && t == #[trigger] s.subrange(a, b) && blank(s.subrange(0, a))
            && blank(s.subrange(b, s.len() as int)) && (t.len() > 0 ==> !is_white(t.first())
            && !is_white(t.last()));
    let (c, d) = choose|c: int, d: int|
        0 <= c <= d <= s.len() && u == #[trigger] s.subrange(c, d) && blank(s.subrange(0, c))
            && blank(s.subrange(d, s.len() as int)) && (u.len() > 0 ==> !is_white(u.first())
            && !is_white(u.last()));
    lemma_trim_end(s, a, b, c, d);
    lemma_trim_end(s, c, d, a, b);
}

/// A range without white ends lies inside any range outside of which all is white.
proof fn lemma_trim_end(s: Seq<char>, a: int, b: int, c: int, d: int)
    requires
        0 <= a <= b <= s.len(),
        0 <= c <= d <= s.len(),
        a < b ==> !is_white(s[a]) && !is_white(s[b - 1]),
        blank(s.subrange(0, c)),
        blank(s.subrange(d, s.len() as int)),
    ensures
        a < b ==> c <= a && b <= d,
{
    if a < b {
        if a < c {
            assert(s.subrange(0, c)[a] == s[a]);
        }
        if d < b {
            assert(s.subrange(d, s.len() as int)[b - 1 - d] == s[b - 1]);
        }
    }
}

/// `s` without the white space at its two ends.
pub fn trim(s: &str) -> (r: &str)
    ensures
        is_trimmed(s@, r@),
        r@ == trimmed(s@),
{
    let v = chars_of(s);
    let mut a: usize = 0;
    while a < v.len() && white(v[a])
        invariant
            a <= v.len(),
            v@ == s@,
            forall|j: int| 0 <= j < a ==> is_white(#[trigger] s@[j]),
        decreases v.len() - a,
    {
        a = a + 1;
    }
    let mut b: usize = v.len();
    while b > a && white(v[b - 1])
        invariant
            a <= b <= v.len(),
            v@ == s@,
            a < v.len() ==> !is_white(v@[a as int]),
            forall|j: int| b <= j < v.len() ==> is_white(#[trigger] s@[j]),
        decreases b,
    {
        b = b - 1;
    }
    let r = s.substring_char(a, b);
    proof {
        assert(blank(s@.subrange(0, a as int)));
        assert(blank(s@.subrange(b as int, s@.len() as int)));
        assert(is_trimmed(s@, r@));
        lemma_trimmed_unique(s@, r@, trimmed(s@));
    }
    r
}

// ---------------------------------------------------------------- searching
/// Whether `needle` stands at offset `i` of `hay`.
pub open spec fn found_at(hay: Seq<char>, needle: Seq<char>, i: int) -> bool {
    0 <= i && i + needle.len() <= hay.len() && hay.subrange(i, i + needle.len()) == needle
}

/// Whether `needle` occurs in `hay`.
pub open spec fn occurs(hay: Seq<char>, needle: Seq<char>) -> bool {
    exists|i: int| found_at(hay, needle, i)
}

fn stands_at(hay: &Vec<char>, needle: &Vec<char>, at: usize) -> (r: bool)
    requires
        at <= hay@.len(),
    ensures
        r == found_at(hay@, needle@, at as int),
{
    if hay.len() - at < needle.len() {
        return false;
    }
    let mut k: usize = 0;
    while k < needle.len()
        invariant
            k <= needle.len(),
            at + needle.len() <= hay.len(),
            forall|j: int| 0 <= j < k ==> hay@[at + j] == needle@[j],
        decreases needle.len() - k,
    {
        if hay[at + k] != needle[k] {
            proof {
                assert(hay@.subrange(at as int, at + needle@.len())[k as int] == hay@[at + k]);
            }
            return false;
        }
        k = k + 1;
    }
    assert(hay@.subrange(at as int, at + needle@.len()) =~= needle@);
    true
}

/// Whether `needle` occurs in `hay`.
pub fn contains(hay: &str, needle: &str) -> (r: bool)
    ensures
        r == occurs(hay@, needle@),
{
    let h = chars_of(hay);
    let n = chars_of(needle);
    let mut i: usize = 0;
    loop
        invariant
            i <= h.len(),
            h@ == hay@,
            n@ == needle@,
            forall|j: int| 0 <= j < i ==> !found_at(hay@, needle@, j),
        decreases h.len() - i,
    {
        if stands_at(&h, &n, i) {
            return true;
        }
        if i == h.len() {
            assert forall|j: int| !found_at(hay@, needle@, j) by {
                if j == i {
                } else if j > i {
                }
            }
            return false;
        }
        i = i + 1;
    }
}

/// Whether `s` begins with `prefix`.
pub fn starts_with(s: &str, prefix: &str) -> (r: bool)
    ensures
        r == found_at(s@, prefix@, 0),
{
    stands_at(&chars_of(s), &chars_of(prefix), 0)
}

/// Whether `s` ends with `suffix`.
pub fn ends_with(s: &str, suffix: &str) -> (r: bool)
    ensures
        r == found_at(s@, suffix@, s@.len() - suffix@.len()),
{
    let v = chars_of(s);
    let w = chars_of(suffix);
    if v.len() < w.len() {
        false
    } else {
        stands_at(&v, &w, v.len() - w.len())
    }
}

/// What follows `prefix` in `s`, if `s` begins with it.
pub fn strip_prefix<'a>(s: &'a str, prefix: &str) -> (r: Option<&'a str>)
    ensures
        match r {
            Some(rest) => found_at(s@, prefix@, 0) && rest@ == s@.skip(prefix@.len() as int),
            None => !found_at(s@, prefix@, 0),
        },
{
    if starts_with(s, prefix) {
        let n = prefix.unicode_len();
        let m = s.unicode_len();
        let rest = s.substring_char(n, m);
        assert(rest@ =~= s@.skip(prefix@.len() as int));
        Some(rest)
    } else {
        None
    }
}

// ---------------------------------------------------------------- numbers
/// Whether `c` is an ASCII digit.
pub open spec fn is_digit(c: char) -> bool {
    '0' <= c <= '9'
}

/// The number that a string of digits denotes.
pub open spec fn digits_value(s: Seq<char>) -> nat
    decreases s.len(),
{
    if s.len() == 0 {
        0
    } else {
        digits_value(s.drop_last()) * 10 + (s.last() as nat - 0x30) as nat
    }
}

/// Whether `s` holds digits only.
pub open spec fn all_digits(s: Seq<char>) -> bool {
    forall|i: int| 0 <= i < s.len() ==> is_digit(#[trigger] s[i])
}

/// `s` without a leading plus sign.
pub open spec fn unsigned_part(s: Seq<char>) -> Seq<char> {
    if s.len() > 0 && s[0] == '+' {
        s.skip(1)
    } else {
        s
    }
}

/// The port number that `s` denotes: digits, with an optional plus sign in front, whose
/// value fits sixteen bits.
pub open spec fn port_of(s: Seq<char>) -> Option<u16> {
    let d = unsigned_part(s);
    if d.len() > 0 && all_digits(d) && digits_value(d) <= u16::MAX {
        Some(digits_value(d) as u16)
    } else {
        None
    }
}

proof fn lemma_digits_grow(s: Seq<char>, i: int)
    requires
        all_digits(s),
        0 <= i <= s.len(),
    ensures
        digits_value(s.take(i)) <= digits_value(s),
    decreases s.len(),
{
    if i == s.len() {
        assert(s.take(i) =~= s);
    } else {
        let t = s.drop_last();
        lemma_digits_grow(t, i);
        assert(t.take(i) =~= s.take(i));
    }
}

/// Reads a port number.
pub fn parse_port(s: &str) -> (r: Option<u16>)
    ensures
        r == port_of(s@),
{
    let v = chars_of(s);
    let start: usize = if v.len() > 0 && v[0] == '+' {
        1
    } else {
        0
    };
    let ghost d = unsigned_part(s@);
    if start == v.len() {
        return None;
    }
    let mut n: u32 = 0;
    let mut i: usize = start;
    assert(d.take(0) =~= Seq::empty());
    while i < v.len()
        invariant
            start <= i <= v.len(),
            v@ == s@,
            d == s@.skip(start as int),
            d == unsigned_part(s@),
            n <= u16::MAX,
            all_digits(d.take(i - start)),
            n == digits_value(d.take(i - start)),
        decreases v.len() - i,
    {
        let c = v[i];
        let ghost k = i - start;
        assert(d[k] == c);
        if c < '0' || c > '9' {
            assert(!is_digit(d[k]));
            return None;
        }
        n = n * 10 + (c as u32 - 0x30);
        proof {
            let t = d.take(k + 1);
            assert(t.drop_last() =~= d.take(k));
            assert(t.last() == c);
            assert(all_digits(t)) by {
                assert forall|j: int| 0 <= j < t.len() implies is_digit(#[trigger] t[j]) by {
                    if j < k {
                        assert(d.take(k)[j] == t[j]);
                    }
                }
            }
        }
        if n > 0xFFFF {
            proof {
                if all_digits(d) {
                    lemma_digits_grow(d, k + 1);
                }
            }
            return None;
        }
        i = i + 1;
    }
    assert(d.take(d.len() as int) =~= d);
    Some(n as u16)
}

/// A numeral reads as the number it was written for.
pub proof fn lemma_decimal_value(n: nat)
    ensures
        decimal(n).len() > 0,
        all_digits(decimal(n)),
        digits_value(decimal(n)) == n,
    decreases n,
{
    if n < 10 {
        let s = decimal(n);
        assert(s.drop_last() =~= Seq::empty());
        assert(s.last() == digit(n));
        assert(digits_value(s.drop_last()) == 0);
    } else {
        lemma_decimal_value(n / 10);
        let s = decimal(n);
        let front = decimal(n / 10);
        assert(s.drop_last() =~= front);
        assert forall|i: int| 0 <= i < s.len() implies is_digit(#[trigger] s[i]) by {
            if i < front.len() {
                assert(s[i] == front[i]);
            }
        }
    }
}

/// The numeral of a port reads as that port.
pub proof fn lemma_port_round_trip(port: u16)
    ensures
        port_of(decimal(port as nat)) == Some(port),
{
    lemma_decimal_value(port as nat);
    let s = decimal(port as nat);
    assert(is_digit(s[0]));
}

// ---------------------------------------------------------------- splitting
/// Whether the last `c` of `s` stands at offset `i`.
pub open spec fn is_last_of(s: Seq<char>, c: char, i: int) -> bool {
    0 <= i < s.len() && s[i] == c && forall|j: int| i < j < s.len() ==> #[trigger] s[j] != c
}

/// `s` is cut at its last `c`: what is in front of it, and what is behind.
pub open spec fn cut_last(s: Seq<char>, c: char) -> Option<(Seq<char>, Seq<char>)> {
    if exists|i: int| is_last_of(s, c, i) {
        let i = choose|i: int| is_last_of(s, c, i);
        Some((s.take(i), s.skip(i + 1)))
    } else {
        None
    }
}

/// There is one last `c`.
pub proof fn lemma_cut_last(s: Seq<char>, c: char, i: int)
    requires
        is_last_of(s, c, i),
    ensures
        cut_last(s, c) == Some((s.take(i), s.skip(i + 1))),
{
    let j = choose|j: int| is_last_of(s, c, j);
    assert(is_last_of(s, c, j));
    if i < j {
        assert(s[j] != c);
    } else if j < i {
        assert(s[i] != c);
    }
}

/// Cuts `s` at its last `c`.
pub fn rsplit_once<'a>(s: &'a str, c: char) -> (r: Option<(&'a str, &'a str)>)
    ensures
        match r {
            Some(p) => cut_last(s@, c) == Some((p.0@, p.1@)),
            None => cut_last(s@, c) is None,
        },
{
    let v = chars_of(s);
    let mut i: usize = v.len();
    while i > 0
        invariant
            i <= v.len(),
            v@ == s@,
            forall|j: int| i <= j < v.len() ==> #[trigger] s@[j] != c,
        decreases i,
    {
        i = i - 1;
        if v[i] == c {
            proof {
                assert(is_last_of(s@, c, i as int));
                lemma_cut_last(s@, c, i as int);
            }
            let front = s.substring_char(0, i);
            let back = s.substring_char(i + 1, v.len());
            assert(front@ =~= s@.take(i as int));
            assert(back@ =~= s@.skip(i + 1));
            return Some((front, back));
        }
    }
    assert forall|j: int| !is_last_of(s@, c, j) by {}
    None
}

// ---------------------------------------------------------------- lines
/// The lines of `s`: what stands between its line feeds, in front of the first and behind
/// the last.
pub open spec fn lines(s: Seq<char>) -> Seq<Seq<char>>
    decreases s.len(),
{
    if s.len() == 0 {
        seq![seq![]]
    } else {
        let l = lines(s.drop_last());
        if s.last() == '\n' {
            l.push(seq![])
        } else {
            l.drop_last().push(l.last().push(s.last()))
        }
    }
}

/// Splits `s` into its lines.
pub fn split_lines(s: &str) -> (r: Vec<String>)
    ensures
        texts(r@) == lines(s@),
{
    let v = chars_of(s);
    let mut out: Vec<String> = Vec::new();
    let mut start: usize = 0;
    let mut i: usize = 0;
    assert(texts(out@) =~= seq![]);
    assert(s@.take(0) =~= seq![]);
    assert(s@.subrange(0, 0) =~= seq![]);
    while i < v.len()
        invariant
            v@ == s@,
            start <= i <= v.len(),
            lines(s@.take(i as int)) == texts(out@).push(s@.subrange(start as int, i as int)),
        decreases v.len() - i,
    {
        proof {
            assert(s@.take(i + 1).drop_last() =~= s@.take(i as int));
            assert(s@.take(i + 1).last() == s@[i as int]);
            let l = lines(s@.take(i as int));
            assert(l.drop_last() =~= texts(out@));
            assert(l.last() == s@.subrange(start as int, i as int));
            assert(s@.subrange(start as int, i + 1) =~= s@.subrange(start as int, i as int).push(
                s@[i as int],
            ));
        }
        if v[i] == '\n' {
            let line = s.substring_char(start, i).to_owned();
            proof {
                lemma_texts_push(out@, line);
                assert(s@.subrange(i + 1, i + 1) =~= seq![]);
            }
            out.push(line);
            start = i + 1;
        }
        i = i + 1;
    }
    assert(s@.take(s@.len() as int) =~= s@);
    let line = s.substring_char(start, v.len()).to_owned();
    proof {
        lemma_texts_push(out@, line);
    }
    out.push(line);
    out
}

/// `s` without what it ends with of `c`.
pub open spec fn trimmed_end(s: Seq<char>, c: char) -> Seq<char>
    decreases s.len(),
{
    if s.len() > 0 && s.last() == c {
        trimmed_end(s.drop_last(), c)
    } else {
        s
    }
}

/// Takes off all of `c` that `s` ends with.
pub fn trim_end_matches(s: &str, c: char) -> (r: &str)
    ensures
        r@ == trimmed_end(s@, c),
{
    let v = chars_of(s);
    let mut n: usize = v.len();
    assert(s@.take(n as int) =~= s@);
    while n > 0 && v[n - 1] == c
        invariant
            v@ == s@,
            n <= v.len(),
            trimmed_end(s@.take(n as int), c) == trimmed_end(s@, c),
        decreases n,
    {
        assert(s@.take(n as int).drop_last() =~= s@.take(n - 1));
        assert(s@.take(n as int).last() == s@[n - 1]);
        n = n - 1;
    }
    assert(n > 0 ==> s@.take(n as int).last() == s@[n - 1]);
    let r = s.substring_char(0, n);
    assert(r@ =~= s@.take(n as int));
    r
}

// ---------------------------------------------------------------- hexadecimal
/// The lower-case hexadecimal digit of `d`.
pub open spec fn hex_digit(d: nat) -> char {
    if d < 10 {
        (0x30 + d) as char
    } else {
        (0x57 + d) as char
    }
}

/// The two hexadecimal digits of a byte.
pub open spec fn hex_byte(b: u8) -> Seq<char> {
    seq![hex_digit(b as nat / 16), hex_digit(b as nat % 16)]
}

/// The hexadecimal digits of bytes, two for each.
pub open spec fn hex(d: Seq<u8>) -> Seq<char>
    decreases d.len(),
{
    if d.len() == 0 {
        seq![]
    } else {
        hex(d.drop_last()) + hex_byte(d.last())
    }
}

fn hex_digit_text(d: u8) -> (r: &'static str)
    requires
        d < 16,
    ensures
        r@ == seq![hex_digit(d as nat)],
{
    if d < 10 {
        return digit_text(d as u64);
    }
    proof {
        reveal_strlit("a");
        reveal_strlit("b");
        reveal_strlit("c");
        reveal_strlit("d");
        reveal_strlit("e");
        reveal_strlit("f");
    }
    let r = if d == 10 {
        "a"
    } else if d == 11 {
        "b"
    } else if d == 12 {
        "c"
    } else if d == 13 {
        "d"
    } else if d == 14 {
        "e"
    } else {
        "f"
    };
    assert(r@ =~= seq![hex_digit(d as nat)]);
    r
}

/// Writes bytes in hexadecimal.
pub fn hex_text(d: &[u8]) -> (r: String)
    ensures
        r@ == hex(d@),
{
    let mut s = "".to_owned();
    let mut i: usize = 0;
    proof {
        reveal_strlit("");
        assert(s@ =~= seq![]);
        assert(d@.take(0) =~= seq![]);
    }
    while i < d.len()
        invariant
            i <= d.len(),
            s@ == hex(d@.take(i as int)),
        decreases d.len() - i,
    {
        let b = d[i];
        proof {
            assert(d@.take(i + 1).drop_last() =~= d@.take(i as int));
            assert(d@.take(i + 1).last() == b);
        }
        let ghost before = s@;
        s.append(hex_digit_text(b / 16));
        s.append(hex_digit_text(b % 16));
        assert(s@ =~= before + hex_byte(b));
        i = i + 1;
    }
    assert(d@.take(d@.len() as int) =~= d@);
    s
}

// ---------------------------------------------------------------- laws
/// A numeral has no leading zero, so two numbers never share one.
pub proof fn law_numerals_differ(m: nat, n: nat)
    ensures
        n > 0 ==> decimal(n)[0] != '0',
        n == 0 ==> decimal(n) == seq!['0'],
        decimal(m) == decimal(n) ==> m == n,
    decreases n,
{
    lemma_decimal_value(m);
    lemma_decimal_value(n);
    if n >= 10 {
        law_numerals_differ(m, n / 10);
        lemma_decimal_value(n / 10);
        assert(decimal(n)[0] == decimal(n / 10)[0]);
    } else {
        assert(decimal(n)[0] == digit(n));
    }
}

/// What a port reads as: the digits have the value of the port, the first weighs most, and a
/// plus sign in front changes nothing. What is empty, too large or holds anything but digits is
/// no port.
pub proof fn law_port_reading(s: Seq<char>, d: char)
    requires
        is_digit(d),
    ensures
        port_of(Seq::empty()) is None,
        s.len() > 0 && s[0] != '+' ==> port_of(seq!['+'] + s) == port_of(s),
        (exists|i: int| 1 <= i < s.len() && !('0' <= #[trigger] s[i] <= '9')) ==> port_of(s)
            is None,
        s.len() > 0 && s[0] != '+' && !('0' <= s[0] <= '9') ==> port_of(s) is None,
        all_digits(s) && s.len() > 0 ==> match port_of(s) {
            Some(p) => p * 10 + (d as int - '0' as int) <= 65535 ==> port_of(s.push(d)) == Some(
                (p * 10 + (d as int - '0' as int)) as u16,
            ),
            None => port_of(s.push(d)) is None,
        },
        port_of(seq![d]) == Some((d as int - '0' as int) as u16),
{
    let t = seq!['+'] + s;
    if s.len() > 0 && s[0] != '+' {
        assert(t.skip(1) =~= s);
    }
    if exists|i: int| 1 <= i < s.len() && !('0' <= #[trigger] s[i] <= '9') {
        let i = choose|i: int| 1 <= i < s.len() && !('0' <= #[trigger] s[i] <= '9');
        let u = unsigned_part(s);
        if u.len() < s.len() {
            assert(u[i - 1] == s[i]);
            assert(!is_digit(u[i - 1]));
        } else {
            assert(!is_digit(u[i]));
        }
    }
    if s.len() > 0 && s[0] != '+' && !('0' <= s[0] <= '9') {
        assert(!is_digit(unsigned_part(s)[0]));
    }
    if all_digits(s) && s.len() > 0 {
        let u = s.push(d);
        assert(is_digit(s[0]));
        assert(u[0] == s[0]);
        assert(u.drop_last() =~= s);
        assert(all_digits(u)) by {
            assert forall|i: int| 0 <= i < u.len() implies is_digit(#[trigger] u[i]) by {
                if i < s.len() {
                    assert(u[i] == s[i]);
                }
            }
        }
        assert(unsigned_part(s) == s && unsigned_part(u) == u);
        assert(digits_value(u) == digits_value(s) * 10 + (d as nat - 0x30) as nat);
    }
    let one = seq![d];
    assert(one.drop_last() =~= Seq::empty());
    assert(digits_value(one.drop_last()) == 0);
    assert(one[0] == d);
    assert(unsigned_part(one) == one);
}

/// White space is what separates words: a space, a tab, a line feed and a carriage return are,
/// and no visible ASCII character is. A text is blank exactly where it holds nothing else.
pub proof fn law_white_space(c: char, s: Seq<char>)
    ensures
        is_white(' ') && is_white('\t') && is_white('\n') && is_white('\r'),
        '!' <= c <= '~' ==> !is_white(c),
        blank(Seq::empty()),
        s.contains(c) && '!' <= c <= '~' ==> !blank(s),
        blank(s.push(c)) <==> blank(s) && is_white(c),
{
    if s.contains(c) && '!' <= c <= '~' {
        let i = choose|i: int| 0 <= i < s.len() && s[i] == c;
        assert(!is_white(s[i]));
    }
    let t = s.push(c);
    if blank(t) {
        assert forall|i: int| 0 <= i < s.len() implies is_white(#[trigger] s[i]) by {
            assert(t[i] == s[i]);
        }
        assert(is_white(t[s.len() as int]));
    }
    if blank(s) && is_white(c) {
        assert forall|i: int| 0 <= i < t.len() implies is_white(#[trigger] t[i]) by {
            if i < s.len() {
                assert(t[i] == s[i]);
            }
        }
    }
}

/// Trimming takes white space off both ends and nothing else: a text that begins and ends with
/// something visible comes out of any white space around it as it is.
pub proof fn law_trimming(a: Seq<char>, t: Seq<char>, b: Seq<char>)
    requires
        blank(a),
        blank(b),
        t.len() > 0 ==> !is_white(t.first()) && !is_white(t.last()),
    ensures
        trimmed(a + t + b) == t,
        trimmed(t) == t,
{
    let s = a + t + b;
    let (x, y) = (a.len() as int, (a.len() + t.len()) as int);
    assert(s.subrange(x, y) =~= t);
    assert(s.subrange(0, x) =~= a);
    assert(s.subrange(y, s.len() as int) =~= b);
    assert(is_trimmed(s, t));
    lemma_trimmed_unique(s, t, trimmed(s));
    let n = t.len() as int;
    assert(t.subrange(0, n) =~= t);
    assert(blank(t.subrange(0, 0)) && blank(t.subrange(n, n)));
    assert(is_trimmed(t, t));
    lemma_trimmed_unique(t, t, trimmed(t));
}

/// What was cut at its last `c` is put together again by it, and `c` does not stand in what is
/// behind. There is nothing to cut exactly where `c` does not occur.
pub proof fn law_cut_at_last(s: Seq<char>, c: char)
    ensures
        match cut_last(s, c) {
            Some(p) => s == p.0 + seq![c] + p.1 && !p.1.contains(c),
            None => !s.contains(c),
        },
    decreases s.len(),
{
    if exists|i: int| is_last_of(s, c, i) {
        let i = choose|i: int| is_last_of(s, c, i);
        assert(s =~= s.take(i) + seq![c] + s.skip(i + 1));
        let back = s.skip(i + 1);
        if back.contains(c) {
            let j = choose|j: int| 0 <= j < back.len() && back[j] == c;
            assert(s[i + 1 + j] == c);
        }
    } else if s.contains(c) {
        let front = s.drop_last();
        assert(s =~= front.push(s.last()));
        if s.last() == c {
            assert(is_last_of(s, c, s.len() - 1));
        } else {
            let k = choose|k: int| 0 <= k < s.len() && s[k] == c;
            assert(front[k] == c);
            law_cut_at_last(front, c);
            let i = choose|i: int| is_last_of(front, c, i);
            assert(is_last_of(front, c, i));
            assert(is_last_of(s, c, i)) by {
                assert forall|j: int| i < j < s.len() implies #[trigger] s[j] != c by {
                    if j < front.len() {
                        assert(front[j] != c);
                    }
                }
            }
        }
    }
}

/// What stands between the places of `c` in `s`, in front of the first and behind the last.
pub open spec fn parts(s: Seq<char>, c: char) -> Seq<Seq<char>>
    decreases s.len(),
{
    if s.len() == 0 {
        seq![seq![]]
    } else {
        let l = parts(s.drop_last(), c);
        if s.last() == c {
            l.push(seq![])
        } else {
            l.drop_last().push(l.last().push(s.last()))
        }
    }
}

/// A text without `c` is one part, and a text with `c` in the middle has the parts of what is in
/// front of it, followed by those of what is behind.
pub proof fn law_parts(a: Seq<char>, c: char, b: Seq<char>)
    ensures
        parts(a, c).len() > 0,
        !a.contains(c) ==> parts(a, c) == seq![a],
        parts(a + seq![c] + b, c) == parts(a, c) + parts(b, c),
    decreases a.len(), b.len(),
{
    if a.len() > 0 {
        let front = a.drop_last();
        law_parts(front, c, Seq::empty());
        assert(a =~= front.push(a.last()));
        if !a.contains(c) {
            assert(a[a.len() - 1] == a.last());
            if front.contains(c) {
                let i = choose|i: int| 0 <= i < front.len() && front[i] == c;
                assert(a[i] == c);
            }
            assert(parts(a, c) =~= seq![a]);
        }
    } else {
        assert(a =~= seq![]);
        assert(parts(a, c) =~= seq![a]);
    }
    let s = a + seq![c] + b;
    if b.len() == 0 {
        assert(s.drop_last() =~= a);
        assert(b =~= seq![]);
        assert(parts(s, c) =~= parts(a, c) + parts(b, c));
    } else {
        let t = b.drop_last();
        assert(s.drop_last() =~= a + seq![c] + t);
        law_parts(a, c, t);
        lemma_parts_some(t, c);
        assert(parts(s, c) =~= parts(a, c) + parts(b, c));
    }
}

proof fn lemma_parts_some(s: Seq<char>, c: char)
    ensures
        parts(s, c).len() > 0,
    decreases s.len(),
{
    if s.len() > 0 {
        lemma_parts_some(s.drop_last(), c);
    }
}

/// The lines of a text are its parts between line feeds: a text without one is one line, and
/// what stands in front of a line feed and behind it are lines apart.
pub proof fn law_lines(a: Seq<char>, b: Seq<char>)
    ensures
        !a.contains('\n') ==> lines(a) == seq![a],
        lines(a + seq!['\n'] + b) == lines(a) + lines(b),
{
    lemma_lines_are_parts(a);
    lemma_lines_are_parts(b);
    lemma_lines_are_parts(a + seq!['\n'] + b);
    law_parts(a, '\n', b);
}

proof fn lemma_lines_are_parts(s: Seq<char>)
    ensures
        lines(s) == parts(s, '\n'),
    decreases s.len(),
{
    if s.len() > 0 {
        lemma_lines_are_parts(s.drop_last());
    }
}

/// Taking `c` off the end takes all of it off the end and nothing else.
pub proof fn law_trimming_the_end(s: Seq<char>, c: char)
    ensures
        trimmed_end(s.push(c), c) == trimmed_end(s, c),
        s.len() == 0 || s.last() != c ==> trimmed_end(s, c) == s,
        trimmed_end(s, c).is_prefix_of(s),
    decreases s.len(),
{
    assert(s.push(c).drop_last() =~= s);
    if s.len() > 0 && s.last() == c {
        law_trimming_the_end(s.drop_last(), c);
        let t = trimmed_end(s, c);
        assert(t == trimmed_end(s.drop_last(), c));
        assert(t =~= s.take(t.len() as int));
    } else {
        assert(s =~= s.take(s.len() as int));
    }
}

/// The value of a hexadecimal digit.
pub open spec fn hex_value(c: char) -> int {
    if '0' <= c <= '9' {
        c as int - '0' as int
    } else {
        c as int - 'a' as int + 10
    }
}

/// Bytes are written in two hexadecimal digits each, in their order, the higher one first.
pub proof fn law_hex_digits(d: Seq<u8>, i: int)
    requires
        0 <= i < d.len(),
    ensures
        hex(d).len() == 2 * d.len(),
        hex_value(hex(d)[2 * i]) * 16 + hex_value(hex(d)[2 * i + 1]) == d[i],
        '0' <= hex(d)[2 * i] <= '9' || 'a' <= hex(d)[2 * i] <= 'f',
        '0' <= hex(d)[2 * i + 1] <= '9' || 'a' <= hex(d)[2 * i + 1] <= 'f',
    decreases d.len(),
{
    let front = d.drop_last();
    lemma_hex_len(front);
    if i < front.len() {
        law_hex_digits(front, i);
    } else {
        let b = d[i];
        assert(hex(d)[2 * i] == hex_digit(b as nat / 16));
        assert(hex(d)[2 * i + 1] == hex_digit(b as nat % 16));
    }
}

proof fn lemma_hex_len(d: Seq<u8>)
    ensures
        hex(d).len() == 2 * d.len(),
    decreases d.len(),
{
    if d.len() > 0 {
        lemma_hex_len(d.drop_last());
    }
}

/// A text occurs in another one where that is made of something, the text, and something else.
pub proof fn law_occurrence(a: Seq<char>, needle: Seq<char>, b: Seq<char>)
    ensures
        found_at(a + needle + b, needle, a.len() as int),
        occurs(a + needle + b, needle),
{
    let s = a + needle + b;
    assert(s.subrange(a.len() as int, (a.len() + needle.len()) as int) =~= needle);
    assert(found_at(s, needle, a.len() as int));
}

/// Where a text is found, the other one is made of what is in front of it, the text, and what is
/// behind it.
pub proof fn law_found_text_stands_there(hay: Seq<char>, needle: Seq<char>, i: int)
    requires
        found_at(hay, needle, i),
    ensures
        hay == hay.take(i) + needle + hay.skip(i + needle.len()),
{
    assert(hay =~= hay.take(i) + hay.subrange(i, i + needle.len()) + hay.skip(i + needle.len()));
}

/// Whether `s` ends in `part`.
pub open spec fn ends_in(s: Seq<char>, part: Seq<char>) -> bool {
    found_at(s, part, s.len() - part.len())
}

/// A message that names something and ends in something else does both.
pub(crate) proof fn lemma_says(head: Seq<char>, a: Seq<char>, mid: Seq<char>, b: Seq<char>)
    ensures
        occurs(head + a + mid + b, a),
        ends_in(head + a + mid + b, b),
        ends_in(head + b, b),
{
    law_occurrence(head, a, mid + b);
    assert(head + a + (mid + b) =~= head + a + mid + b);
    law_occurrence(head + a + mid, b, Seq::empty());
    assert(head + a + mid + b + Seq::<char>::empty() =~= head + a + mid + b);
    law_occurrence(head, b, Seq::empty());
    assert(head + b + Seq::<char>::empty() =~= head + b);
}

} // verus!
