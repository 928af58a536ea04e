//! Character-level text handling shared by the parsers: trimming, digit
//! formatting and conversion between strings and character vectors.
use vstd::prelude::*;

verus! {

/// `char::is_whitespace`: the Unicode `White_Space` property.
pub open spec fn is_ws(c: char) -> bool {
    let u = c as u32;
    ||| 0x09 <= u <= 0x0D
    ||| u == 0x20
    ||| u == 0x85
    ||| u == 0xA0
    ||| u == 0x1680
    ||| 0x2000 <= u <= 0x200A
    ||| u == 0x2028
    ||| u == 0x2029
    ||| u == 0x202F
    ||| u == 0x205F
    ||| u == 0x3000
}

/// Removes every trailing occurrence of `c`.
pub open spec fn trim_end_char(s: Seq<char>, c: char) -> Seq<char>
    decreases s.len(),
{
    if s.len() > 0 && s.last() == c {
        trim_end_char(s.drop_last(), c)
    } else {
        s
    }
}

/// Removes every leading occurrence of `c`.
pub open spec fn trim_start_char(s: Seq<char>, c: char) -> Seq<char>
    decreases s.len(),
{
    if s.len() > 0 && s[0] == c {
        trim_start_char(s.drop_first(), c)
    } else {
        s
    }
}

/// Removes every trailing occurrence of the two-character pattern `a b`.
pub open spec fn trim_end_pair(s: Seq<char>, a: char, b: char) -> Seq<char>
    decreases s.len(),
{
    if s.len() >= 2 && s[s.len() - 2] == a && s[s.len() - 1] == b {
        trim_end_pair(s.subrange(0, s.len() - 2), a, b)
    } else {
        s
    }
}

/// Removes trailing whitespace.
pub open spec fn trim_end_ws(s: Seq<char>) -> Seq<char>
    decreases s.len(),
{
    if s.len() > 0 && is_ws(s.last()) {
        trim_end_ws(s.drop_last())
    } else {
        s
    }
}

/// Removes leading whitespace.
pub open spec fn trim_start_ws(s: Seq<char>) -> Seq<char>
    decreases s.len(),
{
    if s.len() > 0 && is_ws(s[0]) {
        trim_start_ws(s.drop_first())
    } else {
        s
    }
}

/// Removes whitespace at both ends (`str::trim`).
pub open spec fn trim_ws(s: Seq<char>) -> Seq<char> {
    trim_start_ws(trim_end_ws(s))
}

/// The characters of a string slice.
pub(crate) fn chars_of(s: &str) -> (v: Vec<char>)
    ensures
        v@ == s@,
{
    broadcast use vstd::string::axiom_spec_iter;
    let mut v: Vec<char> = Vec::new();
    for c in it: s.chars()
        invariant
            v@ == it.seq().subrange(0, it.index() as int),
    {
        v.push(c);
    }
    proof {
        assert(v@ =~= s@);
    }
    v
}

/// A string made of the given characters: `String::from_iter`, whose
/// documentation says it collects the characters in order.
#[verifier::external_body]
pub(crate) fn string_of(v: &[char]) -> (s: String)
    ensures
        s@ == v@,
{
    String::from_iter(v.iter())
}

/// A string made from a string literal or slice.
pub fn owned(s: &str) -> (r: String)
    ensures
        r@ == s@,
{
    s.to_owned()
}

/// The characters that `String::from_utf8_lossy` decodes from a byte sequence.
pub uninterp spec fn utf8_lossy(bytes: Seq<u8>) -> Seq<char>;

/// Whether every byte is below 0x80, so that the bytes are ASCII text.
pub open spec fn is_ascii_bytes(bytes: Seq<u8>) -> bool {
    forall|i: int| 0 <= i < bytes.len() ==> #[trigger] bytes[i] < 0x80
}

/// `String::from_utf8_lossy(bytes).to_string()`: the characters that std
/// decodes from the bytes, invalid sequences replaced; the contract names the
/// result, and says that ASCII bytes, being valid UTF-8, come through as the
/// characters with the same codes.
#[verifier::external_body]
pub(crate) fn decode_utf8_lossy(bytes: &[u8]) -> (s: String)
    ensures
        s@ == utf8_lossy(bytes@),
        is_ascii_bytes(bytes@) ==> s@ == bytes@.map_values(|b: u8| b as char),
{
    String::from_utf8_lossy(bytes).to_string()
}

/// `char::from_u32`: `Some` exactly for Unicode scalar values.
#[verifier::external_body]
pub(crate) fn char_from_u32(code: u32) -> (r: Option<char>)
    ensures
        r.is_some() <==> (code <= 0x10FFFF && !(0xD800 <= code <= 0xDFFF)),
        r.is_some() ==> r == Some(code as char),
{
    char::from_u32(code)
}

/// Removes every trailing `c` from `v`.
pub fn trim_end_char_vec(v: &mut Vec<char>, c: char)
    ensures
        final(v)@ == trim_end_char(old(v)@, c),
{
    let ghost orig = v@;
    while v.len() > 0 && v[v.len() - 1] == c
        invariant
            trim_end_char(v@, c) == trim_end_char(orig, c),
        decreases v.len(),
    {
        assert(trim_end_char(v@, c) == trim_end_char(v@.drop_last(), c));
        v.pop();
    }
}

/// Removes every trailing `a b` pair from `v`.
pub fn trim_end_pair_vec(v: &mut Vec<char>, a: char, b: char)
    ensures
        final(v)@ == trim_end_pair(old(v)@, a, b),
{
    let ghost orig = v@;
    while v.len() >= 2 && v[v.len() - 2] == a && v[v.len() - 1] == b
        invariant
            trim_end_pair(v@, a, b) == trim_end_pair(orig, a, b),
        decreases v.len(),
    {
        let ghost before = v@;
        v.pop();
        v.pop();
        assert(v@ == before.subrange(0, before.len() - 2));
    }
}

/// Whether `c` is whitespace (`char::is_whitespace`).
pub fn is_whitespace(c: char) -> (r: bool)
    ensures
        r == is_ws(c),
{
    let u = c as u32;
    (0x09 <= u && u <= 0x0D) || u == 0x20 || u == 0x85 || u == 0xA0 || u == 0x1680 || (0x2000
        <= u && u <= 0x200A) || u == 0x2028 || u == 0x2029 || u == 0x202F || u == 0x205F || u
        == 0x3000
}

/// Removes trailing whitespace from `v`.
pub fn trim_end_ws_vec(v: &mut Vec<char>)
    ensures
        final(v)@ == trim_end_ws(old(v)@),
{
    let ghost orig = v@;
    while v.len() > 0 && is_whitespace(v[v.len() - 1])
        invariant
            trim_end_ws(v@) == trim_end_ws(orig),
        decreases v.len(),
    {
        v.pop();
    }
}

/// The characters of `v` with leading whitespace removed.
pub fn trim_start_ws_vec(v: &Vec<char>) -> (r: Vec<char>)
    ensures
        r@ == trim_start_ws(v@),
{
    let mut i: usize = 0;
    assert(v@.subrange(0, v.len() as int) =~= v@);
    while i < v.len() && is_whitespace(v[i])
        invariant
            i <= v.len(),
            trim_start_ws(v@.subrange(i as int, v.len() as int)) == trim_start_ws(v@),
        decreases v.len() - i,
    {
        assert(v@.subrange(i as int, v.len() as int).drop_first() =~= v@.subrange(
            i + 1,
            v.len() as int,
        ));
        i = i + 1;
    }
    let mut r: Vec<char> = Vec::new();
    let mut j: usize = i;
    while j < v.len()
        invariant
            i <= j <= v.len(),
            r@ == v@.subrange(i as int, j as int),
        decreases v.len() - j,
    {
        r.push(v[j]);
        j = j + 1;
    }
    proof {
        let t = v@.subrange(i as int, v.len() as int);
        assert(!(t.len() > 0 && is_ws(t[0])));
        assert(r@ =~= t);
    }
    r
}

/// The characters of `v` with whitespace removed at both ends.
pub fn trim_ws_vec(v: &Vec<char>) -> (r: Vec<char>)
    ensures
        r@ == trim_ws(v@),
{
    let mut w = v.clone();
    assert(w@ == v@);
    trim_end_ws_vec(&mut w);
    trim_start_ws_vec(&w)
}

/// Lower-case hexadecimal digit for `d < 16`.
pub open spec fn hex_lower(d: int) -> char {
    if d < 10 {
        (48 + d) as char
    } else {
        (87 + d) as char
    }
}

/// Upper-case hexadecimal digit for `d < 16`.
pub open spec fn hex_upper(d: int) -> char {
    if d < 10 {
        (48 + d) as char
    } else {
        (55 + d) as char
    }
}

/// Hexadecimal digit of `d`, upper case when `upper`.
pub open spec fn hex_digit(d: int, upper: bool) -> char {
    if upper {
        hex_upper(d)
    } else {
        hex_lower(d)
    }
}

/// The last `width` hexadecimal digits of `x`, most significant first
/// (`format!("{:0width$x}")` for values below `16^width`).
pub open spec fn hex_digits(x: nat, width: nat, upper: bool) -> Seq<char>
    decreases width,
{
    if width == 0 {
        seq![]
    } else {
        hex_digits(x / 16, (width - 1) as nat, upper).push(hex_digit((x % 16) as int, upper))
    }
}

/// Decimal digits of `n`, most significant first, without leading zeros
/// (`0` is written `"0"`).
pub open spec fn dec_digits(n: nat) -> Seq<char>
    decreases n,
{
    if n < 10 {
        seq![(48 + n) as char]
    } else {
        dec_digits(n / 10).push((48 + n % 10) as char)
    }
}

/// `n` in decimal, left-padded with `0` to at least `width` digits
/// (`format!("{:0width$}")`).
pub open spec fn dec_padded(n: nat, width: nat) -> Seq<char> {
    let d = dec_digits(n);
    if d.len() >= width {
        d
    } else {
        Seq::new((width - d.len()) as nat, |i: int| '0') + d
    }
}

fn hex_char(d: u8, upper: bool) -> (c: char)
    requires
        d < 16,
    ensures
        c == hex_digit(d as int, upper),
{
    if d < 10 {
        (48 + d) as char
    } else if upper {
        (55 + d) as char
    } else {
        (87 + d) as char
    }
}

/// Appends `rev` in reverse order to `out`.
fn push_reversed(out: &mut Vec<char>, rev: &Vec<char>)
    ensures
        final(out)@ == old(out)@ + rev@.reverse(),
{
    let ghost start = out@;
    let mut t: usize = rev.len();
    while t > 0
        invariant
            t <= rev.len(),
            out@ == start + rev@.subrange(t as int, rev.len() as int).reverse(),
        decreases t,
    {
        t = t - 1;
        out.push(rev[t]);
        proof {
            assert(rev@.subrange(t as int, rev.len() as int).reverse() =~= rev@.subrange(
                t + 1,
                rev.len() as int,
            ).reverse().push(rev@[t as int]));
        }
    }
    proof {
        assert(rev@.subrange(0, rev.len() as int) =~= rev@);
    }
}

proof fn lemma_reverse_push(s: Seq<char>, c: char)
    ensures
        s.push(c).reverse() =~= seq![c] + s.reverse(),
{
}

/// Appends the last `width` hexadecimal digits of `x` to `out`.
pub fn push_hex(out: &mut Vec<char>, x: u64, width: usize, upper: bool)
    requires
        width <= 16,
    ensures
        final(out)@ == old(out)@ + hex_digits(x as nat, width as nat, upper),
{
    let mut rev: Vec<char> = Vec::new();
    let mut k: usize = 0;
    let mut y: u64 = x;
    while k < width
        invariant
            k <= width <= 16,
            hex_digits(x as nat, width as nat, upper) == hex_digits(y as nat, (width - k) as nat,
                upper) + rev@.reverse(),
        decreases width - k,
    {
        let d = (y % 16) as u8;
        let c = hex_char(d, upper);
        proof {
            let w = (width - k) as nat;
            assert(hex_digits(y as nat, w, upper) == hex_digits(y as nat / 16, (w - 1) as nat,
                upper).push(c));
            lemma_reverse_push(rev@, c);
            assert(hex_digits(y as nat / 16, (w - 1) as nat, upper).push(c) + rev@.reverse()
                =~= hex_digits(y as nat / 16, (w - 1) as nat, upper) + rev@.push(c).reverse());
        }
        rev.push(c);
        y = y / 16;
        k = k + 1;
    }
    proof {
        assert(hex_digits(y as nat, 0, upper) =~= Seq::<char>::empty());
        assert(hex_digits(x as nat, width as nat, upper) =~= rev@.reverse());
    }
    push_reversed(out, &rev);
}

/// Appends `n` in decimal, zero-padded to at least `width` digits.
pub fn push_dec(out: &mut Vec<char>, n: u64, width: usize)
    requires
        width <= 20,
    ensures
        final(out)@ == old(out)@ + dec_padded(n as nat, width as nat),
{
    let ghost start = out@;
    let mut rev: Vec<char> = Vec::new();
    let mut y: u64 = n;
    while y >= 10
        invariant
            dec_digits(n as nat) == dec_digits(y as nat) + rev@.reverse(),
        decreases y,
    {
        let c = (48 + (y % 10) as u8) as char;
        proof {
            assert(dec_digits(y as nat) == dec_digits(y as nat / 10).push(c));
            lemma_reverse_push(rev@, c);
            assert(dec_digits(y as nat / 10).push(c) + rev@.reverse() =~= dec_digits(y as nat
                / 10) + rev@.push(c).reverse());
        }
        rev.push(c);
        y = y / 10;
    }
    let c = (48 + y as u8) as char;
    proof {
        assert(dec_digits(y as nat) == seq![c]);
        lemma_reverse_push(rev@, c);
        assert(dec_digits(n as nat) =~= rev@.push(c).reverse());
    }
    rev.push(c);
    let ghost d = dec_digits(n as nat);
    let mut pad: usize = 0;
    if rev.len() < width {
        while pad < width - rev.len()
            invariant
                rev.len() < width,
                pad <= width - rev.len(),
                out@ == start + Seq::new(pad as nat, |i: int| '0'),
            decreases width - rev.len() - pad,
        {
            out.push('0');
            pad = pad + 1;
            proof {
                assert(out@ =~= start + Seq::new(pad as nat, |i: int| '0'));
            }
        }
    }
    let ghost mid = out@;
    push_reversed(out, &rev);
    proof {
        if d.len() >= width {
            assert(mid =~= start);
            assert(out@ =~= start + d);
        } else {
            assert(out@ =~= start + (Seq::new((width - d.len()) as nat, |i: int| '0') + d));
        }
    }
}

/// Whether two character slices are equal.
pub fn chars_eq(a: &[char], b: &[char]) -> (r: bool)
    ensures
        r == (a@ == b@),
{
    if a.len() != b.len() {
        return false;
    }
    let mut i: usize = 0;
    while i < a.len()
        invariant
            a.len() == b.len(),
            i <= a.len(),
            forall|j: int| 0 <= j < i ==> a@[j] == b@[j],
        decreases a.len() - i,
    {
        if a[i] != b[i] {
            return false;
        }
        i = i + 1;
    }
    assert(a@ =~= b@);
    true
}

/// Whether two strings hold the same characters.
pub fn str_eq(a: &str, b: &str) -> (r: bool)
    ensures
        r == (a@ == b@),
{
    let x = chars_of(a);
    let y = chars_of(b);
    chars_eq(x.as_slice(), y.as_slice())
}

} // verus!

verus! {

/// `a` followed by `b`.
pub fn concat(a: &str, b: &str) -> (r: String)
    ensures
        r@ == a@ + b@,
{
    let mut v = chars_of(a);
    let w = chars_of(b);
    let mut i: usize = 0;
    let ghost start = v@;
    while i < w.len()
        invariant
            i <= w.len(),
            v@ == start + w@.subrange(0, i as int),
        decreases w.len() - i,
    {
        v.push(w[i]);
        i = i + 1;
        proof {
            assert(w@.subrange(0, i as int) =~= w@.subrange(0, i - 1).push(w@[i - 1]));
        }
    }
    assert(w@.subrange(0, w.len() as int) =~= w@);
    string_of(v.as_slice())
}

/// Appends the characters of `s` to `out`.
pub fn push_str(out: &mut Vec<char>, s: &str)
    ensures
        final(out)@ == old(out)@ + s@,
{
    let w = chars_of(s);
    let mut i: usize = 0;
    let ghost start = out@;
    while i < w.len()
        invariant
            i <= w.len(),
            out@ == start + w@.subrange(0, i as int),
        decreases w.len() - i,
    {
        out.push(w[i]);
        i = i + 1;
        proof {
            assert(w@.subrange(0, i as int) =~= w@.subrange(0, i - 1).push(w@[i - 1]));
        }
    }
    assert(w@.subrange(0, w.len() as int) =~= w@);
}

} // verus!

verus! {

/// The characters of `v` with every leading `c` removed.
pub fn trim_start_char_vec(v: &Vec<char>, c: char) -> (r: Vec<char>)
    ensures
        r@ == trim_start_char(v@, c),
{
    let mut i: usize = 0;
    assert(v@.subrange(0, v.len() as int) =~= v@);
    while i < v.len() && v[i] == c
        invariant
            i <= v.len(),
            trim_start_char(v@.subrange(i as int, v.len() as int), c) == trim_start_char(v@, c),
        decreases v.len() - i,
    {
        assert(v@.subrange(i as int, v.len() as int).drop_first() =~= v@.subrange(
            i + 1,
            v.len() as int,
        ));
        i = i + 1;
    }
    let mut r: Vec<char> = Vec::new();
    let mut j: usize = i;
    while j < v.len()
        invariant
            i <= j <= v.len(),
            r@ == v@.subrange(i as int, j as int),
        decreases v.len() - j,
    {
        r.push(v[j]);
        j = j + 1;
    }
    proof {
        let t = v@.subrange(i as int, v.len() as int);
        assert(!(t.len() > 0 && t[0] == c));
        assert(r@ =~= t);
    }
    r
}

} // verus!

verus! {

/// The pieces of `s` between separators `sep` (`str::split`), the first
/// piece already begun with `cur`.
pub open spec fn split_on(s: Seq<char>, sep: char, cur: Seq<char>) -> Seq<Seq<char>>
    decreases s.len(),
{
    if s.len() == 0 {
        seq![cur]
    } else if s[0] == sep {
        seq![cur] + split_on(s.drop_first(), sep, seq![])
    } else {
        split_on(s.drop_first(), sep, cur.push(s[0]))
    }
}

/// Character vectors as sequences.
pub open spec fn char_vecs(v: Seq<Vec<char>>) -> Seq<Seq<char>> {
    v.map_values(|c: Vec<char>| c@)
}

/// Splits `s` at every `sep`.
pub fn split_chars(s: &Vec<char>, sep: char) -> (r: Vec<Vec<char>>)
    ensures
        char_vecs(r@) == split_on(s@, sep, seq![]),
        r@.len() >= 1,
{
    let mut comps: Vec<Vec<char>> = Vec::new();
    let mut cur: Vec<char> = Vec::new();
    let mut k: usize = 0;
    assert(s@.subrange(0, s@.len() as int) =~= s@);
    while k < s.len()
        invariant
            k <= s@.len(),
            split_on(s@, sep, seq![]) == char_vecs(comps@) + split_on(
                s@.subrange(k as int, s@.len() as int),
                sep,
                cur@,
            ),
        decreases s.len() - k,
    {
        let ghost sub = s@.subrange(k as int, s@.len() as int);
        proof {
            assert(sub.drop_first() =~= s@.subrange(k + 1, s@.len() as int));
        }
        if s[k] == sep {
            let ghost before = char_vecs(comps@);
            let done = cur;
            comps.push(done);
            cur = Vec::new();
            proof {
                assert(char_vecs(comps@) =~= before.push(done@));
                assert(cur@ =~= Seq::<char>::empty());
                assert(before + (seq![done@] + split_on(sub.drop_first(), sep, seq![]))
                    =~= before.push(done@) + split_on(sub.drop_first(), sep, seq![]));
            }
        } else {
            cur.push(s[k]);
        }
        k = k + 1;
    }
    let ghost before = char_vecs(comps@);
    proof {
        assert(split_on(s@.subrange(k as int, s@.len() as int), sep, cur@) == seq![cur@]);
    }
    comps.push(cur);
    proof {
        assert(char_vecs(comps@) =~= before + seq![cur@]);
    }
    comps
}

/// A line without its trailing carriage return.
pub open spec fn strip_cr(l: Seq<char>) -> Seq<char> {
    if l.len() > 0 && l.last() == '\r' {
        l.drop_last()
    } else {
        l
    }
}

/// Each line without its trailing carriage return.
pub open spec fn strip_all(v: Seq<Seq<char>>) -> Seq<Seq<char>> {
    v.map_values(|l: Seq<char>| strip_cr(l))
}

/// The lines of `s` (`str::lines`): pieces between `\n`, no piece after a
/// final `\n`, each without a trailing `\r`.
pub open spec fn lines_of(s: Seq<char>) -> Seq<Seq<char>> {
    let parts = split_on(s, '\n', seq![]);
    let kept = if s.len() == 0 || s.last() == '\n' {
        parts.drop_last()
    } else {
        parts
    };
    strip_all(kept)
}

/// The lines of `s`.
pub fn lines_vec(s: &str) -> (r: Vec<Vec<char>>)
    ensures
        char_vecs(r@) == lines_of(s@),
{
    let all = chars_of(s);
    let mut parts = split_chars(&all, '\n');
    let n = all.len();
    if n == 0 || all[n - 1] == '\n' {
        parts.pop();
    }
    let ghost kept = char_vecs(parts@);
    let mut out: Vec<Vec<char>> = Vec::new();
    let mut i: usize = 0;
    while i < parts.len()
        invariant
            i <= parts@.len(),
            kept == char_vecs(parts@),
            char_vecs(out@) == strip_all(kept.subrange(0, i as int)),
        decreases parts.len() - i,
    {
        let mut l: Vec<char> = Vec::new();
        let p = &parts[i];
        let mut j: usize = 0;
        while j < p.len()
            invariant
                j <= p@.len(),
                l@ == p@.subrange(0, j as int),
            decreases p.len() - j,
        {
            l.push(p[j]);
            j = j + 1;
        }
        proof {
            assert(p@.subrange(0, j as int) =~= p@);
        }
        let ghost pv = p@;
        if l.len() > 0 && l[l.len() - 1] == '\r' {
            l.pop();
        }
        proof {
            assert(l@ == strip_cr(pv));
        }
        let ghost before = char_vecs(out@);
        out.push(l);
        proof {
            assert(kept[i as int] == p@);
            assert(char_vecs(out@) =~= before.push(l@));
            assert(strip_all(kept.subrange(0, i + 1)) =~= strip_all(kept.subrange(0, i as int)).push(
                strip_cr(kept[i as int]),
            ));
            assert(char_vecs(out@) =~= strip_all(kept.subrange(0, i + 1)));
        }
        i = i + 1;
    }
    proof {
        assert(kept.subrange(0, i as int) =~= kept);
        assert(kept =~= (if s@.len() == 0 || s@.last() == '\n' {
            split_on(s@, '\n', seq![]).drop_last()
        } else {
            split_on(s@, '\n', seq![])
        }));
    }
    out
}

/// Whether `n` occurs in `h` at position `i`.
pub open spec fn occurs_at(h: Seq<char>, n: Seq<char>, i: int) -> bool {
    0 <= i && i + n.len() <= h.len() && h.subrange(i, i + n.len()) == n
}

/// Whether `n` occurs in `h` (`str::contains`).
pub open spec fn has_substr(h: Seq<char>, n: Seq<char>) -> bool {
    exists|i: int| #[trigger] occurs_at(h, n, i)
}

/// Whether `n` occurs in `h` at `i`.
fn occurs_here(h: &[char], n: &[char], i: usize) -> (r: bool)
    requires
        i + n@.len() <= h@.len(),
    ensures
        r == occurs_at(h@, n@, i as int),
{
    let hl = h.len();
    let mut j: usize = 0;
    while j < n.len()
        invariant
            j <= n@.len(),
            hl == h@.len(),
            i + n@.len() <= h@.len(),
            forall|k: int| 0 <= k < j ==> h@[i + k] == n@[k],
        decreases n.len() - j,
    {
        if h[i + j] != n[j] {
            proof {
                assert(h@.subrange(i as int, i + n@.len())[j as int] != n@[j as int]);
            }
            return false;
        }
        j = j + 1;
    }
    proof {
        assert(h@.subrange(i as int, i + n@.len()) =~= n@);
    }
    true
}

/// Whether `n` occurs in `h`.
pub fn contains_chars(h: &[char], n: &[char]) -> (r: bool)
    ensures
        r == has_substr(h@, n@),
{
    if n.len() > h.len() {
        proof {
            assert forall|i: int| !occurs_at(h@, n@, i) by {}
        }
        return false;
    }
    if n.len() == 0 {
        proof {
            assert(h@.subrange(0, 0) =~= n@);
            assert(occurs_at(h@, n@, 0));
        }
        return true;
    }
    let hl = h.len();
    let last = hl - n.len();
    let mut i: usize = 0;
    while i <= last
        invariant
            last == h@.len() - n@.len(),
            hl == h@.len(),
            last < hl,
            i <= last + 1,
            forall|k: int| 0 <= k < i ==> !#[trigger] occurs_at(h@, n@, k),
        decreases last + 1 - i,
    {
        if occurs_here(h, n, i) {
            return true;
        }
        i = i + 1;
    }
    proof {
        assert forall|k: int| !occurs_at(h@, n@, k) by {
            if 0 <= k < i {
            }
        }
    }
    false
}

/// Whether `n` occurs in `h`.
pub fn str_contains(h: &str, n: &str) -> (r: bool)
    ensures
        r == has_substr(h@, n@),
{
    let a = chars_of(h);
    let b = chars_of(n);
    contains_chars(a.as_slice(), b.as_slice())
}


/// Whether `h` begins with `p`.
pub open spec fn has_prefix(h: Seq<char>, p: Seq<char>) -> bool {
    p.len() <= h.len() && h.subrange(0, p.len() as int) == p
}

/// Whether `h` ends with `p`.
pub open spec fn has_suffix(h: Seq<char>, p: Seq<char>) -> bool {
    p.len() <= h.len() && h.subrange(h.len() - p.len(), h.len() as int) == p
}

/// Whether `h` begins with `p`.
pub fn starts_with_str(h: &str, p: &str) -> (r: bool)
    ensures
        r == has_prefix(h@, p@),
{
    let hv = chars_of(h);
    let pv = chars_of(p);
    if pv.len() > hv.len() {
        return false;
    }
    let mut i: usize = 0;
    while i < pv.len()
        invariant
            pv.len() <= hv.len(),
            hv@ == h@,
            pv@ == p@,
            i <= pv.len(),
            forall|k: int| 0 <= k < i ==> hv@[k] == pv@[k],
        decreases pv.len() - i,
    {
        if hv[i] != pv[i] {
            proof {
                assert(h@.subrange(0, p@.len() as int)[i as int] != p@[i as int]);
            }
            return false;
        }
        i = i + 1;
    }
    proof {
        assert(h@.subrange(0, p@.len() as int) =~= p@);
    }
    true
}

/// Whether `h` ends with `p`.
pub fn ends_with_str(h: &str, p: &str) -> (r: bool)
    ensures
        r == has_suffix(h@, p@),
{
    let hv = chars_of(h);
    let pv = chars_of(p);
    if pv.len() > hv.len() {
        return false;
    }
    let off = hv.len() - pv.len();
    let mut i: usize = 0;
    while i < pv.len()
        invariant
            pv.len() <= hv.len(),
            off == hv.len() - pv.len(),
            hv@ == h@,
            pv@ == p@,
            i <= pv.len(),
            forall|k: int| 0 <= k < i ==> hv@[off + k] == pv@[k],
        decreases pv.len() - i,
    {
        if hv[off + i] != pv[i] {
            proof {
                assert(h@.subrange(h@.len() - p@.len(), h@.len() as int)[i as int] != p@[i as int]);
            }
            return false;
        }
        i = i + 1;
    }
    proof {
        assert(h@.subrange(h@.len() - p@.len(), h@.len() as int) =~= p@);
    }
    true
}

} // verus!

verus! {

/// The first position at or after `i` where `n` occurs in `h` (`str::find`
/// on what follows position `i`, counted from the start of `h`).
pub open spec fn find_from(h: Seq<char>, n: Seq<char>, i: int) -> Option<int>
    decreases h.len() + 1 - i,
{
    if i < 0 || i + n.len() > h.len() {
        None
    } else if occurs_at(h, n, i) {
        Some(i)
    } else {
        find_from(h, n, i + 1)
    }
}

/// A position found is at or after the start of the search, and the text
/// searched for occurs there.
pub proof fn lemma_find_from(h: Seq<char>, n: Seq<char>, i: int)
    ensures
        find_from(h, n, i) matches Some(j) ==> i <= j && occurs_at(h, n, j),
    decreases h.len() + 1 - i,
{
    if !(i < 0 || i + n.len() > h.len()) && !occurs_at(h, n, i) {
        lemma_find_from(h, n, i + 1);
    }
}

/// The first position at or after `start` where `n` occurs in `h`.
pub fn find_chars_from(h: &[char], n: &[char], start: usize) -> (r: Option<usize>)
    ensures
        match r {
            Some(j) => find_from(h@, n@, start as int) == Some(j as int),
            None => find_from(h@, n@, start as int) is None,
        },
        r matches Some(j) ==> start <= j && j + n@.len() <= h@.len(),
{
    proof {
        lemma_find_from(h@, n@, start as int);
    }
    let mut i: usize = start;
    while i <= h.len() && n.len() <= h.len() - i
        invariant
            start <= i,
            find_from(h@, n@, start as int) == find_from(h@, n@, i as int),
        decreases h.len() - i,
    {
        if occurs_here(h, n, i) {
            return Some(i);
        }
        proof {
            if n@.len() == 0 {
                assert(h@.subrange(i as int, i as int) =~= n@);
            }
        }
        i = i + 1;
    }
    None
}

/// The characters of `v` from position `a` up to position `b`.
pub fn sub_chars(v: &[char], a: usize, b: usize) -> (r: Vec<char>)
    requires
        a <= b <= v@.len(),
    ensures
        r@ == v@.subrange(a as int, b as int),
{
    let mut r: Vec<char> = Vec::new();
    let mut j: usize = a;
    while j < b
        invariant
            a <= j <= b <= v@.len(),
            r@ == v@.subrange(a as int, j as int),
        decreases b - j,
    {
        r.push(v[j]);
        j = j + 1;
    }
    r
}

} // verus!
