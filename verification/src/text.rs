//! Character-level helpers shared by the identifier validators and the
//! expression parser.

use vstd::prelude::*;
use vstd::string::*;

verus! {

/// Whether `c` is an ASCII uppercase letter (`A`–`Z`).
pub open spec fn is_upper(c: char) -> bool {
    'A' <= c && c <= 'Z'
}

/// Whether `c` is an ASCII lowercase letter (`a`–`z`).
pub open spec fn is_lower(c: char) -> bool {
    'a' <= c && c <= 'z'
}

/// Whether `c` is an ASCII digit (`0`–`9`).
pub open spec fn is_digit(c: char) -> bool {
    '0' <= c && c <= '9'
}

/// Whether `c` is an ASCII letter or digit.
pub open spec fn is_alnum(c: char) -> bool {
    is_upper(c) || is_lower(c) || is_digit(c)
}

/// The characters of a string slice, in order.
pub fn chars_of(s: &str) -> (v: Vec<char>)
    ensures
        v@ == s@,
{
    let mut v: Vec<char> = Vec::new();
    for c in it: s.chars()
        invariant
            v@ == it.seq().take(it.index() as int),
            it.seq() == s@,
    {
        v.push(c);
    }
    v
}

/// Append one character to a string (`String::push`).
#[verifier::external_body]
pub(crate) fn push_char(s: &mut String, c: char)
    ensures
        final(s)@ == old(s)@.push(c),
{
    s.push(c);
}

/// Build a string from a sequence of characters.
pub fn string_from_chars(cs: &Vec<char>) -> (s: String)
    ensures
        s@ == cs@,
{
    let mut s = String::new();
    let mut i: usize = 0;
    while i < cs.len()
        invariant
            i <= cs.len(),
            s@ == cs@.take(i as int),
        decreases cs.len() - i,
    {
        push_char(&mut s, cs[i]);
        i = i + 1;
        assert(cs@.take(i as int) == cs@.take(i - 1).push(cs@[i - 1]));
    }
    assert(cs@.take(cs.len() as int) == cs@);
    s
}

/// Outcome of scanning an identifier against the lexical rules shared by
/// file set, perspective and check names.
#[derive(Debug, Clone, Copy, PartialEq, Eq)]
pub enum IdentScan {
    /// The input was empty.
    Empty,
    /// The first character has the wrong class.
    BadStart,
    /// A later character is not an ASCII letter or digit.
    BadChar { ch: char, pos: usize },
    /// The identifier is well formed.
    Valid,
}

/// Whether the first character satisfies the start rule: uppercase when
/// `upper_start`, lowercase otherwise.
pub open spec fn start_ok(c: char, upper_start: bool) -> bool {
    if upper_start { is_upper(c) } else { is_lower(c) }
}

/// Whether every character at index `1 <= j < k` is ASCII alphanumeric.
pub open spec fn tail_alnum_upto(s: Seq<char>, k: int) -> bool {
    forall|j: int| 1 <= j < k ==> is_alnum(#[trigger] s[j])
}

/// The lexical rule for identifiers: non-empty, a start character of the
/// requested class, then only ASCII letters and digits.
pub open spec fn ident_valid(s: Seq<char>, upper_start: bool) -> bool {
    &&& s.len() > 0
    &&& start_ok(s[0], upper_start)
    &&& tail_alnum_upto(s, s.len() as int)
}

/// The exact scan result for `s`: the first rule that fails, in the
/// order empty, start character, first offending later character.
pub open spec fn ident_scan_spec(s: Seq<char>, upper_start: bool, r: IdentScan) -> bool {
    match r {
        IdentScan::Empty => s.len() == 0,
        IdentScan::BadStart => s.len() > 0 && !start_ok(s[0], upper_start),
        IdentScan::BadChar { ch, pos } => {
            &&& s.len() > 0
            &&& start_ok(s[0], upper_start)
            &&& 1 <= pos < s.len()
            &&& !is_alnum(s[pos as int])
            &&& ch == s[pos as int]
            &&& tail_alnum_upto(s, pos as int)
        },
        IdentScan::Valid => ident_valid(s, upper_start),
    }
}

/// Scan `s` against the identifier rules.
///
/// The reported position is a character index; every character before
/// it is ASCII, so it is also the byte offset.
pub fn scan_ident(s: &str, upper_start: bool) -> (r: IdentScan)
    ensures
        ident_scan_spec(s@, upper_start, r),
{
    let cs = chars_of(s);
    if cs.len() == 0 {
        return IdentScan::Empty;
    }
    let first = cs[0];
    let ok_start = if upper_start { 'A' <= first && first <= 'Z' } else { 'a' <= first && first <= 'z' };
    if !ok_start {
        return IdentScan::BadStart;
    }
    let mut i: usize = 1;
    while i < cs.len()
        invariant
            1 <= i <= cs.len(),
            cs@ == s@,
            start_ok(s@[0], upper_start),
            tail_alnum_upto(s@, i as int),
        decreases cs.len() - i,
    {
        let c = cs[i];
        let alnum = ('A' <= c && c <= 'Z') || ('a' <= c && c <= 'z') || ('0' <= c && c <= '9');
        if !alnum {
            return IdentScan::BadChar { ch: c, pos: i };
        }
        i = i + 1;
    }
    IdentScan::Valid
}

/// The number of bytes in the UTF-8 encoding of `c`.
pub open spec fn utf8_width(c: char) -> nat {
    let v = c as u32;
    if v <= 0x7F {
        1
    } else if v <= 0x7FF {
        2
    } else if v <= 0xFFFF {
        3
    } else {
        4
    }
}

/// The byte offset of character index `i` in the UTF-8 encoding of `s`.
pub open spec fn byte_offset(s: Seq<char>, i: int) -> nat
    decreases i,
{
    if i <= 0 {
        0
    } else {
        byte_offset(s, i - 1) + utf8_width(s[i - 1])
    }
}

proof fn lemma_encode_push(a: Seq<char>, c: char)
    ensures
        vstd::utf8::encode_utf8(a.push(c)) == vstd::utf8::encode_utf8(a) + vstd::utf8::encode_scalar(
            c as u32,
        ),
    decreases a.len(),
{
    if a.len() == 0 {
        assert(a.push(c).drop_first() =~= a);
        assert(vstd::utf8::encode_utf8(a) =~= Seq::<u8>::empty());
        assert(vstd::utf8::encode_utf8(a.push(c)) =~= vstd::utf8::encode_scalar(c as u32)
            + vstd::utf8::encode_utf8(a));
    } else {
        assert(a.push(c).drop_first() =~= a.drop_first().push(c));
        lemma_encode_push(a.drop_first(), c);
        assert(vstd::utf8::encode_utf8(a.push(c)) =~= vstd::utf8::encode_scalar(a[0] as u32)
            + vstd::utf8::encode_utf8(a.drop_first().push(c)));
    }
}

proof fn lemma_width(c: char)
    ensures
        vstd::utf8::encode_scalar(c as u32).len() == utf8_width(c),
{
    vstd::utf8::char_is_scalar(c);
}

proof fn lemma_byte_offset_encode(s: Seq<char>, i: int)
    requires
        0 <= i <= s.len(),
    ensures
        byte_offset(s, i) == vstd::utf8::encode_utf8(s.take(i)).len(),
    decreases i,
{
    if i == 0 {
        assert(s.take(0) =~= Seq::<char>::empty());
    } else {
        lemma_byte_offset_encode(s, i - 1);
        assert(s.take(i) =~= s.take(i - 1).push(s[i - 1]));
        lemma_encode_push(s.take(i - 1), s[i - 1]);
        lemma_width(s[i - 1]);
    }
}

proof fn lemma_byte_offset_mono(s: Seq<char>, i: int)
    requires
        0 <= i <= s.len(),
    ensures
        byte_offset(s, i) <= byte_offset(s, s.len() as int),
    decreases s.len() - i,
{
    if i < s.len() {
        lemma_byte_offset_mono(s, i + 1);
    }
}

/// Byte offsets within `s` are bounded by its encoded length.
pub proof fn lemma_byte_offset_bound(s: Seq<char>, i: int)
    requires
        0 <= i <= s.len(),
    ensures
        byte_offset(s, i) <= vstd::utf8::encode_utf8(s).len(),
{
    lemma_byte_offset_mono(s, i);
    lemma_byte_offset_encode(s, s.len() as int);
    assert(s.take(s.len() as int) =~= s);
}

/// The UTF-8 width of `c`.
pub fn char_width(c: char) -> (w: usize)
    ensures
        w == utf8_width(c),
{
    let v = c as u32;
    if v <= 0x7F {
        1
    } else if v <= 0x7FF {
        2
    } else if v <= 0xFFFF {
        3
    } else {
        4
    }
}

/// The byte length of `s`, tied to its character sequence.
pub fn byte_len(s: &str) -> (n: usize)
    ensures
        n == vstd::utf8::encode_utf8(s@).len(),
{
    s.as_bytes().len()
}


/// The path `base` extended by `rel`, as `PathBuf::push` forms it on
/// Unix: an absolute `rel` replaces `base`; otherwise a `/` separates
/// them unless `base` is empty or already ends with one.
pub open spec fn path_join(base: Seq<char>, rel: Seq<char>) -> Seq<char> {
    if rel.len() > 0 && rel[0] == '/' {
        rel
    } else if base.len() > 0 && base.last() != '/' {
        base + seq!['/'] + rel
    } else {
        base + rel
    }
}

/// Join a relative path onto a base path.
pub fn join_path(base: &str, rel: &str) -> (r: String)
    ensures
        r@ == path_join(base@, rel@),
{
    let b = chars_of(base);
    let x = chars_of(rel);
    if x.len() > 0 && x[0] == '/' {
        return String::from_str(rel);
    }
    let mut r = String::from_str(base);
    if b.len() > 0 && b[b.len() - 1] != '/' {
        push_char(&mut r, '/');
    }
    r.append(rel);
    r
}


/// Whether two string slices hold the same text.
pub fn text_eq(a: &str, b: &str) -> (r: bool)
    ensures
        r == (a@ == b@),
{
    let x = chars_of(a);
    let y = chars_of(b);
    if x.len() != y.len() {
        return false;
    }
    let mut i: usize = 0;
    while i < x.len()
        invariant
            x@ == a@,
            y@ == b@,
            x.len() == y.len(),
            i <= x.len(),
            forall|j: int| 0 <= j < i ==> x@[j] == y@[j],
        decreases x.len() - i,
    {
        if x[i] != y[i] {
            return false;
        }
        i = i + 1;
    }
    assert(a@ =~= b@);
    true
}

/// Whether `c` has the Unicode `White_Space` property, the set that
/// `char::is_whitespace` and `str::trim` use.
pub open spec fn is_white_space(c: char) -> bool {
    let v = c as u32;
    ||| 0x9 <= v <= 0xD
    ||| v == 0x20
    ||| v == 0x85
    ||| v == 0xA0
    ||| v == 0x1680
    ||| 0x2000 <= v <= 0x200A
    ||| v == 0x2028
    ||| v == 0x2029
    ||| v == 0x202F
    ||| v == 0x205F
    ||| v == 0x3000
}

/// Whether `c` is whitespace.
pub fn white_space(c: char) -> (b: bool)
    ensures
        b == is_white_space(c),
{
    let v = c as u32;
    (0x9 <= v && v <= 0xD) || v == 0x20 || v == 0x85 || v == 0xA0 || v == 0x1680 || (0x2000 <= v
        && v <= 0x200A) || v == 0x2028 || v == 0x2029 || v == 0x202F || v == 0x205F || v == 0x3000
}

/// `s` without its leading whitespace.
pub open spec fn trim_front(s: Seq<char>) -> Seq<char>
    decreases s.len(),
{
    if s.len() > 0 && is_white_space(s[0]) {
        trim_front(s.drop_first())
    } else {
        s
    }
}

/// `s` without its trailing whitespace.
pub open spec fn trim_back(s: Seq<char>) -> Seq<char>
    decreases s.len(),
{
    if s.len() > 0 && is_white_space(s.last()) {
        trim_back(s.drop_last())
    } else {
        s
    }
}

/// `s` without surrounding whitespace, as `str::trim` gives it.
pub open spec fn trimmed(s: Seq<char>) -> Seq<char> {
    trim_back(trim_front(s))
}

/// The number of characters of `s` before its first `c`, or its length
/// when it holds none.
pub open spec fn count_before(s: Seq<char>, c: char) -> nat
    decreases s.len(),
{
    if s.len() == 0 || s[0] == c {
        0
    } else {
        1 + count_before(s.drop_first(), c)
    }
}

/// The number of characters before the first line feed of `s`, or its
/// length when it holds none.
pub open spec fn line_len(s: Seq<char>) -> nat {
    count_before(s, '\n')
}

/// A line that ended with a line feed, without a carriage return before
/// that line feed.
pub open spec fn strip_cr(l: Seq<char>) -> Seq<char> {
    if l.len() > 0 && l.last() == '\r' {
        l.drop_last()
    } else {
        l
    }
}

/// The lines of `s`, as `str::lines` yields them: split at each line
/// feed, with a carriage return before a line feed dropped, and no line
/// after a final line feed.
pub open spec fn lines_of(s: Seq<char>) -> Seq<Seq<char>>
    decreases s.len(),
{
    if s.len() == 0 {
        Seq::empty()
    } else if line_len(s) < s.len() {
        seq![strip_cr(s.take(line_len(s) as int))] + lines_of(s.skip(line_len(s) as int + 1))
    } else {
        seq![s]
    }
}

/// `count_before` is at most the length, and names the first `c`.
pub proof fn lemma_count_before(s: Seq<char>, c: char)
    ensures
        count_before(s, c) <= s.len(),
        count_before(s, c) < s.len() ==> s[count_before(s, c) as int] == c,
        forall|i: int| 0 <= i < count_before(s, c) ==> s[i] != c,
    decreases s.len(),
{
    if s.len() > 0 && s[0] != c {
        lemma_count_before(s.drop_first(), c);
        assert forall|i: int| 0 <= i < count_before(s, c) implies s[i] != c by {
            if i > 0 {
                assert(s[i] == s.drop_first()[i - 1]);
            }
        }
    }
}

/// The text of `cs` between positions `lo` and `hi`, with surrounding
/// whitespace removed.
pub fn trim_range(cs: &Vec<char>, lo: usize, hi: usize) -> (r: Vec<char>)
    requires
        lo <= hi <= cs.len(),
    ensures
        r@ == trimmed(cs@.subrange(lo as int, hi as int)),
{
    let ghost whole = cs@.subrange(lo as int, hi as int);
    let mut a = lo;
    while a < hi && white_space(cs[a])
        invariant
            lo <= a <= hi <= cs.len(),
            whole == cs@.subrange(lo as int, hi as int),
            trim_front(whole) == trim_front(cs@.subrange(a as int, hi as int)),
        decreases hi - a,
    {
        assert(cs@.subrange(a as int, hi as int).drop_first() =~= cs@.subrange(a + 1, hi as int));
        a = a + 1;
    }
    assert(trim_front(whole) == cs@.subrange(a as int, hi as int));
    let mut b = hi;
    while b > a && white_space(cs[b - 1])
        invariant
            lo <= a <= b <= hi <= cs.len(),
            trim_back(cs@.subrange(a as int, hi as int)) == trim_back(cs@.subrange(a as int, b as int)),
        decreases b - a,
    {
        assert(cs@.subrange(a as int, b as int).drop_last() =~= cs@.subrange(a as int, b - 1));
        b = b - 1;
    }
    let mut r: Vec<char> = Vec::new();
    let mut k = a;
    while k < b
        invariant
            a <= k <= b <= cs.len(),
            r@ == cs@.subrange(a as int, k as int),
        decreases b - k,
    {
        r.push(cs[k]);
        assert(r@ =~= cs@.subrange(a as int, k + 1));
        k = k + 1;
    }
    r
}

/// The characters of `cs` between positions `lo` and `hi`, as a string.
pub fn string_of_range(cs: &Vec<char>, lo: usize, hi: usize) -> (r: String)
    requires
        lo <= hi <= cs.len(),
    ensures
        r@ == cs@.subrange(lo as int, hi as int),
{
    let mut r = String::new();
    let mut k = lo;
    while k < hi
        invariant
            lo <= k <= hi <= cs.len(),
            r@ == cs@.subrange(lo as int, k as int),
        decreases hi - k,
    {
        push_char(&mut r, cs[k]);
        assert(r@ =~= cs@.subrange(lo as int, k + 1));
        k = k + 1;
    }
    r
}

/// The position of the first `c` of `cs` at or after `start`, or the
/// length when there is none.
pub fn find_char(cs: &Vec<char>, start: usize, c: char) -> (j: usize)
    requires
        start <= cs.len(),
    ensures
        j == start + count_before(cs@.skip(start as int), c),
        start <= j <= cs.len(),
{
    let mut j = start;
    while j < cs.len() && cs[j] != c
        invariant
            start <= j <= cs.len(),
            forall|i: int| start <= i < j ==> cs@[i] != c,
        decreases cs.len() - j,
    {
        j = j + 1;
    }
    let ghost s = cs@.skip(start as int);
    proof {
        lemma_count_before(s, c);
        let n = count_before(s, c);
        if n < j - start {
            assert(s[n as int] == cs@[start + n]);
        } else if n > j - start {
            assert(s[j - start] == cs@[j as int]);
        }
    }
    j
}

/// The lines of `s`, as `str::lines` yields them.
pub fn split_lines(s: &str) -> (r: Vec<String>)
    ensures
        r@.map_values(|l: String| l@) == lines_of(s@),
{
    let cs = chars_of(s);
    let mut r: Vec<String> = Vec::new();
    let mut start: usize = 0;
    assert(cs@.skip(0) =~= s@);
    assert(r@.map_values(|l: String| l@) + lines_of(s@) =~= lines_of(s@));
    while start < cs.len()
        invariant
            cs@ == s@,
            start <= cs.len(),
            r@.map_values(|l: String| l@) + lines_of(cs@.skip(start as int)) == lines_of(s@),
        decreases cs.len() - start,
    {
        let j = find_char(&cs, start, '\n');
        let ghost rest = cs@.skip(start as int);
        let ghost before = r@;
        if j < cs.len() {
            let mut e = j;
            if e > start && cs[e - 1] == '\r' {
                e = e - 1;
            }
            let line = string_of_range(&cs, start, e);
            proof {
                assert(rest.take(j - start) =~= cs@.subrange(start as int, j as int));
                assert(strip_cr(rest.take(j - start)) =~= cs@.subrange(start as int, e as int));
                assert(rest.skip(j - start + 1) =~= cs@.skip(j + 1));
            }
            r.push(line);
            proof {
                assert(r@.map_values(|l: String| l@) =~= before.map_values(|l: String| l@).push(
                    strip_cr(rest.take(j - start)),
                ));
                assert(lines_of(rest) == seq![strip_cr(rest.take(j - start))] + lines_of(
                    cs@.skip(j + 1),
                ));
                assert(r@.map_values(|l: String| l@) + lines_of(cs@.skip(j + 1)) =~= before.map_values(
                    |l: String| l@,
                ) + lines_of(rest));
            }
            start = j + 1;
        } else {
            let line = string_of_range(&cs, start, j);
            proof {
                assert(rest =~= cs@.subrange(start as int, j as int));
                assert(lines_of(rest) == seq![rest]);
                assert(cs@.skip(j as int) =~= Seq::<char>::empty());
            }
            r.push(line);
            proof {
                assert(r@.map_values(|l: String| l@) + lines_of(cs@.skip(j as int)) =~= before.map_values(
                    |l: String| l@,
                ) + lines_of(rest));
            }
            start = j;
        }
    }
    proof {
        assert(cs@.skip(start as int) =~= Seq::<char>::empty());
        assert(r@.map_values(|l: String| l@) + Seq::<Seq<char>>::empty() =~= r@.map_values(|l: String| l@));
    }
    r
}

/// The texts `ls` with `sep` between consecutive ones.
pub open spec fn join_with(ls: Seq<Seq<char>>, sep: Seq<char>) -> Seq<char>
    decreases ls.len(),
{
    if ls.len() == 0 {
        Seq::empty()
    } else if ls.len() == 1 {
        ls[0]
    } else {
        join_with(ls.drop_last(), sep) + sep + ls.last()
    }
}

/// The strings `parts` with `sep` between consecutive ones.
pub fn join_strings(parts: &Vec<String>, sep: &str) -> (r: String)
    ensures
        r@ == join_with(parts@.map_values(|p: String| p@), sep@),
{
    let ghost ls = parts@.map_values(|p: String| p@);
    let mut out = String::new();
    let mut i: usize = 0;
    while i < parts.len()
        invariant
            ls == parts@.map_values(|p: String| p@),
            i <= parts.len(),
            out@ == join_with(ls.take(i as int), sep@),
        decreases parts.len() - i,
    {
        if i > 0 {
            out.append(sep);
        }
        out.append(parts[i].as_str());
        assert(ls.take(i + 1).drop_last() =~= ls.take(i as int));
        assert(ls.take(i + 1).last() == ls[i as int]);
        if i == 0 {
            assert(ls.take(1) =~= seq![ls[0]]);
        }
        i = i + 1;
    }
    assert(ls.take(parts.len() as int) =~= ls);
    out
}

/// Append the decimal rendering of `n` to `s`.
pub fn push_decimal(s: &mut String, n: usize)
    ensures
        final(s)@ == old(s)@ + crate::num::decimal(n as nat),
{
    let d = crate::num::decimal_text(n as u64);
    s.append(d.as_str());
}

} // verus!
