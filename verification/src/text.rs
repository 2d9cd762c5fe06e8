//! Strings as sequences of characters: the handful of operations everything
//! else is written in terms of, each with an exact contract.

use vstd::prelude::*;
use vstd::string::*;

verus! {

/// `String::push` appends one character to the end of the string.
pub assume_specification[ String::push ](s: &mut String, c: char)
    ensures
        final(s)@ == old(s)@.push(c),
;

/// The text of a byte string whose ill-formed parts are each replaced by
/// U+FFFD, as `String::from_utf8_lossy` gives it.
pub uninterp spec fn lossy_text(bytes: Seq<u8>) -> Seq<char>;

/// `String::from_utf8_lossy`. Its result depends on the bytes alone, and
/// well-formed UTF-8 is read as it stands; where the replacement characters go
/// is left to the name `lossy_text`.
#[verifier::external_body]
pub(crate) fn utf8_lossy(bytes: &[u8]) -> (r: String)
    ensures
        r@ == lossy_text(bytes@),
        vstd::utf8::valid_utf8(bytes@) ==> r@ == vstd::utf8::decode_utf8(bytes@),
{
    String::from_utf8_lossy(bytes).into_owned()
}

/// The characters of a string, in order.
pub fn chars_of(s: &str) -> (r: Vec<char>)
    ensures
        r@ == s@,
{
    let mut out: Vec<char> = Vec::new();
    for c in it: s.chars()
        invariant
            it.seq() == s@,
            out@ == s@.take(it.index() as int),
    {
        out.push(c);
        assert(s@.take(it.index() as int + 1) == s@.take(it.index() as int).push(c));
    }
    assert(s@.take(s@.len() as int) == s@);
    out
}

/// The string made of the characters at `from..to`.
pub fn string_of(cs: &Vec<char>, from: usize, to: usize) -> (r: String)
    requires
        from <= to <= cs@.len(),
    ensures
        r@ == cs@.subrange(from as int, to as int),
{
    let mut out = String::new();
    let mut i: usize = from;
    while i < to
        invariant
            from <= i <= to <= cs@.len(),
            out@ == cs@.subrange(from as int, i as int),
        decreases to - i,
    {
        out.push(cs[i]);
        assert(cs@.subrange(from as int, i as int + 1) == cs@.subrange(from as int, i as int).push(
            cs@[i as int],
        ));
        i += 1;
    }
    out
}

/// Whether two strings hold the same characters.
pub fn same(a: &str, b: &str) -> (r: bool)
    ensures
        r == (a@ == b@),
{
    a.to_owned() == b.to_owned()
}

/// Two strings, one after the other.
pub fn cat2(a: &str, b: &str) -> (r: String)
    ensures
        r@ == a@ + b@,
{
    let mut s = a.to_owned();
    s.append(b);
    s
}

/// Three strings, one after the other.
pub fn cat3(a: &str, b: &str, c: &str) -> (r: String)
    ensures
        r@ == a@ + b@ + c@,
{
    let mut s = a.to_owned();
    s.append(b);
    s.append(c);
    s
}

/// Four strings, one after the other.
pub fn cat4(a: &str, b: &str, c: &str, d: &str) -> (r: String)
    ensures
        r@ == a@ + b@ + c@ + d@,
{
    let mut s = a.to_owned();
    s.append(b);
    s.append(c);
    s.append(d);
    s
}

/// Five strings, one after the other.
pub fn cat5(a: &str, b: &str, c: &str, d: &str, e: &str) -> (r: String)
    ensures
        r@ == a@ + b@ + c@ + d@ + e@,
{
    let mut s = a.to_owned();
    s.append(b);
    s.append(c);
    s.append(d);
    s.append(e);
    s
}

/// Six strings, one after the other.
pub fn cat6(a: &str, b: &str, c: &str, d: &str, e: &str, f: &str) -> (r: String)
    ensures
        r@ == a@ + b@ + c@ + d@ + e@ + f@,
{
    let mut s = a.to_owned();
    s.append(b);
    s.append(c);
    s.append(d);
    s.append(e);
    s.append(f);
    s
}

/// Seven strings, one after the other.
pub fn cat7(a: &str, b: &str, c: &str, d: &str, e: &str, f: &str, g: &str) -> (r: String)
    ensures
        r@ == a@ + b@ + c@ + d@ + e@ + f@ + g@,
{
    let mut s = a.to_owned();
    s.append(b);
    s.append(c);
    s.append(d);
    s.append(e);
    s.append(f);
    s.append(g);
    s
}

/// Eight strings, one after the other.
pub fn cat8(a: &str, b: &str, c: &str, d: &str, e: &str, f: &str, g: &str, h: &str) -> (r: String)
    ensures
        r@ == a@ + b@ + c@ + d@ + e@ + f@ + g@ + h@,
{
    let mut s = a.to_owned();
    s.append(b);
    s.append(c);
    s.append(d);
    s.append(e);
    s.append(f);
    s.append(g);
    s.append(h);
    s
}

/// Nine strings, one after the other.
pub fn cat9(a: &str, b: &str, c: &str, d: &str, e: &str, f: &str, g: &str, h: &str, i: &str) -> (r: String)
    ensures
        r@ == a@ + b@ + c@ + d@ + e@ + f@ + g@ + h@ + i@,
{
    let mut s = a.to_owned();
    s.append(b);
    s.append(c);
    s.append(d);
    s.append(e);
    s.append(f);
    s.append(g);
    s.append(h);
    s.append(i);
    s
}

/// The characters of each string of a list.
pub open spec fn texts(v: Seq<String>) -> Seq<Seq<char>> {
    v.map_values(|s: String| s@)
}

pub proof fn texts_push(v: Seq<String>, s: String)
    ensures
        texts(v.push(s)) == texts(v).push(s@),
{
    assert(texts(v.push(s)) =~= texts(v).push(s@));
}

/// Each string of a list, copied.
pub fn copies(v: &Vec<String>) -> (r: Vec<String>)
    ensures
        texts(r@) == texts(v@),
        r@.len() == v@.len(),
{
    let mut out: Vec<String> = Vec::new();
    let mut i: usize = 0;
    while i < v.len()
        invariant
            i <= v@.len(),
            texts(out@) == texts(v@).take(i as int),
        decreases v@.len() - i,
    {
        let one = v[i].clone();
        proof {
            texts_push(out@, one);
            assert(texts(v@).take(i as int + 1) == texts(v@).take(i as int).push(v@[i as int]@));
        }
        out.push(one);
        i += 1;
    }
    assert(texts(v@).take(i as int) == texts(v@));
    assert(texts(out@).len() == texts(v@).len());
    out
}

/// Whether a list holds the given text.
pub fn list_contains(v: &Vec<String>, name: &str) -> (r: bool)
    ensures
        r == texts(v@).contains(name@),
{
    let mut i: usize = 0;
    while i < v.len()
        invariant
            i <= v@.len(),
            forall|j: int| 0 <= j < i ==> texts(v@)[j] != name@,
        decreases v@.len() - i,
    {
        if same(v[i].as_str(), name) {
            assert(texts(v@)[i as int] == name@);
            return true;
        }
        i += 1;
    }
    false
}

/// The characters with Unicode's `White_Space` property.
pub open spec fn is_space(c: char) -> bool {
    ||| '\u{9}' <= c <= '\u{d}'
    ||| c == ' '
    ||| c == '\u{85}'
    ||| c == '\u{a0}'
    ||| c == '\u{1680}'
    ||| '\u{2000}' <= c <= '\u{200a}'
    ||| c == '\u{2028}'
    ||| c == '\u{2029}'
    ||| c == '\u{202f}'
    ||| c == '\u{205f}'
    ||| c == '\u{3000}'
}

/// Whether a character is white space.
pub fn space(c: char) -> (r: bool)
    ensures
        r == is_space(c),
{
    ('\u{9}' <= c && c <= '\u{d}') || c == ' ' || c == '\u{85}' || c == '\u{a0}' || c == '\u{1680}'
        || ('\u{2000}' <= c && c <= '\u{200a}') || c == '\u{2028}' || c == '\u{2029}' || c
        == '\u{202f}' || c == '\u{205f}' || c == '\u{3000}'
}

/// Without leading white space.
pub open spec fn trim_start(s: Seq<char>) -> Seq<char>
    decreases s.len(),
{
    if s.len() > 0 && is_space(s[0]) {
        trim_start(s.skip(1))
    } else {
        s
    }
}

/// Without trailing white space.
pub open spec fn trim_end(s: Seq<char>) -> Seq<char>
    decreases s.len(),
{
    if s.len() > 0 && is_space(s.last()) {
        trim_end(s.drop_last())
    } else {
        s
    }
}

/// Without white space at either end.
pub open spec fn trimmed(s: Seq<char>) -> Seq<char> {
    trim_end(trim_start(s))
}

/// The string without white space at either end.
pub fn trim(s: &str) -> (r: String)
    ensures
        r@ == trimmed(s@),
{
    let cs = chars_of(s);
    let mut i: usize = 0;
    assert(cs@.skip(0) == cs@);
    while i < cs.len() && space(cs[i])
        invariant
            i <= cs@.len(),
            trim_start(cs@) == trim_start(cs@.skip(i as int)),
        decreases cs@.len() - i,
    {
        assert(cs@.skip(i as int).skip(1) == cs@.skip(i as int + 1));
        i += 1;
    }
    let ghost t = cs@.skip(i as int);
    assert(trim_start(cs@) == t);
    let mut j: usize = cs.len();
    assert(t.take(t.len() as int) == t);
    while j > i && space(cs[j - 1])
        invariant
            i <= j <= cs@.len(),
            t == cs@.skip(i as int),
            trim_end(t) == trim_end(t.take(j - i)),
        decreases j,
    {
        assert(t.take(j - i).last() == cs@[j - 1]);
        assert(t.take(j - i).drop_last() == t.take(j - i - 1));
        j -= 1;
    }
    assert(t.take(j - i) == cs@.subrange(i as int, j as int));
    assert(j > i ==> t.take(j - i).last() == cs@[j - 1]);
    string_of(&cs, i, j)
}

/// Trimming leaves a piece of what was there.
pub proof fn trimmed_piece(s: Seq<char>)
    ensures
        exists|i: int, j: int|
            0 <= i <= j <= s.len() && trimmed(s) == #[trigger] s.subrange(i, j),
        trimmed(s).len() > 0 ==> !is_space(trimmed(s)[0]) && !is_space(trimmed(s).last()),
{
    trim_start_piece(s);
    let t = trim_start(s);
    trim_end_piece(t);
    let i = choose|i: int| 0 <= i <= s.len() && trim_start(s) == s.skip(i);
    let j = choose|j: int| 0 <= j <= t.len() && trim_end(t) == t.take(j);
    assert(t.take(j) == s.subrange(i, i + j));
    assert(trimmed(s).len() > 0 ==> trimmed(s)[0] == t[0]);
}

proof fn trim_start_piece(s: Seq<char>)
    ensures
        exists|i: int| 0 <= i <= s.len() && trim_start(s) == #[trigger] s.skip(i),
        trim_start(s).len() > 0 ==> !is_space(trim_start(s)[0]),
    decreases s.len(),
{
    if s.len() > 0 && is_space(s[0]) {
        trim_start_piece(s.skip(1));
        let i = choose|i: int|
            0 <= i <= s.skip(1).len() && trim_start(s.skip(1)) == s.skip(1).skip(i);
        assert(s.skip(1).skip(i) == s.skip(i + 1));
    } else {
        assert(s.skip(0) == s);
    }
}

proof fn trim_end_piece(s: Seq<char>)
    ensures
        exists|j: int| 0 <= j <= s.len() && trim_end(s) == #[trigger] s.take(j),
        trim_end(s).len() > 0 ==> !is_space(trim_end(s).last()),
    decreases s.len(),
{
    if s.len() > 0 && is_space(s.last()) {
        trim_end_piece(s.drop_last());
        let j = choose|j: int|
            0 <= j <= s.drop_last().len() && trim_end(s.drop_last()) == s.drop_last().take(j);
        assert(s.drop_last().take(j) == s.take(j));
    } else {
        assert(s.take(s.len() as int) == s);
    }
}

/// An ASCII capital becomes its small letter; every other character stays.
pub open spec fn lower_char(c: char) -> char {
    if 'A' <= c <= 'Z' {
        ((c as u8) + 32) as u8 as char
    } else {
        c
    }
}

/// Every ASCII capital made small.
pub open spec fn lowered(s: Seq<char>) -> Seq<char> {
    s.map_values(|c: char| lower_char(c))
}

/// The string with every ASCII capital made small.
pub fn lowercase(s: &str) -> (r: String)
    ensures
        r@ == lowered(s@),
{
    let cs = chars_of(s);
    let mut out = String::new();
    let mut i: usize = 0;
    while i < cs.len()
        invariant
            i <= cs@.len(),
            out@ == lowered(cs@).take(i as int),
        decreases cs@.len() - i,
    {
        let c = cs[i];
        let d = if 'A' <= c && c <= 'Z' {
            (c as u8 + 32) as char
        } else {
            c
        };
        out.push(d);
        assert(lowered(cs@).take(i as int + 1) == lowered(cs@).take(i as int).push(d));
        i += 1;
    }
    assert(lowered(cs@).take(i as int) == lowered(cs@));
    out
}

/// An ASCII small letter becomes its capital; every other character stays.
pub open spec fn upper_char(c: char) -> char {
    if 'a' <= c <= 'z' {
        ((c as u8) - 32) as u8 as char
    } else {
        c
    }
}

/// Every ASCII small letter made a capital.
pub open spec fn uppered(s: Seq<char>) -> Seq<char> {
    s.map_values(|c: char| upper_char(c))
}

/// The string with every ASCII small letter made a capital.
pub fn uppercase(s: &str) -> (r: String)
    ensures
        r@ == uppered(s@),
{
    let cs = chars_of(s);
    let mut out = String::new();
    let mut i: usize = 0;
    while i < cs.len()
        invariant
            i <= cs@.len(),
            out@ == uppered(cs@).take(i as int),
        decreases cs@.len() - i,
    {
        let c = cs[i];
        let d = if 'a' <= c && c <= 'z' {
            (c as u8 - 32) as char
        } else {
            c
        };
        out.push(d);
        assert(uppered(cs@).take(i as int + 1) == uppered(cs@).take(i as int).push(d));
        i += 1;
    }
    assert(uppered(cs@).take(i as int) == uppered(cs@));
    out
}

/// The pieces between the occurrences of `sep`: always at least one.
pub open spec fn pieces(s: Seq<char>, sep: char) -> Seq<Seq<char>>
    decreases s.len(),
{
    if s.len() == 0 {
        seq![s]
    } else {
        let before = pieces(s.drop_last(), sep);
        if s.last() == sep {
            before.push(Seq::<char>::empty())
        } else {
            before.drop_last().push(before.last().push(s.last()))
        }
    }
}

/// Cuts a string at every occurrence of `sep`.
pub fn split(s: &str, sep: char) -> (r: Vec<String>)
    ensures
        texts(r@) == pieces(s@, sep),
{
    let cs = chars_of(s);
    let mut out: Vec<String> = Vec::new();
    let mut piece = String::new();
    let mut i: usize = 0;
    assert(cs@.take(0) == Seq::<char>::empty());
    assert(texts(out@).push(piece@) == pieces(cs@.take(0), sep));
    while i < cs.len()
        invariant
            i <= cs@.len(),
            texts(out@).push(piece@) == pieces(cs@.take(i as int), sep),
        decreases cs@.len() - i,
    {
        let ghost before = pieces(cs@.take(i as int), sep);
        assert(before.last() == piece@ && before.drop_last() == texts(out@));
        assert(cs@.take(i as int + 1).drop_last() == cs@.take(i as int));
        if cs[i] == sep {
            let ghost held = out@;
            out.push(piece);
            assert(texts(out@) == texts(held).push(piece@));
            piece = String::new();
        } else {
            piece.push(cs[i]);
        }
        assert(texts(out@).push(piece@) == pieces(cs@.take(i as int + 1), sep));
        i += 1;
    }
    assert(cs@.take(i as int) == cs@);
    let ghost held = out@;
    out.push(piece);
    assert(texts(out@) == texts(held).push(piece@));
    out
}

/// The parts with `sep` between each two of them.
pub open spec fn joined(parts: Seq<Seq<char>>, sep: Seq<char>) -> Seq<char>
    decreases parts.len(),
{
    if parts.len() == 0 {
        Seq::empty()
    } else if parts.len() == 1 {
        parts[0]
    } else {
        joined(parts.drop_last(), sep) + sep + parts.last()
    }
}

/// The strings of a list with `sep` between each two of them.
pub fn join(parts: &Vec<String>, sep: &str) -> (r: String)
    ensures
        r@ == joined(texts(parts@), sep@),
{
    let mut out = String::new();
    let mut i: usize = 0;
    assert(texts(parts@).take(0) == Seq::<Seq<char>>::empty());
    while i < parts.len()
        invariant
            i <= parts@.len(),
            out@ == joined(texts(parts@).take(i as int), sep@),
        decreases parts@.len() - i,
    {
        let ghost upto = texts(parts@).take(i as int + 1);
        assert(upto.drop_last() == texts(parts@).take(i as int));
        assert(upto.last() == parts@[i as int]@);
        if i > 0 {
            out.append(sep);
        } else {
            assert(out@ == Seq::<char>::empty());
        }
        out.append(parts[i].as_str());
        assert(i == 0 ==> out@ == parts@[0]@);
        i += 1;
    }
    assert(texts(parts@).take(i as int) == texts(parts@));
    out
}

/// The character of a decimal digit.
pub open spec fn digit(d: nat) -> char {
    ((48 + d) as u8) as char
}

/// A number in decimal, without leading zeros.
pub open spec fn decimal(n: nat) -> Seq<char>
    decreases n,
{
    if n < 10 {
        seq![digit(n)]
    } else {
        decimal(n / 10).push(digit(n % 10))
    }
}

/// No two numbers are written alike.
pub proof fn decimals_differ(a: nat, b: nat)
    requires
        decimal(a) == decimal(b),
    ensures
        a == b,
    decreases a,
{
    assert(decimal(a).last() == digit(a % 10));
    assert(decimal(b).last() == digit(b % 10));
    assert(a % 10 == b % 10);
    if a >= 10 && b >= 10 {
        assert(decimal(a).drop_last() == decimal(a / 10));
        assert(decimal(b).drop_last() == decimal(b / 10));
        decimals_differ(a / 10, b / 10);
    } else if a >= 10 {
        assert(decimal(a / 10).len() > 0);
    } else if b >= 10 {
        assert(decimal(b / 10).len() > 0);
    }
}

/// A number in decimal.
pub fn number(n: u128) -> (r: String)
    ensures
        r@ == decimal(n as nat),
    decreases n,
{
    let mut s = if n < 10 {
        String::new()
    } else {
        number(n / 10)
    };
    s.push((48u8 + (n % 10) as u8) as char);
    assert(n < 10 ==> s@ == seq![digit(n as nat)]);
    s
}

/// A signed number in decimal.
pub open spec fn signed_decimal(n: int) -> Seq<char> {
    if n < 0 {
        seq!['-'] + decimal((-n) as nat)
    } else {
        decimal(n as nat)
    }
}

/// Whether `s` begins with `prefix`.
pub open spec fn begins(s: Seq<char>, prefix: Seq<char>) -> bool {
    prefix.len() <= s.len() && s.take(prefix.len() as int) == prefix
}

/// What follows `prefix`, when the string begins with it.
pub fn strip_prefix(s: &str, prefix: &str) -> (r: Option<String>)
    ensures
        match r {
            Some(rest) => begins(s@, prefix@) && rest@ == s@.skip(prefix@.len() as int),
            None => !begins(s@, prefix@),
        },
{
    let cs = chars_of(s);
    let ps = chars_of(prefix);
    if ps.len() > cs.len() {
        return None;
    }
    let mut i: usize = 0;
    while i < ps.len()
        invariant
            i <= ps@.len() <= cs@.len(),
            cs@ == s@,
            ps@ == prefix@,
            cs@.take(i as int) == ps@.take(i as int),
        decreases ps@.len() - i,
    {
        if cs[i] != ps[i] {
            assert(cs@.take(ps@.len() as int)[i as int] != ps@[i as int]);
            return None;
        }
        assert(cs@.take(i as int + 1) == cs@.take(i as int).push(cs@[i as int]));
        assert(ps@.take(i as int + 1) == ps@.take(i as int).push(ps@[i as int]));
        i += 1;
    }
    assert(ps@.take(i as int) == ps@);
    assert(cs@.subrange(i as int, cs@.len() as int) == cs@.skip(i as int));
    Some(string_of(&cs, i, cs.len()))
}

/// Whether a character is a decimal digit.
pub open spec fn is_digit(c: char) -> bool {
    '0' <= c <= '9'
}

/// The number that a string of decimal digits stands for.
pub open spec fn digits_value(s: Seq<char>) -> Option<nat>
    decreases s.len(),
{
    if s.len() == 0 {
        Some(0)
    } else {
        match digits_value(s.drop_last()) {
            Some(v) if is_digit(s.last()) => Some((v * 10 + (s.last() as u32 - 48)) as nat),
            _ => None,
        }
    }
}

/// The `u64` that a text stands for: an optional `+` and at least one decimal
/// digit.
pub open spec fn u64_value(s: Seq<char>) -> Option<u64> {
    let digits = if s.len() > 0 && s[0] == '+' {
        s.skip(1)
    } else {
        s
    };
    match digits_value(digits) {
        Some(v) if digits.len() > 0 && v <= u64::MAX => Some(v as u64),
        _ => None,
    }
}

/// Reads a `u64`: an optional `+` and at least one decimal digit.
pub fn parse_u64(s: &str) -> (r: Option<u64>)
    ensures
        r == u64_value(s@),
{
    let cs = chars_of(s);
    let start: usize = if cs.len() > 0 && cs[0] == '+' {
        1
    } else {
        0
    };
    let ghost digits = if s@.len() > 0 && s@[0] == '+' {
        s@.skip(1)
    } else {
        s@
    };
    assert(digits == cs@.skip(start as int));
    if start == cs.len() {
        return None;
    }
    let mut value: u128 = 0;
    let mut fits = true;
    let mut i: usize = start;
    assert(digits.take(0) == Seq::<char>::empty());
    while i < cs.len()
        invariant
            start <= i <= cs@.len(),
            start <= 1,
            digits == cs@.skip(start as int),
            fits ==> value <= u64::MAX && digits_value(digits.take(i - start)) == Some(
                value as nat,
            ),
            !fits ==> match digits_value(digits.take(i - start)) {
                Some(v) => v > u64::MAX,
                None => true,
            },
        decreases cs@.len() - i,
    {
        let c = cs[i];
        assert(digits.take(i - start + 1).drop_last() == digits.take(i - start));
        assert(digits.take(i - start + 1).last() == c);
        if '0' <= c && c <= '9' {
            if fits {
                value = value * 10 + (c as u32 - 48) as u128;
                if value > u64::MAX as u128 {
                    fits = false;
                }
            }
        } else {
            fits = false;
        }
        i += 1;
    }
    assert(digits.take(i - start) == digits);
    if fits {
        Some(value as u64)
    } else {
        None
    }
}

/// A signed number in decimal.
pub fn signed_number(n: i64) -> (r: String)
    ensures
        r@ == signed_decimal(n as int),
{
    if n < 0 {
        let mut s = String::new();
        s.push('-');
        s.append(number((-(n as i128)) as u128).as_str());
        assert(s@ == signed_decimal(n as int));
        s
    } else {
        number(n as u128)
    }
}

/// White space is what Unicode calls so: these characters, and no other.
pub proof fn white_space_by_code(c: char)
    ensures
        is_space(c) <==> ({
            let code = c as u32;
            ||| code == 9 || code == 10 || code == 11 || code == 12 || code == 13
            ||| code == 32 || code == 133 || code == 160 || code == 5760
            ||| 8192 <= code <= 8202
            ||| code == 8232 || code == 8233 || code == 8239 || code == 8287 || code == 12288
        }),
{
}

/// Trimming takes white space off the two ends, all of it, and nothing else.
pub proof fn trimming_takes_white_space_off_the_ends(s: Seq<char>)
    ensures
        exists|i: int, j: int|
            0 <= i <= j <= s.len() && trimmed(s) == #[trigger] s.subrange(i, j) && (forall|k: int|
                0 <= k < i ==> is_space(#[trigger] s[k])) && (forall|k: int|
                j <= k < s.len() ==> is_space(#[trigger] s[k])),
        trimmed(s).len() > 0 ==> !is_space(trimmed(s)[0]) && !is_space(trimmed(s).last()),
{
    trimmed_piece(s);
    trim_start_is_space(s);
    let t = trim_start(s);
    trim_end_is_space(t);
    let i = choose|i: int|
        0 <= i <= s.len() && trim_start(s) == #[trigger] s.skip(i) && forall|k: int|
            0 <= k < i ==> is_space(#[trigger] s[k]);
    let j = choose|j: int|
        0 <= j <= t.len() && trim_end(t) == #[trigger] t.take(j) && forall|k: int|
            j <= k < t.len() ==> is_space(#[trigger] t[k]);
    assert(trimmed(s) =~= s.subrange(i, i + j));
    assert forall|k: int| i + j <= k < s.len() implies is_space(#[trigger] s[k]) by {
        assert(is_space(t[k - i]));
    }
}

proof fn trim_start_is_space(s: Seq<char>)
    ensures
        exists|i: int|
            0 <= i <= s.len() && trim_start(s) == #[trigger] s.skip(i) && forall|k: int|
                0 <= k < i ==> is_space(#[trigger] s[k]),
    decreases s.len(),
{
    if s.len() > 0 && is_space(s[0]) {
        let rest = s.skip(1);
        trim_start_is_space(rest);
        let i = choose|i: int|
            0 <= i <= rest.len() && trim_start(rest) == #[trigger] rest.skip(i) && forall|k: int|
                0 <= k < i ==> is_space(#[trigger] rest[k]);
        assert(rest.skip(i) =~= s.skip(i + 1));
        assert forall|k: int| 0 <= k < i + 1 implies is_space(#[trigger] s[k]) by {
            if k > 0 {
                assert(is_space(rest[k - 1]));
            }
        }
    } else {
        assert(s.skip(0) =~= s);
    }
}

proof fn trim_end_is_space(s: Seq<char>)
    ensures
        exists|j: int|
            0 <= j <= s.len() && trim_end(s) == #[trigger] s.take(j) && forall|k: int|
                j <= k < s.len() ==> is_space(#[trigger] s[k]),
    decreases s.len(),
{
    if s.len() > 0 && is_space(s.last()) {
        let rest = s.drop_last();
        trim_end_is_space(rest);
        let j = choose|j: int|
            0 <= j <= rest.len() && trim_end(rest) == #[trigger] rest.take(j) && forall|k: int|
                j <= k < rest.len() ==> is_space(#[trigger] rest[k]);
        assert(rest.take(j) =~= s.take(j));
        assert forall|k: int| j <= k < s.len() implies is_space(#[trigger] s[k]) by {
            if k < rest.len() {
                assert(is_space(rest[k]));
            }
        }
    } else {
        assert(s.take(s.len() as int) =~= s);
    }
}

/// Lowering changes the 26 ASCII capitals into their small letters, in place, and
/// nothing else.
pub proof fn lowering_changes_capitals_only(s: Seq<char>)
    ensures
        lowered(s).len() == s.len(),
        forall|i: int|
            #![trigger lowered(s)[i]]
            0 <= i < s.len() ==> lowered(s)[i] as u32 == if 65 <= s[i] as u32 <= 90 {
                s[i] as u32 + 32
            } else {
                s[i] as u32 as int
            },
{
}

/// Raising changes the 26 ASCII small letters into their capitals, in place, and
/// nothing else.
pub proof fn raising_changes_small_letters_only(s: Seq<char>)
    ensures
        uppered(s).len() == s.len(),
        forall|i: int|
            #![trigger uppered(s)[i]]
            0 <= i < s.len() ==> uppered(s)[i] as u32 == if 97 <= s[i] as u32 <= 122 {
                s[i] as u32 - 32
            } else {
                s[i] as u32 as int
            },
{
}

/// Cutting a text and putting the separator back between the pieces gives the text
/// again, and no piece holds the separator.
pub proof fn pieces_join_again(s: Seq<char>, sep: char)
    ensures
        pieces(s, sep).len() > 0,
        joined(pieces(s, sep), seq![sep]) == s,
        forall|i: int| 0 <= i < pieces(s, sep).len() ==> !(#[trigger] pieces(s, sep)[i]).contains(
            sep,
        ),
    decreases s.len(),
{
    let all = pieces(s, sep);
    let mark = seq![sep];
    if s.len() == 0 {
        assert(all[0] == s);
    } else {
        let front = s.drop_last();
        let before = pieces(front, sep);
        pieces_join_again(front, sep);
        assert(front.push(s.last()) =~= s);
        if s.last() == sep {
            assert(all.drop_last() =~= before);
            assert(all.last() =~= Seq::<char>::empty());
            assert(joined(all, mark) == joined(before, mark) + mark + Seq::<char>::empty());
            assert(front + mark + Seq::<char>::empty() =~= s);
            assert forall|i: int| 0 <= i < all.len() implies !(#[trigger] all[i]).contains(
                sep,
            ) by {
                if i < before.len() {
                    assert(all[i] == before[i]);
                }
            }
        } else {
            let last = before.last().push(s.last());
            assert(all.last() == last);
            assert(all.drop_last() =~= before.drop_last());
            if before.len() == 1 {
                assert(all.len() == 1 && all[0] == last);
                assert(joined(before, mark) == before[0]);
                assert(joined(all, mark) =~= s);
            } else {
                assert(joined(all, mark) == joined(before.drop_last(), mark) + mark + last);
                assert(joined(before, mark) == joined(before.drop_last(), mark) + mark
                    + before.last());
                assert(joined(all, mark) =~= joined(before, mark).push(s.last()));
            }
            assert forall|i: int| 0 <= i < all.len() implies !(#[trigger] all[i]).contains(
                sep,
            ) by {
                if i < before.len() - 1 {
                    assert(all[i] == before[i]);
                } else {
                    assert(!before[before.len() - 1].contains(sep));
                    assert(all[i] == last);
                    if last.contains(sep) {
                        let k = choose|k: int| 0 <= k < last.len() && last[k] == sep;
                        assert(before.last()[k] == sep);
                    }
                }
            }
        }
    }
}

/// Joining puts the separator between each two neighbours and nowhere else: two
/// lists joined, with one separator between, are the two of them joined.
pub proof fn joining_is_end_to_end(a: Seq<Seq<char>>, b: Seq<Seq<char>>, sep: Seq<char>)
    ensures
        joined(Seq::empty(), sep) == Seq::<char>::empty(),
        a.len() == 1 ==> joined(a, sep) == a[0],
        a.len() > 0 && b.len() > 0 ==> joined(a + b, sep) == joined(a, sep) + sep + joined(b, sep),
    decreases b.len(),
{
    if a.len() > 0 && b.len() > 0 {
        let front = b.drop_last();
        assert((a + b).drop_last() =~= a + front);
        assert((a + b).last() == b.last());
        if front.len() == 0 {
            assert(a + front =~= a);
            assert(b[0] == b.last());
        } else {
            joining_is_end_to_end(a, front, sep);
            assert(joined(a, sep) + sep + joined(front, sep) + sep + b.last() =~= joined(a, sep)
                + sep + (joined(front, sep) + sep + b.last()));
        }
    }
}

/// A number written in decimal reads back as itself; it is written with digits
/// only, and with no zero before another digit.
pub proof fn a_decimal_reads_back(n: nat)
    ensures
        digits_value(decimal(n)) == Some(n),
        decimal(n).len() > 0,
        forall|i: int| 0 <= i < decimal(n).len() ==> 48 <= #[trigger] decimal(n)[i] as u32 <= 57,
        decimal(n).len() > 1 ==> decimal(n)[0] != '0',
    decreases n,
{
    if n >= 10 {
        a_decimal_reads_back(n / 10);
        assert(decimal(n).drop_last() =~= decimal(n / 10));
        assert(decimal(n)[0] == decimal(n / 10)[0]);
        if n / 10 < 10 {
            assert(decimal(n / 10) == seq![digit(n / 10)]);
            assert(digit(n / 10) as u32 == 48 + n / 10);
        } else {
            a_decimal_reads_back(n / 10 / 10);
            assert(decimal(n / 10) == decimal(n / 10 / 10).push(digit(n / 10 % 10)));
        }
        assert forall|i: int| 0 <= i < decimal(n).len() implies 48 <= #[trigger] decimal(
            n,
        )[i] as u32 <= 57 by {
            if i < decimal(n / 10).len() {
                assert(decimal(n)[i] == decimal(n / 10)[i]);
            }
        }
    } else {
        assert(decimal(n).drop_last() =~= Seq::<char>::empty());
        assert(digits_value(Seq::<char>::empty()) == Some(0nat));
    }
}

/// Reading digits is place by place, ten to one, and stops at what is no digit.
pub proof fn digits_count_by_place(s: Seq<char>, c: char)
    ensures
        digits_value(Seq::empty()) == Some(0nat),
        48 <= c as u32 <= 57 && digits_value(s) is Some ==> digits_value(s.push(c)) == Some(
            (digits_value(s)->Some_0 * 10 + (c as u32 - 48)) as nat,
        ),
        !(48 <= c as u32 <= 57) ==> digits_value(s.push(c)) is None,
        digits_value(s) is None ==> digits_value(s.push(c)) is None,
{
    assert(s.push(c).drop_last() =~= s);
}

/// A `u64` is read from digits, with or without a plus sign before them, and from
/// nothing else: not from no digit, and not beyond its range.
pub proof fn a_whole_number_is_read_from_its_digits(s: Seq<char>, n: u64)
    ensures
        u64_value(decimal(n as nat)) == Some(n),
        u64_value(seq!['+'] + decimal(n as nat)) == Some(n),
        u64_value(Seq::empty()) is None,
        u64_value(seq!['+']) is None,
        s.len() > 0 && s[0] != '+' ==> (u64_value(s) is Some <==> digits_value(s) is Some
            && digits_value(s)->Some_0 <= u64::MAX),
        s.len() > 0 && s[0] != '+' && u64_value(s) is Some ==> u64_value(s)->Some_0
            == digits_value(s)->Some_0,
{
    a_decimal_reads_back(n as nat);
    let d = decimal(n as nat);
    assert(d[0] as u32 >= 48 && d[0] != '+');
    assert((seq!['+'] + d).skip(1) =~= d);
    assert(seq!['+'].skip(1) =~= Seq::<char>::empty());
}

/// A negative number is a minus sign and its size; any other is its size alone.
pub proof fn a_sign_stands_before_the_size(n: nat)
    ensures
        signed_decimal(n as int) == decimal(n),
        n > 0 ==> signed_decimal(-(n as int)) == seq!['-'] + decimal(n),
{
}

/// A text begins with another exactly when it is that one and something after it.
pub proof fn a_beginning_leaves_a_rest(s: Seq<char>, prefix: Seq<char>)
    ensures
        begins(s, prefix) <==> exists|rest: Seq<char>| s == #[trigger] (prefix + rest),
{
    if begins(s, prefix) {
        assert(s =~= prefix + s.skip(prefix.len() as int));
    }
    if exists|rest: Seq<char>| s == #[trigger] (prefix + rest) {
        let rest = choose|rest: Seq<char>| s == #[trigger] (prefix + rest);
        assert(s.take(prefix.len() as int) =~= prefix);
    }
}

/// A list of strings is, one for one, the list of their texts.
pub proof fn texts_are_one_for_one(v: Seq<String>)
    ensures
        texts(v).len() == v.len(),
        forall|i: int| 0 <= i < v.len() ==> #[trigger] texts(v)[i] == v[i]@,
{
}

} // verus!
