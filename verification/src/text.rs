//! Strings: the standard library's operations that the rest of the crate needs,
//! decimal numbers, padding, trimming, splitting and shortening.

use vstd::prelude::*;
use vstd::string::StringExecFns;
use vstd::string::StrSliceExecFns;
use vstd::utf8::*;

verus! {

/// The views of the elements of `s`, in order.
pub open spec fn views<T: View>(s: Seq<T>) -> Seq<T::V> {
    s.map_values(|t: T| t@)
}

/// Appends `t` to `v`.
pub fn push_view<T: View>(v: &mut Vec<T>, t: T)
    ensures
        final(v)@ == old(v)@.push(t),
        views(final(v)@) == views(old(v)@).push(t@),
{
    v.push(t);
    assert(views(v@) =~= views(old(v)@).push(t@));
}

/// Moves all of `more` behind the elements of `v`.
pub fn append_views<T: View>(v: &mut Vec<T>, more: Vec<T>)
    ensures
        final(v)@ == old(v)@ + more@,
        views(final(v)@) == views(old(v)@) + views(more@),
{
    let mut rest = more;
    v.append(&mut rest);
    assert(views(v@) =~= views(old(v)@) + views(more@));
}

/// The number of bytes of the UTF-8 encoding of `s`.
pub open spec fn byte_len(s: Seq<char>) -> nat {
    encode_utf8(s).len()
}

/// `n` times the character `c`.
pub open spec fn repeated(c: char, n: nat) -> Seq<char> {
    Seq::new(n, |i: int| c)
}

/// The characters with the Unicode property `White_Space`.
pub open spec fn is_white_space(c: char) -> bool {
    ||| '\u{9}' <= c <= '\u{d}'
    ||| c == '\u{20}'
    ||| c == '\u{85}'
    ||| c == '\u{a0}'
    ||| c == '\u{1680}'
    ||| '\u{2000}' <= c <= '\u{200a}'
    ||| c == '\u{2028}'
    ||| c == '\u{2029}'
    ||| c == '\u{202f}'
    ||| c == '\u{205f}'
    ||| c == '\u{3000}'
}

/// What `str::to_lowercase` makes of a string with these characters.
pub uninterp spec fn lowercase(s: Seq<char>) -> Seq<char>;

/// `c`, or the small letter where it is one of the letters `A` to `Z`.
pub open spec fn ascii_lower(c: char) -> char {
    if 'A' <= c <= 'Z' {
        (c as int + 32) as char
    } else {
        c
    }
}

/// `s` with small letters in place of the letters `A` to `Z`.
pub open spec fn ascii_lowered(s: Seq<char>) -> Seq<char> {
    s.map_values(|c: char| ascii_lower(c))
}

/// `s` in lower case.
pub open spec fn lowered(s: Seq<char>) -> Seq<char> {
    if is_ascii_chars(s) {
        ascii_lowered(s)
    } else {
        lowercase(s)
    }
}

/// Whether `part` stands somewhere in `s`, without a gap.
pub open spec fn occurs(part: Seq<char>, s: Seq<char>) -> bool {
    exists|i: int|
        0 <= i <= s.len() - part.len() && #[trigger] s.subrange(i, i + part.len()) == part
}

/// `String::push` appends one character.
pub assume_specification[ String::push ](s: &mut String, ch: char)
    ensures
        final(s)@ == old(s)@.push(ch),
;

/// `String::pop` removes the last character and returns it, or returns `None`
/// and changes nothing where there is none.
pub assume_specification[ String::pop ](s: &mut String) -> (r: Option<char>)
    ensures
        old(s)@.len() == 0 ==> r == None::<char> && final(s)@ == old(s)@,
        old(s)@.len() > 0 ==> r == Some(old(s)@.last()) && final(s)@ == old(s)@.drop_last(),
;

/// `char::is_whitespace` tells whether a character has the Unicode property
/// `White_Space`.
pub assume_specification[ char::is_whitespace ](c: char) -> (r: bool)
    ensures
        r == is_white_space(c),
;

/// `str::to_lowercase` returns the lowercase equivalent of a string, which
/// depends on its characters alone. In a string of ASCII characters it replaces
/// the letters `A` to `Z`, each by its small letter, and nothing else.
pub assume_specification[ str::to_lowercase ](s: &str) -> (r: String)
    ensures
        r@ == lowercase(s@),
        is_ascii_chars(s@) ==> r@ == ascii_lowered(s@),
;

/// `str::contains`, given a string as the pattern, tells whether the pattern
/// is a part of the string.
#[verifier::external_body]
pub(crate) fn str_contains(s: &str, part: &str) -> (r: bool)
    ensures
        r == occurs(part@, s@),
{
    s.contains(part)
}

/// The characters of `s`.
pub fn chars_of(s: &str) -> (r: Vec<char>)
    ensures
        r@ == s@,
{
    let mut r: Vec<char> = Vec::new();
    for c in it: s.chars()
        invariant
            it.seq() == s@,
            r@ == s@.take(it.index() as int),
    {
        assert(s@.take(it.index() as int).push(c) =~= s@.take(it.index() as int + 1));
        r.push(c);
    }
    assert(s@.take(s@.len() as int) =~= s@);
    r
}

/// Whether `a` and `b` hold the same characters.
pub fn same(a: &str, b: &str) -> (r: bool)
    ensures
        r == (a@ == b@),
{
    a.to_owned() == b.to_owned()
}

/// Whether `s` begins with `prefix`.
pub fn starts_with(s: &str, prefix: &str) -> (r: bool)
    ensures
        r == prefix@.is_prefix_of(s@),
{
    let cs = chars_of(s);
    let ps = chars_of(prefix);
    if ps.len() > cs.len() {
        return false;
    }
    let mut i: usize = 0;
    while i < ps.len()
        invariant
            i <= ps.len() <= cs.len(),
            ps@ == prefix@,
            cs@ == s@,
            forall|k: int| 0 <= k < i ==> ps@[k] == cs@[k],
        decreases ps.len() - i,
    {
        if ps[i] != cs[i] {
            assert(s@.subrange(0, prefix@.len() as int)[i as int] != prefix@[i as int]);
            return false;
        }
        i += 1;
    }
    assert(prefix@ =~= s@.subrange(0, prefix@.len() as int));
    true
}

/// `s` without the white space at its start.
pub open spec fn trimmed_start(s: Seq<char>) -> Seq<char>
    decreases s.len(),
{
    if s.len() > 0 && is_white_space(s.first()) {
        trimmed_start(s.drop_first())
    } else {
        s
    }
}

/// `s` without the white space at its end.
pub open spec fn trimmed_end(s: Seq<char>) -> Seq<char>
    decreases s.len(),
{
    if s.len() > 0 && is_white_space(s.last()) {
        trimmed_end(s.drop_last())
    } else {
        s
    }
}

/// `s` without the white space at its two ends.
pub open spec fn trimmed(s: Seq<char>) -> Seq<char> {
    trimmed_end(trimmed_start(s))
}

/// `s` without the white space at its two ends.
pub fn trim(s: &str) -> (r: String)
    ensures
        r@ == trimmed(s@),
{
    let cs = chars_of(s);
    let n: usize = cs.len();
    let mut i: usize = 0;
    assert(cs@.subrange(0, n as int) =~= s@);
    while i < n && cs[i].is_whitespace()
        invariant
            i <= n,
            n == cs@.len(),
            trimmed_start(s@) == trimmed_start(cs@.subrange(i as int, n as int)),
        decreases n - i,
    {
        assert(cs@.subrange(i as int, n as int).drop_first() =~= cs@.subrange(
            i as int + 1,
            n as int,
        ));
        i += 1;
    }
    let mut j: usize = n;
    while i < j && cs[j - 1].is_whitespace()
        invariant
            i <= j <= n,
            n == cs@.len(),
            trimmed(s@) == trimmed_end(cs@.subrange(i as int, j as int)),
        decreases j,
    {
        assert(cs@.subrange(i as int, j as int).drop_last() =~= cs@.subrange(
            i as int,
            j as int - 1,
        ));
        j -= 1;
    }
    let mut r = String::new();
    let mut k: usize = i;
    while k < j
        invariant
            i <= k <= j <= n,
            n == cs@.len(),
            r@ == cs@.subrange(i as int, k as int),
        decreases j - k,
    {
        r.push(cs[k]);
        assert(r@ =~= cs@.subrange(i as int, k as int + 1));
        k += 1;
    }
    r
}

/// The whole words of `s`, and the characters behind the last white space.
pub open spec fn split_state(s: Seq<char>) -> (Seq<Seq<char>>, Seq<char>)
    decreases s.len(),
{
    if s.len() == 0 {
        (Seq::empty(), Seq::empty())
    } else {
        let (done, word) = split_state(s.drop_last());
        if !is_white_space(s.last()) {
            (done, word.push(s.last()))
        } else if word.len() > 0 {
            (done.push(word), Seq::empty())
        } else {
            (done, word)
        }
    }
}

/// The longest parts of `s` without white space, in order.
pub open spec fn words(s: Seq<char>) -> Seq<Seq<char>> {
    let (done, word) = split_state(s);
    if word.len() > 0 {
        done.push(word)
    } else {
        done
    }
}

/// Splits `s` at its white space.
pub fn split_words(s: &str) -> (r: Vec<String>)
    ensures
        views(r@) == words(s@),
{
    let cs = chars_of(s);
    let mut done: Vec<String> = Vec::new();
    let mut word = String::new();
    let mut i: usize = 0;
    assert(views(done@) =~= Seq::<Seq<char>>::empty());
    while i < cs.len()
        invariant
            i <= cs.len(),
            cs@ == s@,
            (views(done@), word@) == split_state(s@.take(i as int)),
        decreases cs.len() - i,
    {
        assert(s@.take(i as int + 1).drop_last() =~= s@.take(i as int));
        if !cs[i].is_whitespace() {
            word.push(cs[i]);
        } else if !word.as_str().is_empty() {
            push_view(&mut done, word);
            word = String::new();
        }
        i += 1;
    }
    assert(s@.take(s@.len() as int) =~= s@);
    if !word.as_str().is_empty() {
        push_view(&mut done, word);
    }
    done
}

/// The decimal digit `d`.
pub open spec fn digit(d: nat) -> char {
    (('0' as nat) + d) as char
}

/// `n` in decimal notation.
pub open spec fn decimal(n: nat) -> Seq<char>
    decreases n,
{
    if n < 10 {
        seq![digit(n)]
    } else {
        decimal(n / 10).push(digit(n % 10))
    }
}

/// The decimal digit `d`.
pub fn digit_char(d: u8) -> (c: char)
    requires
        d < 10,
    ensures
        c == digit(d as nat),
{
    match d {
        0 => '0',
        1 => '1',
        2 => '2',
        3 => '3',
        4 => '4',
        5 => '5',
        6 => '6',
        7 => '7',
        8 => '8',
        _ => '9',
    }
}

/// `n` in decimal notation.
pub fn to_decimal(n: u128) -> (r: String)
    ensures
        r@ == decimal(n as nat),
    decreases n,
{
    if n < 10 {
        let mut r = String::new();
        r.push(digit_char(n as u8));
        assert(r@ =~= seq![digit(n as nat)]);
        r
    } else {
        let mut r = to_decimal(n / 10);
        r.push(digit_char((n % 10) as u8));
        r
    }
}

/// `n` times the character `c`.
pub fn repeat(c: char, n: usize) -> (r: String)
    ensures
        r@ == repeated(c, n as nat),
{
    let mut r = String::new();
    let mut i: usize = 0;
    while i < n
        invariant
            i <= n,
            r@ == repeated(c, i as nat),
        decreases n - i,
    {
        r.push(c);
        i += 1;
        assert(r@ =~= repeated(c, i as nat));
    }
    assert(r@ =~= repeated(c, n as nat));
    r
}

/// The number of spaces that bring a string of `len` characters to `width`.
pub open spec fn padding(len: nat, width: nat) -> nat {
    if len < width {
        (width - len) as nat
    } else {
        0
    }
}

/// `s`, filled up with spaces behind it to `width` characters.
pub open spec fn padded_right(s: Seq<char>, width: nat) -> Seq<char> {
    s + repeated(' ', padding(s.len(), width))
}

/// `s`, filled up with spaces before it to `width` characters.
pub open spec fn padded_left(s: Seq<char>, width: nat) -> Seq<char> {
    repeated(' ', padding(s.len(), width)) + s
}

/// `s`, filled up with spaces behind it to `width` characters.
pub fn pad_right(s: &str, width: usize) -> (r: String)
    ensures
        r@ == padded_right(s@, width as nat),
{
    let len: usize = s.unicode_len();
    s.to_owned().concat(repeat(' ', width.saturating_sub(len)).as_str())
}

/// `s`, filled up with spaces before it to `width` characters.
pub fn pad_left(s: &str, width: usize) -> (r: String)
    ensures
        r@ == padded_left(s@, width as nat),
{
    let len: usize = s.unicode_len();
    repeat(' ', width.saturating_sub(len)).concat(s)
}

/// The number of bytes that are left of a string that is cut to `max`.
pub open spec fn cut_len(max: nat) -> nat {
    if max > 0 {
        (max - 1) as nat
    } else {
        0
    }
}

/// Whether `s` is no longer than `max` bytes or can be cut there without
/// splitting a character.
pub open spec fn can_trunc(s: Seq<char>, max: nat) -> bool {
    byte_len(s) <= max || is_char_boundary(encode_utf8(s), cut_len(max) as int)
}

/// `s`, cut so that at most `max` columns of single bytes are left, the last one
/// an ellipsis, where `s` is longer than that.
pub open spec fn truncated(s: Seq<char>, max: nat) -> Seq<char> {
    if byte_len(s) <= max {
        s
    } else {
        decode_utf8(encode_utf8(s).take(cut_len(max) as int)).push('…')
    }
}

/// Whether [`trunc`] can shorten `s` to `max`.
pub fn truncatable(s: &str, max: usize) -> (r: bool)
    ensures
        r == can_trunc(s@, max as nat),
{
    let len: usize = s.as_bytes().len();
    len <= max || s.is_char_boundary(max.saturating_sub(1))
}

/// Shortens `s` to `max` bytes, the last of them replaced by an ellipsis.
pub fn trunc(s: &str, max: usize) -> (r: String)
    requires
        can_trunc(s@, max as nat),
    ensures
        r@ == truncated(s@, max as nat),
{
    let len: usize = s.as_bytes().len();
    if len <= max {
        s.to_owned()
    } else {
        let parts = s.split_at(max.saturating_sub(1));
        proof {
            encode_utf8_decode_utf8(parts.0@);
            assert(encode_utf8(parts.0@) =~= encode_utf8(s@).take(cut_len(max as nat) as int));
        }
        let mut r = parts.0.to_owned();
        r.push('…');
        r
    }
}

/// The filled lines, and the line that is being filled, when `words` are set
/// into lines of `width` bytes.
pub open spec fn wrap_state(words: Seq<Seq<char>>, width: nat) -> (Seq<Seq<char>>, Seq<char>)
    decreases words.len(),
{
    if words.len() == 0 {
        (Seq::empty(), Seq::empty())
    } else {
        let (lines, line) = wrap_state(words.drop_last(), width);
        let word = words.last();
        if line.len() == 0 {
            (lines, line + word)
        } else if byte_len(line) + byte_len(word) + 1 > width {
            (lines.push(line), word)
        } else {
            (lines, line.push(' ') + word)
        }
    }
}

/// `words` set into lines: a word goes behind the words before it, after a
/// space, as long as the line has no more than `width` bytes.
pub open spec fn wrapped(words: Seq<Seq<char>>, width: nat) -> Seq<Seq<char>> {
    let (lines, line) = wrap_state(words, width);
    if line.len() > 0 {
        lines.push(line)
    } else {
        lines
    }
}

/// Sets the words of `s` into lines of at most `width` bytes.
pub fn wrap(s: &str, width: usize) -> (r: Vec<String>)
    ensures
        views(r@) == wrapped(words(s@), width as nat),
{
    let ws = split_words(s);
    let mut lines: Vec<String> = Vec::new();
    let mut line = String::new();
    let mut i: usize = 0;
    assert(views(lines@) =~= Seq::<Seq<char>>::empty());
    while i < ws.len()
        invariant
            i <= ws.len(),
            views(ws@) == words(s@),
            (views(lines@), line@) == wrap_state(words(s@).take(i as int), width as nat),
        decreases ws.len() - i,
    {
        let word = ws[i].as_str();
        assert(words(s@).take(i as int + 1).drop_last() =~= words(s@).take(i as int));
        assert(words(s@).take(i as int + 1).last() == word@);
        let line_len: usize = line.as_str().as_bytes().len();
        let word_len: usize = word.as_bytes().len();
        if !line.as_str().is_empty() && line_len as u128 + word_len as u128 + 1 > width as u128 {
            push_view(&mut lines, line);
            line = String::new();
        }
        if !line.as_str().is_empty() {
            line.push(' ');
        }
        line.append(word);
        assert(Seq::<char>::empty() + word@ =~= word@);
        i += 1;
    }
    assert(words(s@).take(words(s@).len() as int) =~= words(s@));
    if !line.as_str().is_empty() {
        push_view(&mut lines, line);
    }
    lines
}

/// A name as it stands in a row of names.
pub open spec fn token(name: Seq<char>) -> Seq<char> {
    name + seq![' ', ' ']
}

/// The filled rows, and the row that is being filled, when `names` are set into
/// rows of `width` bytes.
pub open spec fn rows_state(names: Seq<Seq<char>>, width: nat) -> (Seq<Seq<char>>, Seq<char>)
    decreases names.len(),
{
    if names.len() == 0 {
        (Seq::empty(), Seq::empty())
    } else {
        let (rows, row) = rows_state(names.drop_last(), width);
        let t = token(names.last());
        if row.len() > 0 && byte_len(row) + byte_len(t) > width {
            (rows.push(row), t)
        } else {
            (rows, row + t)
        }
    }
}

/// `names` set into rows, two spaces behind each: a name goes into the row of
/// the name before it as long as the row has no more than `width` bytes.
pub open spec fn name_rows(names: Seq<Seq<char>>, width: nat) -> Seq<Seq<char>> {
    let (rows, row) = rows_state(names, width);
    if row.len() > 0 {
        rows.push(row)
    } else {
        rows
    }
}

/// Sets `names` into rows of at most `width` bytes, two spaces behind each name.
pub fn rows_of(names: &Vec<String>, width: usize) -> (r: Vec<String>)
    ensures
        views(r@) == name_rows(views(names@), width as nat),
{
    let mut rows: Vec<String> = Vec::new();
    let mut row = String::new();
    let mut i: usize = 0;
    let ghost all = views(names@);
    assert(views(rows@) =~= Seq::<Seq<char>>::empty());
    while i < names.len()
        invariant
            i <= names.len(),
            all == views(names@),
            (views(rows@), row@) == rows_state(all.take(i as int), width as nat),
        decreases names.len() - i,
    {
        assert(all.take(i as int + 1).drop_last() =~= all.take(i as int));
        let mut t = names[i].clone();
        t.push(' ');
        t.push(' ');
        assert(t@ =~= token(all.take(i as int + 1).last()));
        let row_len: usize = row.as_str().as_bytes().len();
        let t_len: usize = t.as_str().as_bytes().len();
        if !row.as_str().is_empty() && row_len as u128 + t_len as u128 > width as u128 {
            push_view(&mut rows, row);
            row = String::new();
        }
        row.append(t.as_str());
        assert(Seq::<char>::empty() + t@ =~= t@);
        i += 1;
    }
    assert(all.take(all.len() as int) =~= all);
    if !row.as_str().is_empty() {
        push_view(&mut rows, row);
    }
    rows
}

} // verus!
