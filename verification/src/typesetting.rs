//! What holds of text that is cut, trimmed and set into lines.

use crate::layout;
use crate::layout::Area;
use crate::model::{AppModel, ScreenModel};
use crate::package::PkgInfo;
use crate::screen;
use crate::table;
use crate::text;
use vstd::prelude::*;
use vstd::utf8::*;

verus! {

/// The bytes of two strings, one behind the other, are those of the first and then
/// those of the second.
pub proof fn bytes_add_up(a: Seq<char>, b: Seq<char>)
    ensures
        encode_utf8(a + b) == encode_utf8(a) + encode_utf8(b),
        text::byte_len(a + b) == text::byte_len(a) + text::byte_len(b),
    decreases a.len(),
{
    if a.len() == 0 {
        assert(a + b =~= b);
        assert(encode_utf8(a) + encode_utf8(b) =~= encode_utf8(b));
    } else {
        bytes_add_up(a.drop_first(), b);
        assert((a + b).drop_first() =~= a.drop_first() + b);
        assert(encode_utf8(a + b) =~= encode_utf8(a) + encode_utf8(b));
    }
}

proof fn lemma_one_byte(c: char)
    requires
        c <= '\u{7f}',
    ensures
        text::byte_len(seq![c]) == 1,
{
    assert(is_ascii_chars(seq![c]));
    is_ascii_chars_encode_utf8(seq![c]);
}

/// A string that is too long is cut to one byte less than there is room for, and an
/// ellipsis takes the place of the rest.
pub proof fn cutting_keeps_the_beginning(s: Seq<char>, max: nat)
    requires
        text::can_trunc(s, max),
        text::byte_len(s) > max,
    ensures
        text::truncated(s, max).last() == '…',
        text::truncated(s, max).drop_last().is_prefix_of(s),
        text::byte_len(text::truncated(s, max).drop_last()) == text::cut_len(max),
{
    let bytes = encode_utf8(s);
    let i = text::cut_len(max) as int;
    let kept = decode_utf8(bytes.take(i));
    encode_utf8_valid_utf8(s);
    valid_utf8_split(bytes, i);
    decode_utf8_split(bytes, i);
    encode_utf8_decode_utf8(s);
    assert(bytes.take(i) =~= bytes.subrange(0, i));
    decode_utf8_encode_utf8(bytes.take(i));
    assert(text::truncated(s, max).drop_last() =~= kept);
    assert(kept =~= s.subrange(0, kept.len() as int));
}

/// Text of single-byte characters can be cut everywhere, and what is left of it
/// takes no more columns than there are, as long as there is one.
pub proof fn plain_text_can_be_cut(s: Seq<char>, max: nat)
    requires
        is_ascii_chars(s),
    ensures
        text::can_trunc(s, max),
        max > 0 ==> text::truncated(s, max).len() <= max,
{
    let bytes = encode_utf8(s);
    is_ascii_chars_encode_utf8(s);
    encode_utf8_valid_utf8(s);
    if text::byte_len(s) > max {
        let i = text::cut_len(max) as int;
        assert(!is_continuation_byte(bytes[i]));
        is_char_boundary_iff_not_is_continuation_byte(bytes, i);
        cutting_keeps_the_beginning(s, max);
        let kept = text::truncated(s, max).drop_last();
        assert(is_ascii_chars(kept)) by {
            assert forall|k: int| 0 <= k < kept.len() implies '\0' <= #[trigger] kept[k]
                <= '\u{7f}' by {
                assert(kept[k] == s[k]);
            }
        }
        is_ascii_chars_encode_utf8(kept);
    }
}

/// Text that is filled up takes exactly the columns that it is given, or what it
/// needs where it needs more.
pub proof fn padding_fills_the_column(s: Seq<char>, width: nat)
    ensures
        text::padded_right(s, width).len() == if s.len() < width {
            width
        } else {
            s.len()
        },
        text::padded_left(s, width).len() == text::padded_right(s, width).len(),
        s.is_prefix_of(text::padded_right(s, width)),
        s.is_suffix_of(text::padded_left(s, width)),
{
    let n = text::padding(s.len(), width);
    assert(s =~= text::padded_right(s, width).subrange(0, s.len() as int));
    assert(s =~= text::padded_left(s, width).subrange(n as int, (n + s.len()) as int));
}

/// Whether names and versions hold single-byte characters only.
pub open spec fn plain(pkgs: Seq<PkgInfo>) -> bool {
    forall|i: int|
        0 <= i < pkgs.len() ==> is_ascii_chars((#[trigger] pkgs[i]).name@) && is_ascii_chars(
            pkgs[i].version@,
        )
}

/// Packages whose names and versions hold single-byte characters only can be shown
/// on every screen, and so can every removal up to its end.
pub proof fn plain_packages_can_be_shown(s: AppModel, area: Area)
    requires
        s.wf(),
        plain(s.pkgs),
        s.screen matches ScreenModel::Removing { progress, .. } ==> progress <= 100,
    ensures
        !screen::cannot_be_shown(s, area),
{
    assert forall|list: Area| #[trigger] table::list_fits(s, list) by {
        let name_w = table::name_width(layout::inner(list, layout::BORDER_ALL).width);
        assert forall|k: int| 0 <= k < s.filtered.len() implies table::row_fits(
            s.pkgs[#[trigger] s.filtered[k] as int],
            name_w,
        ) by {
            crate::laws::listed_packages_exist(s, k);
            let p = s.pkgs[s.filtered[k] as int];
            plain_text_can_be_cut(p.name@, name_w);
            plain_text_can_be_cut(p.version@, table::VERSION_WIDTH as nat);
        }
    }
}

/// Whether `s` holds nothing but white space.
pub open spec fn blank(s: Seq<char>) -> bool {
    forall|i: int| 0 <= i < s.len() ==> text::is_white_space(#[trigger] s[i])
}

proof fn lemma_trimmed_start(s: Seq<char>) -> (a: Seq<char>)
    ensures
        blank(a),
        s == a + text::trimmed_start(s),
        text::trimmed_start(s).len() > 0 ==> !text::is_white_space(
            text::trimmed_start(s).first(),
        ),
    decreases s.len(),
{
    if s.len() > 0 && text::is_white_space(s.first()) {
        let a = lemma_trimmed_start(s.drop_first());
        assert(s =~= seq![s.first()] + s.drop_first());
        assert(s =~= (seq![s.first()] + a) + text::trimmed_start(s));
        seq![s.first()] + a
    } else {
        assert(s =~= Seq::<char>::empty() + s);
        Seq::empty()
    }
}

proof fn lemma_trimmed_end(s: Seq<char>) -> (b: Seq<char>)
    ensures
        blank(b),
        s == text::trimmed_end(s) + b,
        text::trimmed_end(s).len() > 0 ==> !text::is_white_space(text::trimmed_end(s).last()),
    decreases s.len(),
{
    if s.len() > 0 && text::is_white_space(s.last()) {
        let b = lemma_trimmed_end(s.drop_last());
        assert(s =~= s.drop_last().push(s.last()));
        assert(s =~= text::trimmed_end(s) + b.push(s.last()));
        b.push(s.last())
    } else {
        assert(s =~= s + Seq::<char>::empty());
        Seq::empty()
    }
}

/// Trimming takes off white space at the two ends and nothing else, and all of it.
pub proof fn trimming_takes_off_white_space(s: Seq<char>)
    ensures
        exists|a: Seq<char>, b: Seq<char>| #[trigger]
            blank(a) && #[trigger] blank(b) && s == a + text::trimmed(s) + b,
        text::trimmed(s).len() > 0 ==> !text::is_white_space(text::trimmed(s).first())
            && !text::is_white_space(text::trimmed(s).last()),
{
    let middle = text::trimmed_start(s);
    let a = lemma_trimmed_start(s);
    let b = lemma_trimmed_end(middle);
    assert(s =~= a + text::trimmed(s) + b);
    if text::trimmed(s).len() > 0 {
        assert(text::trimmed(s).first() == middle.first());
    }
    assert(blank(a) && blank(b));
}

proof fn lemma_split(s: Seq<char>)
    ensures
        forall|k: int|
            0 <= k < text::split_state(s).0.len() ==> is_word(
                #[trigger] text::split_state(s).0[k],
            ),
        text::split_state(s).1.len() > 0 ==> is_word(text::split_state(s).1),
        text::split_state(s).0.flatten() + text::split_state(s).1 == s.filter(
            |c: char| !text::is_white_space(c),
        ),
    decreases s.len(),
{
    reveal(Seq::filter);
    let f = |c: char| !text::is_white_space(c);
    if s.len() == 0 {
        assert(text::split_state(s).0.flatten() =~= Seq::<char>::empty());
        assert(s.filter(f) =~= Seq::<char>::empty());
    } else {
        let before = s.drop_last();
        let (done, word) = text::split_state(before);
        lemma_split(before);
        if f(s.last()) {
            assert(done.flatten() + word.push(s.last()) =~= (done.flatten() + word).push(s.last()));
        } else if word.len() > 0 {
            lemma_flatten_push(done, word);
            assert(done.push(word).flatten() + Seq::<char>::empty() =~= done.flatten() + word);
        }
    }
}

proof fn lemma_flatten_push(s: Seq<Seq<char>>, e: Seq<char>)
    ensures
        s.push(e).flatten() == s.flatten() + e,
    decreases s.len(),
{
    s.push(e).lemma_flatten_and_flatten_alt_are_equivalent();
    s.lemma_flatten_and_flatten_alt_are_equivalent();
    assert(s.push(e).drop_last() =~= s);
}

/// Whether `s` holds something, and no white space.
pub open spec fn is_word(s: Seq<char>) -> bool {
    s.len() > 0 && forall|i: int| 0 <= i < s.len() ==> !text::is_white_space(#[trigger] s[i])
}

/// The words of a text are free of white space, none is empty, and together they
/// hold all the rest of the text.
pub proof fn words_hold_all_but_white_space(s: Seq<char>)
    ensures
        forall|k: int| 0 <= k < text::words(s).len() ==> is_word(#[trigger] text::words(s)[k]),
        text::words(s).flatten() == s.filter(|c: char| !text::is_white_space(c)),
{
    lemma_split(s);
    let (done, word) = text::split_state(s);
    if word.len() > 0 {
        lemma_flatten_push(done, word);
    } else {
        assert(done.flatten() + word =~= done.flatten());
    }
}

/// `words` with one space between any two.
pub open spec fn spaced(words: Seq<Seq<char>>) -> Seq<char>
    decreases words.len(),
{
    if words.len() == 0 {
        Seq::empty()
    } else if words.len() == 1 {
        words[0]
    } else {
        spaced(words.drop_last()).push(' ') + words.last()
    }
}

proof fn lemma_wrap_state(words: Seq<Seq<char>>, width: nat)
    requires
        forall|k: int| 0 <= k < words.len() ==> (#[trigger] words[k]).len() > 0,
    ensures
        ({
            let (lines, line) = text::wrap_state(words, width);
            &&& words.len() > 0 <==> line.len() > 0
            &&& words.len() > 0 ==> spaced(lines.push(line)) == spaced(words)
            &&& words.len() == 0 ==> lines.len() == 0
            &&& line.len() > 0 ==> text::byte_len(line) <= width || words.contains(line)
            &&& forall|k: int|
                0 <= k < lines.len() ==> text::byte_len(#[trigger] lines[k]) <= width
                    || words.contains(lines[k])
        }),
    decreases words.len(),
{
    if words.len() > 0 {
        let before = words.drop_last();
        let word = words.last();
        let (lines, line) = text::wrap_state(before, width);
        let (new_lines, new_line) = text::wrap_state(words, width);
        assert forall|k: int| 0 <= k < before.len() implies (#[trigger] before[k]).len() > 0 by {
            assert(before[k] == words[k]);
        }
        lemma_wrap_state(before, width);
        assert(words[words.len() - 1] == word);
        assert forall|w: Seq<char>| before.contains(w) implies words.contains(w) by {
            let k = choose|k: int| 0 <= k < before.len() && before[k] == w;
            assert(words[k] == w);
        }
        if line.len() == 0 {
            assert(line + word =~= word);
            assert(lines.push(word) =~= seq![word]);
            assert(words =~= seq![word]);
        } else if text::byte_len(line) + text::byte_len(word) + 1 > width {
            assert(lines.push(line).push(word).drop_last() =~= lines.push(line));
            assert(spaced(lines.push(line).push(word)) == spaced(words));
        } else {
            let longer = line.push(' ') + word;
            bytes_add_up(line.push(' '), word);
            bytes_add_up(line, seq![' ']);
            assert(line.push(' ') =~= line + seq![' ']);
            lemma_one_byte(' ');
            assert(lines.push(longer).drop_last() =~= lines);
            assert(lines.push(line).drop_last() =~= lines);
            if lines.len() == 0 {
                assert(spaced(lines.push(longer)) == longer);
            } else {
                assert(spaced(lines).push(' ') + longer =~= (spaced(lines).push(' ') + line).push(
                    ' ',
                ) + word);
            }
        }
        assert forall|k: int| 0 <= k < new_lines.len() implies text::byte_len(
            #[trigger] new_lines[k],
        ) <= width || words.contains(new_lines[k]) by {
            if k < lines.len() {
                assert(new_lines[k] == lines[k]);
            }
        }
    }
}

/// Setting words into lines loses none and changes none: the lines, with a space
/// between any two, read as the words do. A line has more than `width` bytes only
/// where it is a single word.
pub proof fn wrapping_keeps_the_words(words: Seq<Seq<char>>, width: nat)
    requires
        forall|k: int| 0 <= k < words.len() ==> (#[trigger] words[k]).len() > 0,
    ensures
        spaced(text::wrapped(words, width)) == spaced(words),
        forall|k: int|
            0 <= k < text::wrapped(words, width).len() ==> text::byte_len(
                #[trigger] text::wrapped(words, width)[k],
            ) <= width || words.contains(text::wrapped(words, width)[k]),
{
    lemma_wrap_state(words, width);
}

/// The names, each with two spaces behind it.
pub open spec fn tokens(names: Seq<Seq<char>>) -> Seq<Seq<char>> {
    names.map_values(|n: Seq<char>| text::token(n))
}

proof fn lemma_rows_state(names: Seq<Seq<char>>, width: nat)
    ensures
        ({
            let (rows, row) = text::rows_state(names, width);
            &&& rows.flatten() + row == tokens(names).flatten()
            &&& row.len() > 0 ==> text::byte_len(row) <= width || tokens(names).contains(row)
            &&& forall|k: int|
                0 <= k < rows.len() ==> text::byte_len(#[trigger] rows[k]) <= width || tokens(
                    names,
                ).contains(rows[k])
        }),
    decreases names.len(),
{
    let all = tokens(names);
    if names.len() == 0 {
        assert(all =~= Seq::empty());
        assert(Seq::<Seq<char>>::empty().flatten() + Seq::<char>::empty() =~= Seq::<
            Seq<char>,
        >::empty().flatten());
    } else {
        let before = names.drop_last();
        let (rows, row) = text::rows_state(before, width);
        let (new_rows, new_row) = text::rows_state(names, width);
        let t = text::token(names.last());
        lemma_rows_state(before, width);
        assert(all =~= tokens(before).push(t));
        lemma_flatten_push(tokens(before), t);
        assert forall|w: Seq<char>| tokens(before).contains(w) implies all.contains(w) by {
            let k = choose|k: int| 0 <= k < tokens(before).len() && tokens(before)[k] == w;
            assert(all[k] == w);
        }
        assert(all[all.len() - 1] == t);
        bytes_add_up(row, t);
        if row.len() > 0 && text::byte_len(row) + text::byte_len(t) > width {
            lemma_flatten_push(rows, row);
        } else {
            assert((rows.flatten() + row) + t =~= rows.flatten() + (row + t));
            if row.len() == 0 {
                assert(row + t =~= t);
            }
        }
        assert forall|k: int| 0 <= k < new_rows.len() implies text::byte_len(
            #[trigger] new_rows[k],
        ) <= width || all.contains(new_rows[k]) by {
            if k < rows.len() {
                assert(new_rows[k] == rows[k]);
            }
        }
    }
}

/// Setting names into rows loses none and changes none: the rows, one behind the
/// other, read as the names do. A row has more than `width` bytes only where it
/// holds a single name.
pub proof fn rows_keep_the_names(names: Seq<Seq<char>>, width: nat)
    ensures
        text::name_rows(names, width).flatten() == tokens(names).flatten(),
        forall|k: int|
            0 <= k < text::name_rows(names, width).len() ==> text::byte_len(
                #[trigger] text::name_rows(names, width)[k],
            ) <= width || tokens(names).contains(text::name_rows(names, width)[k]),
{
    lemma_rows_state(names, width);
    let (rows, row) = text::rows_state(names, width);
    if row.len() > 0 {
        lemma_flatten_push(rows, row);
    } else {
        assert(rows.flatten() + row =~= rows.flatten());
    }
}

/// The number that is written in decimal notation as `s`.
pub open spec fn value(s: Seq<char>) -> int
    decreases s.len(),
{
    if s.len() == 0 {
        0
    } else {
        value(s.drop_last()) * 10 + (s.last() as int - '0' as int)
    }
}

/// A number in decimal notation reads back as the number.
pub proof fn decimals_read_back(n: nat)
    ensures
        value(text::decimal(n)) == n,
        text::decimal(n).len() > 0,
    decreases n,
{
    if n < 10 {
        assert(text::decimal(n).drop_last() =~= Seq::empty());
        assert(value(text::decimal(n).drop_last()) == 0);
    } else {
        decimals_read_back(n / 10);
        assert(text::decimal(n).drop_last() =~= text::decimal(n / 10));
    }
}

proof fn lemma_word(s: Seq<char>)
    requires
        forall|i: int| 0 <= i < s.len() ==> !text::is_white_space(#[trigger] s[i]),
    ensures
        text::split_state(s) == (Seq::<Seq<char>>::empty(), s),
    decreases s.len(),
{
    if s.len() > 0 {
        assert(!text::is_white_space(s[s.len() - 1]));
        lemma_word(s.drop_last());
        assert(s.drop_last().push(s.last()) =~= s);
    } else {
        assert(s =~= Seq::empty());
    }
}

proof fn lemma_split_at(a: Seq<char>, c: char, b: Seq<char>)
    requires
        text::is_white_space(c),
    ensures
        text::split_state(a.push(c) + b) == (
            text::words(a) + text::split_state(b).0,
            text::split_state(b).1,
        ),
    decreases b.len(),
{
    let s = a.push(c) + b;
    if b.len() == 0 {
        assert(s =~= a.push(c));
        assert(a.push(c).drop_last() =~= a);
        assert(text::words(a) + Seq::<Seq<char>>::empty() =~= text::words(a));
    } else {
        lemma_split_at(a, c, b.drop_last());
        assert(s.drop_last() =~= a.push(c) + b.drop_last());
        assert(s.last() == b.last());
        let (done, word) = text::split_state(b.drop_last());
        assert(text::words(a) + done.push(word) =~= (text::words(a) + done).push(word));
    }
}

/// White space separates words, wherever it stands; what holds none is one word.
pub proof fn white_space_separates_words(a: Seq<char>, c: char, b: Seq<char>)
    requires
        text::is_white_space(c),
    ensures
        text::words(a + seq![c] + b) == text::words(a) + text::words(b),
        text::words(Seq::empty()) == Seq::<Seq<char>>::empty(),
        is_word(a) ==> text::words(a) == seq![a],
{
    assert(a + seq![c] + b =~= a.push(c) + b);
    lemma_split_at(a, c, b);
    let (done, word) = text::split_state(b);
    assert(text::words(a) + done.push(word) =~= (text::words(a) + done).push(word));
    if is_word(a) {
        lemma_word(a);
        assert(text::words(a) =~= seq![a]);
    }
}

/// One word more: it goes onto the last line, behind a space, where the line then has
/// no more than `width` bytes, and onto a line of its own otherwise.
pub proof fn lines_are_filled_one_word_at_a_time(
    words: Seq<Seq<char>>,
    word: Seq<char>,
    width: nat,
)
    requires
        forall|k: int| 0 <= k < words.len() ==> (#[trigger] words[k]).len() > 0,
        word.len() > 0,
    ensures
        ({
            let before = text::wrapped(words, width);
            let after = text::wrapped(words.push(word), width);
            if words.len() == 0 {
                after == seq![word]
            } else {
                let longer = before.last() + seq![' '] + word;
                before.len() > 0 && after == if text::byte_len(longer) <= width {
                    before.drop_last() + seq![longer]
                } else {
                    before + seq![word]
                }
            }
        }),
{
    lemma_wrap_state(words, width);
    let (lines, line) = text::wrap_state(words, width);
    let before = text::wrapped(words, width);
    assert(words.push(word).drop_last() =~= words);
    if words.len() == 0 {
        assert(line + word =~= word);
        assert(lines.push(word) =~= seq![word]);
    } else {
        let longer = line + seq![' '] + word;
        assert(longer =~= line.push(' ') + word);
        bytes_add_up(line + seq![' '], word);
        bytes_add_up(line, seq![' ']);
        lemma_one_byte(' ');
        assert(before.drop_last() =~= lines);
        assert(before.drop_last() + seq![longer] =~= lines.push(longer));
        assert(before + seq![word] =~= before.push(word));
    }
}

/// One name more: with two spaces behind it, it goes onto the last row where the row
/// then has no more than `width` bytes, and onto a row of its own otherwise.
pub proof fn rows_are_filled_one_name_at_a_time(
    names: Seq<Seq<char>>,
    name: Seq<char>,
    width: nat,
)
    ensures
        text::name_rows(Seq::empty(), width) == Seq::<Seq<char>>::empty(),
        ({
            let before = text::name_rows(names, width);
            let after = text::name_rows(names.push(name), width);
            let token = name + seq![' ', ' '];
            if names.len() == 0 {
                after == seq![token]
            } else {
                let longer = before.last() + token;
                before.len() > 0 && after == if text::byte_len(longer) <= width {
                    before.drop_last() + seq![longer]
                } else {
                    before + seq![token]
                }
            }
        }),
{
    lemma_row_len(names, width);
    let (rows, row) = text::rows_state(names, width);
    let before = text::name_rows(names, width);
    let token = name + seq![' ', ' '];
    assert(names.push(name).drop_last() =~= names);
    bytes_add_up(row, token);
    if names.len() == 0 {
        assert(row + token =~= token);
        assert(rows.push(token) =~= seq![token]);
    } else {
        assert(before.drop_last() =~= rows);
        assert(before.drop_last() + seq![row + token] =~= rows.push(row + token));
        assert(before + seq![token] =~= before.push(token));
    }
}

proof fn lemma_row_len(names: Seq<Seq<char>>, width: nat)
    ensures
        names.len() > 0 <==> text::rows_state(names, width).1.len() > 0,
        names.len() == 0 ==> text::rows_state(names, width).0.len() == 0,
    decreases names.len(),
{
    if names.len() > 0 {
        lemma_row_len(names.drop_last(), width);
    }
}

/// A number in decimal notation is made of digits, and does not begin with a zero
/// unless it is zero.
pub proof fn decimals_are_made_of_digits(n: nat)
    ensures
        forall|k: int|
            0 <= k < text::decimal(n).len() ==> '0' <= #[trigger] text::decimal(n)[k] <= '9',
        text::decimal(n).len() > 0,
        n > 0 ==> text::decimal(n)[0] != '0',
        n == 0 ==> text::decimal(n) == seq!['0'],
    decreases n,
{
    if n >= 10 {
        decimals_are_made_of_digits(n / 10);
    }
}

/// Text is filled up with spaces and nothing else.
pub proof fn padding_is_made_of_spaces(s: Seq<char>, width: nat, k: int)
    ensures
        s.len() <= k < width ==> text::padded_right(s, width)[k] == ' ',
        0 <= k < width - s.len() ==> text::padded_left(s, width)[k] == ' ',
        0 <= k < s.len() ==> text::padded_right(s, width)[k] == s[k],
        0 <= k < s.len() ==> text::padded_left(s, width)[text::padded_left(s, width).len()
            - s.len() + k] == s[k],
{
}

/// A character that is repeated.
pub proof fn repetitions_hold_one_character(c: char, n: nat, k: int)
    ensures
        text::repeated(c, n).len() == n,
        0 <= k < n ==> text::repeated(c, n)[k] == c,
{
}

/// A string that fits is not cut.
pub proof fn what_fits_is_not_cut(s: Seq<char>, max: nat)
    requires
        text::byte_len(s) <= max,
    ensures
        text::can_trunc(s, max),
        text::truncated(s, max) == s,
{
}

/// A string that does not fit can be cut exactly where some of its characters, from
/// the first on, take one byte less than there is room for.
pub proof fn strings_are_cut_between_characters(s: Seq<char>, max: nat)
    requires
        text::byte_len(s) > max,
    ensures
        text::can_trunc(s, max) <==> exists|k: int|
            0 <= k <= s.len() && text::byte_len(#[trigger] s.take(k)) == if max == 0 {
                0
            } else {
                max - 1
            },
{
    if text::can_trunc(s, max) {
        cutting_keeps_the_beginning(s, max);
        let kept = text::truncated(s, max).drop_last();
        assert(s.take(kept.len() as int) =~= kept);
    }
    if exists|k: int|
        0 <= k <= s.len() && text::byte_len(#[trigger] s.take(k)) == text::cut_len(max) {
        let k = choose|k: int|
            0 <= k <= s.len() && text::byte_len(#[trigger] s.take(k)) == text::cut_len(max);
        assert(s =~= s.take(k) + s.skip(k));
        lemma_boundary(s.take(k), s.skip(k));
    }
}

proof fn lemma_boundary(a: Seq<char>, b: Seq<char>)
    ensures
        is_char_boundary(encode_utf8(a + b), encode_utf8(a).len() as int),
    decreases a.len(),
{
    encode_utf8_valid_utf8(a + b);
    if a.len() > 0 {
        let rest = a.drop_first();
        lemma_boundary(rest, b);
        bytes_add_up(a, b);
        encode_utf8_first_scalar(a + b);
        assert((a + b).drop_first() =~= rest + b);
        assert((a + b)[0] == a[0]);
        assert(pop_first_scalar(encode_utf8(a + b)) =~= encode_utf8(rest + b));
    } else {
        is_char_boundary_start_end_of_seq(encode_utf8(a + b));
    }
}

/// A string occurs in another exactly where the other is made of something, the
/// string, and something again.
pub proof fn parts_have_something_around_them(part: Seq<char>, s: Seq<char>)
    ensures
        text::occurs(part, s) <==> exists|a: Seq<char>, b: Seq<char>| s == #[trigger] ((a
            + part) + b),
{
    if text::occurs(part, s) {
        let i = choose|i: int|
            0 <= i <= s.len() - part.len() && #[trigger] s.subrange(i, i + part.len()) == part;
        let a = s.take(i);
        let b = s.skip(i + part.len());
        assert(s =~= (a + part) + b) by {
            assert forall|k: int| 0 <= k < part.len() implies s[i + k] == part[k] by {
                assert(s.subrange(i, i + part.len())[k] == s[i + k]);
            }
        }
    }
    if exists|a: Seq<char>, b: Seq<char>| s == #[trigger] ((a + part) + b) {
        let (a, b) = choose|a: Seq<char>, b: Seq<char>| s == #[trigger] ((a + part) + b);
        assert(s.subrange(a.len() as int, (a.len() + part.len()) as int) =~= part);
    }
}

/// In lower case, ASCII text has the small letters in place of the capital ones, and
/// is otherwise the same.
pub proof fn plain_text_in_lower_case(s: Seq<char>, k: int)
    requires
        is_ascii_chars(s),
        0 <= k < s.len(),
    ensures
        text::lowered(s).len() == s.len(),
        'A' <= s[k] <= 'Z' ==> text::lowered(s)[k] as int == s[k] as int + 32,
        !('A' <= s[k] <= 'Z') ==> text::lowered(s)[k] == s[k],
{
}

/// The views of a list are those of its elements, one for each, in order.
pub proof fn views_leave_nothing_out<T: View>(s: Seq<T>, k: int)
    ensures
        text::views(s).len() == s.len(),
        0 <= k < s.len() ==> text::views(s)[k] == s[k]@,
{
}

} // verus!
