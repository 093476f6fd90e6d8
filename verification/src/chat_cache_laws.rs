//! What a written chat cache reads back as: [`lemma_file_round_trips`] states, for every set of
//! windows, colour rows and joined channels whose text the grammar can carry, exactly what
//! [`crate::chat_cache::parse`] answers on what [`crate::chat_cache::render`] wrote.

use vstd::prelude::*;
use vstd::string::*;

use crate::chat_cache::{
    add_zone_rows, apply_key, apply_keys, blank_line, boot_look, byte_value, custom_lines, decimal,
    digit_char, dock_number, dock_value, flag_digit, flag_value, flush, key_value, line, mask_value,
    name_line, pieces, read_line, read_lines, rgba_text, signed_decimal, size_value, string_lines,
    color_line, color_lines, colors_part, fresh_read, joined_part, parsed, preamble, rendered, rgb_text, top_section, ChatTypeColorView,
    MessageGroupView, ParsedView, header_text, HEADER_1, HEADER_2, HEADER_3, HEADER_4, HEADER_5, HEADER_6, top_line, window_block, window_blocks, window_head, window_lists, word_at, zone_channels_only, zone_mask, Block, ReadState,
};
use crate::text::{
    all_digits, ascii_folded, ascii_upper, digits_upto, digits_value, eq_ignore_ascii_case, is_white_space,
    parse_i32, parse_unsigned_upto, trim, trim_end, trim_start, unsigned_digits, words,
};
use crate::chat_cache::ChatWindowLookView;

verus! {

/// Empty, or ending in a line feed: a run of whole lines.
pub open spec fn ends_line(t: Seq<char>) -> bool {
    t.len() == 0 || t.last() == '\n'
}

pub open spec fn no_newline(x: Seq<char>) -> bool {
    forall|k: int| 0 <= k < x.len() ==> #[trigger] x[k] != '\n'
}

/// A non-empty run of non-whitespace characters.
pub open spec fn is_word(w: Seq<char>) -> bool {
    &&& w.len() > 0
    &&& forall|k: int| 0 <= k < w.len() ==> !is_white_space(#[trigger] w[k])
}

/// The reader's state after these lines, from `st`.
pub open spec fn run(
    st: ReadState,
    lines: Seq<Seq<char>>,
    stock: Seq<ChatWindowLookView>,
    rows: Seq<(u32, Seq<char>)>,
) -> ReadState
    decreases lines.len(),
{
    if lines.len() == 0 {
        st
    } else {
        read_line(run(st, lines.drop_last(), stock, rows), lines.last(), stock, rows)
    }
}

/// The reader's state after the whole lines of `t`, from `st`.
pub open spec fn feed(
    st: ReadState,
    t: Seq<char>,
    stock: Seq<ChatWindowLookView>,
    rows: Seq<(u32, Seq<char>)>,
) -> ReadState {
    run(st, pieces(t).drop_last(), stock, rows)
}

proof fn lemma_pieces_nonempty(s: Seq<char>)
    ensures
        pieces(s).len() >= 1,
    decreases s.len(),
{
    if s.len() > 0 {
        lemma_pieces_nonempty(s.drop_last());
    }
}

proof fn lemma_pieces_concat(a: Seq<char>, b: Seq<char>)
    requires
        a.len() > 0,
        a.last() == '\n',
    ensures
        pieces(a + b) == pieces(a).drop_last() + pieces(b),
    decreases b.len(),
{
    if b.len() == 0 {
        assert(a + b =~= a);
        assert(a.drop_last() + seq!['\n'] =~= a);
        assert(pieces(a).drop_last() + pieces(b) =~= pieces(a));
    } else {
        let c = a + b;
        let bd = b.drop_last();
        assert(c.drop_last() =~= a + bd);
        assert(c.last() == b.last());
        lemma_pieces_concat(a, bd);
        lemma_pieces_nonempty(bd);
        let p = pieces(a).drop_last();
        let q = pieces(bd);
        if b.last() == '\n' {
            assert((p + q).push(Seq::<char>::empty()) =~= p + q.push(Seq::<char>::empty()));
        } else {
            let pq = p + q;
            assert(pq.update(pq.len() - 1, pq.last().push(b.last())) =~= p + q.update(
                q.len() - 1,
                q.last().push(b.last()),
            ));
        }
    }
}

proof fn lemma_pieces_line(y: Seq<char>)
    requires
        no_newline(y),
    ensures
        pieces(y) == seq![y],
        pieces(line(y)) == seq![y, Seq::<char>::empty()],
    decreases y.len(),
{
    if y.len() > 0 {
        let yd = y.drop_last();
        assert(no_newline(yd)) by {
            assert forall|k: int| 0 <= k < yd.len() implies #[trigger] yd[k] != '\n' by {
                assert(yd[k] == y[k]);
            }
        }
        lemma_pieces_line(yd);
        assert(y.last() == y[y.len() - 1]);
        assert(yd.push(y.last()) =~= y);
    } else {
        assert(y =~= Seq::<char>::empty());
    }
    let ly = line(y);
    assert(ly.drop_last() =~= y);
    assert(ly.last() == '\n');
    assert(pieces(ly) == pieces(ly.drop_last()).push(Seq::<char>::empty()));
    assert(seq![y].push(Seq::<char>::empty()) =~= seq![y, Seq::<char>::empty()]);
}

proof fn lemma_run_concat(
    st: ReadState,
    a: Seq<Seq<char>>,
    b: Seq<Seq<char>>,
    stock: Seq<ChatWindowLookView>,
    rows: Seq<(u32, Seq<char>)>,
)
    ensures
        run(st, a + b, stock, rows) == run(run(st, a, stock, rows), b, stock, rows),
    decreases b.len(),
{
    if b.len() == 0 {
        assert(a + b =~= a);
    } else {
        assert((a + b).drop_last() =~= a + b.drop_last());
        lemma_run_concat(st, a, b.drop_last(), stock, rows);
    }
}

/// Reading `a` then `b` is reading `a + b`, when `a` is whole lines.
proof fn lemma_feed_concat(
    st: ReadState,
    a: Seq<char>,
    b: Seq<char>,
    stock: Seq<ChatWindowLookView>,
    rows: Seq<(u32, Seq<char>)>,
)
    requires
        ends_line(a),
    ensures
        feed(st, a + b, stock, rows) == feed(feed(st, a, stock, rows), b, stock, rows),
{
    lemma_pieces_nonempty(b);
    if a.len() == 0 {
        assert(a + b =~= b);
        assert(pieces(a).drop_last() =~= Seq::<Seq<char>>::empty());
    } else {
        lemma_pieces_concat(a, b);
        assert((pieces(a).drop_last() + pieces(b)).drop_last() =~= pieces(a).drop_last() + pieces(
            b,
        ).drop_last());
        lemma_run_concat(st, pieces(a).drop_last(), pieces(b).drop_last(), stock, rows);
    }
}

/// Reading one line.
proof fn lemma_feed_line(
    st: ReadState,
    y: Seq<char>,
    stock: Seq<ChatWindowLookView>,
    rows: Seq<(u32, Seq<char>)>,
)
    requires
        no_newline(y),
    ensures
        feed(st, line(y), stock, rows) == read_line(st, y, stock, rows),
{
    lemma_pieces_line(y);
    let ls = pieces(line(y)).drop_last();
    assert(ls =~= seq![y]);
    assert(ls.drop_last() =~= Seq::<Seq<char>>::empty());
    assert(ls.last() == y);
    assert(run(st, ls.drop_last(), stock, rows) == st);
}

proof fn lemma_trim_empty()
    ensures
        trim(Seq::<char>::empty()) == Seq::<char>::empty(),
{
}

/// An empty line changes nothing.
proof fn lemma_feed_blank(
    st: ReadState,
    stock: Seq<ChatWindowLookView>,
    rows: Seq<(u32, Seq<char>)>,
)
    ensures
        feed(st, blank_line(), stock, rows) == st,
{
    assert(blank_line() =~= line(Seq::<char>::empty()));
    lemma_feed_line(st, Seq::<char>::empty(), stock, rows);
    lemma_trim_empty();
}

/// Reading nothing changes nothing.
proof fn lemma_feed_empty(
    st: ReadState,
    stock: Seq<ChatWindowLookView>,
    rows: Seq<(u32, Seq<char>)>,
)
    ensures
        feed(st, Seq::<char>::empty(), stock, rows) == st,
{
    assert(pieces(Seq::<char>::empty()).drop_last() =~= Seq::<Seq<char>>::empty());
}

proof fn lemma_read_lines_run(
    ls: Seq<Seq<char>>,
    stock: Seq<ChatWindowLookView>,
    rows: Seq<(u32, Seq<char>)>,
)
    ensures
        read_lines(ls, stock, rows) == run(crate::chat_cache::fresh_read(), ls, stock, rows),
    decreases ls.len(),
{
    if ls.len() > 0 {
        lemma_read_lines_run(ls.drop_last(), stock, rows);
    }
}

/// A text of whole lines reads as its lines fed from the start.
proof fn lemma_read_whole_lines(
    t: Seq<char>,
    stock: Seq<ChatWindowLookView>,
    rows: Seq<(u32, Seq<char>)>,
)
    requires
        ends_line(t),
    ensures
        read_lines(pieces(t), stock, rows) == feed(crate::chat_cache::fresh_read(), t, stock, rows),
{
    lemma_read_lines_run(pieces(t), stock, rows);
    lemma_pieces_nonempty(t);
    if t.len() > 0 {
        assert(pieces(t).last() == Seq::<char>::empty());
    } else {
        assert(pieces(t) =~= seq![Seq::<char>::empty()]);
    }
    lemma_trim_empty();
}

proof fn lemma_ends_concat(a: Seq<char>, b: Seq<char>)
    requires
        ends_line(a),
        ends_line(b),
    ensures
        ends_line(a + b),
{
    if b.len() == 0 {
        assert(a + b =~= a);
    }
}

/// Text with no whitespace at either end and no line feed.
pub open spec fn clean_text(x: Seq<char>) -> bool {
    &&& x.len() > 0
    &&& !is_white_space(x[0])
    &&& !is_white_space(x.last())
    &&& no_newline(x)
}

proof fn lemma_trim_clean(x: Seq<char>)
    requires
        x.len() > 0,
        !is_white_space(x[0]),
        !is_white_space(x.last()),
    ensures
        trim(x) == x,
{
    assert(trim_start(x) == x);
    assert(trim_end(x) == x);
}

proof fn lemma_trim_end_keeps_head(x: Seq<char>)
    requires
        x.len() > 0,
        !is_white_space(x[0]),
    ensures
        trim_end(x).len() > 0,
        trim_end(x)[0] == x[0],
    decreases x.len(),
{
    if is_white_space(x.last()) {
        assert(x.len() > 1);
        let xd = x.drop_last();
        assert(xd[0] == x[0]);
        lemma_trim_end_keeps_head(xd);
    }
}

proof fn lemma_trim_head(x: Seq<char>)
    requires
        x.len() > 0,
        !is_white_space(x[0]),
    ensures
        trim(x).len() > 0,
        trim(x)[0] == x[0],
{
    assert(trim_start(x) == x);
    lemma_trim_end_keeps_head(x);
}

proof fn lemma_trim_after_space(x: Seq<char>)
    requires
        x.len() > 0,
        !is_white_space(x[0]),
        !is_white_space(x.last()),
    ensures
        trim(seq![' '] + x) == x,
{
    let y = seq![' '] + x;
    assert(y.drop_first() =~= x);
    assert(is_white_space(y[0]));
    assert(trim_start(y) == trim_start(x));
    lemma_trim_clean(x);
}

proof fn lemma_words_space()
    ensures
        words(seq![' ']) == Seq::<Seq<char>>::empty(),
        is_white_space(' '),
{
    let sp = seq![' '];
    assert(sp.drop_last() =~= Seq::<char>::empty());
    assert(sp.last() == ' ');
    assert(is_white_space(' '));
    assert(words(sp) == words(sp.drop_last()));
}

proof fn lemma_words_nonempty(s: Seq<char>)
    requires
        s.len() > 0,
        !is_white_space(s.last()),
    ensures
        words(s).len() >= 1,
    decreases s.len(),
{
    if s.len() >= 2 && !is_white_space(s[s.len() - 2]) {
        let sd = s.drop_last();
        assert(sd.last() == s[s.len() - 2]);
        lemma_words_nonempty(sd);
    }
}

/// A word splits into itself.
proof fn lemma_words_single(w: Seq<char>)
    requires
        is_word(w),
    ensures
        words(w) == seq![w],
    decreases w.len(),
{
    let wd = w.drop_last();
    assert(!is_white_space(w.last())) by {
        assert(w.last() == w[w.len() - 1]);
    }
    if w.len() == 1 {
        assert(words(wd) =~= Seq::<Seq<char>>::empty());
        assert(w =~= seq![w.last()]);
    } else {
        assert(is_word(wd)) by {
            assert forall|k: int| 0 <= k < wd.len() implies !is_white_space(#[trigger] wd[k]) by {
                assert(wd[k] == w[k]);
            }
        }
        lemma_words_single(wd);
        assert(!is_white_space(w[w.len() - 2]));
        assert(wd.push(w.last()) =~= w);
        assert(seq![wd].update(0, wd.push(w.last())) =~= seq![w]);
    }
}

/// No word straddles the seam: the words of `x + y` are those of `x`, then those of `y`.
proof fn lemma_words_concat(x: Seq<char>, y: Seq<char>)
    requires
        x.len() == 0 || y.len() == 0 || is_white_space(x.last()) || is_white_space(y[0]),
    ensures
        words(x + y) == words(x) + words(y),
    decreases y.len(),
{
    if y.len() == 0 {
        assert(x + y =~= x);
        assert(words(x) + words(y) =~= words(x));
    } else {
        let z = x + y;
        let yd = y.drop_last();
        let c = y.last();
        assert(z.drop_last() =~= x + yd);
        assert(z.last() == c);
        if yd.len() > 0 {
            assert(yd[0] == y[0]);
        }
        lemma_words_concat(x, yd);
        let w = words(x) + words(yd);
        if is_white_space(c) {
        } else if z.len() >= 2 && !is_white_space(z[z.len() - 2]) {
            if y.len() == 1 {
                assert(z[z.len() - 2] == x.last());
                assert(false);
            }
            assert(y[y.len() - 2] == z[z.len() - 2]);
            assert(yd.last() == y[y.len() - 2]);
            lemma_words_nonempty(yd);
            let wy = words(yd);
            assert(w.update(w.len() - 1, w.last().push(c)) =~= words(x) + wy.update(
                wy.len() - 1,
                wy.last().push(c),
            ));
        } else {
            if y.len() >= 2 {
                assert(y[y.len() - 2] == z[z.len() - 2]);
            } else {
                assert(yd =~= Seq::<char>::empty());
                assert(words(yd) =~= Seq::<Seq<char>>::empty());
            }
            assert(w.push(seq![c]) =~= words(x) + words(yd).push(seq![c]));
        }
    }
}

/// A key and a value split into the key, then the value's words.
proof fn lemma_words_key_value(k: Seq<char>, v: Seq<char>)
    requires
        is_word(k),
    ensures
        words(key_value(k, v)) == seq![k] + words(v),
{
    let ks = k + seq![' '];
    assert(ks.last() == ' ');
    lemma_words_concat(ks, v);
    lemma_words_concat(k, seq![' ']);
    lemma_words_single(k);
    let sp = seq![' '];
    assert(sp.drop_last() =~= Seq::<char>::empty());
    assert(sp.last() == ' ');
    assert(is_white_space(' '));
    assert(words(sp) == words(sp.drop_last()));
    assert(words(sp) =~= Seq::<Seq<char>>::empty());
    assert(seq![k] + Seq::<Seq<char>>::empty() =~= seq![k]);
}

proof fn lemma_digit_char(d: nat)
    requires
        d < 10,
    ensures
        digit_char(d) as int == 48 + d,
        '0' <= digit_char(d) <= '9',
{
}

proof fn lemma_decimal_digits(n: nat)
    ensures
        decimal(n).len() >= 1,
        all_digits(decimal(n)),
        digits_value(decimal(n)) == n,
    decreases n,
{
    if n < 10 {
        lemma_digit_char(n);
        let d = decimal(n);
        assert(d.drop_last() =~= Seq::<char>::empty());
        assert(d.last() == digit_char(n));
        assert(digits_value(d.drop_last()) == 0);
        assert(digits_value(d) == digits_value(d.drop_last()) * 10 + (d.last() as int - '0' as int));
        assert('0' as int == 48);
    } else {
        lemma_digit_char(n % 10);
        assert((n / 10) * 10 + n % 10 == n) by (nonlinear_arith);
        lemma_decimal_digits(n / 10);
        let d = decimal(n / 10);
        let e = d.push(digit_char(n % 10));
        assert(e.drop_last() =~= d);
        assert(e.last() == digit_char(n % 10));
        assert(digits_value(e) == digits_value(e.drop_last()) * 10 + (e.last() as int - '0' as int));
        assert('0' as int == 48);
        assert(digits_value(e) == (n / 10) * 10 + n % 10);
        assert(all_digits(e)) by {
            assert forall|i: int| 0 <= i < e.len() implies '0' <= #[trigger] e[i] <= '9' by {
                if i < d.len() {
                    assert(e[i] == d[i]);
                }
            }
        }
    }
}

/// A decimal numeral is a word that starts with a digit.
proof fn lemma_decimal_word(n: nat)
    ensures
        is_word(decimal(n)),
        '0' <= decimal(n)[0] <= '9',
        '0' <= decimal(n).last() <= '9',
        no_newline(decimal(n)),
        digits_value(decimal(n)) == n,
        all_digits(decimal(n)),
{
    lemma_decimal_digits(n);
    let d = decimal(n);
    assert(d.last() == d[d.len() - 1]);
    assert forall|k: int| 0 <= k < d.len() implies !is_white_space(#[trigger] d[k]) by {
        assert('0' <= d[k] <= '9');
    }
    assert forall|k: int| 0 <= k < d.len() implies #[trigger] d[k] != '\n' by {
        assert('0' <= d[k] <= '9');
    }
}

/// A written decimal numeral reads back as its number, under any bound the number fits.
pub proof fn lemma_decimal_parses(n: nat, max: nat)
    requires
        n <= max,
    ensures
        parse_unsigned_upto(decimal(n), max) == Some(n),
{
    lemma_decimal_word(n);
    assert(unsigned_digits(decimal(n)) == decimal(n));
}

/// A written non-negative size reads back as itself.
pub proof fn lemma_signed_decimal_parses(f: i32)
    requires
        f >= 0,
    ensures
        parse_i32(signed_decimal(f as int)) == Some(f as int),
{
    lemma_decimal_word(f as nat);
    lemma_decimal_parses(f as nat, 0x7fff_ffff);
    assert(signed_decimal(f as int) == decimal(f as nat));
}

proof fn lemma_ne(a: Seq<char>, b: Seq<char>)
    requires
        a.len() != b.len() || (a.len() > 0 && b.len() > 0 && ascii_folded(a[0]) != ascii_folded(
            b[0],
        )),
    ensures
        !eq_ignore_ascii_case(a, b),
{
}

/// A key of the grammar: a word that does not start a comment.
pub open spec fn is_key(k: Seq<char>) -> bool {
    is_word(k) && k[0] != '#'
}

/// The grammar's keys are words, and the reader tells apart every pair it meets.
proof fn lemma_keys()
    ensures
        is_key("WINDOW"@),
        is_key("NAME"@),
        is_key("SIZE"@),
        is_key("COLOR"@),
        is_key("LOCKED"@),
        is_key("DOCKED"@),
        is_key("SHOWN"@),
        is_key("MESSAGES"@),
        is_key("END"@),
        is_key("CHANNELS"@),
        is_key("ZONECHANNELS"@),
        is_key("COLORS"@),
        is_key("VERSION"@),
        is_key("ADDEDVERSION"@),
        is_key("OPTION_GUILD_RECRUITMENT_CHANNEL"@),
        is_word("AUTO"@),
        no_newline("AUTO"@),
        "NAME"@.len() == 4,
        // top level, outside a window
        !eq_ignore_ascii_case("VERSION"@, "COLORS"@),
        !eq_ignore_ascii_case("VERSION"@, "WINDOW"@),
        !eq_ignore_ascii_case("VERSION"@, "CHANNELS"@),
        !eq_ignore_ascii_case("VERSION"@, "ADDEDVERSION"@),
        !eq_ignore_ascii_case("ADDEDVERSION"@, "COLORS"@),
        !eq_ignore_ascii_case("ADDEDVERSION"@, "WINDOW"@),
        !eq_ignore_ascii_case("ADDEDVERSION"@, "CHANNELS"@),
        !eq_ignore_ascii_case("OPTION_GUILD_RECRUITMENT_CHANNEL"@, "COLORS"@),
        !eq_ignore_ascii_case("OPTION_GUILD_RECRUITMENT_CHANNEL"@, "WINDOW"@),
        !eq_ignore_ascii_case("OPTION_GUILD_RECRUITMENT_CHANNEL"@, "CHANNELS"@),
        !eq_ignore_ascii_case("OPTION_GUILD_RECRUITMENT_CHANNEL"@, "ADDEDVERSION"@),
        !eq_ignore_ascii_case("CHANNELS"@, "COLORS"@),
        !eq_ignore_ascii_case("CHANNELS"@, "WINDOW"@),
        !eq_ignore_ascii_case("ZONECHANNELS"@, "COLORS"@),
        !eq_ignore_ascii_case("ZONECHANNELS"@, "WINDOW"@),
        !eq_ignore_ascii_case("ZONECHANNELS"@, "CHANNELS"@),
        !eq_ignore_ascii_case("ZONECHANNELS"@, "ADDEDVERSION"@),
        !eq_ignore_ascii_case("WINDOW"@, "COLORS"@),
        // inside a window
        !eq_ignore_ascii_case("END"@, "COLORS"@),
        !eq_ignore_ascii_case("END"@, "WINDOW"@),
        !eq_ignore_ascii_case("MESSAGES"@, "COLORS"@),
        !eq_ignore_ascii_case("MESSAGES"@, "WINDOW"@),
        !eq_ignore_ascii_case("MESSAGES"@, "END"@),
        !eq_ignore_ascii_case("CHANNELS"@, "END"@),
        !eq_ignore_ascii_case("CHANNELS"@, "MESSAGES"@),
        !eq_ignore_ascii_case("NAME"@, "COLORS"@),
        !eq_ignore_ascii_case("NAME"@, "WINDOW"@),
        !eq_ignore_ascii_case("NAME"@, "END"@),
        !eq_ignore_ascii_case("NAME"@, "MESSAGES"@),
        !eq_ignore_ascii_case("NAME"@, "CHANNELS"@),
        !eq_ignore_ascii_case("SIZE"@, "COLORS"@),
        !eq_ignore_ascii_case("SIZE"@, "WINDOW"@),
        !eq_ignore_ascii_case("SIZE"@, "END"@),
        !eq_ignore_ascii_case("SIZE"@, "MESSAGES"@),
        !eq_ignore_ascii_case("SIZE"@, "CHANNELS"@),
        !eq_ignore_ascii_case("SIZE"@, "NAME"@),
        !eq_ignore_ascii_case("COLOR"@, "COLORS"@),
        !eq_ignore_ascii_case("COLOR"@, "WINDOW"@),
        !eq_ignore_ascii_case("COLOR"@, "END"@),
        !eq_ignore_ascii_case("COLOR"@, "MESSAGES"@),
        !eq_ignore_ascii_case("COLOR"@, "CHANNELS"@),
        !eq_ignore_ascii_case("COLOR"@, "NAME"@),
        !eq_ignore_ascii_case("COLOR"@, "SIZE"@),
        !eq_ignore_ascii_case("LOCKED"@, "COLORS"@),
        !eq_ignore_ascii_case("LOCKED"@, "WINDOW"@),
        !eq_ignore_ascii_case("LOCKED"@, "END"@),
        !eq_ignore_ascii_case("LOCKED"@, "MESSAGES"@),
        !eq_ignore_ascii_case("LOCKED"@, "CHANNELS"@),
        !eq_ignore_ascii_case("LOCKED"@, "NAME"@),
        !eq_ignore_ascii_case("LOCKED"@, "SIZE"@),
        !eq_ignore_ascii_case("LOCKED"@, "COLOR"@),
        !eq_ignore_ascii_case("DOCKED"@, "COLORS"@),
        !eq_ignore_ascii_case("DOCKED"@, "WINDOW"@),
        !eq_ignore_ascii_case("DOCKED"@, "END"@),
        !eq_ignore_ascii_case("DOCKED"@, "MESSAGES"@),
        !eq_ignore_ascii_case("DOCKED"@, "CHANNELS"@),
        !eq_ignore_ascii_case("DOCKED"@, "NAME"@),
        !eq_ignore_ascii_case("DOCKED"@, "SIZE"@),
        !eq_ignore_ascii_case("DOCKED"@, "COLOR"@),
        !eq_ignore_ascii_case("DOCKED"@, "LOCKED"@),
        !eq_ignore_ascii_case("SHOWN"@, "COLORS"@),
        !eq_ignore_ascii_case("SHOWN"@, "WINDOW"@),
        !eq_ignore_ascii_case("SHOWN"@, "END"@),
        !eq_ignore_ascii_case("SHOWN"@, "MESSAGES"@),
        !eq_ignore_ascii_case("SHOWN"@, "CHANNELS"@),
        !eq_ignore_ascii_case("SHOWN"@, "NAME"@),
        !eq_ignore_ascii_case("SHOWN"@, "SIZE"@),
        !eq_ignore_ascii_case("SHOWN"@, "COLOR"@),
        !eq_ignore_ascii_case("SHOWN"@, "LOCKED"@),
        !eq_ignore_ascii_case("SHOWN"@, "DOCKED"@),
        !eq_ignore_ascii_case("ZONECHANNELS"@, "END"@),
        !eq_ignore_ascii_case("ZONECHANNELS"@, "MESSAGES"@),
        !eq_ignore_ascii_case("ZONECHANNELS"@, "NAME"@),
        !eq_ignore_ascii_case("ZONECHANNELS"@, "SIZE"@),
        !eq_ignore_ascii_case("ZONECHANNELS"@, "COLOR"@),
        !eq_ignore_ascii_case("ZONECHANNELS"@, "LOCKED"@),
        !eq_ignore_ascii_case("ZONECHANNELS"@, "DOCKED"@),
        !eq_ignore_ascii_case("ZONECHANNELS"@, "SHOWN"@),
{
    reveal_strlit("WINDOW");
    reveal_strlit("NAME");
    reveal_strlit("SIZE");
    reveal_strlit("COLOR");
    reveal_strlit("LOCKED");
    reveal_strlit("DOCKED");
    reveal_strlit("SHOWN");
    reveal_strlit("MESSAGES");
    reveal_strlit("END");
    reveal_strlit("CHANNELS");
    reveal_strlit("ZONECHANNELS");
    reveal_strlit("COLORS");
    reveal_strlit("VERSION");
    reveal_strlit("ADDEDVERSION");
    reveal_strlit("OPTION_GUILD_RECRUITMENT_CHANNEL");
    reveal_strlit("AUTO");
    lemma_ne("WINDOW"@, "COLORS"@);
    lemma_ne("LOCKED"@, "COLORS"@);
    lemma_ne("LOCKED"@, "WINDOW"@);
    lemma_ne("DOCKED"@, "COLORS"@);
    lemma_ne("DOCKED"@, "WINDOW"@);
    lemma_ne("DOCKED"@, "LOCKED"@);
    lemma_ne("CHANNELS"@, "MESSAGES"@);
    lemma_ne("MESSAGES"@, "CHANNELS"@);
    lemma_ne("ZONECHANNELS"@, "ADDEDVERSION"@);
    lemma_ne("SIZE"@, "NAME"@);
    lemma_ne("SHOWN"@, "COLOR"@);
    lemma_ne("COLOR"@, "SIZE"@);
    lemma_ne("NAME"@, "SIZE"@);
}

/// A key line reads as its key and its value's words.
proof fn lemma_key_line(k: Seq<char>, v: Seq<char>)
    requires
        is_key(k),
        v.len() > 0,
        !is_white_space(v.last()),
        no_newline(v),
    ensures
        no_newline(key_value(k, v)),
        trim(key_value(k, v)) == key_value(k, v),
        key_value(k, v).len() > 0,
        key_value(k, v)[0] == k[0],
        words(key_value(k, v)) == seq![k] + words(v),
{
    let x = key_value(k, v);
    assert(x[0] == k[0]);
    assert(x.last() == v.last());
    lemma_trim_clean(x);
    lemma_words_key_value(k, v);
    assert forall|j: int| 0 <= j < x.len() implies #[trigger] x[j] != '\n' by {
        if j < k.len() {
            assert(x[j] == k[j]);
            assert(!is_white_space(k[j]));
        } else if j == k.len() {
            assert(x[j] == ' ');
        } else {
            assert(x[j] == v[j - k.len() - 1]);
        }
    }
}

proof fn lemma_words_decimal(n: nat)
    ensures
        words(decimal(n)) == seq![decimal(n)],
{
    lemma_decimal_word(n);
    lemma_words_single(decimal(n));
}

proof fn lemma_flag_line(b: bool)
    ensures
        is_word(flag_digit(b)),
        no_newline(flag_digit(b)),
        words(flag_digit(b)) == seq![flag_digit(b)],
        flag_value(Some(flag_digit(b))) == b,
{
    let f = flag_digit(b);
    assert(f.len() == 1);
    assert(!is_white_space(f[0]));
    lemma_words_single(f);
    if b {
        assert(f[0] != seq!['0'][0]);
    }
}

proof fn lemma_rgba_words(l: ChatWindowLookView)
    ensures
        words(rgba_text(l)) == seq![
            decimal(l.r as nat),
            decimal(l.g as nat),
            decimal(l.b as nat),
            decimal(l.a as nat),
        ],
        rgba_text(l).len() > 0,
        !is_white_space(rgba_text(l).last()),
        no_newline(rgba_text(l)),
{
    let dr = decimal(l.r as nat);
    let dg = decimal(l.g as nat);
    let db = decimal(l.b as nat);
    let da = decimal(l.a as nat);
    let sp = seq![' '];
    lemma_words_decimal(l.r as nat);
    lemma_words_decimal(l.g as nat);
    lemma_words_decimal(l.b as nat);
    lemma_words_decimal(l.a as nat);
    lemma_decimal_word(l.r as nat);
    lemma_decimal_word(l.g as nat);
    lemma_decimal_word(l.b as nat);
    lemma_decimal_word(l.a as nat);
    lemma_words_space();
    let t1 = dr + sp;
    lemma_words_concat(dr, sp);
    let t2 = t1 + dg;
    lemma_words_concat(t1, dg);
    let t3 = t2 + sp;
    lemma_words_concat(t2, sp);
    let t4 = t3 + db;
    lemma_words_concat(t3, db);
    let t5 = t4 + sp;
    lemma_words_concat(t4, sp);
    let t6 = t5 + da;
    lemma_words_concat(t5, da);
    assert(t6 == rgba_text(l));
    assert(words(t6) =~= seq![dr, dg, db, da]);
    assert(t6.last() == da.last());
    assert forall|j: int| 0 <= j < t6.len() implies #[trigger] t6[j] != '\n' by {
        let a = dr.len() as int;
        let b = a + 1 + dg.len();
        let c = b + 1 + db.len();
        if j < a {
            assert(t6[j] == dr[j]);
        } else if j == a {
            assert(t6[j] == ' ');
        } else if j < b {
            assert(t6[j] == dg[j - a - 1]);
        } else if j == b {
            assert(t6[j] == ' ');
        } else if j < c {
            assert(t6[j] == db[j - b - 1]);
        } else if j == c {
            assert(t6[j] == ' ');
        } else {
            assert(t6[j] == da[j - c - 1]);
        }
    }
}

/// A word a list block can carry: a key that is not the block's `END`.
pub open spec fn list_word(w: Seq<char>) -> bool {
    is_key(w) && !eq_ignore_ascii_case(w, "END"@)
}

/// The word a custom-channel line reads back as: the first word of the trimmed line.
pub open spec fn first_word(n: Seq<char>) -> Seq<char> {
    words(trim(n))[0]
}

/// A custom channel name a window's channel list can carry: on one line, not blank, not a
/// comment, and not starting with the list's `END`. It reads back as its first word.
pub open spec fn channel_name(n: Seq<char>) -> bool {
    &&& no_newline(n)
    &&& trim(n).len() > 0
    &&& trim(n)[0] != '#'
    &&& !eq_ignore_ascii_case(first_word(n), "END"@)
}

/// What the grammar can carry of a window's record: a name without whitespace at its ends or a
/// line feed, a size the reader keeps (not negative), a dock position other than 0 (which reads
/// as floating), message groups that are list words in capitals (the reader capitalizes them),
/// and custom channel names that fit on a channel line.
pub open spec fn writable_look(l: ChatWindowLookView) -> bool {
    &&& (l.name.len() == 0 || clean_text(l.name))
    &&& l.font_size >= 0
    &&& l.docked != Some(0u8)
    &&& forall|k: int|
        0 <= k < l.messages.len() ==> list_word(#[trigger] l.messages[k]) && ascii_upper(
            l.messages[k],
        ) == l.messages[k]
    &&& forall|k: int|
        0 <= k < l.channels.len() && l.channels[k].1 == 0 ==> channel_name(
            #[trigger] l.channels[k].0,
        )
}

/// The record after a window's field lines: the boot record with the written fields, and the
/// boot record's name where none was written.
pub open spec fn head_look(boot: ChatWindowLookView, l: ChatWindowLookView) -> ChatWindowLookView {
    ChatWindowLookView {
        name: if l.name.len() == 0 {
            boot.name
        } else {
            l.name
        },
        messages: boot.messages,
        channels: boot.channels,
        ..l
    }
}

proof fn lemma_inside_key(
    st: ReadState,
    i: nat,
    cur: ChatWindowLookView,
    k: Seq<char>,
    v: Seq<char>,
    stock: Seq<ChatWindowLookView>,
    rows: Seq<(u32, Seq<char>)>,
)
    requires
        st.current == Some((i, cur)),
        st.block == Block::Top,
        is_key(k),
        v.len() > 0,
        !is_white_space(v.last()),
        no_newline(v),
        !eq_ignore_ascii_case(k, "COLORS"@),
        !eq_ignore_ascii_case(k, "WINDOW"@),
        !eq_ignore_ascii_case(k, "END"@),
        !eq_ignore_ascii_case(k, "MESSAGES"@),
        !eq_ignore_ascii_case(k, "CHANNELS"@),
        !eq_ignore_ascii_case(k, "NAME"@),
    ensures
        feed(st, line(key_value(k, v)), stock, rows) == (ReadState {
            current: Some((i, apply_key(cur, k, words(v), rows))),
            ..st
        }),
{
    lemma_key_line(k, v);
    lemma_feed_line(st, key_value(k, v), stock, rows);
    let ws = seq![k] + words(v);
    assert(ws[0] == k);
    assert(ws.drop_first() =~= words(v));
}

proof fn lemma_window_line(
    st: ReadState,
    i: nat,
    stock: Seq<ChatWindowLookView>,
    rows: Seq<(u32, Seq<char>)>,
)
    requires
        st.current is None,
        st.block == Block::Top,
        i + 1 <= usize::MAX,
    ensures
        feed(st, line(key_value("WINDOW"@, decimal(i + 1))), stock, rows) == (ReadState {
            current: Some((i, boot_look(stock, i))),
            ..st
        }),
{
    lemma_keys();
    let d = decimal(i + 1);
    lemma_decimal_word(i + 1);
    lemma_key_line("WINDOW"@, d);
    lemma_words_decimal(i + 1);
    lemma_decimal_parses(i + 1, usize::MAX as nat);
    lemma_feed_line(st, key_value("WINDOW"@, d), stock, rows);
    let ws = seq!["WINDOW"@] + words(d);
    assert(ws =~= seq!["WINDOW"@, d]);
    let rest = ws.drop_first();
    assert(rest =~= seq![d]);
    assert(word_at(rest, 0) == Some(d));
    assert(rest.drop_first() =~= Seq::<Seq<char>>::empty());
    assert(flush(st) == st);
    assert(apply_keys(boot_look(stock, i), rest.drop_first(), rows) == boot_look(stock, i));
}

proof fn lemma_name_line(
    st: ReadState,
    i: nat,
    cur: ChatWindowLookView,
    name: Seq<char>,
    stock: Seq<ChatWindowLookView>,
    rows: Seq<(u32, Seq<char>)>,
)
    requires
        st.current == Some((i, cur)),
        st.block == Block::Top,
        name.len() == 0 || clean_text(name),
    ensures
        feed(st, name_line(name), stock, rows) == (ReadState {
            current: Some(
                (
                    i,
                    ChatWindowLookView {
                        name: if name.len() == 0 {
                            cur.name
                        } else {
                            name
                        },
                        ..cur
                    },
                ),
            ),
            ..st
        }),
{
    lemma_keys();
    if name.len() == 0 {
        lemma_feed_empty(st, stock, rows);
        assert(ChatWindowLookView { name: cur.name, ..cur } == cur);
    } else {
        let x = key_value("NAME"@, name);
        lemma_key_line("NAME"@, name);
        lemma_feed_line(st, x, stock, rows);
        lemma_words_key_value("NAME"@, name);
        let ws = words(x);
        assert(ws[0] == "NAME"@);
        assert(x.subrange(4, x.len() as int) =~= seq![' '] + name);
        lemma_trim_after_space(name);
    }
}

proof fn lemma_size_line(
    st: ReadState,
    i: nat,
    cur: ChatWindowLookView,
    f: i32,
    stock: Seq<ChatWindowLookView>,
    rows: Seq<(u32, Seq<char>)>,
)
    requires
        st.current == Some((i, cur)),
        st.block == Block::Top,
        f >= 0,
    ensures
        feed(st, line(key_value("SIZE"@, signed_decimal(f as int))), stock, rows) == (ReadState {
            current: Some((i, ChatWindowLookView { font_size: f, ..cur })),
            ..st
        }),
{
    lemma_keys();
    let d = signed_decimal(f as int);
    assert(d == decimal(f as nat));
    lemma_decimal_word(f as nat);
    lemma_words_decimal(f as nat);
    lemma_signed_decimal_parses(f);
    lemma_inside_key(st, i, cur, "SIZE"@, d, stock, rows);
    assert(word_at(words(d), 0) == Some(d));
    assert(size_value(Some(d)) == f);
}

proof fn lemma_color_line(
    st: ReadState,
    i: nat,
    cur: ChatWindowLookView,
    l: ChatWindowLookView,
    stock: Seq<ChatWindowLookView>,
    rows: Seq<(u32, Seq<char>)>,
)
    requires
        st.current == Some((i, cur)),
        st.block == Block::Top,
    ensures
        feed(st, line(key_value("COLOR"@, rgba_text(l))), stock, rows) == (ReadState {
            current: Some((i, ChatWindowLookView { r: l.r, g: l.g, b: l.b, a: l.a, ..cur })),
            ..st
        }),
{
    lemma_keys();
    lemma_rgba_words(l);
    lemma_inside_key(st, i, cur, "COLOR"@, rgba_text(l), stock, rows);
    let ws = words(rgba_text(l));
    lemma_decimal_parses(l.r as nat, 255);
    lemma_decimal_parses(l.g as nat, 255);
    lemma_decimal_parses(l.b as nat, 255);
    lemma_decimal_parses(l.a as nat, 255);
    assert(word_at(ws, 0) == Some(decimal(l.r as nat)));
    assert(word_at(ws, 1) == Some(decimal(l.g as nat)));
    assert(word_at(ws, 2) == Some(decimal(l.b as nat)));
    assert(word_at(ws, 3) == Some(decimal(l.a as nat)));
}

proof fn lemma_flag_key_line(
    st: ReadState,
    i: nat,
    cur: ChatWindowLookView,
    k: Seq<char>,
    b: bool,
    stock: Seq<ChatWindowLookView>,
    rows: Seq<(u32, Seq<char>)>,
)
    requires
        st.current == Some((i, cur)),
        st.block == Block::Top,
        k == "LOCKED"@ || k == "SHOWN"@,
    ensures
        feed(st, line(key_value(k, flag_digit(b))), stock, rows) == (ReadState {
            current: Some(
                (
                    i,
                    if k == "LOCKED"@ {
                        ChatWindowLookView { locked: b, ..cur }
                    } else {
                        ChatWindowLookView { shown: b, ..cur }
                    },
                ),
            ),
            ..st
        }),
{
    lemma_keys();
    lemma_flag_line(b);
    let f = flag_digit(b);
    assert(f.last() == f[0]);
    lemma_inside_key(st, i, cur, k, f, stock, rows);
    assert(word_at(words(f), 0) == Some(f));
}

proof fn lemma_docked_line(
    st: ReadState,
    i: nat,
    cur: ChatWindowLookView,
    d: Option<u8>,
    stock: Seq<ChatWindowLookView>,
    rows: Seq<(u32, Seq<char>)>,
)
    requires
        st.current == Some((i, cur)),
        st.block == Block::Top,
        d != Some(0u8),
    ensures
        feed(st, line(key_value("DOCKED"@, decimal(dock_number(d)))), stock, rows) == (ReadState {
            current: Some((i, ChatWindowLookView { docked: d, ..cur })),
            ..st
        }),
{
    lemma_keys();
    let n = dock_number(d);
    lemma_decimal_word(n);
    lemma_words_decimal(n);
    lemma_decimal_parses(n, 255);
    lemma_inside_key(st, i, cur, "DOCKED"@, decimal(n), stock, rows);
    assert(word_at(words(decimal(n)), 0) == Some(decimal(n)));
    assert(dock_value(Some(decimal(n))) == d);
}

proof fn lemma_ends_line(y: Seq<char>)
    ensures
        ends_line(line(y)),
        ends_line(blank_line()),
        ends_line(Seq::<char>::empty()),
{
}

/// A window's `WINDOW` line and field lines read as its boot record with the written fields.
proof fn lemma_read_head(
    st: ReadState,
    i: nat,
    l: ChatWindowLookView,
    stock: Seq<ChatWindowLookView>,
    rows: Seq<(u32, Seq<char>)>,
)
    requires
        st.current is None,
        st.block == Block::Top,
        writable_look(l),
        i + 1 <= usize::MAX,
    ensures
        feed(st, window_head(i, l), stock, rows) == (ReadState {
            current: Some((i, head_look(boot_look(stock, i), l))),
            ..st
        }),
        ends_line(window_head(i, l)),
{
    let boot = boot_look(stock, i);
    let a1 = line(key_value("WINDOW"@, decimal(i + 1)));
    let a2 = name_line(l.name);
    let a3 = line(key_value("SIZE"@, signed_decimal(l.font_size as int)));
    let a4 = line(key_value("COLOR"@, rgba_text(l)));
    let a5 = line(key_value("LOCKED"@, flag_digit(l.locked)));
    let a6 = line(key_value("DOCKED"@, decimal(dock_number(l.docked))));
    let a7 = line(key_value("SHOWN"@, flag_digit(l.shown)));
    assert(window_head(i, l) == a1 + a2 + a3 + a4 + a5 + a6 + a7);
    lemma_window_line(st, i, stock, rows);
    let s1 = ReadState { current: Some((i, boot)), ..st };
    lemma_name_line(s1, i, boot, l.name, stock, rows);
    let c2 = ChatWindowLookView {
        name: if l.name.len() == 0 {
            boot.name
        } else {
            l.name
        },
        ..boot
    };
    let s2 = ReadState { current: Some((i, c2)), ..st };
    lemma_size_line(s2, i, c2, l.font_size, stock, rows);
    let c3 = ChatWindowLookView { font_size: l.font_size, ..c2 };
    let s3 = ReadState { current: Some((i, c3)), ..st };
    lemma_color_line(s3, i, c3, l, stock, rows);
    let c4 = ChatWindowLookView { r: l.r, g: l.g, b: l.b, a: l.a, ..c3 };
    let s4 = ReadState { current: Some((i, c4)), ..st };
    lemma_flag_key_line(s4, i, c4, "LOCKED"@, l.locked, stock, rows);
    let c5 = ChatWindowLookView { locked: l.locked, ..c4 };
    let s5 = ReadState { current: Some((i, c5)), ..st };
    lemma_docked_line(s5, i, c5, l.docked, stock, rows);
    let c6 = ChatWindowLookView { docked: l.docked, ..c5 };
    let s6 = ReadState { current: Some((i, c6)), ..st };
    lemma_keys();
    assert("SHOWN"@ != "LOCKED"@) by {
        assert(!eq_ignore_ascii_case("SHOWN"@, "LOCKED"@));
    }
    lemma_flag_key_line(s6, i, c6, "SHOWN"@, l.shown, stock, rows);
    let c7 = ChatWindowLookView { shown: l.shown, ..c6 };
    assert(c7 == head_look(boot, l));
    lemma_ends_line(key_value("WINDOW"@, decimal(i + 1)));
    let t1 = a1;
    let t2 = t1 + a2;
    let t3 = t2 + a3;
    let t4 = t3 + a4;
    let t5 = t4 + a5;
    let t6 = t5 + a6;
    let t7 = t6 + a7;
    assert(ends_line(a2));
    lemma_ends_concat(t1, a2);
    lemma_ends_concat(t2, a3);
    lemma_ends_concat(t3, a4);
    lemma_ends_concat(t4, a5);
    lemma_ends_concat(t5, a6);
    lemma_ends_concat(t6, a7);
    lemma_feed_concat(st, t1, a2, stock, rows);
    lemma_feed_concat(st, t2, a3, stock, rows);
    lemma_feed_concat(st, t3, a4, stock, rows);
    lemma_feed_concat(st, t4, a5, stock, rows);
    lemma_feed_concat(st, t5, a6, stock, rows);
    lemma_feed_concat(st, t6, a7, stock, rows);
}

/// A line holding one word reads as that word.
proof fn lemma_word_line(w: Seq<char>)
    requires
        is_word(w),
    ensures
        no_newline(w),
        trim(w) == w,
        words(w) == seq![w],
        w.len() > 0,
{
    assert(w.last() == w[w.len() - 1]);
    lemma_trim_clean(w);
    lemma_words_single(w);
    assert forall|j: int| 0 <= j < w.len() implies #[trigger] w[j] != '\n' by {
        assert(!is_white_space(w[j]));
    }
}

/// The custom channels of a list, in order, each by the first word of its name.
pub open spec fn custom_channels(chs: Seq<(Seq<char>, u32)>) -> Seq<(Seq<char>, u32)>
    decreases chs.len(),
{
    if chs.len() == 0 {
        Seq::empty()
    } else if chs.last().1 == 0 {
        custom_channels(chs.drop_last()).push((first_word(chs.last().0), 0u32))
    } else {
        custom_channels(chs.drop_last())
    }
}

proof fn lemma_read_messages(
    st: ReadState,
    i: nat,
    cur: ChatWindowLookView,
    ms: Seq<Seq<char>>,
    stock: Seq<ChatWindowLookView>,
    rows: Seq<(u32, Seq<char>)>,
)
    requires
        st.current == Some((i, cur)),
        st.block == Block::Messages,
        forall|k: int|
            0 <= k < ms.len() ==> list_word(#[trigger] ms[k]) && ascii_upper(ms[k]) == ms[k],
    ensures
        feed(st, string_lines(ms), stock, rows) == (ReadState {
            current: Some((i, ChatWindowLookView { messages: cur.messages + ms, ..cur })),
            ..st
        }),
        ends_line(string_lines(ms)),
    decreases ms.len(),
{
    if ms.len() == 0 {
        lemma_feed_empty(st, stock, rows);
        assert(cur.messages + ms =~= cur.messages);
        assert(ChatWindowLookView { messages: cur.messages, ..cur } == cur);
    } else {
        let md = ms.drop_last();
        let m = ms.last();
        assert(list_word(m) && ascii_upper(m) == m) by {
            assert(m == ms[ms.len() - 1]);
        }
        lemma_read_messages(st, i, cur, md, stock, rows);
        let c1 = ChatWindowLookView { messages: cur.messages + md, ..cur };
        let s1 = ReadState { current: Some((i, c1)), ..st };
        lemma_word_line(m);
        lemma_feed_concat(st, string_lines(md), line(m), stock, rows);
        lemma_feed_line(s1, m, stock, rows);
        assert(seq![m][0] == m);
        assert(c1.messages.push(m) =~= cur.messages + ms);
    }
}

proof fn lemma_read_custom_channels(
    st: ReadState,
    i: nat,
    cur: ChatWindowLookView,
    chs: Seq<(Seq<char>, u32)>,
    stock: Seq<ChatWindowLookView>,
    rows: Seq<(u32, Seq<char>)>,
)
    requires
        st.current == Some((i, cur)),
        st.block == Block::Channels,
        forall|k: int| 0 <= k < chs.len() && chs[k].1 == 0 ==> channel_name(#[trigger] chs[k].0),
    ensures
        feed(st, custom_lines(chs), stock, rows) == (ReadState {
            current: Some(
                (i, ChatWindowLookView { channels: cur.channels + custom_channels(chs), ..cur }),
            ),
            ..st
        }),
        ends_line(custom_lines(chs)),
    decreases chs.len(),
{
    if chs.len() == 0 {
        lemma_feed_empty(st, stock, rows);
        assert(cur.channels + custom_channels(chs) =~= cur.channels);
        assert(ChatWindowLookView { channels: cur.channels, ..cur } == cur);
    } else {
        let cd = chs.drop_last();
        let c = chs.last();
        assert(c == chs[chs.len() - 1]);
        lemma_read_custom_channels(st, i, cur, cd, stock, rows);
        let c1 = ChatWindowLookView { channels: cur.channels + custom_channels(cd), ..cur };
        let s1 = ReadState { current: Some((i, c1)), ..st };
        if c.1 == 0 {
            lemma_feed_concat(st, custom_lines(cd), line(c.0), stock, rows);
            lemma_feed_line(s1, c.0, stock, rows);
            assert(c1.channels.push((first_word(c.0), 0u32)) =~= cur.channels + custom_channels(
                chs,
            ));
        } else {
            assert(custom_lines(chs) =~= custom_lines(cd));
            assert(custom_channels(chs) == custom_channels(cd));
        }
    }
}

/// The record a window's block reads back as, from the record `cur` its field lines left.
pub open spec fn lists_look(
    cur: ChatWindowLookView,
    l: ChatWindowLookView,
    rows: Seq<(u32, Seq<char>)>,
    joined_mask: u32,
) -> ChatWindowLookView {
    ChatWindowLookView {
        messages: l.messages,
        channels: add_zone_rows(
            zone_channels_only(cur.channels) + custom_channels(l.channels),
            rows,
            zone_mask(l.channels) & joined_mask,
        ),
        ..cur
    }
}

proof fn lemma_read_lists(
    st: ReadState,
    i: nat,
    cur: ChatWindowLookView,
    l: ChatWindowLookView,
    joined_mask: u32,
    stock: Seq<ChatWindowLookView>,
    rows: Seq<(u32, Seq<char>)>,
)
    requires
        st.current == Some((i, cur)),
        st.block == Block::Top,
        writable_look(l),
    ensures
        feed(st, window_lists(l, joined_mask), stock, rows) == (ReadState {
            looks: st.looks.push((i, lists_look(cur, l, rows, joined_mask))),
            current: None,
            ..st
        }),
        ends_line(window_lists(l, joined_mask)),
{
    lemma_keys();
    let mask = zone_mask(l.channels) & joined_mask;
    let b = blank_line();
    let a2 = line("MESSAGES"@);
    let a3 = string_lines(l.messages);
    let a4 = line("END"@);
    let a6 = line("CHANNELS"@);
    let a7 = custom_lines(l.channels);
    let a10 = line(key_value("ZONECHANNELS"@, decimal(mask as nat)));
    assert(window_lists(l, joined_mask) == b + a2 + a3 + a4 + b + a6 + a7 + a4 + b + a10 + b + a4
        + b);
    // the blank line
    lemma_feed_blank(st, stock, rows);
    // MESSAGES
    lemma_word_line("MESSAGES"@);
    lemma_feed_line(st, "MESSAGES"@, stock, rows);
    let c2 = ChatWindowLookView { messages: Seq::empty(), ..cur };
    let s2 = ReadState { current: Some((i, c2)), block: Block::Messages, ..st };
    assert(feed(st, a2, stock, rows) == s2);
    lemma_read_messages(s2, i, c2, l.messages, stock, rows);
    let c3 = ChatWindowLookView { messages: c2.messages + l.messages, ..c2 };
    assert(c2.messages + l.messages =~= l.messages);
    let s3 = ReadState { current: Some((i, c3)), ..s2 };
    // END of the messages
    lemma_word_line("END"@);
    lemma_feed_line(s3, "END"@, stock, rows);
    let s4 = ReadState { block: Block::Top, ..s3 };
    assert(feed(s3, a4, stock, rows) == s4);
    lemma_feed_blank(s4, stock, rows);
    // CHANNELS
    lemma_word_line("CHANNELS"@);
    lemma_feed_line(s4, "CHANNELS"@, stock, rows);
    let c6 = ChatWindowLookView { channels: zone_channels_only(c3.channels), ..c3 };
    let s6 = ReadState { current: Some((i, c6)), block: Block::Channels, ..s4 };
    assert(feed(s4, a6, stock, rows) == s6);
    lemma_read_custom_channels(s6, i, c6, l.channels, stock, rows);
    let c7 = ChatWindowLookView { channels: c6.channels + custom_channels(l.channels), ..c6 };
    let s7 = ReadState { current: Some((i, c7)), ..s6 };
    lemma_feed_line(s7, "END"@, stock, rows);
    let s8 = ReadState { block: Block::Top, ..s7 };
    assert(feed(s7, a4, stock, rows) == s8);
    lemma_feed_blank(s8, stock, rows);
    // ZONECHANNELS
    lemma_decimal_word(mask as nat);
    lemma_words_decimal(mask as nat);
    lemma_decimal_parses(mask as nat, 0xffff_ffff);
    lemma_inside_key(s8, i, c7, "ZONECHANNELS"@, decimal(mask as nat), stock, rows);
    assert(word_at(words(decimal(mask as nat)), 0) == Some(decimal(mask as nat)));
    assert(mask_value(Some(decimal(mask as nat))) == mask);
    let c10 = ChatWindowLookView {
        channels: add_zone_rows(c7.channels, rows, mask),
        ..c7
    };
    let s10 = ReadState { current: Some((i, c10)), ..s8 };
    assert(feed(s8, a10, stock, rows) == s10);
    lemma_feed_blank(s10, stock, rows);
    // END of the window
    lemma_feed_line(s10, "END"@, stock, rows);
    let s12 = ReadState { looks: st.looks.push((i, c10)), current: None, ..s10 };
    assert(feed(s10, a4, stock, rows) == s12);
    lemma_feed_blank(s12, stock, rows);
    assert(c10 == lists_look(cur, l, rows, joined_mask));
    // chaining
    let t1 = b;
    let t2 = t1 + a2;
    let t3 = t2 + a3;
    let t4 = t3 + a4;
    let t5 = t4 + b;
    let t6 = t5 + a6;
    let t7 = t6 + a7;
    let t8 = t7 + a4;
    let t9 = t8 + b;
    let t10 = t9 + a10;
    let t11 = t10 + b;
    let t12 = t11 + a4;
    let t13 = t12 + b;
    lemma_ends_line("END"@);
    lemma_ends_line("MESSAGES"@);
    lemma_ends_line("CHANNELS"@);
    lemma_ends_line(key_value("ZONECHANNELS"@, decimal(mask as nat)));
    lemma_ends_concat(t1, a2);
    lemma_ends_concat(t2, a3);
    lemma_ends_concat(t3, a4);
    lemma_ends_concat(t4, b);
    lemma_ends_concat(t5, a6);
    lemma_ends_concat(t6, a7);
    lemma_ends_concat(t7, a4);
    lemma_ends_concat(t8, b);
    lemma_ends_concat(t9, a10);
    lemma_ends_concat(t10, b);
    lemma_ends_concat(t11, a4);
    lemma_ends_concat(t12, b);
    lemma_feed_concat(st, t1, a2, stock, rows);
    lemma_feed_concat(st, t2, a3, stock, rows);
    lemma_feed_concat(st, t3, a4, stock, rows);
    lemma_feed_concat(st, t4, b, stock, rows);
    lemma_feed_concat(st, t5, a6, stock, rows);
    lemma_feed_concat(st, t6, a7, stock, rows);
    lemma_feed_concat(st, t7, a4, stock, rows);
    lemma_feed_concat(st, t8, b, stock, rows);
    lemma_feed_concat(st, t9, a10, stock, rows);
    lemma_feed_concat(st, t10, b, stock, rows);
    lemma_feed_concat(st, t11, a4, stock, rows);
    lemma_feed_concat(st, t12, b, stock, rows);
}

/// What window `l`'s block reads back as, from its boot record `boot`: every written field; the
/// boot record's name where none was written; the message groups as written; and for channels,
/// the boot record's zone channels, then the custom ones by their first words, then each catalog row
/// whose bit the written zone word (masked by the joined one) carries and whose shortcut is
/// not there yet.
pub open spec fn read_back(
    l: ChatWindowLookView,
    boot: ChatWindowLookView,
    rows: Seq<(u32, Seq<char>)>,
    joined_mask: u32,
) -> ChatWindowLookView {
    lists_look(head_look(boot, l), l, rows, joined_mask)
}

proof fn lemma_read_window(
    st: ReadState,
    i: nat,
    l: ChatWindowLookView,
    joined_mask: u32,
    stock: Seq<ChatWindowLookView>,
    rows: Seq<(u32, Seq<char>)>,
)
    requires
        st.current is None,
        st.block == Block::Top,
        writable_look(l),
        i + 1 <= usize::MAX,
    ensures
        feed(st, window_block(i, l, joined_mask), stock, rows) == (ReadState {
            looks: st.looks.push((i, read_back(l, boot_look(stock, i), rows, joined_mask))),
            ..st
        }),
        ends_line(window_block(i, l, joined_mask)),
{
    let boot = boot_look(stock, i);
    lemma_read_head(st, i, l, stock, rows);
    let s1 = ReadState { current: Some((i, head_look(boot, l))), ..st };
    lemma_read_lists(s1, i, head_look(boot, l), l, joined_mask, stock, rows);
    lemma_feed_concat(st, window_head(i, l), window_lists(l, joined_mask), stock, rows);
    lemma_ends_concat(window_head(i, l), window_lists(l, joined_mask));
}

/// The windows read back as the list of what each reads back as, indexed from 0.
pub open spec fn read_back_all(
    looks: Seq<ChatWindowLookView>,
    stock: Seq<ChatWindowLookView>,
    rows: Seq<(u32, Seq<char>)>,
    joined_mask: u32,
) -> Seq<(nat, ChatWindowLookView)> {
    Seq::new(
        looks.len(),
        |k: int| (k as nat, read_back(looks[k], boot_look(stock, k as nat), rows, joined_mask)),
    )
}

proof fn lemma_read_windows(
    st: ReadState,
    looks: Seq<ChatWindowLookView>,
    joined_mask: u32,
    stock: Seq<ChatWindowLookView>,
    rows: Seq<(u32, Seq<char>)>,
)
    requires
        st.current is None,
        st.block == Block::Top,
        looks.len() <= usize::MAX,
        forall|k: int| 0 <= k < looks.len() ==> writable_look(#[trigger] looks[k]),
    ensures
        feed(st, window_blocks(looks, joined_mask), stock, rows) == (ReadState {
            looks: st.looks + read_back_all(looks, stock, rows, joined_mask),
            ..st
        }),
        ends_line(window_blocks(looks, joined_mask)),
    decreases looks.len(),
{
    if looks.len() == 0 {
        lemma_feed_empty(st, stock, rows);
        assert(st.looks + read_back_all(looks, stock, rows, joined_mask) =~= st.looks);
        assert(ReadState { looks: st.looks, ..st } == st);
    } else {
        let ld = looks.drop_last();
        let n = (looks.len() - 1) as nat;
        assert(forall|k: int| 0 <= k < ld.len() ==> writable_look(#[trigger] ld[k])) by {
            assert forall|k: int| 0 <= k < ld.len() implies writable_look(#[trigger] ld[k]) by {
                assert(ld[k] == looks[k]);
            }
        }
        lemma_read_windows(st, ld, joined_mask, stock, rows);
        let s1 = ReadState {
            looks: st.looks + read_back_all(ld, stock, rows, joined_mask),
            ..st
        };
        assert(looks.last() == looks[n as int]);
        lemma_read_window(s1, n, looks.last(), joined_mask, stock, rows);
        lemma_feed_concat(
            st,
            window_blocks(ld, joined_mask),
            window_block(n, looks.last(), joined_mask),
            stock,
            rows,
        );
        lemma_ends_concat(window_blocks(ld, joined_mask), window_block(n, looks.last(), joined_mask));
        assert(s1.looks.push((n, read_back(looks.last(), boot_look(stock, n), rows, joined_mask)))
            =~= st.looks + read_back_all(looks, stock, rows, joined_mask));
    }
}

/// A line that starts with `#` is a comment the reader skips.
proof fn lemma_comment_line(
    st: ReadState,
    x: Seq<char>,
    stock: Seq<ChatWindowLookView>,
    rows: Seq<(u32, Seq<char>)>,
)
    requires
        x.len() > 0,
        x[0] == '#',
        no_newline(x),
    ensures
        feed(st, line(x), stock, rows) == st,
        ends_line(line(x)),
{
    lemma_feed_line(st, x, stock, rows);
    lemma_trim_head(x);
}

proof fn lemma_header_lines()
    ensures
        HEADER_1@.len() > 0 && HEADER_1@[0] == '#' && no_newline(HEADER_1@),
        HEADER_2@.len() > 0 && HEADER_2@[0] == '#' && no_newline(HEADER_2@),
        HEADER_3@.len() > 0 && HEADER_3@[0] == '#' && no_newline(HEADER_3@),
        HEADER_4@.len() > 0 && HEADER_4@[0] == '#' && no_newline(HEADER_4@),
        HEADER_5@.len() > 0 && HEADER_5@[0] == '#' && no_newline(HEADER_5@),
        HEADER_6@.len() > 0 && HEADER_6@[0] == '#' && no_newline(HEADER_6@),
{
    reveal_strlit(
        "# benilla chat cache — the chat-cache.txt grammar the game itself writes and reads:",
    );
    reveal_strlit(
        "# the custom channels to re-join, the joined zone channels as bits, the",
    );
    reveal_strlit(
        "# per-type COLORS table, then one WINDOW block per chat frame — NAME (when one was set), SIZE,",
    );
    reveal_strlit(
        "# COLOR r g b a as bytes, LOCKED, DOCKED, SHOWN, the MESSAGES … END list of the groups the window",
    );
    reveal_strlit(
        "# shows, its CHANNELS … END list of custom channels, and its zone channels as ZONECHANNELS bits.",
    );
    reveal_strlit(
        "# Written whole; the tab menu, /join and ChangeChatColor are what move it.",
    );
}

/// The comment block reads as nothing.
proof fn lemma_read_header(st: ReadState, stock: Seq<ChatWindowLookView>, rows: Seq<(u32, Seq<char>)>)
    ensures
        feed(st, header_text(), stock, rows) == st,
        ends_line(header_text()),
{
    lemma_header_lines();
    let l1 = line(HEADER_1@);
    let l2 = line(HEADER_2@);
    let l3 = line(HEADER_3@);
    let l4 = line(HEADER_4@);
    let l5 = line(HEADER_5@);
    let l6 = line(HEADER_6@);
    lemma_comment_line(st, HEADER_1@, stock, rows);
    lemma_comment_line(st, HEADER_2@, stock, rows);
    lemma_comment_line(st, HEADER_3@, stock, rows);
    lemma_comment_line(st, HEADER_4@, stock, rows);
    lemma_comment_line(st, HEADER_5@, stock, rows);
    lemma_comment_line(st, HEADER_6@, stock, rows);
    let t2 = l1 + l2;
    let t3 = t2 + l3;
    let t4 = t3 + l4;
    let t5 = t4 + l5;
    lemma_ends_concat(l1, l2);
    lemma_ends_concat(t2, l3);
    lemma_ends_concat(t3, l4);
    lemma_ends_concat(t4, l5);
    lemma_ends_concat(t5, l6);
    lemma_feed_concat(st, l1, l2, stock, rows);
    lemma_feed_concat(st, t2, l3, stock, rows);
    lemma_feed_concat(st, t3, l4, stock, rows);
    lemma_feed_concat(st, t4, l5, stock, rows);
    lemma_feed_concat(st, t5, l6, stock, rows);
}

/// A name the header's channel list can carry: clean text that is not a comment and whose first
/// word is not the block's `END`.
pub open spec fn joined_name(n: Seq<char>) -> bool {
    &&& clean_text(n)
    &&& n[0] != '#'
    &&& !eq_ignore_ascii_case(words(n)[0], "END"@)
}

/// The custom channels' names, in order.
pub open spec fn custom_names(chs: Seq<(Seq<char>, u32)>) -> Seq<Seq<char>>
    decreases chs.len(),
{
    if chs.len() == 0 {
        Seq::empty()
    } else if chs.last().1 == 0 {
        custom_names(chs.drop_last()).push(chs.last().0)
    } else {
        custom_names(chs.drop_last())
    }
}

/// A colour row the grammar can carry: a list word in capitals and three values.
pub open spec fn writable_color(c: ChatTypeColorView) -> bool {
    &&& list_word(c.name)
    &&& ascii_upper(c.name) == c.name
    &&& c.rgb.len() == 3
}

pub open spec fn color_rows(cs: Seq<ChatTypeColorView>) -> Seq<(Seq<char>, Seq<u8>)> {
    cs.map_values(|c: ChatTypeColorView| (c.name, c.rgb))
}

proof fn lemma_read_joined(
    st: ReadState,
    chs: Seq<(Seq<char>, u32)>,
    stock: Seq<ChatWindowLookView>,
    rows: Seq<(u32, Seq<char>)>,
)
    requires
        st.block == Block::Joined,
        forall|k: int| 0 <= k < chs.len() && chs[k].1 == 0 ==> joined_name(#[trigger] chs[k].0),
    ensures
        feed(st, custom_lines(chs), stock, rows) == (ReadState {
            joined: st.joined + custom_names(chs),
            ..st
        }),
        ends_line(custom_lines(chs)),
    decreases chs.len(),
{
    if chs.len() == 0 {
        lemma_feed_empty(st, stock, rows);
        assert(st.joined + custom_names(chs) =~= st.joined);
        assert(ReadState { joined: st.joined, ..st } == st);
    } else {
        let cd = chs.drop_last();
        let c = chs.last();
        assert(c == chs[chs.len() - 1]);
        lemma_read_joined(st, cd, stock, rows);
        let s1 = ReadState { joined: st.joined + custom_names(cd), ..st };
        if c.1 == 0 {
            let n = c.0;
            lemma_trim_clean(n);
            lemma_words_nonempty(n);
            lemma_feed_concat(st, custom_lines(cd), line(n), stock, rows);
            lemma_feed_line(s1, n, stock, rows);
            assert(s1.joined.push(n) =~= st.joined + custom_names(chs));
        } else {
            assert(custom_lines(chs) =~= custom_lines(cd));
        }
    }
}

proof fn lemma_rgb_words(rgb: Seq<u8>)
    requires
        rgb.len() == 3,
    ensures
        words(rgb_text(rgb)) == seq![
            decimal(rgb[0] as nat),
            decimal(rgb[1] as nat),
            decimal(rgb[2] as nat),
        ],
        rgb_text(rgb).len() > 0,
        !is_white_space(rgb_text(rgb).last()),
        no_newline(rgb_text(rgb)),
{
    let d0 = decimal(rgb[0] as nat);
    let d1 = decimal(rgb[1] as nat);
    let d2 = decimal(rgb[2] as nat);
    let sp = seq![' '];
    lemma_words_decimal(rgb[0] as nat);
    lemma_words_decimal(rgb[1] as nat);
    lemma_words_decimal(rgb[2] as nat);
    lemma_decimal_word(rgb[0] as nat);
    lemma_decimal_word(rgb[1] as nat);
    lemma_decimal_word(rgb[2] as nat);
    lemma_words_space();
    let t1 = d0 + sp;
    lemma_words_concat(d0, sp);
    let t2 = t1 + d1;
    lemma_words_concat(t1, d1);
    let t3 = t2 + sp;
    lemma_words_concat(t2, sp);
    let t4 = t3 + d2;
    lemma_words_concat(t3, d2);
    assert(t4 == rgb_text(rgb));
    assert(words(t4) =~= seq![d0, d1, d2]);
    assert(t4.last() == d2.last());
    assert forall|j: int| 0 <= j < t4.len() implies #[trigger] t4[j] != '\n' by {
        let a = d0.len() as int;
        let b = a + 1 + d1.len();
        if j < a {
            assert(t4[j] == d0[j]);
        } else if j == a {
            assert(t4[j] == ' ');
        } else if j < b {
            assert(t4[j] == d1[j - a - 1]);
        } else if j == b {
            assert(t4[j] == ' ');
        } else {
            assert(t4[j] == d2[j - b - 1]);
        }
    }
}

proof fn lemma_color_row_line(
    st: ReadState,
    c: ChatTypeColorView,
    stock: Seq<ChatWindowLookView>,
    rows: Seq<(u32, Seq<char>)>,
)
    requires
        st.block == Block::Colors,
        writable_color(c),
    ensures
        feed(st, color_line(c), stock, rows) == (ReadState {
            colors: st.colors.push((c.name, c.rgb)),
            ..st
        }),
{
    let v = rgb_text(c.rgb);
    lemma_rgb_words(c.rgb);
    lemma_key_line(c.name, v);
    lemma_feed_line(st, key_value(c.name, v), stock, rows);
    let ws = seq![c.name] + words(v);
    assert(ws[0] == c.name);
    let rest = ws.drop_first();
    assert(rest =~= words(v));
    lemma_decimal_parses(c.rgb[0] as nat, 255);
    lemma_decimal_parses(c.rgb[1] as nat, 255);
    lemma_decimal_parses(c.rgb[2] as nat, 255);
    assert(word_at(rest, 0) == Some(decimal(c.rgb[0] as nat)));
    assert(word_at(rest, 1) == Some(decimal(c.rgb[1] as nat)));
    assert(word_at(rest, 2) == Some(decimal(c.rgb[2] as nat)));
    assert(seq![
        byte_value(word_at(rest, 0)),
        byte_value(word_at(rest, 1)),
        byte_value(word_at(rest, 2)),
    ] =~= c.rgb);
}

proof fn lemma_read_colors(
    st: ReadState,
    cs: Seq<ChatTypeColorView>,
    stock: Seq<ChatWindowLookView>,
    rows: Seq<(u32, Seq<char>)>,
)
    requires
        st.block == Block::Colors,
        forall|k: int| 0 <= k < cs.len() ==> writable_color(#[trigger] cs[k]),
    ensures
        feed(st, color_lines(cs), stock, rows) == (ReadState {
            colors: st.colors + color_rows(cs),
            ..st
        }),
        ends_line(color_lines(cs)),
    decreases cs.len(),
{
    if cs.len() == 0 {
        lemma_feed_empty(st, stock, rows);
        assert(st.colors + color_rows(cs) =~= st.colors);
        assert(ReadState { colors: st.colors, ..st } == st);
    } else {
        let cd = cs.drop_last();
        let c = cs.last();
        assert(c == cs[cs.len() - 1]);
        assert(forall|k: int| 0 <= k < cd.len() ==> writable_color(#[trigger] cd[k])) by {
            assert forall|k: int| 0 <= k < cd.len() implies writable_color(#[trigger] cd[k]) by {
                assert(cd[k] == cs[k]);
            }
        }
        lemma_read_colors(st, cd, stock, rows);
        let s1 = ReadState { colors: st.colors + color_rows(cd), ..st };
        lemma_color_row_line(s1, c, stock, rows);
        lemma_feed_concat(st, color_lines(cd), color_line(c), stock, rows);
        lemma_ends_line(key_value(c.name, rgb_text(c.rgb)));
        lemma_ends_concat(color_lines(cd), color_line(c));
        assert(s1.colors.push((c.name, c.rgb)) =~= st.colors + color_rows(cs));
    }
}

proof fn lemma_outside_key(
    st: ReadState,
    k: Seq<char>,
    v: Seq<char>,
    stock: Seq<ChatWindowLookView>,
    rows: Seq<(u32, Seq<char>)>,
)
    requires
        st.current is None,
        st.block == Block::Top,
        is_key(k),
        v.len() > 0,
        !is_white_space(v.last()),
        no_newline(v),
        !eq_ignore_ascii_case(k, "COLORS"@),
        !eq_ignore_ascii_case(k, "WINDOW"@),
        !eq_ignore_ascii_case(k, "CHANNELS"@),
    ensures
        feed(st, line(key_value(k, v)), stock, rows) == (if eq_ignore_ascii_case(
            k,
            "ADDEDVERSION"@,
        ) {
            ReadState { added: byte_value(word_at(words(v), 0)), ..st }
        } else {
            st
        }),
{
    lemma_key_line(k, v);
    lemma_feed_line(st, key_value(k, v), stock, rows);
    let ws = seq![k] + words(v);
    assert(ws[0] == k);
    assert(ws.drop_first() =~= words(v));
}

/// A line holding one key, read in a block or at the top level.
proof fn lemma_bare_key(
    st: ReadState,
    k: Seq<char>,
    stock: Seq<ChatWindowLookView>,
    rows: Seq<(u32, Seq<char>)>,
)
    requires
        is_key(k),
    ensures
        feed(st, line(k), stock, rows) == read_line(st, k, stock, rows),
        trim(k) == k,
        words(k) == seq![k],
        seq![k][0] == k,
        seq![k].drop_first() == Seq::<Seq<char>>::empty(),
{
    lemma_word_line(k);
    lemma_feed_line(st, k, stock, rows);
    assert(seq![k].drop_first() =~= Seq::<Seq<char>>::empty());
}

proof fn lemma_read_preamble(stock: Seq<ChatWindowLookView>, rows: Seq<(u32, Seq<char>)>)
    ensures
        feed(fresh_read(), preamble(), stock, rows) == (ReadState { added: 2, ..fresh_read() }),
        ends_line(preamble()),
{
    lemma_keys();
    let s0 = fresh_read();
    let b = blank_line();
    let h = header_text();
    let two = seq!['2'];
    assert(two == decimal(2));
    lemma_decimal_word(2);
    lemma_words_decimal(2);
    lemma_decimal_parses(2, 255);
    let v = line(key_value("VERSION"@, two));
    let a = line(key_value("ADDEDVERSION"@, two));
    let o = line(key_value("OPTION_GUILD_RECRUITMENT_CHANNEL"@, "AUTO"@));
    assert(preamble() == h + b + v + b + a + b + o + b);
    lemma_read_header(s0, stock, rows);
    lemma_feed_blank(s0, stock, rows);
    lemma_outside_key(s0, "VERSION"@, two, stock, rows);
    assert(two.last() == two[0]);
    assert(feed(s0, v, stock, rows) == s0);
    lemma_outside_key(s0, "ADDEDVERSION"@, two, stock, rows);
    assert(word_at(words(two), 0) == Some(two));
    let s1 = ReadState { added: 2, ..s0 };
    assert(feed(s0, a, stock, rows) == s1);
    lemma_feed_blank(s1, stock, rows);
    lemma_word_line("AUTO"@);
    assert("AUTO"@.last() == "AUTO"@["AUTO"@.len() - 1]);
    lemma_outside_key(s1, "OPTION_GUILD_RECRUITMENT_CHANNEL"@, "AUTO"@, stock, rows);
    assert(feed(s1, o, stock, rows) == s1);
    let t1 = h;
    let t2 = t1 + b;
    let t3 = t2 + v;
    let t4 = t3 + b;
    let t5 = t4 + a;
    let t6 = t5 + b;
    let t7 = t6 + o;
    let t8 = t7 + b;
    lemma_ends_line(key_value("VERSION"@, two));
    lemma_ends_line(key_value("ADDEDVERSION"@, two));
    lemma_ends_line(key_value("OPTION_GUILD_RECRUITMENT_CHANNEL"@, "AUTO"@));
    lemma_ends_concat(t1, b);
    lemma_ends_concat(t2, v);
    lemma_ends_concat(t3, b);
    lemma_ends_concat(t4, a);
    lemma_ends_concat(t5, b);
    lemma_ends_concat(t6, o);
    lemma_ends_concat(t7, b);
    lemma_feed_concat(s0, t1, b, stock, rows);
    lemma_feed_concat(s0, t2, v, stock, rows);
    lemma_feed_concat(s0, t3, b, stock, rows);
    lemma_feed_concat(s0, t4, a, stock, rows);
    lemma_feed_concat(s0, t5, b, stock, rows);
    lemma_feed_concat(s0, t6, o, stock, rows);
    lemma_feed_concat(s0, t7, b, stock, rows);
}

proof fn lemma_read_joined_part(
    st: ReadState,
    joined: Seq<(Seq<char>, u32)>,
    stock: Seq<ChatWindowLookView>,
    rows: Seq<(u32, Seq<char>)>,
)
    requires
        st.current is None,
        st.block == Block::Top,
        forall|k: int|
            0 <= k < joined.len() && joined[k].1 == 0 ==> joined_name(#[trigger] joined[k].0),
    ensures
        feed(st, joined_part(joined), stock, rows) == (ReadState {
            joined: st.joined + custom_names(joined),
            ..st
        }),
        ends_line(joined_part(joined)),
{
    lemma_keys();
    let zm = zone_mask(joined);
    let b = blank_line();
    let ch = line("CHANNELS"@);
    let js = custom_lines(joined);
    let e = line("END"@);
    let z = line(key_value("ZONECHANNELS"@, decimal(zm as nat)));
    assert(joined_part(joined) == ch + js + e + b + z + b);
    lemma_bare_key(st, "CHANNELS"@, stock, rows);
    let s2 = ReadState { block: Block::Joined, ..st };
    assert(feed(st, ch, stock, rows) == s2);
    lemma_read_joined(s2, joined, stock, rows);
    let s3 = ReadState { joined: st.joined + custom_names(joined), ..s2 };
    lemma_bare_key(s3, "END"@, stock, rows);
    let s4 = ReadState { block: Block::Top, ..s3 };
    assert(feed(s3, e, stock, rows) == s4);
    lemma_feed_blank(s4, stock, rows);
    lemma_decimal_word(zm as nat);
    lemma_outside_key(s4, "ZONECHANNELS"@, decimal(zm as nat), stock, rows);
    assert(feed(s4, z, stock, rows) == s4);
    let t1 = ch;
    let t2 = t1 + js;
    let t3 = t2 + e;
    let t4 = t3 + b;
    let t5 = t4 + z;
    let t6 = t5 + b;
    lemma_ends_line("CHANNELS"@);
    lemma_ends_line("END"@);
    lemma_ends_line(key_value("ZONECHANNELS"@, decimal(zm as nat)));
    lemma_ends_concat(t1, js);
    lemma_ends_concat(t2, e);
    lemma_ends_concat(t3, b);
    lemma_ends_concat(t4, z);
    lemma_ends_concat(t5, b);
    lemma_feed_concat(st, t1, js, stock, rows);
    lemma_feed_concat(st, t2, e, stock, rows);
    lemma_feed_concat(st, t3, b, stock, rows);
    lemma_feed_concat(st, t4, z, stock, rows);
    lemma_feed_concat(st, t5, b, stock, rows);
}

proof fn lemma_read_colors_part(
    st: ReadState,
    colors: Seq<ChatTypeColorView>,
    stock: Seq<ChatWindowLookView>,
    rows: Seq<(u32, Seq<char>)>,
)
    requires
        st.block == Block::Top,
        forall|k: int| 0 <= k < colors.len() ==> writable_color(#[trigger] colors[k]),
    ensures
        feed(st, colors_part(colors), stock, rows) == (ReadState {
            colors: st.colors + color_rows(colors),
            ..st
        }),
        ends_line(colors_part(colors)),
{
    lemma_keys();
    let b = blank_line();
    let co = line("COLORS"@);
    let cl = color_lines(colors);
    let e = line("END"@);
    assert(colors_part(colors) == co + cl + e + b);
    lemma_bare_key(st, "COLORS"@, stock, rows);
    let s5 = ReadState { block: Block::Colors, ..st };
    assert(feed(st, co, stock, rows) == s5);
    lemma_read_colors(s5, colors, stock, rows);
    let s6 = ReadState { colors: st.colors + color_rows(colors), ..s5 };
    lemma_bare_key(s6, "END"@, stock, rows);
    let s7 = ReadState { block: Block::Top, ..s6 };
    assert(feed(s6, e, stock, rows) == s7);
    lemma_feed_blank(s7, stock, rows);
    let t1 = co;
    let t2 = t1 + cl;
    let t3 = t2 + e;
    lemma_ends_line("COLORS"@);
    lemma_ends_line("END"@);
    lemma_ends_concat(t1, cl);
    lemma_ends_concat(t2, e);
    lemma_ends_concat(t3, b);
    lemma_feed_concat(st, t1, cl, stock, rows);
    lemma_feed_concat(st, t2, e, stock, rows);
    lemma_feed_concat(st, t3, b, stock, rows);
}

proof fn lemma_read_top(
    colors: Seq<ChatTypeColorView>,
    joined: Seq<(Seq<char>, u32)>,
    stock: Seq<ChatWindowLookView>,
    rows: Seq<(u32, Seq<char>)>,
)
    requires
        forall|k: int| 0 <= k < colors.len() ==> writable_color(#[trigger] colors[k]),
        forall|k: int|
            0 <= k < joined.len() && joined[k].1 == 0 ==> joined_name(#[trigger] joined[k].0),
    ensures
        feed(fresh_read(), top_section(colors, joined), stock, rows) == (ReadState {
            colors: color_rows(colors),
            joined: custom_names(joined),
            added: 2,
            ..fresh_read()
        }),
        ends_line(top_section(colors, joined)),
{
    let s0 = fresh_read();
    lemma_read_preamble(stock, rows);
    let s1 = ReadState { added: 2, ..s0 };
    lemma_read_joined_part(s1, joined, stock, rows);
    let s2 = ReadState { joined: s1.joined + custom_names(joined), ..s1 };
    assert(s1.joined + custom_names(joined) =~= custom_names(joined));
    lemma_read_colors_part(s2, colors, stock, rows);
    assert(s2.colors + color_rows(colors) =~= color_rows(colors));
    lemma_feed_concat(s0, preamble(), joined_part(joined), stock, rows);
    lemma_ends_concat(preamble(), joined_part(joined));
    lemma_feed_concat(s0, preamble() + joined_part(joined), colors_part(colors), stock, rows);
    lemma_ends_concat(preamble() + joined_part(joined), colors_part(colors));
}

/// A custom channel name that is a single list word fits on a channel line and reads back as
/// itself.
pub proof fn lemma_word_channel_reads_back(w: Seq<char>)
    requires
        list_word(w),
    ensures
        channel_name(w),
        first_word(w) == w,
{
    lemma_word_line(w);
    assert(seq![w][0] == w);
}

/// **The file round-trips.** Reading back what [`crate::chat_cache::render`] wrote for windows
/// `looks`, colour rows `colors` and joined channels `joined` — whatever the boot records
/// `stock`, the zone-channel catalog `rows` and the message-group table `groups` — gives every
/// window at its index with every written field (see [`read_back`]: the boot record's name
/// where none was written, and the channels as the custom ones, each by its name's first word,
/// after the boot record's zone channels, followed by the catalog rows the window's masked zone
/// word names), the colour rows
/// in order, and the joined custom channels in order; nothing is back-filled, the file being of
/// the current version. What the grammar cannot carry is left out: text with a line feed or
/// with whitespace at its ends, list words that are comments or `END`, custom channel names
/// that are blank, comments or start with `END`, message groups and
/// colour names not in capitals, a negative size, and a dock position of 0.
pub proof fn lemma_file_round_trips(
    looks: Seq<ChatWindowLookView>,
    colors: Seq<ChatTypeColorView>,
    joined: Seq<(Seq<char>, u32)>,
    stock: Seq<ChatWindowLookView>,
    rows: Seq<(u32, Seq<char>)>,
    groups: Seq<MessageGroupView>,
)
    requires
        looks.len() <= usize::MAX,
        forall|k: int| 0 <= k < looks.len() ==> writable_look(#[trigger] looks[k]),
        forall|k: int| 0 <= k < colors.len() ==> writable_color(#[trigger] colors[k]),
        forall|k: int|
            0 <= k < joined.len() && joined[k].1 == 0 ==> joined_name(#[trigger] joined[k].0),
    ensures
        parsed(rendered(looks, colors, joined), stock, rows, groups) == (ParsedView {
            looks: read_back_all(looks, stock, rows, zone_mask(joined)),
            colors: color_rows(colors),
            joined: custom_names(joined),
        }),
{
    let zm = zone_mask(joined);
    let top = top_section(colors, joined);
    let wins = window_blocks(looks, zm);
    lemma_read_top(colors, joined, stock, rows);
    let s1 = ReadState {
        colors: color_rows(colors),
        joined: custom_names(joined),
        added: 2,
        ..fresh_read()
    };
    lemma_read_windows(s1, looks, zm, stock, rows);
    lemma_feed_concat(fresh_read(), top, wins, stock, rows);
    lemma_ends_concat(top, wins);
    lemma_read_whole_lines(top + wins, stock, rows);
    let s2 = ReadState { looks: s1.looks + read_back_all(looks, stock, rows, zm), ..s1 };
    assert(s1.looks + read_back_all(looks, stock, rows, zm) =~= read_back_all(
        looks,
        stock,
        rows,
        zm,
    ));
    assert(flush(s2) == s2);
}

/// Field by field: every window of a rendered file reads back under its own index with the
/// colour, size, lock, dock, shown flag and message groups it was written with, and with its
/// name, or the boot record's name where it had none; the colour rows come back in order, and
/// the custom channels to re-join come back in order as their names.
pub proof fn lemma_round_trip_fields(
    looks: Seq<ChatWindowLookView>,
    colors: Seq<ChatTypeColorView>,
    joined: Seq<(Seq<char>, u32)>,
    stock: Seq<ChatWindowLookView>,
    rows: Seq<(u32, Seq<char>)>,
    groups: Seq<MessageGroupView>,
)
    requires
        looks.len() <= usize::MAX,
        forall|k: int| 0 <= k < looks.len() ==> writable_look(#[trigger] looks[k]),
        forall|k: int| 0 <= k < colors.len() ==> writable_color(#[trigger] colors[k]),
        forall|k: int|
            0 <= k < joined.len() && joined[k].1 == 0 ==> joined_name(#[trigger] joined[k].0),
    ensures
        ({
            let p = parsed(rendered(looks, colors, joined), stock, rows, groups);
            &&& p.looks.len() == looks.len()
            &&& forall|i: int|
                #![trigger p.looks[i]]
                0 <= i < looks.len() ==> {
                    let (k, w) = p.looks[i];
                    let l = looks[i];
                    &&& k == i
                    &&& w.r == l.r && w.g == l.g && w.b == l.b && w.a == l.a
                    &&& w.font_size == l.font_size
                    &&& w.locked == l.locked
                    &&& w.docked == l.docked
                    &&& w.shown == l.shown
                    &&& w.messages == l.messages
                    &&& w.name == (if l.name.len() == 0 {
                        boot_look(stock, i as nat).name
                    } else {
                        l.name
                    })
                }
            &&& p.colors == color_rows(colors)
            &&& p.joined == custom_names(joined)
        }),
{
    lemma_file_round_trips(looks, colors, joined, stock, rows, groups);
}

} // verus!
