//! The chat windows' saved state, as text: the custom channels to re-join, the joined zone
//! channels as a bit word, the per-type colour table, and one block per chat window — its name,
//! font size, tint and alpha, lock, dock position, shown flag, the message groups it shows, its
//! custom channels and its zone channels as bits.
//!
//! [`render`] writes the whole record; [`parse`] reads it back as leniently as the game's own
//! loader does: keys in any case, an unknown key skipped, blank and `#` lines nothing, and the
//! older one-line `WINDOW 1  SIZE 0  COLOR …` rows still understood.

use vstd::prelude::*;
use vstd::string::*;

use crate::text::{
    all_digits, ascii_upper, ascii_upper_char, char_ascii_upper, char_is_white_space, chars_of,
    digits_in, digits_upto, eq_ignore_ascii_case, is_white_space, parse_i32, parse_unsigned_upto,
    push_char, str_eq_ignore_ascii_case, trim, trim_end, trim_start, unsigned_digits, words,
};

verus! {

/// One chat window's saved record.
#[derive(Clone, Debug, Default, PartialEq, Eq)]
pub struct ChatWindowLook {
    pub name: String,
    pub font_size: i32,
    pub r: u8,
    pub g: u8,
    pub b: u8,
    pub a: u8,
    pub locked: bool,
    /// The dock position, `None` for a floating window.
    pub docked: Option<u8>,
    pub shown: bool,
    /// The message groups the window shows.
    pub messages: Vec<String>,
    /// The window's channels: a custom channel by name with id 0, a zone channel by its
    /// shortcut and id.
    pub channels: Vec<(String, u32)>,
}

pub struct ChatWindowLookView {
    pub name: Seq<char>,
    pub font_size: i32,
    pub r: u8,
    pub g: u8,
    pub b: u8,
    pub a: u8,
    pub locked: bool,
    pub docked: Option<u8>,
    pub shown: bool,
    pub messages: Seq<Seq<char>>,
    pub channels: Seq<(Seq<char>, u32)>,
}

/// A list of strings as character sequences.
pub open spec fn strings_view(v: Seq<String>) -> Seq<Seq<char>> {
    v.map_values(|s: String| s@)
}

/// A list of named ids as character sequences and ids.
pub open spec fn pairs_view(v: Seq<(String, u32)>) -> Seq<(Seq<char>, u32)> {
    v.map_values(|p: (String, u32)| (p.0@, p.1))
}

impl View for ChatWindowLook {
    type V = ChatWindowLookView;

    open spec fn view(&self) -> ChatWindowLookView {
        ChatWindowLookView {
            name: self.name@,
            font_size: self.font_size,
            r: self.r,
            g: self.g,
            b: self.b,
            a: self.a,
            locked: self.locked,
            docked: self.docked,
            shown: self.shown,
            messages: strings_view(self.messages@),
            channels: pairs_view(self.channels@),
        }
    }
}

/// One row of the chat-type colour table.
#[derive(Clone, Debug, PartialEq, Eq)]
pub struct ChatTypeColor {
    pub name: String,
    pub rgb: [u8; 3],
}

pub struct ChatTypeColorView {
    pub name: Seq<char>,
    pub rgb: Seq<u8>,
}

impl View for ChatTypeColor {
    type V = ChatTypeColorView;

    open spec fn view(&self) -> ChatTypeColorView {
        ChatTypeColorView { name: self.name@, rgb: self.rgb@ }
    }
}

/// The bit a zone channel's id occupies in a zone-channel word: `1 << (id - 1)` for ids 1 to
/// 32, none for any other id.
pub open spec fn spec_zone_bit(id: u32) -> u32 {
    if id == 0 || id > 32 {
        0
    } else {
        1u32 << ((id - 1) as u32)
    }
}

pub fn zone_bit(id: u32) -> (bit: u32)
    ensures
        bit == spec_zone_bit(id),
{
    if id == 0 || id > 32 {
        0
    } else {
        1u32 << (id - 1)
    }
}

/// The zone-channel word of a channel list: the bits of its ids, or-ed in list order.
pub open spec fn zone_mask(chs: Seq<(Seq<char>, u32)>) -> u32
    decreases chs.len(),
{
    if chs.len() == 0 {
        0
    } else {
        zone_mask(chs.drop_last()) | spec_zone_bit(chs.last().1)
    }
}

/// The character of a decimal digit.
pub open spec fn digit_char(d: nat) -> char {
    (('0' as u32) + d) as char
}

/// The decimal numeral of `n`, without leading zeros.
pub open spec fn decimal(n: nat) -> Seq<char>
    decreases n,
{
    if n < 10 {
        seq![digit_char(n)]
    } else {
        decimal(n / 10).push(digit_char(n % 10))
    }
}

/// The decimal numeral of `i`, with a `-` before a negative one.
pub open spec fn signed_decimal(i: int) -> Seq<char> {
    if i < 0 {
        seq!['-'] + decimal((-i) as nat)
    } else {
        decimal(i as nat)
    }
}

fn digit(d: u64) -> (c: char)
    requires
        d < 10,
    ensures
        c == digit_char(d as nat),
{
    (48u8 + d as u8) as char
}

/// Appends the decimal numeral of `n`.
pub(crate) fn push_decimal(out: &mut String, n: u64)
    ensures
        final(out)@ == old(out)@ + decimal(n as nat),
    decreases n,
{
    if n >= 10 {
        push_decimal(out, n / 10);
    }
    push_char(out, digit(n % 10));
    proof {
        if n >= 10 {
            assert(old(out)@ + decimal(n as nat) =~= (old(out)@ + decimal((n / 10) as nat)).push(
                digit_char((n % 10) as nat),
            ));
        } else {
            assert(old(out)@ + decimal(n as nat) =~= old(out)@.push(digit_char(n as nat)));
        }
    }
}

/// Appends the decimal numeral of `i`, signed.
fn push_signed_decimal(out: &mut String, i: i32)
    ensures
        final(out)@ == old(out)@ + signed_decimal(i as int),
{
    if i < 0 {
        push_char(out, '-');
        let m: i64 = -(i as i64);
        push_decimal(out, m as u64);
        assert(final(out)@ =~= old(out)@ + signed_decimal(i as int));
    } else {
        push_decimal(out, i as u64);
    }
}

/// A line of the file: its text and a line feed.
pub open spec fn line(x: Seq<char>) -> Seq<char> {
    x.push('\n')
}

/// An empty line.
pub open spec fn blank_line() -> Seq<char> {
    seq!['\n']
}

/// A key and its value, one space apart.
pub open spec fn key_value(key: Seq<char>, value: Seq<char>) -> Seq<char> {
    key + seq![' '] + value
}

/// The lines naming the custom channels of a list (id 0), one per line, list order.
pub open spec fn custom_lines(chs: Seq<(Seq<char>, u32)>) -> Seq<char>
    decreases chs.len(),
{
    if chs.len() == 0 {
        Seq::empty()
    } else {
        custom_lines(chs.drop_last()) + if chs.last().1 == 0 {
            line(chs.last().0)
        } else {
            Seq::empty()
        }
    }
}

/// One line per string, in order.
pub open spec fn string_lines(ss: Seq<Seq<char>>) -> Seq<char>
    decreases ss.len(),
{
    if ss.len() == 0 {
        Seq::empty()
    } else {
        string_lines(ss.drop_last()) + line(ss.last())
    }
}

/// Three byte values, one space apart.
pub open spec fn rgb_text(rgb: Seq<u8>) -> Seq<char> {
    decimal(rgb[0] as nat) + seq![' '] + decimal(rgb[1] as nat) + seq![' '] + decimal(
        rgb[2] as nat,
    )
}

/// A colour row: the type's name and its three channel values.
pub open spec fn color_line(c: ChatTypeColorView) -> Seq<char> {
    line(key_value(c.name, rgb_text(c.rgb)))
}

pub open spec fn color_lines(cs: Seq<ChatTypeColorView>) -> Seq<char>
    decreases cs.len(),
{
    if cs.len() == 0 {
        Seq::empty()
    } else {
        color_lines(cs.drop_last()) + color_line(cs.last())
    }
}

/// A flag as the file writes it.
pub open spec fn flag_digit(b: bool) -> Seq<char> {
    if b {
        seq!['1']
    } else {
        seq!['0']
    }
}

/// The `NAME` line, written only for a window with a name.
pub open spec fn name_line(name: Seq<char>) -> Seq<char> {
    if name.len() == 0 {
        Seq::empty()
    } else {
        line(key_value("NAME"@, name))
    }
}

/// A window's tint and alpha as the `COLOR` line writes them.
pub open spec fn rgba_text(l: ChatWindowLookView) -> Seq<char> {
    decimal(l.r as nat) + seq![' '] + decimal(l.g as nat) + seq![' '] + decimal(l.b as nat)
        + seq![' '] + decimal(l.a as nat)
}

/// The dock position as written: `0` for a floating window.
pub open spec fn dock_number(d: Option<u8>) -> nat {
    match d {
        Some(p) => p as nat,
        None => 0,
    }
}

/// The `WINDOW` line of window `i` (0-based) and its field lines, through `SHOWN`.
pub open spec fn window_head(i: nat, l: ChatWindowLookView) -> Seq<char> {
    line(key_value("WINDOW"@, decimal(i + 1))) + name_line(l.name) + line(
        key_value("SIZE"@, signed_decimal(l.font_size as int)),
    ) + line(key_value("COLOR"@, rgba_text(l))) + line(key_value("LOCKED"@, flag_digit(l.locked)))
        + line(key_value("DOCKED"@, decimal(dock_number(l.docked)))) + line(
        key_value("SHOWN"@, flag_digit(l.shown)),
    )
}

/// The `MESSAGES`, `CHANNELS` and `ZONECHANNELS` parts of a window's block, and its `END`.
pub open spec fn window_lists(l: ChatWindowLookView, joined_mask: u32) -> Seq<char> {
    blank_line() + line("MESSAGES"@) + string_lines(l.messages) + line("END"@) + blank_line()
        + line("CHANNELS"@) + custom_lines(l.channels) + line("END"@) + blank_line() + line(
        key_value("ZONECHANNELS"@, decimal((zone_mask(l.channels) & joined_mask) as nat)),
    ) + blank_line() + line("END"@) + blank_line()
}

/// The block of window `i` (0-based) whose zone bits are masked by `joined_mask`.
pub open spec fn window_block(i: nat, l: ChatWindowLookView, joined_mask: u32) -> Seq<char> {
    window_head(i, l) + window_lists(l, joined_mask)
}

pub open spec fn window_blocks(looks: Seq<ChatWindowLookView>, joined_mask: u32) -> Seq<char>
    decreases looks.len(),
{
    if looks.len() == 0 {
        Seq::empty()
    } else {
        window_blocks(looks.drop_last(), joined_mask) + window_block(
            (looks.len() - 1) as nat,
            looks.last(),
            joined_mask,
        )
    }
}

/// The comment block a written file starts with, one line per constant.
pub const HEADER_1: &'static str = "# benilla chat cache — the chat-cache.txt grammar the game itself writes and reads:";

pub const HEADER_2: &'static str = "# the custom channels to re-join, the joined zone channels as bits, the";

pub const HEADER_3: &'static str = "# per-type COLORS table, then one WINDOW block per chat frame — NAME (when one was set), SIZE,";

pub const HEADER_4: &'static str = "# COLOR r g b a as bytes, LOCKED, DOCKED, SHOWN, the MESSAGES … END list of the groups the window";

pub const HEADER_5: &'static str = "# shows, its CHANNELS … END list of custom channels, and its zone channels as ZONECHANNELS bits.";

pub const HEADER_6: &'static str = "# Written whole; the tab menu, /join and ChangeChatColor are what move it.";

/// The comment block, each line ended.
pub open spec fn header_text() -> Seq<char> {
    line(HEADER_1@) + line(HEADER_2@) + line(HEADER_3@) + line(HEADER_4@) + line(HEADER_5@)
        + line(HEADER_6@)
}

pub open spec fn looks_view(looks: Seq<ChatWindowLook>) -> Seq<ChatWindowLookView> {
    looks.map_values(|l: ChatWindowLook| l@)
}

pub open spec fn colors_view(cs: Seq<ChatTypeColor>) -> Seq<ChatTypeColorView> {
    cs.map_values(|c: ChatTypeColor| c@)
}

/// The header comment and the version lines.
pub open spec fn preamble() -> Seq<char> {
    header_text() + blank_line() + line(key_value("VERSION"@, seq!['2'])) + blank_line()
        + line(key_value("ADDEDVERSION"@, seq!['2'])) + blank_line() + line(
        key_value("OPTION_GUILD_RECRUITMENT_CHANNEL"@, "AUTO"@),
    ) + blank_line()
}

/// The joined custom channels and the joined zone word.
pub open spec fn joined_part(joined: Seq<(Seq<char>, u32)>) -> Seq<char> {
    line("CHANNELS"@) + custom_lines(joined) + line("END"@) + blank_line() + line(
        key_value("ZONECHANNELS"@, decimal(zone_mask(joined) as nat)),
    ) + blank_line()
}

/// The colour rows.
pub open spec fn colors_part(colors: Seq<ChatTypeColorView>) -> Seq<char> {
    line("COLORS"@) + color_lines(colors) + line("END"@) + blank_line()
}

/// Everything before the window blocks: the header comment, the version lines, the joined
/// custom channels and zone word, and the colour rows.
pub open spec fn top_section(colors: Seq<ChatTypeColorView>, joined: Seq<(Seq<char>, u32)>) -> Seq<
    char,
> {
    preamble() + joined_part(joined) + colors_part(colors)
}

/// The whole file for these windows, colour rows and joined channels.
pub open spec fn rendered(
    looks: Seq<ChatWindowLookView>,
    colors: Seq<ChatTypeColorView>,
    joined: Seq<(Seq<char>, u32)>,
) -> Seq<char> {
    top_section(colors, joined) + window_blocks(looks, zone_mask(joined))
}

/// Appends `s` and a line feed.
fn push_line(out: &mut String, s: &str)
    ensures
        final(out)@ == old(out)@ + line(s@),
{
    out.append(s);
    push_char(out, '\n');
    assert(final(out)@ =~= old(out)@ + line(s@));
}

/// Appends an empty line.
fn push_blank(out: &mut String)
    ensures
        final(out)@ == old(out)@ + blank_line(),
{
    push_char(out, '\n');
    assert(final(out)@ =~= old(out)@ + blank_line());
}

/// Appends a key, a space and the decimal numeral of `n`, as one line.
fn push_key_number(out: &mut String, key: &str, n: u64)
    ensures
        final(out)@ == old(out)@ + line(key_value(key@, decimal(n as nat))),
{
    out.append(key);
    push_char(out, ' ');
    push_decimal(out, n);
    push_char(out, '\n');
    assert(final(out)@ =~= old(out)@ + line(key_value(key@, decimal(n as nat))));
}

/// Appends the custom names of `chs` one per line, and answers the zone word of `chs`.
fn push_channels(out: &mut String, chs: &[(String, u32)]) -> (mask: u32)
    ensures
        final(out)@ == old(out)@ + custom_lines(pairs_view(chs@)),
        mask == zone_mask(pairs_view(chs@)),
{
    let ghost v = pairs_view(chs@);
    let mut mask: u32 = 0;
    let mut k: usize = 0;
    while k < chs.len()
        invariant
            k <= chs.len(),
            v == pairs_view(chs@),
            out@ == old(out)@ + custom_lines(v.take(k as int)),
            mask == zone_mask(v.take(k as int)),
        decreases chs.len() - k,
    {
        let (name, id) = (&chs[k].0, chs[k].1);
        assert(v.take(k + 1).drop_last() =~= v.take(k as int));
        if id == 0 {
            push_line(out, name.as_str());
        }
        mask = mask | zone_bit(id);
        k = k + 1;
        assert(out@ =~= old(out)@ + custom_lines(v.take(k as int)));
    }
    assert(v.take(k as int) =~= v);
    mask
}

/// Appends one line per string.
fn push_lines(out: &mut String, ss: &[String])
    ensures
        final(out)@ == old(out)@ + string_lines(strings_view(ss@)),
{
    let ghost v = strings_view(ss@);
    let mut k: usize = 0;
    while k < ss.len()
        invariant
            k <= ss.len(),
            v == strings_view(ss@),
            out@ == old(out)@ + string_lines(v.take(k as int)),
        decreases ss.len() - k,
    {
        assert(v.take(k + 1).drop_last() =~= v.take(k as int));
        push_line(out, ss[k].as_str());
        k = k + 1;
        assert(out@ =~= old(out)@ + string_lines(v.take(k as int)));
    }
    assert(v.take(k as int) =~= v);
}

/// Appends a key and a flag, as one line.
fn push_key_flag(out: &mut String, key: &str, b: bool)
    ensures
        final(out)@ == old(out)@ + line(key_value(key@, flag_digit(b))),
{
    out.append(key);
    push_char(out, ' ');
    push_char(out, if b { '1' } else { '0' });
    push_char(out, '\n');
    assert(final(out)@ =~= old(out)@ + line(key_value(key@, flag_digit(b))));
}

fn push_name_line(out: &mut String, name: &String)
    ensures
        final(out)@ == old(out)@ + name_line(name@),
{
    if name.as_str().unicode_len() > 0 {
        out.append("NAME");
        push_char(out, ' ');
        push_line(out, name.as_str());
        assert(final(out)@ =~= old(out)@ + name_line(name@));
    } else {
        assert(final(out)@ =~= old(out)@ + name_line(name@));
    }
}

fn push_size_line(out: &mut String, font_size: i32)
    ensures
        final(out)@ == old(out)@ + line(key_value("SIZE"@, signed_decimal(font_size as int))),
{
    out.append("SIZE");
    push_char(out, ' ');
    push_signed_decimal(out, font_size);
    push_char(out, '\n');
    assert(final(out)@ =~= old(out)@ + line(key_value("SIZE"@, signed_decimal(font_size as int))));
}

fn push_color_line(out: &mut String, l: &ChatWindowLook)
    ensures
        final(out)@ == old(out)@ + line(key_value("COLOR"@, rgba_text(l@))),
{
    out.append("COLOR");
    push_char(out, ' ');
    push_decimal(out, l.r as u64);
    push_char(out, ' ');
    push_decimal(out, l.g as u64);
    push_char(out, ' ');
    push_decimal(out, l.b as u64);
    push_char(out, ' ');
    push_decimal(out, l.a as u64);
    push_char(out, '\n');
    assert(final(out)@ =~= old(out)@ + line(key_value("COLOR"@, rgba_text(l@))));
}

fn push_head(out: &mut String, i: usize, l: &ChatWindowLook)
    requires
        i < usize::MAX,
    ensures
        final(out)@ == old(out)@ + window_head(i as nat, l@),
{
    let ghost o = out@;
    let ghost a1 = line(key_value("WINDOW"@, decimal((i + 1) as nat)));
    let ghost a2 = name_line(l.name@);
    let ghost a3 = line(key_value("SIZE"@, signed_decimal(l.font_size as int)));
    let ghost a4 = line(key_value("COLOR"@, rgba_text(l@)));
    let ghost a5 = line(key_value("LOCKED"@, flag_digit(l.locked)));
    let ghost a6 = line(key_value("DOCKED"@, decimal(dock_number(l.docked))));
    let ghost a7 = line(key_value("SHOWN"@, flag_digit(l.shown)));
    push_key_number(out, "WINDOW", (i + 1) as u64);
    push_name_line(out, &l.name);
    assert(out@ =~= o + (a1 + a2));
    push_size_line(out, l.font_size);
    assert(out@ =~= o + (a1 + a2 + a3));
    push_color_line(out, l);
    assert(out@ =~= o + (a1 + a2 + a3 + a4));
    push_key_flag(out, "LOCKED", l.locked);
    assert(out@ =~= o + (a1 + a2 + a3 + a4 + a5));
    let docked: u8 = match l.docked {
        Some(p) => p,
        None => 0,
    };
    push_key_number(out, "DOCKED", docked as u64);
    assert(out@ =~= o + (a1 + a2 + a3 + a4 + a5 + a6));
    push_key_flag(out, "SHOWN", l.shown);
    assert(out@ =~= o + (a1 + a2 + a3 + a4 + a5 + a6 + a7));
}

fn push_lists(out: &mut String, l: &ChatWindowLook, joined_mask: u32)
    ensures
        final(out)@ == old(out)@ + window_lists(l@, joined_mask),
{
    let ghost o = out@;
    let ghost b = blank_line();
    let ghost msgs = line("MESSAGES"@) + string_lines(l@.messages) + line("END"@);
    let ghost chans = line("CHANNELS"@) + custom_lines(l@.channels) + line("END"@);
    push_blank(out);
    push_line(out, "MESSAGES");
    push_lines(out, l.messages.as_slice());
    push_line(out, "END");
    assert(out@ =~= o + (b + msgs));
    push_blank(out);
    push_line(out, "CHANNELS");
    let window_mask = push_channels(out, l.channels.as_slice());
    push_line(out, "END");
    assert(out@ =~= o + (b + msgs + b + chans));
    push_blank(out);
    push_key_number(out, "ZONECHANNELS", (window_mask & joined_mask) as u64);
    push_blank(out);
    push_line(out, "END");
    push_blank(out);
    assert(final(out)@ =~= old(out)@ + window_lists(l@, joined_mask));
}

fn push_window(out: &mut String, i: usize, l: &ChatWindowLook, joined_mask: u32)
    requires
        i < usize::MAX,
    ensures
        final(out)@ == old(out)@ + window_block(i as nat, l@, joined_mask),
{
    push_head(out, i, l);
    push_lists(out, l, joined_mask);
    assert(final(out)@ =~= old(out)@ + window_block(i as nat, l@, joined_mask));
}

fn push_header(out: &mut String)
    ensures
        final(out)@ == old(out)@ + header_text(),
{
    let ghost o = out@;
    push_line(out, HEADER_1);
    push_line(out, HEADER_2);
    push_line(out, HEADER_3);
    push_line(out, HEADER_4);
    push_line(out, HEADER_5);
    push_line(out, HEADER_6);
    assert(out@ =~= o + header_text());
}

/// The comment block a written file starts with.
pub fn cache_header() -> (s: String)
    ensures
        s@ == header_text(),
{
    let mut s = String::new();
    push_header(&mut s);
    assert(s@ =~= header_text());
    s
}

fn push_preamble(out: &mut String)
    ensures
        final(out)@ == old(out)@ + preamble(),
{
    let ghost o = out@;
    push_header(out);
    push_blank(out);
    push_key_number(out, "VERSION", 2);
    push_blank(out);
    push_key_number(out, "ADDEDVERSION", 2);
    push_blank(out);
    let ghost at_option = out@;
    out.append("OPTION_GUILD_RECRUITMENT_CHANNEL");
    push_char(out, ' ');
    push_line(out, "AUTO");
    assert(out@ =~= at_option + line(key_value("OPTION_GUILD_RECRUITMENT_CHANNEL"@, "AUTO"@)));
    push_blank(out);
    assert(out@ =~= o + preamble());
}

fn push_joined_part(out: &mut String, joined: &[(String, u32)]) -> (zone: u32)
    ensures
        final(out)@ == old(out)@ + joined_part(pairs_view(joined@)),
        zone == zone_mask(pairs_view(joined@)),
{
    let ghost o = out@;
    push_line(out, "CHANNELS");
    let zone = push_channels(out, joined);
    push_line(out, "END");
    push_blank(out);
    push_key_number(out, "ZONECHANNELS", zone as u64);
    push_blank(out);
    assert(out@ =~= o + joined_part(pairs_view(joined@)));
    zone
}

fn push_colors_part(out: &mut String, colors: &[ChatTypeColor])
    ensures
        final(out)@ == old(out)@ + colors_part(colors_view(colors@)),
{
    let ghost o = out@;
    push_line(out, "COLORS");
    let ghost cv = colors_view(colors@);
    let ghost before_colors = out@;
    let mut k: usize = 0;
    while k < colors.len()
        invariant
            k <= colors.len(),
            cv == colors_view(colors@),
            out@ == before_colors + color_lines(cv.take(k as int)),
        decreases colors.len() - k,
    {
        let c = &colors[k];
        assert(cv.take(k + 1).drop_last() =~= cv.take(k as int));
        let ghost mid = out@;
        out.append(c.name.as_str());
        push_char(out, ' ');
        push_decimal(out, c.rgb[0] as u64);
        push_char(out, ' ');
        push_decimal(out, c.rgb[1] as u64);
        push_char(out, ' ');
        push_decimal(out, c.rgb[2] as u64);
        push_char(out, '\n');
        assert(out@ =~= mid + color_line(cv[k as int]));
        k = k + 1;
        assert(out@ =~= before_colors + color_lines(cv.take(k as int)));
    }
    assert(cv.take(k as int) =~= cv);
    push_line(out, "END");
    push_blank(out);
    assert(out@ =~= o + colors_part(cv));
}

fn push_top(out: &mut String, colors: &[ChatTypeColor], joined: &[(String, u32)]) -> (zone: u32)
    ensures
        final(out)@ == old(out)@ + top_section(colors_view(colors@), pairs_view(joined@)),
        zone == zone_mask(pairs_view(joined@)),
{
    push_preamble(out);
    let zone = push_joined_part(out, joined);
    push_colors_part(out, colors);
    assert(final(out)@ =~= old(out)@ + top_section(colors_view(colors@), pairs_view(joined@)));
    zone
}

/// The whole file, exactly as written: the header comment, the version lines, the joined custom
/// channels and zone word, the colour rows in table order, then every window's block in window
/// order, each window's zone word masked by the joined one.
pub fn render(looks: &[ChatWindowLook], colors: &[ChatTypeColor], joined: &[(String, u32)]) -> (text:
    String)
    ensures
        text@ == rendered(looks_view(looks@), colors_view(colors@), pairs_view(joined@)),
{
    let mut out = String::new();
    let zone = push_top(&mut out, colors, joined);
    let ghost lv = looks_view(looks@);
    let ghost before_windows = out@;
    let mut w: usize = 0;
    while w < looks.len()
        invariant
            w <= looks.len(),
            lv == looks_view(looks@),
            out@ == before_windows + window_blocks(lv.take(w as int), zone),
        decreases looks.len() - w,
    {
        assert(lv.take(w + 1).drop_last() =~= lv.take(w as int));
        push_window(&mut out, w, &looks[w], zone);
        w = w + 1;
        assert(out@ =~= before_windows + window_blocks(lv.take(w as int), zone));
    }
    assert(lv.take(w as int) =~= lv);
    assert(out@ =~= rendered(looks_view(looks@), colors_view(colors@), pairs_view(joined@)));
    out
}

/// A message group of the chat-message table: its name, whether it is on by default, and the
/// file version that added it.
#[derive(Clone, Debug, PartialEq, Eq)]
pub struct MessageGroup {
    pub name: String,
    pub on: bool,
    pub version: u8,
}

pub struct MessageGroupView {
    pub name: Seq<char>,
    pub on: bool,
    pub version: u8,
}

impl View for MessageGroup {
    type V = MessageGroupView;

    open spec fn view(&self) -> MessageGroupView {
        MessageGroupView { name: self.name@, on: self.on, version: self.version }
    }
}

/// What a file reads as: the windows it names (0-based index and record), its colour rows in
/// file order, and the custom channels its header lists for re-joining.
#[derive(Debug, Default, PartialEq, Eq)]
pub struct Parsed {
    pub looks: Vec<(usize, ChatWindowLook)>,
    pub colors: Vec<(String, [u8; 3])>,
    pub joined: Vec<String>,
}

pub struct ParsedView {
    pub looks: Seq<(nat, ChatWindowLookView)>,
    pub colors: Seq<(Seq<char>, Seq<u8>)>,
    pub joined: Seq<Seq<char>>,
}

pub open spec fn indexed_looks_view(v: Seq<(usize, ChatWindowLook)>) -> Seq<(nat, ChatWindowLookView)> {
    v.map_values(|p: (usize, ChatWindowLook)| (p.0 as nat, p.1@))
}

pub open spec fn color_rows_view(v: Seq<(String, [u8; 3])>) -> Seq<(Seq<char>, Seq<u8>)> {
    v.map_values(|p: (String, [u8; 3])| (p.0@, p.1@))
}

impl View for Parsed {
    type V = ParsedView;

    open spec fn view(&self) -> ParsedView {
        ParsedView {
            looks: indexed_looks_view(self.looks@),
            colors: color_rows_view(self.colors@),
            joined: strings_view(self.joined@),
        }
    }
}

/// Which block the reader is inside.
#[derive(Clone, Copy, Debug, PartialEq, Eq, Structural)]
pub enum Block {
    /// Top level, or a window whose keys arrive one per line.
    Top,
    /// The header's custom channels to re-join.
    Joined,
    Colors,
    Messages,
    Channels,
}

/// The reader's state between lines.
pub struct ReadState {
    pub looks: Seq<(nat, ChatWindowLookView)>,
    pub colors: Seq<(Seq<char>, Seq<u8>)>,
    pub joined: Seq<Seq<char>>,
    /// The window being read, with its 0-based index.
    pub current: Option<(nat, ChatWindowLookView)>,
    pub block: Block,
    /// The file's `ADDEDVERSION`, 0 until one is read.
    pub added: u8,
}

pub open spec fn fresh_read() -> ReadState {
    ReadState {
        looks: Seq::empty(),
        colors: Seq::empty(),
        joined: Seq::empty(),
        current: None,
        block: Block::Top,
        added: 0,
    }
}

/// The `k`-th word, if the line has one.
pub open spec fn word_at(ws: Seq<Seq<char>>, k: int) -> Option<Seq<char>> {
    if 0 <= k < ws.len() {
        Some(ws[k])
    } else {
        None
    }
}

/// A byte value: the word read as a `u8`, 0 when absent or unreadable.
pub open spec fn byte_value(w: Option<Seq<char>>) -> u8 {
    match w {
        Some(v) => match parse_unsigned_upto(v, 255) {
            Some(b) => b as u8,
            None => 0,
        },
        None => 0,
    }
}

/// A flag value: set unless the word is `0`; an absent word sets it.
pub open spec fn flag_value(w: Option<Seq<char>>) -> bool {
    match w {
        Some(v) => v != seq!['0'],
        None => true,
    }
}

/// A font size: the word read as an `i32`, 0 when absent, unreadable or negative.
pub open spec fn size_value(w: Option<Seq<char>>) -> i32 {
    match w {
        Some(v) => match parse_i32(v) {
            Some(x) => if x < 0 {
                0
            } else {
                x as i32
            },
            None => 0,
        },
        None => 0,
    }
}

/// A dock position: the word read as a `u8`, floating (`None`) when absent, unreadable or 0.
pub open spec fn dock_value(w: Option<Seq<char>>) -> Option<u8> {
    match w {
        Some(v) => match parse_unsigned_upto(v, 255) {
            Some(p) => if p > 0 {
                Some(p as u8)
            } else {
                None
            },
            None => None,
        },
        None => None,
    }
}

/// A zone-channel word: the word read as a `u32`, 0 when absent or unreadable.
pub open spec fn mask_value(w: Option<Seq<char>>) -> u32 {
    match w {
        Some(v) => match parse_unsigned_upto(v, 0xffff_ffff) {
            Some(m) => m as u32,
            None => 0,
        },
        None => 0,
    }
}

/// Whether a channel list holds a channel of this name, ASCII case folded.
pub open spec fn has_channel(chs: Seq<(Seq<char>, u32)>, name: Seq<char>) -> bool {
    exists|j: int| 0 <= j < chs.len() && eq_ignore_ascii_case(#[trigger] chs[j].0, name)
}

/// The channel list after a zone-channel word: every catalog row `(id, shortcut)` whose bit is
/// set joins as `(shortcut, id)`, in catalog order, unless a channel of that name is there.
pub open spec fn add_zone_rows(
    chs: Seq<(Seq<char>, u32)>,
    rows: Seq<(u32, Seq<char>)>,
    mask: u32,
) -> Seq<(Seq<char>, u32)>
    decreases rows.len(),
{
    if rows.len() == 0 {
        chs
    } else {
        let c = add_zone_rows(chs, rows.drop_last(), mask);
        let (id, shortcut) = rows.last();
        if mask & spec_zone_bit(id) != 0 && !has_channel(c, shortcut) {
            c.push((shortcut, id))
        } else {
            c
        }
    }
}

/// How many value words a window key takes.
pub open spec fn key_arity(key: Seq<char>) -> nat {
    if eq_ignore_ascii_case(key, "COLOR"@) {
        4
    } else if eq_ignore_ascii_case(key, "SIZE"@) || eq_ignore_ascii_case(key, "LOCKED"@)
        || eq_ignore_ascii_case(key, "DOCKED"@) || eq_ignore_ascii_case(key, "SHOWN"@)
        || eq_ignore_ascii_case(key, "ZONECHANNELS"@) {
        1
    } else {
        0
    }
}

/// One window key applied to a record, its values read from `vals`; an unknown key changes
/// nothing.
pub open spec fn apply_key(
    l: ChatWindowLookView,
    key: Seq<char>,
    vals: Seq<Seq<char>>,
    rows: Seq<(u32, Seq<char>)>,
) -> ChatWindowLookView {
    if eq_ignore_ascii_case(key, "SIZE"@) {
        ChatWindowLookView { font_size: size_value(word_at(vals, 0)), ..l }
    } else if eq_ignore_ascii_case(key, "COLOR"@) {
        ChatWindowLookView {
            r: byte_value(word_at(vals, 0)),
            g: byte_value(word_at(vals, 1)),
            b: byte_value(word_at(vals, 2)),
            a: byte_value(word_at(vals, 3)),
            ..l
        }
    } else if eq_ignore_ascii_case(key, "LOCKED"@) {
        ChatWindowLookView { locked: flag_value(word_at(vals, 0)), ..l }
    } else if eq_ignore_ascii_case(key, "DOCKED"@) {
        ChatWindowLookView { docked: dock_value(word_at(vals, 0)), ..l }
    } else if eq_ignore_ascii_case(key, "SHOWN"@) {
        ChatWindowLookView { shown: flag_value(word_at(vals, 0)), ..l }
    } else if eq_ignore_ascii_case(key, "ZONECHANNELS"@) {
        ChatWindowLookView {
            channels: add_zone_rows(l.channels, rows, mask_value(word_at(vals, 0))),
            ..l
        }
    } else {
        l
    }
}

/// A run of `KEY value…` words on one line, each key taking its values off the run.
pub open spec fn apply_keys(
    l: ChatWindowLookView,
    ws: Seq<Seq<char>>,
    rows: Seq<(u32, Seq<char>)>,
) -> ChatWindowLookView
    decreases ws.len(),
{
    if ws.len() == 0 {
        l
    } else {
        let rest = ws.drop_first();
        let k = key_arity(ws[0]);
        let n = if k <= rest.len() {
            k
        } else {
            rest.len()
        };
        apply_keys(apply_key(l, ws[0], rest, rows), rest.subrange(n as int, rest.len() as int), rows)
    }
}

/// The record with every field at rest: what a window past the boot table starts from.
pub open spec fn blank_look() -> ChatWindowLookView {
    ChatWindowLookView {
        name: Seq::empty(),
        font_size: 0,
        r: 0,
        g: 0,
        b: 0,
        a: 0,
        locked: false,
        docked: None,
        shown: false,
        messages: Seq::empty(),
        channels: Seq::empty(),
    }
}

/// The boot record of window `i`.
pub open spec fn boot_look(stock: Seq<ChatWindowLookView>, i: nat) -> ChatWindowLookView {
    if i < stock.len() {
        stock[i as int]
    } else {
        blank_look()
    }
}

/// The window being read, if any, moved to the finished list.
pub open spec fn flush(st: ReadState) -> ReadState {
    match st.current {
        Some(w) => ReadState { looks: st.looks.push(w), current: None, ..st },
        None => st,
    }
}

/// The zone channels of a list, custom ones dropped.
pub open spec fn zone_channels_only(chs: Seq<(Seq<char>, u32)>) -> Seq<(Seq<char>, u32)>
    decreases chs.len(),
{
    if chs.len() == 0 {
        Seq::empty()
    } else if chs.last().1 != 0 {
        zone_channels_only(chs.drop_last()).push(chs.last())
    } else {
        zone_channels_only(chs.drop_last())
    }
}

/// A top-level line with words `ws` (the trimmed line is `line`).
pub open spec fn top_line(
    st: ReadState,
    line: Seq<char>,
    ws: Seq<Seq<char>>,
    stock: Seq<ChatWindowLookView>,
    rows: Seq<(u32, Seq<char>)>,
) -> ReadState {
    let head = ws[0];
    let rest = ws.drop_first();
    if eq_ignore_ascii_case(head, "COLORS"@) {
        ReadState { block: Block::Colors, ..st }
    } else if eq_ignore_ascii_case(head, "WINDOW"@) {
        let f = flush(st);
        match word_at(rest, 0) {
            Some(v) => match parse_unsigned_upto(v, usize::MAX as nat) {
                Some(n) => if n == 0 {
                    f
                } else {
                    let i = (n - 1) as nat;
                    ReadState {
                        current: Some((i, apply_keys(boot_look(stock, i), rest.drop_first(), rows))),
                        ..f
                    }
                },
                None => f,
            },
            None => f,
        }
    } else {
        match st.current {
            None => if eq_ignore_ascii_case(head, "CHANNELS"@) {
                ReadState { block: Block::Joined, ..st }
            } else if eq_ignore_ascii_case(head, "ADDEDVERSION"@) {
                ReadState { added: byte_value(word_at(rest, 0)), ..st }
            } else {
                st
            },
            Some((i, l)) => if eq_ignore_ascii_case(head, "END"@) {
                flush(st)
            } else if eq_ignore_ascii_case(head, "MESSAGES"@) {
                ReadState {
                    current: Some((i, ChatWindowLookView { messages: Seq::empty(), ..l })),
                    block: Block::Messages,
                    ..st
                }
            } else if eq_ignore_ascii_case(head, "CHANNELS"@) {
                ReadState {
                    current: Some(
                        (i, ChatWindowLookView { channels: zone_channels_only(l.channels), ..l }),
                    ),
                    block: Block::Channels,
                    ..st
                }
            } else if eq_ignore_ascii_case(head, "NAME"@) {
                ReadState {
                    current: Some(
                        (
                            i,
                            ChatWindowLookView {
                                name: trim(line.subrange(4, line.len() as int)),
                                ..l
                            },
                        ),
                    ),
                    ..st
                }
            } else {
                ReadState { current: Some((i, apply_key(l, head, rest, rows))), ..st }
            },
        }
    }
}

/// One line of the file.
pub open spec fn read_line(
    st: ReadState,
    raw: Seq<char>,
    stock: Seq<ChatWindowLookView>,
    rows: Seq<(u32, Seq<char>)>,
) -> ReadState {
    let line = trim(raw);
    if line.len() == 0 || line[0] == '#' {
        st
    } else {
        let ws = words(line);
        let head = ws[0];
        let rest = ws.drop_first();
        let is_end = eq_ignore_ascii_case(head, "END"@);
        match st.block {
            Block::Colors => if is_end {
                ReadState { block: Block::Top, ..st }
            } else {
                ReadState {
                    colors: st.colors.push(
                        (
                            ascii_upper(head),
                            seq![
                                byte_value(word_at(rest, 0)),
                                byte_value(word_at(rest, 1)),
                                byte_value(word_at(rest, 2)),
                            ],
                        ),
                    ),
                    ..st
                }
            },
            Block::Joined => if is_end {
                ReadState { block: Block::Top, ..st }
            } else {
                ReadState { joined: st.joined.push(line), ..st }
            },
            Block::Messages => if is_end {
                ReadState { block: Block::Top, ..st }
            } else {
                match st.current {
                    Some((i, l)) => ReadState {
                        current: Some(
                            (i, ChatWindowLookView { messages: l.messages.push(ascii_upper(head)), ..l }),
                        ),
                        ..st
                    },
                    None => st,
                }
            },
            Block::Channels => if is_end {
                ReadState { block: Block::Top, ..st }
            } else {
                match st.current {
                    Some((i, l)) => ReadState {
                        current: Some(
                            (i, ChatWindowLookView { channels: l.channels.push((head, 0u32)), ..l }),
                        ),
                        ..st
                    },
                    None => st,
                }
            },
            Block::Top => top_line(st, line, ws, stock, rows),
        }
    }
}

/// The text cut at every line feed, read one character at a time (a file ending in a line
/// feed has an empty last piece).
pub open spec fn pieces(s: Seq<char>) -> Seq<Seq<char>>
    decreases s.len(),
{
    if s.len() == 0 {
        seq![Seq::empty()]
    } else {
        let p = pieces(s.drop_last());
        if s.last() == '\n' {
            p.push(Seq::empty())
        } else {
            p.update(p.len() - 1, p.last().push(s.last()))
        }
    }
}

/// The reader's state after these lines, in order.
pub open spec fn read_lines(
    lines: Seq<Seq<char>>,
    stock: Seq<ChatWindowLookView>,
    rows: Seq<(u32, Seq<char>)>,
) -> ReadState
    decreases lines.len(),
{
    if lines.len() == 0 {
        fresh_read()
    } else {
        read_line(read_lines(lines.drop_last(), stock, rows), lines.last(), stock, rows)
    }
}

/// The first finished window with index `t`.
pub open spec fn first_window(looks: Seq<(nat, ChatWindowLookView)>, t: nat) -> Option<int> {
    if exists|j: int|
        0 <= j < looks.len() && #[trigger] looks[j].0 == t && forall|k: int|
            0 <= k < j ==> looks[k].0 != t {
        Some(
            choose|j: int|
                0 <= j < looks.len() && #[trigger] looks[j].0 == t && forall|k: int|
                    0 <= k < j ==> looks[k].0 != t,
        )
    } else {
        None
    }
}

/// Message group `i` added to its window — the first ten groups to window 0, the rest to
/// window 1 — when it is on, newer than the file, and not shown there already.
pub open spec fn backfill_one(
    looks: Seq<(nat, ChatWindowLookView)>,
    i: int,
    g: MessageGroupView,
    added: u8,
) -> Seq<(nat, ChatWindowLookView)> {
    if g.on && g.version > added {
        let t: nat = if i >= 10 {
            1
        } else {
            0
        };
        match first_window(looks, t) {
            Some(j) => if looks[j].1.messages.contains(g.name) {
                looks
            } else {
                looks.update(
                    j,
                    (
                        looks[j].0,
                        ChatWindowLookView { messages: looks[j].1.messages.push(g.name), ..looks[j].1 },
                    ),
                )
            },
            None => looks,
        }
    } else {
        looks
    }
}

/// Every message group of the table back-filled, in table order.
pub open spec fn backfill(
    looks: Seq<(nat, ChatWindowLookView)>,
    groups: Seq<MessageGroupView>,
    added: u8,
) -> Seq<(nat, ChatWindowLookView)>
    decreases groups.len(),
{
    if groups.len() == 0 {
        looks
    } else {
        backfill_one(
            backfill(looks, groups.drop_last(), added),
            groups.len() - 1,
            groups.last(),
            added,
        )
    }
}

pub open spec fn rows_view(rows: Seq<(u32, String)>) -> Seq<(u32, Seq<char>)> {
    rows.map_values(|r: (u32, String)| (r.0, r.1@))
}

pub open spec fn groups_view(gs: Seq<MessageGroup>) -> Seq<MessageGroupView> {
    gs.map_values(|g: MessageGroup| g@)
}

/// What `text` reads as, with the windows' boot records `stock`, the zone-channel catalog
/// `rows` as `(id, shortcut)` and the message-group table `groups`: every line read in turn,
/// the last window finished, and — for a file older than version 2 — the groups added since
/// back-filled.
pub open spec fn parsed(
    text: Seq<char>,
    stock: Seq<ChatWindowLookView>,
    rows: Seq<(u32, Seq<char>)>,
    groups: Seq<MessageGroupView>,
) -> ParsedView {
    let st = flush(read_lines(pieces(text), stock, rows));
    ParsedView {
        looks: if st.added < 2 {
            backfill(st.looks, groups, st.added)
        } else {
            st.looks
        },
        colors: st.colors,
        joined: st.joined,
    }
}

/// `chars[a..b]` as an owned string.
fn string_of(chars: &Vec<char>, a: usize, b: usize) -> (t: String)
    requires
        a <= b <= chars@.len(),
    ensures
        t@ == chars@.subrange(a as int, b as int),
{
    let mut t = String::new();
    let mut i: usize = a;
    while i < b
        invariant
            a <= i <= b <= chars@.len(),
            t@ == chars@.subrange(a as int, i as int),
        decreases b - i,
    {
        push_char(&mut t, chars[i]);
        i = i + 1;
        assert(t@ =~= chars@.subrange(a as int, i as int));
    }
    t
}

/// `chars[a..b]` in ASCII capitals, as an owned string.
fn upper_of(chars: &Vec<char>, a: usize, b: usize) -> (t: String)
    requires
        a <= b <= chars@.len(),
    ensures
        t@ == ascii_upper(chars@.subrange(a as int, b as int)),
{
    let mut t = String::new();
    let mut i: usize = a;
    while i < b
        invariant
            a <= i <= b <= chars@.len(),
            t@ == ascii_upper(chars@.subrange(a as int, i as int)),
        decreases b - i,
    {
        push_char(&mut t, char_ascii_upper(chars[i]));
        i = i + 1;
        assert(t@ =~= ascii_upper(chars@.subrange(a as int, i as int)));
    }
    t
}

/// Whether `chars[a..b]` is `lit`, ASCII case folded.
fn eq_ic_at(chars: &Vec<char>, a: usize, b: usize, lit: &str) -> (r: bool)
    requires
        a <= b <= chars@.len(),
    ensures
        r == eq_ignore_ascii_case(chars@.subrange(a as int, b as int), lit@),
{
    let n = lit.unicode_len();
    if b - a != n {
        return false;
    }
    let ghost w = chars@.subrange(a as int, b as int);
    let mut i: usize = 0;
    while i < n
        invariant
            n == lit@.len() == b - a,
            a <= b <= chars@.len(),
            w == chars@.subrange(a as int, b as int),
            i <= n,
            forall|k: int|
                0 <= k < i ==> #[trigger] crate::text::ascii_folded(w[k])
                    == crate::text::ascii_folded(lit@[k]),
        decreases n - i,
    {
        let c = chars[a + i];
        let d = lit.get_char(i);
        let x: u32 = if 'A' <= c && c <= 'Z' { c as u32 + 32 } else { c as u32 };
        let y: u32 = if 'A' <= d && d <= 'Z' { d as u32 + 32 } else { d as u32 };
        assert(w[i as int] == c);
        if x != y {
            assert(crate::text::ascii_folded(w[i as int]) != crate::text::ascii_folded(lit@[i as int]));
            return false;
        }
        i = i + 1;
    }
    true
}

/// `chars[a..b]` with its whitespace trimmed off both ends, as bounds.
fn trim_bounds(chars: &Vec<char>, a: usize, b: usize) -> (r: (usize, usize))
    requires
        a <= b <= chars@.len(),
    ensures
        a <= r.0 <= r.1 <= b,
        chars@.subrange(r.0 as int, r.1 as int) == trim(chars@.subrange(a as int, b as int)),
        r.0 < r.1 ==> !is_white_space(chars@[r.0 as int]),
{
    let ghost s = chars@.subrange(a as int, b as int);
    let mut x: usize = a;
    while x < b && char_is_white_space(chars[x])
        invariant
            a <= x <= b <= chars@.len(),
            s == chars@.subrange(a as int, b as int),
            trim_start(s) == trim_start(chars@.subrange(x as int, b as int)),
        decreases b - x,
    {
        assert(chars@.subrange(x as int, b as int).drop_first() =~= chars@.subrange(
            x + 1,
            b as int,
        ));
        x = x + 1;
    }
    assert(trim_start(chars@.subrange(x as int, b as int)) == chars@.subrange(x as int, b as int));
    let mut y: usize = b;
    while y > x && char_is_white_space(chars[y - 1])
        invariant
            a <= x <= y <= b <= chars@.len(),
            s == chars@.subrange(a as int, b as int),
            trim_start(s) == chars@.subrange(x as int, b as int),
            trim(s) == trim_end(chars@.subrange(x as int, y as int)),
        decreases y - x,
    {
        assert(chars@.subrange(x as int, y as int).drop_last() =~= chars@.subrange(
            x as int,
            y - 1,
        ));
        y = y - 1;
    }
    (x, y)
}

/// The character ranges of a list of words.
pub open spec fn range_words(chars: Seq<char>, rs: Seq<(usize, usize)>) -> Seq<Seq<char>> {
    rs.map_values(|r: (usize, usize)| chars.subrange(r.0 as int, r.1 as int))
}

/// Every range lies inside the text.
pub open spec fn ranges_fit(len: nat, rs: Seq<(usize, usize)>) -> bool {
    forall|k: int| 0 <= k < rs.len() ==> #[trigger] rs[k].0 <= rs[k].1 <= len
}

/// The words of `chars[a..b]`, which starts with a non-whitespace character, as ranges.
fn word_ranges(chars: &Vec<char>, a: usize, b: usize) -> (rs: Vec<(usize, usize)>)
    requires
        a < b <= chars@.len(),
        !is_white_space(chars@[a as int]),
    ensures
        rs@.len() >= 1,
        rs@[0].0 == a,
        ranges_fit(chars@.len(), rs@),
        forall|k: int| 0 <= k < rs@.len() ==> a <= #[trigger] rs@[k].0 <= rs@[k].1 <= b,
        range_words(chars@, rs@) == words(chars@.subrange(a as int, b as int)),
{
    let mut rs: Vec<(usize, usize)> = Vec::new();
    let mut i: usize = a;
    while i < b
        invariant
            a <= i <= b <= chars@.len(),
            !is_white_space(chars@[a as int]),
            forall|k: int| 0 <= k < rs@.len() ==> a <= #[trigger] rs@[k].0 < rs@[k].1 <= i,
            i > a ==> rs@.len() >= 1 && rs@[0].0 == a,
            i > a && !is_white_space(chars@[i - 1]) ==> rs@.len() >= 1 && rs@.last().1 == i,
            range_words(chars@, rs@) == words(chars@.subrange(a as int, i as int)),
        decreases b - i,
    {
        let c = chars[i];
        let ghost s1 = chars@.subrange(a as int, i + 1);
        assert(s1.drop_last() =~= chars@.subrange(a as int, i as int));
        assert(s1.last() == c);
        if char_is_white_space(c) {
        } else if i > a && !char_is_white_space(chars[i - 1]) {
            assert(s1[s1.len() - 2] == chars@[i - 1]);
            let last = rs.len() - 1;
            let x = rs[last].0;
            let ghost before = rs@;
            assert(a <= before[last as int].0 < before[last as int].1 <= i);
            rs.set(last, (x, i + 1));
            assert(forall|k: int|
                0 <= k < rs@.len() ==> #[trigger] rs@[k] == if k == last {
                    (x, (i + 1) as usize)
                } else {
                    before[k]
                });
            assert(chars@.subrange(x as int, i + 1) =~= chars@.subrange(x as int, i as int).push(
                c,
            ));
            assert(range_words(chars@, rs@) =~= words(s1));
        } else {
            proof {
                if i > a {
                    assert(s1[s1.len() - 2] == chars@[i - 1]);
                }
            }
            let ghost before = rs@;
            rs.push((i, i + 1));
            assert(forall|k: int|
                0 <= k < rs@.len() ==> #[trigger] rs@[k] == if k == before.len() {
                    (i, (i + 1) as usize)
                } else {
                    before[k]
                });
            assert(chars@.subrange(i as int, i + 1) =~= seq![c]);
            assert(range_words(chars@, rs@) =~= words(s1));
        }
        i = i + 1;
    }
    rs
}

/// `parse_unsigned_upto` over `chars[a..b]`.
fn unsigned_in(chars: &Vec<char>, a: usize, b: usize, max: u64) -> (r: Option<u64>)
    requires
        a <= b <= chars@.len(),
    ensures
        match r {
            Some(v) => parse_unsigned_upto(chars@.subrange(a as int, b as int), max as nat) == Some(
                v as nat,
            ),
            None => parse_unsigned_upto(chars@.subrange(a as int, b as int), max as nat) is None,
        },
        match r {
            Some(v) => v <= max,
            None => true,
        },
{
    let start: usize = if a < b && chars[a] == '+' { a + 1 } else { a };
    assert(unsigned_digits(chars@.subrange(a as int, b as int)) =~= chars@.subrange(
        start as int,
        b as int,
    ));
    digits_in(chars, start, b, max)
}

/// `parse_i32` over `chars[a..b]`.
fn i32_in(chars: &Vec<char>, a: usize, b: usize) -> (r: Option<i32>)
    requires
        a <= b <= chars@.len(),
    ensures
        match r {
            Some(v) => parse_i32(chars@.subrange(a as int, b as int)) == Some(v as int),
            None => parse_i32(chars@.subrange(a as int, b as int)) is None,
        },
{
    if a < b && chars[a] == '-' {
        assert(chars@.subrange(a as int, b as int).drop_first() =~= chars@.subrange(
            a + 1,
            b as int,
        ));
        match digits_in(chars, a + 1, b, 0x8000_0000) {
            Some(v) => {
                let neg: i64 = -(v as i64);
                Some(neg as i32)
            },
            None => None,
        }
    } else {
        match unsigned_in(chars, a, b, 0x7fff_ffff) {
            Some(v) => Some(v as i32),
            None => None,
        }
    }
}

/// `byte_value` of word `k`.
fn byte_at(chars: &Vec<char>, rs: &Vec<(usize, usize)>, k: usize) -> (v: u8)
    requires
        ranges_fit(chars@.len(), rs@),
    ensures
        v == byte_value(word_at(range_words(chars@, rs@), k as int)),
{
    if k >= rs.len() {
        return 0;
    }
    let (x, y) = rs[k];
    assert(ranges_fit(chars@.len(), rs@) ==> rs@[k as int].0 <= rs@[k as int].1 <= chars@.len());
    match unsigned_in(chars, x, y, 255) {
        Some(b) => b as u8,
        None => 0,
    }
}

/// `flag_value` of word `k`.
fn flag_at(chars: &Vec<char>, rs: &Vec<(usize, usize)>, k: usize) -> (v: bool)
    requires
        ranges_fit(chars@.len(), rs@),
    ensures
        v == flag_value(word_at(range_words(chars@, rs@), k as int)),
{
    if k >= rs.len() {
        return true;
    }
    let (x, y) = rs[k];
    assert(ranges_fit(chars@.len(), rs@) ==> rs@[k as int].0 <= rs@[k as int].1 <= chars@.len());
    let zero = y - x == 1 && chars[x] == '0';
    proof {
        let w = chars@.subrange(x as int, y as int);
        if zero {
            assert(w =~= seq!['0']);
        } else if w.len() == 1 {
            assert(w[0] != '0');
        }
    }
    !zero
}

/// `size_value` of word `k`.
fn size_at(chars: &Vec<char>, rs: &Vec<(usize, usize)>, k: usize) -> (v: i32)
    requires
        ranges_fit(chars@.len(), rs@),
    ensures
        v == size_value(word_at(range_words(chars@, rs@), k as int)),
{
    if k >= rs.len() {
        return 0;
    }
    let (x, y) = rs[k];
    assert(ranges_fit(chars@.len(), rs@) ==> rs@[k as int].0 <= rs@[k as int].1 <= chars@.len());
    match i32_in(chars, x, y) {
        Some(v) => if v < 0 {
            0
        } else {
            v
        },
        None => 0,
    }
}

/// `dock_value` of word `k`.
fn dock_at(chars: &Vec<char>, rs: &Vec<(usize, usize)>, k: usize) -> (v: Option<u8>)
    requires
        ranges_fit(chars@.len(), rs@),
    ensures
        v == dock_value(word_at(range_words(chars@, rs@), k as int)),
{
    if k >= rs.len() {
        return None;
    }
    let (x, y) = rs[k];
    assert(ranges_fit(chars@.len(), rs@) ==> rs@[k as int].0 <= rs@[k as int].1 <= chars@.len());
    match unsigned_in(chars, x, y, 255) {
        Some(p) => if p > 0 {
            Some(p as u8)
        } else {
            None
        },
        None => None,
    }
}

/// `mask_value` of word `k`.
fn mask_at(chars: &Vec<char>, rs: &Vec<(usize, usize)>, k: usize) -> (v: u32)
    requires
        ranges_fit(chars@.len(), rs@),
    ensures
        v == mask_value(word_at(range_words(chars@, rs@), k as int)),
{
    if k >= rs.len() {
        return 0;
    }
    let (x, y) = rs[k];
    assert(ranges_fit(chars@.len(), rs@) ==> rs@[k as int].0 <= rs@[k as int].1 <= chars@.len());
    match unsigned_in(chars, x, y, 0xffff_ffff) {
        Some(m) => m as u32,
        None => 0,
    }
}

impl ChatWindowLook {
    /// The record with every field at rest.
    pub fn blank() -> (l: Self)
        ensures
            l@ == blank_look(),
    {
        let l = ChatWindowLook {
            name: String::new(),
            font_size: 0,
            r: 0,
            g: 0,
            b: 0,
            a: 0,
            locked: false,
            docked: None,
            shown: false,
            messages: Vec::new(),
            channels: Vec::new(),
        };
        assert(l@.messages =~= Seq::<Seq<char>>::empty());
        assert(l@.channels =~= Seq::<(Seq<char>, u32)>::empty());
        l
    }

    /// A copy of the record.
    pub fn copy(&self) -> (l: Self)
        ensures
            l@ == self@,
    {
        let mut messages: Vec<String> = Vec::new();
        let mut k: usize = 0;
        while k < self.messages.len()
            invariant
                k <= self.messages@.len(),
                messages@.len() == k,
                forall|j: int| 0 <= j < k ==> #[trigger] messages@[j]@ == self.messages@[j]@,
            decreases self.messages@.len() - k,
        {
            let m = self.messages[k].clone();
            assert(m@ == self.messages@[k as int]@);
            messages.push(m);
            k = k + 1;
        }
        assert(strings_view(messages@) =~= strings_view(self.messages@));
        let mut channels: Vec<(String, u32)> = Vec::new();
        let mut k: usize = 0;
        while k < self.channels.len()
            invariant
                k <= self.channels@.len(),
                channels@.len() == k,
                forall|j: int|
                    0 <= j < k ==> #[trigger] channels@[j].0@ == self.channels@[j].0@
                        && channels@[j].1 == self.channels@[j].1,
            decreases self.channels@.len() - k,
        {
            let c = self.channels[k].0.clone();
            assert(c@ == self.channels@[k as int].0@);
            channels.push((c, self.channels[k].1));
            k = k + 1;
        }
        assert(pairs_view(channels@) =~= pairs_view(self.channels@));
        ChatWindowLook {
            name: self.name.clone(),
            font_size: self.font_size,
            r: self.r,
            g: self.g,
            b: self.b,
            a: self.a,
            locked: self.locked,
            docked: self.docked,
            shown: self.shown,
            messages,
            channels,
        }
    }
}

/// Whether `chs` holds a channel named `name`, ASCII case folded.
fn has_channel_in(chs: &Vec<(String, u32)>, name: &String) -> (r: bool)
    ensures
        r == has_channel(pairs_view(chs@), name@),
{
    let ghost v = pairs_view(chs@);
    let mut j: usize = 0;
    while j < chs.len()
        invariant
            j <= chs@.len(),
            v == pairs_view(chs@),
            forall|k: int| 0 <= k < j ==> !eq_ignore_ascii_case(#[trigger] v[k].0, name@),
        decreases chs@.len() - j,
    {
        if str_eq_ignore_ascii_case(chs[j].0.as_str(), name.as_str()) {
            assert(eq_ignore_ascii_case(v[j as int].0, name@));
            return true;
        }
        j = j + 1;
    }
    false
}

/// `add_zone_rows` on a window's channel list.
fn add_zone_rows_to(chs: &mut Vec<(String, u32)>, rows: &[(u32, String)], mask: u32)
    ensures
        pairs_view(final(chs)@) == add_zone_rows(pairs_view(old(chs)@), rows_view(rows@), mask),
{
    let ghost rv = rows_view(rows@);
    let ghost start = pairs_view(chs@);
    let mut i: usize = 0;
    while i < rows.len()
        invariant
            i <= rows@.len(),
            rv == rows_view(rows@),
            pairs_view(chs@) == add_zone_rows(start, rv.take(i as int), mask),
        decreases rows@.len() - i,
    {
        assert(rv.take(i + 1).drop_last() =~= rv.take(i as int));
        let id = rows[i].0;
        if mask & zone_bit(id) != 0 && !has_channel_in(chs, &rows[i].1) {
            chs.push((rows[i].1.clone(), id));
        }
        i = i + 1;
        assert(pairs_view(chs@) =~= add_zone_rows(start, rv.take(i as int), mask));
    }
    assert(rv.take(i as int) =~= rv);
}

/// `zone_channels_only`.
fn zone_channels_of(chs: &Vec<(String, u32)>) -> (out: Vec<(String, u32)>)
    ensures
        pairs_view(out@) == zone_channels_only(pairs_view(chs@)),
{
    let ghost v = pairs_view(chs@);
    let mut out: Vec<(String, u32)> = Vec::new();
    let mut k: usize = 0;
    while k < chs.len()
        invariant
            k <= chs@.len(),
            v == pairs_view(chs@),
            pairs_view(out@) == zone_channels_only(v.take(k as int)),
        decreases chs@.len() - k,
    {
        assert(v.take(k + 1).drop_last() =~= v.take(k as int));
        if chs[k].1 != 0 {
            out.push((chs[k].0.clone(), chs[k].1));
        }
        k = k + 1;
        assert(pairs_view(out@) =~= zone_channels_only(v.take(k as int)));
    }
    assert(v.take(k as int) =~= v);
    out
}

proof fn lemma_word_at_tail(ws: Seq<Seq<char>>, s: int, j: int)
    requires
        0 <= s <= ws.len(),
        0 <= j,
    ensures
        word_at(ws.subrange(s, ws.len() as int), j) == word_at(ws, s + j),
{
}

/// The position `j` words after word `k`, or the end of the list when that is past it.
fn after(len: usize, k: usize, j: usize) -> (r: usize)
    requires
        k < len,
    ensures
        r == if k + j < len {
            k + j
        } else {
            len as int
        },
{
    if j < len - k {
        k + j
    } else {
        len
    }
}

/// How many value words the key `chars[a..b]` takes.
fn arity_of(chars: &Vec<char>, a: usize, b: usize) -> (n: usize)
    requires
        a <= b <= chars@.len(),
    ensures
        n == key_arity(chars@.subrange(a as int, b as int)),
{
    if eq_ic_at(chars, a, b, "COLOR") {
        4
    } else if eq_ic_at(chars, a, b, "SIZE") || eq_ic_at(chars, a, b, "LOCKED") || eq_ic_at(
        chars,
        a,
        b,
        "DOCKED",
    ) || eq_ic_at(chars, a, b, "SHOWN") || eq_ic_at(chars, a, b, "ZONECHANNELS") {
        1
    } else {
        0
    }
}

/// Word `k` applied to `l` as a window key, its values the words after it.
fn apply_key_at(
    l: &mut ChatWindowLook,
    chars: &Vec<char>,
    rs: &Vec<(usize, usize)>,
    k: usize,
    rows: &[(u32, String)],
)
    requires
        k < rs@.len(),
        ranges_fit(chars@.len(), rs@),
    ensures
        final(l)@ == apply_key(
            old(l)@,
            range_words(chars@, rs@)[k as int],
            range_words(chars@, rs@).subrange(k + 1, rs@.len() as int),
            rows_view(rows@),
        ),
{
    let ghost ws = range_words(chars@, rs@);
    let ghost vals = ws.subrange(k + 1, rs@.len() as int);
    proof {
        lemma_word_at_tail(ws, k + 1, 0);
        lemma_word_at_tail(ws, k + 1, 1);
        lemma_word_at_tail(ws, k + 1, 2);
        lemma_word_at_tail(ws, k + 1, 3);
    }
    let (x, y) = rs[k];
    assert(rs@[k as int].0 <= rs@[k as int].1 <= chars@.len());
    let n = rs.len();
    let v0 = after(n, k, 1);
    if eq_ic_at(chars, x, y, "SIZE") {
        l.font_size = size_at(chars, rs, v0);
    } else if eq_ic_at(chars, x, y, "COLOR") {
        l.r = byte_at(chars, rs, v0);
        l.g = byte_at(chars, rs, after(n, k, 2));
        l.b = byte_at(chars, rs, after(n, k, 3));
        l.a = byte_at(chars, rs, after(n, k, 4));
    } else if eq_ic_at(chars, x, y, "LOCKED") {
        l.locked = flag_at(chars, rs, v0);
    } else if eq_ic_at(chars, x, y, "DOCKED") {
        l.docked = dock_at(chars, rs, v0);
    } else if eq_ic_at(chars, x, y, "SHOWN") {
        l.shown = flag_at(chars, rs, v0);
    } else if eq_ic_at(chars, x, y, "ZONECHANNELS") {
        let mask = mask_at(chars, rs, v0);
        add_zone_rows_to(&mut l.channels, rows, mask);
    }
}

/// `apply_keys` over the words from `p` on.
fn apply_keys_from(
    l: &mut ChatWindowLook,
    chars: &Vec<char>,
    rs: &Vec<(usize, usize)>,
    p: usize,
    rows: &[(u32, String)],
)
    requires
        p <= rs@.len(),
        ranges_fit(chars@.len(), rs@),
    ensures
        final(l)@ == apply_keys(
            old(l)@,
            range_words(chars@, rs@).subrange(p as int, rs@.len() as int),
            rows_view(rows@),
        ),
{
    let ghost ws = range_words(chars@, rs@);
    let ghost goal = apply_keys(l@, ws.subrange(p as int, rs@.len() as int), rows_view(rows@));
    let mut q: usize = p;
    while q < rs.len()
        invariant
            p <= q <= rs@.len(),
            ranges_fit(chars@.len(), rs@),
            ws == range_words(chars@, rs@),
            goal == apply_keys(l@, ws.subrange(q as int, rs@.len() as int), rows_view(rows@)),
        decreases rs@.len() - q,
    {
        let ghost sub = ws.subrange(q as int, rs@.len() as int);
        assert(sub[0] == ws[q as int]);
        assert(sub.drop_first() =~= ws.subrange(q + 1, rs@.len() as int));
        let (x, y) = rs[q];
        assert(rs@[q as int].0 <= rs@[q as int].1 <= chars@.len());
        let k = arity_of(chars, x, y);
        apply_key_at(l, chars, rs, q, rows);
        let left = rs.len() - q - 1;
        let n = if k <= left {
            k
        } else {
            left
        };
        assert(sub.drop_first().subrange(n as int, sub.drop_first().len() as int) =~= ws.subrange(
            q + 1 + n,
            rs@.len() as int,
        ));
        q = q + 1 + n;
    }
    assert(ws.subrange(q as int, rs@.len() as int) =~= Seq::<Seq<char>>::empty());
}

/// The boot record of window `i`, copied.
fn boot_copy(stock: &[ChatWindowLook], i: usize) -> (l: ChatWindowLook)
    ensures
        l@ == boot_look(looks_view(stock@), i as nat),
{
    if i < stock.len() {
        stock[i].copy()
    } else {
        ChatWindowLook::blank()
    }
}

/// The reader's state while it walks the file.
struct Reader {
    looks: Vec<(usize, ChatWindowLook)>,
    colors: Vec<(String, [u8; 3])>,
    joined: Vec<String>,
    has_current: bool,
    cur_index: usize,
    cur: ChatWindowLook,
    block: Block,
    added: u8,
}

impl View for Reader {
    type V = ReadState;

    closed spec fn view(&self) -> ReadState {
        ReadState {
            looks: indexed_looks_view(self.looks@),
            colors: color_rows_view(self.colors@),
            joined: strings_view(self.joined@),
            current: if self.has_current {
                Some((self.cur_index as nat, self.cur@))
            } else {
                None
            },
            block: self.block,
            added: self.added,
        }
    }
}

impl Reader {
    fn new() -> (r: Self)
        ensures
            r@ == fresh_read(),
    {
        let r = Reader {
            looks: Vec::new(),
            colors: Vec::new(),
            joined: Vec::new(),
            has_current: false,
            cur_index: 0,
            cur: ChatWindowLook::blank(),
            block: Block::Top,
            added: 0,
        };
        assert(r@.looks =~= Seq::<(nat, ChatWindowLookView)>::empty());
        assert(r@.colors =~= Seq::<(Seq<char>, Seq<u8>)>::empty());
        assert(r@.joined =~= Seq::<Seq<char>>::empty());
        r
    }

    fn flush(&mut self)
        ensures
            final(self)@ == flush(old(self)@),
    {
        if self.has_current {
            let mut done = ChatWindowLook::blank();
            std::mem::swap(&mut done, &mut self.cur);
            self.looks.push((self.cur_index, done));
            self.has_current = false;
            assert(final(self)@.looks =~= old(self)@.looks.push((old(self).cur_index as nat, old(self).cur@)));
        }
    }

    /// A line inside a list block, words `rs` (the trimmed line is `chars[ts..te]`).
    fn list_line(&mut self, chars: &Vec<char>, ts: usize, te: usize, rs: &Vec<(usize, usize)>)
        requires
            ts < te <= chars@.len(),
            old(self).block != Block::Top,
            rs@.len() >= 1,
            ranges_fit(chars@.len(), rs@),
        ensures
            ({
                let ws = range_words(chars@, rs@);
                let head = ws[0];
                let rest = ws.drop_first();
                let st = old(self)@;
                final(self)@ == if eq_ignore_ascii_case(head, "END"@) {
                    ReadState { block: Block::Top, ..st }
                } else {
                    match st.block {
                        Block::Colors => ReadState {
                            colors: st.colors.push(
                                (
                                    ascii_upper(head),
                                    seq![
                                        byte_value(word_at(rest, 0)),
                                        byte_value(word_at(rest, 1)),
                                        byte_value(word_at(rest, 2)),
                                    ],
                                ),
                            ),
                            ..st
                        },
                        Block::Joined => ReadState {
                            joined: st.joined.push(chars@.subrange(ts as int, te as int)),
                            ..st
                        },
                        Block::Messages => match st.current {
                            Some((i, l)) => ReadState {
                                current: Some(
                                    (
                                        i,
                                        ChatWindowLookView {
                                            messages: l.messages.push(ascii_upper(head)),
                                            ..l
                                        },
                                    ),
                                ),
                                ..st
                            },
                            None => st,
                        },
                        _ => match st.current {
                            Some((i, l)) => ReadState {
                                current: Some(
                                    (
                                        i,
                                        ChatWindowLookView {
                                            channels: l.channels.push((head, 0u32)),
                                            ..l
                                        },
                                    ),
                                ),
                                ..st
                            },
                            None => st,
                        },
                    }
                }
            }),
    {
        let ghost ws = range_words(chars@, rs@);
        let ghost rest = ws.drop_first();
        proof {
            lemma_word_at_tail(ws, 1, 0);
            lemma_word_at_tail(ws, 1, 1);
            lemma_word_at_tail(ws, 1, 2);
        }
        let (hx, hy) = rs[0];
        assert(rs@[0].0 <= rs@[0].1 <= chars@.len());
        if eq_ic_at(chars, hx, hy, "END") {
            self.block = Block::Top;
            return;
        }
        match self.block {
            Block::Colors => {
                let n = rs.len();
                let name = upper_of(chars, hx, hy);
                let rgb = [
                    byte_at(chars, rs, after(n, 0, 1)),
                    byte_at(chars, rs, after(n, 0, 2)),
                    byte_at(chars, rs, after(n, 0, 3)),
                ];
                self.colors.push((name, rgb));
                assert(rgb@ =~= seq![
                    byte_value(word_at(rest, 0)),
                    byte_value(word_at(rest, 1)),
                    byte_value(word_at(rest, 2)),
                ]);
                assert(self@.colors =~= old(self)@.colors.push((ascii_upper(ws[0]), rgb@)));
            },
            Block::Joined => {
                let line = string_of(chars, ts, te);
                self.joined.push(line);
                assert(self@.joined =~= old(self)@.joined.push(chars@.subrange(ts as int, te as int)));
            },
            Block::Messages => {
                if self.has_current {
                    let m = upper_of(chars, hx, hy);
                    self.cur.messages.push(m);
                    assert(self.cur@.messages =~= old(self).cur@.messages.push(ascii_upper(ws[0])));
                }
            },
            _ => {
                if self.has_current {
                    let c = string_of(chars, hx, hy);
                    self.cur.channels.push((c, 0));
                    assert(self.cur@.channels =~= old(self).cur@.channels.push((ws[0], 0u32)));
                }
            },
        }
    }
}

impl Reader {
    /// A `WINDOW` line: the window being read is finished, and a numbered one begins from its
    /// boot record with the keys that follow on the line.
    fn window_line(
        &mut self,
        chars: &Vec<char>,
        rs: &Vec<(usize, usize)>,
        stock: &[ChatWindowLook],
        rows: &[(u32, String)],
    )
        requires
            rs@.len() >= 1,
            ranges_fit(chars@.len(), rs@),
        ensures
            ({
                let ws = range_words(chars@, rs@);
                let rest = ws.drop_first();
                let f = flush(old(self)@);
                final(self)@ == match word_at(rest, 0) {
                    Some(v) => match parse_unsigned_upto(v, usize::MAX as nat) {
                        Some(n) => if n == 0 {
                            f
                        } else {
                            let i = (n - 1) as nat;
                            ReadState {
                                current: Some(
                                    (
                                        i,
                                        apply_keys(
                                            boot_look(looks_view(stock@), i),
                                            rest.drop_first(),
                                            rows_view(rows@),
                                        ),
                                    ),
                                ),
                                ..f
                            }
                        },
                        None => f,
                    },
                    None => f,
                }
            }),
    {
        let ghost ws = range_words(chars@, rs@);
        proof {
            lemma_word_at_tail(ws, 1, 0);
        }
        self.flush();
        if rs.len() < 2 {
            return;
        }
        let (x, y) = rs[1];
        assert(rs@[1].0 <= rs@[1].1 <= chars@.len());
        let number = unsigned_in(chars, x, y, usize::MAX as u64);
        match number {
            None => {},
            Some(n) => {
                if n != 0 {
                    let i = (n - 1) as usize;
                    let mut look = boot_copy(stock, i);
                    apply_keys_from(&mut look, chars, rs, 2, rows);
                    assert(ws.drop_first().drop_first() =~= ws.subrange(2, rs@.len() as int));
                    self.cur = look;
                    self.cur_index = i;
                    self.has_current = true;
                }
            },
        }
    }

    /// A top-level line outside any window.
    fn outside_line(&mut self, chars: &Vec<char>, rs: &Vec<(usize, usize)>)
        requires
            rs@.len() >= 1,
            ranges_fit(chars@.len(), rs@),
            !old(self).has_current,
        ensures
            ({
                let ws = range_words(chars@, rs@);
                let head = ws[0];
                let st = old(self)@;
                final(self)@ == if eq_ignore_ascii_case(head, "CHANNELS"@) {
                    ReadState { block: Block::Joined, ..st }
                } else if eq_ignore_ascii_case(head, "ADDEDVERSION"@) {
                    ReadState { added: byte_value(word_at(ws.drop_first(), 0)), ..st }
                } else {
                    st
                }
            }),
    {
        let ghost ws = range_words(chars@, rs@);
        proof {
            lemma_word_at_tail(ws, 1, 0);
        }
        let (hx, hy) = rs[0];
        assert(rs@[0].0 <= rs@[0].1 <= chars@.len());
        if eq_ic_at(chars, hx, hy, "CHANNELS") {
            self.block = Block::Joined;
        } else if eq_ic_at(chars, hx, hy, "ADDEDVERSION") {
            self.added = byte_at(chars, rs, after(rs.len(), 0, 1));
        }
    }

    /// A top-level line inside a window; the trimmed line is `chars[ts..te]`.
    fn inside_line(
        &mut self,
        chars: &Vec<char>,
        ts: usize,
        te: usize,
        rs: &Vec<(usize, usize)>,
        rows: &[(u32, String)],
    )
        requires
            ts <= te <= chars@.len(),
            rs@.len() >= 1,
            rs@[0].0 == ts,
            ranges_fit(chars@.len(), rs@),
            old(self).has_current,
        ensures
            ({
                let ws = range_words(chars@, rs@);
                let head = ws[0];
                let rest = ws.drop_first();
                let line = chars@.subrange(ts as int, te as int);
                let st = old(self)@;
                let i = old(self).cur_index as nat;
                let l = old(self).cur@;
                final(self)@ == if eq_ignore_ascii_case(head, "END"@) {
                    flush(st)
                } else if eq_ignore_ascii_case(head, "MESSAGES"@) {
                    ReadState {
                        current: Some((i, ChatWindowLookView { messages: Seq::empty(), ..l })),
                        block: Block::Messages,
                        ..st
                    }
                } else if eq_ignore_ascii_case(head, "CHANNELS"@) {
                    ReadState {
                        current: Some(
                            (i, ChatWindowLookView { channels: zone_channels_only(l.channels), ..l }),
                        ),
                        block: Block::Channels,
                        ..st
                    }
                } else if eq_ignore_ascii_case(head, "NAME"@) && line.len() >= 4 {
                    ReadState {
                        current: Some(
                            (
                                i,
                                ChatWindowLookView {
                                    name: trim(line.subrange(4, line.len() as int)),
                                    ..l
                                },
                            ),
                        ),
                        ..st
                    }
                } else {
                    ReadState { current: Some((i, apply_key(l, head, rest, rows_view(rows@)))), ..st }
                }
            }),
    {
        let ghost ws = range_words(chars@, rs@);
        let (hx, hy) = rs[0];
        assert(rs@[0].0 <= rs@[0].1 <= chars@.len());
        if eq_ic_at(chars, hx, hy, "END") {
            self.flush();
        } else if eq_ic_at(chars, hx, hy, "MESSAGES") {
            self.cur.messages = Vec::new();
            self.block = Block::Messages;
            assert(self.cur@.messages =~= Seq::<Seq<char>>::empty());
        } else if eq_ic_at(chars, hx, hy, "CHANNELS") {
            let kept = zone_channels_of(&self.cur.channels);
            self.cur.channels = kept;
            self.block = Block::Channels;
        } else if eq_ic_at(chars, hx, hy, "NAME") && te - ts >= 4 {
            let (nx, ny) = trim_bounds(chars, ts + 4, te);
            assert(chars@.subrange(ts as int, te as int).subrange(4, (te - ts) as int) =~= chars@.subrange(
                ts + 4,
                te as int,
            ));
            self.cur.name = string_of(chars, nx, ny);
        } else {
            apply_key_at(&mut self.cur, chars, rs, 0, rows);
            assert(ws.subrange(1, rs@.len() as int) =~= ws.drop_first());
        }
    }
}

impl Reader {
    /// One line of the file, `chars[ls..le]`.
    fn read_line_at(
        &mut self,
        chars: &Vec<char>,
        ls: usize,
        le: usize,
        stock: &[ChatWindowLook],
        rows: &[(u32, String)],
    )
        requires
            ls <= le <= chars@.len(),
        ensures
            final(self)@ == read_line(
                old(self)@,
                chars@.subrange(ls as int, le as int),
                looks_view(stock@),
                rows_view(rows@),
            ),
    {
        let (ts, te) = trim_bounds(chars, ls, le);
        let ghost line = chars@.subrange(ts as int, te as int);
        if ts == te || chars[ts] == '#' {
            return;
        }
        let rs = word_ranges(chars, ts, te);
        let ghost ws = range_words(chars@, rs@);
        assert(ws == words(line));
        let (hx, hy) = rs[0];
        assert(ts <= hy <= te);
        match self.block {
            Block::Top => {},
            _ => {
                self.list_line(chars, ts, te, &rs);
                return;
            },
        }
        if eq_ic_at(chars, hx, hy, "COLORS") {
            self.block = Block::Colors;
        } else if eq_ic_at(chars, hx, hy, "WINDOW") {
            self.window_line(chars, &rs, stock, rows);
        } else if self.has_current {
            proof {
                reveal_strlit("NAME");
                if eq_ignore_ascii_case(ws[0], "NAME"@) {
                    assert(ws[0].len() == 4);
                }
            }
            self.inside_line(chars, ts, te, &rs, rows);
        } else {
            self.outside_line(chars, &rs);
        }
    }
}

/// Whether `ms` shows the group `name`.
fn shows(ms: &Vec<String>, name: &String) -> (r: bool)
    ensures
        r == strings_view(ms@).contains(name@),
{
    let ghost v = strings_view(ms@);
    let mut k: usize = 0;
    while k < ms.len()
        invariant
            k <= ms@.len(),
            v == strings_view(ms@),
            forall|j: int| 0 <= j < k ==> v[j] != name@,
        decreases ms@.len() - k,
    {
        if ms[k] == *name {
            assert(v[k as int] == name@);
            return true;
        }
        k = k + 1;
    }
    false
}

/// The message groups newer than the file added to their windows.
fn backfill_into(looks: &mut Vec<(usize, ChatWindowLook)>, groups: &[MessageGroup], added: u8)
    ensures
        indexed_looks_view(final(looks)@) == backfill(
            indexed_looks_view(old(looks)@),
            groups_view(groups@),
            added,
        ),
{
    let ghost gv = groups_view(groups@);
    let ghost start = indexed_looks_view(looks@);
    let mut i: usize = 0;
    while i < groups.len()
        invariant
            i <= groups@.len(),
            gv == groups_view(groups@),
            indexed_looks_view(looks@) == backfill(start, gv.take(i as int), added),
        decreases groups@.len() - i,
    {
        assert(gv.take(i + 1).drop_last() =~= gv.take(i as int));
        let ghost before = indexed_looks_view(looks@);
        let g = &groups[i];
        if g.on && g.version > added {
            let t: usize = if i >= 10 {
                1
            } else {
                0
            };
            let mut j: usize = 0;
            while j < looks.len() && looks[j].0 != t
                invariant
                    j <= looks@.len(),
                    forall|k: int| 0 <= k < j ==> looks@[k].0 != t,
                decreases looks@.len() - j,
            {
                j = j + 1;
            }
            proof {
                let lv = indexed_looks_view(looks@);
                if j < looks@.len() {
                    assert(lv[j as int].0 == t);
                    assert(forall|k: int| 0 <= k < j ==> lv[k].0 != t);
                    let c = choose|c: int|
                        0 <= c < lv.len() && #[trigger] lv[c].0 == t && forall|k: int|
                            0 <= k < c ==> lv[k].0 != t;
                    assert(c == j) by {
                        if c < j {
                            assert(lv[c].0 != t);
                        } else if c > j {
                            assert(lv[j as int].0 != t);
                        }
                    }
                    assert(first_window(lv, t as nat) == Some(j as int));
                } else {
                    assert(forall|k: int| 0 <= k < lv.len() ==> lv[k].0 != t);
                    assert(first_window(lv, t as nat) is None);
                }
            }
            if j < looks.len() {
                if !shows(&looks[j].1.messages, &g.name) {
                    let ghost old_looks = looks@;
                    let mut entry = looks.remove(j);
                    let name = g.name.clone();
                    entry.1.messages.push(name);
                    assert(entry.1@.messages =~= old_looks[j as int].1@.messages.push(g.name@));
                    looks.insert(j, entry);
                    assert(looks@ =~= old_looks.update(j as int, entry));
                    assert(indexed_looks_view(looks@) =~= before.update(
                        j as int,
                        (
                            before[j as int].0,
                            ChatWindowLookView {
                                messages: before[j as int].1.messages.push(gv[i as int].name),
                                ..before[j as int].1
                            },
                        ),
                    ));
                }
            }
        }
        i = i + 1;
        assert(indexed_looks_view(looks@) == backfill(start, gv.take(i as int), added));
    }
    assert(gv.take(i as int) =~= gv);
}

/// Reads a chat-cache file. `stock` holds the windows' boot records (a window the file names
/// starts from its own, one past the table from the record at rest), `rows` the zone-channel
/// catalog as `(id, shortcut)` for the windows' zone-channel words, and `groups` the
/// message-group table, back-filled into a file older than version 2.
///
/// The windows' message lists come back in the order the file lists them (after the
/// back-fill): they are not re-sorted into the message-group table's order here.
pub fn parse(
    text: &str,
    stock: &[ChatWindowLook],
    rows: &[(u32, String)],
    groups: &[MessageGroup],
) -> (p: Parsed)
    ensures
        p@ == parsed(text@, looks_view(stock@), rows_view(rows@), groups_view(groups@)),
{
    let chars = chars_of(text);
    let mut r = Reader::new();
    let n = chars.len();
    let mut ls: usize = 0;
    let mut i: usize = 0;
    assert(chars@.subrange(0, 0) =~= Seq::<char>::empty());
    assert(pieces(Seq::<char>::empty()).drop_last() =~= Seq::<Seq<char>>::empty());
    while i < n
        invariant
            ls <= i <= n == chars@.len(),
            pieces(chars@.subrange(0, i as int)).len() >= 1,
            pieces(chars@.subrange(0, i as int)).last() == chars@.subrange(ls as int, i as int),
            r@ == read_lines(
                pieces(chars@.subrange(0, i as int)).drop_last(),
                looks_view(stock@),
                rows_view(rows@),
            ),
        decreases n - i,
    {
        let ghost s1 = chars@.subrange(0, i + 1);
        let ghost p0 = pieces(chars@.subrange(0, i as int));
        assert(s1.drop_last() =~= chars@.subrange(0, i as int));
        assert(s1.last() == chars@[i as int]);
        if chars[i] == '\n' {
            r.read_line_at(&chars, ls, i, stock, rows);
            assert(pieces(s1).drop_last() =~= p0);
            assert(p0.drop_last().push(p0.last()) =~= p0);
            ls = i + 1;
            assert(chars@.subrange(ls as int, i + 1) =~= Seq::<char>::empty());
        } else {
            assert(pieces(s1).drop_last() =~= p0.drop_last());
            assert(chars@.subrange(ls as int, i + 1) =~= chars@.subrange(ls as int, i as int).push(
                chars@[i as int],
            ));
        }
        i = i + 1;
    }
    assert(chars@.subrange(0, n as int) =~= text@);
    let ghost all = pieces(text@);
    assert(all.drop_last().push(all.last()) =~= all);
    r.read_line_at(&chars, ls, n, stock, rows);
    r.flush();
    if r.added < 2 {
        backfill_into(&mut r.looks, groups, r.added);
    }
    Parsed { looks: r.looks, colors: r.colors, joined: r.joined }
}

/// The zone-channel catalog rows the client joins by itself, as window channels.
pub open spec fn auto_join_channels(auto_join: Seq<(u32, Seq<char>)>) -> Seq<(Seq<char>, u32)> {
    auto_join.map_values(|r: (u32, Seq<char>)| (r.1, r.0))
}

/// What a login restores: the file read as [`parse`] reads it, or, with no file, the first
/// window's boot record carrying the catalog rows the client joins by itself as its channels,
/// and nothing else.
pub open spec fn restored(
    text: Option<Seq<char>>,
    stock: Seq<ChatWindowLookView>,
    rows: Seq<(u32, Seq<char>)>,
    groups: Seq<MessageGroupView>,
    auto_join: Seq<(u32, Seq<char>)>,
) -> ParsedView {
    match text {
        Some(t) => parsed(t, stock, rows, groups),
        None => ParsedView {
            looks: seq![
                (
                    0nat,
                    ChatWindowLookView {
                        channels: auto_join_channels(auto_join),
                        ..boot_look(stock, 0)
                    },
                ),
            ],
            colors: Seq::empty(),
            joined: Seq::empty(),
        },
    }
}

/// The login restore: `text` is the file's contents, `None` when there is no file;
/// `auto_join` the catalog rows `(id, shortcut)` the client joins by itself.
pub fn restore(
    text: Option<&str>,
    stock: &[ChatWindowLook],
    rows: &[(u32, String)],
    groups: &[MessageGroup],
    auto_join: &[(u32, String)],
) -> (p: Parsed)
    ensures
        p@ == restored(
            match text {
                Some(t) => Some(t@),
                None => None,
            },
            looks_view(stock@),
            rows_view(rows@),
            groups_view(groups@),
            rows_view(auto_join@),
        ),
{
    match text {
        Some(t) => parse(t, stock, rows, groups),
        None => {
            let mut general = boot_copy(stock, 0);
            let mut channels: Vec<(String, u32)> = Vec::new();
            let ghost av = rows_view(auto_join@);
            let mut k: usize = 0;
            while k < auto_join.len()
                invariant
                    k <= auto_join@.len(),
                    av == rows_view(auto_join@),
                    channels@.len() == k,
                    forall|j: int|
                        0 <= j < k ==> #[trigger] channels@[j].0@ == auto_join@[j].1@
                            && channels@[j].1 == auto_join@[j].0,
                decreases auto_join@.len() - k,
            {
                let name = auto_join[k].1.clone();
                assert(name@ == auto_join@[k as int].1@);
                channels.push((name, auto_join[k].0));
                k = k + 1;
            }
            assert(pairs_view(channels@) =~= auto_join_channels(av));
            general.channels = channels;
            let p = Parsed { looks: vec![(0, general)], colors: Vec::new(), joined: Vec::new() };
            assert(p@.looks =~= restored(
                None,
                looks_view(stock@),
                rows_view(rows@),
                groups_view(groups@),
                av,
            ).looks);
            assert(p@.colors =~= Seq::<(Seq<char>, Seq<u8>)>::empty());
            assert(p@.joined =~= Seq::<Seq<char>>::empty());
            p
        },
    }
}

/// How long a changed look waits, in milliseconds, before the save fires: long enough to
/// coalesce a slider drag, short enough that a crash loses one gesture.
pub const SAVE_QUIET_MS: u64 = 1000;

/// Whether the file is owed a write now: something changed, and the app is exiting or the
/// last change is a quiet second old (or its time is unknown).
pub fn save_due(dirty: bool, exiting: bool, since_change_ms: Option<u64>) -> (b: bool)
    ensures
        b == (dirty && (exiting || match since_change_ms {
            Some(ms) => ms >= SAVE_QUIET_MS,
            None => true,
        })),
{
    dirty && (exiting || match since_change_ms {
        Some(ms) => ms >= SAVE_QUIET_MS,
        None => true,
    })
}

} // verus!
