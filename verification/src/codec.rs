//! Text codec for the persisted settings.
//!
//! The settings file is a pretty-printed object in the shape the shell has
//! always written: one key per line, two-space indent, the twelve fields in
//! a fixed order. `spec_serialize` is the mathematical definition of that
//! text; `serialize_settings` produces it and `parse_settings` reads it
//! back. `lemma_round_trip` proves that decoding an encoded value recovers
//! it exactly, for every representable settings value.

use vstd::prelude::*;
use vstd::string::StrSliceExecFns;

use crate::settings::{AppSettings, AppSettingsV, width_in_range};

verus! {

// ---------------------------------------------------------------------------
// Serialization, as mathematics
// ---------------------------------------------------------------------------

/// How one character appears inside a quoted string: quotes and backslashes
/// carry a backslash escape, every other character stands for itself.
pub open spec fn esc_char(c: char) -> Seq<char> {
    if c == '"' || c == '\\' {
        seq!['\\', c]
    } else {
        seq![c]
    }
}

/// The escaped body of a quoted string.
pub open spec fn esc(s: Seq<char>) -> Seq<char>
    decreases s.len(),
{
    if s.len() == 0 {
        Seq::empty()
    } else {
        esc_char(s[0]) + esc(s.drop_first())
    }
}

/// A quoted string: escaped body between double quotes.
pub open spec fn ser_string(s: Seq<char>) -> Seq<char> {
    seq!['"'] + esc(s) + seq!['"']
}

/// A boolean value in the text.
pub open spec fn ser_bool(b: bool) -> Seq<char> {
    if b {
        "true"@
    } else {
        "false"@
    }
}

/// The decimal digit character for `d` in `0..10`.
pub open spec fn digit_char(d: int) -> char {
    if d == 0 { '0' }
    else if d == 1 { '1' }
    else if d == 2 { '2' }
    else if d == 3 { '3' }
    else if d == 4 { '4' }
    else if d == 5 { '5' }
    else if d == 6 { '6' }
    else if d == 7 { '7' }
    else if d == 8 { '8' }
    else if d == 9 { '9' }
    else { '?' }
}

/// The numeric value of a digit character, `-1` for anything else.
pub open spec fn dval(c: char) -> int {
    if c == '0' { 0 }
    else if c == '1' { 1 }
    else if c == '2' { 2 }
    else if c == '3' { 3 }
    else if c == '4' { 4 }
    else if c == '5' { 5 }
    else if c == '6' { 6 }
    else if c == '7' { 7 }
    else if c == '8' { 8 }
    else if c == '9' { 9 }
    else { -1 }
}

pub open spec fn is_digit(c: char) -> bool {
    dval(c) >= 0
}

/// Decimal digits of a non-negative integer, most significant first.
pub open spec fn ser_nat(n: int) -> Seq<char>
    recommends
        n >= 0,
    decreases n,
{
    if n < 10 {
        seq![digit_char(n)]
    } else {
        ser_nat(n / 10) + seq![digit_char(n % 10)]
    }
}

/// A signed decimal integer in the text.
pub open spec fn ser_i32(n: int) -> Seq<char> {
    if n < 0 {
        seq!['-'] + ser_nat(-n)
    } else {
        ser_nat(n)
    }
}

/// The first half of the persisted text: `autostart` through
/// `panel_width`.
pub open spec fn ser_head(v: AppSettingsV) -> Seq<char> {
    "{\n  \"autostart\": "@ + ser_bool(v.autostart)
        + ",\n  \"default_window\": "@ + ser_string(v.default_window)
        + ",\n  \"normal_auto_load_conversation\": "@ + ser_bool(v.normal_auto_load_conversation)
        + ",\n  \"panel_auto_load_conversation\": "@ + ser_bool(v.panel_auto_load_conversation)
        + ",\n  \"tray_click_action\": "@ + ser_string(v.tray_click_action)
        + ",\n  \"panel_width\": "@ + ser_i32(v.panel_width)
}

/// The second half: `animation_speed` through the closing brace.
pub open spec fn ser_tail(v: AppSettingsV) -> Seq<char> {
    ",\n  \"animation_speed\": "@ + ser_string(v.animation_speed)
        + ",\n  \"hotkey_panel\": "@ + ser_string(v.hotkey_panel)
        + ",\n  \"hotkey_normal\": "@ + ser_string(v.hotkey_normal)
        + ",\n  \"enable_ctrl_n\": "@ + ser_bool(v.enable_ctrl_n)
        + ",\n  \"gemini_url\": "@ + ser_string(v.gemini_url)
        + ",\n  \"close_to_tray\": "@ + ser_bool(v.close_to_tray)
        + "\n}"@
}

/// The exact text the shell persists for a settings value.
pub open spec fn spec_serialize(v: AppSettingsV) -> Seq<char> {
    ser_head(v) + ser_tail(v)
}

// ---------------------------------------------------------------------------
// Executable serializer
// ---------------------------------------------------------------------------

/// Relies on `String` implementing `FromIterator<char>`: collecting a
/// character sequence yields the string of exactly those characters in order.
#[verifier::external_body]
fn chars_to_string(v: &Vec<char>) -> (r: String)
    ensures
        r@ == v@,
{
    v.iter().collect()
}

fn push_lit(out: &mut Vec<char>, lit: &str)
    ensures
        final(out)@ == old(out)@ + lit@,
{
    let n: usize = lit.unicode_len();
    let mut j: usize = 0;
    while j < n
        invariant
            n == lit@.len(),
            j <= n,
            out@ == old(out)@ + lit@.subrange(0, j as int),
        decreases n - j,
    {
        out.push(lit.get_char(j));
        j = j + 1;
        proof {
            assert(lit@.subrange(0, j as int)
                =~= lit@.subrange(0, j - 1) + seq![lit@[j - 1]]);
        }
    }
    proof {
        assert(lit@.subrange(0, n as int) =~= lit@);
    }
}

/// Appending one more character extends the escaped body by that
/// character's escape.
proof fn lemma_esc_append(s: Seq<char>, c: char)
    ensures
        esc(s + seq![c]) == esc(s) + esc_char(c),
    decreases s.len(),
{
    if s.len() == 0 {
        reveal_with_fuel(esc, 3);
        assert(s + seq![c] =~= seq![c]);
        assert((s + seq![c]).drop_first() =~= Seq::<char>::empty());
        assert(esc(s + seq![c]) =~= esc_char(c));
        assert(esc(s) + esc_char(c) =~= esc_char(c));
    } else {
        assert((s + seq![c]).drop_first() =~= s.drop_first() + seq![c]);
        lemma_esc_append(s.drop_first(), c);
        assert(esc(s + seq![c]) == esc_char(s[0]) + (esc(s.drop_first()) + esc_char(c)));
        assert(esc_char(s[0]) + (esc(s.drop_first()) + esc_char(c))
            =~= (esc_char(s[0]) + esc(s.drop_first())) + esc_char(c));
    }
}

fn push_escaped(out: &mut Vec<char>, s: &str)
    ensures
        final(out)@ == old(out)@ + esc(s@),
{
    let n: usize = s.unicode_len();
    let mut j: usize = 0;
    while j < n
        invariant
            n == s@.len(),
            j <= n,
            out@ == old(out)@ + esc(s@.subrange(0, j as int)),
        decreases n - j,
    {
        let c = s.get_char(j);
        if c == '"' || c == '\\' {
            out.push('\\');
            out.push(c);
        } else {
            out.push(c);
        }
        proof {
            lemma_esc_append(s@.subrange(0, j as int), c);
            assert(s@.subrange(0, j + 1) =~= s@.subrange(0, j as int) + seq![c]);
            assert(old(out)@ + esc(s@.subrange(0, j as int)) + esc_char(c)
                =~= old(out)@ + (esc(s@.subrange(0, j as int)) + esc_char(c)));
        }
        j = j + 1;
    }
    proof {
        assert(s@.subrange(0, n as int) =~= s@);
    }
}

fn push_quoted(out: &mut Vec<char>, s: &str)
    ensures
        final(out)@ == old(out)@ + ser_string(s@),
{
    out.push('"');
    push_escaped(out, s);
    out.push('"');
    proof {
        assert(out@ =~= old(out)@ + ser_string(s@));
    }
}

fn push_bool(out: &mut Vec<char>, b: bool)
    ensures
        final(out)@ == old(out)@ + ser_bool(b),
{
    if b {
        push_lit(out, "true");
    } else {
        push_lit(out, "false");
    }
}

fn digit_char_exec(d: u64) -> (c: char)
    requires
        d < 10,
    ensures
        c == digit_char(d as int),
{
    if d == 0 { '0' }
    else if d == 1 { '1' }
    else if d == 2 { '2' }
    else if d == 3 { '3' }
    else if d == 4 { '4' }
    else if d == 5 { '5' }
    else if d == 6 { '6' }
    else if d == 7 { '7' }
    else if d == 8 { '8' }
    else { '9' }
}

fn push_nat(out: &mut Vec<char>, n: u64)
    ensures
        final(out)@ == old(out)@ + ser_nat(n as int),
    decreases n,
{
    if n < 10 {
        out.push(digit_char_exec(n));
        proof {
            assert(out@ =~= old(out)@ + ser_nat(n as int));
        }
    } else {
        push_nat(out, n / 10);
        out.push(digit_char_exec(n % 10));
        proof {
            assert(out@ =~= old(out)@ + ser_nat(n as int));
        }
    }
}

fn push_i32(out: &mut Vec<char>, n: i32)
    ensures
        final(out)@ == old(out)@ + ser_i32(n as int),
{
    if n < 0 {
        out.push('-');
        let m: u64 = (-(n as i64)) as u64;
        push_nat(out, m);
        proof {
            assert(out@ =~= old(out)@ + ser_i32(n as int));
        }
    } else {
        push_nat(out, n as u64);
    }
}

/// Render a settings value as the text the shell persists.
#[verifier::rlimit(100)]
#[verifier::spinoff_prover]
pub fn serialize_settings(s: &AppSettings) -> (r: String)
    ensures
        r@ == spec_serialize(s@),
{
    let mut out: Vec<char> = Vec::new();
    push_lit(&mut out, "{\n  \"autostart\": ");
    push_bool(&mut out, s.autostart);
    push_lit(&mut out, ",\n  \"default_window\": ");
    push_quoted(&mut out, s.default_window.as_str());
    push_lit(&mut out, ",\n  \"normal_auto_load_conversation\": ");
    push_bool(&mut out, s.normal_auto_load_conversation);
    push_lit(&mut out, ",\n  \"panel_auto_load_conversation\": ");
    push_bool(&mut out, s.panel_auto_load_conversation);
    push_lit(&mut out, ",\n  \"tray_click_action\": ");
    push_quoted(&mut out, s.tray_click_action.as_str());
    push_lit(&mut out, ",\n  \"panel_width\": ");
    push_i32(&mut out, s.panel_width);
    let ghost mid = out@;
    proof {
        assert(mid =~= ser_head(s@));
    }
    push_lit(&mut out, ",\n  \"animation_speed\": ");
    push_quoted(&mut out, s.animation_speed.as_str());
    push_lit(&mut out, ",\n  \"hotkey_panel\": ");
    push_quoted(&mut out, s.hotkey_panel.as_str());
    push_lit(&mut out, ",\n  \"hotkey_normal\": ");
    push_quoted(&mut out, s.hotkey_normal.as_str());
    push_lit(&mut out, ",\n  \"enable_ctrl_n\": ");
    push_bool(&mut out, s.enable_ctrl_n);
    push_lit(&mut out, ",\n  \"gemini_url\": ");
    push_quoted(&mut out, s.gemini_url.as_str());
    push_lit(&mut out, ",\n  \"close_to_tray\": ");
    push_bool(&mut out, s.close_to_tray);
    push_lit(&mut out, "\n}");
    proof {
        assert(out@ =~= mid + ser_tail(s@));
    }
    chars_to_string(&out)
}

// ---------------------------------------------------------------------------
// Parsing, as mathematics
// ---------------------------------------------------------------------------

/// `lit` occurs in `t` starting at position `i`.
pub open spec fn lit_at(t: Seq<char>, i: int, lit: Seq<char>) -> bool {
    0 <= i && i + lit.len() <= t.len() && t.subrange(i, i + lit.len()) == lit
}

/// Position just past `lit`, when `lit` occurs at `i`.
pub open spec fn after_lit(t: Seq<char>, i: int, lit: Seq<char>) -> Option<int> {
    if lit_at(t, i, lit) {
        Some(i + lit.len())
    } else {
        None
    }
}

pub open spec fn parse_bool(t: Seq<char>, i: int) -> Option<(bool, int)> {
    if lit_at(t, i, "true"@) {
        Some((true, i + "true"@.len()))
    } else if lit_at(t, i, "false"@) {
        Some((false, i + "false"@.len()))
    } else {
        None
    }
}

/// The body of a quoted string, read from just after the opening quote up
/// to and including the closing quote; escape pairs collapse to their
/// second character.
pub open spec fn parse_string_body(t: Seq<char>, i: int) -> Option<(Seq<char>, int)>
    decreases t.len() - i,
{
    if i < 0 || i >= t.len() {
        None
    } else if t[i] == '"' {
        Some((Seq::empty(), i + 1))
    } else if t[i] == '\\' {
        if i + 1 < t.len() && (t[i + 1] == '"' || t[i + 1] == '\\') {
            match parse_string_body(t, i + 2) {
                Some(p) => Some((seq![t[i + 1]] + p.0, p.1)),
                None => None,
            }
        } else {
            None
        }
    } else {
        match parse_string_body(t, i + 1) {
            Some(p) => Some((seq![t[i]] + p.0, p.1)),
            None => None,
        }
    }
}

pub open spec fn parse_string(t: Seq<char>, i: int) -> Option<(Seq<char>, int)> {
    if 0 <= i && i < t.len() && t[i] == '"' {
        parse_string_body(t, i + 1)
    } else {
        None
    }
}

/// A run of at most ten decimal digits, folded onto `acc`; at least one
/// digit must be present and an eleventh digit refuses the number.
pub open spec fn parse_digits(t: Seq<char>, i: int, acc: int, count: int) -> Option<(int, int)>
    decreases t.len() - i,
{
    if i < 0 || i >= t.len() || !is_digit(t[i]) || count >= 10 {
        None
    } else {
        let acc2 = acc * 10 + dval(t[i]);
        if i + 1 < t.len() && is_digit(t[i + 1]) {
            parse_digits(t, i + 1, acc2, count + 1)
        } else {
            Some((acc2, i + 1))
        }
    }
}

pub open spec fn parse_i32(t: Seq<char>, i: int) -> Option<(int, int)> {
    if 0 <= i && i < t.len() && t[i] == '-' {
        match parse_digits(t, i + 1, 0, 0) {
            Some(p) => if -p.0 >= i32::MIN as int {
                Some((-p.0, p.1))
            } else {
                None
            },
            None => None,
        }
    } else {
        match parse_digits(t, i, 0, 0) {
            Some(p) => if p.0 <= i32::MAX as int {
                Some((p.0, p.1))
            } else {
                None
            },
            None => None,
        }
    }
}

pub open spec fn parse_bool_field(t: Seq<char>, i: int, lit: Seq<char>) -> Option<(bool, int)> {
    match after_lit(t, i, lit) {
        Some(j) => parse_bool(t, j),
        None => None,
    }
}

pub open spec fn parse_string_field(t: Seq<char>, i: int, lit: Seq<char>) -> Option<
    (Seq<char>, int),
> {
    match after_lit(t, i, lit) {
        Some(j) => parse_string(t, j),
        None => None,
    }
}

pub open spec fn parse_i32_field(t: Seq<char>, i: int, lit: Seq<char>) -> Option<(int, int)> {
    match after_lit(t, i, lit) {
        Some(j) => parse_i32(t, j),
        None => None,
    }
}

/// The first six fields: `autostart` through `panel_width`, with the
/// position where the rest of the text begins.
pub open spec fn parse_head(t: Seq<char>) -> Option<
    (bool, Seq<char>, bool, bool, Seq<char>, int, int),
> {
    match parse_bool_field(t, 0, "{\n  \"autostart\": "@) {
        None => None,
        Some(f1) => match parse_string_field(t, f1.1, ",\n  \"default_window\": "@) {
            None => None,
            Some(f2) => match parse_bool_field(
                t,
                f2.1,
                ",\n  \"normal_auto_load_conversation\": "@,
            ) {
                None => None,
                Some(f3) => match parse_bool_field(
                    t,
                    f3.1,
                    ",\n  \"panel_auto_load_conversation\": "@,
                ) {
                    None => None,
                    Some(f4) => match parse_string_field(t, f4.1, ",\n  \"tray_click_action\": "@) {
                        None => None,
                        Some(f5) => match parse_i32_field(t, f5.1, ",\n  \"panel_width\": "@) {
                            None => None,
                            Some(f6) => Some((f1.0, f2.0, f3.0, f4.0, f5.0, f6.0, f6.1)),
                        },
                    },
                },
            },
        },
    }
}

/// The last six fields, `animation_speed` through `close_to_tray`, the
/// closing brace, and the demand that nothing follows it.
pub open spec fn parse_tail(t: Seq<char>, i: int) -> Option<
    (Seq<char>, Seq<char>, Seq<char>, bool, Seq<char>, bool),
> {
    match parse_string_field(t, i, ",\n  \"animation_speed\": "@) {
        None => None,
        Some(f7) => match parse_string_field(t, f7.1, ",\n  \"hotkey_panel\": "@) {
            None => None,
            Some(f8) => match parse_string_field(t, f8.1, ",\n  \"hotkey_normal\": "@) {
                None => None,
                Some(f9) => match parse_bool_field(t, f9.1, ",\n  \"enable_ctrl_n\": "@) {
                    None => None,
                    Some(f10) => match parse_string_field(t, f10.1, ",\n  \"gemini_url\": "@) {
                        None => None,
                        Some(f11) => match parse_bool_field(t, f11.1, ",\n  \"close_to_tray\": "@) {
                            None => None,
                            Some(f12) => match after_lit(t, f12.1, "\n}"@) {
                                None => None,
                                Some(end) => if end == t.len() {
                                    Some((f7.0, f8.0, f9.0, f10.0, f11.0, f12.0))
                                } else {
                                    None
                                },
                            },
                        },
                    },
                },
            },
        },
    }
}

/// What the decoder yields on any text: the settings value it denotes, or
/// nothing when the text is not a settings document.
pub open spec fn spec_parse(t: Seq<char>) -> Option<AppSettingsV> {
    match parse_head(t) {
        None => None,
        Some(h) => match parse_tail(t, h.6) {
            None => None,
            Some(tl) => Some(
                AppSettingsV {
                    autostart: h.0,
                    default_window: h.1,
                    normal_auto_load_conversation: h.2,
                    panel_auto_load_conversation: h.3,
                    tray_click_action: h.4,
                    panel_width: h.5,
                    animation_speed: tl.0,
                    hotkey_panel: tl.1,
                    hotkey_normal: tl.2,
                    enable_ctrl_n: tl.3,
                    gemini_url: tl.4,
                    close_to_tray: tl.5,
                },
            ),
        },
    }
}

// ---------------------------------------------------------------------------
// Executable parser
// ---------------------------------------------------------------------------

fn str_to_chars(s: &str) -> (r: Vec<char>)
    ensures
        r@ == s@,
{
    let n: usize = s.unicode_len();
    let mut v: Vec<char> = Vec::new();
    let mut j: usize = 0;
    while j < n
        invariant
            n == s@.len(),
            j <= n,
            v@ == s@.subrange(0, j as int),
        decreases n - j,
    {
        v.push(s.get_char(j));
        j = j + 1;
        proof {
            assert(s@.subrange(0, j as int) =~= s@.subrange(0, j - 1) + seq![s@[j - 1]]);
        }
    }
    proof {
        assert(s@.subrange(0, n as int) =~= s@);
    }
    v
}

fn expect_lit(t: &Vec<char>, i: usize, lit: &str) -> (r: Option<usize>)
    ensures
        match r {
            Some(j) => after_lit(t@, i as int, lit@) == Some(j as int),
            None => after_lit(t@, i as int, lit@) is None,
        },
{
    let n: usize = lit.unicode_len();
    let tlen: usize = t.len();
    if n > tlen || i > tlen - n {
        return None;
    }
    let mut j: usize = 0;
    while j < n
        invariant
            n == lit@.len(),
            tlen == t@.len(),
            i + n <= tlen,
            j <= n,
            forall|k: int| 0 <= k < j ==> t@[i + k] == lit@[k],
        decreases n - j,
    {
        if t[i + j] != lit.get_char(j) {
            proof {
                if lit_at(t@, i as int, lit@) {
                    assert(t@.subrange(i as int, i + lit@.len())[j as int] == lit@[j as int]);
                }
            }
            return None;
        }
        j = j + 1;
    }
    proof {
        assert(t@.subrange(i as int, i + lit@.len()) =~= lit@);
    }
    Some(i + n)
}

fn parse_bool_at(t: &Vec<char>, i: usize) -> (r: Option<(bool, usize)>)
    ensures
        match r {
            Some(p) => parse_bool(t@, i as int) == Some((p.0, p.1 as int)),
            None => parse_bool(t@, i as int) is None,
        },
{
    match expect_lit(t, i, "true") {
        Some(j) => Some((true, j)),
        None => match expect_lit(t, i, "false") {
            Some(j) => Some((false, j)),
            None => None,
        },
    }
}

fn parse_string_at(t: &Vec<char>, i: usize) -> (r: Option<(String, usize)>)
    ensures
        match r {
            Some(p) => parse_string(t@, i as int) == Some((p.0@, p.1 as int)),
            None => parse_string(t@, i as int) is None,
        },
{
    if i >= t.len() {
        return None;
    }
    if t[i] != '"' {
        return None;
    }
    let mut j: usize = i + 1;
    let mut acc: Vec<char> = Vec::new();
    loop
        invariant
            i < t@.len(),
            t@[i as int] == '"',
            i + 1 <= j <= t@.len(),
            (match parse_string_body(t@, j as int) {
                Some(p) => parse_string_body(t@, i as int + 1) == Some((acc@ + p.0, p.1)),
                None => parse_string_body(t@, i as int + 1) is None,
            }),
        decreases t@.len() - j,
    {
        if j >= t.len() {
            return None;
        }
        let c = t[j];
        if c == '"' {
            proof {
                assert(acc@ + Seq::<char>::empty() =~= acc@);
            }
            return Some((chars_to_string(&acc), j + 1));
        }
        if c == '\\' {
            if j + 1 < t.len() && (t[j + 1] == '"' || t[j + 1] == '\\') {
                let c2 = t[j + 1];
                proof {
                    match parse_string_body(t@, j as int + 2) {
                        Some(p2) => {
                            assert(parse_string_body(t@, j as int) == Some(
                                (seq![c2] + p2.0, p2.1),
                            ));
                            assert(acc@ + (seq![c2] + p2.0) =~= (acc@ + seq![c2]) + p2.0);
                        },
                        None => {
                        },
                    }
                }
                acc.push(c2);
                j = j + 2;
            } else {
                return None;
            }
        } else {
            proof {
                match parse_string_body(t@, j as int + 1) {
                    Some(p2) => {
                        assert(parse_string_body(t@, j as int) == Some((seq![c] + p2.0, p2.1)));
                        assert(acc@ + (seq![c] + p2.0) =~= (acc@ + seq![c]) + p2.0);
                    },
                    None => {
                    },
                }
            }
            acc.push(c);
            j = j + 1;
        }
    }
}

fn digit_of(c: char) -> (r: i64)
    ensures
        r as int == dval(c),
{
    if c == '0' { 0 }
    else if c == '1' { 1 }
    else if c == '2' { 2 }
    else if c == '3' { 3 }
    else if c == '4' { 4 }
    else if c == '5' { 5 }
    else if c == '6' { 6 }
    else if c == '7' { 7 }
    else if c == '8' { 8 }
    else if c == '9' { 9 }
    else { -1 }
}

/// Powers of ten.
pub open spec fn pow10(k: nat) -> int
    decreases k,
{
    if k == 0 {
        1
    } else {
        10 * pow10((k - 1) as nat)
    }
}

proof fn lemma_pow10_pos(k: nat)
    ensures
        pow10(k) >= 1,
    decreases k,
{
    if k > 0 {
        lemma_pow10_pos((k - 1) as nat);
    }
}

proof fn lemma_pow10_le(a: nat, b: nat)
    requires
        a <= b,
    ensures
        pow10(a) <= pow10(b),
    decreases b,
{
    if a < b {
        lemma_pow10_le(a, (b - 1) as nat);
        lemma_pow10_pos((b - 1) as nat);
    }
}

fn parse_digits_at(t: &Vec<char>, i: usize) -> (r: Option<(u64, usize)>)
    ensures
        match r {
            Some(p) => parse_digits(t@, i as int, 0, 0) == Some((p.0 as int, p.1 as int)),
            None => parse_digits(t@, i as int, 0, 0) is None,
        },
{
    if i >= t.len() {
        return None;
    }
    let mut j: usize = i;
    let mut acc: u64 = 0;
    let mut count: u64 = 0;
    loop
        invariant
            i <= j <= t@.len(),
            count <= 10,
            acc < pow10(count as nat),
            parse_digits(t@, i as int, 0, 0) == parse_digits(
                t@,
                j as int,
                acc as int,
                count as int,
            ),
        decreases t@.len() - j,
    {
        if j >= t.len() {
            return None;
        }
        let d: i64 = digit_of(t[j]);
        if d < 0 {
            return None;
        }
        if count >= 10 {
            return None;
        }
        proof {
            lemma_pow10_le(count as nat, 9);
            reveal_with_fuel(pow10, 11);
            assert(pow10(9) == 1000000000);
        }
        let acc2: u64 = acc * 10 + (d as u64);
        proof {
            let c1: nat = (count + 1) as nat;
            assert((acc2 as int) < pow10(c1));
        }
        if j + 1 < t.len() && digit_of(t[j + 1]) >= 0 {
            acc = acc2;
            count = count + 1;
            j = j + 1;
        } else {
            return Some((acc2, j + 1));
        }
    }
}

fn parse_i32_at(t: &Vec<char>, i: usize) -> (r: Option<(i32, usize)>)
    ensures
        match r {
            Some(p) => parse_i32(t@, i as int) == Some((p.0 as int, p.1 as int)),
            None => parse_i32(t@, i as int) is None,
        },
{
    if i < t.len() && t[i] == '-' {
        match parse_digits_at(t, i + 1) {
            Some(p) => {
                if p.0 <= 2147483648u64 {
                    Some(((-(p.0 as i64)) as i32, p.1))
                } else {
                    None
                }
            },
            None => None,
        }
    } else {
        match parse_digits_at(t, i) {
            Some(p) => {
                if p.0 <= 2147483647u64 {
                    Some((p.0 as i32, p.1))
                } else {
                    None
                }
            },
            None => None,
        }
    }
}

/// Decode a settings document; `None` on any text the shell would not have
/// written for a representable settings value.
pub fn parse_settings(text: &str) -> (r: Option<AppSettings>)
    ensures
        match r {
            Some(s) => spec_parse(text@) == Some(s@),
            None => spec_parse(text@) is None,
        },
{
    let t = str_to_chars(text);
    let i1 = match expect_lit(&t, 0, "{\n  \"autostart\": ") {
        Some(j) => j,
        None => {
            return None;
        },
    };
    let (autostart, i2) = match parse_bool_at(&t, i1) {
        Some(p) => p,
        None => {
            return None;
        },
    };
    let i3 = match expect_lit(&t, i2, ",\n  \"default_window\": ") {
        Some(j) => j,
        None => {
            return None;
        },
    };
    let (default_window, i4) = match parse_string_at(&t, i3) {
        Some(p) => p,
        None => {
            return None;
        },
    };
    let i5 = match expect_lit(&t, i4, ",\n  \"normal_auto_load_conversation\": ") {
        Some(j) => j,
        None => {
            return None;
        },
    };
    let (normal_auto_load_conversation, i6) = match parse_bool_at(&t, i5) {
        Some(p) => p,
        None => {
            return None;
        },
    };
    let i7 = match expect_lit(&t, i6, ",\n  \"panel_auto_load_conversation\": ") {
        Some(j) => j,
        None => {
            return None;
        },
    };
    let (panel_auto_load_conversation, i8) = match parse_bool_at(&t, i7) {
        Some(p) => p,
        None => {
            return None;
        },
    };
    let i9 = match expect_lit(&t, i8, ",\n  \"tray_click_action\": ") {
        Some(j) => j,
        None => {
            return None;
        },
    };
    let (tray_click_action, i10) = match parse_string_at(&t, i9) {
        Some(p) => p,
        None => {
            return None;
        },
    };
    let i11 = match expect_lit(&t, i10, ",\n  \"panel_width\": ") {
        Some(j) => j,
        None => {
            return None;
        },
    };
    let (panel_width, i12) = match parse_i32_at(&t, i11) {
        Some(p) => p,
        None => {
            return None;
        },
    };
    let i13 = match expect_lit(&t, i12, ",\n  \"animation_speed\": ") {
        Some(j) => j,
        None => {
            return None;
        },
    };
    let (animation_speed, i14) = match parse_string_at(&t, i13) {
        Some(p) => p,
        None => {
            return None;
        },
    };
    let i15 = match expect_lit(&t, i14, ",\n  \"hotkey_panel\": ") {
        Some(j) => j,
        None => {
            return None;
        },
    };
    let (hotkey_panel, i16) = match parse_string_at(&t, i15) {
        Some(p) => p,
        None => {
            return None;
        },
    };
    let i17 = match expect_lit(&t, i16, ",\n  \"hotkey_normal\": ") {
        Some(j) => j,
        None => {
            return None;
        },
    };
    let (hotkey_normal, i18) = match parse_string_at(&t, i17) {
        Some(p) => p,
        None => {
            return None;
        },
    };
    let i19 = match expect_lit(&t, i18, ",\n  \"enable_ctrl_n\": ") {
        Some(j) => j,
        None => {
            return None;
        },
    };
    let (enable_ctrl_n, i20) = match parse_bool_at(&t, i19) {
        Some(p) => p,
        None => {
            return None;
        },
    };
    let i21 = match expect_lit(&t, i20, ",\n  \"gemini_url\": ") {
        Some(j) => j,
        None => {
            return None;
        },
    };
    let (gemini_url, i22) = match parse_string_at(&t, i21) {
        Some(p) => p,
        None => {
            return None;
        },
    };
    let i23 = match expect_lit(&t, i22, ",\n  \"close_to_tray\": ") {
        Some(j) => j,
        None => {
            return None;
        },
    };
    let (close_to_tray, i24) = match parse_bool_at(&t, i23) {
        Some(p) => p,
        None => {
            return None;
        },
    };
    let i25 = match expect_lit(&t, i24, "\n}") {
        Some(j) => j,
        None => {
            return None;
        },
    };
    if i25 != t.len() {
        return None;
    }
    Some(
        AppSettings {
            autostart,
            default_window,
            normal_auto_load_conversation,
            panel_auto_load_conversation,
            tray_click_action,
            panel_width,
            animation_speed,
            hotkey_panel,
            hotkey_normal,
            enable_ctrl_n,
            gemini_url,
            close_to_tray,
        },
    )
}

// ---------------------------------------------------------------------------
// The round trip
// ---------------------------------------------------------------------------

proof fn lemma_after_lit_ser(t: Seq<char>, pre: Seq<char>, lit: Seq<char>, suf: Seq<char>)
    requires
        t == pre + lit + suf,
    ensures
        after_lit(t, pre.len() as int, lit) == Some((pre.len() + lit.len()) as int),
{
    assert(t.subrange(pre.len() as int, (pre.len() + lit.len()) as int) =~= lit);
}

proof fn lemma_parse_bool_ser(t: Seq<char>, pre: Seq<char>, b: bool, suf: Seq<char>)
    requires
        t == pre + ser_bool(b) + suf,
    ensures
        parse_bool(t, pre.len() as int) == Some((b, (pre.len() + ser_bool(b).len()) as int)),
{
    reveal_strlit("true");
    reveal_strlit("false");
    let i: int = pre.len() as int;
    if b {
        assert(t.subrange(i, i + "true"@.len()) =~= "true"@);
    } else {
        assert(t[i] == 'f');
        if lit_at(t, i, "true"@) {
            assert(t.subrange(i, i + "true"@.len())[0] == 't');
        }
        assert(!lit_at(t, i, "true"@));
        assert(t.subrange(i, i + "false"@.len()) =~= "false"@);
    }
}

proof fn lemma_parse_body_ser(t: Seq<char>, pre: Seq<char>, s: Seq<char>, suf: Seq<char>)
    requires
        t == pre + esc(s) + seq!['"'] + suf,
    ensures
        parse_string_body(t, pre.len() as int) == Some(
            (s, pre.len() + esc(s).len() + 1 as int),
        ),
    decreases s.len(),
{
    let i: int = pre.len() as int;
    if s.len() == 0 {
        assert(esc(s) =~= Seq::<char>::empty());
        assert(t[i] == '"');
        assert(s =~= Seq::<char>::empty());
    } else {
        let c = s[0];
        let s2 = s.drop_first();
        assert(esc(s) == esc_char(c) + esc(s2));
        if c == '"' || c == '\\' {
            assert(esc_char(c) == seq!['\\', c]);
            assert(t =~= (pre + seq!['\\', c]) + esc(s2) + seq!['"'] + suf);
            assert(t[i] == '\\');
            assert(t[i + 1] == c);
            lemma_parse_body_ser(t, pre + seq!['\\', c], s2, suf);
            assert(seq![c] + s2 =~= s);
        } else {
            assert(esc_char(c) == seq![c]);
            assert(t =~= (pre + seq![c]) + esc(s2) + seq!['"'] + suf);
            assert(t[i] == c);
            lemma_parse_body_ser(t, pre + seq![c], s2, suf);
            assert(seq![c] + s2 =~= s);
        }
    }
}

proof fn lemma_parse_string_ser(t: Seq<char>, pre: Seq<char>, s: Seq<char>, suf: Seq<char>)
    requires
        t == pre + ser_string(s) + suf,
    ensures
        parse_string(t, pre.len() as int) == Some(
            (s, (pre.len() + ser_string(s).len()) as int),
        ),
{
    let i: int = pre.len() as int;
    assert(t =~= (pre + seq!['"']) + esc(s) + seq!['"'] + suf);
    assert(t[i] == '"');
    lemma_parse_body_ser(t, pre + seq!['"'], s, suf);
}

/// Value of a digit string, most significant digit first.
pub open spec fn digits_val(d: Seq<char>) -> int
    decreases d.len(),
{
    if d.len() == 0 {
        0
    } else {
        digits_val(d.drop_last()) * 10 + dval(d.last())
    }
}

pub open spec fn all_digits(d: Seq<char>) -> bool {
    forall|k: int| 0 <= k < d.len() ==> is_digit(d[k])
}

proof fn lemma_digits_val_cons(c: char, x: Seq<char>)
    ensures
        digits_val(seq![c] + x) == dval(c) * pow10(x.len()) + digits_val(x),
    decreases x.len(),
{
    if x.len() == 0 {
        reveal_with_fuel(digits_val, 3);
        reveal_with_fuel(pow10, 2);
        assert(seq![c] + x =~= seq![c]);
        assert(seq![c].drop_last() =~= Seq::<char>::empty());
        assert(seq![c].last() == c);
    } else {
        let x0 = x.drop_last();
        let d = x.last();
        assert((seq![c] + x).drop_last() =~= seq![c] + x0);
        assert((seq![c] + x).last() == d);
        lemma_digits_val_cons(c, x0);
        assert(pow10(x.len()) == 10 * pow10(x0.len()));
        assert((dval(c) * pow10(x0.len()) + digits_val(x0)) * 10 == dval(c) * (10 * pow10(
            x0.len(),
        )) + digits_val(x0) * 10) by (nonlinear_arith);
    }
}

proof fn lemma_parse_digits_run(
    t: Seq<char>,
    pre: Seq<char>,
    d: Seq<char>,
    suf: Seq<char>,
    acc: int,
    count: int,
)
    requires
        t == pre + d + suf,
        all_digits(d),
        1 <= d.len(),
        count >= 0,
        count + d.len() <= 10,
        suf.len() == 0 || !is_digit(suf[0]),
    ensures
        parse_digits(t, pre.len() as int, acc, count) == Some(
            (acc * pow10(d.len()) + digits_val(d), (pre.len() + d.len()) as int),
        ),
    decreases d.len(),
{
    let i: int = pre.len() as int;
    let c = d[0];
    assert(t[i] == c);
    assert(is_digit(c));
    if d.len() == 1 {
        assert(d =~= seq![c]);
        if suf.len() == 0 {
            assert(i + 1 == t.len());
        } else {
            assert(t[i + 1] == suf[0]);
        }
        reveal_with_fuel(digits_val, 3);
        reveal_with_fuel(pow10, 3);
        assert(seq![c].drop_last() =~= Seq::<char>::empty());
        assert(digits_val(d) == dval(c));
        assert(pow10(1) == 10);
    } else {
        let d2 = d.drop_first();
        assert(t =~= (pre + seq![c]) + d2 + suf);
        assert(t[i + 1] == d2[0]);
        assert(is_digit(d2[0]));
        lemma_parse_digits_run(t, pre + seq![c], d2, suf, acc * 10 + dval(c), count + 1);
        lemma_digits_val_cons(c, d2);
        assert(seq![c] + d2 =~= d);
        assert(pow10(d.len()) == 10 * pow10(d2.len()));
        assert((acc * 10 + dval(c)) * pow10(d2.len()) == acc * (10 * pow10(d2.len())) + dval(c)
            * pow10(d2.len())) by (nonlinear_arith);
    }
}

proof fn lemma_ser_nat_digits(n: int)
    requires
        n >= 0,
    ensures
        all_digits(ser_nat(n)),
        1 <= ser_nat(n).len(),
        digits_val(ser_nat(n)) == n,
    decreases n,
{
    if n < 10 {
        reveal_with_fuel(digits_val, 3);
        assert(seq![digit_char(n)].drop_last() =~= Seq::<char>::empty());
        assert(dval(digit_char(n)) == n);
    } else {
        lemma_ser_nat_digits(n / 10);
        let a = ser_nat(n / 10);
        let b = seq![digit_char(n % 10)];
        assert((a + b).drop_last() =~= a);
        assert((a + b).last() == digit_char(n % 10));
        assert(dval(digit_char(n % 10)) == n % 10);
        assert(digits_val(a + b) == (n / 10) * 10 + n % 10);
        assert(forall|k: int| 0 <= k < (a + b).len() ==> is_digit((a + b)[k]));
    }
}

proof fn lemma_ser_nat_len(n: int, k: nat)
    requires
        0 <= n,
        n < pow10(k),
        1 <= k,
    ensures
        ser_nat(n).len() <= k,
    decreases n,
{
    if n < 10 {
    } else {
        reveal_with_fuel(pow10, 3);
        if k == 1 {
            assert(false);
        }
        assert(pow10(k) == 10 * pow10((k - 1) as nat));
        if n / 10 >= pow10((k - 1) as nat) {
            assert(n == 10 * (n / 10) + n % 10);
            assert(10 * (n / 10) >= 10 * pow10((k - 1) as nat));
            assert(false);
        }
        lemma_ser_nat_len(n / 10, (k - 1) as nat);
    }
}

proof fn lemma_parse_i32_ser(t: Seq<char>, pre: Seq<char>, n: int, suf: Seq<char>)
    requires
        i32::MIN as int <= n <= i32::MAX as int,
        t == pre + ser_i32(n) + suf,
        suf.len() == 0 || !is_digit(suf[0]),
    ensures
        parse_i32(t, pre.len() as int) == Some((n, (pre.len() + ser_i32(n).len()) as int)),
{
    let i: int = pre.len() as int;
    reveal_with_fuel(pow10, 12);
    assert(pow10(10) == 10000000000);
    if n < 0 {
        let m: int = -n;
        assert(ser_i32(n) == seq!['-'] + ser_nat(m));
        assert(t =~= (pre + seq!['-']) + ser_nat(m) + suf);
        assert(t[i] == '-');
        lemma_ser_nat_digits(m);
        lemma_ser_nat_len(m, 10);
        lemma_parse_digits_run(t, pre + seq!['-'], ser_nat(m), suf, 0, 0);
        assert(0 * pow10(ser_nat(m).len()) == 0) by (nonlinear_arith);
        assert(parse_digits(t, i + 1, 0, 0) == Some((m, (pre.len() + ser_i32(n).len()) as int)));
    } else {
        lemma_ser_nat_digits(n);
        lemma_ser_nat_len(n, 10);
        assert(t[i] == ser_nat(n)[0]);
        assert(is_digit(t[i]));
        assert(dval('-') == -1);
        assert(t[i] != '-');
        lemma_parse_digits_run(t, pre, ser_nat(n), suf, 0, 0);
        assert(0 * pow10(ser_nat(n).len()) == 0) by (nonlinear_arith);
    }
}

/// The text of `t` from position `i` to its end.
pub open spec fn tail_at(t: Seq<char>, i: int) -> Seq<char> {
    t.subrange(i, t.len() as int)
}

proof fn lemma_add_assoc(a: Seq<char>, b: Seq<char>, c: Seq<char>)
    ensures
        (a + b) + c == a + (b + c),
{
    assert((a + b) + c =~= a + (b + c));
}

proof fn lemma_peel_lit(t: Seq<char>, i: int, lit: Seq<char>, rest: Seq<char>)
    requires
        0 <= i <= t.len(),
        tail_at(t, i) == lit + rest,
    ensures
        after_lit(t, i, lit) == Some(i + lit.len()),
        i + lit.len() <= t.len(),
        tail_at(t, i + lit.len()) == rest,
{
    assert(tail_at(t, i).len() == t.len() - i);
    assert((lit + rest).len() == lit.len() + rest.len());
    assert forall|k: int| 0 <= k < lit.len() implies t.subrange(i, i + lit.len())[k] == lit[k] by {
        assert(tail_at(t, i)[k] == t[i + k]);
    }
    assert(t.subrange(i, i + lit.len()) =~= lit);
    assert forall|k: int| 0 <= k < rest.len() implies tail_at(t, i + lit.len())[k] == rest[k] by {
        assert(tail_at(t, i + lit.len())[k] == t[i + lit.len() + k]);
        assert(tail_at(t, i)[lit.len() + k] == t[i + (lit.len() + k)]);
    }
    assert(tail_at(t, i + lit.len()) =~= rest);
}

proof fn lemma_peel_bool(t: Seq<char>, i: int, b: bool, rest: Seq<char>)
    requires
        0 <= i <= t.len(),
        tail_at(t, i) == ser_bool(b) + rest,
    ensures
        parse_bool(t, i) == Some((b, i + ser_bool(b).len())),
        i + ser_bool(b).len() <= t.len(),
        tail_at(t, i + ser_bool(b).len()) == rest,
{
    let pre = t.subrange(0, i);
    let x = ser_bool(b);
    assert(tail_at(t, i).len() == t.len() - i);
    assert((x + rest).len() == x.len() + rest.len());
    assert(pre.len() == i);
    assert forall|k: int| 0 <= k < t.len() implies (pre + x + rest)[k] == t[k] by {
        if k < i {
            assert(t.subrange(0, i)[k] == t[k]);
        } else {
            assert(tail_at(t, i)[k - i] == t[i + (k - i)]);
        }
    }
    assert(t =~= pre + x + rest);
    lemma_parse_bool_ser(t, pre, b, rest);
    assert forall|k: int| 0 <= k < rest.len() implies tail_at(t, i + x.len())[k] == rest[k] by {
        assert(tail_at(t, i + x.len())[k] == t[i + x.len() + k]);
        assert(tail_at(t, i)[x.len() + k] == t[i + (x.len() + k)]);
    }
    assert(tail_at(t, i + x.len()) =~= rest);
}

proof fn lemma_peel_string(t: Seq<char>, i: int, str_v: Seq<char>, rest: Seq<char>)
    requires
        0 <= i <= t.len(),
        tail_at(t, i) == ser_string(str_v) + rest,
    ensures
        parse_string(t, i) == Some((str_v, i + ser_string(str_v).len())),
        i + ser_string(str_v).len() <= t.len(),
        tail_at(t, i + ser_string(str_v).len()) == rest,
{
    let pre = t.subrange(0, i);
    let x = ser_string(str_v);
    assert(tail_at(t, i).len() == t.len() - i);
    assert((x + rest).len() == x.len() + rest.len());
    assert(pre.len() == i);
    assert forall|k: int| 0 <= k < t.len() implies (pre + x + rest)[k] == t[k] by {
        if k < i {
            assert(t.subrange(0, i)[k] == t[k]);
        } else {
            assert(tail_at(t, i)[k - i] == t[i + (k - i)]);
        }
    }
    assert(t =~= pre + x + rest);
    lemma_parse_string_ser(t, pre, str_v, rest);
    assert forall|k: int| 0 <= k < rest.len() implies tail_at(t, i + x.len())[k] == rest[k] by {
        assert(tail_at(t, i + x.len())[k] == t[i + x.len() + k]);
        assert(tail_at(t, i)[x.len() + k] == t[i + (x.len() + k)]);
    }
    assert(tail_at(t, i + x.len()) =~= rest);
}

proof fn lemma_peel_i32(t: Seq<char>, i: int, n: int, rest: Seq<char>)
    requires
        0 <= i <= t.len(),
        i32::MIN as int <= n <= i32::MAX as int,
        tail_at(t, i) == ser_i32(n) + rest,
        rest.len() == 0 || !is_digit(rest[0]),
    ensures
        parse_i32(t, i) == Some((n, i + ser_i32(n).len())),
        i + ser_i32(n).len() <= t.len(),
        tail_at(t, i + ser_i32(n).len()) == rest,
{
    let pre = t.subrange(0, i);
    let x = ser_i32(n);
    assert(tail_at(t, i).len() == t.len() - i);
    assert((x + rest).len() == x.len() + rest.len());
    assert(pre.len() == i);
    assert forall|k: int| 0 <= k < t.len() implies (pre + x + rest)[k] == t[k] by {
        if k < i {
            assert(t.subrange(0, i)[k] == t[k]);
        } else {
            assert(tail_at(t, i)[k - i] == t[i + (k - i)]);
        }
    }
    assert(t =~= pre + x + rest);
    lemma_parse_i32_ser(t, pre, n, rest);
    assert forall|k: int| 0 <= k < rest.len() implies tail_at(t, i + x.len())[k] == rest[k] by {
        assert(tail_at(t, i + x.len())[k] == t[i + x.len() + k]);
        assert(tail_at(t, i)[x.len() + k] == t[i + (x.len() + k)]);
    }
    assert(tail_at(t, i + x.len()) =~= rest);
}

proof fn lemma_ser_tail_first(v: AppSettingsV)
    ensures
        ser_tail(v).len() > 0,
        ser_tail(v)[0] == ',',
{
    let l7 = ",\n  \"animation_speed\": "@;
    let x7 = ser_string(v.animation_speed);
    let l8 = ",\n  \"hotkey_panel\": "@;
    let x8 = ser_string(v.hotkey_panel);
    let l9 = ",\n  \"hotkey_normal\": "@;
    let x9 = ser_string(v.hotkey_normal);
    let l10 = ",\n  \"enable_ctrl_n\": "@;
    let x10 = ser_bool(v.enable_ctrl_n);
    let l11 = ",\n  \"gemini_url\": "@;
    let x11 = ser_string(v.gemini_url);
    let l12 = ",\n  \"close_to_tray\": "@;
    let x12 = ser_bool(v.close_to_tray);
    let l13 = "\n}"@;
    let u1 = l7;
    let u2 = u1 + x7;
    let u3 = u2 + l8;
    let u4 = u3 + x8;
    let u5 = u4 + l9;
    let u6 = u5 + x9;
    let u7 = u6 + l10;
    let u8 = u7 + x10;
    let u9 = u8 + l11;
    let u10 = u9 + x11;
    let u11 = u10 + l12;
    let u12 = u11 + x12;
    assert(ser_tail(v) == u12 + l13);
    reveal_strlit(",\n  \"animation_speed\": ");
    assert(u1.len() > 0);
    assert(u2[0] == u1[0]);
    assert(u3[0] == u2[0]);
    assert(u4[0] == u3[0]);
    assert(u5[0] == u4[0]);
    assert(u6[0] == u5[0]);
    assert(u7[0] == u6[0]);
    assert(u8[0] == u7[0]);
    assert(u9[0] == u8[0]);
    assert(u10[0] == u9[0]);
    assert(u11[0] == u10[0]);
    assert(u12[0] == u11[0]);
    assert((u12 + l13)[0] == u12[0]);
    assert(u1[0] == ',');
}

// Reassociates the flat concatenation of the whole document into the
// right-nested shape the peeling steps need.
proof fn lemma_doc_shape(v: AppSettingsV)
    ensures
        spec_serialize(v) == "{\n  \"autostart\": "@ + (ser_bool(v.autostart)
            + (",\n  \"default_window\": "@ + (ser_string(v.default_window)
            + (",\n  \"normal_auto_load_conversation\": "@ + (ser_bool(v.normal_auto_load_conversation)
            + (",\n  \"panel_auto_load_conversation\": "@ + (ser_bool(v.panel_auto_load_conversation)
            + (",\n  \"tray_click_action\": "@ + (ser_string(v.tray_click_action)
            + (",\n  \"panel_width\": "@ + (ser_i32(v.panel_width)
            + ser_tail(v)))))))))))),
{
    let l1 = "{\n  \"autostart\": "@;
    let x1 = ser_bool(v.autostart);
    let l2 = ",\n  \"default_window\": "@;
    let x2 = ser_string(v.default_window);
    let l3 = ",\n  \"normal_auto_load_conversation\": "@;
    let x3 = ser_bool(v.normal_auto_load_conversation);
    let l4 = ",\n  \"panel_auto_load_conversation\": "@;
    let x4 = ser_bool(v.panel_auto_load_conversation);
    let l5 = ",\n  \"tray_click_action\": "@;
    let x5 = ser_string(v.tray_click_action);
    let l6 = ",\n  \"panel_width\": "@;
    let x6 = ser_i32(v.panel_width);
    let m13 = ser_tail(v);
    let m12 = x6 + m13;
    let m11 = l6 + m12;
    let m10 = x5 + m11;
    let m9 = l5 + m10;
    let m8 = x4 + m9;
    let m7 = l4 + m8;
    let m6 = x3 + m7;
    let m5 = l3 + m6;
    let m4 = x2 + m5;
    let m3 = l2 + m4;
    let m2 = x1 + m3;
    let q1 = l1;
    let q2 = q1 + x1;
    let q3 = q2 + l2;
    let q4 = q3 + x2;
    let q5 = q4 + l3;
    let q6 = q5 + x3;
    let q7 = q6 + l4;
    let q8 = q7 + x4;
    let q9 = q8 + l5;
    let q10 = q9 + x5;
    let q11 = q10 + l6;
    assert(ser_head(v) == q11 + x6);
    assert(spec_serialize(v) == (q11 + x6) + m13);
    lemma_add_assoc(q11, x6, m13);
    lemma_add_assoc(q10, l6, m12);
    lemma_add_assoc(q9, x5, m11);
    lemma_add_assoc(q8, l5, m10);
    lemma_add_assoc(q7, x4, m9);
    lemma_add_assoc(q6, l4, m8);
    lemma_add_assoc(q5, x3, m7);
    lemma_add_assoc(q4, l3, m6);
    lemma_add_assoc(q3, x2, m5);
    lemma_add_assoc(q2, l2, m4);
    lemma_add_assoc(q1, x1, m3);
    assert(spec_serialize(v) == l1 + m2);
}

// Positions just past each field in the serialized text, so the proof of
// the round trip can walk the document one field at a time.
spec fn end1(v: AppSettingsV) -> int {
    "{\n  \"autostart\": "@.len() as int + ser_bool(v.autostart).len() as int
}

spec fn end2(v: AppSettingsV) -> int {
    end1(v) + ",\n  \"default_window\": "@.len() as int + ser_string(v.default_window).len() as int
}

spec fn end3(v: AppSettingsV) -> int {
    end2(v) + ",\n  \"normal_auto_load_conversation\": "@.len() as int + ser_bool(v.normal_auto_load_conversation).len() as int
}

spec fn end4(v: AppSettingsV) -> int {
    end3(v) + ",\n  \"panel_auto_load_conversation\": "@.len() as int + ser_bool(v.panel_auto_load_conversation).len() as int
}

spec fn end5(v: AppSettingsV) -> int {
    end4(v) + ",\n  \"tray_click_action\": "@.len() as int + ser_string(v.tray_click_action).len() as int
}

spec fn end6(v: AppSettingsV) -> int {
    end5(v) + ",\n  \"panel_width\": "@.len() as int + ser_i32(v.panel_width).len() as int
}

spec fn end7(v: AppSettingsV) -> int {
    end6(v) + ",\n  \"animation_speed\": "@.len() as int + ser_string(v.animation_speed).len() as int
}

spec fn end8(v: AppSettingsV) -> int {
    end7(v) + ",\n  \"hotkey_panel\": "@.len() as int + ser_string(v.hotkey_panel).len() as int
}

spec fn end9(v: AppSettingsV) -> int {
    end8(v) + ",\n  \"hotkey_normal\": "@.len() as int + ser_string(v.hotkey_normal).len() as int
}

spec fn end10(v: AppSettingsV) -> int {
    end9(v) + ",\n  \"enable_ctrl_n\": "@.len() as int + ser_bool(v.enable_ctrl_n).len() as int
}

spec fn end11(v: AppSettingsV) -> int {
    end10(v) + ",\n  \"gemini_url\": "@.len() as int + ser_string(v.gemini_url).len() as int
}

spec fn end12(v: AppSettingsV) -> int {
    end11(v) + ",\n  \"close_to_tray\": "@.len() as int + ser_bool(v.close_to_tray).len() as int
}

// What remains of the document after the third and the ninth field,
// right-nested so that each parse step peels exactly one piece.
spec fn doc_r3(v: AppSettingsV) -> Seq<char> {
    ",\n  \"panel_auto_load_conversation\": "@ + (ser_bool(v.panel_auto_load_conversation)
        + (",\n  \"tray_click_action\": "@ + (ser_string(v.tray_click_action)
        + (",\n  \"panel_width\": "@ + (ser_i32(v.panel_width) + ser_tail(v))))))
}

spec fn doc_r9(v: AppSettingsV) -> Seq<char> {
    ",\n  \"enable_ctrl_n\": "@ + (ser_bool(v.enable_ctrl_n)
        + (",\n  \"gemini_url\": "@ + (ser_string(v.gemini_url)
        + (",\n  \"close_to_tray\": "@ + (ser_bool(v.close_to_tray) + "\n}"@)))))
}

// Reassociates the flat concatenation of the document's second half into
// the right-nested shape the peeling steps need.
proof fn lemma_tail_shape(v: AppSettingsV)
    ensures
        ser_tail(v) == ",\n  \"animation_speed\": "@ + (ser_string(v.animation_speed)
            + (",\n  \"hotkey_panel\": "@ + (ser_string(v.hotkey_panel)
            + (",\n  \"hotkey_normal\": "@ + (ser_string(v.hotkey_normal) + doc_r9(v)))))),
{
    let l7 = ",\n  \"animation_speed\": "@;
    let x7 = ser_string(v.animation_speed);
    let l8 = ",\n  \"hotkey_panel\": "@;
    let x8 = ser_string(v.hotkey_panel);
    let l9 = ",\n  \"hotkey_normal\": "@;
    let x9 = ser_string(v.hotkey_normal);
    let l10 = ",\n  \"enable_ctrl_n\": "@;
    let x10 = ser_bool(v.enable_ctrl_n);
    let l11 = ",\n  \"gemini_url\": "@;
    let x11 = ser_string(v.gemini_url);
    let l12 = ",\n  \"close_to_tray\": "@;
    let x12 = ser_bool(v.close_to_tray);
    let l13 = "\n}"@;
    let m25 = l13;
    let m24 = x12 + m25;
    let m23 = l12 + m24;
    let m22 = x11 + m23;
    let m21 = l11 + m22;
    let m20 = x10 + m21;
    let m19 = l10 + m20;
    let m18 = x9 + m19;
    let m17 = l9 + m18;
    let m16 = x8 + m17;
    let m15 = l8 + m16;
    let u1 = l7;
    let u2 = u1 + x7;
    let u3 = u2 + l8;
    let u4 = u3 + x8;
    let u5 = u4 + l9;
    let u6 = u5 + x9;
    let u7 = u6 + l10;
    let u8 = u7 + x10;
    let u9 = u8 + l11;
    let u10 = u9 + x11;
    let u11 = u10 + l12;
    let u12 = u11 + x12;
    assert(ser_tail(v) == u12 + l13);
    lemma_add_assoc(u11, x12, m25);
    lemma_add_assoc(u10, l12, m24);
    lemma_add_assoc(u9, x11, m23);
    lemma_add_assoc(u8, l11, m22);
    lemma_add_assoc(u7, x10, m21);
    lemma_add_assoc(u6, l10, m20);
    lemma_add_assoc(u5, x9, m19);
    lemma_add_assoc(u4, l9, m18);
    lemma_add_assoc(u3, x8, m17);
    lemma_add_assoc(u2, l8, m16);
    lemma_add_assoc(u1, x7, m15);
}

#[verifier::rlimit(100)]
// The four lemmas below each parse three consecutive fields of an encoded
// document and hand the position and remaining text to the next.
proof fn lemma_head_a(v: AppSettingsV)
    ensures
        after_lit(spec_serialize(v), 0, "{\n  \"autostart\": "@) == Some(0 + "{\n  \"autostart\": "@.len() as int),
        parse_bool(spec_serialize(v), 0 + "{\n  \"autostart\": "@.len() as int) == Some((v.autostart, end1(v))),
        after_lit(spec_serialize(v), end1(v), ",\n  \"default_window\": "@) == Some(end1(v) + ",\n  \"default_window\": "@.len() as int),
        parse_string(spec_serialize(v), end1(v) + ",\n  \"default_window\": "@.len() as int) == Some((v.default_window, end2(v))),
        after_lit(spec_serialize(v), end2(v), ",\n  \"normal_auto_load_conversation\": "@) == Some(end2(v) + ",\n  \"normal_auto_load_conversation\": "@.len() as int),
        parse_bool(spec_serialize(v), end2(v) + ",\n  \"normal_auto_load_conversation\": "@.len() as int) == Some((v.normal_auto_load_conversation, end3(v))),
        end3(v) <= spec_serialize(v).len(),
        tail_at(spec_serialize(v), end3(v)) == doc_r3(v),
{
    let t = spec_serialize(v);
    let l1 = "{\n  \"autostart\": "@;
    let x1 = ser_bool(v.autostart);
    let l2 = ",\n  \"default_window\": "@;
    let x2 = ser_string(v.default_window);
    let l3 = ",\n  \"normal_auto_load_conversation\": "@;
    let x3 = ser_bool(v.normal_auto_load_conversation);
    let r6 = x3 + doc_r3(v);
    let r5 = l3 + r6;
    let r4 = x2 + r5;
    let r3 = l2 + r4;
    let r2 = x1 + r3;
    let r1 = l1 + r2;
    lemma_doc_shape(v);
    assert(tail_at(t, 0) =~= t);
    assert(tail_at(t, 0) == r1);
    lemma_peel_lit(t, 0, l1, r2);
    lemma_peel_bool(t, 0 + l1.len() as int, v.autostart, r3);
    assert(end1(v) == 0 + l1.len() + x1.len() as int);
    lemma_peel_lit(t, end1(v), l2, r4);
    lemma_peel_string(t, end1(v) + l2.len() as int, v.default_window, r5);
    assert(end2(v) == end1(v) + l2.len() + x2.len() as int);
    lemma_peel_lit(t, end2(v), l3, r6);
    lemma_peel_bool(t, end2(v) + l3.len() as int, v.normal_auto_load_conversation, doc_r3(v));
    assert(end3(v) == end2(v) + l3.len() + x3.len() as int);
}

#[verifier::rlimit(100)]
#[verifier::spinoff_prover]
proof fn lemma_head_b(v: AppSettingsV)
    requires
        width_in_range(v),
    ensures
        after_lit(spec_serialize(v), end3(v), ",\n  \"panel_auto_load_conversation\": "@) == Some(end3(v) + ",\n  \"panel_auto_load_conversation\": "@.len() as int),
        parse_bool(spec_serialize(v), end3(v) + ",\n  \"panel_auto_load_conversation\": "@.len() as int) == Some((v.panel_auto_load_conversation, end4(v))),
        after_lit(spec_serialize(v), end4(v), ",\n  \"tray_click_action\": "@) == Some(end4(v) + ",\n  \"tray_click_action\": "@.len() as int),
        parse_string(spec_serialize(v), end4(v) + ",\n  \"tray_click_action\": "@.len() as int) == Some((v.tray_click_action, end5(v))),
        after_lit(spec_serialize(v), end5(v), ",\n  \"panel_width\": "@) == Some(end5(v) + ",\n  \"panel_width\": "@.len() as int),
        parse_i32(spec_serialize(v), end5(v) + ",\n  \"panel_width\": "@.len() as int) == Some((v.panel_width, end6(v))),
        end6(v) <= spec_serialize(v).len(),
        tail_at(spec_serialize(v), end6(v)) == ser_tail(v),
{
    let t = spec_serialize(v);
    let l4 = ",\n  \"panel_auto_load_conversation\": "@;
    let x4 = ser_bool(v.panel_auto_load_conversation);
    let l5 = ",\n  \"tray_click_action\": "@;
    let x5 = ser_string(v.tray_click_action);
    let l6 = ",\n  \"panel_width\": "@;
    let x6 = ser_i32(v.panel_width);
    let r12 = x6 + ser_tail(v);
    let r11 = l6 + r12;
    let r10 = x5 + r11;
    let r9 = l5 + r10;
    let r8 = x4 + r9;
    let r7 = l4 + r8;
    lemma_head_a(v);
    assert(tail_at(t, end3(v)) == r7);
    lemma_peel_lit(t, end3(v), l4, r8);
    lemma_peel_bool(t, end3(v) + l4.len() as int, v.panel_auto_load_conversation, r9);
    assert(end4(v) == end3(v) + l4.len() + x4.len() as int);
    lemma_peel_lit(t, end4(v), l5, r10);
    lemma_peel_string(t, end4(v) + l5.len() as int, v.tray_click_action, r11);
    assert(end5(v) == end4(v) + l5.len() + x5.len() as int);
    lemma_ser_tail_first(v);
    assert(!is_digit(ser_tail(v)[0]));
    lemma_peel_lit(t, end5(v), l6, r12);
    lemma_peel_i32(t, end5(v) + l6.len() as int, v.panel_width, ser_tail(v));
    assert(end6(v) == end5(v) + l6.len() + x6.len() as int);
}

#[verifier::rlimit(100)]
#[verifier::spinoff_prover]
proof fn lemma_tail_a(v: AppSettingsV)
    requires
        width_in_range(v),
    ensures
        after_lit(spec_serialize(v), end6(v), ",\n  \"animation_speed\": "@) == Some(end6(v) + ",\n  \"animation_speed\": "@.len() as int),
        parse_string(spec_serialize(v), end6(v) + ",\n  \"animation_speed\": "@.len() as int) == Some((v.animation_speed, end7(v))),
        after_lit(spec_serialize(v), end7(v), ",\n  \"hotkey_panel\": "@) == Some(end7(v) + ",\n  \"hotkey_panel\": "@.len() as int),
        parse_string(spec_serialize(v), end7(v) + ",\n  \"hotkey_panel\": "@.len() as int) == Some((v.hotkey_panel, end8(v))),
        after_lit(spec_serialize(v), end8(v), ",\n  \"hotkey_normal\": "@) == Some(end8(v) + ",\n  \"hotkey_normal\": "@.len() as int),
        parse_string(spec_serialize(v), end8(v) + ",\n  \"hotkey_normal\": "@.len() as int) == Some((v.hotkey_normal, end9(v))),
        end9(v) <= spec_serialize(v).len(),
        tail_at(spec_serialize(v), end9(v)) == doc_r9(v),
{
    let t = spec_serialize(v);
    let l7 = ",\n  \"animation_speed\": "@;
    let x7 = ser_string(v.animation_speed);
    let l8 = ",\n  \"hotkey_panel\": "@;
    let x8 = ser_string(v.hotkey_panel);
    let l9 = ",\n  \"hotkey_normal\": "@;
    let x9 = ser_string(v.hotkey_normal);
    let r18 = x9 + doc_r9(v);
    let r17 = l9 + r18;
    let r16 = x8 + r17;
    let r15 = l8 + r16;
    let r14 = x7 + r15;
    let r13 = l7 + r14;
    lemma_head_b(v);
    lemma_tail_shape(v);
    assert(tail_at(t, end6(v)) == r13);
    lemma_peel_lit(t, end6(v), l7, r14);
    lemma_peel_string(t, end6(v) + l7.len() as int, v.animation_speed, r15);
    assert(end7(v) == end6(v) + l7.len() + x7.len() as int);
    lemma_peel_lit(t, end7(v), l8, r16);
    lemma_peel_string(t, end7(v) + l8.len() as int, v.hotkey_panel, r17);
    assert(end8(v) == end7(v) + l8.len() + x8.len() as int);
    lemma_peel_lit(t, end8(v), l9, r18);
    lemma_peel_string(t, end8(v) + l9.len() as int, v.hotkey_normal, doc_r9(v));
    assert(end9(v) == end8(v) + l9.len() + x9.len() as int);
}

#[verifier::rlimit(100)]
#[verifier::spinoff_prover]
proof fn lemma_tail_b(v: AppSettingsV)
    requires
        width_in_range(v),
    ensures
        after_lit(spec_serialize(v), end9(v), ",\n  \"enable_ctrl_n\": "@) == Some(end9(v) + ",\n  \"enable_ctrl_n\": "@.len() as int),
        parse_bool(spec_serialize(v), end9(v) + ",\n  \"enable_ctrl_n\": "@.len() as int) == Some((v.enable_ctrl_n, end10(v))),
        after_lit(spec_serialize(v), end10(v), ",\n  \"gemini_url\": "@) == Some(end10(v) + ",\n  \"gemini_url\": "@.len() as int),
        parse_string(spec_serialize(v), end10(v) + ",\n  \"gemini_url\": "@.len() as int) == Some((v.gemini_url, end11(v))),
        after_lit(spec_serialize(v), end11(v), ",\n  \"close_to_tray\": "@) == Some(end11(v) + ",\n  \"close_to_tray\": "@.len() as int),
        parse_bool(spec_serialize(v), end11(v) + ",\n  \"close_to_tray\": "@.len() as int) == Some((v.close_to_tray, end12(v))),
        end12(v) <= spec_serialize(v).len(),
        tail_at(spec_serialize(v), end12(v)) == "\n}"@,
{
    let t = spec_serialize(v);
    let l10 = ",\n  \"enable_ctrl_n\": "@;
    let x10 = ser_bool(v.enable_ctrl_n);
    let l11 = ",\n  \"gemini_url\": "@;
    let x11 = ser_string(v.gemini_url);
    let l12 = ",\n  \"close_to_tray\": "@;
    let x12 = ser_bool(v.close_to_tray);
    let r24 = x12 + "\n}"@;
    let r23 = l12 + r24;
    let r22 = x11 + r23;
    let r21 = l11 + r22;
    let r20 = x10 + r21;
    let r19 = l10 + r20;
    lemma_tail_a(v);
    assert(tail_at(t, end9(v)) == r19);
    lemma_peel_lit(t, end9(v), l10, r20);
    lemma_peel_bool(t, end9(v) + l10.len() as int, v.enable_ctrl_n, r21);
    assert(end10(v) == end9(v) + l10.len() + x10.len() as int);
    lemma_peel_lit(t, end10(v), l11, r22);
    lemma_peel_string(t, end10(v) + l11.len() as int, v.gemini_url, r23);
    assert(end11(v) == end10(v) + l11.len() + x11.len() as int);
    lemma_peel_lit(t, end11(v), l12, r24);
    lemma_peel_bool(t, end11(v) + l12.len() as int, v.close_to_tray, "\n}"@);
    assert(end12(v) == end11(v) + l12.len() + x12.len() as int);
}

/// Round trip: decoding an encoded settings value recovers it exactly,
/// for every representable settings value.
#[verifier::rlimit(100)]
pub proof fn lemma_round_trip(v: AppSettingsV)
    requires
        width_in_range(v),
    ensures
        spec_parse(spec_serialize(v)) == Some(v),
{
    let t = spec_serialize(v);
    lemma_head_a(v);
    lemma_head_b(v);
    lemma_tail_a(v);
    lemma_tail_b(v);
    assert(tail_at(t, end12(v)) == "\n}"@);
    assert(tail_at(t, end12(v)) == "\n}"@ + Seq::<char>::empty()) by {
        assert("\n}"@ + Seq::<char>::empty() =~= "\n}"@);
    }
    lemma_peel_lit(t, end12(v), "\n}"@, Seq::<char>::empty());
    assert(tail_at(t, end12(v) + "\n}"@.len() as int).len() == 0);
    assert(end12(v) + "\n}"@.len() as int == t.len());
    match spec_parse(t) {
        Some(w) => {
            assert(w =~= v);
        },
        None => {
            assert(false);
        },
    }
}

} // verus!
