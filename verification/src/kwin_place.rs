//! The KWin script that pins a window to absolute coordinates on KDE Wayland, and the reading
//! of the script id that `busctl` prints back.

use crate::text::{chars_of, padded_decimal, padded_signed, push_char, push_padded, push_padded_signed, push_text};
use vstd::prelude::*;

verus! {

/// How one character of a window title is written inside a JavaScript string literal.
pub open spec fn escape_js_char(c: char) -> Seq<char> {
    if c == '\\' {
        seq!['\\', '\\']
    } else if c == '"' {
        seq!['\\', '"']
    } else if c == '\'' {
        seq!['\\', '\'']
    } else if c == '\n' || c == '\r' {
        seq![' ']
    } else {
        seq![c]
    }
}

/// The escaped form of `s`, character by character.
pub open spec fn escape_js_text(s: Seq<char>) -> Seq<char>
    decreases s.len(),
{
    if s.len() == 0 {
        Seq::empty()
    } else {
        escape_js_text(s.drop_last()) + escape_js_char(s.last())
    }
}

/// Escapes backslashes and both kinds of quotes, and turns line breaks into spaces.
pub fn escape_js(s: &str) -> (out: String)
    ensures
        out@ == escape_js_text(s@),
{
    let chars = chars_of(s);
    let mut out = String::new();
    let mut i: usize = 0;
    while i < chars.len()
        invariant
            i <= chars@.len(),
            chars@ == s@,
            out@ == escape_js_text(chars@.subrange(0, i as int)),
        decreases chars@.len() - i,
    {
        let c = chars[i];
        let ghost before = out@;
        if c == '\\' {
            push_char(&mut out, '\\');
            push_char(&mut out, '\\');
        } else if c == '"' {
            push_char(&mut out, '\\');
            push_char(&mut out, '"');
        } else if c == '\'' {
            push_char(&mut out, '\\');
            push_char(&mut out, '\'');
        } else if c == '\n' || c == '\r' {
            push_char(&mut out, ' ');
        } else {
            push_char(&mut out, c);
        }
        assert(chars@.subrange(0, i + 1).drop_last() =~= chars@.subrange(0, i as int));
        assert(out@ =~= before + escape_js_char(c));
        i += 1;
    }
    assert(chars@.subrange(0, chars@.len() as int) =~= chars@);
    out
}

/// Unicode white space, as `char::is_whitespace` documents it (the `White_Space` property).
pub open spec fn is_white_space(c: char) -> bool {
    let u = c as u32;
    (9 <= u <= 13) || u == 32 || u == 0x85 || u == 0xa0 || u == 0x1680 || (0x2000 <= u <= 0x200a)
        || u == 0x2028 || u == 0x2029 || u == 0x202f || u == 0x205f || u == 0x3000
}

fn white_space(c: char) -> (b: bool)
    ensures
        b == is_white_space(c),
{
    let u = c as u32;
    (9 <= u && u <= 13) || u == 32 || u == 0x85 || u == 0xa0 || u == 0x1680 || (0x2000 <= u && u
        <= 0x200a) || u == 0x2028 || u == 0x2029 || u == 0x202f || u == 0x205f || u == 0x3000
}

/// The maximal runs of non-white-space characters of `s`, in order.
pub open spec fn words(s: Seq<char>) -> Seq<Seq<char>>
    decreases s.len(),
{
    if s.len() == 0 {
        Seq::empty()
    } else {
        let w = words(s.drop_last());
        let c = s.last();
        if is_white_space(c) {
            w
        } else if s.len() >= 2 && !is_white_space(s[s.len() - 2]) && w.len() > 0 {
            w.update(w.len() - 1, w.last().push(c))
        } else {
            w.push(seq![c])
        }
    }
}

/// The value of a run of decimal digits.
pub open spec fn digits_value(d: Seq<char>) -> int
    decreases d.len(),
{
    if d.len() == 0 {
        0
    } else {
        digits_value(d.drop_last()) * 10 + (d.last() as int - '0' as int)
    }
}

pub open spec fn all_digits(d: Seq<char>) -> bool {
    forall|i: int| 0 <= i < d.len() ==> '0' <= #[trigger] d[i] && d[i] <= '9'
}

/// `u32` parsing as `str::parse` does it: an optional `+`, then at least one decimal digit,
/// the value within `u32`.
pub open spec fn parse_u32_text(t: Seq<char>) -> Option<u32> {
    let d = if t.len() > 0 && t[0] == '+' {
        t.drop_first()
    } else {
        t
    };
    if d.len() > 0 && all_digits(d) && digits_value(d) <= u32::MAX {
        Some(digits_value(d) as u32)
    } else {
        None
    }
}

pub(crate) proof fn lemma_digits_grow(d: Seq<char>, n: int)
    requires
        all_digits(d),
        0 <= n <= d.len(),
    ensures
        digits_value(d.subrange(0, n)) <= digits_value(d),
        0 <= digits_value(d.subrange(0, n)),
    decreases d.len() - n,
{
    if n < d.len() {
        lemma_digits_grow(d, n + 1);
        assert(d.subrange(0, n + 1).drop_last() =~= d.subrange(0, n));
        assert('0' <= d[n] <= '9');
    } else {
        assert(d.subrange(0, n) =~= d);
        lemma_digits_nonneg(d);
    }
}

pub(crate) proof fn lemma_digits_nonneg(d: Seq<char>)
    requires
        all_digits(d),
    ensures
        0 <= digits_value(d),
    decreases d.len(),
{
    if d.len() > 0 {
        assert(all_digits(d.drop_last()));
        lemma_digits_nonneg(d.drop_last());
        assert('0' <= d[d.len() - 1] <= '9');
    }
}

pub(crate) fn digit_of(c: char) -> (v: u64)
    requires
        '0' <= c <= '9',
    ensures
        v == c as int - '0' as int,
{
    (c as u32 - '0' as u32) as u64
}

/// Parses a whole word as a `u32`.
pub fn parse_u32(t: &Vec<char>) -> (v: Option<u32>)
    ensures
        v == parse_u32_text(t@),
{
    let start: usize = if t.len() > 0 && t[0] == '+' {
        1
    } else {
        0
    };
    let ghost d = if t@.len() > 0 && t@[0] == '+' {
        t@.drop_first()
    } else {
        t@
    };
    assert(d =~= t@.subrange(start as int, t@.len() as int));
    if start >= t.len() {
        return None;
    }
    let mut value: u64 = 0;
    let mut i: usize = start;
    while i < t.len()
        invariant
            start <= i <= t@.len(),
            d == t@.subrange(start as int, t@.len() as int),
            d == (if t@.len() > 0 && t@[0] == '+' {
                t@.drop_first()
            } else {
                t@
            }),
            all_digits(d.subrange(0, i - start)),
            value == digits_value(d.subrange(0, i - start)),
            value <= u32::MAX,
        decreases t@.len() - i,
    {
        let c = t[i];
        if !('0' <= c && c <= '9') {
            assert(d[i - start] == c);
            assert(!all_digits(d));
            return None;
        }
        let next: u64 = value * 10 + digit_of(c);
        assert(d.subrange(0, i + 1 - start).drop_last() =~= d.subrange(0, i - start));
        assert(d.subrange(0, i + 1 - start).last() == c);
        assert(all_digits(d.subrange(0, i + 1 - start)));
        assert(digits_value(d.subrange(0, i + 1 - start)) == next);
        if next > u32::MAX as u64 {
            proof {
                if all_digits(d) {
                    lemma_digits_grow(d, i + 1 - start);
                }
            }
            return None;
        }
        value = next;
        i += 1;
    }
    assert(d.subrange(0, d.len() as int) =~= d);
    Some(value as u32)
}

/// The words of `s`.
pub fn split_words(s: &str) -> (out: Vec<Vec<char>>)
    ensures
        out@.map_values(|w: Vec<char>| w@) == words(s@),
{
    let chars = chars_of(s);
    let mut out: Vec<Vec<char>> = Vec::new();
    let mut current: Vec<char> = Vec::new();
    let mut in_word = false;
    let mut i: usize = 0;
    while i < chars.len()
        invariant
            i <= chars@.len(),
            chars@ == s@,
            in_word == (i > 0 && !is_white_space(chars@[i - 1])),
            in_word ==> current@.len() > 0,
            out@.map_values(|w: Vec<char>| w@) + (if in_word {
                seq![current@]
            } else {
                Seq::<Seq<char>>::empty()
            }) == words(chars@.subrange(0, i as int)),
        decreases chars@.len() - i,
    {
        let c = chars[i];
        let ghost prefix = chars@.subrange(0, i + 1);
        assert(prefix.drop_last() =~= chars@.subrange(0, i as int));
        assert(prefix.last() == c);
        let ghost before_out = out@.map_values(|w: Vec<char>| w@);
        let ghost before_cur = current@;
        if white_space(c) {
            if in_word {
                let word = current;
                current = Vec::new();
                out.push(word);
                assert(out@.map_values(|w: Vec<char>| w@) =~= before_out.push(before_cur));
            }
            in_word = false;
        } else {
            if i >= 1 {
                assert(prefix[prefix.len() - 2] == chars@[i - 1]);
            }
            if in_word {
                current.push(c);
                let ghost w = words(chars@.subrange(0, i as int));
                assert(w =~= before_out.push(before_cur));
                assert(w.update(w.len() - 1, w.last().push(c)) =~= before_out.push(current@));
            } else {
                current = Vec::new();
                current.push(c);
                assert(current@ =~= seq![c]);
            }
            in_word = true;
        }
        i += 1;
    }
    if in_word {
        let ghost before_out = out@.map_values(|w: Vec<char>| w@);
        let ghost before_cur = current@;
        out.push(current);
        assert(out@.map_values(|w: Vec<char>| w@) =~= before_out.push(before_cur));
    } else {
        assert(out@.map_values(|w: Vec<char>| w@) =~= out@.map_values(|w: Vec<char>| w@) + Seq::<
            Seq<char>,
        >::empty());
    }
    assert(chars@.subrange(0, chars@.len() as int) =~= chars@);
    out
}

/// The first word that parses as a `u32`, from position `k` on.
pub open spec fn first_number(ws: Seq<Seq<char>>, k: int) -> Option<u32>
    decreases ws.len() - k,
{
    if k >= ws.len() || k < 0 {
        None
    } else {
        match parse_u32_text(ws[k]) {
            Some(v) => Some(v),
            None => first_number(ws, k + 1),
        }
    }
}

/// The script id in `busctl`'s answer: the number after a leading `i`, else the first word
/// that is a number.
pub open spec fn script_id_of(out: Seq<char>) -> Option<u32> {
    let ws = words(out);
    if ws.len() >= 2 && ws[0] == seq!['i'] {
        parse_u32_text(ws[1])
    } else {
        first_number(ws, 0)
    }
}

pub fn parse_script_id(busctl_out: &str) -> (id: Option<u32>)
    ensures
        id == script_id_of(busctl_out@),
{
    let parts = split_words(busctl_out);
    let ghost ws = parts@.map_values(|w: Vec<char>| w@);
    if parts.len() >= 2 && parts[0].len() == 1 && parts[0][0] == 'i' {
        assert(ws[0] =~= seq!['i']);
        return parse_u32(&parts[1]);
    }
    proof {
        if ws.len() >= 2 && ws[0] == seq!['i'] {
            assert(parts@[0]@ == ws[0]);
            assert(parts@[0]@[0] == 'i');
        }
    }
    let mut k: usize = 0;
    while k < parts.len()
        invariant
            k <= parts@.len(),
            ws == parts@.map_values(|w: Vec<char>| w@),
            ws == words(busctl_out@),
            !(ws.len() >= 2 && ws[0] == seq!['i']),
            first_number(ws, 0) == first_number(ws, k as int),
        decreases parts@.len() - k,
    {
        let v = parse_u32(&parts[k]);
        assert(ws.len() == parts@.len());
        assert(parts@[k as int]@ == ws[k as int]);
        assert(first_number(ws, k as int) == match parse_u32_text(ws[k as int]) {
            Some(x) => Some(x),
            None => first_number(ws, k + 1),
        });
        if v.is_some() {
            return v;
        }
        k += 1;
    }
    None
}

/// The KWin script that moves the first window whose caption contains `title` to `(x, y)` with
/// the given size, and keeps it above others.
pub open spec fn place_script_text(title: Seq<char>, x: i32, y: i32, width: u32, height: u32) -> Seq<
    char,
> {
    "\n// pinora place\nvar list = workspace.windowList();\nfor (var i = 0; i < list.length; ++i) {\n    var c = list[i];\n    var cap = \"\" + c.caption;\n    if (cap.indexOf(\""@ + escape_js_text(title) + "\") !== -1) {\n        c.frameGeometry = {\n            x: "@ + padded_signed(x as int, 0)
        + ",\n            y: "@ + padded_signed(y as int, 0) + ",\n            width: "@ + padded_decimal(
        width as nat,
        0,
    ) + ",\n            height: "@ + padded_decimal(height as nat, 0) + "\n        };\n        // 保持置顶\n        try { c.keepAbove = true; } catch (e) {}\n        break;\n    }\n}\n"@
}

pub fn place_script(title: &str, x: i32, y: i32, width: u32, height: u32) -> (script: String)
    ensures
        script@ == place_script_text(title@, x, y, width, height),
{
    let mut script = String::new();
    push_text(&mut script, "\n// pinora place\nvar list = workspace.windowList();\nfor (var i = 0; i < list.length; ++i) {\n    var c = list[i];\n    var cap = \"\" + c.caption;\n    if (cap.indexOf(\"");
    let escaped = escape_js(title);
    push_text(&mut script, escaped.as_str());
    push_text(&mut script, "\") !== -1) {\n        c.frameGeometry = {\n            x: ");
    push_padded_signed(&mut script, x as i64, 0);
    push_text(&mut script, ",\n            y: ");
    push_padded_signed(&mut script, y as i64, 0);
    push_text(&mut script, ",\n            width: ");
    push_padded(&mut script, width as u64, 0);
    push_text(&mut script, ",\n            height: ");
    push_padded(&mut script, height as u64, 0);
    push_text(&mut script, "\n        };\n        // 保持置顶\n        try { c.keepAbove = true; } catch (e) {}\n        break;\n    }\n}\n");
    assert(script@ =~= place_script_text(title@, x, y, width, height));
    script
}

/// The object path of a loaded script.
pub open spec fn script_object_text(id: u32) -> Seq<char> {
    "/Scripting/Script"@ + padded_decimal(id as nat, 0)
}

pub fn script_object_path(id: u32) -> (path: String)
    ensures
        path@ == script_object_text(id),
{
    let mut path = String::new();
    push_text(&mut path, "/Scripting/Script");
    push_padded(&mut path, id as u64, 0);
    path
}

} // verus!
