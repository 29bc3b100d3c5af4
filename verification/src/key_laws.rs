//! What holds between writing a key and reading it back: the display form
//! of a key made of one plain modifier and a key that a key string can
//! name reads back as the same key.
use vstd::prelude::*;
use crate::keys::{
    KeyCode, KeyModifiers, ascii_to_lower, ascii_to_upper, byte_len, count_char, format_key_spec,
    is_ascii_alphanumeric, is_ascii_lower, is_ascii_punctuation, key_name_spec,
    key_name_text, last_index_of, modifier_named_spec, modifier_prefix, mods_alt, mods_control,
    mods_none, mods_shift, mods_union, normalize_spec, parse_key_spec,
};
use crate::text::{
    all_digits, ascii_lowercase, decimal_spec, digit_char, digits_value, is_white_space,
    lowercase_text, parse_u8_spec, trim_end_spec, trim_spec, trim_start_spec, unsigned_digits,
};

verus! {

/// No modifier, or exactly one of Ctrl, Alt and Shift.
pub open spec fn is_plain_modifier(mods: KeyModifiers) -> bool {
    ||| mods == mods_none()
    ||| mods == mods_control()
    ||| mods == mods_alt()
    ||| mods == mods_shift()
}

/// A key that a key string can name and whose display form names it again:
/// the named keys, F1 to F12, Space, and the ASCII letters, digits and
/// punctuation marks other than `+`, which separates a modifier.
pub open spec fn is_nameable_key(code: KeyCode) -> bool {
    match code {
        KeyCode::Enter | KeyCode::Tab | KeyCode::Up | KeyCode::Down | KeyCode::Left
        | KeyCode::Right | KeyCode::Esc | KeyCode::Backspace | KeyCode::Delete | KeyCode::Home
        | KeyCode::End => true,
        KeyCode::F(n) => 1 <= n <= 12,
        KeyCode::Char(c) => c == ' ' || ((is_ascii_alphanumeric(c) || is_ascii_punctuation(c))
            && c != '+'),
        _ => false,
    }
}

/// `c` does not occur in `s`.
pub open spec fn has_no(s: Seq<char>, c: char) -> bool {
    forall|i: int| 0 <= i < s.len() ==> #[trigger] s[i] != c
}

/// A key with no modifier or one of Ctrl, Alt and Shift, whose key a key
/// string can name, reads back from its display form: parsing what
/// `format_key` shows gives the same modifier, and a key with the same
/// canonical form.
pub proof fn law_formatted_key_reads_back(code: KeyCode, mods: KeyModifiers)
    requires
        is_nameable_key(code),
        is_plain_modifier(mods),
    ensures
        parse_key_spec(format_key_spec(code, mods)) matches Ok((c2, m2)) && m2 == mods
            && normalize_spec(c2, m2) == normalize_spec(code, mods),
{
    let name = key_name_text(code, mods);
    let s = format_key_spec(code, mods);
    lemma_key_name_reads_back(code, mods);
    if mods == mods_none() {
        assert(s =~= name);
        lemma_no_char(name, '+');
        lemma_trim_unchanged(s);
    } else {
        reveal_strlit("Ctrl+");
        reveal_strlit("Alt+");
        reveal_strlit("Shift+");
        reveal_strlit("Ctrl");
        reveal_strlit("Alt");
        reveal_strlit("Shift");
        reveal_strlit("ctrl");
        reveal_strlit("alt");
        reveal_strlit("shift");
        let w = if mods.control {
            "Ctrl"@
        } else if mods.alt {
            "Alt"@
        } else {
            "Shift"@
        };
        let lw = if mods.control {
            "ctrl"@
        } else if mods.alt {
            "alt"@
        } else {
            "shift"@
        };
        let p = w.push('+');
        assert(modifier_prefix(mods) =~= p);
        assert(s =~= p + name);
        assert(has_no(w, '+'));
        lemma_no_char(w, '+');
        assert(p.drop_last() =~= w);
        assert(count_char(p, '+') == 1);
        assert(last_index_of(p, '+') == w.len());
        lemma_count_append(p, name, '+');
        assert(s.subrange(0, w.len() as int) =~= w);
        assert(s.subrange(w.len() as int + 1, s.len() as int) =~= name);
        assert(ascii_lowercase(w) =~= lw);
        assert(lowercase_text(w) == lw);
        assert(modifier_named_spec(lw) == Ok::<KeyModifiers, (crate::keys::KeyErrorKind, Seq<char>)>(mods));
        assert(s[0] == w[0]);
        assert(s.last() == name.last());
        lemma_trim_unchanged(s);
    }
}

/// A key string of one character that is an ASCII letter or digit, or an
/// ASCII punctuation mark (`!` to `/`, `:` to `@`, `[` to `` ` ``, `{` to
/// `~`) other than `+`, reads as that character with no modifier, in its
/// own case.
pub proof fn law_single_character_keys(c: char)
    requires
        '0' <= c <= '9' || 'a' <= c <= 'z' || 'A' <= c <= 'Z' || '!' <= c <= '/' || ':' <= c <= '@'
            || '[' <= c <= '`' || '{' <= c <= '~',
        c != '+',
    ensures
        parse_key_spec(seq![c]) == Ok::<
            (KeyCode, KeyModifiers),
            (crate::keys::KeyErrorKind, Seq<char>),
        >((KeyCode::Char(c), mods_none())),
{
    reveal_strlit("enter");
    reveal_strlit("space");
    reveal_strlit("tab");
    reveal_strlit("up");
    reveal_strlit("down");
    reveal_strlit("left");
    reveal_strlit("right");
    reveal_strlit("esc");
    reveal_strlit("backspace");
    reveal_strlit("delete");
    reveal_strlit("home");
    reveal_strlit("end");
    let s = seq![c];
    assert(has_no(s, '+'));
    lemma_no_char(s, '+');
    lemma_trim_unchanged(s);
    let lower = ascii_lowercase(s);
    assert(lower.len() == 1);
    assert(vstd::utf8::is_ascii_chars(s));
    assert(vstd::utf8::is_ascii_chars(lower));
    vstd::utf8::is_ascii_chars_encode_utf8(lower);
    assert(byte_len(lower) == 1);
}

/// The named keys read in any mix of upper and lower case: an ASCII key
/// string that lowercases to `enter`, `space`, `tab`, `up`, `down`, `left`,
/// `right`, `esc`, `backspace`, `delete`, `home` or `end` is that key, with
/// no modifier.
pub proof fn law_named_keys_any_case(s: Seq<char>)
    requires
        vstd::utf8::is_ascii_chars(s),
    ensures
        ascii_lowercase(s) == "enter"@ ==> parse_key_spec(s) == Ok::<
            (KeyCode, KeyModifiers),
            (crate::keys::KeyErrorKind, Seq<char>),
        >((KeyCode::Enter, mods_none())),
        ascii_lowercase(s) == "space"@ ==> parse_key_spec(s) == Ok::<
            (KeyCode, KeyModifiers),
            (crate::keys::KeyErrorKind, Seq<char>),
        >((KeyCode::Char(' '), mods_none())),
        ascii_lowercase(s) == "tab"@ ==> parse_key_spec(s) == Ok::<
            (KeyCode, KeyModifiers),
            (crate::keys::KeyErrorKind, Seq<char>),
        >((KeyCode::Tab, mods_none())),
        ascii_lowercase(s) == "up"@ ==> parse_key_spec(s) == Ok::<
            (KeyCode, KeyModifiers),
            (crate::keys::KeyErrorKind, Seq<char>),
        >((KeyCode::Up, mods_none())),
        ascii_lowercase(s) == "down"@ ==> parse_key_spec(s) == Ok::<
            (KeyCode, KeyModifiers),
            (crate::keys::KeyErrorKind, Seq<char>),
        >((KeyCode::Down, mods_none())),
        ascii_lowercase(s) == "left"@ ==> parse_key_spec(s) == Ok::<
            (KeyCode, KeyModifiers),
            (crate::keys::KeyErrorKind, Seq<char>),
        >((KeyCode::Left, mods_none())),
        ascii_lowercase(s) == "right"@ ==> parse_key_spec(s) == Ok::<
            (KeyCode, KeyModifiers),
            (crate::keys::KeyErrorKind, Seq<char>),
        >((KeyCode::Right, mods_none())),
        ascii_lowercase(s) == "esc"@ ==> parse_key_spec(s) == Ok::<
            (KeyCode, KeyModifiers),
            (crate::keys::KeyErrorKind, Seq<char>),
        >((KeyCode::Esc, mods_none())),
        ascii_lowercase(s) == "backspace"@ ==> parse_key_spec(s) == Ok::<
            (KeyCode, KeyModifiers),
            (crate::keys::KeyErrorKind, Seq<char>),
        >((KeyCode::Backspace, mods_none())),
        ascii_lowercase(s) == "delete"@ ==> parse_key_spec(s) == Ok::<
            (KeyCode, KeyModifiers),
            (crate::keys::KeyErrorKind, Seq<char>),
        >((KeyCode::Delete, mods_none())),
        ascii_lowercase(s) == "home"@ ==> parse_key_spec(s) == Ok::<
            (KeyCode, KeyModifiers),
            (crate::keys::KeyErrorKind, Seq<char>),
        >((KeyCode::Home, mods_none())),
        ascii_lowercase(s) == "end"@ ==> parse_key_spec(s) == Ok::<
            (KeyCode, KeyModifiers),
            (crate::keys::KeyErrorKind, Seq<char>),
        >((KeyCode::End, mods_none())),
{
    reveal_strlit("enter");
    reveal_strlit("space");
    reveal_strlit("tab");
    reveal_strlit("up");
    reveal_strlit("down");
    reveal_strlit("left");
    reveal_strlit("right");
    reveal_strlit("esc");
    reveal_strlit("backspace");
    reveal_strlit("delete");
    reveal_strlit("home");
    reveal_strlit("end");
    let lower = ascii_lowercase(s);
    if lower.len() > 1 && forall|i: int| 0 <= i < lower.len() ==> 'a' <= #[trigger] lower[i] <= 'z' {
        assert forall|i: int| 0 <= i < s.len() implies ('a' <= #[trigger] s[i] <= 'z' || 'A' <= s[i]
            <= 'Z') by {
            assert('a' <= lower[i] <= 'z');
        }
        assert(has_no(s, '+'));
        lemma_no_char(s, '+');
        assert('a' <= s[0] <= 'z' || 'A' <= s[0] <= 'Z');
        assert('a' <= s.last() <= 'z' || 'A' <= s.last() <= 'Z');
        lemma_trim_unchanged(s);
        vstd::utf8::is_ascii_chars_encode_utf8(lower);
    }
}

/// A sequence without `c` holds no `c` and has no last `c`.
proof fn lemma_no_char(s: Seq<char>, c: char)
    requires
        has_no(s, c),
    ensures
        count_char(s, c) == 0,
        last_index_of(s, c) == -1,
    decreases s.len(),
{
    if s.len() > 0 {
        assert(has_no(s.drop_last(), c));
        lemma_no_char(s.drop_last(), c);
    }
}

/// Appending text without `c` changes neither the count of `c` nor the
/// position of the last `c`.
proof fn lemma_count_append(p: Seq<char>, q: Seq<char>, c: char)
    requires
        has_no(q, c),
    ensures
        count_char(p + q, c) == count_char(p, c),
        last_index_of(p + q, c) == last_index_of(p, c),
    decreases q.len(),
{
    if q.len() == 0 {
        assert(p + q =~= p);
    } else {
        assert((p + q).drop_last() =~= p + q.drop_last());
        assert((p + q).last() == q.last());
        assert(has_no(q.drop_last(), c));
        lemma_count_append(p, q.drop_last(), c);
    }
}

/// Text that neither starts nor ends with whitespace is its own trim.
proof fn lemma_trim_unchanged(s: Seq<char>)
    requires
        s.len() > 0,
        !is_white_space(s[0]),
        !is_white_space(s.last()),
    ensures
        trim_spec(s) == s,
{
    assert(trim_start_spec(s) == s);
    assert(trim_end_spec(s) == s);
}

proof fn lemma_key_name_reads_back(code: KeyCode, mods: KeyModifiers)
    requires
        is_nameable_key(code),
        is_plain_modifier(mods),
    ensures
        ({
            let name = key_name_text(code, mods);
            &&& name.len() > 0
            &&& vstd::utf8::is_ascii_chars(name)
            &&& has_no(name, '+')
            &&& !is_white_space(name[0])
            &&& !is_white_space(name.last())
            &&& key_name_spec(name, lowercase_text(name)) matches Ok(c2)
                && normalize_spec(c2, mods) == normalize_spec(code, mods)
        }),
{
    reveal_strlit("enter");
    reveal_strlit("space");
    reveal_strlit("tab");
    reveal_strlit("up");
    reveal_strlit("down");
    reveal_strlit("left");
    reveal_strlit("right");
    reveal_strlit("esc");
    reveal_strlit("backspace");
    reveal_strlit("delete");
    reveal_strlit("home");
    reveal_strlit("end");
    let name = key_name_text(code, mods);
    match code {
        KeyCode::Enter => {
            reveal_strlit("Enter");
            assert(ascii_lowercase(name) =~= "enter"@);
        },
        KeyCode::Tab => {
            reveal_strlit("Tab");
            assert(ascii_lowercase(name) =~= "tab"@);
        },
        KeyCode::Up => {
            reveal_strlit("Up");
            assert(ascii_lowercase(name) =~= "up"@);
        },
        KeyCode::Down => {
            reveal_strlit("Down");
            assert(ascii_lowercase(name) =~= "down"@);
        },
        KeyCode::Left => {
            reveal_strlit("Left");
            assert(ascii_lowercase(name) =~= "left"@);
        },
        KeyCode::Right => {
            reveal_strlit("Right");
            assert(ascii_lowercase(name) =~= "right"@);
        },
        KeyCode::Esc => {
            reveal_strlit("Esc");
            assert(ascii_lowercase(name) =~= "esc"@);
        },
        KeyCode::Backspace => {
            reveal_strlit("Backspace");
            assert(ascii_lowercase(name) =~= "backspace"@);
        },
        KeyCode::Delete => {
            reveal_strlit("Delete");
            assert(ascii_lowercase(name) =~= "delete"@);
        },
        KeyCode::Home => {
            reveal_strlit("Home");
            assert(ascii_lowercase(name) =~= "home"@);
        },
        KeyCode::End => {
            reveal_strlit("End");
            assert(ascii_lowercase(name) =~= "end"@);
        },
        KeyCode::F(n) => {
            reveal_strlit("F");
            lemma_decimal_small(n as nat);
            let d = decimal_spec(n as nat);
            let lower = ascii_lowercase(name);
            assert(name =~= seq!['F'] + d);
            assert(lower =~= seq!['f'] + d);
            assert(lower.drop_first() =~= d);
            assert(vstd::utf8::is_ascii_chars(lower));
            vstd::utf8::is_ascii_chars_encode_utf8(lower);
            assert(byte_len(lower) > 1);

        },
        KeyCode::Char(c) => {
            if c == ' ' {
                reveal_strlit("Space");
                assert(ascii_lowercase(name) =~= "space"@);
            } else {
                let c1 = if is_ascii_lower(c) && mods.shift {
                    ascii_to_upper(c)
                } else {
                    c
                };
                assert(name == seq![c1]);
                let lower = ascii_lowercase(name);
                assert(lower.len() == 1);
                vstd::utf8::is_ascii_chars_encode_utf8(lower);
                if is_ascii_lower(c) && mods.shift {
                    assert(mods == mods_shift());
                    assert(ascii_to_lower(c1) == c);
                    assert(mods_union(mods, mods_shift()) == mods);
                }
            }
        },
        _ => {},
    }
}

/// The decimal form of a function key number: one or two ASCII digits
/// that read back as the number.
proof fn lemma_decimal_small(n: nat)
    requires
        1 <= n <= 12,
    ensures
        0 < decimal_spec(n).len() <= 2,
        vstd::utf8::is_ascii_chars(decimal_spec(n)),
        has_no(decimal_spec(n), '+'),
        !is_white_space(decimal_spec(n).last()),
        parse_u8_spec(decimal_spec(n)) == Some(n as u8),
{
    let d = decimal_spec(n);
    if n < 10 {
        assert(d == seq![digit_char(n)]);
        assert(d.drop_last() =~= Seq::<char>::empty());
        assert(digits_value(d.drop_last()) == 0);
        assert((digit_char(n) as nat) == n + 48);
        assert(digits_value(d) == n);
    } else {
        assert(decimal_spec(n / 10) == seq![digit_char(1)]);
        assert(d =~= seq!['1', digit_char(n % 10)]);
        assert(d.drop_last() =~= seq!['1']);
        assert(d.drop_last().drop_last() =~= Seq::<char>::empty());
        assert(digits_value(d.drop_last().drop_last()) == 0);
        assert(digits_value(d.drop_last()) == 1);
        assert((digit_char((n % 10) as nat) as nat) == n % 10 + 48);
        assert(digits_value(d) == n);
    }
    assert(unsigned_digits(d) == d);
    assert(all_digits(d));
}

} // verus!
