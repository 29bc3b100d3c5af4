//! What holds of every key map built from config entries: user keys take
//! effect, the defaults of an overridden action are gone, untouched
//! actions keep their defaults, Ctrl+C quits unless rebound, a bad entry
//! rejects the whole config, and hints are unique.
use vstd::prelude::*;
use crate::keys::{
    Action, KeyCode, KeyModifiers, ascii_to_lower, is_ascii_upper, is_normalized, key_name_spec,
    mods_none, mods_shift, mods_union, normalize_spec,
};
use crate::keybindings::{
    BindingErrorView, KeyBinding, KeyCombo, actions_of, apply_overrides_spec, binds_key, ctrl_c,
    default_keymap, ensure_ctrl_c_spec, entry_views, from_entries_spec, hint_le, insert_all,
    is_hint, lemma_lex_antisymmetric, lists_action, lists_map_entries, parse_entry_spec,
    parse_overrides_spec, without_actions_spec,
};
use crate::keys::{byte_len, parse_action_spec, parse_key_spec};
use crate::text::{lemma_trim_idempotent, lowercase_text, trim_spec};

verus! {

/// The binding that an entry gives, when it can be read.
pub open spec fn entry_binding(e: (Seq<char>, Seq<char>)) -> KeyBinding {
    parse_entry_spec(e)->Ok_0
}

/// Whether entry `e` can be read.
pub open spec fn entry_ok(e: (Seq<char>, Seq<char>)) -> bool {
    parse_entry_spec(e) is Ok
}

/// The position of the last binding of `p` whose canonical key is `k`, or -1.
pub open spec fn last_key_index(p: Seq<KeyBinding>, k: KeyCombo) -> int
    decreases p.len(),
{
    if p.len() == 0 {
        -1
    } else if normalize_spec(p.last().0.0, p.last().0.1) == k {
        p.len() - 1
    } else {
        last_key_index(p.drop_last(), k)
    }
}

proof fn lemma_last_key_index(p: Seq<KeyBinding>, k: KeyCombo)
    ensures
        -1 <= last_key_index(p, k) < p.len(),
        last_key_index(p, k) >= 0 ==> normalize_spec(
            p[last_key_index(p, k)].0.0,
            p[last_key_index(p, k)].0.1,
        ) == k,
        forall|j: int|
            last_key_index(p, k) < j < p.len() ==> normalize_spec(#[trigger] p[j].0.0, p[j].0.1)
                != k,
    decreases p.len(),
{
    if p.len() > 0 {
        lemma_last_key_index(p.drop_last(), k);
        assert forall|j: int|
            last_key_index(p, k) < j < p.len() implies normalize_spec(#[trigger] p[j].0.0, p[j].0.1)
            != k by {
            if j < p.len() - 1 {
                assert(p.drop_last()[j] == p[j]);
            }
        }
    }
}

/// What inserting a list of bindings does to one key: the last binding of
/// that key wins; keys that no binding names are left alone.
proof fn lemma_insert_all(m: Map<KeyCombo, Action>, p: Seq<KeyBinding>, k: KeyCombo)
    ensures
        last_key_index(p, k) >= 0 ==> insert_all(m, p).contains_key(k) && insert_all(m, p)[k]
            == p[last_key_index(p, k)].1,
        last_key_index(p, k) < 0 ==> (insert_all(m, p).contains_key(k) == m.contains_key(k)
            && insert_all(m, p)[k] == m[k]),
    decreases p.len(),
{
    if p.len() > 0 {
        lemma_insert_all(m, p.drop_last(), k);
        lemma_last_key_index(p.drop_last(), k);
        let idx = last_key_index(p.drop_last(), k);
        if idx >= 0 {
            assert(p.drop_last()[idx] == p[idx]);
        }
    }
}

/// A key whose canonical form is taken by some binding of `p` has index >= 0.
proof fn lemma_last_key_index_found(p: Seq<KeyBinding>, k: KeyCombo, i: int)
    requires
        0 <= i < p.len(),
        normalize_spec(p[i].0.0, p[i].0.1) == k,
    ensures
        last_key_index(p, k) >= i,
{
    lemma_last_key_index(p, k);
}

/// Reading the entries succeeds with one binding per entry, in order, or
/// fails with the error of the first entry that cannot be read.
proof fn lemma_parse_overrides(es: Seq<(Seq<char>, Seq<char>)>)
    ensures
        parse_overrides_spec(es) is Ok <==> forall|i: int| 0 <= i < es.len() ==> entry_ok(#[trigger] es[i]),
        parse_overrides_spec(es) is Ok ==> parse_overrides_spec(es)->Ok_0.len() == es.len() && forall|
            i: int,
        | 0 <= i < es.len() ==> parse_overrides_spec(es)->Ok_0[i] == entry_binding(#[trigger] es[i]),
        parse_overrides_spec(es) is Err ==> exists|i: int|
            0 <= i < es.len() && parse_entry_spec(#[trigger] es[i]) == Err::<
                KeyBinding,
                BindingErrorView,
            >(parse_overrides_spec(es)->Err_0) && forall|j: int| 0 <= j < i ==> entry_ok(es[j]),
    decreases es.len(),
{
    if es.len() > 0 {
        let t = es.drop_last();
        lemma_parse_overrides(t);
        assert forall|i: int| 0 <= i < t.len() implies #[trigger] t[i] == es[i] by {}
        if parse_overrides_spec(t) is Err {
            let i = choose|i: int|
                0 <= i < t.len() && parse_entry_spec(#[trigger] t[i]) == Err::<
                    KeyBinding,
                    BindingErrorView,
                >(parse_overrides_spec(t)->Err_0) && forall|j: int| 0 <= j < i ==> entry_ok(t[j]);
            assert(es[i] == t[i]);
            assert(!entry_ok(es[i]));
            assert forall|j: int| 0 <= j < i implies entry_ok(es[j]) by {
                assert(es[j] == t[j]);
            }
        } else if parse_entry_spec(es.last()) is Err {
            assert(!entry_ok(es[es.len() - 1]));
            assert forall|j: int| 0 <= j < es.len() - 1 implies entry_ok(es[j]) by {
                assert(es[j] == t[j]);
            }
        } else {
            assert forall|i: int| 0 <= i < es.len() implies entry_ok(#[trigger] es[i]) by {
                if i < es.len() - 1 {
                    assert(es[i] == t[i]);
                }
            }
            let pt = parse_overrides_spec(t)->Ok_0;
            let p = parse_overrides_spec(es)->Ok_0;
            assert(p == pt.push(entry_binding(es.last())));
            assert forall|i: int| 0 <= i < es.len() implies p[i] == entry_binding(#[trigger] es[i]) by {
                if i < es.len() - 1 {
                    assert(es[i] == t[i]);
                    assert(p[i] == pt[i]);
                }
            }
        }
    }
}

/// The binding of a readable entry is in canonical form.
proof fn lemma_entry_binding_normalized(e: (Seq<char>, Seq<char>))
    requires
        entry_ok(e),
    ensures
        is_normalized(entry_binding(e).0),
{
    let k = crate::keys::parse_key_spec(e.0)->Ok_0;
    lemma_normalize_idempotent(k.0, k.1);
}

/// Putting a key in canonical form twice changes nothing.
pub proof fn lemma_normalize_idempotent(code: KeyCode, mods: KeyModifiers)
    ensures
        is_normalized(normalize_spec(code, mods)),
{
    if let KeyCode::Char(c) = code {
        if is_ascii_upper(c) {
            assert((ascii_to_lower(c) as u32) == (c as u32) + 32);
        }
    }
}

proof fn lemma_defaults_normalized(k: KeyCombo)
    requires
        default_keymap().contains_key(k),
    ensures
        is_normalized(k),
{
}

/// Facts about one key of the map that config entries give, when every
/// entry can be read.
proof fn lemma_result_key(es: Seq<(Seq<char>, Seq<char>)>, k: KeyCombo)
    requires
        from_entries_spec(es) is Ok,
    ensures
        ({
            let p = parse_overrides_spec(es)->Ok_0;
            let w = without_actions_spec(default_keymap(), actions_of(p));
            let m = from_entries_spec(es)->Ok_0;
            &&& p.len() == es.len()
            &&& forall|i: int| 0 <= i < es.len() ==> #[trigger] p[i] == entry_binding(es[i])
            &&& forall|i: int| 0 <= i < p.len() ==> is_normalized(#[trigger] p[i].0)
            &&& m == ensure_ctrl_c_spec(insert_all(w, p), p)
            &&& last_key_index(p, k) >= 0 ==> insert_all(w, p).contains_key(k) && insert_all(w, p)[k]
                == p[last_key_index(p, k)].1
            &&& last_key_index(p, k) < 0 ==> (insert_all(w, p).contains_key(k) == w.contains_key(k)
                && insert_all(w, p)[k] == w[k])
        }),
{
    lemma_parse_overrides(es);
    let p = parse_overrides_spec(es)->Ok_0;
    assert forall|i: int| 0 <= i < p.len() implies is_normalized(#[trigger] p[i].0) by {
        assert(entry_ok(es[i]));
        lemma_entry_binding_normalized(es[i]);
    }
    lemma_insert_all(without_actions_spec(default_keymap(), actions_of(p)), p, k);
}

/// Every action has a default key.
pub proof fn law_defaults_bind_every_action(a: Action)
    ensures
        exists|k: KeyCombo| #[trigger] default_keymap().contains_key(k) && default_keymap()[k] == a,
{
    let k: KeyCombo = match a {
        Action::MoveDown => (KeyCode::Char('j'), mods_none()),
        Action::MoveUp => (KeyCode::Char('k'), mods_none()),
        Action::FocusTerminal => (KeyCode::Enter, mods_none()),
        Action::UnfocusTerminal => (KeyCode::Char(' '), crate::keys::mods_control()),
        Action::Quit => (KeyCode::Char('q'), mods_none()),
        Action::NewWorktree => (KeyCode::Char('n'), mods_none()),
        Action::AddRepo => (KeyCode::Char('a'), mods_shift()),
        Action::OpenEditor => (KeyCode::Char('e'), mods_none()),
        Action::Refresh => (KeyCode::Char('r'), mods_none()),
        Action::DeleteWorktree => (KeyCode::Char('d'), mods_none()),
    };
    assert(default_keymap().contains_key(k) && default_keymap()[k] == a);
}

/// With no entries, the key map is the default one.
pub proof fn law_no_entries_give_defaults()
    ensures
        from_entries_spec(Seq::empty()) == Ok::<Map<KeyCombo, Action>, BindingErrorView>(
            default_keymap(),
        ),
{
    let p = Seq::<KeyBinding>::empty();
    assert(parse_overrides_spec(Seq::empty()) == Ok::<Seq<KeyBinding>, BindingErrorView>(p));
    assert(without_actions_spec(default_keymap(), actions_of(p)) =~= default_keymap());
    assert(apply_overrides_spec(default_keymap(), p) == default_keymap());
    assert(default_keymap().contains_key(ctrl_c()));
}

/// The entries are rejected exactly when one of them cannot be read, and
/// then with the error of the first such entry.
pub proof fn law_bad_entry_rejects_all(es: Seq<(Seq<char>, Seq<char>)>)
    ensures
        from_entries_spec(es) is Err <==> exists|i: int| 0 <= i < es.len() && !entry_ok(#[trigger] es[i]),
        from_entries_spec(es) is Err ==> exists|i: int|
            0 <= i < es.len() && parse_entry_spec(#[trigger] es[i]) == Err::<
                KeyBinding,
                BindingErrorView,
            >(from_entries_spec(es)->Err_0) && forall|j: int| 0 <= j < i ==> entry_ok(es[j]),
{
    lemma_parse_overrides(es);
}

/// A config table is rejected exactly when one of its entries cannot be
/// read, whatever order it is walked in.
pub proof fn law_bad_config_entry_rejects_all(m: Map<String, String>, es: Seq<(String, String)>)
    requires
        lists_map_entries(m, es),
    ensures
        from_entries_spec(entry_views(es)) is Err <==> exists|k: String| #[trigger]
            m.contains_key(k) && !entry_ok((k@, m[k]@)),
{
    let v = entry_views(es);
    law_bad_entry_rejects_all(v);
    if from_entries_spec(v) is Err {
        let i = choose|i: int| 0 <= i < v.len() && !entry_ok(#[trigger] v[i]);
        assert(m.contains_key(es[i].0));
        assert(v[i] == (es[i].0@, m[es[i].0]@));
    }
    if exists|k: String| #[trigger] m.contains_key(k) && !entry_ok((k@, m[k]@)) {
        let k = choose|k: String| #[trigger] m.contains_key(k) && !entry_ok((k@, m[k]@));
        let i = choose|i: int| 0 <= i < es.len() && #[trigger] es[i].0 == k;
        assert(m.contains_key(es[i].0) && m[es[i].0] == es[i].1);
        assert(v[i] == (k@, m[k]@));
    }
}

/// A user binding takes effect unless a later entry binds the same key.
pub proof fn law_user_binding_takes_effect(es: Seq<(Seq<char>, Seq<char>)>, i: int)
    requires
        from_entries_spec(es) is Ok,
        0 <= i < es.len(),
        forall|j: int|
            i < j < es.len() ==> entry_binding(#[trigger] es[j]).0 != entry_binding(es[i]).0,
    ensures
        from_entries_spec(es)->Ok_0.contains_key(entry_binding(es[i]).0),
        from_entries_spec(es)->Ok_0[entry_binding(es[i]).0] == entry_binding(es[i]).1,
{
    let b = entry_binding(es[i]);
    lemma_result_key(es, b.0);
    let p = parse_overrides_spec(es)->Ok_0;
    assert(p[i] == b);
    lemma_last_key_index_found(p, b.0, i);
    lemma_last_key_index(p, b.0);
    let idx = last_key_index(p, b.0);
    if idx > i {
        assert(p[idx] == entry_binding(es[idx]));
        assert(is_normalized(p[idx].0));
    }
    assert(idx == i);
    if b.0 == ctrl_c() {
        assert(binds_key(p, ctrl_c()));
    }
}

/// Once an entry binds an action, the only keys left bound to that action
/// are the keys of the entries, and Ctrl+C when it is Quit and no entry
/// binds Ctrl+C.
pub proof fn law_overridden_action_loses_defaults(
    es: Seq<(Seq<char>, Seq<char>)>,
    i: int,
    k: KeyCombo,
)
    requires
        from_entries_spec(es) is Ok,
        0 <= i < es.len(),
        from_entries_spec(es)->Ok_0.contains_key(k),
        from_entries_spec(es)->Ok_0[k] == entry_binding(es[i]).1,
    ensures
        (exists|j: int| 0 <= j < es.len() && #[trigger] entry_binding(es[j]).0 == k) || (k == ctrl_c()
            && entry_binding(es[i]).1 == Action::Quit && forall|j: int|
            0 <= j < es.len() ==> #[trigger] entry_binding(es[j]).0 != ctrl_c()),
{
    lemma_result_key(es, k);
    let p = parse_overrides_spec(es)->Ok_0;
    let w = without_actions_spec(default_keymap(), actions_of(p));
    let ins = insert_all(w, p);
    lemma_last_key_index(p, k);
    let a = entry_binding(es[i]).1;
    if k == ctrl_c() && !binds_key(p, ctrl_c()) && !ins.contains_key(ctrl_c()) {
        assert forall|j: int| 0 <= j < es.len() implies #[trigger] entry_binding(es[j]).0 != ctrl_c() by {
            assert(p[j] == entry_binding(es[j]));
        }
    } else {
        if last_key_index(p, k) >= 0 {
            let j = last_key_index(p, k);
            assert(p[j] == entry_binding(es[j]));
            assert(is_normalized(p[j].0));
        } else {
            assert(w.contains_key(k) && w[k] == a);
            assert(actions_of(p)[i] == a);
            assert(lists_action(actions_of(p), a));
        }
    }
}

/// A default key keeps its action when no entry names that action or that key.
pub proof fn law_untouched_default_kept(es: Seq<(Seq<char>, Seq<char>)>, k: KeyCombo)
    requires
        from_entries_spec(es) is Ok,
        default_keymap().contains_key(k),
        forall|j: int| 0 <= j < es.len() ==> #[trigger] entry_binding(es[j]).1 != default_keymap()[k],
        forall|j: int| 0 <= j < es.len() ==> #[trigger] entry_binding(es[j]).0 != k,
    ensures
        from_entries_spec(es)->Ok_0.contains_key(k),
        from_entries_spec(es)->Ok_0[k] == default_keymap()[k],
{
    lemma_result_key(es, k);
    let p = parse_overrides_spec(es)->Ok_0;
    let a = default_keymap()[k];
    lemma_last_key_index(p, k);
    if last_key_index(p, k) >= 0 {
        let j = last_key_index(p, k);
        assert(p[j] == entry_binding(es[j]));
        assert(is_normalized(p[j].0));
    }
    if lists_action(actions_of(p), a) {
        let j = choose|j: int| 0 <= j < actions_of(p).len() && actions_of(p)[j] == a;
        assert(p[j] == entry_binding(es[j]));
    }
}

/// Ctrl+C quits unless an entry binds Ctrl+C.
pub proof fn law_ctrl_c_quits_unless_rebound(es: Seq<(Seq<char>, Seq<char>)>)
    requires
        from_entries_spec(es) is Ok,
        forall|j: int| 0 <= j < es.len() ==> #[trigger] entry_binding(es[j]).0 != ctrl_c(),
    ensures
        from_entries_spec(es)->Ok_0.contains_key(ctrl_c()),
        from_entries_spec(es)->Ok_0[ctrl_c()] == Action::Quit,
{
    lemma_result_key(es, ctrl_c());
    let p = parse_overrides_spec(es)->Ok_0;
    lemma_last_key_index(p, ctrl_c());
    if last_key_index(p, ctrl_c()) >= 0 {
        let j = last_key_index(p, ctrl_c());
        assert(p[j] == entry_binding(es[j]));
        assert(is_normalized(p[j].0));
    }
    if binds_key(p, ctrl_c()) {
        let j = choose|j: int| 0 <= j < p.len() && p[j].0 == ctrl_c();
        assert(p[j] == entry_binding(es[j]));
    }
}

/// Every bound key is a default key or the key of an entry, and is in
/// canonical form.
pub proof fn law_bound_keys_come_from_defaults_or_entries(
    es: Seq<(Seq<char>, Seq<char>)>,
    k: KeyCombo,
)
    requires
        from_entries_spec(es) is Ok,
        from_entries_spec(es)->Ok_0.contains_key(k),
    ensures
        default_keymap().contains_key(k) || exists|j: int|
            0 <= j < es.len() && #[trigger] entry_binding(es[j]).0 == k,
        is_normalized(k),
{
    lemma_result_key(es, k);
    let p = parse_overrides_spec(es)->Ok_0;
    lemma_last_key_index(p, k);
    if last_key_index(p, k) >= 0 {
        let j = last_key_index(p, k);
        assert(p[j] == entry_binding(es[j]));
        assert(is_normalized(p[j].0));
    } else if k != ctrl_c() {
        lemma_defaults_normalized(k);
    }
}

/// Shift+letter is looked up the same however the terminal reports it:
/// an uppercase letter with or without Shift, and the lowercase letter with
/// Shift, all have the same canonical form.
pub proof fn law_shift_letter_forms_agree(c: char, mods: KeyModifiers)
    requires
        is_ascii_upper(c),
    ensures
        normalize_spec(KeyCode::Char(c), mods) == normalize_spec(
            KeyCode::Char(ascii_to_lower(c)),
            mods_union(mods, mods_shift()),
        ),
        normalize_spec(KeyCode::Char(c), mods) == normalize_spec(
            KeyCode::Char(c),
            mods_union(mods, mods_shift()),
        ),
{
    assert((ascii_to_lower(c) as u32) == (c as u32) + 32);
    assert(mods_union(mods_union(mods, mods_shift()), mods_shift()) == mods_union(mods, mods_shift()));
}

/// There is at most one hint for an action.
pub proof fn law_hint_unique(m: Map<KeyCombo, Action>, a: Action, s1: Seq<char>, s2: Seq<char>)
    requires
        is_hint(m, a, s1),
        is_hint(m, a, s2),
    ensures
        s1 == s2,
{
    let k1 = choose|k: KeyCombo| #[trigger]
        m.contains_key(k) && m[k] == a && crate::keys::format_key_spec(k.0, k.1) == s1;
    let k2 = choose|k: KeyCombo| #[trigger]
        m.contains_key(k) && m[k] == a && crate::keys::format_key_spec(k.0, k.1) == s2;
    assert(hint_le(s1, s2));
    assert(hint_le(s2, s1));
    lemma_lex_antisymmetric(s1, s2);
}

/// Named keys are read case-insensitively: two key names with the same
/// lowercase form, unless that form is a single byte, denote the same key
/// or are both refused.
pub proof fn law_key_names_case_insensitive(raw1: Seq<char>, raw2: Seq<char>)
    requires
        lowercase_text(raw1) == lowercase_text(raw2),
        byte_len(lowercase_text(raw1)) != 1,
    ensures
        key_name_spec(raw1, lowercase_text(raw1)) is Ok <==> key_name_spec(raw2, lowercase_text(raw2)) is Ok,
        key_name_spec(raw1, lowercase_text(raw1)) is Ok ==> key_name_spec(raw1, lowercase_text(raw1))
            == key_name_spec(raw2, lowercase_text(raw2)),
{
}

/// Whitespace around a key string or an action name makes no difference.
pub proof fn law_surrounding_whitespace_ignored(s: Seq<char>)
    ensures
        parse_key_spec(s) == parse_key_spec(trim_spec(s)),
        parse_action_spec(s) == parse_action_spec(trim_spec(s)),
{
    lemma_trim_idempotent(s);
}

} // verus!
