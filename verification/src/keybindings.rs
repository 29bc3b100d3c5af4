//! The key map: default bindings, user overrides from the config file, key
//! lookup and the shortest-key hints shown in the UI.
use vstd::prelude::*;
use std::collections::HashMap;
use crate::keys::{
    Action, ActionError, ActionErrorKind, KeyCode, KeyError, KeyErrorKind, KeyModifiers,
    action_error_message_spec, format_key, format_key_spec, is_normalized, key_error_message_spec,
    mods_control, mods_none, mods_shift, normalize_key, normalize_spec, parse_action,
    parse_action_spec, parse_key, parse_key_spec,
};
use crate::text::join3;

verus! {

/// A key together with its modifiers.
pub type KeyCombo = (KeyCode, KeyModifiers);

/// A key bound to an action.
pub type KeyBinding = (KeyCombo, Action);

/// The map that a list of bindings denotes; a later binding of a key wins.
pub open spec fn map_of(s: Seq<KeyBinding>) -> Map<KeyCombo, Action>
    decreases s.len(),
{
    if s.len() == 0 {
        Map::empty()
    } else {
        map_of(s.drop_last()).insert(s.last().0, s.last().1)
    }
}

/// No key occurs twice.
pub open spec fn keys_unique(s: Seq<KeyBinding>) -> bool {
    forall|i: int, j: int| 0 <= i < s.len() && 0 <= j < s.len() && i != j ==> s[i].0 != s[j].0
}

/// Every key is in canonical form.
pub open spec fn all_normalized(s: Seq<KeyBinding>) -> bool {
    forall|i: int| 0 <= i < s.len() ==> is_normalized(#[trigger] s[i].0)
}

/// Every key of the map is in canonical form.
pub open spec fn keys_canonical(m: Map<KeyCombo, Action>) -> bool {
    forall|k: KeyCombo| #[trigger] m.contains_key(k) ==> is_normalized(k)
}

/// A list of bindings whose keys are all canonical denotes a map whose keys
/// are all canonical.
proof fn lemma_map_of_canonical(s: Seq<KeyBinding>)
    requires
        all_normalized(s),
    ensures
        keys_canonical(map_of(s)),
{
    lemma_map_of(s);
    assert forall|k: KeyCombo| #[trigger] map_of(s).contains_key(k) implies is_normalized(k) by {
        let i = choose|i: int| 0 <= i < s.len() && #[trigger] s[i].0 == k;
    }
}

pub proof fn lemma_map_of(s: Seq<KeyBinding>)
    ensures
        map_of(s).dom().finite(),
        forall|k: KeyCombo|
            map_of(s).contains_key(k) <==> exists|i: int| 0 <= i < s.len() && #[trigger] s[i].0 == k,
        keys_unique(s) ==> forall|i: int|
            0 <= i < s.len() ==> #[trigger] map_of(s)[s[i].0] == s[i].1,
    decreases s.len(),
{
    if s.len() > 0 {
        let t = s.drop_last();
        lemma_map_of(t);
        assert forall|k: KeyCombo|
            map_of(s).contains_key(k) <==> exists|i: int| 0 <= i < s.len() && #[trigger] s[i].0 == k by {
            if map_of(s).contains_key(k) {
                if k == s.last().0 {
                    assert(s[s.len() - 1].0 == k);
                } else {
                    let i = choose|i: int| 0 <= i < t.len() && #[trigger] t[i].0 == k;
                    assert(s[i].0 == k);
                }
            }
            if exists|i: int| 0 <= i < s.len() && #[trigger] s[i].0 == k {
                let i = choose|i: int| 0 <= i < s.len() && #[trigger] s[i].0 == k;
                if i < s.len() - 1 {
                    assert(t[i].0 == k);
                }
            }
        }
        if keys_unique(s) {
            assert(keys_unique(t));
            assert forall|i: int| 0 <= i < s.len() implies #[trigger] map_of(s)[s[i].0] == s[i].1 by {
                if i < s.len() - 1 {
                    assert(t[i] == s[i]);
                    assert(s[i].0 != s[s.len() - 1].0);
                }
            }
        }
    }
}

/// Whether `acts` lists action `a`.
pub open spec fn lists_action(acts: Seq<Action>, a: Action) -> bool {
    exists|i: int| 0 <= i < acts.len() && acts[i] == a
}

/// `m` without the keys bound to an action of `acts`.
pub open spec fn without_actions_spec(m: Map<KeyCombo, Action>, acts: Seq<Action>) -> Map<
    KeyCombo,
    Action,
> {
    Map::new(|k: KeyCombo| m.contains_key(k) && !lists_action(acts, m[k]), |k: KeyCombo| m[k])
}

/// The actions that a list of bindings binds keys to.
pub open spec fn actions_of(p: Seq<KeyBinding>) -> Seq<Action> {
    p.map_values(|b: KeyBinding| b.1)
}

/// `m` with each binding of `p` inserted in order, its key put in canonical
/// form first.
pub open spec fn insert_all(m: Map<KeyCombo, Action>, p: Seq<KeyBinding>) -> Map<KeyCombo, Action>
    decreases p.len(),
{
    if p.len() == 0 {
        m
    } else {
        insert_all(m, p.drop_last()).insert(normalize_spec(p.last().0.0, p.last().0.1), p.last().1)
    }
}

/// User bindings replace the defaults of every action they name: the
/// defaults of those actions are dropped, then the user bindings are
/// inserted.
pub open spec fn apply_overrides_spec(m: Map<KeyCombo, Action>, p: Seq<KeyBinding>) -> Map<
    KeyCombo,
    Action,
> {
    insert_all(without_actions_spec(m, actions_of(p)), p)
}

/// The key Ctrl+C.
pub open spec fn ctrl_c() -> KeyCombo {
    (KeyCode::Char('c'), mods_control())
}

/// Whether some user binding is for key `k`.
pub open spec fn binds_key(p: Seq<KeyBinding>, k: KeyCombo) -> bool {
    exists|i: int| 0 <= i < p.len() && p[i].0 == k
}

/// Ctrl+C quits unless the user bound it: when no user binding is for
/// Ctrl+C and the key is free, it is bound to Quit.
pub open spec fn ensure_ctrl_c_spec(m: Map<KeyCombo, Action>, p: Seq<KeyBinding>) -> Map<
    KeyCombo,
    Action,
> {
    if !binds_key(p, ctrl_c()) && !m.contains_key(ctrl_c()) {
        m.insert(ctrl_c(), Action::Quit)
    } else {
        m
    }
}

/// The default key map.
pub open spec fn default_keymap() -> Map<KeyCombo, Action> {
    Map::empty()
        .insert((KeyCode::Char('j'), mods_none()), Action::MoveDown)
        .insert((KeyCode::Down, mods_none()), Action::MoveDown)
        .insert((KeyCode::Tab, mods_none()), Action::MoveDown)
        .insert((KeyCode::Char('k'), mods_none()), Action::MoveUp)
        .insert((KeyCode::Up, mods_none()), Action::MoveUp)
        .insert((KeyCode::Enter, mods_none()), Action::FocusTerminal)
        .insert((KeyCode::Char(' '), mods_none()), Action::FocusTerminal)
        .insert((KeyCode::Char(' '), mods_control()), Action::UnfocusTerminal)
        .insert((KeyCode::Char('q'), mods_none()), Action::Quit)
        .insert((KeyCode::Char('c'), mods_control()), Action::Quit)
        .insert((KeyCode::Char('n'), mods_none()), Action::NewWorktree)
        .insert((KeyCode::Char('a'), mods_shift()), Action::AddRepo)
        .insert((KeyCode::Char('e'), mods_none()), Action::OpenEditor)
        .insert((KeyCode::Char('r'), mods_none()), Action::Refresh)
        .insert((KeyCode::Char('d'), mods_none()), Action::DeleteWorktree)
}

/// A config entry (key string, action name) that could not be read.
#[derive(Clone, Debug)]
pub enum BindingError {
    InvalidKey { key: String, error: KeyError },
    InvalidAction { key: String, error: ActionError },
}

/// The model of a `BindingError`: the key string of the entry and the
/// error of its key or of its action.
pub enum BindingErrorView {
    InvalidKey(Seq<char>, (KeyErrorKind, Seq<char>)),
    InvalidAction(Seq<char>, (ActionErrorKind, Seq<char>)),
}

impl View for BindingError {
    type V = BindingErrorView;

    open spec fn view(&self) -> BindingErrorView {
        match self {
            BindingError::InvalidKey { key, error } => BindingErrorView::InvalidKey(key@, error@),
            BindingError::InvalidAction { key, error } => BindingErrorView::InvalidAction(
                key@,
                error@,
            ),
        }
    }
}

pub open spec fn binding_error_message_spec(e: BindingErrorView) -> Seq<char> {
    match e {
        BindingErrorView::InvalidKey(key, ke) => "invalid keybinding '"@ + key + "': "@
            + key_error_message_spec(ke),
        BindingErrorView::InvalidAction(key, ae) => "invalid action for '"@ + key + "': "@
            + action_error_message_spec(ae),
    }
}

impl BindingError {
    /// The human-readable text of this error.
    pub fn message(&self) -> (r: String)
        ensures
            r@ == binding_error_message_spec(self@),
    {
        match self {
            BindingError::InvalidKey { key, error } => {
                let head = join3("invalid keybinding '", key.as_str(), "': ");
                let detail = error.message();
                head.concat(detail.as_str())
            },
            BindingError::InvalidAction { key, error } => {
                let head = join3("invalid action for '", key.as_str(), "': ");
                let detail = error.message();
                head.concat(detail.as_str())
            },
        }
    }
}

/// The text of config entries.
pub open spec fn entry_views(es: Seq<(String, String)>) -> Seq<(Seq<char>, Seq<char>)> {
    es.map_values(|e: (String, String)| (e.0@, e.1@))
}

/// Reading one config entry: its key string, then its action name; the key
/// is put in canonical form.
pub open spec fn parse_entry_spec(e: (Seq<char>, Seq<char>)) -> Result<KeyBinding, BindingErrorView> {
    match parse_key_spec(e.0) {
        Err(ke) => Err(BindingErrorView::InvalidKey(e.0, ke)),
        Ok(k) => match parse_action_spec(e.1) {
            Err(ae) => Err(BindingErrorView::InvalidAction(e.0, ae)),
            Ok(a) => Ok((normalize_spec(k.0, k.1), a)),
        },
    }
}

/// Reading the config entries in order; the first entry that cannot be
/// read gives the error.
pub open spec fn parse_overrides_spec(es: Seq<(Seq<char>, Seq<char>)>) -> Result<
    Seq<KeyBinding>,
    BindingErrorView,
>
    decreases es.len(),
{
    if es.len() == 0 {
        Ok(Seq::empty())
    } else {
        match parse_overrides_spec(es.drop_last()) {
            Err(e) => Err(e),
            Ok(p) => match parse_entry_spec(es.last()) {
                Err(e) => Err(e),
                Ok(b) => Ok(p.push(b)),
            },
        }
    }
}

/// The key map that config entries give: the defaults with the user
/// bindings merged on top, and Ctrl+C kept as Quit unless the user bound it.
pub open spec fn from_entries_spec(es: Seq<(Seq<char>, Seq<char>)>) -> Result<
    Map<KeyCombo, Action>,
    BindingErrorView,
> {
    match parse_overrides_spec(es) {
        Err(e) => Err(e),
        Ok(p) => Ok(ensure_ctrl_c_spec(apply_overrides_spec(default_keymap(), p), p)),
    }
}

/// `es` lists each entry of `m` once.
pub open spec fn lists_map_entries(m: Map<String, String>, es: Seq<(String, String)>) -> bool {
    &&& es.len() == m.dom().len()
    &&& forall|i: int| 0 <= i < es.len() ==> m.contains_key(#[trigger] es[i].0) && m[es[i].0] == es[i].1
    &&& forall|i: int, j: int| 0 <= i < es.len() && 0 <= j < es.len() && i != j ==> es[i].0 != es[j].0
    &&& forall|k: String| m.contains_key(k) ==> exists|i: int| 0 <= i < es.len() && #[trigger] es[i].0 == k
}

/// Walks the map with `HashMap::iter` and copies each entry. The order of
/// the entries is whatever order the map is walked in, and nothing is
/// stated of it; each entry of the map occurs once.
#[verifier::external_body]
fn hash_map_entries(m: &HashMap<String, String>) -> (r: Vec<(String, String)>)
    ensures
        lists_map_entries(m@, r@),
{
    m.iter().map(|(k, v)| (k.clone(), v.clone())).collect()
}

/// A key map: which action each key triggers.
#[derive(Debug)]
pub struct Keybindings {
    entries: Vec<KeyBinding>,
}

impl Keybindings {
    #[verifier::type_invariant]
    spec fn well_formed(self) -> bool {
        keys_unique(self.entries@) && all_normalized(self.entries@)
    }

    /// The map from keys to actions.
    pub closed spec fn bindings(self) -> Map<KeyCombo, Action> {
        map_of(self.entries@)
    }
}

impl View for Keybindings {
    type V = Map<KeyCombo, Action>;

    open spec fn view(&self) -> Map<KeyCombo, Action> {
        self.bindings()
    }
}

pub open spec fn keybindings_result_view(r: Result<Keybindings, BindingError>) -> Result<
    Map<KeyCombo, Action>,
    BindingErrorView,
> {
    match r {
        Ok(kb) => Ok(kb@),
        Err(e) => Err(e@),
    }
}

/// The position of key `key` in the bindings.
fn find_key(entries: &Vec<KeyBinding>, key: KeyCombo) -> (r: Option<usize>)
    ensures
        match r {
            Some(i) => i < entries@.len() && entries@[i as int].0 == key,
            None => forall|i: int| 0 <= i < entries@.len() ==> #[trigger] entries@[i].0 != key,
        },
{
    let mut i: usize = 0;
    while i < entries.len()
        invariant
            i <= entries@.len(),
            forall|j: int| 0 <= j < i ==> #[trigger] entries@[j].0 != key,
        decreases entries@.len() - i,
    {
        let e = &entries[i];
        if e.0.0 == key.0 && e.0.1 == key.1 {
            return Some(i);
        }
        i = i + 1;
    }
    None
}

/// Binds `key` to `action`, replacing a binding of the same key.
fn insert_binding(entries: &mut Vec<KeyBinding>, key: KeyCombo, action: Action)
    requires
        keys_unique(old(entries)@),
        all_normalized(old(entries)@),
        is_normalized(key),
    ensures
        keys_unique(final(entries)@),
        all_normalized(final(entries)@),
        map_of(final(entries)@) == map_of(old(entries)@).insert(key, action),
{
    let ghost before = entries@;
    match find_key(entries, key) {
        Some(i) => {
            entries.set(i, (key, action));
            let ghost after = entries@;
            assert(after == before.update(i as int, (key, action)));
            assert(keys_unique(after)) by {
                assert forall|a: int, b: int|
                    0 <= a < after.len() && 0 <= b < after.len() && a != b implies after[a].0
                    != after[b].0 by {
                    if a != i && b != i {
                        assert(after[a] == before[a] && after[b] == before[b]);
                    } else if a == i {
                        assert(after[b] == before[b]);
                        assert(before[i as int].0 != before[b].0);
                    } else {
                        assert(after[a] == before[a]);
                        assert(before[i as int].0 != before[a].0);
                    }
                }
            }
            proof {
                lemma_map_of(before);
                lemma_map_of(after);
                assert forall|k: KeyCombo| #[trigger]
                    map_of(after).contains_key(k) == map_of(before).insert(key, action).contains_key(
                        k,
                    ) by {
                    if map_of(before).contains_key(k) {
                        let j = choose|j: int| 0 <= j < before.len() && #[trigger] before[j].0 == k;
                        if j == i {
                            assert(after[j].0 == k);
                        } else {
                            assert(after[j] == before[j]);
                        }
                    }
                    if map_of(after).contains_key(k) {
                        let j = choose|j: int| 0 <= j < after.len() && #[trigger] after[j].0 == k;
                        if j != i {
                            assert(after[j] == before[j]);
                        }
                    }
                }
                assert forall|k: KeyCombo| #[trigger]
                    map_of(after).contains_key(k) implies map_of(after)[k] == map_of(before).insert(
                        key,
                        action,
                    )[k] by {
                    let j = choose|j: int| 0 <= j < after.len() && #[trigger] after[j].0 == k;
                    if j != i {
                        assert(after[j] == before[j]);
                        assert(map_of(after)[after[j].0] == after[j].1);
                        assert(map_of(before)[before[j].0] == before[j].1);
                    } else {
                        assert(map_of(after)[after[j].0] == after[j].1);
                    }
                }
                assert(map_of(after) =~= map_of(before).insert(key, action));
            }
        },
        None => {
            entries.push((key, action));
            assert(entries@.drop_last() =~= before);
        },
    }
}

/// Whether `actions` lists action `a`.
fn lists_action_exec(actions: &Vec<Action>, a: Action) -> (r: bool)
    ensures
        r == lists_action(actions@, a),
{
    let mut i: usize = 0;
    while i < actions.len()
        invariant
            i <= actions@.len(),
            forall|j: int| 0 <= j < i ==> actions@[j] != a,
        decreases actions@.len() - i,
    {
        if actions[i] == a {
            return true;
        }
        i = i + 1;
    }
    false
}

/// The bindings whose action is not listed in `actions`, in their order.
fn without_actions(entries: &Vec<KeyBinding>, actions: &Vec<Action>) -> (r: Vec<KeyBinding>)
    requires
        keys_unique(entries@),
        all_normalized(entries@),
    ensures
        keys_unique(r@),
        all_normalized(r@),
        map_of(r@) == without_actions_spec(map_of(entries@), actions@),
{
    let mut out: Vec<KeyBinding> = Vec::new();
    let mut i: usize = 0;
    while i < entries.len()
        invariant
            i <= entries@.len(),
            keys_unique(entries@),
            all_normalized(entries@),
            keys_unique(out@),
            all_normalized(out@),
            forall|m: int|
                #![trigger out@[m]]
                0 <= m < out@.len() ==> exists|j: int|
                    0 <= j < i && #[trigger] entries@[j] == out@[m] && !lists_action(
                        actions@,
                        out@[m].1,
                    ),
            forall|j: int|
                #![trigger entries@[j]]
                0 <= j < i && !lists_action(actions@, entries@[j].1) ==> exists|m: int|
                    0 <= m < out@.len() && #[trigger] out@[m] == entries@[j],
        decreases entries@.len() - i,
    {
        let e = entries[i];
        if !lists_action_exec(actions, e.1) {
            let ghost prev = out@;
            out.push(e);
            assert(keys_unique(out@)) by {
                assert forall|a: int, b: int|
                    0 <= a < out@.len() && 0 <= b < out@.len() && a != b implies out@[a].0
                    != out@[b].0 by {
                    if a < prev.len() && b < prev.len() {
                        assert(out@[a] == prev[a] && out@[b] == prev[b]);
                    } else if a == prev.len() {
                        let j = choose|j: int|
                            0 <= j < i && #[trigger] entries@[j] == prev[b] && !lists_action(
                                actions@,
                                prev[b].1,
                            );
                        assert(out@[b] == prev[b]);
                        assert(entries@[j].0 != entries@[i as int].0);
                    } else {
                        let j = choose|j: int|
                            0 <= j < i && #[trigger] entries@[j] == prev[a] && !lists_action(
                                actions@,
                                prev[a].1,
                            );
                        assert(out@[a] == prev[a]);
                        assert(entries@[j].0 != entries@[i as int].0);
                    }
                }
            }
            assert forall|m: int| #![trigger out@[m]] 0 <= m < out@.len() implies exists|j: int|
                0 <= j < i + 1 && #[trigger] entries@[j] == out@[m] && !lists_action(
                    actions@,
                    out@[m].1,
                ) by {
                if m < prev.len() {
                    assert(out@[m] == prev[m]);
                    let j = choose|j: int|
                        0 <= j < i && #[trigger] entries@[j] == prev[m] && !lists_action(
                            actions@,
                            prev[m].1,
                        );
                } else {
                    assert(entries@[i as int] == out@[m]);
                }
            }
            assert forall|j: int|
                #![trigger entries@[j]]
                0 <= j < i + 1 && !lists_action(actions@, entries@[j].1) implies exists|m: int|
                0 <= m < out@.len() && #[trigger] out@[m] == entries@[j] by {
                if j < i {
                    let m = choose|m: int| 0 <= m < prev.len() && #[trigger] prev[m] == entries@[j];
                    assert(out@[m] == prev[m]);
                } else {
                    assert(out@[prev.len() as int] == entries@[j]);
                }
            }
        }
        i = i + 1;
    }
    proof {
        let r = out@;
        let s = entries@;
        lemma_map_of(r);
        lemma_map_of(s);
        let target = without_actions_spec(map_of(s), actions@);
        assert forall|k: KeyCombo| #[trigger] map_of(r).contains_key(k) == target.contains_key(k) by {
            if map_of(r).contains_key(k) {
                let m = choose|m: int| 0 <= m < r.len() && #[trigger] r[m].0 == k;
                let j = choose|j: int|
                    0 <= j < s.len() && #[trigger] s[j] == r[m] && !lists_action(actions@, r[m].1);
                assert(s[j].0 == k);
                assert(map_of(s)[s[j].0] == s[j].1);
            }
            if target.contains_key(k) {
                let j = choose|j: int| 0 <= j < s.len() && #[trigger] s[j].0 == k;
                assert(map_of(s)[s[j].0] == s[j].1);
                let m = choose|m: int| 0 <= m < r.len() && #[trigger] r[m] == s[j];
                assert(r[m].0 == k);
            }
        }
        assert forall|k: KeyCombo| #[trigger] map_of(r).contains_key(k) implies map_of(r)[k]
            == target[k] by {
            let m = choose|m: int| 0 <= m < r.len() && #[trigger] r[m].0 == k;
            let j = choose|j: int|
                0 <= j < s.len() && #[trigger] s[j] == r[m] && !lists_action(actions@, r[m].1);
            assert(map_of(s)[s[j].0] == s[j].1);
            assert(map_of(r)[r[m].0] == r[m].1);
        }
        assert(map_of(r) =~= target);
    }
    out
}

/// Binds a key, after putting it in canonical form.
fn bind(entries: &mut Vec<KeyBinding>, code: KeyCode, mods: KeyModifiers, action: Action)
    requires
        keys_unique(old(entries)@),
        all_normalized(old(entries)@),
    ensures
        keys_unique(final(entries)@),
        all_normalized(final(entries)@),
        map_of(final(entries)@) == map_of(old(entries)@).insert(normalize_spec(code, mods), action),
{
    let key = normalize_key(code, mods);
    insert_binding(entries, key, action);
}

/// Reads the config entries in order into canonical bindings.
fn parse_overrides(overrides: &[(String, String)]) -> (r: Result<Vec<KeyBinding>, BindingError>)
    ensures
        match r {
            Ok(p) => parse_overrides_spec(entry_views(overrides@)) == Ok::<
                Seq<KeyBinding>,
                BindingErrorView,
            >(p@),
            Err(e) => parse_overrides_spec(entry_views(overrides@)) == Err::<
                Seq<KeyBinding>,
                BindingErrorView,
            >(e@),
        },
{
    let ghost es = entry_views(overrides@);
    let mut out: Vec<KeyBinding> = Vec::new();
    let mut i: usize = 0;
    assert(es.subrange(0, 0) =~= Seq::<(Seq<char>, Seq<char>)>::empty());
    while i < overrides.len()
        invariant
            i <= overrides@.len(),
            es == entry_views(overrides@),
            parse_overrides_spec(es.subrange(0, i as int)) == Ok::<
                Seq<KeyBinding>,
                BindingErrorView,
            >(out@),
        decreases overrides@.len() - i,
    {
        let entry = &overrides[i];
        let key_str = &entry.0;
        let action_str = &entry.1;
        assert(es.subrange(0, i + 1).drop_last() =~= es.subrange(0, i as int));
        assert(es.subrange(0, i + 1).last() == es[i as int]);
        assert(es[i as int] == (key_str@, action_str@));
        let (code, mods) = match parse_key(key_str.as_str()) {
            Ok(k) => k,
            Err(error) => {
                let r = BindingError::InvalidKey { key: key_str.clone(), error };
                assert(parse_overrides_spec(es.subrange(0, i + 1)) == Err::<
                    Seq<KeyBinding>,
                    BindingErrorView,
                >(r@));
                proof {
                    lemma_parse_overrides_prefix_error(es, i as int + 1);
                }
                return Err(r);
            },
        };
        let action = match parse_action(action_str.as_str()) {
            Ok(a) => a,
            Err(error) => {
                let r = BindingError::InvalidAction { key: key_str.clone(), error };
                assert(parse_overrides_spec(es.subrange(0, i + 1)) == Err::<
                    Seq<KeyBinding>,
                    BindingErrorView,
                >(r@));
                proof {
                    lemma_parse_overrides_prefix_error(es, i as int + 1);
                }
                return Err(r);
            },
        };
        let key = normalize_key(code, mods);
        out.push((key, action));
        i = i + 1;
    }
    assert(es.subrange(0, i as int) =~= es);
    Ok(out)
}

/// Once a prefix of the entries fails to read, so do all the entries.
proof fn lemma_parse_overrides_prefix_error(es: Seq<(Seq<char>, Seq<char>)>, n: int)
    requires
        0 <= n <= es.len(),
        parse_overrides_spec(es.subrange(0, n)) is Err,
    ensures
        parse_overrides_spec(es) == parse_overrides_spec(es.subrange(0, n)),
    decreases es.len() - n,
{
    if n < es.len() {
        assert(es.subrange(0, n + 1).drop_last() =~= es.subrange(0, n));
        lemma_parse_overrides_prefix_error(es, n + 1);
    } else {
        assert(es.subrange(0, n) =~= es);
    }
}

/// Drops the bindings of every action that `parsed` binds, then inserts
/// the bindings of `parsed` in order.
fn apply_overrides(entries: &mut Vec<KeyBinding>, parsed: &Vec<KeyBinding>)
    requires
        keys_unique(old(entries)@),
        all_normalized(old(entries)@),
    ensures
        keys_unique(final(entries)@),
        all_normalized(final(entries)@),
        map_of(final(entries)@) == apply_overrides_spec(map_of(old(entries)@), parsed@),
{
    let mut overridden: Vec<Action> = Vec::new();
    let mut i: usize = 0;
    while i < parsed.len()
        invariant
            i <= parsed@.len(),
            overridden@ == actions_of(parsed@).subrange(0, i as int),
        decreases parsed@.len() - i,
    {
        overridden.push(parsed[i].1);
        i = i + 1;
        assert(overridden@ =~= actions_of(parsed@).subrange(0, i as int));
    }
    assert(overridden@ =~= actions_of(parsed@));
    let kept = without_actions(entries, &overridden);
    *entries = kept;
    let ghost base = map_of(entries@);
    let mut j: usize = 0;
    assert(parsed@.subrange(0, 0) =~= Seq::<KeyBinding>::empty());
    while j < parsed.len()
        invariant
            j <= parsed@.len(),
            keys_unique(entries@),
            all_normalized(entries@),
            map_of(entries@) == insert_all(base, parsed@.subrange(0, j as int)),
        decreases parsed@.len() - j,
    {
        let b = parsed[j];
        assert(parsed@.subrange(0, j + 1).drop_last() =~= parsed@.subrange(0, j as int));
        bind(entries, b.0.0, b.0.1, b.1);
        j = j + 1;
    }
    assert(parsed@.subrange(0, j as int) =~= parsed@);
}

/// Whether some binding of `parsed` is for key `key`.
fn binds_key_exec(parsed: &Vec<KeyBinding>, key: KeyCombo) -> (r: bool)
    ensures
        r == binds_key(parsed@, key),
{
    let mut i: usize = 0;
    while i < parsed.len()
        invariant
            i <= parsed@.len(),
            forall|j: int| 0 <= j < i ==> parsed@[j].0 != key,
        decreases parsed@.len() - i,
    {
        let b = parsed[i];
        if b.0.0 == key.0 && b.0.1 == key.1 {
            return true;
        }
        i = i + 1;
    }
    false
}

/// Binds Ctrl+C to Quit unless the user bound Ctrl+C or the key is taken.
fn ensure_ctrl_c_quit(entries: &mut Vec<KeyBinding>, parsed: &Vec<KeyBinding>)
    requires
        keys_unique(old(entries)@),
        all_normalized(old(entries)@),
    ensures
        keys_unique(final(entries)@),
        all_normalized(final(entries)@),
        map_of(final(entries)@) == ensure_ctrl_c_spec(map_of(old(entries)@), parsed@),
{
    let key = (KeyCode::Char('c'), KeyModifiers::control());
    let user_bound = binds_key_exec(parsed, key);
    if !user_bound {
        proof {
            lemma_map_of(entries@);
        }
        match find_key(entries, key) {
            Some(i) => {
                assert(map_of(entries@).contains_key(ctrl_c()));
            },
            None => {
                assert(!map_of(entries@).contains_key(ctrl_c()));
                insert_binding(entries, key, Action::Quit);
            },
        }
    }
}

/// `a` comes before `b` or equals it in lexicographic order of characters,
/// which for UTF-8 text is the byte order that `String`'s `Ord` uses.
pub open spec fn lex_le(a: Seq<char>, b: Seq<char>) -> bool
    decreases a.len(),
{
    if a.len() == 0 {
        true
    } else if b.len() == 0 {
        false
    } else if a[0] != b[0] {
        a[0] < b[0]
    } else {
        lex_le(a.drop_first(), b.drop_first())
    }
}

/// The length in bytes that `String::len` gives.
pub open spec fn text_byte_len(s: Seq<char>) -> usize {
    vstd::utf8::encode_utf8(s).len() as usize
}

/// The order of hints: shorter in bytes first, then lexicographic; `a`
/// comes before `b` or equals it.
pub open spec fn hint_le(a: Seq<char>, b: Seq<char>) -> bool {
    text_byte_len(a) < text_byte_len(b) || (text_byte_len(a) == text_byte_len(b) && lex_le(a, b))
}

/// Whether `s` is the hint for `action` in `m`: the display form of a key
/// bound to `action` that comes first in the hint order.
pub open spec fn is_hint(m: Map<KeyCombo, Action>, action: Action, s: Seq<char>) -> bool {
    &&& exists|k: KeyCombo| #[trigger]
        m.contains_key(k) && m[k] == action && format_key_spec(k.0, k.1) == s
    &&& forall|k: KeyCombo| #[trigger]
        m.contains_key(k) && m[k] == action ==> hint_le(s, format_key_spec(k.0, k.1))
}

pub proof fn lemma_lex_total(a: Seq<char>, b: Seq<char>)
    ensures
        lex_le(a, b) || lex_le(b, a),
    decreases a.len(),
{
    if a.len() > 0 && b.len() > 0 && a[0] == b[0] {
        lemma_lex_total(a.drop_first(), b.drop_first());
    }
}

pub proof fn lemma_lex_antisymmetric(a: Seq<char>, b: Seq<char>)
    requires
        lex_le(a, b),
        lex_le(b, a),
    ensures
        a == b,
    decreases a.len(),
{
    if a.len() > 0 && b.len() > 0 {
        lemma_lex_antisymmetric(a.drop_first(), b.drop_first());
        assert(a =~= seq![a[0]] + a.drop_first());
        assert(b =~= seq![b[0]] + b.drop_first());
    } else {
        assert(a.len() == 0 && b.len() == 0);
        assert(a =~= b);
    }
}

pub proof fn lemma_lex_transitive(a: Seq<char>, b: Seq<char>, c: Seq<char>)
    requires
        lex_le(a, b),
        lex_le(b, c),
    ensures
        lex_le(a, c),
    decreases a.len(),
{
    if a.len() > 0 && b.len() > 0 && c.len() > 0 && a[0] == b[0] && b[0] == c[0] {
        lemma_lex_transitive(a.drop_first(), b.drop_first(), c.drop_first());
    }
}

/// Whether `a` comes before `b` or equals it in lexicographic order.
fn lex_le_exec(a: &str, b: &str) -> (r: bool)
    ensures
        r == lex_le(a@, b@),
{
    let na = a.unicode_len();
    let nb = b.unicode_len();
    let mut i: usize = 0;
    assert(a@.subrange(0, na as int) =~= a@);
    assert(b@.subrange(0, nb as int) =~= b@);
    while i < na && i < nb
        invariant
            na == a@.len(),
            nb == b@.len(),
            i <= na,
            i <= nb,
            lex_le(a@, b@) == lex_le(a@.subrange(i as int, na as int), b@.subrange(i as int, nb as int)),
        decreases na - i,
    {
        let ca = a.get_char(i);
        let cb = b.get_char(i);
        if ca != cb {
            return ca < cb;
        }
        assert(a@.subrange(i as int, na as int).drop_first() =~= a@.subrange(i + 1, na as int));
        assert(b@.subrange(i as int, nb as int).drop_first() =~= b@.subrange(i + 1, nb as int));
        i = i + 1;
    }
    i == na
}

/// Whether `a` comes first in the hint order, or equals `b`.
fn hint_before(a: &String, b: &String) -> (r: bool)
    ensures
        r == hint_le(a@, b@),
{
    let la = a.as_str().len();
    let lb = b.as_str().len();
    la < lb || (la == lb && lex_le_exec(a.as_str(), b.as_str()))
}

impl Keybindings {
    /// The action bound to a key, if any. The key is put in canonical form
    /// first, so every way a terminal reports Shift+letter finds the same
    /// binding.
    pub fn get(&self, code: KeyCode, modifiers: KeyModifiers) -> (r: Option<&Action>)
        ensures
            ({
                let k = normalize_spec(code, modifiers);
                match r {
                    Some(a) => self@.contains_key(k) && *a == self@[k],
                    None => !self@.contains_key(k),
                }
            }),
            keys_canonical(self@),
    {
        proof {
            use_type_invariant(self);
            lemma_map_of(self.entries@);
            lemma_map_of_canonical(self.entries@);
        }
        let key = normalize_key(code, modifiers);
        match find_key(&self.entries, key) {
            Some(i) => Some(&self.entries[i].1),
            None => None,
        }
    }

    /// Builds the key map from config entries, read in the order given:
    /// user overrides are merged on top of the defaults. When an entry binds
    /// an action, every default binding of that action is dropped first, so
    /// the user's keys replace the defaults of every action they name.
    /// Ctrl+C stays bound to Quit unless an entry binds Ctrl+C. Fails on the
    /// first entry whose key or action cannot be read.
    pub fn from_entries(overrides: &[(String, String)]) -> (r: Result<Keybindings, BindingError>)
        ensures
            keybindings_result_view(r) == from_entries_spec(entry_views(overrides@)),
            r matches Ok(kb) ==> keys_canonical(kb@),
    {
        let parsed = match parse_overrides(overrides) {
            Ok(p) => p,
            Err(e) => return Err(e),
        };
        let mut entries = default_entries();
        apply_overrides(&mut entries, &parsed);
        ensure_ctrl_c_quit(&mut entries, &parsed);
        proof {
            lemma_map_of_canonical(entries@);
        }
        Ok(Keybindings { entries })
    }

    /// Builds the key map from the `[keybindings]` table of the config,
    /// as `from_entries` does with the entries of the table in the order the
    /// table is walked.
    pub fn from_config(overrides: &HashMap<String, String>) -> (r: Result<Keybindings, BindingError>)
        ensures
            exists|es: Seq<(String, String)>| #[trigger]
                lists_map_entries(overrides@, es) && keybindings_result_view(r)
                    == from_entries_spec(entry_views(es)),
            r matches Ok(kb) ==> keys_canonical(kb@),
    {
        let entries = hash_map_entries(overrides);
        let r = Keybindings::from_entries(entries.as_slice());
        assert(lists_map_entries(overrides@, entries@));
        r
    }

    /// The display form of the shortest key bound to `action` (ties go to
    /// the lexicographically smallest), or `None` if no key is bound to it.
    pub fn hint_for(&self, action: Action) -> (r: Option<String>)
        ensures
            r is None <==> !exists|k: KeyCombo| #[trigger]
                self@.contains_key(k) && self@[k] == action,
            r matches Some(s) ==> is_hint(self@, action, s@),
            keys_canonical(self@),
    {
        proof {
            use_type_invariant(self);
            lemma_map_of(self.entries@);
            lemma_map_of_canonical(self.entries@);
        }
        let ghost s = self.entries@;
        let mut best: Option<String> = None;
        let mut i: usize = 0;
        while i < self.entries.len()
            invariant
                s == self.entries@,
                keys_unique(s),
                i <= s.len(),
                best is None <==> forall|j: int| 0 <= j < i ==> #[trigger] s[j].1 != action,
                best matches Some(b) ==> {
                    &&& exists|j: int|
                        0 <= j < i && #[trigger] s[j].1 == action && format_key_spec(s[j].0.0, s[j].0.1)
                            == b@
                    &&& forall|j: int|
                        0 <= j < i && #[trigger] s[j].1 == action ==> hint_le(
                            b@,
                            format_key_spec(s[j].0.0, s[j].0.1),
                        )
                },
            decreases s.len() - i,
        {
            let e = self.entries[i];
            if e.1 == action {
                let text = format_key(e.0.0, e.0.1);
                let replace = match &best {
                    None => true,
                    Some(b) => {
                        let before = hint_before(&text, b);
                        proof {
                            if !before {
                                lemma_hint_total(text@, b@);
                            }
                        }
                        before
                    },
                };
                let ghost old_best = best;
                if replace {
                    proof {
                        if let Some(b) = old_best {
                            assert forall|j: int|
                                0 <= j < i && #[trigger] s[j].1 == action implies hint_le(
                                text@,
                                format_key_spec(s[j].0.0, s[j].0.1),
                            ) by {
                                lemma_hint_transitive(
                                    text@,
                                    b@,
                                    format_key_spec(s[j].0.0, s[j].0.1),
                                );
                            }
                        }
                        lemma_hint_reflexive(text@);
                    }
                    best = Some(text);
                }
            }
            i = i + 1;
        }
        let ghost final_best = best;
        proof {
            if let Some(b) = final_best {
                let j = choose|j: int|
                    0 <= j < s.len() && #[trigger] s[j].1 == action && format_key_spec(
                        s[j].0.0,
                        s[j].0.1,
                    ) == b@;
                assert(map_of(s)[s[j].0] == s[j].1);
                assert(self@.contains_key(s[j].0));
                assert forall|k: KeyCombo| #[trigger]
                    self@.contains_key(k) && self@[k] == action implies hint_le(
                    b@,
                    format_key_spec(k.0, k.1),
                ) by {
                    let m = choose|m: int| 0 <= m < s.len() && #[trigger] s[m].0 == k;
                    assert(map_of(s)[s[m].0] == s[m].1);
                }
            } else {
                assert forall|k: KeyCombo| #[trigger]
                    self@.contains_key(k) implies self@[k] != action by {
                    let m = choose|m: int| 0 <= m < s.len() && #[trigger] s[m].0 == k;
                    assert(map_of(s)[s[m].0] == s[m].1);
                }
            }
        }
        best
    }

    /// Drops every binding of `action`.
    pub fn unbind_action(&mut self, action: Action)
        ensures
            final(self)@ == without_actions_spec(old(self)@, seq![action]),
            keys_canonical(final(self)@),
    {
        proof {
            use_type_invariant(&*self);
        }
        let mut actions: Vec<Action> = Vec::new();
        actions.push(action);
        assert(actions@ =~= seq![action]);
        let kept = without_actions(&self.entries, &actions);
        self.entries = kept;
        proof {
            use_type_invariant(&*self);
            lemma_map_of_canonical(self.entries@);
        }
    }
}

pub proof fn lemma_hint_reflexive(a: Seq<char>)
    ensures
        hint_le(a, a),
{
    lemma_lex_total(a, a);
}

pub proof fn lemma_hint_total(a: Seq<char>, b: Seq<char>)
    ensures
        hint_le(a, b) || hint_le(b, a),
{
    lemma_lex_total(a, b);
}

pub proof fn lemma_hint_transitive(a: Seq<char>, b: Seq<char>, c: Seq<char>)
    requires
        hint_le(a, b),
        hint_le(b, c),
    ensures
        hint_le(a, c),
{
    if text_byte_len(a) == text_byte_len(b) && text_byte_len(b) == text_byte_len(c) {
        lemma_lex_transitive(a, b, c);
    }
}

/// The default bindings.
fn default_entries() -> (r: Vec<KeyBinding>)
    ensures
        keys_unique(r@),
        all_normalized(r@),
        map_of(r@) == default_keymap(),
{
    let mut e: Vec<KeyBinding> = Vec::new();
    // Navigation
    bind(&mut e, KeyCode::Char('j'), KeyModifiers::none(), Action::MoveDown);
    bind(&mut e, KeyCode::Down, KeyModifiers::none(), Action::MoveDown);
    bind(&mut e, KeyCode::Tab, KeyModifiers::none(), Action::MoveDown);
    bind(&mut e, KeyCode::Char('k'), KeyModifiers::none(), Action::MoveUp);
    bind(&mut e, KeyCode::Up, KeyModifiers::none(), Action::MoveUp);
    // Terminal focus
    bind(&mut e, KeyCode::Enter, KeyModifiers::none(), Action::FocusTerminal);
    bind(&mut e, KeyCode::Char(' '), KeyModifiers::none(), Action::FocusTerminal);
    bind(&mut e, KeyCode::Char(' '), KeyModifiers::control(), Action::UnfocusTerminal);
    // Quit
    bind(&mut e, KeyCode::Char('q'), KeyModifiers::none(), Action::Quit);
    bind(&mut e, KeyCode::Char('c'), KeyModifiers::control(), Action::Quit);
    // Actions
    bind(&mut e, KeyCode::Char('n'), KeyModifiers::none(), Action::NewWorktree);
    bind(&mut e, KeyCode::Char('a'), KeyModifiers::shift(), Action::AddRepo);
    bind(&mut e, KeyCode::Char('e'), KeyModifiers::none(), Action::OpenEditor);
    bind(&mut e, KeyCode::Char('r'), KeyModifiers::none(), Action::Refresh);
    bind(&mut e, KeyCode::Char('d'), KeyModifiers::none(), Action::DeleteWorktree);
    e
}

impl Clone for Keybindings {
    /// A copy of the key map.
    fn clone(&self) -> (r: Self)
        ensures
            r@ == self@,
            keys_canonical(r@),
    {
        proof {
            use_type_invariant(self);
            lemma_map_of_canonical(self.entries@);
        }
        let mut entries: Vec<KeyBinding> = Vec::new();
        let mut i: usize = 0;
        while i < self.entries.len()
            invariant
                i <= self.entries@.len(),
                entries@ == self.entries@.subrange(0, i as int),
            decreases self.entries@.len() - i,
        {
            entries.push(self.entries[i]);
            i = i + 1;
            assert(entries@ =~= self.entries@.subrange(0, i as int));
        }
        assert(entries@ =~= self.entries@);
        Keybindings { entries }
    }
}

impl Default for Keybindings {
    /// The default key map: j/Down/Tab move down, k/Up move up, Enter and
    /// Space focus the terminal, Ctrl+Space leaves it, q and Ctrl+C quit,
    /// n new worktree, Shift+A add repo, e open editor, r refresh,
    /// d delete worktree.
    fn default() -> (r: Self)
        ensures
            r@ == default_keymap(),
            keys_canonical(r@),
    {
        let entries = default_entries();
        proof {
            lemma_map_of_canonical(entries@);
        }
        Keybindings { entries }
    }
}

} // verus!
