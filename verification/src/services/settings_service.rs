use vstd::prelude::*;

use crate::db::sql::{Db, SqlCall, SqlOutcome};

use crate::assoc::{get_value, lookup, set_value};
use crate::db::sql::{self, SqlValue};
use crate::error::AppResult;
use crate::text::{opt_view, str_eq};
use crate::json::{json_of_string_map, json_string_map, parse_string_map, string_map_to_json};
use crate::models::settings::{
    GLOBAL_SEARCH_ACTION,
    default_bindings, default_shortcuts_map, pairs_view, shortcut_actions, shortcut_table,
    action_matches, KeyboardShortcut,
};

verus! {

broadcast use crate::db::sql::group_calls;

pub const SHORTCUTS_KEY: &'static str = "keyboard_shortcuts";
pub const API_ENABLED_KEY: &'static str = "api_enabled";

/// The shortcut `s` shows action `t` bound as the saved bindings `saved` say:
/// the saved binding when there is one, else the default.
pub open spec fn resolved_shortcut(s: KeyboardShortcut, t: (Seq<char>, Seq<char>, Seq<char>, bool), saved: Seq<(Seq<char>, Seq<char>)>) -> bool {
    &&& s.action@ == t.0
    &&& s.binding@ == (match lookup(saved, t.0) { Some(b) => b, None => t.1 })
    &&& s.label@ == t.2
    &&& s.default_binding@ == t.1
    &&& s.is_global == t.3
}

/// Every action of the table, in order, bound as `saved` says.
pub open spec fn resolves_all(v: Seq<KeyboardShortcut>, saved: Seq<(Seq<char>, Seq<char>)>) -> bool {
    &&& v.len() == shortcut_table().len()
    &&& forall|i: int| 0 <= i < v.len() ==> resolved_shortcut(#[trigger] v[i], shortcut_table()[i], saved)
}

/// The saved bindings that a stored settings value stands for: the JSON
/// object it holds, or nothing when it holds none.
pub open spec fn saved_bindings(stored: Option<Seq<char>>) -> Seq<(Seq<char>, Seq<char>)> {
    match stored {
        Some(text) => match json_string_map(text) { Some(m) => m, None => Seq::empty() },
        None => Seq::empty(),
    }
}

/// The shortcut list for the saved bindings `saved`.
pub fn resolve_shortcuts(saved: &Vec<(String, String)>) -> (v: Vec<KeyboardShortcut>)
    ensures
        resolves_all(v@, pairs_view(saved@)),
{
    let actions = shortcut_actions();
    let mut v: Vec<KeyboardShortcut> = Vec::new();
    for i in 0..actions.len()
        invariant
            actions.len() == shortcut_table().len(),
            forall|j: int| 0 <= j < actions.len() ==> action_matches(#[trigger] actions[j], shortcut_table()[j]),
            v.len() == i,
            forall|j: int| 0 <= j < i ==> resolved_shortcut(#[trigger] v[j], shortcut_table()[j], pairs_view(saved@)),
    {
        let a = &actions[i];
        proof { assert(action_matches(actions[i as int], shortcut_table()[i as int])); }
        let binding = match get_value(saved, &a.action) {
            Some(b) => b,
            None => a.default_binding.clone(),
        };
        v.push(KeyboardShortcut {
            action: a.action.clone(),
            binding,
            label: a.label.clone(),
            default_binding: a.default_binding.clone(),
            is_global: a.is_global,
        });
    }
    v
}

/// Reads one setting.
pub const GET_SETTING_SQL: &'static str = "SELECT value FROM settings WHERE key = ?1";

/// Stores one setting, replacing its previous value.
pub const SET_SETTING_SQL: &'static str = "INSERT INTO settings (key, value) VALUES (?1, ?2) ON CONFLICT(key) DO UPDATE SET value = ?2";

/// Removes one setting.
pub const DELETE_SETTING_SQL: &'static str = "DELETE FROM settings WHERE key = ?1";

/// What a settings read answered: the stored text when a row came back,
/// nothing otherwise.
pub open spec fn setting_read(o: SqlOutcome) -> Option<Seq<char>> {
    match sql::first_row(o) {
        Some(row) => match row[0] {
            SqlValue::Text(t) => Some(t@),
            _ => None,
        },
        None => None,
    }
}

/// The read handed to SQLite for setting `key`, at position `i`, and whether
/// its answer could be read (no row, or a row whose value is text).
pub open spec fn reads_setting(calls: Seq<SqlCall>, i: int, key: Seq<char>) -> bool {
    sql::text_call(calls, i, GET_SETTING_SQL@, seq![key])
}

/// The answer of a settings read is usable: rows that each hold one text value.
pub open spec fn readable(o: SqlOutcome) -> bool {
    o matches SqlOutcome::Rows(rows) && sql::rows_fit(rows, seq![sql::Kind::Text])
}

/// The stored value of a setting, if any: one read of that key, answered as
/// SQLite answered it.
pub fn get_setting(conn: &mut Db, key: &str) -> (r: AppResult<Option<String>>)
    ensures
        sql::extends(old(conn).calls(), final(conn).calls()),
        r is Ok ==> sql::writes_ok(old(conn).calls(), final(conn).calls()),
        sql::all_met(old(conn).calls(), final(conn).calls()) ==> r is Ok,
        final(conn).calls().len() == old(conn).calls().len() + 1,
        reads_setting(final(conn).calls(), old(conn).calls().len() as int, key@),
        r is Ok <==> readable(final(conn).calls().last().outcome),
        r matches Ok(v) ==> opt_view(v) == setting_read(final(conn).calls().last().outcome),
{
    let mut params = Vec::new();
    params.push(sql::text_param(key));
    match sql::query_opt(conn, GET_SETTING_SQL, &params, &[sql::Kind::Text])? {
        Some(row) => Ok(Some(sql::col_text(&row, 0)?)),
        None => Ok(None),
    }
}

/// Stores a setting, replacing any previous value: one upsert of the key and value.
pub fn set_setting(conn: &mut Db, key: &str, value: &str) -> (r: AppResult<()>)
    ensures
        sql::extends(old(conn).calls(), final(conn).calls()),
        r is Ok ==> sql::writes_ok(old(conn).calls(), final(conn).calls()),
        sql::all_met(old(conn).calls(), final(conn).calls()) ==> r is Ok,
        final(conn).calls().len() == old(conn).calls().len() + 1,
        sql::text_call(final(conn).calls(), old(conn).calls().len() as int, SET_SETTING_SQL@, seq![key@, value@]),
        r is Ok <==> final(conn).calls().last().outcome is Changed,
{
    let mut params = Vec::new();
    params.push(sql::text_param(key));
    params.push(sql::text_param(value));
    sql::execute(conn, SET_SETTING_SQL, &params)?;
    Ok(())
}

/// Removes a setting; removing an absent one does nothing: one delete of the key.
pub fn delete_setting(conn: &mut Db, key: &str) -> (r: AppResult<()>)
    ensures
        sql::extends(old(conn).calls(), final(conn).calls()),
        r is Ok ==> sql::writes_ok(old(conn).calls(), final(conn).calls()),
        sql::all_met(old(conn).calls(), final(conn).calls()) ==> r is Ok,
        final(conn).calls().len() == old(conn).calls().len() + 1,
        sql::text_call(final(conn).calls(), old(conn).calls().len() as int, DELETE_SETTING_SQL@, seq![key@]),
        r is Ok <==> final(conn).calls().last().outcome is Changed,
{
    let mut params = Vec::new();
    params.push(sql::text_param(key));
    sql::execute(conn, DELETE_SETTING_SQL, &params)?;
    Ok(())
}

/// The saved bindings held by a stored settings value.
pub fn saved_bindings_of(stored: Option<String>) -> (m: Vec<(String, String)>)
    ensures
        pairs_view(m@) == saved_bindings(opt_view(stored)),
{
    match stored {
        Some(json) => match parse_string_map(json.as_str()) {
            Some(m) => m,
            None => Vec::new(),
        },
        None => Vec::new(),
    }
}

/// Every action with its binding: the saved one, or the default. One read
/// of the stored bindings; the list resolves what it answered.
pub fn get_keyboard_shortcuts(conn: &mut Db) -> (r: AppResult<Vec<KeyboardShortcut>>)
    ensures
        sql::extends(old(conn).calls(), final(conn).calls()),
        r is Ok ==> sql::writes_ok(old(conn).calls(), final(conn).calls()),
        sql::all_met(old(conn).calls(), final(conn).calls()) ==> r is Ok,
        final(conn).calls().len() == old(conn).calls().len() + 1,
        reads_setting(final(conn).calls(), old(conn).calls().len() as int, SHORTCUTS_KEY@),
        r is Ok <==> readable(final(conn).calls().last().outcome),
        r matches Ok(v) ==> resolves_all(v@, saved_bindings(setting_read(final(conn).calls().last().outcome))),
        r matches Ok(v) ==> exists|stored: Option<Seq<char>>| resolves_all(v@, #[trigger] saved_bindings(stored)),
{
    let stored = get_setting(conn, SHORTCUTS_KEY)?;
    let ghost g = opt_view(stored);
    let saved = saved_bindings_of(stored);
    let v = resolve_shortcuts(&saved);
    proof { assert(resolves_all(v@, saved_bindings(g))); }
    Ok(v)
}

/// The bindings to store when `action` is rebound to `binding`, starting from
/// what is stored: the stored object (or nothing, when it is unreadable), or
/// the defaults when nothing is stored.
pub open spec fn rebound(stored: Option<Seq<char>>, action: Seq<char>, binding: Seq<char>) -> Seq<(Seq<char>, Seq<char>)> {
    let base = match stored {
        Some(text) => match json_string_map(text) { Some(m) => m, None => Seq::empty() },
        None => default_bindings(),
    };
    crate::assoc::insert_entry(base, action, binding)
}

/// The bindings after rebinding `action`, given what is stored.
pub fn rebind(stored: Option<String>, action: &str, binding: &str) -> (m: Vec<(String, String)>)
    ensures
        pairs_view(m@) == rebound(opt_view(stored), action@, binding@),
{
    let mut map = match stored {
        Some(json) => match parse_string_map(json.as_str()) {
            Some(m) => m,
            None => Vec::new(),
        },
        None => default_shortcuts_map(),
    };
    set_value(&mut map, action.to_string(), binding.to_string());
    map
}

/// Rebinds one action, stores every binding, and returns the shortcut list:
/// it reads the stored bindings, writes them back with `action` bound to
/// `binding` (as `rebound` says), and reads the list again.
pub fn update_shortcut(conn: &mut Db, action: &str, binding: &str) -> (r: AppResult<Vec<KeyboardShortcut>>)
    ensures
        sql::extends(old(conn).calls(), final(conn).calls()),
        r is Ok ==> sql::writes_ok(old(conn).calls(), final(conn).calls()),
        sql::all_met(old(conn).calls(), final(conn).calls()) ==> r is Ok,
        reads_setting(final(conn).calls(), old(conn).calls().len() as int, SHORTCUTS_KEY@),
        r is Ok ==> {
            let n = old(conn).calls().len() as int;
            let calls = final(conn).calls();
            &&& calls.len() == n + 3
            &&& readable(calls[n].outcome)
            &&& sql::text_call(calls, n + 1, SET_SETTING_SQL@, seq![SHORTCUTS_KEY@,
                json_of_string_map(rebound(setting_read(calls[n].outcome), action@, binding@))])
            &&& calls[n + 1].outcome is Changed
            &&& reads_setting(calls, n + 2, SHORTCUTS_KEY@)
        },
        r matches Ok(v) ==> resolves_all(v@, saved_bindings(setting_read(final(conn).calls().last().outcome))),
        r matches Ok(v) ==> exists|stored: Option<Seq<char>>| resolves_all(v@, #[trigger] saved_bindings(stored)),
{
    let ghost n = conn.calls().len() as int;
    let stored = get_setting(conn, SHORTCUTS_KEY)?;
    let ghost c1 = conn.calls();
    let map = rebind(stored, action, binding);
    let json = string_map_to_json(&map);
    set_setting(conn, SHORTCUTS_KEY, json.as_str())?;
    let ghost c2 = conn.calls();
    let r = get_keyboard_shortcuts(conn);
    proof {
        assert(conn.calls()[n] == c1[n]);
        assert(conn.calls()[n + 1] == c2[n + 1]);
    }
    r
}

/// Forgets every saved binding and returns the default shortcut list: it
/// deletes the stored bindings, then reads the list again.
pub fn reset_shortcuts(conn: &mut Db) -> (r: AppResult<Vec<KeyboardShortcut>>)
    ensures
        sql::extends(old(conn).calls(), final(conn).calls()),
        r is Ok ==> sql::writes_ok(old(conn).calls(), final(conn).calls()),
        sql::all_met(old(conn).calls(), final(conn).calls()) ==> r is Ok,
        sql::text_call(final(conn).calls(), old(conn).calls().len() as int, DELETE_SETTING_SQL@, seq![SHORTCUTS_KEY@]),
        r is Ok ==> final(conn).calls().len() == old(conn).calls().len() + 2
            && reads_setting(final(conn).calls(), old(conn).calls().len() + 1int, SHORTCUTS_KEY@),
        r matches Ok(v) ==> exists|stored: Option<Seq<char>>| resolves_all(v@, #[trigger] saved_bindings(stored)),
{
    delete_setting(conn, SHORTCUTS_KEY)?;
    get_keyboard_shortcuts(conn)
}

/// Whether the local API should run: true exactly when the stored flag is "true".
pub fn get_api_enabled(conn: &mut Db) -> (r: AppResult<bool>)
    ensures
        sql::extends(old(conn).calls(), final(conn).calls()),
        r is Ok ==> sql::writes_ok(old(conn).calls(), final(conn).calls()),
        sql::all_met(old(conn).calls(), final(conn).calls()) ==> r is Ok,
        final(conn).calls().len() == old(conn).calls().len() + 1,
        reads_setting(final(conn).calls(), old(conn).calls().len() as int, API_ENABLED_KEY@),
        r is Ok <==> readable(final(conn).calls().last().outcome),
        r matches Ok(b) ==> b == (setting_read(final(conn).calls().last().outcome) == Some("true"@)),
{
    match get_setting(conn, API_ENABLED_KEY)? {
        Some(value) => Ok(str_eq(value.as_str(), "true")),
        None => Ok(false),
    }
}

/// Stores whether the local API should run; disabling removes the flag.
pub fn set_api_enabled(conn: &mut Db, enabled: bool) -> (r: AppResult<()>)
    ensures
        sql::extends(old(conn).calls(), final(conn).calls()),
        r is Ok ==> sql::writes_ok(old(conn).calls(), final(conn).calls()),
        sql::all_met(old(conn).calls(), final(conn).calls()) ==> r is Ok,
        final(conn).calls().len() == old(conn).calls().len() + 1,
        enabled ==> sql::text_call(final(conn).calls(), old(conn).calls().len() as int, SET_SETTING_SQL@, seq![API_ENABLED_KEY@, "true"@]),
        !enabled ==> sql::text_call(final(conn).calls(), old(conn).calls().len() as int, DELETE_SETTING_SQL@, seq![API_ENABLED_KEY@]),
        r is Ok <==> final(conn).calls().last().outcome is Changed,
{
    if enabled {
        set_setting(conn, API_ENABLED_KEY, "true")
    } else {
        delete_setting(conn, API_ENABLED_KEY)
    }
}

/// The binding of the first shortcut for the global search action, if any.
pub open spec fn global_binding_of(v: Seq<KeyboardShortcut>) -> Option<Seq<char>> {
    if exists|i: int| 0 <= i < v.len() && v[i].action@ == GLOBAL_SEARCH_ACTION@ {
        let i = choose|i: int| 0 <= i < v.len() && v[i].action@ == GLOBAL_SEARCH_ACTION@
            && forall|j: int| 0 <= j < i ==> v[j].action@ != GLOBAL_SEARCH_ACTION@;
        Some(v[i].binding@)
    } else {
        None
    }
}

/// The binding the global search shortcut is registered with: the first
/// one listed for the global search action.
pub fn global_search_binding(shortcuts: &Vec<KeyboardShortcut>) -> (r: Option<String>)
    ensures
        match r {
            Some(b) => global_binding_of(shortcuts@) == Some(b@),
            None => global_binding_of(shortcuts@) is None,
        },
{
    for i in 0..shortcuts.len()
        invariant
            forall|j: int| 0 <= j < i ==> shortcuts@[j].action@ != GLOBAL_SEARCH_ACTION@,
    {
        if str_eq(shortcuts[i].action.as_str(), GLOBAL_SEARCH_ACTION) {
            proof {
                let v = shortcuts@;
                let c = choose|k: int| 0 <= k < v.len() && v[k].action@ == GLOBAL_SEARCH_ACTION@
                    && forall|j: int| 0 <= j < k ==> v[j].action@ != GLOBAL_SEARCH_ACTION@;
                assert(v[i as int].action@ == GLOBAL_SEARCH_ACTION@);
                if c < i { assert(v[c].action@ != GLOBAL_SEARCH_ACTION@); }
                if c > i { assert(v[i as int].action@ != GLOBAL_SEARCH_ACTION@); }
            }
            return Some(shortcuts[i].binding.clone());
        }
    }
    None
}

/// Rebinding an action stores exactly the new binding for it, and leaves the
/// stored binding of every other action as it was before (the defaults, when
/// nothing was stored).
pub proof fn lemma_rebind_sets_only_that_action(stored: Option<Seq<char>>, action: Seq<char>, binding: Seq<char>, other: Seq<char>)
    ensures
        lookup(rebound(stored, action, binding), action) == Some(binding),
        other != action ==> lookup(rebound(stored, action, binding), other) == lookup(
            match stored {
                Some(text) => match json_string_map(text) { Some(m) => m, None => Seq::empty() },
                None => default_bindings(),
            },
            other,
        ),
{
    let base = match stored {
        Some(text) => match json_string_map(text) { Some(m) => m, None => Seq::empty() },
        None => default_bindings(),
    };
    crate::assoc::lemma_lookup_insert_same(base, action, binding);
    if other != action {
        crate::assoc::lemma_lookup_insert_other(base, action, binding, other);
    }
}

/// A shortcut list resolved from saved bindings shows each action with its
/// saved binding; with nothing saved, every action shows its default.
pub proof fn lemma_resolved_bindings(v: Seq<KeyboardShortcut>, saved: Seq<(Seq<char>, Seq<char>)>, i: int)
    requires
        resolves_all(v, saved),
        0 <= i < v.len(),
    ensures
        lookup(saved, shortcut_table()[i].0) matches Some(b) ==> v[i].binding@ == b,
        lookup(saved, shortcut_table()[i].0) is None ==> v[i].binding@ == v[i].default_binding@,
        saved.len() == 0 ==> v[i].binding@ == shortcut_table()[i].1,
{
    assert(resolved_shortcut(v[i], shortcut_table()[i], saved));
    if saved.len() == 0 {
        assert(!exists|j: int| 0 <= j < saved.len() && saved[j].0 == shortcut_table()[i].0);
    }
}

}
