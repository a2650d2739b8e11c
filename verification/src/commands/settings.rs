//! The assistant's hook settings: the `hooks.PreToolUse` list of
//! `settings.json`, from which every entry that runs this tool's rewrite hook
//! is dropped before one such entry is added at its end.

use vstd::prelude::*;
use crate::commands::init::hook_registration;
use crate::json::{
    Json, JsonView, json_view, opt_json_view, parse_json, render_json, serde_json_parse,
    serde_json_pretty, items_view, members_view, member_pos, member, at, members_of, with_member,
    assignable, lemma_view, lemma_view_array, lemma_member_pos, lemma_member_pos_is, find_member,
    get_member,
};
use crate::storage::config::same_text;
use crate::text::{chars_of, contains_chars, has_infix};

verus! {

// ---------------------------------------------------------------------------
// The rewrite.
// ---------------------------------------------------------------------------

/// Whether a hook runs this tool's rewrite hook: its `type` is `"command"` and
/// its `command` holds `aureus-rewrite`.
pub open spec fn is_rewrite_hook(h: JsonView) -> bool {
    &&& member(h, "type"@) matches Some(JsonView::Str(t)) && t == "command"@
    &&& member(h, "command"@) matches Some(JsonView::Str(c)) && has_infix(c, "aureus-rewrite"@)
}

/// Whether a settings entry has a `hooks` array that holds the rewrite hook.
pub open spec fn is_rewrite_entry(e: JsonView) -> bool {
    member(e, "hooks"@) matches Some(JsonView::Array(hs)) && exists|i: int|
        0 <= i < hs.len() && is_rewrite_hook(#[trigger] hs[i])
}

/// The entries that do not run the rewrite hook, in their order.
pub open spec fn kept_entries(s: Seq<JsonView>) -> Seq<JsonView>
    decreases s.len(),
{
    if s.len() == 0 {
        s
    } else if is_rewrite_entry(s.last()) {
        kept_entries(s.drop_last())
    } else {
        kept_entries(s.drop_last()).push(s.last())
    }
}

/// The entry that runs the hook: `{"matcher": M, "hooks": [{"type":
/// "command", "command": "~/AGENT_DIR/hooks/FILE"}]}`, with `M` `Command` on
/// Windows and `Bash` elsewhere.
pub open spec fn hook_entry(is_windows: bool, agent_dir: Seq<char>, file: Seq<char>) -> JsonView {
    JsonView::Object(
        seq![
            ("matcher"@, JsonView::Str(if is_windows { "Command"@ } else { "Bash"@ })),
            (
                "hooks"@,
                JsonView::Array(
                    seq![
                        JsonView::Object(
                            seq![
                                ("type"@, JsonView::Str("command"@)),
                                (
                                    "command"@,
                                    JsonView::Str("~/"@ + agent_dir + "/hooks/"@ + file),
                                ),
                            ],
                        ),
                    ],
                ),
            ),
        ],
    )
}

/// The settings to start from: those read, or `{}` when there are none.
pub open spec fn base_settings(settings: Option<JsonView>) -> JsonView {
    match settings {
        Some(v) => v,
        None => JsonView::Object(Seq::empty()),
    }
}

/// `settings["hooks"]["PreToolUse"]`.
pub open spec fn pre_tool_use(s: JsonView) -> JsonView {
    at(at(s, "hooks"@), "PreToolUse"@)
}

/// The hook list of the settings: `hooks.PreToolUse` when it is an array,
/// otherwise the empty list that takes its place.
pub open spec fn hook_list(s: JsonView) -> Seq<JsonView> {
    match pre_tool_use(s) {
        JsonView::Array(a) => a,
        _ => Seq::empty(),
    }
}

/// The settings with `hooks.PreToolUse` set to the list `l`.
pub open spec fn with_hook_list(s: JsonView, l: Seq<JsonView>) -> JsonView {
    with_member(s, "hooks"@, with_member(at(s, "hooks"@), "PreToolUse"@, JsonView::Array(l)))
}

/// Whether the hook list can be put in place: it is an array already, or the
/// settings and their `hooks` are objects or `null` (a missing `hooks` reads
/// as `null`). Elsewhere indexing by key cannot assign.
pub open spec fn takes_hook_list(settings: Option<JsonView>) -> bool {
    let s = base_settings(settings);
    pre_tool_use(s) is Array || (assignable(s) && assignable(at(s, "hooks"@)))
}

/// The settings after the hook is registered: the entries of the hook list
/// that do not run the rewrite hook, then the hook's own entry; everything
/// else as it was.
pub open spec fn spec_updated_settings(
    settings: Option<JsonView>,
    is_windows: bool,
    agent_dir: Seq<char>,
    file: Seq<char>,
) -> JsonView {
    let s = base_settings(settings);
    with_hook_list(s, kept_entries(hook_list(s)).push(hook_entry(is_windows, agent_dir, file)))
}

/// The text of the settings file after the hook is registered, from the text
/// read (`None` when there is no file); text that is not JSON counts as `{}`.
/// `None` where the hook list cannot be put in place or the result cannot be
/// written.
pub open spec fn spec_rewritten_settings(
    text: Option<Seq<char>>,
    is_windows: bool,
    agent_dir: Seq<char>,
    file: Seq<char>,
) -> Option<Seq<char>> {
    let parsed = match text {
        Some(t) => serde_json_parse(t),
        None => None,
    };
    if takes_hook_list(parsed) {
        serde_json_pretty(spec_updated_settings(parsed, is_windows, agent_dir, file))
    } else {
        None
    }
}

// ---------------------------------------------------------------------------
// Lemmas.
// ---------------------------------------------------------------------------

/// After `v[k] = x`, the member named `k` is `x`.
proof fn lemma_with_member_same(v: JsonView, k: Seq<char>, x: JsonView)
    ensures
        member(with_member(v, k, x), k) == Some(x),
{
    let o = members_of(v);
    lemma_member_pos(o, k);
    let i = member_pos(o, k) as int;
    let w = members_of(with_member(v, k, x));
    if i < o.len() {
        lemma_member_pos_is(w, k, i);
    } else {
        lemma_member_pos_is(w, k, i);
    }
}

/// After `v[k] = x`, every other member is as in `v`.
proof fn lemma_with_member_other(v: JsonView, k: Seq<char>, x: JsonView, k2: Seq<char>)
    requires
        k2 != k,
    ensures
        member(with_member(v, k, x), k2) == member(JsonView::Object(members_of(v)), k2),
        v is Object ==> member(with_member(v, k, x), k2) == member(v, k2),
{
    let o = members_of(v);
    lemma_member_pos(o, k);
    lemma_member_pos(o, k2);
    let i = member_pos(o, k) as int;
    let p = member_pos(o, k2) as int;
    let w = members_of(with_member(v, k, x));
    if p < o.len() {
        assert(w[p].0 == k2);
        lemma_member_pos_is(w, k2, p);
    } else {
        lemma_member_pos_is(w, k2, w.len() as int);
    }
}

/// Setting a member to the value it has changes nothing.
proof fn lemma_with_member_unchanged(v: JsonView, k: Seq<char>, x: JsonView)
    requires
        v is Object,
        member(v, k) == Some(x),
    ensures
        with_member(v, k, x) == v,
{
    let o = members_of(v);
    lemma_member_pos(o, k);
    let i = member_pos(o, k) as int;
    assert(o.update(i, (k, x)) =~= o);
}

/// The kept entries run no rewrite hook, and keeping them again changes nothing.
proof fn lemma_kept_entries(s: Seq<JsonView>)
    ensures
        forall|i: int|
            0 <= i < kept_entries(s).len() ==> !is_rewrite_entry(#[trigger] kept_entries(s)[i]),
        kept_entries(kept_entries(s)) == kept_entries(s),
    decreases s.len(),
{
    if s.len() > 0 {
        lemma_kept_entries(s.drop_last());
        let k = kept_entries(s.drop_last());
        if !is_rewrite_entry(s.last()) {
            let kk = k.push(s.last());
            assert(kk.drop_last() =~= k);
            assert(kk.last() == s.last());
        }
    }
}

/// A list with no rewrite entry, then one: keeping its entries gives the list
/// without the last.
proof fn lemma_kept_then_entry(k: Seq<JsonView>, e: JsonView)
    requires
        forall|i: int| 0 <= i < k.len() ==> !is_rewrite_entry(#[trigger] k[i]),
        is_rewrite_entry(e),
    ensures
        kept_entries(k.push(e)) == k,
    decreases k.len(),
{
    assert(k.push(e).drop_last() =~= k);
    lemma_kept_of_clean(k);
}

/// Keeping the entries of a list with no rewrite entry gives the list.
proof fn lemma_kept_of_clean(k: Seq<JsonView>)
    requires
        forall|i: int| 0 <= i < k.len() ==> !is_rewrite_entry(#[trigger] k[i]),
    ensures
        kept_entries(k) == k,
    decreases k.len(),
{
    if k.len() > 0 {
        let d = k.drop_last();
        assert forall|i: int| 0 <= i < d.len() implies !is_rewrite_entry(#[trigger] d[i]) by {
            assert(d[i] == k[i]);
        }
        lemma_kept_of_clean(d);
        assert(!is_rewrite_entry(k[k.len() - 1]));
        assert(d.push(k.last()) =~= k);
    }
}

/// `w` occurs in `a + b` when it occurs in `b`.
proof fn lemma_infix_suffix(a: Seq<char>, b: Seq<char>, w: Seq<char>)
    requires
        has_infix(b, w),
    ensures
        has_infix(a + b, w),
{
    let i = choose|i: int| 0 <= i && i + w.len() <= b.len() && #[trigger] b.subrange(i, i + w.len()) == w;
    let j = i + a.len();
    assert((a + b).subrange(j, j + w.len()) =~= b.subrange(i, i + w.len()));
}

/// The hook's entry runs the rewrite hook when the hook file's name holds
/// `aureus-rewrite`.
proof fn lemma_hook_entry_is_rewrite(is_windows: bool, agent_dir: Seq<char>, file: Seq<char>)
    requires
        has_infix(file, "aureus-rewrite"@),
    ensures
        is_rewrite_entry(hook_entry(is_windows, agent_dir, file)),
{
    reveal_strlit("matcher");
    reveal_strlit("hooks");
    reveal_strlit("type");
    reveal_strlit("command");
    let path = "~/"@ + agent_dir + "/hooks/"@ + file;
    lemma_infix_suffix("~/"@ + agent_dir + "/hooks/"@, file, "aureus-rewrite"@);
    let h = JsonView::Object(
        seq![("type"@, JsonView::Str("command"@)), ("command"@, JsonView::Str(path))],
    );
    let hm = members_of(h);
    lemma_member_pos_is(hm, "type"@, 0);
    assert(hm[0].0 != "command"@) by {
        assert(hm[0].0.len() == 4);
        assert("command"@.len() == 7);
    }
    lemma_member_pos_is(hm, "command"@, 1);
    assert(is_rewrite_hook(h));
    let e = hook_entry(is_windows, agent_dir, file);
    let em = members_of(e);
    assert(em[0].0 != "hooks"@) by {
        assert(em[0].0.len() == 7);
        assert("hooks"@.len() == 5);
    }
    lemma_member_pos_is(em, "hooks"@, 1);
    match member(e, "hooks"@) {
        Some(JsonView::Array(hs)) => {
            assert(hs[0] == h);
        },
        _ => {},
    }
}

/// What the updated settings hold: the hook list is the kept entries and the
/// hook's entry; `hooks` is an object, and the settings are one.
proof fn lemma_updated_parts(settings: Option<JsonView>, is_windows: bool, agent_dir: Seq<char>, file: Seq<char>)
    ensures
        ({
            let s = base_settings(settings);
            let r = spec_updated_settings(settings, is_windows, agent_dir, file);
            let l = kept_entries(hook_list(s)).push(hook_entry(is_windows, agent_dir, file));
            &&& r is Object
            &&& member(r, "hooks"@) == Some(with_member(at(s, "hooks"@), "PreToolUse"@, JsonView::Array(l)))
            &&& at(r, "hooks"@) is Object
            &&& pre_tool_use(r) == JsonView::Array(l)
            &&& hook_list(r) == l
        }),
{
    let s = base_settings(settings);
    let l = kept_entries(hook_list(s)).push(hook_entry(is_windows, agent_dir, file));
    let h = with_member(at(s, "hooks"@), "PreToolUse"@, JsonView::Array(l));
    lemma_with_member_same(s, "hooks"@, h);
    lemma_with_member_same(at(s, "hooks"@), "PreToolUse"@, JsonView::Array(l));
}

// ---------------------------------------------------------------------------
// Laws.
// ---------------------------------------------------------------------------

/// Registering the hook a second time changes nothing, when the hook file's
/// name holds `aureus-rewrite` (as both hook files do).
pub proof fn law_settings_update_idempotent(
    settings: Option<JsonView>,
    is_windows: bool,
    agent_dir: Seq<char>,
    file: Seq<char>,
)
    requires
        has_infix(file, "aureus-rewrite"@),
    ensures
        takes_hook_list(Some(spec_updated_settings(settings, is_windows, agent_dir, file))),
        spec_updated_settings(
            Some(spec_updated_settings(settings, is_windows, agent_dir, file)),
            is_windows,
            agent_dir,
            file,
        ) == spec_updated_settings(settings, is_windows, agent_dir, file),
{
    let s = base_settings(settings);
    let e = hook_entry(is_windows, agent_dir, file);
    let k = kept_entries(hook_list(s));
    let l = k.push(e);
    let r = spec_updated_settings(settings, is_windows, agent_dir, file);
    lemma_updated_parts(settings, is_windows, agent_dir, file);
    lemma_kept_entries(hook_list(s));
    lemma_hook_entry_is_rewrite(is_windows, agent_dir, file);
    lemma_kept_then_entry(k, e);
    assert(kept_entries(hook_list(r)).push(e) == l);
    let h = at(r, "hooks"@);
    lemma_with_member_same(at(s, "hooks"@), "PreToolUse"@, JsonView::Array(l));
    lemma_with_member_unchanged(h, "PreToolUse"@, JsonView::Array(l));
    lemma_with_member_unchanged(r, "hooks"@, h);
}

/// Registering the hook keeps every other setting: each member of the
/// settings other than `hooks`, and each member of `hooks` other than
/// `PreToolUse`, reads as before.
pub proof fn law_settings_update_keeps_others(
    settings: Option<JsonView>,
    is_windows: bool,
    agent_dir: Seq<char>,
    file: Seq<char>,
    k: Seq<char>,
)
    requires
        takes_hook_list(settings),
    ensures
        k != "hooks"@ ==> member(spec_updated_settings(settings, is_windows, agent_dir, file), k)
            == member(base_settings(settings), k),
        k != "PreToolUse"@ ==> member(
            at(spec_updated_settings(settings, is_windows, agent_dir, file), "hooks"@),
            k,
        ) == member(at(base_settings(settings), "hooks"@), k),
{
    let s = base_settings(settings);
    let l = kept_entries(hook_list(s)).push(hook_entry(is_windows, agent_dir, file));
    let h0 = at(s, "hooks"@);
    let h = with_member(h0, "PreToolUse"@, JsonView::Array(l));
    lemma_updated_parts(settings, is_windows, agent_dir, file);
    if k != "hooks"@ {
        lemma_with_member_other(s, "hooks"@, h, k);
        if !(s is Object) {
            assert(member(s, k) is None);
            assert(members_of(s) == Seq::<(Seq<char>, JsonView)>::empty());
        }
    }
    if k != "PreToolUse"@ {
        lemma_with_member_other(h0, "PreToolUse"@, JsonView::Array(l), k);
        if !(h0 is Object) {
            assert(member(h0, k) is None);
            assert(members_of(h0) == Seq::<(Seq<char>, JsonView)>::empty());
        }
    }
}

/// After the hook is registered, the hook list holds the entries that did not
/// run the rewrite hook, in their order, and then the hook's entry, which is
/// the one entry that runs it (when the hook file's name holds
/// `aureus-rewrite`).
pub proof fn law_settings_hook_once(
    settings: Option<JsonView>,
    is_windows: bool,
    agent_dir: Seq<char>,
    file: Seq<char>,
)
    requires
        has_infix(file, "aureus-rewrite"@),
    ensures
        ({
            let l = hook_list(spec_updated_settings(settings, is_windows, agent_dir, file));
            &&& l == kept_entries(hook_list(base_settings(settings))).push(
                hook_entry(is_windows, agent_dir, file),
            )
            &&& is_rewrite_entry(l.last())
            &&& forall|i: int| 0 <= i < l.len() - 1 ==> !is_rewrite_entry(#[trigger] l[i])
        }),
{
    let s = base_settings(settings);
    let k = kept_entries(hook_list(s));
    lemma_updated_parts(settings, is_windows, agent_dir, file);
    lemma_kept_entries(hook_list(s));
    lemma_hook_entry_is_rewrite(is_windows, agent_dir, file);
    let l = k.push(hook_entry(is_windows, agent_dir, file));
    assert forall|i: int| 0 <= i < l.len() - 1 implies !is_rewrite_entry(#[trigger] l[i]) by {
        assert(l[i] == k[i]);
    }
}

/// Whether a hook is a command hook whose command contains `aureus-rewrite`.
pub open spec fn is_rewrite_command(h: JsonView) -> bool {
    &&& member(h, "type"@) == Some(JsonView::Str("command"@))
    &&& (member(h, "command"@) matches Some(JsonView::Str(c)) && has_infix(c, "aureus-rewrite"@))
}

/// Whether an entry holds no command hook whose command contains
/// `aureus-rewrite`, read from its members directly.
pub open spec fn keeps_no_rewrite_command(e: JsonView) -> bool {
    match member(e, "hooks"@) {
        Some(JsonView::Array(hs)) => forall|i: int| 0 <= i < hs.len() ==> !is_rewrite_command(#[trigger] hs[i]),
        _ => true,
    }
}

proof fn lemma_kept_is_filter(s: Seq<JsonView>)
    ensures
        kept_entries(s) == s.filter(|e: JsonView| keeps_no_rewrite_command(e)),
    decreases s.len(),
{
    reveal(Seq::filter);
    if s.len() > 0 {
        lemma_kept_is_filter(s.drop_last());
        let e = s.last();
        assert(keeps_no_rewrite_command(e) == !is_rewrite_entry(e)) by {
            match member(e, "hooks"@) {
                Some(JsonView::Array(hs)) => {
                    if is_rewrite_entry(e) {
                        let i = choose|i: int| 0 <= i < hs.len() && is_rewrite_hook(#[trigger] hs[i]);
                        assert(is_rewrite_command(hs[i]));
                    }
                    if !keeps_no_rewrite_command(e) {
                        let i = choose|i: int| 0 <= i < hs.len() && is_rewrite_command(#[trigger] hs[i]);
                        assert(is_rewrite_hook(hs[i]));
                    }
                },
                _ => {},
            }
        }
    }
}

/// Registering the hook keeps, in their order, every entry of the old
/// `hooks.PreToolUse` list (an empty list when it is not an array) that holds
/// no command hook whose command contains `aureus-rewrite`, whatever its
/// matcher, drops every other entry, and adds the hook's entry at the end.
pub proof fn law_settings_keep_foreign_entries(
    settings: Option<JsonView>,
    is_windows: bool,
    agent_dir: Seq<char>,
    file: Seq<char>,
)
    ensures
        ({
            let s = match settings {
                Some(v) => v,
                None => JsonView::Object(Seq::empty()),
            };
            let before = match at(at(s, "hooks"@), "PreToolUse"@) {
                JsonView::Array(a) => a,
                _ => Seq::empty(),
            };
            let r = spec_updated_settings(settings, is_windows, agent_dir, file);
            at(at(r, "hooks"@), "PreToolUse"@) == JsonView::Array(
                before.filter(|e: JsonView| keeps_no_rewrite_command(e)).push(
                    hook_entry(is_windows, agent_dir, file),
                ),
            )
        }),
{
    lemma_updated_parts(settings, is_windows, agent_dir, file);
    let s = base_settings(settings);
    lemma_kept_is_filter(hook_list(s));
}

// ---------------------------------------------------------------------------
// Executable functions.
// ---------------------------------------------------------------------------

/// Replacing the member at `i` by removing it and inserting another there.
proof fn lemma_members_replace(
    before: Seq<(String, Json)>,
    after: Seq<(String, Json)>,
    i: int,
    p: (String, Json),
)
    requires
        0 <= i < before.len(),
        after == before.remove(i).insert(i, p),
    ensures
        members_view(after) == members_view(before).update(i, (p.0@, json_view(p.1))),
{
    assert(members_view(after) =~= members_view(before).update(i, (p.0@, json_view(p.1))));
}

/// Adding a member at the end.
proof fn lemma_members_push(before: Seq<(String, Json)>, p: (String, Json))
    ensures
        members_view(before.push(p)) == members_view(before).push((p.0@, json_view(p.1))),
{
    assert(members_view(before.push(p)) =~= members_view(before).push((p.0@, json_view(p.1))));
}

fn hook_is_rewrite(h: &Json) -> (r: bool)
    ensures
        r == is_rewrite_hook(h@),
{
    let type_ok = match get_member(h, "type") {
        Some(Json::Str(t)) => same_text(t.as_str(), "command"),
        _ => false,
    };
    let command_ok = match get_member(h, "command") {
        Some(Json::Str(c)) => contains_chars(&chars_of(c.as_str()), &chars_of("aureus-rewrite")),
        _ => false,
    };
    type_ok && command_ok
}

/// Whether a settings entry runs this tool's rewrite hook.
pub fn entry_runs_rewrite_hook(e: &Json) -> (r: bool)
    ensures
        r == is_rewrite_entry(e@),
{
    let found = get_member(e, "hooks");
    match found {
        Some(x) => {
            proof {
                lemma_view(*x);
            }
            match x {
                Json::Array(hs) => {
                    let ghost items = items_view(hs@);
                    let mut i: usize = 0;
                    while i < hs.len()
                        invariant
                            i <= hs@.len(),
                            items == items_view(hs@),
                            member(e@, "hooks"@) == Some(JsonView::Array(items)),
                            forall|j: int| 0 <= j < i ==> !is_rewrite_hook(#[trigger] items[j]),
                        decreases hs@.len() - i,
                    {
                        assert(items[i as int] == hs@[i as int]@);
                        if hook_is_rewrite(&hs[i]) {
                            assert(is_rewrite_hook(items[i as int]));
                            assert(exists|j: int| 0 <= j < items.len() && is_rewrite_hook(#[trigger] items[j]));
                            assert(member(e@, "hooks"@) == Some(JsonView::Array(items)));
                            assert(member(e@, "hooks"@) matches Some(JsonView::Array(h2)) && h2 == items);
                            assert(is_rewrite_entry(e@));
                            return true;
                        }
                        i = i + 1;
                    }
                    false
                },
                _ => false,
            }
        },
        None => false,
    }
}

/// Whether the hook list can be put in place in `settings` (`None`: there
/// are no settings yet).
pub fn settings_take_hook_list(settings: &Option<Json>) -> (r: bool)
    ensures
        r == takes_hook_list(opt_json_view(*settings)),
{
    match settings {
        None => true,
        Some(s) => {
            let hooks = get_member(s, "hooks");
            let list_is_array = match hooks {
                Some(h) => match get_member(h, "PreToolUse") {
                    Some(Json::Array(_)) => true,
                    _ => false,
                },
                None => false,
            };
            if list_is_array {
                return true;
            }
            let settings_ok = match s {
                Json::Object(_) => true,
                Json::Null => true,
                _ => false,
            };
            let hooks_ok = match hooks {
                None => true,
                Some(Json::Object(_)) => true,
                Some(Json::Null) => true,
                _ => false,
            };
            settings_ok && hooks_ok
        },
    }
}

/// The entry that runs the hook.
fn new_hook_entry(is_windows: bool, agent_dir: &str, hook_filename: &str) -> (r: Json)
    ensures
        r@ == hook_entry(is_windows, agent_dir@, hook_filename@),
{
    let (matcher, path) = hook_registration(is_windows, agent_dir, hook_filename);
    let mut hook: Vec<(String, Json)> = Vec::new();
    hook.push(("type".to_string(), Json::Str("command".to_string())));
    hook.push(("command".to_string(), Json::Str(path)));
    let hook_obj = Json::Object(hook);
    let mut hooks: Vec<Json> = Vec::new();
    hooks.push(hook_obj);
    let mut entry: Vec<(String, Json)> = Vec::new();
    entry.push(("matcher".to_string(), Json::Str(matcher.to_string())));
    let hooks_arr = Json::Array(hooks);
    entry.push(("hooks".to_string(), hooks_arr));
    let r = Json::Object(entry);
    proof {
        lemma_view(hook_obj);
        lemma_view(hooks_arr);
        lemma_view(r);
        assert(hook_obj@ == JsonView::Object(
            seq![
                ("type"@, JsonView::Str("command"@)),
                ("command"@, JsonView::Str("~/"@ + agent_dir@ + "/hooks/"@ + hook_filename@)),
            ],
        )) by {
            assert(members_view(hook@) =~= seq![
                ("type"@, JsonView::Str("command"@)),
                ("command"@, JsonView::Str("~/"@ + agent_dir@ + "/hooks/"@ + hook_filename@)),
            ]);
        }
        assert(items_view(hooks@) =~= seq![hook_obj@]);
        assert(members_view(entry@) =~= members_of(hook_entry(is_windows, agent_dir@, hook_filename@)));
    }
    r
}

/// The entries of `list` that do not run the rewrite hook, in their order.
fn kept_hook_entries(list: Vec<Json>) -> (r: Vec<Json>)
    ensures
        items_view(r@) == kept_entries(items_view(list@)),
{
    let ghost orig = items_view(list@);
    let ghost n = orig.len();
    let mut rest = list;
    let mut kept: Vec<Json> = Vec::new();
    assert(orig.take(0) =~= Seq::<JsonView>::empty());
    assert(items_view(rest@) =~= orig.skip(0));
    while rest.len() > 0
        invariant
            rest@.len() <= n,
            n == orig.len(),
            items_view(rest@) == orig.skip(n - rest@.len()),
            items_view(kept@) == kept_entries(orig.take(n - rest@.len())),
        decreases rest@.len(),
    {
        let ghost m = n - rest@.len();
        let ghost before = rest@;
        let e = rest.remove(0);
        proof {
            assert(items_view(before)[0] == json_view(e));
            assert(orig[m] == json_view(e));
            assert(items_view(rest@) =~= items_view(before).skip(1));
            assert(orig.skip(m).skip(1) =~= orig.skip(m + 1));
            assert(orig.take(m + 1).drop_last() =~= orig.take(m));
            assert(orig.take(m + 1).last() == orig[m]);
        }
        if !entry_runs_rewrite_hook(&e) {
            let ghost k0 = kept@;
            kept.push(e);
            assert(items_view(kept@) =~= items_view(k0).push(json_view(e)));
        }
    }
    assert(orig.take(n as int) =~= orig);
    kept
}

/// The settings after the hook is registered (`settings`: those read, `None`
/// when there are none): every entry of `hooks.PreToolUse` that runs the
/// rewrite hook is dropped and the hook's entry added at the end.
pub fn updated_settings(
    settings: Option<Json>,
    is_windows: bool,
    agent_dir: &str,
    hook_filename: &str,
) -> (r: Json)
    requires
        takes_hook_list(opt_json_view(settings)),
    ensures
        r@ == spec_updated_settings(opt_json_view(settings), is_windows, agent_dir@, hook_filename@),
{
    let ghost sopt = opt_json_view(settings);
    let s = match settings {
        Some(v) => v,
        None => Json::Object(Vec::new()),
    };
    let ghost sv = s@;
    proof {
        lemma_view(s);
        if sopt is None {
            assert(members_view(Seq::<(String, Json)>::empty()) =~= Seq::<(Seq<char>, JsonView)>::empty());
        }
        assert(sv == base_settings(sopt));
    }
    let mut top: Vec<(String, Json)> = match s {
        Json::Object(o) => o,
        _ => Vec::new(),
    };
    assert(members_view(top@) =~= members_of(sv));
    let ghost top0 = top@;
    let hi = find_member(&top, "hooks");
    proof {
        lemma_member_pos(members_of(sv), "hooks"@);
    }
    let hooks_found = hi < top.len();
    let hooks_val: Json = if hooks_found {
        let (_, h) = top.remove(hi);
        h
    } else {
        Json::Null
    };
    let ghost hv = hooks_val@;
    assert(hv == at(sv, "hooks"@)) by {
        if hooks_found {
            assert(members_view(top0)[hi as int].1 == json_view(top0[hi as int].1));
        }
    }
    proof {
        lemma_view(hooks_val);
    }
    let mut hooks: Vec<(String, Json)> = match hooks_val {
        Json::Object(o) => o,
        _ => Vec::new(),
    };
    assert(members_view(hooks@) =~= members_of(hv));
    let ghost hooks0 = hooks@;
    let pi = find_member(&hooks, "PreToolUse");
    proof {
        lemma_member_pos(members_of(hv), "PreToolUse"@);
    }
    let list_found = pi < hooks.len();
    let list: Vec<Json> = if list_found {
        let (_, p) = hooks.remove(pi);
        proof {
            assert(members_view(hooks0)[pi as int].1 == json_view(p));
            lemma_view(p);
        }
        match p {
            Json::Array(a) => a,
            _ => Vec::new(),
        }
    } else {
        Vec::new()
    };
    assert(items_view(list@) =~= hook_list(sv));
    let mut kept = kept_hook_entries(list);
    let ghost k0 = kept@;
    kept.push(new_hook_entry(is_windows, agent_dir, hook_filename));
    let ghost l = kept_entries(hook_list(sv)).push(hook_entry(is_windows, agent_dir@, hook_filename@));
    assert(items_view(kept@) =~= l) by {
        assert(items_view(kept@) =~= items_view(k0).push(json_view(kept@.last())));
    }
    let list_val = Json::Array(kept);
    let ghost lv = list_val@;
    proof {
        lemma_view(list_val);
    }
    let ghost h1 = hooks@;
    let list_key = "PreToolUse".to_string();
    if list_found {
        hooks.insert(pi, (list_key, list_val));
        proof {
            lemma_members_replace(hooks0, hooks@, pi as int, hooks@[pi as int]);
        }
    } else {
        hooks.push((list_key, list_val));
        proof {
            lemma_members_push(h1, hooks@.last());
            assert(hooks@ =~= h1.push(hooks@.last()));
        }
    }
    let hooks_obj = Json::Object(hooks);
    let ghost ho = hooks_obj@;
    proof {
        lemma_view(hooks_obj);
        assert(ho == with_member(hv, "PreToolUse"@, JsonView::Array(l)));
    }
    let ghost t1 = top@;
    let hooks_key = "hooks".to_string();
    if hooks_found {
        top.insert(hi, (hooks_key, hooks_obj));
        proof {
            lemma_members_replace(top0, top@, hi as int, top@[hi as int]);
        }
    } else {
        top.push((hooks_key, hooks_obj));
        proof {
            lemma_members_push(t1, top@.last());
            assert(top@ =~= t1.push(top@.last()));
        }
    }
    let r = Json::Object(top);
    proof {
        lemma_view(r);
    }
    r
}

/// The text of the settings file after the hook is registered, from the text
/// read (`None` when there is no file). Text that is not JSON counts as `{}`.
/// `None` where the hook list cannot be put in place (`hooks.PreToolUse` is
/// not an array and the settings or their `hooks` are neither an object nor
/// `null`) or the result cannot be written.
pub fn rewrite_settings_text(
    text: Option<&str>,
    is_windows: bool,
    agent_dir: &str,
    hook_filename: &str,
) -> (r: Option<String>)
    ensures
        match r {
            Some(out) => spec_rewritten_settings(
                match text {
                    Some(t) => Some(t@),
                    None => None,
                },
                is_windows,
                agent_dir@,
                hook_filename@,
            ) == Some(out@),
            None => spec_rewritten_settings(
                match text {
                    Some(t) => Some(t@),
                    None => None,
                },
                is_windows,
                agent_dir@,
                hook_filename@,
            ) is None,
        },
{
    let settings = match text {
        Some(t) => parse_json(t),
        None => None,
    };
    if !settings_take_hook_list(&settings) {
        return None;
    }
    let updated = updated_settings(settings, is_windows, agent_dir, hook_filename);
    render_json(&updated)
}

} // verus!
