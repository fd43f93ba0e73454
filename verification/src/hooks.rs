//! The documents that say which commands are run before and after a tool is used.
use vstd::prelude::*;
use crate::hook_dispatcher;
use crate::json;
use crate::text;
use crate::hook_dispatcher::{own_command, HookKind};
use crate::json::{find_key, Json, JsonView};
use crate::text::{decimal_text, same_text};

verus! {

/// The position of the first field with a name, from `from` on.
pub open spec fn field_position(
    fields: Seq<(Seq<char>, JsonView)>,
    key: Seq<char>,
    from: int,
) -> Option<int>
    decreases fields.len() - from,
{
    if from < 0 || from >= fields.len() {
        None
    } else if fields[from].0 == key {
        Some(from)
    } else {
        field_position(fields, key, from + 1)
    }
}

/// The value of a field, where the document is an object with it.
pub open spec fn member(value: JsonView, key: Seq<char>) -> Option<JsonView> {
    match value {
        JsonView::Object(fields) => match field_position(fields, key, 0) {
            Some(i) => Some(fields[i].1),
            None => None,
        },
        _ => None,
    }
}

/// The fields of an object; none for another value.
pub open spec fn members(value: JsonView) -> Seq<(Seq<char>, JsonView)> {
    match value {
        JsonView::Object(fields) => fields,
        _ => Seq::empty(),
    }
}

/// An object with a field set.
pub open spec fn with_member(value: JsonView, key: Seq<char>, to: JsonView) -> JsonView {
    let fields = members(value);
    match field_position(fields, key, 0) {
        Some(i) => JsonView::Object(fields.update(i, (key, to))),
        None => JsonView::Object(fields.push((key, to))),
    }
}

/// The command that a handler runs.
pub open spec fn command_of(handler: JsonView) -> Option<Seq<char>> {
    match member(handler, "command"@) {
        Some(JsonView::Text(text)) => Some(text),
        _ => None,
    }
}

/// Handlers or groups of them that stay, and whether the marker is among them.
pub struct Kept {
    pub list: Seq<JsonView>,
    pub found: bool,
}

/// What stays after one more handler: a handler of the user always does; of those that run the
/// marker, the first; of the other ones that this program installed, none.
pub open spec fn keep_handler(kept: Kept, handler: JsonView, marker: Seq<char>, kind: HookKind) -> Kept {
    match command_of(handler) {
        None => Kept { list: kept.list.push(handler), ..kept },
        Some(command) => if command == marker {
            if kept.found {
                kept
            } else {
                Kept { list: kept.list.push(handler), found: true }
            }
        } else if hook_dispatcher::is_own_command(command, kind) {
            kept
        } else {
            Kept { list: kept.list.push(handler), ..kept }
        },
    }
}

/// What stays of the first `n` handlers.
pub open spec fn kept_handlers(
    list: Seq<JsonView>,
    n: int,
    found: bool,
    marker: Seq<char>,
    kind: HookKind,
) -> Kept
    decreases n,
{
    if n <= 0 {
        Kept { list: Seq::empty(), found }
    } else {
        keep_handler(kept_handlers(list, n - 1, found, marker, kind), list[n - 1], marker, kind)
    }
}

/// What stays after one more group: a group without handlers is dropped, and what is no group
/// stays.
pub open spec fn keep_group(kept: Kept, group: JsonView, marker: Seq<char>, kind: HookKind) -> Kept {
    match member(group, "hooks"@) {
        Some(JsonView::List(handlers)) => {
            let inner = kept_handlers(handlers, handlers.len() as int, kept.found, marker, kind);
            if inner.list.len() == 0 {
                Kept { found: inner.found, ..kept }
            } else {
                Kept {
                    list: kept.list.push(
                        with_member(group, "hooks"@, JsonView::List(inner.list)),
                    ),
                    found: inner.found,
                }
            }
        },
        _ => Kept { list: kept.list.push(group), ..kept },
    }
}

/// What stays of the first `n` groups.
pub open spec fn kept_groups(groups: Seq<JsonView>, n: int, marker: Seq<char>, kind: HookKind) -> Kept
    decreases n,
{
    if n <= 0 {
        Kept { list: Seq::empty(), found: false }
    } else {
        keep_group(kept_groups(groups, n - 1, marker, kind), groups[n - 1], marker, kind)
    }
}

/// What is shown while the command of an event runs.
pub open spec fn status_text(kind: HookKind, before: bool) -> Seq<char> {
    match (kind, before) {
        (HookKind::Project, true) => "Refreshing RepoSync workspace"@,
        (HookKind::Project, false) => "Releasing RepoSync workspace"@,
        (HookKind::Workspace, true) => "Refreshing RepoSync workspace projects"@,
        (HookKind::Workspace, false) => "Releasing RepoSync workspace projects"@,
    }
}

/// The group that runs the marker.
pub open spec fn marker_group(marker: Seq<char>, kind: HookKind, before: bool) -> JsonView {
    JsonView::Object(
        seq![
            ("matcher"@, JsonView::Text("*"@)),
            (
                "hooks"@,
                JsonView::List(
                    seq![
                        JsonView::Object(
                            seq![
                                ("type"@, JsonView::Text("command"@)),
                                ("command"@, JsonView::Text(marker)),
                                ("timeout"@, JsonView::Number("3600"@)),
                                ("statusMessage"@, JsonView::Text(status_text(kind, before))),
                            ],
                        ),
                    ],
                ),
            ),
        ],
    )
}

/// The groups of an event after the repair: exactly one handler runs the marker.
pub open spec fn repaired_groups(
    groups: Seq<JsonView>,
    marker: Seq<char>,
    kind: HookKind,
    before: bool,
) -> Seq<JsonView> {
    let kept = kept_groups(groups, groups.len() as int, marker, kind);
    if kept.found {
        kept.list
    } else {
        kept.list.push(marker_group(marker, kind, before))
    }
}

/// The groups of an event; none where they are not a list.
pub open spec fn groups_of(hooks: JsonView, event: Seq<char>) -> Seq<JsonView> {
    match member(hooks, event) {
        Some(JsonView::List(groups)) => groups,
        _ => Seq::empty(),
    }
}

/// The part of a document that holds the events.
pub open spec fn events_of(document: JsonView) -> JsonView {
    match member(document, "hooks"@) {
        Some(JsonView::Object(fields)) => JsonView::Object(fields),
        _ => JsonView::Object(Seq::empty()),
    }
}

/// The events after the repair.
pub open spec fn repaired_events(events: JsonView, marker: Seq<char>, kind: HookKind) -> JsonView {
    let first = with_member(
        events,
        "PreToolUse"@,
        JsonView::List(repaired_groups(groups_of(events, "PreToolUse"@), marker, kind, true)),
    );
    with_member(
        first,
        "PostToolUse"@,
        JsonView::List(repaired_groups(groups_of(first, "PostToolUse"@), marker, kind, false)),
    )
}

/// The document after the repair.
pub open spec fn repaired(document: JsonView, marker: Seq<char>, kind: HookKind) -> JsonView {
    with_member(document, "hooks"@, repaired_events(events_of(document), marker, kind))
}

/// A document that the hooks of a project can be put into: an object, or nothing, whose events are
/// an object, or nothing.
pub open spec fn is_hook_document(document: JsonView) -> bool {
    &&& document is Object || document is Null
    &&& match member(document, "hooks"@) {
        None => true,
        Some(events) => events is Object || events is Null,
    }
}

/// The contents of a list of documents.
pub open spec fn json_views(list: Seq<Json>) -> Seq<JsonView> {
    list.map_values(|j: Json| j@)
}

proof fn lemma_list_view(items: Vec<Json>)
    ensures
        Json::List(items)@ == JsonView::List(json_views(items@)),
{
    let list = Json::List(items);
    match list@ {
        JsonView::List(inner) => {
            assert(inner =~= json_views(items@));
        },
        _ => {},
    }
}

proof fn lemma_object_view(fields: Vec<(String, Json)>)
    ensures
        Json::Object(fields)@ == JsonView::Object(json::field_views(fields@)),
{
    let object = Json::Object(fields);
    match object@ {
        JsonView::Object(inner) => {
            assert(inner =~= json::field_views(fields@));
        },
        _ => {},
    }
}

proof fn lemma_position_view(fields: Seq<(String, Json)>, key: Seq<char>, from: int)
    requires
        0 <= from,
    ensures
        json::key_position(fields, key, from) == field_position(json::field_views(fields), key, from),
        json::key_position(fields, key, from) matches Some(i) ==> from <= i < fields.len(),
    decreases fields.len() - from,
{
    if from < fields.len() {
        assert(json::field_views(fields)[from] == (fields[from].0@, fields[from].1@));
        lemma_position_view(fields, key, from + 1);
    }
}

/// The field of a document and the field of its contents.
pub proof fn lemma_field_view(value: Json, key: Seq<char>)
    ensures
        member(value@, key) == match json::field(value, key) {
            Some(inner) => Some(inner@),
            None => None,
        },
{
    match value {
        Json::Object(fields) => {
            lemma_object_view(fields);
            lemma_position_view(fields@, key, 0);
            match json::key_position(fields@, key, 0) {
                Some(i) => {
                    assert(json::field_views(fields@)[i] == (fields@[i].0@, fields@[i].1@));
                },
                None => {},
            }
        },
        _ => {},
    }
}

fn object_fields(value: Json) -> (r: Vec<(String, Json)>)
    ensures
        json::field_views(r@) == members(value@),
{
    match value {
        Json::Object(fields) => {
            proof {
                lemma_object_view(fields);
            }
            fields
        },
        _ => {
            let none: Vec<(String, Json)> = Vec::new();
            assert(json::field_views(none@) =~= Seq::empty());
            none
        },
    }
}

pub(crate) fn make_object(fields: Vec<(String, Json)>) -> (r: Json)
    ensures
        r@ == JsonView::Object(json::field_views(fields@)),
{
    proof {
        lemma_object_view(fields);
    }
    Json::Object(fields)
}

fn make_list(items: Vec<Json>) -> (r: Json)
    ensures
        r@ == JsonView::List(json_views(items@)),
{
    proof {
        lemma_list_view(items);
    }
    Json::List(items)
}

/// Sets a field of an object.
pub fn set_member(value: Json, key: &str, to: Json) -> (r: Json)
    ensures
        r@ == with_member(value@, key@, to@),
{
    let mut fields = object_fields(value);
    let ghost before = json::field_views(fields@);
    let ghost view = to@;
    proof {
        lemma_position_view(fields@, key@, 0);
    }
    match find_key(&fields, key) {
        Some(i) => {
            fields.set(i, (key.to_owned(), to));
            assert(json::field_views(fields@) =~= before.update(i as int, (key@, view)));
        },
        None => {
            fields.push((key.to_owned(), to));
            assert(json::field_views(fields@) =~= before.push((key@, view)));
        },
    }
    make_object(fields)
}

/// Takes a field out of an object; the object keeps nothing in its place.
pub(crate) fn take_member(value: Json, key: &str) -> (r: (Json, Option<Json>))
    ensures
        match r.1 {
            Some(inner) => member(value@, key@) == Some(inner@) && forall|to: JsonView|
                #[trigger] with_member(r.0@, key@, to) == with_member(value@, key@, to),
            None => member(value@, key@) is None && r.0@ == value@,
        },
{
    match value {
        Json::Object(mut fields) => {
            let ghost before = json::field_views(fields@);
            proof {
                lemma_object_view(fields);
                lemma_position_view(fields@, key@, 0);
            }
            match find_key(&fields, key) {
                Some(i) => {
                    let mut slot = (key.to_owned(), Json::Null);
                    let ghost old_fields = fields@;
                    let inner = replace_field(&mut fields, i, slot);
                    let r = make_object(fields);
                    proof {
                        let now = json::field_views(fields@);
                        assert(now =~= before.update(i as int, (key@, Json::Null@)));
                        lemma_position_update(before, now, key@, i as int, 0);
                        assert forall|to: JsonView| #[trigger] with_member(r@, key@, to)
                            == with_member(value@, key@, to) by {
                            assert(now.update(i as int, (key@, to)) =~= before.update(
                                i as int,
                                (key@, to),
                            ));
                        }
                        assert(before[i as int] == (old_fields[i as int].0@, inner@));
                    }
                    (r, Some(inner))
                },
                None => {
                    let r = make_object(fields);
                    (r, None)
                },
            }
        },
        other => (other, None),
    }
}

proof fn lemma_position_update(
    before: Seq<(Seq<char>, JsonView)>,
    now: Seq<(Seq<char>, JsonView)>,
    key: Seq<char>,
    i: int,
    from: int,
)
    requires
        before.len() == now.len(),
        forall|j: int| 0 <= j < now.len() ==> (#[trigger] now[j]).0 == before[j].0,
        0 <= from,
    ensures
        field_position(now, key, from) == field_position(before, key, from),
    decreases now.len() - from,
{
    if from < now.len() {
        assert(now[from].0 == before[from].0);
        lemma_position_update(before, now, key, i, from + 1);
    }
}

fn replace_field(fields: &mut Vec<(String, Json)>, i: usize, with: (String, Json)) -> (r: Json)
    requires
        i < old(fields).len(),
    ensures
        final(fields)@ == old(fields)@.update(i as int, with),
        r == old(fields)@[i as int].1,
{
    let mut slot = with;
    let ghost new_slot = slot;
    let old_slot = fields.remove(i);
    fields.insert(i, slot);
    assert(fields@ =~= old(fields)@.update(i as int, new_slot));
    old_slot.1
}

/// The command that a handler runs.
fn handler_command(handler: &Json) -> (r: Option<String>)
    ensures
        text::opt_view(r) == command_of(handler@),
{
    proof {
        lemma_field_view(*handler, "command"@);
    }
    match handler.text_at("command") {
        Some(text) => Some(text.to_owned()),
        None => None,
    }
}

/// Keeps the handlers that are to stay.
fn repair_handlers(handlers: &mut Vec<Json>, found: bool, marker: &str, kind: HookKind) -> (r: bool)
    ensures
        ({
            let list = json_views(old(handlers)@);
            let kept = kept_handlers(list, list.len() as int, found, marker@, kind);
            json_views(final(handlers)@) == kept.list && r == kept.found
        }),
{
    let ghost list = json_views(handlers@);
    let ghost mut seen: int = 0;
    let mut found = found;
    let ghost start = found;
    let mut i: usize = 0;
    assert(list.skip(0) =~= list);
    assert(json_views(handlers@) =~= Seq::<JsonView>::empty() + list.skip(0));
    while i < handlers.len()
        invariant
            0 <= i <= handlers.len(),
            0 <= seen <= list.len(),
            handlers.len() - i == list.len() - seen,
            i == kept_handlers(list, seen, start, marker@, kind).list.len(),
            found == kept_handlers(list, seen, start, marker@, kind).found,
            json_views(handlers@) == kept_handlers(list, seen, start, marker@, kind).list
                + list.skip(seen),
        decreases handlers.len() - i,
    {
        let ghost kept = kept_handlers(list, seen, start, marker@, kind);
        let ghost before = json_views(handlers@);
        assert(before[i as int] == list.skip(seen)[0]);
        assert(handlers@[i as int]@ == list[seen]);
        let keep = match handler_command(&handlers[i]) {
            None => true,
            Some(command) => {
                if same_text(command.as_str(), marker) {
                    if found {
                        false
                    } else {
                        found = true;
                        true
                    }
                } else {
                    !own_command(command.as_str(), kind)
                }
            },
        };
        let ghost next = kept_handlers(list, seen + 1, start, marker@, kind);
        assert(next == keep_handler(kept, list[seen], marker@, kind));
        if keep {
            i += 1;
            assert(before =~= next.list + list.skip(seen + 1));
        } else {
            let _ = handlers.remove(i);
            assert(json_views(handlers@) =~= before.remove(i as int));
            assert(json_views(handlers@) =~= next.list + list.skip(seen + 1));
        }
        proof {
            seen = seen + 1;
        }
    }
    assert(list.skip(seen) =~= Seq::empty());
    assert(json_views(handlers@) =~= kept_handlers(list, seen, start, marker@, kind).list);
    found
}

/// Keeps a group if it is to stay.
fn repair_group(group: Json, found: bool, marker: &str, kind: HookKind) -> (r: (Option<Json>, bool))
    ensures
        forall|list: Seq<JsonView>|
            {
                let kept = #[trigger] keep_group(Kept { list, found }, group@, marker@, kind);
                &&& r.1 == kept.found
                &&& match r.0 {
                    Some(now) => kept.list == list.push(now@),
                    None => kept.list == list,
                }
            },
{
    let (rest, inner) = take_member(group, "hooks");
    match inner {
        Some(Json::List(mut handlers)) => {
            proof {
                lemma_list_view(handlers);
            }
            let ghost before = json_views(handlers@);
            let now = repair_handlers(&mut handlers, found, marker, kind);
            if handlers.len() == 0 {
                assert(json_views(handlers@).len() == 0);
                (None, now)
            } else {
                assert(json_views(handlers@).len() > 0);
                let list = make_list(handlers);
                let r = set_member(rest, "hooks", list);
                (Some(r), now)
            }
        },
        Some(other) => {
            let r = set_member(rest, "hooks", other);
            proof {
                lemma_set_same(group@, "hooks"@, other@);
                lemma_not_list(other);
            }
            (Some(r), found)
        },
        None => (Some(rest), found),
    }
}

proof fn lemma_not_list(value: Json)
    ensures
        !(value is List) ==> !(value@ is List),
{
}

proof fn lemma_set_same(value: JsonView, key: Seq<char>, to: JsonView)
    requires
        member(value, key) == Some(to),
    ensures
        with_member(value, key, to) == value,
{
    match value {
        JsonView::Object(fields) => {
            let i = field_position(fields, key, 0)->0;
            lemma_position_found(fields, key, 0);
            assert(fields.update(i, (key, to)) =~= fields);
        },
        _ => {},
    }
}

proof fn lemma_position_found(fields: Seq<(Seq<char>, JsonView)>, key: Seq<char>, from: int)
    requires
        0 <= from,
    ensures
        field_position(fields, key, from) matches Some(i) ==> from <= i < fields.len()
            && fields[i].0 == key,
    decreases fields.len() - from,
{
    if from < fields.len() && fields[from].0 != key {
        lemma_position_found(fields, key, from + 1);
    }
}

pub(crate) fn text_pair(key: &str, value: &str) -> (r: (String, Json))
    ensures
        r.0@ == key@,
        r.1@ == JsonView::Text(value@),
{
    (key.to_owned(), Json::Text(value.to_owned()))
}

pub(crate) fn number_pair(key: &str, value: u64) -> (r: (String, Json))
    ensures
        r.0@ == key@,
        r.1@ == JsonView::Number(text::decimal(value as nat)),
{
    (key.to_owned(), Json::Number(decimal_text(value)))
}

/// A text in a document; a missing one is null.
pub open spec fn text_or_null(value: Option<Seq<char>>) -> JsonView {
    match value {
        Some(text) => JsonView::Text(text),
        None => JsonView::Null,
    }
}

pub(crate) fn option_pair(key: &str, value: &Option<String>) -> (r: (String, Json))
    ensures
        r.0@ == key@,
        r.1@ == text_or_null(text::opt_view(*value)),
{
    match value {
        Some(text) => text_pair(key, text.as_str()),
        None => (key.to_owned(), Json::Null),
    }
}

fn make_marker_group(marker: &str, kind: HookKind, before: bool) -> (r: Json)
    ensures
        r@ == marker_group(marker@, kind, before),
{
    let status = match (kind, before) {
        (HookKind::Project, true) => "Refreshing RepoSync workspace",
        (HookKind::Project, false) => "Releasing RepoSync workspace",
        (HookKind::Workspace, true) => "Refreshing RepoSync workspace projects",
        (HookKind::Workspace, false) => "Releasing RepoSync workspace projects",
    };
    let number = "3600".to_owned();
    let fields = vec![
        text_pair("type", "command"),
        text_pair("command", marker),
        ("timeout".to_owned(), Json::Number(number)),
        text_pair("statusMessage", status),
    ];
    assert(json::field_views(fields@) =~= seq![
        ("type"@, JsonView::Text("command"@)),
        ("command"@, JsonView::Text(marker@)),
        ("timeout"@, JsonView::Number("3600"@)),
        ("statusMessage"@, JsonView::Text(status_text(kind, before))),
    ]);
    let handler = make_object(fields);
    let ghost handler_view = handler@;
    let handlers = vec![handler];
    assert(json_views(handlers@) =~= seq![handler_view]);
    let list = make_list(handlers);
    let ghost list_view = list@;
    let group = vec![text_pair("matcher", "*"), ("hooks".to_owned(), list)];
    assert(json::field_views(group@) =~= seq![
        ("matcher"@, JsonView::Text("*"@)),
        ("hooks"@, list_view),
    ]);
    make_object(group)
}

/// Repairs the groups of an event.
fn repair_groups(groups: Vec<Json>, marker: &str, kind: HookKind, before: bool) -> (r: Vec<Json>)
    ensures
        json_views(r@) == repaired_groups(json_views(groups@), marker@, kind, before),
{
    let mut groups = groups;
    let ghost all = json_views(groups@);
    let ghost mut seen: int = 0;
    let mut found = false;
    let mut i: usize = 0;
    assert(all.skip(0) =~= all);
    assert(json_views(groups@) =~= Seq::<JsonView>::empty() + all.skip(0));
    while i < groups.len()
        invariant
            0 <= i <= groups.len(),
            0 <= seen <= all.len(),
            groups.len() - i == all.len() - seen,
            i == kept_groups(all, seen, marker@, kind).list.len(),
            found == kept_groups(all, seen, marker@, kind).found,
            json_views(groups@) == kept_groups(all, seen, marker@, kind).list + all.skip(seen),
        decreases groups.len() - i,
    {
        let ghost kept = kept_groups(all, seen, marker@, kind);
        let ghost start = json_views(groups@);
        assert(start[i as int] == all.skip(seen)[0]);
        assert(groups@[i as int]@ == all[seen]);
        let group = groups.remove(i);
        assert(json_views(groups@) =~= start.remove(i as int));
        let ghost next = kept_groups(all, seen + 1, marker@, kind);
        assert(next == keep_group(kept, all[seen], marker@, kind));
        assert(kept == Kept { list: kept.list, found });
        let (now, flag) = repair_group(group, found, marker, kind);
        found = flag;
        match now {
            Some(group) => {
                let ghost view = group@;
                let ghost place = i as int;
                groups.insert(i, group);
                i += 1;
                assert(json_views(groups@) =~= start.remove(place).insert(place, view));
                assert(json_views(groups@) =~= kept.list.push(view) + all.skip(seen + 1));
            },
            None => {
                assert(json_views(groups@) =~= kept.list + all.skip(seen + 1));
            },
        }
        proof {
            seen = seen + 1;
        }
    }
    assert(all.skip(seen) =~= Seq::empty());
    assert(json_views(groups@) =~= kept_groups(all, seen, marker@, kind).list);
    if !found {
        let ghost kept = json_views(groups@);
        let group = make_marker_group(marker, kind, before);
        let ghost view = group@;
        groups.push(group);
        assert(json_views(groups@) =~= kept.push(view));
    }
    groups
}

fn repair_event(events: Json, event: &str, marker: &str, kind: HookKind, before: bool) -> (r: Json)
    ensures
        r@ == with_member(
            events@,
            event@,
            JsonView::List(repaired_groups(groups_of(events@, event@), marker@, kind, before)),
        ),
{
    let (rest, inner) = take_member(events, event);
    let groups = match inner {
        Some(Json::List(groups)) => {
            proof {
                lemma_list_view(groups);
            }
            groups
        },
        Some(other) => {
            proof {
                lemma_not_list(other);
            }
            let none: Vec<Json> = Vec::new();
            assert(json_views(none@) =~= Seq::empty());
            none
        },
        None => {
            let none: Vec<Json> = Vec::new();
            assert(json_views(none@) =~= Seq::empty());
            none
        },
    };
    let now = repair_groups(groups, marker, kind, before);
    let list = make_list(now);
    set_member(rest, event, list)
}

/// Puts the hooks of this program into a document: each event runs the marker exactly once, other
/// commands that this program installed are removed, and everything else stays as it is.
pub fn repair_hooks(document: Json, marker: &str, kind: HookKind) -> (r: Json)
    requires
        is_hook_document(document@),
    ensures
        r@ == repaired(document@, marker@, kind),
{
    let (rest, inner) = take_member(document, "hooks");
    let events = match inner {
        Some(Json::Object(fields)) => {
            proof {
                lemma_object_view(fields);
            }
            Json::Object(fields)
        },
        Some(other) => {
            let none: Vec<(String, Json)> = Vec::new();
            assert(json::field_views(none@) =~= Seq::empty());
            make_object(none)
        },
        None => {
            let none: Vec<(String, Json)> = Vec::new();
            assert(json::field_views(none@) =~= Seq::empty());
            make_object(none)
        },
    };
    let first = repair_event(events, "PreToolUse", marker, kind, true);
    let second = repair_event(first, "PostToolUse", marker, kind, false);
    set_member(rest, "hooks", second)
}

/// Whether hooks can be put into a document.
pub fn hook_document(document: &Json) -> (r: bool)
    ensures
        r == is_hook_document(document@),
{
    proof {
        lemma_field_view(*document, "hooks"@);
    }
    let outer = match document {
        Json::Object(_) => true,
        Json::Null => true,
        _ => false,
    };
    let inner = match document.get("hooks") {
        None => true,
        Some(Json::Object(_)) => true,
        Some(Json::Null) => true,
        Some(_) => false,
    };
    outer && inner
}

/// The document of a workspace with an object for its events; none where it is no object itself.
pub fn workspace_document(document: Json) -> (r: Option<Json>)
    ensures
        match r {
            Some(now) => document@ is Object && now@ == (if member(
                document@,
                "hooks"@,
            ) matches Some(JsonView::Object(_)) {
                document@
            } else {
                with_member(document@, "hooks"@, JsonView::Object(Seq::empty()))
            }) && is_hook_document(now@),
            None => !(document@ is Object),
        },
{
    proof {
        lemma_field_view(document, "hooks"@);
    }
    let object = match &document {
        Json::Object(_) => true,
        _ => false,
    };
    if !object {
        return None;
    }
    let inner = match document.get("hooks") {
        Some(Json::Object(_)) => true,
        _ => false,
    };
    if inner {
        return Some(document);
    }
    let none: Vec<(String, Json)> = Vec::new();
    assert(json::field_views(none@) =~= Seq::empty());
    let empty = make_object(none);
    proof {
        lemma_member_set(document@, "hooks"@, empty@);
    }
    Some(set_member(document, "hooks", empty))
}

/// A document without hooks.
pub fn new_document(kind: HookKind) -> (r: Json)
    ensures
        r@ == JsonView::Object(
            seq![
                (
                    "description"@,
                    JsonView::Text(
                        match kind {
                            HookKind::Project => "RepoSync cooperative workspace leases"@,
                            HookKind::Workspace => "RepoSync multi-project workspace leases"@,
                        },
                    ),
                ),
                ("hooks"@, JsonView::Object(Seq::empty())),
            ],
        ),
{
    let description = match kind {
        HookKind::Project => "RepoSync cooperative workspace leases",
        HookKind::Workspace => "RepoSync multi-project workspace leases",
    };
    let none: Vec<(String, Json)> = Vec::new();
    assert(json::field_views(none@) =~= Seq::empty());
    let empty = make_object(none);
    let ghost view = empty@;
    let fields = vec![text_pair("description", description), ("hooks".to_owned(), empty)];
    assert(json::field_views(fields@) =~= seq![
        ("description"@, JsonView::Text(description@)),
        ("hooks"@, view),
    ]);
    make_object(fields)
}

/// A field that was set is found.
pub proof fn lemma_member_set(value: JsonView, key: Seq<char>, to: JsonView)
    ensures
        member(with_member(value, key, to), key) == Some(to),
        with_member(value, key, to) is Object,
{
    let fields = members(value);
    lemma_position_found(fields, key, 0);
    match field_position(fields, key, 0) {
        Some(i) => {
            let now = fields.update(i, (key, to));
            assert forall|j: int| 0 <= j < now.len() implies (#[trigger] now[j]).0
                == fields[j].0 by {}
            lemma_position_update(fields, now, key, i, 0);
        },
        None => {
            let now = fields.push((key, to));
            lemma_position_pushed(fields, key, to, 0);
        },
    }
}

proof fn lemma_position_pushed(
    fields: Seq<(Seq<char>, JsonView)>,
    key: Seq<char>,
    to: JsonView,
    from: int,
)
    requires
        0 <= from <= fields.len(),
        field_position(fields, key, from) is None,
    ensures
        field_position(fields.push((key, to)), key, from) == Some(fields.len() as int),
    decreases fields.len() - from,
{
    let now = fields.push((key, to));
    if from < fields.len() {
        assert(now[from] == fields[from]);
        lemma_position_pushed(fields, key, to, from + 1);
    }
}

proof fn lemma_handlers_prefix(
    list: Seq<JsonView>,
    x: JsonView,
    n: int,
    found: bool,
    marker: Seq<char>,
    kind: HookKind,
)
    requires
        n <= list.len(),
    ensures
        kept_handlers(list.push(x), n, found, marker, kind) == kept_handlers(
            list,
            n,
            found,
            marker,
            kind,
        ),
    decreases n,
{
    if n > 0 {
        lemma_handlers_prefix(list, x, n - 1, found, marker, kind);
        assert(list.push(x)[n - 1] == list[n - 1]);
    }
}

proof fn lemma_handlers_settled(
    list: Seq<JsonView>,
    n: int,
    found: bool,
    marker: Seq<char>,
    kind: HookKind,
)
    requires
        0 <= n <= list.len(),
    ensures
        ({
            let once = kept_handlers(list, n, found, marker, kind);
            &&& kept_handlers(once.list, once.list.len() as int, found, marker, kind) == once
            &&& once.list.len() == 0 ==> once.found == found
            &&& found ==> once.found
        }),
    decreases n,
{
    if n > 0 {
        lemma_handlers_settled(list, n - 1, found, marker, kind);
        let before = kept_handlers(list, n - 1, found, marker, kind);
        let x = list[n - 1];
        lemma_handlers_prefix(before.list, x, before.list.len() as int, found, marker, kind);
        assert(before.list.push(x)[before.list.len() as int] == x);
    }
}

proof fn lemma_groups_prefix(
    groups: Seq<JsonView>,
    x: JsonView,
    n: int,
    marker: Seq<char>,
    kind: HookKind,
)
    requires
        n <= groups.len(),
    ensures
        kept_groups(groups.push(x), n, marker, kind) == kept_groups(groups, n, marker, kind),
    decreases n,
{
    if n > 0 {
        lemma_groups_prefix(groups, x, n - 1, marker, kind);
        assert(groups.push(x)[n - 1] == groups[n - 1]);
    }
}

proof fn lemma_group_settled(kept: Kept, group: JsonView, marker: Seq<char>, kind: HookKind)
    ensures
        ({
            let now = keep_group(kept, group, marker, kind);
            ||| now == kept
            ||| now.list.len() == kept.list.len() + 1 && now.list == kept.list.push(
                now.list.last(),
            ) && keep_group(kept, now.list.last(), marker, kind) == now
        }),
{
    match member(group, "hooks"@) {
        Some(JsonView::List(handlers)) => {
            lemma_handlers_settled(handlers, handlers.len() as int, kept.found, marker, kind);
            let inner = kept_handlers(handlers, handlers.len() as int, kept.found, marker, kind);
            let list = JsonView::List(inner.list);
            lemma_member_set(group, "hooks"@, list);
            lemma_set_same(with_member(group, "hooks"@, list), "hooks"@, list);
        },
        _ => {},
    }
}

proof fn lemma_groups_settled(groups: Seq<JsonView>, n: int, marker: Seq<char>, kind: HookKind)
    requires
        0 <= n <= groups.len(),
    ensures
        ({
            let once = kept_groups(groups, n, marker, kind);
            kept_groups(once.list, once.list.len() as int, marker, kind) == once
        }),
    decreases n,
{
    if n > 0 {
        lemma_groups_settled(groups, n - 1, marker, kind);
        let before = kept_groups(groups, n - 1, marker, kind);
        lemma_group_settled(before, groups[n - 1], marker, kind);
        let now = kept_groups(groups, n, marker, kind);
        if now.list.len() > before.list.len() {
            let x = now.list.last();
            lemma_groups_prefix(before.list, x, before.list.len() as int, marker, kind);
            assert(before.list.push(x)[before.list.len() as int] == x);
        }
    }
}

proof fn lemma_marker_group(marker: Seq<char>, kind: HookKind, before: bool)
    ensures
        ({
            let group = marker_group(marker, kind, before);
            let handlers = member(group, "hooks"@);
            &&& handlers matches Some(JsonView::List(list))
            &&& list.len() == 1
            &&& command_of(list[0]) == Some(marker)
        }),
{
    reveal_strlit("matcher");
    reveal_strlit("hooks");
    reveal_strlit("type");
    reveal_strlit("command");
    assert("matcher"@.len() != "hooks"@.len());
    assert("type"@.len() != "command"@.len());
    let group = marker_group(marker, kind, before);
    let fields = members(group);
    assert(fields[0].0 == "matcher"@);
    assert(fields[1].0 == "hooks"@);
    reveal_with_fuel(field_position, 3);
    let list = match fields[1].1 {
        JsonView::List(list) => list,
        _ => Seq::empty(),
    };
    let handler = members(list[0]);
    assert(handler[0].0 == "type"@);
    assert(handler[1].0 == "command"@);
}

proof fn lemma_groups_repaired(
    groups: Seq<JsonView>,
    marker: Seq<char>,
    kind: HookKind,
    before: bool,
)
    ensures
        repaired_groups(
            repaired_groups(groups, marker, kind, before),
            marker,
            kind,
            before,
        ) == repaired_groups(groups, marker, kind, before),
{
    let once = kept_groups(groups, groups.len() as int, marker, kind);
    lemma_groups_settled(groups, groups.len() as int, marker, kind);
    if !once.found {
        let group = marker_group(marker, kind, before);
        lemma_marker_group(marker, kind, before);
        lemma_groups_prefix(once.list, group, once.list.len() as int, marker, kind);
        assert(once.list.push(group)[once.list.len() as int] == group);
        match member(group, "hooks"@) {
            Some(JsonView::List(list)) => {
                let inner = kept_handlers(list, 1, false, marker, kind);
                assert(kept_handlers(list, 0, false, marker, kind).list =~= Seq::empty());
                assert(inner.list =~= list);
                assert(inner.found);
                lemma_set_same(group, "hooks"@, JsonView::List(list));
            },
            _ => {},
        }
    }
}

/// The other fields stay.
pub proof fn lemma_member_other(value: JsonView, key: Seq<char>, to: JsonView, other: Seq<char>)
    requires
        key != other,
    ensures
        value is Object ==> member(with_member(value, key, to), other) == member(value, other),
{
    match value {
        JsonView::Object(fields) => {
            lemma_position_found(fields, key, 0);
            lemma_position_found(fields, other, 0);
            match field_position(fields, key, 0) {
                Some(i) => {
                    let now = fields.update(i, (key, to));
                    assert forall|j: int| 0 <= j < now.len() implies (#[trigger] now[j]).0
                        == fields[j].0 by {}
                    lemma_position_update(fields, now, other, i, 0);
                },
                None => {
                    lemma_position_apart(fields, key, to, other, 0);
                },
            }
        },
        _ => {},
    }
}

proof fn lemma_position_apart(
    fields: Seq<(Seq<char>, JsonView)>,
    key: Seq<char>,
    to: JsonView,
    other: Seq<char>,
    from: int,
)
    requires
        0 <= from <= fields.len(),
        key != other,
    ensures
        field_position(fields.push((key, to)), other, from) == field_position(fields, other, from),
    decreases fields.len() - from,
{
    let now = fields.push((key, to));
    if from < fields.len() {
        assert(now[from] == fields[from]);
        lemma_position_apart(fields, key, to, other, from + 1);
    } else {
        assert(now[from] == (key, to));
        reveal_with_fuel(field_position, 2);
    }
}

proof fn lemma_events_repaired(events: JsonView, marker: Seq<char>, kind: HookKind)
    ensures
        repaired_events(repaired_events(events, marker, kind), marker, kind) == repaired_events(
            events,
            marker,
            kind,
        ),
        repaired_events(events, marker, kind) is Object,
        groups_of(repaired_events(events, marker, kind), "PreToolUse"@) == repaired_groups(
            groups_of(events, "PreToolUse"@),
            marker,
            kind,
            true,
        ),
        events is Object ==> groups_of(repaired_events(events, marker, kind), "PostToolUse"@)
            == repaired_groups(groups_of(events, "PostToolUse"@), marker, kind, false),
{
    reveal_strlit("PreToolUse");
    reveal_strlit("PostToolUse");
    assert("PreToolUse"@.len() != "PostToolUse"@.len());
    let pre = JsonView::List(
        repaired_groups(groups_of(events, "PreToolUse"@), marker, kind, true),
    );
    let first = with_member(events, "PreToolUse"@, pre);
    let post = JsonView::List(
        repaired_groups(groups_of(first, "PostToolUse"@), marker, kind, false),
    );
    let once = with_member(first, "PostToolUse"@, post);
    lemma_member_set(events, "PreToolUse"@, pre);
    lemma_member_set(first, "PostToolUse"@, post);
    lemma_member_other(first, "PostToolUse"@, post, "PreToolUse"@);
    lemma_member_other(events, "PreToolUse"@, pre, "PostToolUse"@);
    lemma_groups_repaired(groups_of(events, "PreToolUse"@), marker, kind, true);
    lemma_groups_repaired(groups_of(first, "PostToolUse"@), marker, kind, false);
    lemma_set_same(once, "PreToolUse"@, pre);
    lemma_set_same(once, "PostToolUse"@, post);
}

/// Repairing the hooks twice is the same as repairing them once.
pub proof fn law_repair_is_final(document: JsonView, marker: Seq<char>, kind: HookKind)
    ensures
        repaired(repaired(document, marker, kind), marker, kind) == repaired(
            document,
            marker,
            kind,
        ),
{
    let events = repaired_events(events_of(document), marker, kind);
    lemma_events_repaired(events_of(document), marker, kind);
    lemma_member_set(document, "hooks"@, events);
    lemma_set_same(repaired(document, marker, kind), "hooks"@, events);
}

/// The handlers of a group; none where it has no list of them.
pub open spec fn handlers_of(group: JsonView) -> Seq<JsonView> {
    match member(group, "hooks"@) {
        Some(JsonView::List(handlers)) => handlers,
        _ => Seq::empty(),
    }
}

/// Whether a handler is the user's: its command is neither the marker nor one that this program
/// installed.
pub open spec fn is_users(handler: JsonView, marker: Seq<char>, kind: HookKind) -> bool {
    match command_of(handler) {
        None => true,
        Some(command) => command != marker && !hook_dispatcher::is_own_command(command, kind),
    }
}

/// The handlers of the user among the first `n`, in order.
pub open spec fn users_handlers(
    list: Seq<JsonView>,
    n: int,
    marker: Seq<char>,
    kind: HookKind,
) -> Seq<JsonView>
    decreases n,
{
    if n <= 0 {
        Seq::empty()
    } else {
        let before = users_handlers(list, n - 1, marker, kind);
        if is_users(list[n - 1], marker, kind) {
            before.push(list[n - 1])
        } else {
            before
        }
    }
}

/// The handlers of the user in the first `n` groups, in order.
pub open spec fn users_in(groups: Seq<JsonView>, n: int, marker: Seq<char>, kind: HookKind) -> Seq<
    JsonView,
>
    decreases n,
{
    if n <= 0 {
        Seq::empty()
    } else {
        let list = handlers_of(groups[n - 1]);
        users_in(groups, n - 1, marker, kind) + users_handlers(
            list,
            list.len() as int,
            marker,
            kind,
        )
    }
}

/// The number of handlers among the first `n` that run the marker.
pub open spec fn marker_handlers(list: Seq<JsonView>, n: int, marker: Seq<char>) -> nat
    decreases n,
{
    if n <= 0 {
        0
    } else {
        marker_handlers(list, n - 1, marker) + if command_of(list[n - 1]) == Some(marker) {
            1nat
        } else {
            0nat
        }
    }
}

/// The number of handlers in the first `n` groups that run the marker.
pub open spec fn markers_in(groups: Seq<JsonView>, n: int, marker: Seq<char>) -> nat
    decreases n,
{
    if n <= 0 {
        0
    } else {
        let list = handlers_of(groups[n - 1]);
        markers_in(groups, n - 1, marker) + marker_handlers(list, list.len() as int, marker)
    }
}

proof fn lemma_users_prefix(
    list: Seq<JsonView>,
    x: JsonView,
    n: int,
    marker: Seq<char>,
    kind: HookKind,
)
    requires
        n <= list.len(),
    ensures
        users_handlers(list.push(x), n, marker, kind) == users_handlers(list, n, marker, kind),
        marker_handlers(list.push(x), n, marker) == marker_handlers(list, n, marker),
    decreases n,
{
    if n > 0 {
        lemma_users_prefix(list, x, n - 1, marker, kind);
        assert(list.push(x)[n - 1] == list[n - 1]);
    }
}

proof fn lemma_handlers_users(
    list: Seq<JsonView>,
    n: int,
    found: bool,
    marker: Seq<char>,
    kind: HookKind,
)
    requires
        0 <= n <= list.len(),
    ensures
        ({
            let kept = kept_handlers(list, n, found, marker, kind);
            let len = kept.list.len() as int;
            &&& users_handlers(kept.list, len, marker, kind) == users_handlers(
                list,
                n,
                marker,
                kind,
            )
            &&& marker_handlers(kept.list, len, marker) == if kept.found && !found {
                1nat
            } else {
                0nat
            }
        }),
    decreases n,
{
    if n > 0 {
        lemma_handlers_users(list, n - 1, found, marker, kind);
        lemma_handlers_settled(list, n - 1, found, marker, kind);
        let before = kept_handlers(list, n - 1, found, marker, kind);
        let x = list[n - 1];
        lemma_users_prefix(before.list, x, before.list.len() as int, marker, kind);
        assert(before.list.push(x)[before.list.len() as int] == x);
    }
}

proof fn lemma_groups_users_prefix(
    groups: Seq<JsonView>,
    x: JsonView,
    n: int,
    marker: Seq<char>,
    kind: HookKind,
)
    requires
        n <= groups.len(),
    ensures
        users_in(groups.push(x), n, marker, kind) == users_in(groups, n, marker, kind),
        markers_in(groups.push(x), n, marker) == markers_in(groups, n, marker),
    decreases n,
{
    if n > 0 {
        lemma_groups_users_prefix(groups, x, n - 1, marker, kind);
        assert(groups.push(x)[n - 1] == groups[n - 1]);
    }
}

proof fn lemma_groups_users(groups: Seq<JsonView>, n: int, marker: Seq<char>, kind: HookKind)
    requires
        0 <= n <= groups.len(),
    ensures
        ({
            let kept = kept_groups(groups, n, marker, kind);
            let len = kept.list.len() as int;
            &&& users_in(kept.list, len, marker, kind) == users_in(groups, n, marker, kind)
            &&& markers_in(kept.list, len, marker) == if kept.found {
                1nat
            } else {
                0nat
            }
        }),
    decreases n,
{
    if n > 0 {
        lemma_groups_users(groups, n - 1, marker, kind);
        let before = kept_groups(groups, n - 1, marker, kind);
        let now = kept_groups(groups, n, marker, kind);
        let group = groups[n - 1];
        let list = handlers_of(group);
        let inner = kept_handlers(list, list.len() as int, before.found, marker, kind);
        lemma_handlers_users(list, list.len() as int, before.found, marker, kind);
        lemma_handlers_settled(list, list.len() as int, before.found, marker, kind);
        lemma_member_set(group, "hooks"@, JsonView::List(inner.list));
        if now.list.len() > before.list.len() {
            let x = now.list.last();
            lemma_groups_users_prefix(before.list, x, before.list.len() as int, marker, kind);
            assert(now.list =~= before.list.push(x));
            assert(before.list.push(x)[before.list.len() as int] == x);
        } else {
            assert(now.list == before.list);
            assert(inner.list.len() == 0);
            assert(users_handlers(inner.list, 0, marker, kind) =~= Seq::empty());
            assert(users_in(groups, n, marker, kind) =~= users_in(groups, n - 1, marker, kind));
        }
    }
}

/// After a repair, exactly one handler of each event runs the marker, and the handlers of the user
/// are the same as before, in the same order.
pub proof fn law_repair_keeps_users_hooks(
    groups: Seq<JsonView>,
    marker: Seq<char>,
    kind: HookKind,
    before: bool,
)
    ensures
        ({
            let now = repaired_groups(groups, marker, kind, before);
            &&& markers_in(now, now.len() as int, marker) == 1
            &&& users_in(now, now.len() as int, marker, kind) == users_in(
                groups,
                groups.len() as int,
                marker,
                kind,
            )
        }),
{
    let kept = kept_groups(groups, groups.len() as int, marker, kind);
    lemma_groups_users(groups, groups.len() as int, marker, kind);
    if !kept.found {
        let group = marker_group(marker, kind, before);
        lemma_marker_group(marker, kind, before);
        lemma_groups_users_prefix(kept.list, group, kept.list.len() as int, marker, kind);
        let now = kept.list.push(group);
        assert(now[kept.list.len() as int] == group);
        let list = handlers_of(group);
        reveal_with_fuel(users_handlers, 2);
        reveal_with_fuel(marker_handlers, 2);
        assert(users_handlers(list, 1, marker, kind) =~= Seq::empty());
        assert(users_in(now, now.len() as int, marker, kind) =~= users_in(
            kept.list,
            kept.list.len() as int,
            marker,
            kind,
        ));
    }
}

/// A repair changes the two events that it is about, and nothing else of the document.
pub proof fn law_repair_changes_two_events(
    document: JsonView,
    marker: Seq<char>,
    kind: HookKind,
    name: Seq<char>,
)
    requires
        document is Object,
    ensures
        name != "hooks"@ ==> member(repaired(document, marker, kind), name) == member(
            document,
            name,
        ),
        name != "PreToolUse"@ && name != "PostToolUse"@ ==> member(
            events_of(repaired(document, marker, kind)),
            name,
        ) == member(events_of(document), name),
{
    let events = events_of(document);
    let now = repaired_events(events, marker, kind);
    let pre = JsonView::List(
        repaired_groups(groups_of(events, "PreToolUse"@), marker, kind, true),
    );
    let first = with_member(events, "PreToolUse"@, pre);
    let post = JsonView::List(
        repaired_groups(groups_of(first, "PostToolUse"@), marker, kind, false),
    );
    lemma_events_repaired(events, marker, kind);
    lemma_member_set(document, "hooks"@, now);
    if name != "hooks"@ {
        lemma_member_other(document, "hooks"@, now, name);
    }
    if name != "PreToolUse"@ && name != "PostToolUse"@ {
        lemma_member_set(events, "PreToolUse"@, pre);
        lemma_member_other(events, "PreToolUse"@, pre, name);
        lemma_member_other(first, "PostToolUse"@, post, name);
    }
}

/// Every handler of a group is the user's, or runs the marker.
pub open spec fn is_clean(group: JsonView, marker: Seq<char>, kind: HookKind) -> bool {
    forall|k: int|
        0 <= k < handlers_of(group).len() ==> is_users(
            #[trigger] handlers_of(group)[k],
            marker,
            kind,
        ) || command_of(handlers_of(group)[k]) == Some(marker)
}

/// The groups of an event are those of `before` with the marker in place: one handler runs it, no
/// other command that this program installed is left, and the handlers of the user are the same,
/// in the same order.
pub open spec fn is_settled(
    now: Seq<JsonView>,
    before: Seq<JsonView>,
    marker: Seq<char>,
    kind: HookKind,
) -> bool {
    &&& markers_in(now, now.len() as int, marker) == 1
    &&& users_in(now, now.len() as int, marker, kind) == users_in(
        before,
        before.len() as int,
        marker,
        kind,
    )
    &&& forall|g: int| 0 <= g < now.len() ==> is_clean(#[trigger] now[g], marker, kind)
}

proof fn lemma_handlers_clean(
    list: Seq<JsonView>,
    n: int,
    found: bool,
    marker: Seq<char>,
    kind: HookKind,
)
    requires
        0 <= n <= list.len(),
    ensures
        ({
            let kept = kept_handlers(list, n, found, marker, kind).list;
            forall|k: int|
                0 <= k < kept.len() ==> is_users(#[trigger] kept[k], marker, kind) || command_of(
                    kept[k],
                ) == Some(marker)
        }),
    decreases n,
{
    if n > 0 {
        lemma_handlers_clean(list, n - 1, found, marker, kind);
    }
}

proof fn lemma_groups_clean(groups: Seq<JsonView>, n: int, marker: Seq<char>, kind: HookKind)
    requires
        0 <= n <= groups.len(),
    ensures
        ({
            let kept = kept_groups(groups, n, marker, kind).list;
            forall|g: int| 0 <= g < kept.len() ==> is_clean(#[trigger] kept[g], marker, kind)
        }),
    decreases n,
{
    if n > 0 {
        lemma_groups_clean(groups, n - 1, marker, kind);
        let before = kept_groups(groups, n - 1, marker, kind);
        let group = groups[n - 1];
        let list = handlers_of(group);
        let inner = kept_handlers(list, list.len() as int, before.found, marker, kind);
        lemma_handlers_clean(list, list.len() as int, before.found, marker, kind);
        lemma_member_set(group, "hooks"@, JsonView::List(inner.list));
    }
}

proof fn lemma_settled(groups: Seq<JsonView>, marker: Seq<char>, kind: HookKind, before: bool)
    ensures
        is_settled(repaired_groups(groups, marker, kind, before), groups, marker, kind),
{
    law_repair_keeps_users_hooks(groups, marker, kind, before);
    lemma_groups_clean(groups, groups.len() as int, marker, kind);
    lemma_marker_group(marker, kind, before);
}

/// Putting the hooks into a document settles both events, and doing so again leaves the document as
/// it is.
pub proof fn law_installation_settles(document: JsonView, marker: Seq<char>, kind: HookKind)
    ensures
        ({
            let now = repaired(document, marker, kind);
            let was = events_of(document);
            &&& is_settled(
                groups_of(events_of(now), "PreToolUse"@),
                groups_of(was, "PreToolUse"@),
                marker,
                kind,
            )
            &&& is_settled(
                groups_of(events_of(now), "PostToolUse"@),
                groups_of(was, "PostToolUse"@),
                marker,
                kind,
            )
            &&& repaired(now, marker, kind) == now
        }),
{
    let was = events_of(document);
    let events = repaired_events(was, marker, kind);
    lemma_events_repaired(was, marker, kind);
    lemma_member_set(document, "hooks"@, events);
    law_repair_is_final(document, marker, kind);
    lemma_settled(groups_of(was, "PreToolUse"@), marker, kind, true);
    lemma_settled(groups_of(was, "PostToolUse"@), marker, kind, false);
}

} // verus!
