//! Keys and the actions they are bound to.
use vstd::prelude::*;

use crate::keymap::KeyMap;
use crate::text::same_text;
use crate::window::action::{action_named, default_bind_list, Action};

verus! {

/// What is wrong with a bind of the configuration.
#[derive(Debug, Clone, PartialEq, Eq)]
pub enum BindIssue {
    Key(String),
    Action { key: String, action: String },
}

impl BindIssue {
    pub open spec fn text(self) -> Seq<char> {
        match self {
            BindIssue::Key(key) => "cannot parse key `"@ + key@ + "`"@,
            BindIssue::Action { key, action } => "unknown action `"@ + action@ + "` for bind `"@
                + key@ + "`"@,
        }
    }

    pub fn describe(&self) -> (result: String)
        ensures
            result@ == self.text(),
    {
        match self {
            BindIssue::Key(key) => "cannot parse key `".to_owned().concat(key.as_str()).concat("`"),
            BindIssue::Action { key, action } => "unknown action `".to_owned().concat(
                action.as_str(),
            ).concat("` for bind `").concat(key.as_str()).concat("`"),
        }
    }
}

/// The bindings of the first entries of the default list.
pub open spec fn defaults(count: int) -> Map<Seq<char>, Action>
    decreases count,
{
    if count <= 0 {
        Map::empty()
    } else {
        let entry = default_bind_list()[count - 1];
        defaults(count - 1).insert(entry.0, entry.1)
    }
}

/// The bindings after one bind of the configuration. A key that cannot be parsed and an
/// unknown action change nothing; `none` takes the key away without replacing it.
pub open spec fn with_bind(
    bindings: Map<Seq<char>, Action>,
    key: Seq<char>,
    action: Seq<char>,
    valid: bool,
) -> Map<Seq<char>, Action> {
    if !valid {
        bindings
    } else if action == "none"@ {
        bindings.remove(key)
    } else {
        match action_named(action) {
            Some(found) => bindings.insert(key, found),
            None => bindings,
        }
    }
}

/// The bindings after the first binds of the configuration.
pub open spec fn with_binds(binds: KeyMap<String>, valid: Seq<bool>, count: int) -> Map<
    Seq<char>,
    Action,
>
    decreases count,
{
    if count <= 0 {
        defaults(default_bind_list().len() as int)
    } else {
        with_bind(
            with_binds(binds, valid, count - 1),
            binds.keys()[count - 1],
            binds.values()[count - 1]@,
            valid[count - 1],
        )
    }
}

/// What the first binds of the configuration are reported for, in their order.
pub open spec fn issue_texts(binds: KeyMap<String>, valid: Seq<bool>, count: int) -> Seq<Seq<char>>
    decreases count,
{
    if count <= 0 {
        Seq::empty()
    } else {
        let before = issue_texts(binds, valid, count - 1);
        let key = binds.keys()[count - 1];
        let action = binds.values()[count - 1]@;
        if !valid[count - 1] {
            before.push("cannot parse key `"@ + key + "`"@)
        } else if action != "none"@ && action_named(action) is None {
            before.push("unknown action `"@ + action + "` for bind `"@ + key + "`"@)
        } else {
            before
        }
    }
}

pub open spec fn texts_of(issues: Seq<BindIssue>) -> Seq<Seq<char>> {
    Seq::new(issues.len(), |i: int| issues[i].text())
}

/// The default bindings merged with those of the configuration, which take keys over
/// from the defaults. Says of each configured key whether the desktop can parse it.
pub fn merged_bindings(binds: &KeyMap<String>, valid: &Vec<bool>) -> (result: (
    KeyMap<Action>,
    Vec<BindIssue>,
))
    requires
        binds.wf(),
        valid@.len() == binds.keys().len(),
    ensures
        result.0.wf(),
        result.0@ == with_binds(*binds, valid@, binds.keys().len() as int),
        texts_of(result.1@) == issue_texts(*binds, valid@, binds.keys().len() as int),
{
    let list = Action::default_binds();
    let mut bindings: KeyMap<Action> = KeyMap::new();
    for i in 0..list.len()
        invariant
            bindings.wf(),
            bindings@ == defaults(i as int),
            list@.len() == default_bind_list().len(),
            forall|k: int|
                0 <= k < list@.len() ==> (#[trigger] list@[k]).0@ == default_bind_list()[k].0
                    && list@[k].1 == default_bind_list()[k].1,
    {
        bindings.insert(list[i].0.to_owned(), list[i].1);
    }
    let mut issues: Vec<BindIssue> = Vec::new();
    assert(texts_of(issues@) =~= issue_texts(*binds, valid@, 0));
    let count: usize = binds.len();
    for i in 0..count
        invariant
            binds.wf(),
            count == binds.keys().len(),
            valid@.len() == binds.keys().len(),
            bindings.wf(),
            bindings@ == with_binds(*binds, valid@, i as int),
            texts_of(issues@) == issue_texts(*binds, valid@, i as int),
    {
        let ghost before = texts_of(issues@);
        let key = binds.key_at(i);
        let action = binds.value_at(i);
        if !valid[i] {
            issues.push(BindIssue::Key(key.to_owned()));
            assert(texts_of(issues@) =~= before.push(issues@.last().text()));
        } else if same_text(action.as_str(), "none") {
            bindings.remove(key);
        } else {
            match Action::parse(action.as_str()) {
                Some(found) => {
                    bindings.insert(key.to_owned(), found);
                },
                None => {
                    issues.push(BindIssue::Action { key: key.to_owned(), action: action.clone() });
                    assert(texts_of(issues@) =~= before.push(issues@.last().text()));
                },
            }
        }
    }
    (bindings, issues)
}

/// A bind of the configuration decides what its key does, whatever the default is. One
/// that names no action, or a key that cannot be parsed, leaves the default; and every
/// other key is left alone.
pub proof fn user_binds_take_keys_over(binds: KeyMap<String>, valid: Seq<bool>, at: int, key: Seq<char>)
    requires
        binds.wf(),
        valid.len() == binds.keys().len(),
        0 <= at < binds.keys().len(),
    ensures
        ({
            let merged = with_binds(binds, valid, binds.keys().len() as int);
            let bound = binds.keys()[at];
            let action = binds.values()[at]@;
            let default = defaults(default_bind_list().len() as int);
            &&& valid[at] && action == "none"@ ==> !merged.dom().contains(bound)
            &&& valid[at] && action != "none"@ && action_named(action) is Some
                ==> merged.dom().contains(bound) && Some(merged[bound]) == action_named(action)
            &&& !valid[at] || action != "none"@ && action_named(action) is None ==> (
            merged.dom().contains(bound) <==> default.dom().contains(bound)) && merged[bound]
                == default[bound]
            &&& !binds.keys().contains(key) ==> (merged.dom().contains(key)
                <==> default.dom().contains(key)) && merged[key] == default[key]
        }),
{
    decided_by_one(binds, valid, at, binds.keys().len() as int);
    if !binds.keys().contains(key) {
        others_stay(binds, valid, key, binds.keys().len() as int);
    }
}

proof fn decided_by_one(binds: KeyMap<String>, valid: Seq<bool>, at: int, count: int)
    requires
        binds.wf(),
        valid.len() == binds.keys().len(),
        0 <= at < count <= binds.keys().len(),
    ensures
        ({
            let merged = with_binds(binds, valid, count);
            let bound = binds.keys()[at];
            let action = binds.values()[at]@;
            let default = defaults(default_bind_list().len() as int);
            &&& valid[at] && action == "none"@ ==> !merged.dom().contains(bound)
            &&& valid[at] && action != "none"@ && action_named(action) is Some
                ==> merged.dom().contains(bound) && Some(merged[bound]) == action_named(action)
            &&& !valid[at] || action != "none"@ && action_named(action) is None ==> (
            merged.dom().contains(bound) <==> default.dom().contains(bound)) && merged[bound]
                == default[bound]
        }),
    decreases count,
{
    if at == count - 1 {
        untouched_before(binds, valid, at, at);
    } else {
        decided_by_one(binds, valid, at, count - 1);
        binds.entry_at(at);
        binds.entry_at(count - 1);
        binds.distinct_keys(at, count - 1);
    }
}

/// The binds before one leave its key as it was by default.
proof fn untouched_before(binds: KeyMap<String>, valid: Seq<bool>, at: int, count: int)
    requires
        binds.wf(),
        0 <= count <= at < binds.keys().len(),
    ensures
        ({
            let merged = with_binds(binds, valid, count);
            let bound = binds.keys()[at];
            let default = defaults(default_bind_list().len() as int);
            &&& merged.dom().contains(bound) <==> default.dom().contains(bound)
            &&& merged[bound] == default[bound]
        }),
    decreases count,
{
    if count > 0 {
        untouched_before(binds, valid, at, count - 1);
        binds.distinct_keys(count - 1, at);
    }
}

proof fn others_stay(binds: KeyMap<String>, valid: Seq<bool>, key: Seq<char>, count: int)
    requires
        0 <= count <= binds.keys().len(),
        !binds.keys().contains(key),
    ensures
        ({
            let merged = with_binds(binds, valid, count);
            let default = defaults(default_bind_list().len() as int);
            &&& merged.dom().contains(key) <==> default.dom().contains(key)
            &&& merged[key] == default[key]
        }),
    decreases count,
{
    if count > 0 {
        others_stay(binds, valid, key, count - 1);
        assert(binds.keys().contains(binds.keys()[count - 1]));
    }
}

/// The keys of an action, in dictionary order.
pub open spec fn keys_bound(bindings: KeyMap<Action>, action: Action, count: int) -> Seq<Seq<char>>
    decreases count,
{
    if count <= 0 {
        Seq::empty()
    } else if bindings.values()[count - 1] == action {
        keys_bound(bindings, action, count - 1).push(bindings.keys()[count - 1])
    } else {
        keys_bound(bindings, action, count - 1)
    }
}

pub open spec fn strings(list: Seq<String>) -> Seq<Seq<char>> {
    Seq::new(list.len(), |i: int| list[i]@)
}

/// The keys that an action is reached by.
pub fn keys_for(bindings: &KeyMap<Action>, action: Action) -> (result: Vec<String>)
    requires
        bindings.wf(),
    ensures
        strings(result@) == keys_bound(*bindings, action, bindings.keys().len() as int),
{
    let mut result: Vec<String> = Vec::new();
    assert(strings(result@) =~= keys_bound(*bindings, action, 0));
    let count: usize = bindings.len();
    for i in 0..count
        invariant
            bindings.wf(),
            count == bindings.keys().len(),
            strings(result@) == keys_bound(*bindings, action, i as int),
    {
        let ghost before = strings(result@);
        if *bindings.value_at(i) == action {
            let key = bindings.key_at(i).to_owned();
            result.push(key);
            assert(strings(result@) =~= before.push(key@));
        }
    }
    result
}

/// Every bound key is among the keys of its action, and of no other.
pub proof fn every_bound_key_is_reached(bindings: KeyMap<Action>, at: int, action: Action)
    requires
        bindings.wf(),
        0 <= at < bindings.keys().len(),
    ensures
        keys_bound(bindings, action, bindings.keys().len() as int).contains(bindings.keys()[at])
            <==> bindings.values()[at] == action,
{
    let all = bindings.keys().len() as int;
    reached_within(bindings, at, action, all);
    only_bound_keys(bindings, action, all);
    let found = keys_bound(bindings, action, all);
    let key = bindings.keys()[at];
    if found.contains(key) {
        let i = choose|i: int| 0 <= i < found.len() && found[i] == key;
        assert(bound_somewhere(bindings, action, all, found[i]));
        let k = choose|k: int|
            0 <= k < all && #[trigger] bindings.keys()[k] == found[i] && bindings.values()[k]
                == action;
        if k < at {
            bindings.distinct_keys(k, at);
        } else if at < k {
            bindings.distinct_keys(at, k);
        }
    }
}

spec fn bound_somewhere(
    bindings: KeyMap<Action>,
    action: Action,
    count: int,
    key: Seq<char>,
) -> bool {
    exists|k: int|
        0 <= k < count && #[trigger] bindings.keys()[k] == key && bindings.values()[k] == action
}

proof fn reached_within(bindings: KeyMap<Action>, at: int, action: Action, count: int)
    requires
        0 <= at < count <= bindings.keys().len(),
        bindings.wf(),
    ensures
        bindings.values()[at] == action ==> keys_bound(bindings, action, count).contains(
            bindings.keys()[at],
        ),
    decreases count,
{
    let found = keys_bound(bindings, action, count);
    if at < count - 1 {
        reached_within(bindings, at, action, count - 1);
        let before = keys_bound(bindings, action, count - 1);
        if bindings.values()[at] == action {
            let i = choose|i: int| 0 <= i < before.len() && before[i] == bindings.keys()[at];
            assert(found[i] == bindings.keys()[at]);
        }
    } else if bindings.values()[at] == action {
        assert(found.last() == bindings.keys()[at]);
    }
}

proof fn only_bound_keys(bindings: KeyMap<Action>, action: Action, count: int)
    requires
        0 <= count <= bindings.keys().len(),
    ensures
        forall|i: int|
            0 <= i < keys_bound(bindings, action, count).len() ==> bound_somewhere(
                bindings,
                action,
                count,
                #[trigger] keys_bound(bindings, action, count)[i],
            ),
    decreases count,
{
    if count > 0 {
        only_bound_keys(bindings, action, count - 1);
        let found = keys_bound(bindings, action, count);
        let before = keys_bound(bindings, action, count - 1);
        assert forall|i: int| 0 <= i < found.len() implies bound_somewhere(
            bindings,
            action,
            count,
            #[trigger] found[i],
        ) by {
            if i < before.len() {
                assert(bound_somewhere(bindings, action, count - 1, before[i]));
                let k = choose|k: int|
                    0 <= k < count - 1 && #[trigger] bindings.keys()[k] == before[i]
                        && bindings.values()[k] == action;
                assert(bindings.keys()[k] == found[i]);
            } else {
                assert(bindings.keys()[count - 1] == found[i]);
            }
        }
    }
}

/// Every default bind is in force, but for a key that a later one takes over.
pub proof fn default_binds_are_in_force(at: int, count: int)
    requires
        0 <= at < count <= default_bind_list().len(),
        forall|i: int|
            at < i < count ==> (#[trigger] default_bind_list()[i]).0 != default_bind_list()[at].0,
    ensures
        defaults(count).dom().contains(default_bind_list()[at].0),
        defaults(count)[default_bind_list()[at].0] == default_bind_list()[at].1,
    decreases count,
{
    if at < count - 1 {
        assert(default_bind_list()[count - 1].0 != default_bind_list()[at].0);
        default_binds_are_in_force(at, count - 1);
    }
}

/// Nothing but the default list is bound by default.
pub proof fn only_default_binds_are_in_force(key: Seq<char>, count: int)
    requires
        0 <= count <= default_bind_list().len(),
        forall|i: int| 0 <= i < count ==> (#[trigger] default_bind_list()[i]).0 != key,
    ensures
        !defaults(count).dom().contains(key),
    decreases count,
{
    if count > 0 {
        assert(default_bind_list()[count - 1].0 != key);
        only_default_binds_are_in_force(key, count - 1);
    }
}

/// One bind touches its key alone: it is given the action, taken away by `none`, and
/// left as it was where the key or the action cannot be made out.
pub proof fn binds_touch_their_key_alone(
    bindings: Map<Seq<char>, Action>,
    key: Seq<char>,
    action: Seq<char>,
    valid: bool,
    other: Seq<char>,
)
    ensures
        other != key ==> with_bind(bindings, key, action, valid).dom().contains(other)
            == bindings.dom().contains(other) && with_bind(bindings, key, action, valid)[other]
            == bindings[other],
        !valid ==> with_bind(bindings, key, action, valid) == bindings,
        valid && action == "none"@ ==> !with_bind(bindings, key, action, valid).dom().contains(key),
        valid && action != "none"@ && action_named(action) is None ==> with_bind(
            bindings,
            key,
            action,
            valid,
        ) == bindings,
        valid && action != "none"@ && action_named(action) is Some ==> with_bind(
            bindings,
            key,
            action,
            valid,
        ).dom().contains(key) && Some(with_bind(bindings, key, action, valid)[key])
            == action_named(action),
{
}

/// Every bind that changes nothing is reported for what is wrong with it, and none
/// else is.
pub proof fn useless_binds_are_reported(binds: KeyMap<String>, valid: Seq<bool>, count: int)
    requires
        0 < count <= binds.keys().len(),
    ensures
        ({
            let before = issue_texts(binds, valid, count - 1);
            let after = issue_texts(binds, valid, count);
            let key = binds.keys()[count - 1];
            let action = binds.values()[count - 1]@;
            &&& !valid[count - 1] ==> after == before.push("cannot parse key `"@ + key + "`"@)
            &&& valid[count - 1] && action != "none"@ && action_named(action) is None ==> after
                == before.push("unknown action `"@ + action + "` for bind `"@ + key + "`"@)
            &&& valid[count - 1] && action == "none"@ ==> after == before
            &&& valid[count - 1] && action_named(action) is Some ==> after == before
        }),
        issue_texts(binds, valid, 0) == Seq::<Seq<char>>::empty(),
{
}

/// What is said of a bind.
pub proof fn bind_issues_are_told(key: String, action: String)
    ensures
        BindIssue::Key(key).text() == "cannot parse key `"@ + key@ + "`"@,
        (BindIssue::Action { key, action }).text() == "unknown action `"@ + action@
            + "` for bind `"@ + key@ + "`"@,
{
}

}
