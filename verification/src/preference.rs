//! What requests make of a user's preferences, and so of its subscriptions.
use vstd::prelude::*;
use crate::directory::subscribed;
use crate::json::{text_of, Tree};
use crate::model::{Preference, SubscriptionState, SUBSCRIPTION_CATEGORY};
use crate::request::{preference_tree, set_subscription_view, subscription_body, Method, RequestView};

verus! {

/// What tells one preference of a user from another.
pub struct PreferenceKey {
    pub category: Seq<char>,
    pub name: Seq<char>,
}

/// The preference that records a subscription to a channel.
pub open spec fn subscription_key(channel_id: Seq<char>) -> PreferenceKey {
    PreferenceKey { category: SUBSCRIPTION_CATEGORY@, name: channel_id }
}

/// Which preference an entry of a request is about.
pub open spec fn entry_key(entry: Tree) -> Option<PreferenceKey> {
    match (text_of(entry.get("category"@)), text_of(entry.get("name"@))) {
        (Some(category), Some(name)) => Some(PreferenceKey { category, name }),
        _ => None,
    }
}

/// Preferences once the entries of a request were set, one after the other.
pub open spec fn with_entries(
    preferences: Map<PreferenceKey, Seq<char>>,
    entries: Seq<Tree>,
) -> Map<PreferenceKey, Seq<char>>
    decreases entries.len(),
{
    if entries.len() == 0 {
        preferences
    } else {
        let before = with_entries(preferences, entries.drop_last());
        match (entry_key(entries.last()), text_of(entries.last().get("value"@))) {
            (Some(key), Some(value)) => before.insert(key, value),
            _ => before,
        }
    }
}

/// Preferences once the entries of a request were deleted.
pub open spec fn without_entries(
    preferences: Map<PreferenceKey, Seq<char>>,
    entries: Seq<Tree>,
) -> Map<PreferenceKey, Seq<char>>
    decreases entries.len(),
{
    if entries.len() == 0 {
        preferences
    } else {
        let before = without_entries(preferences, entries.drop_last());
        match entry_key(entries.last()) {
            Some(key) => before.remove(key),
            None => before,
        }
    }
}

/// Whether a request sets preferences of a user.
pub open spec fn sets(request: RequestView, user_id: Seq<char>) -> bool {
    request.method == Method::Put && request.path == "/users/"@ + user_id + "/preferences"@
}

/// Whether a request deletes preferences of a user.
pub open spec fn deletes(request: RequestView, user_id: Seq<char>) -> bool {
    request.method == Method::Post && request.path == "/users/"@ + user_id + "/preferences/delete"@
}

/// The entries of a request.
pub open spec fn entries_of(request: RequestView) -> Seq<Tree> {
    crate::json::items_of(request.body)
}

/// A user's preferences once Mattermost carried out a request.
pub open spec fn carried_out(
    preferences: Map<PreferenceKey, Seq<char>>,
    user_id: Seq<char>,
    request: RequestView,
) -> Map<PreferenceKey, Seq<char>> {
    if sets(request, user_id) {
        with_entries(preferences, entries_of(request))
    } else if deletes(request, user_id) {
        without_entries(preferences, entries_of(request))
    } else {
        preferences
    }
}

/// A user's preferences once Mattermost carried out several requests, one after the other.
pub open spec fn all_carried_out(
    preferences: Map<PreferenceKey, Seq<char>>,
    user_id: Seq<char>,
    requests: Seq<RequestView>,
) -> Map<PreferenceKey, Seq<char>>
    decreases requests.len(),
{
    if requests.len() == 0 {
        preferences
    } else {
        carried_out(
            all_carried_out(preferences, user_id, requests.drop_last()),
            user_id,
            requests.last(),
        )
    }
}

/// Whether a request is about a preference of a user.
pub open spec fn touches(request: RequestView, user_id: Seq<char>, key: PreferenceKey) -> bool {
    (sets(request, user_id) || deletes(request, user_id)) && exists|i: int|
        0 <= i < entries_of(request).len() && entry_key(#[trigger] entries_of(request)[i]) == Some(
            key,
        )
}

/// The value of a preference, where the user has it.
pub open spec fn value_of(preferences: Map<PreferenceKey, Seq<char>>, key: PreferenceKey) -> Option<
    Seq<char>,
> {
    if preferences.dom().contains(key) {
        Some(preferences[key])
    } else {
        None
    }
}

proof fn lemma_entries_elsewhere(
    preferences: Map<PreferenceKey, Seq<char>>,
    entries: Seq<Tree>,
    key: PreferenceKey,
)
    requires
        forall|i: int| 0 <= i < entries.len() ==> entry_key(#[trigger] entries[i]) != Some(key),
    ensures
        value_of(with_entries(preferences, entries), key) == value_of(preferences, key),
        value_of(without_entries(preferences, entries), key) == value_of(preferences, key),
    decreases entries.len(),
{
    if entries.len() > 0 {
        let before = entries.drop_last();
        assert(forall|i: int| 0 <= i < before.len() ==> before[i] == entries[i]);
        lemma_entries_elsewhere(preferences, before, key);
        assert(entry_key(entries[entries.len() - 1]) != Some(key));
    }
}

/// Recording a subscription gives the user a preference that counts as one, removing it leaves none,
/// and neither changes any other preference.
pub proof fn law_subscriptions_are_kept(
    preferences: Map<PreferenceKey, Seq<char>>,
    user_id: Seq<char>,
    channel_id: Seq<char>,
    state: SubscriptionState,
    other: PreferenceKey,
)
    ensures
        ({
            let after = carried_out(
                preferences,
                user_id,
                set_subscription_view(user_id, channel_id, state),
            );
            &&& value_of(after, subscription_key(channel_id)) == match state {
                SubscriptionState::Subscribed => Some("1"@),
                SubscriptionState::Unsubscribed => None,
            }
            &&& other != subscription_key(channel_id) ==> value_of(after, other) == value_of(
                preferences,
                other,
            )
        }),
{
    let request = set_subscription_view(user_id, channel_id, state);
    let entry = preference_tree(user_id, SUBSCRIPTION_CATEGORY@, channel_id, "1"@);
    let entries = entries_of(request);
    assert(subscription_body(user_id, channel_id) == Tree::Array(seq![entry]));
    assert(entries =~= seq![entry]);
    reveal_strlit("user_id");
    reveal_strlit("category");
    reveal_strlit("name");
    reveal_strlit("value");
    assert("user_id"@.len() == 7 && "category"@.len() == 8 && "name"@.len() == 4 && "value"@.len()
        == 5);
    assert(entry_key(entry) == Some(subscription_key(channel_id)));
    assert(text_of(entry.get("value"@)) == Some("1"@));
    assert(entries.drop_last() =~= Seq::<Tree>::empty());
    assert(with_entries(preferences, entries.drop_last()) == preferences);
    assert(without_entries(preferences, entries.drop_last()) == preferences);
    assert(entries.last() == entry);
}

/// What the last request about a subscription did is what counts, whatever else is asked of
/// Mattermost before and after: a session that posted in a channel or subscribed to it is
/// subscribed, and one that unsubscribed has no such preference.
pub proof fn law_last_subscription_counts(
    preferences: Map<PreferenceKey, Seq<char>>,
    user_id: Seq<char>,
    channel_id: Seq<char>,
    requests: Seq<RequestView>,
    at: int,
    state: SubscriptionState,
    found: Option<Preference>,
)
    requires
        0 <= at < requests.len(),
        requests[at] == set_subscription_view(user_id, channel_id, state),
        forall|i: int|
            at < i < requests.len() ==> !touches(
                #[trigger] requests[i],
                user_id,
                subscription_key(channel_id),
            ),
        value_of(
            all_carried_out(preferences, user_id, requests),
            subscription_key(channel_id),
        ) == match found {
            Some(preference) => Some(preference.value@),
            None => None,
        },
    ensures
        state == SubscriptionState::Subscribed ==> found is Some && found->Some_0.value@ == "1"@,
        state == SubscriptionState::Unsubscribed ==> found is None,
        subscribed(found) <==> state == SubscriptionState::Subscribed,
    decreases requests.len(),
{
    let key = subscription_key(channel_id);
    let before = requests.drop_last();
    let earlier = all_carried_out(preferences, user_id, before);
    if at == requests.len() - 1 {
        law_subscriptions_are_kept(earlier, user_id, channel_id, state, key);
    } else {
        let last = requests[requests.len() - 1];
        assert(!touches(last, user_id, key));
        if sets(last, user_id) || deletes(last, user_id) {
            assert forall|i: int| 0 <= i < entries_of(last).len() implies entry_key(
                #[trigger] entries_of(last)[i],
            ) != Some(key) by {}
            lemma_entries_elsewhere(earlier, entries_of(last), key);
        }
        assert(forall|i: int| 0 <= i < before.len() ==> before[i] == requests[i]);
        law_last_subscription_counts(
            preferences,
            user_id,
            channel_id,
            before,
            at,
            state,
            found,
        );
    }
}

} // verus!
