//! What holds of the stores and of the resolution, whatever they hold.
//!
//! Each law is stated over the contents of the stores and the functions that
//! the operations' contracts use, so it holds of every sequence of calls.

use vstd::prelude::*;
use crate::profile::{
    after_write, fetched, read_outcome, valid_profiles, write_outcome, Profiles, QueryField, ReadResultView,
    UserDetailsView,
};
use crate::registry::{
    after_register, first_owner, is_first_owner, lemma_first_owner_unique, lemma_owned_username_has_first_owner,
    owns, register_outcome, usernames_of, valid_registrations, Registrations,
};
use crate::resolver::{
    faithful_reply, first_step, reply_outcome, resolution_result, RejectionCode, RemoteReplyView,
    ResolutionErrorView, ResolutionStepView,
};
use crate::text::{lemma_text_precedes_asymmetric, text_at_most, text_precedes};
use crate::validation::ValidationError;

verus! {

/// A write under the empty passkey is refused and leaves the store as it
/// was; a read under the empty passkey finds nothing, before and after.
pub proof fn law_empty_passkey_is_refused(profiles: Profiles, details: UserDetailsView, field: Option<QueryField>)
    requires
        valid_profiles(profiles),
    ensures
        write_outcome(Seq::<char>::empty()) == Err::<(), ValidationError>(ValidationError::EmptyPasskey),
        after_write(profiles, Seq::<char>::empty(), details) == profiles,
        read_outcome(after_write(profiles, Seq::<char>::empty(), details), Seq::<char>::empty(), field)
            == ReadResultView::NotFound,
{
}

/// A write keeps the store valid.
pub proof fn law_write_keeps_store_valid(profiles: Profiles, passkey: Seq<char>, details: UserDetailsView)
    requires
        valid_profiles(profiles),
    ensures
        valid_profiles(after_write(profiles, passkey, details)),
{
}

/// Of two writes under one passkey the second wins: it is what a read
/// finds, and the store is as if the first had never been made.
pub proof fn law_last_write_wins(
    profiles: Profiles,
    passkey: Seq<char>,
    first: UserDetailsView,
    second: UserDetailsView,
)
    requires
        passkey.len() > 0,
    ensures
        fetched(after_write(after_write(profiles, passkey, first), passkey, second), passkey) == Some(second),
        read_outcome(after_write(after_write(profiles, passkey, first), passkey, second), passkey, None)
            == ReadResultView::All(second),
        after_write(after_write(profiles, passkey, first), passkey, second) == after_write(
            profiles,
            passkey,
            second,
        ),
{
    assert(after_write(after_write(profiles, passkey, first), passkey, second) =~= after_write(
        profiles,
        passkey,
        second,
    ));
}

/// A write changes what is under its own passkey and nothing else.
pub proof fn law_write_leaves_other_passkeys(
    profiles: Profiles,
    passkey: Seq<char>,
    details: UserDetailsView,
    other: Seq<char>,
)
    requires
        other != passkey,
    ensures
        fetched(after_write(profiles, passkey, details), other) == fetched(profiles, other),
{
}

/// A read under a passkey that holds nothing finds nothing, whichever field
/// it asks for.
pub proof fn law_unknown_passkey_reads_not_found(profiles: Profiles, passkey: Seq<char>, field: Option<QueryField>)
    requires
        !profiles.contains_key(passkey),
    ensures
        read_outcome(profiles, passkey, field) == ReadResultView::NotFound,
{
}

/// A read that asks for one field of a stored profile gives that field's
/// text and never the whole record; a read that asks for none, or for all,
/// gives the whole record.
pub proof fn law_read_gives_what_was_asked(profiles: Profiles, passkey: Seq<char>)
    requires
        profiles.contains_key(passkey),
    ensures
        read_outcome(profiles, passkey, Some(QueryField::FirstName)) == ReadResultView::Field(
            profiles[passkey].first_name,
        ),
        read_outcome(profiles, passkey, Some(QueryField::LastName)) == ReadResultView::Field(
            profiles[passkey].last_name,
        ),
        read_outcome(profiles, passkey, Some(QueryField::Skills)) == ReadResultView::Field(
            profiles[passkey].skills,
        ),
        read_outcome(profiles, passkey, Some(QueryField::ClientReviews)) == ReadResultView::Field(
            profiles[passkey].client_reviews,
        ),
        read_outcome(profiles, passkey, Some(QueryField::All)) == ReadResultView::All(profiles[passkey]),
        read_outcome(profiles, passkey, None) == ReadResultView::All(profiles[passkey]),
{
}

/// A registration under the empty passphrase, or of an empty list, is
/// refused and leaves the registry as it was: every passphrase keeps the
/// list it had.
pub proof fn law_refused_registration_changes_nothing(
    registry: Registrations,
    passphrase: Seq<char>,
    usernames: Seq<Seq<char>>,
    any: Seq<char>,
)
    requires
        passphrase.len() == 0 || usernames.len() == 0,
    ensures
        register_outcome(passphrase, usernames) is Err,
        passphrase.len() == 0 ==> register_outcome(passphrase, usernames) == Err::<(), ValidationError>(
            ValidationError::EmptyPassphrase,
        ),
        passphrase.len() > 0 ==> register_outcome(passphrase, usernames) == Err::<(), ValidationError>(
            ValidationError::EmptyUsernameList,
        ),
        after_register(registry, passphrase, usernames) == registry,
        usernames_of(after_register(registry, passphrase, usernames), any) == usernames_of(registry, any),
{
}

/// A registration keeps the registry valid.
pub proof fn law_registration_keeps_registry_valid(
    registry: Registrations,
    passphrase: Seq<char>,
    usernames: Seq<Seq<char>>,
)
    requires
        valid_registrations(registry),
    ensures
        valid_registrations(after_register(registry, passphrase, usernames)),
{
}

/// After a registration a lookup of the passphrase returns the registered
/// list, whole and in its order, whatever was registered there before.
pub proof fn law_registered_list_is_returned(
    registry: Registrations,
    passphrase: Seq<char>,
    usernames: Seq<Seq<char>>,
)
    requires
        passphrase.len() > 0,
        usernames.len() > 0,
    ensures
        register_outcome(passphrase, usernames) == Ok::<(), ValidationError>(()),
        usernames_of(after_register(registry, passphrase, usernames), passphrase) == Some(usernames),
{
}

/// A registration changes the list of its own passphrase and no other.
pub proof fn law_registration_leaves_other_passphrases(
    registry: Registrations,
    passphrase: Seq<char>,
    usernames: Seq<Seq<char>>,
    other: Seq<char>,
)
    requires
        other != passphrase,
    ensures
        usernames_of(after_register(registry, passphrase, usernames), other) == usernames_of(registry, other),
{
}

/// Where a profile is written under a key, the key is registered with a
/// list that holds a username, and no passphrase that already owns the
/// username comes before the key, resolving the username against a profile
/// service that answers faithfully returns the profile as it was written.
pub proof fn law_resolution_returns_written_profile(
    profiles: Profiles,
    registry: Registrations,
    key: Seq<char>,
    details: UserDetailsView,
    usernames: Seq<Seq<char>>,
    username: Seq<char>,
)
    requires
        key.len() > 0,
        usernames.contains(username),
        forall|other: Seq<char>| #[trigger] owns(registry, other, username) ==> text_at_most(key, other),
    ensures
        first_owner(after_register(registry, key, usernames), username) == Some(key),
        resolution_result(
            after_register(registry, key, usernames),
            username,
            faithful_reply(after_write(profiles, key, details), key),
        ) == Ok::<UserDetailsView, ResolutionErrorView>(details),
{
    let registered = after_register(registry, key, usernames);
    assert forall|other: Seq<char>| #[trigger] owns(registered, other, username) implies text_at_most(
        key,
        other,
    ) by {
        if other != key {
            assert(owns(registry, other, username));
        }
    }
    law_first_owner_is_determined(registered, username, key);
}

/// The same, from two stores that hold nothing: a profile written under a
/// key and a username registered under it resolve to that profile.
pub proof fn law_resolution_from_empty_stores(
    key: Seq<char>,
    details: UserDetailsView,
    usernames: Seq<Seq<char>>,
    username: Seq<char>,
)
    requires
        key.len() > 0,
        usernames.contains(username),
    ensures
        resolution_result(
            after_register(Map::<Seq<char>, Seq<Seq<char>>>::empty(), key, usernames),
            username,
            faithful_reply(after_write(Map::<Seq<char>, UserDetailsView>::empty(), key, details), key),
        ) == Ok::<UserDetailsView, ResolutionErrorView>(details),
{
    law_resolution_returns_written_profile(
        Map::<Seq<char>, UserDetailsView>::empty(),
        Map::<Seq<char>, Seq<Seq<char>>>::empty(),
        key,
        details,
        usernames,
        username,
    );
}

/// A username that no passphrase owns resolves to `UsernameNotFound`: the
/// first step is that failure, whatever the address of the profile service,
/// so no call is named, and no reply changes the result.
pub proof fn law_unowned_username_is_not_found(
    registry: Registrations,
    username: Seq<char>,
    address: Option<Seq<u8>>,
    reply: RemoteReplyView,
)
    requires
        forall|passphrase: Seq<char>| !owns(registry, passphrase, username),
    ensures
        first_owner(registry, username) is None,
        first_step(first_owner(registry, username), address) == Some(
            ResolutionStepView::Failed(ResolutionErrorView::UsernameNotFound),
        ),
        resolution_result(registry, username, reply) == Err::<UserDetailsView, ResolutionErrorView>(
            ResolutionErrorView::UsernameNotFound,
        ),
{
    assert forall|passphrase: Seq<char>| !is_first_owner(registry, passphrase, username) by {
        assert(!owns(registry, passphrase, username));
    }
}

/// Which passphrase a username resolves to is determined by the registry's
/// contents: a passphrase that owns the username and precedes every other
/// that does is the one, and there is no second.
pub proof fn law_first_owner_is_determined(registry: Registrations, username: Seq<char>, passphrase: Seq<char>)
    requires
        is_first_owner(registry, passphrase, username),
    ensures
        first_owner(registry, username) == Some(passphrase),
        forall|other: Seq<char>| is_first_owner(registry, other, username) ==> other == passphrase,
{
    let chosen = choose|p: Seq<char>| is_first_owner(registry, p, username);
    lemma_first_owner_unique(registry, username, passphrase, chosen);
    assert forall|other: Seq<char>| is_first_owner(registry, other, username) implies other == passphrase by {
        lemma_first_owner_unique(registry, username, passphrase, other);
    }
}

/// In a valid registry a username has a first owner exactly if some
/// passphrase owns it: a resolution fails with `UsernameNotFound` for the
/// usernames that nobody owns, and for no others.
pub proof fn law_username_is_found_iff_owned(registry: Registrations, username: Seq<char>)
    requires
        valid_registrations(registry),
    ensures
        first_owner(registry, username) is None <==> forall|passphrase: Seq<char>|
            !owns(registry, passphrase, username),
        first_owner(registry, username) matches Some(passphrase) ==> is_first_owner(
            registry,
            passphrase,
            username,
        ),
{
    if exists|passphrase: Seq<char>| owns(registry, passphrase, username) {
        let owner = choose|passphrase: Seq<char>| owns(registry, passphrase, username);
        lemma_owned_username_has_first_owner(registry, username, owner);
    } else {
        assert forall|passphrase: Seq<char>| !is_first_owner(registry, passphrase, username) by {
            assert(!owns(registry, passphrase, username));
        }
    }
}

/// Where two passphrases own one username, it resolves to the one that
/// comes first in key order, whichever of the two was registered first.
pub proof fn law_shared_username_goes_to_the_lesser_passphrase(
    registry: Registrations,
    lesser: Seq<char>,
    greater: Seq<char>,
    lesser_list: Seq<Seq<char>>,
    greater_list: Seq<Seq<char>>,
    username: Seq<char>,
)
    requires
        lesser.len() > 0,
        greater.len() > 0,
        text_precedes(lesser, greater),
        lesser_list.contains(username),
        greater_list.contains(username),
        forall|other: Seq<char>| #[trigger] owns(registry, other, username) ==> text_at_most(lesser, other),
    ensures
        first_owner(
            after_register(after_register(registry, lesser, lesser_list), greater, greater_list),
            username,
        ) == Some(lesser),
        first_owner(
            after_register(after_register(registry, greater, greater_list), lesser, lesser_list),
            username,
        ) == Some(lesser),
{
    lemma_text_precedes_asymmetric(lesser, greater);
    let one = after_register(after_register(registry, lesser, lesser_list), greater, greater_list);
    let other_way = after_register(after_register(registry, greater, greater_list), lesser, lesser_list);
    assert(one =~= other_way);
    assert forall|other: Seq<char>| #[trigger] owns(one, other, username) implies text_at_most(lesser, other) by {
        if other != lesser && other != greater {
            assert(owns(registry, other, username));
        }
    }
    law_first_owner_is_determined(one, username, lesser);
}

/// A failed call is reported as `RemoteCallFailed` with the code and the
/// message of the failure, as they came, and as nothing else; the sentence
/// that describes it ends with the message.
pub proof fn law_failed_call_is_reported_as_it_came(code: RejectionCode, message: Seq<char>)
    ensures
        reply_outcome(RemoteReplyView::Failed { code, message }) == Err::<UserDetailsView, ResolutionErrorView>(
            ResolutionErrorView::RemoteCallFailed { code, message },
        ),
        reply_outcome(RemoteReplyView::Failed { code, message }) != Err::<UserDetailsView, ResolutionErrorView>(
            ResolutionErrorView::UsernameNotFound,
        ),
        (ResolutionErrorView::RemoteCallFailed { code, message }).message_text() == "Inter-canister call failed: ("@
            + code.name_text() + ") "@ + message,
{
}

/// An answer without a profile is the inconsistency between the two stores,
/// not an unknown username.
pub proof fn law_missing_profile_is_told_apart()
    ensures
        reply_outcome(RemoteReplyView::Answered(None)) == Err::<UserDetailsView, ResolutionErrorView>(
            ResolutionErrorView::ProfileMissingDespiteRegistration,
        ),
{
}

} // verus!
