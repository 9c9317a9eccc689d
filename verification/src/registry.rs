//! The registry store: from a passphrase to the usernames registered under it.

use vstd::prelude::*;
use crate::table::OrderedTable;
use crate::text::{lemma_least_key, lemma_text_precedes_asymmetric, text_at_most, text_views};
use crate::validation::ValidationError;

verus! {

/// The contents of a registry: the list of usernames under each passphrase.
pub type Registrations = Map<Seq<char>, Seq<Seq<char>>>;

/// The registry holds finitely many passphrases, none of them empty, and no
/// registered list is empty. Every registry keeps this.
pub open spec fn valid_registrations(registry: Registrations) -> bool {
    &&& registry.dom().finite()
    &&& !registry.contains_key(Seq::<char>::empty())
    &&& forall|passphrase: Seq<char>| #[trigger]
        registry.contains_key(passphrase) ==> registry[passphrase].len() > 0
}

/// What a registration answers. The passphrase is looked at first.
pub open spec fn register_outcome(passphrase: Seq<char>, usernames: Seq<Seq<char>>) -> Result<
    (),
    ValidationError,
> {
    if passphrase.len() == 0 {
        Err(ValidationError::EmptyPassphrase)
    } else if usernames.len() == 0 {
        Err(ValidationError::EmptyUsernameList)
    } else {
        Ok(())
    }
}

/// The registry after a registration: unchanged where it was refused, else
/// with `usernames` as the whole list of `passphrase`.
pub open spec fn after_register(
    registry: Registrations,
    passphrase: Seq<char>,
    usernames: Seq<Seq<char>>,
) -> Registrations {
    if register_outcome(passphrase, usernames) is Ok {
        registry.insert(passphrase, usernames)
    } else {
        registry
    }
}

/// The list registered under `passphrase`, if there is one.
pub open spec fn usernames_of(registry: Registrations, passphrase: Seq<char>) -> Option<Seq<Seq<char>>> {
    if registry.contains_key(passphrase) {
        Some(registry[passphrase])
    } else {
        None
    }
}

/// `username` stands in the list registered under `passphrase`.
pub open spec fn owns(registry: Registrations, passphrase: Seq<char>, username: Seq<char>) -> bool {
    registry.contains_key(passphrase) && registry[passphrase].contains(username)
}

/// `passphrase` owns `username`, and no passphrase that owns it comes earlier
/// in key order.
pub open spec fn is_first_owner(registry: Registrations, passphrase: Seq<char>, username: Seq<char>) -> bool {
    &&& owns(registry, passphrase, username)
    &&& forall|other: Seq<char>| #[trigger]
        owns(registry, other, username) ==> text_at_most(passphrase, other)
}

/// The passphrase that a scan in ascending key order meets first among those
/// that own `username`.
pub open spec fn first_owner(registry: Registrations, username: Seq<char>) -> Option<Seq<char>> {
    if exists|passphrase: Seq<char>| is_first_owner(registry, passphrase, username) {
        Some(choose|passphrase: Seq<char>| is_first_owner(registry, passphrase, username))
    } else {
        None
    }
}

/// A username has at most one first owner.
pub proof fn lemma_first_owner_unique(
    registry: Registrations,
    username: Seq<char>,
    one: Seq<char>,
    other: Seq<char>,
)
    requires
        is_first_owner(registry, one, username),
        is_first_owner(registry, other, username),
    ensures
        one == other,
{
    if one != other {
        lemma_text_precedes_asymmetric(one, other);
    }
}

/// In a registry of finitely many passphrases, a username that some
/// passphrase owns has a first owner.
pub proof fn lemma_owned_username_has_first_owner(registry: Registrations, username: Seq<char>, owner: Seq<char>)
    requires
        registry.dom().finite(),
        owns(registry, owner, username),
    ensures
        first_owner(registry, username) is Some,
        is_first_owner(registry, first_owner(registry, username)->0, username),
{
    let owners = registry.dom().filter(|passphrase: Seq<char>| owns(registry, passphrase, username));
    registry.dom().lemma_len_filter(|passphrase: Seq<char>| owns(registry, passphrase, username));
    assert(owners.contains(owner));
    assert(owners.len() > 0) by {
        if owners.len() == 0 {
            assert(owners =~= Set::<Seq<char>>::empty());
        }
    }
    let least = lemma_least_key(owners);
    assert forall|other: Seq<char>| #[trigger] owns(registry, other, username) implies text_at_most(
        least,
        other,
    ) by {
        assert(owners.contains(other));
    }
    assert(is_first_owner(registry, least, username));
}

/// Whether `username` stands in `list`.
pub fn list_contains(list: &Vec<String>, username: &String) -> (found: bool)
    ensures
        found == text_views(list@).contains(username@),
{
    let n = list.len();
    let mut i: usize = 0;
    while i < n
        invariant
            n == list.len(),
            i <= n,
            forall|j: int| 0 <= j < i ==> text_views(list@)[j] != username@,
        decreases n - i,
    {
        if list[i] == *username {
            assert(text_views(list@)[i as int] == username@);
            return true;
        }
        i = i + 1;
    }
    false
}

/// A copy of `list` that shares nothing with it.
pub fn copy_list(list: &Vec<String>) -> (copy: Vec<String>)
    ensures
        copy@ == list@,
{
    let n = list.len();
    let mut copy: Vec<String> = Vec::new();
    let mut i: usize = 0;
    while i < n
        invariant
            n == list.len(),
            i <= n,
            copy@ == list@.subrange(0, i as int),
        decreases n - i,
    {
        copy.push(list[i].clone());
        i = i + 1;
    }
    copy
}

/// A registry of usernames, one ordered list under each passphrase.
pub struct RegistryStore {
    table: OrderedTable<Vec<String>>,
}

impl View for RegistryStore {
    type V = Registrations;

    closed spec fn view(&self) -> Registrations {
        self.table@.map_values(|list: Vec<String>| text_views(list@))
    }
}

impl RegistryStore {
    #[verifier::type_invariant]
    spec fn entries_valid(self) -> bool {
        &&& !self.table@.contains_key(Seq::<char>::empty())
        &&& forall|passphrase: Seq<char>| #[trigger]
            self.table@.contains_key(passphrase) ==> self.table@[passphrase].len() > 0
    }

    /// What every registry keeps, from what its table keeps.
    proof fn lemma_valid(&self)
        requires
            self.entries_valid(),
        ensures
            valid_registrations(self@),
    {
        self.table.lemma_view_finite();
        assert(self@.dom() =~= self.table@.dom());
    }

    /// A registry that holds nothing.
    pub fn new() -> (store: Self)
        ensures
            store@ == Map::<Seq<char>, Seq<Seq<char>>>::empty(),
    {
        RegistryStore { table: OrderedTable::new() }
    }

    /// Makes `usernames` the whole list of `passphrase`; a list registered
    /// before is dropped, not merged. An empty passphrase or an empty list is
    /// refused and leaves the registry as it was.
    pub fn register_passphrase(&mut self, passphrase: String, usernames: Vec<String>) -> (outcome: Result<
        (),
        ValidationError,
    >)
        ensures
            outcome == register_outcome(passphrase@, text_views(usernames@)),
            final(self)@ == after_register(old(self)@, passphrase@, text_views(usernames@)),
            valid_registrations(final(self)@),
    {
        proof {
            use_type_invariant(&*self);
            self.lemma_valid();
        }
        if passphrase.as_str().is_empty() {
            return Err(ValidationError::EmptyPassphrase);
        }
        if usernames.len() == 0 {
            return Err(ValidationError::EmptyUsernameList);
        }
        let ghost before = self.table@;
        // The table leaves the registry while it changes.
        let mut table: OrderedTable<Vec<String>> = OrderedTable::new();
        core::mem::swap(&mut self.table, &mut table);
        table.insert(passphrase, usernames);
        core::mem::swap(&mut self.table, &mut table);
        proof {
            assert(self@ =~= before.map_values(|list: Vec<String>| text_views(list@)).insert(
                passphrase@,
                text_views(usernames@),
            ));
            self.lemma_valid();
        }
        Ok(())
    }

    /// A copy of the list registered under `passphrase`, in its order, if
    /// there is one.
    pub fn get_usernames(&self, passphrase: String) -> (found: Option<Vec<String>>)
        ensures
            match found {
                Some(list) => usernames_of(self@, passphrase@) == Some(text_views(list@)),
                None => usernames_of(self@, passphrase@) is None,
            },
            valid_registrations(self@),
    {
        proof {
            use_type_invariant(self);
            self.lemma_valid();
        }
        match self.table.get(passphrase.as_str()) {
            None => None,
            Some(list) => Some(copy_list(list)),
        }
    }

    /// The passphrase that owns `username`: the first, in ascending key
    /// order, whose list holds it. Usernames need not be unique across
    /// passphrases. Where several own one, which of them is found follows
    /// from the order of the keys alone and expresses no rank among them:
    /// callers should not build on it.
    pub fn find_passphrase_for_username(&self, username: &String) -> (found: Option<String>)
        ensures
            match found {
                Some(passphrase) => is_first_owner(self@, passphrase@, username@),
                None => forall|passphrase: Seq<char>| !owns(self@, passphrase, username@),
            },
            match found {
                Some(passphrase) => first_owner(self@, username@) == Some(passphrase@),
                None => first_owner(self@, username@) is None,
            },
            valid_registrations(self@),
    {
        proof {
            use_type_invariant(self);
            self.lemma_valid();
        }
        let n = self.table.len();
        let ghost keys = self.table.ordered_keys();
        let mut i: usize = 0;
        while i < n
            invariant
                n == keys.len(),
                keys == self.table.ordered_keys(),
                self.table.walk_matches_view(),
                valid_registrations(self@),
                i <= n,
                forall|j: int| 0 <= j < i ==> !owns(self@, keys[j], username@),
            decreases n - i,
        {
            let list = self.table.value_at(i);
            if list_contains(list, username) {
                let passphrase = self.table.key_at(i).clone();
                proof {
                    // Every owner stands somewhere in the walk: not before this
                    // position, where no list held the username, so here or later.
                    assert forall|other: Seq<char>| #[trigger]
                        owns(self@, other, username@) implies text_at_most(passphrase@, other) by {
                        assert(keys.contains(other));
                        let j = keys.index_of(other);
                        assert(0 <= j < keys.len() && keys[j] == other);
                        assert(i <= j);
                    }
                    assert(is_first_owner(self@, passphrase@, username@));
                    let chosen = choose|p: Seq<char>| is_first_owner(self@, p, username@);
                    lemma_first_owner_unique(self@, username@, passphrase@, chosen);
                }
                return Some(passphrase);
            }
            i = i + 1;
        }
        proof {
            // The walk met every key, and no list held the username.
            assert forall|passphrase: Seq<char>| !owns(self@, passphrase, username@) by {
                if owns(self@, passphrase, username@) {
                    assert(keys.contains(passphrase));
                    let j = keys.index_of(passphrase);
                    assert(0 <= j < keys.len() && keys[j] == passphrase);
                }
            }
        }
        None
    }
}

} // verus!
