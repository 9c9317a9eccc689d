//! The profile store: from a passkey to the profile written under it.

use vstd::prelude::*;
use vstd::string::StringExecFns;
use crate::table::OrderedTable;
use crate::validation::ValidationError;

verus! {

/// A user's profile: four free-form texts, none of them checked.
#[derive(Debug, PartialEq, Eq)]
pub struct UserDetails {
    pub first_name: String,
    pub last_name: String,
    pub skills: String,
    pub client_reviews: String,
}

/// A profile as the contracts see it: each text as its sequence of characters.
pub struct UserDetailsView {
    pub first_name: Seq<char>,
    pub last_name: Seq<char>,
    pub skills: Seq<char>,
    pub client_reviews: Seq<char>,
}

impl View for UserDetails {
    type V = UserDetailsView;

    open spec fn view(&self) -> UserDetailsView {
        UserDetailsView {
            first_name: self.first_name@,
            last_name: self.last_name@,
            skills: self.skills@,
            client_reviews: self.client_reviews@,
        }
    }
}

impl Clone for UserDetails {
    /// A copy that shares nothing with the profile it was made from.
    fn clone(&self) -> (copy: Self)
        ensures
            copy == *self,
    {
        UserDetails {
            first_name: self.first_name.clone(),
            last_name: self.last_name.clone(),
            skills: self.skills.clone(),
            client_reviews: self.client_reviews.clone(),
        }
    }
}

/// Which part of a profile a read asks for.
#[derive(Clone, Copy, Debug, PartialEq, Eq)]
pub enum QueryField {
    All,
    FirstName,
    LastName,
    Skills,
    ClientReviews,
}

/// What a read gives back.
#[derive(Debug, PartialEq, Eq)]
pub enum ReadResult {
    /// The whole profile.
    All(UserDetails),
    /// The one text that was asked for.
    Field(String),
    /// Nothing is stored under the passkey.
    NotFound,
}

/// A read's result as the contracts see it.
pub enum ReadResultView {
    All(UserDetailsView),
    Field(Seq<char>),
    NotFound,
}

impl View for ReadResult {
    type V = ReadResultView;

    open spec fn view(&self) -> ReadResultView {
        match self {
            ReadResult::All(details) => ReadResultView::All(details@),
            ReadResult::Field(text) => ReadResultView::Field(text@),
            ReadResult::NotFound => ReadResultView::NotFound,
        }
    }
}

/// The contents of a profile store: the profile under each passkey.
pub type Profiles = Map<Seq<char>, UserDetailsView>;

/// The store holds finitely many profiles, and none under the empty
/// passkey. Every store keeps this.
pub open spec fn valid_profiles(profiles: Profiles) -> bool {
    &&& profiles.dom().finite()
    &&& !profiles.contains_key(Seq::<char>::empty())
}

/// The store after a write: unchanged where the passkey is empty, else with
/// `details` under `passkey` in place of whatever was there.
pub open spec fn after_write(profiles: Profiles, passkey: Seq<char>, details: UserDetailsView) -> Profiles {
    if passkey.len() == 0 {
        profiles
    } else {
        profiles.insert(passkey, details)
    }
}

/// What a write answers: the error for an empty passkey, else success.
pub open spec fn write_outcome(passkey: Seq<char>) -> Result<(), ValidationError> {
    if passkey.len() == 0 {
        Err(ValidationError::EmptyPasskey)
    } else {
        Ok(())
    }
}

/// What a read gives back: `NotFound` for a passkey that holds nothing; the
/// whole profile where no field or `All` is asked for; else the one text.
pub open spec fn read_outcome(profiles: Profiles, passkey: Seq<char>, field: Option<QueryField>) -> ReadResultView {
    if !profiles.contains_key(passkey) {
        ReadResultView::NotFound
    } else {
        match field {
            None | Some(QueryField::All) => ReadResultView::All(profiles[passkey]),
            Some(QueryField::FirstName) => ReadResultView::Field(profiles[passkey].first_name),
            Some(QueryField::LastName) => ReadResultView::Field(profiles[passkey].last_name),
            Some(QueryField::Skills) => ReadResultView::Field(profiles[passkey].skills),
            Some(QueryField::ClientReviews) => ReadResultView::Field(profiles[passkey].client_reviews),
        }
    }
}

/// The profile under `passkey`, if there is one.
pub open spec fn fetched(profiles: Profiles, passkey: Seq<char>) -> Option<UserDetailsView> {
    if profiles.contains_key(passkey) {
        Some(profiles[passkey])
    } else {
        None
    }
}

/// The sentence that reports how a write ended.
pub open spec fn write_status_text(outcome: Result<(), ValidationError>) -> Seq<char> {
    match outcome {
        Ok(_) => "User details successfully saved."@,
        Err(error) => "Error: "@ + error.message_text(),
    }
}

/// The sentence that reports how a write ended, as a string.
pub fn write_status(outcome: Result<(), ValidationError>) -> (text: String)
    ensures
        text@ == write_status_text(outcome),
{
    match outcome {
        Ok(_) => "User details successfully saved.".to_owned(),
        Err(error) => {
            let message = error.message();
            "Error: ".to_owned().concat(message.as_str())
        },
    }
}

/// A store of profiles, one under each passkey that was written.
pub struct ProfileStore {
    table: OrderedTable<UserDetails>,
}

impl View for ProfileStore {
    type V = Profiles;

    closed spec fn view(&self) -> Profiles {
        self.table@.map_values(|details: UserDetails| details@)
    }
}

impl ProfileStore {
    #[verifier::type_invariant]
    spec fn no_empty_passkey(self) -> bool {
        !self.table@.contains_key(Seq::<char>::empty())
    }

    /// What every store keeps, from what its table keeps.
    proof fn lemma_valid(&self)
        requires
            self.no_empty_passkey(),
        ensures
            valid_profiles(self@),
    {
        self.table.lemma_view_finite();
        assert(self@.dom() =~= self.table@.dom());
    }

    /// A store that holds nothing.
    pub fn new() -> (store: Self)
        ensures
            store@ == Map::<Seq<char>, UserDetailsView>::empty(),
    {
        ProfileStore { table: OrderedTable::new() }
    }

    /// Stores `details` under `passkey`, replacing what was there. An empty
    /// passkey is refused and leaves the store as it was.
    pub fn write(&mut self, passkey: String, details: UserDetails) -> (outcome: Result<(), ValidationError>)
        ensures
            outcome == write_outcome(passkey@),
            final(self)@ == after_write(old(self)@, passkey@, details@),
            valid_profiles(final(self)@),
    {
        proof {
            use_type_invariant(&*self);
            self.lemma_valid();
        }
        if passkey.as_str().is_empty() {
            return Err(ValidationError::EmptyPasskey);
        }
        // The table leaves the store while it changes.
        let mut table: OrderedTable<UserDetails> = OrderedTable::new();
        core::mem::swap(&mut self.table, &mut table);
        table.insert(passkey, details);
        core::mem::swap(&mut self.table, &mut table);
        proof {
            self.lemma_valid();
        }
        Ok(())
    }

    /// Reads the profile under `passkey`, whole or in the part that `field`
    /// names.
    pub fn read(&self, passkey: String, field: Option<QueryField>) -> (result: ReadResult)
        ensures
            result@ == read_outcome(self@, passkey@, field),
            valid_profiles(self@),
    {
        proof {
            use_type_invariant(self);
            self.lemma_valid();
        }
        match self.table.get(passkey.as_str()) {
            None => ReadResult::NotFound,
            Some(details) => match field {
                None => ReadResult::All(details.clone()),
                Some(QueryField::All) => ReadResult::All(details.clone()),
                Some(QueryField::FirstName) => ReadResult::Field(details.first_name.clone()),
                Some(QueryField::LastName) => ReadResult::Field(details.last_name.clone()),
                Some(QueryField::Skills) => ReadResult::Field(details.skills.clone()),
                Some(QueryField::ClientReviews) => ReadResult::Field(details.client_reviews.clone()),
            },
        }
    }

    /// A copy of the profile under `passkey`, if there is one. The store is
    /// only read.
    pub fn get_user_details_by_passkey(&self, passkey: String) -> (found: Option<UserDetails>)
        ensures
            match found {
                Some(details) => fetched(self@, passkey@) == Some(details@),
                None => fetched(self@, passkey@) is None,
            },
            valid_profiles(self@),
    {
        proof {
            use_type_invariant(self);
            self.lemma_valid();
        }
        match self.table.get(passkey.as_str()) {
            None => None,
            Some(details) => Some(details.clone()),
        }
    }
}

} // verus!
