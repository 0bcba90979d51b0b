//! Creator registry: identity records with a unique username and an optional
//! linked wallet. The registry is the only owner of creator rows; the wallet
//! address is never written through the generic update path, only through the
//! wallet linker.
use crate::ledger::TipLedger;
use vstd::prelude::*;

verus! {

/// One payable identity.
pub struct Creator {
    pub id: u64,
    pub username: String,
    pub display_name: String,
    pub email: String,
    pub bio: Option<String>,
    pub profile_image: Option<String>,
    pub wallet_address: Option<String>,
    pub created_at: u64,
}

/// Mathematical image of a `Creator`: the same record over sequences of
/// characters.
pub struct CreatorModel {
    pub id: u64,
    pub username: Seq<char>,
    pub display_name: Seq<char>,
    pub email: Seq<char>,
    pub bio: Option<Seq<char>>,
    pub profile_image: Option<Seq<char>>,
    pub wallet_address: Option<Seq<char>>,
    pub created_at: u64,
}

pub open spec fn opt_view(s: Option<String>) -> Option<Seq<char>> {
    match s {
        Some(v) => Some(v@),
        None => None,
    }
}

impl View for Creator {
    type V = CreatorModel;

    open spec fn view(&self) -> CreatorModel {
        CreatorModel {
            id: self.id,
            username: self.username@,
            display_name: self.display_name@,
            email: self.email@,
            bio: opt_view(self.bio),
            profile_image: opt_view(self.profile_image),
            wallet_address: opt_view(self.wallet_address),
            created_at: self.created_at,
        }
    }
}

/// Fields a caller supplies to create a creator. The wallet address is not
/// among them: it is only ever set through a verified wallet-link proof.
pub struct CreateCreatorInput {
    pub username: String,
    pub display_name: String,
    pub email: String,
    pub bio: Option<String>,
    pub profile_image: Option<String>,
}

/// Partial update: only fields supplied as `Some` are changed. The wallet
/// address and the username are excluded from this generic path.
pub struct UpdateCreatorInput {
    pub display_name: Option<String>,
    pub email: Option<String>,
    pub bio: Option<String>,
    pub profile_image: Option<String>,
}

#[derive(PartialEq, Eq, Structural, Clone, Copy, Debug)]
pub enum RegistryError {
    DuplicateUsername,
    NotFound,
    HasDependentTips,
}

/// True when some live creator already holds `username`.
pub open spec fn username_taken(s: Seq<CreatorModel>, username: Seq<char>) -> bool {
    exists|i: int| 0 <= i < s.len() && s[i].username == username
}

/// True when some live creator has id `id`.
pub open spec fn has_creator(s: Seq<CreatorModel>, id: u64) -> bool {
    exists|i: int| 0 <= i < s.len() && s[i].id == id
}

/// The record produced by a successful create.
pub open spec fn fresh_creator(input: CreateCreatorInput, id: u64, now: u64) -> CreatorModel {
    CreatorModel {
        id: id,
        username: input.username@,
        display_name: input.display_name@,
        email: input.email@,
        bio: opt_view(input.bio),
        profile_image: opt_view(input.profile_image),
        wallet_address: None,
        created_at: now,
    }
}

/// A creator record after a partial update: provided fields replaced, the
/// identity, username, wallet address and creation time untouched.
pub open spec fn patched(c: CreatorModel, input: UpdateCreatorInput) -> CreatorModel {
    CreatorModel {
        display_name: match input.display_name {
            Some(d) => d@,
            None => c.display_name,
        },
        email: match input.email {
            Some(e) => e@,
            None => c.email,
        },
        bio: match input.bio {
            Some(b) => Some(b@),
            None => c.bio,
        },
        profile_image: match input.profile_image {
            Some(p) => Some(p@),
            None => c.profile_image,
        },
        ..c
    }
}

/// A creator record with its wallet address rebound. Only the wallet linker
/// writes this field, and only after a verified proof of control.
pub open spec fn patched_wallet(c: CreatorModel, wallet: Seq<char>) -> CreatorModel {
    CreatorModel { wallet_address: Some(wallet), ..c }
}

/// Law: usernames stay unique. After a create succeeds, its username is
/// taken, so a second create with the same username — against the registry
/// the first one produced — is refused and leaves the registry unchanged,
/// still holding the one original record.
pub proof fn lemma_username_taken_after_create(
    s: Seq<CreatorModel>,
    input: CreateCreatorInput,
    id: u64,
    now: u64,
)
    ensures
        username_taken(s.push(fresh_creator(input, id, now)), input.username@),
{
    let s2 = s.push(fresh_creator(input, id, now));
    assert(s2[s.len() as int].username == input.username@);
}

/// The creator registry. `next_id` is the surrogate id the next created
/// record will receive.
pub struct Registry {
    pub creators: Vec<Creator>,
    pub next_id: u64,
}

impl View for Registry {
    type V = Seq<CreatorModel>;

    open spec fn view(&self) -> Seq<CreatorModel> {
        Seq::new(self.creators@.len(), |i: int| self.creators@[i]@)
    }
}

impl Registry {
    /// Usernames are unique, ids are unique and all below `next_id`.
    pub open spec fn wf(self) -> bool {
        &&& forall|i: int, j: int|
            0 <= i < j < self@.len() ==> self@[i].username != self@[j].username
        &&& forall|i: int, j: int| 0 <= i < j < self@.len() ==> self@[i].id != self@[j].id
        &&& forall|i: int| 0 <= i < self@.len() ==> self@[i].id < self.next_id
    }

    /// An empty registry; ids are assigned from 1 upward.
    pub fn new() -> (r: Registry)
        ensures
            r@ =~= Seq::<CreatorModel>::empty(),
            r.wf(),
            r.next_id == 1,
    {
        Registry { creators: Vec::new(), next_id: 1 }
    }

    /// Create a creator unless the username is already taken. At most one
    /// record per username can ever exist: the duplicate branch leaves the
    /// registry exactly as it was.
    #[verifier::loop_isolation(false)]
    pub fn create_creator(&mut self, input: CreateCreatorInput, now: u64) -> (r: Result<
        u64,
        RegistryError,
    >)
        requires
            old(self).wf(),
            old(self).next_id < u64::MAX,
        ensures
            final(self).wf(),
            final(self).next_id >= old(self).next_id,
            username_taken(old(self)@, input.username@) ==> {
                &&& r == Err::<u64, RegistryError>(RegistryError::DuplicateUsername)
                &&& final(self)@ == old(self)@
                &&& final(self).next_id == old(self).next_id
            },
            !username_taken(old(self)@, input.username@) ==> {
                &&& r == Ok::<u64, RegistryError>(old(self).next_id)
                &&& final(self)@ =~= old(self)@.push(
                    fresh_creator(input, old(self).next_id, now),
                )
                &&& final(self).next_id == old(self).next_id + 1
            },
    {
        let n = self.creators.len();
        for i in 0..n
            invariant
                n == self.creators.len(),
                forall|j: int| 0 <= j < i ==> self@[j].username != input.username@,
        {
            if self.creators[i].username == input.username {
                assert(self@[i as int].username == input.username@);
                return Err(RegistryError::DuplicateUsername);
            }
        }
        let id = self.next_id;
        let created = Creator {
            id,
            username: input.username,
            display_name: input.display_name,
            email: input.email,
            bio: input.bio,
            profile_image: input.profile_image,
            wallet_address: None,
            created_at: now,
        };
        self.creators.push(created);
        self.next_id = id + 1;
        assert(self@ =~= old(self)@.push(fresh_creator(input, id, now)));
        assert(self.wf()) by {
            let prev = old(self)@;
            assert forall|a: int, b: int| 0 <= a < b < self@.len() implies self@[a].username
                != self@[b].username && self@[a].id != self@[b].id by {
                if b < prev.len() {
                    assert(self@[a] == prev[a]);
                    assert(self@[b] == prev[b]);
                } else {
                    assert(self@[a] == prev[a]);
                    assert(self@[b] == fresh_creator(input, id, now));
                    assert(!(0 <= a < prev.len() && prev[a].username == input.username@));
                }
            }
        }
        Ok(id)
    }

    /// Look a creator up by id.
    #[verifier::loop_isolation(false)]
    pub fn get_creator(&self, id: u64) -> (r: Option<&Creator>)
        requires
            self.wf(),
        ensures
            r is Some <==> has_creator(self@, id),
            r matches Some(c) ==> c@.id == id && exists|i: int|
                0 <= i < self@.len() && self@[i] == c@,
    {
        let n = self.creators.len();
        for i in 0..n
            invariant
                n == self.creators.len(),
                forall|j: int| 0 <= j < i ==> self@[j].id != id,
        {
            if self.creators[i].id == id {
                assert(self@[i as int] == self.creators[i as int]@);
                return Some(&self.creators[i]);
            }
        }
        None
    }

    /// All creators, in order of creation.
    pub fn list_creators(&self) -> (r: &Vec<Creator>)
        ensures
            r@.len() == self@.len(),
            forall|i: int| 0 <= i < r@.len() ==> r@[i]@ == self@[i],
    {
        &self.creators
    }

    /// True when no live creator holds `username`.
    #[verifier::loop_isolation(false)]
    pub fn check_username(&self, username: &String) -> (r: bool)
        ensures
            r == !username_taken(self@, username@),
    {
        let n = self.creators.len();
        for i in 0..n
            invariant
                n == self.creators.len(),
                forall|j: int| 0 <= j < i ==> self@[j].username != username@,
        {
            if self.creators[i].username == *username {
                assert(self@[i as int].username == username@);
                return false;
            }
        }
        true
    }

    /// Partial update of the mutable profile fields. Returns false and leaves
    /// the registry untouched when no creator has this id. The username, the
    /// wallet address and the creation time are never changed here.
    #[verifier::loop_isolation(false)]
    pub fn update_creator(&mut self, id: u64, input: UpdateCreatorInput) -> (r: bool)
        requires
            old(self).wf(),
        ensures
            final(self).wf(),
            final(self).next_id == old(self).next_id,
            final(self)@.len() == old(self)@.len(),
            r == has_creator(old(self)@, id),
            forall|j: int|
                0 <= j < old(self)@.len() && old(self)@[j].id != id ==> final(self)@[j]
                    == old(self)@[j],
            forall|j: int|
                0 <= j < old(self)@.len() && old(self)@[j].id == id ==> final(self)@[j] == patched(
                    old(self)@[j],
                    input,
                ),
    {
        let ghost pre = self@;
        let n = self.creators.len();
        for i in 0..n
            invariant
                n == self.creators.len(),
                self@ == pre,
                self.next_id == old(self).next_id,
                forall|j: int| 0 <= j < i ==> self@[j].id != id,
        {
            if self.creators[i].id == id {
                assert(has_creator(pre, id)) by {
                    assert(pre[i as int].id == id);
                }
                let mut c = self.creators.remove(i);
                if let Some(d) = input.display_name {
                    c.display_name = d;
                }
                if let Some(e) = input.email {
                    c.email = e;
                }
                if let Some(b) = input.bio {
                    c.bio = Some(b);
                }
                if let Some(p) = input.profile_image {
                    c.profile_image = Some(p);
                }
                assert(c@ == patched(pre[i as int], input));
                self.creators.insert(i, c);
                assert(self@ =~= pre.update(i as int, patched(pre[i as int], input)));
                assert forall|j: int|
                    0 <= j < pre.len() && pre[j].id == id implies self@[j] == patched(
                    pre[j],
                    input,
                ) by {
                    if j != i {
                        assert(pre[j].id != pre[i as int].id);
                    }
                }
                assert(self.wf()) by {
                    assert forall|j: int| 0 <= j < self@.len() implies self@[j].username
                        == pre[j].username && self@[j].id == pre[j].id by {}
                }
                return true;
            }
        }
        false
    }

    /// Rebind a creator's wallet address. Not part of the public surface:
    /// only the wallet linker calls this, after a verified proof of control.
    /// Returns false and changes nothing when no creator has this id.
    #[verifier::loop_isolation(false)]
    pub(crate) fn set_wallet(&mut self, id: u64, wallet: &String) -> (r: bool)
        requires
            old(self).wf(),
        ensures
            final(self).wf(),
            final(self).next_id == old(self).next_id,
            final(self)@.len() == old(self)@.len(),
            r == has_creator(old(self)@, id),
            forall|j: int|
                0 <= j < old(self)@.len() && old(self)@[j].id != id ==> final(self)@[j]
                    == old(self)@[j],
            forall|j: int|
                0 <= j < old(self)@.len() && old(self)@[j].id == id ==> final(self)@[j]
                    == patched_wallet(old(self)@[j], wallet@),
    {
        let ghost pre = self@;
        let n = self.creators.len();
        for i in 0..n
            invariant
                n == self.creators.len(),
                self@ == pre,
                self.next_id == old(self).next_id,
                forall|j: int| 0 <= j < i ==> self@[j].id != id,
        {
            if self.creators[i].id == id {
                assert(has_creator(pre, id)) by {
                    assert(pre[i as int].id == id);
                }
                let mut c = self.creators.remove(i);
                c.wallet_address = Some(wallet.clone());
                assert(c@ == patched_wallet(pre[i as int], wallet@));
                self.creators.insert(i, c);
                assert(self@ =~= pre.update(i as int, patched_wallet(pre[i as int], wallet@)));
                assert forall|j: int|
                    0 <= j < pre.len() && pre[j].id == id implies self@[j] == patched_wallet(
                    pre[j],
                    wallet@,
                ) by {
                    if j != i {
                        assert(pre[j].id != pre[i as int].id);
                    }
                }
                assert(self.wf()) by {
                    assert forall|j: int| 0 <= j < self@.len() implies self@[j].username
                        == pre[j].username && self@[j].id == pre[j].id by {}
                }
                return true;
            }
        }
        false
    }

    /// Delete a creator, refusing while tips still reference it: a tip holds
    /// a non-owning reference to its creator, so the registry rejects the
    /// delete rather than orphaning rows.
    #[verifier::loop_isolation(false)]
    pub fn delete_creator(&mut self, id: u64, ledger: &TipLedger) -> (r: Result<
        (),
        RegistryError,
    >)
        requires
            old(self).wf(),
            ledger.wf(),
        ensures
            final(self).wf(),
            final(self).next_id == old(self).next_id,
            !has_creator(old(self)@, id) ==> r == Err::<(), RegistryError>(RegistryError::NotFound)
                && final(self)@ == old(self)@,
            has_creator(old(self)@, id) && crate::ledger::has_tip_for(ledger@, id) ==> r == Err::<
                (),
                RegistryError,
            >(RegistryError::HasDependentTips) && final(self)@ == old(self)@,
            has_creator(old(self)@, id) && !crate::ledger::has_tip_for(ledger@, id) ==> r == Ok::<
                (),
                RegistryError,
            >(()) && exists|i: int|
                0 <= i < old(self)@.len() && old(self)@[i].id == id && final(self)@
                    =~= old(self)@.remove(i),
    {
        let ghost pre = self@;
        let n = self.creators.len();
        for i in 0..n
            invariant
                n == self.creators.len(),
                self@ == pre,
                self.next_id == old(self).next_id,
                forall|j: int| 0 <= j < i ==> self@[j].id != id,
        {
            if self.creators[i].id == id {
                assert(has_creator(pre, id)) by {
                    assert(pre[i as int].id == id);
                }
                if ledger.has_tips_for_creator(id) {
                    return Err(RegistryError::HasDependentTips);
                }
                self.creators.remove(i);
                assert(self@ =~= pre.remove(i as int));
                assert(self.wf()) by {
                    assert forall|a: int, b: int|
                        0 <= a < b < self@.len() implies self@[a].username != self@[b].username
                        && self@[a].id != self@[b].id by {
                        let a0 = if a < i { a } else { a + 1 };
                        let b0 = if b < i { b } else { b + 1 };
                        assert(self@[a] == pre[a0]);
                        assert(self@[b] == pre[b0]);
                    }
                    assert forall|a: int| 0 <= a < self@.len() implies self@[a].id
                        < self.next_id by {
                        let a0 = if a < i { a } else { a + 1 };
                        assert(self@[a] == pre[a0]);
                    }
                }
                return Ok(());
            }
        }
        Err(RegistryError::NotFound)
    }
}

} // verus!
