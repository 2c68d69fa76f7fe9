//! Player identities: each account registers one unique username of 3 to 20
//! bytes with a profile; the admin verifies identities; a username can be
//! handed to another account, at most once every 30 days per receiver.
use vstd::prelude::*;
use std::collections::HashMap;
use crate::util::AccountId;

verus! {

broadcast use vstd::std_specs::hash::group_hash_axioms;

pub const USERNAME_MIN: usize = 3;
pub const USERNAME_MAX: usize = 20;

/// The wait between transfers to the same account: 30 days, in seconds.
pub const TRANSFER_COOLDOWN_SECONDS: u64 = 2592000;

#[derive(Clone, Copy, Debug, PartialEq, Eq, Structural)]
pub enum IdentityError {
    AlreadyInitialized,
    NotInitialized,
    InvalidUsernameLength,
    UsernameTaken,
    AddressHasIdentity,
    IdentityNotFound,
    AdminOnly,
    CooldownNotElapsed,
    Overflow,
}

pub struct SocialLinks {
    pub twitter: Option<String>,
    pub discord: Option<String>,
    pub github: Option<String>,
}

pub struct PlayerIdentity {
    pub address: AccountId,
    /// The username's bytes.
    pub username: Vec<u8>,
    pub avatar_hash: Option<String>,
    pub bio_hash: Option<String>,
    pub social_links: SocialLinks,
    pub registered_at: u64,
    pub verified: bool,
}

/// A change of the owner of a username (`None` releases it).
pub struct NameRecord {
    pub username: Vec<u8>,
    pub owner: Option<AccountId>,
}

/// The storage of the contract.
pub struct IdentityContract {
    pub admin: Option<AccountId>,
    /// Username ownership changes, oldest first.
    pub names: Vec<NameRecord>,
    pub identities: HashMap<u64, PlayerIdentity>,
    pub transfer_cooldown: HashMap<u64, u64>,
}

/// The owner of each username after the changes `s`.
pub open spec fn name_owners(s: Seq<NameRecord>) -> Map<Seq<u8>, AccountId>
    decreases s.len(),
{
    if s.len() == 0 {
        Map::empty()
    } else {
        let m = name_owners(s.drop_last());
        match s.last().owner {
            Some(o) => m.insert(s.last().username@, o),
            None => m.remove(s.last().username@),
        }
    }
}

fn copy_bytes(v: &Vec<u8>) -> (r: Vec<u8>)
    ensures
        r@ == v@,
{
    crate::util::copy_vec(v)
}

/// Whether two byte strings are equal.
fn bytes_eq(a: &Vec<u8>, b: &Vec<u8>) -> (r: bool)
    ensures
        r == (a@ == b@),
{
    if a.len() != b.len() {
        return false;
    }
    let mut i: usize = 0;
    while i < a.len()
        invariant
            i <= a.len(),
            a.len() == b.len(),
            forall|j: int| 0 <= j < i ==> a@[j] == b@[j],
        decreases a.len() - i,
    {
        if a[i] != b[i] {
            return false;
        }
        i = i + 1;
    }
    assert(a@ =~= b@);
    true
}

fn copy_opt(s: &Option<String>) -> (r: Option<String>)
    ensures
        r == *s,
{
    match s {
        Some(x) => Some(x.clone()),
        None => None,
    }
}

impl SocialLinks {
    pub fn copy(&self) -> (r: SocialLinks)
        ensures
            r == *self,
    {
        SocialLinks { twitter: copy_opt(&self.twitter), discord: copy_opt(&self.discord), github: copy_opt(&self.github) }
    }
}

impl PlayerIdentity {
    pub open spec fn same(&self, other: &PlayerIdentity) -> bool {
        &&& self.address == other.address
        &&& self.username@ == other.username@
        &&& self.avatar_hash == other.avatar_hash
        &&& self.bio_hash == other.bio_hash
        &&& self.social_links == other.social_links
        &&& self.registered_at == other.registered_at
        &&& self.verified == other.verified
    }

    pub fn copy(&self) -> (r: PlayerIdentity)
        ensures
            r.same(self),
    {
        PlayerIdentity {
            address: self.address,
            username: copy_bytes(&self.username),
            avatar_hash: copy_opt(&self.avatar_hash),
            bio_hash: copy_opt(&self.bio_hash),
            social_links: self.social_links.copy(),
            registered_at: self.registered_at,
            verified: self.verified,
        }
    }
}

impl IdentityContract {
    /// The owner of each username.
    pub open spec fn owners(&self) -> Map<Seq<u8>, AccountId> {
        name_owners(self.names@)
    }

    /// The owner of `username`, if any.
    fn owner_of(&self, username: &Vec<u8>) -> (r: Option<AccountId>)
        ensures
            r == (if self.owners().contains_key(username@) {
                Some(self.owners()[username@])
            } else {
                None::<AccountId>
            }),
    {
        let s = &self.names;
        let mut i: usize = s.len();
        assert(s@.take(s.len() as int) =~= s@);
        while i > 0
            invariant
                i <= s.len(),
                s@ == self.names@,
                forall|j: int| i <= j < s.len() ==> (#[trigger] s@[j]).username@ != username@,
                name_owners(s@).contains_key(username@) == name_owners(s@.take(i as int)).contains_key(username@),
                name_owners(s@).contains_key(username@) ==> name_owners(s@)[username@] == name_owners(
                    s@.take(i as int),
                )[username@],
            decreases i,
        {
            assert(s@.take(i as int).drop_last() =~= s@.take(i as int - 1));
            assert(s@.take(i as int).last() == s@[i as int - 1]);
            if bytes_eq(&s[i - 1].username, username) {
                return s[i - 1].owner;
            }
            i = i - 1;
        }
        None
    }

    /// An empty contract.
    pub fn new() -> (r: Self)
        ensures
            r.admin is None,
            r.names@.len() == 0,
            r.identities@ == Map::<u64, PlayerIdentity>::empty(),
            r.transfer_cooldown@ == Map::<u64, u64>::empty(),
    {
        IdentityContract { admin: None, names: Vec::new(), identities: HashMap::new(), transfer_cooldown: HashMap::new() }
    }

    /// Stores the admin.
    pub fn initialize(&mut self, admin: AccountId) -> (r: Result<(), IdentityError>)
        ensures
            old(self).admin is Some ==> r == Err::<(), IdentityError>(IdentityError::AlreadyInitialized) && *final(self)
                == *old(self),
            old(self).admin is None ==> r is Ok && *final(self) == (IdentityContract { admin: Some(admin), ..*old(self) }),
    {
        if self.admin.is_some() {
            return Err(IdentityError::AlreadyInitialized);
        }
        self.admin = Some(admin);
        Ok(())
    }

    /// The error of `register`, checked in the order of the contract.
    pub open spec fn register_error(&self, caller: AccountId, username: Seq<u8>) -> Option<IdentityError> {
        if username.len() < USERNAME_MIN || username.len() > USERNAME_MAX {
            Some(IdentityError::InvalidUsernameLength)
        } else if self.owners().contains_key(username) {
            Some(IdentityError::UsernameTaken)
        } else if self.identities@.contains_key(caller) {
            Some(IdentityError::AddressHasIdentity)
        } else {
            None
        }
    }

    /// Gives `caller` the free `username` with an empty profile at time `now`.
    pub fn register(&mut self, caller: AccountId, username: Vec<u8>, now: u64) -> (r: Result<(), IdentityError>)
        ensures
            r is Ok ==> forall|c: AccountId| #[trigger] final(self).register_error(c, username@) is Some,
            match old(self).register_error(caller, username@) {
                Some(e) => r == Err::<(), IdentityError>(e) && *final(self) == *old(self),
                None => {
                    let id = final(self).identities@[caller];
                    &&& r is Ok
                    &&& final(self).owners() == old(self).owners().insert(username@, caller)
                    &&& final(self).identities@.dom() == old(self).identities@.dom().insert(caller)
                    &&& forall|a: u64| a != caller && #[trigger] old(self).identities@.contains_key(a)
                        ==> final(self).identities@[a] == old(self).identities@[a]
                    &&& id.address == caller && id.username@ == username@
                    &&& id.avatar_hash is None && id.bio_hash is None
                    &&& id.social_links == (SocialLinks { twitter: None, discord: None, github: None })
                    &&& id.registered_at == now && !id.verified
                    &&& final(self).admin == old(self).admin
                    &&& final(self).transfer_cooldown@ == old(self).transfer_cooldown@
                },
            },
    {
        if username.len() < USERNAME_MIN || username.len() > USERNAME_MAX {
            return Err(IdentityError::InvalidUsernameLength);
        }
        if self.owner_of(&username).is_some() {
            return Err(IdentityError::UsernameTaken);
        }
        if self.identities.contains_key(&caller) {
            return Err(IdentityError::AddressHasIdentity);
        }
        let ghost old_names = self.names@;
        let ghost old_ids = self.identities@;
        self.names.push(NameRecord { username: copy_bytes(&username), owner: Some(caller) });
        assert(self.names@.drop_last() =~= old_names);
        self.identities.insert(
            caller,
            PlayerIdentity {
                address: caller,
                username,
                avatar_hash: None,
                bio_hash: None,
                social_links: SocialLinks { twitter: None, discord: None, github: None },
                registered_at: now,
                verified: false,
            },
        );
        assert(self.identities@.dom() =~= old_ids.dom().insert(caller));
        Ok(())
    }

    /// Replaces the profile fields of `caller`'s identity.
    pub fn update_profile(
        &mut self,
        caller: AccountId,
        avatar_hash: Option<String>,
        bio_hash: Option<String>,
        social_links: SocialLinks,
    ) -> (r: Result<(), IdentityError>)
        ensures
            !old(self).identities@.contains_key(caller) ==> r == Err::<(), IdentityError>(
                IdentityError::IdentityNotFound,
            ) && *final(self) == *old(self),
            old(self).identities@.contains_key(caller) ==> r is Ok && final(self).identities@ == old(self).identities@.insert(
                caller,
                PlayerIdentity { avatar_hash, bio_hash, social_links, ..old(self).identities@[caller] },
            ) && final(self).names@ == old(self).names@ && final(self).admin == old(self).admin && final(
                self).transfer_cooldown@ == old(self).transfer_cooldown@,
    {
        if !self.identities.contains_key(&caller) {
            return Err(IdentityError::IdentityNotFound);
        }
        let mut id = self.identities.remove(&caller).unwrap();
        id.avatar_hash = avatar_hash;
        id.bio_hash = bio_hash;
        id.social_links = social_links;
        self.identities.insert(caller, id);
        Ok(())
    }

    /// Marks `target`'s identity verified; the admin only.
    pub fn verify_identity(&mut self, admin: AccountId, target: AccountId) -> (r: Result<(), IdentityError>)
        ensures
            old(self).admin is None ==> r == Err::<(), IdentityError>(IdentityError::NotInitialized) && *final(self)
                == *old(self),
            old(self).admin is Some && old(self).admin.unwrap() != admin ==> r == Err::<(), IdentityError>(
                IdentityError::AdminOnly,
            ) && *final(self) == *old(self),
            old(self).admin == Some(admin) && !old(self).identities@.contains_key(target) ==> r == Err::<
                (),
                IdentityError,
            >(IdentityError::IdentityNotFound) && *final(self) == *old(self),
            old(self).admin == Some(admin) && old(self).identities@.contains_key(target) ==> r is Ok
                && final(self).identities@ == old(self).identities@.insert(
                target,
                PlayerIdentity { verified: true, ..old(self).identities@[target] },
            ) && final(self).names@ == old(self).names@ && final(self).admin == old(self).admin && final(
                self).transfer_cooldown@ == old(self).transfer_cooldown@,
    {
        match self.admin {
            None => return Err(IdentityError::NotInitialized),
            Some(a) => {
                if a != admin {
                    return Err(IdentityError::AdminOnly);
                }
            },
        }
        if !self.identities.contains_key(&target) {
            return Err(IdentityError::IdentityNotFound);
        }
        let mut id = self.identities.remove(&target).unwrap();
        id.verified = true;
        self.identities.insert(target, id);
        Ok(())
    }

    /// The owner of `username`, if any.
    pub fn resolve_username(&self, username: Vec<u8>) -> (r: Option<AccountId>)
        ensures
            r == (if self.owners().contains_key(username@) {
                Some(self.owners()[username@])
            } else {
                None::<AccountId>
            }),
    {
        self.owner_of(&username)
    }

    /// A copy of `address`'s identity, if any.
    pub fn resolve_address(&self, address: AccountId) -> (r: Option<PlayerIdentity>)
        ensures
            r is Some == self.identities@.contains_key(address),
            r is Some ==> r.unwrap().same(&self.identities@[address]),
    {
        match self.identities.get(&address) {
            Some(id) => Some(id.copy()),
            None => None,
        }
    }

    /// The error of `transfer_username`, checked in the order of the contract.
    pub open spec fn transfer_error(&self, caller: AccountId, now: u64) -> Option<IdentityError> {
        if !self.identities@.contains_key(caller) {
            Some(IdentityError::IdentityNotFound)
        } else if self.transfer_cooldown@.contains_key(caller) && self.transfer_cooldown@[caller]
            + TRANSFER_COOLDOWN_SECONDS > u64::MAX {
            Some(IdentityError::Overflow)
        } else if self.transfer_cooldown@.contains_key(caller) && now < self.transfer_cooldown@[caller]
            + TRANSFER_COOLDOWN_SECONDS {
            Some(IdentityError::CooldownNotElapsed)
        } else {
            None
        }
    }

    /// Moves `caller`'s identity and username to `new_owner` at time `now`;
    /// `new_owner` cannot pass it on for 30 days.
    pub fn transfer_username(&mut self, caller: AccountId, new_owner: AccountId, now: u64) -> (r: Result<(), IdentityError>)
        ensures
            match old(self).transfer_error(caller, now) {
                Some(e) => r == Err::<(), IdentityError>(e) && *final(self) == *old(self),
                None => {
                    let id = old(self).identities@[caller];
                    &&& r is Ok
                    &&& final(self).owners() == old(self).owners().insert(id.username@, new_owner)
                    &&& final(self).identities@ == old(self).identities@.remove(caller).insert(
                        new_owner,
                        PlayerIdentity { address: new_owner, ..id },
                    )
                    &&& final(self).transfer_cooldown@ == old(self).transfer_cooldown@.insert(new_owner, now)
                    &&& final(self).admin == old(self).admin
                },
            },
    {
        if !self.identities.contains_key(&caller) {
            return Err(IdentityError::IdentityNotFound);
        }
        match self.transfer_cooldown.get(&caller) {
            Some(last) => {
                if *last > u64::MAX - TRANSFER_COOLDOWN_SECONDS {
                    return Err(IdentityError::Overflow);
                }
                if now < *last + TRANSFER_COOLDOWN_SECONDS {
                    return Err(IdentityError::CooldownNotElapsed);
                }
            },
            None => {},
        }
        let mut id = self.identities.remove(&caller).unwrap();
        let ghost old_names = self.names@;
        let ghost m0 = name_owners(old_names);
        self.names.push(NameRecord { username: copy_bytes(&id.username), owner: None });
        let ghost mid = self.names@;
        assert(mid.drop_last() =~= old_names);
        assert(mid.last().owner is None && mid.last().username@ == id.username@);
        assert(name_owners(mid) == m0.remove(id.username@));
        self.names.push(NameRecord { username: copy_bytes(&id.username), owner: Some(new_owner) });
        assert(self.names@.drop_last() =~= mid);
        assert(self.names@.last().owner == Some(new_owner) && self.names@.last().username@ == id.username@);
        assert(name_owners(self.names@) == name_owners(mid).insert(id.username@, new_owner));
        assert(name_owners(self.names@) =~= m0.remove(id.username@).insert(id.username@, new_owner));
        assert(m0.remove(id.username@).insert(id.username@, new_owner) =~= m0.insert(id.username@, new_owner));
        id.address = new_owner;
        self.identities.insert(new_owner, id);
        self.transfer_cooldown.insert(new_owner, now);
        Ok(())
    }
}

} // verus!
