//! The asset control contract: an admin-kept blacklist of assets.

use vstd::prelude::*;
use crate::address::Address;
use crate::store::KeyMap;

verus! {

/// The errors the asset control contract answers with.
#[derive(Clone, Copy, Debug, PartialEq, Eq, Structural)]
pub enum AssetControlError {
    NotInitialized,
    Unauthorized,
    AlreadyBlacklisted,
    NotBlacklisted,
    AlreadyInitialized,
}

impl AssetControlError {
    /// The contract error code of the error.
    pub fn code(&self) -> (c: u32)
        ensures
            1 <= c <= 5,
            c == self.spec_code(),
    {
        match self {
            AssetControlError::NotInitialized => 1,
            AssetControlError::Unauthorized => 2,
            AssetControlError::AlreadyBlacklisted => 3,
            AssetControlError::NotBlacklisted => 4,
            AssetControlError::AlreadyInitialized => 5,
        }
    }

    /// The contract error code of the error, as a number.
    pub open spec fn spec_code(&self) -> u32 {
        match self {
            AssetControlError::NotInitialized => 1,
            AssetControlError::Unauthorized => 2,
            AssetControlError::AlreadyBlacklisted => 3,
            AssetControlError::NotBlacklisted => 4,
            AssetControlError::AlreadyInitialized => 5,
        }
    }
}

/// An event published by the asset control contract.
#[derive(Clone, Copy, Debug, PartialEq, Eq, Structural)]
pub enum AssetEvent {
    Initialized { admin: Address },
    Blacklisted { asset: Address },
    Unblacklisted { asset: Address },
    Blocked { asset: Address },
}

impl AssetEvent {
    /// The names of the two topics the event is published under.
    pub open spec fn topic_names(&self) -> (Seq<char>, Seq<char>) {
        match self {
            AssetEvent::Initialized { .. } => ("asset"@, "init"@),
            AssetEvent::Blacklisted { .. } => ("asset"@, "blacklist"@),
            AssetEvent::Unblacklisted { .. } => ("asset"@, "unblacklist"@),
            AssetEvent::Blocked { .. } => ("asset"@, "blocked"@),
        }
    }

    /// The two topics the event is published under.
    pub fn topics(&self) -> (r: (&'static str, &'static str))
        ensures
            (r.0@, r.1@) == self.topic_names(),
    {
        match self {
            AssetEvent::Initialized { .. } => ("asset", "init"),
            AssetEvent::Blacklisted { .. } => ("asset", "blacklist"),
            AssetEvent::Unblacklisted { .. } => ("asset", "unblacklist"),
            AssetEvent::Blocked { .. } => ("asset", "blocked"),
        }
    }
}

/// What the asset control contract holds, as mathematical values.
pub struct AssetControlView {
    pub admin: Option<Address>,
    pub blacklist: Map<Address, bool>,
    pub events: Seq<AssetEvent>,
}

/// Whether the asset is on the blacklist.
pub open spec fn listed(blacklist: Map<Address, bool>, asset: Address) -> bool {
    blacklist.contains_key(asset) && blacklist[asset]
}

/// The answer to a call that only the admin may make.
pub open spec fn admin_result(admin: Option<Address>, caller: Address) -> Result<(), AssetControlError> {
    match admin {
        None => Err(AssetControlError::NotInitialized),
        Some(a) => if a == caller { Ok(()) } else { Err(AssetControlError::Unauthorized) },
    }
}

/// The contract after `add_to_blacklist`, or the error it answers.
pub open spec fn add_outcome(s: AssetControlView, caller: Address, asset: Address) -> Result<AssetControlView, AssetControlError> {
    match admin_result(s.admin, caller) {
        Err(e) => Err(e),
        Ok(_) => if s.blacklist.contains_key(asset) {
            Err(AssetControlError::AlreadyBlacklisted)
        } else {
            Ok(AssetControlView {
                blacklist: s.blacklist.insert(asset, true),
                events: s.events.push(AssetEvent::Blacklisted { asset }),
                ..s
            })
        },
    }
}

/// The contract after `remove_from_blacklist`, or the error it answers.
pub open spec fn remove_outcome(s: AssetControlView, caller: Address, asset: Address) -> Result<AssetControlView, AssetControlError> {
    match admin_result(s.admin, caller) {
        Err(e) => Err(e),
        Ok(_) => if !s.blacklist.contains_key(asset) {
            Err(AssetControlError::NotBlacklisted)
        } else {
            Ok(AssetControlView {
                blacklist: s.blacklist.remove(asset),
                events: s.events.push(AssetEvent::Unblacklisted { asset }),
                ..s
            })
        },
    }
}

/// The asset control contract: its storage and the events it has published.
pub struct AssetControlContract {
    admin: Option<Address>,
    blacklist: KeyMap<Address, bool>,
    events: Vec<AssetEvent>,
}

impl View for AssetControlContract {
    type V = AssetControlView;

    closed spec fn view(&self) -> AssetControlView {
        AssetControlView { admin: self.admin, blacklist: self.blacklist.map(), events: self.events@ }
    }
}

impl AssetControlView {
    /// Every listed asset is listed as blacklisted.
    pub open spec fn consistent(&self) -> bool {
        forall|a: Address| #[trigger] self.blacklist.contains_key(a) ==> self.blacklist[a]
    }
}

impl AssetControlContract {
    pub closed spec fn wf(&self) -> bool {
        self.blacklist.wf() && self@.consistent()
    }

    /// A freshly deployed contract: nothing stored.
    pub fn new() -> (c: AssetControlContract)
        ensures
            c.wf(),
            c@ == (AssetControlView { admin: None, blacklist: Map::empty(), events: Seq::empty() }),
    {
        AssetControlContract { admin: None, blacklist: KeyMap::new(), events: Vec::new() }
    }

    /// The events published so far, oldest first.
    pub fn events(&self) -> (r: &Vec<AssetEvent>)
        ensures
            r@ == self@.events,
    {
        &self.events
    }

    /// Stores the admin and starts an empty blacklist; only once.
    pub fn initialize(&mut self, admin: Address) -> (r: Result<(), AssetControlError>)
        requires
            old(self).wf(),
        ensures
            final(self).wf(),
            old(self)@.admin is Some ==> r == Err::<(), AssetControlError>(AssetControlError::AlreadyInitialized)
                && final(self)@ == old(self)@,
            old(self)@.admin is None ==> r is Ok && final(self)@ == (AssetControlView {
                admin: Some(admin),
                blacklist: Map::empty(),
                events: old(self)@.events.push(AssetEvent::Initialized { admin }),
            }),
    {
        if self.admin.is_some() {
            return Err(AssetControlError::AlreadyInitialized);
        }
        self.admin = Some(admin);
        self.blacklist = KeyMap::new();
        self.events.push(AssetEvent::Initialized { admin });
        Ok(())
    }

    fn require_admin(&self, caller: &Address) -> (r: Result<(), AssetControlError>)
        ensures
            r == admin_result(self@.admin, *caller),
    {
        authorize(self.admin, *caller)
    }

    /// Puts `asset` on the blacklist; admin only.
    pub fn add_to_blacklist(&mut self, caller: Address, asset: Address) -> (r: Result<(), AssetControlError>)
        requires
            old(self).wf(),
        ensures
            final(self).wf(),
            match add_outcome(old(self)@, caller, asset) {
                Ok(v) => r is Ok && final(self)@ == v,
                Err(e) => r == Err::<(), AssetControlError>(e) && final(self)@ == old(self)@,
            },
    {
        self.require_admin(&caller)?;
        check_addition(self.blacklist.contains_key(&asset))?;
        self.blacklist.insert(asset, true);
        self.events.push(AssetEvent::Blacklisted { asset });
        Ok(())
    }

    /// Takes `asset` off the blacklist; admin only.
    pub fn remove_from_blacklist(&mut self, caller: Address, asset: Address) -> (r: Result<(), AssetControlError>)
        requires
            old(self).wf(),
        ensures
            final(self).wf(),
            match remove_outcome(old(self)@, caller, asset) {
                Ok(v) => r is Ok && final(self)@ == v,
                Err(e) => r == Err::<(), AssetControlError>(e) && final(self)@ == old(self)@,
            },
    {
        self.require_admin(&caller)?;
        check_removal(self.blacklist.contains_key(&asset))?;
        self.blacklist.remove(&asset);
        self.events.push(AssetEvent::Unblacklisted { asset });
        Ok(())
    }

    /// Whether `asset` is on the blacklist.
    pub fn is_blacklisted(&self, asset: Address) -> (r: bool)
        requires
            self.wf(),
        ensures
            r == listed(self@.blacklist, asset),
    {
        match self.blacklist.get(&asset) {
            Some(b) => *b,
            None => false,
        }
    }

    /// Refuses a blacklisted asset, publishing that it was blocked; lets
    /// any other asset through.
    pub fn check_asset(&mut self, asset: Address) -> (r: Result<(), AssetControlError>)
        requires
            old(self).wf(),
        ensures
            final(self).wf(),
            listed(old(self)@.blacklist, asset) ==> r == Err::<(), AssetControlError>(AssetControlError::Unauthorized)
                && final(self)@ == (AssetControlView {
                    events: old(self)@.events.push(AssetEvent::Blocked { asset }),
                    ..old(self)@
                }),
            !listed(old(self)@.blacklist, asset) ==> r is Ok && final(self)@ == old(self)@,
    {
        if self.is_blacklisted(asset) {
            self.events.push(AssetEvent::Blocked { asset });
            return Err(AssetControlError::Unauthorized);
        }
        Ok(())
    }
}

/// Every state the contract reaches is consistent: each asset on the
/// blacklist is recorded as blacklisted.
pub proof fn reachable_states_are_consistent(c: &AssetControlContract)
    requires
        c.wf(),
    ensures
        c@.consistent(),
{
}

/// An asset the admin has just blacklisted is blacklisted, one just taken
/// off the list is not, and no other asset changes.
pub proof fn blacklist_follows_the_admin(s: AssetControlView, caller: Address, asset: Address, other: Address)
    requires
        other != asset,
    ensures
        add_outcome(s, caller, asset) matches Ok(v) ==> listed(v.blacklist, asset)
            && listed(v.blacklist, other) == listed(s.blacklist, other),
        remove_outcome(s, caller, asset) matches Ok(v) ==> !listed(v.blacklist, asset)
            && listed(v.blacklist, other) == listed(s.blacklist, other),
{
}

/// Checks that `caller` is the admin of a contract whose admin is `admin`.
pub fn authorize(admin: Option<Address>, caller: Address) -> (r: Result<(), AssetControlError>)
    ensures
        r == admin_result(admin, caller),
{
    match admin {
        None => Err(AssetControlError::NotInitialized),
        Some(a) => if a != caller { Err(AssetControlError::Unauthorized) } else { Ok(()) },
    }
}

/// Checks that an asset may be added: it is not on the list yet.
pub fn check_addition(on_list: bool) -> (r: Result<(), AssetControlError>)
    ensures
        r == (if on_list { Err(AssetControlError::AlreadyBlacklisted) } else { Ok(()) }),
{
    if on_list { Err(AssetControlError::AlreadyBlacklisted) } else { Ok(()) }
}

/// Checks that an asset may be removed: it is on the list.
pub fn check_removal(on_list: bool) -> (r: Result<(), AssetControlError>)
    ensures
        r == (if on_list { Ok(()) } else { Err(AssetControlError::NotBlacklisted) }),
{
    if on_list { Ok(()) } else { Err(AssetControlError::NotBlacklisted) }
}

} // verus!
