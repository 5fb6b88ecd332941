//! The table of channels of a channel manager.
//!
//! A channel is an authenticated connection to one relay.  The table maps
//! the identity of each relay to the open channel to it, or to the attempt
//! to build one, together with the parameters that all channels share.
//!
//! In a running client the table sits behind a blocking lock.  Every
//! operation here works on the locked table and never waits: it takes the
//! table by reference and returns.

use crate::params::{
    padding_parameters, resolved_timing, ChannelConfig, ChannelsParams, ChannelsParamsUpdates,
    Dormancy, NetDirExtract, PaddingParameters,
};
use crate::time::Duration;
use std::collections::hash_map::Entry;
use std::collections::HashMap;
use std::hash::Hash;
use std::sync::Arc;
use vstd::prelude::*;
use vstd::std_specs::cmp::PartialEqSpec;
use vstd::std_specs::hash::*;
use vstd::std_specs::iter::IteratorSpec;

verus! {

broadcast use vstd::std_specs::hash::group_hash_axioms;

/// A violated invariant of the channel manager.
#[derive(Clone, Copy, Debug, PartialEq, Eq, Structural)]
pub enum InternalError {
    /// A channel was to be stored under an identity that is not its own.
    IdentityMismatch,
    /// A slot of the table was found in its temporary invalid state.
    PoisonedState,
    /// The padding parameters could not be built.
    BadParameters,
}

/// An error of the channel manager.
#[derive(Clone, Copy, Debug, PartialEq, Eq, Structural)]
pub enum Error {
    /// An internal invariant was violated.
    Internal(InternalError),
}

/// The result type of the channel manager.
pub type Result<T> = core::result::Result<T, Error>;

/// The error of a channel that can no longer take new parameters because it
/// is closed or gone.
#[derive(Clone, Copy, Debug, PartialEq, Eq, Structural)]
pub struct ChannelClosed;

/// What a channel is going to be used for.
#[derive(Clone, Copy, Debug, PartialEq, Eq, Structural)]
pub enum ChannelUsage {
    /// Requests to a directory cache.
    Dir,
    /// Traffic of the user, or anything that may look like it.
    UserTraffic,
    /// A circuit that carries nothing of interest.
    UselessCircuit,
}

/// What the table needs of a live channel.
///
/// The contracts of the methods are promises of whoever implements the
/// trait: the table relies on them, and nothing here can hold an
/// implementation to them.
pub trait AbstractChannel: Sized {
    /// The identity of a relay: a key that can be compared, hashed and
    /// copied.
    type Ident: Copy + Eq + Hash;

    /// The identity of the relay that this channel leads to.
    spec fn identity(&self) -> Self::Ident;

    /// Whether this channel is what `before` becomes when it is told of
    /// `update`, once.
    spec fn reparameterized_from(&self, before: &Self, update: ChannelsParamsUpdates) -> bool;

    /// Identities behave as keys of a hash table should: equal keys hash
    /// alike, and `==` holds of identical keys only.
    proof fn ident_is_key()
        ensures
            obeys_key_model::<Self::Ident>(),
            <Self::Ident as PartialEqSpec>::obeys_eq_spec(),
            forall|a: Self::Ident, b: Self::Ident| #[trigger] a.eq_spec(&b) <==> a == b,
    ;

    /// Return the identity of the relay that this channel leads to.
    fn ident(&self) -> (id: &Self::Ident)
        ensures
            *id == self.identity(),
    ;

    /// Return true if this channel can take new circuits.
    fn is_usable(&self) -> bool;

    /// Return for how long this channel has been unused, or `None` while
    /// it is in use.
    fn duration_unused(&self) -> Option<Duration>;

    /// Tell the channel of new parameters.  Fails where the channel is
    /// closed or gone.  The channel keeps its identity.
    fn reparameterize(&mut self, update: Arc<ChannelsParamsUpdates>) -> (r: core::result::Result<
        (),
        ChannelClosed,
    >)
        ensures
            final(self).identity() == old(self).identity(),
            final(self).reparameterized_from(old(self), *update),
    ;

    /// Note that this channel is about to be used for `usage`.
    fn note_usage(&self, usage: ChannelUsage) -> core::result::Result<(), InternalError>;
}

/// Stands for the attempt to build a channel.  Everyone who asks for the
/// same relay while the attempt lasts is handed the same value, and waits
/// for the one outcome.
#[derive(Clone, Copy, Debug, PartialEq, Eq, Structural)]
pub struct Pending {
    /// Tells one attempt from another.
    pub id: u64,
}

/// Structure that can only be constructed from within this module.
/// Used to make sure that only we can construct ChannelState::Poisoned.
pub struct Priv {
    /// (This field is private)
    _unused: (),
}

/// An open channel entry.
pub struct OpenEntry<C> {
    /// The underlying open channel.
    pub channel: C,
    /// The maximum unused duration allowed for this channel.
    pub max_unused_duration: Duration,
}

/// The state of a channel (or channel build attempt) within a map.
pub enum ChannelState<C> {
    /// An open channel.
    ///
    /// This channel might not be usable: it might be closing or
    /// broken.  We need to check its is_usable() method before
    /// yielding it to the user.
    Open(OpenEntry<C>),
    /// A channel that's getting built.
    Building(Pending),
    /// A temporary invalid state.
    ///
    /// We insert this into the map temporarily as a placeholder in
    /// `change_state()`.
    Poisoned(Priv),
}

/// Whether `state` may be stored under `ident`: an open channel only under
/// its own identity, a build attempt anywhere, the invalid state nowhere.
pub open spec fn storable<C: AbstractChannel>(state: ChannelState<C>, ident: C::Ident) -> bool {
    match state {
        ChannelState::Open(ent) => ent.channel.identity() == ident,
        ChannelState::Building(_) => true,
        ChannelState::Poisoned(_) => false,
    }
}

/// The error that `check_ident` gives for a state that is not storable.
pub open spec fn storing_error<C: AbstractChannel>(state: ChannelState<C>) -> Error {
    match state {
        ChannelState::Poisoned(_) => Error::Internal(InternalError::PoisonedState),
        _ => Error::Internal(InternalError::IdentityMismatch),
    }
}

/// Whether `copy` is what cloning the handles in `state` may give.
pub open spec fn copy_of<C: AbstractChannel + Clone>(
    state: ChannelState<C>,
    copy: ChannelState<C>,
) -> bool {
    match state {
        ChannelState::Open(ent) => copy matches ChannelState::Open(c) && cloned(
            ent.channel,
            c.channel,
        ) && c.max_unused_duration == ent.max_unused_duration,
        ChannelState::Building(p) => copy == ChannelState::<C>::Building(p),
        ChannelState::Poisoned(_) => false,
    }
}

impl<C: AbstractChannel + Clone> ChannelState<C> {
    /// Create a new shallow copy of this ChannelState.
    pub fn clone_ref(&self) -> (r: Result<Self>)
        ensures
            self is Poisoned <==> r is Err,
            r is Err ==> r->Err_0 == Error::Internal(InternalError::PoisonedState),
            r is Ok ==> copy_of(*self, r->Ok_0),
    {
        match self {
            ChannelState::Open(ent) => Ok(
                ChannelState::Open(
                    OpenEntry {
                        channel: ent.channel.clone(),
                        max_unused_duration: ent.max_unused_duration,
                    },
                ),
            ),
            ChannelState::Building(pending) => Ok(ChannelState::Building(*pending)),
            ChannelState::Poisoned(_) => Err(Error::Internal(InternalError::PoisonedState)),
        }
    }
}

impl<C: AbstractChannel> ChannelState<C> {
    /// Return an error if `ident` is definitely not a matching
    /// identity for this state.
    pub fn check_ident(&self, ident: &C::Ident) -> (r: Result<()>)
        ensures
            r is Ok <==> storable(*self, *ident),
            r is Err ==> r->Err_0 == storing_error(*self),
    {
        proof {
            C::ident_is_key();
        }
        match self {
            ChannelState::Open(ent) => {
                if *ent.channel.ident() == *ident {
                    Ok(())
                } else {
                    Err(Error::Internal(InternalError::IdentityMismatch))
                }
            },
            ChannelState::Poisoned(_) => Err(Error::Internal(InternalError::PoisonedState)),
            ChannelState::Building(_) => Ok(()),
        }
    }
}

/// The longest time that `expire_channels` lets pass before the next sweep,
/// in nanoseconds: 180 seconds.
pub open spec fn sweep_interval() -> nat {
    180_000_000_000
}

/// Whether a channel in `state` that reports `unused` has been idle for too
/// long: it is open, not in use, and unused for at least as long as it may
/// be.
pub open spec fn expired<C>(state: ChannelState<C>, unused: Option<Duration>) -> bool {
    state matches ChannelState::Open(ent) && unused matches Some(u) && u@
        >= ent.max_unused_duration@
}

/// Whether a channel in `state` that reports `unused` is idle and has time
/// left before it expires.
pub open spec fn lingering<C>(state: ChannelState<C>, unused: Option<Duration>) -> bool {
    state matches ChannelState::Open(ent) && unused matches Some(u) && u@
        < ent.max_unused_duration@
}

/// The time that a lingering channel has left, in nanoseconds.
pub open spec fn time_left<C>(state: ChannelState<C>, unused: Option<Duration>) -> nat {
    match (state, unused) {
        (ChannelState::Open(ent), Some(u)) => if u@ < ent.max_unused_duration@ {
            (ent.max_unused_duration@ - u@) as nat
        } else {
            0
        },
        _ => 0,
    }
}

/// What one channel adds to the time until the next sweep.
pub open spec fn expiry_step<C>(
    state: ChannelState<C>,
    unused: Option<Duration>,
    before: nat,
    after: nat,
    ready: bool,
) -> bool {
    &&& ready == expired(state, unused)
    &&& after == if lingering(state, unused) && time_left(state, unused) < before {
        time_left(state, unused)
    } else {
        before
    }
}

/// Whether `remove_unusable` keeps a state whose channel reports `usable`.
pub open spec fn kept_if<C>(state: ChannelState<C>, usable: bool) -> bool {
    match state {
        ChannelState::Poisoned(_) => false,
        ChannelState::Open(_) => usable,
        ChannelState::Building(_) => true,
    }
}

impl<C: AbstractChannel> ChannelState<C> {
    /// For testing: either give the Open channel inside this state,
    /// or fail where there is none.
    pub fn unwrap_open(&mut self) -> (c: &mut C)
        requires
            *old(self) is Open,
        ensures
            *c == (*old(self))->Open_0.channel,
            *final(self) matches ChannelState::Open(ent) && ent.channel == *final(c)
                && ent.max_unused_duration == (*old(self))->Open_0.max_unused_duration,
    {
        match self {
            ChannelState::Open(ent) => &mut ent.channel,
            _ => vstd::pervasive::unreached(),
        }
    }

    /// Decide whether a sweep of the unusable keeps this state, where the
    /// channel in it, if there is one, reports `usable`.
    pub fn stays_if(&self, usable: bool) -> (r: bool)
        ensures
            r == kept_if(*self, usable),
    {
        match self {
            ChannelState::Poisoned(_) => false,
            ChannelState::Open(_) => usable,
            ChannelState::Building(_) => true,
        }
    }

    /// Decide whether a channel that reports `unused` is ready to expire,
    /// and lower `expire_after` to the time it has left, where that is
    /// less.
    pub fn expires_after(&self, unused: Option<Duration>, expire_after: &mut Duration) -> (r: bool)
        ensures
            expiry_step(*self, unused, old(expire_after)@, final(expire_after)@, r),
    {
        match self {
            ChannelState::Open(ent) => {
                match unused {
                    Some(unused_duration) => {
                        if ent.max_unused_duration.le(&unused_duration) {
                            true
                        } else {
                            match ent.max_unused_duration.checked_sub(&unused_duration) {
                                Some(remaining) => {
                                    *expire_after = expire_after.min(remaining);
                                },
                                None => {},
                            }
                            false
                        }
                    },
                    // still in use
                    None => false,
                }
            },
            _ => false,
        }
    }

    /// Return true if a channel is ready to expire.
    /// Update `expire_after` if a smaller duration than
    /// the given value is required to expire this channel.
    pub fn ready_to_expire(&self, expire_after: &mut Duration) -> (r: bool)
        ensures
            exists|unused: Option<Duration>| #[trigger]
                expiry_step(*self, unused, old(expire_after)@, final(expire_after)@, r),
            !(self is Open) ==> !r && final(expire_after)@ == old(expire_after)@,
    {
        let unused = match self {
            ChannelState::Open(ent) => ent.channel.duration_unused(),
            _ => None,
        };
        self.expires_after(unused, expire_after)
    }
}

/// `Arc::clone` of std: the new handle points to the same update.
#[verifier::external_body]
fn share(update: &Arc<ChannelsParamsUpdates>) -> (r: Arc<ChannelsParamsUpdates>)
    ensures
        *r == **update,
{
    Arc::clone(update)
}

/// What `remove_unusable` leaves of a table whose channels report `usable`.
pub open spec fn usable_outcome<C: AbstractChannel>(
    before: Map<C::Ident, ChannelState<C>>,
    usable: spec_fn(C::Ident) -> bool,
    after: Map<C::Ident, ChannelState<C>>,
) -> bool {
    &&& forall|k: C::Ident| #[trigger]
        after.contains_key(k) <==> before.contains_key(k) && kept_if(before[k], usable(k))
    &&& forall|k: C::Ident| #[trigger] after.contains_key(k) ==> after[k] == before[k]
}

/// What `expire_channels` leaves of a table whose channels report `unused`,
/// and the time `next` that it returns, in nanoseconds.
pub open spec fn expiry_outcome<C: AbstractChannel>(
    before: Map<C::Ident, ChannelState<C>>,
    unused: spec_fn(C::Ident) -> Option<Duration>,
    after: Map<C::Ident, ChannelState<C>>,
    next: nat,
) -> bool {
    &&& forall|k: C::Ident| #[trigger]
        after.contains_key(k) <==> before.contains_key(k) && !expired(before[k], unused(k))
    &&& forall|k: C::Ident| #[trigger] after.contains_key(k) ==> after[k] == before[k]
    &&& next <= sweep_interval()
    &&& forall|k: C::Ident| #[trigger]
        before.contains_key(k) && lingering(before[k], unused(k)) ==> next <= time_left(
            before[k],
            unused(k),
        )
    &&& next == sweep_interval() || exists|k: C::Ident| #[trigger]
        before.contains_key(k) && lingering(before[k], unused(k)) && next == time_left(
            before[k],
            unused(k),
        )
}

/// The update that tells a channel of new padding parameters and of
/// nothing else.
pub open spec fn padding_update(p: PaddingParameters) -> ChannelsParamsUpdates {
    ChannelsParamsUpdates { padding_enable: None, padding_parameters: Some(p) }
}

/// What `reconfigure_general` does to the channels when the padding
/// parameters go from `old_p` to `new_p`: nothing where the two are equal;
/// else every open channel has been told of the new parameters once, and
/// everything else is as it was.
pub open spec fn fanned_out<C: AbstractChannel>(
    before: Map<C::Ident, ChannelState<C>>,
    old_p: PaddingParameters,
    new_p: PaddingParameters,
    after: Map<C::Ident, ChannelState<C>>,
) -> bool {
    if new_p == old_p {
        after == before
    } else {
        &&& after.dom() == before.dom()
        &&& forall|k: C::Ident| #[trigger]
            before.contains_key(k) ==> told(before[k], padding_update(new_p), after[k])
    }
}

/// Whether `after` is `before` told of `update`: an open channel has been
/// reparameterized once and is otherwise as it was, any other state is
/// untouched.
pub open spec fn told<C: AbstractChannel>(
    before: ChannelState<C>,
    update: ChannelsParamsUpdates,
    after: ChannelState<C>,
) -> bool {
    match before {
        ChannelState::Open(ent) => {
            &&& after matches ChannelState::Open(now)
            &&& now.max_unused_duration == ent.max_unused_duration
            &&& now.channel.identity() == ent.channel.identity()
            &&& now.channel.reparameterized_from(&ent.channel, update)
        },
        _ => after == before,
    }
}

/// A map from channel id to channel state, plus necessary auxiliary state.
pub struct ChannelMap<C: AbstractChannel> {
    /// A map from identity to channel, or to pending channel status.
    channels: HashMap<C::Ident, ChannelState<C>>,
    /// Parameters for channels that we create, and that all existing
    /// channels are using.
    channels_params: ChannelsParams,
    /// The configuration (from the config file or API caller).
    config: ChannelConfig,
    /// Dormancy.
    dormancy: Dormancy,
}

/// What `change_state` leaves behind and returns, where the caller's
/// function has answered the old state with `newval` and `output`.
pub open spec fn change_outcome<C: AbstractChannel, V>(
    before: Map<C::Ident, ChannelState<C>>,
    ident: C::Ident,
    newval: Option<ChannelState<C>>,
    output: V,
    after: Map<C::Ident, ChannelState<C>>,
    r: Result<V>,
) -> bool {
    match newval {
        None => after == before.remove(ident) && r == Ok::<V, Error>(output),
        Some(n) => if storable(n, ident) {
            after == before.insert(ident, n) && r == Ok::<V, Error>(output)
        } else if before.contains_key(ident) {
            &&& r == Err::<V, Error>(storing_error(n))
            &&& after.contains_key(ident)
            &&& after[ident] is Poisoned
            &&& after == before.insert(ident, after[ident])
        } else {
            r == Err::<V, Error>(storing_error(n)) && after == before
        },
    }
}

impl<C: AbstractChannel> ChannelMap<C> {
    /// The states in the table, by identity.
    pub closed spec fn entries(&self) -> Map<C::Ident, ChannelState<C>> {
        self.channels@
    }

    /// The parameters that all channels use.
    pub closed spec fn params(&self) -> ChannelsParams {
        self.channels_params
    }

    /// The configuration.
    pub closed spec fn config(&self) -> ChannelConfig {
        self.config
    }

    /// The dormancy that was last recorded.
    pub closed spec fn dormancy(&self) -> Dormancy {
        self.dormancy
    }

    /// Every open channel is stored under its own identity, and no slot is
    /// in the invalid state.
    pub open spec fn well_formed(&self) -> bool {
        forall|k: C::Ident| #[trigger]
            self.entries().contains_key(k) ==> storable(self.entries()[k], k)
    }

    /// Whether `other` has the parameters, configuration and dormancy of
    /// this table.
    pub open spec fn same_settings(&self, other: &Self) -> bool {
        &&& self.params() == other.params()
        &&& self.config() == other.config()
        &&& self.dormancy() == other.dormancy()
    }

    /// A table that holds some of the entries of a well-formed table, and
    /// nothing else, is well formed.
    pub proof fn lemma_subset_well_formed(&self, whole: &Self)
        requires
            forall|k: C::Ident| #[trigger]
                self.entries().contains_key(k) ==> whole.entries().contains_key(k)
                    && self.entries()[k] == whole.entries()[k],
        ensures
            whole.well_formed() ==> self.well_formed(),
    {
        assert forall|k: C::Ident| #[trigger]
            self.entries().contains_key(k) && whole.well_formed() implies storable(
            self.entries()[k],
            k,
        ) by {
            assert(whole.entries().contains_key(k));
        }
    }

    /// Create a new empty ChannelMap.
    pub fn new(config: ChannelConfig, dormancy: Dormancy) -> (m: Self)
        ensures
            m.entries() == Map::<C::Ident, ChannelState<C>>::empty(),
            m.params().padding_enable == false,
            m.params().padding_parameters.low() == 1500,
            m.params().padding_parameters.high() == 9500,
            m.config() == config,
            m.dormancy() == dormancy,
            m.well_formed(),
    {
        let channels_params = ChannelsParams::default();
        ChannelMap { channels: HashMap::new(), channels_params, config, dormancy }
    }

    /// The parameters that all channels use.
    pub fn channels_params(&self) -> (r: ChannelsParams)
        ensures
            r == self.params(),
    {
        self.channels_params
    }

    /// The configuration.
    pub fn channel_config(&self) -> (r: ChannelConfig)
        ensures
            r == self.config(),
    {
        self.config
    }

    /// The dormancy that was last recorded.
    pub fn recorded_dormancy(&self) -> (r: Dormancy)
        ensures
            r == self.dormancy(),
    {
        self.dormancy
    }

    /// The number of states in the table.
    pub fn len(&self) -> (r: usize)
        ensures
            r == self.entries().len(),
    {
        proof {
            C::ident_is_key();
        }
        self.channels.len()
    }

    /// Replace the channel state for `ident` with `newval`, and return the
    /// previous value if any.  A state that may not be stored under `ident`
    /// is refused, and the table stays as it is.
    pub fn replace(&mut self, ident: C::Ident, newval: ChannelState<C>) -> (r: Result<
        Option<ChannelState<C>>,
    >)
        ensures
            r is Ok <==> storable(newval, ident),
            r is Ok ==> r->Ok_0 == old(self).entries().get(ident) && final(self).entries() == old(
                self,
            ).entries().insert(ident, newval),
            r is Err ==> r->Err_0 == storing_error(newval) && final(self).entries() == old(
                self,
            ).entries(),
            old(self).same_settings(final(self)),
            old(self).well_formed() ==> final(self).well_formed(),
    {
        proof {
            C::ident_is_key();
        }
        match newval.check_ident(&ident) {
            Ok(()) => {},
            Err(e) => {
                return Err(e);
            },
        }
        Ok(self.channels.insert(ident, newval))
    }

    /// Replace the channel state for `ident` with the return value from
    /// `func`, and return the previous value if any.
    ///
    /// Passes a snapshot of the current global channels parameters to
    /// `func`.  If those parameters are copied by `func` into a channel,
    /// `func` must ensure that that channel is returned, so that it will be
    /// properly registered and receive params updates.
    pub fn replace_with_params<F>(&mut self, ident: C::Ident, func: F) -> (r: Result<
        Option<ChannelState<C>>,
    >) where F: FnOnce(&ChannelsParams) -> Result<ChannelState<C>>
        requires
            call_requires(func, (&old(self).params(),)),
        ensures
            exists|made: Result<ChannelState<C>>|
                {
                    &&& #[trigger] call_ensures(func, (&old(self).params(),), made)
                    &&& match made {
                        Ok(newval) => if storable(newval, ident) {
                            &&& r == Ok::<Option<ChannelState<C>>, Error>(
                                old(self).entries().get(ident),
                            )
                            &&& final(self).entries() == old(self).entries().insert(ident, newval)
                        } else {
                            &&& r == Err::<Option<ChannelState<C>>, Error>(storing_error(newval))
                            &&& final(self).entries() == old(self).entries()
                        },
                        Err(e) => {
                            &&& r == Err::<Option<ChannelState<C>>, Error>(e)
                            &&& final(self).entries() == old(self).entries()
                        },
                    }
                },
            old(self).same_settings(final(self)),
            old(self).well_formed() ==> final(self).well_formed(),
    {
        let made = func(&self.channels_params);
        match made {
            Ok(newval) => self.replace(ident, newval),
            Err(e) => Err(e),
        }
    }

    /// Remove and return the state for `ident`, if any.
    pub fn remove(&mut self, ident: &C::Ident) -> (r: Result<Option<ChannelState<C>>>)
        ensures
            r == Ok::<Option<ChannelState<C>>, Error>(old(self).entries().get(*ident)),
            final(self).entries() == old(self).entries().remove(*ident),
            old(self).same_settings(final(self)),
            old(self).well_formed() ==> final(self).well_formed(),
    {
        proof {
            C::ident_is_key();
        }
        Ok(self.channels.remove(ident))
    }

    /// Replace the state whose identity is `ident` with a new state.
    ///
    /// The provided function `func` is invoked on the old state (if
    /// any), and must return a tuple containing an optional new
    /// state, and an arbitrary return value for this function.
    ///
    /// If `func` returns a state that may not be stored under `ident`,
    /// nothing is stored; a slot that held a state before is then left in
    /// the invalid state, and reading it fails from then on.
    pub fn change_state<F, V>(&mut self, ident: &C::Ident, func: F) -> (r: Result<V>) where
        F: FnOnce(Option<ChannelState<C>>) -> (Option<ChannelState<C>>, V),

        requires
            call_requires(func, (old(self).entries().get(*ident),)),
        ensures
            exists|newval: Option<ChannelState<C>>, output: V|
                {
                    &&& #[trigger] call_ensures(
                        func,
                        (old(self).entries().get(*ident),),
                        (newval, output),
                    )
                    &&& change_outcome(
                        old(self).entries(),
                        *ident,
                        newval,
                        output,
                        final(self).entries(),
                        r,
                    )
                },
            old(self).same_settings(final(self)),
            old(self).well_formed() && r is Ok ==> final(self).well_formed(),
    {
        proof {
            C::ident_is_key();
        }
        let ghost before = self.channels@;
        let entry = self.channels.entry(*ident);
        match entry {
            Entry::Occupied(mut occupied) => {
                // Temporarily replace the entry for this identity with
                // a poisoned entry.
                let oldent = occupied.insert(ChannelState::Poisoned(Priv { _unused: () }));
                let (newval, output) = func(Some(oldent));
                match newval {
                    Some(newent) => {
                        match newent.check_ident(ident) {
                            Ok(()) => {},
                            Err(e) => {
                                proof {
                                    assert(change_outcome(
                                        before,
                                        *ident,
                                        newval,
                                        output,
                                        self.channels@,
                                        Err::<V, Error>(e),
                                    ));
                                }
                                return Err(e);
                            },
                        }
                        occupied.insert(newent);
                    },
                    None => {
                        occupied.remove();
                    },
                };
                proof {
                    assert(change_outcome(
                        before,
                        *ident,
                        newval,
                        output,
                        self.channels@,
                        Ok::<V, Error>(output),
                    ));
                }
                Ok(output)
            },
            Entry::Vacant(vacant) => {
                let (newval, output) = func(None);
                match newval {
                    Some(newent) => {
                        match newent.check_ident(ident) {
                            Ok(()) => {},
                            Err(e) => {
                                proof {
                                    assert(self.channels@ =~= before);
                                }
                                return Err(e);
                            },
                        }
                        vacant.insert(newent);
                    },
                    None => {
                        proof {
                            assert(self.channels@ =~= before.remove(*ident));
                        }
                    },
                }
                Ok(output)
            },
        }
    }

    /// Remove every unusable state from the map: every open channel that
    /// reports that it is not usable, and every slot in the invalid state.
    #[verifier::loop_isolation(false)]
    pub fn remove_unusable(&mut self) -> (r: Result<()>)
        ensures
            r is Ok,
            exists|usable: spec_fn(C::Ident) -> bool| #[trigger]
                usable_outcome(old(self).entries(), usable, final(self).entries()),
            old(self).same_settings(final(self)),
            old(self).well_formed() ==> final(self).well_formed(),
    {
        proof {
            C::ident_is_key();
        }
        let keys = self.idents();
        let ghost before = self.channels@;
        let ghost mut seen: Map<C::Ident, bool> = Map::empty();
        let mut i: usize = 0;
        while i < keys.len()
            invariant
                i <= keys.len(),
                keys@.no_duplicates(),
                obeys_key_model::<C::Ident>(),
                forall|k: C::Ident| #[trigger] keys@.contains(k) <==> before.contains_key(k),
                forall|k: C::Ident| #[trigger]
                    seen.contains_key(k) <==> exists|j: int| 0 <= j < i && keys@[j] == k,
                forall|k: C::Ident| #[trigger]
                    self.channels@.contains_key(k) <==> before.contains_key(k) && (seen.contains_key(
                        k,
                    ) ==> kept_if(before[k], seen[k])),
                forall|k: C::Ident| #[trigger]
                    self.channels@.contains_key(k) ==> self.channels@[k] == before[k],
                self.channels_params == old(self).channels_params,
                self.config == old(self).config,
                self.dormancy == old(self).dormancy,
            decreases keys.len() - i,
        {
            let k = keys[i];
            assert(keys@.contains(k));
            let (keep, usable) = match self.channels.get(&k) {
                Some(state) => {
                    let usable = match state {
                        ChannelState::Open(ent) => ent.channel.is_usable(),
                        _ => true,
                    };
                    (state.stays_if(usable), usable)
                },
                None => (true, true),
            };
            proof {
                assert(!seen.contains_key(k)) by {
                    if seen.contains_key(k) {
                        let j = choose|j: int| 0 <= j < i && keys@[j] == k;
                        assert(keys@[j] == keys@[i as int]);
                    }
                }
                seen = seen.insert(k, usable);
            }
            if !keep {
                self.channels.remove(&k);
            }
            i += 1;
        }
        proof {
            let usable = |k: C::Ident| seen[k];
            assert forall|k: C::Ident| before.contains_key(k) implies seen.contains_key(k) by {
                assert(keys@.contains(k));
                let j = choose|j: int| 0 <= j < keys@.len() && keys@[j] == k;
                assert(keys@[j] == k);
            }
            assert(usable_outcome(old(self).entries(), usable, self.entries()));
            self.lemma_subset_well_formed(old(self));
        }
        Ok(())
    }

    /// Reconfigure all channels as necessary.
    ///
    /// This function handles a new consensus, a new configuration and a
    /// change of dormancy (which is recorded, and has no effect yet).
    ///
    /// For `new_config` and `new_dormancy`, `None` means "no change to
    /// previous info".  `netdir` is what was copied out of the network
    /// directory, or `Err` where there is none.
    ///
    /// Where the padding parameters that follow differ from those in use,
    /// each open channel is told of them once; where they do not, no
    /// channel is touched.
    #[verifier::loop_isolation(false)]
    pub fn reconfigure_general(
        &mut self,
        new_config: Option<&ChannelConfig>,
        new_dormancy: Option<Dormancy>,
        netdir: core::result::Result<NetDirExtract, ()>,
    ) -> (r: core::result::Result<(), InternalError>)
        ensures
            r is Ok,
            final(self).config() == (match new_config {
                Some(c) => *c,
                None => old(self).config(),
            }),
            final(self).dormancy() == (match new_dormancy {
                Some(d) => d,
                None => old(self).dormancy(),
            }),
            final(self).params().padding_enable == old(self).params().padding_enable,
            (
                final(self).params().padding_parameters.low(),
                final(self).params().padding_parameters.high(),
            ) == resolved_timing(final(self).config().padding, netdir),
            fanned_out(
                old(self).entries(),
                old(self).params().padding_parameters,
                final(self).params().padding_parameters,
                final(self).entries(),
            ),
            old(self).well_formed() ==> final(self).well_formed(),
    {
        proof {
            C::ident_is_key();
        }
        if let Some(new_config) = new_config {
            self.config = *new_config;
        }
        if let Some(new_dormancy) = new_dormancy {
            self.dormancy = new_dormancy;
        }
        let netdir_ref: core::result::Result<&NetDirExtract, &()> = match &netdir {
            Ok(n) => Ok(n),
            Err(e) => Err(e),
        };
        let new_p = match padding_parameters(self.config.padding, netdir_ref) {
            Ok(p) => p,
            Err(_) => {
                return Err(InternalError::BadParameters);
            },
        };
        let ghost old_p = self.channels_params.padding_parameters;
        let update = self.channels_params.start_update().padding_parameters(new_p).finish(
            &mut self.channels_params,
        );
        let update = match update {
            Some(u) => u,
            None => {
                proof {
                    self.lemma_subset_well_formed(old(self));
                }
                return Ok(());
            },
        };
        assert(update == padding_update(new_p));
        let update = Arc::new(update);

        let keys = self.idents();
        let ghost before = self.channels@;
        let ghost settled = (self.channels_params, self.config, self.dormancy);
        let mut i: usize = 0;
        while i < keys.len()
            invariant
                i <= keys.len(),
                keys@.no_duplicates(),
                obeys_key_model::<C::Ident>(),
                *update == padding_update(new_p),
                forall|k: C::Ident| #[trigger] keys@.contains(k) <==> before.contains_key(k),
                self.channels@.dom() == before.dom(),
                forall|j: int|
                    0 <= j < i ==> told(
                        before[#[trigger] keys@[j]],
                        padding_update(new_p),
                        self.channels@[keys@[j]],
                    ),
                forall|j: int|
                    i <= j < keys@.len() ==> self.channels@[#[trigger] keys@[j]] == before[keys@[j]],
                self.channels_params == settled.0,
                self.config == settled.1,
                self.dormancy == settled.2,
            decreases keys.len() - i,
        {
            let k = keys[i];
            assert(keys@.contains(k));
            let ghost mid = self.channels@;
            match self.channels.remove(&k) {
                Some(ChannelState::Open(ent)) => {
                    let mut ent = ent;
                    // Ignore error (which simply means the channel is closed or gone)
                    let _ = ent.channel.reparameterize(share(&update));
                    self.channels.insert(k, ChannelState::Open(ent));
                },
                Some(other) => {
                    self.channels.insert(k, other);
                },
                None => {},
            }
            proof {
                assert(self.channels@.dom() =~= before.dom());
                assert forall|j: int| 0 <= j < i implies told(
                    before[#[trigger] keys@[j]],
                    padding_update(new_p),
                    self.channels@[keys@[j]],
                ) by {
                    assert(keys@[j] != k);
                    assert(self.channels@[keys@[j]] == mid[keys@[j]]);
                }
                assert forall|j: int| i < j < keys@.len() implies self.channels@[#[trigger] keys@[j]]
                    == before[keys@[j]] by {
                    assert(keys@[j] != k);
                    assert(self.channels@[keys@[j]] == mid[keys@[j]]);
                }
            }
            i += 1;
        }
        proof {
            assert forall|k: C::Ident| #[trigger] before.contains_key(k) implies told(
                before[k],
                padding_update(new_p),
                self.channels@[k],
            ) by {
                assert(keys@.contains(k));
                let j = choose|j: int| 0 <= j < keys@.len() && keys@[j] == k;
                assert(keys@[j] == k);
            }
            assert(before == old(self).entries());
            assert forall|k: C::Ident| #[trigger]
                self.entries().contains_key(k) && old(self).well_formed() implies storable(
                self.entries()[k],
                k,
            ) by {
                assert(before.contains_key(k));
                assert(old(self).entries().contains_key(k));
                assert(told(before[k], padding_update(new_p), self.channels@[k]));
            }
        }
        Ok(())
    }

    /// Expire all channels that have been unused for too long.
    ///
    /// Return a Duration until the next time at which
    /// a channel _could_ expire.
    #[verifier::loop_isolation(false)]
    pub fn expire_channels(&mut self) -> (r: Duration)
        ensures
            exists|unused: spec_fn(C::Ident) -> Option<Duration>| #[trigger]
                expiry_outcome(old(self).entries(), unused, final(self).entries(), r@),
            old(self).same_settings(final(self)),
            old(self).well_formed() ==> final(self).well_formed(),
    {
        proof {
            C::ident_is_key();
        }
        let mut ret = Duration::from_secs(180);
        let keys = self.idents();
        let ghost before = self.channels@;
        let ghost mut seen: Map<C::Ident, Option<Duration>> = Map::empty();
        let mut i: usize = 0;
        while i < keys.len()
            invariant
                i <= keys.len(),
                keys@.no_duplicates(),
                obeys_key_model::<C::Ident>(),
                forall|k: C::Ident| #[trigger] keys@.contains(k) <==> before.contains_key(k),
                forall|k: C::Ident| #[trigger]
                    seen.contains_key(k) <==> exists|j: int| 0 <= j < i && keys@[j] == k,
                forall|k: C::Ident| #[trigger]
                    self.channels@.contains_key(k) <==> before.contains_key(k) && !(
                    seen.contains_key(k) && expired(before[k], seen[k])),
                forall|k: C::Ident| #[trigger]
                    self.channels@.contains_key(k) ==> self.channels@[k] == before[k],
                ret@ <= sweep_interval(),
                forall|k: C::Ident| #[trigger]
                    seen.contains_key(k) && lingering(before[k], seen[k]) ==> ret@ <= time_left(
                        before[k],
                        seen[k],
                    ),
                ret@ == sweep_interval() || exists|k: C::Ident| #[trigger]
                    seen.contains_key(k) && before.contains_key(k) && lingering(before[k], seen[k])
                        && ret@ == time_left(before[k], seen[k]),
                self.channels_params == old(self).channels_params,
                self.config == old(self).config,
                self.dormancy == old(self).dormancy,
            decreases keys.len() - i,
        {
            let k = keys[i];
            assert(keys@.contains(k));
            let ghost ret_before = ret@;
            let ghost seen_before = seen;
            let ready = match self.channels.get(&k) {
                Some(state) => {
                    let ready = state.ready_to_expire(&mut ret);
                    proof {
                        let unused = choose|unused: Option<Duration>| #[trigger]
                            expiry_step(*state, unused, ret_before, ret@, ready);
                        seen = seen.insert(k, unused);
                    }
                    ready
                },
                None => {
                    proof {
                        seen = seen.insert(k, None);
                    }
                    false
                },
            };
            proof {
                assert(!seen_before.contains_key(k)) by {
                    if seen_before.contains_key(k) {
                        let j = choose|j: int| 0 <= j < i && keys@[j] == k;
                        assert(keys@[j] == keys@[i as int]);
                    }
                }
                assert(seen.contains_key(k));
                if ret@ != sweep_interval() {
                    if ret@ == ret_before {
                        let w = choose|w: C::Ident| #[trigger]
                            seen_before.contains_key(w) && before.contains_key(w) && lingering(
                                before[w],
                                seen_before[w],
                            ) && ret_before == time_left(before[w], seen_before[w]);
                        assert(seen.contains_key(w) && seen[w] == seen_before[w]);
                    } else {
                        assert(lingering(before[k], seen[k]) && ret@ == time_left(
                            before[k],
                            seen[k],
                        ));
                    }
                }
            }
            if ready {
                self.channels.remove(&k);
            }
            i += 1;
        }
        proof {
            let unused = |k: C::Ident| seen[k];
            assert forall|k: C::Ident| before.contains_key(k) implies seen.contains_key(k) by {
                assert(keys@.contains(k));
                let j = choose|j: int| 0 <= j < keys@.len() && keys@[j] == k;
                assert(keys@[j] == k);
            }
            if ret@ != sweep_interval() {
                let w = choose|w: C::Ident| #[trigger]
                    seen.contains_key(w) && before.contains_key(w) && lingering(before[w], seen[w])
                        && ret@ == time_left(before[w], seen[w]);
                assert(before.contains_key(w) && lingering(before[w], unused(w)) && ret@
                    == time_left(before[w], unused(w)));
            }
            let after = self.channels@;
            assert forall|k: C::Ident| #[trigger]
                after.contains_key(k) <==> before.contains_key(k) && !expired(
                    before[k],
                    unused(k),
                ) by {}
            assert forall|k: C::Ident| #[trigger]
                before.contains_key(k) && lingering(before[k], unused(k)) implies ret@ <= time_left(
                before[k],
                unused(k),
            ) by {
                assert(seen.contains_key(k));
            }
            assert(expiry_outcome(old(self).entries(), unused, self.entries(), ret@));
            self.lemma_subset_well_formed(old(self));
        }
        ret
    }

    /// The identities in the table, each once.
    fn idents(&self) -> (v: Vec<C::Ident>)
        ensures
            v@.no_duplicates(),
            forall|k: C::Ident| #[trigger] v@.contains(k) <==> self.entries().contains_key(k),
    {
        proof {
            C::ident_is_key();
        }
        let mut v: Vec<C::Ident> = Vec::new();
        let ghost all = spec_keys_iter(&self.channels).remaining();
        for k in it: self.channels.keys()
            invariant
                it.seq() == all,
                v@.len() == it.index(),
                forall|i: int| 0 <= i < v@.len() ==> v@[i] == *all[i],
        {
            v.push(*k);
        }
        proof {
            assert(v@ =~= all.unref());
            assert(all.unref().to_set() == self.channels@.dom());
            assert forall|k: C::Ident| #[trigger] v@.contains(k) <==> self.entries().contains_key(
                k,
            ) by {
                assert(v@.contains(k) <==> v@.to_set().contains(k));
            }
            assert forall|i: int, j: int| 0 <= i < v@.len() && 0 <= j < v@.len() && i != j implies v@[i]
                != v@[j] by {
                assert(all[i] != all[j]);
            }
        }
        v
    }
}

impl<C: AbstractChannel + Clone> ChannelMap<C> {
    /// Return the channel state for the given identity, if any.
    pub fn get(&self, ident: &C::Ident) -> (r: Result<Option<ChannelState<C>>>)
        ensures
            match self.entries().get(*ident) {
                None => r == Ok::<Option<ChannelState<C>>, Error>(None),
                Some(state) => if state is Poisoned {
                    r == Err::<Option<ChannelState<C>>, Error>(
                        Error::Internal(InternalError::PoisonedState),
                    )
                } else {
                    r is Ok && r->Ok_0 is Some && copy_of(state, r->Ok_0->0)
                },
            },
    {
        proof {
            C::ident_is_key();
        }
        match self.channels.get(ident) {
            None => Ok(None),
            Some(state) => match state.clone_ref() {
                Ok(copy) => Ok(Some(copy)),
                Err(e) => Err(e),
            },
        }
    }
}


/// What a caller who asked for a channel has to do.
pub enum Launch<C> {
    /// Use this channel: it is open and usable.
    Ready(C),
    /// Wait for the outcome of the attempt that another caller has under
    /// way.
    Wait(Pending),
    /// Dial the relay.  The table now holds this attempt; report how it
    /// ended with `finish_launch`.
    Dial(Pending),
}

/// What to do for a caller who asks for a channel, without the channel
/// itself.
#[derive(Clone, Copy, Debug, PartialEq, Eq, Structural)]
pub enum LaunchPlan {
    /// Hand out the open channel.
    UseOpen,
    /// Wait for the attempt under way.
    Wait(Pending),
    /// Start a new attempt.
    Dial(Pending),
}

/// The plan for a caller who finds `state` under the identity it asks for,
/// where the channel in it, if there is one, reports `usable`, and where a
/// new attempt would be `fresh`.
pub open spec fn launch_plan<C>(state: Option<ChannelState<C>>, usable: bool, fresh: Pending) -> Result<
    LaunchPlan,
> {
    match state {
        Some(ChannelState::Open(_)) => if usable {
            Ok(LaunchPlan::UseOpen)
        } else {
            Ok(LaunchPlan::Dial(fresh))
        },
        Some(ChannelState::Building(p)) => Ok(LaunchPlan::Wait(p)),
        Some(ChannelState::Poisoned(_)) => Err(Error::Internal(InternalError::PoisonedState)),
        None => Ok(LaunchPlan::Dial(fresh)),
    }
}

/// Decide what to do for a caller who finds `state` under the identity it
/// asks for.
pub fn plan_launch<C>(state: Option<&ChannelState<C>>, usable: bool, fresh: Pending) -> (r: Result<
    LaunchPlan,
>)
    ensures
        r == launch_plan(
            match state {
                Some(s) => Some(*s),
                None => None,
            },
            usable,
            fresh,
        ),
{
    match state {
        Some(ChannelState::Open(_)) => {
            if usable {
                Ok(LaunchPlan::UseOpen)
            } else {
                Ok(LaunchPlan::Dial(fresh))
            }
        },
        Some(ChannelState::Building(p)) => Ok(LaunchPlan::Wait(*p)),
        Some(ChannelState::Poisoned(_)) => Err(Error::Internal(InternalError::PoisonedState)),
        None => Ok(LaunchPlan::Dial(fresh)),
    }
}

/// What `get_or_launch` leaves behind and returns, where the channel under
/// `ident`, if there is one, reports `usable`.
pub open spec fn launch_outcome<C: AbstractChannel + Clone>(
    before: Map<C::Ident, ChannelState<C>>,
    ident: C::Ident,
    fresh: Pending,
    usable: bool,
    after: Map<C::Ident, ChannelState<C>>,
    r: Result<Launch<C>>,
) -> bool {
    match launch_plan(before.get(ident), usable, fresh) {
        Ok(LaunchPlan::UseOpen) => {
            &&& after == before
            &&& r matches Ok(Launch::Ready(c))
            &&& cloned(before[ident]->Open_0.channel, c)
        },
        Ok(LaunchPlan::Wait(p)) => after == before && r == Ok::<Launch<C>, Error>(Launch::Wait(p)),
        Ok(LaunchPlan::Dial(p)) => {
            &&& after == before.insert(ident, ChannelState::Building(p))
            &&& r == Ok::<Launch<C>, Error>(Launch::Dial(p))
        },
        Err(e) => after == before && r == Err::<Launch<C>, Error>(e),
    }
}

/// What `finish_launch` leaves behind and returns.
pub open spec fn finish_outcome<C: AbstractChannel>(
    before: Map<C::Ident, ChannelState<C>>,
    ident: C::Ident,
    built: Option<OpenEntry<C>>,
    after: Map<C::Ident, ChannelState<C>>,
    r: Result<()>,
) -> bool {
    match built {
        Some(ent) => if ent.channel.identity() == ident {
            after == before.insert(ident, ChannelState::Open(ent)) && r == Ok::<(), Error>(())
        } else {
            after == before.remove(ident) && r == Err::<(), Error>(
                Error::Internal(InternalError::IdentityMismatch),
            )
        },
        None => after == before.remove(ident) && r == Ok::<(), Error>(()),
    }
}

impl<C: AbstractChannel + Clone> ChannelMap<C> {
    /// Look for a channel to the relay `ident` on behalf of a caller.
    ///
    /// An open channel that reports to be usable is handed out.  Where
    /// another caller is building one, that attempt is handed out, to be
    /// waited for.  Else the table records the attempt `fresh`, and the
    /// caller has to dial: so at most one dial per relay is under way.
    pub fn get_or_launch(&mut self, ident: C::Ident, fresh: Pending) -> (r: Result<Launch<C>>)
        ensures
            exists|usable: bool| #[trigger]
                launch_outcome(old(self).entries(), ident, fresh, usable, final(self).entries(), r),
            old(self).same_settings(final(self)),
            old(self).well_formed() ==> final(self).well_formed(),
    {
        proof {
            C::ident_is_key();
        }
        let state = self.channels.get(&ident);
        let usable = match state {
            Some(ChannelState::Open(ent)) => ent.channel.is_usable(),
            _ => false,
        };
        let plan = match plan_launch(state, usable, fresh) {
            Ok(plan) => plan,
            Err(e) => {
                proof {
                    assert(launch_outcome(
                        old(self).entries(),
                        ident,
                        fresh,
                        usable,
                        self.entries(),
                        Err::<Launch<C>, Error>(e),
                    ));
                }
                return Err(e);
            },
        };
        let r = match plan {
            LaunchPlan::UseOpen => match state {
                Some(ChannelState::Open(ent)) => Launch::Ready(ent.channel.clone()),
                _ => vstd::pervasive::unreached(),
            },
            LaunchPlan::Wait(p) => Launch::Wait(p),
            LaunchPlan::Dial(p) => {
                self.channels.insert(ident, ChannelState::Building(p));
                Launch::Dial(p)
            },
        };
        proof {
            assert(launch_outcome(
                old(self).entries(),
                ident,
                fresh,
                usable,
                self.entries(),
                Ok::<Launch<C>, Error>(r),
            ));
            assert forall|k: C::Ident| #[trigger]
                self.entries().contains_key(k) && old(self).well_formed() implies storable(
                self.entries()[k],
                k,
            ) by {
                if k != ident {
                    assert(old(self).entries().contains_key(k));
                }
            }
        }
        Ok(r)
    }
}

impl<C: AbstractChannel> ChannelMap<C> {
    /// Record how the attempt to build a channel to `ident` has ended.
    ///
    /// A channel that was built takes the place of the attempt.  Where
    /// nothing was built, or a channel to another relay, the attempt is
    /// removed, so that the next caller dials anew.
    pub fn finish_launch(&mut self, ident: C::Ident, built: Option<OpenEntry<C>>) -> (r: Result<()>)
        ensures
            finish_outcome(old(self).entries(), ident, built, final(self).entries(), r),
            old(self).same_settings(final(self)),
            old(self).well_formed() ==> final(self).well_formed(),
    {
        proof {
            C::ident_is_key();
        }
        match built {
            Some(ent) => {
                match self.replace(ident, ChannelState::Open(ent)) {
                    Ok(_) => Ok(()),
                    Err(e) => {
                        self.channels.remove(&ident);
                        proof {
                            self.lemma_subset_well_formed(old(self));
                        }
                        Err(e)
                    },
                }
            },
            None => {
                self.channels.remove(&ident);
                proof {
                    self.lemma_subset_well_formed(old(self));
                }
                Ok(())
            },
        }
    }
}

/// While a dial to a relay is under way, whoever asks for that relay is
/// told to wait for it: a second caller never dials, and the table stays
/// as the first caller left it.
pub proof fn law_one_dial_per_relay<C: AbstractChannel + Clone>(
    start: Map<C::Ident, ChannelState<C>>,
    ident: C::Ident,
    first: Pending,
    second: Pending,
    usable_first: bool,
    usable_second: bool,
    between: Map<C::Ident, ChannelState<C>>,
    first_result: Result<Launch<C>>,
    end: Map<C::Ident, ChannelState<C>>,
    second_result: Result<Launch<C>>,
)
    requires
        launch_outcome(start, ident, first, usable_first, between, first_result),
        first_result is Ok && first_result->Ok_0 is Dial,
        launch_outcome(between, ident, second, usable_second, end, second_result),
    ensures
        first_result == Ok::<Launch<C>, Error>(Launch::Dial(first)),
        second_result == Ok::<Launch<C>, Error>(Launch::Wait(first)),
        end == between,
{
    assert(between.get(ident) == Some(ChannelState::<C>::Building(first)));
}

/// Once an attempt has ended, the table holds the channel that was built,
/// or nothing: no caller waits for an attempt that is over.
pub proof fn law_finished_launch_leaves_no_attempt<C: AbstractChannel>(
    before: Map<C::Ident, ChannelState<C>>,
    ident: C::Ident,
    built: Option<OpenEntry<C>>,
    after: Map<C::Ident, ChannelState<C>>,
    r: Result<()>,
)
    requires
        finish_outcome(before, ident, built, after, r),
    ensures
        !(after.get(ident) matches Some(ChannelState::Building(_))),
        r is Ok && built is Some ==> after.get(ident) == Some(ChannelState::Open(built->0)),
        forall|k: C::Ident| k != ident ==> after.get(k) == before.get(k),
{
}

/// A change of state is all or nothing.  Where the new state may be stored
/// under the identity, or there is none, the slot holds the new state (or
/// nothing) afterwards, every other slot is as it was, and a table without
/// invalid slots stays one.
pub proof fn law_change_is_atomic<C: AbstractChannel, V>(
    before: Map<C::Ident, ChannelState<C>>,
    ident: C::Ident,
    newval: Option<ChannelState<C>>,
    output: V,
    after: Map<C::Ident, ChannelState<C>>,
    r: Result<V>,
)
    requires
        change_outcome(before, ident, newval, output, after, r),
        newval is Some ==> storable(newval->0, ident),
    ensures
        r == Ok::<V, Error>(output),
        after.get(ident) == newval,
        forall|k: C::Ident| k != ident ==> after.get(k) == before.get(k),
        (forall|k: C::Ident| before.contains_key(k) ==> !(#[trigger] before[k] is Poisoned)) ==> (
        forall|k: C::Ident| after.contains_key(k) ==> !(#[trigger] after[k] is Poisoned)),
{
    assert forall|k: C::Ident|
        (forall|j: C::Ident| before.contains_key(j) ==> !(#[trigger] before[j] is Poisoned))
            && after.contains_key(k) implies !(#[trigger] after[k] is Poisoned) by {
        if k != ident {
            assert(before.contains_key(k));
            assert(after[k] == before[k]);
        }
    }
}

/// A sweep removes exactly the open channels that were unused for as long
/// as they may be, or longer.  Attempts to build a channel stay, and so do
/// channels that are in use, usable or not.  The time until the next sweep
/// is the least time that an idle channel has left, and 180 seconds at
/// most.
pub proof fn law_sweep_removes_the_expired<C: AbstractChannel>(
    before: Map<C::Ident, ChannelState<C>>,
    unused: spec_fn(C::Ident) -> Option<Duration>,
    after: Map<C::Ident, ChannelState<C>>,
    next: nat,
    k: C::Ident,
)
    requires
        expiry_outcome(before, unused, after, next),
        before.contains_key(k),
    ensures
        after.contains_key(k) ==> after[k] == before[k],
        before[k] is Building ==> after.contains_key(k),
        unused(k) is None ==> after.contains_key(k),
        before[k] matches ChannelState::Open(ent) ==> (unused(k) matches Some(u) ==> (
        after.contains_key(k) <==> u@ < ent.max_unused_duration@)),
        next <= sweep_interval(),
        before[k] matches ChannelState::Open(ent) ==> (unused(k) matches Some(u) ==> (u@
            < ent.max_unused_duration@ ==> next <= ent.max_unused_duration@ - u@)),
{
    assert(after.contains_key(k) <==> before.contains_key(k) && !expired(before[k], unused(k)));
    if lingering(before[k], unused(k)) {
        assert(next <= time_left(before[k], unused(k)));
    }
}

/// Padding parameters with the bounds of those in use are not new: they
/// reach no channel.
pub proof fn law_same_bounds_reach_no_channel<C: AbstractChannel>(
    before: Map<C::Ident, ChannelState<C>>,
    old_p: PaddingParameters,
    new_p: PaddingParameters,
    after: Map<C::Ident, ChannelState<C>>,
)
    requires
        fanned_out(before, old_p, new_p, after),
        new_p.low() == old_p.low(),
        new_p.high() == old_p.high(),
    ensures
        after == before,
{
    PaddingParameters::lemma_same_bounds(new_p, old_p);
}

/// New padding parameters reach every open channel once, and parameters
/// that are not new reach none.
pub proof fn law_fan_out_only_on_change<C: AbstractChannel>(
    before: Map<C::Ident, ChannelState<C>>,
    old_p: PaddingParameters,
    new_p: PaddingParameters,
    after: Map<C::Ident, ChannelState<C>>,
    k: C::Ident,
)
    requires
        fanned_out(before, old_p, new_p, after),
        before.contains_key(k),
    ensures
        after.contains_key(k),
        new_p == old_p ==> after[k] == before[k],
        !(before[k] is Open) ==> after[k] == before[k],
        new_p != old_p && before[k] is Open ==> after[k] is Open
            && after[k]->Open_0.channel.reparameterized_from(
            &before[k]->Open_0.channel,
            padding_update(new_p),
        ),
{
    if new_p != old_p {
        assert(after.dom().contains(k));
        assert(told(before[k], padding_update(new_p), after[k]));
    }
}

} // verus!
