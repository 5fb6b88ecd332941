use arti_core::chanmap::{
    plan_launch, AbstractChannel, ChannelClosed, ChannelMap, ChannelState, ChannelUsage, Error,
    InternalError, Launch, LaunchPlan, OpenEntry, Pending,
};
use arti_core::params::{
    ChannelConfig, ChannelsParamsUpdates, Dormancy, NetDirExtract, NetParameters, PaddingLevel,
};
use arti_core::time::Duration;
use std::sync::Arc;
use ChannelState::Open;

fn new_test_channel_map<C: AbstractChannel>() -> ChannelMap<C> {
    ChannelMap::new(ChannelConfig::default(), Default::default())
}

#[derive(Eq, PartialEq, Clone, Debug)]
struct FakeChannel {
    ident: &'static str,
    usable: bool,
    unused_duration: Option<u64>,
    params_update: Option<Arc<ChannelsParamsUpdates>>,
}

impl AbstractChannel for FakeChannel {
    type Ident = u8;
    fn identity(&self) -> u8 {
        self.ident.as_bytes()[0]
    }
    fn reparameterized_from(&self, before: &Self, update: ChannelsParamsUpdates) -> bool {
        self.ident == before.ident && self.params_update.as_deref() == Some(&update)
    }
    fn ident_is_key() {}
    fn ident(&self) -> &Self::Ident {
        &self.ident.as_bytes()[0]
    }
    fn is_usable(&self) -> bool {
        self.usable
    }
    fn duration_unused(&self) -> Option<Duration> {
        self.unused_duration.map(Duration::from_secs)
    }
    fn reparameterize(&mut self, update: Arc<ChannelsParamsUpdates>) -> Result<(), ChannelClosed> {
        self.params_update = Some(update);
        Ok(())
    }
    fn note_usage(&self, _usage: ChannelUsage) -> Result<(), InternalError> {
        Ok(())
    }
}

fn ch(ident: &'static str) -> ChannelState<FakeChannel> {
    let channel = FakeChannel {
        ident,
        usable: true,
        unused_duration: None,
        params_update: None,
    };
    ChannelState::Open(OpenEntry {
        channel,
        max_unused_duration: Duration::from_secs(180),
    })
}

fn ch_with_details(
    ident: &'static str,
    max_unused_duration: Duration,
    unused_duration: Option<u64>,
) -> ChannelState<FakeChannel> {
    let channel = FakeChannel {
        ident,
        usable: true,
        unused_duration,
        params_update: None,
    };
    ChannelState::Open(OpenEntry {
        channel,
        max_unused_duration,
    })
}

fn closed(ident: &'static str) -> ChannelState<FakeChannel> {
    let channel = FakeChannel {
        ident,
        usable: false,
        unused_duration: None,
        params_update: None,
    };
    ChannelState::Open(OpenEntry {
        channel,
        max_unused_duration: Duration::from_secs(180),
    })
}

#[test]
fn simple_ops() {
    let mut map = new_test_channel_map();

    assert!(map.replace(b'h', ch("hello")).unwrap().is_none());
    assert!(map.replace(b'w', ch("wello")).unwrap().is_none());

    match map.get(&b'h') {
        Ok(Some(Open(ent))) if ent.channel.ident == "hello" => {}
        _ => panic!(),
    }

    assert!(map.get(&b'W').unwrap().is_none());

    match map.replace(b'h', ch("hebbo")) {
        Ok(Some(Open(ent))) if ent.channel.ident == "hello" => {}
        _ => panic!(),
    }

    assert!(map.remove(&b'Z').unwrap().is_none());
    match map.remove(&b'h') {
        Ok(Some(Open(ent))) if ent.channel.ident == "hebbo" => {}
        _ => panic!(),
    }
}

#[test]
fn rmv_unusable() {
    let mut map = new_test_channel_map();

    map.replace(b'm', closed("machen")).unwrap();
    map.replace(b'f', ch("feinen")).unwrap();
    map.replace(b'w', closed("wir")).unwrap();
    map.replace(b'F', ch("Fug")).unwrap();

    map.remove_unusable().unwrap();

    assert!(map.get(&b'm').unwrap().is_none());
    assert!(map.get(&b'w').unwrap().is_none());
    assert!(map.get(&b'f').unwrap().is_some());
    assert!(map.get(&b'F').unwrap().is_some());
}

#[test]
fn change() {
    let mut map = new_test_channel_map();

    map.replace(b'w', ch("wir")).unwrap();
    map.replace(b'm', ch("machen")).unwrap();
    map.replace(b'f', ch("feinen")).unwrap();
    map.replace(b'F', ch("Fug")).unwrap();

    //  Replace Some with Some.
    let (old, v) = map
        .change_state(&b'F', |state| (Some(ch("FUG")), (state, 99_u8)))
        .unwrap();
    assert_eq!(old.unwrap().unwrap_open().ident, "Fug");
    assert_eq!(v, 99);
    assert_eq!(map.get(&b'F').unwrap().unwrap().unwrap_open().ident, "FUG");

    // Replace Some with None.
    let (old, v) = map
        .change_state(&b'f', |state| (None, (state, 123_u8)))
        .unwrap();
    assert_eq!(old.unwrap().unwrap_open().ident, "feinen");
    assert_eq!(v, 123);
    assert!(map.get(&b'f').unwrap().is_none());

    // Replace None with Some.
    let (old, v) = map
        .change_state(&b'G', |state| (Some(ch("Geheimnisse")), (state, "Hi")))
        .unwrap();
    assert!(old.is_none());
    assert_eq!(v, "Hi");
    assert_eq!(
        map.get(&b'G').unwrap().unwrap().unwrap_open().ident,
        "Geheimnisse"
    );

    // Replace None with None
    let (old, v) = map
        .change_state(&b'Q', |state| (None, (state, "---")))
        .unwrap();
    assert!(old.is_none());
    assert_eq!(v, "---");
    assert!(map.get(&b'Q').unwrap().is_none());

    // Try replacing None with invalid entry (with mismatched ID)
    let e = map.change_state(&b'P', |state| (Some(ch("Geheimnisse")), (state, "Hi")));
    assert!(matches!(e, Err(Error::Internal(_))));
    assert!(matches!(map.get(&b'P'), Ok(None)));

    // Try replacing Some with invalid entry (mismatched ID)
    let e = map.change_state(&b'G', |state| (Some(ch("Wobbledy")), (state, "Hi")));
    assert!(matches!(e, Err(Error::Internal(_))));
    assert!(matches!(map.get(&b'G'), Err(Error::Internal(_))));
}

fn take_update(map: &mut ChannelMap<FakeChannel>, ident: u8) -> Option<Arc<ChannelsParamsUpdates>> {
    map.change_state(&ident, |state| {
        let mut state = state.unwrap();
        let update = state.unwrap_open().params_update.take();
        (Some(state), update)
    })
    .unwrap()
}

#[test]
fn reparameterise_via_netdir() {
    let mut map = new_test_channel_map();

    // Set some non-default parameters so that we can tell when an update happens
    let odd = NetParameters {
        nf_ito_low: 1234,
        ..NetParameters::default()
    };
    map.reconfigure_general(None, None, Ok(NetDirExtract::from(&odd)))
        .unwrap();

    assert!(map.replace(b't', ch("track")).unwrap().is_none());

    let netdir = NetDirExtract::from(&NetParameters::default());

    println!("-- process a default netdir, which should send an update --");
    map.reconfigure_general(None, None, Ok(netdir)).unwrap();
    let update = take_update(&mut map, b't').unwrap();
    assert_eq!(
        format!("{:?}", update),
        "ChannelsParamsUpdates { padding_enable: None, \
            padding_parameters: Some(PaddingParameters { \
                low_ms: 1500, \
                high_ms: 9500 }) }"
    );
    println!();

    println!("-- process a default netdir again, which should *not* send an update --");
    map.reconfigure_general(None, None, Ok(netdir)).unwrap();
    assert_eq!(take_update(&mut map, b't'), None);
}

#[test]
fn expire_channels() {
    let mut map = new_test_channel_map();

    // Channel that has been unused beyond max duration allowed is expired
    map.replace(
        b'w',
        ch_with_details("wello", Duration::from_secs(180), Some(181)),
    )
    .unwrap();

    // Minimum value of max unused duration is 180 seconds
    assert_eq!(180, map.expire_channels().as_secs());
    assert!(map.get(&b'w').unwrap().is_none());

    let mut map = new_test_channel_map();

    // Channel that has been unused for shorter than max unused duration
    map.replace(
        b'w',
        ch_with_details("wello", Duration::from_secs(180), Some(120)),
    )
    .unwrap();

    map.replace(
        b'y',
        ch_with_details("yello", Duration::from_secs(180), Some(170)),
    )
    .unwrap();

    // Channel that has been unused beyond max duration allowed is expired
    map.replace(
        b'g',
        ch_with_details("gello", Duration::from_secs(180), Some(181)),
    )
    .unwrap();

    // Closed channel should be retained
    map.replace(b'h', closed("hello")).unwrap();

    // Return duration until next channel expires
    assert_eq!(10, map.expire_channels().as_secs());
    assert!(map.get(&b'w').unwrap().is_some());
    assert!(map.get(&b'y').unwrap().is_some());
    assert!(map.get(&b'h').unwrap().is_some());
    assert!(map.get(&b'g').unwrap().is_none());
}

#[test]
fn expiry_at_exactly_the_limit() {
    let mut map = new_test_channel_map();
    map.replace(
        b'e',
        ch_with_details("exact", Duration::from_secs(180), Some(180)),
    )
    .unwrap();
    map.replace(b'b', ChannelState::Building(Pending { id: 7 }))
        .unwrap();
    assert_eq!(180, map.expire_channels().as_secs());
    assert!(map.get(&b'e').unwrap().is_none());
    assert!(matches!(
        map.get(&b'b'),
        Ok(Some(ChannelState::Building(Pending { id: 7 })))
    ));
}

#[test]
fn padding_level_off_sends_zeroes() {
    let mut map = new_test_channel_map();
    map.replace(b't', ch("track")).unwrap();
    let config = ChannelConfig {
        padding: PaddingLevel::Disabled,
    };
    assert_eq!(map.recorded_dormancy(), Dormancy::Active);
    map.reconfigure_general(Some(&config), Some(Dormancy::Dormant), Err(()))
        .unwrap();
    assert_eq!(map.channel_config(), config);
    assert_eq!(map.recorded_dormancy(), Dormancy::Dormant);
    assert_eq!(map.channels_params().padding_parameters.high_ms(), 0);
    assert_eq!(map.len(), 1);
    let update = take_update(&mut map, b't').unwrap();
    let p = update.padding_parameters.unwrap();
    assert_eq!((p.low_ms(), p.high_ms()), (0, 0));
    assert_eq!(update.padding_enable, None);
}

#[test]
fn replace_refuses_wrong_identity() {
    let mut map = new_test_channel_map();
    assert!(matches!(
        map.replace(b'x', ch("hello")),
        Err(Error::Internal(InternalError::IdentityMismatch))
    ));
    assert!(map.get(&b'x').unwrap().is_none());
    assert!(map.get(&b'h').unwrap().is_none());
}

#[test]
fn dial_deduplication() {
    let mut map = new_test_channel_map::<FakeChannel>();
    // The first caller has to dial.
    let first = map.get_or_launch(b'K', Pending { id: 1 }).unwrap();
    assert!(matches!(first, Launch::Dial(Pending { id: 1 })));
    // The second caller waits for the attempt of the first.
    let second = map.get_or_launch(b'K', Pending { id: 2 }).unwrap();
    assert!(matches!(second, Launch::Wait(Pending { id: 1 })));
    // Another relay is another matter.
    let other = map.get_or_launch(b'L', Pending { id: 3 }).unwrap();
    assert!(matches!(other, Launch::Dial(Pending { id: 3 })));
    // The dial succeeds: everyone gets the channel from now on.
    let built = match ch("Kanal") {
        Open(ent) => ent,
        _ => panic!(),
    };
    map.finish_launch(b'K', Some(built)).unwrap();
    for id in 4..6 {
        match map.get_or_launch(b'K', Pending { id }).unwrap() {
            Launch::Ready(c) => assert_eq!(c.ident, "Kanal"),
            _ => panic!(),
        }
    }
    // The other dial fails: the next caller dials anew.
    map.finish_launch(b'L', None).unwrap();
    assert!(map.get(&b'L').unwrap().is_none());
    let again = map.get_or_launch(b'L', Pending { id: 6 }).unwrap();
    assert!(matches!(again, Launch::Dial(Pending { id: 6 })));
}

#[test]
fn launch_replaces_an_unusable_channel() {
    let mut map = new_test_channel_map::<FakeChannel>();
    map.replace(b'h', closed("hello")).unwrap();
    let r = map.get_or_launch(b'h', Pending { id: 9 }).unwrap();
    assert!(matches!(r, Launch::Dial(Pending { id: 9 })));
    assert!(matches!(
        map.get(&b'h'),
        Ok(Some(ChannelState::Building(Pending { id: 9 })))
    ));
    // A channel to another relay than the one that was dialed is refused.
    let wrong = match ch("wello") {
        Open(ent) => ent,
        _ => panic!(),
    };
    assert!(matches!(
        map.finish_launch(b'h', Some(wrong)),
        Err(Error::Internal(InternalError::IdentityMismatch))
    ));
    assert!(map.get(&b'h').unwrap().is_none());
}

#[test]
fn launch_plans() {
    let fresh = Pending { id: 5 };
    let open = ch("hello");
    let building: ChannelState<FakeChannel> = ChannelState::Building(Pending { id: 4 });
    assert_eq!(plan_launch(Some(&open), true, fresh), Ok(LaunchPlan::UseOpen));
    assert_eq!(plan_launch(Some(&open), false, fresh), Ok(LaunchPlan::Dial(fresh)));
    assert_eq!(
        plan_launch(Some(&building), true, fresh),
        Ok(LaunchPlan::Wait(Pending { id: 4 }))
    );
    assert_eq!(
        plan_launch::<FakeChannel>(None, false, fresh),
        Ok(LaunchPlan::Dial(fresh))
    );
}

#[test]
fn poisoned_slot_is_reported() {
    let mut map = new_test_channel_map::<FakeChannel>();
    map.replace(b'G', ch("Geheimnisse")).unwrap();
    let e = map.change_state(&b'G', |state| (Some(ch("Wobbledy")), state));
    assert!(matches!(e, Err(Error::Internal(InternalError::IdentityMismatch))));
    assert!(matches!(
        map.get(&b'G'),
        Err(Error::Internal(InternalError::PoisonedState))
    ));
    assert!(matches!(
        map.get_or_launch(b'G', Pending { id: 1 }),
        Err(Error::Internal(InternalError::PoisonedState))
    ));
    // A sweep of the unusable clears the slot.
    map.remove_unusable().unwrap();
    assert!(matches!(map.get(&b'G'), Ok(None)));
    assert!(matches!(
        map.get_or_launch(b'G', Pending { id: 2 }),
        Ok(Launch::Dial(Pending { id: 2 }))
    ));
}

#[test]
fn entry_level_usability() {
    assert!(ch("hello").stays_if(true));
    assert!(!ch("hello").stays_if(false));
    let building: ChannelState<FakeChannel> = ChannelState::Building(Pending { id: 1 });
    assert!(building.stays_if(false));
    assert!(building.stays_if(true));
}

#[test]
fn entry_level_expiry() {
    let state = ch_with_details("wello", Duration::from_secs(180), None);
    let mut after = Duration::from_secs(180);
    assert!(!state.expires_after(Some(Duration::from_secs(170)), &mut after));
    assert_eq!(after.as_secs(), 10);
    assert!(!state.expires_after(Some(Duration::from_secs(175)), &mut after));
    assert_eq!(after.as_secs(), 5);
    assert!(!state.expires_after(Some(Duration::from_secs(100)), &mut after));
    assert_eq!(after.as_secs(), 5);
    assert!(state.expires_after(Some(Duration::from_secs(180)), &mut after));
    assert!(state.expires_after(Some(Duration::from_secs(999)), &mut after));
    assert!(!state.expires_after(None, &mut after));
    assert_eq!(after.as_secs(), 5);
    let building: ChannelState<FakeChannel> = ChannelState::Building(Pending { id: 1 });
    assert!(!building.expires_after(Some(Duration::from_secs(999)), &mut after));
    assert!(!building.ready_to_expire(&mut after));
    assert_eq!(after.as_secs(), 5);
}

#[test]
fn replace_with_params_hands_out_the_parameters() {
    let mut map = new_test_channel_map::<FakeChannel>();
    let old = map
        .replace_with_params(b't', |params| {
            assert_eq!(params.padding_parameters.low_ms(), 1500);
            Ok(ch("track"))
        })
        .unwrap();
    assert!(old.is_none());
    let r = map.replace_with_params(b't', |_| {
        Err(Error::Internal(InternalError::BadParameters))
    });
    assert!(matches!(r, Err(Error::Internal(InternalError::BadParameters))));
    let r = map.replace_with_params(b'x', |_| Ok(ch("track")));
    assert!(matches!(r, Err(Error::Internal(InternalError::IdentityMismatch))));
    assert!(map.get(&b't').unwrap().is_some());
    assert!(map.get(&b'x').unwrap().is_none());
}
