//! Parameters that every channel agrees on, and how they follow from the
//! configuration and the network consensus.

use vstd::prelude::*;

verus! {

/// Upper bound of every channel padding timeout in the consensus, in
/// milliseconds.
pub const CHANNEL_PADDING_TIMEOUT_UPPER_BOUND: i32 = 60_000;

/// How much cover traffic the configuration asks for.
#[derive(Clone, Copy, Debug, PartialEq, Eq, Structural)]
pub enum PaddingLevel {
    /// Send no padding.
    Disabled,
    /// Send less padding than usual.
    Reduced,
    /// Send the usual amount of padding.
    Normal,
}

/// The part of the configuration that the channels read.
#[derive(Clone, Copy, Debug, PartialEq, Eq, Structural)]
pub struct ChannelConfig {
    /// Control of channel padding.
    pub padding: PaddingLevel,
}

impl Default for ChannelConfig {
    fn default() -> (c: ChannelConfig)
        ensures
            c.padding == PaddingLevel::Normal,
    {
        ChannelConfig { padding: PaddingLevel::Normal }
    }
}

/// Whether the client is meant to be quiet.  Recorded, and not acted on.
#[derive(Clone, Copy, Debug, PartialEq, Eq, Structural)]
pub enum Dormancy {
    /// Ordinary operation.
    Active,
    /// The client is dormant.
    Dormant,
}

impl Default for Dormancy {
    fn default() -> (d: Dormancy)
        ensures
            d == Dormancy::Active,
    {
        Dormancy::Active
    }
}

/// Timing of the padding on an idle channel: a lower and an upper bound of
/// the timeout, in milliseconds.  The lower bound never exceeds the upper.
#[derive(Clone, Copy, Debug, PartialEq, Eq, Structural)]
pub struct PaddingParameters {
    /// Low end of the timeout range.
    low_ms: u32,
    /// High end of the timeout range.
    high_ms: u32,
}

/// Why a set of padding parameters was refused.
#[derive(Clone, Copy, Debug, PartialEq, Eq, Structural)]
pub enum ParametersError {
    /// The lower bound is above the upper bound.
    InvalidRange,
}

impl PaddingParameters {
    #[verifier::type_invariant]
    spec fn ordered(self) -> bool {
        self.low_ms <= self.high_ms
    }

    /// The lower bound, in milliseconds.
    pub closed spec fn low(self) -> u32 {
        self.low_ms
    }

    /// The upper bound, in milliseconds.
    pub closed spec fn high(self) -> u32 {
        self.high_ms
    }

    /// Two values with the same bounds are the same value.
    pub proof fn lemma_same_bounds(a: PaddingParameters, b: PaddingParameters)
        requires
            a.low() == b.low(),
            a.high() == b.high(),
        ensures
            a == b,
    {
    }

    /// The lower bound, in milliseconds.
    pub fn low_ms(&self) -> (r: u32)
        ensures
            r == self.low(),
            r <= self.high(),
    {
        proof {
            use_type_invariant(self);
        }
        self.low_ms
    }

    /// The upper bound, in milliseconds.
    pub fn high_ms(&self) -> (r: u32)
        ensures
            r == self.high(),
            r >= self.low(),
    {
        proof {
            use_type_invariant(self);
        }
        self.high_ms
    }

    /// The parameters of a channel that sends the usual padding.
    pub fn default() -> (p: PaddingParameters)
        ensures
            p.low() == 1500,
            p.high() == 9500,
    {
        PaddingParameters { low_ms: 1500, high_ms: 9500 }
    }

    /// The parameters of a channel that sends reduced padding.
    pub fn default_reduced() -> (p: PaddingParameters)
        ensures
            p.low() == 9000,
            p.high() == 14000,
    {
        PaddingParameters { low_ms: 9000, high_ms: 14000 }
    }

    /// The parameters that stand for "no padding".
    pub fn all_zeroes() -> (p: PaddingParameters)
        ensures
            p.low() == 0,
            p.high() == 0,
    {
        PaddingParameters { low_ms: 0, high_ms: 0 }
    }
}

/// Collects the bounds of a [`PaddingParameters`]; a bound that is not set
/// takes its default.
#[derive(Clone, Copy, Debug, PartialEq, Eq, Structural)]
pub struct PaddingParametersBuilder {
    /// The lower bound, if set.
    pub low_ms: Option<u32>,
    /// The upper bound, if set.
    pub high_ms: Option<u32>,
}

impl PaddingParametersBuilder {
    /// A builder with nothing set.
    pub fn default() -> (b: PaddingParametersBuilder)
        ensures
            b.low_ms is None,
            b.high_ms is None,
    {
        PaddingParametersBuilder { low_ms: None, high_ms: None }
    }

    /// Set the lower bound, in milliseconds.
    pub fn low_ms(self, value: u32) -> (b: PaddingParametersBuilder)
        ensures
            b.low_ms == Some(value),
            b.high_ms == self.high_ms,
    {
        PaddingParametersBuilder { low_ms: Some(value), high_ms: self.high_ms }
    }

    /// Set the upper bound, in milliseconds.
    pub fn high_ms(self, value: u32) -> (b: PaddingParametersBuilder)
        ensures
            b.high_ms == Some(value),
            b.low_ms == self.low_ms,
    {
        PaddingParametersBuilder { low_ms: self.low_ms, high_ms: Some(value) }
    }

    /// The lower bound that `build` will use.
    pub open spec fn low_or_default(self) -> u32 {
        match self.low_ms {
            Some(v) => v,
            None => 1500,
        }
    }

    /// The upper bound that `build` will use.
    pub open spec fn high_or_default(self) -> u32 {
        match self.high_ms {
            Some(v) => v,
            None => 9500,
        }
    }

    /// Build the parameters; refused where the lower bound is above the
    /// upper.
    pub fn build(&self) -> (r: Result<PaddingParameters, ParametersError>)
        ensures
            r is Ok <==> self.low_or_default() <= self.high_or_default(),
            r is Ok ==> r->Ok_0.low() == self.low_or_default() && r->Ok_0.high()
                == self.high_or_default(),
            r is Err ==> r->Err_0 == ParametersError::InvalidRange,
    {
        let low: u32 = match self.low_ms {
            Some(v) => v,
            None => 1500,
        };
        let high: u32 = match self.high_ms {
            Some(v) => v,
            None => 9500,
        };
        if low > high {
            Err(ParametersError::InvalidRange)
        } else {
            Ok(PaddingParameters { low_ms: low, high_ms: high })
        }
    }
}

/// The parameters that all channels of a client use.
#[derive(Clone, Copy, Debug, PartialEq, Eq, Structural)]
pub struct ChannelsParams {
    /// Whether to send padding.
    pub padding_enable: bool,
    /// How to time it.
    pub padding_parameters: PaddingParameters,
}

/// A change of [`ChannelsParams`]: for each parameter the new value, or
/// `None` where it stays as it is.
#[derive(Clone, Copy, Debug, PartialEq, Eq, Structural)]
pub struct ChannelsParamsUpdates {
    /// New value of `padding_enable`, if it changes.
    pub padding_enable: Option<bool>,
    /// New value of `padding_parameters`, if it changes.
    pub padding_parameters: Option<PaddingParameters>,
}

/// An update of [`ChannelsParams`] in the making.  It holds the parameters
/// as they will be, and the changes made so far.
pub struct ChannelsParamsUpdatesBuilder {
    /// The parameters with the changes applied.
    pub params: ChannelsParams,
    /// The changes, or `None` while nothing has changed.
    pub update: Option<ChannelsParamsUpdates>,
}

impl ChannelsParams {
    /// The parameters of a client that has seen neither configuration nor
    /// consensus.
    pub fn default() -> (p: ChannelsParams)
        ensures
            p.padding_enable == false,
            p.padding_parameters.low() == 1500,
            p.padding_parameters.high() == 9500,
    {
        ChannelsParams { padding_enable: false, padding_parameters: PaddingParameters::default() }
    }

    /// An update of these parameters in which nothing has changed yet.
    pub open spec fn started(self) -> ChannelsParamsUpdatesBuilder {
        ChannelsParamsUpdatesBuilder { params: self, update: None }
    }

    /// Start an update of these parameters.  Set the new values on the
    /// builder, then hand the parameters to its `finish`.
    pub fn start_update(&self) -> (b: ChannelsParamsUpdatesBuilder)
        ensures
            b == self.started(),
    {
        ChannelsParamsUpdatesBuilder { params: *self, update: None }
    }
}

impl ChannelsParamsUpdatesBuilder {
    /// The changes so far, or changes that leave everything as it is.
    pub open spec fn changes(self) -> ChannelsParamsUpdates {
        match self.update {
            Some(u) => u,
            None => ChannelsParamsUpdates { padding_enable: None, padding_parameters: None },
        }
    }

    /// This update with `padding_enable` set to `value`: no other update
    /// where that is the current value.
    pub open spec fn with_padding_enable(self, value: bool) -> ChannelsParamsUpdatesBuilder {
        if value == self.params.padding_enable {
            self
        } else {
            ChannelsParamsUpdatesBuilder {
                params: ChannelsParams {
                    padding_enable: value,
                    padding_parameters: self.params.padding_parameters,
                },
                update: Some(
                    ChannelsParamsUpdates {
                        padding_enable: Some(value),
                        padding_parameters: self.changes().padding_parameters,
                    },
                ),
            }
        }
    }

    /// This update with `padding_parameters` set to `value`: no other
    /// update where that is the current value.
    pub open spec fn with_padding_parameters(
        self,
        value: PaddingParameters,
    ) -> ChannelsParamsUpdatesBuilder {
        if value == self.params.padding_parameters {
            self
        } else {
            ChannelsParamsUpdatesBuilder {
                params: ChannelsParams {
                    padding_enable: self.params.padding_enable,
                    padding_parameters: value,
                },
                update: Some(
                    ChannelsParamsUpdates {
                        padding_enable: self.changes().padding_enable,
                        padding_parameters: Some(value),
                    },
                ),
            }
        }
    }

    /// Set `padding_enable`.  A value equal to the current one changes
    /// nothing.
    pub fn padding_enable(self, value: bool) -> (b: ChannelsParamsUpdatesBuilder)
        ensures
            b == self.with_padding_enable(value),
    {
        if value == self.params.padding_enable {
            self
        } else {
            let padding_parameters = match self.update {
                Some(u) => u.padding_parameters,
                None => None,
            };
            ChannelsParamsUpdatesBuilder {
                params: ChannelsParams {
                    padding_enable: value,
                    padding_parameters: self.params.padding_parameters,
                },
                update: Some(ChannelsParamsUpdates { padding_enable: Some(value), padding_parameters }),
            }
        }
    }

    /// Set `padding_parameters`.  A value equal to the current one changes
    /// nothing.
    pub fn padding_parameters(self, value: PaddingParameters) -> (b: ChannelsParamsUpdatesBuilder)
        ensures
            b == self.with_padding_parameters(value),
    {
        if value == self.params.padding_parameters {
            self
        } else {
            let padding_enable = match self.update {
                Some(u) => u.padding_enable,
                None => None,
            };
            ChannelsParamsUpdatesBuilder {
                params: ChannelsParams {
                    padding_enable: self.params.padding_enable,
                    padding_parameters: value,
                },
                update: Some(ChannelsParamsUpdates { padding_enable, padding_parameters: Some(value) }),
            }
        }
    }

    /// Store the updated parameters in `params` and return the changes:
    /// `None` if no value that was set differs from what was there.
    pub fn finish(self, params: &mut ChannelsParams) -> (r: Option<ChannelsParamsUpdates>)
        ensures
            *final(params) == self.params,
            r == self.update,
    {
        *params = self.params;
        self.update
    }
}

/// An update yields changes exactly when a value that was set differs from
/// the current one.  The changes name the values that differ and no others,
/// and the parameters hold every value that was set.
pub proof fn law_update_reports_effective_change(
    current: ChannelsParams,
    enable: bool,
    timing: PaddingParameters,
)
    ensures
        ({
            let one = current.started().with_padding_parameters(timing);
            let both = one.with_padding_enable(enable);
            &&& current.started().update is None
            &&& one.update is Some <==> timing != current.padding_parameters
            &&& one.update is Some ==> one.update->0.padding_parameters == Some(timing)
                && one.update->0.padding_enable is None
            &&& one.params.padding_parameters == timing
            &&& one.params.padding_enable == current.padding_enable
            &&& both.update is Some <==> timing != current.padding_parameters || enable
                != current.padding_enable
            &&& both.changes().padding_enable is Some <==> enable != current.padding_enable
            &&& both.changes().padding_parameters is Some <==> timing
                != current.padding_parameters
            &&& both.params == (ChannelsParams { padding_enable: enable, padding_parameters: timing })
        }),
{
}

/// The timeouts of the consensus that padding depends on, in milliseconds.
/// Each lies between zero and [`CHANNEL_PADDING_TIMEOUT_UPPER_BOUND`].
#[derive(Clone, Copy, Debug, PartialEq, Eq, Structural)]
pub struct NetParameters {
    /// Low end of the timeout range.
    pub nf_ito_low: i32,
    /// High end of the timeout range.
    pub nf_ito_high: i32,
    /// Low end of the timeout range under reduced padding.
    pub nf_ito_low_reduced: i32,
    /// High end of the timeout range under reduced padding.
    pub nf_ito_high_reduced: i32,
}

impl NetParameters {
    /// The values that hold where the consensus lists none.
    pub fn default() -> (p: NetParameters)
        ensures
            p == (NetParameters {
                nf_ito_low: 1500,
                nf_ito_high: 9500,
                nf_ito_low_reduced: 9000,
                nf_ito_high_reduced: 14000,
            }),
    {
        NetParameters {
            nf_ito_low: 1500,
            nf_ito_high: 9500,
            nf_ito_low_reduced: 9000,
            nf_ito_high_reduced: 14000,
        }
    }
}

/// What the channels need of a network directory, copied out of it so that
/// the directory can be let go before the channel map is locked.
///
/// `nf_ito[0]` holds the timeouts of normal padding and `nf_ito[1]` those
/// of reduced padding; in each, index 0 is the low end and index 1 the high
/// end.
#[derive(Clone, Copy, Debug)]
pub struct NetDirExtract {
    /// The timeouts, in milliseconds.
    pub nf_ito: [[i32; 2]; 2],
}

impl NetDirExtract {
    /// Copy the timeouts out of the parameters of a network directory.
    pub fn from(p: &NetParameters) -> (e: NetDirExtract)
        ensures
            e.nf_ito@[0]@ == seq![p.nf_ito_low, p.nf_ito_high],
            e.nf_ito@[1]@ == seq![p.nf_ito_low_reduced, p.nf_ito_high_reduced],
    {
        let e = NetDirExtract {
            nf_ito: [[p.nf_ito_low, p.nf_ito_high], [p.nf_ito_low_reduced, p.nf_ito_high_reduced]],
        };
        assert(e.nf_ito@[0]@ =~= seq![p.nf_ito_low, p.nf_ito_high]);
        assert(e.nf_ito@[1]@ =~= seq![p.nf_ito_low_reduced, p.nf_ito_high_reduced]);
        e
    }
}

/// The bounds that are the default of a level of padding: those of
/// reduced padding, or those of normal padding.
pub open spec fn default_timing(reduced: bool) -> (u32, u32) {
    if reduced {
        (9000, 14000)
    } else {
        (1500, 9500)
    }
}

/// The timeouts that a pair from the consensus yields: the pair itself
/// where both are within their bounds and in order, else the defaults of
/// the level.
pub open spec fn timing_from_consensus(low: i32, high: i32, reduced: bool) -> (u32, u32) {
    if 0 <= low && low <= high && high <= CHANNEL_PADDING_TIMEOUT_UPPER_BOUND {
        (low as u32, high as u32)
    } else {
        default_timing(reduced)
    }
}

/// The bounds of the padding timeout that configuration and consensus
/// call for.
pub open spec fn resolved_timing(config: PaddingLevel, netdir: Result<NetDirExtract, ()>) -> (
    u32,
    u32,
) {
    match config {
        PaddingLevel::Disabled => (0, 0),
        PaddingLevel::Reduced => match netdir {
            Ok(n) => timing_from_consensus(n.nf_ito@[1]@[0], n.nf_ito@[1]@[1], true),
            Err(_) => default_timing(true),
        },
        PaddingLevel::Normal => match netdir {
            Ok(n) => timing_from_consensus(n.nf_ito@[0]@[0], n.nf_ito@[0]@[1], false),
            Err(_) => default_timing(false),
        },
    }
}

/// Given what was taken from the consensus and the configured padding
/// level, return the padding parameters for all channels.
///
/// With `PaddingLevel::Disabled` they are all zero.  Without a consensus
/// they are the defaults of the level.  With one they are its timeouts for
/// the level; should those be out of their bounds or out of order, the
/// defaults of the level take their place.
pub fn padding_parameters(config: PaddingLevel, netdir: Result<&NetDirExtract, &()>) -> (r: Result<
    PaddingParameters,
    ParametersError,
>)
    ensures
        r is Ok,
        (r->Ok_0.low(), r->Ok_0.high()) == resolved_timing(
            config,
            match netdir {
                Ok(n) => Ok(*n),
                Err(_) => Err(()),
            },
        ),
{
    let reduced = match config {
        PaddingLevel::Reduced => true,
        PaddingLevel::Normal => false,
        PaddingLevel::Disabled => {
            return Ok(PaddingParameters::all_zeroes());
        },
    };
    let fallback = if reduced {
        PaddingParameters::default_reduced()
    } else {
        PaddingParameters::default()
    };
    match netdir {
        Ok(netdir) => {
            let nf_ito: [i32; 2] = if reduced {
                netdir.nf_ito[1]
            } else {
                netdir.nf_ito[0]
            };
            let low: i32 = nf_ito[0];
            let high: i32 = nf_ito[1];
            if 0 <= low && low <= high && high <= CHANNEL_PADDING_TIMEOUT_UPPER_BOUND {
                PaddingParametersBuilder::default().low_ms(low as u32).high_ms(high as u32).build()
            } else {
                // The parameters of the consensus are wrong: use the defaults.
                Ok(fallback)
            }
        },
        Err(_) => Ok(fallback),
    }
}

} // verus!
