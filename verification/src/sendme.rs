//! Flow-control windows for circuits and streams.
//!
//! A window counts the cells that may still be sent (or received) before an
//! acknowledgement is due.  Circuit-level acknowledgements are authenticated:
//! they echo a tag taken from the cell that was sent when the window crossed
//! a multiple of its increment.  Stream-level acknowledgements carry no tag.
//!
//! The send window here is the state that sits behind a lock in a running
//! client.  `take` and `put` are single steps on that state: `take` reports
//! that the caller has to wait instead of waiting itself, and `put` reports
//! whether a waiting sender is to be woken.

use std::collections::VecDeque;
use std::marker::PhantomData;
use vstd::prelude::*;

verus! {

/// Parameters of a window: its largest value and the step by which
/// an acknowledgement raises it.
pub trait WindowParams {
    /// The largest value the window may hold.
    spec fn maximum() -> u16;

    /// The number of cells that one acknowledgement stands for.
    spec fn increment() -> u16;

    /// Largest allowable value for this window.
    fn get_maximum() -> (r: u16)
        ensures
            r == Self::maximum(),
    ;

    /// Increment for this window; never zero.
    fn get_increment() -> (r: u16)
        ensures
            r == Self::increment(),
            r > 0,
    ;
}

/// Parameters of a circuit-level window.
pub struct CircParams;

impl WindowParams for CircParams {
    open spec fn maximum() -> u16 {
        1000
    }

    open spec fn increment() -> u16 {
        100
    }

    fn get_maximum() -> (r: u16) {
        1000
    }

    fn get_increment() -> (r: u16) {
        100
    }
}

/// Parameters of a stream-level window.
pub struct StreamParams;

impl WindowParams for StreamParams {
    open spec fn maximum() -> u16 {
        500
    }

    open spec fn increment() -> u16 {
        50
    }

    fn get_maximum() -> (r: u16) {
        500
    }

    fn get_increment() -> (r: u16) {
        50
    }
}

/// True when a cell sent at window value `old_window` is one whose tag the
/// peer will echo: the window stands on a multiple of the increment and is
/// not full.
pub open spec fn at_boundary(old_window: u16, increment: u16, maximum: u16) -> bool {
    increment > 0 && old_window % increment == 0 && old_window != maximum
}

/// A value that authenticates an acknowledgement.
pub trait Tag: Sized {
    /// Compare two tags.
    fn same(&self, other: &Self) -> (r: bool)
        ensures
            r == (*self == *other),
    ;

    /// Copy a tag so that it can be remembered.
    fn duplicate(&self) -> (r: Self)
        ensures
            r == *self,
    ;
}

/// Tag type used in authenticated circuit-level acknowledgements.
pub type CircTag = [u8; 20];

/// Absence of a tag, as with stream cells.
pub type NoTag = ();

impl Tag for [u8; 20] {
    fn same(&self, other: &Self) -> (r: bool) {
        let mut i: usize = 0;
        while i < 20
            invariant
                i <= 20,
                forall|j: int| 0 <= j < i ==> self@[j] == other@[j],
            decreases 20 - i,
        {
            if self[i] != other[i] {
                return false;
            }
            i += 1;
        }
        assert(*self =~= *other);
        true
    }

    fn duplicate(&self) -> (r: Self) {
        *self
    }
}

impl Tag for () {
    fn same(&self, other: &Self) -> (r: bool) {
        true
    }

    fn duplicate(&self) -> (r: Self) {
        ()
    }
}

/// The mathematical state of a send window.
pub struct SendState<T> {
    /// Cells that may still be sent.
    pub window: u16,
    /// Tags that coming acknowledgements have to carry, oldest first.
    pub tags: Seq<T>,
    /// Whether a sender waits for the window to leave zero.
    pub parked: bool,
}

/// What `take` does to a state, for a window with the given parameters.
pub open spec fn take_step<T>(s: SendState<T>, tag: T, increment: u16, maximum: u16) -> SendState<
    T,
> {
    let tags = if at_boundary(s.window, increment, maximum) {
        s.tags.push(tag)
    } else {
        s.tags
    };
    if s.window > 0 {
        SendState { window: (s.window - 1) as u16, tags, parked: s.parked }
    } else {
        SendState { window: 0, tags, parked: true }
    }
}

/// Whether an acknowledgement carrying `tag` is accepted in state `s`.
pub open spec fn put_accepts<T>(s: SendState<T>, tag: Option<T>, increment: u16) -> bool {
    &&& s.tags.len() > 0
    &&& match tag {
        Some(t) => s.tags[0] == t,
        None => true,
    }
    &&& s.window + increment <= u16::MAX
}

/// What `put` does to a state.  The expected tag is used up even when the
/// acknowledgement is refused.
pub open spec fn put_step<T>(s: SendState<T>, tag: Option<T>, increment: u16) -> SendState<T> {
    let tags = if s.tags.len() > 0 {
        s.tags.subrange(1, s.tags.len() as int)
    } else {
        s.tags
    };
    if put_accepts(s, tag, increment) {
        SendState { window: (s.window + increment) as u16, tags, parked: false }
    } else {
        SendState { window: s.window, tags, parked: s.parked }
    }
}

/// The credit invariant of a send window: the window never exceeds its
/// maximum, and neither would it if every acknowledgement still expected
/// arrived at once.
pub open spec fn credit_ok<T>(s: SendState<T>, increment: u16, maximum: u16) -> bool {
    &&& increment > 0
    &&& maximum % increment == 0
    &&& s.window <= maximum
    &&& s.tags.len() > 0 ==> s.window + increment * s.tags.len() < maximum
}

/// An accepted acknowledgement.
#[derive(Clone, Copy, Debug, PartialEq, Eq)]
pub struct Ack {
    /// The window after the acknowledgement.
    pub window: u16,
    /// Whether a sender was waiting and has to be woken.
    pub wake: bool,
}

/// Tracks how many cells we can safely send on a circuit or stream.
///
/// Additionally, remembers a list of tags that could be used to
/// acknowledge the cells we have already sent, so we know it's safe
/// to send more.
pub struct SendWindow<P: WindowParams, T: Tag> {
    /// Current value for this window.
    window: u16,
    /// Tag values that incoming acknowledgements need to match in order
    /// for us to send more data.
    tags: VecDeque<T>,
    /// Whether a sender is waiting for the window to leave zero.
    parked: bool,
    /// The parameters are a type, not a value.
    _dummy: PhantomData<P>,
}

/// A circuit's send window.
pub type CircSendWindow = SendWindow<CircParams, CircTag>;

/// A stream's send window.
pub type StreamSendWindow = SendWindow<StreamParams, NoTag>;

impl<P: WindowParams, T: Tag> View for SendWindow<P, T> {
    type V = SendState<T>;

    closed spec fn view(&self) -> SendState<T> {
        SendState { window: self.window, tags: self.tags@, parked: self.parked }
    }
}

impl<P: WindowParams, T: Tag> SendWindow<P, T> {
    /// The window keeps within its maximum, whatever acknowledgements are
    /// still to come.
    pub open spec fn well_formed(&self) -> bool {
        credit_ok(self@, P::increment(), P::maximum())
    }

    /// Construct a new SendWindow.
    pub fn new(window: u16) -> (w: SendWindow<P, T>)
        ensures
            w@ == (SendState::<T> { window, tags: Seq::empty(), parked: false }),
            w.well_formed() <==> window <= P::maximum() && P::maximum() % P::increment() == 0,
    {
        let increment = P::get_increment();
        let capacity: usize = (window / increment) as usize + 1;
        let w = SendWindow {
            window,
            tags: VecDeque::with_capacity(capacity),
            parked: false,
            _dummy: PhantomData,
        };
        assert(w.tags@ =~= Seq::<T>::empty());
        w
    }

    /// Whether a sender is waiting for the window to leave zero.
    pub fn is_parked(&self) -> (r: bool)
        ensures
            r == self@.parked,
    {
        self.parked
    }

    /// Whether `take` may be called: not while an earlier `take` still
    /// waits on an exhausted window.
    pub fn can_take(&self) -> (r: bool)
        ensures
            r == !(self@.window == 0 && self@.parked),
    {
        !(self.window == 0 && self.parked)
    }

    /// Remove one item from this window (since we've sent a cell).
    ///
    /// The provided tag is the one associated with the crypto layer that
    /// originated the cell.  It is copied and recorded if we'll
    /// need to check for it later.
    ///
    /// Returns the number of cells left in the window, or `None` when the
    /// window is exhausted: the sender is then parked, has to wait until
    /// `put` reports a wake-up, and calls `take` again.
    pub fn take(&mut self, tag: &T) -> (r: Option<u16>)
        requires
            !(old(self)@.window == 0 && old(self)@.parked),
        ensures
            final(self)@ == take_step(old(self)@, *tag, P::increment(), P::maximum()),
            r == if old(self)@.window > 0 {
                Some((old(self)@.window - 1) as u16)
            } else {
                None
            },
            old(self).well_formed() && old(self)@.window > 0 ==> final(self).well_formed(),
    {
        let oldval = self.window;
        let increment = P::get_increment();
        let maximum = P::get_maximum();
        if oldval % increment == 0 && oldval != maximum {
            self.tags.push_back(tag.duplicate());
        }
        proof {
            if old(self).well_formed() && oldval > 0 {
                lemma_take_keeps_credit(old(self)@, *tag, P::increment(), P::maximum());
            }
        }
        if oldval > 0 {
            self.window = oldval - 1;
            Some(oldval - 1)
        } else {
            self.parked = true;
            None
        }
    }

    /// Handle an incoming acknowledgement with a provided tag.
    ///
    /// If the tag is None, then we don't enforce tag requirements.
    ///
    /// On success, return the number of cells left in the window, and
    /// whether a parked sender is to be woken.
    ///
    /// On failure, return None: the caller should close the stream
    /// or circuit with a protocol error.
    pub fn put(&mut self, tag: Option<T>) -> (r: Option<Ack>)
        ensures
            final(self)@ == put_step(old(self)@, tag, P::increment()),
            r == if put_accepts(old(self)@, tag, P::increment()) {
                Some(
                    Ack {
                        window: (old(self)@.window + P::increment()) as u16,
                        wake: old(self)@.parked,
                    },
                )
            } else {
                None
            },
            old(self).well_formed() ==> final(self).well_formed(),
            old(self).well_formed() ==> (r is Some <==> old(self)@.tags.len() > 0 && (tag is Some
                ==> old(self)@.tags[0] == tag->0)),
    {
        proof {
            lemma_put_keeps_credit(old(self)@, tag, P::increment(), P::maximum());
        }
        let expected = self.tags.pop_front();
        assert(self.tags@ =~= put_step(old(self)@, tag, P::increment()).tags);
        let matched = match (expected, tag) {
            (Some(t), Some(tag)) => t.same(&tag),
            (Some(_), None) => true,
            _ => false,
        };
        if !matched {
            return None;
        }
        let increment = P::get_increment();
        if self.window > u16::MAX - increment {
            return None;
        }
        let v: u16 = self.window + increment;
        self.window = v;
        let wake = self.parked;
        self.parked = false;
        Some(Ack { window: v, wake })
    }
}

/// A `take` on a window that is not exhausted keeps the credit invariant.
pub proof fn lemma_take_keeps_credit<T>(s: SendState<T>, tag: T, increment: u16, maximum: u16)
    requires
        credit_ok(s, increment, maximum),
        s.window > 0,
    ensures
        credit_ok(take_step(s, tag, increment, maximum), increment, maximum),
        take_step(s, tag, increment, maximum).window <= maximum,
{
    let n = s.tags.len() as int;
    let inc = increment as int;
    let w = s.window as int;
    let m = maximum as int;
    if at_boundary(s.window, increment, maximum) {
        // Both the window and the maximum are multiples of the increment,
        // and the window is below the maximum: a whole increment is free.
        assert(w + inc * n + inc <= m) by (nonlinear_arith)
            requires
                inc > 0,
                w % inc == 0,
                m % inc == 0,
                n >= 0,
                w != m,
                w <= m,
                n > 0 ==> w + inc * n < m,
        {
            let a = w / inc;
            let b = m / inc;
            assert(w == inc * a);
            assert(m == inc * b);
            if n > 0 {
                assert(inc * (a + n) < inc * b);
                assert(a + n < b);
                assert(inc * (a + n + 1) <= inc * b);
            } else {
                assert(a < b);
                assert(inc * (a + 1) <= inc * b);
            }
        }
        assert(inc * (n + 1) == inc * n + inc) by (nonlinear_arith);
    }
}

/// A `put` keeps the credit invariant, and under it the window cannot
/// overflow.
pub proof fn lemma_put_keeps_credit<T>(s: SendState<T>, tag: Option<T>, increment: u16, maximum: u16)
    ensures
        credit_ok(s, increment, maximum) ==> credit_ok(
            put_step(s, tag, increment),
            increment,
            maximum,
        ),
        credit_ok(s, increment, maximum) && s.tags.len() > 0 ==> s.window + increment <= maximum,
{
    let n = s.tags.len() as int;
    let inc = increment as int;
    if credit_ok(s, increment, maximum) && n > 0 {
        assert(inc * n >= inc) by (nonlinear_arith)
            requires
                inc > 0,
                n >= 1,
        ;
        assert(inc * (n - 1) == inc * n - inc) by (nonlinear_arith);
    }
}

/// However a send window is used, as long as `take` is called only while
/// credit is left, the window stays within `[0, maximum]` and no more tags
/// are expected than the maximum holds increments.
pub proof fn law_window_stays_in_range<T>(s: SendState<T>, increment: u16, maximum: u16)
    requires
        credit_ok(s, increment, maximum),
    ensures
        0 <= s.window <= maximum,
        s.tags.len() <= maximum / increment,
        forall|tag: T|
            s.window > 0 ==> credit_ok(
                #[trigger] take_step(s, tag, increment, maximum),
                increment,
                maximum,
            ),
        forall|tag: Option<T>|
            credit_ok(#[trigger] put_step(s, tag, increment), increment, maximum),
{
    let n = s.tags.len() as int;
    let inc = increment as int;
    let m = maximum as int;
    assert(n <= m / inc) by (nonlinear_arith)
        requires
            inc > 0,
            n >= 0,
            m >= 0,
            n > 0 ==> inc * n < m,
    {
        if n > 0 {
            assert(inc * n < m);
            assert(m >= inc * (m / inc));
            assert(m < inc * (m / inc) + inc);
            assert(inc * n < inc * (m / inc + 1));
            assert(n < m / inc + 1);
        } else {
            assert(m / inc >= 0);
        }
    }
    assert forall|tag: T| s.window > 0 implies credit_ok(
        #[trigger] take_step(s, tag, increment, maximum),
        increment,
        maximum,
    ) by {
        lemma_take_keeps_credit(s, tag, increment, maximum);
    }
    assert forall|tag: Option<T>|
        credit_ok(#[trigger] put_step(s, tag, increment), increment, maximum) by {
        lemma_put_keeps_credit(s, tag, increment, maximum);
    }
}

/// The tag of a cell that was sent at an increment boundary is expected
/// behind the tags that were expected already.  An acknowledgement is held
/// against the oldest tag that is expected: it is accepted exactly when it
/// carries that tag, or none.  So after a cell sent at a boundary with
/// nothing else outstanding, an acknowledgement is accepted exactly when it
/// echoes the tag of that cell.
pub proof fn law_ack_must_echo_tag<T>(
    s: SendState<T>,
    sent: T,
    acked: T,
    increment: u16,
    maximum: u16,
)
    requires
        credit_ok(s, increment, maximum),
        at_boundary(s.window, increment, maximum),
    ensures
        ({
            let after = take_step(s, sent, increment, maximum);
            &&& after.tags == s.tags.push(sent)
            &&& put_accepts(after, Some(acked), increment) <==> acked == after.tags[0]
            &&& s.tags.len() == 0 ==> after.tags[0] == sent
            &&& put_accepts(after, None, increment)
        }),
{
    let after = take_step(s, sent, increment, maximum);
    let n = s.tags.len() as int;
    let inc = increment as int;
    let w = s.window as int;
    let m = maximum as int;
    // A whole increment is free below the maximum.
    assert(w + inc <= m) by (nonlinear_arith)
        requires
            inc > 0,
            w % inc == 0,
            m % inc == 0,
            w != m,
            0 <= w <= m,
    {
        let a = w / inc;
        let b = m / inc;
        assert(w == inc * a);
        assert(m == inc * b);
        assert(a < b);
        assert(inc * (a + 1) <= inc * b);
    }
}

/// A sender parked on an exhausted window is woken by the next accepted
/// acknowledgement and by no later one.
pub proof fn law_parked_sender_woken_once<T>(
    s: SendState<T>,
    tag: T,
    first: Option<T>,
    second: Option<T>,
    increment: u16,
    maximum: u16,
)
    requires
        s.window == 0,
        !s.parked,
        increment > 0,
    ensures
        ({
            let blocked = take_step(s, tag, increment, maximum);
            let once = put_step(blocked, first, increment);
            let twice = put_step(once, second, increment);
            &&& blocked.parked
            &&& blocked.window == 0
            &&& put_accepts(blocked, first, increment) ==> !once.parked && once.window > 0
            &&& !put_accepts(blocked, first, increment) ==> once.parked && once.window == 0
            &&& put_accepts(blocked, first, increment) ==> !twice.parked
        }),
{
}

/// Structure to track when we need to send acknowledgements for incoming
/// data.
pub struct RecvWindow<P: WindowParams> {
    /// Cells that the peer may still send.
    window: u16,
    /// The parameters are a type, not a value.
    _dummy: PhantomData<P>,
}

/// A circuit's receive window.
pub type CircRecvWindow = RecvWindow<CircParams>;

/// A stream's receive window.
pub type StreamRecvWindow = RecvWindow<StreamParams>;

impl<P: WindowParams> View for RecvWindow<P> {
    type V = u16;

    closed spec fn view(&self) -> u16 {
        self.window
    }
}

impl<P: WindowParams> RecvWindow<P> {
    /// Create a new RecvWindow.
    pub fn new(window: u16) -> (w: RecvWindow<P>)
        ensures
            w@ == window,
    {
        RecvWindow { window, _dummy: PhantomData }
    }

    /// Called when we've just received a cell; return true if we need to
    /// send an acknowledgement, and false otherwise.
    ///
    /// Returns None if the peer should not have sent the cell, and has
    /// just violated the window.
    pub fn take(&mut self) -> (r: Option<bool>)
        ensures
            old(self)@ == 0 ==> r is None && final(self)@ == 0,
            old(self)@ > 0 ==> final(self)@ == old(self)@ - 1 && r == Some(
                at_boundary(old(self)@, P::increment(), P::maximum()),
            ),
    {
        let oldval = self.window;
        if oldval > 0 {
            self.window = oldval - 1;
            let increment = P::get_increment();
            let maximum = P::get_maximum();
            Some(oldval % increment == 0 && oldval != maximum)
        } else {
            None
        }
    }

    /// Whether `put` may be called: the window has room for one more
    /// increment.
    pub fn can_put(&self) -> (r: bool)
        ensures
            r == (self@ + P::increment() <= u16::MAX),
    {
        let increment = P::get_increment();
        self.window <= u16::MAX - increment
    }

    /// Called when we've just sent an acknowledgement.
    pub fn put(&mut self)
        requires
            old(self)@ + P::increment() <= u16::MAX,
        ensures
            final(self)@ == old(self)@ + P::increment(),
    {
        let increment = P::get_increment();
        self.window = self.window + increment;
    }
}

} // verus!
