//! Signal aspects and the owner-priority arbitration rule.
//!
//! A signal carries a colour (its aspect) and an owner. Colour and owner are
//! only ever changed together, through [`Signal::update`], which decides by
//! the arbitration table whether a proposed change may be applied.

use vstd::prelude::*;

verus! {

/// The aspect shown by a signal. `Red` is the most restrictive aspect and
/// `Green` the least; [`SignalColour::rank`] gives that order a number.
#[derive(Debug, PartialEq, Eq, Structural, Clone, Copy, Hash)]
pub enum SignalColour {
    Red,
    Yellow,
    DoubleYellow,
    Green,
}

/// The actor currently authorised to set a signal's aspect: the signaller by
/// default, or the train that tightened the signal.
#[derive(Debug, PartialEq, Eq, Structural, Clone, Copy, Hash)]
pub enum Owner {
    Signaller,
    Train { id: u64 },
}

impl SignalColour {
    /// Restrictiveness rank: 0 for `Red` (most restrictive) up to 3 for
    /// `Green` (least restrictive).
    pub open spec fn rank(self) -> int {
        match self {
            SignalColour::Red => 0,
            SignalColour::Yellow => 1,
            SignalColour::DoubleYellow => 2,
            SignalColour::Green => 3,
        }
    }

    /// The aspect one step closer to `Green`, saturating at `Green`.
    pub open spec fn spec_next(self) -> SignalColour {
        match self {
            SignalColour::Red => SignalColour::Yellow,
            SignalColour::Yellow => SignalColour::DoubleYellow,
            SignalColour::DoubleYellow => SignalColour::Green,
            SignalColour::Green => SignalColour::Green,
        }
    }

    /// Advances one step toward `Green`: the aspect shown one block further
    /// back during backward propagation. `Green` is a fixed point.
    pub fn next(&self) -> (r: SignalColour)
        ensures
            r == self.spec_next(),
            r.rank() == if self.rank() == 3 { 3int } else { self.rank() + 1 },
    {
        match *self {
            SignalColour::Red => SignalColour::Yellow,
            SignalColour::Yellow => SignalColour::DoubleYellow,
            SignalColour::DoubleYellow => SignalColour::Green,
            SignalColour::Green => SignalColour::Green,
        }
    }
}

/// Restrictiveness rank as an executable value, agreeing with
/// [`SignalColour::rank`].
fn colour_rank(c: SignalColour) -> (r: u8)
    ensures
        r as int == c.rank(),
{
    match c {
        SignalColour::Red => 0,
        SignalColour::Yellow => 1,
        SignalColour::DoubleYellow => 2,
        SignalColour::Green => 3,
    }
}

/// A block's signal: its current aspect and the actor that set it.
#[derive(Debug, PartialEq, Eq, Structural, Clone, Copy, Hash)]
pub struct Signal {
    pub colour: SignalColour,
    pub owner: Owner,
}

impl Signal {
    /// The arbitration table: whether a change proposed by `owner` to
    /// `colour` is applied to this signal.
    ///
    /// The signaller is the neutral authority and may always reassert over
    /// itself. A train may only tighten (make strictly more restrictive) a
    /// signal it does not own, but may freely set a signal it already owns.
    /// The signaller reclaims a train-owned signal only when reasserting an
    /// equally or more restrictive aspect.
    pub open spec fn update_applies(self, owner: Owner, colour: SignalColour) -> bool {
        match (self.owner, owner) {
            (Owner::Signaller, Owner::Signaller) => true,
            (Owner::Signaller, Owner::Train { id: _ }) => colour.rank() < self.colour.rank(),
            (Owner::Train { id: _ }, Owner::Signaller) => colour.rank() <= self.colour.rank(),
            (Owner::Train { id: s }, Owner::Train { id: t }) => s == t || colour.rank()
                < self.colour.rank(),
        }
    }

    /// The signal after a proposed change: the proposal applied when the
    /// arbitration table allows it, the signal unchanged otherwise.
    pub open spec fn apply(self, owner: Owner, colour: SignalColour) -> Signal {
        if self.update_applies(owner, colour) {
            Signal { colour, owner }
        } else {
            self
        }
    }

    /// A fresh signal: `Green`, held by the signaller.
    pub fn new() -> (r: Signal)
        ensures
            r.colour == SignalColour::Green,
            r.owner == Owner::Signaller,
    {
        Signal { colour: SignalColour::Green, owner: Owner::Signaller }
    }

    /// The sole mutator of a signal: applies the proposed owner and colour
    /// when the arbitration table allows it, atomically, and reports whether
    /// the resulting aspect is restrictive (non-`Green`) — the trigger for
    /// continuing to propagate backward.
    pub fn update(&mut self, owner: Owner, colour: SignalColour) -> (r: bool)
        ensures
            old(self).update_applies(owner, colour) ==> *final(self) == (Signal {
                colour,
                owner,
            }),
            !old(self).update_applies(owner, colour) ==> *final(self) == *old(self),
            *final(self) == old(self).apply(owner, colour),
            r == (old(self).update_applies(owner, colour) && colour != SignalColour::Green),
    {
        match self.owner {
            Owner::Signaller => {
                match owner {
                    Owner::Signaller => {
                        self.colour = colour;
                        self.owner = owner;
                        colour != SignalColour::Green
                    },
                    Owner::Train { id: _ } => {
                        if colour_rank(colour) < colour_rank(self.colour) {
                            self.owner = owner;
                            self.colour = colour;
                            colour != SignalColour::Green
                        } else {
                            false
                        }
                    },
                }
            },
            Owner::Train { id: self_id } => {
                match owner {
                    Owner::Signaller => {
                        if colour_rank(colour) <= colour_rank(self.colour) {
                            self.owner = owner;
                            self.colour = colour;
                            colour != SignalColour::Green
                        } else {
                            false
                        }
                    },
                    Owner::Train { id: other_id } => {
                        if self_id == other_id {
                            self.owner = owner;
                            self.colour = colour;
                            colour != SignalColour::Green
                        } else if colour_rank(colour) < colour_rank(self.colour) {
                            self.owner = owner;
                            self.colour = colour;
                            colour != SignalColour::Green
                        } else {
                            false
                        }
                    },
                }
            },
        }
    }
}

/// Propagation termination: backward propagation recurses only after a
/// signal update reported a restrictive result, which never happens for a
/// `Green` proposal, and each recursion advances the proposed aspect one
/// step toward `Green`; the measure `4 - rank` of the proposed aspect
/// therefore strictly decreases, bounding the cascade by the number of
/// predecessor blocks reached before a `Green` aspect.
pub proof fn lemma_propagation_measure_decreases(s: Signal, owner: Owner, c: SignalColour)
    requires
        s.update_applies(owner, c) && c != SignalColour::Green,
    ensures
        0 <= 4 - c.spec_next().rank() < 4 - c.rank(),
{
}

/// Arbitration monotonicity: a signal owned by one train is left unchanged by
/// another train's proposal whenever the proposed colour is not strictly more
/// restrictive than the current one.
pub proof fn lemma_arbitration_monotonic(s: Signal, a: u64, b: u64, c: SignalColour)
    requires
        s.owner == (Owner::Train { id: a }),
        b != a,
        c.rank() >= s.colour.rank(),
    ensures
        !s.update_applies(Owner::Train { id: b }, c),
{
}

/// Self-update idempotence: a train's proposal for a signal it already owns
/// is always applied, whatever the proposed colour's restrictiveness.
pub proof fn lemma_self_update_applies(s: Signal, a: u64, c: SignalColour)
    requires
        s.owner == (Owner::Train { id: a }),
    ensures
        s.update_applies(Owner::Train { id: a }, c),
{
}

} // verus!
