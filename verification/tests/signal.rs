use railsim::signal::{Owner, Signal, SignalColour};

#[test]
fn next_steps_toward_green_and_saturates() {
    assert_eq!(SignalColour::Red.next(), SignalColour::Yellow);
    assert_eq!(SignalColour::Yellow.next(), SignalColour::DoubleYellow);
    assert_eq!(SignalColour::DoubleYellow.next(), SignalColour::Green);
    assert_eq!(SignalColour::Green.next(), SignalColour::Green);
}

#[test]
fn new_signal_is_green_and_signaller_owned() {
    let s = Signal::new();
    assert_eq!(s.colour, SignalColour::Green);
    assert_eq!(s.owner, Owner::Signaller);
}

#[test]
fn signaller_always_overwrites_its_own_signal() {
    let mut s = Signal::new();
    let restrictive = s.update(Owner::Signaller, SignalColour::Yellow);
    assert!(restrictive);
    assert_eq!(s.colour, SignalColour::Yellow);
    assert_eq!(s.owner, Owner::Signaller);
    let restrictive = s.update(Owner::Signaller, SignalColour::Green);
    assert!(!restrictive);
    assert_eq!(s.colour, SignalColour::Green);
}

#[test]
fn train_may_only_tighten_a_signaller_signal() {
    let mut s = Signal::new();
    assert!(!s.update(Owner::Train { id: 1 }, SignalColour::Green));
    assert_eq!(s.owner, Owner::Signaller);
    assert!(s.update(Owner::Train { id: 1 }, SignalColour::Red));
    assert_eq!(s.colour, SignalColour::Red);
    assert_eq!(s.owner, Owner::Train { id: 1 });
}

#[test]
fn arbitration_is_monotonic_between_trains() {
    // A signal held by one train ignores another train's proposal unless it
    // is strictly more restrictive than the current aspect.
    let mut s = Signal { colour: SignalColour::Yellow, owner: Owner::Train { id: 1 } };
    assert!(!s.update(Owner::Train { id: 2 }, SignalColour::Yellow));
    assert_eq!(s, Signal { colour: SignalColour::Yellow, owner: Owner::Train { id: 1 } });
    assert!(!s.update(Owner::Train { id: 2 }, SignalColour::Green));
    assert_eq!(s, Signal { colour: SignalColour::Yellow, owner: Owner::Train { id: 1 } });
    assert!(s.update(Owner::Train { id: 2 }, SignalColour::Red));
    assert_eq!(s, Signal { colour: SignalColour::Red, owner: Owner::Train { id: 2 } });
}

#[test]
fn self_update_always_applies() {
    // The owning train may set any aspect, including loosening.
    let mut s = Signal { colour: SignalColour::Red, owner: Owner::Train { id: 7 } };
    let restrictive = s.update(Owner::Train { id: 7 }, SignalColour::Green);
    assert!(!restrictive);
    assert_eq!(s.colour, SignalColour::Green);
    assert_eq!(s.owner, Owner::Train { id: 7 });
    assert!(s.update(Owner::Train { id: 7 }, SignalColour::DoubleYellow));
    assert_eq!(s.colour, SignalColour::DoubleYellow);
}

#[test]
fn signaller_reclaims_only_with_equal_or_tighter_aspect() {
    let mut s = Signal { colour: SignalColour::Yellow, owner: Owner::Train { id: 3 } };
    // Loosening a train's restriction from outside is refused.
    assert!(!s.update(Owner::Signaller, SignalColour::Green));
    assert_eq!(s.owner, Owner::Train { id: 3 });
    // Reasserting the same aspect reclaims the signal.
    assert!(s.update(Owner::Signaller, SignalColour::Yellow));
    assert_eq!(s, Signal { colour: SignalColour::Yellow, owner: Owner::Signaller });
}
