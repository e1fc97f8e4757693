use railsim::block::{Block, BlockType};
use railsim::message::{SignallerMessage, TrainMessage};
use railsim::network::Network;
use railsim::signal::{Owner, Signal, SignalColour};
use railsim::signaller::Signaller;

// Nodes of the closed loop route: F feeds A, then A -> B -> C -> D -> E -> F.
const A: u64 = 1;
const B: u64 = 2;
const C: u64 = 3;
const D: u64 = 4;
const E: u64 = 5;
const F: u64 = 6;

fn ring() -> Network {
    let mut network = Network::new();
    network.add_edge(F, A, Block::new_track(4000, 125, Signal::new()));
    network.add_edge(A, B, Block::new_track(4000, 125, Signal::new()));
    network.add_edge(B, C, Block::new_track(4000, 60, Signal::new()));
    network.add_edge(C, D, Block::new_track(4000, 60, Signal::new()));
    network.add_edge(D, E, Block::new_track(4000, 125, Signal::new()));
    network.add_edge(E, F, Block::new_track(4000, 125, Signal::new()));
    network
}

fn signal_of(s: &Signaller, from: u64, to: u64) -> Signal {
    for e in s.network.edges.iter() {
        if e.from == from && e.to == to {
            match &e.block.block_type {
                BlockType::Track { signal } => return *signal,
                BlockType::Station { .. } => panic!("station block on a track route"),
            }
        }
    }
    panic!("no such edge");
}

#[test]
fn hello_marks_the_block_red_and_cascades_backward() {
    // Scenario: a train enters at A on the loop. The block into A is locked
    // red in the train's name, and the blocks behind it step down the
    // aspect ladder until the cascade reaches an unchanged green.
    let mut s = Signaller::new(ring());
    let inbox = vec![TrainMessage::HelloWorld { train_id: 802208, block_id: A }];
    let outs = s.update(&inbox).expect("admissible hello");

    let owner = Owner::Train { id: 802208 };
    assert_eq!(signal_of(&s, F, A), Signal { colour: SignalColour::Red, owner });
    assert_eq!(signal_of(&s, E, F), Signal { colour: SignalColour::Yellow, owner });
    assert_eq!(signal_of(&s, D, E), Signal { colour: SignalColour::DoubleYellow, owner });
    assert_eq!(
        signal_of(&s, C, D),
        Signal { colour: SignalColour::Green, owner: Owner::Signaller }
    );
    // The reservation answer carries the block ahead: its aspect was still
    // green, its 125 mph limit is 56 canonical units, its length 4000.
    assert_eq!(
        outs,
        vec![(
            802208,
            SignallerMessage::NewBlock {
                new_block_id: B,
                colour: SignalColour::Green,
                limit: 56,
                length: 4000,
            }
        )]
    );
}

#[test]
fn advancing_releases_the_blocks_behind() {
    let mut s = Signaller::new(ring());
    let t = 802208;
    s.update(&vec![TrainMessage::HelloWorld { train_id: t, block_id: A }]).unwrap();
    // First crossing re-reserves the entry edge; the second moves on to B.
    s.update(&vec![TrainMessage::ReserveNextBlock { train_id: t }]).unwrap();
    let outs = s.update(&vec![TrainMessage::ReserveNextBlock { train_id: t }]).unwrap();

    let owner = Owner::Train { id: t };
    // The cascade is now anchored at B: the block into B is red, those
    // behind step down, and the furthest is loosened back to green by its
    // own train.
    assert_eq!(signal_of(&s, A, B), Signal { colour: SignalColour::Red, owner });
    assert_eq!(signal_of(&s, F, A), Signal { colour: SignalColour::Yellow, owner });
    assert_eq!(signal_of(&s, E, F), Signal { colour: SignalColour::DoubleYellow, owner });
    assert_eq!(signal_of(&s, D, E), Signal { colour: SignalColour::Green, owner });
    // 60 mph is 27 canonical units.
    assert_eq!(
        outs,
        vec![(
            t,
            SignallerMessage::NewBlock {
                new_block_id: C,
                colour: SignalColour::Green,
                limit: 27,
                length: 4000,
            }
        )]
    );
}

#[test]
fn occupied_block_behind_is_retargeted_at_once() {
    // A train sits at A; a second train announces at B. Tightening the
    // block into B (whose entry node A is occupied) sends the occupant an
    // immediate update one aspect step less restrictive.
    let mut s = Signaller::new(ring());
    let inbox = vec![
        TrainMessage::HelloWorld { train_id: 11, block_id: A },
        TrainMessage::HelloWorld { train_id: 22, block_id: B },
    ];
    let outs = s.update(&inbox).expect("both admissible");

    assert_eq!(signal_of(&s, A, B), Signal { colour: SignalColour::Red, owner: Owner::Train { id: 22 } });
    // The first train's red into A is not loosened by the second's cascade.
    assert_eq!(signal_of(&s, F, A), Signal { colour: SignalColour::Red, owner: Owner::Train { id: 11 } });
    assert_eq!(outs.len(), 3);
    assert_eq!(outs[2], (11, SignallerMessage::UpdateBlock { colour: SignalColour::Yellow, limit: 56 }));
}

#[test]
fn position_index_stays_bidirectional() {
    let mut s = Signaller::new(ring());
    s.update(&vec![
        TrainMessage::HelloWorld { train_id: 11, block_id: A },
        TrainMessage::HelloWorld { train_id: 22, block_id: C },
    ])
    .unwrap();
    assert_eq!(s.train_positions.get(&A, &11), (Some(11), Some(A)));
    assert_eq!(s.train_positions.get(&C, &22), (Some(22), Some(C)));

    s.update(&vec![TrainMessage::ReserveNextBlock { train_id: 11 }]).unwrap();
    // The pair moved whole: exactly one entry per train, by either key.
    assert_eq!(s.train_positions.get(&A, &11), (None, Some(B)));
    assert_eq!(s.train_positions.get(&B, &11), (Some(11), Some(B)));
}

#[test]
fn unknown_train_fails_the_drain() {
    let mut s = Signaller::new(ring());
    let r = s.update(&vec![TrainMessage::ReserveNextBlock { train_id: 99 }]);
    assert!(r.is_none());
}

#[test]
fn claimed_block_fails_the_drain() {
    let mut s = Signaller::new(ring());
    s.update(&vec![
        TrainMessage::HelloWorld { train_id: 11, block_id: A },
        TrainMessage::HelloWorld { train_id: 22, block_id: B },
    ])
    .unwrap();
    // Train 11 asks for B while 22 holds it: the tick fails loudly.
    let r = s.update(&vec![TrainMessage::ReserveNextBlock { train_id: 11 }]);
    assert!(r.is_none());
}

#[test]
fn double_hello_fails_the_drain() {
    let mut s = Signaller::new(ring());
    let r = s.update(&vec![
        TrainMessage::HelloWorld { train_id: 11, block_id: A },
        TrainMessage::HelloWorld { train_id: 11, block_id: C },
    ]);
    assert!(r.is_none());
}

#[test]
fn short_loop_wraps_the_cascade() {
    // On a three-block loop the backward cascade walks all the way around:
    // the owning train's own red is then overwritten by the cascade's
    // green step, which reports non-restrictive and stops the recursion.
    let mut s = Signaller::new({
        let mut network = Network::new();
        network.add_edge(A, B, Block::new_track(4000, 125, Signal::new()));
        network.add_edge(B, C, Block::new_track(4000, 125, Signal::new()));
        network.add_edge(C, A, Block::new_track(4000, 125, Signal::new()));
        network
    });
    let t = 7;
    s.update(&vec![TrainMessage::HelloWorld { train_id: t, block_id: A }]).unwrap();
    let owner = Owner::Train { id: t };
    assert_eq!(signal_of(&s, C, A), Signal { colour: SignalColour::Green, owner });
    assert_eq!(signal_of(&s, B, C), Signal { colour: SignalColour::Yellow, owner });
    assert_eq!(signal_of(&s, A, B), Signal { colour: SignalColour::DoubleYellow, owner });
}

#[test]
fn routing_follows_the_first_outgoing_edge() {
    let s = Signaller::new(ring());
    assert_eq!(s.next_in_path(0, A), B);
    assert_eq!(s.next_in_path(0, E), F);
    assert_eq!(s.prev_in_path(0, A), F);
    assert_eq!(s.prev_in_path(0, F), E);
}
