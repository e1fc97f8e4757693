use railsim::block::{Block, BlockType, Platform};
use railsim::conversion::convert_to_mps;
use railsim::signal::{Owner, Signal, SignalColour};
use railsim::surface::Surface;

#[test]
fn mph_converts_to_rounded_canonical_units() {
    assert_eq!(convert_to_mps(125), 56);
    assert_eq!(convert_to_mps(60), 27);
    assert_eq!(convert_to_mps(0), 0);
    assert_eq!(convert_to_mps(1), 0);
    assert_eq!(convert_to_mps(2), 1);
}

#[test]
fn track_blocks_store_the_converted_limit() {
    let b = Block::new_track(4000, 125, Signal::new());
    assert_eq!(b.length, 4000);
    assert_eq!(b.limit, 56);
    match b.block_type {
        BlockType::Track { signal } => {
            assert_eq!(signal.colour, SignalColour::Green);
            assert_eq!(signal.owner, Owner::Signaller);
        },
        BlockType::Station { .. } => panic!("expected a track block"),
    }
}

#[test]
fn stations_accept_platforms() {
    let p = Platform::new(Signal::new(), 1000);
    assert_eq!(p.length, 1000);
    assert_eq!(p.occupant, None);

    let mut b = Block::new_station(4000, 30, vec![Platform::new(Signal::new(), 1000)]);
    assert_eq!(b.limit, 13);
    b.add_platform(Platform::new(Signal::new(), 800));
    match b.block_type {
        BlockType::Station { platforms } => {
            assert_eq!(platforms.len(), 2);
            assert_eq!(platforms[1].length, 800);
        },
        BlockType::Track { .. } => panic!("expected a station block"),
    }
}

#[test]
fn surface_friction_is_weight_times_coefficient() {
    let s = Surface::new(2000);
    // 300 t under gravity 9.81 at rolling coefficient 0.002: 5886 N.
    assert_eq!(s.calculate_friction(300_000, 9810), 5_886_000);
    assert_eq!(Surface::new(0).calculate_friction(300_000, 9810), 0);
}
