use std::collections::HashMap;

use fuzzcore::composite::{sanitize_overlaping, ArgComposite, GenNode};
use fuzzcore::config::Config;
use fuzzcore::serialize::ISerializableArg;
use fuzzcore::leafs::{Flag, RndData};

fn empty_lookup() -> HashMap<Vec<u8>, Vec<u8>> {
    HashMap::new()
}

fn rnd_node(size: usize) -> GenNode {
    GenNode::Rnd(RndData::new(size))
}

#[test]
fn composite_rejects_overlap() {
    let args = vec![(0usize, rnd_node(4)), (2usize, rnd_node(4))];
    assert!(sanitize_overlaping(&args, 8));
    let args = vec![(0usize, rnd_node(4)), (2usize, rnd_node(4))];
    assert!(ArgComposite::try_new(8, "bad", args).is_none());
}

#[test]
fn composite_rejects_oversize() {
    let args = vec![(6usize, rnd_node(4))];
    assert!(sanitize_overlaping(&args, 8));
    let args = vec![(6usize, rnd_node(4))];
    assert!(ArgComposite::try_new(8, "bad", args).is_none());
}

#[test]
fn composite_accepts_disjoint_in_any_order() {
    let args = vec![(4usize, rnd_node(4)), (0usize, rnd_node(4))];
    assert!(!sanitize_overlaping(&args, 8));
    let args = vec![(4usize, rnd_node(4)), (0usize, rnd_node(4))];
    let c = ArgComposite::try_new(8, "ok", args).unwrap();
    assert_eq!(c.size(), 8);
    assert_eq!(c.name(), "ok");
}

#[test]
fn composite_accepts_gaps() {
    let args = vec![(0usize, rnd_node(2)), (6usize, rnd_node(2))];
    assert!(ArgComposite::try_new(8, "gappy", args).is_some());
}

#[test]
fn random_generator_writes_exactly_its_range() {
    let g = RndData::new(8);
    for _ in 0..50 {
        let mut mem = vec![0xAAu8; 12];
        g.generate(&mut mem, 2, &[]);
        assert_eq!(mem.len(), 12);
        assert_eq!(mem[0], 0xAA);
        assert_eq!(mem[1], 0xAA);
        assert_eq!(mem[10], 0xAA);
        assert_eq!(mem[11], 0xAA);
    }
}

#[test]
fn random_generator_output_is_not_constant() {
    let g = RndData::new(8);
    let mut outputs = Vec::new();
    for _ in 0..200 {
        let mut mem = vec![0u8; 8];
        g.generate(&mut mem, 0, &[]);
        outputs.push(mem);
    }
    let first = outputs[0].clone();
    assert!(outputs.iter().any(|o| *o != first));
}

#[test]
fn flag_generator_respects_masks_five_in_six() {
    // always = 0b1000, flag = 0b0110: the constrained branch always sets
    // bit 3 and never a bit outside 0b1110; roughly one draw in six is
    // fully unconstrained instead.
    let f = Flag::new(0b1000, 0b0110, 1);
    let trials = 6000;
    let mut escaped = 0usize;
    for _ in 0..trials {
        let mut mem = vec![0u8; 1];
        f.generate(&mut mem, 0, &[]);
        let v = mem[0];
        let constrained_shape = (v & !0b1110u8) == 0 && (v & 0b1000u8) == 0b1000;
        if !constrained_shape {
            escaped += 1;
        }
    }
    let frac = escaped as f64 / trials as f64;
    assert!(frac > 0.08, "unconstrained fraction too small: {}", frac);
    assert!(frac < 0.30, "unconstrained fraction too large: {}", frac);
}

#[test]
fn flag_masked_value_always_keeps_mandatory_bits() {
    let f = Flag::new(0b1000, 0b0110, 1);
    for r in 0..=255u64 {
        let v = f.masked_value(r);
        assert_eq!(v & 0b1000, 0b1000);
        assert_eq!(v & !0b1110u64, 0);
        assert_eq!(v, 0b1000 | (r & 0b0110));
    }
}

#[test]
fn default_dump_load_round_trip() {
    let g = rnd_node(8);
    let cfg = Config::new(2, false, 5);
    let mut mem = vec![0u8; 8];
    g.generate(&mut mem, 0, &[]);
    let dumped = g.dump(&mem);
    assert_eq!(dumped, mem);
    let mut reloaded = vec![0u8; 8];
    let used = g.load(&mut reloaded, 0, &dumped, &[], &empty_lookup(), &cfg);
    assert_eq!(used, 0);
    assert_eq!(reloaded, mem);
}

#[test]
fn composite_dump_load_round_trip_preserves_gaps() {
    let args = vec![(0usize, rnd_node(2)), (6usize, rnd_node(2))];
    let c = ArgComposite::try_new(8, "gappy", args).unwrap();
    let cfg = Config::new(2, false, 5);
    let mem: Vec<u8> = vec![1, 2, 3, 4, 5, 6, 7, 8];
    let dumped = c.dump(&mem);
    assert_eq!(dumped, mem);
    let mut target = vec![0x55u8; 10];
    let used = c.load(&mut target, 1, &dumped, &[], &empty_lookup(), &cfg);
    assert_eq!(used, 0);
    // children's windows come from the dump, offset by the load base
    assert_eq!(&target[1..3], &dumped[0..2]);
    assert_eq!(&target[7..9], &dumped[6..8]);
    // gap bytes inside the composite keep their previous contents
    assert_eq!(&target[3..7], &[0x55, 0x55, 0x55, 0x55]);
    // bytes outside the composite's range are untouched
    assert_eq!(target[0], 0x55);
    assert_eq!(target[9], 0x55);
}

#[test]
fn flag_load_accepts_verbatim_when_ratio_is_one() {
    // with afl_fix_ratio == 1 the external bytes are kept verbatim every
    // time
    let f = Flag::new(0b1000, 0b0110, 1);
    let cfg = Config::new(1, false, 5);
    for external in [0x00u8, 0x01, 0x6F, 0xFF] {
        let mut mem = vec![0u8; 1];
        let used = f.load(&mut mem, 0, &[external], &[], &empty_lookup(), &cfg);
        assert_eq!(used, 0);
        assert_eq!(mem[0], external);
    }
}

#[test]
fn flag_load_yields_verbatim_or_fixed_value() {
    // whatever the draw, the result is the external value or the
    // reconstruction always | (external & flag) - for every input,
    // all-zero and all-one included
    let f = Flag::new(0b1000, 0b0110, 1);
    let cfg = Config::new(1000, false, 5);
    for external in [0x00u8, 0xFF, 0b0110, 0b0001, 0xA5] {
        let fixed = 0b1000u8 | (external & 0b0110);
        let mut saw_fixed = false;
        for _ in 0..200 {
            let mut mem = vec![0u8; 1];
            f.load(&mut mem, 0, &[external], &[], &empty_lookup(), &cfg);
            assert!(
                mem[0] == external || mem[0] == fixed,
                "unexpected load result {:#x}",
                mem[0]
            );
            if mem[0] == fixed {
                saw_fixed = true;
            }
        }
        // verbatim acceptance has probability 1/1000 per draw
        if external != fixed {
            assert!(saw_fixed);
        }
    }
}

#[test]
fn flag_load_multibyte_little_endian() {
    let f = Flag::new(0x0800, 0x0600, 2);
    let cfg = Config::new(1000, false, 5);
    let external = [0xFFu8, 0xFF];
    let fixed: u16 = 0x0800 | (0xFFFF & 0x0600);
    let mut mem = vec![0u8; 2];
    f.load(&mut mem, 0, &external, &[], &empty_lookup(), &cfg);
    let got = u16::from_le_bytes([mem[0], mem[1]]);
    assert!(got == 0xFFFF || got == fixed, "unexpected value {:#x}", got);
}

#[test]
fn composite_serialize_translates_offsets_in_declaration_order() {
    let args = vec![(0usize, rnd_node(4)), (4usize, rnd_node(4))];
    let c = ArgComposite::try_new(8, "pair", args).unwrap();
    let mem = vec![0u8; 8];
    let frags = c.serialize(&mem, &[]);
    assert_eq!(frags.len(), 2);
    assert_eq!(frags[0].offset, 0);
    assert_eq!(frags[0].prefix, "");
    assert_eq!(frags[1].offset, 4);
    assert_eq!(frags[1].prefix, "");
}

#[test]
fn composite_serialize_keeps_declaration_order_not_offset_order() {
    let args = vec![(4usize, rnd_node(4)), (0usize, rnd_node(4))];
    let c = ArgComposite::try_new(8, "pair", args).unwrap();
    let mem = vec![0u8; 8];
    let frags = c.serialize(&mem, &[]);
    assert_eq!(frags.len(), 2);
    assert_eq!(frags[0].offset, 4);
    assert_eq!(frags[1].offset, 0);
}

#[test]
fn nested_composite_serialize_translates_twice() {
    let inner_args = vec![(0usize, rnd_node(2)), (2usize, rnd_node(2))];
    let inner = ArgComposite::try_new(4, "inner", inner_args).unwrap();
    let outer_args = vec![(0usize, rnd_node(4)), (4usize, GenNode::Composite(inner))];
    let outer = ArgComposite::try_new(8, "outer", outer_args).unwrap();
    let mem = vec![0u8; 8];
    let frags = outer.serialize(&mem, &[]);
    let offsets: Vec<usize> = frags.iter().map(|f| f.offset).collect();
    assert_eq!(offsets, vec![0, 4, 6]);
}

#[test]
fn composite_generate_only_touches_child_ranges() {
    let args = vec![(0usize, rnd_node(2)), (6usize, rnd_node(2))];
    let c = ArgComposite::try_new(8, "gappy", args).unwrap();
    let mut mem = vec![0x77u8; 10];
    c.generate(&mut mem, 1, &[]);
    assert_eq!(mem.len(), 10);
    assert_eq!(mem[0], 0x77);
    // the gap between the children keeps whatever the buffer held
    assert_eq!(&mem[3..7], &[0x77, 0x77, 0x77, 0x77]);
    assert_eq!(mem[9], 0x77);
}

#[test]
fn generator_names_are_stable() {
    assert_eq!(RndData::new(4).name(), "RndData");
    assert_eq!(Flag::new(1, 2, 1).name(), "Flag");
    let c = ArgComposite::try_new(4, "myarg", vec![(0usize, rnd_node(4))]).unwrap();
    assert_eq!(c.name(), "myarg");
    assert_eq!(GenNode::Composite(c).name(), "myarg");
}

#[test]
fn generator_sizes_are_stable() {
    assert_eq!(RndData::new(4).size(), 4);
    assert_eq!(Flag::new(1, 2, 4).size(), 4);
    assert_eq!(rnd_node(9).size(), 9);
}

#[test]
fn flag_generator_varies_within_the_permitted_mask() {
    let f = Flag::new(0, 0xFF, 1);
    let mut seen = Vec::new();
    for _ in 0..100 {
        let mut mem = vec![0u8; 1];
        f.generate(&mut mem, 0, &[]);
        seen.push(mem[0]);
    }
    let first = seen[0];
    assert!(seen.iter().any(|v| *v != first));
}

#[test]
fn serializable_contract_through_the_trait() {
    let cfg = Config::new(1, false, 5);
    let mem: Vec<u8> = vec![9, 8, 7, 6];

    let r = RndData::new(4);
    assert_eq!(ISerializableArg::dump(&r, &mem), mem);
    let frags = ISerializableArg::serialize(&r, &mem, &[]);
    assert_eq!(frags.len(), 1);
    assert_eq!(frags[0].offset, 0);
    let mut target = vec![0u8; 4];
    assert_eq!(ISerializableArg::load(&r, &mut target, 0, &mem, &[], &empty_lookup(), &cfg), 0);
    assert_eq!(target, mem);

    let f = Flag::new(0b1000, 0b0110, 1);
    assert_eq!(ISerializableArg::dump(&f, &mem[..1]), vec![9]);
    let mut target = vec![0u8; 1];
    // afl_fix_ratio == 1: the external byte is kept verbatim
    assert_eq!(ISerializableArg::load(&f, &mut target, 0, &[0x55], &[], &empty_lookup(), &cfg), 0);
    assert_eq!(target, vec![0x55]);

    let c = ArgComposite::try_new(4, "pair", vec![(0usize, rnd_node(2)), (2usize, rnd_node(2))])
        .unwrap();
    assert_eq!(ISerializableArg::dump(&c, &mem), mem);
    let frags = ISerializableArg::serialize(&c, &mem, &[]);
    assert_eq!(frags.len(), 2);
    assert_eq!(frags[1].offset, 2);
}
