use std::array;

use dandelion::Rng;

#[test]
fn test_api() {
    let mut rng = Rng::new([0; 15]);
    let _ = Rng::from_u64(0);
    let _ = Rng::from_state(1);
    let _ = rng.state();
    let _ = rng.split();
    let _ = rng.bernoulli_threshold();
    let _ = rng.bool();
    let _ = rng.i32();
    let _ = rng.i64();
    let _ = rng.u32();
    let _ = rng.u64();
    let _ = rng.bounded_u32(5);
    let _ = rng.bounded_u64(5);
    let _ = rng.between_i32(1, 6);
    let _ = rng.between_i64(1, 6);
    let _ = rng.between_u32(1, 6);
    let _ = rng.between_u64(1, 6);
    let _ = rng.float32_bits();
    let _ = rng.float64_bits();
    let mut buf = vec![0u8; 16];
    rng.bytes(&mut buf);
    let _ = rng.byte_array(16);
}

#[test]
fn test_api_getrandom() {
    let _ = Rng::from_operating_system();
}

#[test]
fn from_seed_bytes_packs_little_endian_and_forces_the_low_bit() {
    let mut seed = [0u8; 16];
    seed[0] = 0x02;
    seed[15] = 0x80;
    let g = Rng::from_seed_bytes(seed);
    assert_eq!(g.state(), (0x80u128 << 120) | 0x03);
    let g = Rng::from_seed_bytes([0; 16]);
    assert_eq!(g.state(), 1);
}

#[test]
fn test_vectors() {
    let mut out = String::new();

    let mut rng = Rng::from_state(1);
    for _ in 0..10 {
        out.push_str(&format!("{:#018x}\n", rng.u64()));
    }
    out.push('\n');
    let mut rng = rng.split();
    for _ in 0..10 {
        out.push_str(&format!("{:#018x}\n", rng.u64()));
    }

    assert_eq!(
        out,
        "0x0000000000000001\n\
         0x0000000000000001\n\
         0x0200000000000001\n\
         0x0008000100001001\n\
         0x4008085100040001\n\
         0x0405105000441012\n\
         0x424a007521880121\n\
         0x8845012082d51c52\n\
         0x0842122c46a5a552\n\
         0x0201011886721d42\n\
         \n\
         0xffaaf841aa7959b7\n\
         0xb798630dd1377d07\n\
         0x23f3fd8100c25d34\n\
         0x3d75b7fb36f37583\n\
         0x7c34a499955c8497\n\
         0x8b722c5d1c5a2c53\n\
         0x1d0d28f48c5f87e2\n\
         0xe127f906c2fad5a3\n\
         0x3e2e7ae17e539dff\n\
         0xca480e0b98985977\n"
    );
    out.clear();

    let mut rng = Rng::new([0; 15]);
    out.push_str(&format!("{:?}\n", array::from_fn::<_, 25, _>(|_| rng.bounded_u32(5))));
    out.push_str(&format!("{:?}\n", array::from_fn::<_, 25, _>(|_| rng.bounded_u64(5))));
    out.push_str(&format!("{:?}\n", array::from_fn::<_, 25, _>(|_| rng.between_i32(1, 6))));
    out.push_str(&format!("{:?}\n", array::from_fn::<_, 25, _>(|_| rng.between_i64(1, 6))));
    out.push_str(&format!("{:?}\n", array::from_fn::<_, 25, _>(|_| rng.between_u32(1, 6))));
    out.push_str(&format!("{:?}\n", array::from_fn::<_, 25, _>(|_| rng.between_u64(1, 6))));

    assert_eq!(
        out,
        "[4, 5, 3, 2, 4, 5, 2, 4, 1, 1, 2, 0, 3, 0, 3, 1, 3, 0, 3, 5, 0, 3, 3, 5, 0]\n\
         [4, 0, 4, 4, 3, 5, 0, 2, 4, 4, 2, 0, 5, 4, 1, 0, 5, 0, 3, 3, 5, 3, 1, 0, 1]\n\
         [5, 4, 1, 1, 3, 3, 1, 5, 2, 6, 5, 3, 1, 5, 6, 3, 4, 5, 5, 5, 2, 4, 2, 6, 3]\n\
         [6, 5, 4, 2, 4, 2, 1, 1, 6, 5, 3, 2, 3, 3, 4, 5, 6, 5, 6, 6, 3, 1, 5, 6, 3]\n\
         [6, 5, 3, 1, 2, 4, 6, 2, 1, 5, 6, 1, 2, 3, 5, 4, 2, 1, 5, 6, 6, 2, 3, 5, 3]\n\
         [5, 1, 5, 2, 6, 3, 2, 6, 4, 5, 5, 2, 4, 4, 2, 2, 5, 6, 3, 5, 4, 1, 1, 6, 1]\n"
    );
    out.clear();

    let mut rng = Rng::new([0; 15]);
    for _ in 0..10 {
        out.push_str(&format!("{:+.16}\n", f32::from_bits(rng.float32_bits())));
    }
    out.push('\n');
    for _ in 0..10 {
        out.push_str(&format!("{:+.16}\n", f64::from_bits(rng.float64_bits())));
    }

    assert_eq!(
        out,
        "+0.3691386580467224\n\
         +0.5822194218635559\n\
         +0.1062258630990982\n\
         +0.0308251641690731\n\
         +0.2706349492073059\n\
         +0.7396056056022644\n\
         +0.2046746015548706\n\
         +0.9753432869911194\n\
         +0.6591350436210632\n\
         +0.6380081772804260\n\
         \n\
         +0.7959530838734304\n\
         +0.2868534074117475\n\
         +0.9110512180269887\n\
         +0.6720960569747567\n\
         +0.7978147870855217\n\
         +0.4164672987015255\n\
         +0.7724244080838594\n\
         +0.6010959683537979\n\
         +0.5455702633086768\n\
         +0.4945630052036953\n"
    );
}

#[test]
fn state_is_never_zero() {
    let mut rng = Rng::new([0; 15]);
    assert_ne!(rng.state(), 0);
    for _ in 0..1000 {
        let _ = rng.u64();
        assert_ne!(rng.state(), 0);
    }
    let mut rng = Rng::from_u64(0);
    assert_ne!(rng.state(), 0);
    let child = rng.split();
    assert_ne!(child.state(), 0);
    assert_ne!(rng.state(), 0);
}

#[test]
fn bounded_zero_width_yields_zero() {
    let mut rng = Rng::from_u64(7);
    for _ in 0..100 {
        assert_eq!(rng.bounded_u32(0), 0);
        assert_eq!(rng.bounded_u64(0), 0);
    }
}

#[test]
fn bernoulli_threshold_lies_in_unit_interval() {
    let mut rng = Rng::new([0; 15]);
    for _ in 0..1000 {
        let t = f64::from_bits(rng.bernoulli_threshold());
        // Comparing against probability 1 is always true; against 0 never.
        assert!(t < 1.0);
        assert!(!(t < 0.0));
    }
}

#[test]
fn float_outputs_lie_in_unit_interval_and_avoid_negative_zero() {
    let mut rng = Rng::from_u64(42);
    for _ in 0..1000 {
        let b32 = rng.float32_bits();
        let f = f32::from_bits(b32);
        assert!((0.0..=1.0).contains(&f));
        assert_eq!(b32 >> 31, 0);
        let b64 = rng.float64_bits();
        let d = f64::from_bits(b64);
        assert!((0.0..=1.0).contains(&d));
        assert_eq!(b64 >> 63, 0);
    }
    // A word of extreme magnitude rounds to exactly 1.0, with the sign bit
    // still clear: the outputs cover the closed unit interval.
    let mut probe = Rng::from_state(0x8000_0000_0000_0000_0000_0000_0000_0001u128);
    let bits = probe.float64_bits();
    assert_eq!(f64::from_bits(bits), 1.0);
    assert_eq!(bits >> 63, 0);
}

#[test]
fn byte_fills_are_deterministic_prefixes() {
    let state = Rng::from_u64(9).state();
    let long = {
        let mut rng = Rng::from_state(state);
        rng.byte_array(41)
    };
    for n in 0..=40usize {
        let mut rng = Rng::from_state(state);
        let mut buf = vec![0xaau8; n];
        rng.bytes(&mut buf);
        assert_eq!(buf.len(), n);
        assert_eq!(&buf[..], &long[..n]);
        let mut rng2 = Rng::from_state(state);
        assert_eq!(rng2.byte_array(n), buf);
    }
}

#[test]
fn empty_fill_draws_nothing() {
    let mut rng = Rng::from_u64(3);
    let before = rng.state();
    let mut buf: Vec<u8> = Vec::new();
    rng.bytes(&mut buf);
    assert!(buf.is_empty());
    assert_eq!(rng.state(), before);
}

#[test]
fn split_consumes_exactly_two_words() {
    let mut a = Rng::from_u64(5);
    let mut b = Rng::from_state(a.state());
    let _ = a.split();
    let _ = b.u64();
    let _ = b.u64();
    assert_eq!(a.state(), b.state());
}

#[test]
fn split_child_combines_the_two_drawn_words() {
    let mut a = Rng::from_u64(5);
    let mut b = Rng::from_state(a.state());
    let child = a.split();
    let x = b.u64();
    let y = b.u64();
    assert_eq!(child.state(), ((x as u128) ^ ((y as u128) << 64)) | 1);
}

#[test]
fn between_with_reversed_bounds_wraps() {
    let mut rng = Rng::new([0; 15]);
    for _ in 0..200 {
        let r = rng.between_u32(6, 1);
        assert!(r.wrapping_sub(6) <= 1u32.wrapping_sub(6));
        let r = rng.between_u64(u64::MAX - 1, 2);
        assert!(r.wrapping_sub(u64::MAX - 1) <= 2u64.wrapping_sub(u64::MAX - 1));
        assert!(r >= u64::MAX - 1 || r <= 2);
        let r = rng.between_i32(5, -5);
        assert!((r as u32).wrapping_sub(5) <= (-5i32 as u32).wrapping_sub(5));
        let r = rng.between_i64(i64::MAX, i64::MIN);
        assert!(r == i64::MAX || r == i64::MIN);
    }
}

#[test]
fn zero_seed_avalanches() {
    let rng = Rng::new([0; 15]);
    assert_eq!(rng.state(), 0x72e02be1fbdcb078a2fda8dedc0198b1);
    assert_ne!(rng.state(), 1u128 << 120);
    let other = Rng::new([1; 15]);
    assert_ne!(rng.state(), other.state());
}

#[test]
fn checkpoint_and_resume_reproduce_the_stream() {
    let mut rng = Rng::from_u64(11);
    let _ = rng.u64();
    let checkpoint = rng.state();
    let ahead: Vec<u64> = (0..5).map(|_| rng.u64()).collect();
    let mut resumed = Rng::from_state(checkpoint);
    let again: Vec<u64> = (0..5).map(|_| resumed.u64()).collect();
    assert_eq!(ahead, again);
}

#[test]
fn from_two_words_forces_the_low_bit() {
    let g = Rng::from_two_words(0, 0);
    assert_eq!(g.state(), 1);
    let g = Rng::from_two_words(0x1234, 0x5678);
    assert_eq!(g.state(), (0x1234u128 ^ (0x5678u128 << 64)) | 1);
}

#[test]
fn from_operating_system_yields_a_valid_state() {
    let rng = Rng::from_operating_system().expect("entropy source failed");
    assert_ne!(rng.state(), 0);
    assert_eq!(rng.state() & 1, 1);
}

#[test]
fn sampler_widths_agree_with_the_word_stream() {
    let s = Rng::from_u64(77).state();
    let mut a = Rng::from_state(s);
    let mut b = Rng::from_state(s);
    let w = a.u64();
    assert_eq!(b.u32(), w as u32);
    let w = a.u64();
    assert_eq!(b.i64(), w as i64);
    let w = a.u64();
    assert_eq!(b.i32(), w as i32);
    let w = a.u64();
    assert_eq!(b.bool(), (w as i64) < 0);
}
