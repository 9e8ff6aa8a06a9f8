use lime::falloff::falloff_alpha_exec;
use lime::math::isqrt;

#[test]
fn falloff_is_solid_at_center() {
    // Distance 0 is fully opaque for every hardness below the hard edge.
    for h in 0..100u32 {
        assert_eq!(falloff_alpha_exec(0, 40, h), 255);
    }
}

#[test]
fn falloff_is_transparent_at_edge() {
    // Distance 1 (num == den) is fully transparent for every hardness.
    for h in 0..=100u32 {
        assert_eq!(falloff_alpha_exec(40, 40, h), 0);
    }
}

#[test]
fn falloff_is_non_increasing() {
    for h in [0u32, 25, 50, 75, 100] {
        let mut prev = 255u8;
        for num in 0..=48u64 {
            let a = falloff_alpha_exec(num, 40, h);
            assert!(a <= prev, "alpha rose from {prev} to {a} at num {num}, hardness {h}");
            prev = a;
        }
    }
}

#[test]
fn falloff_hardness_100_is_step() {
    // Hardness 100: solid strictly inside half the radius, transparent from
    // half the radius on.
    assert_eq!(falloff_alpha_exec(19, 40, 100), 255);
    assert_eq!(falloff_alpha_exec(20, 40, 100), 0);
    assert_eq!(falloff_alpha_exec(21, 40, 100), 0);
    assert_eq!(falloff_alpha_exec(0, 40, 100), 255);
    assert_eq!(falloff_alpha_exec(40, 40, 100), 0);
}

#[test]
fn falloff_hardness_50_midpoint() {
    // Hardness 50: core out to 1/4, rim from 3/4; the midpoint of the blend
    // zone sits at half opacity.
    assert_eq!(falloff_alpha_exec(9, 40, 50), 255);
    assert_eq!(falloff_alpha_exec(31, 40, 50), 0);
    // Exactly between 10 and 30: xi = 1/2, opacity = 1/2.
    assert_eq!(falloff_alpha_exec(20, 40, 50), 127);
}

#[test]
fn falloff_hardness_0_blends_across_the_whole_stamp() {
    // No solid core: the blend spans the full radius. At a quarter of the
    // way out: 255 * (6000^2) / (2000^2 + 6000^2) == 229.
    assert_eq!(falloff_alpha_exec(10, 40, 0), 229);
    assert_eq!(falloff_alpha_exec(30, 40, 0), 25);
}

#[test]
fn isqrt_small_values() {
    assert_eq!(isqrt(0), 0);
    assert_eq!(isqrt(1), 1);
    assert_eq!(isqrt(2), 1);
    assert_eq!(isqrt(3), 1);
    assert_eq!(isqrt(4), 2);
    assert_eq!(isqrt(15), 3);
    assert_eq!(isqrt(16), 4);
    assert_eq!(isqrt(24), 4);
    assert_eq!(isqrt(25), 5);
}

#[test]
fn isqrt_large_values() {
    assert_eq!(isqrt(u64::MAX), 0xFFFF_FFFF);
    assert_eq!(isqrt(1 << 62), 1 << 31);
    assert_eq!(isqrt((1 << 62) - 1), (1 << 31) - 1);
    assert_eq!(isqrt(999_999), 999);
    assert_eq!(isqrt(1_000_000), 1000);
}
