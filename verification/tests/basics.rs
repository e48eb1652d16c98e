use reinfer_cuda::arch::{arch_from_cc, resolve_arch};
use reinfer_cuda::device_info::{dev_name_to_string, format_uuid, DeviceInfo};
use reinfer_cuda::env::{
    batch_prof_enabled_from_env, decode_flash_disabled_from_env, decode_profile_enabled_from_env,
    fused_decode_disabled_from_env, graph_enabled_from_env, jgemm_disabled_from_env,
    layer_fused_disabled_from_env, parity_f32_enabled_from_env, prefill_profile_enabled_from_env,
};
use reinfer_cuda::error::LaunchError;

#[test]
fn cc_to_arch_forms() {
    assert_eq!(arch_from_cc(8, 6), "sm_86");
    assert_eq!(arch_from_cc(12, 0), "sm_120");
    assert_eq!(arch_from_cc(9, 0), "sm_90");
}

#[test]
fn arch_override_wins_over_the_device() {
    assert_eq!(resolve_arch(Some("sm_80"), Ok((12, 0))).unwrap(), "sm_80");
    assert_eq!(resolve_arch(Some("sm_80"), Err(LaunchError::Driver)).unwrap(), "sm_80");
    assert_eq!(resolve_arch(None, Ok((8, 9))).unwrap(), "sm_89");
    assert_eq!(resolve_arch(None, Err(LaunchError::Driver)), Err(LaunchError::Driver));
}

fn bytes16(v: [u8; 16]) -> [i8; 16] {
    let mut out = [0i8; 16];
    for (i, b) in v.iter().enumerate() {
        out[i] = *b as i8;
    }
    out
}

#[test]
fn uuid_format_zero() {
    assert_eq!(format_uuid(&bytes16([0; 16])), "00000000-0000-0000-0000-000000000000");
}

#[test]
fn uuid_format_pattern_and_dashes() {
    let v: [u8; 16] = [0x12, 0x34, 0x56, 0x78, 0x9a, 0xbc, 0xde, 0xf0, 1, 2, 3, 4, 5, 6, 7, 8];
    assert_eq!(format_uuid(&bytes16(v)), "12345678-9abc-def0-0102-030405060708");
}

#[test]
fn uuid_format_high_bit_byte() {
    let v: [u8; 16] = [0x80, 0x7f, 0x00, 0xff, 0, 0, 0, 0, 0, 0, 0, 0, 0, 0, 0, 0];
    assert_eq!(format_uuid(&bytes16(v)), "807f00ff-0000-0000-0000-000000000000");
}

#[test]
fn uuids_of_different_bytes_differ() {
    let mut a = [7u8; 16];
    let one = format_uuid(&bytes16(a));
    a[15] = 8;
    assert_ne!(one, format_uuid(&bytes16(a)));
    assert_eq!(one.len(), 36);
}

#[test]
fn device_name_ends_at_the_first_nul() {
    let mut name = [0i8; 256];
    for (i, b) in "RTX".bytes().enumerate() {
        name[i] = b as i8;
    }
    name[5] = b'x' as i8;
    assert_eq!(dev_name_to_string(&name), "RTX");
    assert_eq!(dev_name_to_string(&[b'a' as i8; 256]), "a".repeat(256));
    assert_eq!(dev_name_to_string(&[0; 256]), "");
}

#[test]
fn device_name_replaces_what_is_not_utf8() {
    let mut name = [0i8; 256];
    name[0] = b'a' as i8;
    name[1] = 0xffu8 as i8;
    name[2] = b'b' as i8;
    assert_eq!(dev_name_to_string(&name), "a\u{fffd}b");
    let mut wide = [0i8; 256];
    for (i, b) in "Gerät".bytes().enumerate() {
        wide[i] = b as i8;
    }
    assert_eq!(dev_name_to_string(&wide), "Gerät");
}

#[test]
fn device_info_debug_and_clone() {
    let info = DeviceInfo {
        index: 0,
        name: "NVIDIA GeForce RTX 5090 Laptop GPU".into(),
        major: 12,
        minor: 0,
        total_mem: 24 * 1024 * 1024 * 1024,
        uuid: "807f00ff-0000-0000-0000-000000000000".into(),
    };
    let dbg = format!("{info:?}");
    assert!(dbg.contains("5090"));
    assert!(dbg.contains("807f00ff"));
    assert_eq!(info.clone(), info);
}

#[test]
fn parity_f32_env_default_off() {
    assert!(!parity_f32_enabled_from_env(None));
    // explicit on values
    assert!(parity_f32_enabled_from_env(Some("1")));
    assert!(parity_f32_enabled_from_env(Some("on")));
    assert!(parity_f32_enabled_from_env(Some("ON")));
    assert!(parity_f32_enabled_from_env(Some("true")));
    assert!(parity_f32_enabled_from_env(Some("yes")));
    assert!(parity_f32_enabled_from_env(Some(" 1 ")));
    // off and junk values
    assert!(!parity_f32_enabled_from_env(Some("0")));
    assert!(!parity_f32_enabled_from_env(Some("off")));
    assert!(!parity_f32_enabled_from_env(Some("false")));
    assert!(!parity_f32_enabled_from_env(Some("no")));
    assert!(!parity_f32_enabled_from_env(Some("")));
    assert!(!parity_f32_enabled_from_env(Some("garbage")));
}

#[test]
fn graph_env_default_off() {
    assert!(!graph_enabled_from_env(None));
    // explicit on values
    assert!(graph_enabled_from_env(Some("1")));
    assert!(graph_enabled_from_env(Some("on")));
    assert!(graph_enabled_from_env(Some("ON")));
    assert!(graph_enabled_from_env(Some("yes")));
    assert!(graph_enabled_from_env(Some(" true ")));
    // off values, the empty text among them
    assert!(!graph_enabled_from_env(Some("0")));
    assert!(!graph_enabled_from_env(Some("off")));
    assert!(!graph_enabled_from_env(Some("OFF")));
    assert!(!graph_enabled_from_env(Some("false")));
    assert!(!graph_enabled_from_env(Some("no")));
    assert!(!graph_enabled_from_env(Some("")));
    assert!(!graph_enabled_from_env(Some("  ")));
}

#[test]
fn off_switches_default_to_on() {
    let offs: [fn(Option<&str>) -> bool; 4] = [
        fused_decode_disabled_from_env,
        layer_fused_disabled_from_env,
        decode_flash_disabled_from_env,
        jgemm_disabled_from_env,
    ];
    for f in offs {
        assert!(!f(None));
        assert!(f(Some("0")));
        assert!(f(Some(" OFF\t")));
        assert!(f(Some("False")));
        assert!(f(Some("no")));
        assert!(!f(Some("1")));
        assert!(!f(Some("")));
        assert!(!f(Some("n")));
    }
}

#[test]
fn profilers_default_to_off() {
    let ons: [fn(Option<&str>) -> bool; 3] = [
        decode_profile_enabled_from_env,
        batch_prof_enabled_from_env,
        prefill_profile_enabled_from_env,
    ];
    for f in ons {
        assert!(!f(None));
        assert!(f(Some("yes")));
        assert!(f(Some("\u{a0}on")));
        assert!(!f(Some("no")));
        assert!(!f(Some("onn")));
    }
}
