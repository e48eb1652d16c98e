use reinfer_cuda::engine_error::EngineError;
use reinfer_cuda::float_bits::{bf16_to_f32, f16_bits_to_f32, f32_to_f16_bits};
use reinfer_cuda::load::{
    config_outcome, identity_pages, pages_per_layer, parse_config, step_sizes, wants_fused,
    wants_layer_fused, Switches,
};
use reinfer_cuda::model::LlamaConfig;
use reinfer_cuda::sampling::{all_nan, argmax_first};
use reinfer_cuda::weights::{
    check_matrix, check_vector, elemsize, expand_f16_to_f32, join_qkv, layer_tensor, readback_f16,
    row_to_f16, to_f16_rm, to_f16_rows, to_f16_vec, StDtype, TensorView,
};

fn half(f: f32) -> u16 {
    f32_to_f16_bits(f.to_bits())
}

#[test]
fn halves_of_known_values() {
    assert_eq!(half(0.0), 0);
    assert_eq!(half(-0.0), 0x8000);
    assert_eq!(half(1.0), 0x3c00);
    assert_eq!(half(-2.0), 0xc000);
    assert_eq!(half(65504.0), 0x7bff);
    assert_eq!(half(65519.0), 0x7bff);
    assert_eq!(half(65520.0), 0x7c00);
    assert_eq!(half(f32::INFINITY), 0x7c00);
    assert_eq!(half(f32::NEG_INFINITY), 0xfc00);
    assert_eq!(half(6.1035156e-5), 0x0400);
    assert_eq!(half(5.9604645e-8), 0x0001);
    assert_eq!(half(1e-10), 0);
    // ties go to the even neighbour
    assert_eq!(half(1.0 + 1.0 / 2048.0), 0x3c00);
    assert_eq!(half(1.0 + 3.0 / 2048.0), 0x3c02);
    assert_eq!(half(1.0 + 1.1 / 2048.0), 0x3c01);
}

#[test]
fn every_half_survives_widening() {
    for h in 0..=u16::MAX {
        let f = f16_bits_to_f32(h);
        let nan = (h & 0x7c00) == 0x7c00 && (h & 0x3ff) != 0;
        assert_eq!(f32::from_bits(f).is_nan(), nan);
        assert_eq!(f32_to_f16_bits(f), h);
    }
    assert_eq!(f32::from_bits(f16_bits_to_f32(0x3555)), 0.333_251_95);
    assert_eq!(f32::from_bits(f16_bits_to_f32(0x0001)), 5.960_464_5e-8);
    assert_eq!(bf16_to_f32(0x3f80), 1.0f32.to_bits());
}

fn f32_bytes(v: &[f32]) -> Vec<u8> {
    v.iter().flat_map(|f| f.to_le_bytes()).collect()
}

fn f16_bytes(v: &[f32]) -> Vec<u8> {
    v.iter().flat_map(|f| half(*f).to_le_bytes()).collect()
}

fn view(dtype: StDtype, shape: &[u64], bytes: Vec<u8>) -> TensorView {
    TensorView { dtype, shape: shape.to_vec(), bytes }
}

#[test]
fn matrices_are_transposed_and_rows_are_not() {
    let v = [1.0, 2.0, 3.0, 4.0, 5.0, 6.0];
    let t = view(StDtype::F32, &[2, 3], f32_bytes(&v));
    assert_eq!(to_f16_rm(&t, 2, 3).unwrap(), f16_bytes(&[1.0, 4.0, 2.0, 5.0, 3.0, 6.0]));
    assert_eq!(to_f16_rows(&t).unwrap(), f16_bytes(&v));
    let h = view(StDtype::F16, &[2, 3], f16_bytes(&v));
    assert_eq!(to_f16_rm(&h, 2, 3).unwrap(), f16_bytes(&[1.0, 4.0, 2.0, 5.0, 3.0, 6.0]));
    let b: Vec<u8> = v.iter().flat_map(|f| ((f.to_bits() >> 16) as u16).to_le_bytes()).collect();
    assert_eq!(to_f16_rows(&view(StDtype::Bf16, &[3, 2], b)).unwrap(), f16_bytes(&v));
}

#[test]
fn other_types_are_refused() {
    let i8s = StDtype::Other("I8".to_string());
    let refused = Err(EngineError::UnsupportedDtype("I8".to_string()));
    let t = view(i8s.clone(), &[1, 2], vec![0; 4]);
    assert_eq!(to_f16_rm(&t, 1, 2), refused);
    assert_eq!(to_f16_rows(&t), refused);
    assert_eq!(to_f16_vec(&view(i8s.clone(), &[2], vec![0; 4])), refused);
    let mut out = vec![9; 4];
    assert!(row_to_f16(&i8s, &[0; 4], &mut out).is_err());
    assert_eq!(out, vec![9; 4]);
    // nothing to convert, nothing to refuse
    assert_eq!(to_f16_rm(&view(i8s.clone(), &[0, 2], vec![]), 0, 2), Ok(vec![]));
    assert_eq!((elemsize(&i8s), elemsize(&StDtype::F32), elemsize(&StDtype::Bf16)), (2, 4, 2));
}

#[test]
fn vectors_and_their_rest() {
    let t = view(StDtype::F32, &[3], f32_bytes(&[1.5, -2.0]));
    let mut want = f16_bytes(&[1.5, -2.0]);
    want.extend([0, 0]);
    assert_eq!(to_f16_vec(&t).unwrap(), want);
    let bytes = f16_bytes(&[7.0]);
    assert_eq!(to_f16_vec(&view(StDtype::F16, &[1], bytes.clone())).unwrap(), bytes);
}

#[test]
fn expansion_keeps_values() {
    let v = [1.0f32, -0.5, 65504.0, 5.9604645e-8];
    assert_eq!(expand_f16_to_f32(&f16_bytes(&v)), f32_bytes(&v));
    let back: Vec<u32> = v.iter().map(|f| f.to_bits()).collect();
    assert_eq!(readback_f16(&f16_bytes(&v)), back);
    assert_eq!(expand_f16_to_f32(&vec![0, 60, 1]).len(), 4);
}

#[test]
fn joined_weights_have_their_rows_side_by_side() {
    // two rows: one query element, two key elements, two value elements
    let q = vec![1, 2, 11, 12];
    let k = vec![21, 22, 23, 24, 31, 32, 33, 34];
    let v = vec![41, 42, 43, 44, 51, 52, 53, 54];
    assert_eq!(
        join_qkv(&q, &k, &v, 2, 1, 2),
        vec![
            1, 2, 21, 22, 23, 24, 41, 42, 43, 44, 11, 12, 31, 32, 33, 34, 51, 52, 53, 54
        ]
    );
}

#[test]
fn shapes_and_names() {
    assert_eq!(check_matrix("w", &vec![2, 3], 2, 3), Ok(()));
    assert_eq!(
        check_matrix("lm_head.weight", &vec![3, 2], 2, 3),
        Err(EngineError::WeightShape("lm_head.weight: expected [2,3] got [3, 2]".to_string()))
    );
    assert_eq!(
        check_matrix("w", &vec![2, 3, 1], 2, 3),
        Err(EngineError::WeightShape("w: expected [2,3] got [2, 3, 1]".to_string()))
    );
    assert_eq!(check_vector("n", &vec![7], 7), Ok(()));
    assert_eq!(
        check_vector("n", &vec![], 7),
        Err(EngineError::WeightShape("n: expected [7] got []".to_string()))
    );
    assert_eq!(
        layer_tensor(12, "self_attn.q_proj.weight"),
        "model.layers.12.self_attn.q_proj.weight"
    );
}

#[test]
fn config_is_parsed_or_refused_in_words() {
    let v = parse_config(b"{\"hidden_size\": 1024, \"x\": [1, 2]}").unwrap();
    assert_eq!(v["hidden_size"].as_u64(), Some(1024));
    assert_eq!(v["x"][1].as_u64(), Some(2));
    let e = parse_config(b"{\"hidden_size\": }").unwrap_err();
    assert_eq!(
        e,
        EngineError::Sts("config.json: expected value at line 1 column 17".to_string())
    );
    assert_eq!(
        config_outcome(Err("broken".to_string())),
        Err(EngineError::Sts("config.json: broken".to_string()))
    );
    assert_eq!(config_outcome(Ok(v.clone())), Ok(v));
}

fn cfg(head_dim: usize, hidden: usize) -> LlamaConfig {
    LlamaConfig {
        hidden_size: hidden,
        q_heads: 16,
        kv_heads: 8,
        head_dim,
        ffn_hidden: 3072,
        vocab_size: 1000,
        n_layer: 2,
        rms_eps: 1,
        rope_theta: 2,
        q_scale: 3,
        head_norm: true,
    }
}

const ON: Switches = Switches {
    parity_f32: false,
    fused_off: false,
    layer_fused_off: false,
    jgemm_off: false,
    flash_off: false,
};

#[test]
fn fusion_by_geometry_and_switches() {
    assert!(wants_fused(&ON, &cfg(128, 1024), true));
    assert!(!wants_fused(&ON, &cfg(128, 1024), false));
    assert!(!wants_fused(&ON, &cfg(128, 1025), true));
    assert!(!wants_fused(&ON, &cfg(16, 1024), true));
    assert!(!wants_fused(&ON, &cfg(96, 1024), true));
    for s in [
        Switches { parity_f32: true, ..ON },
        Switches { fused_off: true, ..ON },
        Switches { jgemm_off: true, ..ON },
        Switches { flash_off: true, ..ON },
    ] {
        assert!(!wants_fused(&s, &cfg(128, 1024), true));
    }
    assert!(wants_layer_fused(&ON, &cfg(128, 1024), true));
    assert!(!wants_layer_fused(&ON, &cfg(128, 1024), false));
    assert!(!wants_layer_fused(&ON, &cfg(32, 1024), true));
    assert!(wants_fused(&ON, &cfg(32, 1024), true));
    assert!(!wants_layer_fused(&ON, &cfg(512, 1024), true));
    assert!(!wants_layer_fused(
        &Switches { layer_fused_off: true, ..ON },
        &cfg(128, 1024),
        true
    ));
}

#[test]
fn pages_and_sizes_of_a_model() {
    assert_eq!(pages_per_layer(0), 0);
    assert_eq!(pages_per_layer(1), 1);
    assert_eq!(pages_per_layer(32), 1);
    assert_eq!(pages_per_layer(2049), 65);
    let want: Vec<u8> = (0..6u32).flat_map(|i| i.to_le_bytes()).collect();
    assert_eq!(identity_pages(2, 3), want);
    let s = step_sizes(&cfg(128, 1024), 2048);
    assert_eq!((s.lens, s.xn, s.attn, s.v), (4, 2048, 4096, 2048));
    assert_eq!((s.c_u, s.logits, s.scores), (12288, 4000, 2048 * 2048 * 4));
}

#[test]
fn the_table_names_the_page_of_every_position() {
    let (n_layer, pp) = (3, 5);
    let table = identity_pages(n_layer, pp);
    for li in 0..n_layer {
        for pos in [0, 31, 32, 159] {
            let at = (li * pp + pos / 32) * 4;
            let page = u32::from_le_bytes(table[at..at + 4].try_into().unwrap());
            assert_eq!(page as usize, li * pp + pos / 32);
        }
    }
}

#[test]
fn first_largest_logit() {
    let bits = |v: &[f32]| v.iter().map(|f| f.to_bits()).collect::<Vec<u32>>();
    assert_eq!(argmax_first(&bits(&[1.0, 3.0, 3.0, -1.0])), 1);
    assert_eq!(argmax_first(&bits(&[-2.0, -1.0, -3.0])), 1);
    assert_eq!(argmax_first(&bits(&[-0.0, 0.0])), 0);
    assert_eq!(argmax_first(&bits(&[1.0, f32::NAN, 2.0])), 2);
    assert_eq!(argmax_first(&bits(&[f32::NAN, 1.0])), 0);
    assert_eq!(argmax_first(&bits(&[f32::NEG_INFINITY, f32::MIN])), 1);
    assert_eq!(argmax_first(&[]), 0);
    assert!(all_nan(&bits(&[f32::NAN, f32::NAN])));
    assert!(!all_nan(&bits(&[f32::NAN, f32::INFINITY])));
    assert!(all_nan(&[]));
}
