use reinfer_cuda::batch_step::can_size;
use reinfer_cuda::engine_error::EngineError;
use reinfer_cuda::model::LlamaConfig;
use reinfer_cuda::prefill::can_size_pass;
use reinfer_cuda::tensors::{layer_reqs, model_reqs, WeightForm, WeightReq};
use reinfer_cuda::weights::{StDtype, TensorView};

fn cfg() -> LlamaConfig {
    LlamaConfig {
        hidden_size: 3,
        q_heads: 2,
        kv_heads: 1,
        head_dim: 1,
        ffn_hidden: 4,
        vocab_size: 5,
        n_layer: 2,
        rms_eps: 0,
        rope_theta: 0,
        q_scale: 0,
        head_norm: true,
    }
}

fn asks(r: &WeightReq) -> (&str, WeightForm, usize, usize) {
    (r.name.as_str(), r.form, r.rows, r.cols)
}

fn halves(v: &[u16]) -> Vec<u8> {
    v.iter().flat_map(|h| h.to_le_bytes()).collect()
}

fn tensor(shape: &[u64], v: &[u16]) -> TensorView {
    TensorView { dtype: StDtype::F16, shape: shape.to_vec(), bytes: halves(v) }
}

#[test]
fn tensors_of_a_model() {
    let m = model_reqs(&cfg());
    assert_eq!(asks(&m.embed), ("model.embed_tokens.weight", WeightForm::Rows, 5, 3));
    assert_eq!(asks(&m.lm_head), ("lm_head.weight", WeightForm::Transposed, 5, 3));
    assert_eq!(asks(&m.final_norm), ("model.norm.weight", WeightForm::Vector, 3, 1));
    let l = layer_reqs(&cfg(), 12);
    let t = WeightForm::Transposed;
    let v = WeightForm::Vector;
    assert_eq!(asks(&l.attn_norm), ("model.layers.12.input_layernorm.weight", v, 3, 1));
    assert_eq!(asks(&l.q_proj), ("model.layers.12.self_attn.q_proj.weight", t, 2, 3));
    assert_eq!(asks(&l.k_proj), ("model.layers.12.self_attn.k_proj.weight", t, 1, 3));
    assert_eq!(asks(&l.v_proj), ("model.layers.12.self_attn.v_proj.weight", t, 1, 3));
    assert_eq!(asks(&l.o_proj), ("model.layers.12.self_attn.o_proj.weight", t, 3, 2));
    assert_eq!(asks(&l.ffn_norm), ("model.layers.12.post_attention_layernorm.weight", v, 3, 1));
    assert_eq!(asks(&l.gate_proj), ("model.layers.12.mlp.gate_proj.weight", t, 4, 3));
    assert_eq!(asks(&l.up_proj), ("model.layers.12.mlp.up_proj.weight", t, 4, 3));
    assert_eq!(asks(&l.down_proj), ("model.layers.12.mlp.down_proj.weight", t, 3, 4));
    let norm = l.q_norm.as_ref().unwrap();
    assert_eq!(asks(norm), ("model.layers.12.self_attn.q_norm.weight", v, 1, 1));
    let norm = l.k_norm.as_ref().unwrap();
    assert_eq!(asks(norm), ("model.layers.12.self_attn.k_norm.weight", v, 1, 1));
    let bare = layer_reqs(&LlamaConfig { head_norm: false, ..cfg() }, 0);
    assert!(bare.q_norm.is_none() && bare.k_norm.is_none());
}

#[test]
fn bytes_for_the_device() {
    let q = layer_reqs(&cfg(), 0).q_proj;
    let view = tensor(&[2, 3], &[1, 2, 3, 4, 5, 6]);
    assert!(q.is_backed(&view));
    assert_eq!(q.device_bytes(&view, false).unwrap(), halves(&[1, 4, 2, 5, 3, 6]));
    let one = tensor(&[2, 3], &[0x3c00; 6]);
    let want: Vec<u8> = [1.0f32; 6].iter().flat_map(|f| f.to_le_bytes()).collect();
    assert_eq!(q.device_bytes(&one, true).unwrap(), want);
    let rows = model_reqs(&cfg()).embed;
    let v: Vec<u16> = (0..15).collect();
    assert_eq!(rows.device_bytes(&tensor(&[5, 3], &v), false).unwrap(), halves(&v));
    let norm = model_reqs(&cfg()).final_norm;
    assert_eq!(norm.device_bytes(&tensor(&[3], &[7, 8, 9]), false).unwrap(), halves(&[7, 8, 9]));
}

#[test]
fn tensors_that_are_refused() {
    let q = layer_reqs(&cfg(), 0).q_proj;
    let text = "model.layers.0.self_attn.q_proj.weight: expected [2,3] got [3, 2]";
    let other = tensor(&[3, 2], &[0; 6]);
    assert_eq!(q.device_bytes(&other, false), Err(EngineError::WeightShape(text.to_string())));
    assert_eq!(q.check_shape(&other), Err(EngineError::WeightShape(text.to_string())));
    let mut odd = tensor(&[2, 3], &[0; 6]);
    odd.dtype = StDtype::Other("I64".to_string());
    assert!(q.is_backed(&odd));
    let e = Err(EngineError::UnsupportedDtype("I64".to_string()));
    assert_eq!(q.device_bytes(&odd, false), e);
    assert!(!q.is_backed(&tensor(&[2, 3], &[0; 5])));
    let norm = model_reqs(&cfg()).final_norm;
    assert!(!norm.is_backed(&tensor(&[3], &[0; 4])));
    let text = "model.norm.weight: expected [3] got [4]";
    let r = norm.device_bytes(&tensor(&[4], &[0; 4]), false);
    assert_eq!(r, Err(EngineError::WeightShape(text.to_string())));
}

#[test]
fn projections_join_row_by_row() {
    let l = layer_reqs(&cfg(), 0);
    let q = tensor(&[2, 3], &[1, 2, 3, 4, 5, 6]);
    let k = tensor(&[1, 3], &[11, 12, 13]);
    let v = tensor(&[1, 3], &[21, 22, 23]);
    let want = halves(&[1, 4, 11, 21, 2, 5, 12, 22, 3, 6, 13, 23]);
    assert_eq!(l.joined_bytes(&q, &k, &v).unwrap(), want);
    // the first that is refused says why
    let mut bad = tensor(&[1, 3], &[0; 3]);
    bad.dtype = StDtype::Other("U8".to_string());
    let short = tensor(&[3], &[0; 3]);
    let e = l.joined_bytes(&q, &bad, &short).unwrap_err();
    assert_eq!(e, EngineError::UnsupportedDtype("U8".to_string()));
    let e = l.joined_bytes(&q, &short, &bad).unwrap_err();
    assert!(matches!(e, EngineError::WeightShape(_)));
}

#[test]
fn models_that_fit() {
    assert!(cfg().fits());
    assert!(!LlamaConfig { n_layer: 0, ..cfg() }.fits());
    assert!(!LlamaConfig { vocab_size: 0x4000_0000, ..cfg() }.fits());
    assert!(!LlamaConfig { q_heads: usize::MAX, head_dim: 2, ..cfg() }.fits());
    assert!(can_size(&cfg(), 4, 3));
    assert!(!can_size(&cfg(), 4, usize::MAX / 4));
    assert!(!can_size(&cfg(), usize::MAX / 32 + 1, 1));
    assert!(can_size_pass(&cfg(), 129, 128));
    assert!(!can_size_pass(&cfg(), usize::MAX / 8, 128));
}
